//! The transaction manager: the queue of trades and the one that is being
//! submitted.
//!
//! Signing and broadcasting belong to the wallet and are not done here. The
//! manager decides what is submitted and when, and what each answer of the
//! network means. A request is `Queued` until the manager hands its swaps
//! out, `Submitting` until an answer settles it, and then `Confirmed`,
//! `Rejected` or `TimedOut` for good.

use crate::opportunity::{ArbitrageOpportunity, Leg};
use crate::pipeline::{PipelineEventView, PipelineModel};
use crate::pool::{Triangle, TriangleView};
use crate::pricing::{reduce_by_bps, reduced_by_bps};
use std::collections::VecDeque;
use vstd::prelude::*;

verus! {

/// How trades are executed.
#[derive(Clone, Copy, Debug, PartialEq, Eq, Structural)]
pub struct TransactionManagerConfig {
    /// How far, in basis points, the output of a swap may fall short of its
    /// projection before the swap must fail.
    pub slippage_bps: u64,
    /// How long a submission may stay without an answer.
    pub confirmation_timeout_ms: u64,
}

/// Where a request stands.
#[derive(Clone, Copy, Debug, PartialEq, Eq, Structural)]
pub enum RequestState {
    Queued,
    Submitting,
    Confirmed,
    Rejected,
    TimedOut,
}

impl RequestState {
    /// The states that a request never leaves.
    pub open spec fn is_terminal(self) -> bool {
        self == RequestState::Confirmed || self == RequestState::Rejected || self
            == RequestState::TimedOut
    }

    /// The steps a request can take: from `Queued` to `Submitting`, and
    /// from `Submitting` to a terminal state.
    pub open spec fn may_become(self, next: RequestState) -> bool {
        ||| self == RequestState::Queued && next == RequestState::Submitting
        ||| self == RequestState::Submitting && next.is_terminal()
    }

    /// Whether the request has reached a state that it never leaves.
    pub fn is_final(&self) -> (terminal: bool)
        ensures
            terminal == self.is_terminal(),
    {
        match self {
            RequestState::Queued => false,
            RequestState::Submitting => false,
            RequestState::Confirmed => true,
            RequestState::Rejected => true,
            RequestState::TimedOut => true,
        }
    }
}

/// An opportunity that was handed over for execution, with its state.
#[derive(Clone, Copy, Debug, PartialEq, Eq, Structural)]
pub struct TradeExecutionRequest {
    pub opportunity: ArbitrageOpportunity,
    pub state: RequestState,
}

/// One swap for the wallet to sign.
#[derive(Debug, PartialEq, Eq)]
pub struct SwapInstruction {
    pub pool_address: String,
    /// Whether the swap pays in the first token of the pool.
    pub sells_first: bool,
    pub amount_in: u64,
    /// The least output that the swap accepts.
    pub minimum_amount_out: u64,
}

/// A `SwapInstruction` as a mathematical value.
pub struct SwapInstructionView {
    pub pool_address: Seq<char>,
    pub sells_first: bool,
    pub amount_in: u64,
    pub minimum_amount_out: u64,
}

impl View for SwapInstruction {
    type V = SwapInstructionView;

    open spec fn view(&self) -> SwapInstructionView {
        SwapInstructionView {
            pool_address: self.pool_address@,
            sells_first: self.sells_first,
            amount_in: self.amount_in,
            minimum_amount_out: self.minimum_amount_out,
        }
    }
}

impl Clone for SwapInstruction {
    fn clone(&self) -> (copy: Self)
        ensures
            copy == *self,
    {
        SwapInstruction {
            pool_address: self.pool_address.clone(),
            sells_first: self.sells_first,
            amount_in: self.amount_in,
            minimum_amount_out: self.minimum_amount_out,
        }
    }
}

/// The views of a sequence of instructions.
pub open spec fn instruction_views(instructions: Seq<SwapInstruction>) -> Seq<SwapInstructionView> {
    Seq::new(instructions.len(), |i: int| instructions[i]@)
}

/// The swap that a leg asks for: the leg's input into the leg's pool, for
/// no less than the projected output reduced by the slippage tolerance.
pub open spec fn instruction_for(triangle: TriangleView, slippage_bps: u64, leg: Leg) -> SwapInstructionView {
    SwapInstructionView {
        pool_address: triangle.address_of(leg.pool),
        sells_first: leg.sells_first,
        amount_in: leg.amount_in,
        minimum_amount_out: reduced_by_bps(leg.amount_out as nat, slippage_bps as nat) as u64,
    }
}

/// The swaps of an opportunity, one for each leg, in the order of the legs.
pub open spec fn swap_plan(
    triangle: TriangleView,
    slippage_bps: u64,
    opportunity: ArbitrageOpportunity,
) -> Seq<SwapInstructionView> {
    seq![
        instruction_for(triangle, slippage_bps, opportunity.first_leg),
        instruction_for(triangle, slippage_bps, opportunity.second_leg),
        instruction_for(triangle, slippage_bps, opportunity.third_leg),
    ]
}

/// What the wallet says of the submission in flight.
#[derive(Debug, PartialEq, Eq)]
pub enum SubmissionReport {
    /// The network confirmed the transaction under this signature.
    Confirmed(String),
    /// The network refused the transaction, for this reason.
    Rejected(String),
    /// No answer yet, this long after the submission.
    Pending { elapsed_ms: u64 },
}

/// A `SubmissionReport` as a mathematical value.
pub enum SubmissionReportView {
    Confirmed(Seq<char>),
    Rejected(Seq<char>),
    Pending { elapsed_ms: u64 },
}

impl View for SubmissionReport {
    type V = SubmissionReportView;

    open spec fn view(&self) -> SubmissionReportView {
        match self {
            SubmissionReport::Confirmed(signature) => SubmissionReportView::Confirmed(signature@),
            SubmissionReport::Rejected(reason) => SubmissionReportView::Rejected(reason@),
            SubmissionReport::Pending { elapsed_ms } => SubmissionReportView::Pending {
                elapsed_ms: *elapsed_ms,
            },
        }
    }
}

/// Why an execution did not end in a confirmed transaction.
#[derive(Debug, PartialEq, Eq)]
pub enum ExecutionError {
    /// The network refused the transaction. Nothing changed on chain.
    Rejected(String),
    /// No answer came within the bound. The transaction may or may not have
    /// gone through; this needs reconciling and is no clean failure.
    TimedOut,
}

/// An `ExecutionError` as a mathematical value.
pub enum ExecutionErrorView {
    Rejected(Seq<char>),
    TimedOut,
}

impl View for ExecutionError {
    type V = ExecutionErrorView;

    open spec fn view(&self) -> ExecutionErrorView {
        match self {
            ExecutionError::Rejected(reason) => ExecutionErrorView::Rejected(reason@),
            ExecutionError::TimedOut => ExecutionErrorView::TimedOut,
        }
    }
}

/// How one execution ended: the request in its terminal state, and the
/// signature of the confirmed transaction or the failure.
#[derive(Debug, PartialEq, Eq)]
pub struct TransactionOutcome {
    pub request: TradeExecutionRequest,
    pub result: Result<String, ExecutionError>,
}

/// A `TransactionOutcome` as a mathematical value.
pub struct TransactionOutcomeView {
    pub request: TradeExecutionRequest,
    pub result: Result<Seq<char>, ExecutionErrorView>,
}

impl View for TransactionOutcome {
    type V = TransactionOutcomeView;

    open spec fn view(&self) -> TransactionOutcomeView {
        TransactionOutcomeView {
            request: self.request,
            result: match self.result {
                Ok(signature) => Ok(signature@),
                Err(error) => Err(error@),
            },
        }
    }
}

/// A request on its way out: the swaps to sign and submit as one atomic
/// transaction.
#[derive(Debug, PartialEq, Eq)]
pub struct Dispatch {
    pub request: TradeExecutionRequest,
    pub instructions: Vec<SwapInstruction>,
}

/// What a report did to the submission in flight.
#[derive(Debug, PartialEq, Eq)]
pub enum SubmissionProgress {
    /// Nothing was in flight; the report was dropped.
    Idle,
    /// The submission is still in flight and within its bound.
    Waiting,
    /// The submission reached a terminal state.
    Resolved(TransactionOutcome),
}

/// A `SubmissionProgress` as a mathematical value.
pub enum SubmissionProgressView {
    Idle,
    Waiting,
    Resolved(TransactionOutcomeView),
}

impl View for SubmissionProgress {
    type V = SubmissionProgressView;

    open spec fn view(&self) -> SubmissionProgressView {
        match self {
            SubmissionProgress::Idle => SubmissionProgressView::Idle,
            SubmissionProgress::Waiting => SubmissionProgressView::Waiting,
            SubmissionProgress::Resolved(outcome) => SubmissionProgressView::Resolved(outcome@),
        }
    }
}

/// The manager as a mathematical value.
pub struct ManagerModel {
    pub config: TransactionManagerConfig,
    pub triangle: TriangleView,
    /// The queued opportunities, oldest first.
    pub pending: Seq<ArbitrageOpportunity>,
    /// The opportunity that is being submitted, if any.
    pub in_flight: Option<ArbitrageOpportunity>,
    /// Whether shutdown was asked for.
    pub draining: bool,
}

impl ManagerModel {
    /// A manager with nothing queued and nothing in flight.
    pub open spec fn idle(config: TransactionManagerConfig, triangle: TriangleView) -> ManagerModel {
        ManagerModel { config, triangle, pending: Seq::empty(), in_flight: None, draining: false }
    }

    /// The manager with one more opportunity at the back of the queue.
    pub open spec fn with_enqueued(self, opportunity: ArbitrageOpportunity) -> ManagerModel {
        ManagerModel { pending: self.pending.push(opportunity), ..self }
    }

    /// Whether the next request may start: nothing is in flight, something
    /// is queued, and shutdown was not asked for.
    pub open spec fn can_begin(self) -> bool {
        self.in_flight is None && self.pending.len() > 0 && !self.draining
    }

    /// The manager after the oldest queued request has started, if it may.
    pub open spec fn with_begun(self) -> ManagerModel {
        if self.can_begin() {
            ManagerModel {
                pending: self.pending.subrange(1, self.pending.len() as int),
                in_flight: Some(self.pending[0]),
                ..self
            }
        } else {
            self
        }
    }

    /// The swaps that the manager asks for an opportunity.
    pub open spec fn plan(self, opportunity: ArbitrageOpportunity) -> Seq<SwapInstructionView> {
        swap_plan(self.triangle, self.config.slippage_bps, opportunity)
    }

    /// Whether a report leaves the submission in flight: there is one, no
    /// answer has come, and the bound has not been reached.
    pub open spec fn keeps_waiting(self, report: SubmissionReportView) -> bool {
        self.in_flight is Some && (report matches SubmissionReportView::Pending { elapsed_ms }
            && elapsed_ms < self.config.confirmation_timeout_ms)
    }

    /// Whether a report settles the submission in flight.
    pub open spec fn settles(self, report: SubmissionReportView) -> bool {
        self.in_flight is Some && !self.keeps_waiting(report)
    }

    /// The terminal state that a settling report stands for. No answer
    /// within the bound is `TimedOut`, never `Rejected`.
    pub open spec fn terminal_state(report: SubmissionReportView) -> RequestState {
        match report {
            SubmissionReportView::Confirmed(_) => RequestState::Confirmed,
            SubmissionReportView::Rejected(_) => RequestState::Rejected,
            SubmissionReportView::Pending { .. } => RequestState::TimedOut,
        }
    }

    /// The result that a settling report stands for.
    pub open spec fn result_of(report: SubmissionReportView) -> Result<Seq<char>, ExecutionErrorView> {
        match report {
            SubmissionReportView::Confirmed(signature) => Ok(signature),
            SubmissionReportView::Rejected(reason) => Err(ExecutionErrorView::Rejected(reason)),
            SubmissionReportView::Pending { .. } => Err(ExecutionErrorView::TimedOut),
        }
    }

    /// What a report does to the submission in flight.
    pub open spec fn progress_on(self, report: SubmissionReportView) -> SubmissionProgressView {
        if self.in_flight is None {
            SubmissionProgressView::Idle
        } else if self.keeps_waiting(report) {
            SubmissionProgressView::Waiting
        } else {
            SubmissionProgressView::Resolved(
                TransactionOutcomeView {
                    request: TradeExecutionRequest {
                        opportunity: self.in_flight->0,
                        state: Self::terminal_state(report),
                    },
                    result: Self::result_of(report),
                },
            )
        }
    }

    /// The manager after a report: a settled submission is no longer in
    /// flight, and nothing goes back into the queue.
    pub open spec fn with_report(self, report: SubmissionReportView) -> ManagerModel {
        if self.settles(report) {
            ManagerModel { in_flight: None, ..self }
        } else {
            self
        }
    }

    /// The manager after shutdown was asked for.
    pub open spec fn with_shutdown(self) -> ManagerModel {
        ManagerModel { draining: true, ..self }
    }
}

/// The transaction manager. It takes requests in the order in which they
/// were queued and has at most one of them in flight.
pub struct TransactionManager {
    config: TransactionManagerConfig,
    triangle: Triangle,
    pending: VecDeque<ArbitrageOpportunity>,
    in_flight: Option<ArbitrageOpportunity>,
    draining: bool,
}

impl View for TransactionManager {
    type V = ManagerModel;

    closed spec fn view(&self) -> ManagerModel {
        ManagerModel {
            config: self.config,
            triangle: self.triangle@,
            pending: self.pending@,
            in_flight: self.in_flight,
            draining: self.draining,
        }
    }
}

impl TransactionManager {
    /// A manager with nothing queued and nothing in flight.
    pub fn new(config: TransactionManagerConfig, triangle: Triangle) -> (manager: Self)
        ensures
            manager@ == ManagerModel::idle(config, triangle@),
    {
        TransactionManager { config, triangle, pending: VecDeque::new(), in_flight: None, draining: false }
    }

    /// Puts an opportunity at the back of the queue.
    pub fn enqueue(&mut self, opportunity: ArbitrageOpportunity) -> (request: TradeExecutionRequest)
        ensures
            final(self)@ == old(self)@.with_enqueued(opportunity),
            request == (TradeExecutionRequest { opportunity, state: RequestState::Queued }),
    {
        self.pending.push_back(opportunity);
        TradeExecutionRequest { opportunity, state: RequestState::Queued }
    }

    /// The swap for one leg.
    fn build_instruction(&self, leg: &Leg) -> (instruction: SwapInstruction)
        ensures
            instruction@ == instruction_for(self@.triangle, self@.config.slippage_bps, *leg),
    {
        SwapInstruction {
            pool_address: self.triangle.address_of(leg.pool).clone(),
            sells_first: leg.sells_first,
            amount_in: leg.amount_in,
            minimum_amount_out: reduce_by_bps(leg.amount_out, self.config.slippage_bps),
        }
    }

    /// Builds the ordered swaps that an opportunity implies: one for each
    /// leg, each paying in what the leg before is projected to pay out.
    pub fn build_swap_instructions(&self, opportunity: &ArbitrageOpportunity) -> (instructions: Vec<
        SwapInstruction,
    >)
        ensures
            instruction_views(instructions@) == self@.plan(*opportunity),
    {
        let mut instructions: Vec<SwapInstruction> = Vec::new();
        instructions.push(self.build_instruction(&opportunity.first_leg));
        instructions.push(self.build_instruction(&opportunity.second_leg));
        instructions.push(self.build_instruction(&opportunity.third_leg));
        assert(instruction_views(instructions@) =~= self@.plan(*opportunity));
        instructions
    }

    /// Starts the oldest queued request, unless one is in flight, the queue
    /// is empty, or shutdown was asked for.
    pub fn begin_next(&mut self) -> (dispatch: Option<Dispatch>)
        ensures
            dispatch is Some <==> old(self)@.can_begin(),
            final(self)@ == old(self)@.with_begun(),
            dispatch matches Some(started) ==> {
                &&& started.request == (TradeExecutionRequest {
                    opportunity: old(self)@.pending[0],
                    state: RequestState::Submitting,
                })
                &&& instruction_views(started.instructions@) == old(self)@.plan(old(self)@.pending[0])
            },
    {
        if self.draining || self.in_flight.is_some() {
            return None;
        }
        match self.pending.pop_front() {
            None => None,
            Some(opportunity) => {
                let instructions = self.build_swap_instructions(&opportunity);
                self.in_flight = Some(opportunity);
                Some(
                    Dispatch {
                        request: TradeExecutionRequest { opportunity, state: RequestState::Submitting },
                        instructions,
                    },
                )
            },
        }
    }

    /// Takes the wallet's word on the submission in flight. A confirmation
    /// or a refusal settles it; so does silence once the bound is reached,
    /// as `TimedOut`. A settled request is handed back and never retried.
    pub fn report(&mut self, report: SubmissionReport) -> (progress: SubmissionProgress)
        ensures
            final(self)@ == old(self)@.with_report(report@),
            progress@ == old(self)@.progress_on(report@),
    {
        let opportunity = match self.in_flight {
            None => {
                return SubmissionProgress::Idle;
            },
            Some(opportunity) => opportunity,
        };
        let (state, result): (RequestState, Result<String, ExecutionError>) = match report {
            SubmissionReport::Confirmed(signature) => (RequestState::Confirmed, Ok(signature)),
            SubmissionReport::Rejected(reason) => (
                RequestState::Rejected,
                Err(ExecutionError::Rejected(reason)),
            ),
            SubmissionReport::Pending { elapsed_ms } => {
                if elapsed_ms < self.config.confirmation_timeout_ms {
                    return SubmissionProgress::Waiting;
                }
                (RequestState::TimedOut, Err(ExecutionError::TimedOut))
            },
        };
        self.in_flight = None;
        SubmissionProgress::Resolved(
            TransactionOutcome { request: TradeExecutionRequest { opportunity, state }, result },
        )
    }

    /// Asks the manager to wind down: from now on no request starts.
    pub fn request_shutdown(&mut self)
        ensures
            final(self)@ == old(self)@.with_shutdown(),
    {
        self.draining = true;
    }

    /// Whether a submission is in flight.
    pub fn is_submitting(&self) -> (submitting: bool)
        ensures
            submitting == (self@.in_flight is Some),
    {
        self.in_flight.is_some()
    }

    /// Whether the process may exit without leaving an outcome unknown:
    /// nothing is in flight.
    pub fn may_exit(&self) -> (idle: bool)
        ensures
            idle == (self@.in_flight is None),
    {
        self.in_flight.is_none()
    }

    /// How many requests are queued.
    pub fn queued(&self) -> (count: usize)
        ensures
            count == self@.pending.len(),
    {
        self.pending.len()
    }

    /// How long a submission may stay without an answer.
    pub fn confirmation_timeout_ms(&self) -> (bound: u64)
        ensures
            bound == self@.config.confirmation_timeout_ms,
    {
        self.config.confirmation_timeout_ms
    }
}

/// One thing that happens to the manager.
pub enum ManagerStep {
    /// An opportunity arrives from the pipeline.
    Enqueue(ArbitrageOpportunity),
    /// The manager is asked to start the next request.
    Begin,
    /// The wallet reports on the submission in flight.
    Report(SubmissionReportView),
    /// Shutdown is asked for.
    Shutdown,
}

impl ManagerModel {
    /// The manager after one step.
    pub open spec fn after(self, step: ManagerStep) -> ManagerModel {
        match step {
            ManagerStep::Enqueue(opportunity) => self.with_enqueued(opportunity),
            ManagerStep::Begin => self.with_begun(),
            ManagerStep::Report(report) => self.with_report(report),
            ManagerStep::Shutdown => self.with_shutdown(),
        }
    }

    /// The request that a step starts, as a sequence of none or one.
    pub open spec fn begun_on(self, step: ManagerStep) -> Seq<ArbitrageOpportunity> {
        if step is Begin && self.can_begin() {
            seq![self.pending[0]]
        } else {
            Seq::empty()
        }
    }

    /// How many submissions a step settles: none or one.
    pub open spec fn settled_on(self, step: ManagerStep) -> nat {
        match step {
            ManagerStep::Report(report) => if self.settles(report) {
                1
            } else {
                0
            },
            _ => 0,
        }
    }

    /// The manager after a run of steps.
    pub open spec fn after_all(self, steps: Seq<ManagerStep>) -> ManagerModel
        decreases steps.len(),
    {
        if steps.len() == 0 {
            self
        } else {
            self.after_all(steps.drop_last()).after(steps.last())
        }
    }

    /// The requests that a run of steps starts, in the order of their start.
    pub open spec fn begun_over(self, steps: Seq<ManagerStep>) -> Seq<ArbitrageOpportunity>
        decreases steps.len(),
    {
        if steps.len() == 0 {
            Seq::empty()
        } else {
            self.begun_over(steps.drop_last()) + self.after_all(steps.drop_last()).begun_on(steps.last())
        }
    }

    /// How many submissions a run of steps settles.
    pub open spec fn settled_over(self, steps: Seq<ManagerStep>) -> nat
        decreases steps.len(),
    {
        if steps.len() == 0 {
            0
        } else {
            self.settled_over(steps.drop_last()) + self.after_all(steps.drop_last()).settled_on(
                steps.last(),
            )
        }
    }
}

/// The opportunities that a run of steps hands to the manager, in order.
pub open spec fn enqueued_by(steps: Seq<ManagerStep>) -> Seq<ArbitrageOpportunity>
    decreases steps.len(),
{
    if steps.len() == 0 {
        Seq::empty()
    } else {
        match steps.last() {
            ManagerStep::Enqueue(opportunity) => enqueued_by(steps.drop_last()).push(opportunity),
            _ => enqueued_by(steps.drop_last()),
        }
    }
}

/// One in flight at most. After any run of steps on a manager that began
/// idle, every request that was started has been settled, except the one
/// that is in flight, and that one is the last that was started.
pub proof fn lemma_one_in_flight_at_most(
    config: TransactionManagerConfig,
    triangle: TriangleView,
    steps: Seq<ManagerStep>,
)
    ensures
        ({
            let start = ManagerModel::idle(config, triangle);
            let begun = start.begun_over(steps);
            let settled = start.settled_over(steps);
            let now = start.after_all(steps);
            &&& now.in_flight is None ==> begun.len() == settled
            &&& now.in_flight is Some ==> begun.len() == settled + 1 && now.in_flight == Some(
                begun.last(),
            )
        }),
    decreases steps.len(),
{
    if steps.len() > 0 {
        lemma_one_in_flight_at_most(config, triangle, steps.drop_last());
    }
}

/// No second start. A step starts a request only when every request
/// started before it has reached a terminal state.
pub proof fn lemma_begin_waits_for_the_outcome_before(
    config: TransactionManagerConfig,
    triangle: TriangleView,
    steps: Seq<ManagerStep>,
    next: ManagerStep,
)
    requires
        ManagerModel::idle(config, triangle).after_all(steps).begun_on(next).len() > 0,
    ensures
        ManagerModel::idle(config, triangle).settled_over(steps) == ManagerModel::idle(
            config,
            triangle,
        ).begun_over(steps).len(),
{
    lemma_one_in_flight_at_most(config, triangle, steps);
}

/// First in, first out. The requests that were started, followed by those
/// still queued, are the opportunities that were handed in, in the order in
/// which they were handed in: none is skipped, repeated or overtaken.
pub proof fn lemma_requests_start_in_queue_order(
    config: TransactionManagerConfig,
    triangle: TriangleView,
    steps: Seq<ManagerStep>,
)
    ensures
        enqueued_by(steps) == ManagerModel::idle(config, triangle).begun_over(steps)
            + ManagerModel::idle(config, triangle).after_all(steps).pending,
    decreases steps.len(),
{
    let start = ManagerModel::idle(config, triangle);
    if steps.len() == 0 {
        assert(enqueued_by(steps) =~= start.begun_over(steps) + start.after_all(steps).pending);
    } else {
        let before = steps.drop_last();
        lemma_requests_start_in_queue_order(config, triangle, before);
        assert(enqueued_by(steps) =~= start.begun_over(steps) + start.after_all(steps).pending);
    }
}

/// What was started is a prefix of what was handed in.
pub proof fn lemma_started_requests_are_a_prefix(
    config: TransactionManagerConfig,
    triangle: TriangleView,
    steps: Seq<ManagerStep>,
)
    ensures
        ManagerModel::idle(config, triangle).begun_over(steps).is_prefix_of(enqueued_by(steps)),
{
    lemma_requests_start_in_queue_order(config, triangle, steps);
}

/// From detection to execution, in order. When the manager is handed what
/// the pipeline emits, in the order in which the pipeline emits it, the
/// requests start in detection order, whatever else happens in between.
pub proof fn lemma_trades_start_in_detection_order(
    pipeline: PipelineModel,
    events: Seq<PipelineEventView>,
    config: TransactionManagerConfig,
    triangle: TriangleView,
    steps: Seq<ManagerStep>,
)
    requires
        enqueued_by(steps) == pipeline.emitted_over(events),
    ensures
        ManagerModel::idle(config, triangle).begun_over(steps).is_prefix_of(
            pipeline.emitted_over(events),
        ),
{
    lemma_requests_start_in_queue_order(config, triangle, steps);
}

/// After shutdown was asked for, no request starts; the one in flight can
/// still be settled.
pub proof fn lemma_shutdown_starts_nothing(model: ManagerModel, steps: Seq<ManagerStep>)
    requires
        model.draining,
    ensures
        model.after_all(steps).draining,
        model.begun_over(steps) == Seq::<ArbitrageOpportunity>::empty(),
    decreases steps.len(),
{
    if steps.len() > 0 {
        lemma_shutdown_starts_nothing(model, steps.drop_last());
        assert(model.begun_over(steps) =~= Seq::<ArbitrageOpportunity>::empty());
    }
}

/// Every outcome is final. Whatever report settles a submission, the state
/// it leaves the request in is terminal and follows from `Submitting`.
pub proof fn lemma_every_outcome_is_terminal(report: SubmissionReportView)
    ensures
        ManagerModel::terminal_state(report).is_terminal(),
        RequestState::Submitting.may_become(ManagerModel::terminal_state(report)),
        RequestState::Queued.may_become(RequestState::Submitting),
{
}

/// A request only moves forward: no step leads back to `Queued`, none
/// starts from a terminal state, and so a terminal state leads nowhere.
pub proof fn lemma_requests_only_move_forward(from: RequestState, to: RequestState)
    requires
        from.may_become(to),
    ensures
        to != RequestState::Queued,
        !from.is_terminal(),
        to.is_terminal() ==> forall|later: RequestState| !to.may_become(later),
{
}

} // verus!
