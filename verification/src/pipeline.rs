//! The opportunity pipeline: one detection pass for every pool update and
//! every timer tick, in the order in which they arrive.

use crate::arbitrage_engine::{ArbitrageEngine, EngineError, EngineModel};
use crate::opportunity::ArbitrageOpportunity;
use crate::pool::{PoolStateView, PoolUpdateEvent};
use vstd::prelude::*;

verus! {

/// Whether the pipeline still runs detection passes.
#[derive(Clone, Copy, Debug, PartialEq, Eq, Structural)]
pub enum PipelineStatus {
    /// Updates are applied and every event is followed by a pass.
    Running,
    /// Shutdown was asked for: no update is accepted and no pass runs.
    ShuttingDown,
    /// The trade queue lost its consumer. This is fatal for the pipeline.
    QueueClosed,
}

/// What can happen to the pipeline.
#[derive(Debug, PartialEq, Eq)]
pub enum PipelineEvent {
    /// The pool monitor reports new reserves.
    PoolUpdate(PoolUpdateEvent),
    /// The periodic timer fired.
    Tick,
    /// The process was asked to stop.
    ShutdownRequested,
    /// An opportunity could not be pushed because the queue has no consumer.
    QueueClosed,
}

/// A `PipelineEvent` as a mathematical value.
pub enum PipelineEventView {
    PoolUpdate(PoolStateView),
    Tick,
    ShutdownRequested,
    QueueClosed,
}

impl View for PipelineEvent {
    type V = PipelineEventView;

    open spec fn view(&self) -> PipelineEventView {
        match self {
            PipelineEvent::PoolUpdate(update) => PipelineEventView::PoolUpdate(update.pool_state@),
            PipelineEvent::Tick => PipelineEventView::Tick,
            PipelineEvent::ShutdownRequested => PipelineEventView::ShutdownRequested,
            PipelineEvent::QueueClosed => PipelineEventView::QueueClosed,
        }
    }
}

/// What one event led to.
#[derive(Debug, PartialEq, Eq)]
pub enum DetectionPass {
    /// A pass ran. These are the opportunities to push onto the trade queue,
    /// in this order.
    Opportunities(Vec<ArbitrageOpportunity>),
    /// A pass ran and the engine gave no answer. This is worth a warning and
    /// nothing more: the next event gets its own pass.
    Skipped(EngineError),
    /// No pass ran: the event is not one that triggers a pass, or the
    /// pipeline has stopped.
    NotRun,
}

/// The pipeline as a mathematical value.
pub struct PipelineModel {
    pub engine: EngineModel,
    pub status: PipelineStatus,
}

impl PipelineModel {
    /// Whether `event` is followed by a detection pass: a pool update or a
    /// tick, while the pipeline is running.
    pub open spec fn runs_pass(self, event: PipelineEventView) -> bool {
        self.status == PipelineStatus::Running && (event is PoolUpdate || event is Tick)
    }

    /// The pipeline after `event`. While it runs, a pool update goes to the
    /// engine, a tick changes nothing, and the two stopping events change
    /// the status. Once it has stopped nothing changes it.
    pub open spec fn after(self, event: PipelineEventView) -> PipelineModel {
        if self.status != PipelineStatus::Running {
            self
        } else {
            match event {
                PipelineEventView::PoolUpdate(update) => PipelineModel {
                    engine: self.engine.with_update(update),
                    ..self
                },
                PipelineEventView::Tick => self,
                PipelineEventView::ShutdownRequested => PipelineModel {
                    status: PipelineStatus::ShuttingDown,
                    ..self
                },
                PipelineEventView::QueueClosed => PipelineModel {
                    status: PipelineStatus::QueueClosed,
                    ..self
                },
            }
        }
    }

    /// The opportunities that `event` puts on the trade queue: what the scan
    /// finds after the event has been applied, if a pass runs and the engine
    /// answers.
    pub open spec fn emitted_on(self, event: PipelineEventView) -> Seq<ArbitrageOpportunity> {
        if self.runs_pass(event) && self.after(event).engine.detection() is Ok {
            self.after(event).engine.detection()->Ok_0
        } else {
            Seq::empty()
        }
    }

    /// The pipeline after a run of events.
    pub open spec fn after_all(self, events: Seq<PipelineEventView>) -> PipelineModel
        decreases events.len(),
    {
        if events.len() == 0 {
            self
        } else {
            self.after_all(events.drop_last()).after(events.last())
        }
    }

    /// Everything that a run of events puts on the trade queue, in order.
    pub open spec fn emitted_over(self, events: Seq<PipelineEventView>) -> Seq<ArbitrageOpportunity>
        decreases events.len(),
    {
        if events.len() == 0 {
            Seq::empty()
        } else {
            self.emitted_over(events.drop_last()) + self.after_all(events.drop_last()).emitted_on(
                events.last(),
            )
        }
    }
}

/// The opportunity pipeline. It owns the engine.
pub struct OpportunityPipeline {
    engine: ArbitrageEngine,
    status: PipelineStatus,
}

impl View for OpportunityPipeline {
    type V = PipelineModel;

    closed spec fn view(&self) -> PipelineModel {
        PipelineModel { engine: self.engine@, status: self.status }
    }
}

impl OpportunityPipeline {
    /// A running pipeline around `engine`.
    pub fn new(engine: ArbitrageEngine) -> (pipeline: Self)
        ensures
            pipeline@ == (PipelineModel { engine: engine@, status: PipelineStatus::Running }),
    {
        OpportunityPipeline { engine, status: PipelineStatus::Running }
    }

    /// Whether the pipeline runs, and if not, why.
    pub fn status(&self) -> (status: PipelineStatus)
        ensures
            status == self@.status,
    {
        self.status
    }

    /// The engine, to look at.
    pub fn engine(&self) -> (engine: &ArbitrageEngine)
        ensures
            engine@ == self@.engine,
    {
        &self.engine
    }

    /// Takes one event. A pool update is applied to the engine and followed
    /// at once by a scan; a tick is followed by a scan of what is already
    /// stored. What the scan finds is returned in detection order. A scan
    /// that fails is reported and changes nothing else.
    pub fn handle_event(&mut self, event: PipelineEvent) -> (pass: DetectionPass)
        ensures
            final(self)@ == old(self)@.after(event@),
            match pass {
                DetectionPass::Opportunities(found) => {
                    &&& old(self)@.runs_pass(event@)
                    &&& final(self)@.engine.is_answered_by(Ok(found))
                },
                DetectionPass::Skipped(error) => {
                    &&& old(self)@.runs_pass(event@)
                    &&& final(self)@.engine.is_answered_by(Err(error))
                },
                DetectionPass::NotRun => !old(self)@.runs_pass(event@),
            },
            match pass {
                DetectionPass::Opportunities(found) => found@ == old(self)@.emitted_on(event@),
                _ => old(self)@.emitted_on(event@) == Seq::<ArbitrageOpportunity>::empty(),
            },
    {
        match self.status {
            PipelineStatus::Running => {},
            _ => {
                return DetectionPass::NotRun;
            },
        }
        match event {
            PipelineEvent::PoolUpdate(update) => {
                self.engine.update_pool_state(update.pool_state);
            },
            PipelineEvent::Tick => {},
            PipelineEvent::ShutdownRequested => {
                self.status = PipelineStatus::ShuttingDown;
                return DetectionPass::NotRun;
            },
            PipelineEvent::QueueClosed => {
                self.status = PipelineStatus::QueueClosed;
                return DetectionPass::NotRun;
            },
        }
        match self.engine.check_arbitrage_opportunities() {
            Ok(found) => DetectionPass::Opportunities(found),
            Err(error) => DetectionPass::Skipped(error),
        }
    }
}

/// Detection order is emission order. What a run of events emits is what
/// its first part emits, followed by what the rest emits from where the
/// first part left the pipeline: nothing found later overtakes anything
/// found earlier, whichever of the two triggers found it.
pub proof fn lemma_emission_follows_detection_order(
    model: PipelineModel,
    earlier: Seq<PipelineEventView>,
    later: Seq<PipelineEventView>,
)
    ensures
        model.after_all(earlier + later) == model.after_all(earlier).after_all(later),
        model.emitted_over(earlier + later) == model.emitted_over(earlier) + model.after_all(
            earlier,
        ).emitted_over(later),
    decreases later.len(),
{
    if later.len() == 0 {
        assert(earlier + later =~= earlier);
        assert(model.emitted_over(earlier) + Seq::<ArbitrageOpportunity>::empty() =~= model.emitted_over(
            earlier,
        ));
    } else {
        let all = earlier + later;
        assert(all.drop_last() =~= earlier + later.drop_last());
        assert(all.last() == later.last());
        lemma_emission_follows_detection_order(model, earlier, later.drop_last());
        let middle = model.after_all(earlier);
        assert(model.emitted_over(all) =~= model.emitted_over(earlier) + (middle.emitted_over(
            later.drop_last(),
        ) + middle.after_all(later.drop_last()).emitted_on(later.last())));
    }
}

/// A pipeline that has stopped stays as it is and emits nothing.
pub proof fn lemma_stopped_pipeline_is_silent(model: PipelineModel, events: Seq<PipelineEventView>)
    requires
        model.status != PipelineStatus::Running,
    ensures
        model.after_all(events) == model,
        model.emitted_over(events) == Seq::<ArbitrageOpportunity>::empty(),
    decreases events.len(),
{
    if events.len() > 0 {
        lemma_stopped_pipeline_is_silent(model, events.drop_last());
        assert(model.emitted_over(events) =~= Seq::<ArbitrageOpportunity>::empty());
    }
}

/// An engine that cannot answer does not stop the pipeline: pool updates
/// and ticks leave a running pipeline running.
pub proof fn lemma_passes_keep_the_pipeline_running(model: PipelineModel, event: PipelineEventView)
    requires
        model.runs_pass(event),
    ensures
        model.after(event).status == PipelineStatus::Running,
{
}

} // verus!
