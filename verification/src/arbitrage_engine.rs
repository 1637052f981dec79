//! The arbitrage engine: the store of pool states and the scan for
//! profitable round trips.

use crate::opportunity::{
    lemma_at_most_one_direction_gains, lemma_directions_mirror_each_other,
    lemma_no_gain_against_the_skew, lemma_round_trip_of_nothing, projected_opportunity,
    projected_output, quote_round_trip, ArbitrageOpportunity, CycleDirection,
};
use crate::pool::{PoolSlot, PoolState, PoolStateView, ReserveSnapshot, Triangle, TriangleView};
use vstd::arithmetic::mul::{
    lemma_mul_is_commutative, lemma_mul_is_distributive_add, lemma_mul_upper_bound,
};
use vstd::prelude::*;

verus! {

/// The costs that the engine reckons with and the margins that it demands
/// when it prices a round trip.
#[derive(Clone, Copy, Debug, PartialEq, Eq, Structural)]
pub struct ArbitrageConfig {
    /// The amount of the base token that is routed through the cycle to
    /// price it, and that an opportunity then trades.
    pub probe_amount_lamports: u64,
    /// The share of each leg's input that the pool keeps, in basis points.
    pub swap_fee_bps: u64,
    /// The flat cost of submitting one trade.
    pub network_fee_lamports: u64,
    /// The net profit that an opportunity must exceed, as an amount.
    pub min_profit_lamports: u64,
    /// The net profit that an opportunity must exceed, in basis points of
    /// the input.
    pub min_profit_bps: u64,
}

impl ArbitrageConfig {
    /// What is left of `output` after the input and the network fee.
    pub open spec fn net_profit(self, output: u64) -> int {
        output - self.probe_amount_lamports - self.network_fee_lamports
    }

    /// Whether a round trip that returns `output` clears both thresholds:
    /// its net profit exceeds the minimum amount, and, as a share of the
    /// input, the minimum rate.
    pub open spec fn accepts(self, output: u64) -> bool {
        &&& self.net_profit(output) > self.min_profit_lamports
        &&& self.net_profit(output) * 10_000 > self.min_profit_bps * self.probe_amount_lamports
    }

    /// The net profit of a round trip that returns `output`, if it clears
    /// both thresholds.
    pub fn accepted_net_profit(&self, output: u64) -> (net: Option<u64>)
        ensures
            net is Some <==> self.accepts(output),
            net matches Some(amount) ==> amount == self.net_profit(output),
    {
        let cost: u128 = self.probe_amount_lamports as u128 + self.network_fee_lamports as u128;
        if output as u128 <= cost {
            assert(self.net_profit(output) <= 0);
            return None;
        }
        let net: u128 = output as u128 - cost;
        if net <= self.min_profit_lamports as u128 {
            return None;
        }
        proof {
            lemma_mul_upper_bound(
                self.min_profit_bps as int,
                0xffff_ffff_ffff_ffff,
                self.probe_amount_lamports as int,
                0xffff_ffff_ffff_ffff,
            );
        }
        let scaled_net: u128 = net * 10_000;
        let scaled_floor: u128 = (self.min_profit_bps as u128) * (self.probe_amount_lamports as u128);
        if scaled_net > scaled_floor {
            Some(net as u64)
        } else {
            None
        }
    }
}

/// Why a scan gave no answer.
#[derive(Clone, Copy, Debug, PartialEq, Eq, Structural)]
pub enum EngineError {
    /// At least one of the three pools has not been observed yet.
    IncompletePoolData,
}

/// The engine as a mathematical value: its configuration and what it has
/// stored for each slot.
pub struct EngineModel {
    pub config: ArbitrageConfig,
    pub triangle: TriangleView,
    pub a_base: Option<PoolStateView>,
    pub b_base: Option<PoolStateView>,
    pub a_b: Option<PoolStateView>,
}

impl EngineModel {
    /// An engine that has observed nothing.
    pub open spec fn fresh(config: ArbitrageConfig, triangle: TriangleView) -> EngineModel {
        EngineModel { config, triangle, a_base: None, b_base: None, a_b: None }
    }

    /// What is stored for a slot.
    pub open spec fn stored(self, slot: PoolSlot) -> Option<PoolStateView> {
        match slot {
            PoolSlot::TokenABase => self.a_base,
            PoolSlot::TokenBBase => self.b_base,
            PoolSlot::TokenAB => self.a_b,
        }
    }

    /// The engine after one update: the state stored for the pool that the
    /// update names is replaced by it, whatever was there and whatever its
    /// marker says; an update for a pool outside the triangle changes
    /// nothing.
    pub open spec fn with_update(self, update: PoolStateView) -> EngineModel {
        match self.triangle.slot_of(update.pool_address) {
            Some(PoolSlot::TokenABase) => EngineModel { a_base: Some(update), ..self },
            Some(PoolSlot::TokenBBase) => EngineModel { b_base: Some(update), ..self },
            Some(PoolSlot::TokenAB) => EngineModel { a_b: Some(update), ..self },
            None => self,
        }
    }

    /// Whether all three pools have been observed.
    pub open spec fn is_complete(self) -> bool {
        self.a_base is Some && self.b_base is Some && self.a_b is Some
    }

    /// The stored reserves of the three pools.
    pub open spec fn snapshot(self) -> ReserveSnapshot {
        ReserveSnapshot {
            a_base: self.a_base->0.reserves,
            b_base: self.b_base->0.reserves,
            a_b: self.a_b->0.reserves,
        }
    }

    /// What the configured input returns on the round trip in `direction`.
    pub open spec fn round_trip_output(self, direction: CycleDirection) -> u64 {
        projected_output(
            self.snapshot(),
            direction,
            self.config.probe_amount_lamports,
            self.config.swap_fee_bps,
        )
    }

    /// Whether the round trip in `direction` clears the thresholds.
    pub open spec fn is_profitable(self, direction: CycleDirection) -> bool {
        self.config.accepts(self.round_trip_output(direction))
    }

    /// The opportunity that the round trip in `direction` makes.
    pub open spec fn opportunity(self, direction: CycleDirection) -> ArbitrageOpportunity {
        projected_opportunity(
            self.snapshot(),
            direction,
            self.config.probe_amount_lamports,
            self.config.swap_fee_bps,
            self.config.network_fee_lamports,
        )
    }

    /// The opportunities of one direction: the one it makes if it is
    /// profitable, none otherwise.
    pub open spec fn found_in(self, direction: CycleDirection) -> Seq<ArbitrageOpportunity> {
        if self.is_profitable(direction) {
            seq![self.opportunity(direction)]
        } else {
            Seq::empty()
        }
    }

    /// The answer of a scan: an error while a pool is unknown, else what the
    /// way via A makes followed by what the way via B makes.
    pub open spec fn detection(self) -> Result<Seq<ArbitrageOpportunity>, EngineError> {
        if !self.is_complete() {
            Err(EngineError::IncompletePoolData)
        } else {
            Ok(self.found_in(CycleDirection::ViaTokenA) + self.found_in(CycleDirection::ViaTokenB))
        }
    }

    /// Whether `result` is what a scan of this engine returns.
    pub open spec fn is_answered_by(self, result: Result<Vec<ArbitrageOpportunity>, EngineError>) -> bool {
        match result {
            Ok(found) => self.detection() == Ok::<Seq<ArbitrageOpportunity>, EngineError>(found@),
            Err(error) => self.detection() == Err::<Seq<ArbitrageOpportunity>, EngineError>(error),
        }
    }

    /// The engine after a run of updates, applied in order.
    pub open spec fn after_updates(self, updates: Seq<PoolStateView>) -> EngineModel
        decreases updates.len(),
    {
        if updates.len() == 0 {
            self
        } else {
            self.after_updates(updates.drop_last()).with_update(updates.last())
        }
    }

    /// The last update of the run that names the pool in `slot`, if any.
    pub open spec fn last_update_for(self, updates: Seq<PoolStateView>, slot: PoolSlot) -> Option<
        PoolStateView,
    >
        decreases updates.len(),
    {
        if updates.len() == 0 {
            None
        } else if self.triangle.slot_of(updates.last().pool_address) == Some(slot) {
            Some(updates.last())
        } else {
            self.last_update_for(updates.drop_last(), slot)
        }
    }
}

/// The arbitrage engine. It owns the pool states and is the only thing that
/// changes them.
pub struct ArbitrageEngine {
    config: ArbitrageConfig,
    triangle: Triangle,
    a_base: Option<PoolState>,
    b_base: Option<PoolState>,
    a_b: Option<PoolState>,
}

/// The view of a stored state, if there is one.
spec fn stored_view(stored: Option<PoolState>) -> Option<PoolStateView> {
    match stored {
        Some(state) => Some(state@),
        None => None,
    }
}

impl View for ArbitrageEngine {
    type V = EngineModel;

    closed spec fn view(&self) -> EngineModel {
        EngineModel {
            config: self.config,
            triangle: self.triangle@,
            a_base: stored_view(self.a_base),
            b_base: stored_view(self.b_base),
            a_b: stored_view(self.a_b),
        }
    }
}

impl ArbitrageEngine {
    /// An engine for the given triangle that has observed no pool yet.
    pub fn new(config: ArbitrageConfig, triangle: Triangle) -> (engine: Self)
        ensures
            engine@ == EngineModel::fresh(config, triangle@),
    {
        ArbitrageEngine { config, triangle, a_base: None, b_base: None, a_b: None }
    }

    /// Replaces what is stored for the pool that `update` names. The last
    /// write wins; an update for a pool outside the triangle is dropped.
    pub fn update_pool_state(&mut self, update: PoolState)
        ensures
            final(self)@ == old(self)@.with_update(update@),
    {
        match self.triangle.slot_of(&update.pool_address) {
            Some(PoolSlot::TokenABase) => {
                self.a_base = Some(update);
            },
            Some(PoolSlot::TokenBBase) => {
                self.b_base = Some(update);
            },
            Some(PoolSlot::TokenAB) => {
                self.a_b = Some(update);
            },
            None => {},
        }
    }

    /// The configuration that the engine was made with.
    pub fn config(&self) -> (config: ArbitrageConfig)
        ensures
            config == self@.config,
    {
        self.config
    }

    /// The triangle that the engine was made for.
    pub fn triangle(&self) -> (triangle: &Triangle)
        ensures
            triangle@ == self@.triangle,
    {
        &self.triangle
    }

    /// What is stored for a slot, if the pool has been observed.
    pub fn pool_state(&self, slot: PoolSlot) -> (stored: Option<&PoolState>)
        ensures
            stored is Some <==> self@.stored(slot) is Some,
            stored matches Some(state) ==> Some(state@) == self@.stored(slot),
    {
        match slot {
            PoolSlot::TokenABase => self.a_base.as_ref(),
            PoolSlot::TokenBBase => self.b_base.as_ref(),
            PoolSlot::TokenAB => self.a_b.as_ref(),
        }
    }

    /// Whether all three pools have been observed, so that a scan can
    /// answer.
    pub fn is_ready(&self) -> (ready: bool)
        ensures
            ready == self@.is_complete(),
    {
        self.a_base.is_some() && self.b_base.is_some() && self.a_b.is_some()
    }

    /// The reserves of the three pools, once all three are known.
    pub fn snapshot(&self) -> (snapshot: Option<ReserveSnapshot>)
        ensures
            snapshot is Some <==> self@.is_complete(),
            snapshot matches Some(reserves) ==> reserves == self@.snapshot(),
    {
        match (&self.a_base, &self.b_base, &self.a_b) {
            (Some(a_base), Some(b_base), Some(a_b)) => Some(
                ReserveSnapshot { a_base: a_base.reserves, b_base: b_base.reserves, a_b: a_b.reserves },
            ),
            _ => None,
        }
    }

    /// Prices the round trip in both directions against the stored reserves
    /// and returns the profitable ones, the way via A before the way via B.
    /// While a pool is unknown the answer is `IncompletePoolData`.
    pub fn check_arbitrage_opportunities(&self) -> (result: Result<
        Vec<ArbitrageOpportunity>,
        EngineError,
    >)
        ensures
            self@.is_answered_by(result),
            result is Ok <==> self@.is_complete(),
            result matches Err(error) ==> error == EngineError::IncompletePoolData,
            result matches Ok(found) ==> found@ == self@.found_in(CycleDirection::ViaTokenA)
                + self@.found_in(CycleDirection::ViaTokenB),
    {
        let snapshot = match self.snapshot() {
            Some(snapshot) => snapshot,
            None => {
                return Err(EngineError::IncompletePoolData);
            },
        };
        let mut found: Vec<ArbitrageOpportunity> = Vec::new();
        self.scan_direction(&snapshot, CycleDirection::ViaTokenA, &mut found);
        self.scan_direction(&snapshot, CycleDirection::ViaTokenB, &mut found);
        Ok(found)
    }

    /// Prices one direction and appends its opportunity, if it makes one.
    fn scan_direction(
        &self,
        snapshot: &ReserveSnapshot,
        direction: CycleDirection,
        found: &mut Vec<ArbitrageOpportunity>,
    )
        requires
            self@.is_complete(),
            *snapshot == self@.snapshot(),
        ensures
            final(found)@ == old(found)@ + self@.found_in(direction),
    {
        let legs = quote_round_trip(
            snapshot,
            direction,
            self.config.probe_amount_lamports,
            self.config.swap_fee_bps,
        );
        match self.config.accepted_net_profit(legs.2.amount_out) {
            Some(net_profit_lamports) => {
                found.push(
                    ArbitrageOpportunity {
                        direction,
                        first_leg: legs.0,
                        second_leg: legs.1,
                        third_leg: legs.2,
                        input_amount: self.config.probe_amount_lamports,
                        output_amount: legs.2.amount_out,
                        net_profit_lamports,
                        snapshot: *snapshot,
                    },
                );
                assert(found@ =~= old(found)@ + self@.found_in(direction));
            },
            None => {
                assert(found@ =~= old(found)@ + self@.found_in(direction));
            },
        }
    }
}

/// Clearing the thresholds is a margin on the rate of the round trip. With
/// the network fee taken off the output, the round trip is accepted exactly
/// when what is left exceeds the input by more than the minimum amount, and
/// the rate of what is left over the input exceeds one by more than the
/// minimum rate: `(output - fee) / input > 1 + min_profit_bps / 10_000`.
pub proof fn lemma_acceptance_is_a_margin_on_the_rate(config: ArbitrageConfig, output: u64)
    ensures
        config.accepts(output) <==> {
            &&& output - config.network_fee_lamports > config.probe_amount_lamports
                + config.min_profit_lamports
            &&& (output - config.network_fee_lamports) * 10_000 > config.probe_amount_lamports * (10_000
                + config.min_profit_bps)
        },
{
    let input = config.probe_amount_lamports as int;
    let bps = config.min_profit_bps as int;
    lemma_mul_is_distributive_add(input, 10_000, bps);
    lemma_mul_is_commutative(input, bps);
}

/// The scan reports the profitable directions and nothing else. With all
/// three pools known, a direction is among the opportunities exactly when
/// its round trip clears the thresholds, and then with the amounts that the
/// pricing gives; if neither direction does, the answer is empty.
///
/// The rate of a round trip is the product of the rates of its three legs,
/// each the leg's output over its input, which is the final output over the
/// first input. Clearing the thresholds is that rate exceeding one by more
/// than the configured margin, after the network fee.
pub proof fn lemma_scan_reports_exactly_the_profitable_directions(
    model: EngineModel,
    direction: CycleDirection,
)
    requires
        model.is_complete(),
    ensures
        model.detection() is Ok,
        model.is_profitable(direction) <==> model.detection()->Ok_0.contains(
            model.opportunity(direction),
        ),
        model.is_profitable(direction) <==> (exists|i: int|
            0 <= i < model.detection()->Ok_0.len() && (#[trigger] model.detection()->Ok_0[i]).direction
                == direction),
        forall|i: int|
            0 <= i < model.detection()->Ok_0.len() ==> {
                let found = #[trigger] model.detection()->Ok_0[i];
                model.is_profitable(found.direction) && found == model.opportunity(found.direction)
            },
        (!model.is_profitable(CycleDirection::ViaTokenA) && !model.is_profitable(
            CycleDirection::ViaTokenB,
        )) <==> model.detection()->Ok_0.len() == 0,
{
    let via_a = model.found_in(CycleDirection::ViaTokenA);
    let via_b = model.found_in(CycleDirection::ViaTokenB);
    let all = model.detection()->Ok_0;
    assert(all == via_a + via_b);
    assert(all.len() == via_a.len() + via_b.len());
    if model.is_profitable(direction) {
        match direction {
            CycleDirection::ViaTokenA => {
                assert(all[0] == model.opportunity(direction));
            },
            CycleDirection::ViaTokenB => {
                assert(all[via_a.len() as int] == model.opportunity(direction));
            },
        }
    }
    assert forall|i: int| 0 <= i < all.len() implies {
        let found = #[trigger] all[i];
        model.is_profitable(found.direction) && found == model.opportunity(found.direction)
    } by {
        if i < via_a.len() {
            assert(all[i] == via_a[i]);
        } else {
            assert(all[i] == via_b[i - via_a.len()]);
        }
    }
}

/// A reported opportunity is sound: it gains, its legs chain from the
/// configured input to the output, and its net profit is the output less
/// the input and the network fee.
pub proof fn lemma_reported_opportunities_are_chained(model: EngineModel, direction: CycleDirection)
    requires
        model.is_complete(),
        model.is_profitable(direction),
    ensures
        model.opportunity(direction).is_chained(),
        model.opportunity(direction).input_amount == model.config.probe_amount_lamports,
        model.opportunity(direction).net_profit_lamports == model.config.net_profit(
            model.opportunity(direction).output_amount,
        ),
        model.opportunity(direction).net_profit_lamports > model.config.min_profit_lamports,
        model.opportunity(direction).snapshot == model.snapshot(),
{
    let config = model.config;
    let output = model.round_trip_output(direction);
    assert(config.net_profit(output) > 0);
    if config.probe_amount_lamports == 0 {
        // Nothing in, nothing out: such a round trip cannot be profitable.
        lemma_round_trip_of_nothing(model.snapshot(), direction, config.swap_fee_bps);
    }
}

/// No opportunity against the skew: a direction whose receiving sides
/// multiply to no more than its paying sides is never reported, whatever
/// the configuration.
pub proof fn lemma_no_opportunity_against_the_skew(model: EngineModel, direction: CycleDirection)
    requires
        model.is_complete(),
        model.snapshot().receiving_product(direction) <= model.snapshot().paying_product(direction),
    ensures
        !model.is_profitable(direction),
        model.found_in(direction).len() == 0,
{
    lemma_no_gain_against_the_skew(
        model.snapshot(),
        direction,
        model.config.probe_amount_lamports,
        model.config.swap_fee_bps,
    );
}

/// Balanced pools give nothing. Where the two products of the reserves
/// around the triangle are equal, as they are when every pool holds as much
/// on one side as on the other, the scan returns the empty sequence.
pub proof fn lemma_balanced_triangle_has_no_opportunity(model: EngineModel)
    requires
        model.is_complete(),
        model.snapshot().receiving_product(CycleDirection::ViaTokenA) == model.snapshot().paying_product(
            CycleDirection::ViaTokenA,
        ),
    ensures
        model.detection() == Ok::<Seq<ArbitrageOpportunity>, EngineError>(Seq::empty()),
{
    lemma_directions_mirror_each_other(model.snapshot());
    lemma_no_opportunity_against_the_skew(model, CycleDirection::ViaTokenA);
    lemma_no_opportunity_against_the_skew(model, CycleDirection::ViaTokenB);
    assert(model.detection()->Ok_0 =~= Seq::empty());
}

/// A scan never reports both directions.
pub proof fn lemma_at_most_one_opportunity(model: EngineModel)
    requires
        model.is_complete(),
    ensures
        !(model.is_profitable(CycleDirection::ViaTokenA) && model.is_profitable(
            CycleDirection::ViaTokenB,
        )),
        model.detection()->Ok_0.len() <= 1,
{
    lemma_at_most_one_direction_gains(
        model.snapshot(),
        model.config.probe_amount_lamports,
        model.config.swap_fee_bps,
    );
}

/// Until a pool has been observed there is no answer but
/// `IncompletePoolData`: whatever updates arrive for the other pools, and
/// in whatever order, a scan reports no opportunity.
pub proof fn lemma_unobserved_pool_blocks_detection(
    model: EngineModel,
    updates: Seq<PoolStateView>,
    slot: PoolSlot,
)
    requires
        model.stored(slot) is None,
        forall|i: int|
            0 <= i < updates.len() ==> model.triangle.slot_of((#[trigger] updates[i]).pool_address)
                != Some(slot),
    ensures
        model.after_updates(updates).stored(slot) is None,
        model.after_updates(updates).detection() == Err::<Seq<ArbitrageOpportunity>, EngineError>(
            EngineError::IncompletePoolData,
        ),
    decreases updates.len(),
{
    if updates.len() > 0 {
        let earlier = updates.drop_last();
        assert forall|i: int| 0 <= i < earlier.len() implies model.triangle.slot_of(
            (#[trigger] earlier[i]).pool_address,
        ) != Some(slot) by {
            assert(earlier[i] == updates[i]);
        }
        lemma_unobserved_pool_blocks_detection(model, earlier, slot);
        lemma_updates_keep_the_setup(model, earlier);
        assert(updates.last() == updates[updates.len() - 1]);
    }
}

/// Updates change neither the configuration nor the triangle.
pub proof fn lemma_updates_keep_the_setup(model: EngineModel, updates: Seq<PoolStateView>)
    ensures
        model.after_updates(updates).config == model.config,
        model.after_updates(updates).triangle == model.triangle,
    decreases updates.len(),
{
    if updates.len() > 0 {
        lemma_updates_keep_the_setup(model, updates.drop_last());
    }
}

/// A fresh engine answers every scan with `IncompletePoolData`.
pub proof fn lemma_fresh_engine_is_incomplete(config: ArbitrageConfig, triangle: TriangleView)
    ensures
        EngineModel::fresh(config, triangle).detection() == Err::<
            Seq<ArbitrageOpportunity>,
            EngineError,
        >(EngineError::IncompletePoolData),
{
}

/// The last write wins. After a run of updates, what is stored for a pool
/// is the last update of the run that names it, or what was stored before
/// if none does.
pub proof fn lemma_last_write_wins(model: EngineModel, updates: Seq<PoolStateView>, slot: PoolSlot)
    ensures
        model.after_updates(updates).stored(slot) == match model.last_update_for(updates, slot) {
            Some(update) => Some(update),
            None => model.stored(slot),
        },
    decreases updates.len(),
{
    if updates.len() > 0 {
        lemma_last_write_wins(model, updates.drop_last(), slot);
        lemma_updates_keep_the_setup(model, updates.drop_last());
    }
}

/// The order of updates matters only through the last one for each pool:
/// two runs that agree on those leave the engine in the same state, and so
/// every scan after them gives the same answer.
pub proof fn lemma_update_order_is_irrelevant(
    model: EngineModel,
    one: Seq<PoolStateView>,
    other: Seq<PoolStateView>,
)
    requires
        forall|slot: PoolSlot|
            #[trigger] model.last_update_for(one, slot) == model.last_update_for(other, slot),
    ensures
        model.after_updates(one) == model.after_updates(other),
        model.after_updates(one).detection() == model.after_updates(other).detection(),
{
    lemma_updates_keep_the_setup(model, one);
    lemma_updates_keep_the_setup(model, other);
    lemma_last_write_wins(model, one, PoolSlot::TokenABase);
    lemma_last_write_wins(model, one, PoolSlot::TokenBBase);
    lemma_last_write_wins(model, one, PoolSlot::TokenAB);
    lemma_last_write_wins(model, other, PoolSlot::TokenABase);
    lemma_last_write_wins(model, other, PoolSlot::TokenBBase);
    lemma_last_write_wins(model, other, PoolSlot::TokenAB);
    assert(model.last_update_for(one, PoolSlot::TokenABase) == model.last_update_for(
        other,
        PoolSlot::TokenABase,
    ));
    assert(model.last_update_for(one, PoolSlot::TokenBBase) == model.last_update_for(
        other,
        PoolSlot::TokenBBase,
    ));
    assert(model.last_update_for(one, PoolSlot::TokenAB) == model.last_update_for(
        other,
        PoolSlot::TokenAB,
    ));
}

/// Scans repeat. Two scans of one state of the engine return the same
/// error, or the same opportunities in the same order with the same
/// amounts.
pub proof fn lemma_repeated_scans_agree(
    model: EngineModel,
    one: Result<Vec<ArbitrageOpportunity>, EngineError>,
    other: Result<Vec<ArbitrageOpportunity>, EngineError>,
)
    requires
        model.is_answered_by(one),
        model.is_answered_by(other),
    ensures
        match (one, other) {
            (Ok(found), Ok(again)) => found@ == again@,
            (Err(error), Err(again)) => error == again,
            _ => false,
        },
{
}

/// The answer of a scan is a function of the configuration and the stored
/// reserves alone: two engines that agree on those give the same
/// opportunities with the same amounts, whatever else differs between them.
pub proof fn lemma_detection_depends_on_reserves_only(one: EngineModel, other: EngineModel)
    requires
        one.config == other.config,
        one.is_complete(),
        other.is_complete(),
        one.snapshot() == other.snapshot(),
    ensures
        one.detection() == other.detection(),
{
}

} // verus!
