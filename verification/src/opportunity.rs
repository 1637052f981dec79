//! A priced round trip through the triangle.

use crate::pool::{PoolReserves, PoolSlot, ReserveSnapshot};
use crate::pricing::{
    lemma_round_trip_without_skew_never_gains, lemma_swap_of_nothing, lemma_swap_output_bounds,
    quote_swap, round_trip_output, swap_output,
};
use vstd::arithmetic::mul::{lemma_mul_is_associative, lemma_mul_is_commutative};
use vstd::prelude::*;

verus! {

/// The two ways round the triangle. Both start and end in the base token,
/// so that profit is counted in its smallest unit.
#[derive(Clone, Copy, Debug, PartialEq, Eq, Structural)]
pub enum CycleDirection {
    /// base -> A in the A/base pool, A -> B in the A/B pool, B -> base in
    /// the B/base pool.
    ViaTokenA,
    /// base -> B in the B/base pool, B -> A in the A/B pool, A -> base in
    /// the A/base pool.
    ViaTokenB,
}

impl CycleDirection {
    /// The pool of the leg at `position` (0, 1 or 2).
    pub open spec fn pool_at(self, position: int) -> PoolSlot {
        if position == 1 {
            PoolSlot::TokenAB
        } else if (position == 0) == (self == CycleDirection::ViaTokenA) {
            PoolSlot::TokenABase
        } else {
            PoolSlot::TokenBBase
        }
    }

    /// Whether the leg at `position` pays in the first token of its pool.
    /// The opening leg pays in the base token, the second side of its pool;
    /// the closing leg pays in A or B, the first side of its pool; the
    /// middle leg pays in A on the way via A, in B on the way via B.
    pub open spec fn sells_first_at(self, position: int) -> bool {
        if position == 0 {
            false
        } else if position == 1 {
            self == CycleDirection::ViaTokenA
        } else {
            true
        }
    }
}

/// One swap of a round trip, with the amounts projected for it.
#[derive(Clone, Copy, Debug, PartialEq, Eq, Structural)]
pub struct Leg {
    pub pool: PoolSlot,
    /// Whether the leg pays in the first token of the pool.
    pub sells_first: bool,
    pub amount_in: u64,
    pub amount_out: u64,
}

/// A profitable round trip found at one moment: the legs to traverse, what
/// goes in and what is projected to come out, and the reserves it was priced
/// against. A value of this type is made once and handed on unchanged.
#[derive(Clone, Copy, Debug, PartialEq, Eq, Structural)]
pub struct ArbitrageOpportunity {
    pub direction: CycleDirection,
    pub first_leg: Leg,
    pub second_leg: Leg,
    pub third_leg: Leg,
    /// What the round trip starts with, in the smallest unit of the base token.
    pub input_amount: u64,
    /// What the round trip is projected to return, in the same unit.
    pub output_amount: u64,
    /// Output less input less the network fee.
    pub net_profit_lamports: u64,
    pub snapshot: ReserveSnapshot,
}

// What a round trip is projected to give.

/// The leg at `position` of a round trip in `direction`, paying in
/// `amount_in`, priced against `snapshot`.
pub open spec fn projected_leg(
    snapshot: ReserveSnapshot,
    direction: CycleDirection,
    position: int,
    amount_in: u64,
    fee_bps: u64,
) -> Leg {
    let pool = direction.pool_at(position);
    let sells_first = direction.sells_first_at(position);
    let reserves = snapshot.of(pool);
    Leg {
        pool,
        sells_first,
        amount_in,
        amount_out: swap_output(
            reserves.paying_side(sells_first) as nat,
            reserves.receiving_side(sells_first) as nat,
            amount_in as nat,
            fee_bps as nat,
        ) as u64,
    }
}

/// The three legs of a round trip that starts with `amount_in` of the base
/// token: each leg pays in what the leg before it paid out.
pub open spec fn projected_legs(
    snapshot: ReserveSnapshot,
    direction: CycleDirection,
    amount_in: u64,
    fee_bps: u64,
) -> (Leg, Leg, Leg) {
    let first = projected_leg(snapshot, direction, 0, amount_in, fee_bps);
    let second = projected_leg(snapshot, direction, 1, first.amount_out, fee_bps);
    let third = projected_leg(snapshot, direction, 2, second.amount_out, fee_bps);
    (first, second, third)
}

/// What the round trip returns, in the base token.
pub open spec fn projected_output(
    snapshot: ReserveSnapshot,
    direction: CycleDirection,
    amount_in: u64,
    fee_bps: u64,
) -> u64 {
    projected_legs(snapshot, direction, amount_in, fee_bps).2.amount_out
}

/// The round trip in `direction` with `amount_in`, priced against
/// `snapshot`, as an opportunity. `network_fee` is the flat cost of
/// submitting the trade; the pools' own fee is already in the legs.
pub open spec fn projected_opportunity(
    snapshot: ReserveSnapshot,
    direction: CycleDirection,
    amount_in: u64,
    fee_bps: u64,
    network_fee: u64,
) -> ArbitrageOpportunity {
    let legs = projected_legs(snapshot, direction, amount_in, fee_bps);
    ArbitrageOpportunity {
        direction,
        first_leg: legs.0,
        second_leg: legs.1,
        third_leg: legs.2,
        input_amount: amount_in,
        output_amount: legs.2.amount_out,
        net_profit_lamports: (legs.2.amount_out - amount_in - network_fee) as u64,
        snapshot,
    }
}

impl ReserveSnapshot {
    /// The reserve that the leg at `position` of a round trip adds to.
    pub open spec fn paying_side_at(self, direction: CycleDirection, position: int) -> nat {
        self.of(direction.pool_at(position)).paying_side(direction.sells_first_at(position)) as nat
    }

    /// The reserve that the leg at `position` of a round trip takes from.
    pub open spec fn receiving_side_at(self, direction: CycleDirection, position: int) -> nat {
        self.of(direction.pool_at(position)).receiving_side(direction.sells_first_at(position)) as nat
    }

    /// The product of the three reserves that a round trip adds to.
    pub open spec fn paying_product(self, direction: CycleDirection) -> nat {
        self.paying_side_at(direction, 0) * self.paying_side_at(direction, 1) * self.paying_side_at(
            direction,
            2,
        )
    }

    /// The product of the three reserves that a round trip takes from. Over
    /// `paying_product` it is the rate of the round trip for a vanishing
    /// amount and no fee.
    pub open spec fn receiving_product(self, direction: CycleDirection) -> nat {
        self.receiving_side_at(direction, 0) * self.receiving_side_at(direction, 1)
            * self.receiving_side_at(direction, 2)
    }
}

// Pricing.

/// Prices one leg against the snapshot.
pub fn quote_leg(
    snapshot: &ReserveSnapshot,
    pool: PoolSlot,
    sells_first: bool,
    amount_in: u64,
    fee_bps: u64,
) -> (leg: Leg)
    ensures
        leg.pool == pool,
        leg.sells_first == sells_first,
        leg.amount_in == amount_in,
        leg.amount_out == swap_output(
            snapshot.of(pool).paying_side(sells_first) as nat,
            snapshot.of(pool).receiving_side(sells_first) as nat,
            amount_in as nat,
            fee_bps as nat,
        ),
{
    let reserves: PoolReserves = snapshot.reserves_of(pool);
    let (reserve_in, reserve_out): (u64, u64) = if sells_first {
        (reserves.first, reserves.second)
    } else {
        (reserves.second, reserves.first)
    };
    Leg { pool, sells_first, amount_in, amount_out: quote_swap(reserve_in, reserve_out, amount_in, fee_bps) }
}

/// Prices the three legs of a round trip in `direction`.
pub fn quote_round_trip(
    snapshot: &ReserveSnapshot,
    direction: CycleDirection,
    amount_in: u64,
    fee_bps: u64,
) -> (legs: (Leg, Leg, Leg))
    ensures
        legs == projected_legs(*snapshot, direction, amount_in, fee_bps),
{
    let via_a: bool = match direction {
        CycleDirection::ViaTokenA => true,
        CycleDirection::ViaTokenB => false,
    };
    let (opening, closing): (PoolSlot, PoolSlot) = if via_a {
        (PoolSlot::TokenABase, PoolSlot::TokenBBase)
    } else {
        (PoolSlot::TokenBBase, PoolSlot::TokenABase)
    };
    let first = quote_leg(snapshot, opening, false, amount_in, fee_bps);
    let second = quote_leg(snapshot, PoolSlot::TokenAB, via_a, first.amount_out, fee_bps);
    let third = quote_leg(snapshot, closing, true, second.amount_out, fee_bps);
    (first, second, third)
}

/// One hundred percent in the unit of `profit_percentage_e4`, which counts
/// ten thousand to the percent.
pub const ONE_HUNDRED_PERCENT_E4: u64 = 1_000_000;

impl ArbitrageOpportunity {
    /// The legs chain: the first pays in the input, each later one pays in
    /// what the one before paid out, and the last pays out the output, which
    /// is more than the input.
    pub open spec fn is_chained(self) -> bool {
        &&& 0 < self.input_amount < self.output_amount
        &&& self.first_leg.amount_in == self.input_amount
        &&& self.second_leg.amount_in == self.first_leg.amount_out
        &&& self.third_leg.amount_in == self.second_leg.amount_out
        &&& self.third_leg.amount_out == self.output_amount
        &&& self.net_profit_lamports <= self.output_amount - self.input_amount
    }

    /// The gross gain as a share of the input, in units of 0.0001 %, rounded
    /// down: `(output - input) * 1_000_000 / input`.
    pub open spec fn gross_gain_e4(self) -> int {
        (self.output_amount - self.input_amount) * 1_000_000 / (self.input_amount as int)
    }

    /// The ordered legs.
    pub open spec fn leg_seq(self) -> Seq<Leg> {
        seq![self.first_leg, self.second_leg, self.third_leg]
    }

    /// The gross gain in percent of the input, as a fixed-point number with
    /// four decimals: 12 345 stands for 1.2345 %. It is `None` where there is
    /// no input to relate the gain to, or no gain.
    pub fn profit_percentage_e4(&self) -> (percentage: Option<u128>)
        ensures
            percentage is Some <==> 0 < self.input_amount <= self.output_amount,
            percentage matches Some(value) ==> value == self.gross_gain_e4(),
    {
        if self.input_amount == 0 || self.output_amount < self.input_amount {
            return None;
        }
        let gain: u128 = (self.output_amount - self.input_amount) as u128;
        assert(gain * 1_000_000 <= 0xffff_ffff_ffff_ffff * 1_000_000);
        Some(gain * (ONE_HUNDRED_PERCENT_E4 as u128) / (self.input_amount as u128))
    }

    /// The ordered sequence of legs to traverse.
    pub fn legs(&self) -> (legs: Vec<Leg>)
        ensures
            legs@ == self.leg_seq(),
    {
        let mut legs: Vec<Leg> = Vec::new();
        legs.push(self.first_leg);
        legs.push(self.second_leg);
        legs.push(self.third_leg);
        assert(legs@ =~= self.leg_seq());
        legs
    }
}

// What holds of every round trip.

/// The projected output is the chain of three constant-product swaps.
pub proof fn lemma_projected_output_is_the_chain(
    snapshot: ReserveSnapshot,
    direction: CycleDirection,
    amount_in: u64,
    fee_bps: u64,
)
    ensures
        projected_output(snapshot, direction, amount_in, fee_bps) == round_trip_output(
            snapshot.paying_side_at(direction, 0),
            snapshot.receiving_side_at(direction, 0),
            snapshot.paying_side_at(direction, 1),
            snapshot.receiving_side_at(direction, 1),
            snapshot.paying_side_at(direction, 2),
            snapshot.receiving_side_at(direction, 2),
            amount_in as nat,
            fee_bps as nat,
        ),
{
    let fee = fee_bps as nat;
    let legs = projected_legs(snapshot, direction, amount_in, fee_bps);
    lemma_swap_output_bounds(
        snapshot.paying_side_at(direction, 0),
        snapshot.receiving_side_at(direction, 0),
        amount_in as nat,
        fee,
    );
    lemma_swap_output_bounds(
        snapshot.paying_side_at(direction, 1),
        snapshot.receiving_side_at(direction, 1),
        legs.0.amount_out as nat,
        fee,
    );
    lemma_swap_output_bounds(
        snapshot.paying_side_at(direction, 2),
        snapshot.receiving_side_at(direction, 2),
        legs.1.amount_out as nat,
        fee,
    );
}

/// A round trip that starts with nothing returns nothing.
pub proof fn lemma_round_trip_of_nothing(snapshot: ReserveSnapshot, direction: CycleDirection, fee_bps: u64)
    ensures
        projected_output(snapshot, direction, 0, fee_bps) == 0,
{
    let fee = fee_bps as nat;
    lemma_swap_of_nothing(
        snapshot.paying_side_at(direction, 0),
        snapshot.receiving_side_at(direction, 0),
        fee,
    );
    lemma_swap_of_nothing(
        snapshot.paying_side_at(direction, 1),
        snapshot.receiving_side_at(direction, 1),
        fee,
    );
    lemma_swap_of_nothing(
        snapshot.paying_side_at(direction, 2),
        snapshot.receiving_side_at(direction, 2),
        fee,
    );
}

/// A product of three, read backwards.
proof fn lemma_product_reversed(x: int, y: int, z: int)
    ensures
        x * y * z == z * y * x,
{
    lemma_mul_is_commutative(x * y, z);
    lemma_mul_is_commutative(x, y);
    lemma_mul_is_associative(z, y, x);
}

/// The two directions trade against each other: what one pays into, the
/// other takes from.
pub proof fn lemma_directions_mirror_each_other(snapshot: ReserveSnapshot)
    ensures
        snapshot.paying_product(CycleDirection::ViaTokenA) == snapshot.receiving_product(
            CycleDirection::ViaTokenB,
        ),
        snapshot.receiving_product(CycleDirection::ViaTokenA) == snapshot.paying_product(
            CycleDirection::ViaTokenB,
        ),
{
    let a = snapshot.a_base;
    let b = snapshot.b_base;
    let m = snapshot.a_b;
    lemma_product_reversed(a.second as int, m.first as int, b.first as int);
    lemma_product_reversed(a.first as int, m.second as int, b.second as int);
}

/// No gain against the skew. A round trip whose receiving sides multiply to
/// no more than its paying sides returns no more than went in, for every
/// amount and every fee.
pub proof fn lemma_no_gain_against_the_skew(
    snapshot: ReserveSnapshot,
    direction: CycleDirection,
    amount_in: u64,
    fee_bps: u64,
)
    requires
        snapshot.receiving_product(direction) <= snapshot.paying_product(direction),
    ensures
        projected_output(snapshot, direction, amount_in, fee_bps) <= amount_in,
{
    lemma_projected_output_is_the_chain(snapshot, direction, amount_in, fee_bps);
    lemma_round_trip_without_skew_never_gains(
        snapshot.paying_side_at(direction, 0),
        snapshot.receiving_side_at(direction, 0),
        snapshot.paying_side_at(direction, 1),
        snapshot.receiving_side_at(direction, 1),
        snapshot.paying_side_at(direction, 2),
        snapshot.receiving_side_at(direction, 2),
        amount_in as nat,
        fee_bps as nat,
    );
}

/// At most one direction gains: if one round trip returns more than went
/// in, the opposite one does not.
pub proof fn lemma_at_most_one_direction_gains(snapshot: ReserveSnapshot, amount_in: u64, fee_bps: u64)
    ensures
        projected_output(snapshot, CycleDirection::ViaTokenA, amount_in, fee_bps) <= amount_in
            || projected_output(snapshot, CycleDirection::ViaTokenB, amount_in, fee_bps) <= amount_in,
{
    lemma_directions_mirror_each_other(snapshot);
    if snapshot.receiving_product(CycleDirection::ViaTokenA) <= snapshot.paying_product(
        CycleDirection::ViaTokenA,
    ) {
        lemma_no_gain_against_the_skew(snapshot, CycleDirection::ViaTokenA, amount_in, fee_bps);
    } else {
        lemma_no_gain_against_the_skew(snapshot, CycleDirection::ViaTokenB, amount_in, fee_bps);
    }
}

/// The rate of a round trip is the product of the rates of its legs. With
/// each leg's rate its output over its input, the product of the three
/// telescopes to the final output over the first input; cleared of
/// denominators, the outputs of the legs times the input equal the inputs
/// of the legs times the output.
pub proof fn lemma_round_trip_rate_is_the_product_of_leg_rates(opportunity: ArbitrageOpportunity)
    requires
        opportunity.is_chained(),
    ensures
        (opportunity.first_leg.amount_out * opportunity.second_leg.amount_out
            * opportunity.third_leg.amount_out) * opportunity.input_amount == (
        opportunity.first_leg.amount_in * opportunity.second_leg.amount_in
            * opportunity.third_leg.amount_in) * opportunity.output_amount,
{
    let x = opportunity.input_amount as int;
    let y1 = opportunity.first_leg.amount_out as int;
    let y2 = opportunity.second_leg.amount_out as int;
    let y3 = opportunity.output_amount as int;
    lemma_mul_is_associative(y1 * y2, y3, x);
    lemma_mul_is_commutative(y3, x);
    lemma_mul_is_associative(y1 * y2, x, y3);
    lemma_mul_is_commutative(y1 * y2, x);
    lemma_mul_is_associative(x, y1, y2);
}

} // verus!
