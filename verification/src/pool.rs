//! The three pools of the triangle and what is known of their reserves.

use vstd::prelude::*;

verus! {

/// The place of a pool in the triangle. A pool is named after its two
/// tokens, and its reserves are kept in the order of that name.
#[derive(Clone, Copy, Debug, PartialEq, Eq, Structural)]
pub enum PoolSlot {
    /// Token A against the base token: first side A, second side base.
    TokenABase,
    /// Token B against the base token: first side B, second side base.
    TokenBBase,
    /// Token A against token B: first side A, second side B.
    TokenAB,
}

/// The amounts a pool holds of its two tokens, in the smallest unit of each.
#[derive(Clone, Copy, Debug, PartialEq, Eq, Structural)]
pub struct PoolReserves {
    pub first: u64,
    pub second: u64,
}

impl PoolReserves {
    /// The reserve that a swap adds to: the first side when the trader sells
    /// the pool's first token.
    pub open spec fn paying_side(self, sells_first: bool) -> u64 {
        if sells_first {
            self.first
        } else {
            self.second
        }
    }

    /// The reserve that a swap takes from.
    pub open spec fn receiving_side(self, sells_first: bool) -> u64 {
        if sells_first {
            self.second
        } else {
            self.first
        }
    }
}

/// The latest known state of one pool.
#[derive(Debug, PartialEq, Eq)]
pub struct PoolState {
    /// The address that identifies the pool.
    pub pool_address: String,
    pub reserves: PoolReserves,
    /// Time or sequence marker of the observation; kept, never compared.
    pub last_updated: u64,
}

/// A `PoolState` as a mathematical value.
pub struct PoolStateView {
    pub pool_address: Seq<char>,
    pub reserves: PoolReserves,
    pub last_updated: u64,
}

impl View for PoolState {
    type V = PoolStateView;

    open spec fn view(&self) -> PoolStateView {
        PoolStateView {
            pool_address: self.pool_address@,
            reserves: self.reserves,
            last_updated: self.last_updated,
        }
    }
}

impl Clone for PoolState {
    fn clone(&self) -> (copy: Self)
        ensures
            copy == *self,
    {
        PoolState {
            pool_address: self.pool_address.clone(),
            reserves: self.reserves,
            last_updated: self.last_updated,
        }
    }
}

/// A notification from the pool monitor that a pool has changed.
#[derive(Debug, PartialEq, Eq)]
pub struct PoolUpdateEvent {
    pub pool_state: PoolState,
}

impl Clone for PoolUpdateEvent {
    fn clone(&self) -> (copy: Self)
        ensures
            copy == *self,
    {
        PoolUpdateEvent { pool_state: self.pool_state.clone() }
    }
}

/// The fixed topology: the addresses of the three pools that close the
/// cycle over token A, token B and the base token.
#[derive(Debug, PartialEq, Eq)]
pub struct Triangle {
    pub a_base_pool: String,
    pub b_base_pool: String,
    pub a_b_pool: String,
}

/// A `Triangle` as a mathematical value.
pub struct TriangleView {
    pub a_base_pool: Seq<char>,
    pub b_base_pool: Seq<char>,
    pub a_b_pool: Seq<char>,
}

impl TriangleView {
    /// The slot that an address stands for. Where two slots were configured
    /// with one address, the earlier slot answers to it.
    pub open spec fn slot_of(self, address: Seq<char>) -> Option<PoolSlot> {
        if address == self.a_base_pool {
            Some(PoolSlot::TokenABase)
        } else if address == self.b_base_pool {
            Some(PoolSlot::TokenBBase)
        } else if address == self.a_b_pool {
            Some(PoolSlot::TokenAB)
        } else {
            None
        }
    }

    /// The address configured for a slot.
    pub open spec fn address_of(self, slot: PoolSlot) -> Seq<char> {
        match slot {
            PoolSlot::TokenABase => self.a_base_pool,
            PoolSlot::TokenBBase => self.b_base_pool,
            PoolSlot::TokenAB => self.a_b_pool,
        }
    }
}

impl View for Triangle {
    type V = TriangleView;

    open spec fn view(&self) -> TriangleView {
        TriangleView {
            a_base_pool: self.a_base_pool@,
            b_base_pool: self.b_base_pool@,
            a_b_pool: self.a_b_pool@,
        }
    }
}

impl Clone for Triangle {
    fn clone(&self) -> (copy: Self)
        ensures
            copy == *self,
    {
        Triangle {
            a_base_pool: self.a_base_pool.clone(),
            b_base_pool: self.b_base_pool.clone(),
            a_b_pool: self.a_b_pool.clone(),
        }
    }
}

impl Triangle {
    /// Finds the slot of the pool with the given address, if the triangle
    /// has one.
    pub fn slot_of(&self, address: &String) -> (slot: Option<PoolSlot>)
        ensures
            slot == self@.slot_of(address@),
    {
        if *address == self.a_base_pool {
            Some(PoolSlot::TokenABase)
        } else if *address == self.b_base_pool {
            Some(PoolSlot::TokenBBase)
        } else if *address == self.a_b_pool {
            Some(PoolSlot::TokenAB)
        } else {
            None
        }
    }

    /// The address configured for a slot.
    pub fn address_of(&self, slot: PoolSlot) -> (address: &String)
        ensures
            address@ == self@.address_of(slot),
    {
        match slot {
            PoolSlot::TokenABase => &self.a_base_pool,
            PoolSlot::TokenBBase => &self.b_base_pool,
            PoolSlot::TokenAB => &self.a_b_pool,
        }
    }
}

/// The reserves of all three pools at one moment.
#[derive(Clone, Copy, Debug, PartialEq, Eq, Structural)]
pub struct ReserveSnapshot {
    pub a_base: PoolReserves,
    pub b_base: PoolReserves,
    pub a_b: PoolReserves,
}

impl ReserveSnapshot {
    /// The reserves recorded for a slot.
    pub open spec fn of(self, slot: PoolSlot) -> PoolReserves {
        match slot {
            PoolSlot::TokenABase => self.a_base,
            PoolSlot::TokenBBase => self.b_base,
            PoolSlot::TokenAB => self.a_b,
        }
    }

    /// The reserves recorded for a slot.
    pub fn reserves_of(&self, slot: PoolSlot) -> (reserves: PoolReserves)
        ensures
            reserves == self.of(slot),
    {
        match slot {
            PoolSlot::TokenABase => self.a_base,
            PoolSlot::TokenBBase => self.b_base,
            PoolSlot::TokenAB => self.a_b,
        }
    }
}

} // verus!
