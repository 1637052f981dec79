//! Detection and execution core of a triangular-arbitrage bot.
//!
//! Three liquidity pools over the tokens A, B and a base token form a price
//! triangle. The crate keeps the latest reserves of the three pools, prices a
//! round trip through them in either direction with exact integer arithmetic,
//! and serialises the execution of the opportunities it finds.
//!
//! - [`pricing`]: the constant-product formula for one swap and for a chain
//!   of three, and the bounds that follow from it.
//! - [`pool`]: the triangle, and what is known of a pool.
//! - [`opportunity`]: a priced round trip and its legs.
//! - [`arbitrage_engine`]: the store of pool states and the scan for
//!   profitable round trips.
//! - [`pipeline`]: one detection pass for each pool update and timer tick.
//! - [`transaction_manager`]: the queue of trades, of which at most one is
//!   in flight.
//!
//! Nothing here waits, reads a clock or talks to the network. The process
//! around the crate feeds it events and carries out what it decides.

pub mod arbitrage_engine;
pub mod opportunity;
pub mod pipeline;
pub mod pool;
pub mod pricing;
pub mod transaction_manager;
