use triangle_arbitrage::arbitrage_engine::{ArbitrageConfig, ArbitrageEngine, EngineError};
use triangle_arbitrage::opportunity::{ArbitrageOpportunity, CycleDirection, Leg};
use triangle_arbitrage::pool::{PoolReserves, PoolSlot, PoolState, ReserveSnapshot, Triangle};

fn triangle() -> Triangle {
    Triangle {
        a_base_pool: "A-SOL".to_string(),
        b_base_pool: "B-SOL".to_string(),
        a_b_pool: "A-B".to_string(),
    }
}

fn state(address: &str, first: u64, second: u64) -> PoolState {
    PoolState {
        pool_address: address.to_string(),
        reserves: PoolReserves { first, second },
        last_updated: 0,
    }
}

fn stamped(address: &str, first: u64, second: u64, last_updated: u64) -> PoolState {
    PoolState {
        pool_address: address.to_string(),
        reserves: PoolReserves { first, second },
        last_updated,
    }
}

fn free_config(probe: u64) -> ArbitrageConfig {
    ArbitrageConfig {
        probe_amount_lamports: probe,
        swap_fee_bps: 0,
        network_fee_lamports: 0,
        min_profit_lamports: 0,
        min_profit_bps: 0,
    }
}

fn engine_with(
    config: ArbitrageConfig,
    a_base: (u64, u64),
    b_base: (u64, u64),
    a_b: (u64, u64),
) -> ArbitrageEngine {
    let mut engine = ArbitrageEngine::new(config, triangle());
    engine.update_pool_state(state("A-SOL", a_base.0, a_base.1));
    engine.update_pool_state(state("B-SOL", b_base.0, b_base.1));
    engine.update_pool_state(state("A-B", a_b.0, a_b.1));
    engine
}

/// Deep pools in which token A buys 5 % more B in the A/B pool than the two
/// base pools make it worth.
fn deep(config: ArbitrageConfig) -> ArbitrageEngine {
    engine_with(
        config,
        (5_000_000_000_000, 100_000_000_000_000),
        (2_000_000_000_000, 100_000_000_000_000),
        (5_000_000_000_000, 2_100_000_000_000),
    )
}

fn charged_config() -> ArbitrageConfig {
    ArbitrageConfig {
        probe_amount_lamports: 1_000_000_000,
        swap_fee_bps: 30,
        network_fee_lamports: 5_000,
        min_profit_lamports: 0,
        min_profit_bps: 0,
    }
}

#[test]
fn skewed_a_b_pool_yields_a_profitable_cycle() {
    let engine = engine_with(free_config(30), (1000, 1000), (1000, 1000), (1000, 1200));
    let found = engine.check_arbitrage_opportunities().unwrap();
    assert_eq!(found.len(), 1);
    let opportunity = found[0];
    assert!(opportunity.net_profit_lamports > 0);
    assert_eq!(
        opportunity,
        ArbitrageOpportunity {
            direction: CycleDirection::ViaTokenA,
            first_leg: Leg {
                pool: PoolSlot::TokenABase,
                sells_first: false,
                amount_in: 30,
                amount_out: 29,
            },
            second_leg: Leg {
                pool: PoolSlot::TokenAB,
                sells_first: true,
                amount_in: 29,
                amount_out: 33,
            },
            third_leg: Leg {
                pool: PoolSlot::TokenBBase,
                sells_first: true,
                amount_in: 33,
                amount_out: 31,
            },
            input_amount: 30,
            output_amount: 31,
            net_profit_lamports: 1,
            snapshot: ReserveSnapshot {
                a_base: PoolReserves { first: 1000, second: 1000 },
                b_base: PoolReserves { first: 1000, second: 1000 },
                a_b: PoolReserves { first: 1000, second: 1200 },
            },
        }
    );
}

#[test]
fn the_profitable_cycle_passes_through_all_three_pools() {
    let engine = engine_with(free_config(30), (1000, 1000), (1000, 1000), (1000, 1200));
    let found = engine.check_arbitrage_opportunities().unwrap();
    let pools: Vec<PoolSlot> = found[0].legs().iter().map(|leg| leg.pool).collect();
    assert_eq!(pools, vec![PoolSlot::TokenABase, PoolSlot::TokenAB, PoolSlot::TokenBBase]);
}

#[test]
fn the_opposite_skew_is_found_the_other_way_round() {
    let engine = engine_with(free_config(30), (1000, 1000), (1000, 1000), (1200, 1000));
    let found = engine.check_arbitrage_opportunities().unwrap();
    assert_eq!(found.len(), 1);
    assert_eq!(found[0].direction, CycleDirection::ViaTokenB);
    assert_eq!(found[0].first_leg.pool, PoolSlot::TokenBBase);
    assert_eq!(found[0].third_leg.pool, PoolSlot::TokenABase);
    assert_eq!(found[0].output_amount, 31);
    assert_eq!(found[0].net_profit_lamports, 1);
}

#[test]
fn balanced_pools_yield_nothing() {
    let engine = engine_with(free_config(30), (1000, 1000), (1000, 1000), (1000, 1000));
    assert_eq!(engine.check_arbitrage_opportunities(), Ok(vec![]));
}

#[test]
fn balanced_pools_yield_nothing_for_any_probe() {
    for probe in [0u64, 1, 30, 999, 1_000_000, u64::MAX] {
        let engine = engine_with(free_config(probe), (1000, 1000), (1000, 1000), (1000, 1000));
        assert_eq!(engine.check_arbitrage_opportunities(), Ok(vec![]));
    }
}

#[test]
fn pools_that_agree_on_the_prices_yield_nothing() {
    // A is worth 20 base, B is worth 50 base, and the A/B pool trades 5 A for 2 B.
    let engine = engine_with(
        free_config(1_000_000_000),
        (5_000_000_000_000, 100_000_000_000_000),
        (2_000_000_000_000, 100_000_000_000_000),
        (5_000_000_000_000, 2_000_000_000_000),
    );
    assert_eq!(engine.check_arbitrage_opportunities(), Ok(vec![]));
}

#[test]
fn a_probe_that_moves_the_price_too_far_finds_nothing() {
    let engine = engine_with(free_config(100), (1000, 1000), (1000, 1000), (1000, 1200));
    assert_eq!(engine.check_arbitrage_opportunities(), Ok(vec![]));
}

#[test]
fn scan_before_any_update_is_incomplete() {
    let engine = ArbitrageEngine::new(free_config(30), triangle());
    assert!(!engine.is_ready());
    assert_eq!(engine.check_arbitrage_opportunities(), Err(EngineError::IncompletePoolData));
}

#[test]
fn scan_is_incomplete_until_the_last_pool_is_seen() {
    for missing in ["A-SOL", "B-SOL", "A-B"] {
        let mut engine = ArbitrageEngine::new(free_config(30), triangle());
        for address in ["A-SOL", "B-SOL", "A-B"] {
            if address != missing {
                engine.update_pool_state(state(address, 1000, 1200));
                engine.update_pool_state(state(address, 1200, 1000));
            }
        }
        assert_eq!(engine.check_arbitrage_opportunities(), Err(EngineError::IncompletePoolData));
        engine.update_pool_state(state(missing, 1000, 1000));
        assert!(engine.is_ready());
        assert!(engine.check_arbitrage_opportunities().is_ok());
    }
}

#[test]
fn repeated_scans_give_the_same_answer() {
    let engine = deep(charged_config());
    let first = engine.check_arbitrage_opportunities();
    for _ in 0..5 {
        assert_eq!(engine.check_arbitrage_opportunities(), first);
    }
    assert_eq!(first.unwrap()[0].output_amount, 1_040_546_722);
}

#[test]
fn the_order_of_updates_does_not_matter() {
    let updates = [
        stamped("A-SOL", 5_000_000_000_000, 100_000_000_000_000, 11),
        stamped("B-SOL", 2_000_000_000_000, 100_000_000_000_000, 12),
        stamped("A-B", 5_000_000_000_000, 2_100_000_000_000, 13),
    ];
    let orders: [[usize; 3]; 6] = [[0, 1, 2], [0, 2, 1], [1, 0, 2], [1, 2, 0], [2, 0, 1], [2, 1, 0]];
    let expected = deep(charged_config()).check_arbitrage_opportunities();
    for order in orders {
        let mut engine = ArbitrageEngine::new(charged_config(), triangle());
        // Stale values first, then the final ones in the order under test.
        engine.update_pool_state(state("A-B", 1, 1));
        engine.update_pool_state(state("A-SOL", 7, 9));
        for index in order {
            let update = &updates[index];
            engine.update_pool_state(stamped(
                &update.pool_address,
                update.reserves.first,
                update.reserves.second,
                update.last_updated,
            ));
        }
        assert_eq!(engine.check_arbitrage_opportunities(), expected);
    }
}

#[test]
fn the_last_write_wins_whatever_its_marker() {
    let mut engine = ArbitrageEngine::new(free_config(30), triangle());
    engine.update_pool_state(stamped("A-B", 1000, 1200, 9));
    engine.update_pool_state(stamped("A-B", 1000, 1000, 3));
    assert_eq!(engine.pool_state(PoolSlot::TokenAB), Some(&stamped("A-B", 1000, 1000, 3)));
    engine.update_pool_state(state("A-SOL", 1000, 1000));
    engine.update_pool_state(state("B-SOL", 1000, 1000));
    assert_eq!(engine.check_arbitrage_opportunities(), Ok(vec![]));
}

#[test]
fn an_update_for_a_foreign_pool_is_dropped() {
    let mut engine = ArbitrageEngine::new(free_config(30), triangle());
    engine.update_pool_state(state("C-SOL", 1, 2));
    assert_eq!(engine.pool_state(PoolSlot::TokenABase), None);
    assert_eq!(engine.pool_state(PoolSlot::TokenBBase), None);
    assert_eq!(engine.pool_state(PoolSlot::TokenAB), None);
    assert_eq!(engine.snapshot(), None);
}

#[test]
fn each_update_goes_to_its_own_slot() {
    let mut engine = ArbitrageEngine::new(free_config(30), triangle());
    engine.update_pool_state(state("B-SOL", 3, 4));
    assert_eq!(engine.pool_state(PoolSlot::TokenABase), None);
    assert_eq!(engine.pool_state(PoolSlot::TokenBBase), Some(&state("B-SOL", 3, 4)));
    engine.update_pool_state(state("A-SOL", 1, 2));
    engine.update_pool_state(state("A-B", 5, 6));
    assert_eq!(
        engine.snapshot(),
        Some(ReserveSnapshot {
            a_base: PoolReserves { first: 1, second: 2 },
            b_base: PoolReserves { first: 3, second: 4 },
            a_b: PoolReserves { first: 5, second: 6 },
        })
    );
}

#[test]
fn with_one_address_for_two_slots_the_earlier_slot_answers() {
    let shared = Triangle {
        a_base_pool: "X".to_string(),
        b_base_pool: "X".to_string(),
        a_b_pool: "A-B".to_string(),
    };
    assert_eq!(shared.slot_of(&"X".to_string()), Some(PoolSlot::TokenABase));
    let mut engine = ArbitrageEngine::new(free_config(30), shared);
    engine.update_pool_state(state("X", 1000, 1000));
    engine.update_pool_state(state("A-B", 1000, 1200));
    assert_eq!(engine.check_arbitrage_opportunities(), Err(EngineError::IncompletePoolData));
}

#[test]
fn the_triangle_knows_its_addresses() {
    let triangle = triangle();
    assert_eq!(triangle.slot_of(&"A-SOL".to_string()), Some(PoolSlot::TokenABase));
    assert_eq!(triangle.slot_of(&"B-SOL".to_string()), Some(PoolSlot::TokenBBase));
    assert_eq!(triangle.slot_of(&"A-B".to_string()), Some(PoolSlot::TokenAB));
    assert_eq!(triangle.slot_of(&"a-b".to_string()), None);
    assert_eq!(triangle.address_of(PoolSlot::TokenABase), "A-SOL");
    assert_eq!(triangle.address_of(PoolSlot::TokenBBase), "B-SOL");
    assert_eq!(triangle.address_of(PoolSlot::TokenAB), "A-B");
}

#[test]
fn the_net_profit_is_the_output_less_input_and_network_fee() {
    let found = deep(charged_config()).check_arbitrage_opportunities().unwrap();
    assert_eq!(found.len(), 1);
    assert_eq!(found[0].direction, CycleDirection::ViaTokenA);
    assert_eq!(found[0].input_amount, 1_000_000_000);
    assert_eq!(found[0].output_amount, 1_040_546_722);
    assert_eq!(found[0].net_profit_lamports, 40_541_722);
    assert_eq!(found[0].profit_percentage_e4(), Some(40_546));
}

#[test]
fn the_net_profit_must_exceed_the_minimum_amount() {
    let at = ArbitrageConfig { min_profit_lamports: 40_541_722, ..charged_config() };
    assert_eq!(deep(at).check_arbitrage_opportunities(), Ok(vec![]));
    let below = ArbitrageConfig { min_profit_lamports: 40_541_721, ..charged_config() };
    assert_eq!(deep(below).check_arbitrage_opportunities().unwrap().len(), 1);
}

#[test]
fn the_net_profit_must_exceed_the_minimum_rate() {
    // 40_541_722 of 1_000_000_000 is 405.4 basis points.
    let under = ArbitrageConfig { min_profit_bps: 405, ..charged_config() };
    assert_eq!(deep(under).check_arbitrage_opportunities().unwrap().len(), 1);
    let over = ArbitrageConfig { min_profit_bps: 406, ..charged_config() };
    assert_eq!(deep(over).check_arbitrage_opportunities(), Ok(vec![]));
}

#[test]
fn the_rate_threshold_is_strict() {
    // 20 in, 21 out: a net profit of 1 is exactly 500 basis points.
    let pools = |config| engine_with(config, (1000, 1000), (1000, 1000), (1000, 1200));
    let plain = pools(free_config(20)).check_arbitrage_opportunities().unwrap();
    assert_eq!(plain[0].output_amount, 21);
    let exact = ArbitrageConfig { min_profit_bps: 500, ..free_config(20) };
    assert_eq!(pools(exact).check_arbitrage_opportunities(), Ok(vec![]));
    let under = ArbitrageConfig { min_profit_bps: 499, ..free_config(20) };
    assert_eq!(pools(under).check_arbitrage_opportunities().unwrap().len(), 1);
}

#[test]
fn both_thresholds_must_be_cleared() {
    let rate_only =
        ArbitrageConfig { min_profit_bps: 400, min_profit_lamports: 50_000_000, ..charged_config() };
    assert_eq!(deep(rate_only).check_arbitrage_opportunities(), Ok(vec![]));
    let amount_only =
        ArbitrageConfig { min_profit_bps: 500, min_profit_lamports: 1_000, ..charged_config() };
    assert_eq!(deep(amount_only).check_arbitrage_opportunities(), Ok(vec![]));
    let both =
        ArbitrageConfig { min_profit_bps: 400, min_profit_lamports: 1_000, ..charged_config() };
    assert_eq!(deep(both).check_arbitrage_opportunities().unwrap().len(), 1);
}

#[test]
fn a_network_fee_that_eats_the_gain_leaves_nothing() {
    let eaten = ArbitrageConfig { network_fee_lamports: 40_546_722, ..charged_config() };
    assert_eq!(deep(eaten).check_arbitrage_opportunities(), Ok(vec![]));
    let nearly = ArbitrageConfig { network_fee_lamports: 40_546_721, ..charged_config() };
    let found = deep(nearly).check_arbitrage_opportunities().unwrap();
    assert_eq!(found[0].net_profit_lamports, 1);
}

#[test]
fn the_largest_thresholds_do_not_overflow() {
    let config = ArbitrageConfig {
        probe_amount_lamports: u64::MAX,
        swap_fee_bps: u64::MAX,
        network_fee_lamports: u64::MAX,
        min_profit_lamports: u64::MAX,
        min_profit_bps: u64::MAX,
    };
    let full = (u64::MAX, u64::MAX);
    let engine = engine_with(config, full, full, full);
    assert_eq!(engine.check_arbitrage_opportunities(), Ok(vec![]));
}

#[test]
fn a_pool_fee_can_turn_a_gain_into_none() {
    let free = ArbitrageConfig { swap_fee_bps: 0, network_fee_lamports: 0, ..charged_config() };
    let found = deep(free).check_arbitrage_opportunities().unwrap();
    assert_eq!(found[0].net_profit_lamports, 49_967_975);
    let heavy = ArbitrageConfig { swap_fee_bps: 200, network_fee_lamports: 0, ..charged_config() };
    assert_eq!(deep(heavy).check_arbitrage_opportunities(), Ok(vec![]));
}

#[test]
fn the_engine_keeps_its_configuration() {
    let engine = deep(charged_config());
    assert_eq!(engine.config(), charged_config());
    assert_eq!(engine.triangle(), &triangle());
}
