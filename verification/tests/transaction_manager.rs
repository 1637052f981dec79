use triangle_arbitrage::arbitrage_engine::{ArbitrageConfig, ArbitrageEngine};
use triangle_arbitrage::opportunity::{ArbitrageOpportunity, CycleDirection, Leg};
use triangle_arbitrage::pool::{PoolReserves, PoolSlot, PoolState, ReserveSnapshot, Triangle};
use triangle_arbitrage::transaction_manager::{
    Dispatch, ExecutionError, RequestState, SubmissionProgress, SubmissionReport, SwapInstruction,
    TradeExecutionRequest, TransactionManager, TransactionManagerConfig, TransactionOutcome,
};

fn triangle() -> Triangle {
    Triangle {
        a_base_pool: "A-SOL".to_string(),
        b_base_pool: "B-SOL".to_string(),
        a_b_pool: "A-B".to_string(),
    }
}

fn manager() -> TransactionManager {
    TransactionManager::new(
        TransactionManagerConfig { slippage_bps: 100, confirmation_timeout_ms: 30_000 },
        triangle(),
    )
}

/// An opportunity that can be told from others by its input.
fn opportunity(input_amount: u64) -> ArbitrageOpportunity {
    ArbitrageOpportunity {
        direction: CycleDirection::ViaTokenA,
        first_leg: Leg {
            pool: PoolSlot::TokenABase,
            sells_first: false,
            amount_in: input_amount,
            amount_out: 2_000,
        },
        second_leg: Leg {
            pool: PoolSlot::TokenAB,
            sells_first: true,
            amount_in: 2_000,
            amount_out: 3_000,
        },
        third_leg: Leg {
            pool: PoolSlot::TokenBBase,
            sells_first: true,
            amount_in: 3_000,
            amount_out: input_amount + 50,
        },
        input_amount,
        output_amount: input_amount + 50,
        net_profit_lamports: 50,
        snapshot: ReserveSnapshot {
            a_base: PoolReserves { first: 1, second: 2 },
            b_base: PoolReserves { first: 3, second: 4 },
            a_b: PoolReserves { first: 5, second: 6 },
        },
    }
}

fn started(dispatch: Option<Dispatch>) -> u64 {
    dispatch.expect("a request should have started").request.opportunity.input_amount
}

fn resolved(progress: SubmissionProgress) -> TransactionOutcome {
    match progress {
        SubmissionProgress::Resolved(outcome) => outcome,
        other => panic!("not resolved: {:?}", other),
    }
}

#[test]
fn a_fresh_manager_has_nothing_to_do() {
    let mut manager = manager();
    assert_eq!(manager.queued(), 0);
    assert!(!manager.is_submitting());
    assert!(manager.may_exit());
    assert_eq!(manager.begin_next(), None);
    assert_eq!(manager.confirmation_timeout_ms(), 30_000);
}

#[test]
fn an_enqueued_opportunity_is_a_queued_request() {
    let mut manager = manager();
    let request = manager.enqueue(opportunity(1_000));
    assert_eq!(
        request,
        TradeExecutionRequest { opportunity: opportunity(1_000), state: RequestState::Queued }
    );
    assert_eq!(manager.queued(), 1);
    assert!(!manager.is_submitting());
}

#[test]
fn the_swaps_follow_the_legs() {
    let manager = manager();
    let instructions = manager.build_swap_instructions(&opportunity(1_000));
    assert_eq!(
        instructions,
        vec![
            SwapInstruction {
                pool_address: "A-SOL".to_string(),
                sells_first: false,
                amount_in: 1_000,
                minimum_amount_out: 1_980,
            },
            SwapInstruction {
                pool_address: "A-B".to_string(),
                sells_first: true,
                amount_in: 2_000,
                minimum_amount_out: 2_970,
            },
            SwapInstruction {
                pool_address: "B-SOL".to_string(),
                sells_first: true,
                amount_in: 3_000,
                minimum_amount_out: 1_039,
            },
        ]
    );
}

#[test]
fn the_slippage_tolerance_sets_the_least_output() {
    let with = |slippage_bps| {
        TransactionManager::new(
            TransactionManagerConfig { slippage_bps, confirmation_timeout_ms: 1 },
            triangle(),
        )
        .build_swap_instructions(&opportunity(1_000))[0]
            .minimum_amount_out
    };
    assert_eq!(with(0), 2_000);
    assert_eq!(with(50), 1_990);
    assert_eq!(with(9_999), 0);
    assert_eq!(with(10_000), 0);
    assert_eq!(with(u64::MAX), 0);
}

#[test]
fn the_swaps_of_a_detected_opportunity_use_the_pools_of_its_direction() {
    let config = ArbitrageConfig {
        probe_amount_lamports: 30,
        swap_fee_bps: 0,
        network_fee_lamports: 0,
        min_profit_lamports: 0,
        min_profit_bps: 0,
    };
    let mut engine = ArbitrageEngine::new(config, triangle());
    for (address, first, second) in [("A-SOL", 1000, 1000), ("B-SOL", 1000, 1000), ("A-B", 1200, 1000)] {
        engine.update_pool_state(PoolState {
            pool_address: address.to_string(),
            reserves: PoolReserves { first, second },
            last_updated: 0,
        });
    }
    let found = engine.check_arbitrage_opportunities().unwrap();
    let mut manager = TransactionManager::new(
        TransactionManagerConfig { slippage_bps: 0, confirmation_timeout_ms: 1 },
        triangle(),
    );
    manager.enqueue(found[0]);
    let dispatch = manager.begin_next().unwrap();
    let plan: Vec<(String, bool, u64, u64)> = dispatch
        .instructions
        .iter()
        .map(|swap| (swap.pool_address.clone(), swap.sells_first, swap.amount_in, swap.minimum_amount_out))
        .collect();
    assert_eq!(
        plan,
        vec![
            ("B-SOL".to_string(), false, 30, 29),
            ("A-B".to_string(), false, 29, 33),
            ("A-SOL".to_string(), true, 33, 31),
        ]
    );
}

#[test]
fn starting_a_request_hands_out_its_swaps() {
    let mut manager = manager();
    manager.enqueue(opportunity(1_000));
    let dispatch = manager.begin_next().unwrap();
    assert_eq!(
        dispatch.request,
        TradeExecutionRequest { opportunity: opportunity(1_000), state: RequestState::Submitting }
    );
    assert_eq!(dispatch.instructions, manager.build_swap_instructions(&opportunity(1_000)));
    assert!(manager.is_submitting());
    assert!(!manager.may_exit());
    assert_eq!(manager.queued(), 0);
}

#[test]
fn no_second_request_starts_while_one_is_in_flight() {
    let mut manager = manager();
    manager.enqueue(opportunity(1));
    manager.enqueue(opportunity(2));
    assert_eq!(started(manager.begin_next()), 1);
    assert_eq!(manager.begin_next(), None);
    assert_eq!(manager.begin_next(), None);
    manager.enqueue(opportunity(3));
    assert_eq!(manager.begin_next(), None);
    assert_eq!(manager.report(SubmissionReport::Pending { elapsed_ms: 10 }), SubmissionProgress::Waiting);
    assert_eq!(manager.begin_next(), None);
    assert_eq!(manager.queued(), 2);
    resolved(manager.report(SubmissionReport::Confirmed("sig-1".to_string())));
    assert_eq!(started(manager.begin_next()), 2);
    assert_eq!(manager.begin_next(), None);
}

#[test]
fn executions_never_overlap() {
    // Every start and every outcome is recorded; between two starts there
    // must be an outcome.
    let mut manager = manager();
    let mut in_flight = 0u32;
    let mut starts = 0u32;
    for round in 0..20u64 {
        manager.enqueue(opportunity(round));
        for _ in 0..3 {
            if manager.begin_next().is_some() {
                in_flight += 1;
                starts += 1;
                assert_eq!(in_flight, 1);
            }
        }
        if round % 3 != 0 {
            let report = match round % 3 {
                1 => SubmissionReport::Confirmed(format!("sig-{}", round)),
                _ => SubmissionReport::Rejected("stale".to_string()),
            };
            if let SubmissionProgress::Resolved(_) = manager.report(report) {
                in_flight -= 1;
            }
        }
        assert_eq!(manager.is_submitting(), in_flight == 1);
    }
    assert!(starts > 1);
}

#[test]
fn requests_start_in_the_order_in_which_they_were_queued() {
    let mut manager = manager();
    let mut order = Vec::new();
    for input in [5u64, 3, 9] {
        manager.enqueue(opportunity(input));
    }
    order.push(started(manager.begin_next()));
    manager.enqueue(opportunity(7));
    resolved(manager.report(SubmissionReport::Rejected("stale".to_string())));
    manager.enqueue(opportunity(1));
    while let Some(dispatch) = manager.begin_next() {
        order.push(dispatch.request.opportunity.input_amount);
        resolved(manager.report(SubmissionReport::Confirmed("sig".to_string())));
    }
    assert_eq!(order, vec![5, 3, 9, 7, 1]);
    assert_eq!(manager.queued(), 0);
}

#[test]
fn a_confirmation_carries_the_signature() {
    let mut manager = manager();
    manager.enqueue(opportunity(1_000));
    manager.begin_next();
    let outcome = resolved(manager.report(SubmissionReport::Confirmed("5VERv8".to_string())));
    assert_eq!(
        outcome,
        TransactionOutcome {
            request: TradeExecutionRequest { opportunity: opportunity(1_000), state: RequestState::Confirmed },
            result: Ok("5VERv8".to_string()),
        }
    );
    assert!(manager.may_exit());
}

#[test]
fn a_refusal_is_reported_and_not_retried() {
    let mut manager = manager();
    manager.enqueue(opportunity(1_000));
    manager.begin_next();
    let refusal = SubmissionReport::Rejected("output below minimum".to_string());
    let outcome = resolved(manager.report(refusal));
    assert_eq!(outcome.request.state, RequestState::Rejected);
    assert_eq!(outcome.result, Err(ExecutionError::Rejected("output below minimum".to_string())));
    assert_eq!(manager.queued(), 0);
    assert_eq!(manager.begin_next(), None);
}

#[test]
fn a_submission_that_times_out_is_timed_out_and_the_next_request_starts() {
    let mut manager = manager();
    manager.enqueue(opportunity(1));
    manager.enqueue(opportunity(2));
    assert_eq!(started(manager.begin_next()), 1);
    assert_eq!(manager.report(SubmissionReport::Pending { elapsed_ms: 29_999 }), SubmissionProgress::Waiting);
    assert!(manager.is_submitting());
    let outcome = resolved(manager.report(SubmissionReport::Pending { elapsed_ms: 30_000 }));
    assert_eq!(
        outcome.request,
        TradeExecutionRequest { opportunity: opportunity(1), state: RequestState::TimedOut }
    );
    assert_eq!(outcome.result, Err(ExecutionError::TimedOut));
    assert_ne!(outcome.result, Err(ExecutionError::Rejected(String::new())));
    assert!(!manager.is_submitting());
    assert_eq!(started(manager.begin_next()), 2);
}

#[test]
fn silence_past_the_bound_is_timed_out_too() {
    let mut manager = manager();
    manager.enqueue(opportunity(1));
    manager.begin_next();
    let outcome = resolved(manager.report(SubmissionReport::Pending { elapsed_ms: u64::MAX }));
    assert_eq!(outcome.result, Err(ExecutionError::TimedOut));
}

#[test]
fn with_no_bound_to_wait_silence_times_out_at_once() {
    let mut manager = TransactionManager::new(
        TransactionManagerConfig { slippage_bps: 0, confirmation_timeout_ms: 0 },
        triangle(),
    );
    manager.enqueue(opportunity(1));
    manager.begin_next();
    let outcome = resolved(manager.report(SubmissionReport::Pending { elapsed_ms: 0 }));
    assert_eq!(outcome.request.state, RequestState::TimedOut);
}

#[test]
fn a_report_with_nothing_in_flight_is_dropped() {
    let mut manager = manager();
    manager.enqueue(opportunity(1));
    assert_eq!(manager.report(SubmissionReport::Confirmed("sig".to_string())), SubmissionProgress::Idle);
    assert_eq!(manager.report(SubmissionReport::Pending { elapsed_ms: u64::MAX }), SubmissionProgress::Idle);
    assert_eq!(manager.queued(), 1);
    assert_eq!(started(manager.begin_next()), 1);
}

#[test]
fn after_shutdown_nothing_starts_but_the_flight_lands() {
    let mut manager = manager();
    manager.enqueue(opportunity(1));
    manager.enqueue(opportunity(2));
    manager.begin_next();
    manager.request_shutdown();
    assert!(!manager.may_exit());
    assert_eq!(manager.begin_next(), None);
    let outcome = resolved(manager.report(SubmissionReport::Confirmed("sig".to_string())));
    assert_eq!(outcome.request.state, RequestState::Confirmed);
    assert!(manager.may_exit());
    assert_eq!(manager.begin_next(), None);
    assert_eq!(manager.queued(), 1);
}

#[test]
fn only_the_three_outcomes_are_final() {
    assert!(!RequestState::Queued.is_final());
    assert!(!RequestState::Submitting.is_final());
    assert!(RequestState::Confirmed.is_final());
    assert!(RequestState::Rejected.is_final());
    assert!(RequestState::TimedOut.is_final());
}
