use artemis_core::executors::bid_gas_price;
use artemis_core::mevshare::{Event, EventTransactionLog};
use artemis_core::strategy::{ChainContext, MevShareUniArb, V2V3PoolRecord};

fn record(v3: u8, v2: u8, weth0: bool) -> V2V3PoolRecord {
    V2V3PoolRecord {
        token_address: vec![0u8; 20],
        v3_pool: vec![v3; 20],
        v2_pool: vec![v2; 20],
        weth_token0: weth0,
    }
}

fn event_with_log(addr: Vec<u8>) -> Event {
    Event {
        hash: vec![9u8; 32],
        transactions: Vec::new(),
        logs: vec![EventTransactionLog { address: addr, topics: Vec::new() }],
    }
}

fn context() -> ChainContext {
    ChainContext {
        bid_gas_price: 1_000_000_000,
        block_number: 18_000_000,
        chain_id: 1,
        nonce: 7,
        sender: vec![5u8; 20],
    }
}

#[test]
fn watched_event_plans_the_ladder() {
    let mut strategy = MevShareUniArb::new();
    strategy.sync_state(vec![record(3, 4, true)]);
    let event = event_with_log(vec![3u8; 20]);
    let plans = strategy.process_event(&event, &context());
    assert_eq!(plans.len(), 14);
    assert_eq!(plans[0].amount_in, 100_000);
    assert_eq!(plans[13].amount_in, 1_000_000_000_000_000_000);
    for p in &plans {
        assert_eq!(p.v2_pool, vec![4u8; 20]);
        assert_eq!(p.v3_pool, vec![3u8; 20]);
        assert!(p.weth_token0);
        assert_eq!(p.payment_percentage, 0);
        assert_eq!(p.target_tx_hash, vec![9u8; 32]);
        assert_eq!(p.gas_limit, 400_000);
        assert_eq!(p.gas_price, 1_000_000_000);
        assert_eq!(p.chain_id, 1);
        assert_eq!(p.nonce, 7);
        assert_eq!(p.sender, vec![5u8; 20]);
        assert_eq!(p.inclusion_block, 18_000_001);
        assert_eq!(p.max_inclusion_block, 18_000_030);
    }
}

#[test]
fn unwatched_event_plans_nothing() {
    let mut strategy = MevShareUniArb::new();
    strategy.sync_state(vec![record(3, 4, true)]);
    let event = event_with_log(vec![8u8; 20]);
    assert_eq!(strategy.process_event(&event, &context()).len(), 0);
}

#[test]
fn event_without_logs_plans_nothing() {
    let mut strategy = MevShareUniArb::new();
    strategy.sync_state(vec![record(3, 4, true)]);
    let event = Event { hash: vec![9u8; 32], transactions: Vec::new(), logs: Vec::new() };
    assert_eq!(strategy.process_event(&event, &context()).len(), 0);
}

#[test]
fn later_records_override_earlier_ones() {
    let mut strategy = MevShareUniArb::new();
    strategy.sync_state(vec![record(3, 4, true), record(3, 6, false)]);
    let event = event_with_log(vec![3u8; 20]);
    let plans = strategy.process_event(&event, &context());
    assert_eq!(plans[0].v2_pool, vec![6u8; 20]);
    assert!(!plans[0].weth_token0);
}

#[test]
fn bid_gas_price_scales_breakeven() {
    // Break-even price 100, half of it bid.
    assert_eq!(bid_gas_price(1000, 10, 50), Some(50));
    // Rounding down happens at the division by the gas usage first.
    assert_eq!(bid_gas_price(1050, 100, 100), Some(10));
    // And then at the percentage scaling.
    assert_eq!(bid_gas_price(199, 1, 50), Some(99));
    // A zero percentage bids nothing.
    assert_eq!(bid_gas_price(1000, 10, 0), Some(0));
}

#[test]
fn bid_gas_price_overflow_is_none() {
    assert_eq!(bid_gas_price(u128::MAX, 1, 200), None);
    assert_eq!(bid_gas_price(u128::MAX, 1, 100), Some(u128::MAX));
}
