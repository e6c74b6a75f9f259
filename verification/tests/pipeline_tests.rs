use eth_logs::codec::Address;
use eth_logs::codec::WI256;
use eth_logs::codec::WU256;
use eth_logs::codec::Wu128;
use eth_logs::events::BurnEvent;
use eth_logs::events::FlashEvent;
use eth_logs::events::LogEnvelope;
use eth_logs::events::MintEvent;
use eth_logs::events::PoolEvent;
use eth_logs::events::SwapEvent;
use eth_logs::pipeline::PersistOutcome;
use eth_logs::pipeline::Pipeline;
use eth_logs::pipeline::PipelineState;
use eth_logs::pipeline::StreamItem;
use eth_logs::pipeline::persist_item;
use eth_logs::pipeline::run_pipeline;
use eth_logs::store::Store;

fn zero_address() -> Address {
    Address { bytes: vec![0u8; 20] }
}

fn envelope(block: u64) -> LogEnvelope {
    LogEnvelope { transaction_hash: vec![1u8; 32], block_number: block, address: zero_address() }
}

fn swap_event() -> PoolEvent {
    PoolEvent::Swap(SwapEvent {
        sender: zero_address(),
        recipient: zero_address(),
        amount0: WI256 { l0: 1, l1: 0, l2: 0, l3: 0 },
        amount1: WI256 { l0: 2, l1: 0, l2: 0, l3: 0 },
        sqrt_price_x96: WU256 { l0: 3, l1: 0, l2: 0, l3: 0 },
        liquidity: Wu128(4),
        tick: -5,
    })
}

fn mint_event() -> PoolEvent {
    PoolEvent::Mint(MintEvent {
        sender: zero_address(),
        owner: zero_address(),
        tick_lower: -1,
        tick_upper: 1,
        amount: Wu128(6),
        amount0: WU256 { l0: 7, l1: 0, l2: 0, l3: 0 },
        amount1: WU256 { l0: 8, l1: 0, l2: 0, l3: 0 },
    })
}

fn burn_event() -> PoolEvent {
    PoolEvent::Burn(BurnEvent {
        owner: zero_address(),
        tick_lower: -2,
        tick_upper: 2,
        amount: Wu128(9),
        amount0: WU256 { l0: 10, l1: 0, l2: 0, l3: 0 },
        amount1: WU256 { l0: 11, l1: 0, l2: 0, l3: 0 },
    })
}

fn flash_event() -> PoolEvent {
    PoolEvent::Flash(FlashEvent {
        sender: zero_address(),
        recipient: zero_address(),
        amount0: WU256 { l0: 12, l1: 0, l2: 0, l3: 0 },
        amount1: WU256 { l0: 13, l1: 0, l2: 0, l3: 0 },
        paid0: WU256 { l0: 14, l1: 0, l2: 0, l3: 0 },
        paid1: WU256 { l0: 15, l1: 0, l2: 0, l3: 0 },
    })
}

#[test]
fn pipeline_persists_every_pair_in_order() {
    let mut store = Store::new();
    store.ensure_schema();
    let items = vec![
        (swap_event(), envelope(1)),
        (mint_event(), envelope(2)),
        (PoolEvent::Other, envelope(3)),
        (burn_event(), envelope(4)),
        (flash_event(), envelope(5)),
        (PoolEvent::Other, envelope(6)),
    ];
    let p = run_pipeline(&mut store, items);

    assert_eq!(p.state, PipelineState::Stopped);
    assert_eq!(p.persisted, 4);
    assert_eq!(p.dropped, 2);
    assert_eq!(store.envelopes.len(), 6);
    assert_eq!(store.swaps.len(), 1);
    assert_eq!(store.mints.len(), 1);
    assert_eq!(store.burns.len(), 1);
    assert_eq!(store.flashes.len(), 1);

    // Envelopes are persisted in stream order.
    for (i, row) in store.envelopes.iter().enumerate() {
        assert_eq!(row.block_number[7], (i + 1) as u8);
    }

    // Every payload row references an existing envelope row.
    let payload_refs: Vec<u64> = vec![
        store.swaps[0].ethereum_log_id,
        store.mints[0].ethereum_log_id,
        store.burns[0].ethereum_log_id,
        store.flashes[0].ethereum_log_id,
    ];
    for r in payload_refs {
        assert!(store.envelopes.iter().any(|e| e.id == r));
    }
}

#[test]
fn pipeline_empty_stream() {
    let mut store = Store::new();
    store.ensure_schema();
    let p = run_pipeline(&mut store, Vec::new());
    assert_eq!(p.state, PipelineState::Stopped);
    assert_eq!(p.persisted, 0);
    assert_eq!(p.dropped, 0);
    assert_eq!(store.envelopes.len(), 0);
    assert_eq!(store.swaps.len(), 0);
    assert_eq!(store.mints.len(), 0);
    assert_eq!(store.burns.len(), 0);
    assert_eq!(store.flashes.len(), 0);
}

#[test]
fn persist_item_drops_unmodeled_variant_observably() {
    let mut store = Store::new();
    store.ensure_schema();
    let env = envelope(9);
    let out = persist_item(&mut store, &PoolEvent::Other, &env);
    assert_eq!(out, PersistOutcome::Dropped);
    assert_eq!(store.envelopes.len(), 1);
    assert_eq!(store.swaps.len(), 0);
    assert_eq!(store.mints.len(), 0);
    assert_eq!(store.burns.len(), 0);
    assert_eq!(store.flashes.len(), 0);
}

#[test]
fn pipeline_stops_on_stream_end() {
    let mut store = Store::new();
    store.ensure_schema();
    let mut p = Pipeline::new();
    p.step(&mut store, StreamItem::End);
    assert_eq!(p.state, PipelineState::Stopped);
    // A stopped driver absorbs further input and touches nothing.
    p.step(&mut store, StreamItem::Event(swap_event(), envelope(1)));
    assert_eq!(p.state, PipelineState::Stopped);
    assert_eq!(store.envelopes.len(), 0);
    assert_eq!(store.swaps.len(), 0);
}

#[test]
fn pipeline_fails_on_transport_fault() {
    let mut store = Store::new();
    store.ensure_schema();
    let mut p = Pipeline::new();
    p.step(&mut store, StreamItem::Event(mint_event(), envelope(1)));
    assert_eq!(p.state, PipelineState::Listening);
    assert_eq!(p.persisted, 1);
    p.step(&mut store, StreamItem::Fault);
    assert_eq!(p.state, PipelineState::Failed);
    // A failed driver absorbs further input and touches nothing.
    p.step(&mut store, StreamItem::Event(swap_event(), envelope(2)));
    assert_eq!(p.state, PipelineState::Failed);
    assert_eq!(store.envelopes.len(), 1);
    assert_eq!(store.mints.len(), 1);
    assert_eq!(store.swaps.len(), 0);
}
