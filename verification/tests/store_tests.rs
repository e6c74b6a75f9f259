use eth_logs::codec::Address;
use eth_logs::codec::WI256;
use eth_logs::codec::WU256;
use eth_logs::codec::Wu128;
use eth_logs::codec::decode_address;
use eth_logs::codec::decode_wi256;
use eth_logs::codec::decode_wu128;
use eth_logs::codec::decode_wu256;
use eth_logs::events::BurnEvent;
use eth_logs::events::FlashEvent;
use eth_logs::events::LogEnvelope;
use eth_logs::events::MintEvent;
use eth_logs::events::SwapEvent;
use eth_logs::store::Store;
use eth_logs::store::StoreError;

fn zero_address() -> Address {
    Address { bytes: vec![0u8; 20] }
}

fn envelope() -> LogEnvelope {
    LogEnvelope { transaction_hash: vec![0u8; 32], block_number: 0, address: zero_address() }
}

fn u256_max() -> WU256 {
    WU256 { l0: u64::MAX, l1: u64::MAX, l2: u64::MAX, l3: u64::MAX }
}

#[test]
fn insert_events() {
    let mut db = Store::new();
    db.ensure_schema();

    let s_events = SwapEvent {
        sender: zero_address(),
        recipient: zero_address(),
        amount0: WI256 { l0: 0, l1: 0, l2: 0, l3: 0 },
        amount1: WI256 { l0: 0, l1: 0, l2: 0, l3: 0 },
        sqrt_price_x96: WU256 { l0: 0, l1: 0, l2: 0, l3: 0 },
        liquidity: Wu128(0),
        tick: 0,
    };

    let m_events = MintEvent {
        sender: zero_address(),
        owner: zero_address(),
        tick_lower: 0,
        tick_upper: 0,
        amount: Wu128(0),
        amount0: u256_max(),
        amount1: u256_max(),
    };

    let b_events = BurnEvent {
        owner: zero_address(),
        tick_lower: 0,
        tick_upper: 0,
        amount: Wu128(0),
        amount0: u256_max(),
        amount1: u256_max(),
    };

    let f_events = FlashEvent {
        sender: zero_address(),
        recipient: zero_address(),
        amount0: u256_max(),
        amount1: u256_max(),
        paid0: u256_max(),
        paid1: u256_max(),
    };

    let id = db.insert_envelope(&envelope());
    let s_result = db.insert_swap(id, &s_events);
    let m_result = db.insert_mint(id, &m_events);
    let b_result = db.insert_burn(id, &b_events);
    let f_result = db.insert_flash(id, &f_events);

    assert!(s_result.is_ok());
    assert!(m_result.is_ok());
    assert!(b_result.is_ok());
    assert!(f_result.is_ok());

    assert_eq!(db.swaps.len(), 1);
    assert_eq!(db.burns.len(), 1);
    assert_eq!(db.mints.len(), 1);
    assert_eq!(db.flashes.len(), 1);

    let default_address = zero_address();

    let se = db.swaps.first().unwrap();
    let be = db.burns.first().unwrap();
    let me = db.mints.first().unwrap();
    let fe = db.flashes.first().unwrap();

    // Swap check.
    assert_eq!(default_address.bytes, decode_address(&se.sender_address).unwrap().bytes);
    assert_eq!(default_address.bytes, decode_address(&se.receiver_address).unwrap().bytes);
    assert_eq!(s_events.amount0, decode_wi256(&se.amount0).unwrap());
    assert_eq!(s_events.amount1, decode_wi256(&se.amount1).unwrap());
    assert_eq!(s_events.sqrt_price_x96, decode_wu256(&se.sqrt_price_x96).unwrap());
    assert_eq!(Wu128(0), decode_wu128(&se.liquidity).unwrap());
    assert_eq!(0, se.tick);

    // Burn check.
    assert_eq!(default_address.bytes, decode_address(&be.owner_address).unwrap().bytes);
    assert_eq!(0, be.tick_lower);
    assert_eq!(0, be.tick_upper);
    assert_eq!(Wu128(0), decode_wu128(&be.amount).unwrap());
    assert_eq!(u256_max(), decode_wu256(&be.amount0).unwrap());
    assert_eq!(u256_max(), decode_wu256(&be.amount1).unwrap());

    // Mint check: the maximum unsigned 256-bit value survives exactly.
    assert_eq!(default_address.bytes, decode_address(&me.sender_address).unwrap().bytes);
    assert_eq!(default_address.bytes, decode_address(&me.owner_address).unwrap().bytes);
    assert_eq!(0, me.tick_lower);
    assert_eq!(0, me.tick_upper);
    assert_eq!(Wu128(0), decode_wu128(&me.amount).unwrap());
    assert_eq!(u256_max(), decode_wu256(&me.amount0).unwrap());
    assert_eq!(u256_max(), decode_wu256(&me.amount1).unwrap());
    assert_eq!(me.amount0, vec![0xffu8; 32]);
    assert_eq!(me.amount1, vec![0xffu8; 32]);

    // Flash check.
    assert_eq!(default_address.bytes, decode_address(&fe.sender_address).unwrap().bytes);
    assert_eq!(default_address.bytes, decode_address(&fe.receiver_address).unwrap().bytes);
    assert_eq!(u256_max(), decode_wu256(&fe.amount0).unwrap());
    assert_eq!(u256_max(), decode_wu256(&fe.amount1).unwrap());
    assert_eq!(u256_max(), decode_wu256(&fe.paid0).unwrap());
    assert_eq!(u256_max(), decode_wu256(&fe.paid1).unwrap());
}

#[test]
fn ensure_schema_twice() {
    let mut db = Store::new();
    db.ensure_schema();
    assert!(db.schema_ready);
    let envelopes_before = db.envelopes.len();
    db.ensure_schema();
    assert!(db.schema_ready);
    assert_eq!(db.envelopes.len(), envelopes_before);
    assert_eq!(db.swaps.len(), 0);
    assert_eq!(db.mints.len(), 0);
    assert_eq!(db.burns.len(), 0);
    assert_eq!(db.flashes.len(), 0);
}

#[test]
fn envelope_row_stores_block_number_big_endian() {
    let mut db = Store::new();
    db.ensure_schema();
    let env = LogEnvelope {
        transaction_hash: vec![7u8; 32],
        block_number: 0x0102030405060708,
        address: zero_address(),
    };
    let id = db.insert_envelope(&env);
    assert_eq!(db.envelopes.len(), 1);
    let row = &db.envelopes[0];
    assert_eq!(row.id, id.0);
    assert_eq!(row.transaction_hash, vec![7u8; 32]);
    assert_eq!(row.block_number, vec![1, 2, 3, 4, 5, 6, 7, 8]);
    assert_eq!(row.address, vec![0u8; 20]);
}

#[test]
fn payload_insert_without_envelope_fails() {
    let mut db = Store::new();
    db.ensure_schema();
    let id = db.insert_envelope(&envelope());
    let bogus = eth_logs::store::EnvelopeId(id.0 + 1);
    let e = BurnEvent {
        owner: zero_address(),
        tick_lower: -1,
        tick_upper: 1,
        amount: Wu128(5),
        amount0: WU256 { l0: 1, l1: 0, l2: 0, l3: 0 },
        amount1: WU256 { l0: 2, l1: 0, l2: 0, l3: 0 },
    };
    let r = db.insert_burn(bogus, &e);
    assert_eq!(r.unwrap_err(), StoreError::MissingEnvelope { id: id.0 + 1 });
    assert_eq!(db.burns.len(), 0);
}

#[test]
fn cascade_removes_payload_rows() {
    let mut db = Store::new();
    db.ensure_schema();
    let id_a = db.insert_envelope(&envelope());
    let id_b = db.insert_envelope(&envelope());
    let e = BurnEvent {
        owner: zero_address(),
        tick_lower: 0,
        tick_upper: 0,
        amount: Wu128(1),
        amount0: WU256 { l0: 1, l1: 0, l2: 0, l3: 0 },
        amount1: WU256 { l0: 2, l1: 0, l2: 0, l3: 0 },
    };
    db.insert_burn(id_a, &e).unwrap();
    db.insert_burn(id_b, &e).unwrap();
    assert_eq!(db.envelopes.len(), 2);
    assert_eq!(db.burns.len(), 2);

    db.remove_envelope(id_a);

    // The removed envelope's payload row is gone with it; the other survives.
    assert_eq!(db.envelopes.len(), 1);
    assert_eq!(db.envelopes[0].id, id_b.0);
    assert_eq!(db.burns.len(), 1);
    assert_eq!(db.burns[0].ethereum_log_id, id_b.0);
}
