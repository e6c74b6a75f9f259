//! Persistence store model: the five relational tables, idempotent schema
//! creation, one insert per entity, and administrative envelope removal
//! with cascade.
//!
//! Every payload row carries the identifier of the envelope row it belongs
//! to, and well-formedness guarantees that the reference always resolves:
//! a payload row never exists without its envelope row.

use vstd::prelude::*;

use crate::codec::Address;
use crate::codec::WI256;
use crate::codec::WU256;
use crate::codec::Wu128;
use crate::codec::encode_address;
use crate::codec::encode_u64_be;
use crate::codec::encode_wi256;
use crate::codec::encode_wu128;
use crate::codec::encode_wu256;
use crate::codec::u128_be_bytes;
use crate::codec::u64_be_bytes;
use crate::codec::wi256_be_bytes;
use crate::codec::wu256_be_bytes;
use crate::events::BurnEvent;
use crate::events::FlashEvent;
use crate::events::LogEnvelope;
use crate::events::MintEvent;
use crate::events::SwapEvent;

verus! {

/// Identifier generated by `insert_envelope`, uniquely naming one envelope
/// row; payload inserts reference it.
#[derive(Clone, Copy, Debug, PartialEq, Eq, Structural)]
pub struct EnvelopeId(pub u64);

/// Error returned by a payload insert whose envelope reference does not
/// resolve to an existing envelope row.
#[derive(Clone, Copy, Debug, PartialEq, Eq, Structural)]
pub enum StoreError {
    MissingEnvelope { id: u64 },
}

/// One row of the envelope table: the byte forms the schema stores.
#[derive(Clone, Debug)]
pub struct EnvelopeRow {
    pub id: u64,
    pub transaction_hash: Vec<u8>,
    pub block_number: Vec<u8>,
    pub address: Vec<u8>,
}

/// One row of the swap table.
#[derive(Clone, Debug)]
pub struct SwapRow {
    pub ethereum_log_id: u64,
    pub sender_address: Vec<u8>,
    pub receiver_address: Vec<u8>,
    pub amount0: Vec<u8>,
    pub amount1: Vec<u8>,
    pub sqrt_price_x96: Vec<u8>,
    pub liquidity: Vec<u8>,
    pub tick: i32,
}

/// One row of the mint table.
#[derive(Clone, Debug)]
pub struct MintRow {
    pub ethereum_log_id: u64,
    pub sender_address: Vec<u8>,
    pub owner_address: Vec<u8>,
    pub tick_lower: i32,
    pub tick_upper: i32,
    pub amount: Vec<u8>,
    pub amount0: Vec<u8>,
    pub amount1: Vec<u8>,
}

/// One row of the burn table.
#[derive(Clone, Debug)]
pub struct BurnRow {
    pub ethereum_log_id: u64,
    pub owner_address: Vec<u8>,
    pub tick_lower: i32,
    pub tick_upper: i32,
    pub amount: Vec<u8>,
    pub amount0: Vec<u8>,
    pub amount1: Vec<u8>,
}

/// One row of the flash table.
#[derive(Clone, Debug)]
pub struct FlashRow {
    pub ethereum_log_id: u64,
    pub sender_address: Vec<u8>,
    pub receiver_address: Vec<u8>,
    pub amount0: Vec<u8>,
    pub amount1: Vec<u8>,
    pub paid0: Vec<u8>,
    pub paid1: Vec<u8>,
}

/// Mathematical form of an envelope row.
#[verifier::ext_equal]
pub ghost struct EnvelopeRowModel {
    pub id: u64,
    pub transaction_hash: Seq<u8>,
    pub block_number: Seq<u8>,
    pub address: Seq<u8>,
}

/// Mathematical form of a swap row.
#[verifier::ext_equal]
pub ghost struct SwapRowModel {
    pub ethereum_log_id: u64,
    pub sender_address: Seq<u8>,
    pub receiver_address: Seq<u8>,
    pub amount0: Seq<u8>,
    pub amount1: Seq<u8>,
    pub sqrt_price_x96: Seq<u8>,
    pub liquidity: Seq<u8>,
    pub tick: i32,
}

/// Mathematical form of a mint row.
#[verifier::ext_equal]
pub ghost struct MintRowModel {
    pub ethereum_log_id: u64,
    pub sender_address: Seq<u8>,
    pub owner_address: Seq<u8>,
    pub tick_lower: i32,
    pub tick_upper: i32,
    pub amount: Seq<u8>,
    pub amount0: Seq<u8>,
    pub amount1: Seq<u8>,
}

/// Mathematical form of a burn row.
#[verifier::ext_equal]
pub ghost struct BurnRowModel {
    pub ethereum_log_id: u64,
    pub owner_address: Seq<u8>,
    pub tick_lower: i32,
    pub tick_upper: i32,
    pub amount: Seq<u8>,
    pub amount0: Seq<u8>,
    pub amount1: Seq<u8>,
}

/// Mathematical form of a flash row.
#[verifier::ext_equal]
pub ghost struct FlashRowModel {
    pub ethereum_log_id: u64,
    pub sender_address: Seq<u8>,
    pub receiver_address: Seq<u8>,
    pub amount0: Seq<u8>,
    pub amount1: Seq<u8>,
    pub paid0: Seq<u8>,
    pub paid1: Seq<u8>,
}

impl View for EnvelopeRow {
    type V = EnvelopeRowModel;

    open spec fn view(&self) -> EnvelopeRowModel {
        EnvelopeRowModel {
            id: self.id,
            transaction_hash: self.transaction_hash@,
            block_number: self.block_number@,
            address: self.address@,
        }
    }
}

impl View for SwapRow {
    type V = SwapRowModel;

    open spec fn view(&self) -> SwapRowModel {
        SwapRowModel {
            ethereum_log_id: self.ethereum_log_id,
            sender_address: self.sender_address@,
            receiver_address: self.receiver_address@,
            amount0: self.amount0@,
            amount1: self.amount1@,
            sqrt_price_x96: self.sqrt_price_x96@,
            liquidity: self.liquidity@,
            tick: self.tick,
        }
    }
}

impl View for MintRow {
    type V = MintRowModel;

    open spec fn view(&self) -> MintRowModel {
        MintRowModel {
            ethereum_log_id: self.ethereum_log_id,
            sender_address: self.sender_address@,
            owner_address: self.owner_address@,
            tick_lower: self.tick_lower,
            tick_upper: self.tick_upper,
            amount: self.amount@,
            amount0: self.amount0@,
            amount1: self.amount1@,
        }
    }
}

impl View for BurnRow {
    type V = BurnRowModel;

    open spec fn view(&self) -> BurnRowModel {
        BurnRowModel {
            ethereum_log_id: self.ethereum_log_id,
            owner_address: self.owner_address@,
            tick_lower: self.tick_lower,
            tick_upper: self.tick_upper,
            amount: self.amount@,
            amount0: self.amount0@,
            amount1: self.amount1@,
        }
    }
}

impl View for FlashRow {
    type V = FlashRowModel;

    open spec fn view(&self) -> FlashRowModel {
        FlashRowModel {
            ethereum_log_id: self.ethereum_log_id,
            sender_address: self.sender_address@,
            receiver_address: self.receiver_address@,
            amount0: self.amount0@,
            amount1: self.amount1@,
            paid0: self.paid0@,
            paid1: self.paid1@,
        }
    }
}

impl EnvelopeRowModel {
    /// Column widths of the envelope table.
    pub open spec fn wf(self) -> bool {
        self.transaction_hash.len() == 32 && self.block_number.len() == 8 && self.address.len()
            == 20
    }
}

impl SwapRowModel {
    /// Column widths of the swap table.
    pub open spec fn wf(self) -> bool {
        self.sender_address.len() == 20 && self.receiver_address.len() == 20 && self.amount0.len()
            == 32 && self.amount1.len() == 32 && self.sqrt_price_x96.len() == 32
            && self.liquidity.len() == 16
    }
}

impl MintRowModel {
    /// Column widths of the mint table.
    pub open spec fn wf(self) -> bool {
        self.sender_address.len() == 20 && self.owner_address.len() == 20 && self.amount.len()
            == 16 && self.amount0.len() == 32 && self.amount1.len() == 32
    }
}

impl BurnRowModel {
    /// Column widths of the burn table.
    pub open spec fn wf(self) -> bool {
        self.owner_address.len() == 20 && self.amount.len() == 16 && self.amount0.len() == 32
            && self.amount1.len() == 32
    }
}

impl FlashRowModel {
    /// Column widths of the flash table.
    pub open spec fn wf(self) -> bool {
        self.sender_address.len() == 20 && self.receiver_address.len() == 20 && self.amount0.len()
            == 32 && self.amount1.len() == 32 && self.paid0.len() == 32 && self.paid1.len() == 32
    }
}

/// The envelope row that persisting `env` under identifier `id` creates:
/// hash and address stored as they stand, the block number as its 8-byte
/// big-endian form.
pub open spec fn envelope_row_model(env: LogEnvelope, id: u64) -> EnvelopeRowModel {
    EnvelopeRowModel {
        id,
        transaction_hash: env.transaction_hash@,
        block_number: u64_be_bytes(env.block_number),
        address: env.address@,
    }
}

/// The swap row that persisting `e` under envelope `id` creates.
pub open spec fn swap_row_model(id: u64, e: SwapEvent) -> SwapRowModel {
    SwapRowModel {
        ethereum_log_id: id,
        sender_address: e.sender@,
        receiver_address: e.recipient@,
        amount0: wi256_be_bytes(e.amount0),
        amount1: wi256_be_bytes(e.amount1),
        sqrt_price_x96: wu256_be_bytes(e.sqrt_price_x96),
        liquidity: u128_be_bytes(e.liquidity.0),
        tick: e.tick,
    }
}

/// The mint row that persisting `e` under envelope `id` creates.
pub open spec fn mint_row_model(id: u64, e: MintEvent) -> MintRowModel {
    MintRowModel {
        ethereum_log_id: id,
        sender_address: e.sender@,
        owner_address: e.owner@,
        tick_lower: e.tick_lower,
        tick_upper: e.tick_upper,
        amount: u128_be_bytes(e.amount.0),
        amount0: wu256_be_bytes(e.amount0),
        amount1: wu256_be_bytes(e.amount1),
    }
}

/// The burn row that persisting `e` under envelope `id` creates.
pub open spec fn burn_row_model(id: u64, e: BurnEvent) -> BurnRowModel {
    BurnRowModel {
        ethereum_log_id: id,
        owner_address: e.owner@,
        tick_lower: e.tick_lower,
        tick_upper: e.tick_upper,
        amount: u128_be_bytes(e.amount.0),
        amount0: wu256_be_bytes(e.amount0),
        amount1: wu256_be_bytes(e.amount1),
    }
}

/// The flash row that persisting `e` under envelope `id` creates.
pub open spec fn flash_row_model(id: u64, e: FlashEvent) -> FlashRowModel {
    FlashRowModel {
        ethereum_log_id: id,
        sender_address: e.sender@,
        receiver_address: e.recipient@,
        amount0: wu256_be_bytes(e.amount0),
        amount1: wu256_be_bytes(e.amount1),
        paid0: wu256_be_bytes(e.paid0),
        paid1: wu256_be_bytes(e.paid1),
    }
}

/// The relational store: the envelope table, the four payload tables, the
/// next generated identifier, and whether the schema has been created.
pub struct Store {
    pub schema_ready: bool,
    pub next_id: u64,
    pub envelopes: Vec<EnvelopeRow>,
    pub swaps: Vec<SwapRow>,
    pub mints: Vec<MintRow>,
    pub burns: Vec<BurnRow>,
    pub flashes: Vec<FlashRow>,
}

/// Mathematical form of the whole store.
#[verifier::ext_equal]
pub ghost struct StoreModel {
    pub schema_ready: bool,
    pub next_id: u64,
    pub envelopes: Seq<EnvelopeRowModel>,
    pub swaps: Seq<SwapRowModel>,
    pub mints: Seq<MintRowModel>,
    pub burns: Seq<BurnRowModel>,
    pub flashes: Seq<FlashRowModel>,
}

impl View for Store {
    type V = StoreModel;

    open spec fn view(&self) -> StoreModel {
        StoreModel {
            schema_ready: self.schema_ready,
            next_id: self.next_id,
            envelopes: self.envelopes@.map_values(|r: EnvelopeRow| r@),
            swaps: self.swaps@.map_values(|r: SwapRow| r@),
            mints: self.mints@.map_values(|r: MintRow| r@),
            burns: self.burns@.map_values(|r: BurnRow| r@),
            flashes: self.flashes@.map_values(|r: FlashRow| r@),
        }
    }
}

impl StoreModel {
    /// Whether some envelope row carries identifier `id`.
    pub open spec fn has_envelope(self, id: u64) -> bool {
        exists|j: int|
            0 <= j < self.envelopes.len() && (#[trigger] self.envelopes[j]).id == id
    }

    /// Store invariant: every row has its schema's column widths, every
    /// envelope identifier is below the generator, and every payload row's
    /// envelope reference resolves to an existing envelope row.
    pub open spec fn wf(self) -> bool {
        &&& forall|i: int|
            0 <= i < self.envelopes.len() ==> (#[trigger] self.envelopes[i]).wf()
                && self.envelopes[i].id < self.next_id
        &&& forall|i: int|
            0 <= i < self.swaps.len() ==> (#[trigger] self.swaps[i]).wf() && self.has_envelope(
                self.swaps[i].ethereum_log_id,
            )
        &&& forall|i: int|
            0 <= i < self.mints.len() ==> (#[trigger] self.mints[i]).wf() && self.has_envelope(
                self.mints[i].ethereum_log_id,
            )
        &&& forall|i: int|
            0 <= i < self.burns.len() ==> (#[trigger] self.burns[i]).wf() && self.has_envelope(
                self.burns[i].ethereum_log_id,
            )
        &&& forall|i: int|
            0 <= i < self.flashes.len() ==> (#[trigger] self.flashes[i]).wf() && self.has_envelope(
                self.flashes[i].ethereum_log_id,
            )
    }
}

/// An envelope reference that resolves keeps resolving while the envelope
/// table is unchanged.
proof fn lemma_has_envelope_same(pre: StoreModel, post: StoreModel, x: u64)
    requires
        post.envelopes == pre.envelopes,
        pre.has_envelope(x),
    ensures
        post.has_envelope(x),
{
    let j = choose|j: int| 0 <= j < pre.envelopes.len() && (#[trigger] pre.envelopes[j]).id == x;
    assert(0 <= j < post.envelopes.len() && post.envelopes[j].id == x);
}

/// Pushing one well-referenced, well-shaped row onto payload tables keeps
/// the store invariant, as long as the envelope table stands still.
proof fn lemma_wf_after_payload_push(pre: StoreModel, post: StoreModel)
    requires
        pre.wf(),
        post.envelopes == pre.envelopes,
        post.next_id == pre.next_id,
        post.swaps == pre.swaps || (post.swaps.len() == pre.swaps.len() + 1
            && post.swaps.drop_last() == pre.swaps && post.swaps.last().wf()
            && pre.has_envelope(post.swaps.last().ethereum_log_id)),
        post.mints == pre.mints || (post.mints.len() == pre.mints.len() + 1
            && post.mints.drop_last() == pre.mints && post.mints.last().wf()
            && pre.has_envelope(post.mints.last().ethereum_log_id)),
        post.burns == pre.burns || (post.burns.len() == pre.burns.len() + 1
            && post.burns.drop_last() == pre.burns && post.burns.last().wf()
            && pre.has_envelope(post.burns.last().ethereum_log_id)),
        post.flashes == pre.flashes || (post.flashes.len() == pre.flashes.len() + 1
            && post.flashes.drop_last() == pre.flashes && post.flashes.last().wf()
            && pre.has_envelope(post.flashes.last().ethereum_log_id)),
    ensures
        post.wf(),
{
    assert forall|i: int| 0 <= i < post.swaps.len() implies (#[trigger] post.swaps[i]).wf()
        && post.has_envelope(post.swaps[i].ethereum_log_id) by {
        if i < pre.swaps.len() {
            if post.swaps != pre.swaps {
                assert(post.swaps[i] == post.swaps.drop_last()[i]);
            }
            assert(post.swaps[i] == pre.swaps[i]);
            lemma_has_envelope_same(pre, post, pre.swaps[i].ethereum_log_id);
        } else {
            assert(post.swaps[i] == post.swaps.last());
            lemma_has_envelope_same(pre, post, post.swaps.last().ethereum_log_id);
        }
    }
    assert forall|i: int| 0 <= i < post.mints.len() implies (#[trigger] post.mints[i]).wf()
        && post.has_envelope(post.mints[i].ethereum_log_id) by {
        if i < pre.mints.len() {
            if post.mints != pre.mints {
                assert(post.mints[i] == post.mints.drop_last()[i]);
            }
            assert(post.mints[i] == pre.mints[i]);
            lemma_has_envelope_same(pre, post, pre.mints[i].ethereum_log_id);
        } else {
            assert(post.mints[i] == post.mints.last());
            lemma_has_envelope_same(pre, post, post.mints.last().ethereum_log_id);
        }
    }
    assert forall|i: int| 0 <= i < post.burns.len() implies (#[trigger] post.burns[i]).wf()
        && post.has_envelope(post.burns[i].ethereum_log_id) by {
        if i < pre.burns.len() {
            if post.burns != pre.burns {
                assert(post.burns[i] == post.burns.drop_last()[i]);
            }
            assert(post.burns[i] == pre.burns[i]);
            lemma_has_envelope_same(pre, post, pre.burns[i].ethereum_log_id);
        } else {
            assert(post.burns[i] == post.burns.last());
            lemma_has_envelope_same(pre, post, post.burns.last().ethereum_log_id);
        }
    }
    assert forall|i: int| 0 <= i < post.flashes.len() implies (#[trigger] post.flashes[i]).wf()
        && post.has_envelope(post.flashes[i].ethereum_log_id) by {
        if i < pre.flashes.len() {
            if post.flashes != pre.flashes {
                assert(post.flashes[i] == post.flashes.drop_last()[i]);
            }
            assert(post.flashes[i] == pre.flashes[i]);
            lemma_has_envelope_same(pre, post, pre.flashes[i].ethereum_log_id);
        } else {
            assert(post.flashes[i] == post.flashes.last());
            lemma_has_envelope_same(pre, post, post.flashes.last().ethereum_log_id);
        }
    }
}

/// The predicate an envelope row survives by when envelope `id` is removed.
pub open spec fn keeps_envelope(id: u64) -> spec_fn(EnvelopeRowModel) -> bool {
    |r: EnvelopeRowModel| r.id != id
}

/// The predicate a swap row survives by when envelope `id` is removed.
pub open spec fn keeps_swap(id: u64) -> spec_fn(SwapRowModel) -> bool {
    |r: SwapRowModel| r.ethereum_log_id != id
}

/// The predicate a mint row survives by when envelope `id` is removed.
pub open spec fn keeps_mint(id: u64) -> spec_fn(MintRowModel) -> bool {
    |r: MintRowModel| r.ethereum_log_id != id
}

/// The predicate a burn row survives by when envelope `id` is removed.
pub open spec fn keeps_burn(id: u64) -> spec_fn(BurnRowModel) -> bool {
    |r: BurnRowModel| r.ethereum_log_id != id
}

/// The predicate a flash row survives by when envelope `id` is removed.
pub open spec fn keeps_flash(id: u64) -> spec_fn(FlashRowModel) -> bool {
    |r: FlashRowModel| r.ethereum_log_id != id
}

/// Filtering one more element extends the filtered prefix by that element
/// exactly when the predicate keeps it.
proof fn lemma_filter_step<A>(s: Seq<A>, pred: spec_fn(A) -> bool, i: int)
    requires
        0 <= i < s.len(),
    ensures
        s.subrange(0, i + 1).filter(pred) == (if pred(s[i]) {
            s.subrange(0, i).filter(pred).push(s[i])
        } else {
            s.subrange(0, i).filter(pred)
        }),
{
    reveal(Seq::filter);
    assert(s.subrange(0, i + 1).drop_last() =~= s.subrange(0, i));
    assert(s.subrange(0, i + 1).last() == s[i]);
}

/// Every element of a filtered sequence is an element of the original
/// sequence and satisfies the predicate.
proof fn lemma_filter_members<A>(s: Seq<A>, pred: spec_fn(A) -> bool)
    ensures
        forall|i: int|
            0 <= i < s.filter(pred).len() ==> s.contains(#[trigger] s.filter(pred)[i]) && pred(
                s.filter(pred)[i],
            ),
    decreases s.len(),
{
    reveal(Seq::filter);
    if s.len() > 0 {
        lemma_filter_members(s.drop_last(), pred);
        assert forall|i: int| 0 <= i < s.filter(pred).len() implies s.contains(
            #[trigger] s.filter(pred)[i],
        ) && pred(s.filter(pred)[i]) by {
            let f = s.filter(pred);
            let fd = s.drop_last().filter(pred);
            if i < fd.len() {
                assert(f[i] == fd[i]);
                let j = choose|j: int|
                    0 <= j < s.drop_last().len() && s.drop_last()[j] == fd[i];
                assert(s[j] == fd[i]);
            } else {
                assert(f[i] == s.last());
                assert(s[s.len() - 1] == s.last());
            }
        }
    }
}

/// The store after idempotent schema creation: the tables exist, every row
/// is untouched, and a second call changes nothing further.
pub open spec fn with_schema(m: StoreModel) -> StoreModel {
    StoreModel { schema_ready: true, ..m }
}

/// Law: schema creation is idempotent. Creating the schema on a store that
/// already has it yields the very same store, so calling `ensure_schema`
/// twice succeeds and duplicates nothing.
pub proof fn lemma_ensure_schema_idempotent(m: StoreModel)
    ensures
        with_schema(with_schema(m)) == with_schema(m),
{
}

impl Store {
    /// A fresh store with no tables created and no rows.
    pub fn new() -> (s: Store)
        ensures
            s@ == (StoreModel {
                schema_ready: false,
                next_id: 0,
                envelopes: Seq::empty(),
                swaps: Seq::empty(),
                mints: Seq::empty(),
                burns: Seq::empty(),
                flashes: Seq::empty(),
            }),
            s@.wf(),
    {
        let s = Store {
            schema_ready: false,
            next_id: 0,
            envelopes: Vec::new(),
            swaps: Vec::new(),
            mints: Vec::new(),
            burns: Vec::new(),
            flashes: Vec::new(),
        };
        proof {
            assert(s@ =~= (StoreModel {
                schema_ready: false,
                next_id: 0,
                envelopes: Seq::empty(),
                swaps: Seq::empty(),
                mints: Seq::empty(),
                burns: Seq::empty(),
                flashes: Seq::empty(),
            }));
        }
        s
    }

    /// Create the five tables if they are absent. Idempotent: safe on every
    /// startup, a no-op when the tables already exist, and never a failure.
    pub fn ensure_schema(&mut self)
        ensures
            final(self)@ == with_schema(old(self)@),
    {
        self.schema_ready = true;
        proof {
            assert(self@ =~= with_schema(old(self)@));
        }
    }

    /// Insert one envelope row and return the generated identifier that
    /// uniquely names it: the identifier differs from that of every
    /// envelope row already present.
    pub fn insert_envelope(&mut self, env: &LogEnvelope) -> (id: EnvelopeId)
        requires
            old(self)@.wf(),
            old(self)@.schema_ready,
            env.wf(),
            old(self)@.next_id < u64::MAX,
        ensures
            final(self)@ == (StoreModel {
                next_id: (old(self)@.next_id + 1) as u64,
                envelopes: old(self)@.envelopes.push(envelope_row_model(*env, old(self)@.next_id)),
                ..old(self)@
            }),
            id.0 == old(self)@.next_id,
            forall|j: int|
                0 <= j < old(self)@.envelopes.len() ==> (#[trigger] old(
                    self,
                )@.envelopes[j]).id != id.0,
            final(self)@.wf(),
    {
        let id = self.next_id;
        let row = EnvelopeRow {
            id,
            transaction_hash: vstd::slice::slice_to_vec(env.transaction_hash.as_slice()),
            block_number: encode_u64_be(env.block_number),
            address: encode_address(&env.address),
        };
        self.envelopes.push(row);
        self.next_id = id + 1;
        proof {
            assert(self@.envelopes =~= old(self)@.envelopes.push(
                envelope_row_model(*env, old(self)@.next_id),
            ));
            assert(self@ =~= (StoreModel {
                next_id: (old(self)@.next_id + 1) as u64,
                envelopes: old(self)@.envelopes.push(envelope_row_model(*env, old(self)@.next_id)),
                ..old(self)@
            }));
            assert forall|i: int| 0 <= i < self@.swaps.len() implies (
            #[trigger] self@.swaps[i]).wf() && self@.has_envelope(
                self@.swaps[i].ethereum_log_id,
            ) by {
                assert(old(self)@.has_envelope(old(self)@.swaps[i].ethereum_log_id));
                let j = choose|j: int|
                    0 <= j < old(self)@.envelopes.len() && (#[trigger] old(
                        self,
                    )@.envelopes[j]).id == old(self)@.swaps[i].ethereum_log_id;
                assert(self@.envelopes[j].id == self@.swaps[i].ethereum_log_id);
            }
            assert forall|i: int| 0 <= i < self@.mints.len() implies (
            #[trigger] self@.mints[i]).wf() && self@.has_envelope(
                self@.mints[i].ethereum_log_id,
            ) by {
                assert(old(self)@.has_envelope(old(self)@.mints[i].ethereum_log_id));
                let j = choose|j: int|
                    0 <= j < old(self)@.envelopes.len() && (#[trigger] old(
                        self,
                    )@.envelopes[j]).id == old(self)@.mints[i].ethereum_log_id;
                assert(self@.envelopes[j].id == self@.mints[i].ethereum_log_id);
            }
            assert forall|i: int| 0 <= i < self@.burns.len() implies (
            #[trigger] self@.burns[i]).wf() && self@.has_envelope(
                self@.burns[i].ethereum_log_id,
            ) by {
                assert(old(self)@.has_envelope(old(self)@.burns[i].ethereum_log_id));
                let j = choose|j: int|
                    0 <= j < old(self)@.envelopes.len() && (#[trigger] old(
                        self,
                    )@.envelopes[j]).id == old(self)@.burns[i].ethereum_log_id;
                assert(self@.envelopes[j].id == self@.burns[i].ethereum_log_id);
            }
            assert forall|i: int| 0 <= i < self@.flashes.len() implies (
            #[trigger] self@.flashes[i]).wf() && self@.has_envelope(
                self@.flashes[i].ethereum_log_id,
            ) by {
                assert(old(self)@.has_envelope(old(self)@.flashes[i].ethereum_log_id));
                let j = choose|j: int|
                    0 <= j < old(self)@.envelopes.len() && (#[trigger] old(
                        self,
                    )@.envelopes[j]).id == old(self)@.flashes[i].ethereum_log_id;
                assert(self@.envelopes[j].id == self@.flashes[i].ethereum_log_id);
            }
        }
        EnvelopeId(id)
    }

    /// Whether an envelope row with identifier `id` exists.
    pub fn has_envelope(&self, id: u64) -> (r: bool)
        ensures
            r == self@.has_envelope(id),
    {
        let mut i: usize = 0;
        while i < self.envelopes.len()
            invariant
                0 <= i <= self.envelopes.len(),
                forall|j: int| 0 <= j < i ==> (#[trigger] self@.envelopes[j]).id != id,
            decreases self.envelopes.len() - i,
        {
            if self.envelopes[i].id == id {
                proof {
                    assert(self@.envelopes[i as int].id == id);
                }
                return true;
            }
            i += 1;
        }
        false
    }

    /// Insert one swap row referencing envelope `id`. Succeeds exactly when
    /// the reference resolves; otherwise the store is unchanged and the
    /// missing reference is reported.
    pub fn insert_swap(&mut self, id: EnvelopeId, e: &SwapEvent) -> (r: Result<(), StoreError>)
        requires
            old(self)@.wf(),
            old(self)@.schema_ready,
            e.wf(),
        ensures
            r is Ok <==> old(self)@.has_envelope(id.0),
            r is Ok ==> final(self)@ == (StoreModel {
                swaps: old(self)@.swaps.push(swap_row_model(id.0, *e)),
                ..old(self)@
            }),
            r is Err ==> final(self)@ == old(self)@ && r->Err_0 == (StoreError::MissingEnvelope {
                id: id.0,
            }),
            final(self)@.wf(),
    {
        if !self.has_envelope(id.0) {
            return Err(StoreError::MissingEnvelope { id: id.0 });
        }
        let row = SwapRow {
            ethereum_log_id: id.0,
            sender_address: encode_address(&e.sender),
            receiver_address: encode_address(&e.recipient),
            amount0: encode_wi256(&e.amount0),
            amount1: encode_wi256(&e.amount1),
            sqrt_price_x96: encode_wu256(&e.sqrt_price_x96),
            liquidity: encode_wu128(&e.liquidity),
            tick: e.tick,
        };
        self.swaps.push(row);
        proof {
            assert(self@.swaps =~= old(self)@.swaps.push(swap_row_model(id.0, *e)));
            assert(self@ =~= (StoreModel {
                swaps: old(self)@.swaps.push(swap_row_model(id.0, *e)),
                ..old(self)@
            }));
            assert(self@.swaps.drop_last() =~= old(self)@.swaps);
            lemma_wf_after_payload_push(old(self)@, self@);
        }
        Ok(())
    }

    /// Insert one mint row referencing envelope `id`. Succeeds exactly when
    /// the reference resolves; otherwise the store is unchanged and the
    /// missing reference is reported.
    pub fn insert_mint(&mut self, id: EnvelopeId, e: &MintEvent) -> (r: Result<(), StoreError>)
        requires
            old(self)@.wf(),
            old(self)@.schema_ready,
            e.wf(),
        ensures
            r is Ok <==> old(self)@.has_envelope(id.0),
            r is Ok ==> final(self)@ == (StoreModel {
                mints: old(self)@.mints.push(mint_row_model(id.0, *e)),
                ..old(self)@
            }),
            r is Err ==> final(self)@ == old(self)@ && r->Err_0 == (StoreError::MissingEnvelope {
                id: id.0,
            }),
            final(self)@.wf(),
    {
        if !self.has_envelope(id.0) {
            return Err(StoreError::MissingEnvelope { id: id.0 });
        }
        let row = MintRow {
            ethereum_log_id: id.0,
            sender_address: encode_address(&e.sender),
            owner_address: encode_address(&e.owner),
            tick_lower: e.tick_lower,
            tick_upper: e.tick_upper,
            amount: encode_wu128(&e.amount),
            amount0: encode_wu256(&e.amount0),
            amount1: encode_wu256(&e.amount1),
        };
        self.mints.push(row);
        proof {
            assert(self@.mints =~= old(self)@.mints.push(mint_row_model(id.0, *e)));
            assert(self@ =~= (StoreModel {
                mints: old(self)@.mints.push(mint_row_model(id.0, *e)),
                ..old(self)@
            }));
            assert(self@.mints.drop_last() =~= old(self)@.mints);
            lemma_wf_after_payload_push(old(self)@, self@);
        }
        Ok(())
    }

    /// Insert one burn row referencing envelope `id`. Succeeds exactly when
    /// the reference resolves; otherwise the store is unchanged and the
    /// missing reference is reported.
    pub fn insert_burn(&mut self, id: EnvelopeId, e: &BurnEvent) -> (r: Result<(), StoreError>)
        requires
            old(self)@.wf(),
            old(self)@.schema_ready,
            e.wf(),
        ensures
            r is Ok <==> old(self)@.has_envelope(id.0),
            r is Ok ==> final(self)@ == (StoreModel {
                burns: old(self)@.burns.push(burn_row_model(id.0, *e)),
                ..old(self)@
            }),
            r is Err ==> final(self)@ == old(self)@ && r->Err_0 == (StoreError::MissingEnvelope {
                id: id.0,
            }),
            final(self)@.wf(),
    {
        if !self.has_envelope(id.0) {
            return Err(StoreError::MissingEnvelope { id: id.0 });
        }
        let row = BurnRow {
            ethereum_log_id: id.0,
            owner_address: encode_address(&e.owner),
            tick_lower: e.tick_lower,
            tick_upper: e.tick_upper,
            amount: encode_wu128(&e.amount),
            amount0: encode_wu256(&e.amount0),
            amount1: encode_wu256(&e.amount1),
        };
        self.burns.push(row);
        proof {
            assert(self@.burns =~= old(self)@.burns.push(burn_row_model(id.0, *e)));
            assert(self@ =~= (StoreModel {
                burns: old(self)@.burns.push(burn_row_model(id.0, *e)),
                ..old(self)@
            }));
            assert(self@.burns.drop_last() =~= old(self)@.burns);
            lemma_wf_after_payload_push(old(self)@, self@);
        }
        Ok(())
    }

    /// Insert one flash row referencing envelope `id`. Succeeds exactly when
    /// the reference resolves; otherwise the store is unchanged and the
    /// missing reference is reported.
    pub fn insert_flash(&mut self, id: EnvelopeId, e: &FlashEvent) -> (r: Result<(), StoreError>)
        requires
            old(self)@.wf(),
            old(self)@.schema_ready,
            e.wf(),
        ensures
            r is Ok <==> old(self)@.has_envelope(id.0),
            r is Ok ==> final(self)@ == (StoreModel {
                flashes: old(self)@.flashes.push(flash_row_model(id.0, *e)),
                ..old(self)@
            }),
            r is Err ==> final(self)@ == old(self)@ && r->Err_0 == (StoreError::MissingEnvelope {
                id: id.0,
            }),
            final(self)@.wf(),
    {
        if !self.has_envelope(id.0) {
            return Err(StoreError::MissingEnvelope { id: id.0 });
        }
        let row = FlashRow {
            ethereum_log_id: id.0,
            sender_address: encode_address(&e.sender),
            receiver_address: encode_address(&e.recipient),
            amount0: encode_wu256(&e.amount0),
            amount1: encode_wu256(&e.amount1),
            paid0: encode_wu256(&e.paid0),
            paid1: encode_wu256(&e.paid1),
        };
        self.flashes.push(row);
        proof {
            assert(self@.flashes =~= old(self)@.flashes.push(flash_row_model(id.0, *e)));
            assert(self@ =~= (StoreModel {
                flashes: old(self)@.flashes.push(flash_row_model(id.0, *e)),
                ..old(self)@
            }));
            assert(self@.flashes.drop_last() =~= old(self)@.flashes);
            lemma_wf_after_payload_push(old(self)@, self@);
        }
        Ok(())
    }

    /// Administratively remove the envelope row with identifier `id`,
    /// cascading over the payload tables: every payload row referencing the
    /// removed envelope is removed with it, and no other row is touched.
    pub fn remove_envelope(&mut self, id: EnvelopeId)
        requires
            old(self)@.wf(),
        ensures
            final(self)@ == (StoreModel {
                envelopes: old(self)@.envelopes.filter(keeps_envelope(id.0)),
                swaps: old(self)@.swaps.filter(keeps_swap(id.0)),
                mints: old(self)@.mints.filter(keeps_mint(id.0)),
                burns: old(self)@.burns.filter(keeps_burn(id.0)),
                flashes: old(self)@.flashes.filter(keeps_flash(id.0)),
                ..old(self)@
            }),
            final(self)@.wf(),
    {
        let ghost pre = self@;
        let mut kept_envelopes: Vec<EnvelopeRow> = Vec::new();
        let mut i: usize = 0;
        while i < self.envelopes.len()
            invariant
                i <= self.envelopes.len(),
                pre == self@,
                kept_envelopes@.map_values(|r: EnvelopeRow| r@) == pre.envelopes.subrange(
                    0,
                    i as int,
                ).filter(keeps_envelope(id.0)),
            decreases self.envelopes.len() - i,
        {
            proof {
                lemma_filter_step(pre.envelopes, keeps_envelope(id.0), i as int);
            }
            if self.envelopes[i].id != id.0 {
                kept_envelopes.push(copy_envelope_row(&self.envelopes[i]));
            }
            proof {
                assert(kept_envelopes@.map_values(|r: EnvelopeRow| r@) =~= pre.envelopes.subrange(
                    0,
                    i + 1,
                ).filter(keeps_envelope(id.0)));
            }
            i += 1;
        }
        let mut kept_swaps: Vec<SwapRow> = Vec::new();
        let mut i: usize = 0;
        while i < self.swaps.len()
            invariant
                i <= self.swaps.len(),
                pre == self@,
                kept_swaps@.map_values(|r: SwapRow| r@) == pre.swaps.subrange(0, i as int).filter(
                    keeps_swap(id.0),
                ),
            decreases self.swaps.len() - i,
        {
            proof {
                lemma_filter_step(pre.swaps, keeps_swap(id.0), i as int);
            }
            if self.swaps[i].ethereum_log_id != id.0 {
                kept_swaps.push(copy_swap_row(&self.swaps[i]));
            }
            proof {
                assert(kept_swaps@.map_values(|r: SwapRow| r@) =~= pre.swaps.subrange(
                    0,
                    i + 1,
                ).filter(keeps_swap(id.0)));
            }
            i += 1;
        }
        let mut kept_mints: Vec<MintRow> = Vec::new();
        let mut i: usize = 0;
        while i < self.mints.len()
            invariant
                i <= self.mints.len(),
                pre == self@,
                kept_mints@.map_values(|r: MintRow| r@) == pre.mints.subrange(0, i as int).filter(
                    keeps_mint(id.0),
                ),
            decreases self.mints.len() - i,
        {
            proof {
                lemma_filter_step(pre.mints, keeps_mint(id.0), i as int);
            }
            if self.mints[i].ethereum_log_id != id.0 {
                kept_mints.push(copy_mint_row(&self.mints[i]));
            }
            proof {
                assert(kept_mints@.map_values(|r: MintRow| r@) =~= pre.mints.subrange(
                    0,
                    i + 1,
                ).filter(keeps_mint(id.0)));
            }
            i += 1;
        }
        let mut kept_burns: Vec<BurnRow> = Vec::new();
        let mut i: usize = 0;
        while i < self.burns.len()
            invariant
                i <= self.burns.len(),
                pre == self@,
                kept_burns@.map_values(|r: BurnRow| r@) == pre.burns.subrange(0, i as int).filter(
                    keeps_burn(id.0),
                ),
            decreases self.burns.len() - i,
        {
            proof {
                lemma_filter_step(pre.burns, keeps_burn(id.0), i as int);
            }
            if self.burns[i].ethereum_log_id != id.0 {
                kept_burns.push(copy_burn_row(&self.burns[i]));
            }
            proof {
                assert(kept_burns@.map_values(|r: BurnRow| r@) =~= pre.burns.subrange(
                    0,
                    i + 1,
                ).filter(keeps_burn(id.0)));
            }
            i += 1;
        }
        let mut kept_flashes: Vec<FlashRow> = Vec::new();
        let mut i: usize = 0;
        while i < self.flashes.len()
            invariant
                i <= self.flashes.len(),
                pre == self@,
                kept_flashes@.map_values(|r: FlashRow| r@) == pre.flashes.subrange(
                    0,
                    i as int,
                ).filter(keeps_flash(id.0)),
            decreases self.flashes.len() - i,
        {
            proof {
                lemma_filter_step(pre.flashes, keeps_flash(id.0), i as int);
            }
            if self.flashes[i].ethereum_log_id != id.0 {
                kept_flashes.push(copy_flash_row(&self.flashes[i]));
            }
            proof {
                assert(kept_flashes@.map_values(|r: FlashRow| r@) =~= pre.flashes.subrange(
                    0,
                    i + 1,
                ).filter(keeps_flash(id.0)));
            }
            i += 1;
        }
        proof {
            assert(pre.envelopes.subrange(0, pre.envelopes.len() as int) =~= pre.envelopes);
            assert(pre.swaps.subrange(0, pre.swaps.len() as int) =~= pre.swaps);
            assert(pre.mints.subrange(0, pre.mints.len() as int) =~= pre.mints);
            assert(pre.burns.subrange(0, pre.burns.len() as int) =~= pre.burns);
            assert(pre.flashes.subrange(0, pre.flashes.len() as int) =~= pre.flashes);
        }
        self.envelopes = kept_envelopes;
        self.swaps = kept_swaps;
        self.mints = kept_mints;
        self.burns = kept_burns;
        self.flashes = kept_flashes;
        proof {
            assert(self@ =~= (StoreModel {
                envelopes: pre.envelopes.filter(keeps_envelope(id.0)),
                swaps: pre.swaps.filter(keeps_swap(id.0)),
                mints: pre.mints.filter(keeps_mint(id.0)),
                burns: pre.burns.filter(keeps_burn(id.0)),
                flashes: pre.flashes.filter(keeps_flash(id.0)),
                ..pre
            }));
            lemma_filter_members(pre.envelopes, keeps_envelope(id.0));
            lemma_filter_members(pre.swaps, keeps_swap(id.0));
            lemma_filter_members(pre.mints, keeps_mint(id.0));
            lemma_filter_members(pre.burns, keeps_burn(id.0));
            lemma_filter_members(pre.flashes, keeps_flash(id.0));
            assert forall|i: int| 0 <= i < self@.envelopes.len() implies (
            #[trigger] self@.envelopes[i]).wf() && self@.envelopes[i].id < self@.next_id by {
                let j = choose|j: int|
                    0 <= j < pre.envelopes.len() && pre.envelopes[j] == self@.envelopes[i];
                assert(pre.envelopes[j].wf());
            }
            assert forall|i: int| 0 <= i < self@.swaps.len() implies (
            #[trigger] self@.swaps[i]).wf() && self@.has_envelope(
                self@.swaps[i].ethereum_log_id,
            ) by {
                let p = self@.swaps[i];
                let j = choose|j: int| 0 <= j < pre.swaps.len() && pre.swaps[j] == p;
                assert(pre.swaps[j].wf());
                assert(pre.has_envelope(p.ethereum_log_id));
                let k = choose|k: int|
                    0 <= k < pre.envelopes.len() && (#[trigger] pre.envelopes[k]).id
                        == p.ethereum_log_id;
                assert(keeps_envelope(id.0)(pre.envelopes[k]));
                pre.envelopes.lemma_filter_contains(keeps_envelope(id.0), k);
                let m = choose|m: int|
                    0 <= m < self@.envelopes.len() && self@.envelopes[m] == pre.envelopes[k];
                assert(self@.envelopes[m].id == p.ethereum_log_id);
            }
            assert forall|i: int| 0 <= i < self@.mints.len() implies (
            #[trigger] self@.mints[i]).wf() && self@.has_envelope(
                self@.mints[i].ethereum_log_id,
            ) by {
                let p = self@.mints[i];
                let j = choose|j: int| 0 <= j < pre.mints.len() && pre.mints[j] == p;
                assert(pre.mints[j].wf());
                assert(pre.has_envelope(p.ethereum_log_id));
                let k = choose|k: int|
                    0 <= k < pre.envelopes.len() && (#[trigger] pre.envelopes[k]).id
                        == p.ethereum_log_id;
                assert(keeps_envelope(id.0)(pre.envelopes[k]));
                pre.envelopes.lemma_filter_contains(keeps_envelope(id.0), k);
                let m = choose|m: int|
                    0 <= m < self@.envelopes.len() && self@.envelopes[m] == pre.envelopes[k];
                assert(self@.envelopes[m].id == p.ethereum_log_id);
            }
            assert forall|i: int| 0 <= i < self@.burns.len() implies (
            #[trigger] self@.burns[i]).wf() && self@.has_envelope(
                self@.burns[i].ethereum_log_id,
            ) by {
                let p = self@.burns[i];
                let j = choose|j: int| 0 <= j < pre.burns.len() && pre.burns[j] == p;
                assert(pre.burns[j].wf());
                assert(pre.has_envelope(p.ethereum_log_id));
                let k = choose|k: int|
                    0 <= k < pre.envelopes.len() && (#[trigger] pre.envelopes[k]).id
                        == p.ethereum_log_id;
                assert(keeps_envelope(id.0)(pre.envelopes[k]));
                pre.envelopes.lemma_filter_contains(keeps_envelope(id.0), k);
                let m = choose|m: int|
                    0 <= m < self@.envelopes.len() && self@.envelopes[m] == pre.envelopes[k];
                assert(self@.envelopes[m].id == p.ethereum_log_id);
            }
            assert forall|i: int| 0 <= i < self@.flashes.len() implies (
            #[trigger] self@.flashes[i]).wf() && self@.has_envelope(
                self@.flashes[i].ethereum_log_id,
            ) by {
                let p = self@.flashes[i];
                let j = choose|j: int| 0 <= j < pre.flashes.len() && pre.flashes[j] == p;
                assert(pre.flashes[j].wf());
                assert(pre.has_envelope(p.ethereum_log_id));
                let k = choose|k: int|
                    0 <= k < pre.envelopes.len() && (#[trigger] pre.envelopes[k]).id
                        == p.ethereum_log_id;
                assert(keeps_envelope(id.0)(pre.envelopes[k]));
                pre.envelopes.lemma_filter_contains(keeps_envelope(id.0), k);
                let m = choose|m: int|
                    0 <= m < self@.envelopes.len() && self@.envelopes[m] == pre.envelopes[k];
                assert(self@.envelopes[m].id == p.ethereum_log_id);
            }
        }
    }
}

/// Copy an envelope row, preserving its mathematical form.
fn copy_envelope_row(r: &EnvelopeRow) -> (c: EnvelopeRow)
    ensures
        c@ == r@,
{
    EnvelopeRow {
        id: r.id,
        transaction_hash: vstd::slice::slice_to_vec(r.transaction_hash.as_slice()),
        block_number: vstd::slice::slice_to_vec(r.block_number.as_slice()),
        address: vstd::slice::slice_to_vec(r.address.as_slice()),
    }
}

/// Copy a swap row, preserving its mathematical form.
fn copy_swap_row(r: &SwapRow) -> (c: SwapRow)
    ensures
        c@ == r@,
{
    SwapRow {
        ethereum_log_id: r.ethereum_log_id,
        sender_address: vstd::slice::slice_to_vec(r.sender_address.as_slice()),
        receiver_address: vstd::slice::slice_to_vec(r.receiver_address.as_slice()),
        amount0: vstd::slice::slice_to_vec(r.amount0.as_slice()),
        amount1: vstd::slice::slice_to_vec(r.amount1.as_slice()),
        sqrt_price_x96: vstd::slice::slice_to_vec(r.sqrt_price_x96.as_slice()),
        liquidity: vstd::slice::slice_to_vec(r.liquidity.as_slice()),
        tick: r.tick,
    }
}

/// Copy a mint row, preserving its mathematical form.
fn copy_mint_row(r: &MintRow) -> (c: MintRow)
    ensures
        c@ == r@,
{
    MintRow {
        ethereum_log_id: r.ethereum_log_id,
        sender_address: vstd::slice::slice_to_vec(r.sender_address.as_slice()),
        owner_address: vstd::slice::slice_to_vec(r.owner_address.as_slice()),
        tick_lower: r.tick_lower,
        tick_upper: r.tick_upper,
        amount: vstd::slice::slice_to_vec(r.amount.as_slice()),
        amount0: vstd::slice::slice_to_vec(r.amount0.as_slice()),
        amount1: vstd::slice::slice_to_vec(r.amount1.as_slice()),
    }
}

/// Copy a burn row, preserving its mathematical form.
fn copy_burn_row(r: &BurnRow) -> (c: BurnRow)
    ensures
        c@ == r@,
{
    BurnRow {
        ethereum_log_id: r.ethereum_log_id,
        owner_address: vstd::slice::slice_to_vec(r.owner_address.as_slice()),
        tick_lower: r.tick_lower,
        tick_upper: r.tick_upper,
        amount: vstd::slice::slice_to_vec(r.amount.as_slice()),
        amount0: vstd::slice::slice_to_vec(r.amount0.as_slice()),
        amount1: vstd::slice::slice_to_vec(r.amount1.as_slice()),
    }
}

/// Copy a flash row, preserving its mathematical form.
fn copy_flash_row(r: &FlashRow) -> (c: FlashRow)
    ensures
        c@ == r@,
{
    FlashRow {
        ethereum_log_id: r.ethereum_log_id,
        sender_address: vstd::slice::slice_to_vec(r.sender_address.as_slice()),
        receiver_address: vstd::slice::slice_to_vec(r.receiver_address.as_slice()),
        amount0: vstd::slice::slice_to_vec(r.amount0.as_slice()),
        amount1: vstd::slice::slice_to_vec(r.amount1.as_slice()),
        paid0: vstd::slice::slice_to_vec(r.paid0.as_slice()),
        paid1: vstd::slice::slice_to_vec(r.paid1.as_slice()),
    }
}

/// Law: referential integrity. In a well-formed store every payload row's
/// envelope reference resolves to an existing envelope row.
pub proof fn lemma_referential_integrity(m: StoreModel)
    requires
        m.wf(),
    ensures
        forall|i: int|
            0 <= i < m.swaps.len() ==> m.has_envelope((#[trigger] m.swaps[i]).ethereum_log_id),
        forall|i: int|
            0 <= i < m.mints.len() ==> m.has_envelope((#[trigger] m.mints[i]).ethereum_log_id),
        forall|i: int|
            0 <= i < m.burns.len() ==> m.has_envelope((#[trigger] m.burns[i]).ethereum_log_id),
        forall|i: int|
            0 <= i < m.flashes.len() ==> m.has_envelope((#[trigger] m.flashes[i]).ethereum_log_id),
{
}

/// Law: cascade. No payload row referencing a removed envelope survives the
/// removal, in any of the four payload tables.
pub proof fn lemma_cascade_no_orphans(m: StoreModel, id: u64)
    ensures
        forall|i: int|
            0 <= i < m.swaps.filter(keeps_swap(id)).len() ==> (#[trigger] m.swaps.filter(
                keeps_swap(id),
            )[i]).ethereum_log_id != id,
        forall|i: int|
            0 <= i < m.mints.filter(keeps_mint(id)).len() ==> (#[trigger] m.mints.filter(
                keeps_mint(id),
            )[i]).ethereum_log_id != id,
        forall|i: int|
            0 <= i < m.burns.filter(keeps_burn(id)).len() ==> (#[trigger] m.burns.filter(
                keeps_burn(id),
            )[i]).ethereum_log_id != id,
        forall|i: int|
            0 <= i < m.flashes.filter(keeps_flash(id)).len() ==> (#[trigger] m.flashes.filter(
                keeps_flash(id),
            )[i]).ethereum_log_id != id,
{
    lemma_filter_members(m.swaps, keeps_swap(id));
    lemma_filter_members(m.mints, keeps_mint(id));
    lemma_filter_members(m.burns, keeps_burn(id));
    lemma_filter_members(m.flashes, keeps_flash(id));
}

} // verus!
