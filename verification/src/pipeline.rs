//! Pipeline driver: consumes an ordered sequence of (decoded event,
//! envelope) pairs, persists the envelope, then routes the event to the
//! payload insert matching its tag. Unmodeled variants are dropped
//! deliberately and observably, by a counter. The driver is a state
//! machine: `Listening` until the stream ends (`Stopped`) or a transport
//! fault arrives (`Failed`); both terminal states absorb further input.

use vstd::prelude::*;

use crate::events::LogEnvelope;
use crate::events::PoolEvent;
use crate::store::BurnRowModel;
use crate::store::EnvelopeRowModel;
use crate::store::FlashRowModel;
use crate::store::MintRowModel;
use crate::store::SwapRowModel;
use crate::store::Store;
use crate::store::envelope_row_model;
use crate::store::burn_row_model;
use crate::store::flash_row_model;
use crate::store::mint_row_model;
use crate::store::swap_row_model;

verus! {

/// Driver states: awaiting the next stream item, stopped on stream
/// exhaustion, or failed on an unrecoverable fault.
#[derive(Clone, Copy, Debug, PartialEq, Eq, Structural)]
pub enum PipelineState {
    Listening,
    Stopped,
    Failed,
}

/// One observation from the stream collaborator: a decoded event with its
/// envelope, the end of the sequence, or a transport fault.
#[derive(Clone, Debug)]
pub enum StreamItem {
    Event(PoolEvent, LogEnvelope),
    End,
    Fault,
}

/// What persisting one item did: a payload row was stored, or the variant
/// was outside the modeled scope and deliberately dropped.
#[derive(Clone, Copy, Debug, PartialEq, Eq, Structural)]
pub enum PersistOutcome {
    Stored,
    Dropped,
}

/// The pipeline driver: its state and its two observability counters.
#[derive(Clone, Copy, Debug, PartialEq, Eq, Structural)]
pub struct Pipeline {
    pub state: PipelineState,
    pub persisted: u64,
    pub dropped: u64,
}

/// Persist one envelope/event pair: insert the envelope row, then route
/// the event by its tag to exactly the matching payload insert, threading
/// the generated envelope identifier into it. An `Other` event inserts no
/// payload row and reports `Dropped`.
pub fn persist_item(store: &mut Store, event: &PoolEvent, env: &LogEnvelope) -> (out:
    PersistOutcome)
    requires
        old(store)@.wf(),
        old(store)@.schema_ready,
        env.wf(),
        event.wf(),
        old(store)@.next_id < u64::MAX,
    ensures
        final(store)@.wf(),
        final(store)@.schema_ready,
        final(store)@.next_id == old(store)@.next_id + 1,
        final(store)@.envelopes == old(store)@.envelopes.push(
            envelope_row_model(*env, old(store)@.next_id),
        ),
        match *event {
            PoolEvent::Swap(e) => final(store)@.swaps == old(store)@.swaps.push(
                swap_row_model(old(store)@.next_id, e),
            ) && final(store)@.mints == old(store)@.mints && final(store)@.burns == old(store)@.burns && final(store)@.flashes == old(store)@.flashes,
            PoolEvent::Mint(e) => final(store)@.mints == old(store)@.mints.push(
                mint_row_model(old(store)@.next_id, e),
            ) && final(store)@.swaps == old(store)@.swaps && final(store)@.burns == old(store)@.burns && final(store)@.flashes == old(store)@.flashes,
            PoolEvent::Burn(e) => final(store)@.burns == old(store)@.burns.push(
                burn_row_model(old(store)@.next_id, e),
            ) && final(store)@.swaps == old(store)@.swaps && final(store)@.mints == old(store)@.mints && final(store)@.flashes == old(store)@.flashes,
            PoolEvent::Flash(e) => final(store)@.flashes == old(store)@.flashes.push(
                flash_row_model(old(store)@.next_id, e),
            ) && final(store)@.swaps == old(store)@.swaps && final(store)@.mints == old(store)@.mints && final(store)@.burns == old(store)@.burns,
            PoolEvent::Other => final(store)@.swaps == old(store)@.swaps && final(store)@.mints
                == old(store)@.mints && final(store)@.burns == old(store)@.burns && final(store)@.flashes == old(store)@.flashes,
        },
        out == (if *event is Other {
            PersistOutcome::Dropped
        } else {
            PersistOutcome::Stored
        }),
{
    let id = store.insert_envelope(env);
    proof {
        assert(store@.envelopes[store@.envelopes.len() - 1].id == id.0);
        assert(store@.has_envelope(id.0));
    }
    match event {
        PoolEvent::Swap(e) => {
            let r = store.insert_swap(id, e);
            proof {
                assert(r is Ok);
            }
            PersistOutcome::Stored
        },
        PoolEvent::Mint(e) => {
            let r = store.insert_mint(id, e);
            proof {
                assert(r is Ok);
            }
            PersistOutcome::Stored
        },
        PoolEvent::Burn(e) => {
            let r = store.insert_burn(id, e);
            proof {
                assert(r is Ok);
            }
            PersistOutcome::Stored
        },
        PoolEvent::Flash(e) => {
            let r = store.insert_flash(id, e);
            proof {
                assert(r is Ok);
            }
            PersistOutcome::Stored
        },
        PoolEvent::Other => PersistOutcome::Dropped,
    }
}

impl Pipeline {
    /// A fresh driver, listening, with both counters at zero.
    pub fn new() -> (p: Pipeline)
        ensures
            p == (Pipeline { state: PipelineState::Listening, persisted: 0, dropped: 0 }),
    {
        Pipeline { state: PipelineState::Listening, persisted: 0, dropped: 0 }
    }

    /// Feed one stream observation to the driver. While listening, an
    /// event is persisted and counted; the end of the stream stops the
    /// driver; a transport fault fails it deterministically. A stopped or
    /// failed driver absorbs everything and touches nothing.
    pub fn step(&mut self, store: &mut Store, item: StreamItem)
        requires
            old(store)@.wf(),
            old(store)@.schema_ready,
            old(self).state is Listening && item is Event ==> old(store)@.next_id < u64::MAX
                && item->Event_0.wf() && item->Event_1.wf() && old(self).persisted < u64::MAX
                && old(self).dropped < u64::MAX,
        ensures
            final(store)@.wf(),
            final(store)@.schema_ready,
            match old(self).state {
                PipelineState::Listening => match item {
                    StreamItem::Event(ev, env) => {
                        &&& final(self).state is Listening
                        &&& final(store)@.next_id == old(store)@.next_id + 1
                        &&& final(store)@.envelopes == old(store)@.envelopes.push(
                            envelope_row_model(env, old(store)@.next_id),
                        )
                        &&& match ev {
                            PoolEvent::Swap(e) => final(store)@.swaps == old(store)@.swaps.push(
                                swap_row_model(old(store)@.next_id, e),
                            ) && final(store)@.mints == old(store)@.mints && final(store)@.burns
                                == old(store)@.burns && final(store)@.flashes == old(store)@.flashes,
                            PoolEvent::Mint(e) => final(store)@.mints == old(store)@.mints.push(
                                mint_row_model(old(store)@.next_id, e),
                            ) && final(store)@.swaps == old(store)@.swaps && final(store)@.burns
                                == old(store)@.burns && final(store)@.flashes == old(store)@.flashes,
                            PoolEvent::Burn(e) => final(store)@.burns == old(store)@.burns.push(
                                burn_row_model(old(store)@.next_id, e),
                            ) && final(store)@.swaps == old(store)@.swaps && final(store)@.mints
                                == old(store)@.mints && final(store)@.flashes == old(store)@.flashes,
                            PoolEvent::Flash(e) => final(store)@.flashes == old(store)@.flashes.push(flash_row_model(old(store)@.next_id, e)) && final(store)@.swaps == old(store)@.swaps && final(store)@.mints == old(store)@.mints && final(store)@.burns == old(store)@.burns,
                            PoolEvent::Other => final(store)@.swaps == old(store)@.swaps && final(store)@.mints == old(store)@.mints && final(store)@.burns == old(store)@.burns && final(store)@.flashes == old(store)@.flashes,
                        }
                        &&& if ev is Other {
                            final(self).persisted == old(self).persisted && final(self).dropped
                                == old(self).dropped + 1
                        } else {
                            final(self).persisted == old(self).persisted + 1 && final(self).dropped == old(self).dropped
                        }
                    },
                    StreamItem::End => *final(self) == (Pipeline {
                        state: PipelineState::Stopped,
                        ..*old(self)
                    }) && final(store)@ == old(store)@,
                    StreamItem::Fault => *final(self) == (Pipeline {
                        state: PipelineState::Failed,
                        ..*old(self)
                    }) && final(store)@ == old(store)@,
                },
                PipelineState::Stopped => *final(self) == *old(self) && final(store)@ == old(store)@,
                PipelineState::Failed => *final(self) == *old(self) && final(store)@ == old(store)@,
            },
    {
        match self.state {
            PipelineState::Listening => match item {
                StreamItem::Event(ev, env) => {
                    let out = persist_item(store, &ev, &env);
                    match out {
                        PersistOutcome::Stored => {
                            self.persisted = self.persisted + 1;
                        },
                        PersistOutcome::Dropped => {
                            self.dropped = self.dropped + 1;
                        },
                    }
                },
                StreamItem::End => {
                    self.state = PipelineState::Stopped;
                },
                StreamItem::Fault => {
                    self.state = PipelineState::Failed;
                },
            },
            PipelineState::Stopped => {},
            PipelineState::Failed => {},
        }
    }
}


/// The envelope rows that persisting a stream in order creates: the k-th
/// pair's envelope under identifier `base + k`.
pub open spec fn envelope_rows_of(items: Seq<(PoolEvent, LogEnvelope)>, base: u64) -> Seq<
    EnvelopeRowModel,
> {
    items.map(|i: int, pair: (PoolEvent, LogEnvelope)| envelope_row_model(pair.1, (base + i) as u64))
}

/// The swap rows that persisting a stream in order creates: the k-th
/// pair's payload, where it is a swap, under envelope identifier `base + k`.
pub open spec fn swap_rows_of(items: Seq<(PoolEvent, LogEnvelope)>, base: u64) -> Seq<SwapRowModel>
    decreases items.len(),
{
    if items.len() == 0 {
        Seq::empty()
    } else {
        let rest = swap_rows_of(items.drop_last(), base);
        match items.last().0 {
            PoolEvent::Swap(e) => rest.push(swap_row_model((base + items.len() - 1) as u64, e)),
            _ => rest,
        }
    }
}

/// The mint rows that persisting a stream in order creates.
pub open spec fn mint_rows_of(items: Seq<(PoolEvent, LogEnvelope)>, base: u64) -> Seq<MintRowModel>
    decreases items.len(),
{
    if items.len() == 0 {
        Seq::empty()
    } else {
        let rest = mint_rows_of(items.drop_last(), base);
        match items.last().0 {
            PoolEvent::Mint(e) => rest.push(mint_row_model((base + items.len() - 1) as u64, e)),
            _ => rest,
        }
    }
}

/// The burn rows that persisting a stream in order creates.
pub open spec fn burn_rows_of(items: Seq<(PoolEvent, LogEnvelope)>, base: u64) -> Seq<BurnRowModel>
    decreases items.len(),
{
    if items.len() == 0 {
        Seq::empty()
    } else {
        let rest = burn_rows_of(items.drop_last(), base);
        match items.last().0 {
            PoolEvent::Burn(e) => rest.push(burn_row_model((base + items.len() - 1) as u64, e)),
            _ => rest,
        }
    }
}

/// The flash rows that persisting a stream in order creates.
pub open spec fn flash_rows_of(items: Seq<(PoolEvent, LogEnvelope)>, base: u64) -> Seq<
    FlashRowModel,
>
    decreases items.len(),
{
    if items.len() == 0 {
        Seq::empty()
    } else {
        let rest = flash_rows_of(items.drop_last(), base);
        match items.last().0 {
            PoolEvent::Flash(e) => rest.push(flash_row_model((base + items.len() - 1) as u64, e)),
            _ => rest,
        }
    }
}

/// The events a finite stream holds that a given predicate selects.
pub open spec fn count_where(
    items: Seq<(PoolEvent, LogEnvelope)>,
    pred: spec_fn(PoolEvent) -> bool,
) -> nat
    decreases items.len(),
{
    if items.len() == 0 {
        0
    } else {
        count_where(items.drop_last(), pred) + (if pred(items.last().0) {
            1nat
        } else {
            0nat
        })
    }
}

/// Selects swap events.
pub open spec fn is_swap() -> spec_fn(PoolEvent) -> bool {
    |e: PoolEvent| e is Swap
}

/// Selects mint events.
pub open spec fn is_mint() -> spec_fn(PoolEvent) -> bool {
    |e: PoolEvent| e is Mint
}

/// Selects burn events.
pub open spec fn is_burn() -> spec_fn(PoolEvent) -> bool {
    |e: PoolEvent| e is Burn
}

/// Selects flash events.
pub open spec fn is_flash() -> spec_fn(PoolEvent) -> bool {
    |e: PoolEvent| e is Flash
}

/// Selects the modeled variants: everything but `Other`.
pub open spec fn is_modeled() -> spec_fn(PoolEvent) -> bool {
    |e: PoolEvent| !(e is Other)
}

/// Selects the unmodeled variant.
pub open spec fn is_other() -> spec_fn(PoolEvent) -> bool {
    |e: PoolEvent| e is Other
}

/// Counting one more item extends the count by one exactly when the
/// predicate selects that item's event.
proof fn lemma_count_where_step(
    items: Seq<(PoolEvent, LogEnvelope)>,
    pred: spec_fn(PoolEvent) -> bool,
    i: int,
)
    requires
        0 <= i < items.len(),
    ensures
        count_where(items.subrange(0, i + 1), pred) == count_where(items.subrange(0, i), pred) + (
        if pred(items[i].0) {
            1nat
        } else {
            0nat
        }),
{
    assert(items.subrange(0, i + 1).drop_last() =~= items.subrange(0, i));
    assert(items.subrange(0, i + 1).last() == items[i]);
}

/// A count never exceeds the length counted over.
proof fn lemma_count_where_le(items: Seq<(PoolEvent, LogEnvelope)>, pred: spec_fn(PoolEvent) -> bool)
    ensures
        count_where(items, pred) <= items.len(),
    decreases items.len(),
{
    if items.len() > 0 {
        lemma_count_where_le(items.drop_last(), pred);
    }
}

/// Drive the pipeline over a finite stream: persist every pair in order,
/// then stop on exhaustion. The store gains exactly one envelope row per
/// pair and exactly one payload row per modeled event, in each table as
/// many rows as the stream held events of its variant; unmodeled events
/// add no payload row and are counted as dropped.
pub fn run_pipeline(store: &mut Store, items: Vec<(PoolEvent, LogEnvelope)>) -> (p: Pipeline)
    requires
        old(store)@.wf(),
        old(store)@.schema_ready,
        forall|i: int|
            0 <= i < items@.len() ==> (#[trigger] items@[i]).0.wf()
                && items@[i].1.wf(),
        old(store)@.next_id + items@.len() <= u64::MAX,
    ensures
        final(store)@.wf(),
        final(store)@.schema_ready,
        p.state is Stopped,
        final(store)@.next_id == old(store)@.next_id + items@.len(),
        final(store)@.envelopes.len() == old(store)@.envelopes.len() + items@.len(),
        final(store)@.envelopes == old(store)@.envelopes + envelope_rows_of(
            items@,
            old(store)@.next_id,
        ),
        final(store)@.swaps == old(store)@.swaps + swap_rows_of(items@, old(store)@.next_id),
        final(store)@.mints == old(store)@.mints + mint_rows_of(items@, old(store)@.next_id),
        final(store)@.burns == old(store)@.burns + burn_rows_of(items@, old(store)@.next_id),
        final(store)@.flashes == old(store)@.flashes + flash_rows_of(
            items@,
            old(store)@.next_id,
        ),
        final(store)@.swaps.len() == old(store)@.swaps.len() + count_where(items@, is_swap()),
        final(store)@.mints.len() == old(store)@.mints.len() + count_where(items@, is_mint()),
        final(store)@.burns.len() == old(store)@.burns.len() + count_where(items@, is_burn()),
        final(store)@.flashes.len() == old(store)@.flashes.len() + count_where(
            items@,
            is_flash(),
        ),
        p.persisted == count_where(items@, is_modeled()),
        p.dropped == count_where(items@, is_other()),
{
    let ghost pre = store@;
    let mut p = Pipeline::new();
    let mut i: usize = 0;
    while i < items.len()
        invariant
            i <= items@.len(),
            store@.wf(),
            store@.schema_ready,
            p.state is Listening,
            forall|j: int|
                0 <= j < items@.len() ==> (#[trigger] items@[j]).0.wf() && items@[j].1.wf(),
            pre.next_id + items@.len() <= u64::MAX,
            store@.next_id == pre.next_id + i,
            store@.envelopes.len() == pre.envelopes.len() + i,
            store@.envelopes == pre.envelopes + envelope_rows_of(
                items@.subrange(0, i as int),
                pre.next_id,
            ),
            store@.swaps == pre.swaps + swap_rows_of(items@.subrange(0, i as int), pre.next_id),
            store@.mints == pre.mints + mint_rows_of(items@.subrange(0, i as int), pre.next_id),
            store@.burns == pre.burns + burn_rows_of(items@.subrange(0, i as int), pre.next_id),
            store@.flashes == pre.flashes + flash_rows_of(
                items@.subrange(0, i as int),
                pre.next_id,
            ),
            store@.swaps.len() == pre.swaps.len() + count_where(
                items@.subrange(0, i as int),
                is_swap(),
            ),
            store@.mints.len() == pre.mints.len() + count_where(
                items@.subrange(0, i as int),
                is_mint(),
            ),
            store@.burns.len() == pre.burns.len() + count_where(
                items@.subrange(0, i as int),
                is_burn(),
            ),
            store@.flashes.len() == pre.flashes.len() + count_where(
                items@.subrange(0, i as int),
                is_flash(),
            ),
            p.persisted == count_where(items@.subrange(0, i as int), is_modeled()),
            p.dropped == count_where(items@.subrange(0, i as int), is_other()),
        decreases items@.len() - i,
    {
        proof {
            lemma_count_where_le(items@.subrange(0, i as int), is_modeled());
            lemma_count_where_le(items@.subrange(0, i as int), is_other());
        }
        let pair: &(PoolEvent, LogEnvelope) = &items[i];
        let out = persist_item(store, &pair.0, &pair.1);
        match out {
            PersistOutcome::Stored => {
                p.persisted = p.persisted + 1;
            },
            PersistOutcome::Dropped => {
                p.dropped = p.dropped + 1;
            },
        }
        proof {
            assert(store@.envelopes =~= pre.envelopes + envelope_rows_of(
                items@.subrange(0, i as int + 1),
                pre.next_id,
            ));
            assert(items@.subrange(0, i as int + 1).drop_last() =~= items@.subrange(
                0,
                i as int,
            ));
            assert(store@.swaps =~= pre.swaps + swap_rows_of(
                items@.subrange(0, i as int + 1),
                pre.next_id,
            ));
            assert(store@.mints =~= pre.mints + mint_rows_of(
                items@.subrange(0, i as int + 1),
                pre.next_id,
            ));
            assert(store@.burns =~= pre.burns + burn_rows_of(
                items@.subrange(0, i as int + 1),
                pre.next_id,
            ));
            assert(store@.flashes =~= pre.flashes + flash_rows_of(
                items@.subrange(0, i as int + 1),
                pre.next_id,
            ));
            lemma_count_where_step(items@, is_swap(), i as int);
            lemma_count_where_step(items@, is_mint(), i as int);
            lemma_count_where_step(items@, is_burn(), i as int);
            lemma_count_where_step(items@, is_flash(), i as int);
            lemma_count_where_step(items@, is_modeled(), i as int);
            lemma_count_where_step(items@, is_other(), i as int);
        }
        i += 1;
    }
    proof {
        assert(items@.subrange(0, items@.len() as int) =~= items@);
    }
    p.state = PipelineState::Stopped;
    p
}

} // verus!
