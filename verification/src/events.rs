//! Event model: the shared log envelope and the four immutable payload
//! variants the pipeline persists, plus the tagged union the stream
//! collaborator delivers.

use vstd::prelude::*;

use crate::codec::Address;
use crate::codec::WI256;
use crate::codec::WU256;
use crate::codec::Wu128;

verus! {

/// Chain-of-custody metadata for one observed log: transaction hash,
/// block number and emitting contract address. The store assigns the
/// timestamp at insert time.
#[derive(Clone, Debug)]
pub struct LogEnvelope {
    pub transaction_hash: Vec<u8>,
    pub block_number: u64,
    pub address: Address,
}

impl LogEnvelope {
    /// A transaction hash is exactly 32 bytes wide and the address is
    /// well formed.
    pub open spec fn wf(&self) -> bool {
        self.transaction_hash@.len() == 32 && self.address.wf()
    }
}

/// A swap between the pool's two assets.
#[derive(Clone, Debug)]
pub struct SwapEvent {
    pub sender: Address,
    pub recipient: Address,
    pub amount0: WI256,
    pub amount1: WI256,
    pub sqrt_price_x96: WU256,
    pub liquidity: Wu128,
    pub tick: i32,
}

impl SwapEvent {
    pub open spec fn wf(&self) -> bool {
        self.sender.wf() && self.recipient.wf()
    }
}

/// Liquidity minted into a tick range.
#[derive(Clone, Debug)]
pub struct MintEvent {
    pub sender: Address,
    pub owner: Address,
    pub tick_lower: i32,
    pub tick_upper: i32,
    pub amount: Wu128,
    pub amount0: WU256,
    pub amount1: WU256,
}

impl MintEvent {
    pub open spec fn wf(&self) -> bool {
        self.sender.wf() && self.owner.wf()
    }
}

/// Liquidity burned out of a tick range.
#[derive(Clone, Debug)]
pub struct BurnEvent {
    pub owner: Address,
    pub tick_lower: i32,
    pub tick_upper: i32,
    pub amount: Wu128,
    pub amount0: WU256,
    pub amount1: WU256,
}

impl BurnEvent {
    pub open spec fn wf(&self) -> bool {
        self.owner.wf()
    }
}

/// A flash loan of the pool's assets and what was paid back.
#[derive(Clone, Debug)]
pub struct FlashEvent {
    pub sender: Address,
    pub recipient: Address,
    pub amount0: WU256,
    pub amount1: WU256,
    pub paid0: WU256,
    pub paid1: WU256,
}

impl FlashEvent {
    pub open spec fn wf(&self) -> bool {
        self.sender.wf() && self.recipient.wf()
    }
}

/// The tagged union delivered by the stream collaborator: the four modeled
/// payloads, and `Other` for every event type outside the modeled scope.
/// `Other` is dropped by the pipeline deliberately and observably.
#[derive(Clone, Debug)]
pub enum PoolEvent {
    Swap(SwapEvent),
    Mint(MintEvent),
    Burn(BurnEvent),
    Flash(FlashEvent),
    Other,
}

impl PoolEvent {
    pub open spec fn wf(&self) -> bool {
        match self {
            PoolEvent::Swap(e) => e.wf(),
            PoolEvent::Mint(e) => e.wf(),
            PoolEvent::Burn(e) => e.wf(),
            PoolEvent::Flash(e) => e.wf(),
            PoolEvent::Other => true,
        }
    }
}

} // verus!
