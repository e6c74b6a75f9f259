//! Verified core of an AMM event-log indexer: lossless codecs between wide
//! integer/address types and fixed-width big-endian byte buffers, the typed
//! event model, a relational store model with referential integrity, and the
//! pipeline driver that routes decoded events to their storage handlers.

pub mod codec;
pub mod command;
pub mod events;
pub mod settings;
pub mod pipeline;
pub mod store;
