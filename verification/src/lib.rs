//! Decoding support for Substrate-style runtime metadata: a canonical
//! metadata model with its normalization layer, an event-argument
//! grammar, storage-key derivation, and a layered type-definition
//! registry answering `(module, type, spec version, chain)` queries.

pub mod definitions;
pub mod error;
pub mod event_arg;
pub mod extrinsics;
pub mod marker;
pub mod metadata;
pub mod registry;
pub mod scale;
pub mod storage;
pub mod text;
