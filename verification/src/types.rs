//! Plain identifiers and block-related values that the consensus engine
//! routes and decides on. Block contents themselves stay opaque: consensus
//! sees a proto-block only through its identity.

use vstd::prelude::*;

verus! {

/// An opaque, totally ordered, monotonically increasing identifier of a
/// consensus era.
#[derive(Clone, Copy, PartialEq, Eq, Structural, Debug, Hash)]
pub struct EraId(pub u64);

/// The public key identifying one validator.
#[derive(Clone, Copy, PartialEq, Eq, Structural, Debug, Hash)]
pub struct PublicKey(pub u64);

/// The identity of a peer node on the network.
#[derive(Clone, Copy, PartialEq, Eq, Structural, Debug, Hash)]
pub struct NodeId(pub u64);

/// A point in time, as used for timers and block contexts.
#[derive(Clone, Copy, PartialEq, Eq, Structural, Debug, Hash)]
pub struct Timestamp(pub u64);

/// The identity of a proposed proto-block. Its deploys and metadata are
/// opaque to consensus, which only requests an external validity result.
#[derive(Clone, Copy, PartialEq, Eq, Structural, Debug, Hash)]
pub struct ProtoBlock(pub u64);

/// The context a proto-block was proposed in: its era, its proposal time and
/// its ancestry pointer (the height it would be appended at).
#[derive(Clone, Copy, PartialEq, Eq, Structural, Debug)]
pub struct BlockContext {
    /// The era the proto-block belongs to.
    pub era_id: EraId,
    /// When the proto-block was proposed.
    pub timestamp: Timestamp,
    /// The height the proto-block would occupy on the chain.
    pub height: u64,
}

/// The header of a block already appended to the canonical chain.
#[derive(Clone, Copy, PartialEq, Eq, Structural, Debug)]
pub struct BlockHeader {
    /// The era the block was finalized in.
    pub era_id: EraId,
    /// The block's height on the chain.
    pub height: u64,
    /// When the block was created.
    pub timestamp: Timestamp,
    /// Whether this block is the last one of its era, whose processing
    /// triggers the lookup of the next era's validator weights.
    pub switch_block: bool,
}

} // verus!
