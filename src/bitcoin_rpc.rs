//! The node RPC backend: a block assembled from the node's answers. The
//! calls (hash for height, block for hash, its serialization) are made by
//! the caller, which gives up on the block at the first that fails.

use vstd::prelude::*;

verus! {

/// A block as the node describes it.
#[derive(Debug, Clone, PartialEq, Eq)]
pub struct BlockInfo {
    pub height: i64,
    pub hash: String,
    pub time: i64,
    pub n_tx: u32,
    pub size: u32,
}

/// Assembles a block from the node's answers: the hash for `height`, the
/// block's header time and transaction count, and the length of its
/// serialization.
pub fn block_info_from_parts(height: i64, hash: String, time: u32, tx_count: usize, serialized_len: usize) -> (r: BlockInfo)
    ensures
        r == (BlockInfo {
            height,
            hash,
            time: time as i64,
            n_tx: tx_count as u32,
            size: serialized_len as u32,
        }),
{
    BlockInfo { height, hash, time: time as i64, n_tx: tx_count as u32, size: serialized_len as u32 }
}

} // verus!
