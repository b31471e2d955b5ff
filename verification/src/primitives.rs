//! Hashes, block numbers and the notifications that a chain client sends out.

use vstd::prelude::*;

verus! {

/// The hash of a block.
#[derive(Clone, Copy, Debug)]
pub struct BlockHash(pub [u8; 32]);

impl PartialEq for BlockHash {
    fn eq(&self, other: &Self) -> (equal: bool) {
        let mut i: usize = 0;
        while i < 32
            invariant
                i <= 32,
                forall|j: int| 0 <= j < i ==> self.0@[j] == other.0@[j],
            decreases 32 - i,
        {
            if self.0[i] != other.0[i] {
                return false;
            }
            i += 1;
        }
        assert(self.0 =~= other.0);
        true
    }
}

impl vstd::std_specs::cmp::PartialEqSpecImpl for BlockHash {
    open spec fn obeys_eq_spec() -> bool {
        true
    }

    open spec fn eq_spec(&self, other: &Self) -> bool {
        *self == *other
    }
}

impl Eq for BlockHash {

}

/// The number of a block: its distance from the genesis block.
pub type BlockNumber = u32;

/// The part of a block's header that the overseer reads.
#[derive(Clone, Copy, Debug, PartialEq, Eq)]
pub struct Header {
    /// Hash of the parent block.
    pub parent_hash: BlockHash,
    /// The block's number.
    pub number: BlockNumber,
}

/// The client's notice that a block was imported.
#[derive(Clone, Copy, Debug, PartialEq, Eq)]
pub struct BlockImportNotification {
    /// Hash of the imported block.
    pub hash: BlockHash,
    /// Header of the imported block.
    pub header: Header,
}

/// The client's notice that a block was finalized.
#[derive(Clone, Copy, Debug, PartialEq, Eq)]
pub struct FinalityNotification {
    /// Hash of the finalized block.
    pub hash: BlockHash,
    /// Header of the finalized block.
    pub header: Header,
}

/// A block that has been imported or finalized.
///
/// It decouples the overseer from the client's own types and spares it from asking the
/// client for a block's number.
#[derive(Clone, Copy, Debug, PartialEq, Eq)]
pub struct BlockInfo {
    /// Hash of the block.
    pub hash: BlockHash,
    /// Hash of the parent block.
    pub parent_hash: BlockHash,
    /// The block's number.
    pub number: BlockNumber,
}

impl vstd::std_specs::convert::FromSpecImpl<BlockImportNotification> for BlockInfo {
    open spec fn obeys_from_spec() -> bool {
        true
    }

    open spec fn from_spec(n: BlockImportNotification) -> BlockInfo {
        BlockInfo { hash: n.hash, parent_hash: n.header.parent_hash, number: n.header.number }
    }
}

impl From<BlockImportNotification> for BlockInfo {
    fn from(n: BlockImportNotification) -> (block: BlockInfo)
        ensures
            block.hash == n.hash,
            block.parent_hash == n.header.parent_hash,
            block.number == n.header.number,
    {
        BlockInfo { hash: n.hash, parent_hash: n.header.parent_hash, number: n.header.number }
    }
}

impl vstd::std_specs::convert::FromSpecImpl<FinalityNotification> for BlockInfo {
    open spec fn obeys_from_spec() -> bool {
        true
    }

    open spec fn from_spec(n: FinalityNotification) -> BlockInfo {
        BlockInfo { hash: n.hash, parent_hash: n.header.parent_hash, number: n.header.number }
    }
}

impl From<FinalityNotification> for BlockInfo {
    fn from(n: FinalityNotification) -> (block: BlockInfo)
        ensures
            block.hash == n.hash,
            block.parent_hash == n.header.parent_hash,
            block.number == n.header.number,
    {
        BlockInfo { hash: n.hash, parent_hash: n.header.parent_hash, number: n.header.number }
    }
}

} // verus!
