//! Identifier types: a fixed-size block hash and a chain height.

use vstd::prelude::*;

verus! {

/// A 32-byte opaque identifier of a ledger block. Immutable once created;
/// used as a request key and as the chain "tip" marker.
#[derive(Clone, Copy, Debug, PartialEq, Eq)]
pub struct BlockHash {
    pub bytes: [u8; 32],
}

impl View for BlockHash {
    type V = Seq<u8>;

    open spec fn view(&self) -> Seq<u8> {
        self.bytes@
    }
}

/// The non-negative position of a block in the canonical chain.
#[derive(Clone, Copy, Debug, PartialEq, Eq)]
pub struct Height {
    pub value: u32,
}

/// The well-known hash of the genesis block, the initial tip of a fresh
/// sync engine.
pub open spec fn genesis_spec() -> BlockHash {
    BlockHash {
        bytes: [
            8u8, 206u8, 61u8, 151u8, 49u8, 176u8, 0u8, 192u8, 131u8, 56u8, 69u8, 92u8, 138u8,
            74u8, 107u8, 208u8, 93u8, 161u8, 110u8, 38u8, 177u8, 29u8, 170u8, 27u8, 145u8, 113u8,
            132u8, 236u8, 232u8, 15u8, 4u8, 0u8,
        ],
    }
}

/// The genesis hash as a runtime value.
pub fn genesis_hash() -> (h: BlockHash)
    ensures
        h == genesis_spec(),
{
    BlockHash {
        bytes: [
            8u8, 206u8, 61u8, 151u8, 49u8, 176u8, 0u8, 192u8, 131u8, 56u8, 69u8, 92u8, 138u8,
            74u8, 107u8, 208u8, 93u8, 161u8, 110u8, 38u8, 177u8, 29u8, 170u8, 27u8, 145u8, 113u8,
            132u8, 236u8, 232u8, 15u8, 4u8, 0u8,
        ],
    }
}

} // verus!
