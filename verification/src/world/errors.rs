use vstd::prelude::*;

use crate::names::owned;

verus! {

/// Why a block could not be read from the world.
#[derive(Debug, Clone, Copy, PartialEq, Eq, Structural)]
pub enum GetBlockError {
    /// The block id names no block.
    InvalidBlockId,
    /// The position lies outside the world.
    BlockOutOfWorldBounds,
}

impl GetBlockError {
    /// The error's text: the variant's name.
    pub fn to_string(&self) -> (r: String)
        ensures
            r@ == match self {
                GetBlockError::InvalidBlockId => "InvalidBlockId"@,
                GetBlockError::BlockOutOfWorldBounds => "BlockOutOfWorldBounds"@,
            },
    {
        match self {
            GetBlockError::InvalidBlockId => owned("InvalidBlockId"),
            GetBlockError::BlockOutOfWorldBounds => owned("BlockOutOfWorldBounds"),
        }
    }
}

} // verus!
