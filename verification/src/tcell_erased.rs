//! The part of a transactional memory location that does not depend on the type it holds: its
//! epoch lock.

use vstd::prelude::*;
use crate::epoch::EpochLock;

verus! {

/// The type erased part of a transactional memory location.
#[derive(Debug)]
pub struct TCellErased {
    pub current_epoch: EpochLock,
}

impl TCellErased {
    /// A location last written at the beginning of time.
    pub fn new() -> (r: TCellErased) {
        TCellErased { current_epoch: EpochLock::first() }
    }
}

} // verus!
