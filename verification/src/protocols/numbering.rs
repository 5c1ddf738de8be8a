//! The numbers of handles: those by which a program knows a window or a group of workspaces.

use vstd::prelude::*;

verus! {

/// The number of a handle. What was gone and is told of again gets a new one.
pub type HandleId = u64;

/// The number of the handle that is made after `count` others, where `made` is that of the next one.
pub open spec fn number(made: HandleId, count: int) -> HandleId {
    ((made + count) % 0x1_0000_0000_0000_0000) as u64
}

} // verus!
