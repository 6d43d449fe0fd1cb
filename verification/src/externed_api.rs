//! Result codes of the device runtime.

use vstd::prelude::*;

verus! {

pub const RT_ERROR_NONE: u64 = 0;

pub const RT_ERROR_MEMORY_ALLOCATION: u64 = 207001;

} // verus!
