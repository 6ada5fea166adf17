use vstd::prelude::*;

verus! {

/// The call succeeded.
pub const ERRNO_SUCCESS: u32 = 0;

/// The capability is not open, or not of a kind the call accepts.
pub const ERRNO_BADF: u32 = 8;

/// An argument is not valid for the resource it names.
pub const ERRNO_INVAL: u32 = 28;

/// The host does not offer this call.
pub const ERRNO_NOTSUP: u32 = 58;

} // verus!
