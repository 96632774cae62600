use crate::decode::DecodeError;
use vstd::prelude::*;

verus! {

/// Why a request of the management plane could not be served.
#[derive(Debug, Clone, Copy, PartialEq, Eq, Structural)]
pub enum Error {
    /// A call to the kernel failed, or its answer was not the one that was asked for.
    Internal,
    /// The schema module or its top-level container does not exist.
    NotFound,
    /// A kernel message could not be decoded.
    Decode(DecodeError),
}

} // verus!
