use vstd::prelude::*;

verus! {

/// What can go wrong in an operation on a space.
#[derive(Clone, Copy, Debug, PartialEq, Eq, Structural)]
pub enum SpaceError {
    /// No tuple matched, or no space or gate has the given name.
    NotFound,
    /// The caller's input is malformed (an address without a space name).
    InvalidInput,
    /// The peer sent something that is not a valid message.
    Malformed,
    /// The peer answered with something other than the expected reply.
    Refused,
}

} // verus!
