use vstd::prelude::*;

verus! {

/// Failure of one guest call, as seen by the host.
#[derive(Debug, Clone, PartialEq, Eq)]
pub enum VMError {
    /// The guest trapped or panicked during the call.
    FunctionCallError,
    /// Serialized error of an external collaborator.
    ExternalError(Vec<u8>),
    /// An operation on an inconsistent state, e.g. an integer overflow caused by a value
    /// taken from the call's context.
    InconsistentStateError,
}

/// Failure of one host function called by the guest.
#[derive(Debug, Clone, PartialEq)]
pub enum VMLogicError {
    /// The guest asked for something the host cannot give: an access outside its memory,
    /// or a register that was never written.
    HostError,
    /// Serialized error of an external collaborator.
    ExternalError(Vec<u8>),
    /// An operation on an inconsistent state, e.g. an integer overflow.
    InconsistentStateError,
}

} // verus!
