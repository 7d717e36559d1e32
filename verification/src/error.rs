use vstd::prelude::*;

verus! {

/// What can go wrong at the boundary between the script and the host.
#[derive(Clone, Copy, Debug, PartialEq, Eq, Structural)]
pub enum BridgeError {
    /// A handle was used after its validity window had closed.
    StaleHandle,
    /// A path names a field that the value does not have.
    NoSuchField,
    /// No function of that name is registered for the type.
    NoSuchMethod,
    /// The number of arguments, or the ownership of one, does not fit the callee.
    ArityMismatch,
    /// A value has another kind than the one asked for.
    TypeMismatch,
    /// The value of an owned cell was taken before.
    AlreadyTaken,
    /// A system was registered with a malformed parameter description.
    BadSpec,
    /// Something other than an owned host value was handed over as a component.
    NonReflectableComponent,
    /// The script failed while it was compiled.
    CompileError,
    /// A system failed while it ran, or its parameters could not be resolved.
    InvocationError,
}

} // verus!
