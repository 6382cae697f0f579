use vstd::prelude::*;

verus! {

/// The failure conditions of the bridge.
///
/// `NotCopyable`, `TypeMismatch`, `CallFailed` and `LookupFailed` are
/// recoverable: the caller chose an operation the registered type or the
/// namespace does not support. `RegistrationConflict` reports a double
/// install on one table, and `Corruption` an index or qualifier encoding
/// outside the valid range: both mean a broken invariant on the caller's
/// side, and the operation that reports them leaves every structure
/// unchanged.
#[derive(Clone, Copy, PartialEq, Eq, Structural, Debug)]
pub enum Error {
    /// The type's table has no copy slot.
    NotCopyable,
    /// An extraction, assignment or conversion named an index that does not
    /// match the value's index.
    TypeMismatch,
    /// A call or method dispatch was rejected: the callee is not callable,
    /// the arity or the argument types or qualifiers do not match, or the
    /// callee itself failed.
    CallFailed,
    /// A name is not bound in the global namespace.
    LookupFailed,
    /// A table's operation slots were installed twice.
    RegistrationConflict,
    /// An index or qualifier encoding lies outside the valid range.
    Corruption,
}

} // verus!
