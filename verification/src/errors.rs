use vstd::prelude::*;

verus! {

/// Everything that can go wrong while declaring items or resolving names.
/// Errors are collected, never thrown as fatal aborts: a failed resolution
/// leaves the use site unresolved and the pass goes on.
#[derive(Clone, Copy, PartialEq, Eq, Structural, Debug)]
pub enum ResolutionError {
    /// A second declaration of the same name, in the same scope and the same
    /// namespace.
    DuplicateDeclaration,
    /// A name or a path segment that no lookup rule could bind.
    UnresolvedName,
    /// Two distinct glob imports supply the same name and nothing local
    /// overrides them.
    AmbiguousGlob,
    /// Two unrelated candidates supply a method body for the same call.
    AmbiguousMethod,
    /// A field pattern names a field the matched type does not declare.
    UnknownField,
    /// An enum-variant pattern whose payload does not match the declared
    /// variant shape.
    PatternArityMismatch,
    /// The supertrait graph has a cycle, so no resolution priority is sound.
    CyclicSupertrait,
}

} // verus!
