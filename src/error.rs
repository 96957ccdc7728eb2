//! Why generating a component can fail.

use vstd::prelude::*;

verus! {

/// A defect in the description that stops the generation of one component.
#[derive(Clone, Copy, Debug, PartialEq, Eq, Structural)]
pub enum GenerationError {
    /// A literal whose kind does not fit the type it is rendered for.
    LiteralTypeMismatch,
    /// A native representation asked of a kind that has none.
    UnsupportedFfiRepresentation,
    /// An enum discriminant that is not an integer, or whose type is not one.
    NonIntegerDiscriminant,
    /// An enum with discriminants but no integer type declared for them.
    MissingDiscriminantType,
}

} // verus!
