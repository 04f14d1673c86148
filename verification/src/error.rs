//! The failures that abandon the current compilation unit.
use vstd::prelude::*;

verus! {

/// Why the embedding of a composite type, or the decoding of a value, was abandoned.
#[derive(Clone, Copy, Debug, PartialEq, Eq, Structural)]
pub enum BuildError {
    /// The host layout of a composite is not the layout that its declared fields imply,
    /// or the composite is not declared with the fixed C layout at all.
    LayoutMismatch,
    /// A field's type has not been given the protocol that the composite is being given.
    UnregisteredFieldType,
    /// The composite takes a const parameter.
    UnsupportedGenericShape,
    /// A decoded variant tag does not name a variant of the tagged union.
    InvalidVariant,
    /// The reference sequence ended before the value was complete.
    MissingReference,
}

impl BuildError {
    /// The text of [`BuildError::message`].
    pub open spec fn message_text(self) -> Seq<char> {
        match self {
            BuildError::LayoutMismatch => "host layout does not match the declared fields; the struct must have the repr(C) attribute"@,
            BuildError::UnregisteredFieldType => "a field type is not registered"@,
            BuildError::UnsupportedGenericShape => "const generic parameter is not supported"@,
            BuildError::InvalidVariant => "invalid variant"@,
            BuildError::MissingReference => "the node references ran out"@,
        }
    }

    /// A description of the failure for the programmer.
    pub fn message(&self) -> (text: String)
        ensures
            text@ == self.message_text(),
    {
        match self {
            BuildError::LayoutMismatch => String::from_str(
                "host layout does not match the declared fields; the struct must have the repr(C) attribute",
            ),
            BuildError::UnregisteredFieldType => String::from_str("a field type is not registered"),
            BuildError::UnsupportedGenericShape => String::from_str(
                "const generic parameter is not supported",
            ),
            BuildError::InvalidVariant => String::from_str("invalid variant"),
            BuildError::MissingReference => String::from_str("the node references ran out"),
        }
    }
}

} // verus!
