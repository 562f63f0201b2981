//! What can go wrong while a type is described.

use vstd::prelude::*;

verus! {

/// The reason a description failed.
#[derive(Debug, Clone, Copy, PartialEq, Eq, Structural, Hash)]
pub enum Failure {
    /// A recognized annotation whose contents do not follow the grammar.
    GrammarViolation,
    /// An option that the annotation does not know, or in the wrong shape.
    UnknownOption,
    /// A literal of the wrong kind for its key.
    TypeMismatch,
    /// A number outside the range that its key admits.
    RangeViolation,
    /// A text outside a fixed vocabulary.
    UnknownEnumValue,
    /// An index without indexed fields.
    MissingRequiredSection,
    /// No field is serialized under the identity name.
    NoIdentityField,
    /// More than one field is serialized under the identity name.
    AmbiguousIdentityField,
    /// The type is not a record with named fields, or is generic over types
    /// or constants.
    UnsupportedShape,
    /// A renaming rule outside the eight known spellings.
    UnknownRule,
}

/// A failed description: the reason, and a message for the user.
#[derive(Debug, Clone, PartialEq, Eq, Hash)]
pub struct Error {
    /// The reason.
    pub kind: Failure,
    /// The message.
    pub message: String,
}

impl Error {
    /// An error of the given kind with the given message.
    pub fn new(kind: Failure, message: &str) -> (r: Error)
        ensures
            r.kind == kind,
            r.message@ == message@,
    {
        Error { kind, message: String::from_str(message) }
    }

    /// An error whose message is `before`, then `subject`, then `after`.
    pub fn about(kind: Failure, before: &str, subject: &str, after: &str) -> (r: Error)
        ensures
            r.kind == kind,
            r.message@ == before@ + subject@ + after@,
    {
        let mut message = String::from_str(before);
        message.append(subject);
        message.append(after);
        Error { kind, message }
    }

    /// An error whose message names two subjects: `before`, `first`,
    /// `between`, `second`, `after`.
    pub fn about_two(
        kind: Failure,
        before: &str,
        first: &str,
        between: &str,
        second: &str,
        after: &str,
    ) -> (r: Error)
        ensures
            r.kind == kind,
            r.message@ == before@ + first@ + between@ + second@ + after@,
    {
        let mut message = String::from_str(before);
        message.append(first);
        message.append(between);
        message.append(second);
        message.append(after);
        Error { kind, message }
    }

    /// The message.
    pub fn description(&self) -> (r: &str)
        ensures
            r@ == self.message@,
    {
        self.message.as_str()
    }
}

/// A failure of the given kind with the given message, as a result of any
/// type.
pub fn err_msg<T>(kind: Failure, message: &str) -> (r: Result<T, Error>)
    ensures
        r matches Err(e) && e.kind == kind && e.message@ == message@,
{
    Err(Error::new(kind, message))
}

} // verus!
