//! The error type shared by every fallible operation of the crate.

use vstd::prelude::*;

verus! {

/// An error returned to the caller: either a configuration error carrying
/// a message, or a label-cardinality mismatch from a partition operation.
#[derive(Debug, Clone)]
pub enum Error {
    /// A configuration or lookup error described by a message.
    Msg(String),
    /// The number of label values handed to a partition operation does not
    /// match the number of variable labels the metric declares.
    InconsistentCardinality { expect: usize, got: usize },
}

impl Error {
    /// A human-readable description of the error.
    pub fn message(&self) -> (r: String)
        ensures
            self is Msg ==> r@ == self->Msg_0@,
    {
        match self {
            Error::Msg(m) => m.clone(),
            Error::InconsistentCardinality { expect: _, got: _ } => String::from_str(
                "inconsistent label cardinality",
            ),
        }
    }
}

} // verus!
