//! Typed failures returned to the immediate caller; nothing here aborts.

use vstd::prelude::*;
use vstd::string::StringExecFns;
use crate::value::{type_name_of, ValueType};

verus! {

/// The failure taxonomy: every operation of this library reports one of
/// these to its caller instead of aborting.
#[derive(Clone, Copy, Debug, PartialEq, Eq, Structural)]
pub enum CrushError {
    /// Wrong number of arguments to an operator or method.
    ArityError,
    /// The argument's runtime type matches no declared dispatch arm.
    TypeError,
    /// The receiver is not of the type that owns the method.
    ThisError,
    /// An argument's value is not among those the operation accepts
    /// (an unknown time-unit name).
    InvalidArgument,
    /// A value cannot be represented in the target form.
    InvalidData,
    /// The value variant of the given type has no interchange mapping.
    Unsupported(ValueType),
    /// No entry is registered under the requested type and name.
    UnknownMethod,
}

/// The text that each failure renders to; an unsupported variant names the
/// offending type.
pub open spec fn message_of(e: CrushError) -> Seq<char> {
    match e {
        CrushError::ArityError => "wrong number of arguments"@,
        CrushError::TypeError => "expected only arguments of a compatible type"@,
        CrushError::ThisError => "receiver has the wrong type"@,
        CrushError::InvalidArgument => "invalid duration"@,
        CrushError::InvalidData => "value cannot be represented"@,
        CrushError::Unsupported(t) => "unsupported data type "@ + type_name_of(t),
        CrushError::UnknownMethod => "unknown method"@,
    }
}

impl CrushError {
    /// A human-readable description of the failure, identifying the
    /// offending type where one is carried.
    pub fn message(&self) -> (r: String)
        ensures
            r@ == message_of(*self),
            r@.len() > 0,
    {
        proof {
            reveal_strlit("wrong number of arguments");
            reveal_strlit("expected only arguments of a compatible type");
            reveal_strlit("receiver has the wrong type");
            reveal_strlit("invalid duration");
            reveal_strlit("value cannot be represented");
            reveal_strlit("unsupported data type ");
            reveal_strlit("unknown method");
        }
        match self {
            CrushError::ArityError => String::from_str("wrong number of arguments"),
            CrushError::TypeError => String::from_str(
                "expected only arguments of a compatible type",
            ),
            CrushError::ThisError => String::from_str("receiver has the wrong type"),
            CrushError::InvalidArgument => String::from_str("invalid duration"),
            CrushError::InvalidData => String::from_str("value cannot be represented"),
            CrushError::Unsupported(t) => {
                let mut text = String::from_str("unsupported data type ");
                let name = t.name_text();
                text.append(name.as_str());
                text
            },
            CrushError::UnknownMethod => String::from_str("unknown method"),
        }
    }
}

} // verus!
