//! The error type of the validated text types.
use vstd::prelude::*;

verus! {

/// What can go wrong when a validated value is built.
#[derive(Debug)]
pub enum TypeMoreError {
    /// An unexpected internal failure.
    UnhandledError(String),
    /// The input does not have the required form.
    ParseError(String),
}

/// `e` is a parse failure that carries the message `msg`.
pub open spec fn is_parse_error(e: TypeMoreError, msg: Seq<char>) -> bool {
    match e {
        TypeMoreError::ParseError(m) => m@ == msg,
        _ => false,
    }
}

/// The text that describes an error to a person.
pub open spec fn error_text(e: TypeMoreError) -> Seq<char> {
    match e {
        TypeMoreError::ParseError(m) => "parse error! "@ + m@,
        TypeMoreError::UnhandledError(m) => "unhandled error! "@ + m@,
    }
}

impl TypeMoreError {
    /// A parse failure with the given message.
    pub fn parse_error(msg: &str) -> (r: TypeMoreError)
        ensures
            is_parse_error(r, msg@),
    {
        TypeMoreError::ParseError(msg.to_owned())
    }

    /// The text that describes this error, prefixed by its kind.
    pub fn to_string(&self) -> (r: String)
        ensures
            r@ == error_text(*self),
    {
        match self {
            TypeMoreError::ParseError(m) => "parse error! ".to_owned().concat(m.as_str()),
            TypeMoreError::UnhandledError(m) => "unhandled error! ".to_owned().concat(m.as_str()),
        }
    }
}

} // verus!
