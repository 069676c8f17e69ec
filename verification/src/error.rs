//! The error that configuration and input checks give.
use vstd::prelude::*;
use vstd::string::*;

use crate::config::Config;
use crate::text::cat;

verus! {

/// Why something was refused.
#[derive(Debug, Clone, PartialEq)]
pub enum Error {
    InvalidInput(String),
    Config(String),
}

/// What an [`Error`] says.
pub enum ErrorV {
    InvalidInput(Seq<char>),
    Config(Seq<char>),
}

impl View for Error {
    type V = ErrorV;

    open spec fn view(&self) -> ErrorV {
        match *self {
            Error::InvalidInput(m) => ErrorV::InvalidInput(m@),
            Error::Config(m) => ErrorV::Config(m@),
        }
    }
}

/// What is shown of an error.
pub open spec fn error_text(e: ErrorV) -> Seq<char> {
    match e {
        ErrorV::InvalidInput(m) => "invalid input: "@ + m,
        ErrorV::Config(m) => "config error: "@ + m,
    }
}

impl Error {
    pub fn invalid_input(msg: String) -> (r: Error)
        ensures
            r@ == ErrorV::InvalidInput(msg@),
    {
        Error::InvalidInput(msg)
    }

    pub fn config(msg: String) -> (r: Error)
        ensures
            r@ == ErrorV::Config(msg@),
    {
        Error::Config(msg)
    }

    /// What is shown of the error.
    pub fn message(&self) -> (r: String)
        ensures
            r@ == error_text(self@),
    {
        match self {
            Error::InvalidInput(m) => cat("invalid input: ", m.as_str()),
            Error::Config(m) => cat("config error: ", m.as_str()),
        }
    }
}

} // verus!
