//! Error values of the rendering layer around the library.
//!
//! Shader compilation and linking happen outside the library; their
//! failures are reported with these values, and [`Error::describe`]
//! renders the message shown to the user.

use vstd::prelude::*;
use vstd::string::*;

verus! {

/// A shader stage failure: which shader, and what the driver said.
pub enum Error {
    CompileError { name: String, message: String },
    LinkError { name: String, message: String },
}

/// The message [`Error::describe`] renders.
pub open spec fn spec_describe(e: &Error) -> Seq<char> {
    match e {
        Error::CompileError { name, message } => "Failed to compile shader "@ + name@ + ": "@
            + message@,
        Error::LinkError { name, message } => "Failed to link program "@ + name@ + ": "@
            + message@,
    }
}

impl Error {
    /// Renders the failure as the user-facing message.
    pub fn describe(&self) -> (r: String)
        ensures
            r@ == spec_describe(self),
    {
        match self {
            Error::CompileError { name, message } => {
                let mut out = String::from_str("Failed to compile shader ");
                out.append(name.as_str());
                out.append(": ");
                out.append(message.as_str());
                out
            },
            Error::LinkError { name, message } => {
                let mut out = String::from_str("Failed to link program ");
                out.append(name.as_str());
                out.append(": ");
                out.append(message.as_str());
                out
            },
        }
    }
}

} // verus!
