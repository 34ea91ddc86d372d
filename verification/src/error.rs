//! The ways in which a resolution can fail.

use vstd::prelude::*;

verus! {

/// Why a request was not resolved.
#[derive(Debug, Clone, PartialEq, Eq)]
pub enum GolinkError {
    /// The input is no URL or path, or names no short link.
    InvalidInput,
    /// Nothing is stored under the short link that the request names.
    NotFound(String),
    /// The stored long value is a template that cannot be compiled or rendered;
    /// the message is the template engine's.
    TemplateError(String),
}

/// A `GolinkError` with its strings as sequences of characters.
pub enum Failure {
    InvalidInput,
    NotFound(Seq<char>),
    TemplateError(Seq<char>),
}

impl View for GolinkError {
    type V = Failure;

    open spec fn view(&self) -> Failure {
        match self {
            GolinkError::InvalidInput => Failure::InvalidInput,
            GolinkError::NotFound(shortlink) => Failure::NotFound(shortlink@),
            GolinkError::TemplateError(message) => Failure::TemplateError(message@),
        }
    }
}

} // verus!
