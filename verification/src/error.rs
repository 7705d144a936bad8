use vstd::prelude::*;

use crate::token::{SpecToken, Token};

verus! {

/// A failure of the front end: a lexical failure with its exact source
/// position, a grammar violation carrying the offending token, an invalid
/// assignment target, or a general failure.
#[derive(Debug)]
pub enum RuntimeError {
    ScanError { line: usize, column: usize, offset: usize, message: String },
    ParseError(String, Token),
    InvalidArgumentTarget(String),
    GeneralError(String),
}

/// The mathematical model of a `RuntimeError`.
pub enum SpecRuntimeError {
    ScanError { line: nat, column: nat, offset: nat, message: Seq<char> },
    ParseError(Seq<char>, SpecToken),
    InvalidArgumentTarget(Seq<char>),
    GeneralError(Seq<char>),
}

impl View for RuntimeError {
    type V = SpecRuntimeError;

    open spec fn view(&self) -> SpecRuntimeError {
        match self {
            RuntimeError::ScanError { line, column, offset, message } => (
            SpecRuntimeError::ScanError {
                line: *line as nat,
                column: *column as nat,
                offset: *offset as nat,
                message: message@,
            }),
            RuntimeError::ParseError(message, token) => SpecRuntimeError::ParseError(
                message@,
                token@,
            ),
            RuntimeError::InvalidArgumentTarget(message) => (
            SpecRuntimeError::InvalidArgumentTarget(message@)),
            RuntimeError::GeneralError(message) => SpecRuntimeError::GeneralError(message@),
        }
    }
}

/// The model of a batch of errors.
pub open spec fn errors_view(es: Seq<RuntimeError>) -> Seq<SpecRuntimeError> {
    es.map_values(|e: RuntimeError| e@)
}

impl RuntimeError {
    pub fn scan_error(message: String, line: usize, column: usize, offset: usize) -> (r: Self)
        ensures
            r@ == (SpecRuntimeError::ScanError {
                line: line as nat,
                column: column as nat,
                offset: offset as nat,
                message: message@,
            }),
    {
        Self::ScanError { line, column, offset, message }
    }

    pub fn general_error(message: &str) -> (r: Self)
        ensures
            r@ == SpecRuntimeError::GeneralError(message@),
    {
        Self::GeneralError(message.to_owned())
    }
}

} // verus!
