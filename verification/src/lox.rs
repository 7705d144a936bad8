use vstd::prelude::*;

use crate::error::RuntimeError;
use crate::scanner::{spec_scan, Scanner};
use crate::token::{tokens_view, Token};

verus! {

/// The front end's facade: it drives a source text through the scanner.
/// Reading sources in and printing results belong to the surrounding
/// program, not to this core.
pub struct Lox {}

impl Lox {
    pub fn new() -> (r: Self)
        ensures
            r == (Lox {  }),
    {
        Self {  }
    }

    /// Scan a source text: exactly the token stream (or the lexical error)
    /// of the scan model.
    pub fn run(&self, source: String) -> (r: Result<Vec<Token>, RuntimeError>)
        requires
            source@.len() < usize::MAX,
        ensures
            match (r, spec_scan(source@)) {
                (Ok(ts), Ok(sts)) => tokens_view(ts@) == sts,
                (Err(e), Err(se)) => e@ == se,
                _ => false,
            },
    {
        Scanner::new(source).scan_tokens()
    }
}

} // verus!
