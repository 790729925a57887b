//! A lexical scanner for a small dynamically-typed scripting language.
//!
//! The scanner turns source text into a flat sequence of classified tokens,
//! each tagged with the line on which it starts, and collects a diagnostic
//! for every lexical error instead of stopping at it.
//!
//! ```
//! use rlox::scanner::token::TokenType;
//! use rlox::scanner::Scanner;
//!
//! let source = String::from("print 1 + 2;");
//! let mut scanner = Scanner::new(&source);
//! scanner.scan_tokens();
//! let (tokens, diagnostics) = scanner.into_parts();
//! assert_eq!(tokens.len(), 6);
//! assert_eq!(tokens[5].token_type, TokenType::EOF);
//! assert!(diagnostics.is_empty());
//! ```
//!
//! What the scanner computes is fixed by the functions of
//! [`scanner::grammar`], over sequences of characters; what holds of them
//! for every source text is proved in [`scanner::theorems`].

use crate::scanner::grammar::diagnose;
use crate::scanner::token::Diagnostic;
use crate::scanner::Scanner;
use vstd::prelude::*;

pub mod scanner;

verus! {

/// Exit statuses of a command-line front end, after the BSD `sysexits` convention.
#[derive(Clone, Copy, Debug, PartialEq, Eq, Structural)]
pub enum SysExits {
    /// The run completed.
    Success,
    /// The command line was malformed.
    Usage,
    /// Reading the input failed.
    IOErr,
}

impl SysExits {
    /// The numeric status that stands for this outcome.
    pub open spec fn code_value(self) -> int {
        match self {
            SysExits::Success => 0,
            SysExits::Usage => 64,
            SysExits::IOErr => 74,
        }
    }

    /// The status to hand to the operating system.
    pub fn code(self) -> (c: i32)
        ensures
            c == self.code_value(),
    {
        match self {
            SysExits::Success => 0,
            SysExits::Usage => 64,
            SysExits::IOErr => 74,
        }
    }
}

/// Scans `data` and hands back the lexical errors found in it, in source
/// order, for the caller to show. Lexical errors do not fail the run: the
/// status is `Success` whatever the text holds.
pub fn run(data: &String) -> (outcome: (SysExits, Vec<Diagnostic>))
    ensures
        outcome.0 == SysExits::Success,
        outcome.1@ == diagnose(data@),
{
    let mut scanner = Scanner::new(data);
    scanner.scan_tokens();
    let (_, diagnostics) = scanner.into_parts();
    (SysExits::Success, diagnostics)
}

} // verus!
