//! Tokens and source locations, as the lexer hands them to the parser and
//! as error reports carry them.

use vstd::prelude::*;

verus! {

/// The kinds of token the language has.
#[derive(Clone, Copy, PartialEq, Eq, Structural, Debug)]
pub enum TokenType {
    Operator,
    Id,
    Num,
    NoteString,
    Keyword,
    Delimeter,
    BackLink,
    Dot,
    Rest,
    Done,
    Unknown,
    Empty,
}

/// A token: its kind and its text.
#[derive(Clone, Debug)]
pub struct Token(pub TokenType, pub String);

/// A place in a source file.
#[derive(Clone, Debug)]
pub struct CodeLocation {
    pub line: usize,
    pub column: usize,
    pub file: String,
}

} // verus!
