//! Lexical errors: the classification of the failure and the 1-based
//! source line on which it was detected.

use crate::text::{dec_str, push_char, u32_to_string};
use vstd::prelude::*;
use vstd::string::StringExecFns;

verus! {

#[derive(Debug)]
pub enum LexerErrorKind {
    UnknownSymbol(char),
    InvalidMacro(String),
    InvalidDirective(String),
    InvalidNumberLit(String),
    InvalidCharacterInString(char),
    UnterminatedString,
}

/// The mathematical model of a lexical error kind.
pub enum LexerErrorKindV {
    UnknownSymbol(char),
    InvalidMacro(Seq<char>),
    InvalidDirective(Seq<char>),
    InvalidNumberLit(Seq<char>),
    InvalidCharacterInString(char),
    UnterminatedString,
}

impl View for LexerErrorKind {
    type V = LexerErrorKindV;

    open spec fn view(&self) -> LexerErrorKindV {
        match self {
            LexerErrorKind::UnknownSymbol(c) => LexerErrorKindV::UnknownSymbol(*c),
            LexerErrorKind::InvalidMacro(s) => LexerErrorKindV::InvalidMacro(s@),
            LexerErrorKind::InvalidDirective(s) => LexerErrorKindV::InvalidDirective(s@),
            LexerErrorKind::InvalidNumberLit(s) => LexerErrorKindV::InvalidNumberLit(s@),
            LexerErrorKind::InvalidCharacterInString(c) => LexerErrorKindV::InvalidCharacterInString(
                *c,
            ),
            LexerErrorKind::UnterminatedString => LexerErrorKindV::UnterminatedString,
        }
    }
}

#[derive(Debug)]
pub struct LexerError {
    kind: LexerErrorKind,
    line: u32,
}

/// The mathematical model of a lexical error.
pub struct LexerErrorV {
    pub kind: LexerErrorKindV,
    pub line: nat,
}

impl View for LexerError {
    type V = LexerErrorV;

    closed spec fn view(&self) -> LexerErrorV {
        LexerErrorV { kind: self.kind@, line: self.line as nat }
    }
}

/// The description text for each error kind.
pub open spec fn lexer_error_kind_desc(k: LexerErrorKindV) -> Seq<char> {
    match k {
        LexerErrorKindV::UnknownSymbol(c) => "Unknown character found: "@.push(c),
        LexerErrorKindV::InvalidMacro(s) => "Invalid macro found: "@ + s,
        LexerErrorKindV::InvalidDirective(s) => "Invalid directive found: "@ + s,
        LexerErrorKindV::InvalidNumberLit(s) => "Invalid number literal found: "@ + s,
        LexerErrorKindV::InvalidCharacterInString(c) => "Invalid character in a string found: "@.push(
            c,
        ),
        LexerErrorKindV::UnterminatedString => "Unterminated string found"@,
    }
}

/// The full description text: stage marker, line number, then the kind's
/// own description.
pub open spec fn lexer_error_desc(e: LexerErrorV) -> Seq<char> {
    "*** LEXER ERROR [LINE "@ + dec_str(e.line as int) + "]: "@ + lexer_error_kind_desc(e.kind)
}

impl LexerErrorKind {
    pub fn desc(&self) -> (r: String)
        ensures
            r@ == lexer_error_kind_desc(self@),
    {
        match self {
            LexerErrorKind::UnknownSymbol(c) => {
                let mut s = "Unknown character found: ".to_owned();
                push_char(&mut s, *c);
                s
            },
            LexerErrorKind::InvalidMacro(m) => {
                let mut s = "Invalid macro found: ".to_owned();
                s.append(m.as_str());
                s
            },
            LexerErrorKind::InvalidDirective(m) => {
                let mut s = "Invalid directive found: ".to_owned();
                s.append(m.as_str());
                s
            },
            LexerErrorKind::InvalidNumberLit(m) => {
                let mut s = "Invalid number literal found: ".to_owned();
                s.append(m.as_str());
                s
            },
            LexerErrorKind::InvalidCharacterInString(c) => {
                let mut s = "Invalid character in a string found: ".to_owned();
                push_char(&mut s, *c);
                s
            },
            LexerErrorKind::UnterminatedString => "Unterminated string found".to_owned(),
        }
    }
}

impl LexerError {
    pub fn desc(&self) -> (r: String)
        ensures
            r@ == lexer_error_desc(self@),
    {
        let mut s = "*** LEXER ERROR [LINE ".to_owned();
        let num = u32_to_string(self.line);
        s.append(num.as_str());
        s.append("]: ");
        let k = self.kind.desc();
        s.append(k.as_str());
        proof {
            assert(s@ =~= lexer_error_desc(self@));
        }
        s
    }

    pub fn new(kind: LexerErrorKind, line: u32) -> (e: Self)
        ensures
            e@ == (LexerErrorV { kind: kind@, line: line as nat }),
    {
        LexerError { kind, line }
    }
}

} // verus!
