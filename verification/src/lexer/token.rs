//! The token value handed from the lexer to the parser: a kind, the lexeme
//! text, and the 1-based source line on which the lexeme starts.

use vstd::prelude::*;

verus! {

#[derive(Debug, PartialEq, Eq, Clone, Copy, Structural)]
pub enum TokenKind {
    Instruction,
    Macro,
    Directive,
    Register,
    LongRegister,
    Port,
    SystemRegister,
    ConditionCode,
    Identifier,
    Number,
    String,
    Punctuation,
    Eof,
}

#[derive(Clone, Debug)]
pub struct Token {
    pub kind: TokenKind,
    pub lexeme: String,
    pub line: u32,
}

/// The mathematical model of a token: the lexeme as a character sequence
/// and the line as an unbounded natural number.
pub struct TokenV {
    pub kind: TokenKind,
    pub lexeme: Seq<char>,
    pub line: nat,
}

impl View for Token {
    type V = TokenV;

    open spec fn view(&self) -> TokenV {
        TokenV { kind: self.kind, lexeme: self.lexeme@, line: self.line as nat }
    }
}

impl DeepView for Token {
    type V = TokenV;

    open spec fn deep_view(&self) -> TokenV {
        self.view()
    }
}

impl Token {
    pub fn new(kind: TokenKind, lexeme: String, line: u32) -> (t: Self)
        ensures
            t@ == (TokenV { kind, lexeme: lexeme@, line: line as nat }),
    {
        Self { kind, lexeme, line }
    }

    pub fn eof_token(line: u32) -> (t: Self)
        ensures
            t@ == (TokenV { kind: TokenKind::Eof, lexeme: Seq::<char>::empty(), line: line as nat }),
    {
        Self { kind: TokenKind::Eof, lexeme: String::new(), line }
    }
}

} // verus!
