//! The lexer: a single left-to-right scan that turns source text into a
//! sequence of classified tokens, or fails on the first lexical error.
//!
//! The behaviour is fixed by the specification function [`lex_from`], a
//! recursion over the character sequence; the executable scanner is proved
//! to return exactly what the specification says.

pub mod lexer_error;
pub mod resources;
pub mod token;

use crate::lexer::lexer_error::{LexerError, LexerErrorKind, LexerErrorKindV, LexerErrorV};
use crate::lexer::resources::{
    spec_is_condition_code_name, spec_is_directive_name, spec_is_instruction_name,
    spec_is_long_register_name, spec_is_macro_name, spec_is_port_name, spec_is_register_name,
    spec_is_system_register_name,
};
use crate::lexer::token::{Token, TokenKind, TokenV};
use crate::text::push_char;
use vstd::prelude::*;

verus! {

// ---------------------------------------------------------------------------
// Character classes
// ---------------------------------------------------------------------------
pub open spec fn spec_is_word_char(c: char) -> bool {
    ||| (('a' as u32) <= (c as u32) && (c as u32) <= ('z' as u32))
    ||| (('A' as u32) <= (c as u32) && (c as u32) <= ('Z' as u32))
    ||| (('0' as u32) <= (c as u32) && (c as u32) <= ('9' as u32))
    ||| c == '_'
}

pub open spec fn spec_is_punctuation_char(c: char) -> bool {
    c == '{' || c == '}' || c == ':' || c == '*' || c == '>' || c == '(' || c == ')' || c == '$'
}

pub open spec fn spec_is_ascii_whitespace(c: char) -> bool {
    c == ' ' || c == '\t' || c == '\n' || c == '\r' || c == '\u{c}'
}

/// A character that may stand inside a string literal: anything that is not
/// an ASCII control character.
pub open spec fn spec_is_valid_string_char(c: char) -> bool {
    !(((c as u32) < 32) || (c as u32) == 127)
}

pub open spec fn spec_is_radix_prefix(c: char) -> bool {
    c == 'b' || c == 'o' || c == 'd' || c == 'x'
}

pub open spec fn spec_is_valid_digit(radix: char, digit: char) -> bool {
    if radix == 'b' {
        digit == '0' || digit == '1'
    } else if radix == 'o' {
        ('0' as u32) <= (digit as u32) && (digit as u32) <= ('7' as u32)
    } else if radix == 'd' {
        ('0' as u32) <= (digit as u32) && (digit as u32) <= ('9' as u32)
    } else if radix == 'x' {
        ||| (('0' as u32) <= (digit as u32) && (digit as u32) <= ('9' as u32))
        ||| (('a' as u32) <= (digit as u32) && (digit as u32) <= ('f' as u32))
        ||| (('A' as u32) <= (digit as u32) && (digit as u32) <= ('F' as u32))
    } else {
        false
    }
}

/// Classification of a word lexeme, consulting the name tables in their
/// fixed priority order; a word in no table is an identifier.
pub open spec fn spec_word_kind(lex: Seq<char>) -> TokenKind {
    if spec_is_instruction_name(lex) {
        TokenKind::Instruction
    } else if spec_is_register_name(lex) {
        TokenKind::Register
    } else if spec_is_long_register_name(lex) {
        TokenKind::LongRegister
    } else if spec_is_system_register_name(lex) {
        TokenKind::SystemRegister
    } else if spec_is_port_name(lex) {
        TokenKind::Port
    } else if spec_is_condition_code_name(lex) {
        TokenKind::ConditionCode
    } else {
        TokenKind::Identifier
    }
}

// ---------------------------------------------------------------------------
// Runs of characters
// ---------------------------------------------------------------------------
/// The first position at or after `i` that does not hold a word character.
pub open spec fn word_end(src: Seq<char>, i: int) -> int
    decreases src.len() - i,
    when 0 <= i <= src.len()
{
    if i < src.len() && spec_is_word_char(src[i]) {
        word_end(src, i + 1)
    } else {
        i
    }
}

pub proof fn lemma_word_end(src: Seq<char>, i: int)
    requires
        0 <= i <= src.len(),
    ensures
        i <= word_end(src, i) <= src.len(),
        forall|k: int| i <= k < word_end(src, i) ==> spec_is_word_char(src[k]),
        word_end(src, i) < src.len() ==> !spec_is_word_char(src[word_end(src, i)]),
        i < src.len() && spec_is_word_char(src[i]) ==> word_end(src, i) > i,
    decreases src.len() - i,
{
    if i < src.len() && spec_is_word_char(src[i]) {
        lemma_word_end(src, i + 1);
    }
}

/// The position of the next newline at or after `i`, or the end of input.
pub open spec fn comment_end(src: Seq<char>, i: int) -> int
    decreases src.len() - i,
    when 0 <= i <= src.len()
{
    if i < src.len() && src[i] != '\n' {
        comment_end(src, i + 1)
    } else {
        i
    }
}

pub proof fn lemma_comment_end(src: Seq<char>, i: int)
    requires
        0 <= i <= src.len(),
    ensures
        i <= comment_end(src, i) <= src.len(),
        forall|k: int| i <= k < comment_end(src, i) ==> src[k] != '\n',
        comment_end(src, i) < src.len() ==> src[comment_end(src, i)] == '\n',
    decreases src.len() - i,
{
    if i < src.len() && src[i] != '\n' {
        lemma_comment_end(src, i + 1);
    }
}

/// The first position at or after `i` that does not hold a valid digit for
/// the given radix.
pub open spec fn digits_end(src: Seq<char>, i: int, radix: char) -> int
    decreases src.len() - i,
    when 0 <= i <= src.len()
{
    if i < src.len() && spec_is_valid_digit(radix, src[i]) {
        digits_end(src, i + 1, radix)
    } else {
        i
    }
}

pub proof fn lemma_digits_end(src: Seq<char>, i: int, radix: char)
    requires
        0 <= i <= src.len(),
    ensures
        i <= digits_end(src, i, radix) <= src.len(),
        forall|k: int| i <= k < digits_end(src, i, radix) ==> spec_is_valid_digit(radix, src[k]),
        digits_end(src, i, radix) < src.len() ==> !spec_is_valid_digit(
            radix,
            src[digits_end(src, i, radix)],
        ),
    decreases src.len() - i,
{
    if i < src.len() && spec_is_valid_digit(radix, src[i]) {
        lemma_digits_end(src, i + 1, radix);
    }
}

/// The outcome of scanning a string literal's body from position `i`
/// (just after the opening quote).
pub enum StrScan {
    /// The closing quote stands at this position.
    Closed(int),
    /// A control character stands at this position, before any closing quote.
    BadChar(int),
    /// The input ends before any closing quote.
    Unterminated,
}

pub open spec fn str_scan(src: Seq<char>, i: int) -> StrScan
    decreases src.len() - i,
    when 0 <= i <= src.len()
{
    if i >= src.len() {
        StrScan::Unterminated
    } else if src[i] == '"' {
        StrScan::Closed(i)
    } else if !spec_is_valid_string_char(src[i]) {
        StrScan::BadChar(i)
    } else {
        str_scan(src, i + 1)
    }
}

pub proof fn lemma_str_scan(src: Seq<char>, i: int)
    requires
        0 <= i <= src.len(),
    ensures
        str_scan(src, i) matches StrScan::Closed(j) ==> i <= j < src.len() && src[j] == '"'
            && forall|k: int| i <= k < j ==> src[k] != '"' && spec_is_valid_string_char(src[k]),
        str_scan(src, i) matches StrScan::BadChar(j) ==> i <= j < src.len()
            && !spec_is_valid_string_char(src[j]) && forall|k: int|
            i <= k < j ==> src[k] != '"' && spec_is_valid_string_char(src[k]),
        str_scan(src, i) is Unterminated ==> forall|k: int|
            i <= k < src.len() ==> src[k] != '"' && spec_is_valid_string_char(src[k]),
    decreases src.len() - i,
{
    if i < src.len() && src[i] != '"' && spec_is_valid_string_char(src[i]) {
        lemma_str_scan(src, i + 1);
    }
}

// ---------------------------------------------------------------------------
// Numeric literals
// ---------------------------------------------------------------------------
/// The radix character of the numeric literal starting at the `#` in
/// position `i`: the explicit prefix if one follows, else the default `d`.
pub open spec fn num_radix(src: Seq<char>, i: int) -> char {
    if i + 1 < src.len() && spec_is_radix_prefix(src[i + 1]) {
        src[i + 1]
    } else {
        'd'
    }
}

/// The position just after the `#` and the radix prefix (if present).
pub open spec fn num_body_start(src: Seq<char>, i: int) -> int {
    if i + 1 < src.len() && spec_is_radix_prefix(src[i + 1]) {
        i + 2
    } else {
        i + 1
    }
}

/// The position just after the optional minus sign.
pub open spec fn num_sign_end(src: Seq<char>, i: int) -> int {
    let j = num_body_start(src, i);
    if j < src.len() && src[j] == '-' {
        j + 1
    } else {
        j
    }
}

/// The position just after the digit run.
pub open spec fn num_end(src: Seq<char>, i: int) -> int {
    digits_end(src, num_sign_end(src, i), num_radix(src, i))
}

/// The normalized lexeme of the literal: `#`, the radix character (made
/// explicit even when defaulted), then the sign and digits as written.
pub open spec fn num_lexeme(src: Seq<char>, i: int) -> Seq<char> {
    seq!['#', num_radix(src, i)] + src.subrange(num_body_start(src, i), num_end(src, i))
}

/// A literal is well formed exactly when at least one digit follows.
pub open spec fn num_ok(src: Seq<char>, i: int) -> bool {
    num_end(src, i) > num_sign_end(src, i)
}

// ---------------------------------------------------------------------------
// The specification lexer
// ---------------------------------------------------------------------------
/// A token paired with the source position of its first character.
pub struct TokenAt {
    pub token: TokenV,
    pub start: int,
}

/// Prepends a token to the result of lexing the rest of the input.
pub open spec fn lex_cons(t: TokenAt, rest: Result<Seq<TokenAt>, LexerErrorV>) -> Result<
    Seq<TokenAt>,
    LexerErrorV,
> {
    match rest {
        Ok(ts) => Ok(seq![t] + ts),
        Err(e) => Err(e),
    }
}

/// Lexes `src` from position `i` on, on source line `line`: dispatch on the
/// leading character, emit one token (or skip, or fail), continue behind it.
pub open spec fn lex_from(src: Seq<char>, i: int, line: nat) -> Result<Seq<TokenAt>, LexerErrorV>
    decreases src.len() - i,
    when 0 <= i <= src.len()
    via lex_from_dec
{
    if i >= src.len() {
        Ok(
            seq![
                TokenAt {
                    token: TokenV { kind: TokenKind::Eof, lexeme: Seq::empty(), line },
                    start: i,
                },
            ],
        )
    } else {
        let c = src[i];
        if c == ';' {
            lex_from(src, comment_end(src, i), line)
        } else if spec_is_word_char(c) {
            let e = word_end(src, i);
            let lex = src.subrange(i, e);
            lex_cons(
                TokenAt { token: TokenV { kind: spec_word_kind(lex), lexeme: lex, line }, start: i },
                lex_from(src, e, line),
            )
        } else if c == '!' {
            let e = word_end(src, i + 1);
            let lex = src.subrange(i, e);
            if spec_is_macro_name(lex) {
                lex_cons(
                    TokenAt { token: TokenV { kind: TokenKind::Macro, lexeme: lex, line }, start: i },
                    lex_from(src, e, line),
                )
            } else {
                Err(LexerErrorV { kind: LexerErrorKindV::InvalidMacro(lex), line })
            }
        } else if c == '.' {
            let e = word_end(src, i + 1);
            let lex = src.subrange(i, e);
            if spec_is_directive_name(lex) {
                lex_cons(
                    TokenAt {
                        token: TokenV { kind: TokenKind::Directive, lexeme: lex, line },
                        start: i,
                    },
                    lex_from(src, e, line),
                )
            } else {
                Err(LexerErrorV { kind: LexerErrorKindV::InvalidDirective(lex), line })
            }
        } else if c == '#' {
            if num_ok(src, i) {
                lex_cons(
                    TokenAt {
                        token: TokenV { kind: TokenKind::Number, lexeme: num_lexeme(src, i), line },
                        start: i,
                    },
                    lex_from(src, num_end(src, i), line),
                )
            } else {
                Err(LexerErrorV { kind: LexerErrorKindV::InvalidNumberLit(num_lexeme(src, i)), line })
            }
        } else if c == '"' {
            match str_scan(src, i + 1) {
                StrScan::Closed(j) => lex_cons(
                    TokenAt {
                        token: TokenV {
                            kind: TokenKind::String,
                            lexeme: src.subrange(i, j + 1),
                            line,
                        },
                        start: i,
                    },
                    lex_from(src, j + 1, line),
                ),
                StrScan::BadChar(j) => Err(
                    LexerErrorV { kind: LexerErrorKindV::InvalidCharacterInString(src[j]), line },
                ),
                StrScan::Unterminated => Err(
                    LexerErrorV { kind: LexerErrorKindV::UnterminatedString, line },
                ),
            }
        } else if spec_is_punctuation_char(c) {
            lex_cons(
                TokenAt {
                    token: TokenV { kind: TokenKind::Punctuation, lexeme: seq![c], line },
                    start: i,
                },
                lex_from(src, i + 1, line),
            )
        } else if c == '\n' {
            lex_cons(
                TokenAt {
                    token: TokenV { kind: TokenKind::Punctuation, lexeme: seq!['\n'], line },
                    start: i,
                },
                lex_from(src, i + 1, line + 1),
            )
        } else if spec_is_ascii_whitespace(c) {
            lex_from(src, i + 1, line)
        } else {
            Err(LexerErrorV { kind: LexerErrorKindV::UnknownSymbol(c), line })
        }
    }
}

#[via_fn]
proof fn lex_from_dec(src: Seq<char>, i: int, line: nat) {
    if 0 <= i < src.len() {
        let c = src[i];
        if c == ';' {
            lemma_comment_end(src, i + 1);
        } else if spec_is_word_char(c) {
            lemma_word_end(src, i);
        } else if c == '!' || c == '.' {
            lemma_word_end(src, i + 1);
        } else if c == '#' {
            lemma_digits_end(src, num_sign_end(src, i), num_radix(src, i));
        } else if c == '"' {
            lemma_str_scan(src, i + 1);
        }
    }
}

/// The whole-input contract: lexing starts at the first character on line 1.
pub open spec fn spec_tokenise(src: Seq<char>) -> Result<Seq<TokenAt>, LexerErrorV> {
    lex_from(src, 0, 1)
}

/// The token sequence of a successful lex, without the source positions.
pub open spec fn lexed_tokens(ts: Seq<TokenAt>) -> Seq<TokenV> {
    ts.map_values(|ta: TokenAt| ta.token)
}

/// Appends a token sequence in front of the result of lexing the rest.
pub open spec fn lex_app(ts: Seq<TokenAt>, rest: Result<Seq<TokenAt>, LexerErrorV>) -> Result<
    Seq<TokenAt>,
    LexerErrorV,
> {
    match rest {
        Ok(more) => Ok(ts + more),
        Err(e) => Err(e),
    }
}

proof fn lemma_lex_app_push(ts: Seq<TokenAt>, t: TokenAt, rest: Result<Seq<TokenAt>, LexerErrorV>)
    ensures
        lex_app(ts, lex_cons(t, rest)) == lex_app(ts.push(t), rest),
{
    match rest {
        Ok(more) => {
            assert(ts + (seq![t] + more) =~= ts.push(t) + more);
        },
        Err(_) => {},
    }
}

proof fn lemma_deep_view_push(pre: Vec<Token>, post: Vec<Token>, t: Token, toks: Seq<TokenAt>, ta: TokenAt)
    requires
        post@ == pre@.push(t),
        pre.deep_view() == lexed_tokens(toks),
        ta.token == t@,
    ensures
        post.deep_view() == lexed_tokens(toks.push(ta)),
{
    let lhs = post.deep_view();
    let rhs = lexed_tokens(toks.push(ta));
    assert(pre.deep_view().len() == pre@.len());
    assert(lexed_tokens(toks).len() == toks.len());
    assert(pre@.len() == toks.len());
    assert(lhs.len() == post@.len());
    assert(rhs.len() == toks.len() + 1);
    assert forall|k: int| 0 <= k < lhs.len() implies lhs[k] == rhs[k] by {
        assert(lhs[k] == post@[k].deep_view());
        assert(rhs[k] == toks.push(ta)[k].token);
        if k < pre@.len() {
            assert(toks.push(ta)[k] == toks[k]);
            assert(post@[k] == pre@[k]);
            assert(pre.deep_view()[k] == pre@[k].deep_view());
            assert(lexed_tokens(toks)[k] == toks[k].token);
            assert(pre.deep_view()[k] == lexed_tokens(toks)[k]);
        } else {
            assert(k == pre@.len());
            assert(toks.push(ta)[k] == ta);
            assert(post@[k] == t);
        }
    }
    assert(lhs =~= rhs);
}

// ---------------------------------------------------------------------------
// The executable lexer
// ---------------------------------------------------------------------------
pub struct Lexer {
    chars: Vec<char>,
    index: usize,
    line: u32,
}

impl Lexer {
    /// Turns source text into tokens, or reports the first lexical error.
    /// The result is exactly what the specification lexer says; a terminal
    /// end-of-input token is always appended.
    pub fn tokenise(src: &str) -> (r: Result<Vec<Token>, LexerError>)
        requires
            src@.len() < 0xFFFF_FFFF,
        ensures
            (match (r, spec_tokenise(src@)) {
                (Ok(v), Ok(ts)) => v.deep_view() == lexed_tokens(ts),
                (Err(e), Err(ev)) => e@ == ev,
                _ => false,
            }),
    {
        let n = src.unicode_len();
        let mut chars: Vec<char> = Vec::new();
        let mut i: usize = 0;
        while i < n
            invariant
                n == src@.len(),
                i <= n,
                chars@.len() == i,
                forall|k: int| 0 <= k < i ==> chars@[k] == src@[k],
            decreases n - i,
        {
            chars.push(src.get_char(i));
            i += 1;
        }
        proof {
            assert(chars@ =~= src@);
        }
        let mut lexer = Lexer { chars, index: 0, line: 1 };
        lexer.scan_all()
    }

    fn is_word_char(c: char) -> (r: bool)
        ensures
            r == spec_is_word_char(c),
    {
        let u = c as u32;
        (('a' as u32) <= u && u <= ('z' as u32)) || (('A' as u32) <= u && u <= ('Z' as u32)) || (('0'
            as u32) <= u && u <= ('9' as u32)) || c == '_'
    }

    fn is_punctuation_character(c: char) -> (r: bool)
        ensures
            r == spec_is_punctuation_char(c),
    {
        (c == '{') || (c == '}') || (c == ':') || (c == '*') || (c == '>') || (c == '(') || (c
            == ')') || (c == '$')
    }

    fn is_ascii_whitespace(c: char) -> (r: bool)
        ensures
            r == spec_is_ascii_whitespace(c),
    {
        c == ' ' || c == '\t' || c == '\n' || c == '\r' || c == '\u{c}'
    }

    fn is_radix_prefix(c: char) -> (r: bool)
        ensures
            r == spec_is_radix_prefix(c),
    {
        c == 'b' || c == 'o' || c == 'd' || c == 'x'
    }

    fn is_valid_digit(radix: char, digit: char) -> (r: bool)
        ensures
            r == spec_is_valid_digit(radix, digit),
    {
        let u = digit as u32;
        if radix == 'b' {
            digit == '0' || digit == '1'
        } else if radix == 'o' {
            ('0' as u32) <= u && u <= ('7' as u32)
        } else if radix == 'd' {
            ('0' as u32) <= u && u <= ('9' as u32)
        } else if radix == 'x' {
            (('0' as u32) <= u && u <= ('9' as u32)) || (('a' as u32) <= u && u <= ('f' as u32)) || (
            ('A' as u32) <= u && u <= ('F' as u32))
        } else {
            false
        }
    }

    fn is_valid_string_char(c: char) -> (r: bool)
        ensures
            r == spec_is_valid_string_char(c),
    {
        let u = c as u32;
        !(u < 32 || u == 127)
    }

    fn get_word_token_kind(lexeme: &str) -> (k: TokenKind)
        ensures
            k == spec_word_kind(lexeme@),
    {
        if resources::is_instruction_name(lexeme) {
            TokenKind::Instruction
        } else if resources::is_register_name(lexeme) {
            TokenKind::Register
        } else if resources::is_long_register_name(lexeme) {
            TokenKind::LongRegister
        } else if resources::is_system_register_name(lexeme) {
            TokenKind::SystemRegister
        } else if resources::is_port_name(lexeme) {
            TokenKind::Port
        } else if resources::is_condition_code_name(lexeme) {
            TokenKind::ConditionCode
        } else {
            TokenKind::Identifier
        }
    }

    /// Advances past a line comment: everything up to (not including) the
    /// next newline.
    #[verifier::loop_isolation(false)]
    fn drop_comment(&mut self)
        requires
            old(self).index <= old(self).chars@.len(),
        ensures
            final(self).chars@ == old(self).chars@,
            final(self).line == old(self).line,
            final(self).index == comment_end(old(self).chars@, old(self).index as int),
    {
        let ghost src = self.chars@;
        let ghost start = self.index as int;
        proof {
            lemma_comment_end(src, start);
        }
        let chars_c = self.chars.len();
        while self.index < chars_c && self.chars[self.index] != '\n'
            invariant
                self.chars@ == src,
                self.line == old(self).line,
                start <= self.index <= src.len(),
                comment_end(src, start) == comment_end(src, self.index as int),
            decreases src.len() - self.index,
        {
            self.index += 1;
        }
    }

    /// Appends the run of word characters starting at the current position
    /// to `lexeme` and advances past it.
    #[verifier::loop_isolation(false)]
    fn read_word_run(&mut self, lexeme: &mut String)
        requires
            old(self).index <= old(self).chars@.len(),
        ensures
            final(self).chars@ == old(self).chars@,
            final(self).line == old(self).line,
            final(self).index == word_end(old(self).chars@, old(self).index as int),
            final(lexeme)@ == old(lexeme)@ + old(self).chars@.subrange(
                old(self).index as int,
                final(self).index as int,
            ),
    {
        let ghost src = self.chars@;
        let ghost start = self.index as int;
        let ghost lex0 = lexeme@;
        proof {
            lemma_word_end(src, start);
            assert(lexeme@ =~= lex0 + src.subrange(start, self.index as int));
        }
        let chars_c = self.chars.len();
        while self.index < chars_c && Self::is_word_char(self.chars[self.index])
            invariant
                self.chars@ == src,
                self.line == old(self).line,
                start <= self.index <= src.len(),
                word_end(src, start) == word_end(src, self.index as int),
                lexeme@ == lex0 + src.subrange(start, self.index as int),
            decreases src.len() - self.index,
        {
            let c = self.chars[self.index];
            push_char(lexeme, c);
            self.index += 1;
            proof {
                assert(lexeme@ =~= lex0 + src.subrange(start, self.index as int));
            }
        }
    }

    fn make_word_token(&mut self) -> (t: Token)
        requires
            old(self).index < old(self).chars@.len(),
            spec_is_word_char(old(self).chars@[old(self).index as int]),
        ensures
            final(self).chars@ == old(self).chars@,
            final(self).line == old(self).line,
            final(self).index == word_end(old(self).chars@, old(self).index as int),
            t@ == (TokenV {
                kind: spec_word_kind(
                    old(self).chars@.subrange(old(self).index as int, final(self).index as int),
                ),
                lexeme: old(self).chars@.subrange(old(self).index as int, final(self).index as int),
                line: old(self).line as nat,
            }),
    {
        let ghost src = self.chars@;
        let ghost start = self.index as int;
        let mut lexeme = String::new();
        self.read_word_run(&mut lexeme);
        proof {
            assert(lexeme@ =~= src.subrange(start, self.index as int));
        }
        let kind = Self::get_word_token_kind(lexeme.as_str());
        Token::new(kind, lexeme, self.line)
    }

    /// Reads a sigil-led word (a macro or directive name): the sigil at the
    /// current position, then the following word run.
    fn read_sigil_word(&mut self) -> (lexeme: String)
        requires
            old(self).index < old(self).chars@.len(),
        ensures
            final(self).chars@ == old(self).chars@,
            final(self).line == old(self).line,
            final(self).index == word_end(old(self).chars@, old(self).index as int + 1),
            lexeme@ == old(self).chars@.subrange(old(self).index as int, final(self).index as int),
    {
        let ghost src = self.chars@;
        let ghost start = self.index as int;
        let chars_c = self.chars.len();
        let mut lexeme = String::new();
        push_char(&mut lexeme, self.chars[self.index]);
        self.index += 1;
        self.read_word_run(&mut lexeme);
        proof {
            lemma_word_end(src, start + 1);
            assert(lexeme@ =~= src.subrange(start, self.index as int));
        }
        lexeme
    }

    fn make_macro_token(&mut self) -> (r: Result<Token, LexerError>)
        requires
            old(self).index < old(self).chars@.len(),
        ensures
            final(self).chars@ == old(self).chars@,
            final(self).line == old(self).line,
            ({
                let lex = old(self).chars@.subrange(
                    old(self).index as int,
                    word_end(old(self).chars@, old(self).index as int + 1),
                );
                match r {
                    Ok(t) => spec_is_macro_name(lex) && t@ == (TokenV {
                        kind: TokenKind::Macro,
                        lexeme: lex,
                        line: old(self).line as nat,
                    }) && final(self).index == word_end(
                        old(self).chars@,
                        old(self).index as int + 1,
                    ),
                    Err(e) => !spec_is_macro_name(lex) && e@ == (LexerErrorV {
                        kind: LexerErrorKindV::InvalidMacro(lex),
                        line: old(self).line as nat,
                    }),
                }
            }),
    {
        let lexeme = self.read_sigil_word();
        if resources::is_macro_name(lexeme.as_str()) {
            Ok(Token::new(TokenKind::Macro, lexeme, self.line))
        } else {
            Err(LexerError::new(LexerErrorKind::InvalidMacro(lexeme), self.line))
        }
    }

    fn make_directive_token(&mut self) -> (r: Result<Token, LexerError>)
        requires
            old(self).index < old(self).chars@.len(),
        ensures
            final(self).chars@ == old(self).chars@,
            final(self).line == old(self).line,
            ({
                let lex = old(self).chars@.subrange(
                    old(self).index as int,
                    word_end(old(self).chars@, old(self).index as int + 1),
                );
                match r {
                    Ok(t) => spec_is_directive_name(lex) && t@ == (TokenV {
                        kind: TokenKind::Directive,
                        lexeme: lex,
                        line: old(self).line as nat,
                    }) && final(self).index == word_end(
                        old(self).chars@,
                        old(self).index as int + 1,
                    ),
                    Err(e) => !spec_is_directive_name(lex) && e@ == (LexerErrorV {
                        kind: LexerErrorKindV::InvalidDirective(lex),
                        line: old(self).line as nat,
                    }),
                }
            }),
    {
        let lexeme = self.read_sigil_word();
        if resources::is_directive_name(lexeme.as_str()) {
            Ok(Token::new(TokenKind::Directive, lexeme, self.line))
        } else {
            Err(LexerError::new(LexerErrorKind::InvalidDirective(lexeme), self.line))
        }
    }

    #[verifier::loop_isolation(false)]
    fn make_number_lit_token(&mut self) -> (r: Result<Token, LexerError>)
        requires
            old(self).index < old(self).chars@.len(),
            old(self).chars@[old(self).index as int] == '#',
        ensures
            final(self).chars@ == old(self).chars@,
            final(self).line == old(self).line,
            ({
                let src = old(self).chars@;
                let i0 = old(self).index as int;
                match r {
                    Ok(t) => num_ok(src, i0) && t@ == (TokenV {
                        kind: TokenKind::Number,
                        lexeme: num_lexeme(src, i0),
                        line: old(self).line as nat,
                    }) && final(self).index == num_end(src, i0),
                    Err(e) => !num_ok(src, i0) && e@ == (LexerErrorV {
                        kind: LexerErrorKindV::InvalidNumberLit(num_lexeme(src, i0)),
                        line: old(self).line as nat,
                    }),
                }
            }),
    {
        let ghost src = self.chars@;
        let ghost i0 = self.index as int;
        let chars_c = self.chars.len();
        let mut lexeme = String::new();
        push_char(&mut lexeme, '#');
        self.index += 1;
        let radix: char;
        if self.index < chars_c && Self::is_radix_prefix(self.chars[self.index]) {
            radix = self.chars[self.index];
            push_char(&mut lexeme, radix);
            self.index += 1;
        } else {
            radix = 'd';
            push_char(&mut lexeme, 'd');
        }
        proof {
            assert(radix == num_radix(src, i0));
            assert(self.index as int == num_body_start(src, i0));
            assert(lexeme@ =~= seq!['#', radix]);
        }
        let ghost body_start = self.index as int;
        if self.index < chars_c && self.chars[self.index] == '-' {
            push_char(&mut lexeme, '-');
            self.index += 1;
        }
        proof {
            assert(self.index as int == num_sign_end(src, i0));
            assert(lexeme@ =~= seq!['#', radix] + src.subrange(body_start, self.index as int));
            lemma_digits_end(src, self.index as int, radix);
        }
        let ghost sign_end = self.index as int;
        let digits_start = self.index;
        while self.index < chars_c && Self::is_valid_digit(radix, self.chars[self.index])
            invariant
                self.chars@ == src,
                self.line == old(self).line,
                sign_end <= self.index <= src.len(),
                digits_end(src, sign_end, radix) == digits_end(src, self.index as int, radix),
                lexeme@ == seq!['#', radix] + src.subrange(body_start, self.index as int),
            decreases src.len() - self.index,
        {
            let c = self.chars[self.index];
            push_char(&mut lexeme, c);
            self.index += 1;
            proof {
                assert(lexeme@ =~= seq!['#', radix] + src.subrange(body_start, self.index as int));
            }
        }
        proof {
            assert(self.index as int == digits_end(src, sign_end, radix));
            assert(lexeme@ =~= num_lexeme(src, i0));
        }
        if self.index == digits_start {
            return Err(LexerError::new(LexerErrorKind::InvalidNumberLit(lexeme), self.line));
        }
        Ok(Token::new(TokenKind::Number, lexeme, self.line))
    }

    #[verifier::loop_isolation(false)]
    fn make_string_lit_token(&mut self) -> (r: Result<Token, LexerError>)
        requires
            old(self).index < old(self).chars@.len(),
            old(self).chars@[old(self).index as int] == '"',
        ensures
            final(self).chars@ == old(self).chars@,
            final(self).line == old(self).line,
            ({
                let src = old(self).chars@;
                let i0 = old(self).index as int;
                match r {
                    Ok(t) => (str_scan(src, i0 + 1) matches StrScan::Closed(j) && t@ == (TokenV {
                        kind: TokenKind::String,
                        lexeme: src.subrange(i0, j + 1),
                        line: old(self).line as nat,
                    }) && final(self).index == j + 1),
                    Err(e) => match str_scan(src, i0 + 1) {
                        StrScan::Closed(_) => false,
                        StrScan::BadChar(j) => e@ == (LexerErrorV {
                            kind: LexerErrorKindV::InvalidCharacterInString(src[j]),
                            line: old(self).line as nat,
                        }),
                        StrScan::Unterminated => e@ == (LexerErrorV {
                            kind: LexerErrorKindV::UnterminatedString,
                            line: old(self).line as nat,
                        }),
                    },
                }
            }),
    {
        let ghost src = self.chars@;
        let ghost i0 = self.index as int;
        let chars_c = self.chars.len();
        let mut lexeme = String::new();
        push_char(&mut lexeme, '"');
        self.index += 1;
        proof {
            lemma_str_scan(src, i0 + 1);
            assert(lexeme@ =~= src.subrange(i0, self.index as int));
        }
        while self.index < chars_c && self.chars[self.index] != '"'
            invariant
                self.chars@ == src,
                self.line == old(self).line,
                i0 + 1 <= self.index <= src.len(),
                str_scan(src, i0 + 1) == str_scan(src, self.index as int),
                lexeme@ == src.subrange(i0, self.index as int),
            decreases src.len() - self.index,
        {
            let c = self.chars[self.index];
            if !Self::is_valid_string_char(c) {
                proof {
                    assert(str_scan(src, self.index as int) matches StrScan::BadChar(j) && j
                        == self.index);
                }
                return Err(
                    LexerError::new(LexerErrorKind::InvalidCharacterInString(c), self.line),
                );
            }
            push_char(&mut lexeme, c);
            self.index += 1;
            proof {
                assert(lexeme@ =~= src.subrange(i0, self.index as int));
            }
        }
        if self.index >= chars_c {
            proof {
                assert(str_scan(src, self.index as int) is Unterminated);
            }
            return Err(LexerError::new(LexerErrorKind::UnterminatedString, self.line));
        }
        proof {
            assert(str_scan(src, self.index as int) matches StrScan::Closed(j) && j
                == self.index);
        }
        push_char(&mut lexeme, '"');
        self.index += 1;
        proof {
            assert(lexeme@ =~= src.subrange(i0, self.index as int));
        }
        Ok(Token::new(TokenKind::String, lexeme, self.line))
    }

    /// The scanning loop: one token (or skip, or failure) per step, then a
    /// terminal end-of-input token.
    #[verifier::loop_isolation(false)]
    fn scan_all(&mut self) -> (r: Result<Vec<Token>, LexerError>)
        requires
            old(self).index == 0,
            old(self).line == 1,
            old(self).chars@.len() < 0xFFFF_FFFF,
        ensures
            (match (r, spec_tokenise(old(self).chars@)) {
                (Ok(v), Ok(ts)) => v.deep_view() == lexed_tokens(ts),
                (Err(e), Err(ev)) => e@ == ev,
                _ => false,
            }),
    {
        let ghost src = self.chars@;
        let mut tokens: Vec<Token> = Vec::new();
        let ghost mut toks: Seq<TokenAt> = Seq::empty();
        proof {
            match lex_from(src, 0, 1) {
                Ok(more) => {
                    assert(toks + more =~= more);
                },
                Err(_) => {},
            }
        }
        let chars_c = self.chars.len();
        while self.index < chars_c
            invariant
                self.chars@ == src,
                self.index <= src.len(),
                1 <= self.line,
                self.line as int <= 1 + self.index as int,
                lex_from(src, 0, 1) == lex_app(
                    toks,
                    lex_from(src, self.index as int, self.line as nat),
                ),
                tokens.deep_view() == lexed_tokens(toks),
            decreases src.len() - self.index,
        {
            let c = self.chars[self.index];
            let ghost i = self.index as int;
            let ghost line = self.line as nat;
            if c == ';' {
                proof {
                    lemma_comment_end(src, i);
                }
                self.drop_comment();
                proof {
                    assert(lex_from(src, i, line) == lex_from(src, self.index as int, line));
                }
            } else if Self::is_word_char(c) {
                let t = self.make_word_token();
                let ghost tv = t@;
                let ghost pre = tokens;
                let ghost t0 = t;
                tokens.push(t);
                proof {
                    lemma_word_end(src, i);
                    let ta = TokenAt { token: tv, start: i };
                    let rest = lex_from(src, self.index as int, line);
                    assert(lex_from(src, i, line) == lex_cons(ta, rest));
                    lemma_lex_app_push(toks, ta, rest);
                    lemma_deep_view_push(pre, tokens, t0, toks, ta);
                    toks = toks.push(ta);
                }
            } else if c == '!' {
                let res = self.make_macro_token();
                proof {
                    lemma_word_end(src, i + 1);
                }
                match res {
                    Ok(t) => {
                        let ghost tv = t@;
                        let ghost pre = tokens;
                        let ghost t0 = t;
                        tokens.push(t);
                        proof {
                            let ta = TokenAt { token: tv, start: i };
                            let rest = lex_from(src, self.index as int, line);
                            assert(lex_from(src, i, line) == lex_cons(ta, rest));
                            lemma_lex_app_push(toks, ta, rest);
                            lemma_deep_view_push(pre, tokens, t0, toks, ta);
                            toks = toks.push(ta);
                        }
                    },
                    Err(e) => {
                        proof {
                            assert(lex_from(src, i, line) == Err::<Seq<TokenAt>, LexerErrorV>(e@));
                        }
                        return Err(e);
                    },
                }
            } else if c == '.' {
                let res = self.make_directive_token();
                proof {
                    lemma_word_end(src, i + 1);
                }
                match res {
                    Ok(t) => {
                        let ghost tv = t@;
                        let ghost pre = tokens;
                        let ghost t0 = t;
                        tokens.push(t);
                        proof {
                            let ta = TokenAt { token: tv, start: i };
                            let rest = lex_from(src, self.index as int, line);
                            assert(lex_from(src, i, line) == lex_cons(ta, rest));
                            lemma_lex_app_push(toks, ta, rest);
                            lemma_deep_view_push(pre, tokens, t0, toks, ta);
                            toks = toks.push(ta);
                        }
                    },
                    Err(e) => {
                        proof {
                            assert(lex_from(src, i, line) == Err::<Seq<TokenAt>, LexerErrorV>(e@));
                        }
                        return Err(e);
                    },
                }
            } else if c == '#' {
                let res = self.make_number_lit_token();
                proof {
                    lemma_digits_end(src, num_sign_end(src, i), num_radix(src, i));
                }
                match res {
                    Ok(t) => {
                        let ghost tv = t@;
                        let ghost pre = tokens;
                        let ghost t0 = t;
                        tokens.push(t);
                        proof {
                            let ta = TokenAt { token: tv, start: i };
                            let rest = lex_from(src, self.index as int, line);
                            assert(lex_from(src, i, line) == lex_cons(ta, rest));
                            lemma_lex_app_push(toks, ta, rest);
                            lemma_deep_view_push(pre, tokens, t0, toks, ta);
                            toks = toks.push(ta);
                        }
                    },
                    Err(e) => {
                        proof {
                            assert(lex_from(src, i, line) == Err::<Seq<TokenAt>, LexerErrorV>(e@));
                        }
                        return Err(e);
                    },
                }
            } else if c == '"' {
                let res = self.make_string_lit_token();
                proof {
                    lemma_str_scan(src, i + 1);
                }
                match res {
                    Ok(t) => {
                        let ghost tv = t@;
                        let ghost pre = tokens;
                        let ghost t0 = t;
                        tokens.push(t);
                        proof {
                            let ta = TokenAt { token: tv, start: i };
                            let rest = lex_from(src, self.index as int, line);
                            assert(lex_from(src, i, line) == lex_cons(ta, rest));
                            lemma_lex_app_push(toks, ta, rest);
                            lemma_deep_view_push(pre, tokens, t0, toks, ta);
                            toks = toks.push(ta);
                        }
                    },
                    Err(e) => {
                        proof {
                            assert(lex_from(src, i, line) == Err::<Seq<TokenAt>, LexerErrorV>(e@));
                        }
                        return Err(e);
                    },
                }
            } else if Self::is_punctuation_character(c) {
                let mut lexeme = String::new();
                push_char(&mut lexeme, c);
                let t = Token::new(TokenKind::Punctuation, lexeme, self.line);
                let ghost tv = t@;
                let ghost pre = tokens;
                let ghost t0 = t;
                tokens.push(t);
                self.index += 1;
                proof {
                    let ta = TokenAt { token: tv, start: i };
                    assert(tv.lexeme =~= seq![c]);
                    let rest = lex_from(src, self.index as int, line);
                    assert(lex_from(src, i, line) == lex_cons(ta, rest));
                    lemma_lex_app_push(toks, ta, rest);
                    lemma_deep_view_push(pre, tokens, t0, toks, ta);
                    toks = toks.push(ta);
                }
            } else if c == '\n' {
                let mut lexeme = String::new();
                push_char(&mut lexeme, '\n');
                let t = Token::new(TokenKind::Punctuation, lexeme, self.line);
                let ghost tv = t@;
                let ghost pre = tokens;
                let ghost t0 = t;
                tokens.push(t);
                self.index += 1;
                self.line += 1;
                proof {
                    let ta = TokenAt { token: tv, start: i };
                    assert(tv.lexeme =~= seq!['\n']);
                    let rest = lex_from(src, self.index as int, self.line as nat);
                    assert(lex_from(src, i, line) == lex_cons(ta, rest));
                    lemma_lex_app_push(toks, ta, rest);
                    lemma_deep_view_push(pre, tokens, t0, toks, ta);
                    toks = toks.push(ta);
                }
            } else if Self::is_ascii_whitespace(c) {
                self.index += 1;
                proof {
                    assert(lex_from(src, i, line) == lex_from(src, self.index as int, line));
                }
            } else {
                let e = LexerError::new(LexerErrorKind::UnknownSymbol(c), self.line);
                proof {
                    assert(lex_from(src, i, line) == Err::<Seq<TokenAt>, LexerErrorV>(e@));
                }
                return Err(e);
            }
        }
        let t = Token::eof_token(self.line);
        let ghost tv = t@;
        let ghost pre = tokens;
        let ghost t0 = t;
        tokens.push(t);
        proof {
            let ta = TokenAt { token: tv, start: self.index as int };
            assert(tv.lexeme =~= Seq::<char>::empty());
            assert(lex_from(src, self.index as int, self.line as nat) == Ok::<
                Seq<TokenAt>,
                LexerErrorV,
            >(seq![ta]));
            assert(toks + seq![ta] =~= toks.push(ta));
            lemma_deep_view_push(pre, tokens, t0, toks, ta);
            toks = toks.push(ta);
        }
        Ok(tokens)
    }
}

// ---------------------------------------------------------------------------
// Laws of the lexer
// ---------------------------------------------------------------------------
/// The number of newline characters strictly before position `j`.
pub open spec fn newlines_before(src: Seq<char>, j: int) -> int
    decreases j,
{
    if j <= 0 {
        0
    } else {
        newlines_before(src, j - 1) + (if src[j - 1] == '\n' {
            1int
        } else {
            0int
        })
    }
}

proof fn lemma_newlines_same(src: Seq<char>, i: int, j: int)
    requires
        0 <= i <= j,
        forall|k: int| i <= k < j ==> src[k] != '\n',
    ensures
        newlines_before(src, j) == newlines_before(src, i),
    decreases j - i,
{
    if j > i {
        lemma_newlines_same(src, i, j - 1);
    }
}

/// A lexed token is well formed: a numeric token's lexeme follows the
/// normalized numeric grammar with at least one digit, and a string
/// token's lexeme is enclosed in quotes.
pub open spec fn valid_num_lexeme(lex: Seq<char>) -> bool {
    &&& lex.len() > 2
    &&& lex[0] == '#'
    &&& spec_is_radix_prefix(lex[1])
    &&& (if lex[2] == '-' {
        lex.len() > 3 && forall|k: int| 3 <= k < lex.len() ==> spec_is_valid_digit(lex[1], lex[k])
    } else {
        forall|k: int| 2 <= k < lex.len() ==> spec_is_valid_digit(lex[1], lex[k])
    })
}

pub open spec fn wf_token(t: TokenV) -> bool {
    &&& t.kind == TokenKind::Number ==> valid_num_lexeme(t.lexeme)
    &&& t.kind == TokenKind::String ==> t.lexeme.len() >= 2 && t.lexeme[0] == '"'
        && t.lexeme[t.lexeme.len() - 1] == '"'
}

/// The property each token of a successful lex satisfies: its line number
/// is 1 plus the count of newlines before its first character, and its
/// lexeme is well formed.
pub open spec fn lexed_token_props(src: Seq<char>, ta: TokenAt) -> bool {
    &&& ta.token.line == 1 + newlines_before(src, ta.start)
    &&& wf_token(ta.token)
}

proof fn lemma_cons_all(t: TokenAt, rest: Result<Seq<TokenAt>, LexerErrorV>, p: spec_fn(TokenAt) -> bool)
    requires
        p(t),
        rest matches Ok(ts) ==> forall|k: int| 0 <= k < ts.len() ==> #[trigger] p(ts[k]),
    ensures
        lex_cons(t, rest) matches Ok(ts2) ==> forall|k: int|
            0 <= k < ts2.len() ==> #[trigger] p(ts2[k]),
{
    match rest {
        Ok(ts) => {
            let ts2 = seq![t] + ts;
            assert forall|k: int| 0 <= k < ts2.len() implies #[trigger] p(ts2[k]) by {
                if k == 0 {
                    assert(ts2[k] == t);
                } else {
                    assert(ts2[k] == ts[k - 1]);
                }
            }
        },
        Err(_) => {},
    }
}

proof fn lemma_lex_from_props(src: Seq<char>, i: int, line: nat)
    requires
        0 <= i <= src.len(),
        line == 1 + newlines_before(src, i),
    ensures
        lex_from(src, i, line) matches Ok(ts) ==> forall|k: int|
            0 <= k < ts.len() ==> #[trigger] lexed_token_props(src, ts[k]),
    decreases src.len() - i,
{
    let p = |ta: TokenAt| lexed_token_props(src, ta);
    if i >= src.len() {
        let ta = TokenAt {
            token: TokenV { kind: TokenKind::Eof, lexeme: Seq::empty(), line },
            start: i,
        };
        assert(lex_from(src, i, line) == Ok::<Seq<TokenAt>, LexerErrorV>(seq![ta]));
        assert(lexed_token_props(src, ta));
        assert forall|k: int| 0 <= k < 1 implies #[trigger] lexed_token_props(src, seq![ta][k]) by {
            assert(seq![ta][k] == ta);
        }
    } else {
        let c = src[i];
        if c == ';' {
            lemma_comment_end(src, i);
            let e = comment_end(src, i);
            lemma_newlines_same(src, i, e);
            lemma_lex_from_props(src, e, line);
        } else if spec_is_word_char(c) {
            lemma_word_end(src, i);
            let e = word_end(src, i);
            let lex = src.subrange(i, e);
            assert forall|k: int| i <= k < e implies src[k] != '\n' by {
                assert(spec_is_word_char(src[k]));
                assert(!spec_is_word_char('\n'));
            }
            lemma_newlines_same(src, i, e);
            lemma_lex_from_props(src, e, line);
            let t = TokenAt {
                token: TokenV { kind: spec_word_kind(lex), lexeme: lex, line },
                start: i,
            };
            assert(lexed_token_props(src, t));
            lemma_cons_all(t, lex_from(src, e, line), p);
        } else if c == '!' || c == '.' {
            lemma_word_end(src, i + 1);
            let e = word_end(src, i + 1);
            let lex = src.subrange(i, e);
            if (c == '!' && spec_is_macro_name(lex)) || (c == '.' && spec_is_directive_name(lex)) {
                assert forall|k: int| i <= k < e implies src[k] != '\n' by {
                    if k > i {
                        assert(spec_is_word_char(src[k]));
                        assert(!spec_is_word_char('\n'));
                    }
                }
                lemma_newlines_same(src, i, e);
                lemma_lex_from_props(src, e, line);
                let kind = if c == '!' {
                    TokenKind::Macro
                } else {
                    TokenKind::Directive
                };
                let t = TokenAt { token: TokenV { kind, lexeme: lex, line }, start: i };
                assert(lexed_token_props(src, t));
                lemma_cons_all(t, lex_from(src, e, line), p);
            }
        } else if c == '#' {
            if num_ok(src, i) {
                let radix = num_radix(src, i);
                let bs = num_body_start(src, i);
                let se = num_sign_end(src, i);
                let e = num_end(src, i);
                lemma_digits_end(src, se, radix);
                let lex = num_lexeme(src, i);
                assert(lex.len() == 2 + (e - bs));
                assert(lex[0] == '#');
                assert(lex[1] == radix);
                assert(spec_is_radix_prefix(radix));
                assert forall|k: int| 2 <= k < lex.len() && bs + (k - 2) >= se implies
                    spec_is_valid_digit(radix, lex[k]) by {
                    assert(lex[k] == src[bs + (k - 2)]);
                }
                if se > bs {
                    assert(lex[2] == src[bs]);
                    assert(src[bs] == '-');
                    assert(valid_num_lexeme(lex));
                } else {
                    assert(lex[2] == src[bs]);
                    assert(spec_is_valid_digit(radix, src[bs]));
                    assert(lex[2] != '-');
                    assert(valid_num_lexeme(lex));
                }
                assert forall|k: int| i <= k < e implies src[k] != '\n' by {
                    if k == i {
                    } else if k < bs {
                        assert(spec_is_radix_prefix(src[k]));
                    } else if k < se {
                        assert(src[k] == '-');
                    } else {
                        assert(spec_is_valid_digit(radix, src[k]));
                        assert(!spec_is_valid_digit(radix, '\n'));
                    }
                }
                lemma_newlines_same(src, i, e);
                lemma_lex_from_props(src, e, line);
                let t = TokenAt {
                    token: TokenV { kind: TokenKind::Number, lexeme: lex, line },
                    start: i,
                };
                assert(lexed_token_props(src, t));
                lemma_cons_all(t, lex_from(src, e, line), p);
            }
        } else if c == '"' {
            lemma_str_scan(src, i + 1);
            match str_scan(src, i + 1) {
                StrScan::Closed(j) => {
                    let lex = src.subrange(i, j + 1);
                    assert(lex[0] == '"');
                    assert(lex[lex.len() - 1] == src[j]);
                    assert forall|k: int| i <= k < j + 1 implies src[k] != '\n' by {
                        if i < k < j {
                            assert(spec_is_valid_string_char(src[k]));
                            assert(!spec_is_valid_string_char('\n'));
                        }
                    }
                    lemma_newlines_same(src, i, j + 1);
                    lemma_lex_from_props(src, j + 1, line);
                    let t = TokenAt {
                        token: TokenV { kind: TokenKind::String, lexeme: lex, line },
                        start: i,
                    };
                    assert(lexed_token_props(src, t));
                    lemma_cons_all(t, lex_from(src, j + 1, line), p);
                },
                _ => {},
            }
        } else if spec_is_punctuation_char(c) {
            lemma_newlines_same(src, i, i + 1);
            lemma_lex_from_props(src, i + 1, line);
            let t = TokenAt {
                token: TokenV { kind: TokenKind::Punctuation, lexeme: seq![c], line },
                start: i,
            };
            assert(lexed_token_props(src, t));
            lemma_cons_all(t, lex_from(src, i + 1, line), p);
        } else if c == '\n' {
            assert(newlines_before(src, i + 1) == newlines_before(src, i) + 1);
            lemma_lex_from_props(src, i + 1, line + 1);
            let t = TokenAt {
                token: TokenV { kind: TokenKind::Punctuation, lexeme: seq!['\n'], line },
                start: i,
            };
            assert(lexed_token_props(src, t));
            lemma_cons_all(t, lex_from(src, i + 1, line + 1), p);
        } else if spec_is_ascii_whitespace(c) {
            lemma_newlines_same(src, i, i + 1);
            lemma_lex_from_props(src, i + 1, line);
        }
    }
}

/// Law: for every source text, the line number attached to a token equals
/// 1 plus the count of newline characters preceding the token's first
/// character.
pub proof fn lemma_token_line_numbers(src: Seq<char>)
    ensures
        spec_tokenise(src) matches Ok(ts) ==> forall|k: int|
            0 <= k < ts.len() ==> ts[k].token.line == 1 + newlines_before(src, ts[k].start),
{
    lemma_lex_from_props(src, 0, 1);
    match spec_tokenise(src) {
        Ok(ts) => {
            assert forall|k: int| 0 <= k < ts.len() implies ts[k].token.line == 1
                + newlines_before(src, ts[k].start) by {
                assert(lexed_token_props(src, ts[k]));
            }
        },
        Err(_) => {},
    }
}

/// A successful lex yields at most one token per character, plus the
/// terminal end-of-input token.
pub proof fn lemma_lex_from_count(src: Seq<char>, i: int, line: nat)
    requires
        0 <= i <= src.len(),
    ensures
        lex_from(src, i, line) matches Ok(ts) ==> ts.len() <= src.len() - i + 1,
    decreases src.len() - i,
{
    if i < src.len() {
        let c = src[i];
        if c == ';' {
            lemma_comment_end(src, i);
            lemma_lex_from_count(src, comment_end(src, i), line);
        } else if spec_is_word_char(c) {
            lemma_word_end(src, i);
            lemma_lex_from_count(src, word_end(src, i), line);
        } else if c == '!' || c == '.' {
            lemma_word_end(src, i + 1);
            lemma_lex_from_count(src, word_end(src, i + 1), line);
        } else if c == '#' {
            if num_ok(src, i) {
                lemma_digits_end(src, num_sign_end(src, i), num_radix(src, i));
                lemma_lex_from_count(src, num_end(src, i), line);
            }
        } else if c == '"' {
            lemma_str_scan(src, i + 1);
            match str_scan(src, i + 1) {
                StrScan::Closed(j) => {
                    lemma_lex_from_count(src, j + 1, line);
                },
                _ => {},
            }
        } else if spec_is_punctuation_char(c) {
            lemma_lex_from_count(src, i + 1, line);
        } else if c == '\n' {
            lemma_lex_from_count(src, i + 1, line + 1);
        } else if spec_is_ascii_whitespace(c) {
            lemma_lex_from_count(src, i + 1, line);
        }
    }
}

/// Every token of a successful lex is well formed: numeric lexemes follow
/// the normalized numeric grammar, string lexemes are enclosed in quotes.
pub proof fn lemma_tokenise_wf(src: Seq<char>)
    ensures
        spec_tokenise(src) matches Ok(ts) ==> forall|k: int|
            0 <= k < ts.len() ==> #[trigger] wf_token(ts[k].token),
{
    lemma_lex_from_props(src, 0, 1);
    match spec_tokenise(src) {
        Ok(ts) => {
            assert forall|k: int| 0 <= k < ts.len() implies #[trigger] wf_token(ts[k].token) by {
                assert(lexed_token_props(src, ts[k]));
            }
        },
        Err(_) => {},
    }
}

} // verus!
