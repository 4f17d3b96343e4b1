//! Decoding of literal lexemes: a numeric lexeme (with its embedded radix
//! prefix) into a signed 32-bit integer, and a string lexeme into its raw
//! character sequence with the surrounding quotes stripped.

use crate::lexer::token::{Token, TokenKind};
use crate::lexer::valid_num_lexeme;
use vstd::prelude::*;
use vstd::string::StrSliceExecFns;

verus! {

/// The numeric value of one digit character (hexadecimal digits included).
pub open spec fn digit_val(c: char) -> int {
    if ('0' as u32) <= (c as u32) && (c as u32) <= ('9' as u32) {
        c as u32 - '0' as u32
    } else if ('a' as u32) <= (c as u32) && (c as u32) <= ('f' as u32) {
        c as u32 - 'a' as u32 + 10
    } else if ('A' as u32) <= (c as u32) && (c as u32) <= ('F' as u32) {
        c as u32 - 'A' as u32 + 10
    } else {
        0
    }
}

/// The base selected by a radix prefix character.
pub open spec fn radix_val(c: char) -> int {
    if c == 'b' {
        2
    } else if c == 'o' {
        8
    } else if c == 'd' {
        10
    } else if c == 'x' {
        16
    } else {
        10
    }
}

/// The value of a digit string read most significant digit first in the
/// given base.
pub open spec fn digits_value(s: Seq<char>, radix: int) -> int
    decreases s.len(),
{
    if s.len() == 0 {
        0
    } else {
        digits_value(s.drop_last(), radix) * radix + digit_val(s.last())
    }
}

/// The mathematical value of a normalized numeric lexeme
/// `#<radix><sign?><digits>`.
pub open spec fn lit_value(lex: Seq<char>) -> int {
    let radix = radix_val(lex[1]);
    if lex.len() > 2 && lex[2] == '-' {
        -digits_value(lex.subrange(3, lex.len() as int), radix)
    } else {
        digits_value(lex.subrange(2, lex.len() as int), radix)
    }
}

pub proof fn lemma_digits_value_nonneg(s: Seq<char>, radix: int)
    requires
        radix >= 2,
    ensures
        digits_value(s, radix) >= 0,
    decreases s.len(),
{
    if s.len() > 0 {
        lemma_digits_value_nonneg(s.drop_last(), radix);
        assert(digits_value(s.drop_last(), radix) * radix >= 0) by (nonlinear_arith)
            requires
                digits_value(s.drop_last(), radix) >= 0,
                radix >= 2,
        ;
    }
}

/// A prefix of a digit string never has a larger value than the whole.
pub proof fn lemma_digits_value_prefix(s: Seq<char>, radix: int, i: int)
    requires
        radix >= 2,
        0 <= i <= s.len(),
    ensures
        digits_value(s.subrange(0, i), radix) <= digits_value(s, radix),
    decreases s.len() - i,
{
    if i == s.len() {
        assert(s.subrange(0, i) =~= s);
    } else {
        lemma_digits_value_prefix(s, radix, i + 1);
        let p1 = s.subrange(0, i + 1);
        assert(p1.drop_last() =~= s.subrange(0, i));
        lemma_digits_value_nonneg(s.subrange(0, i), radix);
        assert(digits_value(s.subrange(0, i), radix) * radix >= digits_value(s.subrange(0, i), radix))
            by (nonlinear_arith)
            requires
                digits_value(s.subrange(0, i), radix) >= 0,
                radix >= 2,
        ;
    }
}

/// A numeric token that the builders can decode: the normalized lexeme
/// grammar holds and the value fits a signed 32-bit integer.
pub open spec fn num_token_ok(t: crate::lexer::token::TokenV) -> bool {
    &&& t.kind == TokenKind::Number
    &&& valid_num_lexeme(t.lexeme)
    &&& i32::MIN <= lit_value(t.lexeme) <= i32::MAX
}

/// Reinterpretation of a signed 32-bit value as unsigned, two's complement.
pub open spec fn wrap_u32(v: int) -> u32 {
    if v >= 0 {
        v as u32
    } else {
        (v + 0x1_0000_0000) as u32
    }
}

pub(crate) fn i32_to_u32_wrap(v: i32) -> (r: u32)
    ensures
        r == wrap_u32(v as int),
{
    if v >= 0 {
        v as u32
    } else {
        ((v as i64) + 0x1_0000_0000i64) as u32
    }
}

pub(crate) fn radix_of(c: char) -> (r: u32)
    ensures
        r as int == radix_val(c),
        2 <= r <= 16,
{
    if c == 'b' {
        2
    } else if c == 'o' {
        8
    } else if c == 'd' {
        10
    } else if c == 'x' {
        16
    } else {
        10
    }
}

pub(crate) fn digit_of(c: char) -> (d: u32)
    ensures
        d as int == digit_val(c),
        d <= 15,
{
    let u = c as u32;
    if ('0' as u32) <= u && u <= ('9' as u32) {
        u - ('0' as u32)
    } else if ('a' as u32) <= u && u <= ('f' as u32) {
        u - ('a' as u32) + 10
    } else if ('A' as u32) <= u && u <= ('F' as u32) {
        u - ('A' as u32) + 10
    } else {
        0
    }
}

/// Decodes a numeric token's lexeme into the mathematically correct signed
/// integer in its base.
#[verifier::loop_isolation(false)]
pub fn num_lit_to_int(token: &Token) -> (r: i32)
    requires
        token@.kind == TokenKind::Number,
        valid_num_lexeme(token@.lexeme),
        i32::MIN <= lit_value(token@.lexeme) <= i32::MAX,
    ensures
        r as int == lit_value(token@.lexeme),
{
    let ghost lex = token@.lexeme;
    let s = token.lexeme.as_str();
    let n = s.unicode_len();
    let radix = radix_of(s.get_char(1));
    let neg = s.get_char(2) == '-';
    let start: usize = if neg {
        3
    } else {
        2
    };
    let ghost digits = lex.subrange(start as int, n as int);
    let ghost full = digits_value(digits, radix as int);
    proof {
        lemma_digits_value_nonneg(digits, radix as int);
        if neg {
            assert(lit_value(lex) == -full);
        } else {
            assert(lit_value(lex) == full);
        }
    }
    let mut value: i64 = 0;
    let mut i = start;
    proof {
        assert(lex.subrange(start as int, start as int) =~= Seq::<char>::empty());
    }
    while i < n
        invariant
            start <= i <= n,
            value == digits_value(lex.subrange(start as int, i as int), radix as int),
            0 <= value <= full,
        decreases n - i,
    {
        let c = s.get_char(i);
        let d = digit_of(c);
        proof {
            let p0 = lex.subrange(start as int, i as int);
            let p1 = lex.subrange(start as int, i + 1);
            assert(p1.drop_last() =~= p0);
            assert(p1.last() == lex[i as int]);
            assert(digits_value(p1, radix as int) == value * (radix as int) + digit_val(
                lex[i as int],
            ));
            assert(p1 =~= digits.subrange(0, i + 1 - start));
            lemma_digits_value_prefix(digits, radix as int, i + 1 - start);
        }
        value = value * (radix as i64) + (d as i64);
        i += 1;
    }
    proof {
        assert(lex.subrange(start as int, n as int) =~= digits);
    }
    if neg {
        (-value) as i32
    } else {
        value as i32
    }
}

/// Strips the surrounding quotes from a string token's lexeme.
#[verifier::loop_isolation(false)]
pub fn str_lit_to_str(token: &Token) -> (r: Vec<char>)
    requires
        token@.kind == TokenKind::String,
        token@.lexeme.len() >= 2,
    ensures
        r@ == token@.lexeme.subrange(1, token@.lexeme.len() - 1),
{
    let ghost lex = token@.lexeme;
    let s = token.lexeme.as_str();
    let n = s.unicode_len();
    let mut out: Vec<char> = Vec::new();
    let mut i: usize = 1;
    while i < n - 1
        invariant
            1 <= i <= n - 1,
            n == lex.len(),
            out@ =~= lex.subrange(1, i as int),
        decreases n - i,
    {
        out.push(s.get_char(i));
        i += 1;
        proof {
            assert(out@ =~= lex.subrange(1, i as int));
        }
    }
    proof {
        assert(out@ =~= lex.subrange(1, lex.len() - 1));
    }
    out
}

} // verus!
