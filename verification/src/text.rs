//! Small verified text utilities shared by the lexer, the parser and the
//! semantic pass: appending a character to a `String`, comparing string
//! slices, and printing an unsigned number in decimal.

use vstd::prelude::*;
use vstd::string::StrSliceExecFns;

verus! {

/// Relies on String::push: appends the given character to the end of the string.
#[verifier::external_body]
pub(crate) fn push_char(s: &mut String, c: char)
    ensures
        final(s)@ == old(s)@.push(c),
{
    s.push(c);
}

/// Character-by-character equality of two string slices.
pub fn str_eq(a: &str, b: &str) -> (r: bool)
    ensures
        r == (a@ == b@),
{
    let alen = a.unicode_len();
    let blen = b.unicode_len();
    if alen != blen {
        return false;
    }
    let mut i: usize = 0;
    while i < alen
        invariant
            alen == a@.len(),
            blen == b@.len(),
            alen == blen,
            i <= alen,
            forall|j: int| 0 <= j < i ==> a@[j] == b@[j],
        decreases alen - i,
    {
        if a.get_char(i) != b.get_char(i) {
            return false;
        }
        i += 1;
    }
    proof {
        assert(a@ =~= b@);
    }
    true
}

/// The character for one decimal digit.
pub open spec fn dec_digit(d: int) -> char {
    if d == 0 {
        '0'
    } else if d == 1 {
        '1'
    } else if d == 2 {
        '2'
    } else if d == 3 {
        '3'
    } else if d == 4 {
        '4'
    } else if d == 5 {
        '5'
    } else if d == 6 {
        '6'
    } else if d == 7 {
        '7'
    } else if d == 8 {
        '8'
    } else {
        '9'
    }
}

/// The decimal representation of a non-negative integer, most significant
/// digit first, with no leading zeros (except for zero itself).
pub open spec fn dec_str(n: int) -> Seq<char>
    decreases n,
{
    if n < 0 {
        Seq::empty()
    } else if n < 10 {
        seq![dec_digit(n)]
    } else {
        dec_str(n / 10).push(dec_digit(n % 10))
    }
}

fn dec_digit_char(d: u32) -> (c: char)
    requires
        d < 10,
    ensures
        c == dec_digit(d as int),
{
    match d {
        0 => '0',
        1 => '1',
        2 => '2',
        3 => '3',
        4 => '4',
        5 => '5',
        6 => '6',
        7 => '7',
        8 => '8',
        _ => '9',
    }
}

/// Formats a number in decimal.
pub fn u32_to_string(n: u32) -> (r: String)
    ensures
        r@ == dec_str(n as int),
{
    let mut s = String::new();
    if n == 0 {
        push_char(&mut s, '0');
        return s;
    }
    let mut digits: Vec<char> = Vec::new();
    let mut m = n;
    while m > 0
        invariant
            m > 0 ==> dec_str(n as int) == dec_str(m as int) + digits@.reverse(),
            m == 0 ==> dec_str(n as int) == digits@.reverse(),
        decreases m,
    {
        let d = dec_digit_char(m % 10);
        let ghost old_digits = digits@;
        digits.push(d);
        proof {
            assert(digits@.reverse() =~= seq![d] + old_digits.reverse());
            if m / 10 > 0 {
                assert(dec_str(m as int) == dec_str(m as int / 10).push(dec_digit(m as int % 10)));
                assert(dec_str((m / 10) as int) + digits@.reverse() =~= dec_str(m as int)
                    + old_digits.reverse());
            } else {
                assert(dec_str(m as int) =~= seq![d]);
                assert(digits@.reverse() =~= dec_str(m as int) + old_digits.reverse());
            }
        }
        m = m / 10;
    }
    let mut i = digits.len();
    while i > 0
        invariant
            i <= digits.len(),
            s@.len() == digits@.len() - i,
            forall|k: int| 0 <= k < s@.len() ==> s@[k] == digits@[digits@.len() - 1 - k],
        decreases i,
    {
        i -= 1;
        push_char(&mut s, digits[i]);
    }
    proof {
        assert(s@ =~= digits@.reverse());
    }
    s
}

} // verus!
