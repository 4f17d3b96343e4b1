//! The fixed name tables the lexer consults to classify word tokens:
//! instruction mnemonics, register names, long (paired) register names,
//! system register names, port names, condition codes, macro names and
//! directive names.

use crate::text::str_eq;
use vstd::prelude::*;

verus! {

pub open spec fn spec_is_instruction_name(s: Seq<char>) -> bool {
    ||| s == "nop"@
    ||| s == "mov"@
    ||| s == "add"@
    ||| s == "sub"@
    ||| s == "and"@
    ||| s == "or"@
    ||| s == "xor"@
    ||| s == "shl"@
    ||| s == "shr"@
    ||| s == "cmp"@
    ||| s == "jmp"@
    ||| s == "call"@
    ||| s == "ret"@
    ||| s == "hlt"@
}

pub fn is_instruction_name(s: &str) -> (r: bool)
    ensures
        r == spec_is_instruction_name(s@),
{
    str_eq(s, "nop") || str_eq(s, "mov") || str_eq(s, "add") || str_eq(s, "sub") || str_eq(
        s,
        "and",
    ) || str_eq(s, "or") || str_eq(s, "xor") || str_eq(s, "shl") || str_eq(s, "shr") || str_eq(
        s,
        "cmp",
    ) || str_eq(s, "jmp") || str_eq(s, "call") || str_eq(s, "ret") || str_eq(s, "hlt")
}

pub open spec fn spec_is_register_name(s: Seq<char>) -> bool {
    ||| s == "r0"@
    ||| s == "r1"@
    ||| s == "r2"@
    ||| s == "r3"@
    ||| s == "r4"@
    ||| s == "r5"@
    ||| s == "r6"@
    ||| s == "r7"@
}

pub fn is_register_name(s: &str) -> (r: bool)
    ensures
        r == spec_is_register_name(s@),
{
    str_eq(s, "r0") || str_eq(s, "r1") || str_eq(s, "r2") || str_eq(s, "r3") || str_eq(s, "r4")
        || str_eq(s, "r5") || str_eq(s, "r6") || str_eq(s, "r7")
}

pub open spec fn spec_is_long_register_name(s: Seq<char>) -> bool {
    ||| s == "lr0"@
    ||| s == "lr1"@
    ||| s == "lr2"@
    ||| s == "lr3"@
}

pub fn is_long_register_name(s: &str) -> (r: bool)
    ensures
        r == spec_is_long_register_name(s@),
{
    str_eq(s, "lr0") || str_eq(s, "lr1") || str_eq(s, "lr2") || str_eq(s, "lr3")
}

pub open spec fn spec_is_system_register_name(s: Seq<char>) -> bool {
    ||| s == "sp"@
    ||| s == "pc"@
    ||| s == "sr"@
    ||| s == "iv"@
}

pub fn is_system_register_name(s: &str) -> (r: bool)
    ensures
        r == spec_is_system_register_name(s@),
{
    str_eq(s, "sp") || str_eq(s, "pc") || str_eq(s, "sr") || str_eq(s, "iv")
}

pub open spec fn spec_is_port_name(s: Seq<char>) -> bool {
    ||| s == "p0"@
    ||| s == "p1"@
    ||| s == "p2"@
    ||| s == "p3"@
}

pub fn is_port_name(s: &str) -> (r: bool)
    ensures
        r == spec_is_port_name(s@),
{
    str_eq(s, "p0") || str_eq(s, "p1") || str_eq(s, "p2") || str_eq(s, "p3")
}

pub open spec fn spec_is_condition_code_name(s: Seq<char>) -> bool {
    ||| s == "eq"@
    ||| s == "ne"@
    ||| s == "lt"@
    ||| s == "le"@
    ||| s == "gt"@
    ||| s == "ge"@
    ||| s == "cs"@
    ||| s == "cc"@
}

pub fn is_condition_code_name(s: &str) -> (r: bool)
    ensures
        r == spec_is_condition_code_name(s@),
{
    str_eq(s, "eq") || str_eq(s, "ne") || str_eq(s, "lt") || str_eq(s, "le") || str_eq(s, "gt")
        || str_eq(s, "ge") || str_eq(s, "cs") || str_eq(s, "cc")
}

pub open spec fn spec_is_macro_name(s: Seq<char>) -> bool {
    ||| s == "!dw"@
    ||| s == "!db"@
    ||| s == "!str"@
    ||| s == "!addr"@
}

pub fn is_macro_name(s: &str) -> (r: bool)
    ensures
        r == spec_is_macro_name(s@),
{
    str_eq(s, "!dw") || str_eq(s, "!db") || str_eq(s, "!str") || str_eq(s, "!addr")
}

pub open spec fn spec_is_directive_name(s: Seq<char>) -> bool {
    ||| s == ".res"@
    ||| s == ".byte"@
    ||| s == ".bytes"@
    ||| s == ".arr"@
    ||| s == ".start"@
    ||| s == ".import"@
    ||| s == ".export"@
}

pub fn is_directive_name(s: &str) -> (r: bool)
    ensures
        r == spec_is_directive_name(s@),
{
    str_eq(s, ".res") || str_eq(s, ".byte") || str_eq(s, ".bytes") || str_eq(s, ".arr") || str_eq(
        s,
        ".start",
    ) || str_eq(s, ".import") || str_eq(s, ".export")
}

} // verus!
