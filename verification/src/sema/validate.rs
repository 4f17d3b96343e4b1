//! Runtime validation of a concrete syntax tree against the builder's
//! precondition: the tree has the shapes the builders expect and every
//! numeric literal in it decodes to a signed 32-bit integer. A caller that
//! cannot establish the precondition by proof calls [`file_buildable`]
//! first and treats a `false` answer as the builders' own failure.

use crate::lexer::token::{Token, TokenKind};
use crate::lexer::{spec_is_radix_prefix, spec_is_valid_digit, valid_num_lexeme};
use crate::parser::cst::{CstNode, CstNodeKind};
use crate::sema::ast::assignment::{buildable_assignment, buildable_assignment_value};
use crate::sema::ast::data_type::buildable_type_directive;
use crate::sema::ast::export_directive::buildable_export_directive;
use crate::sema::ast::file::buildable_file;
use crate::sema::ast::helpers::{
    digit_of, digits_value, lemma_digits_value_nonneg, lemma_digits_value_prefix, lit_value,
    num_token_ok, radix_of,
};
use crate::sema::ast::import_directive::buildable_import_directive;
use crate::sema::ast::instruction::buildable_instruction;
use crate::sema::ast::instruction_arg::buildable_instruction_argument;
use crate::sema::ast::label_directive::buildable_label_directive;
use crate::sema::ast::labels::{
    buildable_label_access, buildable_label_definition, buildable_label_external, buildable_scopes,
};
use crate::sema::ast::macro_arg::buildable_macro_argument;
use crate::sema::ast::macro_call::buildable_macro;
use crate::sema::ast::res_directive::buildable_res_directive;
use crate::sema::ast::statement::buildable_statement;
use vstd::prelude::*;
use vstd::string::StrSliceExecFns;

verus! {

fn is_radix_prefix(c: char) -> (r: bool)
    ensures
        r == spec_is_radix_prefix(c),
{
    c == 'b' || c == 'o' || c == 'd' || c == 'x'
}

fn is_valid_digit(radix: char, digit: char) -> (r: bool)
    ensures
        r == spec_is_valid_digit(radix, digit),
{
    let u = digit as u32;
    if radix == 'b' {
        digit == '0' || digit == '1'
    } else if radix == 'o' {
        ('0' as u32) <= u && u <= ('7' as u32)
    } else if radix == 'd' {
        ('0' as u32) <= u && u <= ('9' as u32)
    } else if radix == 'x' {
        (('0' as u32) <= u && u <= ('9' as u32)) || (('a' as u32) <= u && u <= ('f' as u32)) || (
        ('A' as u32) <= u && u <= ('F' as u32))
    } else {
        false
    }
}

/// Whether a token is a numeric token whose lexeme is well formed and
/// whose value fits a signed 32-bit integer.
#[verifier::loop_isolation(false)]
pub fn num_token_ok_check(token: &Token) -> (r: bool)
    ensures
        r == num_token_ok(token@),
{
    if !matches!(token.kind, TokenKind::Number) {
        return false;
    }
    let ghost lex = token@.lexeme;
    let s = token.lexeme.as_str();
    let n = s.unicode_len();
    if n <= 2 {
        return false;
    }
    if s.get_char(0) != '#' {
        return false;
    }
    let radix_char = s.get_char(1);
    if !is_radix_prefix(radix_char) {
        return false;
    }
    let radix = radix_of(radix_char);
    let neg = s.get_char(2) == '-';
    let start: usize = if neg {
        3
    } else {
        2
    };
    if neg && n <= 3 {
        return false;
    }
    let mut i = start;
    while i < n
        invariant
            start <= i <= n,
            forall|k: int| start <= k < i ==> spec_is_valid_digit(lex[1], lex[k]),
        decreases n - i,
    {
        if !is_valid_digit(radix_char, s.get_char(i)) {
            return false;
        }
        i += 1;
    }
    proof {
        assert(valid_num_lexeme(lex));
    }
    let ghost digits = lex.subrange(start as int, n as int);
    let ghost full = digits_value(digits, radix as int);
    proof {
        lemma_digits_value_nonneg(digits, radix as int);
        if neg {
            assert(lit_value(lex) == -full);
        } else {
            assert(lit_value(lex) == full);
        }
    }
    let mut value: i64 = 0;
    let mut j = start;
    proof {
        assert(lex.subrange(start as int, start as int) =~= Seq::<char>::empty());
    }
    while j < n
        invariant
            start <= j <= n,
            value == digits_value(lex.subrange(start as int, j as int), radix as int),
            0 <= value <= 0x1_0000_0000i64,
        decreases n - j,
    {
        let c = s.get_char(j);
        let d = digit_of(c);
        proof {
            let p0 = lex.subrange(start as int, j as int);
            let p1 = lex.subrange(start as int, j + 1);
            assert(p1.drop_last() =~= p0);
            assert(p1.last() == lex[j as int]);
            assert(digits_value(p1, radix as int) == value * (radix as int)
                + crate::sema::ast::helpers::digit_val(lex[j as int]));
            assert(p1 =~= digits.subrange(0, j + 1 - start));
            lemma_digits_value_prefix(digits, radix as int, j + 1 - start);
            lemma_digits_value_nonneg(digits, radix as int);
        }
        value = value * (radix as i64) + (d as i64);
        j += 1;
        if value > 0x8000_0000i64 {
            proof {
                assert(full >= value);
            }
            return false;
        }
    }
    proof {
        assert(lex.subrange(start as int, n as int) =~= digits);
    }
    if neg {
        value <= 0x8000_0000i64
    } else {
        value <= 0x7FFF_FFFFi64
    }
}

fn term_ok(node: &CstNode) -> (r: bool)
    ensures
        r == crate::parser::cst::is_term(node@),
{
    matches!(node.kind, CstNodeKind::Terminal) && node.terminal.is_some()
}

#[verifier::loop_isolation(false)]
fn scopes_buildable(node: &CstNode) -> (r: bool)
    ensures
        r == buildable_scopes(node@),
{
    if !matches!(node.kind, CstNodeKind::Scopes) {
        return false;
    }
    let n = node.children.len();
    let mut i: usize = 0;
    while i < n
        invariant
            i <= n,
            forall|k: int|
                0 <= k < i ==> (#[trigger] node@.children[k]).children.len() >= 1
                    && crate::parser::cst::is_term(node@.children[k].children[0]),
        decreases n - i,
    {
        let sc = node.child(i);
        if sc.children.len() < 1 {
            return false;
        }
        if !term_ok(sc.child(0)) {
            return false;
        }
        i += 1;
    }
    true
}

fn label_definition_buildable(node: &CstNode) -> (r: bool)
    ensures
        r == buildable_label_definition(node@),
{
    matches!(node.kind, CstNodeKind::LabelDefinition) && node.children.len() == 2 && matches!(
        node.child(0).kind,
        CstNodeKind::AutoScopePrefix,
    ) && node.child(0).children.len() <= 0xFFFF_FFFFusize && term_ok(node.child(1))
}

fn label_access_buildable(node: &CstNode) -> (r: bool)
    ensures
        r == buildable_label_access(node@),
{
    matches!(node.kind, CstNodeKind::LabelAccess) && node.children.len() == 4 && matches!(
        node.child(1).kind,
        CstNodeKind::AutoScopePrefix,
    ) && node.child(1).children.len() <= 0xFFFF_FFFFusize && scopes_buildable(node.child(2))
        && term_ok(node.child(3))
}

fn label_external_buildable(node: &CstNode) -> (r: bool)
    ensures
        r == buildable_label_external(node@),
{
    matches!(node.kind, CstNodeKind::LabelExternal) && node.children.len() == 4 && scopes_buildable(
        node.child(1),
    ) && term_ok(node.child(2))
}

fn type_directive_buildable(node: &CstNode) -> (r: bool)
    ensures
        r == buildable_type_directive(node@),
    decreases node@,
{
    if !matches!(node.kind, CstNodeKind::TypeDirective) || node.children.len() != 1 {
        return false;
    }
    let c = node.child(0);
    match c.kind {
        CstNodeKind::ByteDirective => true,
        CstNodeKind::BytesDirective => c.children.len() == 2 && term_ok(c.child(1))
            && num_token_ok_check(c.child(1).terminal_token()),
        CstNodeKind::ArrDirective => c.children.len() == 3 && term_ok(c.child(1))
            && num_token_ok_check(c.child(1).terminal_token()) && type_directive_buildable(
            c.child(2),
        ),
        _ => false,
    }
}

#[verifier::loop_isolation(false)]
fn assignment_buildable(node: &CstNode) -> (r: bool)
    ensures
        r == buildable_assignment(node@),
    decreases node@, 1int,
{
    if !matches!(node.kind, CstNodeKind::Assignment) {
        return false;
    }
    if !(node.children.len() == 3 || node.children.len() == 4) {
        return false;
    }
    if !matches!(node.child(1).kind, CstNodeKind::AssignmentValues) {
        return false;
    }
    let vals = node.child(1);
    let n = vals.children.len();
    let mut i: usize = 0;
    while i < n
        invariant
            i <= n,
            forall|k: int|
                0 <= k < i ==> buildable_assignment_value(#[trigger] vals@.children[k]),
        decreases n - i,
    {
        proof {
            let s0 = crate::parser::cst::cst_seq_view(vals.children@);
            assert(decreases_to!(node@ => node@.children));
            assert(decreases_to!(node@.children => node@.children[1]));
            assert(decreases_to!(vals@ => vals@.children));
            assert(decreases_to!(vals@.children => vals@.children[i as int]));
        }
        if !assignment_value_buildable(vals.child(i)) {
            return false;
        }
        i += 1;
    }
    if node.children.len() == 4 {
        let rep = node.child(3);
        if !matches!(rep.kind, CstNodeKind::AssignmentRepetition) {
            return false;
        }
        if !(rep.children.len() == 1 || rep.children.len() == 2) {
            return false;
        }
        if rep.children.len() == 2 {
            if !(term_ok(rep.child(1)) && num_token_ok_check(rep.child(1).terminal_token())) {
                return false;
            }
        }
    }
    true
}

fn assignment_value_buildable(node: &CstNode) -> (r: bool)
    ensures
        r == buildable_assignment_value(node@),
    decreases node@, 0int,
{
    if !matches!(node.kind, CstNodeKind::AssignmentValue) || node.children.len() != 1 {
        return false;
    }
    let c = node.child(0);
    if matches!(c.kind, CstNodeKind::Assignment) {
        assignment_buildable(c)
    } else {
        if !term_ok(c) {
            return false;
        }
        let t = c.terminal_token();
        if matches!(t.kind, TokenKind::Number) {
            num_token_ok_check(t)
        } else {
            matches!(t.kind, TokenKind::String) && t.lexeme.unicode_len() >= 2
        }
    }
}

#[verifier::loop_isolation(false)]
fn instruction_buildable(node: &CstNode) -> (r: bool)
    ensures
        r == buildable_instruction(node@),
{
    if !matches!(node.kind, CstNodeKind::Instruction) {
        return false;
    }
    if !(node.children.len() == 2 || node.children.len() == 3) {
        return false;
    }
    if !term_ok(node.child(0)) {
        return false;
    }
    if node.children.len() == 3 {
        let cc = node.child(1);
        if !(matches!(cc.kind, CstNodeKind::ConditionCode) && cc.children.len() == 2 && term_ok(
            cc.child(1),
        )) {
            return false;
        }
    }
    let args = node.child(node.children.len() - 1);
    if !matches!(args.kind, CstNodeKind::InstructionArguments) {
        return false;
    }
    let n = args.children.len();
    let mut i: usize = 0;
    while i < n
        invariant
            i <= n,
            forall|k: int|
                0 <= k < i ==> buildable_instruction_argument(#[trigger] args@.children[k]),
        decreases n - i,
    {
        if !instruction_argument_buildable(args.child(i)) {
            return false;
        }
        i += 1;
    }
    true
}

fn instruction_argument_buildable(node: &CstNode) -> (r: bool)
    ensures
        r == buildable_instruction_argument(node@),
{
    if !matches!(node.kind, CstNodeKind::InstructionArgument) || node.children.len() != 1 {
        return false;
    }
    if !term_ok(node.child(0)) {
        return false;
    }
    let t = node.child(0).terminal_token();
    match t.kind {
        TokenKind::Register => true,
        TokenKind::SystemRegister => true,
        TokenKind::Port => true,
        TokenKind::Number => num_token_ok_check(t),
        TokenKind::String => t.lexeme.unicode_len() >= 2,
        TokenKind::LongRegister => true,
        _ => false,
    }
}

#[verifier::loop_isolation(false)]
fn macro_buildable(node: &CstNode) -> (r: bool)
    ensures
        r == buildable_macro(node@),
{
    if !matches!(node.kind, CstNodeKind::Macro) {
        return false;
    }
    if !(node.children.len() == 2 || node.children.len() == 3) {
        return false;
    }
    if !term_ok(node.child(0)) {
        return false;
    }
    if node.children.len() == 3 {
        let cc = node.child(1);
        if !(matches!(cc.kind, CstNodeKind::ConditionCode) && cc.children.len() == 2 && term_ok(
            cc.child(1),
        )) {
            return false;
        }
    }
    let args = node.child(node.children.len() - 1);
    if !matches!(args.kind, CstNodeKind::MacroArguments) {
        return false;
    }
    let n = args.children.len();
    let mut i: usize = 0;
    while i < n
        invariant
            i <= n,
            forall|k: int| 0 <= k < i ==> buildable_macro_argument(#[trigger] args@.children[k]),
        decreases n - i,
    {
        if !macro_argument_buildable(args.child(i)) {
            return false;
        }
        i += 1;
    }
    true
}

fn macro_argument_buildable(node: &CstNode) -> (r: bool)
    ensures
        r == buildable_macro_argument(node@),
{
    if !matches!(node.kind, CstNodeKind::MacroArgument) || node.children.len() != 1 {
        return false;
    }
    let c = node.child(0);
    if matches!(c.kind, CstNodeKind::LabelAccess) {
        label_access_buildable(c)
    } else {
        if !term_ok(c) {
            return false;
        }
        let t = c.terminal_token();
        match t.kind {
            TokenKind::Register => true,
            TokenKind::Number => num_token_ok_check(t),
            TokenKind::LongRegister => true,
            _ => false,
        }
    }
}

fn statement_buildable(node: &CstNode) -> (r: bool)
    ensures
        r == buildable_statement(node@),
{
    if !matches!(node.kind, CstNodeKind::Statement) || node.children.len() != 1 {
        return false;
    }
    let c = node.child(0);
    match c.kind {
        CstNodeKind::ImportDirective => matches!(c.kind, CstNodeKind::ImportDirective)
            && c.children.len() == 3 && term_ok(c.child(0)) && label_definition_buildable(
            c.child(1),
        ) && label_external_buildable(c.child(2)),
        CstNodeKind::ExportDirective => c.children.len() == 3 && term_ok(c.child(0))
            && label_access_buildable(c.child(1)) && label_external_buildable(c.child(2)),
        CstNodeKind::ResDirective => (c.children.len() == 3 || c.children.len() == 4) && term_ok(
            c.child(0),
        ) && label_definition_buildable(c.child(1)) && type_directive_buildable(c.child(2)) && (
        c.children.len() != 4 || assignment_buildable(c.child(3))),
        CstNodeKind::LabelDirective => c.children.len() == 2 && label_definition_buildable(
            c.child(0),
        ) && term_ok(c.child(1)),
        CstNodeKind::Instruction => instruction_buildable(c),
        CstNodeKind::Macro => macro_buildable(c),
        _ => false,
    }
}

/// Whether a tree satisfies the builder's precondition; `File::from` is
/// safe to call exactly when this returns true.
#[verifier::loop_isolation(false)]
pub fn file_buildable(node: &CstNode) -> (r: bool)
    ensures
        r == buildable_file(node@),
{
    if !matches!(node.kind, CstNodeKind::File) || node.children.len() < 1 {
        return false;
    }
    let stmts = node.child(0);
    let n = stmts.children.len();
    let mut i: usize = 0;
    while i < n
        invariant
            i <= n,
            forall|k: int| 0 <= k < i ==> buildable_statement(#[trigger] stmts@.children[k]),
        decreases n - i,
    {
        if !statement_buildable(stmts.child(i)) {
            return false;
        }
        i += 1;
    }
    true
}

} // verus!
