//! The grammar and the builders never disagree: every tree the parser can
//! produce has the shapes the builders expect. The two conditions parsing
//! alone cannot guarantee are isolated in [`build_ready`]: every numeric
//! literal's value fits a signed 32-bit integer, and no start directive
//! occurs (the one statement form the internal representation does not
//! model). A well-formed token sequence, a successful parse and
//! `build_ready` together establish the precondition of `File::from`.

use crate::lexer::token::{TokenKind, TokenV};
use crate::lexer::wf_token;
use crate::parser::cst::{is_term, term_token, term_v, CstNodeKind, CstV};
use crate::parser::grammar;
use crate::parser::grammar::{PListResultV, PResultV};
use crate::sema::ast::assignment::{buildable_assignment, buildable_assignment_value};
use crate::sema::ast::data_type::buildable_type_directive;
use crate::sema::ast::export_directive::buildable_export_directive;
use crate::sema::ast::file::buildable_file;
use crate::sema::ast::helpers::{lit_value, num_token_ok};
use crate::sema::ast::import_directive::buildable_import_directive;
use crate::sema::ast::instruction::buildable_instruction;
use crate::sema::ast::instruction_arg::buildable_instruction_argument;
use crate::sema::ast::label_directive::buildable_label_directive;
use crate::sema::ast::labels::{
    buildable_label_access, buildable_label_definition, buildable_label_external, buildable_scopes,
};
use crate::sema::ast::macro_arg::buildable_macro_argument;
use crate::sema::ast::macro_call::buildable_macro;
use crate::sema::ast::res_directive::buildable_res_directive;
use crate::sema::ast::statement::buildable_statement;
use vstd::prelude::*;

verus! {

broadcast use vstd::seq::axiom_seq_index_decreases;

/// Every token of the sequence is well formed (as the lexer guarantees).
pub open spec fn wf_tokens(t: Seq<TokenV>) -> bool {
    forall|k: int| 0 <= k < t.len() ==> #[trigger] wf_token(t[k])
}

/// What parsing cannot guarantee about a tree: every numeric literal's
/// value fits a signed 32-bit integer, and no start directive occurs.
pub open spec fn build_ready(n: CstV) -> bool
    decreases n,
{
    &&& (is_term(n) && term_token(n).kind == TokenKind::Number ==> i32::MIN <= lit_value(
        term_token(n).lexeme,
    ) <= i32::MAX)
    &&& n.kind != CstNodeKind::StartDirective
    &&& (forall|k: int| 0 <= k < n.children.len() ==> build_ready(#[trigger] n.children[k]))
}

proof fn lemma_label_definition_ready(t: Seq<TokenV>, i: int, line: nat)
    requires
        wf_tokens(t),
        t.len() <= 0xFFFF_FFFF,
        0 <= i <= t.len(),
    ensures
        grammar::label_definition(t, i, line).result matches PResultV::Matched(n) ==> (build_ready(
            n,
        ) ==> buildable_label_definition(n)),
{
    grammar::lemma_lex_run_end(t, i, ">"@);
}

proof fn lemma_scopes_items_ready(t: Seq<TokenV>, i: int, line: nat)
    requires
        0 <= i <= t.len(),
    ensures
        grammar::scopes_items(t, i, line).result matches PListResultV::Matched(ch) ==> forall|
            k: int,
        |
            0 <= k < ch.len() ==> (#[trigger] ch[k]).kind == CstNodeKind::Scope && ch[k].children.len()
                == 2 && is_term(ch[k].children[0]) && is_term(ch[k].children[1]),
    decreases t.len() - i,
{
    let s = grammar::scope(t, i, line);
    match s.result {
        PResultV::Matched(node) => {
            if i < s.index <= t.len() {
                lemma_scopes_items_ready(t, s.index, s.line);
                match grammar::scopes_items(t, s.index, s.line).result {
                    PListResultV::Matched(rest) => {
                        let ch = seq![node] + rest;
                        assert forall|k: int| 0 <= k < ch.len() implies (#[trigger] ch[k]).kind
                            == CstNodeKind::Scope && ch[k].children.len() == 2 && is_term(
                            ch[k].children[0],
                        ) && is_term(ch[k].children[1]) by {
                            if k == 0 {
                                assert(ch[k] == node);
                            } else {
                                assert(ch[k] == rest[k - 1]);
                            }
                        }
                    },
                    PListResultV::Failed(_) => {},
                }
            } else {
                let ch = seq![node];
                assert(ch[0] == node);
            }
        },
        _ => {},
    }
}

proof fn lemma_scopes_ready(t: Seq<TokenV>, i: int, line: nat)
    requires
        0 <= i <= t.len(),
    ensures
        grammar::scopes(t, i, line).result matches PResultV::Matched(n) ==> buildable_scopes(n),
{
    lemma_scopes_items_ready(t, i, line);
}

proof fn lemma_label_access_ready(t: Seq<TokenV>, i: int, line: nat)
    requires
        wf_tokens(t),
        t.len() <= 0xFFFF_FFFF,
        0 <= i <= t.len(),
    ensures
        grammar::label_access(t, i, line).result matches PResultV::Matched(n) ==> (build_ready(n)
            ==> buildable_label_access(n)),
{
    if grammar::can_pop_lex(t, i, "$"@) {
        grammar::lemma_lex_run_end(t, i + 1, ">"@);
        let e = grammar::asp_end(t, i + 1);
        let l2 = grammar::run_line(t, i + 1, e, t[i].line);
        lemma_scopes_ready(t, e, l2);
    }
    match grammar::label_access(t, i, line).result {
        PResultV::Matched(n) => {
            if build_ready(n) {
                assert(build_ready(n.children[2]));
            }
        },
        _ => {},
    }
}

proof fn lemma_label_external_ready(t: Seq<TokenV>, i: int, line: nat)
    requires
        wf_tokens(t),
        0 <= i <= t.len(),
    ensures
        grammar::label_external(t, i, line).result matches PResultV::Matched(n) ==> (build_ready(n)
            ==> buildable_label_external(n)),
{
    if grammar::can_pop_lex(t, i, "("@) {
        lemma_scopes_ready(t, i + 1, t[i].line);
    }
}

proof fn lemma_type_directive_bounds(t: Seq<TokenV>, i: int, line: nat)
    requires
        0 <= i <= t.len(),
    ensures
        grammar::type_directive(t, i, line).result is Matched ==> 0 <= grammar::type_directive(
            t,
            i,
            line,
        ).index <= t.len(),
    decreases t.len() - i, 1int,
{
    let b = grammar::byte_directive(t, i, line);
    let bs = grammar::bytes_directive(t, i, line);
    if b.result is NotPresent && bs.result is NotPresent {
        lemma_arr_directive_bounds(t, i, line);
    }
}

proof fn lemma_arr_directive_bounds(t: Seq<TokenV>, i: int, line: nat)
    requires
        0 <= i <= t.len(),
    ensures
        grammar::arr_directive(t, i, line).result is Matched ==> 0 <= grammar::arr_directive(
            t,
            i,
            line,
        ).index <= t.len(),
    decreases t.len() - i, 0int,
{
    if grammar::can_pop_lex(t, i, ".arr"@) && grammar::can_pop_kind(t, i + 1, TokenKind::Number) {
        lemma_type_directive_bounds(t, i + 2, t[i + 1].line);
    }
}

proof fn lemma_type_directive_ready(t: Seq<TokenV>, i: int, line: nat)
    requires
        wf_tokens(t),
        0 <= i <= t.len(),
    ensures
        grammar::type_directive(t, i, line).result matches PResultV::Matched(n) ==> (build_ready(n)
            ==> buildable_type_directive(n)),
    decreases t.len() - i, 1int,
{
    let b = grammar::byte_directive(t, i, line);
    let bs = grammar::bytes_directive(t, i, line);
    if b.result is NotPresent && bs.result is NotPresent {
        lemma_arr_directive_ready(t, i, line);
    }
    match grammar::type_directive(t, i, line).result {
        PResultV::Matched(n) => {
            if build_ready(n) {
                let c = n.children[0];
                assert(build_ready(c));
                if c.kind == CstNodeKind::BytesDirective {
                    assert(grammar::can_pop_kind(t, i + 1, TokenKind::Number));
                    assert(wf_token(t[i + 1]));
                    assert(c.children[1] == term_v(t[i + 1]));
                    assert(build_ready(c.children[1]));
                    assert(num_token_ok(term_token(c.children[1])));
                }
            }
        },
        _ => {},
    }
}

proof fn lemma_arr_directive_ready(t: Seq<TokenV>, i: int, line: nat)
    requires
        wf_tokens(t),
        0 <= i <= t.len(),
    ensures
        grammar::arr_directive(t, i, line).result matches PResultV::Matched(n) ==> (build_ready(n)
            ==> (n.kind == CstNodeKind::ArrDirective && n.children.len() == 3 && is_term(
            n.children[1],
        ) && num_token_ok(term_token(n.children[1])) && buildable_type_directive(n.children[2]))),
    decreases t.len() - i, 0int,
{
    if grammar::can_pop_lex(t, i, ".arr"@) && grammar::can_pop_kind(t, i + 1, TokenKind::Number) {
        assert(wf_token(t[i + 1]));
        let l2 = t[i + 1].line;
        lemma_type_directive_ready(t, i + 2, l2);
        match grammar::arr_directive(t, i, line).result {
            PResultV::Matched(n) => {
                if build_ready(n) {
                    assert(n.children[1] == term_v(t[i + 1]));
                    assert(build_ready(n.children[1]));
                    assert(num_token_ok(term_token(n.children[1])));
                    assert(build_ready(n.children[2]));
                }
            },
            _ => {},
        }
    }
}

proof fn lemma_assignment_ready(t: Seq<TokenV>, i: int, line: nat)
    requires
        wf_tokens(t),
        0 <= i <= t.len(),
    ensures
        grammar::assignment(t, i, line).result matches PResultV::Matched(n) ==> (build_ready(n)
            ==> buildable_assignment(n)),
    decreases t.len() - i, 0int,
{
    if grammar::can_pop_lex(t, i, "{"@) {
        let l1 = t[i].line;
        lemma_assignment_values_ready(t, i + 1, l1);
        let vals = grammar::assignment_values(t, i + 1, l1);
        match (grammar::assignment(t, i, line).result, vals.result) {
            (PResultV::Matched(n), PListResultV::Matched(ch)) => {
                if build_ready(n) {
                    let vnode = n.children[1];
                    assert(vnode.children == ch);
                    assert(build_ready(vnode));
                    assert forall|k: int| 0 <= k < vnode.children.len() implies
                        buildable_assignment_value(#[trigger] vnode.children[k]) by {
                        assert(build_ready(vnode.children[k]));
                        assert(vnode.children[k] == ch[k]);
                    }
                    if n.children.len() == 4 {
                        let rep = n.children[3];
                        assert(build_ready(rep));
                        if rep.children.len() == 2 {
                            assert(grammar::can_pop_kind(t, vals.index + 2, TokenKind::Number));
                            assert(wf_token(t[vals.index + 2]));
                            assert(rep.children[1] == term_v(t[vals.index + 2]));
                            assert(build_ready(rep.children[1]));
                            assert(num_token_ok(term_token(rep.children[1])));
                        }
                    }
                }
            },
            _ => {},
        }
    }
}

proof fn lemma_assignment_value_ready(t: Seq<TokenV>, i: int, line: nat)
    requires
        wf_tokens(t),
        0 <= i <= t.len(),
    ensures
        grammar::assignment_value(t, i, line).result matches PResultV::Matched(n) ==> (build_ready(
            n,
        ) ==> buildable_assignment_value(n)),
    decreases t.len() - i, 1int,
{
    lemma_assignment_ready(t, i, line);
    match grammar::assignment_value(t, i, line).result {
        PResultV::Matched(n) => {
            if build_ready(n) {
                let c = n.children[0];
                assert(build_ready(c));
                let a = grammar::assignment(t, i, line);
                match a.result {
                    PResultV::NotPresent => {
                        assert(0 <= i < t.len());
                        assert(wf_token(t[i]));
                        assert(c == term_v(t[i]));
                        if t[i].kind == TokenKind::Number {
                            assert(num_token_ok(term_token(c)));
                        }
                    },
                    _ => {},
                }
            }
        },
        _ => {},
    }
}

proof fn lemma_assignment_values_ready(t: Seq<TokenV>, i: int, line: nat)
    requires
        wf_tokens(t),
        0 <= i <= t.len(),
    ensures
        grammar::assignment_values(t, i, line).result matches PListResultV::Matched(ch) ==> forall|
            k: int,
        | 0 <= k < ch.len() ==> (build_ready(#[trigger] ch[k]) ==> buildable_assignment_value(ch[k])),
    decreases t.len() - i, 2int,
{
    lemma_assignment_value_ready(t, i, line);
    let v = grammar::assignment_value(t, i, line);
    match v.result {
        PResultV::Matched(n) => {
            if i < v.index <= t.len() {
                lemma_assignment_values_ready(t, v.index, v.line);
                match grammar::assignment_values(t, v.index, v.line).result {
                    PListResultV::Matched(rest) => {
                        let ch = seq![n] + rest;
                        assert forall|k: int|
                            0 <= k < ch.len() && build_ready(#[trigger] ch[k]) implies
                            buildable_assignment_value(ch[k]) by {
                            if k == 0 {
                                assert(ch[k] == n);
                            } else {
                                assert(ch[k] == rest[k - 1]);
                            }
                        }
                    },
                    PListResultV::Failed(_) => {},
                }
            } else {
                let ch = seq![n];
                assert(ch[0] == n);
            }
        },
        _ => {},
    }
}

proof fn lemma_instruction_argument_ready(t: Seq<TokenV>, i: int, line: nat)
    requires
        wf_tokens(t),
        0 <= i <= t.len(),
    ensures
        grammar::instruction_argument(t, i, line).result matches PResultV::Matched(n) ==> (
        build_ready(n) ==> buildable_instruction_argument(n)),
{
    match grammar::instruction_argument(t, i, line).result {
        PResultV::Matched(n) => {
            if build_ready(n) {
                assert(0 <= i < t.len());
                assert(wf_token(t[i]));
                let c = n.children[0];
                assert(c == term_v(t[i]));
                assert(build_ready(c));
                if t[i].kind == TokenKind::Number {
                    assert(num_token_ok(term_token(c)));
                }
            }
        },
        _ => {},
    }
}

proof fn lemma_instruction_args_ready(t: Seq<TokenV>, i: int, line: nat)
    requires
        wf_tokens(t),
        0 <= i <= t.len(),
    ensures
        grammar::instruction_args_items(t, i, line).result matches PListResultV::Matched(ch)
            ==> forall|k: int|
            0 <= k < ch.len() ==> (build_ready(#[trigger] ch[k])
                ==> buildable_instruction_argument(ch[k])),
    decreases t.len() - i,
{
    lemma_instruction_argument_ready(t, i, line);
    let s = grammar::instruction_argument(t, i, line);
    match s.result {
        PResultV::Matched(n) => {
            if i < s.index <= t.len() {
                lemma_instruction_args_ready(t, s.index, s.line);
                match grammar::instruction_args_items(t, s.index, s.line).result {
                    PListResultV::Matched(rest) => {
                        let ch = seq![n] + rest;
                        assert forall|k: int|
                            0 <= k < ch.len() && build_ready(#[trigger] ch[k]) implies
                            buildable_instruction_argument(ch[k]) by {
                            if k == 0 {
                                assert(ch[k] == n);
                            } else {
                                assert(ch[k] == rest[k - 1]);
                            }
                        }
                    },
                    PListResultV::Failed(_) => {},
                }
            } else {
                let ch = seq![n];
                assert(ch[0] == n);
            }
        },
        _ => {},
    }
}

proof fn lemma_instruction_ready(t: Seq<TokenV>, i: int, line: nat)
    requires
        wf_tokens(t),
        0 <= i <= t.len(),
    ensures
        grammar::instruction(t, i, line).result matches PResultV::Matched(n) ==> (build_ready(n)
            ==> buildable_instruction(n)),
{
    if grammar::can_pop_kind(t, i, TokenKind::Instruction) {
        let l1 = t[i].line;
        let cc = grammar::condition_code(t, i + 1, l1);
        let args = match cc.result {
            PResultV::Matched(_) => grammar::instruction_args_items(t, cc.index, cc.line),
            _ => grammar::instruction_args_items(t, i + 1, l1),
        };
        match cc.result {
            PResultV::Matched(_) => {
                lemma_instruction_args_ready(t, cc.index, cc.line);
            },
            PResultV::NotPresent => {
                lemma_instruction_args_ready(t, i + 1, l1);
            },
            PResultV::Failed(_) => {},
        }
        match (grammar::instruction(t, i, line).result, args.result) {
            (PResultV::Matched(n), PListResultV::Matched(ch)) => {
                if build_ready(n) {
                    let args_node = n.children[n.children.len() - 1];
                    assert(args_node.children == ch);
                    assert(build_ready(args_node));
                    assert forall|k: int| 0 <= k < args_node.children.len() implies
                        buildable_instruction_argument(#[trigger] args_node.children[k]) by {
                        assert(build_ready(args_node.children[k]));
                        assert(args_node.children[k] == ch[k]);
                    }
                }
            },
            _ => {},
        }
    }
}

proof fn lemma_macro_argument_ready(t: Seq<TokenV>, i: int, line: nat)
    requires
        wf_tokens(t),
        t.len() <= 0xFFFF_FFFF,
        0 <= i <= t.len(),
    ensures
        grammar::macro_argument(t, i, line).result matches PResultV::Matched(n) ==> (build_ready(n)
            ==> buildable_macro_argument(n)),
{
    lemma_label_access_ready(t, i, line);
    match grammar::macro_argument(t, i, line).result {
        PResultV::Matched(n) => {
            if build_ready(n) {
                let c = n.children[0];
                assert(build_ready(c));
                let la = grammar::label_access(t, i, line);
                match la.result {
                    PResultV::NotPresent => {
                        assert(0 <= i < t.len());
                        assert(wf_token(t[i]));
                        assert(c == term_v(t[i]));
                        if t[i].kind == TokenKind::Number {
                            assert(num_token_ok(term_token(c)));
                        }
                    },
                    _ => {},
                }
            }
        },
        _ => {},
    }
}

proof fn lemma_macro_args_ready(t: Seq<TokenV>, i: int, line: nat)
    requires
        wf_tokens(t),
        t.len() <= 0xFFFF_FFFF,
        0 <= i <= t.len(),
    ensures
        grammar::macro_args_items(t, i, line).result matches PListResultV::Matched(ch) ==> forall|
            k: int,
        | 0 <= k < ch.len() ==> (build_ready(#[trigger] ch[k]) ==> buildable_macro_argument(ch[k])),
    decreases t.len() - i,
{
    lemma_macro_argument_ready(t, i, line);
    let s = grammar::macro_argument(t, i, line);
    match s.result {
        PResultV::Matched(n) => {
            if i < s.index <= t.len() {
                lemma_macro_args_ready(t, s.index, s.line);
                match grammar::macro_args_items(t, s.index, s.line).result {
                    PListResultV::Matched(rest) => {
                        let ch = seq![n] + rest;
                        assert forall|k: int|
                            0 <= k < ch.len() && build_ready(#[trigger] ch[k]) implies
                            buildable_macro_argument(ch[k]) by {
                            if k == 0 {
                                assert(ch[k] == n);
                            } else {
                                assert(ch[k] == rest[k - 1]);
                            }
                        }
                    },
                    PListResultV::Failed(_) => {},
                }
            } else {
                let ch = seq![n];
                assert(ch[0] == n);
            }
        },
        _ => {},
    }
}

proof fn lemma_macro_ready(t: Seq<TokenV>, i: int, line: nat)
    requires
        wf_tokens(t),
        t.len() <= 0xFFFF_FFFF,
        0 <= i <= t.len(),
    ensures
        grammar::macro_call(t, i, line).result matches PResultV::Matched(n) ==> (build_ready(n)
            ==> buildable_macro(n)),
{
    if grammar::can_pop_kind(t, i, TokenKind::Macro) {
        let l1 = t[i].line;
        let cc = grammar::condition_code(t, i + 1, l1);
        let args = match cc.result {
            PResultV::Matched(_) => grammar::macro_args_items(t, cc.index, cc.line),
            _ => grammar::macro_args_items(t, i + 1, l1),
        };
        match cc.result {
            PResultV::Matched(_) => {
                lemma_macro_args_ready(t, cc.index, cc.line);
            },
            PResultV::NotPresent => {
                lemma_macro_args_ready(t, i + 1, l1);
            },
            PResultV::Failed(_) => {},
        }
        match (grammar::macro_call(t, i, line).result, args.result) {
            (PResultV::Matched(n), PListResultV::Matched(ch)) => {
                if build_ready(n) {
                    let args_node = n.children[n.children.len() - 1];
                    assert(args_node.children == ch);
                    assert(build_ready(args_node));
                    assert forall|k: int| 0 <= k < args_node.children.len() implies
                        buildable_macro_argument(#[trigger] args_node.children[k]) by {
                        assert(build_ready(args_node.children[k]));
                        assert(args_node.children[k] == ch[k]);
                    }
                }
            },
            _ => {},
        }
    }
}

proof fn lemma_res_ready(t: Seq<TokenV>, i: int, line: nat)
    requires
        wf_tokens(t),
        t.len() <= 0xFFFF_FFFF,
        0 <= i <= t.len(),
    ensures
        grammar::res_directive(t, i, line).result matches PResultV::Matched(n) ==> (build_ready(n)
            ==> buildable_res_directive(n)),
{
    if grammar::can_pop_lex(t, i, ".res"@) {
        let l1 = t[i].line;
        lemma_label_definition_ready(t, i + 1, l1);
        let ld = grammar::label_definition(t, i + 1, l1);
        match ld.result {
            PResultV::Matched(_) => {
                lemma_type_directive_ready(t, ld.index, ld.line);
                lemma_type_directive_bounds(t, ld.index, ld.line);
                let td = grammar::type_directive(t, ld.index, ld.line);
                match td.result {
                    PResultV::Matched(_) => {
                        if 0 <= td.index <= t.len() {
                            lemma_assignment_ready(t, td.index, td.line);
                        }
                    },
                    _ => {},
                }
            },
            _ => {},
        }
    }
    match grammar::res_directive(t, i, line).result {
        PResultV::Matched(n) => {
            if build_ready(n) {
                assert(build_ready(n.children[1]));
                assert(build_ready(n.children[2]));
                if n.children.len() == 4 {
                    assert(build_ready(n.children[3]));
                }
            }
        },
        _ => {},
    }
}

proof fn lemma_import_ready(t: Seq<TokenV>, i: int, line: nat)
    requires
        wf_tokens(t),
        t.len() <= 0xFFFF_FFFF,
        0 <= i <= t.len(),
    ensures
        grammar::import_directive(t, i, line).result matches PResultV::Matched(n) ==> (build_ready(
            n,
        ) ==> buildable_import_directive(n)),
{
    if grammar::can_pop_lex(t, i, ".import"@) {
        let l1 = t[i].line;
        lemma_label_definition_ready(t, i + 1, l1);
        let ld = grammar::label_definition(t, i + 1, l1);
        match ld.result {
            PResultV::Matched(_) => {
                lemma_label_external_ready(t, ld.index, ld.line);
            },
            _ => {},
        }
    }
    match grammar::import_directive(t, i, line).result {
        PResultV::Matched(n) => {
            if build_ready(n) {
                assert(build_ready(n.children[1]));
                assert(build_ready(n.children[2]));
            }
        },
        _ => {},
    }
}

proof fn lemma_export_ready(t: Seq<TokenV>, i: int, line: nat)
    requires
        wf_tokens(t),
        t.len() <= 0xFFFF_FFFF,
        0 <= i <= t.len(),
    ensures
        grammar::export_directive(t, i, line).result matches PResultV::Matched(n) ==> (build_ready(
            n,
        ) ==> buildable_export_directive(n)),
{
    if grammar::can_pop_lex(t, i, ".export"@) {
        let l1 = t[i].line;
        lemma_label_access_ready(t, i + 1, l1);
        let la = grammar::label_access(t, i + 1, l1);
        match la.result {
            PResultV::Matched(_) => {
                lemma_label_external_ready(t, la.index, la.line);
            },
            _ => {},
        }
    }
    match grammar::export_directive(t, i, line).result {
        PResultV::Matched(n) => {
            if build_ready(n) {
                assert(build_ready(n.children[1]));
                assert(build_ready(n.children[2]));
            }
        },
        _ => {},
    }
}

proof fn lemma_label_directive_ready(t: Seq<TokenV>, i: int, line: nat)
    requires
        wf_tokens(t),
        t.len() <= 0xFFFF_FFFF,
        0 <= i <= t.len(),
    ensures
        grammar::label_directive(t, i, line).result matches PResultV::Matched(n) ==> (build_ready(
            n,
        ) ==> buildable_label_directive(n)),
{
    lemma_label_definition_ready(t, i, line);
    match grammar::label_directive(t, i, line).result {
        PResultV::Matched(n) => {
            if build_ready(n) {
                assert(build_ready(n.children[0]));
            }
        },
        _ => {},
    }
}

proof fn lemma_statement_ready(t: Seq<TokenV>, i: int, line: nat)
    requires
        wf_tokens(t),
        t.len() <= 0xFFFF_FFFF,
        0 <= i <= t.len(),
    ensures
        grammar::statement(t, i, line).result matches PResultV::Matched(n) ==> (build_ready(n)
            ==> buildable_statement(n)),
{
    grammar::lemma_lex_run_end(t, i, "\n"@);
    let e = grammar::lex_run_end(t, i, "\n"@);
    let l1 = grammar::run_line(t, i, e, line);
    lemma_res_ready(t, e, l1);
    lemma_import_ready(t, e, l1);
    lemma_export_ready(t, e, l1);
    lemma_label_directive_ready(t, e, l1);
    lemma_instruction_ready(t, e, l1);
    lemma_macro_ready(t, e, l1);
    let s = grammar::statement_body(t, e, l1);
    match s.result {
        PResultV::Matched(child) => {
            match grammar::statement(t, i, line).result {
                PResultV::Matched(n) => {
                    if build_ready(n) {
                        assert(n.children[0] == child);
                        assert(build_ready(child));
                    }
                },
                _ => {},
            }
        },
        _ => {},
    }
}

proof fn lemma_statements_items_ready(t: Seq<TokenV>, i: int, line: nat)
    requires
        wf_tokens(t),
        t.len() <= 0xFFFF_FFFF,
        0 <= i <= t.len(),
    ensures
        grammar::statements_items(t, i, line).result matches PListResultV::Matched(ch) ==> forall|
            k: int,
        | 0 <= k < ch.len() ==> (build_ready(#[trigger] ch[k]) ==> buildable_statement(ch[k])),
    decreases t.len() - i,
{
    lemma_statement_ready(t, i, line);
    let s = grammar::statement(t, i, line);
    match s.result {
        PResultV::Matched(n) => {
            if i < s.index <= t.len() {
                lemma_statements_items_ready(t, s.index, s.line);
                match grammar::statements_items(t, s.index, s.line).result {
                    PListResultV::Matched(rest) => {
                        let ch = seq![n] + rest;
                        assert forall|k: int|
                            0 <= k < ch.len() && build_ready(#[trigger] ch[k]) implies
                            buildable_statement(ch[k]) by {
                            if k == 0 {
                                assert(ch[k] == n);
                            } else {
                                assert(ch[k] == rest[k - 1]);
                            }
                        }
                    },
                    PListResultV::Failed(_) => {},
                }
            } else {
                let ch = seq![n];
                assert(ch[0] == n);
            }
        },
        _ => {},
    }
}

/// Law: a tree produced by parsing a well-formed token sequence satisfies
/// the builders' precondition, provided every numeric literal in it fits a
/// signed 32-bit integer and no start directive occurs.
pub proof fn lemma_parse_output_buildable(t: Seq<TokenV>)
    requires
        wf_tokens(t),
        t.len() <= 0xFFFF_FFFF,
    ensures
        grammar::spec_parse(t).result matches PResultV::Matched(n) ==> (build_ready(n)
            ==> buildable_file(n)),
{
    lemma_statements_items_ready(t, 0, 1);
    let sts = grammar::statements_items(t, 0, 1);
    match sts.result {
        PListResultV::Matched(ch) => {
            match grammar::spec_parse(t).result {
                PResultV::Matched(n) => {
                    if build_ready(n) {
                        let snode = n.children[0];
                        assert forall|k: int| 0 <= k < snode.children.len() implies
                            buildable_statement(#[trigger] snode.children[k]) by {
                            assert(build_ready(snode));
                            assert(build_ready(snode.children[k]));
                            assert(snode.children[k] == ch[k]);
                        }
                    }
                },
                _ => {},
            }
        },
        PListResultV::Failed(_) => {},
    }
}

/// Law: the whole front end agrees with itself. Whatever tree comes out of
/// lexing a source text and parsing the resulting tokens satisfies the
/// builders' precondition, provided its numeric literals fit a signed
/// 32-bit integer and no start directive occurs.
pub proof fn lemma_pipeline_buildable(src: Seq<char>)
    requires
        src.len() < 0xFFFF_FFFF,
    ensures
        crate::lexer::spec_tokenise(src) matches Ok(ts) ==> (grammar::spec_parse(
            crate::lexer::lexed_tokens(ts),
        ).result matches PResultV::Matched(n) ==> (build_ready(n) ==> buildable_file(n))),
{
    crate::lexer::lemma_tokenise_wf(src);
    crate::lexer::lemma_lex_from_count(src, 0, 1);
    match crate::lexer::spec_tokenise(src) {
        Ok(ts) => {
            let t = crate::lexer::lexed_tokens(ts);
            assert(t.len() == ts.len());
            assert forall|k: int| 0 <= k < t.len() implies #[trigger] wf_token(t[k]) by {
                assert(wf_token(ts[k].token));
                assert(t[k] == ts[k].token);
            }
            lemma_parse_output_buildable(t);
        },
        Err(_) => {},
    }
}

} // verus!
