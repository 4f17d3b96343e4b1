//! The grammar, as specification functions: one function per rule, each
//! mapping the token sequence, a position and the current line to a
//! three-way outcome (matched node, not present, or failed), the position
//! after the rule, and the line after the rule. The executable parser is
//! proved to return exactly what these functions say, so parsing is a
//! mathematical function of the token sequence.

use crate::lexer::token::{TokenKind, TokenV};
use crate::parser::cst::{term_v, CstNodeKind, CstV};
use crate::parser::parser_error::ParserErrorV;
use vstd::prelude::*;

verus! {

/// The outcome of one rule in the model.
pub enum PResultV {
    Matched(CstV),
    NotPresent,
    Failed(ParserErrorV),
}

/// One rule's outcome together with the position and line after it.
pub struct PStep {
    pub result: PResultV,
    pub index: int,
    pub line: nat,
}

/// The outcome of a starred (zero-or-more) rule: the children matched so
/// far, or the failure that aborted the repetition.
pub enum PListResultV {
    Matched(Seq<CstV>),
    Failed(ParserErrorV),
}

pub struct PListStep {
    pub result: PListResultV,
    pub index: int,
    pub line: nat,
}

/// The next token exists and has the wanted kind.
pub open spec fn can_pop_kind(t: Seq<TokenV>, i: int, kind: TokenKind) -> bool {
    0 <= i < t.len() && t[i].kind == kind
}

/// The next token exists and has the wanted lexeme.
pub open spec fn can_pop_lex(t: Seq<TokenV>, i: int, lex: Seq<char>) -> bool {
    0 <= i < t.len() && t[i].lexeme == lex
}

/// The first position at or after `i` whose token does not carry the given
/// lexeme.
pub open spec fn lex_run_end(t: Seq<TokenV>, i: int, lex: Seq<char>) -> int
    decreases t.len() - i,
    when 0 <= i <= t.len()
{
    if i < t.len() && t[i].lexeme == lex {
        lex_run_end(t, i + 1, lex)
    } else {
        i
    }
}

pub proof fn lemma_lex_run_end(t: Seq<TokenV>, i: int, lex: Seq<char>)
    requires
        0 <= i <= t.len(),
    ensures
        i <= lex_run_end(t, i, lex) <= t.len(),
        forall|k: int| i <= k < lex_run_end(t, i, lex) ==> t[k].lexeme == lex,
        lex_run_end(t, i, lex) < t.len() ==> t[lex_run_end(t, i, lex)].lexeme != lex,
    decreases t.len() - i,
{
    if i < t.len() && t[i].lexeme == lex {
        lemma_lex_run_end(t, i + 1, lex);
    }
}

/// The line after a run of popped tokens: the line of the last one popped,
/// or the incoming line when none was.
pub open spec fn run_line(t: Seq<TokenV>, i: int, e: int, line: nat) -> nat {
    if e > i {
        t[e - 1].line
    } else {
        line
    }
}

// ---------------------------------------------------------------------------
// Labels and scopes
// ---------------------------------------------------------------------------
/// The end of the run of `>` markers starting at `i`.
pub open spec fn asp_end(t: Seq<TokenV>, i: int) -> int {
    lex_run_end(t, i, ">"@)
}

/// The auto-scope-prefix node: one terminal child per `>` marker.
pub open spec fn asp_node(t: Seq<TokenV>, i: int) -> CstV {
    CstV {
        kind: CstNodeKind::AutoScopePrefix,
        children: Seq::new((asp_end(t, i) - i) as nat, |k: int| term_v(t[i + k])),
        terminal: None,
    }
}

/// AutoScopePrefix := '>'*   (always matches)
pub open spec fn auto_scope_prefix(t: Seq<TokenV>, i: int, line: nat) -> PStep {
    PStep {
        result: PResultV::Matched(asp_node(t, i)),
        index: asp_end(t, i),
        line: run_line(t, i, asp_end(t, i), line),
    }
}

/// LabelDefinition := AutoScopePrefix Identifier; with zero markers and no
/// identifier the rule is simply not present, with markers it has committed.
pub open spec fn label_definition(t: Seq<TokenV>, i: int, line: nat) -> PStep {
    let e = asp_end(t, i);
    let l1 = run_line(t, i, e, line);
    if can_pop_kind(t, e, TokenKind::Identifier) {
        PStep {
            result: PResultV::Matched(
                CstV {
                    kind: CstNodeKind::LabelDefinition,
                    children: seq![asp_node(t, i), term_v(t[e])],
                    terminal: None,
                },
            ),
            index: e + 1,
            line: t[e].line,
        }
    } else if e == i {
        PStep { result: PResultV::NotPresent, index: i, line: line }
    } else {
        PStep {
            result: PResultV::Failed(
                ParserErrorV {
                    desc: "Expected identifier after auto scope prefix (>)."@,
                    line: l1,
                },
            ),
            index: e,
            line: l1,
        }
    }
}

/// Scope := Identifier '>'; the identifier is consumed only when the token
/// after it is `>` (one-token lookahead).
pub open spec fn scope(t: Seq<TokenV>, i: int, line: nat) -> PStep {
    if !(0 <= i + 1 < t.len() && t[i + 1].lexeme == ">"@) {
        PStep { result: PResultV::NotPresent, index: i, line: line }
    } else if can_pop_kind(t, i, TokenKind::Identifier) {
        PStep {
            result: PResultV::Matched(
                CstV {
                    kind: CstNodeKind::Scope,
                    children: seq![term_v(t[i]), term_v(t[i + 1])],
                    terminal: None,
                },
            ),
            index: i + 2,
            line: t[i + 1].line,
        }
    } else {
        PStep {
            result: PResultV::Failed(
                ParserErrorV { desc: "Expected an identifier before >."@, line: line },
            ),
            index: i,
            line: line,
        }
    }
}

/// Scopes := Scope*
pub open spec fn scopes_items(t: Seq<TokenV>, i: int, line: nat) -> PListStep
    decreases t.len() - i,
    when 0 <= i <= t.len()
{
    let s = scope(t, i, line);
    match s.result {
        PResultV::NotPresent => PListStep {
            result: PListResultV::Matched(Seq::empty()),
            index: s.index,
            line: s.line,
        },
        PResultV::Failed(e) => PListStep {
            result: PListResultV::Failed(e),
            index: s.index,
            line: s.line,
        },
        PResultV::Matched(node) => {
            if i < s.index <= t.len() {
                let rest = scopes_items(t, s.index, s.line);
                match rest.result {
                    PListResultV::Matched(ch) => PListStep {
                        result: PListResultV::Matched(seq![node] + ch),
                        index: rest.index,
                        line: rest.line,
                    },
                    PListResultV::Failed(_) => rest,
                }
            } else {
                PListStep { result: PListResultV::Matched(seq![node]), index: s.index, line: s.line }
            }
        },
    }
}

pub open spec fn scopes(t: Seq<TokenV>, i: int, line: nat) -> PStep {
    let items = scopes_items(t, i, line);
    match items.result {
        PListResultV::Matched(ch) => PStep {
            result: PResultV::Matched(
                CstV { kind: CstNodeKind::Scopes, children: ch, terminal: None },
            ),
            index: items.index,
            line: items.line,
        },
        PListResultV::Failed(e) => PStep {
            result: PResultV::Failed(e),
            index: items.index,
            line: items.line,
        },
    }
}

/// LabelAccess := '$' AutoScopePrefix Scopes Identifier
pub open spec fn label_access(t: Seq<TokenV>, i: int, line: nat) -> PStep {
    if !can_pop_lex(t, i, "$"@) {
        PStep { result: PResultV::NotPresent, index: i, line: line }
    } else {
        let l1 = t[i].line;
        let e = asp_end(t, i + 1);
        let l2 = run_line(t, i + 1, e, l1);
        let sc = scopes(t, e, l2);
        match sc.result {
            PResultV::Failed(er) => PStep {
                result: PResultV::Failed(er),
                index: sc.index,
                line: sc.line,
            },
            PResultV::Matched(sc_node) => {
                if can_pop_kind(t, sc.index, TokenKind::Identifier) {
                    PStep {
                        result: PResultV::Matched(
                            CstV {
                                kind: CstNodeKind::LabelAccess,
                                children: seq![
                                    term_v(t[i]),
                                    asp_node(t, i + 1),
                                    sc_node,
                                    term_v(t[sc.index]),
                                ],
                                terminal: None,
                            },
                        ),
                        index: sc.index + 1,
                        line: t[sc.index].line,
                    }
                } else {
                    PStep {
                        result: PResultV::Failed(
                            ParserErrorV {
                                desc: "Expected identifier after $ (label access)."@,
                                line: sc.line,
                            },
                        ),
                        index: sc.index,
                        line: sc.line,
                    }
                }
            },
            PResultV::NotPresent => PStep { result: PResultV::NotPresent, index: i, line: line },
        }
    }
}

/// LabelExternal := '(' Scopes Identifier ')'
pub open spec fn label_external(t: Seq<TokenV>, i: int, line: nat) -> PStep {
    if !can_pop_lex(t, i, "("@) {
        PStep { result: PResultV::NotPresent, index: i, line: line }
    } else {
        let l1 = t[i].line;
        let sc = scopes(t, i + 1, l1);
        match sc.result {
            PResultV::Failed(er) => PStep {
                result: PResultV::Failed(er),
                index: sc.index,
                line: sc.line,
            },
            PResultV::Matched(sc_node) => {
                if can_pop_kind(t, sc.index, TokenKind::Identifier) {
                    let j = sc.index;
                    if can_pop_lex(t, j + 1, ")"@) {
                        PStep {
                            result: PResultV::Matched(
                                CstV {
                                    kind: CstNodeKind::LabelExternal,
                                    children: seq![
                                        term_v(t[i]),
                                        sc_node,
                                        term_v(t[j]),
                                        term_v(t[j + 1]),
                                    ],
                                    terminal: None,
                                },
                            ),
                            index: j + 2,
                            line: t[j + 1].line,
                        }
                    } else {
                        PStep {
                            result: PResultV::Failed(
                                ParserErrorV {
                                    desc: "Expected ) after an external label expression."@,
                                    line: t[j].line,
                                },
                            ),
                            index: j + 1,
                            line: t[j].line,
                        }
                    }
                } else {
                    PStep {
                        result: PResultV::Failed(
                            ParserErrorV {
                                desc: "Expected identifier in an external label expression."@,
                                line: sc.line,
                            },
                        ),
                        index: sc.index,
                        line: sc.line,
                    }
                }
            },
            PResultV::NotPresent => PStep { result: PResultV::NotPresent, index: i, line: line },
        }
    }
}

// ---------------------------------------------------------------------------
// Type directives
// ---------------------------------------------------------------------------
/// ByteDirective := '.byte'
pub open spec fn byte_directive(t: Seq<TokenV>, i: int, line: nat) -> PStep {
    if can_pop_lex(t, i, ".byte"@) {
        PStep {
            result: PResultV::Matched(
                CstV {
                    kind: CstNodeKind::ByteDirective,
                    children: seq![term_v(t[i])],
                    terminal: None,
                },
            ),
            index: i + 1,
            line: t[i].line,
        }
    } else {
        PStep { result: PResultV::NotPresent, index: i, line: line }
    }
}

/// BytesDirective := '.bytes' Number
pub open spec fn bytes_directive(t: Seq<TokenV>, i: int, line: nat) -> PStep {
    if !can_pop_lex(t, i, ".bytes"@) {
        PStep { result: PResultV::NotPresent, index: i, line: line }
    } else {
        let l1 = t[i].line;
        if can_pop_kind(t, i + 1, TokenKind::Number) {
            PStep {
                result: PResultV::Matched(
                    CstV {
                        kind: CstNodeKind::BytesDirective,
                        children: seq![term_v(t[i]), term_v(t[i + 1])],
                        terminal: None,
                    },
                ),
                index: i + 2,
                line: t[i + 1].line,
            }
        } else {
            PStep {
                result: PResultV::Failed(
                    ParserErrorV {
                        desc: "Expected a number (element size) after a .bytes directive"@,
                        line: l1,
                    },
                ),
                index: i + 1,
                line: l1,
            }
        }
    }
}

/// ArrDirective := '.arr' Number TypeDirective
pub open spec fn arr_directive(t: Seq<TokenV>, i: int, line: nat) -> PStep
    decreases t.len() - i, 0int,
    when 0 <= i <= t.len()
{
    if !can_pop_lex(t, i, ".arr"@) {
        PStep { result: PResultV::NotPresent, index: i, line: line }
    } else {
        let l1 = t[i].line;
        if !can_pop_kind(t, i + 1, TokenKind::Number) {
            PStep {
                result: PResultV::Failed(
                    ParserErrorV {
                        desc: "Expected a number (array size) after an .arr directive"@,
                        line: l1,
                    },
                ),
                index: i + 1,
                line: l1,
            }
        } else {
            let l2 = t[i + 1].line;
            let td = type_directive(t, i + 2, l2);
            match td.result {
                PResultV::Matched(n) => PStep {
                    result: PResultV::Matched(
                        CstV {
                            kind: CstNodeKind::ArrDirective,
                            children: seq![term_v(t[i]), term_v(t[i + 1]), n],
                            terminal: None,
                        },
                    ),
                    index: td.index,
                    line: td.line,
                },
                PResultV::NotPresent => PStep {
                    result: PResultV::Failed(
                        ParserErrorV { desc: "Expected type in .arr directive."@, line: td.line },
                    ),
                    index: td.index,
                    line: td.line,
                },
                PResultV::Failed(_) => td,
            }
        }
    }
}

/// TypeDirective := ByteDirective | BytesDirective | ArrDirective
pub open spec fn type_directive(t: Seq<TokenV>, i: int, line: nat) -> PStep
    decreases t.len() - i, 1int,
    when 0 <= i <= t.len()
{
    let b = byte_directive(t, i, line);
    if !(b.result is NotPresent) {
        wrap_step(b, CstNodeKind::TypeDirective)
    } else {
        let bs = bytes_directive(t, i, line);
        if !(bs.result is NotPresent) {
            wrap_step(bs, CstNodeKind::TypeDirective)
        } else {
            let a = arr_directive(t, i, line);
            wrap_step(a, CstNodeKind::TypeDirective)
        }
    }
}

/// Wraps a matched child node in a single-child nonterminal; passes the
/// other outcomes through unchanged.
pub open spec fn wrap_step(s: PStep, kind: CstNodeKind) -> PStep {
    match s.result {
        PResultV::Matched(n) => PStep {
            result: PResultV::Matched(CstV { kind, children: seq![n], terminal: None }),
            index: s.index,
            line: s.line,
        },
        _ => s,
    }
}

// ---------------------------------------------------------------------------
// Assignments
// ---------------------------------------------------------------------------
/// AssignmentRepetition := '*' Number?
pub open spec fn assignment_repetition(t: Seq<TokenV>, i: int, line: nat) -> PStep {
    if !can_pop_lex(t, i, "*"@) {
        PStep { result: PResultV::NotPresent, index: i, line: line }
    } else {
        let l1 = t[i].line;
        if can_pop_kind(t, i + 1, TokenKind::Number) {
            PStep {
                result: PResultV::Matched(
                    CstV {
                        kind: CstNodeKind::AssignmentRepetition,
                        children: seq![term_v(t[i]), term_v(t[i + 1])],
                        terminal: None,
                    },
                ),
                index: i + 2,
                line: t[i + 1].line,
            }
        } else {
            PStep {
                result: PResultV::Matched(
                    CstV {
                        kind: CstNodeKind::AssignmentRepetition,
                        children: seq![term_v(t[i])],
                        terminal: None,
                    },
                ),
                index: i + 1,
                line: l1,
            }
        }
    }
}

/// Assignment := '{' AssignmentValue* '}' AssignmentRepetition?
pub open spec fn assignment(t: Seq<TokenV>, i: int, line: nat) -> PStep
    decreases t.len() - i, 0int,
    when 0 <= i <= t.len()
{
    if !can_pop_lex(t, i, "{"@) {
        PStep { result: PResultV::NotPresent, index: i, line: line }
    } else {
        let l1 = t[i].line;
        let vals = assignment_values(t, i + 1, l1);
        match vals.result {
            PListResultV::Failed(e) => PStep {
                result: PResultV::Failed(e),
                index: vals.index,
                line: vals.line,
            },
            PListResultV::Matched(ch) => {
                let vnode = CstV {
                    kind: CstNodeKind::AssignmentValues,
                    children: ch,
                    terminal: None,
                };
                if can_pop_lex(t, vals.index, "}"@) {
                    let i2 = vals.index + 1;
                    let l2 = t[vals.index].line;
                    let rep = assignment_repetition(t, i2, l2);
                    match rep.result {
                        PResultV::Matched(rnode) => PStep {
                            result: PResultV::Matched(
                                CstV {
                                    kind: CstNodeKind::Assignment,
                                    children: seq![
                                        term_v(t[i]),
                                        vnode,
                                        term_v(t[vals.index]),
                                        rnode,
                                    ],
                                    terminal: None,
                                },
                            ),
                            index: rep.index,
                            line: rep.line,
                        },
                        PResultV::NotPresent => PStep {
                            result: PResultV::Matched(
                                CstV {
                                    kind: CstNodeKind::Assignment,
                                    children: seq![term_v(t[i]), vnode, term_v(t[vals.index])],
                                    terminal: None,
                                },
                            ),
                            index: i2,
                            line: l2,
                        },
                        PResultV::Failed(e) => PStep {
                            result: PResultV::Failed(e),
                            index: rep.index,
                            line: rep.line,
                        },
                    }
                } else {
                    PStep {
                        result: PResultV::Failed(
                            ParserErrorV {
                                desc: "Assignment list must be terminated with }."@,
                                line: vals.line,
                            },
                        ),
                        index: vals.index,
                        line: vals.line,
                    }
                }
            },
        }
    }
}

/// AssignmentValue := Assignment | Number | String
pub open spec fn assignment_value(t: Seq<TokenV>, i: int, line: nat) -> PStep
    decreases t.len() - i, 1int,
    when 0 <= i <= t.len()
{
    let a = assignment(t, i, line);
    match a.result {
        PResultV::Matched(n) => PStep {
            result: PResultV::Matched(
                CstV { kind: CstNodeKind::AssignmentValue, children: seq![n], terminal: None },
            ),
            index: a.index,
            line: a.line,
        },
        PResultV::Failed(_) => a,
        PResultV::NotPresent => {
            if can_pop_kind(t, i, TokenKind::Number) || can_pop_kind(t, i, TokenKind::String) {
                PStep {
                    result: PResultV::Matched(
                        CstV {
                            kind: CstNodeKind::AssignmentValue,
                            children: seq![term_v(t[i])],
                            terminal: None,
                        },
                    ),
                    index: i + 1,
                    line: t[i].line,
                }
            } else {
                PStep { result: PResultV::NotPresent, index: i, line: line }
            }
        },
    }
}

/// AssignmentValue*
pub open spec fn assignment_values(t: Seq<TokenV>, i: int, line: nat) -> PListStep
    decreases t.len() - i, 2int,
    when 0 <= i <= t.len()
{
    let v = assignment_value(t, i, line);
    match v.result {
        PResultV::NotPresent => PListStep {
            result: PListResultV::Matched(Seq::empty()),
            index: v.index,
            line: v.line,
        },
        PResultV::Failed(e) => PListStep {
            result: PListResultV::Failed(e),
            index: v.index,
            line: v.line,
        },
        PResultV::Matched(n) => {
            if i < v.index <= t.len() {
                let rest = assignment_values(t, v.index, v.line);
                match rest.result {
                    PListResultV::Matched(ch) => PListStep {
                        result: PListResultV::Matched(seq![n] + ch),
                        index: rest.index,
                        line: rest.line,
                    },
                    PListResultV::Failed(_) => rest,
                }
            } else {
                PListStep { result: PListResultV::Matched(seq![n]), index: v.index, line: v.line }
            }
        },
    }
}

// ---------------------------------------------------------------------------
// Directive statements
// ---------------------------------------------------------------------------
/// ResDirective := '.res' LabelDefinition TypeDirective Assignment?
pub open spec fn res_directive(t: Seq<TokenV>, i: int, line: nat) -> PStep {
    if !can_pop_lex(t, i, ".res"@) {
        PStep { result: PResultV::NotPresent, index: i, line: line }
    } else {
        let l1 = t[i].line;
        let ld = label_definition(t, i + 1, l1);
        match ld.result {
            PResultV::Failed(_) => ld,
            PResultV::NotPresent => PStep {
                result: PResultV::Failed(
                    ParserErrorV {
                        desc: "Expected label definition after .res directive"@,
                        line: ld.line,
                    },
                ),
                index: ld.index,
                line: ld.line,
            },
            PResultV::Matched(ld_node) => {
                let td = type_directive(t, ld.index, ld.line);
                match td.result {
                    PResultV::Failed(_) => td,
                    PResultV::NotPresent => PStep {
                        result: PResultV::Failed(
                            ParserErrorV {
                                desc: "Expected type in .res directive."@,
                                line: td.line,
                            },
                        ),
                        index: td.index,
                        line: td.line,
                    },
                    PResultV::Matched(td_node) => {
                        let asg = assignment(t, td.index, td.line);
                        match asg.result {
                            PResultV::Failed(e) => PStep {
                                result: PResultV::Failed(e),
                                index: asg.index,
                                line: asg.line,
                            },
                            PResultV::NotPresent => PStep {
                                result: PResultV::Matched(
                                    CstV {
                                        kind: CstNodeKind::ResDirective,
                                        children: seq![term_v(t[i]), ld_node, td_node],
                                        terminal: None,
                                    },
                                ),
                                index: td.index,
                                line: td.line,
                            },
                            PResultV::Matched(asg_node) => PStep {
                                result: PResultV::Matched(
                                    CstV {
                                        kind: CstNodeKind::ResDirective,
                                        children: seq![term_v(t[i]), ld_node, td_node, asg_node],
                                        terminal: None,
                                    },
                                ),
                                index: asg.index,
                                line: asg.line,
                            },
                        }
                    },
                }
            },
        }
    }
}

/// StartDirective := '.start' ':'
pub open spec fn start_directive(t: Seq<TokenV>, i: int, line: nat) -> PStep {
    if !can_pop_lex(t, i, ".start"@) {
        PStep { result: PResultV::NotPresent, index: i, line: line }
    } else {
        let l1 = t[i].line;
        if can_pop_lex(t, i + 1, ":"@) {
            PStep {
                result: PResultV::Matched(
                    CstV {
                        kind: CstNodeKind::StartDirective,
                        children: seq![term_v(t[i]), term_v(t[i + 1])],
                        terminal: None,
                    },
                ),
                index: i + 2,
                line: t[i + 1].line,
            }
        } else {
            PStep {
                result: PResultV::Failed(
                    ParserErrorV { desc: "Expected : after a .start directive."@, line: l1 },
                ),
                index: i + 1,
                line: l1,
            }
        }
    }
}

/// ImportDirective := '.import' LabelDefinition LabelExternal
pub open spec fn import_directive(t: Seq<TokenV>, i: int, line: nat) -> PStep {
    if !can_pop_lex(t, i, ".import"@) {
        PStep { result: PResultV::NotPresent, index: i, line: line }
    } else {
        let l1 = t[i].line;
        let ld = label_definition(t, i + 1, l1);
        match ld.result {
            PResultV::Failed(_) => ld,
            PResultV::NotPresent => PStep {
                result: PResultV::Failed(
                    ParserErrorV {
                        desc: "Expected label definition after .import directive"@,
                        line: ld.line,
                    },
                ),
                index: ld.index,
                line: ld.line,
            },
            PResultV::Matched(ld_node) => {
                let le = label_external(t, ld.index, ld.line);
                match le.result {
                    PResultV::Failed(_) => le,
                    PResultV::NotPresent => PStep {
                        result: PResultV::Failed(
                            ParserErrorV {
                                desc: "Expected external label in .import directive"@,
                                line: le.line,
                            },
                        ),
                        index: le.index,
                        line: le.line,
                    },
                    PResultV::Matched(le_node) => PStep {
                        result: PResultV::Matched(
                            CstV {
                                kind: CstNodeKind::ImportDirective,
                                children: seq![term_v(t[i]), ld_node, le_node],
                                terminal: None,
                            },
                        ),
                        index: le.index,
                        line: le.line,
                    },
                }
            },
        }
    }
}

/// ExportDirective := '.export' LabelAccess LabelExternal
pub open spec fn export_directive(t: Seq<TokenV>, i: int, line: nat) -> PStep {
    if !can_pop_lex(t, i, ".export"@) {
        PStep { result: PResultV::NotPresent, index: i, line: line }
    } else {
        let l1 = t[i].line;
        let la = label_access(t, i + 1, l1);
        match la.result {
            PResultV::Failed(_) => la,
            PResultV::NotPresent => PStep {
                result: PResultV::Failed(
                    ParserErrorV {
                        desc: "Expected label access after .export directive"@,
                        line: la.line,
                    },
                ),
                index: la.index,
                line: la.line,
            },
            PResultV::Matched(la_node) => {
                let le = label_external(t, la.index, la.line);
                match le.result {
                    PResultV::Failed(_) => le,
                    PResultV::NotPresent => PStep {
                        result: PResultV::Failed(
                            ParserErrorV {
                                desc: "Expected external label in .export directive"@,
                                line: le.line,
                            },
                        ),
                        index: le.index,
                        line: le.line,
                    },
                    PResultV::Matched(le_node) => PStep {
                        result: PResultV::Matched(
                            CstV {
                                kind: CstNodeKind::ExportDirective,
                                children: seq![term_v(t[i]), la_node, le_node],
                                terminal: None,
                            },
                        ),
                        index: le.index,
                        line: le.line,
                    },
                }
            },
        }
    }
}

/// LabelDirective := LabelDefinition ':'
pub open spec fn label_directive(t: Seq<TokenV>, i: int, line: nat) -> PStep {
    let ld = label_definition(t, i, line);
    match ld.result {
        PResultV::NotPresent => PStep { result: PResultV::NotPresent, index: i, line: line },
        PResultV::Failed(_) => ld,
        PResultV::Matched(ld_node) => {
            if can_pop_lex(t, ld.index, ":"@) {
                PStep {
                    result: PResultV::Matched(
                        CstV {
                            kind: CstNodeKind::LabelDirective,
                            children: seq![ld_node, term_v(t[ld.index])],
                            terminal: None,
                        },
                    ),
                    index: ld.index + 1,
                    line: t[ld.index].line,
                }
            } else {
                PStep {
                    result: PResultV::Failed(
                        ParserErrorV { desc: "Expected : after a label directive."@, line: ld.line },
                    ),
                    index: ld.index,
                    line: ld.line,
                }
            }
        },
    }
}

// ---------------------------------------------------------------------------
// Instructions and macros
// ---------------------------------------------------------------------------
/// (':' ConditionCode)?
pub open spec fn condition_code(t: Seq<TokenV>, i: int, line: nat) -> PStep {
    if !can_pop_lex(t, i, ":"@) {
        PStep { result: PResultV::NotPresent, index: i, line: line }
    } else {
        let l1 = t[i].line;
        if can_pop_kind(t, i + 1, TokenKind::ConditionCode) {
            PStep {
                result: PResultV::Matched(
                    CstV {
                        kind: CstNodeKind::ConditionCode,
                        children: seq![term_v(t[i]), term_v(t[i + 1])],
                        terminal: None,
                    },
                ),
                index: i + 2,
                line: t[i + 1].line,
            }
        } else {
            PStep {
                result: PResultV::Failed(
                    ParserErrorV {
                        desc: "Expected condition code after : in an instruction."@,
                        line: l1,
                    },
                ),
                index: i + 1,
                line: l1,
            }
        }
    }
}

/// InstructionArgument := Register | SystemRegister | Port | Number | String | LongRegister
pub open spec fn instruction_argument(t: Seq<TokenV>, i: int, line: nat) -> PStep {
    if can_pop_kind(t, i, TokenKind::Register) || can_pop_kind(t, i, TokenKind::SystemRegister)
        || can_pop_kind(t, i, TokenKind::Port) || can_pop_kind(t, i, TokenKind::Number)
        || can_pop_kind(t, i, TokenKind::String) || can_pop_kind(t, i, TokenKind::LongRegister) {
        PStep {
            result: PResultV::Matched(
                CstV {
                    kind: CstNodeKind::InstructionArgument,
                    children: seq![term_v(t[i])],
                    terminal: None,
                },
            ),
            index: i + 1,
            line: t[i].line,
        }
    } else {
        PStep { result: PResultV::NotPresent, index: i, line: line }
    }
}

/// InstructionArgument*
pub open spec fn instruction_args_items(t: Seq<TokenV>, i: int, line: nat) -> PListStep
    decreases t.len() - i,
    when 0 <= i <= t.len()
{
    let s = instruction_argument(t, i, line);
    match s.result {
        PResultV::NotPresent => PListStep {
            result: PListResultV::Matched(Seq::empty()),
            index: s.index,
            line: s.line,
        },
        PResultV::Failed(e) => PListStep {
            result: PListResultV::Failed(e),
            index: s.index,
            line: s.line,
        },
        PResultV::Matched(node) => {
            if i < s.index <= t.len() {
                let rest = instruction_args_items(t, s.index, s.line);
                match rest.result {
                    PListResultV::Matched(ch) => PListStep {
                        result: PListResultV::Matched(seq![node] + ch),
                        index: rest.index,
                        line: rest.line,
                    },
                    PListResultV::Failed(_) => rest,
                }
            } else {
                PListStep { result: PListResultV::Matched(seq![node]), index: s.index, line: s.line }
            }
        },
    }
}

/// Instruction := InstructionToken (':' ConditionCode)? InstructionArgument*
pub open spec fn instruction(t: Seq<TokenV>, i: int, line: nat) -> PStep {
    if !can_pop_kind(t, i, TokenKind::Instruction) {
        PStep { result: PResultV::NotPresent, index: i, line: line }
    } else {
        let l1 = t[i].line;
        let cc = condition_code(t, i + 1, l1);
        match cc.result {
            PResultV::Failed(e) => PStep {
                result: PResultV::Failed(e),
                index: cc.index,
                line: cc.line,
            },
            PResultV::Matched(cc_node) => {
                let args = instruction_args_items(t, cc.index, cc.line);
                match args.result {
                    PListResultV::Matched(ch) => PStep {
                        result: PResultV::Matched(
                            CstV {
                                kind: CstNodeKind::Instruction,
                                children: seq![
                                    term_v(t[i]),
                                    cc_node,
                                    CstV {
                                        kind: CstNodeKind::InstructionArguments,
                                        children: ch,
                                        terminal: None,
                                    },
                                ],
                                terminal: None,
                            },
                        ),
                        index: args.index,
                        line: args.line,
                    },
                    PListResultV::Failed(e) => PStep {
                        result: PResultV::Failed(e),
                        index: args.index,
                        line: args.line,
                    },
                }
            },
            PResultV::NotPresent => {
                let args = instruction_args_items(t, i + 1, l1);
                match args.result {
                    PListResultV::Matched(ch) => PStep {
                        result: PResultV::Matched(
                            CstV {
                                kind: CstNodeKind::Instruction,
                                children: seq![
                                    term_v(t[i]),
                                    CstV {
                                        kind: CstNodeKind::InstructionArguments,
                                        children: ch,
                                        terminal: None,
                                    },
                                ],
                                terminal: None,
                            },
                        ),
                        index: args.index,
                        line: args.line,
                    },
                    PListResultV::Failed(e) => PStep {
                        result: PResultV::Failed(e),
                        index: args.index,
                        line: args.line,
                    },
                }
            },
        }
    }
}

/// MacroArgument := LabelAccess | Register | Number | LongRegister
pub open spec fn macro_argument(t: Seq<TokenV>, i: int, line: nat) -> PStep {
    let la = label_access(t, i, line);
    match la.result {
        PResultV::Matched(n) => PStep {
            result: PResultV::Matched(
                CstV { kind: CstNodeKind::MacroArgument, children: seq![n], terminal: None },
            ),
            index: la.index,
            line: la.line,
        },
        PResultV::Failed(_) => la,
        PResultV::NotPresent => {
            if can_pop_kind(t, i, TokenKind::Register) || can_pop_kind(t, i, TokenKind::Number)
                || can_pop_kind(t, i, TokenKind::LongRegister) {
                PStep {
                    result: PResultV::Matched(
                        CstV {
                            kind: CstNodeKind::MacroArgument,
                            children: seq![term_v(t[i])],
                            terminal: None,
                        },
                    ),
                    index: i + 1,
                    line: t[i].line,
                }
            } else {
                PStep { result: PResultV::NotPresent, index: i, line: line }
            }
        },
    }
}

/// MacroArgument*
pub open spec fn macro_args_items(t: Seq<TokenV>, i: int, line: nat) -> PListStep
    decreases t.len() - i,
    when 0 <= i <= t.len()
{
    let s = macro_argument(t, i, line);
    match s.result {
        PResultV::NotPresent => PListStep {
            result: PListResultV::Matched(Seq::empty()),
            index: s.index,
            line: s.line,
        },
        PResultV::Failed(e) => PListStep {
            result: PListResultV::Failed(e),
            index: s.index,
            line: s.line,
        },
        PResultV::Matched(node) => {
            if i < s.index <= t.len() {
                let rest = macro_args_items(t, s.index, s.line);
                match rest.result {
                    PListResultV::Matched(ch) => PListStep {
                        result: PListResultV::Matched(seq![node] + ch),
                        index: rest.index,
                        line: rest.line,
                    },
                    PListResultV::Failed(_) => rest,
                }
            } else {
                PListStep { result: PListResultV::Matched(seq![node]), index: s.index, line: s.line }
            }
        },
    }
}

/// Macro := MacroToken (':' ConditionCode)? MacroArgument*
pub open spec fn macro_call(t: Seq<TokenV>, i: int, line: nat) -> PStep {
    if !can_pop_kind(t, i, TokenKind::Macro) {
        PStep { result: PResultV::NotPresent, index: i, line: line }
    } else {
        let l1 = t[i].line;
        let cc = condition_code(t, i + 1, l1);
        match cc.result {
            PResultV::Failed(e) => PStep {
                result: PResultV::Failed(e),
                index: cc.index,
                line: cc.line,
            },
            PResultV::Matched(cc_node) => {
                let args = macro_args_items(t, cc.index, cc.line);
                match args.result {
                    PListResultV::Matched(ch) => PStep {
                        result: PResultV::Matched(
                            CstV {
                                kind: CstNodeKind::Macro,
                                children: seq![
                                    term_v(t[i]),
                                    cc_node,
                                    CstV {
                                        kind: CstNodeKind::MacroArguments,
                                        children: ch,
                                        terminal: None,
                                    },
                                ],
                                terminal: None,
                            },
                        ),
                        index: args.index,
                        line: args.line,
                    },
                    PListResultV::Failed(e) => PStep {
                        result: PResultV::Failed(e),
                        index: args.index,
                        line: args.line,
                    },
                }
            },
            PResultV::NotPresent => {
                let args = macro_args_items(t, i + 1, l1);
                match args.result {
                    PListResultV::Matched(ch) => PStep {
                        result: PResultV::Matched(
                            CstV {
                                kind: CstNodeKind::Macro,
                                children: seq![
                                    term_v(t[i]),
                                    CstV {
                                        kind: CstNodeKind::MacroArguments,
                                        children: ch,
                                        terminal: None,
                                    },
                                ],
                                terminal: None,
                            },
                        ),
                        index: args.index,
                        line: args.line,
                    },
                    PListResultV::Failed(e) => PStep {
                        result: PResultV::Failed(e),
                        index: args.index,
                        line: args.line,
                    },
                }
            },
        }
    }
}

// ---------------------------------------------------------------------------
// Statements and the file
// ---------------------------------------------------------------------------
/// The display name of a token kind, as it appears in the statement
/// terminator error message.
pub open spec fn token_kind_name(k: TokenKind) -> Seq<char> {
    match k {
        TokenKind::Instruction => "Instruction"@,
        TokenKind::Macro => "Macro"@,
        TokenKind::Directive => "Directive"@,
        TokenKind::Register => "Register"@,
        TokenKind::LongRegister => "LongRegister"@,
        TokenKind::Port => "Port"@,
        TokenKind::SystemRegister => "SystemRegister"@,
        TokenKind::ConditionCode => "ConditionCode"@,
        TokenKind::Identifier => "Identifier"@,
        TokenKind::Number => "Number"@,
        TokenKind::String => "String"@,
        TokenKind::Punctuation => "Punctuation"@,
        TokenKind::Eof => "Eof"@,
    }
}

/// The statement-description text of a node kind, used when a statement is
/// not properly terminated.
pub open spec fn kind_desc_v(k: CstNodeKind) -> Seq<char> {
    match k {
        CstNodeKind::Instruction => "instruction statement"@,
        CstNodeKind::ResDirective => "reserve directive"@,
        CstNodeKind::ImportDirective => "import directive"@,
        CstNodeKind::ExportDirective => "export directive"@,
        CstNodeKind::StartDirective => "start directive"@,
        CstNodeKind::LabelDirective => "label directive"@,
        CstNodeKind::Macro => "macro directive"@,
        _ => Seq::empty(),
    }
}

/// The message given when a statement body is not followed by a newline or
/// the end of input.
pub open spec fn statement_error_msg(tok: TokenV, child_kind: CstNodeKind) -> Seq<char> {
    "Expected a new line after a statement, not "@ + token_kind_name(tok.kind) + " \""@
        + tok.lexeme + "\"; "@ + kind_desc_v(child_kind) + " unterminated."@
}

/// The ordered alternation over the statement bodies: first match or first
/// failure wins, `NotPresent` passes to the next alternative.
pub open spec fn statement_body(t: Seq<TokenV>, i: int, line: nat) -> PStep {
    let r1 = res_directive(t, i, line);
    if !(r1.result is NotPresent) {
        r1
    } else {
        let r2 = start_directive(t, i, line);
        if !(r2.result is NotPresent) {
            r2
        } else {
            let r3 = import_directive(t, i, line);
            if !(r3.result is NotPresent) {
                r3
            } else {
                let r4 = export_directive(t, i, line);
                if !(r4.result is NotPresent) {
                    r4
                } else {
                    let r5 = label_directive(t, i, line);
                    if !(r5.result is NotPresent) {
                        r5
                    } else {
                        let r6 = instruction(t, i, line);
                        if !(r6.result is NotPresent) {
                            r6
                        } else {
                            macro_call(t, i, line)
                        }
                    }
                }
            }
        }
    }
}

/// Statement := '\n'* body ('\n' | Eof)
pub open spec fn statement(t: Seq<TokenV>, i: int, line: nat) -> PStep {
    let e = lex_run_end(t, i, "\n"@);
    let l1 = run_line(t, i, e, line);
    let s = statement_body(t, e, l1);
    match s.result {
        PResultV::NotPresent => s,
        PResultV::Failed(_) => s,
        PResultV::Matched(child) => {
            if can_pop_lex(t, s.index, "\n"@) {
                PStep {
                    result: PResultV::Matched(
                        CstV {
                            kind: CstNodeKind::Statement,
                            children: seq![child],
                            terminal: None,
                        },
                    ),
                    index: s.index + 1,
                    line: t[s.index].line,
                }
            } else if 0 <= s.index < t.len() && t[s.index].kind != TokenKind::Eof {
                PStep {
                    result: PResultV::Failed(
                        ParserErrorV {
                            desc: statement_error_msg(t[s.index], child.kind),
                            line: s.line,
                        },
                    ),
                    index: s.index,
                    line: s.line,
                }
            } else {
                PStep {
                    result: PResultV::Matched(
                        CstV {
                            kind: CstNodeKind::Statement,
                            children: seq![child],
                            terminal: None,
                        },
                    ),
                    index: s.index,
                    line: s.line,
                }
            }
        },
    }
}

/// Statement*
pub open spec fn statements_items(t: Seq<TokenV>, i: int, line: nat) -> PListStep
    decreases t.len() - i,
    when 0 <= i <= t.len()
{
    let s = statement(t, i, line);
    match s.result {
        PResultV::NotPresent => PListStep {
            result: PListResultV::Matched(Seq::empty()),
            index: s.index,
            line: s.line,
        },
        PResultV::Failed(e) => PListStep {
            result: PListResultV::Failed(e),
            index: s.index,
            line: s.line,
        },
        PResultV::Matched(node) => {
            if i < s.index <= t.len() {
                let rest = statements_items(t, s.index, s.line);
                match rest.result {
                    PListResultV::Matched(ch) => PListStep {
                        result: PListResultV::Matched(seq![node] + ch),
                        index: rest.index,
                        line: rest.line,
                    },
                    PListResultV::Failed(_) => rest,
                }
            } else {
                PListStep { result: PListResultV::Matched(seq![node]), index: s.index, line: s.line }
            }
        },
    }
}

/// File := Statements Eof
pub open spec fn file(t: Seq<TokenV>, i: int, line: nat) -> PStep {
    let sts = statements_items(t, i, line);
    match sts.result {
        PListResultV::Failed(e) => PStep {
            result: PResultV::Failed(e),
            index: sts.index,
            line: sts.line,
        },
        PListResultV::Matched(ch) => {
            let snode = CstV { kind: CstNodeKind::Statements, children: ch, terminal: None };
            if can_pop_kind(t, sts.index, TokenKind::Eof) {
                PStep {
                    result: PResultV::Matched(
                        CstV {
                            kind: CstNodeKind::File,
                            children: seq![snode],
                            terminal: None,
                        },
                    ),
                    index: sts.index + 1,
                    line: t[sts.index].line,
                }
            } else {
                PStep {
                    result: PResultV::Failed(
                        ParserErrorV { desc: "Expected end of file"@, line: sts.line },
                    ),
                    index: sts.index,
                    line: sts.line,
                }
            }
        },
    }
}

/// The whole-input contract: parsing starts at the first token on line 1.
pub open spec fn spec_parse(t: Seq<TokenV>) -> PStep {
    file(t, 0, 1)
}

/// Law: parsing has no hidden nondeterminism. The outcome is a function of
/// the token sequence alone, so parsing the same tokens twice yields
/// identical trees, failures and positions; `Parser::parse` is proved to
/// return exactly this outcome.
pub proof fn lemma_parse_deterministic(t1: Seq<TokenV>, t2: Seq<TokenV>)
    requires
        t1 == t2,
    ensures
        spec_parse(t1) == spec_parse(t2),
{
}

} // verus!
