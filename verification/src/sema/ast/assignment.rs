//! Initializer assignments of `.res` reservations: a bracketed, possibly
//! nested list of values with an optional repetition count.

use crate::lexer::token::TokenKind;
use crate::parser::cst::{is_term, term_token, CstNode, CstNodeKind, CstV};
use crate::sema::ast::helpers::{
    i32_to_u32_wrap, lit_value, num_lit_to_int, num_token_ok, str_lit_to_str, wrap_u32,
};
use vstd::prelude::*;

verus! {

broadcast use vstd::std_specs::vec::axiom_vec_decreases_to_view, vstd::seq::axiom_seq_index_decreases;

#[derive(Debug)]
pub enum AssignmentValue {
    Number(i32),
    String(Vec<char>),
    Assignment(Assignment),
}

#[derive(Debug)]
pub struct Assignment {
    pub values: Vec<AssignmentValue>,
    pub repetition: u32,
}

/// The mathematical model of an assignment value.
pub enum AssignmentValueV {
    Number(i32),
    String(Seq<char>),
    Assignment(AssignmentV),
}

/// The mathematical model of an assignment.
pub struct AssignmentV {
    pub values: Seq<AssignmentValueV>,
    pub repetition: u32,
}

pub open spec fn av_view(v: AssignmentValue) -> AssignmentValueV
    decreases v,
{
    match v {
        AssignmentValue::Number(n) => AssignmentValueV::Number(n),
        AssignmentValue::String(s) => AssignmentValueV::String(s@),
        AssignmentValue::Assignment(a) => AssignmentValueV::Assignment(asg_view(a)),
    }
}

pub open spec fn asg_view(a: Assignment) -> AssignmentV
    decreases a,
{
    AssignmentV { values: av_vec_view(a.values), repetition: a.repetition }
}

pub open spec fn av_vec_view(v: Vec<AssignmentValue>) -> Seq<AssignmentValueV>
    decreases v,
{
    av_seq_view(v@)
}

pub open spec fn av_seq_view(s: Seq<AssignmentValue>) -> Seq<AssignmentValueV>
    decreases s,
{
    Seq::new(
        s.len(),
        |i: int|
            if 0 <= i < s.len() {
                av_view(s[i])
            } else {
                arbitrary()
            },
    )
}

impl View for AssignmentValue {
    type V = AssignmentValueV;

    open spec fn view(&self) -> AssignmentValueV {
        av_view(*self)
    }
}

impl View for Assignment {
    type V = AssignmentV;

    open spec fn view(&self) -> AssignmentV {
        asg_view(*self)
    }
}

/// The shape an `Assignment` subtree must have for the builder, with every
/// numeric literal decodable.
pub open spec fn buildable_assignment(n: CstV) -> bool
    decreases n,
{
    &&& n.kind == CstNodeKind::Assignment
    &&& (n.children.len() == 3 || n.children.len() == 4)
    &&& n.children[1].kind == CstNodeKind::AssignmentValues
    &&& (forall|k: int|
        0 <= k < n.children[1].children.len() ==> buildable_assignment_value(
            #[trigger] n.children[1].children[k],
        ))
    &&& (n.children.len() == 4 ==> {
        let rep = n.children[3];
        &&& rep.kind == CstNodeKind::AssignmentRepetition
        &&& (rep.children.len() == 1 || rep.children.len() == 2)
        &&& (rep.children.len() == 2 ==> is_term(rep.children[1]) && num_token_ok(
            term_token(rep.children[1]),
        ))
    })
}

pub open spec fn buildable_assignment_value(n: CstV) -> bool
    decreases n,
{
    &&& n.kind == CstNodeKind::AssignmentValue
    &&& n.children.len() == 1
    &&& ({
        let c = n.children[0];
        if c.kind == CstNodeKind::Assignment {
            buildable_assignment(c)
        } else {
            &&& is_term(c)
            &&& (if term_token(c).kind == TokenKind::Number {
                num_token_ok(term_token(c))
            } else {
                term_token(c).kind == TokenKind::String && term_token(c).lexeme.len() >= 2
            })
        }
    })
}

/// The assignment an `Assignment` subtree denotes: its decoded values and
/// its repetition count (1 when the repetition clause is absent, 0 when
/// `*` is given without a number).
pub open spec fn build_assignment(n: CstV) -> AssignmentV
    decreases n,
{
    if (n.children.len() == 3 || n.children.len() == 4) {
        let vals = n.children[1];
        let values = Seq::new(
            vals.children.len(),
            |k: int|
                if 0 <= k < vals.children.len() {
                    build_assignment_value(vals.children[k])
                } else {
                    arbitrary()
                },
        );
        let repetition: u32 = if n.children.len() == 3 {
            1u32
        } else {
            let rep = n.children[3];
            if rep.children.len() == 1 {
                0u32
            } else {
                wrap_u32(lit_value(term_token(rep.children[1]).lexeme))
            }
        };
        AssignmentV { values, repetition }
    } else {
        AssignmentV { values: Seq::empty(), repetition: 1u32 }
    }
}

pub open spec fn build_assignment_value(n: CstV) -> AssignmentValueV
    decreases n,
{
    if n.children.len() == 1 {
        let c = n.children[0];
        if c.kind == CstNodeKind::Assignment {
            AssignmentValueV::Assignment(build_assignment(c))
        } else if term_token(c).kind == TokenKind::Number {
            AssignmentValueV::Number(lit_value(term_token(c).lexeme) as i32)
        } else {
            AssignmentValueV::String(
                term_token(c).lexeme.subrange(1, term_token(c).lexeme.len() - 1),
            )
        }
    } else {
        AssignmentValueV::Number(0)
    }
}

impl Assignment {
    pub fn from(node: &CstNode) -> (r: Self)
        requires
            buildable_assignment(node@),
        ensures
            r@ == build_assignment(node@),
        decreases node@,
    {
        let assignment_values_node = node.child(1);
        let values = make_values(assignment_values_node);
        proof {
            assert(av_vec_view(values) =~= build_assignment(node@).values);
        }
        if node.children.len() == 3 {
            return Self { values, repetition: 1 };
        }
        let repetition_node = node.child(3);
        let repetition = get_repetition(repetition_node);
        Self { values, repetition }
    }
}

#[verifier::loop_isolation(false)]
fn make_values(node: &CstNode) -> (r: Vec<AssignmentValue>)
    requires
        node@.kind == CstNodeKind::AssignmentValues,
        forall|k: int|
            0 <= k < node@.children.len() ==> buildable_assignment_value(
                #[trigger] node@.children[k],
            ),
    ensures
        r@.len() == node@.children.len(),
        forall|k: int|
            0 <= k < r@.len() ==> av_view(#[trigger] r@[k]) == build_assignment_value(
                node@.children[k],
            ),
    decreases node@,
{
    let mut result: Vec<AssignmentValue> = Vec::new();
    let n = node.children.len();
    let mut i: usize = 0;
    while i < n
        invariant
            i <= n,
            result@.len() == i,
            forall|k: int|
                0 <= k < i ==> av_view(#[trigger] result@[k]) == build_assignment_value(
                    node@.children[k],
                ),
        decreases n - i,
    {
        let value_node = node.child(i);
        result.push(get_value(value_node));
        i += 1;
    }
    result
}

fn get_repetition(node: &CstNode) -> (r: u32)
    requires
        node@.kind == CstNodeKind::AssignmentRepetition,
        node@.children.len() == 1 || node@.children.len() == 2,
        node@.children.len() == 2 ==> is_term(node@.children[1]) && num_token_ok(
            term_token(node@.children[1]),
        ),
    ensures
        r == (if node@.children.len() == 1 {
            0u32
        } else {
            wrap_u32(lit_value(term_token(node@.children[1]).lexeme))
        }),
{
    if node.children.len() == 1 {
        0
    } else {
        i32_to_u32_wrap(num_lit_to_int(node.child(1).terminal_token()))
    }
}

fn get_value(node: &CstNode) -> (r: AssignmentValue)
    requires
        buildable_assignment_value(node@),
    ensures
        av_view(r) == build_assignment_value(node@),
    decreases node@,
{
    let child = node.child(0);
    if child.kind == CstNodeKind::Assignment {
        AssignmentValue::Assignment(Assignment::from(child))
    } else {
        let token = child.terminal_token();
        if token.kind == TokenKind::Number {
            AssignmentValue::Number(num_lit_to_int(token))
        } else {
            AssignmentValue::String(str_lit_to_str(token))
        }
    }
}

} // verus!
