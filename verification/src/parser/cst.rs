//! The concrete syntax tree: a node is either a terminal wrapping exactly
//! one token, or a nonterminal with a grammar-rule kind and an ordered
//! sequence of children. Children are addressed positionally.

use crate::lexer::token::{Token, TokenV};
use vstd::prelude::*;

verus! {

broadcast use vstd::std_specs::vec::axiom_vec_decreases_to_view, vstd::seq::axiom_seq_index_decreases;

#[derive(Debug, PartialEq, Eq, Clone, Copy, Structural)]
pub enum CstNodeKind {
    Terminal,
    File,
    Statements,
    Statement,
    ResDirective,
    ImportDirective,
    ExportDirective,
    TypeDirective,
    ByteDirective,
    BytesDirective,
    ArrDirective,
    Assignment,
    AssignmentRepetition,
    AssignmentValues,
    AssignmentValue,
    StartDirective,
    LabelDirective,
    LabelDefinition,
    AutoScopePrefix,
    LabelAccess,
    LabelExternal,
    Scopes,
    Scope,
    Instruction,
    ConditionCode,
    InstructionArguments,
    InstructionArgument,
    Macro,
    MacroArguments,
    MacroArgument,
}

#[derive(Debug)]
pub struct CstNode {
    pub kind: CstNodeKind,
    pub children: Vec<CstNode>,
    pub terminal: Option<Token>,
}

/// The mathematical model of a tree node.
pub struct CstV {
    pub kind: CstNodeKind,
    pub children: Seq<CstV>,
    pub terminal: Option<TokenV>,
}

/// The model of a node: the children are modelled recursively.
pub open spec fn cst_view(n: CstNode) -> CstV
    decreases n,
{
    CstV {
        kind: n.kind,
        children: cst_vec_view(n.children),
        terminal: match n.terminal {
            Some(t) => Some(t@),
            None => None,
        },
    }
}

pub open spec fn cst_vec_view(v: Vec<CstNode>) -> Seq<CstV>
    decreases v,
{
    cst_seq_view(v@)
}

pub open spec fn cst_seq_view(s: Seq<CstNode>) -> Seq<CstV>
    decreases s,
{
    Seq::new(
        s.len(),
        |i: int|
            if 0 <= i < s.len() {
                cst_view(s[i])
            } else {
                arbitrary()
            },
    )
}

impl View for CstNode {
    type V = CstV;

    open spec fn view(&self) -> CstV {
        cst_view(*self)
    }
}

impl DeepView for CstNode {
    type V = CstV;

    open spec fn deep_view(&self) -> CstV {
        self.view()
    }
}

/// A node that wraps one token.
pub open spec fn is_term(n: CstV) -> bool {
    n.kind == CstNodeKind::Terminal && n.terminal is Some
}

/// The token wrapped by a terminal node.
pub open spec fn term_token(n: CstV) -> TokenV {
    match n.terminal {
        Some(t) => t,
        None => arbitrary(),
    }
}

/// The model of a terminal node wrapping one token.
pub open spec fn term_v(t: TokenV) -> CstV {
    CstV { kind: CstNodeKind::Terminal, children: Seq::empty(), terminal: Some(t) }
}

impl CstNode {
    pub fn nonterminal(kind: CstNodeKind, children: Vec<CstNode>) -> (n: CstNode)
        ensures
            n@ == (CstV { kind, children: children.deep_view(), terminal: None }),
    {
        let n = CstNode { kind, children, terminal: None };
        proof {
            assert(n@.children =~= n.children.deep_view());
        }
        n
    }

    pub fn terminal(terminal: Token) -> (n: CstNode)
        ensures
            n@ == term_v(terminal@),
    {
        let n = CstNode { kind: CstNodeKind::Terminal, children: Vec::new(), terminal: Some(terminal) };
        proof {
            assert(n@.children =~= Seq::<CstV>::empty());
        }
        n
    }

    /// The statement-description text used in terminator error messages.
    pub fn kind_desc(&self) -> (r: String)
        ensures
            r@ == crate::parser::grammar::kind_desc_v(self.kind),
    {
        match self.kind {
            CstNodeKind::Instruction => "instruction statement".to_owned(),
            CstNodeKind::ResDirective => "reserve directive".to_owned(),
            CstNodeKind::ImportDirective => "import directive".to_owned(),
            CstNodeKind::ExportDirective => "export directive".to_owned(),
            CstNodeKind::StartDirective => "start directive".to_owned(),
            CstNodeKind::LabelDirective => "label directive".to_owned(),
            CstNodeKind::Macro => "macro directive".to_owned(),
            _ => String::new(),
        }
    }

    /// The wrapped token of a terminal node.
    pub fn terminal_token(&self) -> (r: &Token)
        requires
            self@.terminal is Some,
        ensures
            Some(r@) == self@.terminal,
    {
        match &self.terminal {
            Some(t) => t,
            None => vstd::pervasive::unreached(),
        }
    }

    pub fn child(&self, index: usize) -> (r: &CstNode)
        requires
            index < self@.children.len(),
        ensures
            r@ == self@.children[index as int],
    {
        &self.children[index]
    }

    pub fn child_mut(&mut self, index: usize) -> (r: &mut CstNode)
        requires
            index < old(self)@.children.len(),
        ensures
            *r == old(self).children@[index as int],
            final(self).kind == old(self).kind,
            final(self).terminal == old(self).terminal,
            final(self).children@ == old(self).children@.update(index as int, *final(r)),
    {
        &mut self.children[index]
    }
}

} // verus!
