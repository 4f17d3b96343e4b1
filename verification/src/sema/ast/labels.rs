//! The three label-bearing values of the internal representation: a label
//! definition (auto-scope markers and a name), a label access (markers,
//! explicit scope qualifiers and a name), and an external label reference
//! (scope qualifiers and a name). Each carries a `resolved` field that
//! stays `None` until the label scope resolver fills it.

use crate::parser::cst::{is_term, term_token, CstNode, CstNodeKind, CstV};
use vstd::prelude::*;

verus! {

#[derive(Debug)]
pub struct LabelDefinition {
    pub prefix_count: u32,
    pub label: String,
    pub resolved: Option<String>,
}

/// The mathematical model of a label definition.
pub struct LabelDefinitionV {
    pub prefix_count: nat,
    pub label: Seq<char>,
    pub resolved: Option<Seq<char>>,
}

impl View for LabelDefinition {
    type V = LabelDefinitionV;

    open spec fn view(&self) -> LabelDefinitionV {
        LabelDefinitionV {
            prefix_count: self.prefix_count as nat,
            label: self.label@,
            resolved: match self.resolved {
                Some(ref s) => Some(s@),
                None => None,
            },
        }
    }
}

pub open spec fn buildable_label_definition(n: CstV) -> bool {
    &&& n.kind == CstNodeKind::LabelDefinition
    &&& n.children.len() == 2
    &&& n.children[0].kind == CstNodeKind::AutoScopePrefix
    &&& n.children[0].children.len() <= u32::MAX
    &&& is_term(n.children[1])
}

pub open spec fn build_label_definition(n: CstV) -> LabelDefinitionV {
    LabelDefinitionV {
        prefix_count: n.children[0].children.len(),
        label: term_token(n.children[1]).lexeme,
        resolved: None,
    }
}

impl LabelDefinition {
    pub fn from(node: &CstNode) -> (r: Self)
        requires
            buildable_label_definition(node@),
        ensures
            r@ == build_label_definition(node@),
    {
        let auto_scope_prefix_node = node.child(0);
        let prefix_count = auto_scope_prefix_node.children.len() as u32;
        let identifier_token = node.child(1).terminal_token();
        let label = identifier_token.lexeme.clone();
        Self { prefix_count, label, resolved: None }
    }
}

/// The scope-qualifier names of a `Scopes` node: one identifier per
/// `Scope` child.
pub open spec fn scopes_names(sc: CstV) -> Seq<Seq<char>> {
    Seq::new(
        sc.children.len(),
        |k: int|
            if 0 <= k < sc.children.len() {
                term_token(sc.children[k].children[0]).lexeme
            } else {
                arbitrary()
            },
    )
}

pub open spec fn buildable_scopes(sc: CstV) -> bool {
    &&& sc.kind == CstNodeKind::Scopes
    &&& forall|k: int|
        0 <= k < sc.children.len() ==> (#[trigger] sc.children[k]).children.len() >= 1 && is_term(
            sc.children[k].children[0],
        )
}

/// Collects the scope-qualifier names of a `Scopes` node.
#[verifier::loop_isolation(false)]
pub fn collect_scopes(sc: &CstNode) -> (r: Vec<String>)
    requires
        buildable_scopes(sc@),
    ensures
        r.deep_view() == scopes_names(sc@),
{
    let mut scopes: Vec<String> = Vec::new();
    let n = sc.children.len();
    let mut i: usize = 0;
    while i < n
        invariant
            i <= n,
            scopes@.len() == i,
            forall|k: int| 0 <= k < i ==> scopes@[k]@ == scopes_names(sc@)[k],
        decreases n - i,
    {
        let scope_node = sc.child(i);
        let name_token = scope_node.child(0).terminal_token();
        scopes.push(name_token.lexeme.clone());
        i += 1;
    }
    proof {
        assert(scopes.deep_view() =~= scopes_names(sc@));
    }
    scopes
}

#[derive(Debug)]
pub struct LabelAccess {
    pub prefix_count: u32,
    pub scopes: Vec<String>,
    pub label: String,
    pub resolved: Option<String>,
}

/// The mathematical model of a label access.
pub struct LabelAccessV {
    pub prefix_count: nat,
    pub scopes: Seq<Seq<char>>,
    pub label: Seq<char>,
    pub resolved: Option<Seq<char>>,
}

impl View for LabelAccess {
    type V = LabelAccessV;

    open spec fn view(&self) -> LabelAccessV {
        LabelAccessV {
            prefix_count: self.prefix_count as nat,
            scopes: self.scopes.deep_view(),
            label: self.label@,
            resolved: match self.resolved {
                Some(ref s) => Some(s@),
                None => None,
            },
        }
    }
}

pub open spec fn buildable_label_access(n: CstV) -> bool {
    &&& n.kind == CstNodeKind::LabelAccess
    &&& n.children.len() == 4
    &&& n.children[1].kind == CstNodeKind::AutoScopePrefix
    &&& n.children[1].children.len() <= u32::MAX
    &&& buildable_scopes(n.children[2])
    &&& is_term(n.children[3])
}

pub open spec fn build_label_access(n: CstV) -> LabelAccessV {
    LabelAccessV {
        prefix_count: n.children[1].children.len(),
        scopes: scopes_names(n.children[2]),
        label: term_token(n.children[3]).lexeme,
        resolved: None,
    }
}

impl LabelAccess {
    pub fn from(node: &CstNode) -> (r: Self)
        requires
            buildable_label_access(node@),
        ensures
            r@ == build_label_access(node@),
    {
        let auto_scope_prefix_node = node.child(1);
        let prefix_count = auto_scope_prefix_node.children.len() as u32;
        let scopes = collect_scopes(node.child(2));
        let identifier_token = node.child(3).terminal_token();
        let label = identifier_token.lexeme.clone();
        Self { prefix_count, scopes, label, resolved: None }
    }
}

#[derive(Debug)]
pub struct LabelExternal {
    pub scopes: Vec<String>,
    pub label: String,
    pub resolved: Option<String>,
}

/// The mathematical model of an external label reference.
pub struct LabelExternalV {
    pub scopes: Seq<Seq<char>>,
    pub label: Seq<char>,
    pub resolved: Option<Seq<char>>,
}

impl View for LabelExternal {
    type V = LabelExternalV;

    open spec fn view(&self) -> LabelExternalV {
        LabelExternalV {
            scopes: self.scopes.deep_view(),
            label: self.label@,
            resolved: match self.resolved {
                Some(ref s) => Some(s@),
                None => None,
            },
        }
    }
}

pub open spec fn buildable_label_external(n: CstV) -> bool {
    &&& n.kind == CstNodeKind::LabelExternal
    &&& n.children.len() == 4
    &&& buildable_scopes(n.children[1])
    &&& is_term(n.children[2])
}

pub open spec fn build_label_external(n: CstV) -> LabelExternalV {
    LabelExternalV {
        scopes: scopes_names(n.children[1]),
        label: term_token(n.children[2]).lexeme,
        resolved: None,
    }
}

impl LabelExternal {
    pub fn from(node: &CstNode) -> (r: Self)
        requires
            buildable_label_external(node@),
        ensures
            r@ == build_label_external(node@),
    {
        let scopes = collect_scopes(node.child(1));
        let identifier_token = node.child(2).terminal_token();
        let label = identifier_token.lexeme.clone();
        Self { scopes, label, resolved: None }
    }
}

} // verus!
