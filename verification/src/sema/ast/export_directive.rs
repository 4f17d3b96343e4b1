//! An `.export` statement: an internal label access bound to an external
//! label reference.

use crate::parser::cst::{is_term, term_token, CstNode, CstNodeKind, CstV};
use crate::sema::ast::labels::{
    build_label_access, build_label_external, buildable_label_access, buildable_label_external,
    LabelAccess, LabelAccessV, LabelExternal, LabelExternalV,
};
use vstd::prelude::*;

verus! {

pub struct ExportDirective {
    pub label_intern: LabelAccess,
    pub label_extern: LabelExternal,
    pub line: u32,
}

/// The mathematical model of an export statement.
pub struct ExportDirectiveV {
    pub label_intern: LabelAccessV,
    pub label_extern: LabelExternalV,
    pub line: nat,
}

impl View for ExportDirective {
    type V = ExportDirectiveV;

    open spec fn view(&self) -> ExportDirectiveV {
        ExportDirectiveV {
            label_intern: self.label_intern@,
            label_extern: self.label_extern@,
            line: self.line as nat,
        }
    }
}

pub open spec fn buildable_export_directive(n: CstV) -> bool {
    &&& n.kind == CstNodeKind::ExportDirective
    &&& n.children.len() == 3
    &&& is_term(n.children[0])
    &&& buildable_label_access(n.children[1])
    &&& buildable_label_external(n.children[2])
}

pub open spec fn build_export_directive(n: CstV) -> ExportDirectiveV {
    ExportDirectiveV {
        label_intern: build_label_access(n.children[1]),
        label_extern: build_label_external(n.children[2]),
        line: term_token(n.children[0]).line,
    }
}

impl ExportDirective {
    pub fn from(node: &CstNode) -> (r: Self)
        requires
            buildable_export_directive(node@),
        ensures
            r@ == build_export_directive(node@),
    {
        let line = node.child(0).terminal_token().line;
        let label_access_node = node.child(1);
        let label_external_node = node.child(2);
        Self {
            label_intern: LabelAccess::from(label_access_node),
            label_extern: LabelExternal::from(label_external_node),
            line,
        }
    }
}

} // verus!
