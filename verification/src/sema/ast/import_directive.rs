//! An `.import` statement: an internal label definition bound to an
//! external label reference.

use crate::parser::cst::{is_term, term_token, CstNode, CstNodeKind, CstV};
use crate::sema::ast::labels::{
    build_label_definition, build_label_external, buildable_label_definition,
    buildable_label_external, LabelDefinition, LabelDefinitionV, LabelExternal, LabelExternalV,
};
use vstd::prelude::*;

verus! {

pub struct ImportDirective {
    pub label_intern: LabelDefinition,
    pub label_extern: LabelExternal,
    pub line: u32,
}

/// The mathematical model of an import statement.
pub struct ImportDirectiveV {
    pub label_intern: LabelDefinitionV,
    pub label_extern: LabelExternalV,
    pub line: nat,
}

impl View for ImportDirective {
    type V = ImportDirectiveV;

    open spec fn view(&self) -> ImportDirectiveV {
        ImportDirectiveV {
            label_intern: self.label_intern@,
            label_extern: self.label_extern@,
            line: self.line as nat,
        }
    }
}

pub open spec fn buildable_import_directive(n: CstV) -> bool {
    &&& n.kind == CstNodeKind::ImportDirective
    &&& n.children.len() == 3
    &&& is_term(n.children[0])
    &&& buildable_label_definition(n.children[1])
    &&& buildable_label_external(n.children[2])
}

pub open spec fn build_import_directive(n: CstV) -> ImportDirectiveV {
    ImportDirectiveV {
        label_intern: build_label_definition(n.children[1]),
        label_extern: build_label_external(n.children[2]),
        line: term_token(n.children[0]).line,
    }
}

impl ImportDirective {
    pub fn from(node: &CstNode) -> (r: Self)
        requires
            buildable_import_directive(node@),
        ensures
            r@ == build_import_directive(node@),
    {
        let line = node.child(0).terminal_token().line;
        let label_definition_node = node.child(1);
        let label_external_node = node.child(2);
        Self {
            label_intern: LabelDefinition::from(label_definition_node),
            label_extern: LabelExternal::from(label_external_node),
            line,
        }
    }
}

} // verus!
