//! A colon-terminated label statement: the label it defines becomes the
//! innermost open scope for the statements after it.

use crate::parser::cst::{is_term, term_token, CstNode, CstNodeKind, CstV};
use crate::sema::ast::labels::{
    build_label_definition, buildable_label_definition, LabelDefinition, LabelDefinitionV,
};
use vstd::prelude::*;

verus! {

pub struct LabelDirective {
    pub label: LabelDefinition,
    pub line: u32,
}

/// The mathematical model of a label statement.
pub struct LabelDirectiveV {
    pub label: LabelDefinitionV,
    pub line: nat,
}

impl View for LabelDirective {
    type V = LabelDirectiveV;

    open spec fn view(&self) -> LabelDirectiveV {
        LabelDirectiveV { label: self.label@, line: self.line as nat }
    }
}

pub open spec fn buildable_label_directive(n: CstV) -> bool {
    &&& n.kind == CstNodeKind::LabelDirective
    &&& n.children.len() == 2
    &&& buildable_label_definition(n.children[0])
    &&& is_term(n.children[1])
}

pub open spec fn build_label_directive(n: CstV) -> LabelDirectiveV {
    LabelDirectiveV {
        label: build_label_definition(n.children[0]),
        line: term_token(n.children[1]).line,
    }
}

impl LabelDirective {
    pub fn from(node: &CstNode) -> (r: Self)
        requires
            buildable_label_directive(node@),
        ensures
            r@ == build_label_directive(node@),
    {
        let line = node.child(1).terminal_token().line;
        let label_definition_node = node.child(0);
        let label_definition = LabelDefinition::from(label_definition_node);
        Self { label: label_definition, line }
    }
}

} // verus!
