//! A `.res` statement: a label definition, a data type, and an optional
//! initializer assignment.

use crate::parser::cst::{is_term, term_token, CstNode, CstNodeKind, CstV};
use crate::sema::ast::assignment::{
    build_assignment, buildable_assignment, Assignment, AssignmentV,
};
use crate::sema::ast::data_type::{
    build_data_type, buildable_type_directive, DataType, DataTypeV,
};
use crate::sema::ast::labels::{
    build_label_definition, buildable_label_definition, LabelDefinition, LabelDefinitionV,
};
use vstd::prelude::*;

verus! {

pub struct ResDirective {
    pub label: LabelDefinition,
    pub data_type: DataType,
    pub assignment: Option<Assignment>,
    pub line: u32,
}

/// The mathematical model of a reservation statement.
pub struct ResDirectiveV {
    pub label: LabelDefinitionV,
    pub data_type: DataTypeV,
    pub assignment: Option<AssignmentV>,
    pub line: nat,
}

impl View for ResDirective {
    type V = ResDirectiveV;

    open spec fn view(&self) -> ResDirectiveV {
        ResDirectiveV {
            label: self.label@,
            data_type: self.data_type@,
            assignment: match self.assignment {
                Some(ref a) => Some(a@),
                None => None,
            },
            line: self.line as nat,
        }
    }
}

pub open spec fn buildable_res_directive(n: CstV) -> bool {
    &&& n.kind == CstNodeKind::ResDirective
    &&& (n.children.len() == 3 || n.children.len() == 4)
    &&& is_term(n.children[0])
    &&& buildable_label_definition(n.children[1])
    &&& buildable_type_directive(n.children[2])
    &&& (n.children.len() == 4 ==> buildable_assignment(n.children[3]))
}

pub open spec fn build_res_directive(n: CstV) -> ResDirectiveV {
    ResDirectiveV {
        label: build_label_definition(n.children[1]),
        data_type: build_data_type(n.children[2]),
        assignment: if n.children.len() == 4 {
            Some(build_assignment(n.children[3]))
        } else {
            None
        },
        line: term_token(n.children[0]).line,
    }
}

impl ResDirective {
    pub fn from(node: &CstNode) -> (r: Self)
        requires
            buildable_res_directive(node@),
        ensures
            r@ == build_res_directive(node@),
    {
        let line = node.child(0).terminal_token().line;
        let label_definition_node = node.child(1);
        let label = LabelDefinition::from(label_definition_node);
        let data_type_node = node.child(2);
        let data_type = DataType::from(data_type_node);
        if node.children.len() == 3 {
            return ResDirective { label, data_type, assignment: None, line };
        }
        let assignment_node = node.child(3);
        let assignment = Assignment::from(assignment_node);
        ResDirective { label, data_type, assignment: Some(assignment), line }
    }
}

} // verus!
