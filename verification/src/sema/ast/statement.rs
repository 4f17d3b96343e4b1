//! One statement of the internal representation.

use crate::parser::cst::{CstNode, CstNodeKind, CstV};
use crate::sema::ast::export_directive::{
    build_export_directive, buildable_export_directive, ExportDirective, ExportDirectiveV,
};
use crate::sema::ast::import_directive::{
    build_import_directive, buildable_import_directive, ImportDirective, ImportDirectiveV,
};
use crate::sema::ast::instruction::{
    build_instruction, buildable_instruction, Instruction, InstructionV,
};
use crate::sema::ast::label_directive::{
    build_label_directive, buildable_label_directive, LabelDirective, LabelDirectiveV,
};
use crate::sema::ast::macro_call::{build_macro, buildable_macro, Macro, MacroV};
use crate::sema::ast::res_directive::{
    build_res_directive, buildable_res_directive, ResDirective, ResDirectiveV,
};
use vstd::prelude::*;

verus! {

pub enum Statement {
    ImportDirective(ImportDirective),
    ExportDirective(ExportDirective),
    ResDirective(ResDirective),
    LabelDirective(LabelDirective),
    Instruction(Instruction),
    Macro(Macro),
}

/// The mathematical model of one statement.
pub enum StatementV {
    ImportDirective(ImportDirectiveV),
    ExportDirective(ExportDirectiveV),
    ResDirective(ResDirectiveV),
    LabelDirective(LabelDirectiveV),
    Instruction(InstructionV),
    Macro(MacroV),
}

impl View for Statement {
    type V = StatementV;

    open spec fn view(&self) -> StatementV {
        match self {
            Statement::ImportDirective(d) => StatementV::ImportDirective(d@),
            Statement::ExportDirective(d) => StatementV::ExportDirective(d@),
            Statement::ResDirective(d) => StatementV::ResDirective(d@),
            Statement::LabelDirective(d) => StatementV::LabelDirective(d@),
            Statement::Instruction(d) => StatementV::Instruction(d@),
            Statement::Macro(d) => StatementV::Macro(d@),
        }
    }
}

impl DeepView for Statement {
    type V = StatementV;

    open spec fn deep_view(&self) -> StatementV {
        self.view()
    }
}

/// The shape a `Statement` subtree must have for the builder.
pub open spec fn buildable_statement(n: CstV) -> bool {
    &&& n.kind == CstNodeKind::Statement
    &&& n.children.len() == 1
    &&& ({
        let c = n.children[0];
        match c.kind {
            CstNodeKind::ImportDirective => buildable_import_directive(c),
            CstNodeKind::ExportDirective => buildable_export_directive(c),
            CstNodeKind::ResDirective => buildable_res_directive(c),
            CstNodeKind::LabelDirective => buildable_label_directive(c),
            CstNodeKind::Instruction => buildable_instruction(c),
            CstNodeKind::Macro => buildable_macro(c),
            _ => false,
        }
    })
}

pub open spec fn build_statement(n: CstV) -> StatementV {
    let c = n.children[0];
    match c.kind {
        CstNodeKind::ImportDirective => StatementV::ImportDirective(build_import_directive(c)),
        CstNodeKind::ExportDirective => StatementV::ExportDirective(build_export_directive(c)),
        CstNodeKind::ResDirective => StatementV::ResDirective(build_res_directive(c)),
        CstNodeKind::LabelDirective => StatementV::LabelDirective(build_label_directive(c)),
        CstNodeKind::Instruction => StatementV::Instruction(build_instruction(c)),
        _ => StatementV::Macro(build_macro(c)),
    }
}

impl Statement {
    pub fn from(node: &CstNode) -> (r: Self)
        requires
            buildable_statement(node@),
        ensures
            r@ == build_statement(node@),
    {
        let child = node.child(0);
        match child.kind {
            CstNodeKind::ImportDirective => Statement::ImportDirective(ImportDirective::from(child)),
            CstNodeKind::ExportDirective => Statement::ExportDirective(ExportDirective::from(child)),
            CstNodeKind::ResDirective => Statement::ResDirective(ResDirective::from(child)),
            CstNodeKind::LabelDirective => Statement::LabelDirective(LabelDirective::from(child)),
            CstNodeKind::Instruction => Statement::Instruction(Instruction::from(child)),
            CstNodeKind::Macro => Statement::Macro(Macro::from(child)),
            _ => vstd::pervasive::unreached(),
        }
    }
}

} // verus!
