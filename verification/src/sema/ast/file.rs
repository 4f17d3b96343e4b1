//! The whole file of the internal representation: the ordered statement
//! list built from the tree's `Statements` node.

use crate::parser::cst::{CstNode, CstNodeKind, CstV};
use crate::sema::ast::statement::{build_statement, buildable_statement, Statement, StatementV};
use vstd::prelude::*;

verus! {

pub struct File {
    pub statements: Vec<Statement>,
}

/// The mathematical model of a file.
pub struct FileV {
    pub statements: Seq<StatementV>,
}

impl View for File {
    type V = FileV;

    open spec fn view(&self) -> FileV {
        FileV { statements: self.statements.deep_view() }
    }
}

/// The shape a `File` tree must have for the builder, with every numeric
/// literal in it decodable.
pub open spec fn buildable_file(n: CstV) -> bool {
    &&& n.kind == CstNodeKind::File
    &&& n.children.len() >= 1
    &&& forall|k: int|
        0 <= k < n.children[0].children.len() ==> buildable_statement(
            #[trigger] n.children[0].children[k],
        )
}

pub open spec fn build_file(n: CstV) -> FileV {
    FileV {
        statements: Seq::new(
            n.children[0].children.len(),
            |k: int|
                if 0 <= k < n.children[0].children.len() {
                    build_statement(n.children[0].children[k])
                } else {
                    arbitrary()
                },
        ),
    }
}

impl File {
    /// Builds the internal representation by one depth-first walk of the
    /// concrete syntax tree.
    #[verifier::loop_isolation(false)]
    pub fn from(node: &CstNode) -> (r: Self)
        requires
            buildable_file(node@),
        ensures
            r@ == build_file(node@),
    {
        let statements_node = node.child(0);
        let mut statements: Vec<Statement> = Vec::new();
        let n = statements_node.children.len();
        let mut i: usize = 0;
        while i < n
            invariant
                i <= n,
                statements@.len() == i,
                forall|k: int|
                    0 <= k < i ==> (#[trigger] statements@[k])@ == build_statement(
                        statements_node@.children[k],
                    ),
            decreases n - i,
        {
            statements.push(Statement::from(statements_node.child(i)));
            i += 1;
        }
        let r = File { statements };
        proof {
            assert(r@.statements =~= build_file(node@).statements);
        }
        r
    }
}

} // verus!
