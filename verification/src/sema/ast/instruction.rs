//! An instruction statement: the mnemonic, an optional condition code and
//! the ordered operands.

use crate::parser::cst::{is_term, term_token, CstNode, CstNodeKind, CstV};
use crate::sema::ast::instruction_arg::{
    build_instruction_argument, buildable_instruction_argument, InstructionArg, InstructionArgV,
};
use vstd::prelude::*;

verus! {

pub struct Instruction {
    pub mnemonic: String,
    pub condition: Option<String>,
    pub args: Vec<InstructionArg>,
}

/// The mathematical model of an instruction statement.
pub struct InstructionV {
    pub mnemonic: Seq<char>,
    pub condition: Option<Seq<char>>,
    pub args: Seq<InstructionArgV>,
}

impl View for Instruction {
    type V = InstructionV;

    open spec fn view(&self) -> InstructionV {
        InstructionV {
            mnemonic: self.mnemonic@,
            condition: match self.condition {
                Some(ref s) => Some(s@),
                None => None,
            },
            args: self.args.deep_view(),
        }
    }
}

pub open spec fn buildable_instruction(n: CstV) -> bool {
    &&& n.kind == CstNodeKind::Instruction
    &&& (n.children.len() == 2 || n.children.len() == 3)
    &&& is_term(n.children[0])
    &&& (n.children.len() == 3 ==> n.children[1].kind == CstNodeKind::ConditionCode
        && n.children[1].children.len() == 2 && is_term(n.children[1].children[1]))
    &&& ({
        let args = n.children[n.children.len() - 1];
        &&& args.kind == CstNodeKind::InstructionArguments
        &&& forall|k: int|
            0 <= k < args.children.len() ==> buildable_instruction_argument(
                #[trigger] args.children[k],
            )
    })
}

pub open spec fn build_instruction(n: CstV) -> InstructionV {
    let args = n.children[n.children.len() - 1];
    InstructionV {
        mnemonic: term_token(n.children[0]).lexeme,
        condition: if n.children.len() == 3 {
            Some(term_token(n.children[1].children[1]).lexeme)
        } else {
            None
        },
        args: Seq::new(
            args.children.len(),
            |k: int|
                if 0 <= k < args.children.len() {
                    build_instruction_argument(args.children[k])
                } else {
                    arbitrary()
                },
        ),
    }
}

impl Instruction {
    #[verifier::loop_isolation(false)]
    pub fn from(node: &CstNode) -> (r: Self)
        requires
            buildable_instruction(node@),
        ensures
            r@ == build_instruction(node@),
    {
        let mnemonic = node.child(0).terminal_token().lexeme.clone();
        let mut args_i: usize = 1;
        let mut condition_code: Option<String> = None;
        if node.children.len() == 3 {
            args_i = 2;
            let condition_node = node.child(1);
            condition_code = Some(condition_node.child(1).terminal_token().lexeme.clone());
        }
        let args_node = node.child(args_i);
        let mut args: Vec<InstructionArg> = Vec::new();
        let n = args_node.children.len();
        let mut i: usize = 0;
        while i < n
            invariant
                i <= n,
                args@.len() == i,
                forall|k: int|
                    0 <= k < i ==> (#[trigger] args@[k])@ == build_instruction_argument(
                        args_node@.children[k],
                    ),
            decreases n - i,
        {
            args.push(InstructionArg::from(args_node.child(i)));
            i += 1;
        }
        let r = Self { mnemonic, condition: condition_code, args };
        proof {
            assert(r@.args =~= build_instruction(node@).args);
        }
        r
    }
}

} // verus!
