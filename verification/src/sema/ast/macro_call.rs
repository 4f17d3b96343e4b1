//! A macro invocation statement: the macro name, an optional condition
//! code, the ordered arguments and the source line. Only the argument
//! shapes are captured here; expansion belongs to a later stage.

use crate::parser::cst::{is_term, term_token, CstNode, CstNodeKind, CstV};
use crate::sema::ast::macro_arg::{
    build_macro_argument, buildable_macro_argument, MacroArg, MacroArgV,
};
use vstd::prelude::*;

verus! {

pub struct Macro {
    pub mnemonic: String,
    pub condition: Option<String>,
    pub args: Vec<MacroArg>,
    pub line: u32,
}

/// The mathematical model of a macro invocation.
pub struct MacroV {
    pub mnemonic: Seq<char>,
    pub condition: Option<Seq<char>>,
    pub args: Seq<MacroArgV>,
    pub line: nat,
}

impl View for Macro {
    type V = MacroV;

    open spec fn view(&self) -> MacroV {
        MacroV {
            mnemonic: self.mnemonic@,
            condition: match self.condition {
                Some(ref s) => Some(s@),
                None => None,
            },
            args: self.args.deep_view(),
            line: self.line as nat,
        }
    }
}

pub open spec fn buildable_macro(n: CstV) -> bool {
    &&& n.kind == CstNodeKind::Macro
    &&& (n.children.len() == 2 || n.children.len() == 3)
    &&& is_term(n.children[0])
    &&& (n.children.len() == 3 ==> n.children[1].kind == CstNodeKind::ConditionCode
        && n.children[1].children.len() == 2 && is_term(n.children[1].children[1]))
    &&& ({
        let args = n.children[n.children.len() - 1];
        &&& args.kind == CstNodeKind::MacroArguments
        &&& forall|k: int|
            0 <= k < args.children.len() ==> buildable_macro_argument(#[trigger] args.children[k])
    })
}

pub open spec fn build_macro(n: CstV) -> MacroV {
    let args = n.children[n.children.len() - 1];
    MacroV {
        mnemonic: term_token(n.children[0]).lexeme,
        condition: if n.children.len() == 3 {
            Some(term_token(n.children[1].children[1]).lexeme)
        } else {
            None
        },
        args: Seq::new(
            args.children.len(),
            |k: int|
                if 0 <= k < args.children.len() {
                    build_macro_argument(args.children[k])
                } else {
                    arbitrary()
                },
        ),
        line: term_token(n.children[0]).line,
    }
}

impl Macro {
    #[verifier::loop_isolation(false)]
    pub fn from(node: &CstNode) -> (r: Self)
        requires
            buildable_macro(node@),
        ensures
            r@ == build_macro(node@),
    {
        let line = node.child(0).terminal_token().line;
        let mnemonic = node.child(0).terminal_token().lexeme.clone();
        let mut args_i: usize = 1;
        let mut condition_code: Option<String> = None;
        if node.children.len() == 3 {
            args_i = 2;
            let condition_node = node.child(1);
            condition_code = Some(condition_node.child(1).terminal_token().lexeme.clone());
        }
        let args_node = node.child(args_i);
        let mut args: Vec<MacroArg> = Vec::new();
        let n = args_node.children.len();
        let mut i: usize = 0;
        while i < n
            invariant
                i <= n,
                args@.len() == i,
                forall|k: int|
                    0 <= k < i ==> (#[trigger] args@[k])@ == build_macro_argument(
                        args_node@.children[k],
                    ),
            decreases n - i,
        {
            args.push(MacroArg::from(args_node.child(i)));
            i += 1;
        }
        let r = Self { mnemonic, condition: condition_code, args, line };
        proof {
            assert(r@.args =~= build_macro(node@).args);
        }
        r
    }
}

} // verus!
