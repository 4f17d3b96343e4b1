//! One argument of a macro invocation. A label argument is resolved by the
//! label scope resolver exactly like a label access.

use crate::lexer::token::TokenKind;
use crate::parser::cst::{is_term, term_token, CstNode, CstNodeKind, CstV};
use crate::sema::ast::helpers::{lit_value, num_lit_to_int, num_token_ok};
use crate::sema::ast::labels::{
    build_label_access, buildable_label_access, LabelAccess, LabelAccessV,
};
use vstd::prelude::*;

verus! {

#[derive(Debug)]
pub enum MacroArg {
    Register(String),
    Number(i32),
    LongRegister(String),
    Label(LabelAccess),
}

/// The mathematical model of a macro argument.
pub enum MacroArgV {
    Register(Seq<char>),
    Number(i32),
    LongRegister(Seq<char>),
    Label(LabelAccessV),
}

impl View for MacroArg {
    type V = MacroArgV;

    open spec fn view(&self) -> MacroArgV {
        match self {
            MacroArg::Register(s) => MacroArgV::Register(s@),
            MacroArg::Number(n) => MacroArgV::Number(*n),
            MacroArg::LongRegister(s) => MacroArgV::LongRegister(s@),
            MacroArg::Label(la) => MacroArgV::Label(la@),
        }
    }
}

impl DeepView for MacroArg {
    type V = MacroArgV;

    open spec fn deep_view(&self) -> MacroArgV {
        self.view()
    }
}

pub open spec fn buildable_macro_argument(n: CstV) -> bool {
    &&& n.kind == CstNodeKind::MacroArgument
    &&& n.children.len() == 1
    &&& ({
        let c = n.children[0];
        if c.kind == CstNodeKind::LabelAccess {
            buildable_label_access(c)
        } else {
            &&& is_term(c)
            &&& ({
                let t = term_token(c);
                ||| t.kind == TokenKind::Register
                ||| (t.kind == TokenKind::Number && num_token_ok(t))
                ||| t.kind == TokenKind::LongRegister
            })
        }
    })
}

pub open spec fn build_macro_argument(n: CstV) -> MacroArgV {
    let c = n.children[0];
    if c.kind == CstNodeKind::LabelAccess {
        MacroArgV::Label(build_label_access(c))
    } else {
        let t = term_token(c);
        if t.kind == TokenKind::Register {
            MacroArgV::Register(t.lexeme)
        } else if t.kind == TokenKind::Number {
            MacroArgV::Number(lit_value(t.lexeme) as i32)
        } else {
            MacroArgV::LongRegister(t.lexeme)
        }
    }
}

impl MacroArg {
    pub fn from(node: &CstNode) -> (r: Self)
        requires
            buildable_macro_argument(node@),
        ensures
            r@ == build_macro_argument(node@),
    {
        let child = node.child(0);
        if child.kind == CstNodeKind::LabelAccess {
            return Self::Label(LabelAccess::from(child));
        }
        let token = child.terminal_token();
        match token.kind {
            TokenKind::Register => Self::Register(token.lexeme.clone()),
            TokenKind::Number => Self::Number(num_lit_to_int(token)),
            TokenKind::LongRegister => Self::LongRegister(token.lexeme.clone()),
            _ => vstd::pervasive::unreached(),
        }
    }
}

} // verus!
