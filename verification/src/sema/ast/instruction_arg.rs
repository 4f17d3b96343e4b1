//! One operand of an instruction statement.

use crate::lexer::token::TokenKind;
use crate::parser::cst::{is_term, term_token, CstNode, CstNodeKind, CstV};
use crate::sema::ast::helpers::{lit_value, num_lit_to_int, num_token_ok, str_lit_to_str};
use vstd::prelude::*;

verus! {

#[derive(Debug)]
pub enum InstructionArg {
    Register(String),
    SystemRegister(String),
    Port(String),
    Number(i32),
    String(Vec<char>),
    LongRegister(String),
}

/// The mathematical model of an instruction operand.
pub enum InstructionArgV {
    Register(Seq<char>),
    SystemRegister(Seq<char>),
    Port(Seq<char>),
    Number(i32),
    String(Seq<char>),
    LongRegister(Seq<char>),
}

impl View for InstructionArg {
    type V = InstructionArgV;

    open spec fn view(&self) -> InstructionArgV {
        match self {
            InstructionArg::Register(s) => InstructionArgV::Register(s@),
            InstructionArg::SystemRegister(s) => InstructionArgV::SystemRegister(s@),
            InstructionArg::Port(s) => InstructionArgV::Port(s@),
            InstructionArg::Number(n) => InstructionArgV::Number(*n),
            InstructionArg::String(s) => InstructionArgV::String(s@),
            InstructionArg::LongRegister(s) => InstructionArgV::LongRegister(s@),
        }
    }
}

impl DeepView for InstructionArg {
    type V = InstructionArgV;

    open spec fn deep_view(&self) -> InstructionArgV {
        self.view()
    }
}

pub open spec fn buildable_instruction_argument(n: CstV) -> bool {
    &&& n.kind == CstNodeKind::InstructionArgument
    &&& n.children.len() == 1
    &&& is_term(n.children[0])
    &&& ({
        let t = term_token(n.children[0]);
        ||| t.kind == TokenKind::Register
        ||| t.kind == TokenKind::SystemRegister
        ||| t.kind == TokenKind::Port
        ||| (t.kind == TokenKind::Number && num_token_ok(t))
        ||| (t.kind == TokenKind::String && t.lexeme.len() >= 2)
        ||| t.kind == TokenKind::LongRegister
    })
}

pub open spec fn build_instruction_argument(n: CstV) -> InstructionArgV {
    let t = term_token(n.children[0]);
    if t.kind == TokenKind::Register {
        InstructionArgV::Register(t.lexeme)
    } else if t.kind == TokenKind::SystemRegister {
        InstructionArgV::SystemRegister(t.lexeme)
    } else if t.kind == TokenKind::Port {
        InstructionArgV::Port(t.lexeme)
    } else if t.kind == TokenKind::Number {
        InstructionArgV::Number(lit_value(t.lexeme) as i32)
    } else if t.kind == TokenKind::String {
        InstructionArgV::String(t.lexeme.subrange(1, t.lexeme.len() - 1))
    } else {
        InstructionArgV::LongRegister(t.lexeme)
    }
}

impl InstructionArg {
    pub fn from(node: &CstNode) -> (r: Self)
        requires
            buildable_instruction_argument(node@),
        ensures
            r@ == build_instruction_argument(node@),
    {
        let token = node.child(0).terminal_token();
        match token.kind {
            TokenKind::Register => Self::Register(token.lexeme.clone()),
            TokenKind::SystemRegister => Self::SystemRegister(token.lexeme.clone()),
            TokenKind::Port => Self::Port(token.lexeme.clone()),
            TokenKind::Number => Self::Number(num_lit_to_int(token)),
            TokenKind::String => Self::String(str_lit_to_str(token)),
            TokenKind::LongRegister => Self::LongRegister(token.lexeme.clone()),
            _ => vstd::pervasive::unreached(),
        }
    }
}

} // verus!
