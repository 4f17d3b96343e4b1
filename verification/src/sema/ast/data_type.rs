//! The recursive data-type values of `.res` reservations: a single byte, a
//! run of bytes of a given element size, or an array of a given count over
//! an element type.

use crate::parser::cst::{is_term, term_token, CstNode, CstNodeKind, CstV};
use crate::sema::ast::helpers::{lit_value, num_lit_to_int, num_token_ok, wrap_u32, i32_to_u32_wrap};
use vstd::prelude::*;

verus! {

broadcast use vstd::seq::axiom_seq_index_decreases;

#[derive(Debug)]
pub enum DataType {
    Byte,
    Bytes(u32),
    Arr(u32, Box<DataType>),
}

/// The mathematical model of a data type.
pub enum DataTypeV {
    Byte,
    Bytes(u32),
    Arr(u32, Box<DataTypeV>),
}

impl View for DataType {
    type V = DataTypeV;

    open spec fn view(&self) -> DataTypeV
        decreases self,
    {
        match self {
            DataType::Byte => DataTypeV::Byte,
            DataType::Bytes(n) => DataTypeV::Bytes(*n),
            DataType::Arr(n, inner) => DataTypeV::Arr(*n, Box::new((**inner).view())),
        }
    }
}

/// The shape a `TypeDirective` subtree must have for the builder, with
/// every numeric literal decodable.
pub open spec fn buildable_type_directive(n: CstV) -> bool
    decreases n,
{
    &&& n.kind == CstNodeKind::TypeDirective
    &&& n.children.len() == 1
    &&& ({
        let c = n.children[0];
        ||| c.kind == CstNodeKind::ByteDirective
        ||| (c.kind == CstNodeKind::BytesDirective && c.children.len() == 2 && is_term(
            c.children[1],
        ) && num_token_ok(term_token(c.children[1])))
        ||| (c.kind == CstNodeKind::ArrDirective && c.children.len() == 3 && is_term(c.children[1])
            && num_token_ok(term_token(c.children[1])) && buildable_type_directive(c.children[2]))
    })
}

/// The data type a `TypeDirective` subtree denotes.
pub open spec fn build_data_type(n: CstV) -> DataTypeV
    decreases n,
{
    if n.children.len() == 1 {
        let c = n.children[0];
        if c.kind == CstNodeKind::ByteDirective {
            DataTypeV::Byte
        } else if c.kind == CstNodeKind::BytesDirective {
            DataTypeV::Bytes(wrap_u32(lit_value(term_token(c.children[1]).lexeme)))
        } else if c.children.len() == 3 {
            DataTypeV::Arr(
                wrap_u32(lit_value(term_token(c.children[1]).lexeme)),
                Box::new(build_data_type(c.children[2])),
            )
        } else {
            DataTypeV::Byte
        }
    } else {
        DataTypeV::Byte
    }
}

impl DataType {
    pub fn from(node: &CstNode) -> (r: Self)
        requires
            buildable_type_directive(node@),
        ensures
            r@ == build_data_type(node@),
        decreases node@,
    {
        let child = node.child(0);
        match child.kind {
            CstNodeKind::ByteDirective => DataType::Byte,
            CstNodeKind::BytesDirective => make_bytes_type(child),
            CstNodeKind::ArrDirective => make_arr_type(child),
            _ => vstd::pervasive::unreached(),
        }
    }
}

fn make_bytes_type(node: &CstNode) -> (r: DataType)
    requires
        node@.kind == CstNodeKind::BytesDirective,
        node@.children.len() == 2,
        is_term(node@.children[1]),
        num_token_ok(term_token(node@.children[1])),
    ensures
        r@ == DataTypeV::Bytes(wrap_u32(lit_value(term_token(node@.children[1]).lexeme))),
{
    let number_token = node.child(1).terminal_token();
    DataType::Bytes(i32_to_u32_wrap(num_lit_to_int(number_token)))
}

fn make_arr_type(node: &CstNode) -> (r: DataType)
    requires
        node@.kind == CstNodeKind::ArrDirective,
        node@.children.len() == 3,
        is_term(node@.children[1]),
        num_token_ok(term_token(node@.children[1])),
        buildable_type_directive(node@.children[2]),
    ensures
        r@ == DataTypeV::Arr(
            wrap_u32(lit_value(term_token(node@.children[1]).lexeme)),
            Box::new(build_data_type(node@.children[2])),
        ),
    decreases node@,
{
    let number_token = node.child(1).terminal_token();
    let num = i32_to_u32_wrap(num_lit_to_int(number_token));
    let type_node = node.child(2);
    let data_type = DataType::from(type_node);
    DataType::Arr(num, Box::new(data_type))
}

} // verus!
