//! Syntax errors: one free-text description with the 1-based source line
//! on which the parser detected the violation.

use crate::text::{dec_str, u32_to_string};
use vstd::prelude::*;
use vstd::string::{StrSliceExecFns, StringExecFns};

verus! {

#[derive(Debug)]
pub struct ParserError {
    desc: String,
    line: u32,
}

/// The mathematical model of a syntax error.
pub struct ParserErrorV {
    pub desc: Seq<char>,
    pub line: nat,
}

impl View for ParserError {
    type V = ParserErrorV;

    closed spec fn view(&self) -> ParserErrorV {
        ParserErrorV { desc: self.desc@, line: self.line as nat }
    }
}

/// The full description text: stage marker, line number, then the message.
pub open spec fn parser_error_desc(e: ParserErrorV) -> Seq<char> {
    "*** PARSER ERROR [LINE "@ + dec_str(e.line as int) + "]: "@ + e.desc
}

impl ParserError {
    pub fn desc(&self) -> (r: String)
        ensures
            r@ == parser_error_desc(self@),
    {
        let mut s = "*** PARSER ERROR [LINE ".to_owned();
        let num = u32_to_string(self.line);
        s.append(num.as_str());
        s.append("]: ");
        s.append(self.desc.as_str());
        proof {
            assert(s@ =~= parser_error_desc(self@));
        }
        s
    }

    pub fn new(desc: &str, line: u32) -> (e: Self)
        ensures
            e@ == (ParserErrorV { desc: desc@, line: line as nat }),
    {
        ParserError { desc: desc.to_owned(), line }
    }
}

} // verus!
