//! Semantic errors: one free-text description with the 1-based source line
//! of the statement on which the pass failed.

use crate::text::{dec_str, u32_to_string};
use vstd::prelude::*;
use vstd::string::{StrSliceExecFns, StringExecFns};

verus! {

#[derive(Debug)]
pub struct SemaError {
    desc: String,
    line: u32,
}

/// The mathematical model of a semantic error.
pub struct SemaErrorV {
    pub desc: Seq<char>,
    pub line: nat,
}

impl View for SemaError {
    type V = SemaErrorV;

    closed spec fn view(&self) -> SemaErrorV {
        SemaErrorV { desc: self.desc@, line: self.line as nat }
    }
}

/// The full description text: stage marker, line number, then the message.
pub open spec fn sema_error_desc(e: SemaErrorV) -> Seq<char> {
    "*** SEMA ERROR [LINE "@ + dec_str(e.line as int) + "]: "@ + e.desc
}

impl SemaError {
    pub fn desc(&self) -> (r: String)
        ensures
            r@ == sema_error_desc(self@),
    {
        let mut s = "*** SEMA ERROR [LINE ".to_owned();
        let num = u32_to_string(self.line);
        s.append(num.as_str());
        s.append("]: ");
        s.append(self.desc.as_str());
        proof {
            assert(s@ =~= sema_error_desc(self@));
        }
        s
    }

    pub fn new(desc: &str, line: u32) -> (e: Self)
        ensures
            e@ == (SemaErrorV { desc: desc@, line: line as nat }),
    {
        SemaError { desc: desc.to_owned(), line }
    }
}

} // verus!
