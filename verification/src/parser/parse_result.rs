//! The three-way outcome of trying one grammar rule: the rule matched and
//! produced a node, the rule does not apply at the current position (so a
//! sibling alternative may be tried), or the rule recognized its start and
//! then found the input malformed (a real syntax error that aborts).

use vstd::prelude::*;

verus! {

pub enum ParserResult<T, E> {
    Matched(T),
    NotPresent,
    Failed(E),
}

} // verus!
