//! A structured filter predicate supplied by the host's planner, and its
//! own rendering into query text.

use vstd::prelude::*;
use vstd::string::StringExecFns;
use crate::cells::Cell;
use crate::cells::cell_literal;
use crate::cells::literal_of;

verus! {

/// One filter condition: a column, a comparison operator and the value
/// compared against.
#[derive(Debug, Clone, PartialEq)]
pub struct Qual {
    pub field: String,
    pub operator: String,
    pub value: Cell,
}

/// The rendering of one qualifier: field, operator and the value's
/// literal, separated by single spaces; `None` where the value has no
/// literal rendering.
pub open spec fn qual_text(q: Qual) -> Option<Seq<char>> {
    match literal_of(q.value) {
        Some(l) => Some(q.field@ + " "@ + q.operator@ + " "@ + l),
        None => None,
    }
}

impl Qual {
    /// Renders this qualifier on its own.
    pub fn deparse(&self) -> (r: Option<String>)
        ensures
            r is Some <==> qual_text(*self) is Some,
            r is Some ==> r->Some_0@ == qual_text(*self)->Some_0,
    {
        match cell_literal(&self.value) {
            Some(l) => {
                proof {
                    reveal_strlit(" ");
                }
                let mut s = self.field.clone();
                s.append(" ");
                s.append(self.operator.as_str());
                s.append(" ");
                s.append(l.as_str());
                Some(s)
            },
            None => None,
        }
    }
}

} // verus!
