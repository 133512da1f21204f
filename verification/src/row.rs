//! The engine's per-row value representation: an ordered sequence of
//! column-name and optional-cell pairs, in the column order the engine
//! requested.

use vstd::prelude::*;
use crate::cells::Cell;

verus! {

/// One engine row; the pair order is the column order.
#[derive(Debug, Clone, PartialEq)]
pub struct Row {
    pub cols: Vec<(String, Option<Cell>)>,
}

impl View for Row {
    type V = Seq<(Seq<char>, Option<Cell>)>;

    open spec fn view(&self) -> Seq<(Seq<char>, Option<Cell>)> {
        self.cols@.map_values(|p: (String, Option<Cell>)| (p.0@, p.1))
    }
}

impl Row {
    /// An empty row.
    pub fn new() -> (r: Row)
        ensures
            r@ == Seq::<(Seq<char>, Option<Cell>)>::empty(),
    {
        let r = Row { cols: Vec::new() };
        proof {
            assert(r@ =~= Seq::<(Seq<char>, Option<Cell>)>::empty());
        }
        r
    }

    /// Appends one column.
    pub fn push(&mut self, name: &str, cell: Option<Cell>)
        ensures
            final(self)@ == old(self)@.push((name@, cell)),
    {
        self.cols.push((name.to_owned(), cell));
        proof {
            assert(self@ =~= old(self)@.push((name@, cell)));
        }
    }

    /// The number of columns.
    pub fn len(&self) -> (r: usize)
        ensures
            r == self@.len(),
    {
        self.cols.len()
    }
}

} // verus!
