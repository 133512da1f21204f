//! The buffered columnar result of one executed remote query, and the
//! shape of the engine rows read out of it.

use vstd::prelude::*;
use crate::cells::Cell;
use crate::cells::FdwErrorV;
use crate::cells::RemoteValue;
use crate::cells::cell_of;
use crate::cells::remote_type_name;
use crate::cells::unsupported_type_msg;

verus! {

/// One column of a buffered result: its name and its values, top row
/// first.
#[derive(Debug, Clone, PartialEq)]
pub struct ResultColumn {
    pub name: String,
    pub values: Vec<RemoteValue>,
}

/// The whole buffered result of one query.
#[derive(Debug, Clone, PartialEq)]
pub struct ResultBlock {
    pub n_rows: usize,
    pub cols: Vec<ResultColumn>,
}

impl ResultBlock {
    /// Every column holds exactly one value per row, and the counts fit
    /// the types the estimate is reported in.
    pub open spec fn wf(&self) -> bool {
        &&& forall|j: int|
            0 <= j < self.cols@.len() ==> (#[trigger] self.cols@[j]).values@.len() == self.n_rows
        &&& self.n_rows <= i64::MAX
        &&& self.cols@.len() * 8 <= i32::MAX
    }

    /// Builds a block from equal-length columns; refuses columns that
    /// disagree on the row count, or counts too large to report.
    pub fn new(n_rows: usize, cols: Vec<ResultColumn>) -> (r: Option<ResultBlock>)
        ensures
            match r {
                Some(b) => b.wf() && b.n_rows == n_rows && b.cols == cols,
                None => !(ResultBlock { n_rows, cols }).wf(),
            },
    {
        if n_rows as u64 > 0x7fff_ffff_ffff_ffffu64 {
            return None;
        }
        if cols.len() as u64 > 268435455u64 {
            return None;
        }
        let mut j: usize = 0;
        while j < cols.len()
            invariant
                j <= cols@.len(),
                forall|k: int| 0 <= k < j ==> (#[trigger] cols@[k]).values@.len() == n_rows,
            decreases cols@.len() - j,
        {
            if cols[j].values.len() != n_rows {
                return None;
            }
            j += 1;
        }
        Some(ResultBlock { n_rows, cols })
    }

    /// The number of rows buffered.
    pub fn row_count(&self) -> (r: usize)
        ensures
            r == self.n_rows,
    {
        self.n_rows
    }

    /// The number of columns buffered.
    pub fn column_count(&self) -> (r: usize)
        ensures
            r == self.cols@.len(),
    {
        self.cols.len()
    }
}

/// Every value of row `i` maps under the inbound table.
pub open spec fn row_ok(b: ResultBlock, i: int) -> bool {
    forall|j: int|
        0 <= j < b.cols@.len() ==> cell_of((#[trigger] b.cols@[j]).values@[i]) is Some
}

/// The engine row built from row `i`: one pair per column, in column
/// order, each cell present and mapped under the inbound table.
pub open spec fn spec_row(b: ResultBlock, i: int) -> Seq<(Seq<char>, Option<Cell>)> {
    Seq::new(
        b.cols@.len(),
        |j: int| (b.cols@[j].name@, Some(cell_of(b.cols@[j].values@[i])->Some_0)),
    )
}

/// The error of the first column of row `i`, at or after column `j`,
/// whose value does not map under the inbound table.
pub open spec fn row_err_from(b: ResultBlock, i: int, j: int) -> FdwErrorV
    decreases b.cols@.len() - j,
{
    if j < 0 || j >= b.cols@.len() {
        FdwErrorV::UnsupportedDataType(Seq::empty())
    } else if cell_of(b.cols@[j].values@[i]) is None {
        FdwErrorV::UnsupportedDataType(unsupported_type_msg(remote_type_name(b.cols@[j].values@[i])))
    } else {
        row_err_from(b, i, j + 1)
    }
}

/// The error of the first column of row `i` whose value does not map
/// under the inbound table; meaningful where `row_ok` fails.
pub open spec fn row_err(b: ResultBlock, i: int) -> FdwErrorV {
    row_err_from(b, i, 0)
}

} // verus!
