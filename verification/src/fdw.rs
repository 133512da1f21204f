//! The wrapper facade: the object that carries one foreign-table access
//! session through size estimation, the scan lifecycle and the modify
//! lifecycle.
//!
//! The facade holds no transport: the surrounding glue owns the session
//! to the remote store, asks this object what query or statement to run,
//! and hands back the buffered result. A connection-less instance (blank
//! connection string, or a failed connect) degrades every data operation
//! to an empty or silent no-op rather than failing.

use vstd::prelude::*;
use vstd::string::StringExecFns;
use crate::cells::Cell;
use crate::cells::FdwError;
use crate::cells::FdwErrorV;
use crate::cells::RemoteValue;
use crate::cells::cell_kind_name;
use crate::cells::cell_of;
use crate::cells::literal_of;
use crate::cells::remote_of;
use crate::cells::to_cell;
use crate::cells::to_remote_value;
use crate::cells::unsupported_field_msg;
use crate::block::ResultBlock;
use crate::block::row_err;
use crate::block::row_err_from;
use crate::block::row_ok;
use crate::block::spec_row;
use crate::qual::Qual;
use crate::qual::qual_text;
use crate::row::Row;
use crate::text;

verus! {

/// One foreign-table access session.
pub struct ClickHouseFdw {
    /// Whether the surrounding glue holds a live session to the remote
    /// store; false is the degraded, connection-less mode.
    pub connected: bool,
    /// The remote table name, resolved from the options.
    pub table: String,
    /// The row-identifier column name, resolved from the options.
    pub rowid_col: String,
    /// The buffered result of the last executed scan query, if any.
    pub scan_blk: Option<ResultBlock>,
    /// The scan cursor: the next row to yield.
    pub row_idx: usize,
    /// The errors reported so far, for the glue to forward to the host.
    pub errors: Vec<FdwError>,
}

/// The option pairs as character sequences.
pub open spec fn opts_view(options: Seq<(String, String)>) -> Seq<(Seq<char>, Seq<char>)> {
    options.map_values(|p: (String, String)| (p.0@, p.1@))
}

/// The value under `key`, first match wins; `None` where the key is
/// absent.
pub open spec fn lookup(opts: Seq<(Seq<char>, Seq<char>)>, key: Seq<char>) -> Option<Seq<char>>
    decreases opts.len(),
{
    if opts.len() == 0 {
        None
    } else if opts[0].0 == key {
        Some(opts[0].1)
    } else {
        lookup(opts.drop_first(), key)
    }
}

/// The value under `key`, or the empty string where the key is absent.
pub open spec fn lookup_or_empty(opts: Seq<(Seq<char>, Seq<char>)>, key: Seq<char>) -> Seq<char> {
    match lookup(opts, key) {
        Some(v) => v,
        None => Seq::empty(),
    }
}

/// The message of the error an absent required option raises.
pub open spec fn missing_opt_msg(key: Seq<char>) -> Seq<char> {
    "required option "@ + key + " is not specified"@
}

/// The error a required option raises where its resolved value comes up
/// empty: the key absent from the options, or its value blank.
pub open spec fn blank_err(opts: Seq<(Seq<char>, Seq<char>)>, key: Seq<char>) -> Seq<FdwErrorV> {
    if lookup_or_empty(opts, key).len() == 0 {
        seq![FdwErrorV::ConfigurationMissing(missing_opt_msg(key))]
    } else {
        Seq::empty()
    }
}

/// The errors that resolving the table identity from `opts` raises: one
/// `ConfigurationMissing` per required option whose value comes up
/// empty, table first.
pub open spec fn config_errs(opts: Seq<(Seq<char>, Seq<char>)>) -> Seq<FdwErrorV> {
    blank_err(opts, "table"@) + blank_err(opts, "rowid_column"@)
}

/// The modify path is live: a session exists and the table identity is
/// resolved non-empty. Without it every modify call is a no-op.
pub open spec fn modify_ready(s: ClickHouseFdw) -> bool {
    &&& s.connected
    &&& s.table@.len() > 0
    &&& s.rowid_col@.len() > 0
}

fn missing_option_error(key: &str) -> (r: FdwError)
    ensures
        r.deep_view() == FdwErrorV::ConfigurationMissing(missing_opt_msg(key@)),
{
    proof {
        reveal_strlit("required option ");
        reveal_strlit(" is not specified");
    }
    let mut m = "required option ".to_owned();
    m.append(key);
    m.append(" is not specified");
    FdwError::ConfigurationMissing(m)
}

/// Every qualifier of the set has a rendering of its own.
pub open spec fn quals_ok(quals: Seq<Qual>) -> bool {
    forall|i: int| 0 <= i < quals.len() ==> qual_text(#[trigger] quals[i]) is Some
}

/// The renderings of the qualifiers, in input order.
pub open spec fn qual_texts(quals: Seq<Qual>) -> Seq<Seq<char>> {
    quals.map_values(|q: Qual| qual_text(q)->Some_0)
}

/// The error of the first qualifier, at or after `j`, whose value has no
/// literal rendering.
pub open spec fn first_qual_err_from(quals: Seq<Qual>, j: int) -> FdwErrorV
    decreases quals.len() - j,
{
    if j < 0 || j >= quals.len() {
        FdwErrorV::UnsupportedDataType(Seq::empty())
    } else if qual_text(quals[j]) is None {
        FdwErrorV::UnsupportedDataType(unsupported_field_msg(cell_kind_name(quals[j].value)))
    } else {
        first_qual_err_from(quals, j + 1)
    }
}

/// The scan query: the requested columns joined with commas, the table,
/// and — only where qualifiers exist — a clause that is the AND-join of
/// each qualifier's own rendering, in input order.
pub open spec fn deparse_text(quals: Seq<Qual>, columns: Seq<Seq<char>>, table: Seq<char>) -> Seq<
    char,
> {
    let base = "select "@ + text::join_with(columns, ", "@) + " from "@ + table;
    if quals.len() == 0 {
        base
    } else {
        base + " where "@ + text::join_with(qual_texts(quals), " and "@)
    }
}

/// The insert-batch contribution of one row pair: the outbound value of
/// a present, outbound-supported cell; nothing for an absent cell or an
/// unsupported one.
pub open spec fn batch_item(p: (Seq<char>, Option<Cell>)) -> Seq<(Seq<char>, RemoteValue)> {
    match p.1 {
        Some(c) => match remote_of(c) {
            Some(rv) => seq![(p.0, rv)],
            None => Seq::empty(),
        },
        None => Seq::empty(),
    }
}

/// The error contribution of one row pair on insert: a present cell
/// outside the outbound table reports, the field is dropped, the write
/// goes on.
pub open spec fn batch_err(p: (Seq<char>, Option<Cell>)) -> Seq<FdwErrorV> {
    match p.1 {
        Some(c) => if remote_of(c) is None {
            seq![FdwErrorV::UnsupportedDataType(unsupported_field_msg(cell_kind_name(c)))]
        } else {
            Seq::empty()
        },
        None => Seq::empty(),
    }
}

/// The single-row columnar batch an engine row inserts as.
pub open spec fn batch_items(row: Seq<(Seq<char>, Option<Cell>)>) -> Seq<(Seq<char>, RemoteValue)>
    decreases row.len(),
{
    if row.len() == 0 {
        Seq::empty()
    } else {
        batch_item(row[0]) + batch_items(row.drop_first())
    }
}

/// The errors an engine row reports on insert, in column order.
pub open spec fn batch_errs(row: Seq<(Seq<char>, Option<Cell>)>) -> Seq<FdwErrorV>
    decreases row.len(),
{
    if row.len() == 0 {
        Seq::empty()
    } else {
        batch_err(row[0]) + batch_errs(row.drop_first())
    }
}

proof fn lemma_batch_push(row: Seq<(Seq<char>, Option<Cell>)>, x: (Seq<char>, Option<Cell>))
    ensures
        batch_items(row.push(x)) == batch_items(row) + batch_item(x),
        batch_errs(row.push(x)) == batch_errs(row) + batch_err(x),
    decreases row.len(),
{
    if row.len() == 0 {
        let empt = row.push(x).drop_first();
        assert(row.push(x)[0] == x);
        assert(empt =~= Seq::<(Seq<char>, Option<Cell>)>::empty());
        assert(batch_items(empt) == Seq::<(Seq<char>, RemoteValue)>::empty());
        assert(batch_errs(empt) == Seq::<FdwErrorV>::empty());
        assert(batch_items(row) == Seq::<(Seq<char>, RemoteValue)>::empty());
        assert(batch_errs(row) == Seq::<FdwErrorV>::empty());
        assert(batch_items(row.push(x)) =~= batch_items(row) + batch_item(x));
        assert(batch_errs(row.push(x)) =~= batch_errs(row) + batch_err(x));
    } else {
        assert(row.push(x)[0] == row[0]);
        assert(row.push(x).drop_first() =~= row.drop_first().push(x));
        lemma_batch_push(row.drop_first(), x);
        assert(batch_items(row.push(x)) =~= batch_items(row) + batch_item(x));
        assert(batch_errs(row.push(x)) =~= batch_errs(row) + batch_err(x));
    }
}

/// The name views of an executable batch.
pub open spec fn batch_view(b: Seq<(String, RemoteValue)>) -> Seq<(Seq<char>, RemoteValue)> {
    b.map_values(|p: (String, RemoteValue)| (p.0@, p.1))
}

/// The SET-list contribution of one row pair on update: nothing for the
/// row-identifier column, an explicit null for an absent cell, the
/// column and its literal otherwise; a cell without a literal rendering
/// contributes nothing.
pub open spec fn set_item(p: (Seq<char>, Option<Cell>), rowid: Seq<char>) -> Seq<Seq<char>> {
    if p.0 == rowid {
        Seq::empty()
    } else {
        match p.1 {
            None => seq![p.0 + " = null"@],
            Some(c) => match literal_of(c) {
                Some(l) => seq![p.0 + " = "@ + l],
                None => Seq::empty(),
            },
        }
    }
}

/// The error contribution of one row pair on update: a present cell of
/// a non-identifier column without a literal rendering reports, the
/// field is dropped, the statement goes on.
pub open spec fn set_err(p: (Seq<char>, Option<Cell>), rowid: Seq<char>) -> Seq<FdwErrorV> {
    if p.0 != rowid && (p.1 matches Some(c) && literal_of(c) is None) {
        seq![FdwErrorV::UnsupportedDataType(unsupported_field_msg(cell_kind_name(p.1->Some_0)))]
    } else {
        Seq::empty()
    }
}

/// The SET list an engine row updates with, in column order.
pub open spec fn set_items(row: Seq<(Seq<char>, Option<Cell>)>, rowid: Seq<char>) -> Seq<Seq<char>>
    decreases row.len(),
{
    if row.len() == 0 {
        Seq::empty()
    } else {
        set_item(row[0], rowid) + set_items(row.drop_first(), rowid)
    }
}

/// The errors an engine row reports on update, in column order.
pub open spec fn set_errs(row: Seq<(Seq<char>, Option<Cell>)>, rowid: Seq<char>) -> Seq<FdwErrorV>
    decreases row.len(),
{
    if row.len() == 0 {
        Seq::empty()
    } else {
        set_err(row[0], rowid) + set_errs(row.drop_first(), rowid)
    }
}

proof fn lemma_set_push(
    row: Seq<(Seq<char>, Option<Cell>)>,
    x: (Seq<char>, Option<Cell>),
    rowid: Seq<char>,
)
    ensures
        set_items(row.push(x), rowid) == set_items(row, rowid) + set_item(x, rowid),
        set_errs(row.push(x), rowid) == set_errs(row, rowid) + set_err(x, rowid),
    decreases row.len(),
{
    if row.len() == 0 {
        let empt = row.push(x).drop_first();
        assert(row.push(x)[0] == x);
        assert(empt =~= Seq::<(Seq<char>, Option<Cell>)>::empty());
        assert(set_items(empt, rowid) == Seq::<Seq<char>>::empty());
        assert(set_errs(empt, rowid) == Seq::<FdwErrorV>::empty());
        assert(set_items(row, rowid) == Seq::<Seq<char>>::empty());
        assert(set_errs(row, rowid) == Seq::<FdwErrorV>::empty());
        assert(set_items(row.push(x), rowid) =~= set_items(row, rowid) + set_item(x, rowid));
        assert(set_errs(row.push(x), rowid) =~= set_errs(row, rowid) + set_err(x, rowid));
    } else {
        assert(row.push(x)[0] == row[0]);
        assert(row.push(x).drop_first() =~= row.drop_first().push(x));
        lemma_set_push(row.drop_first(), x, rowid);
        assert(set_items(row.push(x), rowid) =~= set_items(row, rowid) + set_item(x, rowid));
        assert(set_errs(row.push(x), rowid) =~= set_errs(row, rowid) + set_err(x, rowid));
    }
}

/// The mutation statement of an update: the remote store's
/// partition-rewrite form, with the row-identifier column excluded from
/// the SET list.
pub open spec fn update_text(
    table: Seq<char>,
    sets: Seq<Seq<char>>,
    rowid_col: Seq<char>,
    rowid_lit: Seq<char>,
) -> Seq<char> {
    "alter table "@ + table + " update "@ + text::join_with(sets, ", "@) + " where "@ + rowid_col
        + " = "@ + rowid_lit
}

/// The mutation statement of a delete.
pub open spec fn delete_text(table: Seq<char>, rowid_col: Seq<char>, rowid_lit: Seq<char>) -> Seq<
    char,
> {
    "alter table "@ + table + " delete where "@ + rowid_col + " = "@ + rowid_lit
}

/// There is a row left under the cursor.
pub open spec fn has_row(s: ClickHouseFdw) -> bool {
    &&& s.scan_blk is Some
    &&& s.row_idx < s.scan_blk->Some_0.n_rows
}

impl ClickHouseFdw {
    /// The buffered result, where one is held, is well formed.
    pub open spec fn wf(&self) -> bool {
        self.scan_blk matches Some(b) ==> b.wf()
    }

    /// The fields that no data operation changes.
    pub open spec fn same_identity(&self, other: &ClickHouseFdw) -> bool {
        &&& self.connected == other.connected
        &&& self.table == other.table
        &&& self.rowid_col == other.rowid_col
    }

    /// Creates an instance. The glue resolves the connection string and
    /// passes whether a live session exists; a blank connection string
    /// or a failed connect gives the degraded, connection-less mode.
    pub fn new(connected: bool) -> (r: ClickHouseFdw)
        ensures
            r.connected == connected,
            r.table@ == Seq::<char>::empty(),
            r.rowid_col@ == Seq::<char>::empty(),
            r.scan_blk is None,
            r.row_idx == 0,
            r.errors@.len() == 0,
            r.wf(),
    {
        ClickHouseFdw {
            connected,
            table: String::new(),
            rowid_col: String::new(),
            scan_blk: None,
            row_idx: 0,
            errors: Vec::new(),
        }
    }

    /// Resolves one required option: hands back its value, and reports
    /// `ConfigurationMissing` where that value comes up empty — the key
    /// absent, or its value blank.
    pub fn require_option(&mut self, key: &str, options: &Vec<(String, String)>) -> (r: String)
        ensures
            final(self).connected == old(self).connected,
            final(self).table == old(self).table,
            final(self).rowid_col == old(self).rowid_col,
            final(self).scan_blk == old(self).scan_blk,
            final(self).row_idx == old(self).row_idx,
            r@ == lookup_or_empty(opts_view(options@), key@),
            final(self).errors.deep_view() == old(self).errors.deep_view() + blank_err(
                opts_view(options@),
                key@,
            ),
    {
        let ghost ov = opts_view(options@);
        let k: String = key.to_owned();
        let mut found: Option<String> = None;
        let mut i: usize = 0;
        proof {
            assert(ov.skip(0) =~= ov);
        }
        while i < options.len() && found.is_none()
            invariant
                i <= options@.len(),
                ov == opts_view(options@),
                ov.len() == options@.len(),
                k@ == key@,
                found is None ==> lookup(ov, key@) == lookup(ov.skip(i as int), key@),
                found matches Some(v) ==> lookup(ov, key@) == Some(v@),
            decreases options@.len() - i + (if found is None {
                1int
            } else {
                0int
            }),
        {
            proof {
                assert(ov.skip(i as int)[0] == ov[i as int]);
                assert(ov.skip(i as int).drop_first() =~= ov.skip(i as int + 1));
            }
            if options[i].0 == k {
                found = Some(options[i].1.clone());
            } else {
                i += 1;
            }
        }
        match found {
            Some(v) => {
                if v.as_str().is_empty() {
                    let e = missing_option_error(key);
                    self.errors.push(e);
                    proof {
                        assert(self.errors.deep_view() =~= old(self).errors.deep_view()
                            + blank_err(ov, key@));
                    }
                } else {
                    proof {
                        assert(self.errors.deep_view() =~= old(self).errors.deep_view()
                            + blank_err(ov, key@));
                    }
                }
                v
            },
            None => {
                proof {
                    assert(ov.skip(i as int) =~= Seq::<(Seq<char>, Seq<char>)>::empty());
                }
                let e = missing_option_error(key);
                self.errors.push(e);
                proof {
                    assert(self.errors.deep_view() =~= old(self).errors.deep_view() + blank_err(
                        ov,
                        key@,
                    ));
                }
                String::new()
            },
        }
    }

    /// Renders the scan query for this session's table. Fails at the
    /// first qualifier whose value has no literal rendering, with the
    /// error to report.
    pub fn deparse(&self, quals: &Vec<Qual>, columns: &Vec<String>) -> (r: Result<String, FdwError>)
        ensures
            r is Ok <==> quals_ok(quals@),
            r is Ok ==> r->Ok_0@ == deparse_text(quals@, columns.deep_view(), self.table@),
            r is Err ==> r->Err_0.deep_view() == first_qual_err_from(quals@, 0),
    {
        let mut rendered: Vec<String> = Vec::new();
        let mut i: usize = 0;
        while i < quals.len()
            invariant
                i <= quals@.len(),
                forall|k: int| 0 <= k < i ==> qual_text(#[trigger] quals@[k]) is Some,
                rendered.deep_view() == qual_texts(quals@.take(i as int)),
                first_qual_err_from(quals@, 0) == first_qual_err_from(quals@, i as int),
            decreases quals@.len() - i,
        {
            match quals[i].deparse() {
                Some(t) => {
                    rendered.push(t);
                    proof {
                        assert(quals@.take(i as int + 1).map_values(
                            |q: Qual| qual_text(q)->Some_0,
                        ) =~= quals@.take(i as int).map_values(|q: Qual| qual_text(q)->Some_0).push(
                            qual_text(quals@[i as int])->Some_0,
                        ));
                        assert(rendered.deep_view() =~= qual_texts(quals@.take(i as int + 1)));
                    }
                },
                None => {
                    let e = crate::cells::unsupported_field_error(&quals[i].value);
                    return Err(e);
                },
            }
            i += 1;
        }
        proof {
            reveal_strlit("select ");
            reveal_strlit(", ");
            reveal_strlit(" from ");
            reveal_strlit(" where ");
            reveal_strlit(" and ");
            assert(quals@.take(quals@.len() as int) =~= quals@);
        }
        let mut sql = "select ".to_owned();
        let tgts = text::join_strings(columns, ", ");
        sql.append(tgts.as_str());
        sql.append(" from ");
        sql.append(self.table.as_str());
        if quals.len() > 0 {
            sql.append(" where ");
            let cond = text::join_strings(&rendered, " and ");
            sql.append(cond.as_str());
        }
        Ok(sql)
    }

    /// Begins size estimation: resolves the table identity from the
    /// options and renders the scan query. Hands back the query to
    /// execute, or `None` where no remote call is to be made: a blank
    /// or absent table or row-identifier column (each reported as
    /// `ConfigurationMissing`), a connection-less instance, or a
    /// qualifier without a rendering (which reports its error).
    pub fn prepare_estimate(
        &mut self,
        quals: &Vec<Qual>,
        columns: &Vec<String>,
        options: &Vec<(String, String)>,
    ) -> (r: Option<String>)
        ensures
            final(self).connected == old(self).connected,
            final(self).scan_blk == old(self).scan_blk,
            final(self).row_idx == old(self).row_idx,
            final(self).table@ == lookup_or_empty(opts_view(options@), "table"@),
            final(self).rowid_col@ == lookup_or_empty(opts_view(options@), "rowid_column"@),
            r is Some <==> {
                &&& final(self).table@.len() > 0
                &&& final(self).rowid_col@.len() > 0
                &&& old(self).connected
                &&& quals_ok(quals@)
            },
            r is Some ==> r->Some_0@ == deparse_text(
                quals@,
                columns.deep_view(),
                final(self).table@,
            ),
            final(self).errors.deep_view() == old(self).errors.deep_view() + config_errs(
                opts_view(options@),
            ) + (if final(self).table@.len() > 0 && final(self).rowid_col@.len() > 0 && old(
                self,
            ).connected && !quals_ok(quals@) {
                seq![first_qual_err_from(quals@, 0)]
            } else {
                Seq::<FdwErrorV>::empty()
            }),
    {
        let t = self.require_option("table", options);
        self.table = t;
        let rc = self.require_option("rowid_column", options);
        self.rowid_col = rc;
        if self.table.as_str().is_empty() || self.rowid_col.as_str().is_empty() {
            proof {
                assert(self.errors.deep_view() =~= old(self).errors.deep_view() + config_errs(
                    opts_view(options@),
                ));
            }
            return None;
        }
        if !self.connected {
            proof {
                assert(self.errors.deep_view() =~= old(self).errors.deep_view() + config_errs(
                    opts_view(options@),
                ));
            }
            return None;
        }
        match self.deparse(quals, columns) {
            Ok(sql) => {
                proof {
                    assert(self.errors.deep_view() =~= old(self).errors.deep_view() + config_errs(
                        opts_view(options@),
                    ));
                }
                Some(sql)
            },
            Err(e) => {
                self.errors.push(e);
                proof {
                    assert(self.errors.deep_view() =~= old(self).errors.deep_view() + config_errs(
                        opts_view(options@),
                    ) + seq![first_qual_err_from(quals@, 0)]);
                }
                None
            },
        }
    }

    /// Takes in the buffered result of the executed scan query and hands
    /// back the estimate: the row count, and eight bytes per column as a
    /// deliberately crude width heuristic.
    pub fn absorb_result(&mut self, blk: ResultBlock) -> (r: (i64, i32))
        requires
            blk.wf(),
        ensures
            final(self).wf(),
            final(self).same_identity(old(self)),
            final(self).scan_blk == Some(blk),
            final(self).row_idx == old(self).row_idx,
            final(self).errors == old(self).errors,
            r.0 == blk.n_rows as i64,
            r.1 == blk.cols@.len() * 8,
    {
        let rows = blk.row_count();
        let width = blk.column_count() * 8;
        self.scan_blk = Some(blk);
        (rows as i64, width as i32)
    }

    /// Begins a scan over the buffered result: resets the cursor to the
    /// first row. Does not re-execute the query.
    pub fn begin_scan(&mut self)
        ensures
            final(self).row_idx == 0,
            final(self).same_identity(old(self)),
            final(self).scan_blk == old(self).scan_blk,
            final(self).errors == old(self).errors,
            old(self).wf() ==> final(self).wf(),
    {
        self.row_idx = 0;
    }

    /// Ends the scan: releases the buffered result.
    pub fn end_scan(&mut self)
        ensures
            final(self).scan_blk is None,
            final(self).same_identity(old(self)),
            final(self).row_idx == old(self).row_idx,
            final(self).errors == old(self).errors,
            final(self).wf(),
    {
        self.scan_blk = None;
    }

    /// Yields the row under the cursor and advances, or signals
    /// end-of-data: immediately where no result is buffered or the rows
    /// are exhausted, and — fail-soft — where some column of the row
    /// does not map under the inbound table, which reports that
    /// column's error and truncates the scan without advancing.
    pub fn iter_scan(&mut self) -> (r: Option<Row>)
        requires
            old(self).wf(),
        ensures
            final(self).wf(),
            final(self).same_identity(old(self)),
            final(self).scan_blk == old(self).scan_blk,
            r is Some ==> {
                &&& has_row(*old(self))
                &&& row_ok(old(self).scan_blk->Some_0, old(self).row_idx as int)
                &&& final(self).row_idx == old(self).row_idx + 1
                &&& r->Some_0@ == spec_row(old(self).scan_blk->Some_0, old(self).row_idx as int)
                &&& final(self).errors == old(self).errors
            },
            r is None ==> {
                &&& !(has_row(*old(self)) && row_ok(
                    old(self).scan_blk->Some_0,
                    old(self).row_idx as int,
                ))
                &&& final(self).row_idx == old(self).row_idx
                &&& final(self).errors.deep_view() == (if has_row(*old(self)) {
                    old(self).errors.deep_view().push(
                        row_err(old(self).scan_blk->Some_0, old(self).row_idx as int),
                    )
                } else {
                    old(self).errors.deep_view()
                })
            },
    {
        let i = self.row_idx;
        match &self.scan_blk {
            None => None,
            Some(blk) => {
                if i >= blk.n_rows {
                    return None;
                }
                let ghost b = *blk;
                let mut row = Row::new();
                let mut err: Option<FdwError> = None;
                let mut j: usize = 0;
                while j < blk.cols.len() && err.is_none()
                    invariant
                        *blk == b,
                        b.wf(),
                        i < b.n_rows,
                        j <= b.cols@.len(),
                        err is None ==> row@ == spec_row(b, i as int).take(j as int),
                        err is None ==> forall|k: int|
                            0 <= k < j ==> cell_of(
                                (#[trigger] b.cols@[k]).values@[i as int],
                            ) is Some,
                        err is None ==> row_err_from(b, i as int, 0) == row_err_from(
                            b,
                            i as int,
                            j as int,
                        ),
                        err matches Some(e) ==> {
                            &&& !row_ok(b, i as int)
                            &&& e.deep_view() == row_err(b, i as int)
                        },
                    decreases b.cols@.len() - j + (if err is None {
                        1int
                    } else {
                        0int
                    }),
                {
                    let col = &blk.cols[j];
                    match to_cell(&col.values[i]) {
                        Ok(cell) => {
                            row.push(col.name.as_str(), Some(cell));
                            proof {
                                assert(spec_row(b, i as int).take(j as int + 1) =~= spec_row(
                                    b,
                                    i as int,
                                ).take(j as int).push(spec_row(b, i as int)[j as int]));
                            }
                            j += 1;
                        },
                        Err(e) => {
                            err = Some(e);
                        },
                    }
                }
                match err {
                    Some(e) => {
                        self.errors.push(e);
                        proof {
                            assert(self.errors.deep_view() =~= old(self).errors.deep_view().push(
                                row_err(b, i as int),
                            ));
                        }
                        None
                    },
                    None => {
                        proof {
                            assert(spec_row(b, i as int).take(b.cols@.len() as int) =~= spec_row(
                                b,
                                i as int,
                            ));
                        }
                        self.row_idx = i + 1;
                        Some(row)
                    },
                }
            },
        }
    }

    /// Begins a modify session: resolves the table identity from the
    /// options. A blank or absent name fails fast: it is reported as
    /// `ConfigurationMissing`, and every later modify call on the
    /// session is an inert no-op.
    pub fn begin_modify(&mut self, options: &Vec<(String, String)>)
        ensures
            final(self).connected == old(self).connected,
            final(self).scan_blk == old(self).scan_blk,
            final(self).row_idx == old(self).row_idx,
            final(self).table@ == lookup_or_empty(opts_view(options@), "table"@),
            final(self).rowid_col@ == lookup_or_empty(opts_view(options@), "rowid_column"@),
            final(self).errors.deep_view() == old(self).errors.deep_view() + config_errs(
                opts_view(options@),
            ),
            old(self).wf() ==> final(self).wf(),
    {
        let t = self.require_option("table", options);
        self.table = t;
        let rc = self.require_option("rowid_column", options);
        self.rowid_col = rc;
        proof {
            assert(self.errors.deep_view() =~= old(self).errors.deep_view() + config_errs(
                opts_view(options@),
            ));
        }
    }

    /// Converts an engine row into the single-row columnar batch a bulk
    /// insert submits: every present, outbound-supported cell in column
    /// order; an unsupported cell reports and is dropped, the rest is
    /// still sent. Hands back nothing, silently, where the instance is
    /// connection-less or the table identity is unresolved (the blank
    /// was already reported when the modify session began).
    pub fn insert(&mut self, src: &Row) -> (r: Option<Vec<(String, RemoteValue)>>)
        ensures
            final(self).same_identity(old(self)),
            final(self).scan_blk == old(self).scan_blk,
            final(self).row_idx == old(self).row_idx,
            old(self).wf() ==> final(self).wf(),
            r is Some <==> modify_ready(*old(self)),
            !modify_ready(*old(self)) ==> final(self).errors == old(self).errors,
            modify_ready(*old(self)) ==> {
                &&& batch_view(r->Some_0@) == batch_items(src@)
                &&& final(self).errors.deep_view() == old(self).errors.deep_view() + batch_errs(
                    src@,
                )
            },
    {
        if !self.connected {
            return None;
        }
        if self.table.as_str().is_empty() || self.rowid_col.as_str().is_empty() {
            return None;
        }
        let mut batch: Vec<(String, RemoteValue)> = Vec::new();
        let mut k: usize = 0;
        proof {
            assert(batch_view(batch@) =~= batch_items(src@.take(0)));
            assert(self.errors.deep_view() =~= old(self).errors.deep_view() + batch_errs(
                src@.take(0),
            ));
        }
        while k < src.cols.len()
            invariant
                k <= src.cols@.len(),
                src@.len() == src.cols@.len(),
                self.connected == old(self).connected,
                self.table == old(self).table,
                self.rowid_col == old(self).rowid_col,
                self.scan_blk == old(self).scan_blk,
                self.row_idx == old(self).row_idx,
                batch_view(batch@) == batch_items(src@.take(k as int)),
                self.errors.deep_view() == old(self).errors.deep_view() + batch_errs(
                    src@.take(k as int),
                ),
            decreases src.cols@.len() - k,
        {
            let ghost prefix = src@.take(k as int);
            let p = &src.cols[k];
            proof {
                assert(src@[k as int] == (p.0@, p.1));
                assert(src@.take(k as int + 1) =~= prefix.push(src@[k as int]));
                lemma_batch_push(prefix, src@[k as int]);
            }
            match &p.1 {
                Some(cell) => match to_remote_value(cell) {
                    Ok(rv) => {
                        batch.push((p.0.clone(), rv));
                        proof {
                            assert(batch_view(batch@) =~= batch_view(batch@.drop_last()).push(
                                (p.0@, rv),
                            ));
                            assert(batch_view(batch@) =~= batch_items(src@.take(k as int + 1)));
                        }
                    },
                    Err(e) => {
                        let ghost prev_dv = self.errors.deep_view();
                        let ghost e_dv = e.deep_view();
                        self.errors.push(e);
                        proof {
                            assert(self.errors.deep_view() =~= prev_dv.push(e_dv));
                            assert(prev_dv.push(e_dv) =~= old(self).errors.deep_view()
                                + batch_errs(src@.take(k as int + 1)));
                        }
                    },
                },
                None => {
                    proof {
                        assert(batch_view(batch@) =~= batch_items(src@.take(k as int + 1)));
                    }
                },
            }
            k += 1;
        }
        proof {
            assert(src@.take(src.cols@.len() as int) =~= src@);
        }
        Some(batch)
    }

    /// Builds the textual mutation statement of an update: every
    /// non-identifier column of the new row in its SET list, an absent
    /// cell as an explicit null; a cell without a literal rendering
    /// reports and is dropped. Hands back nothing where the instance is
    /// connection-less or the table identity is unresolved (silently),
    /// or where the row identifier itself has no literal rendering
    /// (which reports).
    pub fn update(&mut self, rowid: &Cell, new_row: &Row) -> (r: Option<String>)
        ensures
            final(self).same_identity(old(self)),
            final(self).scan_blk == old(self).scan_blk,
            final(self).row_idx == old(self).row_idx,
            old(self).wf() ==> final(self).wf(),
            !modify_ready(*old(self)) ==> r is None && final(self).errors == old(self).errors,
            modify_ready(*old(self)) ==> match literal_of(*rowid) {
                Some(rlit) => {
                    &&& r matches Some(s)
                    &&& s@ == update_text(
                        old(self).table@,
                        set_items(new_row@, old(self).rowid_col@),
                        old(self).rowid_col@,
                        rlit,
                    )
                    &&& final(self).errors.deep_view() == old(self).errors.deep_view() + set_errs(
                        new_row@,
                        old(self).rowid_col@,
                    )
                },
                None => {
                    &&& r is None
                    &&& final(self).errors.deep_view() == old(self).errors.deep_view().push(
                        FdwErrorV::UnsupportedDataType(
                            unsupported_field_msg(cell_kind_name(*rowid)),
                        ),
                    )
                },
            },
    {
        if !self.connected {
            return None;
        }
        if self.table.as_str().is_empty() || self.rowid_col.as_str().is_empty() {
            return None;
        }
        let rlit = match crate::cells::cell_literal(rowid) {
            Some(l) => l,
            None => {
                let e = crate::cells::unsupported_field_error(rowid);
                self.errors.push(e);
                return None;
            },
        };
        let ghost rowid_v = self.rowid_col@;
        let mut sets: Vec<String> = Vec::new();
        let mut k: usize = 0;
        proof {
            reveal_strlit(" = null");
            reveal_strlit(" = ");
            assert(sets.deep_view() =~= set_items(new_row@.take(0), rowid_v));
            assert(self.errors.deep_view() =~= old(self).errors.deep_view() + set_errs(
                new_row@.take(0),
                rowid_v,
            ));
        }
        while k < new_row.cols.len()
            invariant
                k <= new_row.cols@.len(),
                new_row@.len() == new_row.cols@.len(),
                self.connected == old(self).connected,
                self.table == old(self).table,
                self.rowid_col == old(self).rowid_col,
                rowid_v == self.rowid_col@,
                self.scan_blk == old(self).scan_blk,
                self.row_idx == old(self).row_idx,
                sets.deep_view() == set_items(new_row@.take(k as int), rowid_v),
                self.errors.deep_view() == old(self).errors.deep_view() + set_errs(
                    new_row@.take(k as int),
                    rowid_v,
                ),
            decreases new_row.cols@.len() - k,
        {
            let ghost prefix = new_row@.take(k as int);
            let p = &new_row.cols[k];
            proof {
                reveal_strlit(" = null");
                reveal_strlit(" = ");
                assert(new_row@[k as int] == (p.0@, p.1));
                assert(new_row@.take(k as int + 1) =~= prefix.push(new_row@[k as int]));
                lemma_set_push(prefix, new_row@[k as int], rowid_v);
            }
            if p.0 == self.rowid_col {
                proof {
                    assert(sets.deep_view() =~= set_items(new_row@.take(k as int + 1), rowid_v));
                }
            } else {
                match &p.1 {
                    None => {
                        let mut s = p.0.clone();
                        s.append(" = null");
                        sets.push(s);
                        proof {
                            assert(sets.deep_view() =~= set_items(
                                new_row@.take(k as int + 1),
                                rowid_v,
                            ));
                        }
                    },
                    Some(c) => match crate::cells::cell_literal(c) {
                        Some(l) => {
                            let mut s = p.0.clone();
                            s.append(" = ");
                            s.append(l.as_str());
                            sets.push(s);
                            proof {
                                assert(sets.deep_view() =~= set_items(
                                    new_row@.take(k as int + 1),
                                    rowid_v,
                                ));
                            }
                        },
                        None => {
                            let e = crate::cells::unsupported_field_error(c);
                            let ghost prev_dv = self.errors.deep_view();
                            let ghost e_dv = e.deep_view();
                            self.errors.push(e);
                            proof {
                                assert(self.errors.deep_view() =~= prev_dv.push(e_dv));
                                assert(prev_dv.push(e_dv) =~= old(self).errors.deep_view()
                                    + set_errs(new_row@.take(k as int + 1), rowid_v));
                            }
                        },
                    },
                }
            }
            k += 1;
        }
        proof {
            reveal_strlit("alter table ");
            reveal_strlit(" update ");
            reveal_strlit(", ");
            reveal_strlit(" where ");
            assert(new_row@.take(new_row.cols@.len() as int) =~= new_row@);
        }
        let mut sql = "alter table ".to_owned();
        sql.append(self.table.as_str());
        sql.append(" update ");
        let joined = text::join_strings(&sets, ", ");
        sql.append(joined.as_str());
        sql.append(" where ");
        sql.append(self.rowid_col.as_str());
        sql.append(" = ");
        sql.append(rlit.as_str());
        Some(sql)
    }

    /// Builds the textual mutation statement of a delete, keyed by the
    /// row identifier's literal. Hands back nothing where the instance
    /// is connection-less or the table identity is unresolved
    /// (silently), or where the row identifier has no literal rendering
    /// (which reports).
    pub fn delete(&mut self, rowid: &Cell) -> (r: Option<String>)
        ensures
            final(self).same_identity(old(self)),
            final(self).scan_blk == old(self).scan_blk,
            final(self).row_idx == old(self).row_idx,
            old(self).wf() ==> final(self).wf(),
            !modify_ready(*old(self)) ==> r is None && final(self).errors == old(self).errors,
            modify_ready(*old(self)) ==> match literal_of(*rowid) {
                Some(rlit) => {
                    &&& r matches Some(s)
                    &&& s@ == delete_text(old(self).table@, old(self).rowid_col@, rlit)
                    &&& final(self).errors == old(self).errors
                },
                None => {
                    &&& r is None
                    &&& final(self).errors.deep_view() == old(self).errors.deep_view().push(
                        FdwErrorV::UnsupportedDataType(
                            unsupported_field_msg(cell_kind_name(*rowid)),
                        ),
                    )
                },
            },
    {
        if !self.connected {
            return None;
        }
        if self.table.as_str().is_empty() || self.rowid_col.as_str().is_empty() {
            return None;
        }
        let rlit = match crate::cells::cell_literal(rowid) {
            Some(l) => l,
            None => {
                let e = crate::cells::unsupported_field_error(rowid);
                self.errors.push(e);
                return None;
            },
        };
        proof {
            reveal_strlit("alter table ");
            reveal_strlit(" delete where ");
            reveal_strlit(" = ");
        }
        let mut sql = "alter table ".to_owned();
        sql.append(self.table.as_str());
        sql.append(" delete where ");
        sql.append(self.rowid_col.as_str());
        sql.append(" = ");
        sql.append(rlit.as_str());
        Some(sql)
    }

    /// Ends a modify session; there is nothing to release.
    pub fn end_modify(&mut self)
        ensures
            *final(self) == *old(self),
    {
    }

    /// Hands out the errors reported so far and clears the report, for
    /// the glue to forward to the host.
    pub fn take_errors(&mut self) -> (r: Vec<FdwError>)
        ensures
            r == old(self).errors,
            final(self).errors@.len() == 0,
            final(self).same_identity(old(self)),
            final(self).scan_blk == old(self).scan_blk,
            final(self).row_idx == old(self).row_idx,
            old(self).wf() ==> final(self).wf(),
    {
        let mut out: Vec<FdwError> = Vec::new();
        core::mem::swap(&mut self.errors, &mut out);
        out
    }
}

} // verus!
