//! The processor: validates the requested field names, owns the
//! accumulating relation, inserts extracted records, and executes the
//! configured queries.
//!
//! The relation lives in an in-memory SQL database; every statement that
//! reaches it goes through the trusted items at the bottom of this file,
//! whose contracts speak of the table's rows as a sequence of typed cells.

use vstd::prelude::*;

use rusqlite::types::Value as SqlCell;

use crate::TopError;
use crate::extract::{is_digit, FieldValue, FieldValueModel, Record};
use crate::format::{is_var_char, var_char};
use crate::queries::{
    default_query, spec_avg_query, spec_default_query, spec_print_query, spec_sum_query,
    spec_top_query,
};
use crate::registry::{is_known_variable, spec_is_known};
use crate::strutil::{str_eq, views_of};

verus! {

/// One executed query's result: its column names and its rows, every cell
/// rendered as text.
#[derive(Debug)]
pub struct QueryResult {
    pub columns: Vec<String>,
    pub rows: Vec<Vec<String>>,
}

/// The result's rows are exactly the text rendering of the cell matrix
/// `raw`, which is rectangular with one cell per column.
pub open spec fn rendering_matches(qr: QueryResult, raw: Seq<Seq<SqlCell>>) -> bool {
    &&& qr.rows@.len() == raw.len()
    &&& forall|i: int| 0 <= i < raw.len() ==> (#[trigger] qr.rows@[i])@.len() == raw[i].len()
    &&& forall|i: int| 0 <= i < raw.len() ==> (#[trigger] raw[i]).len() == qr.columns@.len()
    &&& forall|i: int, j: int|
        0 <= i < raw.len() && 0 <= j < raw[i].len() ==> ((#[trigger] qr.rows@[i])@[j])@
            == spec_cell_text(#[trigger] raw[i][j])
}

/// The result is the rendering of some rectangular cell matrix the engine
/// returned: one cell per column in every row, each rendered by
/// `spec_cell_text`.
pub open spec fn result_rendered(qr: QueryResult) -> bool {
    exists|raw: Seq<Seq<SqlCell>>| #[trigger] rendering_matches(qr, raw)
}

/// The models of a matrix of cells.
pub open spec fn models_of(raw: Seq<Seq<SqlCell>>) -> Seq<Seq<FieldValueModel>> {
    raw.map_values(|r: Seq<SqlCell>| r.map_values(|v: SqlCell| cell_model(v)))
}

/// The values one column of the relation holds, in row order.
pub open spec fn column_of(rows: Seq<Seq<FieldValueModel>>, j: int) -> Seq<FieldValueModel> {
    rows.map_values(|r: Seq<FieldValueModel>| r[j])
}

/// How many times the column holds the value.
pub open spec fn count_of(col: Seq<FieldValueModel>, v: FieldValueModel) -> nat {
    col.filter(|x: FieldValueModel| x == v).len()
}

/// The sum of the column's integer values.
pub open spec fn col_sum(col: Seq<FieldValueModel>) -> int
    decreases col.len(),
{
    if col.len() == 0 {
        0
    } else {
        col_sum(col.drop_last()) + (match col.last() {
            FieldValueModel::Int(n) => n,
            _ => 0,
        })
    }
}

/// Every value of the column is an integer.
pub open spec fn int_column(col: Seq<FieldValueModel>) -> bool {
    forall|i: int| 0 <= i < col.len() ==> (#[trigger] col[i]) is Int
}

/// The index of the column named `f`.
pub open spec fn col_index(cols: Seq<Seq<char>>, f: Seq<char>) -> int {
    choose|j: int| 0 <= j < cols.len() && cols[j] == f
}

/// The value column of the result rows never repeats.
pub open spec fn distinct_first(res: Seq<Seq<FieldValueModel>>) -> bool {
    forall|i1: int, i2: int|
        0 <= i1 < i2 < res.len() ==> (#[trigger] res[i1])[0] != (#[trigger] res[i2])[0]
}

/// What the top query over column `f` returns, read over the relation's
/// rows: at most `limit` rows of (distinct column value, its exact
/// multiplicity), counts descending, no omitted value counted higher than
/// a reported one, and complete when under the limit.
pub open spec fn top_ok(
    res: Seq<Seq<FieldValueModel>>,
    rows0: Seq<Seq<FieldValueModel>>,
    cols0: Seq<Seq<char>>,
    f: Seq<char>,
    limit: u64,
) -> bool {
    let col = column_of(rows0, col_index(cols0, f));
    &&& res.len() <= limit
    &&& forall|i: int| 0 <= i < res.len() ==> (#[trigger] res[i]).len() == 2
    &&& forall|i: int| 0 <= i < res.len() ==> col.contains((#[trigger] res[i])[0])
    &&& forall|i: int|
        0 <= i < res.len() ==> (#[trigger] res[i])[1] == FieldValueModel::Int(
            count_of(col, res[i][0]) as int,
        )
    &&& forall|i1: int, i2: int|
        0 <= i1 < i2 < res.len() ==> count_of(col, (#[trigger] res[i1])[0]) >= count_of(
            col,
            (#[trigger] res[i2])[0],
        )
    &&& distinct_first(res)
    &&& (res.len() < limit ==> forall|v: FieldValueModel|
        #[trigger] col.contains(v) ==> exists|i: int|
            0 <= i < res.len() && (#[trigger] res[i])[0] == v)
    &&& forall|v: FieldValueModel, i: int|
        #[trigger] col.contains(v) && 0 <= i < res.len() && (forall|i2: int|
            0 <= i2 < res.len() ==> (#[trigger] res[i2])[0] != v) ==> count_of(col, v) <= count_of(
            col,
            (#[trigger] res[i])[0],
        )
}

/// What the sum query over the fields returns: one row, one cell per
/// field, and over a nonempty relation an integer column's cell is its
/// exact sum.
pub open spec fn sum_ok(
    res: Seq<Seq<FieldValueModel>>,
    rows0: Seq<Seq<FieldValueModel>>,
    cols0: Seq<Seq<char>>,
    fs: Seq<Seq<char>>,
) -> bool {
    &&& res.len() == 1
    &&& res[0].len() == fs.len()
    &&& forall|j: int, cj: int|
        0 <= j < fs.len() && 0 <= cj < cols0.len() && #[trigger] cols0[cj] == #[trigger] fs[j]
            && int_column(column_of(rows0, cj)) && rows0.len() > 0 ==> res[0][j]
            == FieldValueModel::Int(col_sum(column_of(rows0, cj)))
}

/// What the print query returns: the duplicate-free projection of the
/// relation onto all its columns — every relation row once, nothing else.
pub open spec fn print_ok(res: Seq<Seq<FieldValueModel>>, rows0: Seq<Seq<FieldValueModel>>) -> bool {
    &&& forall|i: int| 0 <= i < res.len() ==> rows0.contains(#[trigger] res[i])
    &&& forall|i1: int, i2: int|
        0 <= i1 < i2 < res.len() ==> (#[trigger] res[i1]) != (#[trigger] res[i2])
    &&& forall|r: Seq<FieldValueModel>|
        #[trigger] rows0.contains(r) ==> exists|i: int| 0 <= i < res.len() && (#[trigger] res[i])
            == r
}

/// What the default report query returns: groups of the group-by column,
/// each with its exact multiplicity, only groups reaching the having
/// threshold, at most `limit` rows, complete when under the limit, and
/// count-descending when ordering by `count`.
pub open spec fn default_ok(
    res: Seq<Seq<FieldValueModel>>,
    rows0: Seq<Seq<FieldValueModel>>,
    cols0: Seq<Seq<char>>,
    g: Seq<char>,
    having: u64,
    order_by: Seq<char>,
    limit: u64,
) -> bool {
    let col = column_of(rows0, col_index(cols0, g));
    &&& res.len() <= limit
    &&& forall|i: int| 0 <= i < res.len() ==> (#[trigger] res[i]).len() == 3
    &&& forall|i: int| 0 <= i < res.len() ==> col.contains((#[trigger] res[i])[0])
    &&& forall|i: int|
        0 <= i < res.len() ==> (#[trigger] res[i])[1] == FieldValueModel::Int(
            count_of(col, res[i][0]) as int,
        ) && count_of(col, res[i][0]) >= having
    &&& distinct_first(res)
    &&& (res.len() < limit ==> forall|v: FieldValueModel|
        #[trigger] col.contains(v) && count_of(col, v) >= having ==> exists|i: int|
            0 <= i < res.len() && (#[trigger] res[i])[0] == v)
    &&& (order_by == "count"@ ==> forall|i1: int, i2: int|
        0 <= i1 < i2 < res.len() ==> count_of(col, (#[trigger] res[i1])[0]) >= count_of(
            col,
            (#[trigger] res[i2])[0],
        ))
}

/// Every name in the list is a plain identifier.
pub open spec fn all_idents(fs: Seq<Seq<char>>) -> bool {
    forall|j: int| 0 <= j < fs.len() ==> is_sql_ident(#[trigger] fs[j])
}

/// What a query's result means when its text is one of the built-in
/// shapes over plain identifiers, read over the relation as it stood when
/// the query ran.
pub open spec fn shape_ok(
    q: Seq<char>,
    res: Seq<Seq<FieldValueModel>>,
    rows0: Seq<Seq<FieldValueModel>>,
    cols0: Seq<Seq<char>>,
) -> bool {
    &&& forall|f: Seq<char>, l: u64|
        q == #[trigger] spec_top_query(f, l) && is_sql_ident(f) && cols0.contains(f) ==> top_ok(
            res,
            rows0,
            cols0,
            f,
            l,
        )
    &&& forall|fs: Seq<Seq<char>>|
        q == #[trigger] spec_sum_query(fs) && all_idents(fs) ==> sum_ok(res, rows0, cols0, fs)
    &&& forall|fs: Seq<Seq<char>>|
        q == #[trigger] spec_avg_query(fs) && all_idents(fs) ==> res.len() == 1 && res[0].len()
            == fs.len()
    &&& (q == spec_print_query(cols0) && all_idents(cols0) ==> print_ok(res, rows0))
    &&& forall|g: Seq<char>, h: u64, o: Seq<char>, l: u64|
        q == #[trigger] spec_default_query(g, h, o, l) && is_sql_ident(g) && is_sql_ident(o)
            && cols0.contains(g) ==> default_ok(res, rows0, cols0, g, h, o, l)
}

/// The text is one of the built-in shapes over plain identifiers: a
/// single SELECT statement, which reads the relation and never writes it.
pub open spec fn is_builtin_text(q: Seq<char>) -> bool {
    ||| exists|f: Seq<char>, l: u64| q == #[trigger] spec_top_query(f, l) && is_sql_ident(f)
    ||| exists|fs: Seq<Seq<char>>| q == #[trigger] spec_sum_query(fs) && all_idents(fs)
    ||| exists|fs: Seq<Seq<char>>| q == #[trigger] spec_avg_query(fs) && all_idents(fs)
    ||| exists|cs: Seq<Seq<char>>| q == #[trigger] spec_print_query(cs) && all_idents(cs)
    ||| exists|g: Seq<char>, h: u64, o: Seq<char>, l: u64|
        q == #[trigger] spec_default_query(g, h, o, l) && is_sql_ident(g) && is_sql_ident(o)
}

/// The result is the rendering of a cell matrix whose values satisfy the
/// built-in shape semantics of the query text over the given relation.
pub open spec fn builtin_result_ok(
    q: Seq<char>,
    qr: QueryResult,
    rows0: Seq<Seq<FieldValueModel>>,
    cols0: Seq<Seq<char>>,
) -> bool {
    exists|raw: Seq<Seq<SqlCell>>|
        #[trigger] rendering_matches(qr, raw) && shape_ok(q, models_of(raw), rows0, cols0)
}

/// A name usable as a relation column: nonempty, made of ASCII letters,
/// digits and underscores, not starting with a digit.
pub open spec fn is_sql_ident(s: Seq<char>) -> bool {
    s.len() > 0 && !is_digit(s[0]) && (forall|j: int|
        0 <= j < s.len() ==> is_var_char(#[trigger] s[j]))
}

/// Decides `is_sql_ident`.
pub fn sql_ident(s: &str) -> (r: bool)
    ensures
        r == is_sql_ident(s@),
{
    let n = s.unicode_len();
    if n == 0 {
        return false;
    }
    let c0 = s.get_char(0);
    if 48 <= (c0 as u32) && (c0 as u32) < 58 {
        return false;
    }
    let mut i: usize = 0;
    while i < n
        invariant
            i <= n,
            n == s@.len(),
            forall|j: int| 0 <= j < i ==> is_var_char(#[trigger] s@[j]),
        decreases n - i,
    {
        if !var_char(s.get_char(i)) {
            return false;
        }
        i += 1;
    }
    true
}

/// A field may be requested when it is a registered variable or one of the
/// reserved derived names.
pub open spec fn spec_field_ok(f: Seq<char>) -> bool {
    f == "status_type"@ || f == "bytes_sent"@ || f == "request_path"@ || spec_is_known(f)
}

/// Every requested field is admissible.
pub open spec fn all_fields_ok(fields: Seq<Seq<char>>) -> bool {
    forall|i: int| 0 <= i < fields.len() ==> spec_field_ok(#[trigger] fields[i])
}

/// Decides `spec_field_ok`.
pub fn field_ok(f: &str) -> (r: bool)
    ensures
        r == spec_field_ok(f@),
{
    str_eq(f, "status_type") || str_eq(f, "bytes_sent") || str_eq(f, "request_path")
        || is_known_variable(f)
}

/// What construction of a processor over the given fields and queries
/// guarantees: admissible fields yield a well-formed processor over an
/// empty relation, an inadmissible field is refused with `FieldError`
/// before any input is read, and only the storage engine's own refusals
/// surface as `StoreError`.
pub open spec fn new_post(
    r: Result<Processor, TopError>,
    fields: Seq<Seq<char>>,
    queries: Seq<Seq<char>>,
) -> bool {
    &&& (!all_fields_ok(fields) ==> (r matches Err(e) && e is FieldError))
    &&& match r {
        Ok(p) => {
            &&& all_fields_ok(fields)
            &&& p.wf()
            &&& p.cols_synced()
            &&& views_of(p.fields@) == fields
            &&& views_of(p.queries@) == queries
            &&& p.rows() == Seq::<Seq<FieldValueModel>>::empty()
        },
        Err(e) => {
            &&& (e is FieldError ==> !all_fields_ok(fields))
            &&& (e is FieldError || e is StoreError)
        },
    }
}

/// The models of a sequence of records.
pub open spec fn records_models(records: Seq<Record>) -> Seq<Seq<FieldValueModel>> {
    records.map_values(|rec: Record| rec@)
}

/// The processor: the requested fields (the relation's columns), the
/// queries to run at report time, and the relation itself.
pub struct Processor {
    pub fields: Vec<String>,
    pub queries: Vec<String>,
    pub conn: rusqlite::Connection,
}

impl Processor {
    /// The relation's current rows.
    pub open spec fn rows(&self) -> Seq<Seq<FieldValueModel>> {
        log_rows(self.conn)
    }

    /// The relation's columns are exactly the requested fields, in order.
    /// Construction establishes this and insertion keeps it; running
    /// arbitrary report queries may give it up.
    pub open spec fn cols_synced(&self) -> bool {
        log_cols(self.conn) == views_of(self.fields@)
    }

    /// Well-formed: there is at least one field, every field is
    /// admissible, and every field name is usable as a column name.
    pub open spec fn wf(&self) -> bool {
        &&& self.fields@.len() > 0
        &&& all_fields_ok(views_of(self.fields@))
        &&& forall|i: int|
            0 <= i < self.fields@.len() ==> is_sql_ident(#[trigger] views_of(self.fields@)[i])
    }

    /// Builds a processor: validates every requested field name, then
    /// opens an empty relation with one column per field.
    pub fn new(fields: Vec<String>, queries: Vec<String>) -> (r: Result<Processor, TopError>)
        ensures
            new_post(r, views_of(fields@), views_of(queries@)),
    {
        let mut i: usize = 0;
        while i < fields.len()
            invariant
                i <= fields.len(),
                forall|j: int| 0 <= j < i ==> spec_field_ok(#[trigger] views_of(fields@)[j]),
            decreases fields.len() - i,
        {
            if !field_ok(fields[i].as_str()) {
                proof {
                    assert(views_of(fields@)[i as int] == fields@[i as int]@);
                    assert(!all_fields_ok(views_of(fields@)));
                }
                let mut m = String::from_str("unknown field name: ");
                m.append(fields[i].as_str());
                return Err(TopError::FieldError(m));
            }
            i += 1;
        }
        proof {
            assert(all_fields_ok(views_of(fields@)));
        }
        if fields.len() == 0 {
            return Err(TopError::StoreError(String::from_str("no fields requested")));
        }
        let mut j: usize = 0;
        while j < fields.len()
            invariant
                j <= fields.len(),
                all_fields_ok(views_of(fields@)),
                forall|k: int| 0 <= k < j ==> is_sql_ident(#[trigger] views_of(fields@)[k]),
            decreases fields.len() - j,
        {
            if !sql_ident(fields[j].as_str()) {
                let mut m = String::from_str("field name not usable as a column: ");
                m.append(fields[j].as_str());
                return Err(TopError::StoreError(m));
            }
            j += 1;
        }
        let mut conn = match db_open() {
            Ok(c) => c,
            Err(m) => {
                return Err(TopError::StoreError(m));
            },
        };
        match db_create_table(&mut conn, &fields) {
            Ok(()) => {},
            Err(m) => {
                return Err(TopError::StoreError(m));
            },
        }
        Ok(Processor { fields, queries, conn })
    }

    /// Inserts every record as one row, in order, inside one transaction:
    /// either the whole batch is appended or, on a storage failure, the
    /// batch is rolled back and the relation keeps exactly its prior rows.
    /// Only if the engine also fails to roll the batch back — a defect,
    /// not an expected condition — can a prefix of the batch remain.
    pub fn process(&mut self, records: Vec<Record>) -> (r: Result<(), TopError>)
        requires
            old(self).wf(),
            old(self).cols_synced(),
            forall|i: int|
                0 <= i < records@.len() ==> (#[trigger] records@[i]).values@.len() == old(
                    self,
                ).fields@.len(),
        ensures
            final(self).wf(),
            final(self).fields@ == old(self).fields@,
            final(self).queries@ == old(self).queries@,
            final(self).cols_synced(),
            records@.len() == 0 ==> r is Ok,
            match r {
                Ok(_) => final(self).rows() == old(self).rows() + records_models(records@),
                Err(e) => e is StoreError && (final(self).rows() == old(self).rows()
                    || exists|k: int|
                    0 <= k <= records@.len() && final(self).rows() == old(self).rows() + (
                    #[trigger] records_models(records@).take(k))),
            },
    {
        let ghost all = records_models(records@);
        if records.len() == 0 {
            proof {
                assert(self.rows() =~= old(self).rows() + all);
            }
            return Ok(());
        }
        match db_begin(&mut self.conn) {
            Ok(()) => {},
            Err(m) => {
                return Err(TopError::StoreError(m));
            },
        }
        let mut i: usize = 0;
        while i < records.len()
            invariant
                i <= records.len(),
                self.wf(),
                self.cols_synced(),
                self.fields@ == old(self).fields@,
                self.queries@ == old(self).queries@,
                all == records_models(records@),
                forall|k: int|
                    0 <= k < records@.len() ==> (#[trigger] records@[k]).values@.len()
                        == self.fields@.len(),
                self.rows() == old(self).rows() + all.take(i as int),
                saved_rows(self.conn) == old(self).rows(),
                saved_cols(self.conn) == log_cols(self.conn),
            decreases records.len() - i,
        {
            match db_insert(&mut self.conn, &self.fields, &records[i].values) {
                Ok(()) => {},
                Err(m) => {
                    match db_rollback(&mut self.conn) {
                        Ok(()) => {
                            return Err(TopError::StoreError(m));
                        },
                        Err(m2) => {
                            proof {
                                assert(0 <= i <= records@.len() && self.rows() == old(self).rows()
                                    + all.take(i as int));
                            }
                            return Err(TopError::StoreError(m2));
                        },
                    }
                },
            }
            proof {
                assert(records@[i as int]@ == records@[i as int].values@.map_values(
                    |v: FieldValue| v@,
                ));
                assert(all.take(i + 1) =~= all.take(i as int).push(all[i as int]));
                assert(self.rows() =~= old(self).rows() + all.take(i + 1));
            }
            i += 1;
        }
        proof {
            assert(all.take(records@.len() as int) =~= all);
        }
        match db_release(&mut self.conn) {
            Ok(()) => Ok(()),
            Err(m) => {
                proof {
                    let k = records@.len() as int;
                    assert(0 <= k <= records@.len() && self.rows() == old(self).rows() + all.take(
                        k,
                    ));
                }
                Err(TopError::StoreError(m))
            },
        }
    }

    /// Executes each configured query in order against the relation, each
    /// inside its own savepoint, and yields one result per query: its
    /// column names and its rows, every cell the rendering of what the
    /// engine returned.  When every configured query is one of the
    /// built-in shapes, each result carries that shape's semantics over
    /// the relation as it stood when the report began.  The first failure
    /// aborts the report with
    /// `QueryError`, after rolling the failed statement back, so a report
    /// that ran a single query and failed leaves the relation's rows
    /// exactly as they were.  When the engine also fails to roll back or
    /// to close a savepoint — a defect, not an expected condition — the
    /// abort surfaces as `StoreError` instead.
    pub fn report(&mut self) -> (r: Result<Vec<QueryResult>, TopError>)
        requires
            old(self).wf(),
        ensures
            final(self).wf(),
            final(self).fields@ == old(self).fields@,
            final(self).queries@ == old(self).queries@,
            old(self).queries@.len() == 0 ==> r is Ok,
            match r {
                Ok(results) => results@.len() == old(self).queries@.len() && (forall|k: int|
                    0 <= k < results@.len() ==> result_rendered(#[trigger] results@[k])) && ((
                forall|kk: int|
                    0 <= kk < old(self).queries@.len() ==> is_builtin_text(
                        #[trigger] views_of(old(self).queries@)[kk],
                    )) ==> forall|k: int|
                    0 <= k < results@.len() ==> builtin_result_ok(
                        views_of(old(self).queries@)[k],
                        #[trigger] results@[k],
                        old(self).rows(),
                        log_cols(old(self).conn),
                    )),
                Err(e) => (e is QueryError || e is StoreError) && ((e is QueryError && old(
                    self,
                ).queries@.len() <= 1) ==> final(self).rows() == old(self).rows()),
            },
    {
        let mut out: Vec<QueryResult> = Vec::new();
        let mut i: usize = 0;
        while i < self.queries.len()
            invariant
                i <= self.queries@.len(),
                self.wf(),
                self.fields@ == old(self).fields@,
                self.queries@ == old(self).queries@,
                out@.len() == i,
                forall|k: int| 0 <= k < i ==> result_rendered(#[trigger] out@[k]),
                i == 0 ==> self.rows() == old(self).rows(),
                (forall|kk: int|
                    0 <= kk < old(self).queries@.len() ==> is_builtin_text(
                        #[trigger] views_of(old(self).queries@)[kk],
                    )) ==> (log_rows(self.conn) == old(self).rows() && log_cols(self.conn)
                    == log_cols(old(self).conn)),
                (forall|kk: int|
                    0 <= kk < old(self).queries@.len() ==> is_builtin_text(
                        #[trigger] views_of(old(self).queries@)[kk],
                    )) ==> forall|k: int|
                    0 <= k < i ==> builtin_result_ok(
                        views_of(old(self).queries@)[k],
                        #[trigger] out@[k],
                        old(self).rows(),
                        log_cols(old(self).conn),
                    ),
            decreases self.queries@.len() - i,
        {
            let q = self.queries[i].clone();
            match db_begin(&mut self.conn) {
                Ok(()) => {},
                Err(m) => {
                    return Err(TopError::StoreError(m));
                },
            }
            match db_query(&mut self.conn, q.as_str()) {
                Ok((columns, raw)) => {
                    let rows = render_rows(&raw);
                    let qr = QueryResult { columns, rows };
                    proof {
                        let rawseq = raw@.map_values(|row: Vec<SqlCell>| row@);
                        assert(rendering_matches(qr, rawseq));
                        assert(q@ == views_of(old(self).queries@)[i as int]);
                        if forall|kk: int|
                            0 <= kk < old(self).queries@.len() ==> is_builtin_text(
                                #[trigger] views_of(old(self).queries@)[kk],
                            ) {
                            assert(is_builtin_text(q@));
                            assert(shape_ok(
                                q@,
                                models_of(rawseq),
                                old(self).rows(),
                                log_cols(old(self).conn),
                            ));
                            assert(builtin_result_ok(
                                q@,
                                qr,
                                old(self).rows(),
                                log_cols(old(self).conn),
                            ));
                        }
                    }
                    out.push(qr);
                },
                Err(m) => {
                    match db_rollback(&mut self.conn) {
                        Ok(()) => {
                            return Err(TopError::QueryError(m));
                        },
                        Err(m2) => {
                            return Err(TopError::StoreError(m2));
                        },
                    }
                },
            }
            match db_release(&mut self.conn) {
                Ok(()) => {},
                Err(m) => {
                    return Err(TopError::StoreError(m));
                },
            }
            i += 1;
        }
        Ok(out)
    }
}

/// Builds the processor for one run: explicit fields and queries are taken
/// as given; otherwise the default report is synthesized, grouping by the
/// chosen field with the derived status and byte columns alongside.
pub fn generate_processor(
    group_by: &str,
    having: u64,
    order_by: &str,
    limit: u64,
    fields: Option<Vec<String>>,
    queries: Option<Vec<String>>,
) -> (r: Result<Processor, TopError>)
    ensures
        match (fields, queries) {
            (Some(f), Some(q)) => new_post(r, views_of(f@), views_of(q@)),
            _ => new_post(
                r,
                seq![group_by@, "status_type"@, "bytes_sent"@],
                seq![spec_default_query(group_by@, having, order_by@, limit)],
            ),
        },
{
    match (fields, queries) {
        (Some(f), Some(q)) => Processor::new(f, q),
        _ => {
            let mut fs: Vec<String> = Vec::new();
            fs.push(String::from_str(group_by));
            fs.push(String::from_str("status_type"));
            fs.push(String::from_str("bytes_sent"));
            let mut qs: Vec<String> = Vec::new();
            qs.push(default_query(group_by, having, order_by, limit));
            proof {
                assert(views_of(fs@) =~= seq![group_by@, "status_type"@, "bytes_sent"@]);
                assert(views_of(qs@) =~= seq![
                    spec_default_query(group_by@, having, order_by@, limit),
                ]);
            }
            Processor::new(fs, qs)
        },
    }
}

#[verifier::external_type_specification]
#[verifier::external_body]
pub struct ExConnection(rusqlite::Connection);

/// The rows of the database's `log` table, in insertion order, each cell a
/// typed scalar; the empty sequence while the table does not exist.
pub uninterp spec fn log_rows(c: rusqlite::Connection) -> Seq<Seq<FieldValueModel>>;

/// The column names of the `log` table, in declared order; the empty
/// sequence while the table does not exist.  Each row of `log_rows` holds
/// its cells in this order.
pub uninterp spec fn log_cols(c: rusqlite::Connection) -> Seq<Seq<char>>;

/// The `log` rows as they stood when the currently open savepoint was set:
/// what rolling back to it restores.
pub uninterp spec fn saved_rows(c: rusqlite::Connection) -> Seq<Seq<FieldValueModel>>;

/// The `log` columns as they stood when the currently open savepoint was
/// set.
pub uninterp spec fn saved_cols(c: rusqlite::Connection) -> Seq<Seq<char>>;

/// Relies on rusqlite's `Connection::open_in_memory`: a fresh private
/// in-memory database holds no tables, so no `log` rows and no columns.
#[verifier::external_body]
fn db_open() -> (r: Result<rusqlite::Connection, String>)
    ensures
        r matches Ok(c) ==> log_rows(c) == Seq::<Seq<FieldValueModel>>::empty() && log_cols(c)
            == Seq::<Seq<char>>::empty(),
{
    rusqlite::Connection::open_in_memory().map_err(|e| e.to_string())
}

/// Relies on rusqlite's `Connection::execute_batch` with one CREATE TABLE
/// statement over plain-identifier column names: on success the `log`
/// table exists, is empty, and has exactly the given columns in order; on
/// failure nothing was created.  The column list is untyped on purpose:
/// the engine then stores every inserted value as it was given, text as
/// text and integers as integers.
#[verifier::external_body]
fn db_create_table(c: &mut rusqlite::Connection, cols: &Vec<String>) -> (r: Result<(), String>)
    requires
        cols@.len() > 0,
        forall|i: int| 0 <= i < cols@.len() ==> is_sql_ident(#[trigger] views_of(cols@)[i]),
    ensures
        r is Ok ==> log_rows(*final(c)) == Seq::<Seq<FieldValueModel>>::empty() && log_cols(
            *final(c),
        ) == views_of(cols@),
        r is Err ==> log_rows(*final(c)) == log_rows(*old(c)) && log_cols(*final(c)) == log_cols(
            *old(c),
        ),
{
    let sql = format!("CREATE TABLE log ({})", cols.join(", "));
    c.execute_batch(&sql).map_err(|e| e.to_string())
}

/// Relies on rusqlite's `Connection::execute` with one INSERT statement
/// naming the table's columns in their declared order (the `requires` ties
/// the list to `log_cols`) and one parameter per column: on success
/// exactly the given row is appended; a failed statement is rolled back by
/// the engine and changes nothing.  An INSERT never alters the table's
/// columns nor the state an open savepoint would restore.
#[verifier::external_body]
fn db_insert(c: &mut rusqlite::Connection, cols: &Vec<String>, vals: &Vec<FieldValue>) -> (r:
    Result<(), String>)
    requires
        cols@.len() == vals@.len(),
        cols@.len() > 0,
        views_of(cols@) == log_cols(*old(c)),
        forall|i: int| 0 <= i < cols@.len() ==> is_sql_ident(#[trigger] views_of(cols@)[i]),
    ensures
        r is Ok ==> log_rows(*final(c)) == log_rows(*old(c)).push(
            vals@.map_values(|v: FieldValue| v@),
        ),
        r is Err ==> log_rows(*final(c)) == log_rows(*old(c)),
        log_cols(*final(c)) == log_cols(*old(c)),
        saved_rows(*final(c)) == saved_rows(*old(c)),
        saved_cols(*final(c)) == saved_cols(*old(c)),
{
    let marks: Vec<String> = (1..=cols.len()).map(|i| format!("?{}", i)).collect();
    let sql = format!("INSERT INTO log ({}) VALUES ({})", cols.join(", "), marks.join(", "));
    let ps = rusqlite::params_from_iter(vals.iter().map(|v| match v {
        FieldValue::Text(s) => SqlCell::Text(s.clone()),
        FieldValue::U16(n) => SqlCell::Integer(*n as i64),
        FieldValue::U32(n) => SqlCell::Integer(*n as i64),
    }));
    c.execute(&sql, ps).map(|_| ()).map_err(|e| e.to_string())
}

/// Relies on rusqlite's `Connection::execute_batch` with one SAVEPOINT
/// statement: setting a savepoint changes no data and records the current
/// state as what a rollback to it restores; on failure nothing changes.
#[verifier::external_body]
fn db_begin(c: &mut rusqlite::Connection) -> (r: Result<(), String>)
    ensures
        log_rows(*final(c)) == log_rows(*old(c)),
        log_cols(*final(c)) == log_cols(*old(c)),
        r is Ok ==> saved_rows(*final(c)) == log_rows(*old(c)) && saved_cols(*final(c))
            == log_cols(*old(c)),
{
    c.execute_batch("SAVEPOINT topngx_sp").map_err(|e| e.to_string())
}

/// Relies on rusqlite's `Connection::execute_batch` with ROLLBACK TO and
/// RELEASE: on success the `log` table is restored to the state recorded
/// at the savepoint; a failing rollback (the savepoint no longer exists)
/// errors before acting and changes nothing.
#[verifier::external_body]
fn db_rollback(c: &mut rusqlite::Connection) -> (r: Result<(), String>)
    ensures
        r is Ok ==> log_rows(*final(c)) == saved_rows(*old(c)) && log_cols(*final(c))
            == saved_cols(*old(c)),
        r is Err ==> log_rows(*final(c)) == log_rows(*old(c)) && log_cols(*final(c)) == log_cols(
            *old(c),
        ),
{
    c.execute_batch("ROLLBACK TO topngx_sp; RELEASE topngx_sp").map_err(|e| e.to_string())
}

/// Relies on rusqlite's `Connection::execute_batch` with one RELEASE
/// statement: closing a savepoint keeps the data as it stands, whether the
/// statement succeeds or fails.
#[verifier::external_body]
fn db_release(c: &mut rusqlite::Connection) -> (r: Result<(), String>)
    ensures
        log_rows(*final(c)) == log_rows(*old(c)),
        log_cols(*final(c)) == log_cols(*old(c)),
{
    c.execute_batch("RELEASE topngx_sp").map_err(|e| e.to_string())
}

/// Renders every cell of every result row as text: the shape is kept and
/// each output cell is exactly the rendering of the input cell.
fn render_rows(raw: &Vec<Vec<SqlCell>>) -> (r: Vec<Vec<String>>)
    ensures
        r@.len() == raw@.len(),
        forall|i: int| 0 <= i < raw@.len() ==> (#[trigger] r@[i])@.len() == raw@[i]@.len(),
        forall|i: int, j: int|
            0 <= i < raw@.len() && 0 <= j < raw@[i]@.len() ==> ((#[trigger] r@[i])@[j])@
                == spec_cell_text(#[trigger] raw@[i]@[j]),
{
    let mut out: Vec<Vec<String>> = Vec::new();
    let mut i: usize = 0;
    while i < raw.len()
        invariant
            i <= raw@.len(),
            out@.len() == i,
            forall|k: int| 0 <= k < i ==> (#[trigger] out@[k])@.len() == raw@[k]@.len(),
            forall|k: int, j: int|
                0 <= k < i && 0 <= j < raw@[k]@.len() ==> ((#[trigger] out@[k])@[j])@
                    == spec_cell_text(#[trigger] raw@[k]@[j]),
        decreases raw@.len() - i,
    {
        let row = &raw[i];
        let mut rowv: Vec<String> = Vec::new();
        let mut j: usize = 0;
        while j < row.len()
            invariant
                j <= row@.len(),
                row == &raw[i as int],
                i < raw@.len(),
                rowv@.len() == j,
                forall|jj: int|
                    0 <= jj < j ==> (#[trigger] rowv@[jj])@ == spec_cell_text(row@[jj]),
            decreases row@.len() - j,
        {
            rowv.push(cell_text(&row[j]));
            j += 1;
        }
        out.push(rowv);
        i += 1;
    }
    out
}

#[verifier::external_type_specification]
#[verifier::external_body]
pub struct ExSqlCell(SqlCell);

/// Relies on rusqlite's `Connection::prepare`, `Statement::query` and
/// `Row::get`: runs one statement, yielding its column names and every
/// result row's cells, one per column; a cell the engine cannot hand over
/// (text that is not valid UTF-8) surfaces as the error, never a crash.
/// When the text is one of the library's built-in shapes over plain
/// identifiers — a single SELECT — the statement reads the relation only,
/// and the result carries that shape's semantics over the relation's rows
/// (`shape_ok`): grouped counts are exact multiplicities, sums are exact
/// column sums, the print projection is the duplicate-free row set.  Of
/// any other statement nothing is claimed (one run with FAIL conflict
/// resolution can fail midway without backing out); the caller brackets
/// the call in a savepoint for that.  A single failing statement is never
/// a savepoint release, so what an open savepoint restores is intact on
/// error.
#[verifier::external_body]
fn db_query(c: &mut rusqlite::Connection, sql: &str) -> (r: Result<
    (Vec<String>, Vec<Vec<SqlCell>>),
    String,
>)
    ensures
        r matches Ok(res) ==> forall|i: int|
            0 <= i < res.1@.len() ==> (#[trigger] res.1@[i])@.len() == res.0@.len(),
        r matches Ok(res) ==> shape_ok(
            sql@,
            models_of(res.1@.map_values(|row: Vec<SqlCell>| row@)),
            log_rows(*old(c)),
            log_cols(*old(c)),
        ),
        r is Ok && is_builtin_text(sql@) ==> log_rows(*final(c)) == log_rows(*old(c)) && log_cols(
            *final(c),
        ) == log_cols(*old(c)),
        r is Err ==> saved_rows(*final(c)) == saved_rows(*old(c)) && saved_cols(*final(c))
            == saved_cols(*old(c)),
{
    let mut stmt = c.prepare(sql).map_err(|e| e.to_string())?;
    let cols: Vec<String> = stmt.column_names().iter().map(|s| s.to_string()).collect();
    let n = stmt.column_count();
    let mut rows = stmt.query([]).map_err(|e| e.to_string())?;
    let mut out: Vec<Vec<SqlCell>> = Vec::new();
    while let Some(row) = rows.next().map_err(|e| e.to_string())? {
        let mut cells: Vec<SqlCell> = Vec::new();
        for i in 0..n {
            cells.push(row.get(i).map_err(|e| e.to_string())?);
        }
        out.push(cells);
    }
    Ok((cols, out))
}

/// The text a storage cell is rendered as: a function of the cell alone.
pub uninterp spec fn spec_cell_text(v: SqlCell) -> Seq<char>;

/// The scalar a result cell stands for: an INTEGER cell stands for its
/// integer, and every other cell (text, null, real, blob) for the text it
/// renders as.
pub uninterp spec fn cell_model(v: SqlCell) -> FieldValueModel;

/// Relies on the storage cell's own value alone: renders a null as `-`,
/// an integer or a real in decimal, text as itself and a blob as empty.
/// A cell holding a nonnegative integer renders as its decimal digits,
/// and one holding text renders as that text.
#[verifier::external_body]
fn cell_text(v: &SqlCell) -> (r: String)
    ensures
        r@ == spec_cell_text(*v),
        match cell_model(*v) {
            FieldValueModel::Int(n) => (0 <= n <= u64::MAX) ==> r@
                == crate::strutil::spec_u64_digits(n as u64),
            FieldValueModel::Text(s) => r@ == s,
        },
{
    match v {
        SqlCell::Null => String::from("-"),
        SqlCell::Integer(x) => x.to_string(),
        SqlCell::Real(x) => x.to_string(),
        SqlCell::Text(t) => t.clone(),
        SqlCell::Blob(_) => String::new(),
    }
}

} // verus!
