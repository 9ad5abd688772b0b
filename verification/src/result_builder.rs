//! The size-bounded result builder.
//!
//! The execution engine streams typed events into a builder: begin a
//! statement with its column names, add rows, finish the statement with its
//! affected-row metadata, record a statement error, finish the batch. The
//! builder enforces a maximum response size; the moment the bound is
//! exceeded it is poisoned, and every subsequent call fails with
//! `ResponseTooLarge` — a client-caused condition, not a server fault.
use vstd::prelude::*;
use crate::errors::StmtError;
use crate::query::Value;

verus! {

/// Default bound on the serialized response size.
pub const MAX_RESPONSE_SIZE: usize = 10 * 1024 * 1024;

/// The accounted size of one value.
pub open spec fn value_cost(v: Value) -> nat {
    match v {
        Value::Null => 4,
        Value::Integer(_) => 8,
        Value::Real(_) => 8,
        Value::Text(s) => s@.len(),
        Value::Blob(b) => b@.len(),
    }
}

/// The accounted size of one row.
pub open spec fn vals_cost(r: Seq<Value>) -> nat
    decreases r.len(),
{
    if r.len() == 0 {
        0
    } else {
        vals_cost(r.drop_last()) + value_cost(r.last())
    }
}

/// The accounted size of a column-name list.
pub open spec fn names_cost(c: Seq<String>) -> nat
    decreases c.len(),
{
    if c.len() == 0 {
        0
    } else {
        names_cost(c.drop_last()) + c.last()@.len()
    }
}

/// The result of one successfully executed statement.
#[derive(Clone, Debug)]
pub struct StmtResult {
    pub columns: Vec<String>,
    pub rows: Vec<Vec<Value>>,
    pub affected_rows: u64,
    pub last_insert_id: Option<i64>,
}

/// What the builder records for one statement: its result, or the error
/// that stopped it.
#[derive(Clone, Debug)]
pub enum StmtOut {
    Row(StmtResult),
    Failed(StmtError),
}

/// The builder behind the plain JSON surface: it accumulates per-statement
/// results while accounting their size against the bound.
#[derive(Debug)]
pub struct JsonHttpPayloadBuilder {
    pub max_size: usize,
    pub used: usize,
    pub poisoned: bool,
    pub finished: bool,
    pub in_stmt: bool,
    pub cols: Vec<String>,
    pub rows: Vec<Vec<Value>>,
    pub results: Vec<StmtOut>,
}

impl JsonHttpPayloadBuilder {
    /// The accounted size never exceeds the bound.
    pub open spec fn wf(self) -> bool {
        self.used <= self.max_size
    }

    /// A fresh builder with the default size bound.
    pub fn new() -> (r: JsonHttpPayloadBuilder)
        ensures
            r == (JsonHttpPayloadBuilder {
                max_size: MAX_RESPONSE_SIZE,
                used: 0,
                poisoned: false,
                finished: false,
                in_stmt: false,
                cols: r.cols,
                rows: r.rows,
                results: r.results,
            }),
            r.cols@.len() == 0,
            r.rows@.len() == 0,
            r.results@.len() == 0,
            r.wf(),
    {
        JsonHttpPayloadBuilder {
            max_size: MAX_RESPONSE_SIZE,
            used: 0,
            poisoned: false,
            finished: false,
            in_stmt: false,
            cols: Vec::new(),
            rows: Vec::new(),
            results: Vec::new(),
        }
    }

    /// A fresh builder with a chosen size bound.
    pub fn with_max_size(max_size: usize) -> (r: JsonHttpPayloadBuilder)
        ensures
            r == (JsonHttpPayloadBuilder {
                max_size: max_size,
                used: 0,
                poisoned: false,
                finished: false,
                in_stmt: false,
                cols: r.cols,
                rows: r.rows,
                results: r.results,
            }),
            r.cols@.len() == 0,
            r.rows@.len() == 0,
            r.results@.len() == 0,
            r.wf(),
    {
        JsonHttpPayloadBuilder {
            max_size,
            used: 0,
            poisoned: false,
            finished: false,
            in_stmt: false,
            cols: Vec::new(),
            rows: Vec::new(),
            results: Vec::new(),
        }
    }

    /// Accounts `c` bytes against the bound. Fails, and poisons the
    /// builder, exactly when the builder is already poisoned or the bound
    /// would be exceeded; a poisoned builder never changes except for its
    /// poison mark.
    fn charge(&mut self, c: usize) -> (r: Result<(), StmtError>)
        requires
            old(self).wf(),
        ensures
            final(self).wf(),
            r is Ok <==> (!old(self).poisoned && old(self).used + c <= old(self).max_size),
            r is Ok ==> *final(self) == (JsonHttpPayloadBuilder {
                used: (old(self).used + c) as usize,
                ..*old(self)
            }),
            r matches Err(e) ==> e == StmtError::ResponseTooLarge && *final(self) == (
            JsonHttpPayloadBuilder { poisoned: true, ..*old(self) }),
    {
        if self.poisoned {
            Err(StmtError::ResponseTooLarge)
        } else if c > self.max_size - self.used {
            self.poisoned = true;
            Err(StmtError::ResponseTooLarge)
        } else {
            self.used = self.used + c;
            Ok(())
        }
    }

    /// Opens a statement with its column names, accounting their size.
    pub fn begin_statement(&mut self, columns: Vec<String>) -> (r: Result<(), StmtError>)
        requires
            old(self).wf(),
            !old(self).in_stmt,
            !old(self).finished,
        ensures
            final(self).wf(),
            r is Ok <==> (!old(self).poisoned && old(self).used + names_cost(columns@) <= old(self).max_size),
            r is Ok ==> *final(self) == (JsonHttpPayloadBuilder {
                used: (old(self).used + names_cost(columns@)) as usize,
                in_stmt: true,
                cols: columns,
                rows: final(self).rows,
                ..*old(self)
            }) && final(self).rows@.len() == 0,
            r matches Err(e) ==> e == StmtError::ResponseTooLarge && final(self).poisoned
                && !final(self).in_stmt && final(self).results == old(self).results && final(self).max_size == old(self).max_size && final(self).finished == old(self).finished,
    {
        let mut c: usize = 0;
        let mut i: usize = 0;
        let n = columns.len();
        proof {
            assert(columns@.take(0) =~= Seq::<String>::empty());
        }
        while i < n
            invariant
                *self == *old(self),
                self.wf(),
                !self.in_stmt,
                !self.finished,
                i <= n,
                n == columns@.len(),
                c == names_cost(columns@.take(i as int)),
                c <= usize::MAX,
            decreases n - i,
        {
            proof {
                assert(columns@.take(i as int + 1).drop_last() =~= columns@.take(i as int));
                assert(columns@.take(i as int + 1).last() == columns@[i as int]);
            }
            let l = columns[i].as_str().unicode_len();
            proof {
                assert(columns@[i as int]@.len() == l);
            }
            if l > usize::MAX - c {
                // The names alone overflow the address space; certainly
                // over any bound.
                self.poisoned = true;
                proof {
                    assert(names_cost(columns@) >= names_cost(columns@.take(i as int + 1)))
                        by {
                        lemma_names_cost_prefix(columns@, i as int + 1);
                    }
                }
                return Err(StmtError::ResponseTooLarge);
            }
            c = c + l;
            i = i + 1;
        }
        proof {
            assert(columns@.take(n as int) =~= columns@);
        }
        match self.charge(c) {
            Ok(()) => {
                self.in_stmt = true;
                self.cols = columns;
                self.rows = Vec::new();
                Ok(())
            },
            Err(e) => Err(e),
        }
    }

    /// Adds one row to the open statement, accounting its size.
    pub fn add_row(&mut self, row: Vec<Value>) -> (r: Result<(), StmtError>)
        requires
            old(self).wf(),
            old(self).in_stmt,
            !old(self).finished,
        ensures
            final(self).wf(),
            r is Ok <==> (!old(self).poisoned && old(self).used + vals_cost(row@) <= old(self).max_size),
            r is Ok ==> *final(self) == (JsonHttpPayloadBuilder {
                used: (old(self).used + vals_cost(row@)) as usize,
                rows: final(self).rows,
                ..*old(self)
            }) && final(self).rows@ == old(self).rows@.push(row),
            r matches Err(e) ==> e == StmtError::ResponseTooLarge && final(self).poisoned
                && final(self).results == old(self).results && final(self).max_size == old(self).max_size && final(self).in_stmt && final(self).finished == old(self).finished,
    {
        let mut c: usize = 0;
        let mut i: usize = 0;
        let n = row.len();
        proof {
            assert(row@.take(0) =~= Seq::<Value>::empty());
        }
        while i < n
            invariant
                *self == *old(self),
                self.wf(),
                self.in_stmt,
                !self.finished,
                i <= n,
                n == row@.len(),
                c == vals_cost(row@.take(i as int)),
                c <= usize::MAX,
            decreases n - i,
        {
            proof {
                assert(row@.take(i as int + 1).drop_last() =~= row@.take(i as int));
                assert(row@.take(i as int + 1).last() == row@[i as int]);
            }
            let l = single_value_cost(&row[i]);
            if l > usize::MAX - c {
                self.poisoned = true;
                proof {
                    assert(vals_cost(row@) >= vals_cost(row@.take(i as int + 1))) by {
                        lemma_vals_cost_prefix(row@, i as int + 1);
                    }
                }
                return Err(StmtError::ResponseTooLarge);
            }
            c = c + l;
            i = i + 1;
        }
        proof {
            assert(row@.take(n as int) =~= row@);
        }
        match self.charge(c) {
            Ok(()) => {
                self.rows.push(row);
                Ok(())
            },
            Err(e) => Err(e),
        }
    }

    /// Closes the open statement with its affected-row metadata, moving its
    /// columns and rows into the finished results.
    pub fn finish_statement(&mut self, affected_rows: u64, last_insert_id: Option<i64>) -> (r:
        Result<(), StmtError>)
        requires
            old(self).wf(),
            old(self).in_stmt,
            !old(self).finished,
        ensures
            final(self).wf(),
            r is Ok <==> !old(self).poisoned,
            r is Ok ==> {
                &&& final(self).results@ == old(self).results@.push(
                    StmtOut::Row(
                        StmtResult {
                            columns: old(self).cols,
                            rows: old(self).rows,
                            affected_rows,
                            last_insert_id,
                        },
                    ),
                )
                &&& !final(self).in_stmt
                &&& final(self).used == old(self).used
                &&& final(self).max_size == old(self).max_size
                &&& !final(self).poisoned
                &&& final(self).finished == old(self).finished
            },
            r matches Err(e) ==> e == StmtError::ResponseTooLarge && *final(self) == *old(self),
    {
        if self.poisoned {
            return Err(StmtError::ResponseTooLarge);
        }
        let mut cols: Vec<String> = Vec::new();
        let mut rows: Vec<Vec<Value>> = Vec::new();
        core::mem::swap(&mut cols, &mut self.cols);
        core::mem::swap(&mut rows, &mut self.rows);
        self.results.push(
            StmtOut::Row(StmtResult { columns: cols, rows, affected_rows, last_insert_id }),
        );
        self.in_stmt = false;
        Ok(())
    }

    /// Records that the current statement failed, discarding whatever it
    /// had streamed so far.
    pub fn statement_error(&mut self, e: StmtError) -> (r: Result<(), StmtError>)
        requires
            old(self).wf(),
            !old(self).finished,
        ensures
            final(self).wf(),
            r is Ok <==> !old(self).poisoned,
            r is Ok ==> {
                &&& final(self).results@ == old(self).results@.push(StmtOut::Failed(e))
                &&& !final(self).in_stmt
                &&& final(self).used == old(self).used
                &&& final(self).max_size == old(self).max_size
                &&& !final(self).poisoned
                &&& final(self).finished == old(self).finished
            },
            r matches Err(err) ==> err == StmtError::ResponseTooLarge && *final(self) == *old(self),
    {
        if self.poisoned {
            return Err(StmtError::ResponseTooLarge);
        }
        self.cols = Vec::new();
        self.rows = Vec::new();
        self.results.push(StmtOut::Failed(e));
        self.in_stmt = false;
        Ok(())
    }

    /// Closes the batch.
    pub fn finish_batch(&mut self) -> (r: Result<(), StmtError>)
        requires
            old(self).wf(),
            !old(self).in_stmt,
            !old(self).finished,
        ensures
            final(self).wf(),
            r is Ok <==> !old(self).poisoned,
            r is Ok ==> *final(self) == (JsonHttpPayloadBuilder { finished: true, ..*old(self) }),
            r matches Err(e) ==> e == StmtError::ResponseTooLarge && *final(self) == *old(self),
    {
        if self.poisoned {
            return Err(StmtError::ResponseTooLarge);
        }
        self.finished = true;
        Ok(())
    }

    /// Hands the finished per-statement results out.
    pub fn into_ret(self) -> (r: Vec<StmtOut>)
        ensures
            r == self.results,
    {
        self.results
    }
}

/// The accounted size of the rows of one statement.
pub open spec fn rows_cost(rows: Seq<Vec<Value>>) -> nat
    decreases rows.len(),
{
    if rows.len() == 0 {
        0
    } else {
        rows_cost(rows.drop_last()) + vals_cost(rows.last()@)
    }
}

/// The accounted size of one recorded statement result: its column names
/// and its rows; a recorded error costs nothing.
pub open spec fn out_cost(o: StmtOut) -> nat {
    match o {
        StmtOut::Row(sr) => names_cost(sr.columns@) + rows_cost(sr.rows@),
        StmtOut::Failed(_) => 0,
    }
}

/// The accounted size of a whole result stream.
pub open spec fn stream_cost(res: Seq<StmtOut>) -> nat
    decreases res.len(),
{
    if res.len() == 0 {
        0
    } else {
        stream_cost(res.drop_last()) + out_cost(res.last())
    }
}

/// A prefix never costs more than all the rows.
proof fn lemma_rows_cost_prefix(rows: Seq<Vec<Value>>, k: int)
    requires
        0 <= k <= rows.len(),
    ensures
        rows_cost(rows.take(k)) <= rows_cost(rows),
    decreases rows.len() - k,
{
    if k < rows.len() {
        assert(rows.take(k + 1).drop_last() =~= rows.take(k));
        lemma_rows_cost_prefix(rows, k + 1);
    } else {
        assert(rows.take(k) =~= rows);
    }
}

/// A prefix never costs more than the whole stream.
proof fn lemma_stream_cost_prefix(res: Seq<StmtOut>, k: int)
    requires
        0 <= k <= res.len(),
    ensures
        stream_cost(res.take(k)) <= stream_cost(res),
    decreases res.len() - k,
{
    if k < res.len() {
        assert(res.take(k + 1).drop_last() =~= res.take(k));
        lemma_stream_cost_prefix(res, k + 1);
    } else {
        assert(res.take(k) =~= res);
    }
}

/// Two recorded statement results carry the same content.
pub open spec fn stmt_out_like(a: StmtOut, b: StmtOut) -> bool {
    match (a, b) {
        (StmtOut::Row(x), StmtOut::Row(y)) => x.columns == y.columns && x.rows@ == y.rows@
            && x.affected_rows == y.affected_rows && x.last_insert_id == y.last_insert_id,
        (StmtOut::Failed(e1), StmtOut::Failed(e2)) => e1 == e2,
        _ => false,
    }
}

/// Streams finished per-statement results into a builder through its five
/// operations, in order. It succeeds exactly when the whole stream fits
/// the builder's size bound; every result is then recorded with its
/// content unchanged. Otherwise it stops with `ResponseTooLarge` the
/// moment the bound is exceeded, leaving the builder poisoned.
pub fn feed_builder(results: Vec<StmtOut>, b: &mut JsonHttpPayloadBuilder) -> (r: Result<
    (),
    StmtError,
>)
    requires
        old(b).wf(),
        !old(b).in_stmt,
        !old(b).finished,
        !old(b).poisoned,
    ensures
        final(b).wf(),
        r is Ok <==> old(b).used + stream_cost(results@) <= old(b).max_size,
        r is Ok ==> {
            &&& !final(b).poisoned
            &&& !final(b).in_stmt
            &&& !final(b).finished
            &&& final(b).results@.len() == old(b).results@.len() + results@.len()
            &&& forall|j: int|
                0 <= j < old(b).results@.len() ==> final(b).results@[j] == old(b).results@[j]
            &&& forall|j: int|
                0 <= j < results@.len() ==> stmt_out_like(
                    results@[j],
                    #[trigger] final(b).results@[old(b).results@.len() + j],
                )
        },
        r matches Err(e) ==> e == StmtError::ResponseTooLarge && final(b).poisoned,
{
    let ghost res0 = results@;
    let ghost base = old(b).results@.len() as int;
    let mut pending = results;
    let total = pending.len();
    let mut i: usize = 0;
    while pending.len() > 0
        invariant
            res0 == results@,
            total == res0.len(),
            b.wf(),
            !b.in_stmt,
            !b.finished,
            !b.poisoned,
            pending@ =~= res0.skip(i as int),
            i + pending@.len() == res0.len(),
            base == old(b).results@.len(),
            b.used == old(b).used + stream_cost(res0.take(i as int)),
            b.max_size == old(b).max_size,
            b.results@.len() == base + i,
            forall|j: int| 0 <= j < base ==> b.results@[j] == old(b).results@[j],
            forall|j: int|
                0 <= j < i ==> stmt_out_like(res0[j], #[trigger] b.results@[base + j]),
        decreases pending@.len(),
    {
        let ghost done = i as int;
        let item = pending.remove(0);
        proof {
            assert(res0.skip(done)[0] == res0[done]);
            assert(item == res0[done]);
            assert(pending@ =~= res0.skip(done).remove(0));
            assert(pending@ =~= res0.skip(done + 1));
            assert(res0.take(done + 1).drop_last() =~= res0.take(done));
            assert(res0.take(done + 1).last() == res0[done]);
            lemma_stream_cost_prefix(res0, done + 1);
        }
        match item {
            StmtOut::Row(StmtResult { columns, rows, affected_rows, last_insert_id }) => {
                let ghost cols0 = columns;
                let ghost rowsv = rows;
                let ghost rows0 = rows@;
                proof {
                    assert(out_cost(res0[done]) == names_cost(cols0@) + rows_cost(rows0));
                }
                if b.begin_statement(columns).is_err() {
                    proof {
                        assert(old(b).used + stream_cost(res0.take(done + 1)) > old(
                            b,
                        ).max_size);
                    }
                    return Err(StmtError::ResponseTooLarge);
                }
                let mut rows = rows;
                let rlen = rows.len();
                let mut j: usize = 0;
                let ghost m = rows0.len() as int;
                while rows.len() > 0
                    invariant
                        res0 == results@,
                        m == rlen,
                        b.wf(),
                        b.in_stmt,
                        !b.finished,
                        !b.poisoned,
                        b.cols == cols0,
                        rows@ =~= rows0.skip(j as int),
                        j + rows@.len() == m,
                        m == rows0.len(),
                        b.rows@ =~= rows0.take(j as int),
                        base == old(b).results@.len(),
                        b.used == old(b).used + stream_cost(res0.take(done)) + names_cost(
                            cols0@,
                        ) + rows_cost(rows0.take(j as int)),
                        b.max_size == old(b).max_size,
                        out_cost(res0[done]) == names_cost(cols0@) + rows_cost(rows0),
                        stream_cost(res0.take(done + 1)) == stream_cost(res0.take(done))
                            + out_cost(res0[done]),
                        stream_cost(res0.take(done + 1)) <= stream_cost(res0),
                        b.results@.len() == base + done,
                        forall|t: int| 0 <= t < base ==> b.results@[t] == old(b).results@[t],
                        forall|t: int|
                            0 <= t < done ==> stmt_out_like(
                                res0[t],
                                #[trigger] b.results@[base + t],
                            ),
                    decreases rows@.len(),
                {
                    let ghost rdone = j as int;
                    let row = rows.remove(0);
                    proof {
                        assert(rows0.skip(rdone)[0] == rows0[rdone]);
                        assert(row == rows0[rdone]);
                        assert(rows@ =~= rows0.skip(rdone).remove(0));
                        assert(rows@ =~= rows0.skip(rdone + 1));
                    }
                    proof {
                        assert(rows0.take(rdone + 1).drop_last() =~= rows0.take(rdone));
                        assert(rows0.take(rdone + 1).last() == rows0[rdone]);
                        lemma_rows_cost_prefix(rows0, rdone + 1);
                    }
                    if b.add_row(row).is_err() {
                        proof {
                            assert(old(b).used + stream_cost(res0.take(done + 1)) > old(
                                b,
                            ).max_size);
                        }
                        return Err(StmtError::ResponseTooLarge);
                    }
                    proof {
                        assert(b.rows@ =~= rows0.take(rdone + 1));
                    }
                    j = j + 1;
                }
                proof {
                    assert(rows0.take(m) =~= rows0);
                }
                if b.finish_statement(affected_rows, last_insert_id).is_err() {
                    return Err(StmtError::ResponseTooLarge);
                }
                proof {
                    assert(b.used == old(b).used + stream_cost(res0.take(done + 1)));
                }
                proof {
                    assert(b.results@[base + done] == b.results@.last());
                    assert(stmt_out_like(res0[done], b.results@[base + done]));
                }
            },
            StmtOut::Failed(e) => {
                if b.statement_error(e).is_err() {
                    return Err(StmtError::ResponseTooLarge);
                }
                proof {
                    assert(out_cost(res0[done]) == 0);
                    assert(b.used == old(b).used + stream_cost(res0.take(done + 1)));
                    assert(stmt_out_like(res0[done], b.results@[base + done]));
                }
            },
        }
        i = i + 1;
    }
    proof {
        assert(res0.skip(res0.len() as int).len() == 0);
        assert(i == res0.len());
        assert(res0.take(res0.len() as int) =~= res0);
    }
    Ok(())
}

/// The accounted size of one value, executable form.
pub fn single_value_cost(v: &Value) -> (c: usize)
    ensures
        c == value_cost(*v),
{
    match v {
        Value::Null => 4,
        Value::Integer(_) => 8,
        Value::Real(_) => 8,
        Value::Text(s) => s.as_str().unicode_len(),
        Value::Blob(b) => b.len(),
    }
}

/// A prefix never costs more than the whole row.
proof fn lemma_vals_cost_prefix(r: Seq<Value>, k: int)
    requires
        0 <= k <= r.len(),
    ensures
        vals_cost(r.take(k)) <= vals_cost(r),
    decreases r.len() - k,
{
    if k < r.len() {
        assert(r.take(k + 1).drop_last() =~= r.take(k));
        lemma_vals_cost_prefix(r, k + 1);
    } else {
        assert(r.take(k) =~= r);
    }
}

/// A prefix never costs more than the whole name list.
proof fn lemma_names_cost_prefix(c: Seq<String>, k: int)
    requires
        0 <= k <= c.len(),
    ensures
        names_cost(c.take(k)) <= names_cost(c),
    decreases c.len() - k,
{
    if k < c.len() {
        assert(c.take(k + 1).drop_last() =~= c.take(k));
        lemma_names_cost_prefix(c, k + 1);
    } else {
        assert(c.take(k) =~= c);
    }
}

} // verus!
