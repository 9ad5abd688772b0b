//! The database abstraction: local execution and the write proxy.
//!
//! A `Database` handle is bound to one client session. Statements execute
//! strictly in submission order; a failing statement stops the batch, and if
//! the batch had implicitly opened a transaction the engine rolls it back.
//! A handle owns at most one transaction lease at a time; a lease that
//! outlives its inactivity budget is released with a `TransactionTimeout`
//! error, after which the handle is usable again. A replica runs batches
//! without writes locally and forwards any batch that writes (or that falls
//! inside an open proxied transaction) to the primary, exactly once,
//! surfacing `ProxyUnavailable` on transport failure instead of retrying or
//! falling back to local execution.
use vstd::prelude::*;
use crate::errors::StmtError;
use crate::query::Query;
use crate::query::Value;
use crate::query_analysis::{State, StmtKind};
use crate::result_builder::{feed_builder, JsonHttpPayloadBuilder, StmtOut, StmtResult};

verus! {

/// Transaction inactivity budget, in milliseconds.
pub const TXN_TIMEOUT_MS: u64 = 5000;

/// The caller's rights, as established by the front end's authentication.
#[derive(Clone, Copy, Debug, PartialEq, Eq, Structural)]
pub struct Authenticated {
    pub read_only: bool,
}

/// What the storage engine reported for one statement.
#[derive(Clone, Debug)]
pub enum StmtOutcome {
    /// The statement yielded a result set.
    Rows { columns: Vec<String>, rows: Vec<Vec<Value>> },
    /// The statement wrote; no result set.
    Affected { count: u64, last_insert_id: Option<i64> },
    /// The engine failed the statement.
    Failed,
    /// The engine reported the connection busy or locked.
    Busy,
}

/// How a batch execution ended.
#[derive(Clone, Copy, Debug, PartialEq, Eq, Structural)]
pub struct ExecutionOutcome {
    /// How many statements were attempted (the failing one included).
    pub executed: usize,
    /// Whether a rollback was issued after a failure.
    pub rolled_back: bool,
    /// The error that stopped the batch, if any.
    pub error: Option<StmtError>,
}

/// A statement kind that the transaction-state machine acts on.
pub open spec fn is_txn_control(k: StmtKind) -> bool {
    k == StmtKind::TxnBegin || k == StmtKind::TxnCommit || k == StmtKind::TxnRollback
}

/// A read-only caller may only read.
pub open spec fn blocked(auth: Authenticated, k: StmtKind) -> bool {
    auth.read_only && k != StmtKind::Read
}

/// The batch manages its own transaction, so no rollback is auto-injected
/// on failure.
pub open spec fn explicit_txn(batch: Seq<Query>) -> bool {
    exists|i: int| 0 <= i < batch.len() && is_txn_control(#[trigger] batch[i].stmt.kind)
}

/// Whether this statement fails: blocked by rights, or failed by the
/// engine.
pub open spec fn stmt_fails(auth: Authenticated, q: Query, o: StmtOutcome) -> bool {
    blocked(auth, q.stmt.kind) || o is Failed || o is Busy
}

/// The error a failing statement surfaces.
pub open spec fn stmt_error_of(auth: Authenticated, q: Query, o: StmtOutcome) -> StmtError {
    if blocked(auth, q.stmt.kind) {
        StmtError::Blocked
    } else if o is Busy {
        StmtError::TransactionBusy
    } else {
        StmtError::SqliteError
    }
}

/// Least failing index at or after `i`, or the batch length if none fails.
pub open spec fn first_fail_from(
    auth: Authenticated,
    batch: Seq<Query>,
    outs: Seq<StmtOutcome>,
    i: int,
) -> int
    decreases batch.len() - i,
{
    if i < 0 || i >= batch.len() {
        batch.len() as int
    } else if stmt_fails(auth, batch[i], outs[i]) {
        i
    } else {
        first_fail_from(auth, batch, outs, i + 1)
    }
}

/// The first failing index lies between `i` and the batch length.
pub proof fn lemma_first_fail_bounds(
    auth: Authenticated,
    batch: Seq<Query>,
    outs: Seq<StmtOutcome>,
    i: int,
)
    requires
        0 <= i <= batch.len(),
    ensures
        i <= first_fail_from(auth, batch, outs, i) <= batch.len(),
    decreases batch.len() - i,
{
    if i < batch.len() && !stmt_fails(auth, batch[i], outs[i]) {
        lemma_first_fail_bounds(auth, batch, outs, i + 1);
    }
}

/// What the result stream records for a succeeding statement with this
/// outcome.
pub open spec fn out_rel(o: StmtOutcome, res: StmtOut) -> bool {
    match o {
        StmtOutcome::Rows { columns, rows } => res matches StmtOut::Row(sr) && sr.columns
            == columns && sr.rows == rows && sr.affected_rows == 0 && sr.last_insert_id
            is None,
        StmtOutcome::Affected { count, last_insert_id } => res matches StmtOut::Row(sr)
            && sr.columns@.len() == 0 && sr.rows@.len() == 0 && sr.affected_rows == count
            && sr.last_insert_id == last_insert_id,
        _ => false,
    }
}

/// The whole contract of a batch run: statements up to the first failure
/// are recorded with their results, the failing one with its error; the
/// summary counts the attempts, names the error, and says whether a
/// rollback was injected (exactly when the batch did not manage its own
/// transaction).
pub open spec fn run_rel(
    auth: Authenticated,
    batch: Seq<Query>,
    outs: Seq<StmtOutcome>,
    results: Seq<StmtOut>,
    summary: ExecutionOutcome,
) -> bool {
    let k = first_fail_from(auth, batch, outs, 0);
    let failed = k < batch.len();
    &&& summary.executed == if failed {
        k + 1
    } else {
        batch.len() as int
    }
    &&& summary.rolled_back == (failed && !explicit_txn(batch))
    &&& summary.error == if failed {
        Some(stmt_error_of(auth, batch[k], outs[k]))
    } else {
        None::<StmtError>
    }
    &&& results.len() == summary.executed
    &&& forall|i: int| 0 <= i < k && i < results.len() ==> out_rel(outs[i], #[trigger] results[i])
    &&& failed ==> results[k] == StmtOut::Failed(stmt_error_of(auth, batch[k], outs[k]))
}

/// Runs a batch against the engine outcomes, in submission order, stopping
/// at the first failure.
pub fn run_batch(auth: Authenticated, batch: &Vec<Query>, outcomes: Vec<StmtOutcome>) -> (r: (
    Vec<StmtOut>,
    ExecutionOutcome,
))
    requires
        outcomes@.len() == batch@.len(),
    ensures
        run_rel(auth, batch@, outcomes@, r.0@, r.1),
{
    let n = batch.len();
    let ghost outs0 = outcomes@;
    let mut pending = outcomes;
    let mut results: Vec<StmtOut> = Vec::new();

    let mut is_explicit = false;
    let mut j: usize = 0;
    while j < n
        invariant
            j <= n,
            n == batch@.len(),
            outs0 == outcomes@,
            is_explicit == exists|t: int|
                0 <= t < j && is_txn_control(#[trigger] batch@[t].stmt.kind),
        decreases n - j,
    {
        let k = batch[j].stmt.kind;
        if k == StmtKind::TxnBegin || k == StmtKind::TxnCommit || k == StmtKind::TxnRollback {
            is_explicit = true;
        }
        j = j + 1;
    }
    proof {
        assert(is_explicit == explicit_txn(batch@));
    }

    let mut i: usize = 0;
    while i < n
        invariant
            outs0 == outcomes@,
            i <= n,
            n == batch@.len(),
            outs0.len() == n,
            pending@ =~= outs0.skip(i as int),
            first_fail_from(auth, batch@, outs0, 0) == first_fail_from(
                auth,
                batch@,
                outs0,
                i as int,
            ),
            results@.len() == i,
            forall|t: int| 0 <= t < i ==> out_rel(outs0[t], #[trigger] results@[t]),
            is_explicit == explicit_txn(batch@),
        decreases n - i,
    {
        let ghost done = i as int;
        let o = pending.remove(0);
        proof {
            assert(outs0.skip(done)[0] == outs0[done]);
            assert(o == outs0[done]);
            assert(pending@ =~= outs0.skip(done).remove(0));
            assert(pending@ =~= outs0.skip(done + 1));
        }
        let kind = batch[i].stmt.kind;
        let is_blocked = auth.read_only && !(kind == StmtKind::Read);
        proof {
            assert(is_blocked == blocked(auth, batch@[done].stmt.kind));
        }
        if is_blocked {
            let e = StmtError::Blocked;
            results.push(StmtOut::Failed(e));
            proof {
                assert(stmt_fails(auth, batch@[done], outs0[done]));
                assert(first_fail_from(auth, batch@, outs0, done) == done);
            }
            return (
                results,
                ExecutionOutcome {
                    executed: i + 1,
                    rolled_back: !is_explicit,
                    error: Some(e),
                },
            );
        }
        match o {
            StmtOutcome::Rows { columns, rows } => {
                results.push(
                    StmtOut::Row(
                        StmtResult { columns, rows, affected_rows: 0, last_insert_id: None },
                    ),
                );
            },
            StmtOutcome::Affected { count, last_insert_id } => {
                results.push(
                    StmtOut::Row(
                        StmtResult {
                            columns: Vec::new(),
                            rows: Vec::new(),
                            affected_rows: count,
                            last_insert_id,
                        },
                    ),
                );
            },
            StmtOutcome::Failed => {
                let e = StmtError::SqliteError;
                results.push(StmtOut::Failed(e));
                proof {
                    assert(stmt_fails(auth, batch@[done], outs0[done]));
                    assert(first_fail_from(auth, batch@, outs0, done) == done);
                }
                return (
                    results,
                    ExecutionOutcome {
                        executed: i + 1,
                        rolled_back: !is_explicit,
                        error: Some(e),
                    },
                );
            },
            StmtOutcome::Busy => {
                let e = StmtError::TransactionBusy;
                results.push(StmtOut::Failed(e));
                proof {
                    assert(stmt_fails(auth, batch@[done], outs0[done]));
                    assert(first_fail_from(auth, batch@, outs0, done) == done);
                }
                return (
                    results,
                    ExecutionOutcome {
                        executed: i + 1,
                        rolled_back: !is_explicit,
                        error: Some(e),
                    },
                );
            },
        }
        proof {
            assert(!stmt_fails(auth, batch@[done], outs0[done]));
            assert(first_fail_from(auth, batch@, outs0, done) == first_fail_from(
                auth,
                batch@,
                outs0,
                done + 1,
            ));
            assert(out_rel(outs0[done], results@[done]));
        }
        i = i + 1;
    }
    proof {
        assert(first_fail_from(auth, batch@, outs0, n as int) == n as int);
    }
    (results, ExecutionOutcome { executed: n, rolled_back: false, error: None })
}

/// Whether this caller may run this statement at all. Drivers that run a
/// batch one statement at a time call this before handing the statement
/// to the engine: a blocked statement never reaches it.
pub fn admit_stmt(auth: Authenticated, query: &Query) -> (r: Result<(), StmtError>)
    ensures
        r is Ok <==> !blocked(auth, query.stmt.kind),
        r matches Err(e) ==> e == StmtError::Blocked,
{
    if auth.read_only && !(query.stmt.kind == StmtKind::Read) {
        Err(StmtError::Blocked)
    } else {
        Ok(())
    }
}

/// Folds one engine outcome into the statement's recorded result — the
/// per-statement half of `run_batch`, for drivers that obtain each
/// outcome only after the statement was admitted.
pub fn record_outcome(outcome: StmtOutcome) -> (r: Result<StmtOut, StmtError>)
    ensures
        r is Ok <==> !(outcome is Failed || outcome is Busy),
        r matches Ok(res) ==> out_rel(outcome, res),
        outcome is Busy ==> r == Err::<StmtOut, _>(StmtError::TransactionBusy),
        outcome is Failed ==> r == Err::<StmtOut, _>(StmtError::SqliteError),
{
    match outcome {
        StmtOutcome::Rows { columns, rows } => Ok(
            StmtOut::Row(StmtResult { columns, rows, affected_rows: 0, last_insert_id: None }),
        ),
        StmtOutcome::Affected { count, last_insert_id } => Ok(
            StmtOut::Row(
                StmtResult {
                    columns: Vec::new(),
                    rows: Vec::new(),
                    affected_rows: count,
                    last_insert_id,
                },
            ),
        ),
        StmtOutcome::Failed => Err(StmtError::SqliteError),
        StmtOutcome::Busy => Err(StmtError::TransactionBusy),
    }
}

/// Whether the lease at `lease` has outlived the inactivity budget at
/// instant `now_ms`.
pub open spec fn lease_expired(lease: Option<u64>, timeout_ms: u64, now_ms: u64) -> bool {
    lease matches Some(t) && now_ms > t && now_ms - t > timeout_ms
}

/// A local database handle: one session's connection to the storage
/// engine, owning at most one transaction lease.
#[derive(Clone, Copy, Debug, PartialEq, Eq, Structural)]
pub struct LocalDb {
    /// The instant of the last activity on the open transaction, if one is
    /// open.
    pub lease: Option<u64>,
    /// The inactivity budget of an open transaction.
    pub timeout_ms: u64,
}

/// The lease transition before a statement runs at instant `now_ms`: no
/// lease passes through; a live lease is refreshed; an expired one is
/// released with `TransactionTimeout`.
pub open spec fn touch_step(db: LocalDb, now_ms: u64) -> (LocalDb, Option<StmtError>) {
    match db.lease {
        Option::None => (db, None::<StmtError>),
        Option::Some(_) => {
            if lease_expired(db.lease, db.timeout_ms, now_ms) {
                (LocalDb { lease: None, ..db }, Some(StmtError::TransactionTimeout))
            } else {
                (LocalDb { lease: Some(now_ms), ..db }, None::<StmtError>)
            }
        },
    }
}

/// The lease transition of `BEGIN` at instant `now_ms`: it acquires a free
/// lease, finds a live one busy, and releases an expired one with
/// `TransactionTimeout` (after which the handle is usable again).
pub open spec fn begin_step(db: LocalDb, now_ms: u64) -> (LocalDb, Option<StmtError>) {
    match db.lease {
        Option::None => (LocalDb { lease: Some(now_ms), ..db }, None::<StmtError>),
        Option::Some(_) => {
            if lease_expired(db.lease, db.timeout_ms, now_ms) {
                (LocalDb { lease: None, ..db }, Some(StmtError::TransactionTimeout))
            } else {
                (db, Some(StmtError::TransactionBusy))
            }
        },
    }
}

impl LocalDb {
    /// A fresh handle with the default inactivity budget.
    pub fn new() -> (r: LocalDb)
        ensures
            r == (LocalDb { lease: None, timeout_ms: TXN_TIMEOUT_MS }),
    {
        LocalDb { lease: None, timeout_ms: TXN_TIMEOUT_MS }
    }

    /// A fresh handle with a chosen inactivity budget.
    pub fn with_timeout(timeout_ms: u64) -> (r: LocalDb)
        ensures
            r == (LocalDb { lease: None, timeout_ms }),
    {
        LocalDb { lease: None, timeout_ms }
    }

    /// Checks and refreshes the lease before a statement runs.
    pub fn touch(&mut self, now_ms: u64) -> (r: Result<(), StmtError>)
        ensures
            *final(self) == touch_step(*old(self), now_ms).0,
            r is Ok <==> touch_step(*old(self), now_ms).1 is None,
            r matches Err(e) ==> Some(e) == touch_step(*old(self), now_ms).1,
    {
        match self.lease {
            Option::None => Ok(()),
            Option::Some(t) => {
                if now_ms > t && now_ms - t > self.timeout_ms {
                    self.lease = None;
                    Err(StmtError::TransactionTimeout)
                } else {
                    self.lease = Some(now_ms);
                    Ok(())
                }
            },
        }
    }

    /// Acquires the transaction lease for a `BEGIN`.
    pub fn begin_txn(&mut self, now_ms: u64) -> (r: Result<(), StmtError>)
        ensures
            *final(self) == begin_step(*old(self), now_ms).0,
            r is Ok <==> begin_step(*old(self), now_ms).1 is None,
            r matches Err(e) ==> Some(e) == begin_step(*old(self), now_ms).1,
    {
        match self.lease {
            Option::None => {
                self.lease = Some(now_ms);
                Ok(())
            },
            Option::Some(t) => {
                if now_ms > t && now_ms - t > self.timeout_ms {
                    self.lease = None;
                    Err(StmtError::TransactionTimeout)
                } else {
                    Err(StmtError::TransactionBusy)
                }
            },
        }
    }

    /// Releases the lease on `COMMIT`, `ROLLBACK`, or disconnect.
    pub fn end_txn(&mut self)
        ensures
            *final(self) == (LocalDb { lease: None, ..*old(self) }),
    {
        self.lease = None;
    }
}

/// The statement kinds of a batch.
pub open spec fn kinds_of_batch(batch: Seq<Query>) -> Seq<StmtKind> {
    batch.map_values(|q: Query| q.stmt.kind)
}

impl LocalDb {
    /// Runs one batch on this handle at instant `now_ms`.
    ///
    /// The lease is checked first: an expired one fails the whole batch
    /// with `TransactionTimeout` and is released, leaving the handle
    /// usable. Otherwise the batch runs with rollback-on-failure
    /// semantics, and afterwards the lease follows the transaction state
    /// that the successfully executed prefix reaches: held (and
    /// refreshed) exactly when a transaction is open.
    pub fn execute_batch_checked(
        &mut self,
        now_ms: u64,
        batch: &Vec<Query>,
        auth: Authenticated,
        outcomes: Vec<StmtOutcome>,
    ) -> (r: Result<(Vec<StmtOut>, ExecutionOutcome), StmtError>)
        requires
            outcomes@.len() == batch@.len(),
        ensures
            lease_expired(old(self).lease, old(self).timeout_ms, now_ms) ==> r == Err::<
                (Vec<StmtOut>, ExecutionOutcome),
                _,
            >(StmtError::TransactionTimeout) && final(self).lease is None,
            !lease_expired(old(self).lease, old(self).timeout_ms, now_ms) ==> (
            r matches Ok((results, summary)) && {
                let init_st = if old(self).lease is Some {
                    State::Txn
                } else {
                    State::Init
                };
                let k = first_fail_from(auth, batch@, outcomes@, 0);
                let prefix = if k < batch@.len() {
                    k
                } else {
                    batch@.len() as int
                };
                let st = crate::query_analysis::predict_spec(
                    init_st,
                    kinds_of_batch(batch@).take(prefix),
                );
                &&& run_rel(auth, batch@, outcomes@, results@, summary)
                &&& final(self).lease == if st == State::Txn {
                    Some(now_ms)
                } else {
                    None::<u64>
                }
            }),
            final(self).timeout_ms == old(self).timeout_ms,
    {
        match self.touch(now_ms) {
            Err(e) => Err(e),
            Ok(()) => {
                let ghost init_st = if old(self).lease is Some {
                    State::Txn
                } else {
                    State::Init
                };
                let had_lease = self.lease.is_some();
                let n = batch.len();
                let (results, summary) = run_batch(auth, batch, outcomes);
                proof {
                    let k = first_fail_from(auth, batch@, outcomes@, 0);
                    lemma_first_fail_bounds(auth, batch@, outcomes@, 0);
                    if k < batch@.len() {
                        assert(summary.executed == k + 1);
                        assert(summary.executed >= 1);
                    }
                }
                let prefix = if summary.error.is_some() {
                    // The failing statement did not take effect.
                    summary.executed - 1
                } else {
                    n
                };
                proof {
                    let k = first_fail_from(auth, batch@, outcomes@, 0);
                    if k < batch@.len() {
                        assert(prefix == k);
                    } else {
                        assert(prefix == n);
                    }
                }
                let mut kinds: Vec<StmtKind> = Vec::new();
                let mut i: usize = 0;
                proof {
                    assert(kinds_of_batch(batch@).take(0) =~= Seq::<StmtKind>::empty());
                }
                while i < prefix
                    invariant
                        i <= prefix <= n,
                        n == batch@.len(),
                        kinds@ =~= kinds_of_batch(batch@).take(i as int),
                    decreases prefix - i,
                {
                    kinds.push(batch[i].stmt.kind);
                    proof {
                        assert(kinds@ =~= kinds_of_batch(batch@).take(i as int + 1));
                    }
                    i = i + 1;
                }
                let st_init = if had_lease {
                    State::Txn
                } else {
                    State::Init
                };
                proof {
                    assert(st_init == init_st);
                }
                let st = crate::query_analysis::predict_final_state(st_init, &kinds);
                if st == State::Txn {
                    self.lease = Some(now_ms);
                } else {
                    self.lease = None;
                }
                Ok((results, summary))
            },
        }
    }
}

/// Law: a lease that outlived its budget is released by the very statement
/// that finds it expired — the statement fails with `TransactionTimeout`,
/// and the handle is immediately usable again: a later `BEGIN` acquires a
/// fresh lease.
pub proof fn lemma_lease_usable_after_timeout(db: LocalDb, now_ms: u64, later_ms: u64)
    requires
        lease_expired(db.lease, db.timeout_ms, now_ms),
    ensures
        ({
            let (db1, e1) = touch_step(db, now_ms);
            let (db2, e2) = begin_step(db1, later_ms);
            &&& e1 == Some(StmtError::TransactionTimeout)
            &&& db1.lease is None
            &&& e2 is None
            &&& db2.lease == Some(later_ms)
        }),
{
}

/// Whether a batch must run on the primary: it holds a write or a
/// transaction-control statement.
pub open spec fn batch_needs_primary(batch: Seq<Query>) -> bool {
    exists|i: int|
        0 <= i < batch.len() && ((#[trigger] batch[i].stmt.kind) == StmtKind::Write
            || is_txn_control(batch[i].stmt.kind))
}

/// What one forwarded batch brought back from the primary.
#[derive(Clone, Debug)]
pub enum RpcOutcome {
    /// The primary could not be reached (connect refused, timeout, stream
    /// reset). The write was not applied.
    Unreachable,
    /// The primary's streamed response, reconciled into per-statement
    /// results, the transaction token to carry on the session, and the
    /// error that stopped the batch there, if any.
    Response { results: Vec<StmtOut>, txn_token: Option<u64>, error: Option<StmtError> },
}

/// What the replica decided for a batch: executed locally, or must be
/// forwarded to the primary.
pub enum ProxyStep {
    Done(Vec<StmtOut>, ExecutionOutcome),
    NeedPrimary,
}

/// A replica's database handle: reads run locally; writes are forwarded to
/// the primary, carrying the session's transaction token.
#[derive(Clone, Copy, Debug, PartialEq, Eq, Structural)]
pub struct WriteProxyDb {
    pub local: LocalDb,
    /// The proxied transaction's token at the primary, while one is open.
    pub txn_token: Option<u64>,
}

impl WriteProxyDb {
    /// A fresh replica handle.
    pub fn new() -> (r: WriteProxyDb)
        ensures
            r == (WriteProxyDb {
                local: LocalDb { lease: None, timeout_ms: TXN_TIMEOUT_MS },
                txn_token: None,
            }),
    {
        WriteProxyDb { local: LocalDb::new(), txn_token: None }
    }

    /// Decides a batch. A batch without writes, outside any open proxied
    /// transaction, runs entirely locally: no RPC session is opened and the
    /// handle is unchanged except for its result. Any other batch must go
    /// to the primary.
    pub fn start_batch(
        &mut self,
        batch: &Vec<Query>,
        auth: Authenticated,
        local_outcomes: Vec<StmtOutcome>,
    ) -> (r: ProxyStep)
        requires
            local_outcomes@.len() == batch@.len(),
        ensures
            *final(self) == *old(self),
            r is NeedPrimary <==> (batch_needs_primary(batch@) || old(self).txn_token is Some),
            r matches ProxyStep::Done(results, summary) ==> run_rel(
                auth,
                batch@,
                local_outcomes@,
                results@,
                summary,
            ),
    {
        let n = batch.len();
        let mut needs = self.txn_token.is_some();
        let mut i: usize = 0;
        while i < n
            invariant
                i <= n,
                n == batch@.len(),
                needs == (old(self).txn_token is Some || exists|t: int|
                    0 <= t < i && ((#[trigger] batch@[t].stmt.kind) == StmtKind::Write
                        || is_txn_control(batch@[t].stmt.kind))),
            decreases n - i,
        {
            let k = batch[i].stmt.kind;
            if k == StmtKind::Write || k == StmtKind::TxnBegin || k == StmtKind::TxnCommit || k
                == StmtKind::TxnRollback {
                needs = true;
            }
            i = i + 1;
        }
        if needs {
            ProxyStep::NeedPrimary
        } else {
            let (results, summary) = run_batch(auth, batch, local_outcomes);
            ProxyStep::Done(results, summary)
        }
    }

    /// Takes in what the one forwarded attempt brought back at instant
    /// `now_ms`. A transport failure surfaces as `ProxyUnavailable` — the
    /// batch is not retried (a hidden retry could double-apply a write) and
    /// is not run locally (that would break single-writer consistency). A
    /// response carries the primary's results through unchanged, pins the
    /// session to the returned transaction token, and stamps the proxied
    /// transaction's activity instant.
    pub fn finish_remote(&mut self, now_ms: u64, rpc: RpcOutcome) -> (r: Result<
        (Vec<StmtOut>, ExecutionOutcome),
        StmtError,
    >)
        ensures
            rpc is Unreachable ==> r == Err::<(Vec<StmtOut>, ExecutionOutcome), _>(
                StmtError::ProxyUnavailable,
            ) && *final(self) == *old(self),
            rpc matches RpcOutcome::Response { results, txn_token, error } ==> {
                &&& r matches Ok((res, summary)) && res == results && summary
                    == (ExecutionOutcome {
                    executed: res.len(),
                    rolled_back: false,
                    error: error,
                })
                &&& final(self).txn_token == txn_token
                &&& final(self).local == (LocalDb {
                    lease: if txn_token is Some {
                        Some(now_ms)
                    } else {
                        None::<u64>
                    },
                    timeout_ms: old(self).local.timeout_ms,
                })
            },
    {
        match rpc {
            RpcOutcome::Unreachable => Err(StmtError::ProxyUnavailable),
            RpcOutcome::Response { results, txn_token, error } => {
                self.txn_token = txn_token;
                self.local.lease = if txn_token.is_some() {
                    Some(now_ms)
                } else {
                    None
                };
                let summary = ExecutionOutcome {
                    executed: results.len(),
                    rolled_back: false,
                    error,
                };
                Ok((results, summary))
            },
        }
    }

    /// Applies the inactivity budget to the open proxied transaction, as
    /// `LocalDb::touch` does for a local one: past the budget the token is
    /// dropped and `TransactionTimeout` surfaces, so the driver rolls the
    /// abandoned transaction back on the primary instead of leaking it.
    pub fn touch(&mut self, now_ms: u64) -> (r: Result<(), StmtError>)
        ensures
            *final(self) == proxy_touch_step(*old(self), now_ms).0,
            r is Ok <==> proxy_touch_step(*old(self), now_ms).1 is None,
            r matches Err(e) ==> Some(e) == proxy_touch_step(*old(self), now_ms).1,
    {
        match self.local.touch(now_ms) {
            Ok(()) => Ok(()),
            Err(e) => {
                self.txn_token = None;
                Err(e)
            },
        }
    }
}

/// The replica's lease transition at instant `now_ms`: an idle proxied
/// transaction past the budget is released — its token dropped, the
/// timeout surfaced — a live one is refreshed, and a handle with no open
/// transaction passes through.
pub open spec fn proxy_touch_step(db: WriteProxyDb, now_ms: u64) -> (
    WriteProxyDb,
    Option<StmtError>,
) {
    let (l, e) = touch_step(db.local, now_ms);
    if e is Some {
        (WriteProxyDb { local: l, txn_token: None }, e)
    } else {
        (WriteProxyDb { local: l, txn_token: db.txn_token }, None::<StmtError>)
    }
}

/// Law: an abandoned proxied transaction is not leaked. Once its
/// inactivity budget has passed, the next touch releases both the lease
/// and the primary-side token, surfacing `TransactionTimeout` for the
/// driver to answer with a rollback on the primary.
pub proof fn lemma_idle_proxied_txn_released(db: WriteProxyDb, now_ms: u64)
    requires
        lease_expired(db.local.lease, db.local.timeout_ms, now_ms),
    ensures
        ({
            let (stepped, e) = proxy_touch_step(db, now_ms);
            &&& e == Some(StmtError::TransactionTimeout)
            &&& stepped.txn_token is None
            &&& stepped.local.lease is None
        }),
{
}

/// What executing a batch on a local handle means: an expired lease fails
/// the whole batch with `TransactionTimeout` and is released; otherwise
/// the batch runs with rollback-on-failure semantics and the lease follows
/// the transaction state that the successfully executed prefix reaches.
pub open spec fn local_batch_rel(
    pre: LocalDb,
    post: LocalDb,
    now_ms: u64,
    batch: Seq<Query>,
    auth: Authenticated,
    outs: Seq<StmtOutcome>,
    results: Seq<StmtOut>,
    summary: ExecutionOutcome,
) -> bool {
    if lease_expired(pre.lease, pre.timeout_ms, now_ms) {
        &&& results.len() == 0
        &&& summary == (ExecutionOutcome {
            executed: 0,
            rolled_back: false,
            error: Some(StmtError::TransactionTimeout),
        })
        &&& post == (LocalDb { lease: None, ..pre })
    } else {
        let init_st = if pre.lease is Some {
            State::Txn
        } else {
            State::Init
        };
        let k = first_fail_from(auth, batch, outs, 0);
        let prefix = if k < batch.len() {
            k
        } else {
            batch.len() as int
        };
        let st = crate::query_analysis::predict_spec(
            init_st,
            kinds_of_batch(batch).take(prefix),
        );
        &&& run_rel(auth, batch, outs, results, summary)
        &&& post.timeout_ms == pre.timeout_ms
        &&& post.lease == if st == State::Txn {
            Some(now_ms)
        } else {
            None::<u64>
        }
    }
}

/// What executing a batch on a replica handle means: the inactivity budget
/// is applied first; a batch without writes outside any open proxied
/// transaction runs locally; anything else goes through the one supplied
/// RPC attempt — a missing or failed attempt surfaces `ProxyUnavailable`
/// with the handle unchanged, a response is carried through with its
/// transaction token pinned to the session.
pub open spec fn proxy_batch_rel(
    pre: WriteProxyDb,
    post: WriteProxyDb,
    now_ms: u64,
    batch: Seq<Query>,
    auth: Authenticated,
    outs: Seq<StmtOutcome>,
    rpc: Option<RpcOutcome>,
    results: Seq<StmtOut>,
    summary: ExecutionOutcome,
) -> bool {
    let stepped = proxy_touch_step(pre, now_ms).0;
    if proxy_touch_step(pre, now_ms).1 is Some {
        &&& results.len() == 0
        &&& summary == (ExecutionOutcome {
            executed: 0,
            rolled_back: false,
            error: Some(StmtError::TransactionTimeout),
        })
        &&& post == stepped
    } else if !(batch_needs_primary(batch) || pre.txn_token is Some) {
        &&& run_rel(auth, batch, outs, results, summary)
        &&& post == stepped
    } else {
        match rpc {
            Some(RpcOutcome::Response { results: rr, txn_token, error }) => {
                &&& results == rr@
                &&& summary.executed == rr@.len()
                &&& !summary.rolled_back
                &&& summary.error == error
                &&& post.txn_token == txn_token
                &&& post.local == (LocalDb {
                    lease: if txn_token is Some {
                        Some(now_ms)
                    } else {
                        None::<u64>
                    },
                    timeout_ms: pre.local.timeout_ms,
                })
            },
            _ => {
                &&& results.len() == 0
                &&& summary == (ExecutionOutcome {
                    executed: 0,
                    rolled_back: false,
                    error: Some(StmtError::ProxyUnavailable),
                })
                &&& post == stepped
            },
        }
    }
}

/// The single capability set every database variant offers: execute a
/// batch with rollback-on-failure semantics at a given instant. The
/// session driver hands in the engine's outcomes and, for a replica, what
/// the one forwarded RPC attempt returned (`None` when no attempt was or
/// could be made). `batch_rel` is what each variant owes for one
/// execution; front ends rely on it without branching on the variant.
pub trait Database: Sized {
    /// How one execution relates the handle before and after, the inputs,
    /// and the results: the local handle's lease-checked batch run, or the
    /// replica's route-and-forward step.
    spec fn batch_rel(
        pre: Self,
        post: Self,
        now_ms: u64,
        batch: Seq<Query>,
        auth: Authenticated,
        outs: Seq<StmtOutcome>,
        rpc: Option<RpcOutcome>,
        results: Seq<StmtOut>,
        summary: ExecutionOutcome,
    ) -> bool;

    /// Executes one query: the batch of one statement.
    fn execute(
        &mut self,
        now_ms: u64,
        query: Query,
        auth: Authenticated,
        outcome: StmtOutcome,
        rpc: Option<RpcOutcome>,
    ) -> (r: (Vec<StmtOut>, ExecutionOutcome))
        ensures
            r.1.executed == r.0@.len(),
            Self::batch_rel(
                *old(self),
                *final(self),
                now_ms,
                seq![query],
                auth,
                seq![outcome],
                rpc,
                r.0@,
                r.1,
            ),
    ;

    fn execute_batch_or_rollback(
        &mut self,
        now_ms: u64,
        batch: &Vec<Query>,
        auth: Authenticated,
        local_outcomes: Vec<StmtOutcome>,
        rpc: Option<RpcOutcome>,
    ) -> (r: (Vec<StmtOut>, ExecutionOutcome))
        requires
            local_outcomes@.len() == batch@.len(),
        ensures
            r.1.executed == r.0@.len(),
            Self::batch_rel(
                *old(self),
                *final(self),
                now_ms,
                batch@,
                auth,
                local_outcomes@,
                rpc,
                r.0@,
                r.1,
            ),
    ;
}

/// The one entry point every wire protocol uses: execute the batch on
/// whichever database variant the server was started with, and stream the
/// per-statement results into the caller's result builder. It succeeds
/// exactly when the variant's results fit the builder's bound; the
/// builder then holds them unchanged.
pub fn execute_batch_into<D: Database>(
    db: &mut D,
    now_ms: u64,
    batch: &Vec<Query>,
    auth: Authenticated,
    local_outcomes: Vec<StmtOutcome>,
    rpc: Option<RpcOutcome>,
    b: &mut JsonHttpPayloadBuilder,
) -> (r: Result<ExecutionOutcome, StmtError>)
    requires
        local_outcomes@.len() == batch@.len(),
        old(b).wf(),
        !old(b).in_stmt,
        !old(b).finished,
        !old(b).poisoned,
    ensures
        final(b).wf(),
        r matches Ok(summary) ==> exists|results: Seq<StmtOut>|
            {
                &&& #[trigger] D::batch_rel(
                    *old(db),
                    *final(db),
                    now_ms,
                    batch@,
                    auth,
                    local_outcomes@,
                    rpc,
                    results,
                    summary,
                )
                &&& old(b).used + crate::result_builder::stream_cost(results) <= old(
                    b,
                ).max_size
                &&& !final(b).poisoned
                &&& summary.executed == results.len()
                &&& final(b).results@.len() == old(b).results@.len() + results.len()
                &&& forall|j: int|
                    0 <= j < results.len() ==> crate::result_builder::stmt_out_like(
                        results[j],
                        #[trigger] final(b).results@[old(b).results@.len() + j],
                    )
            },
        r matches Err(e) ==> e == StmtError::ResponseTooLarge && final(b).poisoned && exists|
            results: Seq<StmtOut>,
            summary: ExecutionOutcome,
        |
            #[trigger] D::batch_rel(
                *old(db),
                *final(db),
                now_ms,
                batch@,
                auth,
                local_outcomes@,
                rpc,
                results,
                summary,
            ) && old(b).used + crate::result_builder::stream_cost(results) > old(b).max_size,
{
    let (results, summary) = db.execute_batch_or_rollback(now_ms, batch, auth, local_outcomes, rpc);
    let ghost res_g = results@;
    let ghost sum_g = summary;
    match feed_builder(results, b) {
        Ok(()) => {
            proof {
                assert(D::batch_rel(
                    *old(db),
                    *db,
                    now_ms,
                    batch@,
                    auth,
                    local_outcomes@,
                    rpc,
                    res_g,
                    sum_g,
                ));
            }
            Ok(summary)
        },
        Err(e) => {
            proof {
                assert(D::batch_rel(
                    *old(db),
                    *db,
                    now_ms,
                    batch@,
                    auth,
                    local_outcomes@,
                    rpc,
                    res_g,
                    sum_g,
                ));
            }
            Err(e)
        },
    }
}

impl Database for LocalDb {
    /// The lease-checked local batch run.
    open spec fn batch_rel(
        pre: LocalDb,
        post: LocalDb,
        now_ms: u64,
        batch: Seq<Query>,
        auth: Authenticated,
        outs: Seq<StmtOutcome>,
        rpc: Option<RpcOutcome>,
        results: Seq<StmtOut>,
        summary: ExecutionOutcome,
    ) -> bool {
        local_batch_rel(pre, post, now_ms, batch, auth, outs, results, summary)
    }

    /// Runs one query locally.
    fn execute(
        &mut self,
        now_ms: u64,
        query: Query,
        auth: Authenticated,
        outcome: StmtOutcome,
        rpc: Option<RpcOutcome>,
    ) -> (r: (Vec<StmtOut>, ExecutionOutcome)) {
        let mut batch: Vec<Query> = Vec::new();
        batch.push(query);
        let mut outcomes: Vec<StmtOutcome> = Vec::new();
        outcomes.push(outcome);
        proof {
            assert(batch@ =~= seq![query]);
            assert(outcomes@ =~= seq![outcome]);
        }
        self.execute_batch_or_rollback(now_ms, &batch, auth, outcomes, rpc)
    }

    /// Runs the whole batch locally under the lease check; the RPC slot is
    /// ignored.
    fn execute_batch_or_rollback(
        &mut self,
        now_ms: u64,
        batch: &Vec<Query>,
        auth: Authenticated,
        local_outcomes: Vec<StmtOutcome>,
        rpc: Option<RpcOutcome>,
    ) -> (r: (Vec<StmtOut>, ExecutionOutcome)) {
        match self.execute_batch_checked(now_ms, batch, auth, local_outcomes) {
            Ok((results, summary)) => (results, summary),
            Err(_) => (
                Vec::new(),
                ExecutionOutcome {
                    executed: 0,
                    rolled_back: false,
                    error: Some(StmtError::TransactionTimeout),
                },
            ),
        }
    }
}

impl Database for WriteProxyDb {
    /// The replica's route-and-forward step.
    open spec fn batch_rel(
        pre: WriteProxyDb,
        post: WriteProxyDb,
        now_ms: u64,
        batch: Seq<Query>,
        auth: Authenticated,
        outs: Seq<StmtOutcome>,
        rpc: Option<RpcOutcome>,
        results: Seq<StmtOut>,
        summary: ExecutionOutcome,
    ) -> bool {
        proxy_batch_rel(pre, post, now_ms, batch, auth, outs, rpc, results, summary)
    }

    /// Runs one query, locally or through the primary as its kind demands.
    fn execute(
        &mut self,
        now_ms: u64,
        query: Query,
        auth: Authenticated,
        outcome: StmtOutcome,
        rpc: Option<RpcOutcome>,
    ) -> (r: (Vec<StmtOut>, ExecutionOutcome)) {
        let mut batch: Vec<Query> = Vec::new();
        batch.push(query);
        let mut outcomes: Vec<StmtOutcome> = Vec::new();
        outcomes.push(outcome);
        proof {
            assert(batch@ =~= seq![query]);
            assert(outcomes@ =~= seq![outcome]);
        }
        self.execute_batch_or_rollback(now_ms, &batch, auth, outcomes, rpc)
    }

    /// Applies the inactivity budget, runs a batch without writes locally,
    /// and forwards anything else through the one supplied RPC attempt,
    /// surfacing `ProxyUnavailable` when none was possible.
    fn execute_batch_or_rollback(
        &mut self,
        now_ms: u64,
        batch: &Vec<Query>,
        auth: Authenticated,
        local_outcomes: Vec<StmtOutcome>,
        rpc: Option<RpcOutcome>,
    ) -> (r: (Vec<StmtOut>, ExecutionOutcome)) {
        match self.touch(now_ms) {
            Err(e) => (
                Vec::new(),
                ExecutionOutcome { executed: 0, rolled_back: false, error: Some(e) },
            ),
            Ok(()) => match self.start_batch(batch, auth, local_outcomes) {
                ProxyStep::Done(results, summary) => (results, summary),
                ProxyStep::NeedPrimary => {
                    let attempt = match rpc {
                        Option::Some(a) => a,
                        Option::None => RpcOutcome::Unreachable,
                    };
                    match self.finish_remote(now_ms, attempt) {
                        Ok((results, summary)) => (results, summary),
                        Err(e) => (
                            Vec::new(),
                            ExecutionOutcome {
                                executed: 0,
                                rolled_back: false,
                                error: Some(e),
                            },
                        ),
                    }
                },
            },
        }
    }
}

} // verus!
