//! End-to-end checks of the statement-execution core: classification,
//! transaction-state prediction, batch parsing, the size-bounded builder,
//! local execution with rollback, the transaction lease, the write proxy,
//! and the plain-JSON value codec.
use sqld_core::database::{
    admit_stmt, execute_batch_into, record_outcome, run_batch, Authenticated, Database,
    ExecutionOutcome, LocalDb, ProxyStep, RpcOutcome, StmtOutcome, WriteProxyDb,
};
use sqld_core::errors::StmtError;
use sqld_core::http::{parse_queries, split_url_path, BatchParseError};
use sqld_core::json::{json_to_value, value_to_json, JsonVal};
use sqld_core::query::{Params, Query, QueryObject, Value};
use sqld_core::query_analysis::{predict_final_state, State, StmtKind};
use sqld_core::result_builder::{feed_builder, JsonHttpPayloadBuilder, StmtOut};
use sqld_core::statement::{parse_single_statement, Statement};

fn kind_of(sql: &str) -> StmtKind {
    let stmts = Statement::parse(sql.as_bytes()).expect("parse");
    assert_eq!(stmts.len(), 1);
    stmts[0].kind
}

fn query(sql: &str) -> Query {
    let stmts = Statement::parse(sql.as_bytes()).expect("parse");
    assert_eq!(stmts.len(), 1);
    Query { stmt: stmts.into_iter().next().unwrap(), params: Params::Empty, want_rows: true }
}

#[test]
fn predict_begin_opens_txn() {
    assert_eq!(predict_final_state(State::Init, &vec![StmtKind::TxnBegin]), State::Txn);
}

#[test]
fn predict_commit_without_begin_is_invalid() {
    assert_eq!(predict_final_state(State::Init, &vec![StmtKind::TxnCommit]), State::Invalid);
}

#[test]
fn predict_begin_commit_returns_to_init() {
    assert_eq!(
        predict_final_state(State::Init, &vec![StmtKind::TxnBegin, StmtKind::TxnCommit]),
        State::Init
    );
}

#[test]
fn predict_nested_begin_is_invalid() {
    assert_eq!(
        predict_final_state(State::Init, &vec![StmtKind::TxnBegin, StmtKind::TxnBegin]),
        State::Invalid
    );
}

#[test]
fn predict_is_associative_on_a_sample() {
    let a = vec![StmtKind::TxnBegin, StmtKind::Write];
    let b = vec![StmtKind::TxnCommit, StmtKind::Read];
    let mid = predict_final_state(State::Init, &a);
    let whole: Vec<StmtKind> = a.iter().chain(b.iter()).copied().collect();
    assert_eq!(predict_final_state(mid, &b), predict_final_state(State::Init, &whole));
}

#[test]
fn classify_keywords() {
    assert_eq!(kind_of("BEGIN"), StmtKind::TxnBegin);
    assert_eq!(kind_of("begin transaction"), StmtKind::TxnBegin);
    assert_eq!(kind_of("COMMIT"), StmtKind::TxnCommit);
    assert_eq!(kind_of("end"), StmtKind::TxnCommit);
    assert_eq!(kind_of("ROLLBACK"), StmtKind::TxnRollback);
    assert_eq!(kind_of("SELECT 1"), StmtKind::Read);
    assert_eq!(kind_of("select * from t"), StmtKind::Read);
    assert_eq!(kind_of("INSERT INTO t VALUES (1)"), StmtKind::Write);
    assert_eq!(kind_of("update t set x = 1"), StmtKind::Write);
    assert_eq!(kind_of("DELETE FROM t"), StmtKind::Write);
    assert_eq!(kind_of("CREATE TABLE t (x)"), StmtKind::Write);
    assert_eq!(kind_of("DROP TABLE t"), StmtKind::Write);
    assert_eq!(kind_of("ALTER TABLE t ADD y"), StmtKind::Write);
    assert_eq!(kind_of("REPLACE INTO t VALUES (1)"), StmtKind::Write);
    assert_eq!(kind_of("PRAGMA user_version"), StmtKind::Other);
}

#[test]
fn classify_skips_comments_and_whitespace() {
    assert_eq!(kind_of("  /* leading */ SELECT 1"), StmtKind::Read);
    assert_eq!(kind_of("-- note\nUPDATE t SET x = 1"), StmtKind::Write);
}

#[test]
fn parse_splits_on_semicolons() {
    let stmts = Statement::parse(b"SELECT 1; SELECT 2").expect("parse");
    assert_eq!(stmts.len(), 2);
    assert_eq!(stmts[0].kind, StmtKind::Read);
    assert_eq!(stmts[1].kind, StmtKind::Read);
}

#[test]
fn parse_keeps_semicolons_inside_strings() {
    let stmts = Statement::parse(b"SELECT ';'").expect("parse");
    assert_eq!(stmts.len(), 1);
    assert_eq!(stmts[0].text, b"SELECT ';'".to_vec());
}

#[test]
fn parse_ignores_trailing_semicolon_and_comments() {
    let stmts = Statement::parse(b"SELECT 1; -- done\n").expect("parse");
    assert_eq!(stmts.len(), 1);
}

#[test]
fn single_statement_surface_requires_exactly_one() {
    let st = parse_single_statement(b"SELECT 1").expect("one statement");
    assert_eq!(st.kind, StmtKind::Read);
    let none = parse_single_statement(b"  -- only a comment\n");
    assert_eq!(none.err(), Some(StmtError::SqlNoStmt));
    let many = parse_single_statement(b"SELECT 1; SELECT 2");
    assert_eq!(many.err(), Some(StmtError::SqlManyStmts));
}

#[test]
fn parse_rejects_unterminated_string() {
    let r = Statement::parse(b"SELECT 'abc");
    assert_eq!(r.err(), Some(StmtError::SqlParse));
}

#[test]
fn single_statement_string_with_two_commands_is_rejected() {
    let r = parse_queries(vec![QueryObject {
        q: b"SELECT 1; SELECT 2".to_vec(),
        params: Params::Empty,
    }]);
    assert_eq!(r.err(), Some(BatchParseError::Stmt(StmtError::SqlManyStmts)));
}

#[test]
fn empty_statement_string_is_a_noop_not_an_error() {
    let r = parse_queries(vec![QueryObject { q: Vec::new(), params: Params::Empty }]);
    let qs = r.expect("empty input must parse");
    assert_eq!(qs.len(), 1);
    assert_eq!(qs[0].stmt.kind, StmtKind::Other);
    assert!(qs[0].stmt.text.is_empty());
    assert!(qs[0].want_rows);
}

#[test]
fn batch_predicted_to_leave_txn_open_is_rejected() {
    let r = parse_queries(vec![QueryObject { q: b"BEGIN".to_vec(), params: Params::Empty }]);
    assert_eq!(r.err(), Some(BatchParseError::InteractiveTxnForbidden));
}

#[test]
fn batch_predicted_invalid_is_passed_through_to_the_engine() {
    // COMMIT with no open transaction predicts Invalid, which is
    // deliberately not pre-rejected.
    let r = parse_queries(vec![QueryObject { q: b"COMMIT".to_vec(), params: Params::Empty }]);
    assert!(r.is_ok());
}

#[test]
fn split_url_path_takes_first_segment() {
    let (ns, rest) = split_url_path(b"/ns1/health");
    assert_eq!(ns, b"/ns1".to_vec());
    assert_eq!(rest, b"/health".to_vec());
}

#[test]
fn split_url_path_trims_repeated_prefix() {
    let (ns, rest) = split_url_path(b"/a/a");
    assert_eq!(ns, b"/a".to_vec());
    assert_eq!(rest, b"".to_vec());
}

#[test]
fn error_statuses() {
    assert_eq!(StmtError::SqlParse.status(), 400);
    assert_eq!(StmtError::SqlNoStmt.status(), 400);
    assert_eq!(StmtError::SqlManyStmts.status(), 400);
    assert_eq!(StmtError::ArgsInvalid.status(), 400);
    assert_eq!(StmtError::ResponseTooLarge.status(), 400);
    assert_eq!(StmtError::Blocked.status(), 400);
    assert_eq!(StmtError::ArgsBothPositionalAndNamed.status(), 501);
    assert_eq!(StmtError::TransactionTimeout.status(), 503);
    assert_eq!(StmtError::TransactionBusy.status(), 503);
    assert_eq!(StmtError::ProxyUnavailable.status(), 503);
    assert_eq!(StmtError::SqliteError.status(), 500);
}

#[test]
fn error_codes_are_stable() {
    assert_eq!(StmtError::SqlManyStmts.code(), "SQL_MANY_STATEMENTS");
    assert_eq!(StmtError::ResponseTooLarge.code(), "RESPONSE_TOO_LARGE");
    assert_eq!(StmtError::TransactionTimeout.code(), "TRANSACTION_TIMEOUT");
    assert_eq!(StmtError::ProxyUnavailable.code(), "PROXY_UNAVAILABLE");
}

#[test]
fn builder_size_bound_poisons_and_stays_poisoned() {
    let mut b = JsonHttpPayloadBuilder::with_max_size(10);
    b.begin_statement(vec!["a".to_string()]).expect("small header fits");
    let big = vec![Value::Text("aaaaaaaaaaaaaaaaaaaa".to_string())];
    assert_eq!(b.add_row(big), Err(StmtError::ResponseTooLarge));
    // Everything after the bound was exceeded fails too, even tiny writes.
    assert_eq!(b.add_row(vec![Value::Null]), Err(StmtError::ResponseTooLarge));
    assert_eq!(b.finish_statement(0, None), Err(StmtError::ResponseTooLarge));
    assert_eq!(b.statement_error(StmtError::SqliteError), Err(StmtError::ResponseTooLarge));
    // And the condition maps to a client-fault status, not a server error.
    assert_eq!(StmtError::ResponseTooLarge.status(), 400);
}

#[test]
fn builder_accumulates_results() {
    let mut b = JsonHttpPayloadBuilder::new();
    b.begin_statement(vec!["x".to_string()]).unwrap();
    b.add_row(vec![Value::Integer(1)]).unwrap();
    b.finish_statement(0, None).unwrap();
    b.finish_batch().unwrap();
    let out = b.into_ret();
    assert_eq!(out.len(), 1);
    match &out[0] {
        StmtOut::Row(sr) => {
            assert_eq!(sr.columns, vec!["x".to_string()]);
            assert_eq!(sr.rows.len(), 1);
            assert!(matches!(sr.rows[0][0], Value::Integer(1)));
        }
        StmtOut::Failed(_) => panic!("expected a result"),
    }
}

#[test]
fn feed_builder_streams_results_in_order() {
    let auth = Authenticated { read_only: false };
    let batch = vec![query("SELECT 1"), query("INSERT INTO t VALUES (1)")];
    let outcomes = vec![
        StmtOutcome::Rows {
            columns: vec!["x".to_string()],
            rows: vec![vec![Value::Integer(7)], vec![Value::Integer(8)]],
        },
        StmtOutcome::Affected { count: 1, last_insert_id: None },
    ];
    let (results, _) = run_batch(auth, &batch, outcomes);
    let mut b = JsonHttpPayloadBuilder::new();
    feed_builder(results, &mut b).expect("fits the default bound");
    b.finish_batch().expect("batch closes");
    let out = b.into_ret();
    assert_eq!(out.len(), 2);
    match &out[0] {
        StmtOut::Row(sr) => {
            assert_eq!(sr.columns, vec!["x".to_string()]);
            assert_eq!(sr.rows.len(), 2);
        }
        StmtOut::Failed(_) => panic!("expected rows"),
    }
}

#[test]
fn feed_builder_stops_at_the_size_bound() {
    let mut b = JsonHttpPayloadBuilder::with_max_size(6);
    let big = StmtOut::Row(sqld_core::result_builder::StmtResult {
        columns: vec!["abc".to_string()],
        rows: vec![vec![Value::Text("0123456789".to_string())]],
        affected_rows: 0,
        last_insert_id: None,
    });
    let r = feed_builder(vec![big], &mut b);
    assert_eq!(r.err(), Some(StmtError::ResponseTooLarge));
    // The poisoned builder refuses everything that follows.
    assert_eq!(b.add_row(vec![Value::Null]), Err(StmtError::ResponseTooLarge));
    assert_eq!(b.statement_error(StmtError::SqliteError), Err(StmtError::ResponseTooLarge));
}

fn rows_outcome() -> StmtOutcome {
    StmtOutcome::Rows {
        columns: vec!["x".to_string()],
        rows: vec![vec![Value::Integer(7)]],
    }
}

#[test]
fn run_batch_success_in_order() {
    let auth = Authenticated { read_only: false };
    let batch = vec![query("SELECT 1"), query("INSERT INTO t VALUES (1)")];
    let outcomes = vec![rows_outcome(), StmtOutcome::Affected { count: 1, last_insert_id: Some(9) }];
    let (results, summary) = run_batch(auth, &batch, outcomes);
    assert_eq!(summary, ExecutionOutcome { executed: 2, rolled_back: false, error: None });
    assert_eq!(results.len(), 2);
    match &results[1] {
        StmtOut::Row(sr) => {
            assert_eq!(sr.affected_rows, 1);
            assert_eq!(sr.last_insert_id, Some(9));
        }
        StmtOut::Failed(_) => panic!("expected a result"),
    }
}

#[test]
fn run_batch_failure_rolls_back_implicit_txn() {
    let auth = Authenticated { read_only: false };
    let batch = vec![query("INSERT INTO t VALUES (1)"), query("SELECT 1")];
    let outcomes = vec![StmtOutcome::Failed, rows_outcome()];
    let (results, summary) = run_batch(auth, &batch, outcomes);
    assert_eq!(summary.executed, 1);
    assert!(summary.rolled_back);
    assert_eq!(summary.error, Some(StmtError::SqliteError));
    assert_eq!(results.len(), 1);
    assert!(matches!(results[0], StmtOut::Failed(StmtError::SqliteError)));
}

#[test]
fn run_batch_failure_in_explicit_txn_does_not_roll_back() {
    let auth = Authenticated { read_only: false };
    let batch = vec![query("BEGIN"), query("INSERT INTO t VALUES (1)")];
    let outcomes = vec![
        StmtOutcome::Affected { count: 0, last_insert_id: None },
        StmtOutcome::Failed,
    ];
    let (_, summary) = run_batch(auth, &batch, outcomes);
    assert_eq!(summary.executed, 2);
    assert!(!summary.rolled_back);
    assert_eq!(summary.error, Some(StmtError::SqliteError));
}

#[test]
fn run_batch_blocks_unauthorized_write_before_engine() {
    let auth = Authenticated { read_only: true };
    let batch = vec![query("INSERT INTO t VALUES (1)")];
    // Even a would-be-successful engine outcome is never consulted.
    let outcomes = vec![StmtOutcome::Affected { count: 1, last_insert_id: None }];
    let (results, summary) = run_batch(auth, &batch, outcomes);
    assert_eq!(summary.error, Some(StmtError::Blocked));
    assert!(matches!(results[0], StmtOut::Failed(StmtError::Blocked)));
}

#[test]
fn run_batch_busy_engine_surfaces_transaction_busy() {
    let auth = Authenticated { read_only: false };
    let batch = vec![query("SELECT 1")];
    let (_, summary) = run_batch(auth, &batch, vec![StmtOutcome::Busy]);
    assert_eq!(summary.error, Some(StmtError::TransactionBusy));
}

#[test]
fn per_statement_driver_steps() {
    let read_only = Authenticated { read_only: true };
    let full = Authenticated { read_only: false };
    // Admission happens before the engine sees the statement.
    assert_eq!(admit_stmt(read_only, &query("DELETE FROM t")), Err(StmtError::Blocked));
    assert!(admit_stmt(read_only, &query("SELECT 1")).is_ok());
    assert!(admit_stmt(full, &query("DELETE FROM t")).is_ok());
    // Each engine outcome folds into the recorded result.
    match record_outcome(StmtOutcome::Affected { count: 3, last_insert_id: Some(5) }) {
        Ok(StmtOut::Row(sr)) => {
            assert_eq!(sr.affected_rows, 3);
            assert_eq!(sr.last_insert_id, Some(5));
        }
        _ => panic!("a write outcome records its metadata"),
    }
    assert_eq!(record_outcome(StmtOutcome::Failed).err(), Some(StmtError::SqliteError));
    assert_eq!(record_outcome(StmtOutcome::Busy).err(), Some(StmtError::TransactionBusy));
}

#[test]
fn lease_second_begin_is_busy() {
    let mut db = LocalDb::new();
    db.begin_txn(1000).expect("first begin");
    assert_eq!(db.begin_txn(1001), Err(StmtError::TransactionBusy));
}

#[test]
fn lease_timeout_then_usable_again() {
    let mut db = LocalDb::with_timeout(5);
    db.begin_txn(1000).expect("begin");
    // Idle past the budget: the next statement times out...
    assert_eq!(db.touch(1006), Err(StmtError::TransactionTimeout));
    // ...and the lease was released, so the handle works again.
    db.begin_txn(1007).expect("handle must be usable after the timeout");
}

#[test]
fn lease_activity_keeps_txn_alive() {
    let mut db = LocalDb::with_timeout(5);
    db.begin_txn(1000).expect("begin");
    db.touch(1004).expect("still live");
    db.touch(1008).expect("refreshed by the last touch");
    db.end_txn();
    db.begin_txn(2000).expect("after commit the lease is free");
}

#[test]
fn lease_follows_batch_transaction_state() {
    let auth = Authenticated { read_only: false };
    let mut db = LocalDb::new();
    let open = vec![query("BEGIN")];
    let r = db.execute_batch_checked(
        1000,
        &open,
        auth,
        vec![StmtOutcome::Affected { count: 0, last_insert_id: None }],
    );
    assert!(r.is_ok());
    // The transaction is open, so a second BEGIN on the handle is busy.
    assert_eq!(db.begin_txn(1001), Err(StmtError::TransactionBusy));
    let close = vec![query("COMMIT")];
    let r = db.execute_batch_checked(
        1002,
        &close,
        auth,
        vec![StmtOutcome::Affected { count: 0, last_insert_id: None }],
    );
    assert!(r.is_ok());
    // Committed: the lease is free again.
    db.begin_txn(1003).expect("lease released on commit");
}

#[test]
fn checked_execute_times_out_and_recovers() {
    let auth = Authenticated { read_only: false };
    let mut db = LocalDb::with_timeout(5);
    let open = vec![query("BEGIN")];
    db.execute_batch_checked(
        1000,
        &open,
        auth,
        vec![StmtOutcome::Affected { count: 0, last_insert_id: None }],
    )
    .expect("open");
    // Idle past the budget: the whole next batch fails with the timeout...
    let reads = vec![query("SELECT 1")];
    let r = db.execute_batch_checked(2000, &reads, auth, vec![rows_outcome()]);
    assert_eq!(r.err(), Some(StmtError::TransactionTimeout));
    // ...and the handle serves the retry.
    let r = db.execute_batch_checked(2001, &reads, auth, vec![rows_outcome()]);
    assert!(r.is_ok());
}

#[test]
fn write_proxy_read_only_batch_never_calls_primary() {
    let mut db = WriteProxyDb::new();
    let auth = Authenticated { read_only: false };
    let batch = vec![query("SELECT 1"), query("SELECT 2")];
    let outcomes = vec![rows_outcome(), rows_outcome()];
    let mut rpc_calls: u32 = 0;
    let step = db.start_batch(&batch, auth, outcomes);
    match step {
        ProxyStep::Done(results, summary) => {
            assert_eq!(summary.executed, 2);
            assert_eq!(results.len(), 2);
        }
        ProxyStep::NeedPrimary => {
            rpc_calls += 1;
        }
    }
    assert_eq!(rpc_calls, 0, "a batch with no writes must not open an RPC session");
}

#[test]
fn write_proxy_write_batch_goes_to_primary_once_and_fails_without_retry() {
    let mut db = WriteProxyDb::new();
    let auth = Authenticated { read_only: false };
    let batch = vec![query("INSERT INTO t VALUES (1)")];
    let outcomes = vec![StmtOutcome::Affected { count: 1, last_insert_id: None }];
    let mut rpc_calls: u32 = 0;
    match db.start_batch(&batch, auth, outcomes) {
        ProxyStep::NeedPrimary => {
            // One attempt; it fails at transport level.
            rpc_calls += 1;
            let r = db.finish_remote(1000, RpcOutcome::Unreachable);
            assert_eq!(r.err(), Some(StmtError::ProxyUnavailable));
        }
        ProxyStep::Done(_, _) => panic!("a write must be forwarded"),
    }
    // The failure surfaced immediately; nothing retried behind the scenes.
    assert_eq!(rpc_calls, 1);
}

#[test]
fn write_proxy_tracks_transaction_token() {
    let mut db = WriteProxyDb::new();
    let auth = Authenticated { read_only: false };
    let batch = vec![query("BEGIN"), query("INSERT INTO t VALUES (1)")];
    let outcomes = vec![
        StmtOutcome::Affected { count: 0, last_insert_id: None },
        StmtOutcome::Affected { count: 1, last_insert_id: None },
    ];
    match db.start_batch(&batch, auth, outcomes) {
        ProxyStep::NeedPrimary => {
            let r = db.finish_remote(1000, RpcOutcome::Response {
                results: Vec::new(),
                txn_token: Some(42),
                error: None,
            });
            assert!(r.is_ok());
        }
        ProxyStep::Done(_, _) => panic!("transaction control must be forwarded"),
    }
    // While the proxied transaction is open, even a pure read stays on the
    // same primary connection.
    let reads = vec![query("SELECT 1")];
    let read_outcomes = vec![rows_outcome()];
    assert!(matches!(
        db.start_batch(&reads, auth, read_outcomes),
        ProxyStep::NeedPrimary
    ));
}

#[test]
fn database_trait_single_query_entry() {
    let auth = Authenticated { read_only: false };
    let mut local = LocalDb::new();
    let (res, summary) =
        Database::execute(&mut local, 1000, query("SELECT 1"), auth, rows_outcome(), None);
    assert_eq!(summary.executed, 1);
    assert_eq!(res.len(), 1);
    assert!(summary.error.is_none());
}

#[test]
fn proxied_txn_times_out_and_token_is_released() {
    let auth = Authenticated { read_only: false };
    let mut db = WriteProxyDb::new();
    db.local.timeout_ms = 5;
    // Open a transaction through the primary; the session is pinned to the
    // returned token.
    let open = vec![query("BEGIN")];
    match db.start_batch(&open, auth, vec![StmtOutcome::Affected { count: 0, last_insert_id: None }])
    {
        ProxyStep::NeedPrimary => {
            db.finish_remote(1000, RpcOutcome::Response {
                results: Vec::new(),
                txn_token: Some(7),
                error: None,
            })
            .expect("open on the primary");
        }
        ProxyStep::Done(_, _) => panic!("transaction control must be forwarded"),
    }
    // Abandoned past the budget: the next touch surfaces the timeout and
    // drops the token, so the driver rolls it back on the primary.
    assert_eq!(db.touch(2000), Err(StmtError::TransactionTimeout));
    // The handle is usable again, and a pure read now runs locally.
    let reads = vec![query("SELECT 1")];
    match db.start_batch(&reads, auth, vec![rows_outcome()]) {
        ProxyStep::Done(_, summary) => assert!(summary.error.is_none()),
        ProxyStep::NeedPrimary => panic!("no token may remain after the timeout"),
    }
}

#[test]
fn replica_trait_call_times_out_idle_proxied_txn() {
    let auth = Authenticated { read_only: false };
    let mut db = WriteProxyDb::new();
    db.local.timeout_ms = 5;
    let open = vec![query("BEGIN")];
    let (_, summary) = Database::execute_batch_or_rollback(
        &mut db,
        1000,
        &open,
        auth,
        vec![StmtOutcome::Affected { count: 0, last_insert_id: None }],
        Some(RpcOutcome::Response { results: Vec::new(), txn_token: Some(7), error: None }),
    );
    assert!(summary.error.is_none());
    let reads = vec![query("SELECT 1")];
    let (_, summary) = Database::execute_batch_or_rollback(
        &mut db,
        2000,
        &reads,
        auth,
        vec![rows_outcome()],
        None,
    );
    assert_eq!(summary.error, Some(StmtError::TransactionTimeout));
    // Released: the same read now succeeds locally without any RPC.
    let (res, summary) = Database::execute_batch_or_rollback(
        &mut db,
        2001,
        &reads,
        auth,
        vec![rows_outcome()],
        None,
    );
    assert!(summary.error.is_none());
    assert_eq!(res.len(), 1);
}

#[test]
fn database_trait_unifies_both_variants() {
    let auth = Authenticated { read_only: false };
    let batch = vec![query("SELECT 1")];

    let mut local = LocalDb::new();
    let (res, summary) = Database::execute_batch_or_rollback(
        &mut local,
        1000,
        &batch,
        auth,
        vec![rows_outcome()],
        None,
    );
    assert_eq!(summary.executed, 1);
    assert_eq!(res.len(), 1);

    let mut replica = WriteProxyDb::new();
    let (res, summary) = Database::execute_batch_or_rollback(
        &mut replica,
        1000,
        &batch,
        auth,
        vec![rows_outcome()],
        None,
    );
    assert_eq!(summary.executed, 1);
    assert_eq!(res.len(), 1);

    // A write without a reachable primary surfaces the availability error.
    let writes = vec![query("DELETE FROM t")];
    let (_, summary) = Database::execute_batch_or_rollback(
        &mut replica,
        1001,
        &writes,
        auth,
        vec![StmtOutcome::Affected { count: 0, last_insert_id: None }],
        Some(RpcOutcome::Unreachable),
    );
    assert_eq!(summary.error, Some(StmtError::ProxyUnavailable));
}

#[test]
fn front_end_entry_point_streams_into_builder() {
    let auth = Authenticated { read_only: false };
    let batch = vec![query("SELECT 1")];
    let mut db = LocalDb::new();
    let mut b = JsonHttpPayloadBuilder::new();
    let summary =
        execute_batch_into(&mut db, 1000, &batch, auth, vec![rows_outcome()], None, &mut b)
            .expect("fits the default bound");
    assert_eq!(summary.executed, 1);
    b.finish_batch().unwrap();
    assert_eq!(b.into_ret().len(), 1);
}

#[test]
fn json_round_trip_null_integer_real_text() {
    for v in [
        Value::Null,
        Value::Integer(-12345),
        Value::Real(2.5f64.to_bits()),
        Value::Text("hello".to_string()),
    ] {
        let j = value_to_json(&v);
        let back = json_to_value(&j).expect("scalar shapes always decode");
        match (&v, &back) {
            (Value::Null, Value::Null) => {}
            (Value::Integer(a), Value::Integer(b)) => assert_eq!(a, b),
            (Value::Real(a), Value::Real(b)) => assert_eq!(a, b),
            (Value::Text(a), Value::Text(b)) => assert_eq!(a, b),
            _ => panic!("round trip changed the variant"),
        }
    }
}

#[test]
fn json_round_trip_blob_via_base64() {
    let v = Value::Blob(b"some bytes".to_vec());
    let j = value_to_json(&v);
    match &j {
        JsonVal::B64(s) => assert_eq!(s, "c29tZSBieXRlcw"),
        _ => panic!("blob must encode as a base64 wrapper"),
    }
    match json_to_value(&j) {
        Some(Value::Blob(b)) => assert_eq!(b, b"some bytes".to_vec()),
        _ => panic!("blob must decode back"),
    }
}

#[test]
fn json_decode_rejects_malformed_base64() {
    assert!(json_to_value(&JsonVal::B64("!!!not base64!!!".to_string())).is_none());
    // Padded input is not canonical for the unpadded encoding either.
    assert!(json_to_value(&JsonVal::B64("c29tZSBieXRlcw==".to_string())).is_none());
}

#[test]
fn json_decode_accepts_only_canonical_base64() {
    // "QQ" is the canonical encoding of the single byte 65; "QR" differs
    // only in trailing bits that a canonical encoding must leave zero.
    match json_to_value(&JsonVal::B64("QQ".to_string())) {
        Some(Value::Blob(b)) => assert_eq!(b, vec![65u8]),
        _ => panic!("canonical encoding must decode"),
    }
    assert!(json_to_value(&JsonVal::B64("QR".to_string())).is_none());
}
