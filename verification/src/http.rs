//! The compute side of the plain JSON HTTP surface: turning raw query
//! objects into an executable batch, rejecting batches that would leave a
//! transaction open across stateless requests, and splitting the request
//! path into namespace and route.
use vstd::prelude::*;
use crate::errors::StmtError;
use crate::query::{Query, QueryObject};
use crate::query_analysis::{predict_spec, State, StmtKind};
use crate::statement::{classify_spec, lexically_closed, sql_statements, Statement};

verus! {

/// Why a batch of raw queries was rejected before execution.
#[derive(Clone, Debug, PartialEq, Eq, Structural)]
pub enum BatchParseError {
    /// One query's text failed to split or held more than one statement.
    Stmt(StmtError),
    /// The batch's predicted final state is an open transaction, which a
    /// stateless request may not leave behind.
    InteractiveTxnForbidden,
}

/// The kind of the single statement of one raw query text: the kind of its
/// first statement, or `Other` for an empty text (the no-op statement).
pub open spec fn single_stmt_kind(s: Seq<u8>) -> StmtKind {
    if sql_statements(s).len() == 0 {
        StmtKind::Other
    } else {
        classify_spec(sql_statements(s)[0])
    }
}

/// The text of the single statement of one raw query text.
pub open spec fn single_stmt_text(s: Seq<u8>) -> Seq<u8> {
    if sql_statements(s).len() == 0 {
        Seq::empty()
    } else {
        sql_statements(s)[0]
    }
}

/// Every query text is lexically closed and holds at most one statement.
pub open spec fn queries_well_formed(qs: Seq<QueryObject>) -> bool {
    forall|i: int|
        0 <= i < qs.len() ==> lexically_closed(#[trigger] qs[i].q@) && sql_statements(
            qs[i].q@,
        ).len() <= 1
}

/// The statement kinds of a batch of raw queries.
pub open spec fn batch_kinds(qs: Seq<QueryObject>) -> Seq<StmtKind> {
    qs.map_values(|q: QueryObject| single_stmt_kind(q.q@))
}

/// Parses a batch of raw queries into executable queries.
///
/// Each text must hold exactly one statement (an empty text stands for the
/// no-op statement); a text with more fails with `SqlManyStmts`, an
/// unterminated one with `SqlParse`. A batch whose predicted final
/// transaction state is `Txn` is rejected: a stateless request may not
/// leave a transaction open. A prediction of `Invalid` is deliberately let
/// through, so that the storage engine produces its own, more precise
/// error.
pub fn parse_queries(queries: Vec<QueryObject>) -> (r: Result<Vec<Query>, BatchParseError>)
    ensures
        r is Ok <==> queries_well_formed(queries@) && predict_spec(
            State::Init,
            batch_kinds(queries@),
        ) != State::Txn,
        r matches Ok(v) ==> {
            &&& v@.len() == queries@.len()
            &&& forall|i: int|
                0 <= i < v@.len() ==> {
                    &&& (#[trigger] v@[i]).stmt.text@ == single_stmt_text(queries@[i].q@)
                    &&& v@[i].stmt.kind == single_stmt_kind(queries@[i].q@)
                    &&& v@[i].params == queries@[i].params
                    &&& v@[i].want_rows
                }
        },
        r == Err::<Vec<Query>, _>(BatchParseError::Stmt(StmtError::SqlParse)) ==> exists|i: int|
            0 <= i < queries@.len() && !lexically_closed(queries@[i].q@),
        r == Err::<Vec<Query>, _>(BatchParseError::Stmt(StmtError::SqlManyStmts))
            ==> exists|i: int|
            0 <= i < queries@.len() && sql_statements(queries@[i].q@).len() > 1,
        r == Err::<Vec<Query>, _>(BatchParseError::InteractiveTxnForbidden) ==> (
        queries_well_formed(queries@) && predict_spec(State::Init, batch_kinds(queries@))
            == State::Txn),
        r matches Err(e) ==> (e == BatchParseError::Stmt(StmtError::SqlParse) || e
            == BatchParseError::Stmt(StmtError::SqlManyStmts) || e
            == BatchParseError::InteractiveTxnForbidden),
{
    let ghost qs0 = queries@;
    let mut pending = queries;
    let mut out: Vec<Query> = Vec::new();
    let mut kinds: Vec<StmtKind> = Vec::new();
    let ghost n = qs0.len();
    while pending.len() > 0
        invariant
            qs0 == queries@,
            n == qs0.len(),
            pending@ =~= qs0.skip(out@.len() as int),
            out@.len() + pending@.len() == n,
            kinds@ =~= batch_kinds(qs0).take(out@.len() as int),
            forall|i: int|
                0 <= i < out@.len() ==> lexically_closed(#[trigger] qs0[i].q@)
                    && sql_statements(qs0[i].q@).len() <= 1,
            forall|i: int|
                0 <= i < out@.len() ==> {
                    &&& (#[trigger] out@[i]).stmt.text@ == single_stmt_text(qs0[i].q@)
                    &&& out@[i].stmt.kind == single_stmt_kind(qs0[i].q@)
                    &&& out@[i].params == qs0[i].params
                    &&& out@[i].want_rows
                },
        decreases pending@.len(),
    {
        let ghost done = out@.len() as int;
        let q = pending.remove(0);
        proof {
            assert(qs0.skip(done)[0] == qs0[done]);
            assert(q == qs0[done]);
            assert(pending@ =~= qs0.skip(done).remove(0));
            assert(pending@ =~= qs0.skip(done + 1));
        }
        let parsed = match Statement::parse(q.q.as_slice()) {
            Ok(p) => p,
            Err(_) => {
                proof {
                    assert(!lexically_closed(qs0[done].q@));
                    assert(exists|i: int|
                        0 <= i < qs0.len() && !lexically_closed(qs0[i].q@));
                    assert(!queries_well_formed(qs0));
                }
                return Err(BatchParseError::Stmt(StmtError::SqlParse));
            },
        };
        if parsed.len() > 1 {
            proof {
                assert(sql_statements(qs0[done].q@).len() > 1);
                assert(exists|i: int|
                    0 <= i < qs0.len() && sql_statements(qs0[i].q@).len() > 1);
                assert(!queries_well_formed(qs0));
            }
            return Err(BatchParseError::Stmt(StmtError::SqlManyStmts));
        }
        let stmt = if parsed.len() == 0 {
            Statement::empty()
        } else {
            let mut parsed = parsed;
            parsed.remove(0)
        };
        kinds.push(stmt.kind);
        out.push(Query { stmt, params: q.params, want_rows: true });
        proof {
            assert(kinds@ =~= batch_kinds(qs0).take(done + 1));
        }
    }
    proof {
        assert(out@.len() == n);
        assert(kinds@ =~= batch_kinds(qs0));
        assert(queries_well_formed(qs0));
    }
    let st = crate::query_analysis::predict_final_state(State::Init, &kinds);
    match st {
        State::Txn => Err(BatchParseError::InteractiveTxnForbidden),
        _ => Ok(out),
    }
}

/// Least index `>= from` of a `/` byte in `s`, or `s.len()` if none.
pub open spec fn slash_idx(s: Seq<u8>, from: int) -> int
    decreases s.len() - from,
{
    if from < 0 || from >= s.len() {
        s.len() as int
    } else if s[from] == 47 {
        from
    } else {
        slash_idx(s, from + 1)
    }
}

/// `s` with every leading repetition of the non-empty prefix `p` removed.
pub open spec fn trim_prefix_rep(s: Seq<u8>, p: Seq<u8>) -> Seq<u8>
    decreases s.len(),
{
    if 0 < p.len() <= s.len() && s.take(p.len() as int) == p {
        trim_prefix_rep(s.skip(p.len() as int), p)
    } else {
        s
    }
}

/// Splits a request path into its first segment (the namespace, up to but
/// excluding the second `/`) and the rest of the path with every leading
/// repetition of that segment removed.
pub fn split_url_path(path: &[u8]) -> (r: (Vec<u8>, Vec<u8>))
    requires
        exists|j: int| 1 <= j < path@.len() && path@[j] == 47,
    ensures
        r.0@ == path@.take(slash_idx(path@, 1)),
        r.1@ == trim_prefix_rep(path@, r.0@),
{
    let mut i: usize = 1;
    while i < path.len() && path[i] != 47
        invariant
            1 <= i <= path@.len(),
            slash_idx(path@, 1) == slash_idx(path@, i as int),
            forall|j: int| 1 <= j < i ==> path@[j] != 47,
        decreases path.len() - i,
    {
        i = i + 1;
    }
    proof {
        let w = choose|j: int| 1 <= j < path@.len() && path@[j] == 47;
        assert(i < path@.len());
        assert(slash_idx(path@, i as int) == i);
    }
    let n = path.len();
    let first = vstd::slice::slice_to_vec(vstd::slice::slice_subrange(path, 0, i));
    let flen = first.len();
    let mut off: usize = 0;
    proof {
        assert(path@.skip(0) =~= path@);
    }
    loop
        invariant
            flen == first@.len(),
            off <= n,
            n == path@.len(),
            0 < flen <= n,
            first@ == path@.take(slash_idx(path@, 1)),
            trim_prefix_rep(path@, first@) == trim_prefix_rep(path@.skip(off as int), first@),
        decreases path@.len() - off,
    {
        if flen <= n - off && prefix_matches(path, off, &first) {
            proof {
                assert(path@.skip(off as int).take(flen as int) =~= path@.subrange(
                    off as int,
                    off as int + flen as int,
                ));
                assert(path@.skip(off as int).skip(flen as int) =~= path@.skip(
                    off as int + flen as int,
                ));
            }
            off = off + flen;
        } else {
            proof {
                if off + flen <= n {
                    assert(path@.skip(off as int).take(flen as int) =~= path@.subrange(
                        off as int,
                        off as int + flen as int,
                    ));
                }
                assert(trim_prefix_rep(path@.skip(off as int), first@) == path@.skip(
                    off as int,
                ));
            }
            let rest = vstd::slice::slice_to_vec(
                vstd::slice::slice_subrange(path, off, n),
            );
            proof {
                assert(path@.subrange(off as int, path@.len() as int) =~= path@.skip(
                    off as int,
                ));
            }
            return (first, rest);
        }
    }
}

/// Whether `path[off .. off + p.len()]` equals `p`.
fn prefix_matches(path: &[u8], off: usize, p: &Vec<u8>) -> (r: bool)
    requires
        off + p@.len() <= path@.len(),
    ensures
        r == (path@.subrange(off as int, off as int + p@.len() as int) =~= p@),
{
    let n = path.len();
    let mut k: usize = 0;
    while k < p.len()
        invariant
            k <= p@.len(),
            n == path@.len(),
            off + p@.len() <= n,
            forall|j: int| 0 <= j < k ==> path@[off + j] == p@[j],
        decreases p.len() - k,
    {
        if path[off + k] != p[k] {
            proof {
                assert(path@.subrange(off as int, off as int + p@.len() as int)[k as int]
                    != p@[k as int]);
            }
            return false;
        }
        k = k + 1;
    }
    proof {
        assert(path@.subrange(off as int, off as int + p@.len() as int) =~= p@);
    }
    true
}

} // verus!
