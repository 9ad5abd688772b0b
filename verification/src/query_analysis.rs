//! Transaction-state tracking over classified SQL statements.
//!
//! A batch of statements is folded through a small state machine before it is
//! executed: `TxnBegin` opens a transaction, `TxnCommit` / `TxnRollback`
//! close one, and opening or closing at the wrong moment makes the whole
//! sequence contradictory (`Invalid`). The prediction is a pure function of
//! the statement kinds and is used as a pre-check only; the storage engine
//! keeps its own authoritative transaction state.
use vstd::prelude::*;

verus! {

/// The classification of one SQL statement, as far as the server needs it:
/// read-only, writing, transaction control, or anything else.
#[derive(Clone, Copy, Debug, PartialEq, Eq, Structural)]
pub enum StmtKind {
    Read,
    Write,
    TxnBegin,
    TxnCommit,
    TxnRollback,
    Other,
}

/// Predicted transaction state after a prefix of a batch has run.
#[derive(Clone, Copy, Debug, PartialEq, Eq, Structural)]
pub enum State {
    /// No transaction is open.
    Init,
    /// A transaction is open.
    Txn,
    /// The sequence is contradictory (for example `COMMIT` with no open
    /// transaction); once contradictory it stays so.
    Invalid,
}

/// One transition of the transaction-state machine.
pub open spec fn step_state(s: State, k: StmtKind) -> State {
    match k {
        StmtKind::TxnBegin => match s {
            State::Init => State::Txn,
            _ => State::Invalid,
        },
        StmtKind::TxnCommit | StmtKind::TxnRollback => match s {
            State::Txn => State::Init,
            _ => State::Invalid,
        },
        _ => s,
    }
}

/// The fold of `step_state` over a sequence of statement kinds.
pub open spec fn predict_spec(init: State, kinds: Seq<StmtKind>) -> State
    decreases kinds.len(),
{
    if kinds.len() == 0 {
        init
    } else {
        predict_spec(step_state(init, kinds[0]), kinds.drop_first())
    }
}

/// Folds a batch's statement kinds into the final transaction state.
pub fn predict_final_state(init: State, kinds: &Vec<StmtKind>) -> (r: State)
    ensures
        r == predict_spec(init, kinds@),
{
    let mut st = init;
    let mut i: usize = 0;
    proof {
        assert(kinds@.skip(0) =~= kinds@);
    }
    while i < kinds.len()
        invariant
            i <= kinds.len(),
            predict_spec(init, kinds@) == predict_spec(st, kinds@.skip(i as int)),
        decreases kinds.len() - i,
    {
        proof {
            assert(kinds@.skip(i as int).drop_first() =~= kinds@.skip(i as int + 1));
        }
        st = step_kind(st, kinds[i]);
        i = i + 1;
    }
    proof {
        assert(kinds@.skip(kinds@.len() as int).len() == 0);
    }
    st
}

/// Executable form of one state transition.
pub fn step_kind(s: State, k: StmtKind) -> (r: State)
    ensures
        r == step_state(s, k),
{
    match k {
        StmtKind::TxnBegin => match s {
            State::Init => State::Txn,
            _ => State::Invalid,
        },
        StmtKind::TxnCommit | StmtKind::TxnRollback => match s {
            State::Txn => State::Init,
            _ => State::Invalid,
        },
        _ => s,
    }
}

/// Law: the prediction is associative over concatenation. Running the fold
/// over `a ++ b` is the same as running it over `a` and starting `b` from the
/// state that `a` reached.
pub proof fn lemma_predict_associative(init: State, a: Seq<StmtKind>, b: Seq<StmtKind>)
    ensures
        predict_spec(predict_spec(init, a), b) == predict_spec(init, a + b),
    decreases a.len(),
{
    if a.len() == 0 {
        assert(a + b =~= b);
    } else {
        assert((a + b).drop_first() =~= a.drop_first() + b);
        lemma_predict_associative(step_state(init, a[0]), a.drop_first(), b);
    }
}

} // verus!
