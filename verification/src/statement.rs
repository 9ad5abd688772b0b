//! Lexical SQL statement splitting and classification.
//!
//! The server never parses SQL fully; it only needs enough lexical structure
//! to find statement boundaries (`;` outside of string literals, quoted
//! identifiers and comments) and to classify each statement by its first
//! keyword: transaction control, write, read, or other. The splitter is an
//! automaton over the raw bytes; its specification is the same automaton
//! written as a recursive spec function, so every contract below pins the
//! result down exactly.
use vstd::prelude::*;
use crate::query_analysis::StmtKind;
use crate::errors::StmtError;

verus! {

/// Lexical mode of the splitter: outside any quoted region, inside a string
/// literal, inside a quoted identifier, inside a line comment, or inside a
/// block comment.
#[derive(Clone, Copy, Debug, PartialEq, Eq, Structural)]
pub enum LexMode {
    Plain,
    InStr,
    InId,
    InLine,
    InBlock,
}

/// SQL whitespace.
pub open spec fn is_ws(b: u8) -> bool {
    b == 32 || b == 9 || b == 10 || b == 13 || b == 11 || b == 12
}

/// The statements of `s`, given that the splitter is in mode `mode`, has
/// accumulated `cur` for the current segment, and `has` says whether the
/// current segment holds any content (a byte that is neither whitespace nor
/// part of a comment). Segments without content are not statements.
pub open spec fn stmts_from(s: Seq<u8>, mode: LexMode, cur: Seq<u8>, has: bool) -> Seq<Seq<u8>>
    decreases s.len(),
{
    if s.len() == 0 {
        if has {
            seq![cur]
        } else {
            Seq::empty()
        }
    } else {
        let b = s[0];
        match mode {
            LexMode::Plain => {
                if b == 59 {
                    let head: Seq<Seq<u8>> = if has {
                        seq![cur]
                    } else {
                        Seq::empty()
                    };
                    head + stmts_from(s.drop_first(), LexMode::Plain, Seq::empty(), false)
                } else if b == 39 {
                    stmts_from(s.drop_first(), LexMode::InStr, cur.push(b), true)
                } else if b == 34 {
                    stmts_from(s.drop_first(), LexMode::InId, cur.push(b), true)
                } else if b == 45 && s.len() >= 2 && s[1] == 45 {
                    stmts_from(s.skip(2), LexMode::InLine, cur + seq![45u8, 45u8], has)
                } else if b == 47 && s.len() >= 2 && s[1] == 42 {
                    stmts_from(s.skip(2), LexMode::InBlock, cur + seq![47u8, 42u8], has)
                } else {
                    stmts_from(s.drop_first(), LexMode::Plain, cur.push(b), has || !is_ws(b))
                }
            },
            LexMode::InStr => {
                let m = if b == 39 {
                    LexMode::Plain
                } else {
                    LexMode::InStr
                };
                stmts_from(s.drop_first(), m, cur.push(b), true)
            },
            LexMode::InId => {
                let m = if b == 34 {
                    LexMode::Plain
                } else {
                    LexMode::InId
                };
                stmts_from(s.drop_first(), m, cur.push(b), true)
            },
            LexMode::InLine => {
                let m = if b == 10 {
                    LexMode::Plain
                } else {
                    LexMode::InLine
                };
                stmts_from(s.drop_first(), m, cur.push(b), has)
            },
            LexMode::InBlock => {
                if b == 42 && s.len() >= 2 && s[1] == 47 {
                    stmts_from(s.skip(2), LexMode::Plain, cur + seq![42u8, 47u8], has)
                } else {
                    stmts_from(s.drop_first(), LexMode::InBlock, cur.push(b), has)
                }
            },
        }
    }
}

/// The lexical mode the splitter ends in after consuming `s` from `mode`.
/// Ending inside a string, quoted identifier or block comment means the
/// input is lexically unterminated.
pub open spec fn end_mode(s: Seq<u8>, mode: LexMode) -> LexMode
    decreases s.len(),
{
    if s.len() == 0 {
        mode
    } else {
        let b = s[0];
        match mode {
            LexMode::Plain => {
                if b == 39 {
                    end_mode(s.drop_first(), LexMode::InStr)
                } else if b == 34 {
                    end_mode(s.drop_first(), LexMode::InId)
                } else if b == 45 && s.len() >= 2 && s[1] == 45 {
                    end_mode(s.skip(2), LexMode::InLine)
                } else if b == 47 && s.len() >= 2 && s[1] == 42 {
                    end_mode(s.skip(2), LexMode::InBlock)
                } else {
                    end_mode(s.drop_first(), LexMode::Plain)
                }
            },
            LexMode::InStr => {
                let m = if b == 39 {
                    LexMode::Plain
                } else {
                    LexMode::InStr
                };
                end_mode(s.drop_first(), m)
            },
            LexMode::InId => {
                let m = if b == 34 {
                    LexMode::Plain
                } else {
                    LexMode::InId
                };
                end_mode(s.drop_first(), m)
            },
            LexMode::InLine => {
                let m = if b == 10 {
                    LexMode::Plain
                } else {
                    LexMode::InLine
                };
                end_mode(s.drop_first(), m)
            },
            LexMode::InBlock => {
                if b == 42 && s.len() >= 2 && s[1] == 47 {
                    end_mode(s.skip(2), LexMode::Plain)
                } else {
                    end_mode(s.drop_first(), LexMode::InBlock)
                }
            },
        }
    }
}

/// The statements of a raw SQL text: split on `;` outside quotes and
/// comments, dropping segments that hold only whitespace and comments.
pub open spec fn sql_statements(s: Seq<u8>) -> Seq<Seq<u8>> {
    stmts_from(s, LexMode::Plain, Seq::empty(), false)
}

/// Whether a raw SQL text ends outside of any string literal, quoted
/// identifier or block comment (a trailing line comment is fine).
pub open spec fn lexically_closed(s: Seq<u8>) -> bool {
    end_mode(s, LexMode::Plain) == LexMode::Plain || end_mode(s, LexMode::Plain)
        == LexMode::InLine
}

/// ASCII letter.
pub open spec fn is_alpha(b: u8) -> bool {
    (65 <= b && b <= 90) || (97 <= b && b <= 122)
}

/// ASCII upper-casing of one byte.
pub open spec fn upper(b: u8) -> u8 {
    if 97 <= b && b <= 122 {
        (b - 32) as u8
    } else {
        b
    }
}

/// Drops leading whitespace and comments of a statement text. The mode says
/// whether we are between tokens, inside a line comment, or inside a block
/// comment; quoted regions end the skipping since they are content.
pub open spec fn skip_leading(t: Seq<u8>, mode: LexMode) -> Seq<u8>
    decreases t.len(),
{
    if t.len() == 0 {
        t
    } else {
        let b = t[0];
        match mode {
            LexMode::InLine => {
                let m = if b == 10 {
                    LexMode::Plain
                } else {
                    LexMode::InLine
                };
                skip_leading(t.drop_first(), m)
            },
            LexMode::InBlock => {
                if b == 42 && t.len() >= 2 && t[1] == 47 {
                    skip_leading(t.skip(2), LexMode::Plain)
                } else {
                    skip_leading(t.drop_first(), LexMode::InBlock)
                }
            },
            _ => {
                if is_ws(b) {
                    skip_leading(t.drop_first(), LexMode::Plain)
                } else if b == 45 && t.len() >= 2 && t[1] == 45 {
                    skip_leading(t.skip(2), LexMode::InLine)
                } else if b == 47 && t.len() >= 2 && t[1] == 42 {
                    skip_leading(t.skip(2), LexMode::InBlock)
                } else {
                    t
                }
            },
        }
    }
}

/// The upper-cased leading alphabetic run of `t`.
pub open spec fn take_word(t: Seq<u8>) -> Seq<u8>
    decreases t.len(),
{
    if t.len() > 0 && is_alpha(t[0]) {
        seq![upper(t[0])] + take_word(t.drop_first())
    } else {
        Seq::empty()
    }
}

/// The first keyword of a statement text: upper-cased first word after
/// leading whitespace and comments.
pub open spec fn first_keyword(t: Seq<u8>) -> Seq<u8> {
    take_word(skip_leading(t, LexMode::Plain))
}

pub open spec fn kw_begin(w: Seq<u8>) -> bool {
    w.len() == 5 && w[0] == 66 && w[1] == 69 && w[2] == 71 && w[3] == 73 && w[4] == 78
}

pub open spec fn kw_commit(w: Seq<u8>) -> bool {
    w.len() == 6 && w[0] == 67 && w[1] == 79 && w[2] == 77 && w[3] == 77 && w[4] == 73 && w[5]
        == 84
}

pub open spec fn kw_end(w: Seq<u8>) -> bool {
    w.len() == 3 && w[0] == 69 && w[1] == 78 && w[2] == 68
}

pub open spec fn kw_rollback(w: Seq<u8>) -> bool {
    w.len() == 8 && w[0] == 82 && w[1] == 79 && w[2] == 76 && w[3] == 76 && w[4] == 66 && w[5]
        == 65 && w[6] == 67 && w[7] == 75
}

pub open spec fn kw_select(w: Seq<u8>) -> bool {
    w.len() == 6 && w[0] == 83 && w[1] == 69 && w[2] == 76 && w[3] == 69 && w[4] == 67 && w[5]
        == 84
}

pub open spec fn kw_insert(w: Seq<u8>) -> bool {
    w.len() == 6 && w[0] == 73 && w[1] == 78 && w[2] == 83 && w[3] == 69 && w[4] == 82 && w[5]
        == 84
}

pub open spec fn kw_update(w: Seq<u8>) -> bool {
    w.len() == 6 && w[0] == 85 && w[1] == 80 && w[2] == 68 && w[3] == 65 && w[4] == 84 && w[5]
        == 69
}

pub open spec fn kw_delete(w: Seq<u8>) -> bool {
    w.len() == 6 && w[0] == 68 && w[1] == 69 && w[2] == 76 && w[3] == 69 && w[4] == 84 && w[5]
        == 69
}

pub open spec fn kw_create(w: Seq<u8>) -> bool {
    w.len() == 6 && w[0] == 67 && w[1] == 82 && w[2] == 69 && w[3] == 65 && w[4] == 84 && w[5]
        == 69
}

pub open spec fn kw_drop(w: Seq<u8>) -> bool {
    w.len() == 4 && w[0] == 68 && w[1] == 82 && w[2] == 79 && w[3] == 80
}

pub open spec fn kw_alter(w: Seq<u8>) -> bool {
    w.len() == 5 && w[0] == 65 && w[1] == 76 && w[2] == 84 && w[3] == 69 && w[4] == 82
}

pub open spec fn kw_replace(w: Seq<u8>) -> bool {
    w.len() == 7 && w[0] == 82 && w[1] == 69 && w[2] == 80 && w[3] == 76 && w[4] == 65 && w[5]
        == 67 && w[6] == 69
}

/// Classification of a statement text by its first keyword.
pub open spec fn classify_spec(t: Seq<u8>) -> StmtKind {
    let w = first_keyword(t);
    if kw_begin(w) {
        StmtKind::TxnBegin
    } else if kw_commit(w) || kw_end(w) {
        StmtKind::TxnCommit
    } else if kw_rollback(w) {
        StmtKind::TxnRollback
    } else if kw_select(w) {
        StmtKind::Read
    } else if kw_insert(w) || kw_update(w) || kw_delete(w) || kw_create(w) || kw_drop(w)
        || kw_alter(w) || kw_replace(w) {
        StmtKind::Write
    } else {
        StmtKind::Other
    }
}

/// One classified SQL statement: its raw text and its kind.
#[derive(Clone, Debug)]
pub struct Statement {
    pub text: Vec<u8>,
    pub kind: StmtKind,
}

impl Statement {
    /// A statement is well formed when its stored kind is the
    /// classification of its text.
    pub open spec fn wf(self) -> bool {
        self.kind == classify_spec(self.text@)
    }

    /// The no-op statement: empty text, classified `Other`, an identity
    /// transition of the transaction-state machine.
    pub fn empty() -> (r: Statement)
        ensures
            r.text@ == Seq::<u8>::empty(),
            r.kind == StmtKind::Other,
            r.wf(),
    {
        Statement { text: Vec::new(), kind: StmtKind::Other }
    }

    /// Splits a raw SQL text into its classified statements. Fails exactly
    /// when the text is lexically unterminated (ends inside a string
    /// literal, quoted identifier, or block comment).
    pub fn parse(sql: &[u8]) -> (r: Result<Vec<Statement>, StmtError>)
        ensures
            r matches Ok(v) ==> {
                &&& lexically_closed(sql@)
                &&& v@.len() == sql_statements(sql@).len()
                &&& forall|i: int|
                    0 <= i < v@.len() ==> (#[trigger] v@[i]).text@ == sql_statements(sql@)[i]
                        && v@[i].kind == classify_spec(sql_statements(sql@)[i]) && v@[i].wf()
            },
            r is Err <==> !lexically_closed(sql@),
            r matches Err(e) ==> e == StmtError::SqlParse,
    {
        let mut out: Vec<Statement> = Vec::new();
        let mut cur: Vec<u8> = Vec::new();
        let mut has: bool = false;
        let mut mode = LexMode::Plain;
        let mut i: usize = 0;
        proof {
            assert(sql@.skip(0) =~= sql@);
        }
        while i < sql.len()
            invariant
                i <= sql.len(),
                sql_statements(sql@) == out@.map_values(|st: Statement| st.text@) + stmts_from(
                    sql@.skip(i as int),
                    mode,
                    cur@,
                    has,
                ),
                end_mode(sql@, LexMode::Plain) == end_mode(sql@.skip(i as int), mode),
                forall|j: int| 0 <= j < out@.len() ==> (#[trigger] out@[j]).wf(),
            decreases sql.len() - i,
        {
            let ghost rest = sql@.skip(i as int);
            let b = sql[i];
            let two = i + 1 < sql.len();
            let b2 = if two {
                sql[i + 1]
            } else {
                0
            };
            proof {
                assert(rest[0] == sql@[i as int]);
                assert(rest.drop_first() =~= sql@.skip(i as int + 1));
                if i + 2 <= sql.len() {
                    assert(rest.skip(2) =~= sql@.skip(i as int + 2));
                }
            }
            match mode {
                LexMode::Plain => {
                    if b == 59 {
                        if has {
                            let kind = classify(cur.as_slice());
                            let done = Statement { text: cur, kind };
                            proof {
                                let f = |st: Statement| st.text@;
                                assert(out@.push(done).map_values(f) =~= out@.map_values(
                                    f,
                                ).push(done.text@));
                                assert(out@.map_values(f).push(done.text@) + stmts_from(
                                    rest.drop_first(),
                                    LexMode::Plain,
                                    Seq::<u8>::empty(),
                                    false,
                                ) =~= out@.map_values(f) + (seq![done.text@] + stmts_from(
                                    rest.drop_first(),
                                    LexMode::Plain,
                                    Seq::<u8>::empty(),
                                    false,
                                )));
                            }
                            out.push(done);
                        }
                        cur = Vec::new();
                        has = false;
                        i = i + 1;
                    } else if b == 39 {
                        cur.push(b);
                        has = true;
                        mode = LexMode::InStr;
                        i = i + 1;
                    } else if b == 34 {
                        cur.push(b);
                        has = true;
                        mode = LexMode::InId;
                        i = i + 1;
                    } else if b == 45 && two && b2 == 45 {
                        proof {
                            assert(cur@ + seq![45u8, 45u8] =~= cur@.push(45u8).push(45u8));
                        }
                        cur.push(45);
                        cur.push(45);
                        mode = LexMode::InLine;
                        i = i + 2;
                    } else if b == 47 && two && b2 == 42 {
                        proof {
                            assert(cur@ + seq![47u8, 42u8] =~= cur@.push(47u8).push(42u8));
                        }
                        cur.push(47);
                        cur.push(42);
                        mode = LexMode::InBlock;
                        i = i + 2;
                    } else {
                        cur.push(b);
                        has = has || !byte_is_ws(b);
                        i = i + 1;
                    }
                },
                LexMode::InStr => {
                    cur.push(b);
                    has = true;
                    if b == 39 {
                        mode = LexMode::Plain;
                    }
                    i = i + 1;
                },
                LexMode::InId => {
                    cur.push(b);
                    has = true;
                    if b == 34 {
                        mode = LexMode::Plain;
                    }
                    i = i + 1;
                },
                LexMode::InLine => {
                    cur.push(b);
                    if b == 10 {
                        mode = LexMode::Plain;
                    }
                    i = i + 1;
                },
                LexMode::InBlock => {
                    if b == 42 && two && b2 == 47 {
                        proof {
                            assert(cur@ + seq![42u8, 47u8] =~= cur@.push(42u8).push(47u8));
                        }
                        cur.push(42);
                        cur.push(47);
                        mode = LexMode::Plain;
                        i = i + 2;
                    } else {
                        cur.push(b);
                        i = i + 1;
                    }
                },
            }
        }
        proof {
            assert(sql@.skip(sql@.len() as int).len() == 0);
        }
        match mode {
            LexMode::Plain | LexMode::InLine => {
                if has {
                    let kind = classify(cur.as_slice());
                    let done = Statement { text: cur, kind };
                    proof {
                        let f = |st: Statement| st.text@;
                        assert(out@.push(done).map_values(f) =~= out@.map_values(f).push(
                            done.text@,
                        ));
                        assert(sql_statements(sql@) =~= out@.map_values(f).push(done.text@));
                    }
                    out.push(done);
                }
                proof {
                    let f = |st: Statement| st.text@;
                    assert(sql_statements(sql@) =~= out@.map_values(f));
                    assert(forall|j: int|
                        0 <= j < out@.len() ==> (#[trigger] out@[j]).text@ == sql_statements(
                            sql@,
                        )[j]);
                }
                Ok(out)
            },
            _ => Err(StmtError::SqlParse),
        }
    }
}

impl Default for Statement {
    /// The no-op statement.
    fn default() -> (r: Statement)
        ensures
            r.text@ == Seq::<u8>::empty(),
            r.kind == StmtKind::Other,
            r.wf(),
    {
        Statement::empty()
    }
}

/// Parses a text that must hold exactly one statement, as the
/// statement-level protocol surfaces require: none is `SqlNoStmt`, more
/// than one is `SqlManyStmts`.
pub fn parse_single_statement(sql: &[u8]) -> (r: Result<Statement, StmtError>)
    ensures
        r is Ok <==> (lexically_closed(sql@) && sql_statements(sql@).len() == 1),
        r matches Ok(st) ==> st.text@ == sql_statements(sql@)[0] && st.kind == classify_spec(
            sql_statements(sql@)[0],
        ) && st.wf(),
        r == Err::<Statement, _>(StmtError::SqlParse) <==> !lexically_closed(sql@),
        r == Err::<Statement, _>(StmtError::SqlNoStmt) <==> (lexically_closed(sql@)
            && sql_statements(sql@).len() == 0),
        r == Err::<Statement, _>(StmtError::SqlManyStmts) <==> (lexically_closed(sql@)
            && sql_statements(sql@).len() > 1),
{
    match Statement::parse(sql) {
        Err(_) => Err(StmtError::SqlParse),
        Ok(stmts) => {
            if stmts.len() == 0 {
                Err(StmtError::SqlNoStmt)
            } else if stmts.len() > 1 {
                Err(StmtError::SqlManyStmts)
            } else {
                let mut stmts = stmts;
                Ok(stmts.remove(0))
            }
        },
    }
}

/// Executable whitespace test.
pub fn byte_is_ws(b: u8) -> (r: bool)
    ensures
        r == is_ws(b),
{
    b == 32 || b == 9 || b == 10 || b == 13 || b == 11 || b == 12
}

/// Classifies one statement text by its first keyword.
pub fn classify(t: &[u8]) -> (k: StmtKind)
    ensures
        k == classify_spec(t@),
{
    let start = skip_leading_index(t);
    let w = read_word(t, start);
    kind_of_word(&w)
}

/// Maps an upper-cased keyword to a statement kind, mirroring the keyword
/// dispatch of `classify_spec` byte for byte.
fn kind_of_word(w: &Vec<u8>) -> (k: StmtKind)
    ensures
        kw_begin(w@) ==> k == StmtKind::TxnBegin,
        kw_commit(w@) || kw_end(w@) ==> k == StmtKind::TxnCommit,
        kw_rollback(w@) ==> k == StmtKind::TxnRollback,
        kw_select(w@) ==> k == StmtKind::Read,
        kw_insert(w@) || kw_update(w@) || kw_delete(w@) || kw_create(w@) || kw_drop(w@)
            || kw_alter(w@) || kw_replace(w@) ==> k == StmtKind::Write,
        !(kw_begin(w@) || kw_commit(w@) || kw_end(w@) || kw_rollback(w@) || kw_select(w@)
            || kw_insert(w@) || kw_update(w@) || kw_delete(w@) || kw_create(w@) || kw_drop(
            w@,
        ) || kw_alter(w@) || kw_replace(w@)) ==> k == StmtKind::Other,
{
    if w.len() == 5 && w[0] == 66 && w[1] == 69 && w[2] == 71 && w[3] == 73 && w[4] == 78 {
        StmtKind::TxnBegin
    } else if (w.len() == 6 && w[0] == 67 && w[1] == 79 && w[2] == 77 && w[3] == 77 && w[4]
        == 73 && w[5] == 84) || (w.len() == 3 && w[0] == 69 && w[1] == 78 && w[2] == 68) {
        StmtKind::TxnCommit
    } else if w.len() == 8 && w[0] == 82 && w[1] == 79 && w[2] == 76 && w[3] == 76 && w[4]
        == 66 && w[5] == 65 && w[6] == 67 && w[7] == 75 {
        StmtKind::TxnRollback
    } else if w.len() == 6 && w[0] == 83 && w[1] == 69 && w[2] == 76 && w[3] == 69 && w[4]
        == 67 && w[5] == 84 {
        StmtKind::Read
    } else if (w.len() == 6 && w[0] == 73 && w[1] == 78 && w[2] == 83 && w[3] == 69 && w[4]
        == 82 && w[5] == 84) || (w.len() == 6 && w[0] == 85 && w[1] == 80 && w[2] == 68 && w[3]
        == 65 && w[4] == 84 && w[5] == 69) || (w.len() == 6 && w[0] == 68 && w[1] == 69 && w[2]
        == 76 && w[3] == 69 && w[4] == 84 && w[5] == 69) || (w.len() == 6 && w[0] == 67 && w[1]
        == 82 && w[2] == 69 && w[3] == 65 && w[4] == 84 && w[5] == 69) || (w.len() == 4 && w[0]
        == 68 && w[1] == 82 && w[2] == 79 && w[3] == 80) || (w.len() == 5 && w[0] == 65 && w[1]
        == 76 && w[2] == 84 && w[3] == 69 && w[4] == 82) || (w.len() == 7 && w[0] == 82 && w[1]
        == 69 && w[2] == 80 && w[3] == 76 && w[4] == 65 && w[5] == 67 && w[6] == 69) {
        StmtKind::Write
    } else {
        StmtKind::Other
    }
}

/// Finds the index where the leading whitespace and comments of `t` end.
fn skip_leading_index(t: &[u8]) -> (r: usize)
    ensures
        r <= t@.len(),
        skip_leading(t@, LexMode::Plain) == t@.skip(r as int),
{
    let mut i: usize = 0;
    let mut mode = LexMode::Plain;
    proof {
        assert(t@.skip(0) =~= t@);
    }
    while i < t.len()
        invariant
            i <= t.len(),
            mode == LexMode::Plain || mode == LexMode::InLine || mode == LexMode::InBlock,
            skip_leading(t@, LexMode::Plain) == skip_leading(t@.skip(i as int), mode),
        decreases t.len() - i,
    {
        let ghost rest = t@.skip(i as int);
        let b = t[i];
        let two = i + 1 < t.len();
        let b2 = if two {
            t[i + 1]
        } else {
            0
        };
        proof {
            assert(rest[0] == t@[i as int]);
            assert(rest.drop_first() =~= t@.skip(i as int + 1));
            if i + 2 <= t.len() {
                assert(rest.skip(2) =~= t@.skip(i as int + 2));
            }
        }
        match mode {
            LexMode::InLine => {
                if b == 10 {
                    mode = LexMode::Plain;
                }
                i = i + 1;
            },
            LexMode::InBlock => {
                if b == 42 && two && b2 == 47 {
                    mode = LexMode::Plain;
                    i = i + 2;
                } else {
                    i = i + 1;
                }
            },
            _ => {
                if byte_is_ws(b) {
                    i = i + 1;
                } else if b == 45 && two && b2 == 45 {
                    mode = LexMode::InLine;
                    i = i + 2;
                } else if b == 47 && two && b2 == 42 {
                    mode = LexMode::InBlock;
                    i = i + 2;
                } else {
                    proof {
                        assert(skip_leading(rest, LexMode::Plain) == rest);
                    }
                    return i;
                }
            },
        }
    }
    proof {
        assert(t@.skip(t@.len() as int).len() == 0);
        assert(skip_leading(t@.skip(t@.len() as int), mode) =~= t@.skip(t@.len() as int));
    }
    t.len()
}

/// Reads the upper-cased keyword starting at `start`.
fn read_word(t: &[u8], start: usize) -> (w: Vec<u8>)
    requires
        start <= t@.len(),
    ensures
        w@ == take_word(t@.skip(start as int)),
{
    let mut w: Vec<u8> = Vec::new();
    let mut i: usize = start;
    while i < t.len() && is_alpha_byte(t[i])
        invariant
            start <= i <= t.len(),
            take_word(t@.skip(start as int)) == w@ + take_word(t@.skip(i as int)),
        decreases t.len() - i,
    {
        let ghost rest = t@.skip(i as int);
        proof {
            assert(rest[0] == t@[i as int]);
            assert(rest.drop_first() =~= t@.skip(i as int + 1));
            assert(take_word(rest) == seq![upper(rest[0])] + take_word(rest.drop_first()));
        }
        let b = t[i];
        let u = if 97 <= b && b <= 122 {
            b - 32
        } else {
            b
        };
        w.push(u);
        proof {
            assert(w@ + take_word(t@.skip(i as int + 1)) =~= take_word(t@.skip(start as int)));
        }
        i = i + 1;
    }
    proof {
        let rest = t@.skip(i as int);
        if i < t.len() {
            assert(rest[0] == t@[i as int]);
        }
        assert(take_word(rest) == Seq::<u8>::empty());
        assert(w@ + Seq::<u8>::empty() =~= w@);
    }
    w
}

/// Executable ASCII letter test.
fn is_alpha_byte(b: u8) -> (r: bool)
    ensures
        r == is_alpha(b),
{
    (65 <= b && b <= 90) || (97 <= b && b <= 122)
}

} // verus!
