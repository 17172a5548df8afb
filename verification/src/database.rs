//! An open database, with the record of what the library has handed to
//! SQLite on it and what SQLite answered.
use vstd::prelude::*;

use crate::yaml::{SqlValue, SqlValueRef};

verus! {

/// One step of the work done on a database, as the library's calls into
/// SQLite record it.
pub ghost enum SqlCall {
    /// A statement was compiled from this text.
    Prepare(Seq<char>),
    /// The last statement compiled was run as a query, with these text values
    /// for its named parameters.
    Query(Seq<(Seq<char>, Seq<char>)>),
    /// A step of the running query gave a row.
    Row,
    /// A step of the running query found no more rows.
    Done,
    /// A column of the current row was read as text.
    Text(Seq<char>),
    /// The column with this index in the current row was read.
    Value(int, SqlValueRef),
    /// The last statement compiled was run with these parameters, in order;
    /// whether SQLite accepted it.
    Run(Seq<SqlValue>, bool),
    /// A transaction began.
    Begin,
    /// The transaction committed.
    Commit,
}

/// What has been done on a database, in order. Only the library's calls
/// into SQLite add to it.
pub struct SqlLog {
    pub calls: Ghost<Seq<SqlCall>>,
}

/// An open SQLite database and what has been done on it.
pub struct Database {
    pub conn: rusqlite::Connection,
    pub log: SqlLog,
}

impl Database {
    /// Wraps an open connection; nothing has been done on it yet.
    pub fn new(conn: rusqlite::Connection) -> (r: Database)
        ensures
            r.log.calls@ == Seq::<SqlCall>::empty(),
    {
        Database { conn, log: SqlLog { calls: Ghost(Seq::empty()) } }
    }

    /// The connection, for closing it.
    pub fn into_connection(self) -> (r: rusqlite::Connection)
        ensures
            r == self.conn,
    {
        self.conn
    }
}

/// The texts of named parameters.
pub open spec fn named_texts(params: Seq<(&str, &str)>) -> Seq<(Seq<char>, Seq<char>)> {
    params.map_values(|p: (&str, &str)| (p.0@, p.1@))
}

/// `new` is `old` with steps added after it that only read.
pub open spec fn extended_by_reads(old: Seq<SqlCall>, new: Seq<SqlCall>) -> bool {
    &&& old.len() <= new.len()
    &&& new.take(old.len() as int) == old
    &&& reads_only(new.skip(old.len() as int))
}

/// `new` is `old` with steps added after it, none of which commits.
pub open spec fn extended_without_commit(old: Seq<SqlCall>, new: Seq<SqlCall>) -> bool {
    &&& old.len() <= new.len()
    &&& new.take(old.len() as int) == old
    &&& no_commit(new.skip(old.len() as int))
}

/// `old + added` is `old` extended without a commit when `added` has none.
pub proof fn lemma_extended_without_commit(old: Seq<SqlCall>, added: Seq<SqlCall>)
    requires
        no_commit(added),
    ensures
        extended_without_commit(old, old + added),
{
    assert((old + added).take(old.len() as int) =~= old);
    assert((old + added).skip(old.len() as int) =~= added);
}

/// Extending without a commit twice extends without a commit.
pub proof fn lemma_without_commit_trans(a: Seq<SqlCall>, b: Seq<SqlCall>, c: Seq<SqlCall>)
    requires
        extended_without_commit(a, b),
        extended_without_commit(b, c),
    ensures
        extended_without_commit(a, c),
{
    assert(c =~= b + c.skip(b.len() as int));
    assert(b =~= a + b.skip(a.len() as int));
    assert(c.take(a.len() as int) =~= a);
    let x = b.skip(a.len() as int);
    let y = c.skip(b.len() as int);
    assert(c.skip(a.len() as int) =~= x + y);
    assert forall|i: int| 0 <= i < (x + y).len() implies !(#[trigger] (x + y)[i] is Commit) by {
        if i < x.len() {
            assert((x + y)[i] == x[i]);
        } else {
            assert((x + y)[i] == y[i - x.len()]);
        }
    }
}

/// Adding steps that only read to steps that only read.
pub proof fn lemma_reads_only_concat(a: Seq<SqlCall>, b: Seq<SqlCall>)
    requires
        reads_only(a),
        reads_only(b),
    ensures
        reads_only(a + b),
{
    assert forall|i: int| 0 <= i < (a + b).len() implies !(#[trigger] (a + b)[i] is Run) && !((a + b)[i] is Begin) && !((a + b)[i] is Commit) by {
        if i < a.len() {
            assert((a + b)[i] == a[i]);
        } else {
            assert((a + b)[i] == b[i - a.len()]);
        }
    }
}

/// `old + added` is `old` extended by reads when `added` only reads.
pub proof fn lemma_extended_by_reads(old: Seq<SqlCall>, added: Seq<SqlCall>)
    requires
        reads_only(added),
    ensures
        extended_by_reads(old, old + added),
{
    assert((old + added).take(old.len() as int) =~= old);
    assert((old + added).skip(old.len() as int) =~= added);
}

/// Steps that only read, added after steps that extend `old` by reads.
pub proof fn lemma_extended_more(old: Seq<SqlCall>, new: Seq<SqlCall>, added: Seq<SqlCall>)
    requires
        extended_by_reads(old, new),
        reads_only(added),
    ensures
        extended_by_reads(old, new + added),
{
    assert((new + added).take(old.len() as int) =~= old);
    assert((new + added).skip(old.len() as int) =~= new.skip(old.len() as int) + added);
    lemma_reads_only_concat(new.skip(old.len() as int), added);
}

/// Extending by reads twice extends by reads.
pub proof fn lemma_extended_trans(a: Seq<SqlCall>, b: Seq<SqlCall>, c: Seq<SqlCall>)
    requires
        extended_by_reads(a, b),
        extended_by_reads(b, c),
    ensures
        extended_by_reads(a, c),
{
    assert(c =~= b + c.skip(b.len() as int));
    assert(b =~= a + b.skip(a.len() as int));
    lemma_reads_only_concat(b.skip(a.len() as int), c.skip(b.len() as int));
    assert(c.take(a.len() as int) =~= a);
    assert(c.skip(a.len() as int) =~= b.skip(a.len() as int) + c.skip(b.len() as int));
}

/// Reading the values of a row only reads.
pub proof fn lemma_row_cells_read(values: Seq<SqlValueRef>)
    ensures
        reads_only(row_cells(values)),
{
    assert forall|i: int| 0 <= i < row_cells(values).len() implies !(#[trigger] row_cells(values)[i] is Run)
        && !(row_cells(values)[i] is Begin) && !(row_cells(values)[i] is Commit) by {
        assert(row_cells(values)[i] == SqlCall::Value(i, values[i]));
    }
}

/// Compiling and running a query, and stepping through its rows, only read.
pub proof fn lemma_query_steps_read(sql: Seq<char>, params: Seq<(Seq<char>, Seq<char>)>)
    ensures
        reads_only(seq![SqlCall::Prepare(sql), SqlCall::Query(params)]),
        reads_only(seq![SqlCall::Row]),
        reads_only(seq![SqlCall::Done]),
        reads_only(Seq::<SqlCall>::empty()),
{
    let a = seq![SqlCall::Prepare(sql), SqlCall::Query(params)];
    assert(a[0] is Prepare && a[1] is Query);
    assert(seq![SqlCall::Row][0] is Row);
    assert(seq![SqlCall::Done][0] is Done);
}

/// Reading text rows only reads.
pub proof fn lemma_text_rows_read(texts: Seq<Seq<char>>)
    ensures
        reads_only(text_rows(texts)),
    decreases texts.len(),
{
    if texts.len() > 0 {
        lemma_text_rows_read(texts.drop_last());
        let step = seq![SqlCall::Row, SqlCall::Text(texts.last())];
        assert(step[0] is Row && step[1] is Text);
        lemma_reads_only_concat(text_rows(texts.drop_last()), seq![SqlCall::Row, SqlCall::Text(texts.last())]);
    }
}

/// Reading rows of values only reads.
pub proof fn lemma_value_rows_read(rows: Seq<Seq<SqlValueRef>>)
    ensures
        reads_only(value_rows(rows)),
    decreases rows.len(),
{
    if rows.len() > 0 {
        lemma_value_rows_read(rows.drop_last());
        lemma_query_steps_read(Seq::empty(), Seq::empty());
        lemma_reads_only_concat(value_rows(rows.drop_last()), seq![SqlCall::Row]);
        lemma_row_cells_read(rows.last());
        lemma_reads_only_concat(value_rows(rows.drop_last()) + seq![SqlCall::Row], row_cells(rows.last()));
    }
}

/// Every step only reads: nothing is run but queries.
pub open spec fn reads_only(calls: Seq<SqlCall>) -> bool {
    forall|i: int| 0 <= i < calls.len() ==> !(#[trigger] calls[i] is Run) && !(calls[i] is Begin) && !(calls[i] is Commit)
}

/// No step commits.
pub open spec fn no_commit(calls: Seq<SqlCall>) -> bool {
    forall|i: int| 0 <= i < calls.len() ==> !(#[trigger] calls[i] is Commit)
}

/// The steps of reading rows whose first column is the text `texts`, in
/// order.
pub open spec fn text_rows(texts: Seq<Seq<char>>) -> Seq<SqlCall>
    decreases texts.len(),
{
    if texts.len() == 0 {
        Seq::empty()
    } else {
        text_rows(texts.drop_last()) + seq![SqlCall::Row, SqlCall::Text(texts.last())]
    }
}

/// The steps of reading the values of one row: its columns in order, the
/// `k`-th read being of column `k`.
pub open spec fn row_cells(values: Seq<SqlValueRef>) -> Seq<SqlCall> {
    values.map(|k: int, v: SqlValueRef| SqlCall::Value(k, v))
}

/// The steps of reading rows with these values, in order.
pub open spec fn value_rows(rows: Seq<Seq<SqlValueRef>>) -> Seq<SqlCall>
    decreases rows.len(),
{
    if rows.len() == 0 {
        Seq::empty()
    } else {
        value_rows(rows.drop_last()) + seq![SqlCall::Row] + row_cells(rows.last())
    }
}

/// The steps of running the query `sql` with `params` and reading the
/// first column of each row as the texts `texts`.
pub open spec fn text_query(sql: Seq<char>, params: Seq<(Seq<char>, Seq<char>)>, texts: Seq<Seq<char>>) -> Seq<SqlCall> {
    seq![SqlCall::Prepare(sql), SqlCall::Query(params)] + text_rows(texts) + seq![SqlCall::Done]
}

/// The steps of running the query `sql` with `params` and reading every row
/// in full, as `rows`.
pub open spec fn value_query(sql: Seq<char>, params: Seq<(Seq<char>, Seq<char>)>, rows: Seq<Seq<SqlValueRef>>) -> Seq<SqlCall> {
    seq![SqlCall::Prepare(sql), SqlCall::Query(params)] + value_rows(rows) + seq![SqlCall::Done]
}

/// The steps of compiling `sql` and running it once with `params`.
pub open spec fn run_statement(sql: Seq<char>, params: Seq<SqlValue>, ok: bool) -> Seq<SqlCall> {
    seq![SqlCall::Prepare(sql), SqlCall::Run(params, ok)]
}

} // verus!
