//! What the library asks SQLite about a table.
use vstd::prelude::*;

use crate::database::{
    extended_by_reads, lemma_extended_by_reads, lemma_query_steps_read, lemma_reads_only_concat, lemma_text_rows_read, named_texts,
    reads_only, text_query, text_rows, Database, SqlCall, SqlLog,
};
use crate::db;
use crate::statement::{column_names_sql, column_names_statement, primary_key_sql, primary_key_statement, texts};
use crate::YaqliteError;

verus! {

/// No text occurs twice.
pub open spec fn distinct_texts(names: Seq<String>) -> bool {
    forall|i: int, j: int| 0 <= i < j < names.len() ==> names[i]@ != names[j]@
}

/// Whether `name` is among `names`.
pub fn contains_text(names: &Vec<String>, name: &String) -> (r: bool)
    ensures
        r == texts(names@).contains(name@),
{
    let n = names.len();
    let mut i: usize = 0;
    while i < n
        invariant
            n == names@.len(),
            i <= n,
            forall|j: int| 0 <= j < i ==> names@[j]@ != name@,
        decreases n - i,
    {
        if names[i] == *name {
            assert(texts(names@)[i as int] == name@);
            return true;
        }
        i = i + 1;
    }
    assert(!texts(names@).contains(name@)) by {
        if texts(names@).contains(name@) {
            let j = choose|j: int| 0 <= j < texts(names@).len() && texts(names@)[j] == name@;
            assert(names@[j]@ == name@);
        }
    }
    false
}

/// Adds `name` to a set of names kept as a vector, unless it is there.
pub fn add_name(names: &mut Vec<String>, name: String)
    requires
        distinct_texts(old(names)@),
    ensures
        distinct_texts(final(names)@),
        texts(old(names)@).contains(name@) ==> final(names)@ == old(names)@,
        !texts(old(names)@).contains(name@) ==> final(names)@ == old(names)@.push(name),
{
    if !contains_text(names, &name) {
        let ghost before = names@;
        names.push(name);
        proof {
            assert forall|i: int, j: int| 0 <= i < j < names@.len() implies names@[i]@ != names@[j]@ by {
                if j == before.len() {
                    assert(texts(before)[i] == before[i]@);
                }
            }
        }
    }
}

/// The names in the order they are first met, each once.
pub open spec fn first_occurrences(names: Seq<Seq<char>>) -> Seq<Seq<char>>
    decreases names.len(),
{
    if names.len() == 0 {
        Seq::empty()
    } else {
        let seen = first_occurrences(names.drop_last());
        if seen.contains(names.last()) {
            seen
        } else {
            seen.push(names.last())
        }
    }
}

/// A name is among the first occurrences exactly when it occurs.
pub proof fn lemma_first_occurrences_contains(names: Seq<Seq<char>>, x: Seq<char>)
    ensures
        first_occurrences(names).contains(x) <==> names.contains(x),
    decreases names.len(),
{
    if names.len() > 0 {
        let init = names.drop_last();
        lemma_first_occurrences_contains(init, x);
        lemma_first_occurrences_contains(init, names.last());
        let seen = first_occurrences(init);
        if names.contains(x) && x != names.last() {
            let j = choose|j: int| 0 <= j < names.len() && names[j] == x;
            assert(init[j] == x);
        }
        if init.contains(x) {
            let j = choose|j: int| 0 <= j < init.len() && init[j] == x;
            assert(names[j] == x);
        }
        if !seen.contains(names.last()) {
            assert(seen.push(names.last())[seen.len() as int] == names.last());
            if seen.contains(x) {
                let j = choose|j: int| 0 <= j < seen.len() && seen[j] == x;
                assert(seen.push(names.last())[j] == x);
            }
            if seen.push(names.last()).contains(x) && x != names.last() {
                let j = choose|j: int| 0 <= j < seen.len() + 1 && seen.push(names.last())[j] == x;
                assert(seen[j] == x);
            }
        }
        assert(names[names.len() - 1] == names.last());
    }
}

/// Each name once, in the order it is first met; every name read is kept
/// and no other.
pub fn distinct_names(read: Vec<String>) -> (r: Vec<String>)
    ensures
        texts(r@) == first_occurrences(texts(read@)),
        distinct_texts(r@),
        forall|x: Seq<char>| texts(r@).contains(x) <==> #[trigger] texts(read@).contains(x),
{
    let mut out: Vec<String> = Vec::new();
    let n = read.len();
    let mut i: usize = 0;
    while i < n
        invariant
            n == read@.len(),
            i <= n,
            texts(out@) == first_occurrences(texts(read@.take(i as int))),
            distinct_texts(out@),
        decreases n - i,
    {
        let ghost before = out@;
        assert(texts(read@.take(i + 1)).drop_last() =~= texts(read@.take(i as int)));
        assert(texts(read@.take(i + 1)).last() == read@[i as int]@);
        add_name(&mut out, read[i].clone());
        proof {
            if !texts(before).contains(read@[i as int]@) {
                assert(texts(out@) =~= texts(before).push(read@[i as int]@));
            }
        }
        i = i + 1;
    }
    assert(read@.take(n as int) =~= read@);
    assert forall|x: Seq<char>| texts(out@).contains(x) <==> #[trigger] texts(read@).contains(x) by {
        lemma_first_occurrences_contains(texts(read@), x);
    }
    out
}

/// Runs a query and reads the first column of every row as text, in the
/// order SQLite returns the rows.
pub(crate) fn read_texts(conn: &rusqlite::Connection, sql: &str, log: &mut SqlLog) -> (r: Result<Vec<String>, YaqliteError>)
    ensures
        r matches Ok(v) ==> final(log).calls@ == old(log).calls@ + text_query(sql@, seq![], texts(v@)),
        extended_by_reads(old(log).calls@, final(log).calls@),
        r matches Err(e) ==> e is Sqlite || e is TooManyRows,
{
    let ghost base = log.calls@;
    proof {
        lemma_extended_by_reads(base, seq![]);
        assert(base + seq![] =~= base);
    }
    let mut out: Vec<String> = Vec::new();
    let mut stmt = match db::prepare(conn, sql, log) {
        Ok(s) => s,
        Err(e) => return Err(YaqliteError::Sqlite(e)),
    };
    let no_params: [(&str, &str); 0] = [];
    assert(named_texts(no_params@) =~= Seq::<(Seq<char>, Seq<char>)>::empty());
    let mut rows = match db::query(&mut stmt, &no_params, log) {
        Ok(rows) => rows,
        Err(e) => {
            proof {
                lemma_query_steps_read(sql@, seq![]);
                lemma_extended_by_reads(base, seq![SqlCall::Prepare(sql@), SqlCall::Query(seq![])]);
                assert(log.calls@ =~= base + seq![SqlCall::Prepare(sql@), SqlCall::Query(seq![])]);
            }
            return Err(YaqliteError::Sqlite(e));
        },
    };
    let ghost head = seq![SqlCall::Prepare(sql@), SqlCall::Query(seq![])];
    assert(log.calls@ =~= base + head + text_rows(texts(out@)));
    proof {
        lemma_query_steps_read(sql@, seq![]);
        lemma_text_rows_read(texts(out@));
        lemma_reads_only_concat(head, text_rows(texts(out@)));
        lemma_extended_by_reads(base, head + text_rows(texts(out@)));
        assert(base + head + text_rows(texts(out@)) =~= base + (head + text_rows(texts(out@))));
    }
    let mut read: usize = 0;
    loop
        invariant_except_break
            log.calls@ == base + head + text_rows(texts(out@)),
        invariant
            head == seq![SqlCall::Prepare(sql@), SqlCall::Query(seq![])],
            base == old(log).calls@,
            extended_by_reads(base, log.calls@),
        ensures
            log.calls@ == base + text_query(sql@, seq![], texts(out@)),
        decreases usize::MAX - read,
    {
        proof {
            lemma_text_rows_read(texts(out@));
            lemma_reads_only_concat(head, text_rows(texts(out@)));
            lemma_extended_by_reads(base, head + text_rows(texts(out@)));
            assert(base + head + text_rows(texts(out@)) =~= base + (head + text_rows(texts(out@))));
        }
        if read == usize::MAX {
            return Err(YaqliteError::TooManyRows);
        }
        match db::next_row(&mut rows, log) {
            Ok(Some(row)) => match db::row_text(row, 0, log) {
                Ok(name) => {
                    let ghost before = out@;
                    out.push(name);
                    assert(texts(out@).drop_last() =~= texts(before));
                    assert(log.calls@ =~= base + head + text_rows(texts(out@)));
                },
                Err(e) => {
                    proof {
                        lemma_reads_only_concat(head + text_rows(texts(out@)), seq![SqlCall::Row]);
                        lemma_extended_by_reads(base, head + text_rows(texts(out@)) + seq![SqlCall::Row]);
                        assert(log.calls@ =~= base + (head + text_rows(texts(out@)) + seq![SqlCall::Row]));
                    }
                    return Err(YaqliteError::Sqlite(e));
                },
            },
            Ok(None) => {
                proof {
                    lemma_query_steps_read(sql@, seq![]);
                    lemma_reads_only_concat(head + text_rows(texts(out@)), seq![SqlCall::Done]);
                    lemma_extended_by_reads(base, head + text_rows(texts(out@)) + seq![SqlCall::Done]);
                    assert(log.calls@ =~= base + (head + text_rows(texts(out@)) + seq![SqlCall::Done]));
                    assert(log.calls@ =~= base + text_query(sql@, seq![], texts(out@)));
                }
                break;
            },
            Err(e) => return Err(YaqliteError::Sqlite(e)),
        }
        proof {
            lemma_text_rows_read(texts(out@));
            lemma_reads_only_concat(head, text_rows(texts(out@)));
            lemma_extended_by_reads(base, head + text_rows(texts(out@)));
            assert(base + head + text_rows(texts(out@)) =~= base + (head + text_rows(texts(out@))));
        }
        read = read + 1;
    }
    Ok(out)
}

/// The names that the column query for `table` read, each once in the order
/// first met, are `names`, and the query is all that `new` adds to `old`.
pub open spec fn column_names_read(old: Seq<SqlCall>, new: Seq<SqlCall>, table: Seq<char>, names: Seq<Seq<char>>) -> bool {
    exists|read: Seq<Seq<char>>|
        new == old + #[trigger] text_query(column_names_sql(table), seq![], read) && names == first_occurrences(read)
}

/// The names of the columns of `table_name`, each once, in the order
/// SQLite lists them: the names that the column query reads, passed through
/// `distinct_names`. A table that does not exist has no columns. Only the
/// column query runs.
pub fn get_column_names(db: &mut Database, table_name: &str) -> (r: Result<Vec<String>, YaqliteError>)
    ensures
        r matches Ok(names) ==> distinct_texts(names@),
        r matches Ok(names) ==> column_names_read(old(db).log.calls@, final(db).log.calls@, table_name@, texts(names@)),
        extended_by_reads(old(db).log.calls@, final(db).log.calls@),
        r matches Err(e) ==> e is Sqlite || e is TooManyRows,
{
    let sql = column_names_statement(table_name);
    let read = match read_texts(&db.conn, sql.as_str(), &mut db.log) {
        Ok(read) => read,
        Err(e) => return Err(e),
    };
    let ghost rv = texts(read@);
    let names = distinct_names(read);
    assert(column_names_read(old(db).log.calls@, db.log.calls@, table_name@, texts(names@))) by {
        assert(db.log.calls@ == old(db).log.calls@ + text_query(column_names_sql(table_name@), seq![], rv));
    }
    Ok(names)
}

/// The name of the primary-key column of `table_name` (the first one SQLite
/// lists): the text that the primary-key query, run with `:table` set to
/// `table_name`, reads first. Only that query runs.
pub fn table_primary_key_column(db: &mut Database, table_name: &str) -> (r: Result<String, YaqliteError>)
    ensures
        r matches Ok(name) ==> final(db).log.calls@ == old(db).log.calls@ + seq![
            SqlCall::Prepare(primary_key_sql()),
            SqlCall::Query(seq![(":table"@, table_name@)]),
            SqlCall::Row,
            SqlCall::Text(name@),
        ],
        extended_by_reads(old(db).log.calls@, final(db).log.calls@),
        r matches Err(e) ==> e is Sqlite,
{
    let ghost base = db.log.calls@;
    proof {
        lemma_extended_by_reads(base, seq![]);
        assert(base + seq![] =~= base);
    }
    let mut stmt = match db::prepare(&db.conn, primary_key_statement(), &mut db.log) {
        Ok(s) => s,
        Err(e) => return Err(YaqliteError::Sqlite(e)),
    };
    let params: [(&str, &str); 1] = [(":table", table_name)];
    let r = db::query_row_text(&mut stmt, &params, &mut db.log);
    proof {
        assert(named_texts(params@) =~= seq![(":table"@, table_name@)]);
    }
    match r {
        Ok(name) => {
            proof {
                let added = seq![
                    SqlCall::Prepare(primary_key_sql()),
                    SqlCall::Query(seq![(":table"@, table_name@)]),
                    SqlCall::Row,
                    SqlCall::Text(name@),
                ];
                assert(db.log.calls@ =~= base + added);
                assert(reads_only(added));
                lemma_extended_by_reads(base, added);
            }
            Ok(name)
        },
        Err(e) => {
            proof {
                let added = seq![SqlCall::Prepare(primary_key_sql()), SqlCall::Query(seq![(":table"@, table_name@)])];
                assert(db.log.calls@ =~= base + added);
                assert(reads_only(added));
                lemma_extended_by_reads(base, added);
            }
            Err(YaqliteError::Sqlite(e))
        },
    }
}

} // verus!
