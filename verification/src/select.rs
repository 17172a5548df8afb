//! Reading a row as a YAML record.
use vstd::prelude::*;
use vstd::string::StringExecFns;

use crate::db;
use crate::database::{
    extended_by_reads, lemma_extended_by_reads, lemma_extended_more, lemma_extended_trans, lemma_query_steps_read, lemma_row_cells_read,
    lemma_value_rows_read, named_texts, row_cells, text_query, value_query, value_rows, Database, SqlCall, SqlLog,
};
use crate::sqlite::{contains_text, read_texts, table_primary_key_column};
use crate::statement::{primary_key_sql, result_columns_sql, result_columns_statement, select_sql, select_statement, texts};
use crate::yaml::{emit_document, yaml_emitted, column_result_view, read_view, FromSqlError, ScalarView, SqlValueRef, Yaml, YamlValue};
use crate::YaqliteError;

verus! {

/// The entries of a record view whose key is not `k`.
pub open spec fn without_key(m: Seq<(ScalarView, ScalarView)>, k: ScalarView) -> Seq<(ScalarView, ScalarView)>
    decreases m.len(),
{
    if m.len() == 0 {
        Seq::empty()
    } else {
        let rest = without_key(m.drop_last(), k);
        if m.last().0 == k {
            rest
        } else {
            rest.push(m.last())
        }
    }
}

/// A mapping after inserting `k: v`: an entry with an equal key leaves its
/// place, and the new entry comes last.
pub open spec fn map_insert(m: Seq<(ScalarView, ScalarView)>, k: ScalarView, v: ScalarView) -> Seq<(ScalarView, ScalarView)> {
    without_key(m, k).push((k, v))
}

/// The entries of a mapping, by the scalar views of their keys and values.
pub open spec fn record_view(h: Seq<(YamlValue, YamlValue)>) -> Seq<(ScalarView, ScalarView)> {
    h.map_values(|e: (YamlValue, YamlValue)| (e.0.scalar_view(), e.1.scalar_view()))
}

/// The record that a row with these column names and values reads as: each
/// column that is not excluded, in order, inserted under its name with its
/// value read as YAML; or the index and reason of the first value that
/// cannot be read.
pub open spec fn row_record(names: Seq<Seq<char>>, values: Seq<SqlValueRef>, excluded: Seq<Seq<char>>) -> Result<Seq<(ScalarView, ScalarView)>, (int, FromSqlError)>
    decreases names.len(),
{
    if names.len() == 0 {
        Ok(Seq::empty())
    } else {
        let k = names.len() - 1;
        match row_record(names.drop_last(), values, excluded) {
            Err(e) => Err(e),
            Ok(rec) => if excluded.contains(names[k]) {
                Ok(rec)
            } else {
                match column_result_view(values[k]) {
                    Err(e) => Err((k, e)),
                    Ok(v) => Ok(map_insert(rec, ScalarView::Str(names[k]), v)),
                }
            },
        }
    }
}

/// The outcome of reading a row, by views.
pub open spec fn record_result_view(r: Result<Vec<(YamlValue, YamlValue)>, (usize, FromSqlError)>) -> Result<Seq<(ScalarView, ScalarView)>, (int, FromSqlError)> {
    match r {
        Ok(h) => Ok(record_view(h@)),
        Err(e) => Err((e.0 as int, e.1)),
    }
}

/// The columns left out of a record: those listed, or else the key column.
pub open spec fn excluded_columns(key_column: Seq<char>, exclude_column: Option<&[String]>) -> Seq<Seq<char>> {
    match exclude_column {
        Some(list) => texts(list@),
        None => seq![key_column],
    }
}

/// The record that the rows of a query read as, in order: `None` when there
/// is no row, else the record of the last row; or the index and reason of
/// the first value that cannot be read, in the first row that has one.
pub open spec fn rows_record(names: Seq<Seq<char>>, rows: Seq<Seq<SqlValueRef>>, excluded: Seq<Seq<char>>) -> Result<Option<Seq<(ScalarView, ScalarView)>>, (int, FromSqlError)>
    decreases rows.len(),
{
    if rows.len() == 0 {
        Ok(None)
    } else {
        match rows_record(names, rows.drop_last(), excluded) {
            Err(e) => Err(e),
            Ok(_) => match row_record(names, rows.last(), excluded) {
                Err(e) => Err(e),
                Ok(rec) => Ok(Some(rec)),
            },
        }
    }
}

/// `v` is the node that rows reading as `read` give: the null node for no
/// row, a mapping with the entries of the record otherwise.
pub open spec fn is_selection_of(v: YamlValue, read: Result<Option<Seq<(ScalarView, ScalarView)>>, (int, FromSqlError)>) -> bool {
    match read {
        Ok(None) => v is Null,
        Ok(Some(rec)) => (v matches YamlValue::Hash(h) && record_view(h@) == rec),
        Err(_) => false,
    }
}

/// Once a prefix of the columns fails to read, the whole row fails the same
/// way.
proof fn lemma_row_record_err_stays(names: Seq<Seq<char>>, values: Seq<SqlValueRef>, excluded: Seq<Seq<char>>, k: int)
    requires
        0 <= k <= names.len(),
        row_record(names.take(k), values, excluded) is Err,
    ensures
        row_record(names, values, excluded) == row_record(names.take(k), values, excluded),
    decreases names.len(),
{
    if names.len() == k {
        assert(names.take(k) =~= names);
    } else {
        assert(names.drop_last().take(k) =~= names.take(k));
        lemma_row_record_err_stays(names.drop_last(), values, excluded, k);
    }
}

/// Removes the entries whose key is the string `key`.
fn remove_key(entries: &mut Vec<(YamlValue, YamlValue)>, key: &String)
    ensures
        record_view(final(entries)@) == without_key(record_view(old(entries)@), ScalarView::Str(key@)),
{
    let ghost orig = entries@;
    let ghost k = ScalarView::Str(key@);
    let mut rest: Vec<(YamlValue, YamlValue)> = Vec::new();
    std::mem::swap(entries, &mut rest);
    let n = rest.len();
    let mut i: usize = 0;
    while i < n
        invariant
            orig.len() == n,
            i <= n,
            k == ScalarView::Str(key@),
            rest@ == orig.skip(i as int),
            record_view(entries@) == without_key(record_view(orig.take(i as int)), k),
        decreases n - i,
    {
        let entry = rest.remove(0);
        let ghost before = entries@;
        assert(record_view(orig.take(i + 1)).drop_last() =~= record_view(orig.take(i as int)));
        assert(record_view(orig.take(i + 1)).last() == (entry.0.scalar_view(), entry.1.scalar_view()));
        let keep = match &entry.0 {
            YamlValue::Str(s) => !(*s == *key),
            _ => true,
        };
        if keep {
            entries.push(entry);
            assert(record_view(entries@) =~= record_view(before).push((entry.0.scalar_view(), entry.1.scalar_view())));
        }
        assert(rest@ =~= orig.skip(i + 1));
        i = i + 1;
    }
    assert(orig.take(n as int) =~= orig);
}

/// Inserts `key: value` into a mapping, as a YAML mapping does: an entry
/// with the same key leaves its place and the new entry comes last.
fn insert_entry(entries: &mut Vec<(YamlValue, YamlValue)>, key: String, value: YamlValue)
    ensures
        record_view(final(entries)@) == map_insert(record_view(old(entries)@), ScalarView::Str(key@), value.scalar_view()),
{
    remove_key(entries, &key);
    let ghost before = entries@;
    let ghost kv = key@;
    let ghost vv = value.scalar_view();
    entries.push((YamlValue::Str(key), value));
    assert(record_view(entries@) =~= record_view(before).push((ScalarView::Str(kv), vv)));
}

/// Reads a row, given the names of its columns and their values, as a YAML
/// record: every column not in `excluded`, in order, becomes an entry whose
/// key is the column's name and whose value is the column's value read as
/// YAML. Fails with the index of the first value that cannot be read.
pub fn record_from_row(names: &Vec<String>, values: Vec<SqlValueRef>, excluded: &Vec<String>) -> (r: Result<Vec<(YamlValue, YamlValue)>, (usize, FromSqlError)>)
    requires
        values@.len() == names@.len(),
    ensures
        record_result_view(r) == row_record(texts(names@), values@, texts(excluded@)),
{
    let ghost all_values = values@;
    let ghost all_names = texts(names@);
    let ghost ex = texts(excluded@);
    let mut rest = values;
    let mut data: Vec<(YamlValue, YamlValue)> = Vec::new();
    let mut failure: Option<(usize, FromSqlError)> = None;
    let n = names.len();
    let mut i: usize = 0;
    assert(all_names.take(0) =~= Seq::<Seq<char>>::empty());
    assert(record_view(data@) =~= Seq::<(ScalarView, ScalarView)>::empty());
    assert(rest@.skip(0) =~= rest@);
    while i < n && failure.is_none()
        invariant
            n == names@.len(),
            all_values.len() == n,
            all_names == texts(names@),
            ex == texts(excluded@),
            i <= n,
            rest@ == all_values.skip(i as int),
            failure is None ==> row_record(all_names.take(i as int), all_values, ex)
                == Ok::<Seq<(ScalarView, ScalarView)>, (int, FromSqlError)>(record_view(data@)),
            failure matches Some(f) ==> row_record(all_names, all_values, ex)
                == Err::<Seq<(ScalarView, ScalarView)>, (int, FromSqlError)>((f.0 as int, f.1)),
        decreases n - i,
    {
        let value = rest.remove(0);
        assert(value == all_values[i as int]);
        assert(rest@ =~= all_values.skip(i + 1));
        assert(all_names.take(i + 1).drop_last() =~= all_names.take(i as int));
        assert(all_names.take(i + 1)[i as int] == names@[i as int]@);
        if !contains_text(excluded, &names[i]) {
            let read = Yaml::column_result(value);
            match read {
                Ok(y) => {
                    insert_entry(&mut data, names[i].clone(), y.into_inner());
                },
                Err(e) => {
                    proof {
                        assert(column_result_view(all_values[i as int]) == Err::<ScalarView, FromSqlError>(e));
                        assert(row_record(all_names.take(i + 1), all_values, ex) == Err::<Seq<(ScalarView, ScalarView)>, (int, FromSqlError)>((i as int, e)));
                        lemma_row_record_err_stays(all_names, all_values, ex, i + 1);
                    }
                    failure = Some((i, e));
                },
            }
        }
        i = i + 1;
    }
    match failure {
        Some(f) => Err(f),
        None => {
            assert(all_names.take(n as int) =~= all_names);
            Ok(data)
        },
    }
}

/// The values of the first `n` columns of a row, in order; the log records
/// each value read. With no column to read, nothing is asked of the row and
/// the list is empty.
fn row_values(row: &rusqlite::Row<'_>, n: usize, log: &mut SqlLog) -> (r: Result<Vec<SqlValueRef>, rusqlite::Error>)
    ensures
        r matches Ok(v) ==> v@.len() == n && final(log).calls@ == old(log).calls@ + row_cells(v@),
        n == 0 ==> r is Ok,
        extended_by_reads(old(log).calls@, final(log).calls@),
{
    let ghost base = log.calls@;
    let mut out: Vec<SqlValueRef> = Vec::new();
    let mut i: usize = 0;
    assert(base + row_cells(out@) =~= base);
    while i < n
        invariant
            i <= n,
            out@.len() == i,
            base == old(log).calls@,
            log.calls@ == base + row_cells(out@),
        decreases n - i,
    {
        proof {
            lemma_row_cells_read(out@);
            lemma_extended_by_reads(base, row_cells(out@));
        }
        match db::row_value(row, i, log) {
            Ok(v) => {
                out.push(v);
                assert(log.calls@ =~= base + row_cells(out@));
            },
            Err(e) => return Err(e),
        }
        i = i + 1;
    }
    proof {
        lemma_row_cells_read(out@);
        lemma_extended_by_reads(base, row_cells(out@));
    }
    Ok(out)
}

/// The strings of a slice, copied.
fn copy_strings(list: &[String]) -> (r: Vec<String>)
    ensures
        texts(r@) == texts(list@),
{
    let mut out: Vec<String> = Vec::new();
    let n = list.len();
    let mut i: usize = 0;
    while i < n
        invariant
            n == list@.len(),
            i <= n,
            out@.len() == i,
            forall|j: int| 0 <= j < i ==> (#[trigger] out@[j])@ == list@[j]@,
        decreases n - i,
    {
        let s = list[i].clone();
        out.push(s);
        i = i + 1;
    }
    assert(texts(out@) =~= texts(list@));
    out
}

/// What `new` adds to `old` when the record of `table` whose `key` column is
/// `record_id` was selected as `v`: the query for the result columns, read
/// as `names`, then the query for the matching rows, read in full as `rows`;
/// and `v` is the node of those rows with the `excluded` columns left out.
pub open spec fn selected_as(
    old: Seq<SqlCall>,
    new: Seq<SqlCall>,
    table: Seq<char>,
    key: Seq<char>,
    record_id: Seq<char>,
    excluded: Seq<Seq<char>>,
    v: YamlValue,
) -> bool {
    exists|names: Seq<Seq<char>>, rows: Seq<Seq<SqlValueRef>>|
        new == old + text_query(result_columns_sql(table), seq![], names)
            + value_query(select_sql(table, key), seq![(":pk"@, record_id)], rows)
        && #[trigger] is_selection_of(v, rows_record(names, rows, excluded))
}

/// What `new` adds to `old` when selecting the record of `table` whose
/// `key` column is `record_id` failed on an unreadable value: the query for
/// the result columns, read as `names`, then the query for the matching
/// rows, read up to the row that holds the value, as `rows`; and `(i, e)`
/// is where and why the first value of those rows cannot be read.
pub open spec fn selection_failed(
    old: Seq<SqlCall>,
    new: Seq<SqlCall>,
    table: Seq<char>,
    key: Seq<char>,
    record_id: Seq<char>,
    excluded: Seq<Seq<char>>,
    i: usize,
    e: FromSqlError,
) -> bool {
    exists|names: Seq<Seq<char>>, rows: Seq<Seq<SqlValueRef>>|
        new == old + text_query(result_columns_sql(table), seq![], names)
            + seq![SqlCall::Prepare(select_sql(table, key)), SqlCall::Query(seq![(":pk"@, record_id)])] + value_rows(rows)
        && #[trigger] rows_record(names, rows, excluded) == Err::<Option<Seq<(ScalarView, ScalarView)>>, (int, FromSqlError)>((i as int, e))
}

/// The steps of asking for the primary-key column of `table`, answered
/// `key`.
pub open spec fn primary_key_read(table: Seq<char>, key: Seq<char>) -> Seq<SqlCall> {
    seq![SqlCall::Prepare(primary_key_sql()), SqlCall::Query(seq![(":table"@, table)]), SqlCall::Row, SqlCall::Text(key)]
}

/// Selects the record of `table_name` whose `primary_key_column` is
/// `record_id`, as YAML.
///
/// The names of the result columns are read from the table's column list.
/// The query for the rows whose `primary_key_column` equals the parameter
/// `:pk`, set to `record_id`, then runs, and each row is read as it comes
/// (see `record_from_row`). The columns left out are those in
/// `exclude_column`, or else the primary key column. When several rows
/// match, the last one is the record; when none does, the result is the
/// null node. Only these two queries run.
pub fn select_by_column_excluding(
    db: &mut Database,
    table_name: &str,
    primary_key_column: &str,
    record_id: &str,
    exclude_column: Option<&[String]>,
) -> (r: Result<YamlValue, YaqliteError>)
    ensures
        r matches Ok(v) ==> selected_as(old(db).log.calls@, final(db).log.calls@, table_name@, primary_key_column@, record_id@,
            excluded_columns(primary_key_column@, exclude_column), v),
        r matches Err(YaqliteError::FromSql(i, e)) ==> selection_failed(old(db).log.calls@, final(db).log.calls@, table_name@,
            primary_key_column@, record_id@, excluded_columns(primary_key_column@, exclude_column), i, e),
        extended_by_reads(old(db).log.calls@, final(db).log.calls@),
        r matches Err(e) ==> e is Sqlite || e is FromSql || e is TooManyRows,
{
    let ghost base = db.log.calls@;
    let ghost ex = excluded_columns(primary_key_column@, exclude_column);
    let excluded: Vec<String> = match exclude_column {
        Some(list) => copy_strings(list),
        None => {
            let mut v: Vec<String> = Vec::new();
            v.push(String::from_str(primary_key_column));
            assert(texts(v@) =~= seq![primary_key_column@]);
            v
        },
    };
    assert(texts(excluded@) == ex);
    let names_sql = result_columns_statement(table_name);
    let names = match read_texts(&db.conn, names_sql.as_str(), &mut db.log) {
        Ok(names) => names,
        Err(e) => return Err(e),
    };
    let ghost nv = texts(names@);
    let ghost after_names = db.log.calls@;
    assert(after_names == base + text_query(result_columns_sql(table_name@), seq![], nv));
    let sql = select_statement(table_name, primary_key_column);
    let mut stmt = match db::prepare(&db.conn, sql.as_str(), &mut db.log) {
        Ok(s) => s,
        Err(e) => return Err(YaqliteError::Sqlite(e)),
    };
    let params: [(&str, &str); 1] = [(":pk", record_id)];
    let ghost pv = seq![(":pk"@, record_id@)];
    assert(named_texts(params@) =~= pv);
    let mut rows = match db::query(&mut stmt, &params, &mut db.log) {
        Ok(rows) => rows,
        Err(e) => {
            proof {
                lemma_query_steps_read(select_sql(table_name@, primary_key_column@), pv);
                lemma_extended_more(base, after_names, seq![SqlCall::Prepare(select_sql(table_name@, primary_key_column@)), SqlCall::Query(pv)]);
                assert(db.log.calls@ =~= after_names + seq![SqlCall::Prepare(select_sql(table_name@, primary_key_column@)), SqlCall::Query(pv)]);
            }
            return Err(YaqliteError::Sqlite(e));
        },
    };
    let ghost head = after_names + seq![SqlCall::Prepare(select_sql(table_name@, primary_key_column@)), SqlCall::Query(pv)];
    assert(db.log.calls@ =~= head + value_rows(Seq::<Seq<SqlValueRef>>::empty()));
    proof {
        lemma_query_steps_read(select_sql(table_name@, primary_key_column@), pv);
        lemma_extended_more(base, after_names, seq![SqlCall::Prepare(select_sql(table_name@, primary_key_column@)), SqlCall::Query(pv)]);
    }
    let ghost mut read: Seq<Seq<SqlValueRef>> = Seq::empty();
    let mut last: Option<Vec<(YamlValue, YamlValue)>> = None;
    let mut count: usize = 0;
    loop
        invariant_except_break
            db.log.calls@ == head + value_rows(read),
        invariant
            base == old(db).log.calls@,
            extended_by_reads(base, head),
            extended_by_reads(base, db.log.calls@),
            head == base + text_query(result_columns_sql(table_name@), seq![], nv)
                + seq![SqlCall::Prepare(select_sql(table_name@, primary_key_column@)), SqlCall::Query(pv)],
            pv == seq![(":pk"@, record_id@)],
            nv == texts(names@),
            ex == texts(excluded@),
            ex == excluded_columns(primary_key_column@, exclude_column),
            match last {
                None => rows_record(nv, read, ex) == Ok::<Option<Seq<(ScalarView, ScalarView)>>, (int, FromSqlError)>(None),
                Some(h) => rows_record(nv, read, ex) == Ok::<Option<Seq<(ScalarView, ScalarView)>>, (int, FromSqlError)>(Some(record_view(h@))),
            },
        ensures
            db.log.calls@ == head + value_rows(read) + seq![SqlCall::Done],
        decreases usize::MAX - count,
    {
        proof {
            lemma_value_rows_read(read);
            lemma_extended_more(base, head, value_rows(read));
            lemma_query_steps_read(Seq::empty(), Seq::empty());
        }
        if count == usize::MAX {
            return Err(YaqliteError::TooManyRows);
        }
        match db::next_row(&mut rows, &mut db.log) {
            Ok(Some(row)) => {
                proof {
                    lemma_extended_more(base, head + value_rows(read), seq![SqlCall::Row]);
                    assert(db.log.calls@ =~= head + value_rows(read) + seq![SqlCall::Row]);
                }
                let values = match row_values(row, names.len(), &mut db.log) {
                    Ok(v) => v,
                    Err(e) => {
                        proof {
                            lemma_extended_trans(base, head + value_rows(read) + seq![SqlCall::Row], db.log.calls@);
                        }
                        return Err(YaqliteError::Sqlite(e));
                    },
                };
                let ghost prev = read;
                proof {
                    read = read.push(values@);
                    assert(read.drop_last() =~= prev);
                    assert(db.log.calls@ =~= head + value_rows(read));
                }
                match record_from_row(&names, values, &excluded) {
                    Ok(h) => {
                        last = Some(h);
                    },
                    Err((i, e)) => {
                        proof {
                            assert(rows_record(nv, read, ex) == Err::<Option<Seq<(ScalarView, ScalarView)>>, (int, FromSqlError)>((i as int, e)));
                            assert(db.log.calls@ =~= base + text_query(result_columns_sql(table_name@), seq![], nv)
                                + seq![SqlCall::Prepare(select_sql(table_name@, primary_key_column@)), SqlCall::Query(pv)] + value_rows(read));
                            assert(selection_failed(base, db.log.calls@, table_name@, primary_key_column@, record_id@, ex, i, e));
                            lemma_value_rows_read(read);
                            lemma_extended_more(base, head, value_rows(read));
                        }
                        return Err(YaqliteError::FromSql(i, e));
                    },
                }
            },
            Ok(None) => {
                proof {
                    lemma_extended_more(base, head + value_rows(read), seq![SqlCall::Done]);
                    assert(db.log.calls@ =~= head + value_rows(read) + seq![SqlCall::Done]);
                }
                break;
            },
            Err(e) => return Err(YaqliteError::Sqlite(e)),
        }
        proof {
            lemma_value_rows_read(read);
            lemma_extended_more(base, head, value_rows(read));
        }
        count = count + 1;
    }
    let ghost full = db.log.calls@;
    assert(full =~= base + text_query(result_columns_sql(table_name@), seq![], nv)
        + value_query(select_sql(table_name@, primary_key_column@), pv, read));
    match last {
        None => {
            assert(is_selection_of(YamlValue::Null, rows_record(nv, read, ex)));
            Ok(YamlValue::Null)
        },
        Some(h) => {
            assert(is_selection_of(YamlValue::Hash(h), rows_record(nv, read, ex)));
            Ok(YamlValue::Hash(h))
        },
    }
}

/// Selects the record of `table_name` whose `primary_key_column` is
/// `record_id`, as YAML, leaving out the primary key column (it is not to be
/// edited). When several rows match, the last one is the record; when none
/// does, the result is the null node.
pub fn select_by_column(
    db: &mut Database,
    table_name: &str,
    primary_key_column: &str,
    record_id: &str,
) -> (r: Result<YamlValue, YaqliteError>)
    ensures
        r matches Ok(v) ==> selected_as(old(db).log.calls@, final(db).log.calls@, table_name@, primary_key_column@, record_id@,
            seq![primary_key_column@], v),
        r matches Err(YaqliteError::FromSql(i, e)) ==> selection_failed(old(db).log.calls@, final(db).log.calls@, table_name@,
            primary_key_column@, record_id@, seq![primary_key_column@], i, e),
        extended_by_reads(old(db).log.calls@, final(db).log.calls@),
        r matches Err(e) ==> e is Sqlite || e is FromSql || e is TooManyRows,
{
    select_by_column_excluding(db, table_name, primary_key_column, record_id, None)
}

/// `v` is the record of `table` whose primary key is `record_id`: the
/// primary-key query answered `key`, and selecting by `key` gave `v`.
pub open spec fn selected_by_primary_key(
    old: Seq<SqlCall>,
    new: Seq<SqlCall>,
    table: Seq<char>,
    record_id: Seq<char>,
    exclude_column: Option<&[String]>,
    v: YamlValue,
) -> bool {
    exists|key: Seq<char>|
        #[trigger] selected_as(old + primary_key_read(table, key), new, table, key, record_id, excluded_columns(key, exclude_column), v)
}

/// Selecting the record of `table` whose primary key is `record_id` failed
/// at the value `(i, e)`, after the primary-key query answered some `key`.
pub open spec fn primary_key_selection_failed(
    old: Seq<SqlCall>,
    new: Seq<SqlCall>,
    table: Seq<char>,
    record_id: Seq<char>,
    exclude_column: Option<&[String]>,
    i: usize,
    e: FromSqlError,
) -> bool {
    exists|key: Seq<char>|
        #[trigger] selection_failed(old + primary_key_read(table, key), new, table, key, record_id, excluded_columns(key, exclude_column), i, e)
}

/// Selects the record of `table_name` whose primary key is `record_id`, as
/// YAML, leaving out the columns in `exclude_column`, or else the primary key
/// column. The primary key column is the one SQLite names for the table
/// (see `table_primary_key_column`).
pub fn select_excluding(
    db: &mut Database,
    table_name: &str,
    record_id: &str,
    exclude_column: Option<&[String]>,
) -> (r: Result<YamlValue, YaqliteError>)
    ensures
        r matches Ok(v) ==> selected_by_primary_key(old(db).log.calls@, final(db).log.calls@, table_name@, record_id@, exclude_column, v),
        r matches Err(YaqliteError::FromSql(i, e)) ==> primary_key_selection_failed(old(db).log.calls@, final(db).log.calls@,
            table_name@, record_id@, exclude_column, i, e),
        extended_by_reads(old(db).log.calls@, final(db).log.calls@),
        r matches Err(e) ==> e is Sqlite || e is FromSql || e is TooManyRows,
{
    let ghost base = db.log.calls@;
    let key_column = match table_primary_key_column(db, table_name) {
        Ok(k) => k,
        Err(e) => return Err(e),
    };
    let ghost mid = db.log.calls@;
    assert(mid == base + primary_key_read(table_name@, key_column@));
    let r = select_by_column_excluding(db, table_name, key_column.as_str(), record_id, exclude_column);
    proof {
        lemma_extended_trans(base, mid, db.log.calls@);
        if r is Ok {
            let v = r->Ok_0;
            assert(selected_as(base + primary_key_read(table_name@, key_column@), db.log.calls@, table_name@, key_column@, record_id@,
                excluded_columns(key_column@, exclude_column), v));
        }
        if r matches Err(YaqliteError::FromSql(_, _)) {
            let i = r->Err_0->FromSql_0;
            let e = r->Err_0->FromSql_1;
            assert(selection_failed(base + primary_key_read(table_name@, key_column@), db.log.calls@, table_name@, key_column@,
                record_id@, excluded_columns(key_column@, exclude_column), i, e));
        }
    }
    r
}

/// Selects the record of `table_name` whose primary key is `record_id`, as
/// YAML, leaving out the primary key column. The primary key column is the
/// one SQLite names for the table (see `table_primary_key_column`).
pub fn select(db: &mut Database, table_name: &str, record_id: &str) -> (r: Result<YamlValue, YaqliteError>)
    ensures
        r matches Ok(v) ==> selected_by_primary_key(old(db).log.calls@, final(db).log.calls@, table_name@, record_id@, None, v),
        r matches Err(YaqliteError::FromSql(i, e)) ==> primary_key_selection_failed(old(db).log.calls@, final(db).log.calls@,
            table_name@, record_id@, None, i, e),
        extended_by_reads(old(db).log.calls@, final(db).log.calls@),
        r matches Err(e) ==> e is Sqlite || e is FromSql || e is TooManyRows,
{
    select_excluding(db, table_name, record_id, None)
}

/// The columns to leave out of a selected record: the list given; else none
/// when the primary key is to be included; else `None`, which leaves out the
/// primary key column.
pub fn columns_to_exclude(exclude_column: Option<Vec<String>>, include_primary_key: bool) -> (r: Option<Vec<String>>)
    ensures
        exclude_column is Some ==> r == exclude_column,
        exclude_column is None && include_primary_key ==> (r matches Some(l) && l@.len() == 0),
        exclude_column is None && !include_primary_key ==> r is None,
{
    match exclude_column {
        Some(list) => Some(list),
        None => if include_primary_key {
            Some(Vec::new())
        } else {
            None
        },
    }
}

/// `s` is the YAML text of the record of `table` whose `key` column is
/// `record_id`, selected as the steps from `old` to `new` show.
pub open spec fn selected_text_by_key(
    old: Seq<SqlCall>,
    new: Seq<SqlCall>,
    table: Seq<char>,
    key: Seq<char>,
    record_id: Seq<char>,
    exclude_column: Option<&[String]>,
    s: Seq<char>,
) -> bool {
    exists|v: YamlValue| s == yaml_emitted(v) && #[trigger] selected_as(old, new, table, key, record_id, excluded_columns(key, exclude_column), v)
}

/// `s` is the YAML text of the record of `table` whose primary key is
/// `record_id`, selected as the steps from `old` to `new` show.
pub open spec fn selected_text_by_primary_key(
    old: Seq<SqlCall>,
    new: Seq<SqlCall>,
    table: Seq<char>,
    record_id: Seq<char>,
    exclude_column: Option<&[String]>,
    s: Seq<char>,
) -> bool {
    exists|v: YamlValue| s == yaml_emitted(v) && #[trigger] selected_by_primary_key(old, new, table, record_id, exclude_column, v)
}

/// Selects the record of `table_name` whose `primary_key` column (or, when
/// none is given, whose primary key) is `record_id`, and writes it as YAML
/// text: as `select_by_column_excluding` or `select_excluding`, then the
/// emitter's text of the node.
pub fn select_text(
    db: &mut Database,
    table_name: &str,
    primary_key: Option<&str>,
    record_id: &str,
    exclude_column: Option<&[String]>,
) -> (r: Result<String, YaqliteError>)
    ensures
        primary_key matches Some(k) ==> (r matches Ok(s) ==> selected_text_by_key(old(db).log.calls@, final(db).log.calls@,
            table_name@, k@, record_id@, exclude_column, s@)),
        primary_key is None ==> (r matches Ok(s) ==> selected_text_by_primary_key(old(db).log.calls@, final(db).log.calls@,
            table_name@, record_id@, exclude_column, s@)),
        extended_by_reads(old(db).log.calls@, final(db).log.calls@),
        r matches Err(e) ==> e is Sqlite || e is FromSql || e is TooManyRows,
{
    let ghost base = db.log.calls@;
    let selected = match primary_key {
        Some(k) => select_by_column_excluding(db, table_name, k, record_id, exclude_column),
        None => select_excluding(db, table_name, record_id, exclude_column),
    };
    match selected {
        Ok(v) => {
            let s = emit_document(&v);
            proof {
                assert(s@ == yaml_emitted(v));
                if primary_key is Some {
                    let k = primary_key->Some_0;
                    assert(selected_text_by_key(base, db.log.calls@, table_name@, k@, record_id@, exclude_column, s@));
                } else {
                    assert(selected_text_by_primary_key(base, db.log.calls@, table_name@, record_id@, exclude_column, s@));
                }
            }
            Ok(s)
        },
        Err(e) => Err(e),
    }
}

} // verus!
