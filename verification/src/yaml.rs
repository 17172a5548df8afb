mod document;
mod sql;
mod value;

pub use sql::{column_result_view, read_view, to_sql_value, value_to_sql, FromSqlError, SqlValue, SqlValueRef, Yaml};
pub use document::{yaml_documents, yaml_emitted};
pub(crate) use document::{emit_document, load_documents};
pub use value::{yaml_real_is_number, yaml_scalar_of, ScalarView, YamlValue};
mod write;

pub use write::IoAdapter;

use vstd::prelude::*;
use vstd::string::StringExecFns;

use crate::database::{
    extended_without_commit, lemma_extended_without_commit, lemma_without_commit_trans, no_commit, run_statement, SqlCall,
    SqlLog,
};
use crate::db;
use crate::statement::{insert_statement, insert_sql, texts, update_statement, update_sql};
use value::scalar_from_str;

verus! {

/// Why writing a YAML document to the database failed.
#[derive(Debug)]
pub enum YamlError {
    /// SQLite refused a statement.
    Sqlite(rusqlite::Error),
    /// A mapping has no field left that names a column, so there is no row
    /// to write.
    EmptyRecord,
}

/// The scalar nodes that YAML resolves the column names to.
pub open spec fn column_keys(columns: Seq<String>) -> Seq<ScalarView> {
    columns.map_values(|c: String| yaml_scalar_of(c@))
}

/// `key` is a scalar equal to one of the column keys.
pub open spec fn names_column(key: YamlValue, keys: Seq<ScalarView>) -> bool {
    key.is_scalar() && keys.contains(key.scalar_view())
}

/// The entries whose key names a column, in their order.
pub open spec fn kept_entries(entries: Seq<(YamlValue, YamlValue)>, keys: Seq<ScalarView>) -> Seq<(YamlValue, YamlValue)>
    decreases entries.len(),
{
    if entries.len() == 0 {
        Seq::empty()
    } else {
        let rest = kept_entries(entries.drop_last(), keys);
        if names_column(entries.last().0, keys) {
            rest.push(entries.last())
        } else {
            rest
        }
    }
}

/// The texts of the string keys, in order.
pub open spec fn string_keys(entries: Seq<(YamlValue, YamlValue)>) -> Seq<Seq<char>>
    decreases entries.len(),
{
    if entries.len() == 0 {
        Seq::empty()
    } else {
        let rest = string_keys(entries.drop_last());
        match entries.last().0 {
            YamlValue::Str(s) => rest.push(s@),
            _ => rest,
        }
    }
}

/// The SQL values the entries' values are written as, in order.
pub open spec fn entry_values(entries: Seq<(YamlValue, YamlValue)>) -> Seq<SqlValue> {
    entries.map_values(|e: (YamlValue, YamlValue)| to_sql_value(e.1))
}

/// `new` is `old` with every mapping in it (at the top or inside sequences,
/// at any depth) reduced to the entries whose keys name a column.
pub open spec fn doc_filtered(old: YamlValue, new: YamlValue, keys: Seq<ScalarView>) -> bool
    decreases old,
{
    match old {
        YamlValue::Array(items) => match new {
            YamlValue::Array(new_items) => new_items@.len() == items@.len() && forall|i: int|
                0 <= i < items@.len() ==> doc_filtered(#[trigger] items@[i], new_items@[i], keys),
            _ => false,
        },
        YamlValue::Hash(entries) => match new {
            YamlValue::Hash(new_entries) => new_entries@ == kept_entries(entries@, keys),
            _ => false,
        },
        _ => new == old,
    }
}

/// `new` is `old` with some of its mappings reduced as in `doc_filtered` and
/// the others unchanged.
pub open spec fn doc_partly_filtered(old: YamlValue, new: YamlValue, keys: Seq<ScalarView>) -> bool
    decreases old,
{
    match old {
        YamlValue::Array(items) => match new {
            YamlValue::Array(new_items) => new_items@.len() == items@.len() && forall|i: int|
                0 <= i < items@.len() ==> doc_partly_filtered(#[trigger] items@[i], new_items@[i], keys),
            _ => false,
        },
        YamlValue::Hash(entries) => match new {
            YamlValue::Hash(new_entries) => new_entries@ == entries@ || new_entries@ == kept_entries(entries@, keys),
            _ => false,
        },
        _ => new == old,
    }
}

/// `new` is `old` as writing it left it when the write failed: in a
/// sequence, the items before the failing one are filtered as in
/// `doc_filtered`, the failing one is partly filtered (and has an empty
/// mapping when the failure is that a mapping has no entry left, `empty`),
/// and the items after it are untouched; a failing mapping is filtered, and
/// it is empty exactly when `empty`. Other nodes never fail.
pub open spec fn doc_failed(old: YamlValue, new: YamlValue, keys: Seq<ScalarView>, empty: bool) -> bool {
    match old {
        YamlValue::Array(items) => match new {
            YamlValue::Array(new_items) => new_items@.len() == items@.len() && exists|k: int|
                0 <= k < items@.len()
                && (forall|j: int| 0 <= j < k ==> doc_filtered(#[trigger] items@[j], new_items@[j], keys))
                && #[trigger] doc_partly_filtered(items@[k], new_items@[k], keys)
                && (empty ==> !records_nonempty(new_items@[k]))
                && (forall|j: int| k < j < items@.len() ==> #[trigger] new_items@[j] == items@[j]),
            _ => false,
        },
        YamlValue::Hash(entries) => match new {
            YamlValue::Hash(new_entries) => new_entries@ == kept_entries(entries@, keys) && (empty <==> new_entries@.len() == 0),
            _ => false,
        },
        _ => false,
    }
}

/// Every mapping in the document (at the top or inside sequences, at any
/// depth) has at least one entry.
pub open spec fn records_nonempty(doc: YamlValue) -> bool
    decreases doc,
{
    match doc {
        YamlValue::Array(items) => forall|i: int| 0 <= i < items@.len() ==> records_nonempty(#[trigger] items@[i]),
        YamlValue::Hash(entries) => entries@.len() > 0,
        _ => true,
    }
}

/// Each document of `new` is the one of `old` filtered as in `doc_filtered`.
pub open spec fn docs_filtered(old: Seq<YamlValue>, new: Seq<YamlValue>, keys: Seq<ScalarView>) -> bool {
    old.len() == new.len() && forall|i: int| 0 <= i < old.len() ==> doc_filtered(#[trigger] old[i], new[i], keys)
}

/// Each document of `new` is the one of `old` partly filtered as in
/// `doc_partly_filtered`.
pub open spec fn docs_partly_filtered(old: Seq<YamlValue>, new: Seq<YamlValue>, keys: Seq<ScalarView>) -> bool {
    old.len() == new.len() && forall|i: int| 0 <= i < old.len() ==> doc_partly_filtered(#[trigger] old[i], new[i], keys)
}

/// `new` is `old` when `old` is not a mapping, and otherwise the mapping
/// reduced to the entries whose keys name a column.
pub open spec fn record_filtered(old: YamlValue, new: YamlValue, keys: Seq<ScalarView>) -> bool {
    match old {
        YamlValue::Hash(entries) => new matches YamlValue::Hash(new_entries) && new_entries@ == kept_entries(entries@, keys),
        _ => new == old,
    }
}

/// Every YAML float among the parameters reads as a number.
pub open spec fn reals_are_numbers(params: Seq<SqlValue>) -> bool {
    forall|i: int| 0 <= i < params.len() ==> (#[trigger] params[i] matches SqlValue::Real(t) ==> yaml_real_is_number(t@))
}

/// The scalar nodes that YAML resolves the column names to.
pub fn column_keys_of(columns: &Vec<String>) -> (r: Vec<YamlValue>)
    ensures
        r@.len() == columns@.len(),
        forall|i: int| 0 <= i < r@.len() ==> (#[trigger] r@[i]).is_scalar(),
        r@.map_values(|k: YamlValue| k.scalar_view()) == column_keys(columns@),
{
    let mut out: Vec<YamlValue> = Vec::new();
    let n = columns.len();
    let mut i: usize = 0;
    while i < n
        invariant
            n == columns@.len(),
            i <= n,
            out@.len() == i,
            forall|j: int| 0 <= j < i ==> (#[trigger] out@[j]).is_scalar(),
            forall|j: int| 0 <= j < i ==> (#[trigger] out@[j]).scalar_view() == yaml_scalar_of(columns@[j]@),
        decreases n - i,
    {
        out.push(scalar_from_str(columns[i].as_str()));
        i = i + 1;
    }
    assert(out@.map_values(|k: YamlValue| k.scalar_view()) =~= column_keys(columns@));
    out
}

/// Whether two nodes, the second a scalar, are equal.
fn same_scalar(key: &YamlValue, col: &YamlValue) -> (r: bool)
    requires
        col.is_scalar(),
    ensures
        r == (key.is_scalar() && key.scalar_view() == col.scalar_view()),
{
    match (key, col) {
        (YamlValue::Real(a), YamlValue::Real(b)) => *a == *b,
        (YamlValue::Integer(a), YamlValue::Integer(b)) => *a == *b,
        (YamlValue::Str(a), YamlValue::Str(b)) => *a == *b,
        (YamlValue::Boolean(a), YamlValue::Boolean(b)) => *a == *b,
        (YamlValue::Alias(a), YamlValue::Alias(b)) => *a == *b,
        (YamlValue::Null, YamlValue::Null) => true,
        (YamlValue::BadValue, YamlValue::BadValue) => true,
        _ => false,
    }
}

/// Whether `key` equals one of the column keys.
fn key_names_column(key: &YamlValue, cols: &Vec<YamlValue>) -> (r: bool)
    requires
        forall|i: int| 0 <= i < cols@.len() ==> (#[trigger] cols@[i]).is_scalar(),
    ensures
        r == names_column(*key, cols@.map_values(|k: YamlValue| k.scalar_view())),
{
    let ghost views = cols@.map_values(|k: YamlValue| k.scalar_view());
    let n = cols.len();
    let mut i: usize = 0;
    while i < n
        invariant
            n == cols@.len(),
            i <= n,
            views == cols@.map_values(|k: YamlValue| k.scalar_view()),
            forall|j: int| 0 <= j < cols@.len() ==> (#[trigger] cols@[j]).is_scalar(),
            forall|j: int| 0 <= j < i ==> !(key.is_scalar() && key.scalar_view() == #[trigger] views[j]),
        decreases n - i,
    {
        if same_scalar(key, &cols[i]) {
            assert(views[i as int] == cols@[i as int].scalar_view());
            return true;
        }
        i = i + 1;
    }
    assert(!names_column(*key, views)) by {
        if key.is_scalar() && views.contains(key.scalar_view()) {
            let j = choose|j: int| 0 <= j < views.len() && views[j] == key.scalar_view();
            assert(!(key.is_scalar() && key.scalar_view() == views[j]));
        }
    }
    false
}

/// Removes from a mapping's entries those whose key names no column, keeping
/// the order of the others.
pub fn retain_columns(entries: &mut Vec<(YamlValue, YamlValue)>, cols: &Vec<YamlValue>)
    requires
        forall|i: int| 0 <= i < cols@.len() ==> (#[trigger] cols@[i]).is_scalar(),
    ensures
        final(entries)@ == kept_entries(old(entries)@, cols@.map_values(|k: YamlValue| k.scalar_view())),
{
    let ghost keys = cols@.map_values(|k: YamlValue| k.scalar_view());
    let ghost orig = entries@;
    let mut rest: Vec<(YamlValue, YamlValue)> = Vec::new();
    std::mem::swap(entries, &mut rest);
    let n = rest.len();
    let mut i: usize = 0;
    while i < n
        invariant
            orig.len() == n,
            i <= n,
            rest@ == orig.skip(i as int),
            entries@ == kept_entries(orig.take(i as int), keys),
            keys == cols@.map_values(|k: YamlValue| k.scalar_view()),
            forall|j: int| 0 <= j < cols@.len() ==> (#[trigger] cols@[j]).is_scalar(),
        decreases n - i,
    {
        let entry = rest.remove(0);
        assert(orig.take(i + 1).drop_last() =~= orig.take(i as int));
        assert(orig.take(i + 1).last() == entry);
        if key_names_column(&entry.0, cols) {
            entries.push(entry);
        }
        assert(rest@ =~= orig.skip(i + 1));
        i = i + 1;
    }
    assert(orig.take(n as int) =~= orig);
}

/// The texts of the string keys of a mapping's entries, in order.
pub fn string_keys_of(entries: &Vec<(YamlValue, YamlValue)>) -> (r: Vec<String>)
    ensures
        texts(r@) == string_keys(entries@),
{
    let mut out: Vec<String> = Vec::new();
    let n = entries.len();
    let mut i: usize = 0;
    while i < n
        invariant
            n == entries@.len(),
            i <= n,
            texts(out@) == string_keys(entries@.take(i as int)),
        decreases n - i,
    {
        let ghost before = out@;
        assert(entries@.take(i + 1).drop_last() =~= entries@.take(i as int));
        match entries[i].0.as_str() {
            Some(s) => {
                out.push(s.clone());
                assert(texts(out@) =~= texts(before).push(s@));
            },
            None => {},
        }
        i = i + 1;
    }
    assert(entries@.take(n as int) =~= entries@);
    out
}

/// The SQL values that a mapping's values are written as, in order.
pub fn values_to_sql(entries: &Vec<(YamlValue, YamlValue)>) -> (r: Vec<SqlValue>)
    ensures
        r@ == entry_values(entries@),
        reals_are_numbers(r@),
{
    let mut out: Vec<SqlValue> = Vec::new();
    let n = entries.len();
    let mut i: usize = 0;
    while i < n
        invariant
            n == entries@.len(),
            i <= n,
            out@ == entry_values(entries@.take(i as int)),
            reals_are_numbers(out@),
        decreases n - i,
    {
        let v = value_to_sql(&entries[i].1);
        out.push(v);
        assert(out@ =~= entry_values(entries@.take(i + 1)));
        i = i + 1;
    }
    assert(entries@.take(n as int) =~= entries@);
    out
}

/// Every document is a partial filtering of itself.
pub proof fn lemma_partly_filtered_refl(v: YamlValue, keys: Seq<ScalarView>)
    ensures
        doc_partly_filtered(v, v, keys),
    decreases v,
{
    match v {
        YamlValue::Array(items) => {
            assert forall|i: int| 0 <= i < items@.len() implies doc_partly_filtered(#[trigger] items@[i], items@[i], keys) by {
                broadcast use vstd::std_specs::vec::axiom_vec_decreases_to_view;
                assert(decreases_to!(v => items@[i]));
                lemma_partly_filtered_refl(items@[i], keys);
            }
        },
        _ => {},
    }
}

/// A filtered document is a partial filtering.
pub proof fn lemma_filtered_is_partly(old: YamlValue, new: YamlValue, keys: Seq<ScalarView>)
    requires
        doc_filtered(old, new, keys),
    ensures
        doc_partly_filtered(old, new, keys),
    decreases old,
{
    match old {
        YamlValue::Array(items) => {
            let new_items = new->Array_0;
            assert forall|i: int| 0 <= i < items@.len() implies doc_partly_filtered(#[trigger] items@[i], new_items@[i], keys) by {
                broadcast use vstd::std_specs::vec::axiom_vec_decreases_to_view;
                assert(decreases_to!(old => items@[i]));
                lemma_filtered_is_partly(items@[i], new_items@[i], keys);
            }
        },
        _ => {},
    }
}

/// The statement that writes a mapping's entries as one new row of
/// `table_name`, and its parameters; `None` when there are no entries.
pub fn insert_statement_for(table_name: &str, entries: &Vec<(YamlValue, YamlValue)>) -> (r: Option<(String, Vec<SqlValue>)>)
    ensures
        r is None <==> entries@.len() == 0,
        r matches Some(st) ==> {
            &&& st.0@ == insert_sql(table_name@, string_keys(entries@), entries@.len())
            &&& st.1@ == entry_values(entries@)
            &&& reals_are_numbers(st.1@)
        },
{
    let n = entries.len();
    if n == 0 {
        return None;
    }
    let columns = string_keys_of(entries);
    let sql = insert_statement(table_name, &columns, n);
    let params = values_to_sql(entries);
    Some((sql, params))
}

/// The statement that sets the columns named by a mapping's string keys to
/// its values in the row of `table_name` whose `primary_key_column` is
/// `record_id`, and its parameters; `None` when there are no entries.
pub fn update_statement_for(
    table_name: &str,
    entries: &Vec<(YamlValue, YamlValue)>,
    primary_key_column: &str,
    record_id: &str,
) -> (r: Option<(String, Vec<SqlValue>)>)
    ensures
        r is None <==> entries@.len() == 0,
        r matches Some(st) ==> {
            &&& st.0@ == update_sql(table_name@, string_keys(entries@), primary_key_column@)
            &&& st.1@.len() == entries@.len() + 1
            &&& st.1@.drop_last() == entry_values(entries@)
            &&& st.1@.last() matches SqlValue::Text(id) && id@ == record_id@
            &&& reals_are_numbers(st.1@)
        },
{
    let n = entries.len();
    if n == 0 {
        return None;
    }
    let columns = string_keys_of(entries);
    let sql = update_statement(table_name, &columns, primary_key_column);
    let mut params = values_to_sql(entries);
    let ghost values = params@;
    params.push(SqlValue::Text(String::from_str(record_id)));
    assert(params@.drop_last() =~= values);
    Some((sql, params))
}

/// The steps of writing the entries of one mapping as a new row of `table`:
/// the insert statement for its string keys, run once with its values.
pub open spec fn mapping_write(table: Seq<char>, entries: Seq<(YamlValue, YamlValue)>) -> Seq<SqlCall> {
    run_statement(insert_sql(table, string_keys(entries), entries.len()), entry_values(entries), true)
}

/// The steps of writing every mapping of a document as a row of `table`,
/// in document order: a mapping is one row, a sequence is its items' rows
/// in order, and other nodes write nothing.
pub open spec fn doc_writes(doc: YamlValue, table: Seq<char>) -> Seq<SqlCall>
    decreases doc, 1nat, 0nat,
{
    match doc {
        YamlValue::Hash(entries) => mapping_write(table, entries@),
        YamlValue::Array(items) => {
            proof {
                broadcast use vstd::std_specs::vec::axiom_vec_decreases_to_view;
                assert(decreases_to!(doc => items@));
            }
            items_writes(items@, items@.len(), table)
        },
        _ => Seq::empty(),
    }
}

/// The steps of writing the first `n` items of a sequence (see
/// `doc_writes`).
pub open spec fn items_writes(items: Seq<YamlValue>, n: nat, table: Seq<char>) -> Seq<SqlCall>
    decreases items, 0nat, n,
{
    if n == 0 || n > items.len() {
        Seq::empty()
    } else {
        items_writes(items, (n - 1) as nat, table) + doc_writes(items[n - 1], table)
    }
}

/// The rows written for the first `n` items depend on those items alone.
proof fn lemma_items_writes_prefix(a: Seq<YamlValue>, b: Seq<YamlValue>, n: nat, table: Seq<char>)
    requires
        n <= a.len(),
        n <= b.len(),
        a.take(n as int) == b.take(n as int),
    ensures
        items_writes(a, n, table) == items_writes(b, n, table),
    decreases n,
{
    if n > 0 {
        assert(a.take(n - 1) =~= a.take(n as int).take(n - 1));
        assert(b.take(n - 1) =~= b.take(n as int).take(n - 1));
        lemma_items_writes_prefix(a, b, (n - 1) as nat, table);
        assert(a[n - 1] == a.take(n as int)[n - 1]);
        assert(b[n - 1] == b.take(n as int)[n - 1]);
    }
}

/// `new` is `old` with the steps of setting, in the row of `table` whose
/// `key` column is `record_id`, the columns named by the string keys of
/// `entries` to its values: the update statement, run once, successfully,
/// with the values and then the record id as text.
pub open spec fn update_written(
    old: Seq<SqlCall>,
    new: Seq<SqlCall>,
    table: Seq<char>,
    entries: Seq<(YamlValue, YamlValue)>,
    key: Seq<char>,
    record_id: Seq<char>,
) -> bool {
    &&& new.len() == old.len() + 2
    &&& new.take(old.len() as int) == old
    &&& new[old.len() as int] == SqlCall::Prepare(update_sql(table, string_keys(entries), key))
    &&& new[old.len() as int + 1] is Run
    &&& new[old.len() as int + 1]->Run_1
    &&& new[old.len() as int + 1]->Run_0.len() == entries.len() + 1
    &&& new[old.len() as int + 1]->Run_0.drop_last() == entry_values(entries)
    &&& new[old.len() as int + 1]->Run_0.last() is Text
    &&& new[old.len() as int + 1]->Run_0.last()->Text_0@ == record_id
}

/// Writes a mapping's entries as one new row of `table_name`: the insert
/// statement for its string keys, run with its values.
fn insert_record(entries: &Vec<(YamlValue, YamlValue)>, tx: &rusqlite::Transaction<'_>, table_name: &str, log: &mut SqlLog) -> (r: Result<(), YamlError>)
    ensures
        r matches Err(YamlError::EmptyRecord) <==> entries@.len() == 0,
        r is Ok ==> final(log).calls@ == old(log).calls@ + mapping_write(table_name@, entries@),
        entries@.len() == 0 ==> final(log).calls@ == old(log).calls@,
        extended_without_commit(old(log).calls@, final(log).calls@),
{
    let ghost base = log.calls@;
    proof {
        lemma_extended_without_commit(base, seq![]);
        assert(base + seq![] =~= base);
    }
    let (sql, params) = match insert_statement_for(table_name, entries) {
        Some(st) => st,
        None => return Err(YamlError::EmptyRecord),
    };
    let conn = db::transaction_connection(tx);
    let mut stmt = match db::prepare(conn, sql.as_str(), log) {
        Ok(s) => s,
        Err(e) => return Err(YamlError::Sqlite(e)),
    };
    let r = db::insert_row(&mut stmt, &params, log);
    proof {
        let added = seq![SqlCall::Prepare(sql@), SqlCall::Run(params@, r is Ok)];
        assert(log.calls@ =~= base + added);
        assert(no_commit(added));
        lemma_extended_without_commit(base, added);
    }
    match r {
        Ok(_) => Ok(()),
        Err(e) => Err(YamlError::Sqlite(e)),
    }
}

/// Writes every mapping in a YAML document (the document itself, or the
/// items of a sequence, at any depth, in order) as a new row of
/// `table_name`. Each mapping first loses the entries whose key is not one of
/// `table_columns` as YAML reads a column name; its string keys then name
/// the columns, and its values, in order, are the row's values. Other nodes
/// are skipped. Stops at the first failure.
pub fn extract(
    doc: &mut YamlValue,
    tx: &rusqlite::Transaction<'_>,
    table_name: &str,
    table_columns: &Vec<String>,
    log: &mut SqlLog,
) -> (r: Result<(), YamlError>)
    ensures
        r is Ok ==> final(log).calls@ == old(log).calls@ + doc_writes(*final(doc), table_name@),
        extended_without_commit(old(log).calls@, final(log).calls@),
        r is Ok ==> doc_filtered(*old(doc), *final(doc), column_keys(table_columns@)),
        r is Ok ==> records_nonempty(*final(doc)),
        r matches Err(YamlError::EmptyRecord) ==> !records_nonempty(*final(doc)),
        r matches Err(e) ==> doc_failed(*old(doc), *final(doc), column_keys(table_columns@), e is EmptyRecord),
        doc_partly_filtered(*old(doc), *final(doc), column_keys(table_columns@)),
        !(*old(doc) is Array) && !(*old(doc) is Hash) ==> r is Ok && *final(doc) == *old(doc),
    decreases *old(doc),
{
    let ghost d0 = *doc;
    let ghost keys = column_keys(table_columns@);
    let ghost base = log.calls@;
    assert(d0 == *old(doc));
    proof {
        lemma_extended_without_commit(base, seq![]);
        assert(base + seq![] =~= base);
    }
    match doc {
        YamlValue::Array(items) => {
            let n = items.len();
            let ghost orig = items@;
            let mut failure: Option<YamlError> = None;
            let ghost mut fail_at: int = 0;
            let mut i: usize = 0;
            while i < n && failure.is_none()
                invariant
                    n == items@.len(),
                    orig.len() == n,
                    i <= n,
                    failure is None ==> forall|j: int| 0 <= j < i ==> doc_filtered(#[trigger] orig[j], items@[j], keys),
                    failure is None ==> forall|j: int| 0 <= j < i ==> records_nonempty(#[trigger] items@[j]),
                    failure matches Some(YamlError::EmptyRecord) ==> 0 <= fail_at < n && !records_nonempty(items@[fail_at]),
                    failure is None ==> forall|j: int| i <= j < n ==> items@[j] == orig[j],
                    failure is Some ==> forall|j: int| 0 <= j < n ==> doc_partly_filtered(#[trigger] orig[j], items@[j], keys),
                    failure matches Some(e) ==> {
                        &&& 0 <= fail_at < n
                        &&& forall|j: int| 0 <= j < fail_at ==> doc_filtered(#[trigger] orig[j], items@[j], keys)
                        &&& doc_partly_filtered(orig[fail_at], items@[fail_at], keys)
                        &&& (e is EmptyRecord ==> !records_nonempty(items@[fail_at]))
                        &&& forall|j: int| fail_at < j < n ==> #[trigger] items@[j] == orig[j]
                    },
                    d0 matches YamlValue::Array(v) && v@ == orig,
                    d0 == *old(doc),
                    keys == column_keys(table_columns@),
                    base == old(log).calls@,
                    failure is None ==> log.calls@ == base + items_writes(items@, i as nat, table_name@),
                    extended_without_commit(base, log.calls@),
                decreases n - i,
            {
                proof {
                    broadcast use vstd::std_specs::vec::axiom_vec_decreases_to_view;
                    let v = d0->Array_0;
                    assert(decreases_to!(d0 => v@[i as int]));
                }
                let ghost before = items@;
                let ghost log_before = log.calls@;
                let res = extract(&mut items[i], tx, table_name, table_columns, log);
                proof {
                    lemma_without_commit_trans(base, log_before, log.calls@);
                }
                match res {
                    Ok(()) => {
                        proof {
                            assert(items@.take(i as int) =~= before.take(i as int));
                            lemma_items_writes_prefix(items@, before, i as nat, table_name@);
                            assert(log.calls@ =~= base + items_writes(items@, (i + 1) as nat, table_name@));
                        }
                    },
                    Err(e) => {
                        proof {
                            assert forall|j: int| 0 <= j < n implies doc_partly_filtered(#[trigger] orig[j], items@[j], keys) by {
                                if j < i {
                                    lemma_filtered_is_partly(orig[j], items@[j], keys);
                                } else if j > i {
                                    assert(items@[j] == before[j]);
                                    lemma_partly_filtered_refl(orig[j], keys);
                                }
                            }
                        }
                        proof {
                            fail_at = i as int;
                        }
                        failure = Some(e);
                    },
                }
                i = i + 1;
            }
            match failure {
                Some(e) => {
                    proof {
                        assert(doc_partly_filtered(orig[fail_at], items@[fail_at], keys));
                        if e is EmptyRecord {
                            assert(!records_nonempty(items@[fail_at]));
                            broadcast use vstd::std_specs::vec::axiom_vec_decreases_to_view;
                            let d = YamlValue::Array(*items);
                            assert(decreases_to!(d => d->Array_0@[fail_at]));
                            assert(!records_nonempty(d));
                        }
                    }
                    Err(e)
                },
                None => {
                    proof {
                        assert forall|j: int| 0 <= j < n implies doc_partly_filtered(#[trigger] orig[j], items@[j], keys) by {
                            lemma_filtered_is_partly(orig[j], items@[j], keys);
                        }
                        assert(doc_writes(YamlValue::Array(*items), table_name@) == items_writes(items@, n as nat, table_name@));
                    }
                    Ok(())
                },
            }
        },
        YamlValue::Hash(entries) => {
            let cols = column_keys_of(table_columns);
            retain_columns(entries, &cols);
            insert_record(entries, tx, table_name, log)
        },
        _ => Ok(()),
    }
}

/// Sets the row of `table_name` whose `primary_key_column` is `record_id`
/// from a YAML mapping: the mapping first loses the entries whose key is not
/// one of `table_columns` as YAML reads a column name; its string keys then
/// name the columns to set and its values, in order, are their new values.
/// A document that is not a mapping is left as it is and nothing is run.
pub fn db_update(
    doc: &mut YamlValue,
    tx: &rusqlite::Transaction<'_>,
    table_name: &str,
    table_columns: &Vec<String>,
    primary_key_column: &str,
    record_id: &str,
    log: &mut SqlLog,
) -> (r: Result<(), YamlError>)
    ensures
        record_filtered(*old(doc), *final(doc), column_keys(table_columns@)),
        r matches Err(YamlError::EmptyRecord) <==> (*final(doc) matches YamlValue::Hash(e) && e@.len() == 0),
        !(*old(doc) is Hash) ==> r is Ok && final(log).calls@ == old(log).calls@,
        r is Ok && *final(doc) is Hash ==> update_written(old(log).calls@, final(log).calls@, table_name@,
            (*final(doc))->Hash_0@, primary_key_column@, record_id@),
        extended_without_commit(old(log).calls@, final(log).calls@),
{
    let ghost base = log.calls@;
    proof {
        lemma_extended_without_commit(base, seq![]);
        assert(base + seq![] =~= base);
    }
    match doc {
        YamlValue::Hash(entries) => {
            let cols = column_keys_of(table_columns);
            retain_columns(entries, &cols);
            let (sql, params) = match update_statement_for(table_name, entries, primary_key_column, record_id) {
                Some(st) => st,
                None => return Err(YamlError::EmptyRecord),
            };
            let conn = db::transaction_connection(tx);
            let mut stmt = match db::prepare(conn, sql.as_str(), log) {
                Ok(s) => s,
                Err(e) => return Err(YamlError::Sqlite(e)),
            };
            let r = db::execute(&mut stmt, &params, log);
            proof {
                let added = seq![SqlCall::Prepare(sql@), SqlCall::Run(params@, r is Ok)];
                assert(log.calls@ =~= base + added);
                assert(no_commit(added));
                lemma_extended_without_commit(base, added);
                assert(log.calls@.take(base.len() as int) =~= base);
            }
            match r {
                Ok(_) => Ok(()),
                Err(e) => Err(YamlError::Sqlite(e)),
            }
        },
        _ => Ok(()),
    }
}

} // verus!
