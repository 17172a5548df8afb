//! What holds of the library as a whole.
use vstd::prelude::*;
use vstd::utf8::{decode_utf8, encode_utf8, encode_utf8_decode_utf8, encode_utf8_valid_utf8, valid_utf8};

use crate::select::{map_insert, record_view, row_record, without_key};
use crate::statement::{assignment_list, column_list, placeholders, quoted, repeated};
use crate::database::{row_cells, SqlCall};
use crate::yaml::{
    yaml_real_is_number,
    column_result_view, doc_filtered, entry_values, kept_entries, names_column, string_keys,
    to_sql_value, FromSqlError, ScalarView, SqlValue, SqlValueRef, YamlValue,
};

verus! {

/// `v` is the value SQLite gives back for a column set to the parameter `p`:
/// an integer or `NULL` as itself, text as its UTF-8 bytes, a real number as
/// some real number.
pub open spec fn stored_as(p: SqlValue, v: SqlValueRef) -> bool {
    match p {
        SqlValue::Null => v is Null,
        SqlValue::Integer(i) => v == SqlValueRef::Integer(i),
        SqlValue::Text(s) => v matches SqlValueRef::Text(b) && b@ == encode_utf8(s@),
        SqlValue::Real(_) => v is Real,
    }
}

/// `key` is the name of one of the columns `names` and not one of
/// `excluded`.
pub open spec fn is_column_kept(key: ScalarView, names: Seq<Seq<char>>, excluded: Seq<Seq<char>>) -> bool {
    match key {
        ScalarView::Str(name) => !excluded.contains(name) && names.contains(name),
        _ => false,
    }
}

/// How often `c` occurs in `s`.
pub open spec fn occurrences(s: Seq<char>, c: char) -> nat
    decreases s.len(),
{
    if s.len() == 0 {
        0
    } else {
        occurrences(s.drop_last(), c) + if s.last() == c { 1nat } else { 0nat }
    }
}

proof fn lemma_occurrences_concat(a: Seq<char>, b: Seq<char>, c: char)
    ensures
        occurrences(a + b, c) == occurrences(a, c) + occurrences(b, c),
    decreases b.len(),
{
    if b.len() == 0 {
        assert(a + b =~= a);
    } else {
        assert((a + b).drop_last() =~= a + b.drop_last());
        lemma_occurrences_concat(a, b.drop_last(), c);
    }
}

/// A string, an integer or null written to a column reads back as the same
/// node; a boolean reads back as the integer 1 or 0.
pub proof fn law_scalar_read_back(y: YamlValue, v: SqlValueRef)
    requires
        stored_as(to_sql_value(y), v),
    ensures
        (y is Str || y is Integer || y is Null) ==> column_result_view(v) == Ok::<ScalarView, FromSqlError>(y.scalar_view()),
        y matches YamlValue::Boolean(b) ==> column_result_view(v) == Ok::<ScalarView, FromSqlError>(ScalarView::Integer(if b { 1 } else { 0 })),
{
    if let YamlValue::Str(s) = y {
        encode_utf8_valid_utf8(s@);
        encode_utf8_decode_utf8(s@);
    }
}

/// A float that YAML reads as a number is handed to SQLite as a real
/// parameter with its own text, whatever its sign, and what SQLite stores
/// for it reads back as a float.
pub proof fn law_float_written_as_real(t: String, v: SqlValueRef)
    requires
        yaml_real_is_number(t@),
        stored_as(to_sql_value(YamlValue::Real(t)), v),
    ensures
        to_sql_value(YamlValue::Real(t)) == SqlValue::Real(t),
        column_result_view(v) is Ok,
        column_result_view(v)->Ok_0 is Real,
{
}

/// A real number read from a column is the YAML float with the same text,
/// whatever the text.
pub proof fn law_real_column_read_as_float(t: String)
    ensures
        column_result_view(SqlValueRef::Real(t)) == Ok::<ScalarView, FromSqlError>(ScalarView::Real(t@)),
{
}

/// The parameter markers of an insert statement: one per value.
pub proof fn law_one_marker_per_value(n: nat)
    requires
        n >= 1,
    ensures
        occurrences(placeholders(n), '?') == n,
    decreases n,
{
    lemma_repeated_markers((n - 1) as nat);
    lemma_occurrences_concat(repeated("?, "@, (n - 1) as nat), "?"@, '?');
    assert(occurrences("?"@, '?') == 1) by {
        reveal_strlit("?");
        let s = "?"@;
        assert(s.len() == 1 && s[0] == '?');
        assert(s.drop_last() =~= Seq::<char>::empty());
        assert(occurrences(s.drop_last(), '?') == 0);
        assert(s.last() == '?');
    }
}

proof fn lemma_repeated_markers(k: nat)
    ensures
        occurrences(repeated("?, "@, k), '?') == k,
    decreases k,
{
    if k > 0 {
        lemma_repeated_markers((k - 1) as nat);
        lemma_occurrences_concat(repeated("?, "@, (k - 1) as nat), "?, "@, '?');
        assert(occurrences("?, "@, '?') == 1) by {
            reveal_strlit("?, ");
            let s = "?, "@;
            assert(s.len() == 3 && s[0] == '?' && s[1] == ',' && s[2] == ' ');
            let s1 = s.drop_last();
            let s2 = s1.drop_last();
            let s3 = s2.drop_last();
            assert(s3 =~= Seq::<char>::empty());
            assert(occurrences(s3, '?') == 0);
            assert(s2.last() == '?');
            assert(occurrences(s2, '?') == 1);
            assert(s1.last() == ',');
            assert(occurrences(s1, '?') == 1);
            assert(s.last() == ' ');
        }
    }
}

/// When every key of a record is a string, the insert statement names one
/// column per value.
pub proof fn law_one_column_per_value(entries: Seq<(YamlValue, YamlValue)>)
    requires
        forall|k: int| 0 <= k < entries.len() ==> (#[trigger] entries[k]).0 is Str,
    ensures
        string_keys(entries).len() == entries.len(),
        forall|k: int| 0 <= k < entries.len() ==> string_keys(entries)[k] == (#[trigger] entries[k]).0->Str_0@,
    decreases entries.len(),
{
    if entries.len() > 0 {
        law_one_column_per_value(entries.drop_last());
        assert forall|k: int| 0 <= k < entries.len() implies string_keys(entries)[k] == (#[trigger] entries[k]).0->Str_0@ by {
            if k < entries.len() - 1 {
                assert(entries.drop_last()[k] == entries[k]);
            }
        }
    }
}

/// Every entry kept names a column.
pub proof fn law_kept_entries_name_columns(entries: Seq<(YamlValue, YamlValue)>, keys: Seq<ScalarView>)
    ensures
        forall|k: int| 0 <= k < kept_entries(entries, keys).len() ==> names_column(#[trigger] kept_entries(entries, keys)[k].0, keys),
        kept_entries(entries, keys).len() <= entries.len(),
    decreases entries.len(),
{
    if entries.len() > 0 {
        law_kept_entries_name_columns(entries.drop_last(), keys);
        let rest = kept_entries(entries.drop_last(), keys);
        assert forall|k: int| 0 <= k < kept_entries(entries, keys).len() implies names_column(#[trigger] kept_entries(entries, keys)[k].0, keys) by {
            if k < rest.len() {
                assert(kept_entries(entries, keys)[k] == rest[k]);
            }
        }
    }
}

/// An entry whose key names a column is kept: filtering drops exactly the
/// entries that name no column.
pub proof fn law_kept_entries_keep_columns(entries: Seq<(YamlValue, YamlValue)>, keys: Seq<ScalarView>)
    ensures
        forall|k: int| 0 <= k < entries.len() && names_column((#[trigger] entries[k]).0, keys) ==> kept_entries(entries, keys).contains(entries[k]),
    decreases entries.len(),
{
    if entries.len() > 0 {
        law_kept_entries_keep_columns(entries.drop_last(), keys);
        let rest = kept_entries(entries.drop_last(), keys);
        assert forall|k: int| 0 <= k < entries.len() && names_column((#[trigger] entries[k]).0, keys) implies kept_entries(entries, keys).contains(entries[k]) by {
            if k < entries.len() - 1 {
                assert(entries.drop_last()[k] == entries[k]);
                assert(rest.contains(entries[k]));
                let j = choose|j: int| 0 <= j < rest.len() && rest[j] == entries[k];
                assert(kept_entries(entries, keys)[j] == entries[k]);
            } else {
                let kept = kept_entries(entries, keys);
                assert(kept[kept.len() - 1] == entries[k]);
            }
        }
    }
}

/// Filtering a filtered record changes nothing.
pub proof fn law_kept_entries_idempotent(entries: Seq<(YamlValue, YamlValue)>, keys: Seq<ScalarView>)
    ensures
        kept_entries(kept_entries(entries, keys), keys) == kept_entries(entries, keys),
    decreases entries.len(),
{
    if entries.len() > 0 {
        let rest = kept_entries(entries.drop_last(), keys);
        law_kept_entries_idempotent(entries.drop_last(), keys);
        if names_column(entries.last().0, keys) {
            let kept = rest.push(entries.last());
            assert(kept.drop_last() =~= rest);
        }
    }
}

/// Writing a document that is already filtered filters nothing more.
pub proof fn law_doc_filtered_idempotent(old: YamlValue, new: YamlValue, keys: Seq<ScalarView>)
    requires
        doc_filtered(old, new, keys),
    ensures
        doc_filtered(new, new, keys),
    decreases old,
{
    match old {
        YamlValue::Array(items) => {
            let new_items = new->Array_0;
            assert forall|i: int| 0 <= i < new_items@.len() implies doc_filtered(#[trigger] new_items@[i], new_items@[i], keys) by {
                broadcast use vstd::std_specs::vec::axiom_vec_decreases_to_view;
                assert(decreases_to!(old => items@[i]));
                law_doc_filtered_idempotent(items@[i], new_items@[i], keys);
            }
        },
        YamlValue::Hash(entries) => {
            law_kept_entries_idempotent(entries@, keys);
        },
        _ => {},
    }
}

/// A record read from a row leaves out the excluded columns, and no key
/// occurs twice in it.
pub proof fn law_row_record_keys(names: Seq<Seq<char>>, values: Seq<SqlValueRef>, excluded: Seq<Seq<char>>)
    requires
        row_record(names, values, excluded) is Ok,
    ensures
        forall|k: int| 0 <= k < row_record(names, values, excluded)->Ok_0.len() ==>
            is_column_kept((#[trigger] row_record(names, values, excluded)->Ok_0[k]).0, names, excluded),
        forall|j: int, k: int| 0 <= j < k < row_record(names, values, excluded)->Ok_0.len() ==>
            (#[trigger] row_record(names, values, excluded)->Ok_0[j]).0 != (#[trigger] row_record(names, values, excluded)->Ok_0[k]).0,
    decreases names.len(),
{
    if names.len() > 0 {
        let k0 = names.len() - 1;
        law_row_record_keys(names.drop_last(), values, excluded);
        let rec = row_record(names.drop_last(), values, excluded)->Ok_0;
        if !excluded.contains(names[k0]) {
            let key = ScalarView::Str(names[k0]);
            let v = column_result_view(values[k0])->Ok_0;
            lemma_without_key(rec, key);
            let w = without_key(rec, key);
            let out = map_insert(rec, key, v);
            assert forall|k: int| 0 <= k < out.len() implies is_column_kept((#[trigger] out[k]).0, names, excluded) by {
                if k < w.len() {
                    let j = choose|j: int| 0 <= j < rec.len() && rec[j] == w[k];
                    if let ScalarView::Str(name) = rec[j].0 {
                        let m = choose|m: int| 0 <= m < names.drop_last().len() && names.drop_last()[m] == name;
                        assert(names[m] == name);
                    }
                } else {
                    assert(names[k0] == names[k0]);
                }
            }
            assert forall|j: int, k: int| 0 <= j < k < out.len() implies (#[trigger] out[j]).0 != (#[trigger] out[k]).0 by {
                if k < w.len() {
                    let a = choose|a: int| 0 <= a < rec.len() && rec[a] == w[j];
                    let b = choose|b: int| 0 <= b < rec.len() && rec[b] == w[k];
                    lemma_without_key_order(rec, key, j, k);
                }
            }
        }
    }
}

/// `entry` is the entry that column `k` gives: its name as the key and its
/// value read as YAML.
pub open spec fn is_column_entry(entry: (ScalarView, ScalarView), names: Seq<Seq<char>>, values: Seq<SqlValueRef>, k: int) -> bool {
    &&& entry.0 == ScalarView::Str(names[k])
    &&& column_result_view(values[k]) == Ok::<ScalarView, FromSqlError>(entry.1)
}

/// `entry` is the entry of the last column of that name that is not
/// excluded.
pub open spec fn from_named_column(entry: (ScalarView, ScalarView), names: Seq<Seq<char>>, values: Seq<SqlValueRef>, excluded: Seq<Seq<char>>) -> bool {
    exists|k: int| {
        &&& 0 <= k < names.len()
        &&& !excluded.contains(names[k])
        &&& #[trigger] is_column_entry(entry, names, values, k)
        &&& forall|l: int| k < l < names.len() ==> names[l] != names[k]
    }
}

/// Every entry of a record read from a row carries the value of the column
/// it names: for the key `c`, the value read from the last column named `c`
/// that is not excluded.
pub proof fn law_record_values_from_named_columns(names: Seq<Seq<char>>, values: Seq<SqlValueRef>, excluded: Seq<Seq<char>>)
    requires
        row_record(names, values, excluded) is Ok,
    ensures
        forall|j: int| 0 <= j < row_record(names, values, excluded)->Ok_0.len() ==>
            #[trigger] from_named_column(row_record(names, values, excluded)->Ok_0[j], names, values, excluded),
    decreases names.len(),
{
    if names.len() > 0 {
        let k0 = names.len() - 1;
        let init = names.drop_last();
        law_record_values_from_named_columns(init, values, excluded);
        let rec = row_record(init, values, excluded)->Ok_0;
        let out = row_record(names, values, excluded)->Ok_0;
        assert forall|j: int| 0 <= j < out.len() implies #[trigger] from_named_column(out[j], names, values, excluded) by {
            if excluded.contains(names[k0]) {
                assert(out == rec);
                assert(from_named_column(rec[j], init, values, excluded));
                let k = choose|k: int| {
                    &&& 0 <= k < init.len()
                    &&& !excluded.contains(init[k])
                    &&& #[trigger] is_column_entry(rec[j], init, values, k)
                    &&& forall|l: int| k < l < init.len() ==> init[l] != init[k]
                };
                assert(names[k] == init[k]);
                assert(is_column_entry(out[j], names, values, k));
                assert forall|l: int| k < l < names.len() implies names[l] != names[k] by {
                    if l < k0 {
                        assert(names[l] == init[l]);
                    }
                }
            } else {
                let key = ScalarView::Str(names[k0]);
                let v = column_result_view(values[k0])->Ok_0;
                lemma_without_key(rec, key);
                let w = without_key(rec, key);
                assert(out == map_insert(rec, key, v));
                if j < w.len() {
                    assert(out[j] == w[j]);
                    let i = choose|i: int| 0 <= i < rec.len() && rec[i] == w[j];
                    assert(from_named_column(rec[i], init, values, excluded));
                    let k = choose|k: int| {
                        &&& 0 <= k < init.len()
                        &&& !excluded.contains(init[k])
                        &&& #[trigger] is_column_entry(rec[i], init, values, k)
                        &&& forall|l: int| k < l < init.len() ==> init[l] != init[k]
                    };
                    assert(names[k] == init[k]);
                    assert(is_column_entry(out[j], names, values, k));
                    assert forall|l: int| k < l < names.len() implies names[l] != names[k] by {
                        if l < k0 {
                            assert(names[l] == init[l]);
                        } else {
                            assert(w[j].0 != key);
                        }
                    }
                } else {
                    assert(out[j] == (key, v));
                    assert(is_column_entry(out[j], names, values, k0));
                }
            }
        }
    }
}

/// What removing a key leaves: entries of the record, none with that key,
/// every other entry kept.
proof fn lemma_without_key(m: Seq<(ScalarView, ScalarView)>, k: ScalarView)
    ensures
        forall|i: int| 0 <= i < without_key(m, k).len() ==> m.contains(#[trigger] without_key(m, k)[i]) && without_key(m, k)[i].0 != k,
        without_key(m, k).len() <= m.len(),
    decreases m.len(),
{
    if m.len() > 0 {
        lemma_without_key(m.drop_last(), k);
        let rest = without_key(m.drop_last(), k);
        assert forall|i: int| 0 <= i < without_key(m, k).len() implies m.contains(#[trigger] without_key(m, k)[i]) && without_key(m, k)[i].0 != k by {
            if i < rest.len() {
                assert(without_key(m, k)[i] == rest[i]);
                let j = choose|j: int| 0 <= j < m.drop_last().len() && m.drop_last()[j] == rest[i];
                assert(m[j] == rest[i]);
            } else {
                assert(m[m.len() - 1] == m.last());
            }
        }
    }
}

/// Removing a key keeps distinct keys distinct, in their order.
proof fn lemma_without_key_order(m: Seq<(ScalarView, ScalarView)>, k: ScalarView, a: int, b: int)
    requires
        forall|x: int, y: int| 0 <= x < y < m.len() ==> (#[trigger] m[x]).0 != (#[trigger] m[y]).0,
        0 <= a < b < without_key(m, k).len(),
    ensures
        without_key(m, k)[a].0 != without_key(m, k)[b].0,
    decreases m.len(),
{
    let rest = without_key(m.drop_last(), k);
    lemma_without_key(m.drop_last(), k);
    if b < rest.len() {
        assert(forall|x: int, y: int| 0 <= x < y < m.drop_last().len() ==> (#[trigger] m.drop_last()[x]).0 != (#[trigger] m.drop_last()[y]).0) by {
            assert forall|x: int, y: int| 0 <= x < y < m.drop_last().len() implies (#[trigger] m.drop_last()[x]).0 != (#[trigger] m.drop_last()[y]).0 by {
                assert(m.drop_last()[x] == m[x] && m.drop_last()[y] == m[y]);
            }
        }
        lemma_without_key_order(m.drop_last(), k, a, b);
    } else {
        let j = choose|j: int| 0 <= j < m.drop_last().len() && m.drop_last()[j] == rest[a];
        assert(m[j] == rest[a]);
        assert(without_key(m, k)[b] == m.last());
        assert(m[m.len() - 1] == m.last());
    }
}

/// Removing a key that no entry has changes nothing.
proof fn lemma_without_absent_key(m: Seq<(ScalarView, ScalarView)>, k: ScalarView)
    requires
        forall|i: int| 0 <= i < m.len() ==> (#[trigger] m[i]).0 != k,
    ensures
        without_key(m, k) == m,
    decreases m.len(),
{
    if m.len() > 0 {
        lemma_without_absent_key(m.drop_last(), k);
        assert(m.drop_last().push(m.last()) =~= m);
    }
}

/// A row whose columns are all excluded reads as the empty record.
proof fn lemma_excluded_row_is_empty(names: Seq<Seq<char>>, values: Seq<SqlValueRef>, excluded: Seq<Seq<char>>)
    requires
        forall|k: int| 0 <= k < names.len() ==> excluded.contains(#[trigger] names[k]),
    ensures
        row_record(names, values, excluded) == Ok::<Seq<(ScalarView, ScalarView)>, (int, FromSqlError)>(Seq::empty()),
    decreases names.len(),
{
    if names.len() > 0 {
        assert forall|k: int| 0 <= k < names.drop_last().len() implies excluded.contains(#[trigger] names.drop_last()[k]) by {
            assert(names.drop_last()[k] == names[k]);
        }
        lemma_excluded_row_is_empty(names.drop_last(), values, excluded);
        assert(excluded.contains(names[names.len() - 1]));
    }
}

/// A record whose keys are distinct strings and whose values are strings,
/// integers or null, written as a row (its string keys naming the columns,
/// its values the parameters), reads back as the same record. The row may
/// start with columns that the reading leaves out, such as the primary key;
/// none of the record's keys is one of them.
pub proof fn law_record_read_back(
    excluded_first: Seq<Seq<char>>,
    entries: Seq<(YamlValue, YamlValue)>,
    values: Seq<SqlValueRef>,
    excluded: Seq<Seq<char>>,
)
    requires
        forall|k: int| 0 <= k < excluded_first.len() ==> excluded.contains(#[trigger] excluded_first[k]),
        forall|k: int| 0 <= k < entries.len() ==> (#[trigger] entries[k]).0 is Str,
        forall|j: int, k: int| 0 <= j < k < entries.len() ==> (#[trigger] entries[j]).0.scalar_view() != (#[trigger] entries[k]).0.scalar_view(),
        forall|k: int| 0 <= k < entries.len() ==> ((#[trigger] entries[k]).1 is Str || entries[k].1 is Integer || entries[k].1 is Null),
        values.len() == excluded_first.len() + entries.len(),
        forall|k: int| 0 <= k < entries.len() ==> stored_as(#[trigger] entry_values(entries)[k], values[excluded_first.len() + k]),
        forall|k: int| 0 <= k < entries.len() ==> !excluded.contains((#[trigger] entries[k]).0->Str_0@),
    ensures
        row_record(excluded_first + string_keys(entries), values, excluded)
            == Ok::<Seq<(ScalarView, ScalarView)>, (int, FromSqlError)>(record_view(entries)),
    decreases entries.len(),
{
    let p = excluded_first.len();
    if entries.len() == 0 {
        assert(excluded_first + string_keys(entries) =~= excluded_first);
        lemma_excluded_row_is_empty(excluded_first, values, excluded);
        assert(record_view(entries) =~= Seq::<(ScalarView, ScalarView)>::empty());
    } else {
        let n = entries.len() - 1;
        let init = entries.drop_last();
        assert forall|k: int| 0 <= k < init.len() implies stored_as(#[trigger] entry_values(init)[k], values.drop_last()[p + k]) by {
            assert(entry_values(init)[k] == entry_values(entries)[k]);
            assert(values.drop_last()[p + k] == values[p + k]);
        }
        assert forall|j: int, k: int| 0 <= j < k < init.len() implies (#[trigger] init[j]).0.scalar_view() != (#[trigger] init[k]).0.scalar_view() by {
            assert(init[j] == entries[j] && init[k] == entries[k]);
        }
        assert forall|k: int| 0 <= k < init.len() implies (#[trigger] init[k]).0 is Str by {
            assert(init[k] == entries[k]);
        }
        assert forall|k: int| 0 <= k < init.len() implies ((#[trigger] init[k]).1 is Str || init[k].1 is Integer || init[k].1 is Null) by {
            assert(init[k] == entries[k]);
        }
        assert forall|k: int| 0 <= k < init.len() implies !excluded.contains((#[trigger] init[k]).0->Str_0@) by {
            assert(init[k] == entries[k]);
        }
        law_record_read_back(excluded_first, init, values.drop_last(), excluded);
        law_one_column_per_value(init);
        law_one_column_per_value(entries);
        let names = excluded_first + string_keys(entries);
        assert(names.drop_last() =~= excluded_first + string_keys(init));
        lemma_row_record_values_prefix(excluded_first + string_keys(init), values, excluded);
        let last = entries[n];
        assert(names[p + n] == last.0->Str_0@);
        let rec = record_view(init);
        let key = ScalarView::Str(names[p + n]);
        assert(last.0.scalar_view() == key);
        assert forall|i: int| 0 <= i < rec.len() implies (#[trigger] rec[i]).0 != key by {
            assert(rec[i].0 == entries[i].0.scalar_view());
        }
        lemma_without_absent_key(rec, key);
        assert(entry_values(entries)[n] == to_sql_value(last.1));
        law_scalar_read_back(last.1, values[p + n]);
        assert(record_view(entries) =~= rec.push((key, last.1.scalar_view())));
    }
}

/// Reading the first columns of a row looks only at their values.
proof fn lemma_row_record_values_prefix(names: Seq<Seq<char>>, values: Seq<SqlValueRef>, excluded: Seq<Seq<char>>)
    requires
        names.len() < values.len(),
    ensures
        row_record(names, values, excluded) == row_record(names, values.drop_last(), excluded),
    decreases names.len(),
{
    if names.len() > 0 {
        lemma_row_record_values_prefix(names.drop_last(), values, excluded);
        assert(values[names.len() - 1] == values.drop_last()[names.len() - 1]);
    }
}


/// The `k`-th read of a row's values is of column `k`, with its value.
pub proof fn law_row_reads_in_column_order(values: Seq<SqlValueRef>)
    ensures
        row_cells(values).len() == values.len(),
        forall|k: int| 0 <= k < values.len() ==> #[trigger] row_cells(values)[k] == SqlCall::Value(k, values[k]),
{
}

/// Where item `k` starts in items written one after another with ", "
/// between them.
pub open spec fn item_start(items: Seq<Seq<char>>, k: int) -> int
    decreases k,
{
    if k <= 0 {
        0
    } else {
        item_start(items, k - 1) + items[k - 1].len() + 2
    }
}

/// `s` is the items, each once and in order, with ", " between them: item
/// `k` stands at `item_start(items, k)`, a separator after every item but
/// the last, and nothing else.
pub open spec fn lists_items(s: Seq<char>, items: Seq<Seq<char>>) -> bool {
    &&& items.len() == 0 ==> s.len() == 0
    &&& items.len() > 0 ==> s.len() == item_start(items, items.len() as int) - 2
    &&& forall|k: int| 0 <= k < items.len() ==>
        s.subrange(#[trigger] item_start(items, k), item_start(items, k) + items[k].len()) == items[k]
    &&& forall|k: int| 0 <= k < items.len() - 1 ==>
        s.subrange(#[trigger] item_start(items, k) + items[k].len(), item_start(items, k + 1)) == ", "@
}

proof fn lemma_item_start_prefix(items: Seq<Seq<char>>, x: Seq<char>, k: int)
    requires
        0 <= k <= items.len(),
    ensures
        item_start(items.push(x), k) == item_start(items, k),
    decreases k,
{
    if k > 0 {
        lemma_item_start_prefix(items, x, k - 1);
        assert(items.push(x)[k - 1] == items[k - 1]);
    }
}

proof fn lemma_item_start_nonneg(items: Seq<Seq<char>>, k: int)
    ensures
        item_start(items, k) >= 0,
    decreases k,
{
    if k > 0 {
        lemma_item_start_nonneg(items, k - 1);
    }
}

proof fn lemma_item_start_grows(items: Seq<Seq<char>>, k: int, m: int)
    requires
        0 <= k < m <= items.len(),
    ensures
        item_start(items, k) + items[k].len() + 2 <= item_start(items, m),
    decreases m,
{
    if k + 1 < m {
        lemma_item_start_grows(items, k, m - 1);
    }
}

proof fn lemma_lists_one(x: Seq<char>)
    ensures
        lists_items(x, seq![x]),
{
    let items = seq![x];
    assert(item_start(items, 0) == 0);
    assert(item_start(items, 1) == x.len() + 2);
    assert(x.subrange(0, x.len() as int) =~= x);
}

proof fn lemma_lists_push(s: Seq<char>, items: Seq<Seq<char>>, x: Seq<char>)
    requires
        items.len() > 0,
        lists_items(s, items),
    ensures
        lists_items(s + ", "@ + x, items.push(x)),
{
    let t = s + ", "@ + x;
    let items2 = items.push(x);
    let n = items.len() as int;
    reveal_strlit(", ");
    assert forall|k: int| 0 <= k <= n implies #[trigger] item_start(items2, k) == item_start(items, k) by {
        lemma_item_start_prefix(items, x, k);
    }
    assert(items2[n] == x);
    assert(item_start(items2, n) == item_start(items, n));
    assert(item_start(items2, n + 1) == item_start(items, n) + x.len() + 2);
    assert forall|k: int| 0 <= k < items2.len() implies
        t.subrange(#[trigger] item_start(items2, k), item_start(items2, k) + items2[k].len()) == items2[k] by {
        if k < n {
            lemma_item_start_grows(items, k, n);
            lemma_item_start_nonneg(items, k);
            assert(items2[k] == items[k]);
            assert(t.subrange(item_start(items, k), item_start(items, k) + items[k].len())
                =~= s.subrange(item_start(items, k), item_start(items, k) + items[k].len()));
        } else {
            assert(t.subrange(s.len() as int + 2, s.len() as int + 2 + x.len()) =~= x);
        }
    }
    assert forall|k: int| 0 <= k < items2.len() - 1 implies
        t.subrange(#[trigger] item_start(items2, k) + items2[k].len(), item_start(items2, k + 1)) == ", "@ by {
        assert(items2[k] == items[k]);
        if k < n - 1 {
            lemma_item_start_grows(items, k + 1, n);
            lemma_item_start_grows(items, k, k + 1);
            lemma_item_start_nonneg(items, k);
            assert(t.subrange(item_start(items, k) + items[k].len(), item_start(items, k + 1))
                =~= s.subrange(item_start(items, k) + items[k].len(), item_start(items, k + 1)));
        } else {
            assert(t.subrange(s.len() as int, s.len() as int + 2) =~= ", "@);
        }
    }
}

/// The column list of an insert statement names every key once, in order:
/// its item `k` is the `k`-th key in double quotes, for any number of keys.
pub proof fn law_column_list_names_each_key(names: Seq<Seq<char>>)
    ensures
        lists_items(column_list(names), names.map_values(|n: Seq<char>| quoted(n))),
    decreases names.len(),
{
    let items = names.map_values(|n: Seq<char>| quoted(n));
    if names.len() == 0 {
    } else if names.len() == 1 {
        assert(items =~= seq![quoted(names[0])]);
        lemma_lists_one(quoted(names[0]));
    } else {
        let init = names.drop_last();
        law_column_list_names_each_key(init);
        assert(items =~= init.map_values(|n: Seq<char>| quoted(n)).push(quoted(names.last())));
        lemma_lists_push(column_list(init), init.map_values(|n: Seq<char>| quoted(n)), quoted(names.last()));
    }
}

/// The assignment list of an update statement sets every key once, in
/// order: its item `k` is the `k`-th key in double quotes followed by
/// " = ?", for any number of keys.
pub proof fn law_assignment_list_sets_each_key(names: Seq<Seq<char>>)
    ensures
        lists_items(assignment_list(names), names.map_values(|n: Seq<char>| quoted(n) + " = ?"@)),
    decreases names.len(),
{
    let items = names.map_values(|n: Seq<char>| quoted(n) + " = ?"@);
    if names.len() == 0 {
    } else if names.len() == 1 {
        assert(items =~= seq![quoted(names[0]) + " = ?"@]);
        lemma_lists_one(quoted(names[0]) + " = ?"@);
    } else {
        let init = names.drop_last();
        law_assignment_list_sets_each_key(init);
        assert(items =~= init.map_values(|n: Seq<char>| quoted(n) + " = ?"@).push(quoted(names.last()) + " = ?"@));
        lemma_lists_push(assignment_list(init), init.map_values(|n: Seq<char>| quoted(n) + " = ?"@), quoted(names.last()) + " = ?"@);
        assert(assignment_list(names) =~= assignment_list(init) + ", "@ + (quoted(names.last()) + " = ?"@));
    }
}

} // verus!
