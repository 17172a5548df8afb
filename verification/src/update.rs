//! Changing a row from a YAML record.
use vstd::prelude::*;

use crate::database::{
    extended_by_reads, extended_without_commit, lemma_extended_without_commit, lemma_without_commit_trans, no_commit,
    text_query, Database, SqlCall,
};
use crate::db;
use crate::insert::name_keys;
use crate::sqlite::{first_occurrences, get_column_names};
use crate::statement::{column_names_sql, texts};
use crate::yaml::{column_keys, db_update, record_filtered, update_written, YamlValue};
use crate::{error_from_yaml, YaqliteError};

verus! {

/// Updating the row of `table` whose `id` column is `record_id` from
/// `old_data` left the record as `new_data` and added to the log the steps
/// from `old_log` to `new_log`: the column query, which read the names
/// `read`; a transaction; for a mapping, filtered by the columns read, the
/// update statement that sets its columns in that row; and the commit.
pub open spec fn updated(
    old_data: YamlValue,
    new_data: YamlValue,
    old_log: Seq<SqlCall>,
    new_log: Seq<SqlCall>,
    table: Seq<char>,
    record_id: Seq<char>,
) -> bool {
    exists|read: Seq<Seq<char>>| {
        let mid = old_log + text_query(column_names_sql(table), seq![], read) + seq![SqlCall::Begin];
        &&& #[trigger] record_filtered(old_data, new_data, name_keys(first_occurrences(read)))
        &&& new_log.len() > 0 && new_log.last() == SqlCall::Commit
        &&& match new_data {
            YamlValue::Hash(entries) => update_written(mid, new_log.drop_last(), table, entries@, "id"@, record_id),
            _ => new_log.drop_last() == mid,
        }
    }
}

/// Updating from `old_data` failed: either the column query failed, having
/// only read and left the record as it was; or it read the names `read`,
/// the record is as it was or filtered by them, and nothing committed after
/// the column query, so the row is as it was.
pub open spec fn update_failed(
    old_data: YamlValue,
    new_data: YamlValue,
    old_log: Seq<SqlCall>,
    new_log: Seq<SqlCall>,
    table: Seq<char>,
) -> bool {
    ||| new_data == old_data && extended_by_reads(old_log, new_log)
    ||| exists|read: Seq<Seq<char>>|
        extended_without_commit(old_log + text_query(column_names_sql(table), seq![], read), new_log)
        && (new_data == old_data || #[trigger] record_filtered(old_data, new_data, name_keys(first_occurrences(read))))
}

/// Update a YAML record in the given database.
///
/// Sets the row of `table_name` whose `id` column is `record_id` from the
/// mapping `data` (see `yaml::db_update`), in a transaction that commits
/// when the row is written. On an error the transaction never commits, so
/// the row is as it was.
pub fn update(
    db: &mut Database,
    table_name: &str,
    record_id: &str,
    data: &mut YamlValue,
) -> (r: Result<(), YaqliteError>)
    ensures
        r is Ok ==> updated(*old(data), *final(data), old(db).log.calls@, final(db).log.calls@, table_name@, record_id@),
        r is Err ==> update_failed(*old(data), *final(data), old(db).log.calls@, final(db).log.calls@, table_name@),
        !(*old(data) is Hash) ==> *final(data) == *old(data),
        r matches Err(YaqliteError::EmptyRecord) ==> (*final(data) matches YamlValue::Hash(e) && e@.len() == 0),
        r matches Err(e) ==> e is Sqlite || e is EmptyRecord || e is TooManyRows,
{
    let ghost base = db.log.calls@;
    let ghost d0 = *data;
    let table_columns = match get_column_names(db, table_name) {
        Ok(c) => c,
        Err(e) => return Err(e),
    };
    let ghost read = choose|read: Seq<Seq<char>>|
        db.log.calls@ == base + #[trigger] text_query(column_names_sql(table_name@), seq![], read)
        && texts(table_columns@) == first_occurrences(read);
    let ghost head = db.log.calls@;
    let ghost keys = column_keys(table_columns@);
    proof {
        assert(keys =~= name_keys(first_occurrences(read)));
        lemma_extended_without_commit(head, seq![]);
        assert(head + seq![] =~= head);
    }
    let tx = match db::begin_transaction(&mut db.conn, &mut db.log) {
        Ok(tx) => tx,
        Err(e) => return Err(YaqliteError::Sqlite(e)),
    };
    let ghost mid = db.log.calls@;
    proof {
        assert(no_commit(seq![SqlCall::Begin]));
        lemma_extended_without_commit(head, seq![SqlCall::Begin]);
        assert(mid =~= head + seq![SqlCall::Begin]);
    }
    let res = db_update(data, &tx, table_name, &table_columns, "id", record_id, &mut db.log);
    proof {
        lemma_without_commit_trans(head, mid, db.log.calls@);
        assert(record_filtered(d0, *data, name_keys(first_occurrences(read))));
    }
    match res {
        Ok(()) => {},
        Err(e) => return Err(error_from_yaml(e)),
    }
    let ghost written = db.log.calls@;
    match db::commit_transaction(tx, &mut db.log) {
        Ok(()) => {
            proof {
                assert(db.log.calls@.drop_last() =~= written);
                assert(updated(d0, *data, base, db.log.calls@, table_name@, record_id@));
            }
            Ok(())
        },
        Err(e) => Err(YaqliteError::Sqlite(e)),
    }
}

} // verus!
