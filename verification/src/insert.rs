//! Writing YAML records into a table.
use vstd::prelude::*;

use crate::db;
use crate::sqlite::get_column_names;
use crate::database::{
    extended_by_reads, extended_without_commit, lemma_extended_without_commit, lemma_without_commit_trans, no_commit, text_query,
    Database, SqlCall,
};
use crate::sqlite::column_names_read;
use crate::statement::{column_names_sql, texts};
use crate::sqlite::first_occurrences;
use crate::yaml::{
    column_keys, doc_failed, doc_filtered, doc_writes, docs_filtered, extract, load_documents, records_nonempty,
    yaml_documents, yaml_scalar_of, ScalarView, YamlValue,
};
use crate::{error_from_yaml, YaqliteError};

verus! {

/// The documents as an insert that stopped at document `k` leaves them: the
/// documents before `k` are filtered (they were written and committed),
/// document `k` is untouched, filtered, or left as its failed write left it
/// (see `doc_failed`; an empty mapping when the error `err` is that a
/// mapping had no entry left), and the
/// documents after it are untouched. `k` is the number of documents when
/// there is none to stop at.
pub open spec fn insert_stopped(old: Seq<YamlValue>, new: Seq<YamlValue>, keys: Seq<ScalarView>, k: int, err: YaqliteError) -> bool {
    let empty = err is EmptyRecord;
    &&& old.len() == new.len()
    &&& 0 <= k <= old.len()
    &&& forall|j: int| 0 <= j < k ==> doc_filtered(#[trigger] old[j], new[j], keys)
    &&& forall|j: int| k < j < old.len() ==> #[trigger] new[j] == old[j]
    &&& k < old.len() ==> (new[k] == old[k] || doc_filtered(old[k], new[k], keys) || doc_failed(old[k], new[k], keys, empty))
    &&& empty ==> k < old.len() && doc_failed(old[k], new[k], keys, true)
}

/// The scalar nodes that YAML resolves the column names `names` to.
pub open spec fn name_keys(names: Seq<Seq<char>>) -> Seq<ScalarView> {
    names.map_values(|c: Seq<char>| yaml_scalar_of(c))
}

/// The steps of inserting documents, each in a transaction of its own: the
/// transaction begins, the rows of the document's mappings are written in
/// order (see `doc_writes`), and it commits.
pub open spec fn insert_writes(docs: Seq<YamlValue>, table: Seq<char>) -> Seq<SqlCall>
    decreases docs.len(),
{
    if docs.len() == 0 {
        Seq::empty()
    } else {
        insert_writes(docs.drop_last(), table) + seq![SqlCall::Begin] + doc_writes(docs.last(), table) + seq![SqlCall::Commit]
    }
}

/// Inserting the documents `old_docs` into `table` left them as `new_docs`
/// and added to the log the steps from `old_log` to `new_log`: the column
/// query, which read the names `read`, then every document's transaction;
/// each document is filtered by the columns read, and every mapping kept an
/// entry.
pub open spec fn inserted(
    old_docs: Seq<YamlValue>,
    new_docs: Seq<YamlValue>,
    old_log: Seq<SqlCall>,
    new_log: Seq<SqlCall>,
    table: Seq<char>,
) -> bool {
    exists|read: Seq<Seq<char>>|
        new_log == old_log + text_query(column_names_sql(table), seq![], read) + insert_writes(new_docs, table)
        && #[trigger] docs_filtered(old_docs, new_docs, name_keys(first_occurrences(read)))
        && forall|i: int| 0 <= i < new_docs.len() ==> records_nonempty(#[trigger] new_docs[i])
}

/// Inserting `old_docs` into `table` failed with `err`: either the column
/// query failed, having only read and left the documents as they were; or it
/// read the names `read`, the documents before some `k` were written and
/// committed, and after them nothing committed (see `insert_stopped`).
pub open spec fn insert_failed(
    old_docs: Seq<YamlValue>,
    new_docs: Seq<YamlValue>,
    old_log: Seq<SqlCall>,
    new_log: Seq<SqlCall>,
    table: Seq<char>,
    err: YaqliteError,
) -> bool {
    ||| new_docs == old_docs && extended_by_reads(old_log, new_log)
    ||| exists|read: Seq<Seq<char>>, k: int|
        0 <= k <= new_docs.len()
        && extended_without_commit(
            old_log + text_query(column_names_sql(table), seq![], read) + insert_writes(new_docs.take(k), table),
            new_log,
        )
        && #[trigger] insert_stopped(old_docs, new_docs, name_keys(first_occurrences(read)), k, err)
}

/// The keys of columns are those of their names.
proof fn lemma_column_keys_names(columns: Seq<String>)
    ensures
        column_keys(columns) == name_keys(texts(columns)),
{
    assert(column_keys(columns) =~= name_keys(texts(columns)));
}

/// Insert YAML `data` records into the given database.
///
/// The column names of `table_name` are read first. Each document of `data`
/// is then written in a transaction of its own: every mapping in it loses
/// the entries whose key names no column and becomes a row of `table_name`
/// (see `yaml::extract`), and the transaction commits when all of them are
/// written. The first failure stops the work; its document's rows are
/// rolled back (its transaction never commits), the earlier documents stay
/// committed, and the later ones are untouched.
pub fn insert(db: &mut Database, table_name: &str, data: &mut [YamlValue]) -> (r: Result<(), YaqliteError>)
    ensures
        final(data)@.len() == old(data)@.len(),
        r is Ok ==> inserted(old(data)@, final(data)@, old(db).log.calls@, final(db).log.calls@, table_name@),
        r matches Err(e) ==> insert_failed(old(data)@, final(data)@, old(db).log.calls@, final(db).log.calls@, table_name@, e),
        r matches Err(e) ==> e is Sqlite || e is EmptyRecord || e is TooManyRows,
{
    let ghost orig = data@;
    let ghost base = db.log.calls@;
    let table_columns = match get_column_names(db, table_name) {
        Ok(c) => c,
        Err(e) => return Err(e),
    };
    let ghost read = choose|read: Seq<Seq<char>>|
        db.log.calls@ == base + #[trigger] text_query(column_names_sql(table_name@), seq![], read)
        && texts(table_columns@) == first_occurrences(read);
    let ghost keys = column_keys(table_columns@);
    let ghost head = base + text_query(column_names_sql(table_name@), seq![], read);
    proof {
        lemma_column_keys_names(table_columns@);
        assert(data@.take(0) =~= Seq::<YamlValue>::empty());
        assert(db.log.calls@ =~= head + insert_writes(data@.take(0), table_name@));
    }
    let n = data.len();
    let mut i: usize = 0;
    while i < n
        invariant
            n == data@.len(),
            orig.len() == n,
            orig == old(data)@,
            base == old(db).log.calls@,
            i <= n,
            keys == column_keys(table_columns@),
            keys == name_keys(first_occurrences(read)),
            head == base + text_query(column_names_sql(table_name@), seq![], read),
            db.log.calls@ == head + insert_writes(data@.take(i as int), table_name@),
            forall|j: int| 0 <= j < i ==> doc_filtered(#[trigger] orig[j], data@[j], keys),
            forall|j: int| i <= j < n ==> data@[j] == orig[j],
            forall|j: int| 0 <= j < i ==> records_nonempty(#[trigger] data@[j]),
        decreases n - i,
    {
        let ghost before = data@;
        let ghost at_start = db.log.calls@;
        proof {
            lemma_extended_without_commit(at_start, seq![]);
            assert(at_start + seq![] =~= at_start);
        }
        let tx = match db::begin_transaction(&mut db.conn, &mut db.log) {
            Ok(tx) => tx,
            Err(e) => {
                proof {
                    assert(insert_stopped(orig, data@, keys, i as int, YaqliteError::Sqlite(e)));
                }
                return Err(YaqliteError::Sqlite(e));
            },
        };
        let ghost after_begin = db.log.calls@;
        proof {
            assert(no_commit(seq![SqlCall::Begin]));
            lemma_extended_without_commit(at_start, seq![SqlCall::Begin]);
            assert(after_begin =~= at_start + seq![SqlCall::Begin]);
        }
        let res = extract(&mut data[i], &tx, table_name, &table_columns, &mut db.log);
        proof {
            lemma_without_commit_trans(at_start, after_begin, db.log.calls@);
            assert(data@.take(i as int) =~= before.take(i as int));
        }
        match res {
            Ok(()) => {},
            Err(e) => {
                let err = error_from_yaml(e);
                proof {
                    assert(insert_stopped(orig, data@, keys, i as int, err));
                }
                return Err(err);
            },
        }
        let ghost after_doc = db.log.calls@;
        match db::commit_transaction(tx, &mut db.log) {
            Ok(()) => {},
            Err(e) => {
                proof {
                    assert(insert_stopped(orig, data@, keys, i as int, YaqliteError::Sqlite(e)));
                }
                return Err(YaqliteError::Sqlite(e));
            },
        }
        proof {
            let now = data@.take(i + 1);
            assert(now.drop_last() =~= data@.take(i as int));
            assert(now.last() == data@[i as int]);
            assert(db.log.calls@ =~= head + insert_writes(now, table_name@));
        }
        i = i + 1;
    }
    proof {
        assert(data@.take(n as int) =~= data@);
        assert(docs_filtered(orig, data@, keys));
        assert(inserted(orig, data@, base, db.log.calls@, table_name@));
    }
    Ok(())
}

/// Inserting the documents `docs` succeeded: some filtering of them was
/// inserted (see `inserted`).
pub open spec fn inserted_all(docs: Seq<YamlValue>, old_log: Seq<SqlCall>, new_log: Seq<SqlCall>, table: Seq<char>) -> bool {
    exists|new: Seq<YamlValue>| #[trigger] inserted(docs, new, old_log, new_log, table)
}

/// Inserting the documents `docs` failed with `err` (see `insert_failed`).
pub open spec fn inserted_until(docs: Seq<YamlValue>, old_log: Seq<SqlCall>, new_log: Seq<SqlCall>, table: Seq<char>, err: YaqliteError) -> bool {
    exists|new: Seq<YamlValue>| #[trigger] insert_failed(docs, new, old_log, new_log, table, err)
}

/// Insert the YAML documents of `text` into the given database: the text is
/// loaded as YAML, and its documents are inserted as by `insert`. Text that
/// is not YAML is refused before anything is done on the database.
pub fn insert_text(db: &mut Database, table_name: &str, text: &str) -> (r: Result<(), YaqliteError>)
    ensures
        r matches Err(YaqliteError::Yaml(_)) <==> yaml_documents(text@) is None,
        yaml_documents(text@) is None ==> final(db).log.calls@ == old(db).log.calls@,
        yaml_documents(text@) matches Some(docs) ==> (r is Ok ==> inserted_all(docs, old(db).log.calls@, final(db).log.calls@, table_name@)),
        yaml_documents(text@) matches Some(docs) ==> (r matches Err(e) ==> inserted_until(docs, old(db).log.calls@, final(db).log.calls@, table_name@, e)),
        r matches Err(e) ==> e is Yaml || e is Sqlite || e is EmptyRecord || e is TooManyRows,
{
    let ghost base = db.log.calls@;
    let mut docs = match load_documents(text) {
        Ok(docs) => docs,
        Err(e) => return Err(YaqliteError::Yaml(e)),
    };
    let ghost d0 = docs@;
    let r = insert(db, table_name, docs.as_mut_slice());
    proof {
        let new = docs@;
        assert(yaml_documents(text@) == Some(d0));
        if r is Ok {
            assert(inserted(d0, new, base, db.log.calls@, table_name@));
            assert(inserted_all(d0, base, db.log.calls@, table_name@));
        }
        if r is Err {
            let e = r->Err_0;
            assert(insert_failed(d0, new, base, db.log.calls@, table_name@, e));
            assert(inserted_until(d0, base, db.log.calls@, table_name@, e));
        }
    }
    r
}

} // verus!
