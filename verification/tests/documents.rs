use yaqlite::database::Database;
use yaqlite::select::{columns_to_exclude, select_by_column};
use yaqlite::sqlite::{distinct_names, get_column_names};
use yaqlite::statement::result_columns_statement;
use yaqlite::yaml::{FromSqlError, YamlValue};
use yaqlite::{insert, insert_text, select_text, YaqliteError};

fn s(text: &str) -> YamlValue {
    YamlValue::Str(text.to_owned())
}

fn names(list: &[&str]) -> Vec<String> {
    list.iter().map(|n| n.to_string()).collect()
}

fn test_db() -> Database {
    let mut conn = Database::new(rusqlite::Connection::open_in_memory().unwrap());
    conn.conn.execute(
        r#"CREATE TABLE "test" (id INTEGER PRIMARY KEY, count INTEGER, weight REAL, description TEXT);"#,
        [],
    )
    .unwrap();
    conn
}

fn count_rows(conn: &rusqlite::Connection) -> i64 {
    conn.query_row(r#"SELECT COUNT(*) FROM "test";"#, [], |row| row.get(0)).unwrap()
}

#[test]
fn no_row_reads_as_null() {
    let mut conn = test_db();
    assert_eq!(select_by_column(&mut conn, "test", "count", "10").unwrap(), YamlValue::Null);
}

#[test]
fn the_last_row_is_the_record() {
    let mut conn = test_db();
    conn.conn
        .execute(r#"INSERT INTO "test" (count, weight) VALUES (10, 1.5), (10, 2.5);"#, [])
        .unwrap();
    let got = select_by_column(&mut conn, "test", "count", "10").unwrap();
    assert_eq!(
        got,
        YamlValue::Hash(vec![
            (s("id"), YamlValue::Integer(2)),
            (s("weight"), YamlValue::Real("2.5".to_owned())),
            (s("description"), YamlValue::Null),
        ])
    );
}

#[test]
fn the_first_unreadable_row_fails_the_read() {
    let mut conn = test_db();
    conn.conn
        .execute(r#"INSERT INTO "test" (count, description) VALUES (7, x'01'), (7, 'fine');"#, [])
        .unwrap();
    let got = select_by_column(&mut conn, "test", "count", "7");
    assert!(matches!(got, Err(YaqliteError::FromSql(3, FromSqlError::InvalidType))));
}

#[test]
fn names_are_kept_once_in_first_order() {
    let got = distinct_names(names(&["b", "a", "b", "c", "a"]));
    assert_eq!(got, names(&["b", "a", "c"]));
    assert_eq!(distinct_names(Vec::new()), Vec::<String>::new());
}

#[test]
fn a_missing_table_has_no_columns() {
    let mut conn = test_db();
    assert_eq!(get_column_names(&mut conn, "missing").unwrap(), Vec::<String>::new());
}

#[test]
fn result_columns_query_text() {
    assert_eq!(
        result_columns_statement("test"),
        r#"SELECT "name" FROM pragma_table_xinfo("test") WHERE "hidden" != 1 ORDER BY "cid";"#
    );
}

#[test]
fn a_scalar_document_is_skipped() {
    let mut conn = test_db();
    let mut data = vec![YamlValue::Integer(5), s("text")];
    insert(&mut conn, "test", &mut data).unwrap();
    assert_eq!(data, vec![YamlValue::Integer(5), s("text")]);
    assert_eq!(count_rows(&conn.conn), 0);
}

#[test]
fn a_failure_leaves_later_items_untouched() {
    let mut conn = test_db();
    let mut data = vec![YamlValue::Array(vec![
        YamlValue::Hash(vec![(s("count"), YamlValue::Integer(1)), (s("x"), YamlValue::Null)]),
        YamlValue::Hash(vec![(s("x"), YamlValue::Integer(2))]),
        YamlValue::Hash(vec![(s("count"), YamlValue::Integer(3)), (s("y"), YamlValue::Null)]),
    ])];
    let got = insert(&mut conn, "test", &mut data);
    assert!(matches!(got, Err(YaqliteError::EmptyRecord)));
    assert_eq!(
        data,
        vec![YamlValue::Array(vec![
            YamlValue::Hash(vec![(s("count"), YamlValue::Integer(1))]),
            YamlValue::Hash(vec![]),
            YamlValue::Hash(vec![(s("count"), YamlValue::Integer(3)), (s("y"), YamlValue::Null)]),
        ])]
    );
    assert_eq!(count_rows(&conn.conn), 0);
}

#[test]
fn yaml_text_is_inserted() {
    let mut conn = test_db();
    insert_text(&mut conn, "test", "- count: 1\n  other: x\n- description: two\n").unwrap();
    assert_eq!(count_rows(&conn.conn), 2);
    let description: String =
        conn.conn.query_row(r#"SELECT description FROM "test" WHERE id = 2;"#, [], |row| row.get(0)).unwrap();
    assert_eq!(description, "two");
}

#[test]
fn text_that_is_not_yaml_is_refused() {
    let mut conn = test_db();
    let got = insert_text(&mut conn, "test", "a: [1, 2\n");
    assert!(matches!(got, Err(YaqliteError::Yaml(_))));
    assert_eq!(count_rows(&conn.conn), 0);
}

#[test]
fn a_selected_record_is_emitted_as_yaml() {
    let mut conn = test_db();
    conn.conn.execute(r#"INSERT INTO "test" (count, description) VALUES (99, 'This is a test.');"#, [])
        .unwrap();
    let got = select_text(&mut conn, "test", None, "1", None).unwrap();
    assert_eq!(got, "---\ncount: 99\nweight: ~\ndescription: This is a test.");
    let by_column = select_text(&mut conn, "test", Some("count"), "99", Some(&names(&["weight"]))).unwrap();
    assert_eq!(by_column, "---\nid: 1\ncount: 99\ndescription: This is a test.");
}

#[test]
fn a_missing_record_is_emitted_as_null() {
    let mut conn = test_db();
    assert_eq!(select_text(&mut conn, "test", None, "1", None).unwrap(), "---\n~");
}

#[test]
fn exclusion_follows_the_flags() {
    assert_eq!(columns_to_exclude(Some(names(&["a"])), true), Some(names(&["a"])));
    assert_eq!(columns_to_exclude(None, true), Some(Vec::new()));
    assert_eq!(columns_to_exclude(None, false), None);
}
