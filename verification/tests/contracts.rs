use yaqlite::database::Database;
use yaqlite::select::{record_from_row, select_by_column, select_by_column_excluding};
use yaqlite::sqlite::{add_name, contains_text, get_column_names};
use yaqlite::statement::{
    build_placeholders, column_names_statement, insert_statement, primary_key_statement,
    select_statement, update_statement,
};
use yaqlite::update::update;
use yaqlite::yaml::{
    column_keys_of, insert_statement_for, retain_columns, update_statement_for, value_to_sql,
    FromSqlError, IoAdapter, SqlValue, SqlValueRef, Yaml, YamlError, YamlValue,
};
use yaqlite::{error_from_yaml, insert, select, YaqliteError};

fn s(text: &str) -> YamlValue {
    YamlValue::Str(text.to_owned())
}

fn names(list: &[&str]) -> Vec<String> {
    list.iter().map(|n| n.to_string()).collect()
}

fn test_db() -> Database {
    let mut conn = Database::new(rusqlite::Connection::open_in_memory().unwrap());
    conn.conn.execute(
        r#"CREATE TABLE "test" (id INTEGER PRIMARY KEY, count INTEGER, weight REAL, description TEXT);"#,
        [],
    )
    .unwrap();
    conn
}

fn count_rows(conn: &rusqlite::Connection) -> i64 {
    conn.query_row(r#"SELECT COUNT(*) FROM "test";"#, [], |row| row.get(0)).unwrap()
}

#[test]
fn statement_texts_are_exact() {
    assert_eq!(
        insert_statement("test", &names(&["description", "count"]), 2),
        r#"INSERT INTO "test" ("description", "count") VALUES (?, ?);"#
    );
    assert_eq!(
        update_statement("test", &names(&["count", "weight"]), "id"),
        r#"UPDATE "test" SET "count" = ?, "weight" = ? WHERE "id" = ?;"#
    );
    assert_eq!(select_statement("test", "id"), r#"SELECT * FROM "test" WHERE "id" = :pk;"#);
    assert_eq!(column_names_statement("test"), r#"SELECT "name" FROM pragma_table_info("test");"#);
    assert_eq!(
        primary_key_statement(),
        r#"SELECT "name" FROM pragma_table_info(:table) WHERE "pk" != 0;"#
    );
}

#[test]
fn placeholders_one_per_value() {
    assert_eq!(build_placeholders(1), "?");
    assert_eq!(build_placeholders(3), "?, ?, ?");
    assert_eq!(build_placeholders(3).matches('?').count(), 3);
}

#[test]
fn column_names_resolve_as_yaml_scalars() {
    let keys = column_keys_of(&names(&["count", "0x10", "~", "1.5", "true", "42"]));
    assert_eq!(
        keys,
        vec![
            s("count"),
            YamlValue::Integer(16),
            YamlValue::Null,
            YamlValue::Real("1.5".to_owned()),
            YamlValue::Boolean(true),
            YamlValue::Integer(42),
        ]
    );
}

#[test]
fn retain_columns_keeps_only_column_keys_in_order() {
    let cols = column_keys_of(&names(&["count", "description", "42"]));
    let mut entries = vec![
        (s("description"), s("text")),
        (s("nonexistent_column"), s("dropped")),
        (YamlValue::Integer(42), s("integer key")),
        (s("count"), YamlValue::Integer(7)),
        (YamlValue::Array(vec![]), s("compound key")),
    ];
    retain_columns(&mut entries, &cols);
    assert_eq!(
        entries,
        vec![
            (s("description"), s("text")),
            (YamlValue::Integer(42), s("integer key")),
            (s("count"), YamlValue::Integer(7)),
        ]
    );
    // Filtering again changes nothing.
    let before = format!("{:?}", entries);
    retain_columns(&mut entries, &cols);
    assert_eq!(format!("{:?}", entries), before);
}

#[test]
fn values_are_written_as_sql_values() {
    assert_eq!(value_to_sql(&YamlValue::Real("3.14".to_owned())), SqlValue::Real("3.14".to_owned()));
    assert_eq!(value_to_sql(&YamlValue::Real(".inf".to_owned())), SqlValue::Real(".inf".to_owned()));
    assert_eq!(value_to_sql(&YamlValue::Real("not a number".to_owned())), SqlValue::Null);
    assert_eq!(value_to_sql(&YamlValue::Integer(-5)), SqlValue::Integer(-5));
    assert_eq!(value_to_sql(&s("text")), SqlValue::Text("text".to_owned()));
    assert_eq!(value_to_sql(&YamlValue::Boolean(true)), SqlValue::Integer(1));
    assert_eq!(value_to_sql(&YamlValue::Boolean(false)), SqlValue::Integer(0));
    assert_eq!(value_to_sql(&YamlValue::Null), SqlValue::Null);
    assert_eq!(value_to_sql(&YamlValue::Array(vec![])), SqlValue::Null);
    assert_eq!(value_to_sql(&YamlValue::Hash(vec![])), SqlValue::Null);
    assert_eq!(value_to_sql(&YamlValue::Alias(3)), SqlValue::Null);
    assert_eq!(value_to_sql(&YamlValue::BadValue), SqlValue::Null);
    assert_eq!(Yaml(YamlValue::Integer(9)).to_sql(), SqlValue::Integer(9));
}

#[test]
fn column_values_are_read_as_yaml() {
    let read = |v: SqlValueRef| Yaml::column_result(v).map(|y| y.into_inner());
    assert_eq!(read(SqlValueRef::Null), Ok(YamlValue::Null));
    assert_eq!(read(SqlValueRef::Integer(12)), Ok(YamlValue::Integer(12)));
    assert_eq!(read(SqlValueRef::Real("1.2".to_owned())), Ok(YamlValue::Real("1.2".to_owned())));
    assert_eq!(read(SqlValueRef::Text("héllo".as_bytes().to_vec())), Ok(s("héllo")));
    assert_eq!(read(SqlValueRef::Text(vec![0xff, 0xfe])), Err(FromSqlError::InvalidUtf8));
    assert_eq!(read(SqlValueRef::Blob(b"abc".to_vec())), Err(FromSqlError::InvalidType));
}

#[test]
fn into_inner_gives_the_node() {
    assert_eq!(Yaml(s("x")).into_inner(), s("x"));
}

#[test]
fn record_from_row_leaves_out_excluded_columns() {
    let row = vec![
        SqlValueRef::Integer(1),
        SqlValueRef::Integer(99),
        SqlValueRef::Text(b"text".to_vec()),
    ];
    let got = record_from_row(&names(&["id", "count", "description"]), row, &names(&["id"])).unwrap();
    assert_eq!(got, vec![(s("count"), YamlValue::Integer(99)), (s("description"), s("text"))]);
}

#[test]
fn record_from_row_later_equal_name_moves_last() {
    let row = vec![SqlValueRef::Integer(1), SqlValueRef::Integer(2), SqlValueRef::Integer(3)];
    let got = record_from_row(&names(&["a", "b", "a"]), row, &Vec::new()).unwrap();
    assert_eq!(got, vec![(s("b"), YamlValue::Integer(2)), (s("a"), YamlValue::Integer(3))]);
}

#[test]
fn record_from_row_reports_first_unreadable_column() {
    let row = vec![
        SqlValueRef::Blob(vec![1]),
        SqlValueRef::Integer(2),
        SqlValueRef::Text(vec![0xff]),
    ];
    let got = record_from_row(&names(&["id", "b", "c"]), row, &names(&["id"]));
    assert_eq!(got, Err((2, FromSqlError::InvalidUtf8)));
}

#[test]
fn insert_statement_for_a_record() {
    let entries = vec![(s("description"), s("d")), (s("count"), YamlValue::Integer(3))];
    let (sql, params) = insert_statement_for("test", &entries).unwrap();
    assert_eq!(sql, r#"INSERT INTO "test" ("description", "count") VALUES (?, ?);"#);
    assert_eq!(params, vec![SqlValue::Text("d".to_owned()), SqlValue::Integer(3)]);
    assert!(insert_statement_for("test", &Vec::new()).is_none());
}

#[test]
fn insert_statement_names_only_string_keys() {
    let entries = vec![(YamlValue::Integer(42), s("a")), (s("count"), YamlValue::Integer(3))];
    let (sql, params) = insert_statement_for("test", &entries).unwrap();
    assert_eq!(sql, r#"INSERT INTO "test" ("count") VALUES (?, ?);"#);
    assert_eq!(params.len(), 2);
}

#[test]
fn update_statement_for_a_record() {
    let entries = vec![(s("count"), YamlValue::Integer(28))];
    let (sql, params) = update_statement_for("test", &entries, "id", "1").unwrap();
    assert_eq!(sql, r#"UPDATE "test" SET "count" = ? WHERE "id" = ?;"#);
    assert_eq!(params, vec![SqlValue::Integer(28), SqlValue::Text("1".to_owned())]);
    assert!(update_statement_for("test", &Vec::new(), "id", "1").is_none());
}

#[test]
fn names_are_kept_once() {
    let mut list = Vec::new();
    add_name(&mut list, "a".to_owned());
    add_name(&mut list, "b".to_owned());
    add_name(&mut list, "a".to_owned());
    assert_eq!(list, names(&["a", "b"]));
    assert!(contains_text(&list, &"b".to_owned()));
    assert!(!contains_text(&list, &"c".to_owned()));
}

#[test]
fn column_names_in_table_order() {
    let mut conn = test_db();
    let got = get_column_names(&mut conn, "test").unwrap();
    assert_eq!(got, names(&["id", "count", "weight", "description"]));
}

#[test]
fn insert_filters_the_documents_it_writes() {
    let mut conn = test_db();
    let mut data = vec![YamlValue::Array(vec![
        YamlValue::Hash(vec![(s("count"), YamlValue::Integer(1)), (s("other"), s("x"))]),
        YamlValue::Array(vec![YamlValue::Hash(vec![(s("description"), s("nested"))])]),
        s("not a record"),
    ])];
    insert(&mut conn, "test", &mut data).unwrap();
    assert_eq!(
        data,
        vec![YamlValue::Array(vec![
            YamlValue::Hash(vec![(s("count"), YamlValue::Integer(1))]),
            YamlValue::Array(vec![YamlValue::Hash(vec![(s("description"), s("nested"))])]),
            s("not a record"),
        ])]
    );
    assert_eq!(count_rows(&conn.conn), 2);
}

#[test]
fn insert_refuses_a_record_with_no_column() {
    let mut conn = test_db();
    let mut data = vec![
        YamlValue::Hash(vec![(s("count"), YamlValue::Integer(1))]),
        YamlValue::Array(vec![
            YamlValue::Hash(vec![(s("count"), YamlValue::Integer(2))]),
            YamlValue::Hash(vec![(s("unknown"), YamlValue::Integer(3))]),
        ]),
    ];
    let got = insert(&mut conn, "test", &mut data);
    assert!(matches!(got, Err(YaqliteError::EmptyRecord)));
    // The first document was committed, the second rolled back.
    assert_eq!(count_rows(&conn.conn), 1);
}

#[test]
fn insert_into_missing_table_is_an_sql_error() {
    let mut conn = test_db();
    let mut data = vec![YamlValue::Hash(vec![(s("count"), YamlValue::Integer(1))])];
    let got = insert(&mut conn, "missing", &mut data);
    assert!(matches!(got, Err(YaqliteError::EmptyRecord) | Err(YaqliteError::Sqlite(_))));
}

#[test]
fn written_record_reads_back() {
    let mut conn = test_db();
    let record = vec![
        (s("count"), YamlValue::Integer(-4)),
        (s("description"), s("ünïcode\nlines")),
        (s("weight"), YamlValue::Null),
    ];
    let mut data = vec![YamlValue::Hash(vec![
        (s("count"), YamlValue::Integer(-4)),
        (s("description"), s("ünïcode\nlines")),
        (s("weight"), YamlValue::Null),
    ])];
    insert(&mut conn, "test", &mut data).unwrap();
    let got = select(&mut conn, "test", "1").unwrap();
    let mut expected = record;
    // The table lists its columns as count, weight, description.
    expected.swap(1, 2);
    assert_eq!(got, YamlValue::Hash(expected));
}

#[test]
fn reals_and_booleans_are_stored_as_numbers() {
    let mut conn = test_db();
    let mut data = vec![YamlValue::Hash(vec![
        (s("weight"), YamlValue::Real("2.5".to_owned())),
        (s("count"), YamlValue::Boolean(true)),
    ])];
    insert(&mut conn, "test", &mut data).unwrap();
    let got = select(&mut conn, "test", "1").unwrap();
    assert_eq!(
        got,
        YamlValue::Hash(vec![
            (s("count"), YamlValue::Integer(1)),
            (s("weight"), YamlValue::Real("2.5".to_owned())),
            (s("description"), YamlValue::Null),
        ])
    );
}

#[test]
fn select_of_missing_record_is_null() {
    let mut conn = test_db();
    assert_eq!(select(&mut conn, "test", "7").unwrap(), YamlValue::Null);
    assert_eq!(select_by_column(&mut conn, "test", "id", "7").unwrap(), YamlValue::Null);
}

#[test]
fn select_takes_the_last_matching_row() {
    let mut conn = test_db();
    conn.conn.execute(r#"INSERT INTO "test" (count, description) VALUES (5, 'first'), (5, 'second');"#, [])
        .unwrap();
    let got = select_by_column(&mut conn, "test", "count", "5").unwrap();
    assert_eq!(
        got,
        YamlValue::Hash(vec![
            (s("id"), YamlValue::Integer(2)),
            (s("weight"), YamlValue::Null),
            (s("description"), s("second")),
        ])
    );
}

#[test]
fn select_excluding_can_keep_the_primary_key() {
    let mut conn = test_db();
    conn.conn.execute(r#"INSERT INTO "test" (count) VALUES (3);"#, []).unwrap();
    let got = select_by_column_excluding(&mut conn, "test", "id", "1", Some(&names(&["weight", "description"]))).unwrap();
    assert_eq!(got, YamlValue::Hash(vec![(s("id"), YamlValue::Integer(1)), (s("count"), YamlValue::Integer(3))]));
}

#[test]
fn select_reports_an_unreadable_blob() {
    let mut conn = test_db();
    conn.conn.execute(r#"INSERT INTO "test" (description) VALUES (x'00ff');"#, []).unwrap();
    let got = select(&mut conn, "test", "1");
    assert!(matches!(got, Err(YaqliteError::FromSql(3, FromSqlError::InvalidType))));
}

#[test]
fn update_of_a_non_mapping_changes_nothing() {
    let mut conn = test_db();
    conn.conn.execute(r#"INSERT INTO "test" (count) VALUES (3);"#, []).unwrap();
    let mut doc = YamlValue::Array(vec![YamlValue::Hash(vec![(s("count"), YamlValue::Integer(9))])]);
    update(&mut conn, "test", "1", &mut doc).unwrap();
    let count: i64 = conn.conn.query_row(r#"SELECT count FROM "test";"#, [], |row| row.get(0)).unwrap();
    assert_eq!(count, 3);
}

#[test]
fn update_with_no_column_is_refused() {
    let mut conn = test_db();
    conn.conn.execute(r#"INSERT INTO "test" (count) VALUES (3);"#, []).unwrap();
    let mut doc = YamlValue::Hash(vec![(s("unknown"), YamlValue::Integer(9))]);
    let got = update(&mut conn, "test", "1", &mut doc);
    assert!(matches!(got, Err(YaqliteError::EmptyRecord)));
    assert_eq!(doc, YamlValue::Hash(vec![]));
}

#[test]
fn yaml_errors_map_to_library_errors() {
    assert!(matches!(error_from_yaml(YamlError::EmptyRecord), YaqliteError::EmptyRecord));
}

#[test]
fn io_adapter_writes_the_bytes() {
    let mut out: Vec<u8> = Vec::new();
    {
        let mut adapter = IoAdapter::new(&mut out);
        adapter.write_str("a: ").unwrap();
        adapter.write_str("é").unwrap();
    }
    assert_eq!(out, "a: é".as_bytes());
}
