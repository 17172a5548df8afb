use yaqlite::database::Database;
use yaqlite::sqlite::table_primary_key_column;

#[test]
fn table_primary_key_column_gets_primary_key_name() {
    let mut conn = Database::new(rusqlite::Connection::open_in_memory().unwrap());

    conn.conn.execute(
        r#"
            CREATE TABLE "test" (
                id INTEGER PRIMARY KEY,
                count INTEGER
            );
        "#,
        [],
    )
    .unwrap();

    let column_name = table_primary_key_column(&mut conn, "test").unwrap();

    assert_eq!("id", column_name);

    conn.into_connection().close().unwrap();
}
