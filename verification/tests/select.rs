use yaqlite::database::Database;
use yaqlite::select;
use yaqlite::yaml::YamlValue;

#[test]
fn select_extracts_a_database_record_as_yaml() {
    struct TestRecord {
        count: i16,
        description: String,
    }

    let record = TestRecord {
        count: 99,
        description: "This is a test.

With multiple paragraphs."
            .to_owned(),
    };

    let expected = YamlValue::Hash(vec![
        (YamlValue::Str("count".to_owned()), YamlValue::Integer(record.count.into())),
        (YamlValue::Str("description".to_owned()), YamlValue::Str(record.description.clone())),
    ]);

    let mut conn = Database::new(rusqlite::Connection::open_in_memory().unwrap());

    conn.conn.execute(
        r#"
            CREATE TABLE "test" (
                id INTEGER PRIMARY KEY,
                count INTEGER,
                description TEXT
            );
        "#,
        [],
    )
    .unwrap();

    {
        let mut stmt = conn.conn
            .prepare(
                r#"
            INSERT INTO "test"
                (count, description)
            VALUES
                (?, ?);
        "#,
            )
            .unwrap();

        stmt.insert((record.count, record.description.as_str())).unwrap();
        drop(stmt);

        let got = select(&mut conn, "test", "1").unwrap();

        assert_eq!(expected, got);
    }

    conn.into_connection().close().unwrap();
}
