use yaqlite::database::Database;
use yaml_rust::Yaml;
use yaqlite::update::update;
use yaqlite::yaml::YamlValue;

fn to_value(y: &Yaml) -> YamlValue {
    match y {
        Yaml::Real(s) => YamlValue::Real(s.clone()),
        Yaml::Integer(i) => YamlValue::Integer(*i),
        Yaml::String(s) => YamlValue::Str(s.clone()),
        Yaml::Boolean(b) => YamlValue::Boolean(*b),
        Yaml::Array(items) => YamlValue::Array(items.iter().map(to_value).collect()),
        Yaml::Hash(h) => YamlValue::Hash(h.iter().map(|(k, v)| (to_value(k), to_value(v))).collect()),
        Yaml::Alias(a) => YamlValue::Alias(*a),
        Yaml::Null => YamlValue::Null,
        Yaml::BadValue => YamlValue::BadValue,
    }
}

#[test]
fn updates_database_record_from_yaml() {
    #[derive(Debug, PartialEq)]
    struct TestRecord {
        id: i8,
        count: i16,
        weight: f32,
        description: String,
    }

    let mut conn = Database::new(rusqlite::Connection::open_in_memory().unwrap());

    conn.conn.execute(
        r#"
            CREATE TABLE "test" (
                id INTEGER PRIMARY KEY,
                count INTEGER,
                weight REAL,
                description TEXT
            );
        "#,
        [],
    )
    .unwrap();

    {
        let mut stmt = conn.conn
            .prepare(
                r#"
            INSERT INTO "test"
                (count, weight, description)
            VALUES
                (?, ?, ?);
        "#,
            )
            .unwrap();

        stmt.insert((55_i16, 0.8_f32, "Ounces or grams?")).unwrap();
    }

    let expected = TestRecord {
        id: 1,
        count: 28,
        weight: 1.2,
        description: r#"This is a multiline

description."#
            .to_owned(),
    };

    let yaml_data = yaml_rust::YamlLoader::load_from_str(&format!(
        r#"count: {}
weight: {}
description: |-
  This is a multiline

  description.
"#,
        expected.count, expected.weight,
    ))
    .unwrap();
    let mut yaml_record = to_value(yaml_data.get(0).unwrap());

    update(&mut conn, "test", "1", &mut yaml_record).unwrap();

    {
        let mut stmt = conn.conn
            .prepare(
                r#"
            SELECT
                "id", "count", "weight", "description"
            FROM "test"
            WHERE "id" = 1;
        "#,
            )
            .unwrap();

        let got = stmt
            .query_row([], |row| {
                Ok(TestRecord {
                    id: row.get(0).unwrap(),
                    count: row.get(1).unwrap(),
                    weight: row.get(2).unwrap(),
                    description: row.get(3).unwrap(),
                })
            })
            .unwrap();

        assert_eq!(expected, got);
    }

    conn.into_connection().close().unwrap();
}
