yaqlite
=======

A bridge between YAML and SQLite: YAML records are inserted into a table as
rows, a row is selected as a YAML record, and a row is updated from a record.

The library under `src/` is written in Verus and proved against its
contracts:

- `statement`: the text of every SQL statement the library runs;
- `yaml`: the YAML node model, the filtering of a record to the table's
  columns, and the conversions between YAML nodes and SQL values;
- `sqlite`: the questions asked of a table (its columns, its primary key);
- `insert`, `update`, `select`: the three operations;
- `database`: an open database together with the record (`SqlLog`) of
  every statement the library handed to SQLite on it and what SQLite
  answered; the contracts of the operations are stated over this record;
- `laws`: properties of the library as a whole, such as that a record
  written as a row reads back as the same record;
- `db`: the calls into `rusqlite`, whose contracts are trusted; each adds
  to the record what it handed over and what it read back.

`app/` holds the command line (`insert`, `update`, `select`), which loads
and emits YAML with `yaml-rust`.
