//! The text of the SQL statements the library runs.
use vstd::prelude::*;
use vstd::string::StringExecFns;

verus! {

/// An identifier in double quotes, as the statements name tables and columns.
pub open spec fn quoted(name: Seq<char>) -> Seq<char> {
    "\""@ + name + "\""@
}

/// The texts of a vector of strings.
pub open spec fn texts(names: Seq<String>) -> Seq<Seq<char>> {
    names.map_values(|s: String| s@)
}

/// `"a", "b", "c"`: the quoted names, separated by a comma and a space.
pub open spec fn column_list(names: Seq<Seq<char>>) -> Seq<char>
    decreases names.len(),
{
    if names.len() == 0 {
        Seq::empty()
    } else if names.len() == 1 {
        quoted(names[0])
    } else {
        column_list(names.drop_last()) + ", "@ + quoted(names.last())
    }
}

/// `"a" = ?, "b" = ?`: one assignment of a parameter per name.
pub open spec fn assignment_list(names: Seq<Seq<char>>) -> Seq<char>
    decreases names.len(),
{
    if names.len() == 0 {
        Seq::empty()
    } else if names.len() == 1 {
        quoted(names[0]) + " = ?"@
    } else {
        assignment_list(names.drop_last()) + ", "@ + quoted(names.last()) + " = ?"@
    }
}

/// `s` written `k` times.
pub open spec fn repeated(s: Seq<char>, k: nat) -> Seq<char>
    decreases k,
{
    if k == 0 {
        Seq::empty()
    } else {
        repeated(s, (k - 1) as nat) + s
    }
}

/// `?, ?, ?`: `n` parameter markers (`n` at least one).
pub open spec fn placeholders(n: nat) -> Seq<char> {
    repeated("?, "@, (n - 1) as nat) + "?"@
}

/// The statement that inserts one row: the named columns get the `n`
/// parameters.
pub open spec fn insert_sql(table: Seq<char>, columns: Seq<Seq<char>>, n: nat) -> Seq<char> {
    "INSERT INTO "@ + quoted(table) + " ("@ + column_list(columns) + ") VALUES ("@
        + placeholders(n) + ");"@
}

/// The statement that updates the row whose `key_column` equals the last
/// parameter: the named columns get the parameters before it.
pub open spec fn update_sql(table: Seq<char>, columns: Seq<Seq<char>>, key_column: Seq<char>) -> Seq<char> {
    "UPDATE "@ + quoted(table) + " SET "@ + assignment_list(columns) + " WHERE "@
        + quoted(key_column) + " = ?;"@
}

/// The query for the rows of `table` whose `key_column` equals the named
/// parameter `:pk`.
pub open spec fn select_sql(table: Seq<char>, key_column: Seq<char>) -> Seq<char> {
    "SELECT * FROM "@ + quoted(table) + " WHERE "@ + quoted(key_column) + " = :pk;"@
}

/// The query for the names of the columns of `table`.
pub open spec fn column_names_sql(table: Seq<char>) -> Seq<char> {
    "SELECT \"name\" FROM pragma_table_info("@ + quoted(table) + ");"@
}

/// The query for the names of the primary-key columns of the table named by
/// the parameter `:table`.
pub open spec fn primary_key_sql() -> Seq<char> {
    "SELECT \"name\" FROM pragma_table_info(:table) WHERE \"pk\" != 0;"@
}

/// Appends `name` in double quotes.
fn push_quoted(out: &mut String, name: &str)
    ensures
        final(out)@ == old(out)@ + quoted(name@),
{
    out.append("\"");
    out.append(name);
    out.append("\"");
    assert(final(out)@ =~= old(out)@ + quoted(name@));
}

/// The quoted names, separated by commas.
pub fn build_column_list(names: &Vec<String>) -> (r: String)
    ensures
        r@ == column_list(texts(names@)),
{
    let mut out = String::new();
    let n = names.len();
    let mut i: usize = 0;
    while i < n
        invariant
            n == names@.len(),
            i <= n,
            out@ == column_list(texts(names@.take(i as int))),
        decreases n - i,
    {
        let ghost before = texts(names@.take(i as int));
        if i > 0 {
            out.append(", ");
        }
        push_quoted(&mut out, names[i].as_str());
        proof {
            let after = texts(names@.take(i + 1));
            assert(after.drop_last() =~= before);
            assert(after.last() == names@[i as int]@);
            assert(out@ =~= column_list(after));
        }
        i = i + 1;
    }
    assert(names@.take(n as int) =~= names@);
    out
}

/// One `"name" = ?` assignment per name, separated by commas.
pub fn build_assignment_list(names: &Vec<String>) -> (r: String)
    ensures
        r@ == assignment_list(texts(names@)),
{
    let mut out = String::new();
    let n = names.len();
    let mut i: usize = 0;
    while i < n
        invariant
            n == names@.len(),
            i <= n,
            out@ == assignment_list(texts(names@.take(i as int))),
        decreases n - i,
    {
        let ghost before = texts(names@.take(i as int));
        if i > 0 {
            out.append(", ");
        }
        push_quoted(&mut out, names[i].as_str());
        out.append(" = ?");
        proof {
            let after = texts(names@.take(i + 1));
            assert(after.drop_last() =~= before);
            assert(after.last() == names@[i as int]@);
            assert(out@ =~= assignment_list(after));
        }
        i = i + 1;
    }
    assert(names@.take(n as int) =~= names@);
    out
}

/// `n` parameter markers separated by commas (`n` at least one).
pub fn build_placeholders(n: usize) -> (r: String)
    requires
        n >= 1,
    ensures
        r@ == placeholders(n as nat),
{
    let mut out = String::new();
    let mut k: usize = 0;
    while k < n - 1
        invariant
            n >= 1,
            k <= n - 1,
            out@ == repeated("?, "@, k as nat),
        decreases n - 1 - k,
    {
        out.append("?, ");
        k = k + 1;
    }
    out.append("?");
    out
}

/// The statement that inserts `n` parameters into the named columns of
/// `table`.
pub fn insert_statement(table: &str, columns: &Vec<String>, n: usize) -> (r: String)
    requires
        n >= 1,
    ensures
        r@ == insert_sql(table@, texts(columns@), n as nat),
{
    let list = build_column_list(columns);
    let marks = build_placeholders(n);
    let mut out = String::new();
    out.append("INSERT INTO ");
    push_quoted(&mut out, table);
    out.append(" (");
    out.append(list.as_str());
    out.append(") VALUES (");
    out.append(marks.as_str());
    out.append(");");
    assert(out@ =~= insert_sql(table@, texts(columns@), n as nat));
    out
}

/// The statement that sets the named columns of the row of `table` whose
/// `key_column` equals the last parameter.
pub fn update_statement(table: &str, columns: &Vec<String>, key_column: &str) -> (r: String)
    ensures
        r@ == update_sql(table@, texts(columns@), key_column@),
{
    let list = build_assignment_list(columns);
    let mut out = String::new();
    out.append("UPDATE ");
    push_quoted(&mut out, table);
    out.append(" SET ");
    out.append(list.as_str());
    out.append(" WHERE ");
    push_quoted(&mut out, key_column);
    out.append(" = ?;");
    assert(out@ =~= update_sql(table@, texts(columns@), key_column@));
    out
}

/// The query for the rows of `table` whose `key_column` equals `:pk`.
pub fn select_statement(table: &str, key_column: &str) -> (r: String)
    ensures
        r@ == select_sql(table@, key_column@),
{
    let mut out = String::new();
    out.append("SELECT * FROM ");
    push_quoted(&mut out, table);
    out.append(" WHERE ");
    push_quoted(&mut out, key_column);
    out.append(" = :pk;");
    assert(out@ =~= select_sql(table@, key_column@));
    out
}

/// The query for the column names of `table`.
pub fn column_names_statement(table: &str) -> (r: String)
    ensures
        r@ == column_names_sql(table@),
{
    let mut out = String::new();
    out.append("SELECT \"name\" FROM pragma_table_info(");
    push_quoted(&mut out, table);
    out.append(");");
    assert(out@ =~= column_names_sql(table@));
    out
}

/// The query for the names of the columns that `SELECT *` gives for
/// `table`, in their order: every column that is not hidden, by index.
pub open spec fn result_columns_sql(table: Seq<char>) -> Seq<char> {
    "SELECT \"name\" FROM pragma_table_xinfo("@ + quoted(table) + ") WHERE \"hidden\" != 1 ORDER BY \"cid\";"@
}

/// The query for the names of the columns that `SELECT *` gives for
/// `table`, in their order.
pub fn result_columns_statement(table: &str) -> (r: String)
    ensures
        r@ == result_columns_sql(table@),
{
    let mut out = String::new();
    out.append("SELECT \"name\" FROM pragma_table_xinfo(");
    push_quoted(&mut out, table);
    out.append(") WHERE \"hidden\" != 1 ORDER BY \"cid\";");
    assert(out@ =~= result_columns_sql(table@));
    out
}

/// The query for the primary-key column names of the table `:table`.
pub fn primary_key_statement() -> (r: &'static str)
    ensures
        r@ == primary_key_sql(),
{
    "SELECT \"name\" FROM pragma_table_info(:table) WHERE \"pk\" != 0;"
}

} // verus!
