//! Statement classification, the fixed statement texts the manager issues,
//! and assembly of query results from what the driver returned.

use vstd::prelude::*;
use crate::manager::QueryResult;
use crate::text::{append_dec_u64, dec_digits};
use crate::value::{encode_value, spec_encode, GenericValue, NativeValue};

verus! {

/// The whitespace the classifier strips from the front of a statement.
pub open spec fn is_space_char(c: char) -> bool {
    c == ' ' || c == '\t' || c == '\n' || c == '\r'
}

/// A statement with its leading whitespace stripped.
pub open spec fn skip_spaces(s: Seq<char>) -> Seq<char>
    decreases s.len(),
{
    if s.len() > 0 && is_space_char(s[0]) {
        skip_spaces(s.drop_first())
    } else {
        s
    }
}

/// Case-insensitive match of one character against an ASCII lower-case
/// letter.
pub open spec fn eq_ci(c: char, lower: char) -> bool {
    c == lower || (c as int) + 32 == (lower as int)
}

/// The keyword that classifies a statement as a read.
pub open spec fn select_keyword() -> Seq<char> {
    seq!['s', 'e', 'l', 'e', 'c', 't']
}

/// Whether a statement is classified as a read: after stripping leading
/// whitespace and folding case, its text starts with `select`. This is a
/// heuristic, not a parser: any statement that begins so is treated as a
/// read, whatever follows.
pub open spec fn spec_is_select(q: Seq<char>) -> bool {
    let t = skip_spaces(q);
    t.len() >= 6 && (forall|i: int| 0 <= i < 6 ==> eq_ci(t[i], select_keyword()[i]))
}

/// Case-insensitive comparison of one character with an ASCII lower-case
/// letter.
fn char_eq_ci(c: char, lower: char) -> (r: bool)
    ensures
        r == eq_ci(c, lower),
{
    c == lower || (c as u32) + 32 == (lower as u32)
}

/// Whether the character at `i` is whitespace the classifier strips.
fn space_at(s: &str, i: usize) -> (r: bool)
    requires
        i < s@.len(),
    ensures
        r == is_space_char(s@[i as int]),
{
    let c = s.get_char(i);
    c == ' ' || c == '\t' || c == '\n' || c == '\r'
}

/// Classify a statement: `true` exactly when its trimmed, case-folded text
/// starts with the `select` keyword.
pub fn is_select_statement(sql: &str) -> (r: bool)
    ensures
        r == spec_is_select(sql@),
{
    let len = sql.unicode_len();
    let mut i: usize = 0;
    proof {
        assert(sql@.skip(0) =~= sql@);
    }
    while i < len && space_at(sql, i)
        invariant
            len == sql@.len(),
            i <= len,
            skip_spaces(sql@) == skip_spaces(sql@.skip(i as int)),
        decreases len - i,
    {
        proof {
            assert(sql@.skip(i as int).drop_first() =~= sql@.skip(i as int + 1));
        }
        i = i + 1;
    }
    proof {
        assert(skip_spaces(sql@) == sql@.skip(i as int));
    }
    let ghost t = skip_spaces(sql@);
    if len - i < 6 {
        return false;
    }
    proof {
        assert(t.len() == len - i);
    }
    let r = char_eq_ci(sql.get_char(i), 's') && char_eq_ci(sql.get_char(i + 1), 'e')
        && char_eq_ci(sql.get_char(i + 2), 'l') && char_eq_ci(sql.get_char(i + 3), 'e')
        && char_eq_ci(sql.get_char(i + 4), 'c') && char_eq_ci(sql.get_char(i + 5), 't');
    proof {
        assert(forall|k: int| 0 <= k < 6 ==> t[k] == sql@[i + k]);
        if r {
            assert forall|k: int| 0 <= k < 6 implies eq_ci(t[k], select_keyword()[k]) by {
                if k == 0 {
                } else if k == 1 {
                } else if k == 2 {
                } else if k == 3 {
                } else if k == 4 {
                } else {
                    assert(k == 5);
                }
            }
        } else {
            assert(!spec_is_select(sql@)) by {
                if spec_is_select(sql@) {
                    assert(eq_ci(t[0], select_keyword()[0]));
                    assert(eq_ci(t[1], select_keyword()[1]));
                    assert(eq_ci(t[2], select_keyword()[2]));
                    assert(eq_ci(t[3], select_keyword()[3]));
                    assert(eq_ci(t[4], select_keyword()[4]));
                    assert(eq_ci(t[5], select_keyword()[5]));
                }
            }
        }
    }
    r
}

/// The introspection statement that lists databases.
pub fn show_databases_statement() -> (r: String)
    ensures
        r@ == "SHOW DATABASES"@,
{
    String::from_str("SHOW DATABASES")
}

/// The introspection statement that lists the tables of the selected schema.
pub fn show_tables_statement() -> (r: String)
    ensures
        r@ == "SHOW TABLES"@,
{
    String::from_str("SHOW TABLES")
}

/// The statement that selects `schema` before listing tables or reading
/// table data. The schema name is interpolated as given, neither quoted nor
/// validated.
pub fn use_statement(schema: &str) -> (r: String)
    ensures
        r@ == "USE "@ + schema@,
{
    let mut s = String::from_str("USE ");
    s.append(schema);
    s
}

/// The quoted, terminated schema selection issued on a fresh connection,
/// where pool-level schema selection is unreliable.
pub fn use_statement_quoted(schema: &str) -> (r: String)
    ensures
        r@ == "USE `"@ + schema@ + "`;"@,
{
    let mut s = String::from_str("USE `");
    s.append(schema);
    s.append("`;");
    s
}

/// The bounded read of a whole table: `SELECT * FROM <table> LIMIT <limit>`.
/// The table name is interpolated as given; the engine enforces the bound.
pub fn table_data_query(table: &str, limit: usize) -> (r: String)
    ensures
        r@ == "SELECT * FROM "@ + table@ + " LIMIT "@ + dec_digits(limit as nat),
{
    let mut s = String::from_str("SELECT * FROM ");
    s.append(table);
    s.append(" LIMIT ");
    append_dec_u64(&mut s, limit as u64);
    proof {
        assert(s@ =~= "SELECT * FROM "@ + table@ + " LIMIT "@ + dec_digits(limit as nat));
    }
    s
}

/// Assemble the result of a read statement: the column names are kept in
/// their emitted order, every native value is encoded through the value
/// codec, each row maps the column names to its values in column order, and
/// a read statement always reports zero affected rows.
pub fn build_read_result(columns: Vec<String>, native_rows: Vec<Vec<NativeValue>>) -> (r:
    QueryResult)
    requires
        forall|i: int| 0 <= i < native_rows@.len() ==> (#[trigger] native_rows@[i])@.len()
            == columns@.len(),
    ensures
        r.affected_rows == 0,
        r.columns == columns,
        r.rows@.len() == native_rows@.len(),
        forall|i: int| 0 <= i < r.rows@.len() ==> (#[trigger] r.rows@[i])@.len() == columns@.len(),
        forall|i: int, j: int|
            0 <= i < r.rows@.len() && 0 <= j < columns@.len() ==> ((#[trigger] r.rows@[i]@[j]).0@
                == columns@[j]@ && r.rows@[i]@[j].1@ == spec_encode(native_rows@[i]@[j])),
{
    let mut rows: Vec<Vec<(String, GenericValue)>> = Vec::new();
    let n = native_rows.len();
    let mut i: usize = 0;
    while i < n
        invariant
            n == native_rows@.len(),
            i <= n,
            forall|a: int| 0 <= a < n ==> (#[trigger] native_rows@[a])@.len() == columns@.len(),
            rows@.len() == i,
            forall|a: int| 0 <= a < i ==> (#[trigger] rows@[a])@.len() == columns@.len(),
            forall|a: int, b: int|
                0 <= a < i && 0 <= b < columns@.len() ==> ((#[trigger] rows@[a]@[b]).0@
                    == columns@[b]@ && rows@[a]@[b].1@ == spec_encode(native_rows@[a]@[b])),
        decreases n - i,
    {
        let native = &native_rows[i];
        let m = columns.len();
        let mut row: Vec<(String, GenericValue)> = Vec::new();
        let mut j: usize = 0;
        while j < m
            invariant
                m == columns@.len(),
                j <= m,
                native@ == native_rows@[i as int]@,
                native@.len() == m,
                row@.len() == j,
                forall|b: int|
                    0 <= b < j ==> ((#[trigger] row@[b]).0@ == columns@[b]@ && row@[b].1@
                        == spec_encode(native@[b])),
            decreases m - j,
        {
            let name = columns[j].clone();
            let value = encode_value(&native[j]);
            row.push((name, value));
            j = j + 1;
        }
        rows.push(row);
        i = i + 1;
    }
    QueryResult { columns, rows, affected_rows: 0 }
}

/// Assemble the result of a write statement: no columns, no rows, and the
/// engine's report of how many rows changed.
pub fn build_write_result(affected_rows: u64) -> (r: QueryResult)
    ensures
        r.affected_rows == affected_rows,
        r.columns@.len() == 0,
        r.rows@.len() == 0,
{
    QueryResult { columns: Vec::new(), rows: Vec::new(), affected_rows }
}

} // verus!
