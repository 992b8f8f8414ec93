//! Behaviour of statement classification, statement texts, and result
//! assembly.

use you_my_sql::query::{
    build_read_result, build_write_result, is_select_statement, show_databases_statement,
    show_tables_statement, table_data_query, use_statement, use_statement_quoted,
};
use you_my_sql::value::{GenericValue, NativeValue};

#[test]
fn classifies_plain_select() {
    assert!(is_select_statement("select 1"));
    assert!(is_select_statement("SELECT * FROM t"));
    assert!(is_select_statement("SeLeCt x"));
}

#[test]
fn classifies_select_after_whitespace() {
    assert!(is_select_statement("   select 1"));
    assert!(is_select_statement("\t\n\r select 1"));
}

#[test]
fn classifies_non_select_as_write() {
    assert!(!is_select_statement("UPDATE t SET x = 1"));
    assert!(!is_select_statement("insert into t values (1)"));
    assert!(!is_select_statement("  delete from t"));
    assert!(!is_select_statement("sel"));
    assert!(!is_select_statement(""));
    assert!(!is_select_statement("   "));
}

#[test]
fn select_prefix_of_longer_word_still_counts() {
    // The classifier is a heuristic on the leading keyword's six letters.
    assert!(is_select_statement("selection"));
}

#[test]
fn statement_texts() {
    assert_eq!(show_databases_statement(), "SHOW DATABASES");
    assert_eq!(show_tables_statement(), "SHOW TABLES");
    assert_eq!(use_statement("sales"), "USE sales");
    assert_eq!(use_statement_quoted("sales"), "USE `sales`;");
    assert_eq!(
        table_data_query("orders", 10),
        "SELECT * FROM orders LIMIT 10"
    );
    assert_eq!(table_data_query("t", 0), "SELECT * FROM t LIMIT 0");
}

#[test]
fn read_result_has_zero_affected_rows() {
    let columns = vec![String::from("id"), String::from("name")];
    let rows = vec![
        vec![NativeValue::Int(1), NativeValue::Bytes(b"ada".to_vec())],
        vec![NativeValue::Int(2), NativeValue::Null],
    ];
    let result = build_read_result(columns, rows);
    assert_eq!(result.affected_rows, 0);
    assert_eq!(result.columns, vec!["id", "name"]);
    assert_eq!(result.rows.len(), 2);
    assert_eq!(
        result.rows[0],
        vec![
            (String::from("id"), GenericValue::Num(1)),
            (String::from("name"), GenericValue::Str(String::from("ada"))),
        ]
    );
    assert_eq!(
        result.rows[1],
        vec![
            (String::from("id"), GenericValue::Num(2)),
            (String::from("name"), GenericValue::Null),
        ]
    );
}

#[test]
fn read_result_with_no_rows() {
    let columns = vec![String::from("id")];
    let result = build_read_result(columns, Vec::new());
    assert_eq!(result.affected_rows, 0);
    assert_eq!(result.columns, vec!["id"]);
    assert!(result.rows.is_empty());
}

#[test]
fn write_result_has_no_columns_and_no_rows() {
    let result = build_write_result(5);
    assert_eq!(result.affected_rows, 5);
    assert!(result.columns.is_empty());
    assert!(result.rows.is_empty());
}
