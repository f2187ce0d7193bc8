use scroll_layout::database::{cell, is_read_query, Column, Constraint, ForeignKey, Index, PostgresPool};

fn some(s: &str) -> Option<String> {
    Some(s.to_string())
}

#[test]
fn constraint_row() {
    let row = Constraint { name: "pk".to_string(), column_name: "id".to_string() };
    assert_eq!(row.fields(), vec!["name", "column_name"]);
    assert_eq!(row.columns(), vec!["pk", "id"]);
}

#[test]
fn column_row_shows_missing_cells_as_empty() {
    let row = Column {
        name: some("column_1"),
        data_type: some("type"),
        null: None,
        default: some("default_value"),
        comment: None,
    };
    assert_eq!(row.fields(), vec!["name", "type", "null", "default", "comment"]);
    assert_eq!(row.columns(), vec!["column_1", "type", "", "default_value", ""]);
}

#[test]
fn foreign_key_row() {
    let row = ForeignKey { name: some("fk"), column_name: None, ref_table: some("t"), ref_column: some("c") };
    assert_eq!(row.fields(), vec!["name", "column_name", "ref_table", "ref_column"]);
    assert_eq!(row.columns(), vec!["fk", "", "t", "c"]);
}

#[test]
fn index_row() {
    let row = Index { name: some("idx"), column_name: some("id"), index_type: None };
    assert_eq!(row.fields(), vec!["name", "column_name", "type"]);
    assert_eq!(row.columns(), vec!["idx", "id", ""]);
}

#[test]
fn cell_of_an_optional_value() {
    assert_eq!(cell(&some("x")), "x");
    assert_eq!(cell(&None), "");
}

#[test]
fn pool_has_its_name() {
    assert_eq!(PostgresPool::new("postgres://localhost").name(), "Fake");
}

#[test]
fn select_queries_read_rows() {
    assert!(is_read_query("SELECT * FROM t"));
    assert!(is_read_query("  select 1\n"));
    assert!(is_read_query("Select"));
    assert!(!is_read_query("selec"));
    assert!(!is_read_query("UPDATE t SET a = 1"));
    assert!(!is_read_query("x SELECT"));
    assert!(!is_read_query(""));
}
