use excel_loader::cell::Cell;
use excel_loader::schema::{Column, StorageType};
use excel_loader::statement::{
    create_table_statement, drop_table_statement, insert_statement, push_tuple, SchemaError,
    TABLE_LISTING_QUERY,
};

fn column(name: &str, storage: StorageType) -> Column {
    Column { name: name.to_string(), storage }
}

fn word(s: &str) -> Cell {
    Cell::Text(s.to_string())
}

#[test]
fn creation_lists_names_and_types() {
    let columns = vec![
        column("Id", StorageType::BigInt),
        column("First_Name", StorageType::Varchar),
        column("Amount", StorageType::Double),
    ];
    assert_eq!(
        create_table_statement("book_Sheet1", &columns),
        Ok("CREATE OR REPLACE TABLE book_Sheet1 (Id BIGINT, First_Name VARCHAR, Amount DOUBLE)"
            .to_string())
    );
}

#[test]
fn creation_of_one_column() {
    let columns = vec![column("seen", StorageType::Timestamp)];
    assert_eq!(
        create_table_statement("t", &columns),
        Ok("CREATE OR REPLACE TABLE t (seen TIMESTAMP)".to_string())
    );
    let columns = vec![column("ok", StorageType::Boolean)];
    assert_eq!(
        create_table_statement("_", &columns),
        Ok("CREATE OR REPLACE TABLE _ (ok BOOLEAN)".to_string())
    );
}

#[test]
fn creation_without_columns_is_refused() {
    let columns: Vec<Column> = Vec::new();
    assert_eq!(create_table_statement("t", &columns), Err(SchemaError::NoColumns));
    assert_eq!(create_table_statement("", &columns), Err(SchemaError::NoColumns));
}

#[test]
fn creation_under_an_unusable_table_name_is_refused() {
    let columns = vec![column("a", StorageType::Varchar)];
    assert_eq!(create_table_statement("", &columns), Err(SchemaError::InvalidTableName));
    assert_eq!(create_table_statement("my table", &columns), Err(SchemaError::InvalidTableName));
    assert_eq!(
        create_table_statement("t; DROP TABLE x", &columns),
        Err(SchemaError::InvalidTableName)
    );
    let bad = vec![column("", StorageType::Varchar)];
    assert_eq!(create_table_statement("my table", &bad), Err(SchemaError::InvalidTableName));
}

#[test]
fn creation_with_an_unusable_column_name_is_refused() {
    let columns = vec![
        column("a", StorageType::Varchar),
        column("", StorageType::Varchar),
        column("c d", StorageType::Varchar),
    ];
    assert_eq!(
        create_table_statement("t", &columns),
        Err(SchemaError::InvalidColumnName { index: 1 })
    );
    let columns = vec![column("a b", StorageType::BigInt)];
    assert_eq!(
        create_table_statement("t", &columns),
        Err(SchemaError::InvalidColumnName { index: 0 })
    );
}

#[test]
fn short_rows_are_padded_and_long_rows_cut() {
    let rows = vec![vec![Cell::Int(1)]];
    assert_eq!(insert_statement("t", &rows, 3), "INSERT INTO t VALUES (1, NULL, NULL)");
    let rows = vec![vec![Cell::Int(1), Cell::Int(2), Cell::Int(3), Cell::Int(4)]];
    assert_eq!(insert_statement("t", &rows, 3), "INSERT INTO t VALUES (1, 2, 3)");
}

#[test]
fn rows_fit_the_width_one_by_one() {
    let mut out = String::new();
    push_tuple(&mut out, &[Cell::Int(1)], 3);
    assert_eq!(out, "(1, NULL, NULL)");
    let mut out = String::new();
    push_tuple(&mut out, &[Cell::Int(1), Cell::Int(2), Cell::Int(3), Cell::Int(4)], 3);
    assert_eq!(out, "(1, 2, 3)");
    let mut out = String::new();
    push_tuple(&mut out, &[], 2);
    assert_eq!(out, "(NULL, NULL)");
    let mut out = String::new();
    push_tuple(&mut out, &[Cell::Int(1)], 0);
    assert_eq!(out, "()");
    let mut out = "VALUES ".to_string();
    push_tuple(&mut out, &[word("a")], 1);
    assert_eq!(out, "VALUES ('a')");
}

#[test]
fn insertion_carries_every_row_in_order() {
    let rows = vec![
        vec![Cell::Int(1), word("Ann"), Cell::Float("12.5".to_string())],
        vec![Cell::Int(2), word("O'Brien"), Cell::Empty],
        vec![Cell::Bool(true), Cell::Error("#N/A".to_string())],
    ];
    assert_eq!(
        insert_statement("book_Sheet1", &rows, 3),
        "INSERT INTO book_Sheet1 VALUES (1, 'Ann', 12.5), (2, 'O''Brien', NULL), (true, NULL, NULL)"
    );
}

#[test]
fn insertion_of_no_rows_has_no_tuple() {
    let rows: Vec<Vec<Cell>> = Vec::new();
    assert_eq!(insert_statement("t", &rows, 2), "INSERT INTO t VALUES ");
}

#[test]
fn drops_quote_the_table_name() {
    assert_eq!(drop_table_statement("old_table"), "DROP TABLE IF EXISTS \"old_table\"");
    assert_eq!(drop_table_statement("my table"), "DROP TABLE IF EXISTS \"my table\"");
}

#[test]
fn tables_are_listed_by_one_query() {
    assert_eq!(TABLE_LISTING_QUERY, "SELECT name FROM sqlite_master WHERE type='table'");
}
