use excel_loader::cell::Cell;
use excel_loader::statement::SchemaError;
use excel_loader::task::{Action, Event, FileTask, LoadError, LoadResult, Phase};

fn cell(s: &str) -> Cell {
    Cell::Text(s.to_string())
}

fn names(list: &[&str]) -> Vec<String> {
    list.iter().map(|s| s.to_string()).collect()
}

fn opened(file: &str, sheets: &[&str]) -> FileTask {
    FileTask::new(file).handle(Event::Opened { sheet_names: names(sheets) })
}

fn execute(statement: &str) -> Action {
    Action::Execute { statement: statement.to_string() }
}

fn read(name: &str) -> Action {
    Action::ReadSheet { name: name.to_string() }
}

fn rejected(message: &str) -> Event {
    Event::Rejected { message: message.to_string() }
}

fn numbered_rows(data_rows: usize) -> Vec<Vec<Cell>> {
    let mut rows = vec![vec![cell("n")]];
    for i in 0..data_rows {
        rows.push(vec![Cell::Int(i as i64)]);
    }
    rows
}

fn count_tuples(statement: &str) -> usize {
    statement.matches('(').count()
}

#[test]
fn a_task_starts_by_opening_the_file() {
    let task = FileTask::new("book");
    assert_eq!(task.phase(), Phase::Opening);
    assert_eq!(task.next_action(), Action::OpenFile);
}

#[test]
fn a_file_that_does_not_open_ends_the_task() {
    let task = FileTask::new("broken").handle(Event::OpenFailed {
        message: "Cannot open file".to_string(),
    });
    assert_eq!(task.phase(), Phase::Finished);
    assert_eq!(task.next_action(), Action::Finish);
    assert_eq!(
        task.into_result(),
        LoadResult::OpenFailed {
            file: "broken".to_string(),
            message: "Cannot open file".to_string(),
        }
    );
}

#[test]
fn a_file_without_sheets_loads_nothing() {
    let task = opened("empty", &[]);
    assert_eq!(task.next_action(), Action::Finish);
    assert_eq!(task.into_result(), LoadResult::Loaded { sheets: 0, failures: vec![] });
}

#[test]
fn sheets_are_read_in_the_order_given() {
    let task = opened("book", &["Second", "First"]);
    assert_eq!(task.phase(), Phase::Reading);
    assert_eq!(task.next_action(), read("Second"));
    let task = task.handle(Event::SheetRead { rows: vec![] });
    assert_eq!(task.next_action(), read("First"));
    let task = task.handle(Event::SheetRead { rows: vec![] });
    assert_eq!(task.next_action(), Action::Finish);
}

#[test]
fn a_sheet_without_header_gets_no_table() {
    let task = opened("book", &["Blank"]);
    let task = task.handle(Event::SheetRead { rows: vec![] });
    assert_eq!(task.phase(), Phase::Finished);
    assert_eq!(task.next_action(), Action::Finish);
    assert_eq!(task.into_result(), LoadResult::Loaded { sheets: 0, failures: vec![] });
}

#[test]
fn a_header_alone_gets_an_empty_table() {
    let task = opened("book", &["Sheet 1"]);
    let task = task.handle(Event::SheetRead {
        rows: vec![vec![cell("Id"), cell("First Name"), cell("Amount")]],
    });
    assert_eq!(task.phase(), Phase::Creating);
    assert_eq!(
        task.next_action(),
        execute(
            "CREATE OR REPLACE TABLE book_Sheet_1 (Id VARCHAR, First_Name VARCHAR, Amount VARCHAR)"
        )
    );
    let task = task.handle(Event::Accepted);
    assert_eq!(task.phase(), Phase::Finished);
    assert_eq!(task.next_action(), Action::Finish);
    assert_eq!(task.into_result(), LoadResult::Loaded { sheets: 1, failures: vec![] });
}

#[test]
fn a_small_sheet_is_created_then_inserted_once() {
    let task = opened("sales 2024", &["Q1"]);
    let task = task.handle(Event::SheetRead {
        rows: vec![
            vec![cell("Id"), cell("First Name"), cell("Amount")],
            vec![Cell::Int(1), cell("Ann"), Cell::Float("12.5".to_string())],
            vec![Cell::Int(2)],
            vec![Cell::Int(3), cell("Cy"), Cell::Float("0.5".to_string()), cell("extra")],
        ],
    });
    assert_eq!(
        task.next_action(),
        execute(
            "CREATE OR REPLACE TABLE sales_2024_Q1 (Id BIGINT, First_Name VARCHAR, Amount DOUBLE)"
        )
    );
    let task = task.handle(Event::Accepted);
    assert_eq!(task.phase(), Phase::Inserting);
    assert_eq!(
        task.next_action(),
        execute(
            "INSERT INTO sales_2024_Q1 VALUES (1, 'Ann', 12.5), (2, NULL, NULL), (3, 'Cy', 0.5)"
        )
    );
    let task = task.handle(Event::Accepted);
    assert_eq!(task.next_action(), Action::Finish);
    assert_eq!(task.into_result(), LoadResult::Loaded { sheets: 1, failures: vec![] });
}

#[test]
fn asking_twice_gives_the_same_action() {
    let task = opened("book", &["S"]);
    let task = task.handle(Event::SheetRead { rows: numbered_rows(3) });
    assert_eq!(task.next_action(), task.next_action());
    let task = task.handle(Event::Accepted);
    assert_eq!(task.next_action(), task.next_action());
    assert_eq!(task.next_action(), execute("INSERT INTO book_S VALUES (0), (1), (2)"));
}

#[test]
fn a_large_sheet_is_inserted_chunk_by_chunk() {
    let task = opened("big", &["Data"]);
    let task = task.handle(Event::SheetRead { rows: numbered_rows(2500) });
    assert_eq!(task.next_action(), execute("CREATE OR REPLACE TABLE big_Data (n BIGINT)"));
    let mut task = task.handle(Event::Accepted);
    let mut sizes = Vec::new();
    let mut firsts = Vec::new();
    while task.phase() == Phase::Inserting {
        match task.next_action() {
            Action::Execute { statement } => {
                assert!(statement.starts_with("INSERT INTO big_Data VALUES ("));
                sizes.push(count_tuples(&statement));
                let first = statement
                    .trim_start_matches("INSERT INTO big_Data VALUES (")
                    .split(')')
                    .next()
                    .unwrap()
                    .to_string();
                firsts.push(first);
            }
            other => panic!("unexpected action {:?}", other),
        }
        task = task.handle(Event::Accepted);
    }
    assert_eq!(sizes, vec![1000, 1000, 500]);
    assert_eq!(firsts, vec!["0", "1000", "2000"]);
    assert_eq!(task.into_result(), LoadResult::Loaded { sheets: 1, failures: vec![] });
}

#[test]
fn exactly_a_thousand_rows_make_one_chunk() {
    let task = opened("big", &["Data"]);
    let task = task.handle(Event::SheetRead { rows: numbered_rows(1000) });
    let task = task.handle(Event::Accepted);
    match task.next_action() {
        Action::Execute { statement } => {
            assert_eq!(count_tuples(&statement), 1000);
            assert!(statement.ends_with("(999)"));
        }
        other => panic!("unexpected action {:?}", other),
    }
    let task = task.handle(Event::Accepted);
    assert_eq!(task.phase(), Phase::Finished);
}

#[test]
fn one_row_more_makes_a_second_chunk() {
    let task = opened("big", &["Data"]);
    let task = task.handle(Event::SheetRead { rows: numbered_rows(1001) });
    let task = task.handle(Event::Accepted);
    let task = task.handle(Event::Accepted);
    assert_eq!(task.phase(), Phase::Inserting);
    assert_eq!(task.next_action(), execute("INSERT INTO big_Data VALUES (1000)"));
    let task = task.handle(Event::Accepted);
    assert_eq!(task.phase(), Phase::Finished);
}

#[test]
fn a_refused_chunk_ends_its_sheet_only() {
    let task = opened("book", &["Bad", "Good"]);
    let task = task.handle(Event::SheetRead { rows: numbered_rows(2500) });
    let task = task.handle(Event::Accepted);
    let task = task.handle(Event::Accepted);
    assert_eq!(task.phase(), Phase::Inserting);
    let task = task.handle(rejected("Conversion Error"));
    assert_eq!(task.phase(), Phase::Reading);
    assert_eq!(task.next_action(), read("Good"));
    let task = task.handle(Event::SheetRead { rows: numbered_rows(1) });
    assert_eq!(task.next_action(), execute("CREATE OR REPLACE TABLE book_Good (n BIGINT)"));
    let task = task.handle(Event::Accepted);
    assert_eq!(task.next_action(), execute("INSERT INTO book_Good VALUES (0)"));
    let task = task.handle(Event::Accepted);
    assert_eq!(
        task.into_result(),
        LoadResult::Loaded {
            sheets: 1,
            failures: vec![LoadError::Insert {
                table: "book_Bad".to_string(),
                message: "Conversion Error".to_string(),
            }],
        }
    );
}

#[test]
fn a_refused_creation_ends_its_sheet_only() {
    let task = opened("book", &["A", "B"]);
    let task = task.handle(Event::SheetRead { rows: numbered_rows(2) });
    let task = task.handle(rejected("Parser Error"));
    assert_eq!(task.next_action(), read("B"));
    let task = task.handle(Event::SheetRead { rows: vec![] });
    assert_eq!(
        task.into_result(),
        LoadResult::Loaded {
            sheets: 0,
            failures: vec![LoadError::Create {
                table: "book_A".to_string(),
                message: "Parser Error".to_string(),
            }],
        }
    );
}

#[test]
fn an_unreadable_sheet_is_passed_over() {
    let task = opened("book", &["Chart", "Data"]);
    let task = task.handle(Event::SheetUnreadable { message: "not a worksheet".to_string() });
    assert_eq!(task.next_action(), read("Data"));
    let task = task.handle(Event::SheetRead { rows: numbered_rows(0) });
    let task = task.handle(Event::Accepted);
    assert_eq!(
        task.into_result(),
        LoadResult::Loaded {
            sheets: 1,
            failures: vec![LoadError::Sheet {
                sheet: "Chart".to_string(),
                message: "not a worksheet".to_string(),
            }],
        }
    );
}

#[test]
fn a_header_with_an_unusable_name_gets_no_table() {
    let task = opened("book", &["S", "T"]);
    let task = task.handle(Event::SheetRead {
        rows: vec![vec![cell("a"), Cell::Empty, cell("!!")], vec![Cell::Int(1)]],
    });
    assert_eq!(task.phase(), Phase::Reading);
    assert_eq!(task.next_action(), read("T"));
    let task = task.handle(Event::SheetRead { rows: vec![vec![]] });
    assert_eq!(
        task.into_result(),
        LoadResult::Loaded {
            sheets: 0,
            failures: vec![
                LoadError::Schema {
                    table: "book_S".to_string(),
                    fault: SchemaError::InvalidColumnName { index: 1 },
                },
                LoadError::Schema { table: "book_T".to_string(), fault: SchemaError::NoColumns },
            ],
        }
    );
}

#[test]
fn events_that_were_not_asked_for_change_nothing() {
    let task = FileTask::new("book");
    let task = task.handle(Event::Accepted);
    let task = task.handle(rejected("x"));
    let task = task.handle(Event::SheetRead { rows: numbered_rows(1) });
    assert_eq!(task.phase(), Phase::Opening);
    let task = task.handle(Event::Opened { sheet_names: names(&["S"]) });
    let task = task.handle(Event::Accepted);
    let task = task.handle(Event::Opened { sheet_names: names(&["X", "Y"]) });
    assert_eq!(task.next_action(), read("S"));
    let task = task.handle(Event::SheetRead { rows: numbered_rows(1) });
    let task = task.handle(Event::SheetRead { rows: numbered_rows(5) });
    let task = task.handle(Event::OpenFailed { message: "late".to_string() });
    assert_eq!(task.next_action(), execute("CREATE OR REPLACE TABLE book_S (n BIGINT)"));
    let task = task.handle(Event::Accepted);
    let task = task.handle(Event::Accepted);
    assert_eq!(task.phase(), Phase::Finished);
    let task = task.handle(Event::Accepted);
    let task = task.handle(Event::SheetRead { rows: numbered_rows(1) });
    assert_eq!(task.phase(), Phase::Finished);
    assert_eq!(task.into_result(), LoadResult::Loaded { sheets: 1, failures: vec![] });
}

#[test]
fn every_sheet_of_a_file_gets_its_table() {
    let sheets = ["A", "B", "C"];
    let mut task = opened("multi", &sheets);
    let mut statements = Vec::new();
    loop {
        match task.next_action() {
            Action::OpenFile => panic!("the file is open"),
            Action::ReadSheet { .. } => {
                task = task.handle(Event::SheetRead { rows: numbered_rows(2) });
            }
            Action::Execute { statement } => {
                statements.push(statement);
                task = task.handle(Event::Accepted);
            }
            Action::Finish => break,
        }
    }
    assert_eq!(
        statements,
        vec![
            "CREATE OR REPLACE TABLE multi_A (n BIGINT)".to_string(),
            "INSERT INTO multi_A VALUES (0), (1)".to_string(),
            "CREATE OR REPLACE TABLE multi_B (n BIGINT)".to_string(),
            "INSERT INTO multi_B VALUES (0), (1)".to_string(),
            "CREATE OR REPLACE TABLE multi_C (n BIGINT)".to_string(),
            "INSERT INTO multi_C VALUES (0), (1)".to_string(),
        ]
    );
    assert_eq!(task.into_result(), LoadResult::Loaded { sheets: 3, failures: vec![] });
}

#[test]
fn files_with_one_token_ask_for_the_same_table() {
    let first = opened("data-2024", &["Sheet1"]).handle(Event::SheetRead { rows: numbered_rows(0) });
    let second = opened("data 2024", &["Sheet1"]).handle(Event::SheetRead { rows: numbered_rows(0) });
    assert_eq!(first.next_action(), second.next_action());
    assert_eq!(
        first.next_action(),
        execute("CREATE OR REPLACE TABLE data_2024_Sheet1 (n VARCHAR)")
    );
}
