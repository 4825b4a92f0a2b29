use excel_loader::source::is_spreadsheet_extension;

#[test]
fn both_spreadsheet_extensions_are_known() {
    assert!(is_spreadsheet_extension("xlsx"));
    assert!(is_spreadsheet_extension("xls"));
}

#[test]
fn other_extensions_are_not() {
    assert!(!is_spreadsheet_extension("csv"));
    assert!(!is_spreadsheet_extension("XLSX"));
    assert!(!is_spreadsheet_extension("xlsm"));
    assert!(!is_spreadsheet_extension(".xlsx"));
    assert!(!is_spreadsheet_extension("xl"));
    assert!(!is_spreadsheet_extension(""));
}
