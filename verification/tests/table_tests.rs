use termshell::table::{Table, TableError};

fn sample_table() -> Table {
    Table::builder()
        .set_title("demo")
        .add_column("id", 4)
        .add_column("name", 6)
        .build()
}

#[test]
fn test_builder_and_generate_table() {
    let mut table = sample_table();
    table
        .add_row(vec!["7".to_owned(), "verylongname".to_owned()])
        .unwrap();
    table.add_row(vec!["10".to_owned(), "ok".to_owned()]).unwrap();
    // Headers are centered (not truncated); data cells follow the cell rule.
    assert_eq!(
        table.generate_table(),
        "---demo---\n id | name \n7   |ver...\n10  |ok    \n"
    );
}

#[test]
fn test_add_row_trims_whitespace() {
    let mut table = sample_table();
    table
        .add_row(vec!["  7 ".to_owned(), "\tok  ".to_owned()])
        .unwrap();
    assert_eq!(table.generate_table(), "---demo---\n id | name \n7   |ok    \n");
}

#[test]
fn test_add_row_wrong_count_fails_and_changes_nothing() {
    let mut table = sample_table();
    table.add_row(vec!["1".to_owned(), "a".to_owned()]).unwrap();
    let before = table.generate_table();

    let err = table.add_row(vec!["lonely".to_owned()]).unwrap_err();
    assert_eq!(err, TableError::ColumnCountMismatch { provided: 1, expected: 2 });
    let err = table
        .add_row(vec!["a".to_owned(), "b".to_owned(), "c".to_owned()])
        .unwrap_err();
    assert_eq!(err, TableError::ColumnCountMismatch { provided: 3, expected: 2 });

    // Failed inserts leave the stored rows exactly as they were.
    assert_eq!(table.generate_table(), before);

    // The table still accepts a corrected row afterwards.
    table.add_row(vec!["2".to_owned(), "b".to_owned()]).unwrap();
    assert_eq!(
        table.generate_table(),
        "---demo---\n id | name \n1   |a     \n2   |b     \n"
    );
}

#[test]
fn test_generate_table_is_deterministic() {
    let mut table = sample_table();
    table.add_row(vec!["1".to_owned(), "alpha".to_owned()]).unwrap();
    let first = table.generate_table();
    let second = table.generate_table();
    assert_eq!(first, second);
}

#[test]
fn test_generate_parts() {
    let mut table = sample_table();
    table.add_row(vec!["1".to_owned(), "alpha".to_owned()]).unwrap();
    assert_eq!(table.generate_title(), "---demo---");
    assert_eq!(table.generate_header(), " id | name ");
    assert_eq!(
        table.generate_row(&vec!["1".to_owned(), "alpha".to_owned()]),
        "1   |alpha "
    );
}

#[test]
fn test_format_cell_content_boundaries() {
    assert_eq!(Table::format_cell_content("testmetest", 0), "");
    assert_eq!(Table::format_cell_content("testmetest", 3), "...");
    assert_eq!(Table::format_cell_content("testmetest", 4), "t...");
    assert_eq!(Table::format_cell_content("test", 6), "test  ");
}

#[test]
fn test_empty_table_renders_title_and_header_only() {
    let table = sample_table();
    assert_eq!(table.generate_table(), "---demo---\n id | name \n");
}
