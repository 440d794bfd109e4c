use termshell::page_helpers::{get_column_string, render_table};
use termshell::table::TableError;

#[test]
fn test_get_column_string() {
    let text1 = "";
    let text2 = "test";
    let text3 = "testme";
    let text4 = "testmetest";

    let width = 0;

    assert_eq!(get_column_string(text4, width), "".to_owned());

    let width = 1;

    assert_eq!(get_column_string(text4, width), ".".to_owned());

    let width = 2;

    assert_eq!(get_column_string(text4, width), "..".to_owned());

    let width = 3;

    assert_eq!(get_column_string(text4, width), "...".to_owned());

    let width = 4;

    assert_eq!(get_column_string(text4, width), "t...".to_owned());

    let width = 6;

    assert_eq!(get_column_string(text1, width), "      ".to_owned());
    assert_eq!(get_column_string(text2, width), "test  ".to_owned());
    assert_eq!(get_column_string(text3, width), "testme".to_owned());
    assert_eq!(get_column_string(text4, width), "tes...".to_owned());
}

#[test]
fn test_get_column_string_length_always_matches_width() {
    let texts = ["", "a", "abc", "abcd", "testmetest", "  spaced  ", "émile café über"];
    for text in texts.iter() {
        for width in 0..20 {
            assert_eq!(get_column_string(text, width).chars().count(), width);
        }
    }
}

#[test]
fn test_get_column_string_non_ascii_truncation() {
    // Truncation counts characters, so multi-byte characters survive intact.
    assert_eq!(get_column_string("ééééé", 4), "é...");
    assert_eq!(get_column_string("éé", 4), "éé  ");
}

#[test]
fn test_render_table_exact_text() {
    let headers = vec!["id".to_owned(), "name".to_owned()];
    let rows = vec![
        vec!["7".to_owned(), "verylongname".to_owned()],
        vec!["10".to_owned(), "ok".to_owned()],
    ];
    let widths = vec![4, 6];
    let text = render_table("demo", &headers, &rows, &widths).unwrap();
    assert_eq!(text, "---demo---\nid  |name  \n7   |ver...\n10  |ok    \n");
}

#[test]
fn test_render_table_wrong_width_count() {
    let headers = vec!["id".to_owned(), "name".to_owned()];
    let rows: Vec<Vec<String>> = vec![];
    let widths = vec![4];
    let err = render_table("demo", &headers, &rows, &widths).unwrap_err();
    assert_eq!(err, TableError::ColumnCountMismatch { provided: 1, expected: 2 });
}

#[test]
fn test_render_table_wrong_row_width() {
    let headers = vec!["id".to_owned(), "name".to_owned()];
    let rows = vec![vec!["7".to_owned()]];
    let widths = vec![4, 6];
    let err = render_table("demo", &headers, &rows, &widths).unwrap_err();
    assert_eq!(err, TableError::ColumnCountMismatch { provided: 1, expected: 2 });
}

#[test]
fn test_render_table_wide_title_kept_whole() {
    let headers = vec!["h".to_owned()];
    let rows: Vec<Vec<String>> = vec![];
    let widths = vec![2];
    let text = render_table("long title", &headers, &rows, &widths).unwrap();
    assert_eq!(text, "long title\nh \n");
}
