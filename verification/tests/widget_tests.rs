use table_viewer::scroll::scroll_offset;
use table_viewer::table::row_height;
use table_viewer::text::{decimal_digit_count, decimal_digit_count_succ, is_char_prefix, usize_to_decimal};
use table_viewer::window::CellConstraint;
use table_viewer::{ErrorComponent, TableComponent};

fn strings(cells: Vec<&str>) -> Vec<String> {
    cells.iter().map(|c| c.to_string()).collect()
}

#[test]
fn error_dialog_starts_empty_and_keeps_the_last_message() {
    let mut dialog = ErrorComponent::default();
    assert_eq!(dialog.error, None);
    dialog.set("no such table".to_string());
    assert_eq!(dialog.error, Some("no such table".to_string()));
    dialog.set("syntax error".to_string());
    assert_eq!(dialog.error, Some("syntax error".to_string()));
}

#[test]
fn decimal_rendering_matches_expected_digits() {
    assert_eq!(usize_to_decimal(0), "0");
    assert_eq!(usize_to_decimal(7), "7");
    assert_eq!(usize_to_decimal(10), "10");
    assert_eq!(usize_to_decimal(1234567890), "1234567890");
    assert_eq!(decimal_digit_count(0), 1);
    assert_eq!(decimal_digit_count(9), 1);
    assert_eq!(decimal_digit_count(10), 2);
    assert_eq!(decimal_digit_count(1000000), 7);
    assert_eq!(decimal_digit_count_succ(8), 1);
    assert_eq!(decimal_digit_count_succ(9), 2);
    assert_eq!(decimal_digit_count_succ(99), 3);
    assert_eq!(decimal_digit_count_succ(usize::MAX), 20);
}

#[test]
fn prefix_test_compares_characters() {
    assert!(is_char_prefix("ab", "abc"));
    assert!(is_char_prefix("", "abc"));
    assert!(is_char_prefix("abc", "abc"));
    assert!(!is_char_prefix("abc", "ab"));
    assert!(!is_char_prefix("ax", "abc"));
}

#[test]
fn scroll_offset_keeps_the_selection_on_screen() {
    // Everything fits: no offset.
    assert_eq!(scroll_offset(4, 2, 3, 5), 0);
    assert_eq!(scroll_offset(4, 2, 3, 0), 0);
    // Selection above the window: the window jumps up to it.
    assert_eq!(scroll_offset(4, 2, 10, 3), 2);
    // Selection below the window: the window slides just past it.
    assert_eq!(scroll_offset(0, 5, 10, 3), 3);
    // Selection inside the window: the offset is kept.
    assert_eq!(scroll_offset(2, 3, 10, 3), 2);
}

#[test]
fn row_height_counts_embedded_line_breaks() {
    assert_eq!(row_height(&strings(vec!["a", "b"])), 1);
    assert_eq!(row_height(&strings(vec!["a\nb\nc", "d\ne"])), 3);
    assert_eq!(row_height(&Vec::new()), 1);
}

#[test]
fn wide_glyphs_count_double_in_column_widths() {
    // Four fullwidth characters render eight columns wide; a width
    // computation that counted characters would say four.
    let mut component = TableComponent::new(
        vec![strings(vec!["x", "y"])],
        vec!["ｗｉｄｅ".to_string(), "b".to_string()],
    );
    let (_, _, _, constraints) = component.calculate_cell_widths(30);
    assert_eq!(constraints[1], CellConstraint::Length(8));
}

#[test]
fn band_follows_the_cursor_to_the_last_column() {
    // Only one five-wide column fits a ten-wide viewport beside the
    // row-number column, so the band re-pages to the cursor's column.
    let mut component = TableComponent::new(
        vec![
            strings(vec!["aaaaa", "bbbbb", "ccccc"]),
            strings(vec!["d", "e", "f"]),
        ],
        strings(vec!["1", "2", "3"]),
    );
    component.selected_column = 2;
    let (index, headers, rows, constraints) = component.calculate_cell_widths(10);
    assert_eq!(component.column_page_start, 2);
    assert_eq!(index, 1);
    assert_eq!(headers, vec!["", "3"]);
    assert_eq!(rows, vec![vec!["1", "ccccc"], vec!["2", "f"]]);
    assert_eq!(
        constraints,
        vec![CellConstraint::Length(1), CellConstraint::Length(5)]
    );
}

#[test]
fn windowing_is_stable_for_a_stationary_cursor() {
    let mut component = TableComponent::new(
        vec![
            strings(vec!["aaaaa", "bbbbb", "ccccc"]),
            strings(vec!["d", "e", "f"]),
        ],
        strings(vec!["1", "2", "3"]),
    );
    component.selected_column = 1;
    let first = component.calculate_cell_widths(10);
    let start_after_first = component.column_page_start;
    let second = component.calculate_cell_widths(10);
    assert_eq!(component.column_page_start, start_after_first);
    assert_eq!(first, second);
}
