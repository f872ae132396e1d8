use table_viewer::events::{EventState, Key};
use table_viewer::window::CellConstraint;
use table_viewer::TableComponent;

fn strings(cells: Vec<&str>) -> Vec<String> {
    cells.iter().map(|c| c.to_string()).collect()
}

#[test]
fn test_headers() {
    let mut component = TableComponent::default();
    component.headers = strings(vec!["a", "b", "c"]);
    assert_eq!(component.headers(1, 2), vec!["", "b"])
}

#[test]
fn test_rows() {
    let mut component = TableComponent::default();
    component.rows = vec![strings(vec!["a", "b", "c"]), strings(vec!["d", "e", "f"])];
    assert_eq!(component.rows(1, 2), vec![vec!["1", "b"], vec!["2", "e"]],)
}

#[test]
fn test_expand_selected_area_x_left() {
    // before
    //    1  2  3
    // 1  a  b  c
    // 2  d |e| f

    // after
    //    1  2  3
    // 1  a  b  c
    // 2 |d  e| f

    let mut component = TableComponent::default();
    component.headers = strings(vec!["1", "2", "3"]);
    component.rows = vec![strings(vec!["a", "b", "c"]), strings(vec!["d", "e", "f"])];
    component.selected_row = Some(1);
    component.selected_column = 1;
    component.expand_selected_area_x(false);
    assert_eq!(component.selection_area_corner, Some((0, 1)));
    assert_eq!(component.selected_cells(), Some("d,e".to_string()));
}

#[test]
fn test_expand_selected_area_x_right() {
    // before
    //    1  2  3
    // 1  a  b  c
    // 2  d |e| f

    // after
    //    1  2  3
    // 1  a  b  c
    // 2  d |e  f|

    let mut component = TableComponent::default();
    component.headers = strings(vec!["1", "2", "3"]);
    component.rows = vec![strings(vec!["a", "b", "c"]), strings(vec!["d", "e", "f"])];
    component.selected_row = Some(1);
    component.selected_column = 1;
    component.expand_selected_area_x(true);
    assert_eq!(component.selection_area_corner, Some((2, 1)));
    assert_eq!(component.selected_cells(), Some("e,f".to_string()));
}

#[test]
fn test_expand_selected_area_y_up() {
    // before
    //    1  2  3
    // 1  a  b  c
    // 2  d |e| f

    // after
    //    1  2  3
    // 1  a |b| c
    // 2  d |e| f

    let mut component = TableComponent::default();
    component.rows = vec![strings(vec!["a", "b", "c"]), strings(vec!["d", "e", "f"])];
    component.selected_row = Some(1);
    component.selected_column = 1;
    component.expand_selected_area_y(false);
    assert_eq!(component.selection_area_corner, Some((1, 0)));
    assert_eq!(component.selected_cells(), Some("b\ne".to_string()));
}

#[test]
fn test_expand_selected_area_y_down() {
    // before
    //    1  2  3
    // 1  a |b| c
    // 2  d  e  f

    // after
    //    1  2  3
    // 1  a |b| c
    // 2  d |e| f

    let mut component = TableComponent::default();
    component.rows = vec![strings(vec!["a", "b", "c"]), strings(vec!["d", "e", "f"])];
    component.selected_row = Some(0);
    component.selected_column = 1;
    component.expand_selected_area_y(true);
    assert_eq!(component.selection_area_corner, Some((1, 1)));
    assert_eq!(component.selected_cells(), Some("b\ne".to_string()));
}

#[test]
fn test_is_number_column() {
    let mut component = TableComponent::default();
    component.headers = strings(vec!["1", "2", "3"]);
    component.rows = vec![strings(vec!["a", "b", "c"]), strings(vec!["d", "e", "f"])];
    component.selected_row = Some(0);
    assert!(component.is_number_column(0, 0));
    assert!(!component.is_number_column(0, 1));
}

#[test]
fn test_selected_cell_when_one_cell_selected() {
    //    1  2 3
    // 1 |a| b c
    // 2  d  e f

    let mut component = TableComponent::default();
    component.headers = strings(vec!["1", "2", "3"]);
    component.rows = vec![strings(vec!["a", "b", "c"]), strings(vec!["d", "e", "f"])];
    component.selected_row = Some(0);
    assert_eq!(component.selected_cells(), Some("a".to_string()));
}

#[test]
fn test_selected_cell_when_multiple_cells_selected() {
    //    1  2  3
    // 1 |a  b| c
    // 2 |d  e| f

    let mut component = TableComponent::default();
    component.headers = strings(vec!["1", "2", "3"]);
    component.rows = vec![strings(vec!["a", "b", "c"]), strings(vec!["d", "e", "f"])];
    component.selected_row = Some(0);
    component.selection_area_corner = Some((1, 1));
    assert_eq!(component.selected_cells(), Some("a,b\nd,e".to_string()));
}

#[test]
fn test_is_selected_cell_when_one_cell_selected() {
    //    1  2 3
    // 1 |a| b c
    // 2  d  e f

    let mut component = TableComponent::default();
    component.headers = strings(vec!["1", "2", "3"]);
    component.rows = vec![strings(vec!["a", "b", "c"]), strings(vec!["d", "e", "f"])];
    component.selected_row = Some(0);
    // a
    assert!(component.is_selected_cell(0, 1, 1));
    // d
    assert!(!component.is_selected_cell(1, 1, 1));
    // e
    assert!(!component.is_selected_cell(1, 2, 1));
}

#[test]
fn test_is_selected_cell_when_multiple_cells_selected() {
    //    1  2  3
    // 1 |a  b| c
    // 2 |d  e| f

    let mut component = TableComponent::default();
    component.headers = strings(vec!["1", "2", "3"]);
    component.rows = vec![strings(vec!["a", "b", "c"]), strings(vec!["d", "e", "f"])];
    component.selected_row = Some(0);
    component.selection_area_corner = Some((1, 1));
    // a
    assert!(component.is_selected_cell(0, 1, 1));
    // b
    assert!(component.is_selected_cell(0, 2, 1));
    // d
    assert!(component.is_selected_cell(1, 1, 1));
    // e
    assert!(component.is_selected_cell(1, 2, 1));
    // f
    assert!(!component.is_selected_cell(1, 3, 1));
}

#[test]
fn test_calculate_cell_widths() {
    let mut component = TableComponent::default();
    component.headers = strings(vec!["1", "2", "3"]);
    component.rows = vec![
        strings(vec!["aaaaa", "bbbbb", "ccccc"]),
        strings(vec!["d", "e", "f"]),
    ];
    let (selected_column_index, headers, rows, constraints) = component.calculate_cell_widths(10);
    assert_eq!(selected_column_index, 1);
    assert_eq!(headers, vec!["", "1", "2"]);
    assert_eq!(rows, vec![vec!["1", "aaaaa", "bbbbb"], vec!["2", "d", "e"]]);
    assert_eq!(
        constraints,
        vec![
            CellConstraint::Length(1),
            CellConstraint::Length(5),
            CellConstraint::Min(10),
        ]
    );

    let (selected_column_index, headers, rows, constraints) = component.calculate_cell_widths(20);
    assert_eq!(selected_column_index, 1);
    assert_eq!(headers, vec!["", "1", "2", "3"]);
    assert_eq!(
        rows,
        vec![
            vec!["1", "aaaaa", "bbbbb", "ccccc"],
            vec!["2", "d", "e", "f"]
        ]
    );
    assert_eq!(
        constraints,
        vec![
            CellConstraint::Length(1),
            CellConstraint::Length(5),
            CellConstraint::Length(5),
            CellConstraint::Length(5),
        ]
    );

    let mut component = TableComponent::default();
    component.headers = strings(vec!["1", "2", "3"]);
    component.rows = vec![
        strings(vec!["aaaaa", "bbbbb", "ccccc"]),
        strings(vec!["dddddddddd", "e", "f"]),
    ];

    let (selected_column_index, headers, rows, constraints) = component.calculate_cell_widths(20);
    assert_eq!(selected_column_index, 1);
    assert_eq!(headers, vec!["", "1", "2", "3"]);
    assert_eq!(
        rows,
        vec![
            vec!["1", "aaaaa", "bbbbb", "ccccc"],
            vec!["2", "dddddddddd", "e", "f"]
        ]
    );
    assert_eq!(
        constraints,
        vec![
            CellConstraint::Length(1),
            CellConstraint::Length(10),
            CellConstraint::Length(5),
            CellConstraint::Length(5),
        ]
    );
}

#[test]
fn empty_grid_calculates_nothing() {
    let mut component = TableComponent::default();
    let (index, headers, rows, constraints) = component.calculate_cell_widths(10);
    assert_eq!(index, 0);
    assert!(headers.is_empty());
    assert!(rows.is_empty());
    assert!(constraints.is_empty());

    let from_new = TableComponent::new(Vec::new(), Vec::new());
    assert_eq!(from_new.selected_row, None);
    assert_eq!(from_new.selected_cells(), None);
}

#[test]
fn single_cell_selection_round_trips_grid_value() {
    let mut component = TableComponent::new(
        vec![strings(vec!["a", "b", "c"]), strings(vec!["d", "e", "f"])],
        strings(vec!["1", "2", "3"]),
    );
    component.selected_row = Some(1);
    component.selected_column = 2;
    assert_eq!(
        component.selected_cells(),
        Some(component.rows[1][2].clone())
    );
}

#[test]
fn navigation_clamps_at_grid_bounds() {
    let mut component = TableComponent::new(
        vec![strings(vec!["a", "b"]), strings(vec!["c", "d"])],
        strings(vec!["x", "y"]),
    );
    // Left edge: stepping left stays at column 0.
    assert_eq!(component.event(Key::Char('h')), EventState::Consumed);
    assert_eq!(component.selected_column, 0);
    // Right edge: two steps right clamp at the last column.
    component.event(Key::Char('l'));
    component.event(Key::Char('l'));
    assert_eq!(component.selected_column, 1);
    // Bottom: a ten-row page down clamps at the last row.
    assert_eq!(component.event(Key::Ctrl('d')), EventState::NotConsumed);
    assert_eq!(component.selected_row, Some(1));
    // Top: stepping up twice clamps at row 0.
    component.event(Key::Char('k'));
    component.event(Key::Char('k'));
    assert_eq!(component.selected_row, Some(0));
}

#[test]
fn jump_keys_hit_first_and_last_row() {
    let mut component = TableComponent::new(
        vec![
            strings(vec!["a"]),
            strings(vec!["b"]),
            strings(vec!["c"]),
        ],
        strings(vec!["x"]),
    );
    assert_eq!(component.event(Key::Char('G')), EventState::Consumed);
    assert_eq!(component.selected_row, Some(2));
    assert_eq!(component.event(Key::Char('g')), EventState::Consumed);
    assert_eq!(component.selected_row, Some(0));
}

#[test]
fn moving_the_cursor_clears_the_rectangle() {
    let mut component = TableComponent::new(
        vec![strings(vec!["a", "b"]), strings(vec!["c", "d"])],
        strings(vec!["x", "y"]),
    );
    component.event(Key::Char('L'));
    assert_eq!(component.selection_area_corner, Some((1, 0)));
    component.event(Key::Char('j'));
    assert_eq!(component.selection_area_corner, None);
}

#[test]
fn clamped_column_moves_still_clear_the_rectangle() {
    let mut component = TableComponent::new(
        vec![strings(vec!["a", "b"]), strings(vec!["c", "d"])],
        strings(vec!["x", "y"]),
    );
    // At the left edge: the cursor stays put but the rectangle goes.
    component.event(Key::Char('L'));
    assert_eq!(component.selection_area_corner, Some((1, 0)));
    component.event(Key::Char('h'));
    assert_eq!(component.selected_column, 0);
    assert_eq!(component.selection_area_corner, None);
    // At the right edge likewise.
    component.selected_column = 1;
    component.event(Key::Char('L'));
    assert!(component.selection_area_corner.is_some());
    component.event(Key::Char('l'));
    assert_eq!(component.selected_column, 1);
    assert_eq!(component.selection_area_corner, None);
}

#[test]
fn jumps_clear_the_rectangle_even_on_an_empty_grid() {
    let mut component = TableComponent::default();
    component.event(Key::Char('J'));
    assert_eq!(component.selection_area_corner, Some((0, 0)));
    component.event(Key::Char('g'));
    assert_eq!(component.selection_area_corner, None);
    assert_eq!(component.selected_row, None);
    component.event(Key::Char('H'));
    assert_eq!(component.selection_area_corner, Some((0, 0)));
    component.event(Key::Char('G'));
    assert_eq!(component.selection_area_corner, None);
    assert_eq!(component.selected_row, None);
}

#[test]
fn end_of_data_flag_is_sticky() {
    let mut component = TableComponent::default();
    assert!(!component.eod);
    component.end();
    assert!(component.eod);
}
