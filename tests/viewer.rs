use rata::double::Double;
use rata::eval::{EvalError, FilterError};
use rata::source::{DataSource, DataSourceType};
use rata::table::{Column, Table};
use rata::viewer::{action_for, page_bounds, text_of, Action, App, Key, TableData};

fn read(s: &str) -> Option<Double> {
    s.parse::<f64>().ok().map(|x| Double { bits: x.to_bits() })
}

fn app_with(rows: i64) -> App {
    let mut t = Table::new();
    t.add_column("n".to_string(), Column::Int64((0..rows).map(Some).collect())).unwrap();
    t.add_column(
        "s".to_string(),
        Column::Str((0..rows).map(|i| Some(format!("v{}", i))).collect()),
    )
    .unwrap();
    App::new(DataSource::new(t, DataSourceType::Csv), "data.csv".to_string())
}

fn type_text(app: &mut App, text: &str) {
    for c in text.chars() {
        app.push_filter_char(c);
    }
}

#[test]
fn scrolling_stays_within_last_page() {
    let mut app = app_with(45);
    assert_eq!(app.page_size, 20);
    app.scroll_down();
    assert_eq!(app.scroll_offset, 20);
    app.scroll_down();
    assert_eq!(app.scroll_offset, 25);
    app.scroll_down_one();
    assert_eq!(app.scroll_offset, 25);
    app.scroll_up_one();
    assert_eq!(app.scroll_offset, 24);
    app.scroll_up();
    assert_eq!(app.scroll_offset, 4);
    app.scroll_up();
    assert_eq!(app.scroll_offset, 0);
    app.scroll_to_bottom();
    assert_eq!(app.scroll_offset, 25);
    app.scroll_to_top();
    assert_eq!(app.scroll_offset, 0);
    assert_eq!(app.current_page(), (0, 20));
}

#[test]
fn short_table_does_not_scroll() {
    let mut app = app_with(5);
    app.scroll_down();
    assert_eq!(app.scroll_offset, 0);
    app.scroll_to_bottom();
    assert_eq!(app.scroll_offset, 0);
    assert_eq!(app.current_page(), (0, 5));
}

#[test]
fn horizontal_scroll_is_bounded_by_columns() {
    let mut app = app_with(3);
    app.scroll_right();
    app.scroll_right();
    assert_eq!(app.column_offset, 1);
    app.scroll_left();
    app.scroll_left();
    assert_eq!(app.column_offset, 0);
}

#[test]
fn filter_editing_moves_cursor() {
    let mut app = app_with(3);
    app.enter_filter_mode();
    type_text(&mut app, "n>1");
    assert_eq!(app.filter_cursor, 3);
    app.filter_cursor_left();
    app.push_filter_char(' ');
    assert_eq!(text_of(&app.filter_pattern), "n> 1");
    app.filter_cursor_home();
    app.delete_filter_char();
    assert_eq!(text_of(&app.filter_pattern), "> 1");
    app.pop_filter_char();
    assert_eq!(text_of(&app.filter_pattern), "> 1");
    app.filter_cursor_end();
    app.pop_filter_char();
    assert_eq!(text_of(&app.filter_pattern), "> ");
    app.filter_cursor_right();
    assert_eq!(app.filter_cursor, 2);
}

#[test]
fn applying_a_filter_shows_matching_rows() {
    let mut app = app_with(30);
    app.scroll_down();
    app.enter_filter_mode();
    type_text(&mut app, "n >= 25");
    app.apply_filter(&read);
    assert_eq!(app.total_rows(), 5);
    assert_eq!(app.original_total_rows(), 30);
    assert_eq!(app.scroll_offset, 0);
    assert!(app.error.is_none());
}

#[test]
fn failed_filter_keeps_rows_and_reports() {
    let mut app = app_with(10);
    type_text(&mut app, "n >= 5");
    app.apply_filter(&read);
    assert_eq!(app.total_rows(), 5);
    app.filter_cursor_home();
    app.delete_filter_char();
    app.push_filter_char('x');
    app.apply_filter(&read);
    assert_eq!(app.error, Some(FilterError::Eval(EvalError::ColumnNotFound)));
    assert_eq!(app.total_rows(), 5);
    app.clear_filter(&read);
    assert_eq!(app.total_rows(), 10);
    assert!(app.filter_pattern.is_empty());
    assert!(app.error.is_none());
}

#[test]
fn column_choice_toggles() {
    let mut app = app_with(2);
    assert!(app.is_column_selected("s"));
    app.enter_column_selection_mode();
    assert_eq!(app.selected_columns, Some(vec!["n".to_string(), "s".to_string()]));
    app.column_selection_down();
    app.column_selection_down();
    assert_eq!(app.column_selection_cursor, 1);
    app.toggle_column_at_cursor();
    assert!(!app.is_column_selected("s"));
    app.toggle_column_at_cursor();
    assert_eq!(app.selected_columns, Some(vec!["n".to_string(), "s".to_string()]));
    app.column_selection_up();
    app.toggle_column_at_cursor();
    assert_eq!(app.selected_columns, Some(vec!["s".to_string()]));
    app.exit_column_selection_mode();
    assert!(!app.column_selection_mode);
    app.reset_column_selection();
    assert!(app.selected_columns.is_none());
    assert_eq!(app.all_columns(), vec!["n".to_string(), "s".to_string()]);
}

#[test]
fn keys_route_by_mode() {
    assert_eq!(action_for(false, false, Key::Char('q'), false), Action::Quit);
    assert_eq!(action_for(false, false, Key::Char('c'), true), Action::Quit);
    assert_eq!(action_for(false, false, Key::Char('c'), false), Action::EnterColumnSelection);
    assert_eq!(action_for(false, true, Key::Char('q'), false), Action::PushFilterChar('q'));
    assert_eq!(action_for(true, true, Key::Char('a'), false), Action::ResetColumns);
    assert_eq!(action_for(false, false, Key::Esc, false), Action::ClearFilter);
    assert_eq!(action_for(false, true, Key::Esc, false), Action::ExitFilterMode);
    assert_eq!(action_for(false, false, Key::Other, false), Action::Nothing);
}

#[test]
fn handle_key_runs_a_filter_session() {
    let mut app = app_with(12);
    app.handle_key(Key::Char('/'), false, &read);
    assert!(app.filter_mode);
    for c in "n < 3".chars() {
        app.handle_key(Key::Char(c), false, &read);
    }
    assert_eq!(app.handle_key(Key::Enter, false, &read), Action::ApplyFilterAndExit);
    assert!(!app.filter_mode);
    assert_eq!(app.total_rows(), 3);
    app.handle_key(Key::Char('n'), false, &read);
    assert!(!app.show_line_numbers);
    app.handle_key(Key::Char('q'), false, &read);
    assert!(app.should_quit);
}

#[test]
fn table_data_keeps_chosen_columns() {
    let mut data = TableData {
        headers: vec!["a".to_string(), "b".to_string(), "c".to_string()],
        rows: vec![
            vec!["1".to_string(), "2".to_string(), "3".to_string()],
            vec!["4".to_string(), "5".to_string(), "6".to_string()],
        ],
        total_rows: 9,
    };
    data.filter_columns(&vec!["c".to_string(), "zz".to_string(), "a".to_string()]);
    assert_eq!(data.headers, vec!["c".to_string(), "a".to_string()]);
    assert_eq!(data.rows[1], vec!["6".to_string(), "4".to_string()]);
    assert_eq!(data.num_columns(), 2);
    assert_eq!(data.num_rows(), 2);
    assert_eq!(data.total_rows, 9);
    data.filter_columns(&vec!["zz".to_string()]);
    assert_eq!(data.num_columns(), 0);
    assert_eq!(data.num_rows(), 0);
}

#[test]
fn plain_pattern_splits_on_known_column() {
    let app = app_with(1);
    assert_eq!(app.parse_filter_pattern(" s : v1 "), (Some("s".to_string()), "v1".to_string()));
    assert_eq!(app.parse_filter_pattern("n= 3"), (Some("n".to_string()), "3".to_string()));
    assert_eq!(app.parse_filter_pattern("zz:1"), (None, "zz:1".to_string()));
    assert_eq!(app.parse_filter_pattern("x:y=n"), (None, "x:y=n".to_string()));
    assert_eq!(app.parse_filter_pattern("hello"), (None, "hello".to_string()));
}

#[test]
fn page_bounds_clip_to_total() {
    assert_eq!(page_bounds(0, 20, 45), (0, 20));
    assert_eq!(page_bounds(40, 20, 45), (40, 45));
    assert_eq!(page_bounds(50, 20, 45), (45, 45));
    assert_eq!(page_bounds(usize::MAX, 20, 45), (45, 45));
}
