use tui_tabview::data_sources::CSV;
use tui_tabview::dummies::{DummyStyle, PlainStyle};
use tui_tabview::model_table::{ModelTable, Rect, State};
use tui_tabview::tui_app::{App, Command};

fn table(rows: usize, cols: usize, cell: &str) -> Vec<Vec<String>> {
    let mut v = Vec::new();
    for _ in 0..rows {
        let mut r = Vec::new();
        for _ in 0..cols {
            r.push(cell.to_string());
        }
        v.push(r);
    }
    v
}

fn rect(width: u16, height: u16) -> Rect {
    Rect { x: 0, y: 0, width, height }
}

#[test]
fn five_by_three_fits_uncut() {
    let csv = CSV::new(table(5, 3, "aaaaaaaaaa"));
    let mut app = App::new(csv, PlainStyle::new(1, 1));
    let ops = app.render(rect(80, 24));
    assert_eq!(app.state().text_cut, (false, false));
    assert_eq!(app.state().last_cell, (4, 2));
    assert_eq!(ops.len(), 15);
    assert_eq!(ops[0].x, 0);
    assert_eq!(ops[0].y, 0);
    assert_eq!(ops[0].width, 10);
    assert_eq!(ops[0].text, "aaaaaaaaaa");
    assert_eq!(ops[1].x, 11);
    assert_eq!(ops[3].y, 2);
}

#[test]
fn hundred_rows_cut_vertically() {
    let csv = CSV::new(table(100, 1, "x"));
    let mut app = App::new(csv, PlainStyle::new(0, 0));
    app.render(rect(5, 10));
    assert_eq!(app.state().text_cut, (true, false));
    assert_eq!(app.state().last_cell, (9, 0));
    app.event(Command::MoveDown);
    assert_eq!(app.state().offset, (1, 0));
}

#[test]
fn cell_selection_descends_to_last_rendered_row() {
    let csv = CSV::new(table(100, 1, "x"));
    let mut app = App::new(csv, PlainStyle::new(0, 0));
    app.render(rect(5, 10));
    assert_eq!(app.state().last_cell, (9, 0));
    app.event(Command::ToggleSelectMode);
    assert_eq!(
        app.state().selection,
        tui_tabview::model_table::Selection::Cell(0, 0)
    );
    for _ in 0..10 {
        app.event(Command::MoveDown);
    }
    assert_eq!(
        app.state().selection,
        tui_tabview::model_table::Selection::Cell(9, 0)
    );
    assert_eq!(app.state().offset, (0, 0));
}

#[test]
fn expansion_toggle_covers_whole_table_then_clears() {
    let csv = CSV::new(table(3, 4, "hi"));
    let mut app = App::new(csv, PlainStyle::new(0, 1));
    app.render(rect(40, 20));
    assert_eq!(app.state().last_cell, (2, 3));
    for j in 0..4 {
        assert!(!app.state().expanded_columns.contains(j));
    }
    app.event(Command::ToggleExpansion);
    for j in 0..4 {
        assert!(app.state().expanded_columns.contains(j));
    }
    app.event(Command::ToggleExpansion);
    for j in 0..4 {
        assert!(!app.state().expanded_columns.contains(j));
    }
}

#[test]
fn rendering_twice_is_idempotent() {
    let csv = CSV::new(table(7, 2, "one\ntwo\nthree"));
    let mut app = App::new(csv, PlainStyle::new(1, 1));
    let ops1 = app.render(rect(30, 12));
    let cut1 = app.state().text_cut;
    let last1 = app.state().last_cell;
    let ops2 = app.render(rect(30, 12));
    assert_eq!(ops1, ops2);
    assert_eq!(app.state().text_cut, cut1);
    assert_eq!(app.state().last_cell, last1);
}

#[test]
fn multiline_cells_stack_and_advance_row_height() {
    let csv = CSV::new(table(2, 1, "ab\ncd"));
    let mut app = App::new(csv, PlainStyle::new(0, 0));
    let ops = app.render(rect(10, 10));
    assert_eq!(ops.len(), 4);
    assert_eq!(ops[0].y, 0);
    assert_eq!(ops[0].text, "ab");
    assert_eq!(ops[1].y, 1);
    assert_eq!(ops[1].text, "cd");
    assert_eq!(ops[2].y, 2);
    assert_eq!(ops[3].y, 3);
}

#[test]
fn horizontal_clip_marks_column_cut() {
    let csv = CSV::new(table(1, 2, "abcdef"));
    let mut app = App::new(csv, PlainStyle::new(0, 1));
    let ops = app.render(rect(8, 5));
    assert_eq!(ops.len(), 2);
    assert_eq!(ops[0].width, 6);
    assert_eq!(ops[1].x, 7);
    assert_eq!(ops[1].width, 1);
    assert_eq!(app.state().text_cut, (false, true));
}

#[test]
fn wide_column_shrinks_unless_expanded() {
    let wide = "abcdefghijklmnopqrstuvwxyz0123";
    let csv = CSV::new(table(1, 1, wide));
    let mut app = App::new(csv, PlainStyle::new(0, 0));
    let ops = app.render(rect(60, 5));
    assert_eq!(ops[0].width, 24);
    app.event(Command::ToggleSelectMode);
    app.event(Command::ToggleExpansion);
    let ops = app.render(rect(60, 5));
    assert_eq!(ops[0].width, 30);
}

#[test]
fn expansion_toggle_twice_in_cell_mode_restores_column() {
    let csv = CSV::new(table(2, 2, "hello"));
    let mut app = App::new(csv, PlainStyle::new(0, 0));
    app.render(rect(30, 10));
    app.event(Command::ToggleSelectMode);
    assert!(!app.state().expanded_columns.contains(0));
    app.event(Command::ToggleExpansion);
    assert!(app.state().expanded_columns.contains(0));
    app.event(Command::ToggleExpansion);
    assert!(!app.state().expanded_columns.contains(0));
}

#[test]
fn empty_cells_emit_nothing_but_columns_advance() {
    let recs = vec![vec![String::new(), String::new(), "x".to_string()]];
    let csv = CSV::new(recs);
    let mut app = App::new(csv, PlainStyle::new(0, 0));
    let ops = app.render(rect(10, 5));
    assert_eq!(ops.len(), 1);
    assert_eq!(ops[0].x, 2);
    assert_eq!(ops[0].text, "x");
}

#[test]
fn empty_table_renders_nothing() {
    let csv = CSV::new(Vec::new());
    let mut app = App::new(csv, PlainStyle::new(1, 1));
    let ops = app.render(rect(20, 10));
    assert!(ops.is_empty());
    assert_eq!(app.state().text_cut, (false, false));
    assert_eq!(app.state().last_cell, (0, 0));
}

#[test]
fn model_table_renders_from_an_offset() {
    let csv = CSV::new(table(4, 2, "pq"));
    let style = PlainStyle::new(0, 1);
    let tbl = ModelTable::new(&csv, &style);
    let mut state = State::default();
    state.offset = (2, 1);
    let ops = tbl.render(rect(10, 10), &mut state);
    assert_eq!(ops.len(), 2);
    assert_eq!(ops[0].text, "pq");
    assert_eq!(ops[0].x, 0);
    assert_eq!(ops[0].y, 0);
    assert_eq!(ops[1].y, 1);
    assert_eq!(state.last_cell, (3, 1));
    assert_eq!(state.offset, (2, 1));
}

#[test]
fn highlighted_cell_uses_highlight_style() {
    let csv = CSV::new(table(2, 2, "ab"));
    let mut app = App::new(csv, DummyStyle::default());
    app.render(rect(20, 10));
    app.event(Command::ToggleSelectMode);
    let ops = app.render(rect(20, 10));
    assert_eq!(ops.len(), 4);
    assert!(ops[0].style.reversed);
    assert_eq!(ops[0].style.color, 0);
    assert!(!ops[1].style.reversed);
    assert_eq!(ops[1].style.color, 1);
    assert!(!ops[2].style.reversed);
}

#[test]
fn zero_height_rect_cuts_rows_and_draws_nothing() {
    let csv = CSV::new(table(2, 1, "w"));
    let mut app = App::new(csv, PlainStyle::new(0, 0));
    let ops = app.render(rect(10, 0));
    assert!(ops.is_empty());
    assert_eq!(app.state().text_cut, (true, false));
    assert_eq!(app.state().last_cell, (0, 0));
}

#[test]
fn row_and_column_selection_highlight_their_line() {
    let csv = CSV::new(table(2, 2, "z"));
    let style = PlainStyle::new(0, 0);
    let tbl = ModelTable::new(&csv, &style);
    let mut state = State::default();
    state.selection = tui_tabview::model_table::Selection::Row(1);
    let ops = tbl.render(rect(10, 10), &mut state);
    assert_eq!(ops.len(), 4);
    assert!(!ops[0].style.reversed);
    assert!(!ops[1].style.reversed);
    assert!(ops[2].style.reversed);
    assert!(ops[3].style.reversed);
    state.selection = tui_tabview::model_table::Selection::Col(0);
    let ops = tbl.render(rect(10, 10), &mut state);
    assert!(ops[0].style.reversed);
    assert!(!ops[1].style.reversed);
    assert!(ops[2].style.reversed);
    assert!(!ops[3].style.reversed);
}

#[test]
fn last_cell_never_precedes_offset() {
    let csv = CSV::new(table(100, 1, "x"));
    let mut app = App::new(csv, PlainStyle::new(0, 0));
    app.render(rect(5, 10));
    for _ in 0..3 {
        app.event(Command::MoveDown);
    }
    assert_eq!(app.state().offset, (3, 0));
    app.render(rect(5, 10));
    assert!(app.state().last_cell.0 >= app.state().offset.0);
    assert!(app.state().last_cell.1 >= app.state().offset.1);
}
