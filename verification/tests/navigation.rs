use tui_tabview::data_sources::CSV;
use tui_tabview::dummies::{DummyDataSource, DummyStyle, PlainStyle};
use tui_tabview::model_table::{DataSource, Rect, Selection, Styler};
use tui_tabview::text::{split_lines, usize_to_string};
use tui_tabview::tui_app::{App, Command};

fn grid(rows: usize, cols: usize, cell: &str) -> Vec<Vec<String>> {
    let mut v = Vec::new();
    for _ in 0..rows {
        let mut r = Vec::new();
        for _ in 0..cols {
            r.push(cell.to_string());
        }
        v.push(r);
    }
    v
}

fn area(width: u16, height: u16) -> Rect {
    Rect { x: 0, y: 0, width, height }
}

#[test]
fn offset_stays_inside_the_table() {
    let csv = CSV::new(grid(2, 2, "q"));
    let mut app = App::new(csv, PlainStyle::new(0, 0));
    app.event(Command::MoveUp);
    app.event(Command::MoveLeft);
    assert_eq!(app.state().offset, (0, 0));
    app.render(area(10, 10));
    app.event(Command::MoveDown);
    app.event(Command::MoveDown);
    app.event(Command::MoveRight);
    app.event(Command::MoveRight);
    let off = app.state().offset;
    assert!(off.0 < 2 && off.1 < 2);
}

#[test]
fn fully_visible_table_does_not_scroll() {
    let csv = CSV::new(grid(2, 2, "q"));
    let mut app = App::new(csv, PlainStyle::new(0, 0));
    app.render(area(10, 10));
    assert_eq!(app.state().text_cut, (false, false));
    app.event(Command::MoveDown);
    assert_eq!(app.state().offset, (0, 0));
    app.event(Command::MoveRight);
    assert_eq!(app.state().offset, (0, 0));
}

#[test]
fn page_down_and_page_up_move_one_viewport() {
    let csv = CSV::new(grid(100, 1, "x"));
    let mut app = App::new(csv, PlainStyle::new(0, 0));
    app.render(area(5, 10));
    assert_eq!(app.state().last_cell, (9, 0));
    app.event(Command::PageDown);
    assert_eq!(app.state().offset, (9, 0));
    app.render(area(5, 10));
    assert_eq!(app.state().last_cell, (18, 0));
    app.event(Command::PageUp);
    assert_eq!(app.state().offset, (0, 0));
}

#[test]
fn selection_anchors_at_offset() {
    let csv = CSV::new(grid(100, 1, "x"));
    let mut app = App::new(csv, PlainStyle::new(0, 0));
    app.render(area(5, 10));
    app.event(Command::MoveDown);
    app.event(Command::MoveDown);
    app.render(area(5, 10));
    app.event(Command::ToggleSelectMode);
    assert_eq!(app.state().selection, Selection::Cell(2, 0));
    app.event(Command::ToggleSelectMode);
    assert_eq!(app.state().selection, Selection::NoSelect);
}

#[test]
fn selection_moves_within_viewport_bounds() {
    let csv = CSV::new(grid(10, 5, "mn"));
    let mut app = App::new(csv, PlainStyle::new(0, 1));
    app.render(area(40, 20));
    app.event(Command::ToggleSelectMode);
    app.event(Command::MoveUp);
    app.event(Command::MoveLeft);
    assert_eq!(app.state().selection, Selection::Cell(0, 0));
    app.event(Command::MoveRight);
    app.event(Command::MoveDown);
    assert_eq!(app.state().selection, Selection::Cell(1, 1));
}

#[test]
fn close_clears_the_open_flag() {
    let csv = CSV::new(grid(1, 1, "z"));
    let mut app = App::new(csv, PlainStyle::new(0, 0));
    assert!(app.is_open());
    app.event(Command::Close);
    assert!(!app.is_open());
}

#[test]
fn csv_shape_values_and_widths() {
    let recs = vec![
        vec!["a".to_string(), "bbb".to_string()],
        vec!["cc".to_string(), "d".to_string()],
    ];
    let csv = CSV::new(recs);
    assert_eq!(csv.shape(), (2, 2));
    assert_eq!(csv.value(0, 1), "bbb");
    assert_eq!(csv.value(1, 0), "cc");
    assert_eq!(csv.max_widths(), &[2, 3]);
}

#[test]
fn split_lines_cases() {
    let empty: Vec<String> = Vec::new();
    assert_eq!(split_lines(""), empty);
    assert_eq!(split_lines("a"), vec!["a".to_string()]);
    assert_eq!(split_lines("a\nb"), vec!["a".to_string(), "b".to_string()]);
    assert_eq!(split_lines("a\n"), vec!["a".to_string()]);
    assert_eq!(split_lines("\n"), vec![String::new()]);
    assert_eq!(
        split_lines("a\n\nb"),
        vec!["a".to_string(), String::new(), "b".to_string()]
    );
}

#[test]
fn decimal_rendering() {
    assert_eq!(usize_to_string(0), "0");
    assert_eq!(usize_to_string(7), "7");
    assert_eq!(usize_to_string(1234), "1234");
    assert_eq!(usize_to_string(65535), "65535");
}

#[test]
fn dummy_data_source_contents() {
    let d = DummyDataSource::default();
    assert_eq!(d.shape(), (40, 10));
    assert_eq!(d.value(3, 4), "Value (3, 4)\n------(7)");
    assert_eq!(d.value(0, 0), "Value (0, 0)\n------(0)");
    assert_eq!(d.max_widths(), &[15u16; 10][..]);
}

#[test]
fn dummy_style_cycles_colors_and_reverses() {
    let s = DummyStyle::default();
    assert_eq!(s.normal(0, 7).color, 1);
    assert_eq!(s.normal(5, 0).color, 0);
    assert!(!s.normal(1, 2).reversed);
    let h = s.highlight(1, 2);
    assert_eq!(h.color, 2);
    assert!(h.reversed);
    assert_eq!(s.row_spacing(), 1);
    assert_eq!(s.col_spacing(), 1);
}

#[test]
fn dummy_table_renders_with_shrink_and_cuts() {
    let d = DummyDataSource::default();
    let mut app = App::new(d, DummyStyle::default());
    let ops = app.render(area(80, 24));
    assert!(!ops.is_empty());
    assert_eq!(app.state().last_cell.0 - app.state().offset.0, 7);
    assert!(app.state().text_cut.0);
    for op in &ops {
        assert!(op.width <= 15);
        assert!(op.y < 24);
    }
}
