//! Unit checks of the leaves: cells, the layout formulas of the two view
//! factories, and the result-set container.

use csg::navigator::{CSG, DEFAULT_HEIGHT, DEFAULT_WIDTH, KEY_e};
use csg::result::ExecResult;
use csg::screen::{CELL_WIDTH, CSGScreen};
use csg::window::CSGWindow;

fn tables_result() -> ExecResult {
    ExecResult {
        num_cols: Some(1),
        col_text: vec![vec!["users".to_string()], vec!["orders".to_string()]],
        col_names: Some(vec!["name".to_string()]),
    }
}

fn users_dump() -> ExecResult {
    ExecResult {
        num_cols: Some(2),
        col_text: vec![
            vec!["1".to_string(), "alice".to_string()],
            vec!["2".to_string(), "bob".to_string()],
        ],
        col_names: Some(vec!["id".to_string(), "name".to_string()]),
    }
}

#[test]
fn highlight_wraps_in_asterisks() {
    assert_eq!(CSGWindow::highlight("users".to_string()), "*users*");
    assert_eq!(CSGWindow::highlight(String::new()), "**");
}

#[test]
fn window_select_cycle() {
    let mut w = CSGWindow::new(true, 1, CELL_WIDTH, 3, 64);
    assert_eq!(w.text, "");
    assert_eq!(w.shown, "");
    assert_eq!((w.nlines, w.ncols, w.begin_y, w.begin_x), (1, CELL_WIDTH, 3, 64));
    w.set_text("abc".to_string());
    assert_eq!(w.text, "abc");
    assert_eq!(w.shown, "abc");
    w.select();
    assert_eq!(w.text, "abc");
    assert_eq!(w.shown, "*abc*");
    w.unselect();
    assert_eq!(w.shown, "abc");
}

#[test]
fn exec_result_reset() {
    let mut r = ExecResult::new();
    assert!(r.num_cols.is_none());
    assert!(r.col_text.is_empty());
    assert!(r.get_col_names().is_none());
    r.num_cols = Some(1);
    r.col_text.push(vec!["users".to_string()]);
    r.col_names = Some(vec!["name".to_string()]);
    assert_eq!(r.get_col_names().unwrap(), &vec!["name".to_string()]);
    r.reset();
    assert!(r.num_cols.is_none());
    assert!(r.col_text.is_empty());
    assert!(r.get_col_names().is_none());
}

#[test]
fn list_layout_dimensions() {
    // A table list is laid out on a (height, width / CELL_WIDTH) grid.
    let c = CSG::new(100, 40, &tables_result()).unwrap();
    assert_eq!(c.screens[0].rows, 40);
    assert_eq!(c.screens[0].cols, 100 / CELL_WIDTH);
    // Entry y sits at (0, y), one cell tall, CELL_WIDTH wide, on line y.
    let w0 = c.screens[0].windows[0][0].as_ref().unwrap();
    let w1 = c.screens[0].windows[0][1].as_ref().unwrap();
    assert_eq!((w0.nlines, w0.ncols, w0.begin_y, w0.begin_x), (1, CELL_WIDTH, 0, 0));
    assert_eq!((w1.nlines, w1.ncols, w1.begin_y, w1.begin_x), (1, CELL_WIDTH, 1, 0));
    assert!(c.screens[0].windows[1][0].is_none());
}

#[test]
fn dump_layout_dimensions() {
    // A table dump is laid out on a (height, width) grid: header cells at
    // (x, 0) on line 0 at column x * CELL_WIDTH, data row j at (x, j + 1).
    let mut c = CSG::new(DEFAULT_WIDTH, DEFAULT_HEIGHT, &tables_result()).unwrap();
    assert!(c.dispatch_key(KEY_e, Some(Ok(users_dump()))).is_some());
    let dump = &c.screens[1];
    assert_eq!(dump.rows, DEFAULT_HEIGHT);
    assert_eq!(dump.cols, DEFAULT_WIDTH);
    let h1 = dump.windows[1][0].as_ref().unwrap();
    assert_eq!((h1.nlines, h1.ncols, h1.begin_y, h1.begin_x), (1, CELL_WIDTH, 0, CELL_WIDTH));
    let d = dump.windows[1][2].as_ref().unwrap();
    assert_eq!(d.text, "bob");
    assert_eq!((d.begin_y, d.begin_x), (2, CELL_WIDTH));
    assert!(d.selectable);
}

#[test]
fn empty_table_list_is_an_error() {
    let empty = ExecResult { num_cols: None, col_text: Vec::new(), col_names: None };
    assert!(CSG::new(DEFAULT_WIDTH, DEFAULT_HEIGHT, &empty).is_err());
}

#[test]
fn zero_height_is_an_error() {
    assert!(CSG::new(DEFAULT_WIDTH, 0, &tables_result()).is_err());
}

#[test]
fn oversized_table_list_is_an_error() {
    // Width 80 leaves 80 / CELL_WIDTH == 2 slots; three tables do not fit.
    let three = ExecResult {
        num_cols: Some(1),
        col_text: vec![
            vec!["users".to_string()],
            vec!["orders".to_string()],
            vec!["items".to_string()],
        ],
        col_names: Some(vec!["name".to_string()]),
    };
    assert!(CSG::new(80, DEFAULT_HEIGHT, &three).is_err());
}

#[test]
fn dump_factory_direct() {
    // The factory itself: succeeds on a fitting dump, pre-selects (0, 1).
    let s = CSGScreen::new_table_dump(DEFAULT_WIDTH, DEFAULT_HEIGHT, &users_dump()).unwrap();
    assert_eq!(s.active_window, (0, 1));
    let first = s.windows[0][1].as_ref().unwrap();
    assert_eq!(first.text, "1");
    assert_eq!(first.shown, "*1*");
    // A dump whose first row is empty is rejected.
    let ragged = ExecResult {
        num_cols: Some(2),
        col_text: vec![Vec::new(), vec!["2".to_string(), "bob".to_string()]],
        col_names: Some(vec!["id".to_string(), "name".to_string()]),
    };
    assert!(CSGScreen::new_table_dump(DEFAULT_WIDTH, DEFAULT_HEIGHT, &ragged).is_err());
}

#[test]
fn list_factory_flattens_rows() {
    // Every text of every result row becomes one list entry, in order.
    let two_per_row = ExecResult {
        num_cols: Some(2),
        col_text: vec![
            vec!["a".to_string(), "b".to_string()],
            vec!["c".to_string()],
        ],
        col_names: Some(vec!["name".to_string(), "other".to_string()]),
    };
    let s = CSGScreen::new_table_list(128, DEFAULT_HEIGHT, &two_per_row).unwrap();
    let texts: Vec<&str> = (0..3)
        .map(|y| s.windows[0][y].as_ref().unwrap().text.as_str())
        .collect();
    assert_eq!(texts, vec!["a", "b", "c"]);
    assert!(s.windows[0][3].is_none());
}
