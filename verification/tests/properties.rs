//! Scenarios over the navigation engine: bounds safety, the selectability
//! gate, idempotent re-selection, the transition into a table dump and back,
//! and the error outcomes of the open transition.

use csg::navigator::{CSG, DEFAULT_HEIGHT, DEFAULT_WIDTH, KEY_e, KEY_h, KEY_j, KEY_l, KEY_q};
use csg::result::ExecResult;
use csg::screen::ScreenKind;

fn tables_result() -> ExecResult {
    ExecResult {
        num_cols: Some(1),
        col_text: vec![vec!["users".to_string()], vec!["orders".to_string()]],
        col_names: Some(vec!["name".to_string()]),
    }
}

fn users_dump() -> ExecResult {
    ExecResult {
        num_cols: Some(2),
        col_text: vec![
            vec!["1".to_string(), "alice".to_string()],
            vec!["2".to_string(), "bob".to_string()],
        ],
        col_names: Some(vec!["id".to_string(), "name".to_string()]),
    }
}

fn new_csg() -> CSG {
    CSG::new(DEFAULT_WIDTH, DEFAULT_HEIGHT, &tables_result()).unwrap()
}

#[test]
fn fresh_session() {
    // Stack of one table-list screen, (0, 0) active, "users" emphasized.
    let c = new_csg();
    assert_eq!(c.screens.len(), 1);
    assert_eq!(c.get_active_window_coords(), (0, 0));
    let cell = c.get_active_window().unwrap();
    assert_eq!(cell.text, "users");
    assert_eq!(cell.shown, "*users*");
    assert!(cell.selectable);
    assert!(matches!(c.screens[0].kind, ScreenKind::TableList));
}

#[test]
fn boundary_bump_left() {
    // A single-column table list: "left" from (0, 0) goes nowhere.
    let one = ExecResult {
        num_cols: Some(1),
        col_text: vec![vec!["users".to_string()]],
        col_names: Some(vec!["name".to_string()]),
    };
    let mut c = CSG::new(DEFAULT_WIDTH, DEFAULT_HEIGHT, &one).unwrap();
    let result = c.dispatch_key(KEY_h, None);
    assert!(result.is_some());
    assert_eq!(c.get_active_window_coords(), (0, 0));
}

#[test]
fn valid_descent() {
    // "down" on a two-row grid moves the active position to (0, 1).
    let mut c = new_csg();
    let result = c.dispatch_key(KEY_j, None);
    assert!(result.is_some());
    assert_eq!(c.get_active_window_coords(), (0, 1));
    assert_eq!(c.get_active_window().unwrap().text, "orders");
    assert_eq!(c.get_active_window().unwrap().shown, "*orders*");
}

#[test]
fn bump_into_empty_slot() {
    // (1, 0) is inside the grid but holds no cell: "right" is rejected.
    let mut c = new_csg();
    let result = c.dispatch_key(KEY_l, None);
    assert!(result.is_some());
    assert_eq!(c.get_active_window_coords(), (0, 0));
}

#[test]
fn reselect_active_position() {
    // Moving to the currently active position changes nothing.
    let mut c = new_csg();
    let coords = c.get_active_window_coords();
    c.set_active_window(coords, coords);
    assert_eq!(c.get_active_window_coords(), coords);
    assert_eq!(c.get_active_window().unwrap().shown, "*users*");
}

#[test]
fn open_pushes_dump_with_header() {
    // "open" on the "users" cell pushes exactly one table-dump screen whose
    // header row carries the reported column names, non-selectable.
    let mut c = new_csg();
    let result = c.dispatch_key(KEY_e, Some(Ok(users_dump())));
    assert!(matches!(result, Some(Ok(()))));
    assert_eq!(c.screens.len(), 2);
    let dump = &c.screens[1];
    assert!(matches!(dump.kind, ScreenKind::TableDump));
    let id = dump.windows[0][0].as_ref().unwrap();
    let name = dump.windows[1][0].as_ref().unwrap();
    assert_eq!(id.text, "id");
    assert_eq!(name.text, "name");
    assert!(!id.selectable);
    assert!(!name.selectable);
    // First data cell pre-selected.
    assert_eq!(c.get_active_window_coords(), (0, 1));
    assert_eq!(c.get_active_window().unwrap().text, "1");
    assert_eq!(c.get_active_window().unwrap().shown, "*1*");
}

#[test]
fn open_quit_round_trip() {
    // "open" then "quit" restores stack length, active position and
    // rendering.
    let mut c = new_csg();
    let coords = c.get_active_window_coords();
    assert!(c.dispatch_key(KEY_e, Some(Ok(users_dump()))).is_some());
    assert!(c.dispatch_key(KEY_q, None).is_some());
    assert_eq!(c.screens.len(), 1);
    assert_eq!(c.get_active_window_coords(), coords);
    let cell = c.get_active_window().unwrap();
    assert_eq!(cell.text, "users");
    assert_eq!(cell.shown, "*users*");
}

#[test]
fn quit_at_root_terminates() {
    let mut c = new_csg();
    let result = c.dispatch_key(KEY_q, None);
    assert!(result.is_none());
    assert_eq!(c.screens.len(), 0);
}

#[test]
fn open_propagates_query_error() {
    // A query engine failure surfaces as the dispatch error, message intact,
    // and leaves the stack unchanged.
    let mut c = new_csg();
    let result = c.dispatch_key(KEY_e, Some(Err("query failed: no such table".to_string())));
    match result {
        Some(Err(msg)) => assert_eq!(msg, "query failed: no such table"),
        _ => panic!("expected a propagated error"),
    }
    assert_eq!(c.screens.len(), 1);
}

#[test]
fn open_rejects_dump_without_column_names() {
    let mut c = new_csg();
    let bad = ExecResult { num_cols: None, col_text: Vec::new(), col_names: None };
    let result = c.dispatch_key(KEY_e, Some(Ok(bad)));
    assert!(matches!(result, Some(Err(_))));
    assert_eq!(c.screens.len(), 1);
}

#[test]
fn open_rejects_empty_dump() {
    let mut c = new_csg();
    let empty = ExecResult {
        num_cols: Some(2),
        col_text: Vec::new(),
        col_names: Some(vec!["id".to_string(), "name".to_string()]),
    };
    let result = c.dispatch_key(KEY_e, Some(Ok(empty)));
    assert!(matches!(result, Some(Err(_))));
    assert_eq!(c.screens.len(), 1);
}

#[test]
fn unknown_key_is_ignored() {
    let mut c = new_csg();
    let coords = c.get_active_window_coords();
    let result = c.dispatch_key(999, None);
    assert!(matches!(result, Some(Ok(()))));
    assert_eq!(c.screens.len(), 1);
    assert_eq!(c.get_active_window_coords(), coords);
}

#[test]
fn descend_within_dump() {
    // After opening, "down" moves from the first data row to the second.
    let mut c = new_csg();
    assert!(c.dispatch_key(KEY_e, Some(Ok(users_dump()))).is_some());
    assert_eq!(c.get_active_window_coords(), (0, 1));
    assert!(c.dispatch_key(KEY_j, None).is_some());
    assert_eq!(c.get_active_window_coords(), (0, 2));
    assert_eq!(c.get_active_window().unwrap().text, "2");
}
