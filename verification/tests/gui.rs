//! The dispatch-level behavior of the navigator: setup, movement, the open
//! transition into a table dump, and the quit transition back out.

use csg::navigator::{CSG, DEFAULT_HEIGHT, DEFAULT_WIDTH, KEY_e, KEY_h, KEY_j, KEY_k, KEY_l, KEY_q};
use csg::result::ExecResult;

/// A database exposing the tables `users` and `orders`.
fn tables_result() -> ExecResult {
    ExecResult {
        num_cols: Some(1),
        col_text: vec![vec!["users".to_string()], vec!["orders".to_string()]],
        col_names: Some(vec!["name".to_string()]),
    }
}

/// The dump of the `users` table: two columns, two rows.
fn users_dump() -> ExecResult {
    ExecResult {
        num_cols: Some(2),
        col_text: vec![
            vec!["1".to_string(), "alice".to_string()],
            vec!["2".to_string(), "bob".to_string()],
        ],
        col_names: Some(vec!["id".to_string(), "name".to_string()]),
    }
}

fn new_csg() -> CSG {
    CSG::new(DEFAULT_WIDTH, DEFAULT_HEIGHT, &tables_result()).unwrap()
}

#[test]
fn gui_setup() {
    let my_csgui = new_csg();
    assert_eq!(my_csgui.active_screen, 0);
    assert_eq!(my_csgui.screens.len(), 1);
}

#[test]
fn main_screen_invalid_movement() {
    let mut my_csgui = new_csg();
    // Coords should not change when moving outside boundary
    let coords = my_csgui.get_active_window_coords();
    let result = my_csgui.dispatch_key(KEY_h, None);
    let new_coords = my_csgui.get_active_window_coords();
    assert!(result.is_some());
    assert_eq!(coords, new_coords);
}

#[test]
fn main_screen_valid_movement() {
    let mut my_csgui = new_csg();
    // Coords should change when moving inside boundary
    let coords = my_csgui.get_active_window_coords();
    let result = my_csgui.dispatch_key(KEY_j, None);
    let new_coords = my_csgui.get_active_window_coords();
    assert!(result.is_some());
    assert!(coords != new_coords);
}

#[test]
fn main_screen_edit() {
    // Edit should activate table dump screen
    let mut my_csgui = new_csg();
    assert_eq!(my_csgui.active_screen, 0);
    let result = my_csgui.dispatch_key(KEY_e, Some(Ok(users_dump())));
    assert!(result.is_some());
    assert_eq!(my_csgui.active_screen, 1);
}

#[test]
fn main_screen_quit() {
    // Quit should cease mainloop execution by returning None
    let mut my_csgui = new_csg();
    let result = my_csgui.dispatch_key(KEY_q, None);
    assert!(result.is_none());
}

#[test]
fn table_dump_screen_invalid_movement() {
    let mut my_csgui = new_csg();
    // Coords should not change, column titles are not selectable
    let mut result = my_csgui.dispatch_key(KEY_e, Some(Ok(users_dump())));
    assert!(result.is_some());
    let coords = my_csgui.get_active_window_coords();
    result = my_csgui.dispatch_key(KEY_k, None);
    let new_coords = my_csgui.get_active_window_coords();
    assert!(result.is_some());
    assert_eq!(coords, new_coords);
}

#[test]
fn table_dump_screen_valid_movement() {
    let mut my_csgui = new_csg();
    // Movement to a new column is allowed
    let mut result = my_csgui.dispatch_key(KEY_e, Some(Ok(users_dump())));
    assert!(result.is_some());
    let coords = my_csgui.get_active_window_coords();
    result = my_csgui.dispatch_key(KEY_l, None);
    let new_coords = my_csgui.get_active_window_coords();
    assert!(result.is_some());
    assert!(coords != new_coords);
}

#[test]
fn table_dump_screen_edit() {
    // Edit is unsupported on a table dump: a no-op
    let mut my_csgui = new_csg();
    assert_eq!(my_csgui.active_screen, 0);
    let mut result = my_csgui.dispatch_key(KEY_e, Some(Ok(users_dump())));
    assert!(result.is_some());
    assert_eq!(my_csgui.active_screen, 1);
    result = my_csgui.dispatch_key(KEY_e, None);
    assert!(result.is_some());
    assert_eq!(my_csgui.active_screen, 1);
}

#[test]
fn table_dump_screen_quit() {
    // Quit should return to main screen and not exit mainloop
    let mut my_csgui = new_csg();
    assert_eq!(my_csgui.active_screen, 0);
    let mut result = my_csgui.dispatch_key(KEY_e, Some(Ok(users_dump())));
    assert!(result.is_some());
    assert_eq!(my_csgui.active_screen, 1);
    result = my_csgui.dispatch_key(KEY_q, None);
    assert!(result.is_some());
    assert_eq!(my_csgui.active_screen, 0);
}
