use papr::config_editor::{
    config_editor_takes, finish_settings_key, handle_config_editor_insert_key,
    handle_config_editor_key, move_config_editor_page, record_config_history,
    reload_config_editor_buffer, SettingsKeyResult,
};
use papr::keys::{KeyCode, KeyEvent, KeyModifiers};
use papr::lines::{next_word_boundary, prev_word_boundary};
use papr::state::App;
use papr::text_edit::edit_text;
use papr::wrap::{build_config_editor_view, cursor_visual_position};

#[test]
fn editor_view_expands_tabs_and_maps_the_cursor_to_the_visible_tab_stop() {
    let mut scroll = 0;
    let view = build_config_editor_view("\tX", 1, 20, 4, &mut scroll);

    assert_eq!(view.cursor_row, 0);
    assert_eq!(view.cursor_col, 4);
    assert_eq!(view.lines, vec!["  1     X"]);
}

#[test]
fn test_word_wise_and_line_editing_navigation() {
    let text = "hello world  rust_programming  123";
    // Test word boundaries
    assert_eq!(next_word_boundary(text, 0), 6); // start of "world"
    assert_eq!(next_word_boundary(text, 6), 13); // start of "rust_programming"
    assert_eq!(next_word_boundary(text, 13), 31); // start of "123"

    assert_eq!(prev_word_boundary(text, 34), 31); // start of "123"
    assert_eq!(prev_word_boundary(text, 31), 13); // start of "rust_programming"
    assert_eq!(prev_word_boundary(text, 13), 6); // start of "world"

    let mut buffer = "first second\nthird fourth".to_owned();
    let mut cursor = 6;

    // Test Home
    edit_text(
        &mut buffer,
        &mut cursor,
        KeyEvent::new(KeyCode::Home, KeyModifiers::none()),
    );
    assert_eq!(cursor, 0);

    // Test End
    edit_text(
        &mut buffer,
        &mut cursor,
        KeyEvent::new(KeyCode::End, KeyModifiers::none()),
    );
    assert_eq!(cursor, 12); // end of "first second"

    // Test Ctrl + Left
    edit_text(
        &mut buffer,
        &mut cursor,
        KeyEvent::new(KeyCode::Left, KeyModifiers::control()),
    );
    assert_eq!(cursor, 6); // start of "second"

    // Test Ctrl + Right
    edit_text(
        &mut buffer,
        &mut cursor,
        KeyEvent::new(KeyCode::Right, KeyModifiers::control()),
    );
    assert_eq!(cursor, 13);
}

#[test]
fn insert_mode_arrow_keys_move_without_exiting_insert_mode() {
    let mut app = App::default();
    app.config_editor.text = "abc\ndef".into();
    app.config_editor.cursor = 1;
    app.config_editor.wrap_width = 8;
    app.config_editor.viewport_height = 4;
    app.config_editor.insert_mode = true;

    handle_config_editor_insert_key(
        &mut app,
        KeyEvent::new(KeyCode::Right, KeyModifiers::none()),
    );
    assert!(app.config_editor.insert_mode);
    assert_eq!(app.config_editor.cursor, 2);

    handle_config_editor_insert_key(&mut app, KeyEvent::new(KeyCode::Left, KeyModifiers::none()));
    assert!(app.config_editor.insert_mode);
    assert_eq!(app.config_editor.cursor, 1);

    handle_config_editor_insert_key(&mut app, KeyEvent::new(KeyCode::Down, KeyModifiers::none()));
    assert!(app.config_editor.insert_mode);
    assert_eq!(app.config_editor.cursor, 5);

    handle_config_editor_insert_key(&mut app, KeyEvent::new(KeyCode::Up, KeyModifiers::none()));
    assert!(app.config_editor.insert_mode);
    assert_eq!(app.config_editor.cursor, 1);
}

#[test]
fn insert_mode_vertical_movement_respects_wrapped_rows() {
    let mut app = App::default();
    app.config_editor.text = "abcdefghij".into();
    app.config_editor.cursor = 3;
    app.config_editor.wrap_width = 4;
    app.config_editor.viewport_height = 3;
    app.config_editor.insert_mode = true;

    handle_config_editor_insert_key(&mut app, KeyEvent::new(KeyCode::Down, KeyModifiers::none()));
    assert_eq!(app.config_editor.cursor, 7);

    handle_config_editor_insert_key(&mut app, KeyEvent::new(KeyCode::Down, KeyModifiers::none()));
    assert_eq!(app.config_editor.cursor, 10);

    handle_config_editor_insert_key(&mut app, KeyEvent::new(KeyCode::Up, KeyModifiers::none()));
    assert_eq!(app.config_editor.cursor, 7);
}

#[test]
fn editor_page_navigation_moves_by_the_visible_row_count() {
    let mut app = App::default();
    app.config_editor.text = "abcdefghijklmnop".into();
    app.config_editor.wrap_width = 4;
    app.config_editor.viewport_height = 3;

    move_config_editor_page(&mut app, 1);
    assert_eq!(app.config_editor.cursor, 12);

    move_config_editor_page(&mut app, -1);
    assert_eq!(app.config_editor.cursor, 0);
}

#[test]
fn reloading_config_editor_discards_the_entire_unsaved_buffer_state() {
    let mut app = App::default();
    app.config_editor.text = "unsaved = true".into();
    app.config_editor.cursor = 7;
    app.config_editor.error = Some("Invalid TOML".into());
    app.config_editor.scroll = 4;
    app.config_editor.history = vec!["original = true".into(), "unsaved = true".into()];
    app.config_editor.history_idx = 1;
    app.config_editor.command = Some("q".into());
    app.config_editor.goal_column = Some(3);
    app.config_editor.insert_mode = true;

    reload_config_editor_buffer(&mut app, Ok("theme = \"paper\"\n".into()));

    assert_eq!(app.config_editor.text, "theme = \"paper\"\n");
    assert_eq!(app.config_editor.cursor, 0);
    assert_eq!(app.config_editor.scroll, 0);
    assert_eq!(app.config_editor.history, vec!["theme = \"paper\"\n"]);
    assert_eq!(app.config_editor.history_idx, 0);
    assert!(!app.config_editor.insert_mode);
    assert!(app.config_editor.command.is_none());
    assert!(app.config_editor.error.is_none());
    assert!(app.config_editor.goal_column.is_none());

}

#[test]
fn wrapped_editor_view_tracks_visual_cursor_and_scroll() {
    let text = "abcd\nefghijkl";
    let mut scroll = 0;
    let view = build_config_editor_view(text, 11, 4, 2, &mut scroll);

    assert_eq!(view.lines, vec!["  1 abcd", "  2 efgh", "    ijkl"]);
    assert_eq!((view.cursor_row, view.cursor_col), (2, 2));
    assert_eq!(scroll, 1);
}

#[test]
fn cursor_visual_position_handles_wrap_boundary_at_line_end() {
    let (row, col) = cursor_visual_position("abcd", 4, 4);
    assert_eq!((row, col), (0, 3));
}

fn press(code: KeyCode) -> KeyEvent {
    KeyEvent::new(code, KeyModifiers::none())
}

/// The editor after undoing to a text in which the cursor stands within a character.
fn undone() -> App {
    let mut app = App::default();
    app.config_editor.history = vec!["é".into(), "ab".into()];
    app.config_editor.history_idx = 1;
    app.config_editor.text = "ab".into();
    app.config_editor.cursor = 1;
    assert!(handle_config_editor_key(&mut app, press(KeyCode::Char('u'))).is_none());
    assert_eq!(app.config_editor.text, "é");
    assert_eq!(app.config_editor.cursor, 1);
    app
}

#[test]
fn keys_that_read_no_cursor_work_within_a_character() {
    let mut app = undone();
    for code in [KeyCode::Char('k'), KeyCode::Char('x'), KeyCode::Right, KeyCode::Home] {
        assert!(!config_editor_takes(&app.config_editor, press(code)));
    }
    for code in ['i', ':', 'u', 'q', 'h', '?'] {
        assert!(config_editor_takes(&app.config_editor, press(KeyCode::Char(code))));
    }
    assert!(handle_config_editor_key(&mut app, press(KeyCode::Char('i'))).is_none());
    assert!(app.config_editor.insert_mode);
    assert!(!config_editor_takes(&app.config_editor, press(KeyCode::Char('a'))));
    assert!(handle_config_editor_key(&mut app, press(KeyCode::Esc)).is_none());
    assert!(!app.config_editor.insert_mode);
    assert_eq!(app.config_editor.cursor, 1);
    assert!(handle_config_editor_key(&mut app, press(KeyCode::Char(':'))).is_none());
    assert_eq!(app.config_editor.command.as_deref(), Some(""));
    assert!(handle_config_editor_key(&mut app, press(KeyCode::Esc)).is_none());
    assert!(handle_config_editor_key(&mut app, press(KeyCode::Left)).is_none());
    assert_eq!(app.config_editor.cursor, 0);
    assert!(config_editor_takes(&app.config_editor, press(KeyCode::Char('x'))));
    assert!(handle_config_editor_key(&mut app, press(KeyCode::Char('x'))).is_none());
    assert_eq!(app.config_editor.text, "");
}

#[test]
fn left_and_right_stay_on_their_line() {
    let mut app = App::default();
    app.config_editor.text = "a\né".into();
    app.config_editor.cursor = 2;
    let _ = handle_config_editor_key(&mut app, press(KeyCode::Left));
    assert_eq!(app.config_editor.cursor, 2);
    let _ = handle_config_editor_key(&mut app, press(KeyCode::Char('l')));
    assert_eq!(app.config_editor.cursor, 4);
    let _ = handle_config_editor_key(&mut app, press(KeyCode::Char('l')));
    assert_eq!(app.config_editor.cursor, 4);
    app.config_editor.cursor = 1;
    let _ = handle_config_editor_key(&mut app, press(KeyCode::Right));
    assert_eq!(app.config_editor.cursor, 1);
    app.config_editor.cursor = 9;
    let _ = handle_config_editor_key(&mut app, press(KeyCode::Right));
    assert_eq!(app.config_editor.cursor, 9);
    let _ = handle_config_editor_key(&mut app, press(KeyCode::Left));
    assert_eq!(app.config_editor.cursor, 4);
}

#[test]
fn an_empty_history_takes_any_index() {
    let mut app = App::default();
    app.config_editor.text = "a".into();
    app.config_editor.history_idx = 7;
    assert!(!config_editor_takes(&app.config_editor, press(KeyCode::Char('u'))));
    record_config_history(&mut app);
    assert_eq!(app.config_editor.history, ["a"]);
    assert_eq!(app.config_editor.history_idx, 0);
}

#[test]
fn leaving_the_settings_takes_a_tried_theme_back() {
    let mut app = App::default();
    app.content_focused = true;
    let try_theme = SettingsKeyResult::PreviewTheme("dawn".into());
    assert_eq!(finish_settings_key(&mut app, try_theme, "dusk", "dusk").as_deref(), Some("dawn"));
    for result in [SettingsKeyResult::Handled, SettingsKeyResult::Apply] {
        assert_eq!(finish_settings_key(&mut app, result, "dusk", "dawn"), None);
    }
    assert!(app.content_focused && !app.should_quit);
    let left = finish_settings_key(&mut app, SettingsKeyResult::ReturnToSidebar, "dusk", "dawn");
    assert_eq!(left.as_deref(), Some("dusk"));
    assert!(!app.content_focused && !app.should_quit);
    assert_eq!(finish_settings_key(&mut app, SettingsKeyResult::Quit, "dusk", "dusk"), None);
    assert!(app.should_quit);
    assert_eq!(finish_settings_key(&mut app, SettingsKeyResult::Quit, "", "dawn"), None);
}
