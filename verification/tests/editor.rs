use minerva::app::{App, InputMode};

fn app_with(input: &str, cursor: usize) -> App {
    let mut last = 0usize;
    let mut app = App::new(false, &mut last);
    app.input = input.to_string();
    app.character_index = cursor;
    app
}

#[test]
fn new_app_starts_empty_in_editing_mode() {
    let mut last = 41usize;
    let app = App::new(true, &mut last);
    assert_eq!(last, 42);
    assert_eq!(app.session.id(), 42);
    assert_eq!(app.session.len(), 0);
    assert_eq!(app.input, "");
    assert_eq!(app.character_index, 0);
    assert!(matches!(app.input_mode, InputMode::Editing));
    assert!(app.messages.is_empty());
    assert!(!app.should_quit);
    assert!(!app.streaming);
    assert!(app.connected);
}

#[test]
fn typing_inserts_at_cursor() {
    let mut app = app_with("", 0);
    app.enter_char('h');
    app.enter_char('i');
    assert_eq!(app.input, "hi");
    assert_eq!(app.character_index, 2);
    app.move_cursor_left();
    app.enter_char('X');
    assert_eq!(app.input, "hXi");
    assert_eq!(app.character_index, 2);
}

#[test]
fn typing_handles_multibyte_characters() {
    let mut app = app_with("你好", 1);
    app.enter_char('们');
    assert_eq!(app.input, "你们好");
    assert_eq!(app.character_index, 2);
    app.enter_char('é');
    assert_eq!(app.input, "你们é好");
    assert_eq!(app.character_index, 3);
}

#[test]
fn typing_past_the_end_appends() {
    let mut app = app_with("ab", 7);
    app.enter_char('c');
    assert_eq!(app.input, "abc");
    assert_eq!(app.character_index, 3);
}

#[test]
fn byte_index_counts_utf8_bytes() {
    assert_eq!(app_with("a你b", 0).byte_index(), 0);
    assert_eq!(app_with("a你b", 1).byte_index(), 1);
    assert_eq!(app_with("a你b", 2).byte_index(), 4);
    assert_eq!(app_with("a你b", 3).byte_index(), 5);
    assert_eq!(app_with("a你b", 9).byte_index(), 5);
}

#[test]
fn backspace_deletes_before_cursor() {
    let mut app = app_with("héllo", 2);
    app.delete_char();
    assert_eq!(app.input, "hllo");
    assert_eq!(app.character_index, 1);
    app.delete_char();
    assert_eq!(app.input, "llo");
    assert_eq!(app.character_index, 0);
    app.delete_char();
    assert_eq!(app.input, "llo");
    assert_eq!(app.character_index, 0);
}

#[test]
fn backspace_with_cursor_past_end_keeps_text() {
    let mut app = app_with("abc", 5);
    app.delete_char();
    assert_eq!(app.input, "abc");
    assert_eq!(app.character_index, 3);
}

#[test]
fn cursor_moves_stay_in_input() {
    let mut app = app_with("ab", 0);
    app.move_cursor_left();
    assert_eq!(app.character_index, 0);
    app.move_cursor_right();
    app.move_cursor_right();
    app.move_cursor_right();
    assert_eq!(app.character_index, 2);
    let mut far = app_with("ab", usize::MAX);
    far.move_cursor_right();
    assert_eq!(far.character_index, 2);
    let mut far = app_with("ab", 9);
    far.move_cursor_left();
    assert_eq!(far.character_index, 2);
}

#[test]
fn clamp_cursor_limits_to_char_count() {
    let app = app_with("añb", 0);
    assert_eq!(app.clamp_cursor(0), 0);
    assert_eq!(app.clamp_cursor(3), 3);
    assert_eq!(app.clamp_cursor(4), 3);
    assert_eq!(app.clamp_cursor(usize::MAX), 3);
}

#[test]
fn reset_cursor_goes_to_start() {
    let mut app = app_with("abc", 2);
    app.reset_cursor();
    assert_eq!(app.character_index, 0);
    assert_eq!(app.input, "abc");
}

#[test]
fn delete_undoes_enter() {
    for (text, cursor) in [("", 0usize), ("abc", 0), ("abc", 2), ("abc", 3), ("ñü", 1)] {
        let mut app = app_with(text, cursor);
        app.enter_char('Z');
        app.delete_char();
        assert_eq!(app.input, text);
        assert_eq!(app.character_index, cursor);
    }
}

#[test]
fn moves_cancel() {
    let mut app = app_with("abcd", 2);
    app.move_cursor_right();
    app.move_cursor_left();
    assert_eq!(app.character_index, 2);
    app.move_cursor_left();
    app.move_cursor_right();
    assert_eq!(app.character_index, 2);
}

#[test]
fn edits_keep_cursor_within_input() {
    let mut app = app_with("abc", 10);
    app.enter_char('d');
    assert!(app.character_index <= app.input.chars().count());
    let mut app = app_with("abc", 10);
    app.delete_char();
    assert!(app.character_index <= app.input.chars().count());
}

#[test]
fn tick_and_quit() {
    let mut app = app_with("x", 1);
    app.tick();
    assert!(!app.should_quit);
    app.quit();
    assert!(app.should_quit);
    assert_eq!(app.input, "x");
}
