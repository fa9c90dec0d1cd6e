use caliban::input::Input;

#[test]
fn insert_and_cursor_advance() {
    let mut i = Input::new();
    i.insert_char('a');
    i.insert_char('b');
    assert_eq!(i.buffer, "ab");
    assert_eq!(i.cursor, 2);
}

#[test]
fn backspace_at_start_is_noop() {
    let mut i = Input::new();
    i.backspace();
    assert_eq!(i.buffer, "");
    assert_eq!(i.cursor, 0);
}

#[test]
fn backspace_handles_multibyte() {
    let mut i = Input::new();
    i.insert_char('é');
    i.backspace();
    assert_eq!(i.buffer, "");
    assert_eq!(i.cursor, 0);
}

#[test]
fn submit_pushes_history_and_clears() {
    let mut i = Input::new();
    i.insert_char('x');
    let out = i.submit();
    assert_eq!(out, "x");
    assert_eq!(i.buffer, "");
    assert_eq!(i.history, vec!["x".to_string()]);
}

#[test]
fn insert_newline_inserts_lf_at_cursor() {
    let mut i = Input::new();
    i.insert_char('a');
    i.insert_char('b');
    i.cursor_left();
    i.insert_newline();
    assert_eq!(i.buffer, "a\nb");
    assert_eq!(i.cursor, 2);
}

#[test]
fn history_up_down_round_trip() {
    let mut i = Input::from_history(vec!["one".into(), "two".into()]);
    i.history_up();
    assert_eq!(i.buffer, "two");
    i.history_up();
    assert_eq!(i.buffer, "one");
    i.history_down();
    assert_eq!(i.buffer, "two");
    i.history_down();
    assert_eq!(i.buffer, "");
    assert_eq!(i.history_cursor, None);
}
