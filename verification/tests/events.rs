use caliban::app::{Activity, App, RuleSources, RunningTurn, Startup};
use caliban::effect::Effect;
use caliban::events::{
    drain_one_queued, handle_esc_queue_clear, handle_event, handle_key, handle_mcp_overlay_key,
    handle_mouse, handle_reverse_history_key, handle_transcript_viewer_key,
    push_user_input_to_queue, TermEvent, MOUSE_WHEEL_ROWS,
};
use caliban::overlay::{Overlay, ViewState};
use caliban::reverse_history::ReverseHistoryState;
use caliban::types::{
    Action, DefaultRule, KeyCode, KeyEvent, KeyModifiers, Message, MouseButton, MouseEvent,
    MouseEventKind, PermissionMode,
};

const NOW: u64 = 1_000_000;

fn fresh_app() -> App {
    App::new(
        Startup {
            session: None,
            session_store: true,
            no_save: false,
            cwd: "/ws".into(),
            system_prompt: None,
            plan_mode: false,
            permission_mode: PermissionMode::Default,
            bypass_latch: false,
            saved_history: Vec::new(),
            input_history_path: None,
            projects_root: None,
            esc_window_ms: 500,
        },
        NOW,
    )
}

fn rules() -> RuleSources {
    RuleSources {
        file: Vec::new(),
        defaults: vec![
            DefaultRule { pattern: "Read".into(), action: Action::Allow, comment: None },
            DefaultRule { pattern: "Bash".into(), action: Action::Ask, comment: None },
        ],
    }
}

fn app_with_running_turn() -> App {
    let mut app = fresh_app();
    app.running = Some(RunningTurn { activity: Activity::WaitingForModel { since: NOW } });
    app
}

fn press(app: &mut App, key: KeyEvent) -> Vec<Effect> {
    handle_key(key, app, &rules(), NOW)
}

fn app_with_reverse_history() -> App {
    let mut app = fresh_app();
    app.reverse_history = Some(ReverseHistoryState::new(
        vec!["echo one".into(), "echo two".into(), "ls".into()],
        None,
        None,
    ));
    app.view = ViewState::Overlay(Overlay::ReverseHistory);
    app
}

fn mouse(kind: MouseEventKind, row: u16, column: u16) -> MouseEvent {
    MouseEvent { kind, column, row }
}

#[test]
fn handle_esc_queue_clear_clears_and_arms_when_queue_non_empty() {
    let mut app = fresh_app();
    app.queued.push_back("a".into());
    app.queued.push_back("b".into());
    assert!(app.esc_armed_at.is_none());
    let now = NOW;
    let consumed = handle_esc_queue_clear(&mut app, now);
    assert!(consumed);
    assert!(app.queued.is_empty());
    assert_eq!(app.esc_armed_at, Some(now));
}

#[test]
fn handle_esc_queue_clear_noop_when_queue_empty() {
    let mut app = fresh_app();
    let now = NOW;
    let consumed = handle_esc_queue_clear(&mut app, now);
    assert!(!consumed);
    assert!(app.esc_armed_at.is_none());
}

#[test]
fn drain_one_queued_returns_front_and_pops() {
    let mut app = fresh_app();
    app.queued.push_back("first".into());
    app.queued.push_back("second".into());
    assert_eq!(drain_one_queued(&mut app).as_deref(), Some("first"));
    assert_eq!(app.queued.len(), 1);
    assert_eq!(drain_one_queued(&mut app).as_deref(), Some("second"));
    assert!(app.queued.is_empty());
}

#[test]
fn drain_one_queued_returns_none_when_empty() {
    let mut app = fresh_app();
    assert!(drain_one_queued(&mut app).is_none());
}

#[test]
fn push_user_input_to_queue_appends_and_clears_buffer() {
    let mut app = fresh_app();
    app.input.buffer = "hello world".into();
    app.input.cursor = app.input.buffer.len();
    push_user_input_to_queue(&mut app);
    assert_eq!(app.queued.front().map(String::as_str), Some("hello world"));
    assert!(app.input.buffer.is_empty());
    assert_eq!(app.input.cursor, 0);
}

#[test]
fn push_user_input_to_queue_noop_on_empty() {
    let mut app = fresh_app();
    app.input.buffer = "   ".into(); // whitespace-only counts as empty
    push_user_input_to_queue(&mut app);
    assert!(app.queued.is_empty());
}

#[test]
fn push_user_input_to_queue_appends_fifo() {
    let mut app = fresh_app();
    app.input.buffer = "first".into();
    push_user_input_to_queue(&mut app);
    app.input.buffer = "second".into();
    push_user_input_to_queue(&mut app);
    assert_eq!(app.queued.len(), 2);
    assert_eq!(app.queued[0], "first");
    assert_eq!(app.queued[1], "second");
}

#[test]
fn transcript_viewer_help_toggle() {
    let mut app = fresh_app();
    app.view = ViewState::Overlay(Overlay::TranscriptViewer);
    assert!(!app.transcript_viewer.show_help);
    handle_transcript_viewer_key(
        KeyEvent::new(KeyCode::Char('?'), KeyModifiers::none()),
        &mut app,
    );
    assert!(app.transcript_viewer.show_help);
    handle_transcript_viewer_key(
        KeyEvent::new(KeyCode::Char('?'), KeyModifiers::none()),
        &mut app,
    );
    assert!(!app.transcript_viewer.show_help);
}

#[test]
fn transcript_viewer_ctrl_e_toggles_show_all() {
    let mut app = fresh_app();
    app.view = ViewState::Overlay(Overlay::TranscriptViewer);
    assert!(!app.transcript_viewer.show_all);
    handle_transcript_viewer_key(
        KeyEvent::new(KeyCode::Char('e'), KeyModifiers::control()),
        &mut app,
    );
    assert!(app.transcript_viewer.show_all);
}

#[test]
fn transcript_viewer_scroll_navigation() {
    let mut app = fresh_app();
    app.view = ViewState::Overlay(Overlay::TranscriptViewer);
    // Seed enough history lines that scrolling has somewhere to go.
    app.messages = (0..40)
        .map(|i| Message::user_text(&format!("line {i}")))
        .collect();
    // j / Down moves down.
    handle_transcript_viewer_key(
        KeyEvent::new(KeyCode::Char('j'), KeyModifiers::none()),
        &mut app,
    );
    let after_j = app.transcript_viewer.scroll;
    assert!(after_j >= 1, "j scrolls down at least one row");
    // PageDown moves further.
    handle_transcript_viewer_key(
        KeyEvent::new(KeyCode::PageDown, KeyModifiers::none()),
        &mut app,
    );
    assert!(app.transcript_viewer.scroll >= after_j);
    // k / Up moves back up.
    let before_up = app.transcript_viewer.scroll;
    handle_transcript_viewer_key(
        KeyEvent::new(KeyCode::Char('k'), KeyModifiers::none()),
        &mut app,
    );
    assert!(app.transcript_viewer.scroll < before_up);
    // PageUp moves up more.
    handle_transcript_viewer_key(KeyEvent::new(KeyCode::PageUp, KeyModifiers::none()), &mut app);
    // G jumps to the bottom; g back to the top.
    handle_transcript_viewer_key(
        KeyEvent::new(KeyCode::Char('G'), KeyModifiers::shift()),
        &mut app,
    );
    let bottom = app.transcript_viewer.scroll;
    assert!(bottom > 0, "G jumps to a non-zero bottom");
    handle_transcript_viewer_key(
        KeyEvent::new(KeyCode::Char('g'), KeyModifiers::none()),
        &mut app,
    );
    assert_eq!(app.transcript_viewer.scroll, 0, "g jumps to the top");
}

#[test]
fn transcript_viewer_esc_and_q_close() {
    for code in [KeyCode::Esc, KeyCode::Char('q')] {
        let mut app = fresh_app();
        app.view = ViewState::Overlay(Overlay::TranscriptViewer);
        handle_transcript_viewer_key(KeyEvent::new(code, KeyModifiers::none()), &mut app);
        assert!(matches!(app.view, ViewState::Main));
    }
}

#[test]
fn reverse_history_char_and_backspace_edit_query() {
    let mut app = app_with_reverse_history();
    for c in "echo".chars() {
        handle_reverse_history_key(
            KeyEvent::new(KeyCode::Char(c), KeyModifiers::none()),
            &mut app,
        );
    }
    // Two "echo …" entries match.
    let n = app.reverse_history.as_ref().unwrap().matches().len();
    assert_eq!(n, 2, "query 'echo' matches two history entries");
    handle_reverse_history_key(
        KeyEvent::new(KeyCode::Backspace, KeyModifiers::none()),
        &mut app,
    );
    // "ech" still matches the two echo entries.
    assert_eq!(app.reverse_history.as_ref().unwrap().matches().len(), 2);
}

#[test]
fn reverse_history_up_down_move_cursor() {
    let mut app = app_with_reverse_history();
    handle_reverse_history_key(KeyEvent::new(KeyCode::Down, KeyModifiers::none()), &mut app);
    assert_eq!(app.reverse_history.as_ref().unwrap().cursor, 1);
    handle_reverse_history_key(KeyEvent::new(KeyCode::Up, KeyModifiers::none()), &mut app);
    assert_eq!(app.reverse_history.as_ref().unwrap().cursor, 0);
}

#[test]
fn reverse_history_ctrl_s_cycles_scope() {
    let mut app = app_with_reverse_history();
    // Ctrl+S cycles scope without panicking (project/all caches are None).
    handle_reverse_history_key(
        KeyEvent::new(KeyCode::Char('s'), KeyModifiers::control()),
        &mut app,
    );
    assert!(app.reverse_history.is_some());
}

#[test]
fn reverse_history_enter_sets_buffer_and_closes() {
    let mut app = app_with_reverse_history();
    // Cursor 0 → newest match ("ls").
    handle_reverse_history_key(KeyEvent::new(KeyCode::Enter, KeyModifiers::none()), &mut app);
    assert!(app.reverse_history.is_none(), "Enter closes the overlay");
    assert!(matches!(app.view, ViewState::Main));
    assert_eq!(app.input.buffer, "ls", "Enter loads the selected entry");
}

#[test]
fn reverse_history_esc_closes_without_buffer_change() {
    let mut app = app_with_reverse_history();
    handle_reverse_history_key(KeyEvent::new(KeyCode::Esc, KeyModifiers::none()), &mut app);
    assert!(app.reverse_history.is_none());
    assert!(matches!(app.view, ViewState::Main));
    assert!(app.input.buffer.is_empty());
}

#[test]
fn mcp_overlay_letter_keys_each_set_a_toast() {
    for ch in ['d', 'r', 'a', 's', 't'] {
        let mut app = fresh_app();
        let key = KeyEvent::new(KeyCode::Char(ch), KeyModifiers::none());
        assert!(
            handle_mcp_overlay_key(key, &mut app, NOW),
            "`{ch}` must be consumed in the /mcp overlay"
        );
        assert!(
            app.toast.is_some(),
            "`{ch}` in the /mcp overlay must set a toast"
        );
    }
}

#[test]
fn mcp_overlay_unhandled_key_returns_false() {
    let mut app = fresh_app();
    let key = KeyEvent::new(KeyCode::Char('z'), KeyModifiers::none());
    assert!(!handle_mcp_overlay_key(key, &mut app, NOW));
}

#[test]
fn mouse_scroll_up_breaks_autoscroll_and_steps_up() {
    let mut app = fresh_app();
    app.auto_scroll = true;
    app.last_max_scroll = 100;
    handle_mouse(mouse(MouseEventKind::ScrollUp, 5, 5), &mut app);
    assert!(!app.auto_scroll, "ScrollUp exits auto-scroll");
    // Seeded from last_max_scroll (100) then stepped up by 3.
    assert_eq!(app.scroll, 100 - MOUSE_WHEEL_ROWS);
}

#[test]
fn mouse_scroll_down_repins_at_bottom() {
    let mut app = fresh_app();
    app.auto_scroll = false;
    app.last_max_scroll = 10;
    app.scroll = 9;
    handle_mouse(mouse(MouseEventKind::ScrollDown, 5, 5), &mut app);
    // 9 + 3 >= 10 → re-pins to the live tail.
    assert_eq!(app.scroll, 10);
    assert!(
        app.auto_scroll,
        "scrolling past the end re-pins auto-scroll"
    );
}

#[test]
fn mouse_scroll_down_steps_without_repin_when_room_remains() {
    let mut app = fresh_app();
    app.auto_scroll = false;
    app.last_max_scroll = 100;
    app.scroll = 10;
    handle_mouse(mouse(MouseEventKind::ScrollDown, 5, 5), &mut app);
    assert_eq!(app.scroll, 10 + MOUSE_WHEEL_ROWS);
    assert!(!app.auto_scroll);
}

#[test]
fn mouse_ignored_inside_overlay() {
    let mut app = fresh_app();
    app.view = ViewState::Overlay(Overlay::Permissions);
    app.auto_scroll = true;
    app.last_max_scroll = 50;
    app.scroll = 0;
    handle_mouse(mouse(MouseEventKind::ScrollUp, 5, 5), &mut app);
    // Overlay short-circuits before touching scroll state.
    assert_eq!(app.scroll, 0);
    assert!(app.auto_scroll);
}

#[test]
fn mouse_left_down_drag_up_builds_and_clears_selection() {
    let mut app = fresh_app();
    // Down anchors, Drag extends → a live selection exists.
    handle_mouse(
        mouse(MouseEventKind::Down(MouseButton::Left), 2, 3),
        &mut app,
    );
    handle_mouse(
        mouse(MouseEventKind::Drag(MouseButton::Left), 4, 7),
        &mut app,
    );
    assert!(
        app.mouse_selection.range().is_some(),
        "Down+Drag produces a selection range"
    );
    // Up finalises. With an empty PositionMap the extracted text is
    // empty and copy_to_clipboard short-circuits (no stdout write).
    handle_mouse(mouse(MouseEventKind::Up(MouseButton::Left), 4, 7), &mut app);
    assert!(
        app.mouse_selection.range().is_some(),
        "completed selection stays visible until the next Down"
    );
}

#[test]
fn mouse_left_click_without_drag_is_empty_selection() {
    let mut app = fresh_app();
    // Down then Up at the same cell — a click, not a drag. The Up path
    // extracts an empty range and clipboard write short-circuits.
    handle_mouse(
        mouse(MouseEventKind::Down(MouseButton::Left), 1, 1),
        &mut app,
    );
    handle_mouse(mouse(MouseEventKind::Up(MouseButton::Left), 1, 1), &mut app);
    // A collapsed range is still "Some" (start == end).
    assert!(app.mouse_selection.range().is_some());
}

#[test]
fn mouse_non_left_button_cancels_selection() {
    let mut app = fresh_app();
    handle_mouse(
        mouse(MouseEventKind::Down(MouseButton::Left), 1, 1),
        &mut app,
    );
    assert!(app.mouse_selection.range().is_some());
    // A right-button press cancels any in-progress selection.
    handle_mouse(
        mouse(MouseEventKind::Down(MouseButton::Right), 2, 2),
        &mut app,
    );
    assert!(
        app.mouse_selection.range().is_none(),
        "non-left press cancels the selection"
    );
}

#[test]
fn key_ctrl_c_exits_on_empty_buffer() {
    let mut app = fresh_app();
    press(&mut app, KeyEvent::new(KeyCode::Char('c'), KeyModifiers::control()));
    assert!(app.should_exit, "Ctrl+C on an empty buffer exits");
}

#[test]
fn key_ctrl_c_clears_non_empty_buffer() {
    let mut app = fresh_app();
    app.input.buffer = "draft".into();
    app.input.cursor = app.input.buffer.len();
    press(&mut app, KeyEvent::new(KeyCode::Char('c'), KeyModifiers::control()));
    assert!(!app.should_exit, "Ctrl+C with text does not exit");
    assert!(app.input.buffer.is_empty(), "Ctrl+C clears the buffer");
}

#[test]
fn key_ctrl_d_exits_on_empty_buffer() {
    let mut app = fresh_app();
    press(&mut app, KeyEvent::new(KeyCode::Char('d'), KeyModifiers::control()));
    assert!(app.should_exit, "Ctrl+D on an empty buffer exits");
}

#[test]
fn key_char_inserts_into_buffer() {
    let mut app = fresh_app();
    for c in "hi".chars() {
        press(&mut app, KeyEvent::new(KeyCode::Char(c), KeyModifiers::none()));
    }
    assert_eq!(app.input.buffer, "hi");
}

#[test]
fn key_backspace_deletes_last_char() {
    let mut app = fresh_app();
    app.input.buffer = "abc".into();
    app.input.cursor = 3;
    press(&mut app, KeyEvent::new(KeyCode::Backspace, KeyModifiers::none()));
    assert_eq!(app.input.buffer, "ab");
}

#[test]
fn key_arrows_move_cursor() {
    let mut app = fresh_app();
    app.input.buffer = "abc".into();
    app.input.cursor = 3;
    press(&mut app, KeyEvent::new(KeyCode::Left, KeyModifiers::none()));
    assert_eq!(app.input.cursor, 2);
    press(&mut app, KeyEvent::new(KeyCode::Right, KeyModifiers::none()));
    assert_eq!(app.input.cursor, 3);
    press(&mut app, KeyEvent::new(KeyCode::Home, KeyModifiers::none()));
    assert_eq!(app.input.cursor, 0);
    press(&mut app, KeyEvent::new(KeyCode::End, KeyModifiers::none()));
    assert_eq!(app.input.cursor, 3);
}

#[test]
fn key_pageup_pagedown_scroll_math() {
    let mut app = fresh_app();
    app.auto_scroll = true;
    app.last_max_scroll = 100;
    press(&mut app, KeyEvent::new(KeyCode::PageUp, KeyModifiers::none()));
    assert!(!app.auto_scroll, "PageUp exits auto-scroll");
    assert_eq!(app.scroll, 90, "PageUp seeds from max then steps up by 10");
    press(&mut app, KeyEvent::new(KeyCode::PageDown, KeyModifiers::none()));
    assert_eq!(app.scroll, 100, "PageDown back to the tail re-pins");
    assert!(app.auto_scroll);
}

#[test]
fn key_esc_clears_non_empty_buffer() {
    let mut app = fresh_app();
    app.input.buffer = "draft".into();
    app.input.cursor = app.input.buffer.len();
    press(&mut app, KeyEvent::new(KeyCode::Esc, KeyModifiers::none()));
    assert!(app.input.buffer.is_empty(), "Esc clears a non-empty buffer");
}

#[test]
fn key_esc_esc_chord_opens_rewind() {
    let mut app = fresh_app();
    // Empty buffer, no running turn. First Esc arms the chord.
    press(&mut app, KeyEvent::new(KeyCode::Esc, KeyModifiers::none()));
    assert!(app.last_esc_at.is_some(), "first Esc arms the chord");
    assert!(matches!(app.view, ViewState::Main));
    // Second Esc within the window opens the Rewind overlay.
    press(&mut app, KeyEvent::new(KeyCode::Esc, KeyModifiers::none()));
    assert!(
        matches!(app.view, ViewState::Overlay(Overlay::Rewind)),
        "Esc-Esc opens the Rewind overlay"
    );
    assert!(app.last_esc_at.is_none(), "chord consumed; timer reset");
}

#[test]
fn key_esc_clears_queue_first() {
    let mut app = fresh_app();
    app.queued.push_back("a".into());
    press(&mut app, KeyEvent::new(KeyCode::Esc, KeyModifiers::none()));
    assert!(app.queued.is_empty(), "first Esc clears the queue");
    assert!(app.esc_armed_at.is_some());
}

#[test]
fn key_ctrl_shift_b_drops_bypass_latch() {
    let mut app = fresh_app();
    app.bypass_latch = true;
    app.permission_mode = PermissionMode::BypassPermissions;
    press(&mut app, KeyEvent::new(
            KeyCode::Char('B'),
            KeyModifiers { shift: true, ..KeyModifiers::control() },
        ));
    assert!(!app.bypass_latch, "Ctrl+Shift+B drops the latch");
    assert_eq!(
        app.permission_mode,
        PermissionMode::Default
    );
}

#[test]
fn key_ctrl_o_opens_transcript_viewer() {
    let mut app = fresh_app();
    press(&mut app, KeyEvent::new(KeyCode::Char('o'), KeyModifiers::control()));
    assert!(matches!(
        app.view,
        ViewState::Overlay(Overlay::TranscriptViewer)
    ));
}

#[test]
fn key_ctrl_r_opens_reverse_history() {
    let mut app = fresh_app();
    press(&mut app, KeyEvent::new(KeyCode::Char('r'), KeyModifiers::control()));
    assert!(matches!(
        app.view,
        ViewState::Overlay(Overlay::ReverseHistory)
    ));
    assert!(app.reverse_history.is_some());
}

#[test]
fn key_backtab_cycles_permission_mode() {
    let mut app = fresh_app();
    let before = app.permission_mode;
    press(&mut app, KeyEvent::new(KeyCode::BackTab, KeyModifiers::none()));
    assert_ne!(
        app.permission_mode,
        before,
        "Shift+Tab cycles the mode"
    );
}

#[test]
fn key_overlay_esc_returns_to_main() {
    let mut app = fresh_app();
    app.view = ViewState::Overlay(Overlay::System);
    press(&mut app, KeyEvent::new(KeyCode::Esc, KeyModifiers::none()));
    assert!(matches!(app.view, ViewState::Main));
}

#[test]
fn key_overlay_q_returns_to_main() {
    let mut app = fresh_app();
    app.view = ViewState::Overlay(Overlay::System);
    press(&mut app, KeyEvent::new(KeyCode::Char('q'), KeyModifiers::none()));
    assert!(matches!(app.view, ViewState::Main));
}

#[test]
fn key_overlay_ctrl_c_closes_when_not_running() {
    let mut app = fresh_app();
    app.view = ViewState::Overlay(Overlay::System);
    press(&mut app, KeyEvent::new(KeyCode::Char('c'), KeyModifiers::control()));
    assert!(matches!(app.view, ViewState::Main));
}

#[test]
fn key_ctrl_c_cancels_running_turn() {
    let mut app = app_with_running_turn();
    let effects = press(&mut app, KeyEvent::new(KeyCode::Char('c'), KeyModifiers::control()));
    assert_eq!(
        effects,
        vec![Effect::CancelTurn, Effect::RefreshMenu],
        "Ctrl+C cancels the running turn"
    );
    assert!(!app.should_exit);
}

#[test]
fn key_esc_cancels_running_turn() {
    let mut app = app_with_running_turn();
    let effects = press(&mut app, KeyEvent::new(KeyCode::Esc, KeyModifiers::none()));
    assert_eq!(
        effects,
        vec![Effect::CancelTurn, Effect::RefreshMenu],
        "Esc cancels the running turn"
    );
}

#[test]
fn key_shift_enter_inserts_newline_without_submitting() {
    let mut app = fresh_app();
    app.input.buffer = "line1".into();
    app.input.cursor = app.input.buffer.len();
    let effects = press(&mut app, KeyEvent::new(KeyCode::Enter, KeyModifiers::shift()));
    assert!(app.input.buffer.contains('\n'), "Shift+Enter adds a newline");
    assert_eq!(effects, vec![Effect::RefreshMenu], "Shift+Enter must not start a turn");
}

#[test]
fn key_enter_empty_buffer_is_noop() {
    let mut app = fresh_app();
    let effects = press(&mut app, KeyEvent::new(KeyCode::Enter, KeyModifiers::none()));
    assert!(effects.is_empty(), "Enter on an empty buffer does nothing");
}

#[test]
fn key_enter_queues_prompt_while_running() {
    let mut app = app_with_running_turn();
    app.input.buffer = "queued prompt".into();
    app.input.cursor = app.input.buffer.len();
    let effects = press(&mut app, KeyEvent::new(KeyCode::Enter, KeyModifiers::none()));
    // A running turn: the prompt is queued, not submitted.
    assert_eq!(app.queued.front().map(String::as_str), Some("queued prompt"));
    assert!(app.input.buffer.is_empty());
    assert!(effects.is_empty(), "queued prompts do not start a new stream");
}

#[test]
fn key_immediate_slash_dispatches_inline() {
    // `/help` may run at any time and starts no turn.
    let mut app = fresh_app();
    app.input.buffer = "/help".into();
    app.input.cursor = app.input.buffer.len();
    let effects = press(&mut app, KeyEvent::new(KeyCode::Enter, KeyModifiers::none()));
    assert!(effects.is_empty(), "immediate slash must not start a stream");
    assert!(app.input.buffer.is_empty(), "the slash command was submitted");
    assert_eq!(app.view, ViewState::Overlay(Overlay::SlashHelp));
}

#[test]
fn handle_event_ignores_non_press_keys() {
    let mut app = fresh_app();
    let key = KeyEvent::new(KeyCode::Char('x'), KeyModifiers::none());
    handle_event(TermEvent::Key { key, press: false }, &mut app, &rules(), NOW);
    assert!(app.input.buffer.is_empty(), "key Release events must be ignored");
}

#[test]
fn handle_event_press_key_inserts() {
    let mut app = fresh_app();
    let key = KeyEvent::new(KeyCode::Char('x'), KeyModifiers::none());
    handle_event(TermEvent::Key { key, press: true }, &mut app, &rules(), NOW);
    assert_eq!(app.input.buffer, "x");
}
