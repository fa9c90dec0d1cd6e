use caliban::app::{App, RuleSources, Startup};
use caliban::completer::Candidate;
use caliban::effect::Effect;
use caliban::events::handle_key;
use caliban::input::Input;
use caliban::menu::{
    active_at_token, at_menu_entries, can_rank, menu_area, menu_key, menu_lines, refresh_menu, shows_hidden,
    slash_menu_entries, slash_prefix, with_directory, Menu, MenuAction, MenuKind,
};
use caliban::slash::register_builtin;
use caliban::style::Color;
use caliban::types::{KeyCode, KeyEvent, KeyModifiers, PermissionMode, Rect};

#[test]
fn keys_work_the_menu_or_pass_it() {
    let key = |code| KeyEvent::new(code, KeyModifiers::none());
    assert_eq!(menu_key(key(KeyCode::Esc)), Some(MenuAction::Close));
    assert_eq!(menu_key(key(KeyCode::Tab)), Some(MenuAction::Next));
    assert_eq!(menu_key(key(KeyCode::Down)), Some(MenuAction::Next));
    assert_eq!(menu_key(key(KeyCode::BackTab)), Some(MenuAction::Previous));
    assert_eq!(menu_key(key(KeyCode::Up)), Some(MenuAction::Previous));
    assert_eq!(menu_key(key(KeyCode::Enter)), Some(MenuAction::Accept));
    assert_eq!(menu_key(KeyEvent::new(KeyCode::Enter, KeyModifiers::shift())), None);
    assert_eq!(menu_key(key(KeyCode::Char('x'))), None);
    assert_eq!(menu_key(key(KeyCode::Backspace)), None);
}

#[test]
fn the_typed_command_is_what_follows_the_slash() {
    assert_eq!(slash_prefix("/mod"), "mod");
    assert_eq!(slash_prefix("/model gpt"), "model");
    assert_eq!(slash_prefix("/"), "");
    assert_eq!(slash_prefix("mod"), "");
}

#[test]
fn the_menu_lists_what_fits() {
    let registry = register_builtin();
    let names: Vec<&str> =
        slash_menu_entries("/perm", &registry).iter().map(|m| m.name).collect();
    assert_eq!(names[0], "/permissions");
}

#[test]
fn paths_keep_the_typed_directory() {
    let names = &[("main.rs", "main.rs"), ("lib.rs", "lib.rs")];
    let out = at_menu_entries("src/ma", names);
    assert_eq!(out.len(), 1);
    assert_eq!(out[0].display, "main.rs");
    assert_eq!(out[0].insert, "@src/main.rs");
    let all = at_menu_entries("src/", names);
    assert_eq!(all.len(), 2);
    assert_eq!(all[1].insert, "@src/lib.rs");
    let bare = with_directory(
        "ma",
        &vec![Candidate { display: "m".into(), insert: "m".into(), score: 1 }],
    );
    assert_eq!(bare[0].insert, "@m");
}

#[test]
fn hidden_names_show_when_a_dot_is_typed() {
    assert!(shows_hidden(".gi"));
    assert!(shows_hidden("src/.gi"));
    assert!(!shows_hidden(".config/f"));
    assert!(!shows_hidden(""));
}

#[test]
fn the_menu_stands_above_the_prompt() {
    let input = Rect { x: 0, y: 20, width: 80, height: 1 };
    assert_eq!(menu_area(input, 0), None);
    assert_eq!(menu_area(input, 3), Some(Rect { x: 0, y: 15, width: 80, height: 5 }));
    assert_eq!(menu_area(input, 50), Some(Rect { x: 0, y: 10, width: 80, height: 10 }));
    let top = Rect { x: 0, y: 2, width: 80, height: 1 };
    assert_eq!(menu_area(top, 3).unwrap().y, 0);
}

#[test]
fn the_marked_entry_stands_out() {
    let list = vec![
        Candidate { display: "a".to_string(), insert: "a".to_string(), score: 0 },
        Candidate { display: "b".to_string(), insert: "b".to_string(), score: 0 },
    ];
    let lines = menu_lines(&list, 1);
    assert_eq!(lines[0].spans[0].style.bg, None);
    assert_eq!(lines[1].spans[0].style.bg, Some(Color::Cyan));
    assert_eq!(lines[1].text(), "b");
}

fn fresh_app() -> App {
    App::new(
        Startup {
            session: None,
            session_store: true,
            no_save: false,
            cwd: "/ws".into(),
            system_prompt: None,
            plan_mode: false,
            permission_mode: PermissionMode::Default,
            bypass_latch: false,
            saved_history: vec!["earlier".into()],
            input_history_path: None,
            projects_root: None,
            esc_window_ms: 500,
        },
        1_000_000,
    )
}

fn press(app: &mut App, code: KeyCode) -> Vec<Effect> {
    let rules = RuleSources { file: Vec::new(), defaults: Vec::new() };
    handle_key(KeyEvent::new(code, KeyModifiers::none()), app, &rules, 1_000_000)
}

/// Types a text; the menu is looked over where that is asked for.
fn type_text(app: &mut App, text: &str, names: &[(&str, &str)]) {
    for c in text.chars() {
        if press(app, KeyCode::Char(c)).contains(&Effect::RefreshMenu) {
            refresh_menu(app, names);
        }
    }
}

fn entries(app: &App) -> Vec<&str> {
    app.menu.as_ref().unwrap().candidates.iter().map(|c| c.insert.as_str()).collect()
}

#[test]
fn a_slash_opens_the_menu_of_commands() {
    let mut app = fresh_app();
    type_text(&mut app, "/", &[]);
    let menu = app.menu.as_ref().expect("the menu is open");
    assert_eq!(menu.kind, MenuKind::Command);
    let all = menu.candidates.len();
    assert!(all > 10);
    type_text(&mut app, "perm", &[]);
    assert_eq!(entries(&app)[0], "/permissions");
    assert!(entries(&app).len() < all);
    // Erasing widens it again; an argument ends it.
    press(&mut app, KeyCode::Backspace);
    refresh_menu(&mut app, &[]);
    assert!(app.menu.is_some());
    type_text(&mut app, "m x", &[]);
    assert!(app.menu.is_none());
    // A slash behind other text opens nothing.
    let mut app = fresh_app();
    type_text(&mut app, "a/", &[]);
    assert!(app.menu.is_none());
}

#[test]
fn an_open_menu_takes_its_keys_first() {
    let mut app = fresh_app();
    let mode = app.permission_mode;
    type_text(&mut app, "/", &[]);
    let n = app.menu.as_ref().unwrap().candidates.len();
    assert!(press(&mut app, KeyCode::Tab).is_empty());
    assert!(press(&mut app, KeyCode::Down).is_empty());
    assert_eq!(app.menu.as_ref().unwrap().selected, 2);
    press(&mut app, KeyCode::Up);
    press(&mut app, KeyCode::BackTab);
    press(&mut app, KeyCode::BackTab);
    assert_eq!(app.menu.as_ref().unwrap().selected, n - 1);
    press(&mut app, KeyCode::Tab);
    assert_eq!(app.menu.as_ref().unwrap().selected, 0);
    // Neither the history, the mode nor the prompt was touched.
    assert_eq!(app.input.buffer, "/");
    assert_eq!(app.permission_mode, mode);
    assert!(press(&mut app, KeyCode::Esc).is_empty());
    assert!(app.menu.is_none());
    assert_eq!(app.input.buffer, "/");
    // Without it they are the prompt's again.
    press(&mut app, KeyCode::Up);
    assert_eq!(app.input.buffer, "earlier");
}

#[test]
fn enter_takes_the_marked_entry() {
    let mut app = fresh_app();
    type_text(&mut app, "/perm", &[]);
    // The menu opens with the slash alone, so it is open here.
    assert!(press(&mut app, KeyCode::Enter).is_empty());
    assert_eq!(app.input.buffer, "/permissions");
    assert_eq!(app.input.cursor, "/permissions".len());
    assert!(app.menu.is_none());
}

#[test]
fn an_at_sign_opens_the_menu_of_paths() {
    let mut app = fresh_app();
    let names = [("main.rs", "main.rs"), ("src/", "src/")];
    type_text(&mut app, "read @s", &names);
    let menu = app.menu.as_ref().expect("the menu is open");
    assert_eq!((menu.kind, menu.start), (MenuKind::Path, 5));
    assert!(entries(&app).contains(&"@src/"));
    // A directory goes into the prompt, and what it holds is listed next.
    let at = entries(&app).iter().position(|e| *e == "@src/").unwrap();
    for _ in 0..at {
        press(&mut app, KeyCode::Down);
    }
    assert_eq!(press(&mut app, KeyCode::Enter), vec![Effect::RefreshMenu]);
    assert_eq!(app.input.buffer, "read @src/");
    refresh_menu(&mut app, &[("lib.rs", "lib.rs")]);
    assert_eq!(entries(&app), vec!["@src/lib.rs"]);
    assert!(press(&mut app, KeyCode::Enter).is_empty());
    assert_eq!(app.input.buffer, "read @src/lib.rs");
    // Behind the name the menu is closed.
    type_text(&mut app, " ", &names);
    assert!(app.menu.is_none());
}

#[test]
fn the_file_name_at_the_cursor_is_found() {
    let mut input = Input::new();
    input.set_buffer("see @src/ma and".into());
    assert_eq!(active_at_token(&input), None);
    for _ in 0..4 {
        input.cursor_left();
    }
    assert_eq!(active_at_token(&input), Some((4, "src/ma".to_string())));
    input.cursor_left();
    assert_eq!(active_at_token(&input), Some((4, "src/m".to_string())));
    input.set_buffer("mail@host".into());
    assert_eq!(active_at_token(&input), None);
    input.set_buffer("@".into());
    assert_eq!(active_at_token(&input), Some((0, String::new())));
}

#[test]
fn names_longer_than_any_entry_have_an_empty_menu() {
    let mut app = fresh_app();
    app.input.set_buffer(format!("@{}", "x".repeat(5000)));
    assert!(can_rank(&app.input, &[("x", "x")]));
    refresh_menu(&mut app, &[("x", "x")]);
    let menu = app.menu.as_ref().unwrap();
    assert_eq!(menu.kind, MenuKind::Path);
    assert_eq!(menu.start, 0);
    assert!(menu.candidates.is_empty());
}

#[test]
fn long_names_are_ranked_against_short_ones_only() {
    let long = "x".repeat(2521);
    let mut app = fresh_app();
    app.input.set_buffer(format!("@{}", "x".repeat(1260)));
    assert!(can_rank(&app.input, &[(long.as_str(), long.as_str())]));
    app.input.set_buffer(format!("@{}", "x".repeat(1261)));
    assert!(!can_rank(&app.input, &[(long.as_str(), long.as_str())]));
    assert!(can_rank(&app.input, &[("x", "x"), (&long[1..], &long[1..])]));
    // Without a file name at the cursor nothing is ranked.
    app.input.set_buffer("x".repeat(1261));
    assert!(can_rank(&app.input, &[(long.as_str(), long.as_str())]));
}

#[test]
fn the_menu_is_looked_over_behind_the_keys_of_the_prompt() {
    let asks = |app: &mut App, code: KeyCode, modifiers: KeyModifiers| {
        let rules = RuleSources { file: Vec::new(), defaults: Vec::new() };
        handle_key(KeyEvent::new(code, modifiers), app, &rules, 1_000_000)
            .contains(&Effect::RefreshMenu)
    };
    let none = KeyModifiers::none();
    for code in [
        KeyCode::Char('x'),
        KeyCode::Backspace,
        KeyCode::Delete,
        KeyCode::Left,
        KeyCode::Right,
        KeyCode::Home,
        KeyCode::End,
        KeyCode::Up,
        KeyCode::Down,
        KeyCode::PageUp,
        KeyCode::PageDown,
        KeyCode::Esc,
        KeyCode::Tab,
    ] {
        assert!(asks(&mut fresh_app(), code, none), "{code:?}");
    }
    assert!(asks(&mut fresh_app(), KeyCode::Enter, KeyModifiers::shift()));
    assert!(asks(&mut fresh_app(), KeyCode::Char('c'), KeyModifiers::control()));
    for c in ['g', 'o', 'r'] {
        assert!(!asks(&mut fresh_app(), KeyCode::Char(c), KeyModifiers::control()), "{c}");
    }
    assert!(!asks(&mut fresh_app(), KeyCode::BackTab, none));
    assert!(!asks(&mut fresh_app(), KeyCode::Enter, none));
    let mut app = fresh_app();
    app.queued.push_back("later".into());
    assert!(!asks(&mut app, KeyCode::Esc, none));
    assert!(asks(&mut app, KeyCode::Esc, none));
}

#[test]
fn a_menu_opens_again_behind_a_key_that_leaves_the_prompt_alone() {
    let names = [("main.rs", "main.rs")];
    let mut app = fresh_app();
    type_text(&mut app, "@m", &names);
    assert!(press(&mut app, KeyCode::Esc).is_empty());
    assert!(app.menu.is_none());
    assert_eq!(press(&mut app, KeyCode::PageUp), vec![Effect::RefreshMenu]);
    refresh_menu(&mut app, &names);
    assert_eq!(entries(&app), vec!["@main.rs"]);
}

#[test]
fn an_entry_replaces_its_word_alone() {
    let mut app = fresh_app();
    app.input.set_buffer("a @b c".into());
    app.menu = Some(Menu {
        kind: MenuKind::Path,
        start: 2,
        candidates: vec![Candidate { display: "bee".into(), insert: "@bee".into(), score: 0 }],
        selected: 0,
    });
    assert!(press(&mut app, KeyCode::Enter).is_empty());
    assert_eq!(app.input.buffer, "a @bee c");
    assert_eq!(app.input.cursor, "a @bee".len());
    // With nothing to take the menu just closes.
    app.menu = Some(Menu {
        kind: MenuKind::Path,
        start: 2,
        candidates: Vec::new(),
        selected: 0,
    });
    assert!(press(&mut app, KeyCode::Tab).is_empty());
    assert!(press(&mut app, KeyCode::Enter).is_empty());
    assert!(app.menu.is_none());
    assert_eq!(app.input.buffer, "a @bee c");
}
