use caliban::app::{Activity, App, PermissionsTab, RuleSources, RunningTurn, Session, Startup, TranscriptLine};
use caliban::ask::{
    subprompt_comments, subprompt_parts, subprompt_scopes, subprompt_suggestions,
    subprompt_summary, subprompt_title, AlwaysSubprompt, AskRequest, subprompt_footer,
};
use caliban::events::handle_key;
use caliban::json::parse_tool_input;
use caliban::layout::centered_rect;
use caliban::mouse_select::{Cell, PositionMap};
use caliban::overlay::ask_modal::{
    ask_modal_action_lines, ask_modal_body_lines, ask_modal_parts,
};
use caliban::overlay::history::Checkpoints;
use caliban::overlay::page::{overlay_area, overlay_lines, overlay_scroll, OverlayInfo};
use caliban::overlay::rules::permissions_lines;
use caliban::overlay::settings::{Config, ProviderKind};
use caliban::overlay::{Overlay, ViewState};
use caliban::render::status::{render_status, StatusInfo};
use caliban::render::{render, subprompt_subject};
use caliban::style::{line_width, Color, Line, Style};
use caliban::terminal::{apply_selection_highlight, record_transcript_cells_into_position_map};
use caliban::toast::Toast;
use caliban::types::{
    Action, DefaultRule, KeyCode, KeyEvent, KeyModifiers, PermissionMode, Rect, RuntimeRule, Scope,
};
use ratatui::backend::TestBackend;
use ratatui::buffer::Buffer;
use ratatui::layout::Rect as TermRect;
use ratatui::style::{Color as TermColor, Modifier, Style as TermStyle};
use ratatui::text::{Line as TermLine, Span as TermSpan};
use ratatui::widgets::{Block, Borders, Clear, Paragraph, Wrap};
use ratatui::Terminal;

const NOW: u64 = 1_000_000;

fn fresh_app() -> App {
    App::new(
        Startup {
            session: None,
            session_store: true,
            no_save: false,
            cwd: "/ws".into(),
            system_prompt: None,
            plan_mode: false,
            permission_mode: PermissionMode::Default,
            bypass_latch: false,
            saved_history: Vec::new(),
            input_history_path: None,
            projects_root: None,
            esc_window_ms: 500,
        },
        NOW,
    )
}

fn rules() -> RuleSources {
    RuleSources {
        file: Vec::new(),
        defaults: vec![
            DefaultRule { pattern: "Read".into(), action: Action::Allow, comment: None },
            DefaultRule { pattern: "Bash".into(), action: Action::Ask, comment: None },
        ],
    }
}

fn status_info() -> StatusInfo {
    StatusInfo {
        provider: ProviderKind::Anthropic,
        model: "mock".into(),
        below_home: None,
        context: None,
    }
}

fn overlay_info() -> OverlayInfo {
    OverlayInfo {
        config: Config {
            provider: ProviderKind::Anthropic,
            model: "mock".into(),
            max_tokens: 4096,
            max_turns: 50,
            temperature: None,
            workspace: None,
            restrict_paths: false,
            no_tools: false,
            sessions_dir: None,
            default_sessions_dir: None,
            quiet: false,
            settings: None,
        },
        below_home: None,
        servers: Vec::new(),
        server_paths: Vec::new(),
        project_path: "/ws/.caliban/mcp.toml".into(),
        checkpoints: Checkpoints::Off,
        rules: rules(),
        logged: false,
    }
}

fn out_rect(r: Rect) -> TermRect {
    TermRect { x: r.x, y: r.y, width: r.width, height: r.height }
}

fn in_rect(r: TermRect) -> Rect {
    Rect { x: r.x, y: r.y, width: r.width, height: r.height }
}

fn out_color(c: Color) -> TermColor {
    match c {
        Color::Reset => TermColor::Reset,
        Color::Black => TermColor::Black,
        Color::Red => TermColor::Red,
        Color::Green => TermColor::Green,
        Color::Yellow => TermColor::Yellow,
        Color::Blue => TermColor::Blue,
        Color::Cyan => TermColor::Cyan,
        Color::Gray => TermColor::Gray,
        Color::DarkGray => TermColor::DarkGray,
        Color::White => TermColor::White,
    }
}

fn out_style(s: Style) -> TermStyle {
    let mut out = TermStyle::default();
    if let Some(c) = s.fg {
        out = out.fg(out_color(c));
    }
    if let Some(c) = s.bg {
        out = out.bg(out_color(c));
    }
    let mut with = Modifier::empty();
    with.set(Modifier::BOLD, s.bold);
    with.set(Modifier::DIM, s.dim);
    with.set(Modifier::ITALIC, s.italic);
    with.set(Modifier::REVERSED, s.reversed);
    out.add_modifier(with)
}

fn out_lines(lines: &[Line]) -> Vec<TermLine<'static>> {
    lines
        .iter()
        .map(|l| {
            let spans: Vec<TermSpan<'static>> = l
                .spans
                .iter()
                .map(|s| TermSpan::styled(s.content.clone(), out_style(s.style)))
                .collect();
            TermLine::from(spans).style(out_style(l.style))
        })
        .collect()
}

fn draw_subprompt(
    f: &mut ratatui::Frame<'_>,
    area: TermRect,
    sp: &AlwaysSubprompt,
    tool: &str,
    excerpt: &str,
) {
    let block = Block::default().borders(Borders::ALL).title(subprompt_title(sp.action));
    let inner = block.inner(area);
    f.render_widget(block, area);
    let parts = subprompt_parts(in_rect(inner), excerpt, sp.suggestions.len());
    let summary = subprompt_summary(tool, excerpt);
    f.render_widget(Paragraph::new(out_lines(&summary)), out_rect(parts[0]));
    let patterns = subprompt_suggestions(sp);
    f.render_widget(Paragraph::new(out_lines(&patterns)), out_rect(parts[2]));
    let scopes = subprompt_scopes(sp.scope);
    f.render_widget(Paragraph::new(out_lines(&scopes)), out_rect(parts[4]));
    let comments = subprompt_comments(sp);
    f.render_widget(Paragraph::new(out_lines(&comments)), out_rect(parts[6]));
    f.render_widget(
        Paragraph::new(subprompt_footer(sp.action)).style(TermStyle::default().add_modifier(Modifier::REVERSED)),
        out_rect(parts[8]),
    );
}

fn draw_overlay(f: &mut ratatui::Frame<'_>, app: &App, o: Overlay) {
    let area = out_rect(overlay_area(o, app, in_rect(f.area())));
    f.render_widget(Clear, area);
    let block = Block::default().borders(Borders::ALL).title(format!(" {} ", o.title()));
    let inner = block.inner(area);
    f.render_widget(block, area);
    if o == Overlay::AskModal {
        let (body, actions) = ask_modal_parts(app.ask_cursor, in_rect(inner));
        f.render_widget(
            Paragraph::new(out_lines(&ask_modal_body_lines(&app.ask_modal)))
                .wrap(Wrap { trim: false }),
            out_rect(body),
        );
        f.render_widget(
            Paragraph::new(out_lines(&ask_modal_action_lines(Some(app.ask_cursor))))
                .wrap(Wrap { trim: false }),
            out_rect(actions),
        );
        return;
    }
    let lines = overlay_lines(o, app, &overlay_info());
    f.render_widget(
        Paragraph::new(out_lines(&lines))
            .scroll((overlay_scroll(o, app), 0))
            .wrap(Wrap { trim: false }),
        inner,
    );
}

fn draw_all(f: &mut ratatui::Frame<'_>, app: &mut App, info: &StatusInfo) {
    let screen = in_rect(f.area());
    let (areas, frame) = render(app, screen, info, NOW);
    f.render_widget(
        Paragraph::new(out_lines(&frame.transcript)).scroll((app.scroll, 0)),
        out_rect(areas[0]),
    );
    record_transcript_cells_into_position_map(f.buffer_mut(), areas[0], &mut app.position_map);
    if let Some(range) = app.mouse_selection.range() {
        apply_selection_highlight(
            f.buffer_mut(),
            areas[0],
            range,
            Some(Color::White),
            Some(Color::DarkGray),
        );
    }
    if let Some(strip) = frame.strip {
        f.render_widget(Paragraph::new(out_lines(&[strip])), out_rect(areas[2]));
    }
    f.render_widget(Paragraph::new(out_lines(&frame.input)), out_rect(areas[3]));
    f.render_widget(Paragraph::new(out_lines(&[frame.status])), out_rect(areas[5]));
    if let Some((column, row)) = frame.cursor {
        f.set_cursor_position((areas[3].x + column, areas[3].y + row));
    }
    if let ViewState::Overlay(o) = app.view {
        draw_overlay(f, app, o);
    }
    if let Some(sp) = app.always_subprompt.as_ref() {
        let area = out_rect(centered_rect(80, 80, screen));
        f.render_widget(Clear, area);
        let (tool, excerpt) = subprompt_subject(&app.ask_modal);
        draw_subprompt(f, area, sp, &tool, &excerpt);
    }
}

/// The whole screen as one text. What is not visible is not in it.
fn buffer_text(term: &Terminal<TestBackend>) -> String {
    term.backend().buffer().content.iter().map(ratatui::buffer::Cell::symbol).collect()
}

fn draw(app: &mut App, w: u16, h: u16) -> Terminal<TestBackend> {
    let mut term = Terminal::new(TestBackend::new(w, h)).unwrap();
    term.draw(|f| draw_all(f, app, &status_info())).unwrap();
    term
}

fn short_cwd(app: &mut App) {
    app.cwd = "/w".into();
}

fn status_text(app: &App) -> String {
    render_status(app, &status_info(), NOW).text()
}

fn joined(lines: &[Line]) -> String {
    lines.iter().map(|l| l.text()).collect::<Vec<_>>().join("\n")
}

fn app_with_ask(input_summary: String, pattern: String) -> App {
    let mut app = fresh_app();
    app.ask_modal = Some(AskRequest {
        id: 1,
        tool_name: "Bash".into(),
        input_summary,
        always_pattern: pattern,
        tool_input: parse_tool_input(r#"{"command":"x"}"#).unwrap(),
        first_arg: None,
    });
    app
}

fn cargo_subprompt() -> AlwaysSubprompt {
    AlwaysSubprompt {
        suggestions: vec![
            "Bash:cargo *".into(),
            "Bash:cargo test*".into(),
            "Bash:cargo test --all".into(),
        ],
        selected: 2,
        custom: None,
        preview_matches: true,
        scope: Scope::Project,
        comment: String::new(),
        reason: String::new(),
        action: Action::Allow,
    }
}

fn buf_from_lines(lines: &[&str]) -> Buffer {
    let width = u16::try_from(lines.iter().map(|l| l.chars().count()).max().unwrap_or(0))
        .expect("width fits u16");
    let height = u16::try_from(lines.len()).expect("height fits u16");
    let mut buf = Buffer::empty(TermRect::new(0, 0, width, height));
    for (y, line) in lines.iter().enumerate() {
        for (x, ch) in line.chars().enumerate() {
            if let Some(cell) = buf.cell_mut((u16::try_from(x).unwrap(), u16::try_from(y).unwrap()))
            {
                cell.set_symbol(&ch.to_string());
            }
        }
    }
    buf
}

#[test]
fn render_empty_transcript_does_not_panic() {
    let mut app = fresh_app();
    let term = draw(&mut app, 100, 40);
    // Status bar carries the provider/model; for_tests uses the mock model.
    let text = buffer_text(&term);
    assert!(text.contains("mock"), "status bar shows model: {text}");
}

#[test]
fn render_populated_transcript_shows_all_line_kinds() {
    let mut app = fresh_app();
    app.transcript
        .push(TranscriptLine::UserPrompt("first line\nsecond line".into()));
    app.transcript
        .push(TranscriptLine::AssistantText("hello from model".into()));
    app.transcript
        .push(TranscriptLine::AssistantThinking("pondering".into()));
    app.transcript.push(TranscriptLine::ToolCall {
        tool_use_id: "id1".into(),
        name: "Bash".into(),
        input: r#"{"command":"ls"}"#.into(),
        result: Some((false, "file.txt".into())),
    });
    app.transcript.push(TranscriptLine::ToolCall {
        tool_use_id: "id2".into(),
        name: "Read".into(),
        input: r#"{"path":"x"}"#.into(),
        result: Some((true, "boom".into())),
    });
    app.transcript.push(TranscriptLine::UsageSummary {
        input_tokens: 100,
        output_tokens: 50,
        cache_read: Some(20),
        cache_creation: Some(10),
        last_turn_ttft_ms: Some(300),
        turn_count: 2,
    });
    app.transcript
        .push(TranscriptLine::Info("info message".into()));
    app.transcript
        .push(TranscriptLine::Error("bad thing".into()));
    app.transcript.push(TranscriptLine::Attached {
        display_path: "doc.md".into(),
        bytes: 2048,
    });

    let term = draw(&mut app, 120, 50);
    let text = buffer_text(&term);
    assert!(text.contains("user:"));
    assert!(text.contains("first line"));
    assert!(text.contains("hello from model"));
    assert!(text.contains("thinking"));
    assert!(text.contains("Bash"));
    assert!(text.contains("error"));
    assert!(text.contains("caliban:"));
    assert!(text.contains("TTFT"));
    assert!(text.contains("info message"));
    assert!(text.contains("doc.md"));
    assert!(text.contains("KB"));
}

#[test]
fn render_while_running_shows_spinner_and_activity() {
    let mut app = fresh_app();
    short_cwd(&mut app);
    app.running = Some(RunningTurn {
        activity: Activity::Streaming {
            since: NOW,
        },
    });
    let term = draw(&mut app, 120, 30);
    let text = buffer_text(&term);
    assert!(text.contains("streaming response"));
}

#[test]
fn render_running_dispatching_tool_shows_tool_name() {
    let mut app = fresh_app();
    short_cwd(&mut app);
    app.running = Some(RunningTurn {
        activity: Activity::DispatchingTool {
            name: "Grep".into(),
            since: NOW,
        },
    });
    let term = draw(&mut app, 120, 30);
    assert!(buffer_text(&term).contains("running Grep"));
}

#[test]
fn render_with_toast_shows_error_text() {
    let mut app = fresh_app();
    app.toast = Some(Toast::error("disk full", NOW));
    let term = draw(&mut app, 100, 30);
    assert!(buffer_text(&term).contains("disk full"));
}

#[test]
fn render_with_queued_indicator_when_no_toast() {
    let mut app = fresh_app();
    app.queued.push_back("queued message".into());
    let term = draw(&mut app, 100, 30);
    assert!(buffer_text(&term).contains("QUEUED"));
}

#[test]
fn render_toast_wins_over_queued_indicator() {
    let mut app = fresh_app();
    app.queued.push_back("queued message".into());
    app.toast = Some(Toast::warn("watch out", NOW));
    let term = draw(&mut app, 100, 30);
    let text = buffer_text(&term);
    assert!(text.contains("watch out"));
    assert!(!text.contains("QUEUED"));
}

#[test]
fn render_with_input_buffer_shows_prompt_and_text() {
    let mut app = fresh_app();
    app.input.buffer = "type here".into();
    app.input.cursor = app.input.buffer.len();
    let term = draw(&mut app, 80, 20);
    let text = buffer_text(&term);
    assert!(text.contains("> type here"));
}

#[test]
fn render_multiline_input_wraps_segments() {
    let mut app = fresh_app();
    app.input.buffer = "line one\nline two".into();
    app.input.cursor = app.input.buffer.len();
    let term = draw(&mut app, 80, 20);
    let text = buffer_text(&term);
    assert!(text.contains("line one"));
    assert!(text.contains("line two"));
}

#[test]
fn render_with_overlay_open_shows_overlay_chrome() {
    let mut app = fresh_app();
    app.view = ViewState::Overlay(Overlay::Config);
    let term = draw(&mut app, 100, 40);
    let text = buffer_text(&term);
    // Status bar shows the overlay chip; the overlay body shows Config rows.
    assert!(text.contains("q to close") || text.contains("Provider"));
}

#[test]
fn render_with_plan_mode_shows_plan_chip() {
    let mut app = fresh_app();
    short_cwd(&mut app);
    app.plan_mode = true;
    let term = draw(&mut app, 120, 20);
    assert!(buffer_text(&term).contains("plan"));
}

#[test]
fn render_with_bypass_latch_shows_warning_chip() {
    let mut app = fresh_app();
    short_cwd(&mut app);
    app.bypass_latch = true;
    let term = draw(&mut app, 120, 20);
    assert!(buffer_text(&term).contains("bypass latched"));
}

#[test]
fn render_with_custom_statusline_segment() {
    let mut app = fresh_app();
    app.custom_statusline = "branch:main".into();
    let term = draw(&mut app, 120, 20);
    assert!(buffer_text(&term).contains("branch:main"));
}

#[test]
fn render_with_mouse_selection_highlight_does_not_panic() {
    let mut app = fresh_app();
    app.transcript
        .push(TranscriptLine::AssistantText("highlight me please".into()));
    app.mouse_selection.on_down(Cell::new(0, 0));
    app.mouse_selection.on_drag(Cell::new(0, 8));
    app.mouse_selection.on_up(Cell::new(0, 8));
    let term = draw(&mut app, 100, 30);
    assert!(buffer_text(&term).contains("highlight"));
}

#[test]
fn render_long_transcript_auto_scrolls_to_bottom() {
    let mut app = fresh_app();
    for i in 0..200 {
        app.transcript
            .push(TranscriptLine::AssistantText(format!("row {i}")));
    }
    app.auto_scroll = true;
    let term = draw(&mut app, 80, 20);
    let text = buffer_text(&term);
    // Bottom of the transcript should be visible; the very last row's text.
    assert!(text.contains("row 199"));
    // Auto-scroll pinned the offset to the computed max.
    assert_eq!(app.scroll, app.last_max_scroll);
}

#[test]
fn render_manual_scroll_clamped_to_max() {
    let mut app = fresh_app();
    for i in 0..50 {
        app.transcript
            .push(TranscriptLine::AssistantText(format!("line {i}")));
    }
    app.auto_scroll = false;
    app.scroll = u16::MAX; // absurd offset → clamps to max_scroll
    let term = draw(&mut app, 80, 20);
    let _ = buffer_text(&term);
    assert_eq!(app.scroll, app.last_max_scroll);
}

#[test]
fn render_status_shows_permission_mode_chip_when_non_default() {
    let mut app = fresh_app();
    app.permission_mode = PermissionMode::AcceptEdits;
    let text = status_text(&app);
    // Non-default modes emit a bracketed chip via `chip()`.
    assert!(text.contains('['), "perm chip present: {text}");
}

#[test]
fn render_status_hides_perm_chip_for_default_mode() {
    let mut app = fresh_app();
    // Default mode (the for_tests default) emits no permission chip.
    app.permission_mode = PermissionMode::Default;
    let text = status_text(&app);
    assert!(text.contains("mock"));
}

#[test]
fn render_status_overlay_chip_present_when_overlay_open() {
    let mut app = fresh_app();
    app.view = ViewState::Overlay(Overlay::Mcp);
    let text = status_text(&app);
    assert!(text.contains("q to close"));
}

#[test]
fn record_transcript_cells_round_trips_single_line() {
    let buf = buf_from_lines(&["hello"]);
    let area = Rect { x: 0, y: 0, width: 5, height: 1 };
    let mut map = PositionMap::new();
    record_transcript_cells_into_position_map(&buf, area, &mut map);
    // Buffer is at (0, 0) so map records (row=0, col=0..4).
    let extracted = map.extract_range(Cell::new(0, 0), Cell::new(0, 4));
    assert_eq!(extracted, "hello");
}

#[test]
fn record_transcript_cells_only_within_area() {
    let buf = buf_from_lines(&["abcde", "fghij", "klmno"]);
    // Only the middle row should be recorded.
    let area = Rect { x: 0, y: 1, width: 5, height: 1 };
    let mut map = PositionMap::new();
    record_transcript_cells_into_position_map(&buf, area, &mut map);
    // Cells outside area not recorded.
    assert!(map.get(0, 0).is_none());
    assert!(map.get(2, 0).is_none());
    // Cells inside area recorded.
    assert_eq!(map.get(1, 0), Some('f'));
    assert_eq!(map.get(1, 4), Some('j'));
}

#[test]
fn record_clears_map_each_call() {
    let buf1 = buf_from_lines(&["aaa"]);
    let buf2 = buf_from_lines(&["bbb"]);
    let area = Rect { x: 0, y: 0, width: 3, height: 1 };
    let mut map = PositionMap::new();
    record_transcript_cells_into_position_map(&buf1, area, &mut map);
    assert_eq!(map.get(0, 0), Some('a'));
    record_transcript_cells_into_position_map(&buf2, area, &mut map);
    assert_eq!(map.get(0, 0), Some('b'));
}

#[test]
fn apply_selection_highlight_styles_cells_in_single_row() {
    let mut buf = buf_from_lines(&["hello world"]);
    let area = Rect { x: 0, y: 0, width: 11, height: 1 };
    let bg = Some(Color::DarkGray);
    apply_selection_highlight(
        &mut buf,
        area,
        (Cell::new(0, 0), Cell::new(0, 4)),
        None,
        bg,
    );
    for x in 0..=4 {
        assert_eq!(buf.cell((x, 0)).unwrap().style().bg, Some(TermColor::DarkGray));
    }
    // Outside the range — no highlight.
    assert!(
        buf.cell((5, 0)).unwrap().style().bg.is_none()
            || buf.cell((5, 0)).unwrap().style().bg != Some(TermColor::DarkGray)
    );
}

#[test]
fn apply_selection_highlight_normalises_reversed_endpoints() {
    let mut buf = buf_from_lines(&["abcde"]);
    let area = Rect { x: 0, y: 0, width: 5, height: 1 };
    let bg = Some(Color::Red);
    // Reversed: (0,3) -> (0,1) should highlight cols 1..=3.
    apply_selection_highlight(
        &mut buf,
        area,
        (Cell::new(0, 3), Cell::new(0, 1)),
        None,
        bg,
    );
    for x in 1..=3 {
        assert_eq!(buf.cell((x, 0)).unwrap().style().bg, Some(TermColor::Red));
    }
}

#[test]
fn apply_selection_highlight_clips_to_area() {
    let mut buf = buf_from_lines(&["abcde", "fghij"]);
    // Area is only the second row.
    let area = Rect { x: 0, y: 1, width: 5, height: 1 };
    let bg = Some(Color::Green);
    // Selection spans both rows; only the in-area cells get styled.
    apply_selection_highlight(
        &mut buf,
        area,
        (Cell::new(0, 0), Cell::new(1, 4)),
        None,
        bg,
    );
    // Row 0 untouched.
    for x in 0..5 {
        assert_ne!(buf.cell((x, 0)).unwrap().style().bg, Some(TermColor::Green));
    }
    // Row 1 fully highlighted.
    for x in 0..5 {
        assert_eq!(buf.cell((x, 1)).unwrap().style().bg, Some(TermColor::Green));
    }
}

#[test]
fn permissions_lines_shows_default_mode_and_no_rules_on_fresh_app() {
    let app = fresh_app();
    let lines = permissions_lines(&app, &rules(), false);
    let joined = joined(&lines);
    assert!(joined.contains("Mode: default"));
    // Default rules (e.g. Read, Bash) are always shown even on a fresh app.
    assert!(joined.contains("[default]"));
    assert!(joined.contains("Bypass latch: not armed"));
}

#[test]
fn permissions_lines_renders_mode_chip_when_not_default() {
    let mut app = fresh_app();
    app.permission_mode = PermissionMode::Plan;
    let lines = permissions_lines(&app, &rules(), false);
    let joined = joined(&lines);
    assert!(joined.contains("plan"));
    assert!(!joined.contains("Mode: default"));
}

#[test]
fn permissions_lines_lists_runtime_rules_with_cursor() {
    let mut app = fresh_app();
    app.runtime_rules.push(RuntimeRule {
        pattern: "Bash:ls *".into(),
        action: Action::Allow,
    });
    app.runtime_rules.push(RuntimeRule {
        pattern: "Edit(/tmp/*)".into(),
        action: Action::Deny,
    });
    app.permissions.cursor = 1;
    let lines = permissions_lines(&app, &rules(), false);
    let joined = joined(&lines);
    assert!(joined.contains("[0] Allow Bash:ls *"));
    assert!(joined.contains("[1] Deny  Edit(/tmp/*)"));
    // Cursor mark on row 1 (the selected one).
    let lines_text: Vec<String> = lines.iter().map(|l| l.text()).collect();
    let row1 = lines_text
        .iter()
        .find(|s| s.contains("[1]"))
        .expect("rule row 1");
    assert!(row1.starts_with("  >"));
}

#[test]
fn permissions_lines_clamps_cursor_when_past_end() {
    let mut app = fresh_app();
    app.runtime_rules.push(RuntimeRule {
        pattern: "a".into(),
        action: Action::Allow,
    });
    app.permissions.cursor = 99; // intentionally out of bounds
    // Should not panic; cursor clamps to the last row in the displayed
    // list (session rule + built-in defaults).
    let lines = permissions_lines(&app, &rules(), false);
    let lines_text: Vec<String> = lines.iter().map(|l| l.text()).collect();
    // The session rule "a" appears at [0].
    assert!(
        lines_text.iter().any(|s| s.contains("[0]")),
        "rule row 0 must be present"
    );
    // At least one row must have the cursor mark (the last row in the list).
    assert!(
        lines_text.iter().any(|s| s.starts_with("  >")),
        "some row must have the cursor mark"
    );
}

#[test]
fn permissions_overlay_renders_all_three_tabs() {
    let mut app = fresh_app();
    for tab in [
        PermissionsTab::View,
        PermissionsTab::Edit,
        PermissionsTab::Audit,
    ] {
        app.permissions.tab = tab;
        let lines = permissions_lines(&app, &rules(), false);
        let joined = joined(&lines);
        // Each tab should show the tab header marker.
        match tab {
            PermissionsTab::View => assert!(joined.contains("View(▶)"), "View tab header"),
            PermissionsTab::Edit => assert!(joined.contains("Edit(▶)"), "Edit tab header"),
            PermissionsTab::Audit => assert!(joined.contains("Audit(▶)"), "Audit tab header"),
        }
    }
}

#[test]
fn permissions_tab_header_reflects_active_tab() {
    let mut app = fresh_app();
    app.permissions.tab = PermissionsTab::Edit;
    let lines = permissions_lines(&app, &rules(), false);
    let joined = joined(&lines);
    assert!(joined.contains("Edit(▶)"), "Edit should be active");
    assert!(!joined.contains("View(▶)"), "View should not be active");
}

#[test]
fn ask_modal_keeps_deny_actions_visible_with_long_input() {
    let app = app_with_ask(
        format!("command={}", "x".repeat(2000)),
        format!("Bash:{}", "y".repeat(400)),
    );
    let mut term = Terminal::new(TestBackend::new(80, 24)).unwrap();
    term.draw(|f| draw_overlay(f, &app, Overlay::AskModal))
        .unwrap();
    let text = buffer_text(&term);
    assert!(
        text.contains("[n]"),
        "Deny-once hint must stay visible with long input; rendered:\n{text}"
    );
    assert!(
        text.contains("[d]"),
        "Always-deny hint must stay visible with long input; rendered:\n{text}"
    );
}

#[test]
fn ask_modal_action_lines_mark_only_the_selected_row() {
    let none = ask_modal_action_lines(None);
    let sel2 = ask_modal_action_lines(Some(2));
    let text = |l: &Line| -> String { l.text() };
    // Row indices in the returned vec: [blank, r0, r1, r2, r3, r4, blank, footer].
    assert!(text(&sel2[3]).starts_with(" \u{25b8} "), "row 2 must be marked");
    assert!(
        text(&sel2[3]).contains("Always allow"),
        "row 2 is the always-allow row"
    );
    for i in [1usize, 2, 4, 5] {
        assert!(
            text(&sel2[i]).starts_with("   "),
            "non-selected row {i} keeps the plain indent"
        );
    }
    // Highlighting must not change widths.
    for (a, b) in none.iter().zip(sel2.iter()) {
        assert_eq!(line_width(a), line_width(b), "marker must preserve width");
    }
}

#[test]
fn ask_modal_keeps_action_labels_intact_on_narrow_terminal() {
    let app = app_with_ask(
        "command=find target -type f -executable".into(),
        "Bash:find target -type f -executable".into(),
    );
    // ~half-screen width that previously clipped the action rows.
    let mut term = Terminal::new(TestBackend::new(64, 24)).unwrap();
    term.draw(|f| draw_overlay(f, &app, Overlay::AskModal))
        .unwrap();
    let text = buffer_text(&term);
    for needle in [
        "Always allow",
        "Always deny",
        "(opens scope picker)",
    ] {
        assert!(
            text.contains(needle),
            "action label {needle:?} must not be truncated on a narrow terminal; rendered:\n{text}"
        );
    }
}

#[test]
fn render_with_context_window_segment() {
    let mut app = fresh_app();
    short_cwd(&mut app);
    let info = StatusInfo { context: Some("12% of 200K".into()), ..status_info() };
    let mut term = Terminal::new(TestBackend::new(140, 20)).unwrap();
    term.draw(|f| draw_all(f, &mut app, &info)).unwrap();
    assert!(buffer_text(&term).contains("of 200K"));
}

#[test]
fn render_status_includes_session_segment() {
    let mut app = fresh_app();
    app.session = Some(Session {
        name: "demo-session".into(),
        turn_count: 0,
        input_tokens: 0,
        output_tokens: 0,
        messages: Vec::new(),
        plan_mode: false,
        todos: Vec::new(),
    });
    let text = status_text(&app);
    assert!(text.contains("session: demo-session"));
    assert!(text.contains("0t)"));
}

#[test]
fn render_tiny_terminal_does_not_panic() {
    let mut app = fresh_app();
    app.transcript.push(TranscriptLine::AssistantText("some content".into()));
    app.input.buffer = "abc".into();
    app.input.cursor = 3;
    for (w, h) in [(10u16, 6u16), (1, 6), (5, 3), (40, 2)] {
        draw(&mut app, w, h);
    }
}

#[test]
fn render_overflowing_input_caps_at_max_rows() {
    let mut app = fresh_app();
    app.input.buffer = "x".repeat(500);
    app.input.cursor = app.input.buffer.len();
    let term = draw(&mut app, 20, 20);
    assert!(buffer_text(&term).contains('x'));
}

#[test]
fn render_running_stalled_shows_no_tokens_hint() {
    let mut app = fresh_app();
    short_cwd(&mut app);
    // Last delta 12s ago, streaming (not a tool): the hint shows.
    app.last_delta_at = NOW - 12_000;
    app.running = Some(RunningTurn { activity: Activity::Streaming { since: NOW } });
    let term = draw(&mut app, 120, 30);
    assert!(buffer_text(&term).contains("no tokens for"));
}

#[test]
fn render_always_subprompt_does_not_panic() {
    let mut term = Terminal::new(TestBackend::new(80, 24)).unwrap();
    let sp = cargo_subprompt();
    term.draw(|f| {
        let area = f.area();
        draw_subprompt(f, area, &sp, "Bash", "command: cargo test --all");
    })
    .unwrap();
}

#[test]
fn always_subprompt_keeps_controls_visible_with_long_input() {
    let mut term = Terminal::new(TestBackend::new(80, 40)).unwrap();
    let sp = cargo_subprompt();
    // A pasted command of many lines, far taller than the sub-prompt.
    let long_excerpt = (0..80)
        .map(|i| format!("line {i} of a very long pasted command"))
        .collect::<Vec<_>>()
        .join("\n");
    term.draw(|f| {
        let area = f.area();
        draw_subprompt(f, area, &sp, "Bash", &long_excerpt);
    })
    .unwrap();
    let text = buffer_text(&term);
    for needle in [
        "[enter] save",          // footer controls
        "Bash:cargo test --all", // the selected suggestion
        "[custom]",              // the custom-pattern row
        "project",               // a scope option
    ] {
        assert!(
            text.contains(needle),
            "sub-prompt must keep {needle:?} visible with long input; rendered:\n{text}"
        );
    }
}

#[test]
fn ask_modal_a_key_makes_sub_prompt_actually_visible() {
    let mut app = fresh_app();
    app.ask_modal = Some(AskRequest::new(
        1,
        "Bash",
        parse_tool_input(r#"{"command":"ls"}"#).unwrap(),
        None,
    ));
    app.view = ViewState::Overlay(Overlay::AskModal);
    let before = buffer_text(&draw(&mut app, 80, 30));
    assert!(
        !before.contains("Save to:"),
        "before pressing `a`, the modal must not show sub-prompt content"
    );
    handle_key(
        KeyEvent::new(KeyCode::Char('a'), KeyModifiers::none()),
        &mut app,
        &rules(),
        NOW,
    );
    assert!(app.always_subprompt.is_some(), "[a] must open the sub-prompt state");
    let after = buffer_text(&draw(&mut app, 80, 30));
    assert!(
        after.contains("Save to:"),
        "after pressing `a` the sub-prompt MUST be rendered; rendered output was:\n{after}"
    );
}
