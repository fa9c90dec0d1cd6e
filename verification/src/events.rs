//! Keys, the mouse, and what the world reports back: how each of them
//! changes the state, and what it asks for.

use vstd::prelude::*;

use crate::app::{App, AppView, RuleSources, RuleSourcesView};
use crate::effect::{effects_view, just, nothing, push_effect, Effect, EffectView};
use crate::input::InputView;
use crate::menu::{handle_menu_key, menu_action, menu_pressed};
use crate::mouse_select::{range_text, Cell, MouseSelection};
use crate::overlay::{Overlay, ViewState};
use crate::permissions::{
    cycle_effects, cycle_permission_mode, cycled, drop_bypass, handle_always_subprompt_key,
    handle_ask_modal_key, handle_permissions_overlay_key, latch_dropped, modal_key, overlay_key,
    overlay_takes, subprompt_key,
};
use crate::reverse_history::{HistoryScope, HistorySource, ReverseHistoryState, ReverseHistoryView};
use crate::shell_escape::{intent, parse_shell_escape, ShellEscapeIntent};
use crate::slash::dispatch::{handle_slash_command, line_ran};
use crate::slash::{invokes_immediate, is_immediate_slash};
use crate::style::{cap_u16, lines_view, to_u16};
use crate::text::{cat2, clone_opt, clone_texts, opt_text, texts, trim, trim_text};
use crate::toast::{elapsed, millis_between, toast, Toast, ToastLevel};
use crate::transcript_viewer::{format_history, history_rows, TranscriptViewerState};
use crate::types::{KeyCode, KeyEvent, MouseButton, MouseEvent, MouseEventKind};

verus! {

// ---------------------------------------------------------------------------
// Prompts that wait
// ---------------------------------------------------------------------------

pub open spec fn next_queued(app: AppView) -> Option<Seq<char>> {
    if app.queued.len() > 0 {
        Some(app.queued[0])
    } else {
        None
    }
}

pub open spec fn unqueued(app: AppView) -> AppView {
    if app.queued.len() > 0 {
        AppView { queued: app.queued.skip(1), ..app }
    } else {
        app
    }
}

/// Takes the prompt that has waited longest.
pub fn drain_one_queued(app: &mut App) -> (r: Option<String>)
    requires
        old(app).wf(),
    ensures
        final(app).wf(),
        opt_text(r) == next_queued(old(app)@),
        final(app)@ == unqueued(old(app)@),
{
    let ghost before = app.queued@;
    let r = app.queued.pop_front();
    proof {
        if before.len() > 0 {
            assert(texts(before)[0] == before[0]@);
            assert(texts(app.queued@) =~= texts(before).skip(1));
        }
    }
    r
}

/// The queue emptied by Esc, where it holds anything.
pub open spec fn queue_cleared(app: AppView, now: u64) -> AppView {
    if app.queued.len() == 0 {
        app
    } else {
        AppView { queued: Seq::empty(), esc_armed_at: Some(now), ..app }
    }
}

/// Empties the queue; says whether it held anything.
pub fn handle_esc_queue_clear(app: &mut App, now: u64) -> (r: bool)
    requires
        old(app).wf(),
    ensures
        final(app).wf(),
        r == (old(app)@.queued.len() > 0),
        final(app)@ == queue_cleared(old(app)@, now),
{
    assert(app@.queued.len() == app.queued@.len());
    if app.queued.len() == 0 {
        return false;
    }
    app.queued.clear();
    assert(texts(app.queued@) =~= Seq::<Seq<char>>::empty());
    app.esc_armed_at = Some(now);
    true
}

/// The prompt put behind those that wait, unless it is blank.
pub open spec fn prompt_queued(app: AppView) -> AppView {
    let line = trim(app.input.text);
    if line.len() == 0 {
        app
    } else {
        AppView {
            queued: app.queued.push(line),
            input: app.input.filled(Seq::empty()),
            ..app
        }
    }
}

/// Puts the prompt behind those that wait.
pub fn push_user_input_to_queue(app: &mut App)
    requires
        old(app).wf(),
    ensures
        final(app).wf(),
        final(app)@ == prompt_queued(old(app)@),
{
    let line = trim_text(app.input.buffer.as_str());
    if line.as_str().is_empty() {
        return;
    }
    let ghost before = app.queued@;
    app.queued.push_back(line);
    assert(texts(app.queued@) =~= texts(before).push(line@));
    app.input.blank();
}

// ---------------------------------------------------------------------------
// Scrolling and the mouse
// ---------------------------------------------------------------------------

/// Rows that one notch of the wheel scrolls.
pub const MOUSE_WHEEL_ROWS: u16 = 3;

/// Rows that a page key scrolls.
pub const PAGE_ROWS: u16 = 10;

/// The transcript `rows` up. From the end it starts at the last position.
pub open spec fn scrolled_up(app: AppView, rows: u16) -> AppView {
    let from = if app.auto_scroll {
        app.last_max_scroll
    } else {
        app.scroll
    };
    AppView {
        auto_scroll: false,
        scroll: (if from >= rows {
            from - rows
        } else {
            0
        }) as u16,
        ..app
    }
}

/// The transcript `rows` down; at the end it follows again.
pub open spec fn scrolled_down(app: AppView, rows: u16) -> AppView {
    let next = cap_u16(app.scroll + rows);
    if next >= app.last_max_scroll {
        AppView { scroll: app.last_max_scroll, auto_scroll: true, ..app }
    } else {
        AppView { scroll: next as u16, ..app }
    }
}

fn scroll_up(app: &mut App, rows: u16)
    requires
        old(app).wf(),
    ensures
        final(app).wf(),
        final(app)@ == scrolled_up(old(app)@, rows),
{
    if app.auto_scroll {
        app.scroll = app.last_max_scroll;
        app.auto_scroll = false;
    }
    app.scroll = app.scroll.saturating_sub(rows);
}

fn scroll_down(app: &mut App, rows: u16)
    requires
        old(app).wf(),
    ensures
        final(app).wf(),
        final(app)@ == scrolled_down(old(app)@, rows),
{
    let next = app.scroll.saturating_add(rows);
    if next >= app.last_max_scroll {
        app.scroll = app.last_max_scroll;
        app.auto_scroll = true;
    } else {
        app.scroll = next;
    }
}

/// The state after a mouse event. Inside an overlay the mouse does nothing;
/// elsewhere the wheel scrolls, the left button selects, and letting go of
/// it copies what is selected.
pub open spec fn moused(app: AppView, e: MouseEvent) -> (AppView, Seq<EffectView>) {
    let cell = Cell { row: e.row, col: e.column };
    if app.view is Overlay {
        (app, Seq::empty())
    } else {
        match e.kind {
            MouseEventKind::ScrollUp => (scrolled_up(app, MOUSE_WHEEL_ROWS), Seq::empty()),
            MouseEventKind::ScrollDown => (scrolled_down(app, MOUSE_WHEEL_ROWS), Seq::empty()),
            MouseEventKind::Down(MouseButton::Left) => (
                AppView { mouse_selection: app.mouse_selection.down(cell), ..app },
                Seq::empty(),
            ),
            MouseEventKind::Drag(MouseButton::Left) => (
                AppView { mouse_selection: app.mouse_selection.dragged(cell), ..app },
                Seq::empty(),
            ),
            MouseEventKind::Up(MouseButton::Left) => {
                let done = app.mouse_selection.up(cell);
                (
                    AppView { mouse_selection: done, ..app },
                    match done.selected() {
                        Some(r) => seq![
                            Effect::CopyToClipboard(range_text(app.cells, r.0, r.1)),
                        ],
                        None => Seq::empty(),
                    },
                )
            },
            MouseEventKind::Down(_) => (
                AppView { mouse_selection: MouseSelection::Idle, ..app },
                Seq::empty(),
            ),
            _ => (app, Seq::empty()),
        }
    }
}

/// Takes a mouse event.
pub fn handle_mouse(event: MouseEvent, app: &mut App) -> (effects: Vec<Effect>)
    requires
        old(app).wf(),
    ensures
        final(app).wf(),
        (final(app)@, effects_view(effects@)) == moused(old(app)@, event),
{
    if let ViewState::Overlay(_) = app.view {
        return nothing();
    }
    let cell = Cell::new(event.row, event.column);
    match event.kind {
        MouseEventKind::ScrollUp => {
            scroll_up(app, MOUSE_WHEEL_ROWS);
            nothing()
        },
        MouseEventKind::ScrollDown => {
            scroll_down(app, MOUSE_WHEEL_ROWS);
            nothing()
        },
        MouseEventKind::Down(MouseButton::Left) => {
            app.mouse_selection.on_down(cell);
            nothing()
        },
        MouseEventKind::Drag(MouseButton::Left) => {
            app.mouse_selection.on_drag(cell);
            nothing()
        },
        MouseEventKind::Up(MouseButton::Left) => {
            app.mouse_selection.on_up(cell);
            match app.mouse_selection.range() {
                Some((start, end)) => {
                    let text = app.position_map.extract_range(start, end);
                    just(Effect::CopyToClipboard(text))
                },
                None => nothing(),
            }
        },
        MouseEventKind::Down(_) => {
            app.mouse_selection.cancel();
            nothing()
        },
        _ => nothing(),
    }
}

// ---------------------------------------------------------------------------
// The list of servers
// ---------------------------------------------------------------------------

/// What a key says in the list of servers.
pub open spec fn mcp_notice(key: KeyEvent) -> Option<(ToastLevel, Seq<char>)> {
    if key.plain_char('d') {
        Some(
            (
                ToastLevel::Warn,
                "mcp: disable not yet wired \u{2014} edit `disabled = true` in mcp.toml then restart"@,
            ),
        )
    } else if key.plain_char('r') {
        Some(
            (
                ToastLevel::Warn,
                "mcp: live reload not yet wired \u{2014} restart caliban to pick up edits"@,
            ),
        )
    } else if key.plain_char('a') {
        Some(
            (
                ToastLevel::Info,
                "mcp: OAuth flow auto-triggers on first call when oauth=auto or manual"@,
            ),
        )
    } else if key.plain_char('s') {
        Some((ToastLevel::Info, "mcp: stderr is logged to RUST_LOG=caliban::mcp::stderr"@))
    } else if key.plain_char('t') {
        Some(
            (
                ToastLevel::Info,
                "mcp: tool list shown in the transcript on /usage and via tool dispatcher"@,
            ),
        )
    } else {
        None
    }
}

pub open spec fn mcp_key(app: AppView, key: KeyEvent, now: u64) -> AppView {
    match mcp_notice(key) {
        Some(n) => app.noticed(toast(n.0, n.1, now)),
        None => app,
    }
}

/// Takes a key in the list of servers; says whether it has a use for it.
pub fn handle_mcp_overlay_key(key: KeyEvent, app: &mut App, now: u64) -> (r: bool)
    requires
        old(app).wf(),
    ensures
        final(app).wf(),
        r == (mcp_notice(key) is Some),
        final(app)@ == mcp_key(old(app)@, key, now),
{
    let t = if key.is_plain('d') {
        Toast::warn(
            "mcp: disable not yet wired \u{2014} edit `disabled = true` in mcp.toml then restart",
            now,
        )
    } else if key.is_plain('r') {
        Toast::warn(
            "mcp: live reload not yet wired \u{2014} restart caliban to pick up edits",
            now,
        )
    } else if key.is_plain('a') {
        Toast::info("mcp: OAuth flow auto-triggers on first call when oauth=auto or manual", now)
    } else if key.is_plain('s') {
        Toast::info("mcp: stderr is logged to RUST_LOG=caliban::mcp::stderr", now)
    } else if key.is_plain('t') {
        Toast::info("mcp: tool list shown in the transcript on /usage and via tool dispatcher", now)
    } else {
        return false;
    };
    app.toast = Some(t);
    true
}

// ---------------------------------------------------------------------------
// The transcript viewer
// ---------------------------------------------------------------------------

/// The last row that the viewer can start at.
pub open spec fn viewer_end(app: AppView) -> u16 {
    let n = history_rows(app.messages, app.transcript_viewer.show_all).len();
    cap_u16(
        if n > 0 {
            n - 1
        } else {
            0
        },
    ) as u16
}

fn viewer_bottom(app: &App) -> (r: u16)
    ensures
        r == viewer_end(app@),
{
    let rows = format_history(&app.messages, app.transcript_viewer.show_all);
    assert(lines_view(rows@).len() == rows@.len());
    to_u16(rows.len().saturating_sub(1))
}

pub open spec fn viewing(app: AppView, v: TranscriptViewerState) -> AppView {
    AppView { transcript_viewer: v, ..app }
}

/// The state after a key in the viewer.
pub open spec fn viewer_key(app: AppView, key: KeyEvent) -> (AppView, Seq<EffectView>) {
    let v = app.transcript_viewer;
    if key.code == KeyCode::Esc || key.plain_char('q') {
        (app.showing(ViewState::Main), Seq::empty())
    } else if key.code == KeyCode::Char('?') {
        (
            viewing(app, TranscriptViewerState { show_help: !v.show_help, ..v }),
            Seq::empty(),
        )
    } else if key.ctrl_char('e') {
        (viewing(app, TranscriptViewerState { show_all: !v.show_all, ..v }), Seq::empty())
    } else if key.code == KeyCode::Char('j') || key.code == KeyCode::Down {
        (viewing(app, v.sunk(1, viewer_end(app))), Seq::empty())
    } else if key.code == KeyCode::Char('k') || key.code == KeyCode::Up {
        (viewing(app, v.risen(1)), Seq::empty())
    } else if key.code == KeyCode::PageDown {
        (viewing(app, v.sunk(PAGE_ROWS, viewer_end(app))), Seq::empty())
    } else if key.code == KeyCode::PageUp {
        (viewing(app, v.risen(PAGE_ROWS)), Seq::empty())
    } else if key.plain_char('g') {
        (viewing(app, TranscriptViewerState { scroll: 0, ..v }), Seq::empty())
    } else if key.code == KeyCode::Char('G') {
        (viewing(app, TranscriptViewerState { scroll: viewer_end(app), ..v }), Seq::empty())
    } else if key.code == KeyCode::Char('[') {
        (app, seq![Effect::DumpTranscript])
    } else if key.code == KeyCode::Char('v') {
        (app, seq![Effect::OpenTranscript])
    } else {
        (app, Seq::empty())
    }
}

/// Takes a key in the viewer.
pub fn handle_transcript_viewer_key(key: KeyEvent, app: &mut App) -> (effects: Vec<Effect>)
    requires
        old(app).wf(),
    ensures
        final(app).wf(),
        (final(app)@, effects_view(effects@)) == viewer_key(old(app)@, key),
{
    if key.code == KeyCode::Esc || key.is_plain('q') {
        app.view = ViewState::Main;
    } else if key.code == KeyCode::Char('?') {
        app.transcript_viewer.show_help = !app.transcript_viewer.show_help;
    } else if key.is_ctrl('e') {
        app.transcript_viewer.show_all = !app.transcript_viewer.show_all;
    } else if key.code == KeyCode::Char('j') || key.code == KeyCode::Down {
        let max = viewer_bottom(app);
        app.transcript_viewer.down(1, max);
    } else if key.code == KeyCode::Char('k') || key.code == KeyCode::Up {
        app.transcript_viewer.up(1);
    } else if key.code == KeyCode::PageDown {
        let max = viewer_bottom(app);
        app.transcript_viewer.down(PAGE_ROWS, max);
    } else if key.code == KeyCode::PageUp {
        app.transcript_viewer.up(PAGE_ROWS);
    } else if key.is_plain('g') {
        app.transcript_viewer.scroll = 0;
    } else if key.code == KeyCode::Char('G') {
        let max = viewer_bottom(app);
        app.transcript_viewer.scroll = max;
    } else if key.code == KeyCode::Char('[') {
        return just(Effect::DumpTranscript);
    } else if key.code == KeyCode::Char('v') {
        return just(Effect::OpenTranscript);
    }
    nothing()
}

// ---------------------------------------------------------------------------
// The search through past prompts
// ---------------------------------------------------------------------------

/// The search opened over the prompt's history.
pub open spec fn search_opened(app: AppView) -> AppView {
    AppView {
        reverse_history: Some(
            ReverseHistoryView::fresh(
                app.input.history,
                app.input_history_path,
                app.projects_root,
            ),
        ),
        view: ViewState::Overlay(Overlay::ReverseHistory),
        ..app
    }
}

/// Opens the search through past prompts.
pub fn open_reverse_history(app: &mut App)
    requires
        old(app).wf(),
    ensures
        final(app).wf(),
        final(app)@ == search_opened(old(app)@),
{
    let history = clone_texts(&app.input.history);
    let path = clone_opt(&app.input_history_path);
    let root = clone_opt(&app.projects_root);
    app.reverse_history = Some(ReverseHistoryState::new(history, path, root));
    app.view = ViewState::Overlay(Overlay::ReverseHistory);
}

pub open spec fn search_closed(app: AppView) -> AppView {
    AppView { reverse_history: None, view: ViewState::Main, ..app }
}

/// The prompt filled with what the search found.
pub open spec fn search_taken(app: AppView) -> AppView {
    match app.reverse_history {
        Some(s) => match s.chosen() {
            Some(text) => search_closed(app.typing(app.input.filled(text))),
            None => search_closed(app),
        },
        None => search_closed(app),
    }
}

/// What a search wants to read.
pub open spec fn reading(want: Option<HistorySource<Seq<char>>>) -> Seq<EffectView> {
    match want {
        Some(s) => seq![Effect::LoadHistory(s)],
        None => Seq::empty(),
    }
}

/// The state after a key in the search.
pub open spec fn search_key(app: AppView, key: KeyEvent) -> (AppView, Seq<EffectView>) {
    if key.code == KeyCode::Esc {
        (search_closed(app), Seq::empty())
    } else if key.code == KeyCode::Enter {
        (search_taken(app), Seq::empty())
    } else {
        match app.reverse_history {
            None => (app, Seq::empty()),
            Some(s) => if key.ctrl_char('s') {
                (
                    AppView { reverse_history: Some(s.widened()), ..app },
                    reading(s.widened().wanted()),
                )
            } else if key.code == KeyCode::Up {
                (AppView { reverse_history: Some(s.up()), ..app }, Seq::empty())
            } else if key.code == KeyCode::Down {
                (AppView { reverse_history: Some(s.down()), ..app }, Seq::empty())
            } else if key.code == KeyCode::Backspace {
                (AppView { reverse_history: Some(s.erased()), ..app }, Seq::empty())
            } else if key.code is Char && !key.modifiers.control && !key.modifiers.alt {
                (
                    AppView { reverse_history: Some(s.typed(key.code->Char_0)), ..app },
                    Seq::empty(),
                )
            } else {
                (app, Seq::empty())
            },
        }
    }
}

fn widen_search(app: &mut App) -> (effects: Vec<Effect>)
    requires
        old(app).wf(),
        old(app)@.reverse_history is Some,
    ensures
        final(app).wf(),
        final(app)@ == (AppView {
            reverse_history: Some(old(app)@.reverse_history->0.widened()),
            ..old(app)@
        }),
        effects_view(effects@) == reading(old(app)@.reverse_history->0.widened().wanted()),
{
    let want = match &mut app.reverse_history {
        Some(s) => s.cycle_scope(),
        None => None,
    };
    match want {
        Some(s) => just(Effect::LoadHistory(s)),
        None => nothing(),
    }
}

fn edit_search(key: KeyEvent, app: &mut App)
    requires
        old(app).wf(),
        key.code != KeyCode::Esc,
        key.code != KeyCode::Enter,
        !key.ctrl_char('s'),
    ensures
        final(app).wf(),
        final(app)@ == search_key(old(app)@, key).0,
{
    match &mut app.reverse_history {
        Some(s) => match key.code {
            KeyCode::Up => s.cursor_up(),
            KeyCode::Down => s.cursor_down(),
            KeyCode::Backspace => s.pop_char(),
            KeyCode::Char(c) => {
                if !key.modifiers.control && !key.modifiers.alt {
                    s.push_char(c);
                }
            },
            _ => {},
        },
        None => {},
    }
}

/// Takes a key in the search.
pub fn handle_reverse_history_key(key: KeyEvent, app: &mut App) -> (effects: Vec<Effect>)
    requires
        old(app).wf(),
    ensures
        final(app).wf(),
        (final(app)@, effects_view(effects@)) == search_key(old(app)@, key),
{
    if key.code == KeyCode::Esc {
        app.reverse_history = None;
        app.view = ViewState::Main;
        return nothing();
    }
    if key.code == KeyCode::Enter {
        let found = match &app.reverse_history {
            Some(s) => s.selected(),
            None => None,
        };
        if let Some(text) = found {
            app.input.set_buffer(text);
        }
        app.reverse_history = None;
        app.view = ViewState::Main;
        return nothing();
    }
    if key.is_ctrl('s') {
        if app.reverse_history.is_some() {
            return widen_search(app);
        }
        return nothing();
    }
    edit_search(key, app);
    nothing()
}

/// The entries that a search wanted to read.
pub open spec fn history_read(app: AppView, entries: Seq<Seq<char>>) -> AppView {
    match app.reverse_history {
        Some(s) => AppView {
            reverse_history: Some(
                match s.scope {
                    HistoryScope::Session => s,
                    HistoryScope::Project => ReverseHistoryView { project: Some(entries), ..s },
                    HistoryScope::AllProjects => ReverseHistoryView { all: Some(entries), ..s },
                },
            ),
            ..app
        },
        None => app,
    }
}

/// Takes in the entries that a search wanted to read.
pub fn history_loaded(app: &mut App, entries: Vec<String>)
    requires
        old(app).wf(),
    ensures
        final(app).wf(),
        final(app)@ == history_read(old(app)@, texts(entries@)),
{
    match &mut app.reverse_history {
        Some(s) => s.provide(entries),
        None => {},
    }
}

// ---------------------------------------------------------------------------
// Keys
// ---------------------------------------------------------------------------

/// Whether Esc was pressed a second time, soon enough.
pub open spec fn esc_pair(last: Option<u64>, now: u64, window: u64) -> bool {
    match last {
        Some(t) => elapsed(t, now) <= window,
        None => false,
    }
}

/// Whether Esc was pressed a second time, soon enough.
pub fn is_esc_chord(last: Option<u64>, now: u64, window: u64) -> (r: bool)
    ensures
        r == esc_pair(last, now, window),
{
    match last {
        Some(t) => millis_between(t, now) <= window,
        None => false,
    }
}

/// Esc in the main view: it empties the queue, else stops the turn, else
/// empties the prompt, else counts towards a pair.
pub open spec fn escaped(app: AppView, now: u64) -> (AppView, Seq<EffectView>) {
    if app.queued.len() > 0 {
        (queue_cleared(app, now), Seq::empty())
    } else if app.running is Some {
        (AppView { last_esc_at: None, ..app }, seq![Effect::CancelTurn])
    } else if app.input.text.len() > 0 {
        (AppView { input: app.input.cleared(), last_esc_at: None, ..app }, Seq::empty())
    } else if esc_pair(app.last_esc_at, now, app.esc_window_ms) {
        (
            AppView { view: ViewState::Overlay(Overlay::Rewind), last_esc_at: None, ..app },
            Seq::empty(),
        )
    } else {
        (AppView { last_esc_at: Some(now), ..app }, Seq::empty())
    }
}

fn escape(app: &mut App, now: u64) -> (effects: Vec<Effect>)
    requires
        old(app).wf(),
    ensures
        final(app).wf(),
        (final(app)@, effects_view(effects@)) == escaped(old(app)@, now),
{
    if handle_esc_queue_clear(app, now) {
        return nothing();
    }
    if app.running.is_some() {
        app.last_esc_at = None;
        return just(Effect::CancelTurn);
    }
    if !app.input.buffer.as_str().is_empty() {
        app.input.clear();
        app.last_esc_at = None;
    } else if is_esc_chord(app.last_esc_at, now, app.esc_window_ms) {
        app.view = ViewState::Overlay(Overlay::Rewind);
        app.last_esc_at = None;
    } else {
        app.last_esc_at = Some(now);
    }
    nothing()
}

/// The prompt taken, and the transcript followed again.
pub open spec fn taken(app: AppView) -> AppView {
    AppView { input: app.input.submitted(), auto_scroll: true, ..app }
}

/// The prompt added to the history file, where there is one.
pub open spec fn remembering(app: AppView) -> Seq<EffectView> {
    match app.input_history_path {
        Some(p) => seq![Effect::AppendHistory { path: p, line: app.input.text }],
        None => Seq::empty(),
    }
}

/// Enter in the main view. A blank prompt does nothing. A command that may
/// run at any time runs. While a turn runs, any other prompt waits. A shell
/// command runs. Everything else goes to the hooks first.
pub open spec fn entered(app: AppView) -> (AppView, Seq<EffectView>) {
    let prompt = trim(app.input.text);
    if prompt.len() == 0 {
        (app, Seq::empty())
    } else if invokes_immediate(prompt, app.commands) {
        line_ran(taken(app), prompt)
    } else if app.running is Some {
        (prompt_queued(app), Seq::empty())
    } else {
        match intent(app.input.text) {
            ShellEscapeIntent::Run(cmd) => (
                taken(app).informed("! "@ + cmd),
                remembering(app).push(Effect::RunShell(cmd)),
            ),
            ShellEscapeIntent::NotShellEscape => (
                taken(app),
                remembering(app).push(Effect::FireHook { prompt, line: app.input.text }),
            ),
        }
    }
}

fn take_line(app: &mut App) -> (r: (String, Vec<Effect>))
    requires
        old(app).wf(),
    ensures
        final(app).wf(),
        final(app)@ == taken(old(app)@),
        r.0@ == old(app)@.input.text,
        effects_view(r.1@) == remembering(old(app)@),
{
    let mut effects = nothing();
    let path = clone_opt(&app.input_history_path);
    let line = app.input.submit();
    if let Some(p) = path {
        push_effect(&mut effects, Effect::AppendHistory { path: p, line: line.clone() });
    }
    app.auto_scroll = true;
    assert(effects_view(effects@) =~= remembering(old(app)@));
    (line, effects)
}

fn enter(app: &mut App) -> (effects: Vec<Effect>)
    requires
        old(app).wf(),
    ensures
        final(app).wf(),
        (final(app)@, effects_view(effects@)) == entered(old(app)@),
{
    let prompt = trim_text(app.input.buffer.as_str());
    if prompt.as_str().is_empty() {
        return nothing();
    }
    if is_immediate_slash(prompt.as_str(), &app.slash_registry) {
        let _line = app.input.submit();
        app.auto_scroll = true;
        return handle_slash_command(prompt.as_str(), app);
    }
    if app.running.is_some() {
        push_user_input_to_queue(app);
        return nothing();
    }
    match parse_shell_escape(app.input.buffer.as_str()) {
        ShellEscapeIntent::Run(cmd) => {
            let (_line, mut effects) = take_line(app);
            app.inform(cat2("! ", cmd.as_str()).as_str());
            push_effect(&mut effects, Effect::RunShell(cmd));
            effects
        },
        ShellEscapeIntent::NotShellEscape => {
            let (line, mut effects) = take_line(app);
            push_effect(&mut effects, Effect::FireHook { prompt, line });
            effects
        },
    }
}

/// What a key does to the prompt, for keys that do nothing else.
pub open spec fn edited(input: InputView, key: KeyEvent) -> Option<InputView> {
    match key.code {
        KeyCode::Char(c) => if !key.modifiers.control && !key.modifiers.alt {
            Some(input.typed(c))
        } else {
            None
        },
        KeyCode::Backspace => Some(input.backspaced()),
        KeyCode::Delete => Some(input.deleted()),
        KeyCode::Left => Some(input.left()),
        KeyCode::Right => Some(input.right()),
        KeyCode::Home => Some(input.moved(0)),
        KeyCode::End => Some(input.moved(input.text.len() as int)),
        KeyCode::Up => Some(input.up()),
        KeyCode::Down => Some(input.down()),
        KeyCode::Enter => if key.modifiers.shift || key.modifiers.alt {
            Some(input.typed('\n'))
        } else {
            None
        },
        _ => None,
    }
}

fn edit_prompt(app: &mut App, key: KeyEvent) -> (r: bool)
    requires
        old(app).wf(),
    ensures
        final(app).wf(),
        r == (edited(old(app)@.input, key) is Some),
        final(app)@ == (match edited(old(app)@.input, key) {
            Some(i) => old(app)@.typing(i),
            None => old(app)@,
        }),
{
    match key.code {
        KeyCode::Char(c) => {
            if key.modifiers.control || key.modifiers.alt {
                return false;
            }
            app.input.insert_char(c);
        },
        KeyCode::Backspace => app.input.backspace(),
        KeyCode::Delete => app.input.delete_forward(),
        KeyCode::Left => app.input.cursor_left(),
        KeyCode::Right => app.input.cursor_right(),
        KeyCode::Home => app.input.cursor_home(),
        KeyCode::End => app.input.cursor_end(),
        KeyCode::Up => app.input.history_up(),
        KeyCode::Down => app.input.history_down(),
        KeyCode::Enter => {
            if !(key.modifiers.shift || key.modifiers.alt) {
                return false;
            }
            app.input.insert_newline();
        },
        _ => return false,
    }
    true
}

/// Control with C in the main view: it stops the turn, else leaves on an
/// empty prompt, else empties the prompt.
pub open spec fn interrupted(app: AppView) -> (AppView, Seq<EffectView>) {
    if app.running is Some {
        (app, seq![Effect::CancelTurn])
    } else if app.input.text.len() == 0 {
        (AppView { should_exit: true, ..app }, Seq::empty())
    } else {
        (app.typing(app.input.cleared()), Seq::empty())
    }
}

/// The state after a key in the main view.
pub open spec fn main_key(app: AppView, key: KeyEvent, now: u64) -> (AppView, Seq<EffectView>) {
    if key.ctrl_char('g') {
        (app, seq![Effect::EditPrompt(app.input.text)])
    } else if key.ctrl_char('o') {
        (
            viewing(
                app,
                TranscriptViewerState { scroll: 0, ..app.transcript_viewer },
            ).showing(ViewState::Overlay(Overlay::TranscriptViewer)),
            Seq::empty(),
        )
    } else if key.ctrl_char('r') {
        (search_opened(app), Seq::empty())
    } else if key.code == KeyCode::BackTab {
        (cycled(app, now), cycle_effects(app))
    } else if key.ctrl_char('c') {
        interrupted(app)
    } else if key.ctrl_char('b') && app.running is Some {
        (app, seq![Effect::HandOff, Effect::CancelTurn])
    } else if key.code == KeyCode::Char('B') && key.modifiers.control && key.modifiers.shift {
        (latch_dropped(app, now), Seq::empty())
    } else if key.code == KeyCode::Esc {
        escaped(app, now)
    } else if key.ctrl_char('d') && app.input.text.len() == 0 {
        (AppView { should_exit: true, ..app }, Seq::empty())
    } else if edited(app.input, key) is Some {
        (app.typing(edited(app.input, key)->0), Seq::empty())
    } else if key.code == KeyCode::PageUp {
        (scrolled_up(app, PAGE_ROWS), Seq::empty())
    } else if key.code == KeyCode::PageDown {
        (scrolled_down(app, PAGE_ROWS), Seq::empty())
    } else if key.code == KeyCode::Enter {
        entered(app)
    } else {
        (app, Seq::empty())
    }
}

fn press_main(key: KeyEvent, app: &mut App, now: u64) -> (effects: Vec<Effect>)
    requires
        old(app).wf(),
    ensures
        final(app).wf(),
        (final(app)@, effects_view(effects@)) == main_key(old(app)@, key, now),
{
    if key.is_ctrl('g') {
        return just(Effect::EditPrompt(app.input.buffer.clone()));
    }
    if key.is_ctrl('o') {
        app.view = ViewState::Overlay(Overlay::TranscriptViewer);
        app.transcript_viewer.scroll = 0;
        return nothing();
    }
    if key.is_ctrl('r') {
        open_reverse_history(app);
        return nothing();
    }
    if key.code == KeyCode::BackTab {
        return cycle_permission_mode(app, now);
    }
    if key.is_ctrl('c') {
        return interrupt(app);
    }
    if key.is_ctrl('b') && app.running.is_some() {
        let mut effects = just(Effect::HandOff);
        push_effect(&mut effects, Effect::CancelTurn);
        return effects;
    }
    if key.code == KeyCode::Char('B') && key.modifiers.control && key.modifiers.shift {
        drop_bypass(app, now);
        return nothing();
    }
    if key.code == KeyCode::Esc {
        return escape(app, now);
    }
    if key.is_ctrl('d') && app.input.buffer.as_str().is_empty() {
        app.should_exit = true;
        return nothing();
    }
    press_text(key, app)
}

fn interrupt(app: &mut App) -> (effects: Vec<Effect>)
    requires
        old(app).wf(),
    ensures
        final(app).wf(),
        (final(app)@, effects_view(effects@)) == interrupted(old(app)@),
{
    if app.running.is_some() {
        return just(Effect::CancelTurn);
    }
    if app.input.buffer.as_str().is_empty() {
        app.should_exit = true;
    } else {
        app.input.clear();
    }
    nothing()
}

fn press_text(key: KeyEvent, app: &mut App) -> (effects: Vec<Effect>)
    requires
        old(app).wf(),
    ensures
        final(app).wf(),
        (final(app)@, effects_view(effects@)) == (if edited(old(app)@.input, key) is Some {
            (old(app)@.typing(edited(old(app)@.input, key)->0), Seq::empty())
        } else if key.code == KeyCode::PageUp {
            (scrolled_up(old(app)@, PAGE_ROWS), Seq::empty())
        } else if key.code == KeyCode::PageDown {
            (scrolled_down(old(app)@, PAGE_ROWS), Seq::empty())
        } else if key.code == KeyCode::Enter {
            entered(old(app)@)
        } else {
            (old(app)@, Seq::empty())
        }),
{
    if edit_prompt(app, key) {
        return nothing();
    }
    if key.code == KeyCode::PageUp {
        scroll_up(app, PAGE_ROWS);
        return nothing();
    }
    if key.code == KeyCode::PageDown {
        scroll_down(app, PAGE_ROWS);
        return nothing();
    }
    if key.code == KeyCode::Enter {
        return enter(app);
    }
    nothing()
}

/// A key that an overlay has no use of its own for.
pub open spec fn closing(app: AppView, key: KeyEvent) -> (AppView, Seq<EffectView>) {
    if key.code == KeyCode::Esc || key.plain_char('q') {
        (app.showing(ViewState::Main), Seq::empty())
    } else if key.ctrl_char('c') {
        if app.running is Some {
            (app, seq![Effect::CancelTurn])
        } else {
            (app.showing(ViewState::Main), Seq::empty())
        }
    } else {
        (app, Seq::empty())
    }
}

fn close_overlay(key: KeyEvent, app: &mut App) -> (effects: Vec<Effect>)
    requires
        old(app).wf(),
    ensures
        final(app).wf(),
        (final(app)@, effects_view(effects@)) == closing(old(app)@, key),
{
    if key.code == KeyCode::Esc || key.is_plain('q') {
        app.view = ViewState::Main;
    } else if key.is_ctrl('c') {
        if app.running.is_some() {
            return just(Effect::CancelTurn);
        }
        app.view = ViewState::Main;
    }
    nothing()
}

/// The state after a key while an overlay is open.
pub open spec fn overlay_pressed(
    app: AppView,
    o: Overlay,
    key: KeyEvent,
    rules: RuleSourcesView,
    now: u64,
) -> (AppView, Seq<EffectView>) {
    match o {
        Overlay::AskModal => modal_key(app, key),
        Overlay::TranscriptViewer => viewer_key(app, key),
        Overlay::ReverseHistory => search_key(app, key),
        Overlay::Mcp => if mcp_notice(key) is Some {
            (mcp_key(app, key, now), Seq::empty())
        } else {
            closing(app, key)
        },
        Overlay::Permissions => if overlay_takes(app, key) {
            overlay_key(app, key, rules, now)
        } else {
            closing(app, key)
        },
        _ => closing(app, key),
    }
}

fn press_overlay(o: Overlay, key: KeyEvent, app: &mut App, rules: &RuleSources, now: u64) -> (effects: Vec<
    Effect,
>)
    requires
        old(app).wf(),
    ensures
        final(app).wf(),
        (final(app)@, effects_view(effects@)) == overlay_pressed(old(app)@, o, key, rules@, now),
{
    match o {
        Overlay::AskModal => handle_ask_modal_key(key, app),
        Overlay::TranscriptViewer => handle_transcript_viewer_key(key, app),
        Overlay::ReverseHistory => handle_reverse_history_key(key, app),
        Overlay::Mcp => {
            if handle_mcp_overlay_key(key, app, now) {
                nothing()
            } else {
                close_overlay(key, app)
            }
        },
        Overlay::Permissions => {
            let (took, effects) = handle_permissions_overlay_key(key, app, rules, now);
            if took {
                effects
            } else {
                proof {
                    lemma_untaken_key(old(app)@, key, rules@, now);
                }
                close_overlay(key, app)
            }
        },
        _ => close_overlay(key, app),
    }
}

proof fn lemma_untaken_key(app: AppView, key: KeyEvent, rules: RuleSourcesView, now: u64)
    requires
        !overlay_takes(app, key),
    ensures
        overlay_key(app, key, rules, now) == (app, Seq::<EffectView>::empty()),
{
}

/// Whether the menu is looked over behind a key in the main view. It is not
/// where the key leaves the prompt for something else, cycles the mode or
/// empties the queue, and it is not behind Enter: a prompt that was handed in
/// leaves an empty one, which has no menu.
pub open spec fn looks_again(app: AppView, key: KeyEvent) -> bool {
    &&& !key.ctrl_char('g')
    &&& !key.ctrl_char('o')
    &&& !key.ctrl_char('r')
    &&& key.code != KeyCode::BackTab
    &&& !(key.code == KeyCode::Esc && app.queued.len() > 0)
    &&& !(key.code == KeyCode::Enter && !key.modifiers.shift && !key.modifiers.alt)
}

/// The state after a key in the main view. An open menu takes the keys that
/// it has a use for before anything else.
pub open spec fn view_key(app: AppView, key: KeyEvent, now: u64) -> (AppView, Seq<EffectView>) {
    if app.menu is Some && menu_action(key) is Some {
        menu_pressed(app, app.menu->0, menu_action(key)->0)
    } else {
        let r = main_key(app, key, now);
        if looks_again(app, key) {
            (r.0, r.1.push(Effect::RefreshMenu))
        } else {
            r
        }
    }
}

fn press_view(key: KeyEvent, app: &mut App, now: u64) -> (effects: Vec<Effect>)
    requires
        old(app).wf(),
    ensures
        final(app).wf(),
        (final(app)@, effects_view(effects@)) == view_key(old(app)@, key, now),
{
    if let Some(effects) = handle_menu_key(key, app) {
        return effects;
    }
    let again = !key.is_ctrl('g') && !key.is_ctrl('o') && !key.is_ctrl('r')
        && key.code != KeyCode::BackTab && !(key.code == KeyCode::Esc && app.queued.len() > 0)
        && !(key.code == KeyCode::Enter && !key.modifiers.shift && !key.modifiers.alt);
    assert(again == looks_again(app@, key));
    let mut effects = press_main(key, app, now);
    if again {
        push_effect(&mut effects, Effect::RefreshMenu);
    }
    effects
}

/// The state after a key. A key takes a notice away before it does anything
/// else. The sub-prompt takes every key while it is open, then the overlay,
/// then the main view.
pub open spec fn key_pressed(app: AppView, key: KeyEvent, rules: RuleSourcesView, now: u64) -> (
    AppView,
    Seq<EffectView>,
) {
    let a = AppView { toast: None, ..app };
    if a.always_subprompt is Some {
        subprompt_key(a, key)
    } else {
        match a.view {
            ViewState::Overlay(o) => overlay_pressed(a, o, key, rules, now),
            ViewState::Main => view_key(a, key, now),
        }
    }
}

/// Takes a key.
pub fn handle_key(key: KeyEvent, app: &mut App, rules: &RuleSources, now: u64) -> (effects: Vec<Effect>)
    requires
        old(app).wf(),
    ensures
        final(app).wf(),
        (final(app)@, effects_view(effects@)) == key_pressed(old(app)@, key, rules@, now),
{
    app.toast = None;
    if app.always_subprompt.is_some() {
        return handle_always_subprompt_key(key, app).1;
    }
    match app.view {
        ViewState::Overlay(o) => press_overlay(o, key, app, rules, now),
        ViewState::Main => press_view(key, app, now),
    }
}

/// What the terminal reports.
#[derive(Debug, Clone, Copy, PartialEq, Eq, Structural)]
pub enum TermEvent {
    /// A key; `press` is false when it is held or let go.
    Key { key: KeyEvent, press: bool },
    Mouse(MouseEvent),
    Other,
}

pub open spec fn event_taken(app: AppView, e: TermEvent, rules: RuleSourcesView, now: u64) -> (
    AppView,
    Seq<EffectView>,
) {
    match e {
        TermEvent::Key { key, press } => if press {
            key_pressed(app, key, rules, now)
        } else {
            (app, Seq::empty())
        },
        TermEvent::Mouse(m) => moused(app, m),
        TermEvent::Other => (app, Seq::empty()),
    }
}

/// Takes what the terminal reports.
pub fn handle_event(event: TermEvent, app: &mut App, rules: &RuleSources, now: u64) -> (effects: Vec<Effect>)
    requires
        old(app).wf(),
    ensures
        final(app).wf(),
        (final(app)@, effects_view(effects@)) == event_taken(old(app)@, event, rules@, now),
{
    match event {
        TermEvent::Key { key, press } => {
            if press {
                handle_key(key, app, rules, now)
            } else {
                nothing()
            }
        },
        TermEvent::Mouse(m) => handle_mouse(m, app),
        TermEvent::Other => nothing(),
    }
}

// ---------------------------------------------------------------------------
// Laws
// ---------------------------------------------------------------------------

/// The state after `n` waiting prompts have been taken.
pub open spec fn unqueued_times(app: AppView, n: nat) -> AppView
    decreases n,
{
    if n == 0 {
        app
    } else {
        unqueued_times(unqueued(app), (n - 1) as nat)
    }
}

proof fn lemma_unqueued_times(app: AppView, n: nat)
    requires
        n <= app.queued.len(),
    ensures
        unqueued_times(app, n).queued == app.queued.skip(n as int),
    decreases n,
{
    if n > 0 {
        lemma_unqueued_times(unqueued(app), (n - 1) as nat);
        assert(app.queued.skip(1).skip(n - 1) =~= app.queued.skip(n as int));
    } else {
        assert(app.queued.skip(0) =~= app.queued);
    }
}

/// Waiting prompts leave in the order in which they came: one that joins
/// the queue comes out after all that were there before it, and each of
/// those comes out in its place.
pub proof fn law_queued_prompts_leave_in_order(app: AppView, i: nat)
    requires
        i <= app.queued.len(),
        trim(app.input.text).len() > 0,
    ensures
        next_queued(unqueued_times(prompt_queued(app), i)) == Some(
            if i < app.queued.len() {
                app.queued[i as int]
            } else {
                trim(app.input.text)
            },
        ),
{
    lemma_unqueued_times(prompt_queued(app), i);
}

/// Esc works in two steps: while prompts wait it only takes them away, and
/// the turn that runs goes on; the next Esc stops the turn.
pub proof fn law_esc_spares_the_turn_while_prompts_wait(app: AppView, now: u64, later: u64)
    requires
        app.queued.len() > 0,
        app.running is Some,
    ensures
        escaped(app, now).0.queued.len() == 0,
        escaped(app, now).0.running == app.running,
        escaped(app, now).0.esc_armed_at == Some(now),
        escaped(app, now).1 == Seq::<EffectView>::empty(),
        escaped(escaped(app, now).0, later).1 == seq![EffectView::CancelTurn],
{
}

/// Two presses of Esc on an idle, empty prompt open the list of checkpoints
/// when the second comes soon enough, and only then.
pub proof fn law_esc_pairs_open_the_checkpoints(app: AppView, first: u64, second: u64)
    requires
        app.queued.len() == 0,
        app.running is None,
        app.input.text.len() == 0,
        app.last_esc_at is None,
        app.view is Main,
    ensures
        escaped(app, first).0.view is Main,
        escaped(escaped(app, first).0, second).0.view == (if elapsed(first, second)
            <= app.esc_window_ms {
            ViewState::Overlay(Overlay::Rewind)
        } else {
            ViewState::Main
        }),
{
}

/// A key takes a notice away and does what it would have done without one.
pub proof fn law_keys_work_under_a_notice(
    app: AppView,
    t: Toast<Seq<char>>,
    key: KeyEvent,
    rules: RuleSourcesView,
    now: u64,
)
    ensures
        key_pressed(app.noticed(t), key, rules, now) == key_pressed(
            AppView { toast: None, ..app },
            key,
            rules,
            now,
        ),
{
}

/// A key that edits the prompt changes nothing else but the notice, and has
/// the menu looked over.
pub proof fn law_edits_have_the_menu_looked_over(
    app: AppView,
    key: KeyEvent,
    rules: RuleSourcesView,
    now: u64,
)
    requires
        app.always_subprompt is None,
        app.view == ViewState::Main,
        app.menu is None || menu_action(key) is None,
        edited(app.input, key) is Some,
    ensures
        key_pressed(app, key, rules, now) == (
            AppView { input: edited(app.input, key)->0, toast: None, ..app },
            Seq::<EffectView>::empty().push(Effect::RefreshMenu),
        ),
{
}

/// An open menu takes Esc, Tab, the arrows and Enter before the prompt, the
/// permission mode or the turn can: Esc closes it and does nothing else, and
/// the others but Enter change nothing but the marked entry.
pub proof fn law_open_menus_come_first(app: AppView, key: KeyEvent, rules: RuleSourcesView, now: u64)
    requires
        app.always_subprompt is None,
        app.view == ViewState::Main,
        app.menu is Some,
    ensures
        key.code == KeyCode::Esc ==> key_pressed(app, key, rules, now) == (
            AppView { menu: None, toast: None, ..app },
            Seq::<EffectView>::empty(),
        ),
        key.code == KeyCode::Tab || key.code == KeyCode::Down ==> key_pressed(app, key, rules, now)
            == (
            AppView { menu: Some(app.menu->0.next()), toast: None, ..app },
            Seq::<EffectView>::empty(),
        ),
        key.code == KeyCode::BackTab || key.code == KeyCode::Up ==> key_pressed(
            app,
            key,
            rules,
            now,
        ) == (
            AppView { menu: Some(app.menu->0.previous()), toast: None, ..app },
            Seq::<EffectView>::empty(),
        ),
        key.code == KeyCode::Enter && !key.modifiers.shift && !key.modifiers.alt ==> ({
            let after = key_pressed(app, key, rules, now).0;
            after == (AppView { menu: None, toast: None, input: after.input, ..app })
        }),
{
}

/// While a turn runs, control with C stops it and never leaves the program.
pub proof fn law_interrupts_spare_the_program(app: AppView)
    requires
        app.running is Some,
    ensures
        interrupted(app) == (app, seq![EffectView::CancelTurn]),
{
}

/// While a turn runs, a prompt that is no immediate command waits: nothing
/// is run or sent for it.
pub proof fn law_prompts_wait_for_the_turn(app: AppView)
    requires
        app.running is Some,
        trim(app.input.text).len() > 0,
        !invokes_immediate(trim(app.input.text), app.commands),
    ensures
        entered(app).0.queued == app.queued.push(trim(app.input.text)),
        entered(app).0.transcript == app.transcript,
        entered(app).1 == Seq::<EffectView>::empty(),
{
}

/// The transcript stays between its first and its last position, whichever
/// way it is scrolled; scrolling up stops following the end, and scrolling
/// down to the end follows it again.
pub proof fn law_scrolling_stays_in_range(app: AppView, rows: u16)
    requires
        app.scroll <= app.last_max_scroll,
    ensures
        scrolled_up(app, rows).scroll <= app.last_max_scroll,
        !scrolled_up(app, rows).auto_scroll,
        scrolled_down(app, rows).scroll <= app.last_max_scroll,
        scrolled_down(app, rows).scroll == app.last_max_scroll <==> app.scroll + rows
            >= app.last_max_scroll,
        app.scroll + rows >= app.last_max_scroll ==> scrolled_down(app, rows).auto_scroll,
{
}

/// From the end of the transcript, scrolling up and then down by the same
/// rows ends where it began.
pub proof fn law_scrolling_up_and_down_returns(app: AppView, rows: u16)
    requires
        app.auto_scroll,
    ensures
        scrolled_down(scrolled_up(app, rows), rows).auto_scroll,
        scrolled_down(scrolled_up(app, rows), rows).scroll == app.last_max_scroll,
{
}

/// Inside an overlay the mouse does nothing.
pub proof fn law_overlays_ignore_the_mouse(app: AppView, e: MouseEvent)
    requires
        app.view is Overlay,
    ensures
        moused(app, e) == (app, Seq::<EffectView>::empty()),
{
}

/// Leaving the search without taking anything keeps the prompt.
pub proof fn law_leaving_the_search_keeps_the_prompt(app: AppView, key: KeyEvent)
    requires
        key.code == KeyCode::Esc,
    ensures
        search_key(search_opened(app), key).0.input == app.input,
        search_key(search_opened(app), key).0.view is Main,
        search_key(search_opened(app), key).0.reverse_history is None,
{
}

/// The prompt that has waited longest is taken first and leaves the others
/// waiting in their order; a prompt that joins them is trimmed and leaves an
/// empty prompt line. Nothing else changes.
pub proof fn law_the_queue_changes_at_its_ends(app: AppView)
    ensures
        app.queued.len() == 0 ==> next_queued(app) is None && unqueued(app) == app,
        app.queued.len() > 0 ==> {
            &&& next_queued(app) == Some(app.queued[0])
            &&& unqueued(app) == (AppView { queued: unqueued(app).queued, ..app })
            &&& seq![app.queued[0]] + unqueued(app).queued == app.queued
        },
        trim(app.input.text).len() == 0 ==> prompt_queued(app) == app,
        trim(app.input.text).len() > 0 ==> {
            let after = prompt_queued(app);
            &&& after == (AppView { queued: after.queued, input: after.input, ..app })
            &&& after.queued == app.queued.push(trim(app.input.text))
            &&& after.input.text.len() == 0
            &&& after.input.at == 0
            &&& after.input.history == app.input.history
        },
{
    if app.queued.len() > 0 {
        assert(seq![app.queued[0]] + unqueued(app).queued =~= app.queued);
    }
}

/// Scrolling moves by as many rows as it is asked to, from where the
/// transcript stands, and changes nothing but the position and whether the
/// end is followed.
pub proof fn law_scrolling_moves_by_its_rows(app: AppView, rows: u16)
    ensures
        ({
            let up = scrolled_up(app, rows);
            let from = if app.auto_scroll {
                app.last_max_scroll
            } else {
                app.scroll
            };
            &&& up == (AppView { scroll: up.scroll, auto_scroll: false, ..app })
            &&& up.scroll == (if from >= rows {
                from - rows
            } else {
                0
            })
        }),
        ({
            let down = scrolled_down(app, rows);
            &&& down == (AppView { scroll: down.scroll, auto_scroll: down.auto_scroll, ..app })
            &&& app.scroll + rows < app.last_max_scroll ==> down.scroll == app.scroll + rows
                && down.auto_scroll == app.auto_scroll
            &&& app.scroll + rows >= app.last_max_scroll ==> down.scroll == app.last_max_scroll
                && down.auto_scroll
        }),
{
}

/// In the main view the wheel scrolls by three rows, up for up and down for
/// down.
pub proof fn law_the_wheel_scrolls_three_rows(app: AppView, e: MouseEvent)
    requires
        app.view == ViewState::Main,
    ensures
        e.kind == MouseEventKind::ScrollUp ==> moused(app, e) == (
            scrolled_up(app, 3),
            Seq::<EffectView>::empty(),
        ),
        e.kind == MouseEventKind::ScrollDown ==> moused(app, e) == (
            scrolled_down(app, 3),
            Seq::<EffectView>::empty(),
        ),
{
}

/// The left button selects from where it is pressed to where it is let go,
/// and what lies between the two is copied then; another button gives the
/// selection up. Nothing but the selection changes.
pub proof fn law_the_left_button_selects_and_copies(app: AppView, e: MouseEvent)
    requires
        app.view == ViewState::Main,
        e.kind is Down || e.kind is Drag || e.kind is Up,
    ensures
        ({
            let (after, effects) = moused(app, e);
            let cell = Cell { row: e.row, col: e.column };
            &&& after == (AppView { mouse_selection: after.mouse_selection, ..app })
            &&& e.kind == MouseEventKind::Down(MouseButton::Left) ==> after.mouse_selection
                == app.mouse_selection.down(cell) && effects.len() == 0
            &&& e.kind == MouseEventKind::Drag(MouseButton::Left) ==> after.mouse_selection
                == app.mouse_selection.dragged(cell) && effects.len() == 0
            &&& e.kind == MouseEventKind::Up(MouseButton::Left) ==> {
                let done = app.mouse_selection.up(cell);
                &&& after.mouse_selection == done
                &&& done.selected() is None ==> effects.len() == 0
                &&& done.selected() matches Some(r) ==> effects.len() == 1 && effects[0]
                    == EffectView::CopyToClipboard(range_text(app.cells, r.0, r.1))
            }
            &&& e.kind is Down && e.kind != MouseEventKind::Down(MouseButton::Left)
                ==> after.mouse_selection is Idle && effects.len() == 0
            &&& e.kind is Drag && e.kind != MouseEventKind::Drag(MouseButton::Left) || e.kind is Up
                && e.kind != MouseEventKind::Up(MouseButton::Left) ==> after == app
                && effects.len() == 0
        }),
{
}

/// In the list of servers `d`, `r`, `a`, `s` and `t` say what they would do,
/// `d` and `r` as a warning; the other keys say nothing.
pub proof fn law_server_keys_say_what_they_do(app: AppView, key: KeyEvent, now: u64)
    ensures
        mcp_notice(key) is Some <==> key.plain_char('d') || key.plain_char('r') || key.plain_char(
            'a',
        ) || key.plain_char('s') || key.plain_char('t'),
        mcp_notice(key) is None ==> mcp_key(app, key, now) == app,
        mcp_notice(key) matches Some(n) ==> {
            &&& mcp_key(app, key, now) == app.noticed(toast(n.0, n.1, now))
            &&& n.0 == (if key.plain_char('d') || key.plain_char('r') {
                ToastLevel::Warn
            } else {
                ToastLevel::Info
            })
            &&& key.plain_char('d') ==> n.1
                == "mcp: disable not yet wired \u{2014} edit `disabled = true` in mcp.toml then restart"@
            &&& key.plain_char('r') ==> n.1
                == "mcp: live reload not yet wired \u{2014} restart caliban to pick up edits"@
            &&& key.plain_char('a') ==> n.1
                == "mcp: OAuth flow auto-triggers on first call when oauth=auto or manual"@
            &&& key.plain_char('s') ==> n.1
                == "mcp: stderr is logged to RUST_LOG=caliban::mcp::stderr"@
            &&& key.plain_char('t') ==> n.1
                == "mcp: tool list shown in the transcript on /usage and via tool dispatcher"@
        },
{
}

/// The viewer's keys: Esc and `q` leave it, `?` turns the help and Control
/// with E the full view on and off, `j` and Down go one row down and `k` and
/// Up one up, the page keys ten, `g` goes to the first row and `G` to the
/// last; `[` prints the conversation and `v` opens it in an editor.
pub proof fn law_viewer_keys_do_their_own(app: AppView, key: KeyEvent)
    ensures
        ({
            let (after, effects) = viewer_key(app, key);
            let v = app.transcript_viewer;
            let w = after.transcript_viewer;
            let n = history_rows(app.messages, v.show_all).len() as int;
            let end = if n == 0 {
                0
            } else if n - 1 > 65535 {
                65535
            } else {
                n - 1
            };
            let still = after == (AppView { transcript_viewer: w, ..app }) && effects.len() == 0;
            &&& key.code == KeyCode::Esc || key.plain_char('q') ==> after == (AppView {
                view: ViewState::Main,
                ..app
            }) && effects.len() == 0
            &&& key.code == KeyCode::Char('?') ==> still && w == (TranscriptViewerState {
                show_help: !v.show_help,
                ..v
            })
            &&& key.ctrl_char('e') ==> still && w == (TranscriptViewerState {
                show_all: !v.show_all,
                ..v
            })
            &&& key.code == KeyCode::Char('j') || key.code == KeyCode::Down ==> still && w == v.sunk(
                1,
                end as u16,
            )
            &&& key.code == KeyCode::Char('k') || key.code == KeyCode::Up ==> still && w == v.risen(
                1,
            )
            &&& key.code == KeyCode::PageDown ==> still && w == v.sunk(10, end as u16)
            &&& key.code == KeyCode::PageUp ==> still && w == v.risen(10)
            &&& key.plain_char('g') ==> still && w == (TranscriptViewerState { scroll: 0, ..v })
            &&& key.code == KeyCode::Char('G') ==> still && w == (TranscriptViewerState {
                scroll: end as u16,
                ..v
            })
            &&& key.code == KeyCode::Char('[') ==> after == app && effects.len() == 1
                && effects[0] is DumpTranscript
            &&& key.code == KeyCode::Char('v') ==> after == app && effects.len() == 1
                && effects[0] is OpenTranscript
        }),
{
}

/// Enter in the search puts the entry that it found into the prompt, with
/// the cursor behind it, and leaves the search; where nothing was found the
/// prompt stays.
pub proof fn law_the_search_fills_the_prompt(app: AppView, key: KeyEvent)
    requires
        key.code == KeyCode::Enter,
    ensures
        ({
            let (after, effects) = search_key(app, key);
            let found = if app.reverse_history is Some {
                app.reverse_history->0.chosen()
            } else {
                None
            };
            &&& effects.len() == 0
            &&& after.reverse_history is None
            &&& after.view == ViewState::Main
            &&& found is None ==> after.input == app.input
            &&& found matches Some(t) ==> after.input.text == t && after.input.at == t.len()
                && after.input.history == app.input.history
        }),
{
}

/// The keys of the search work on the search alone; Control with S widens it
/// and reads what it then wants.
pub proof fn law_search_keys_work_the_search(app: AppView, key: KeyEvent)
    requires
        app.reverse_history is Some,
        key.code != KeyCode::Enter,
        key.code != KeyCode::Esc,
    ensures
        ({
            let (after, effects) = search_key(app, key);
            let s = app.reverse_history->0;
            &&& after == (AppView { reverse_history: after.reverse_history, ..app })
            &&& after.reverse_history is Some
            &&& key.ctrl_char('s') ==> after.reverse_history->0 == s.widened() && (
            match s.widened().wanted() {
                Some(w) => effects.len() == 1 && effects[0] == EffectView::LoadHistory(w),
                None => effects.len() == 0,
            })
            &&& !key.ctrl_char('s') ==> effects.len() == 0
            &&& key.code == KeyCode::Up ==> after.reverse_history->0 == s.up()
            &&& key.code == KeyCode::Down ==> after.reverse_history->0 == s.down()
            &&& key.code == KeyCode::Backspace ==> after.reverse_history->0 == s.erased()
            &&& key.code is Char && !key.modifiers.control && !key.modifiers.alt
                ==> after.reverse_history->0 == s.typed(key.code->Char_0)
        }),
{
}

/// The search opens over the history of the prompt, and what it reads goes
/// to the scope that it is in.
pub proof fn law_the_search_opens_over_the_history(app: AppView, entries: Seq<Seq<char>>)
    ensures
        ({
            let after = search_opened(app);
            &&& after == (AppView {
                reverse_history: after.reverse_history,
                view: ViewState::Overlay(Overlay::ReverseHistory),
                ..app
            })
            &&& after.reverse_history == Some(
                ReverseHistoryView::fresh(
                    app.input.history,
                    app.input_history_path,
                    app.projects_root,
                ),
            )
        }),
        app.reverse_history is None ==> history_read(app, entries) == app,
        app.reverse_history matches Some(s) ==> {
            let after = history_read(app, entries);
            &&& after == (AppView { reverse_history: after.reverse_history, ..app })
            &&& after.reverse_history == Some(
                match s.scope {
                    HistoryScope::Session => s,
                    HistoryScope::Project => ReverseHistoryView { project: Some(entries), ..s },
                    HistoryScope::AllProjects => ReverseHistoryView { all: Some(entries), ..s },
                },
            )
        },
{
}

/// Esc in the main view does the first of these that there is cause for, and
/// that one alone: it empties the queue, stops the turn, empties the prompt,
/// completes a pair that opens the checkpoints, or begins one.
pub proof fn law_esc_does_one_thing(app: AppView, now: u64)
    ensures
        ({
            let (after, effects) = escaped(app, now);
            let idle = app.queued.len() == 0 && app.running is None;
            let paired = app.last_esc_at is Some && (now < app.last_esc_at->0 || now
                - app.last_esc_at->0 <= app.esc_window_ms);
            &&& app.queued.len() > 0 ==> effects.len() == 0 && after == (AppView {
                queued: Seq::empty(),
                esc_armed_at: Some(now),
                ..app
            })
            &&& app.queued.len() == 0 && app.running is Some ==> effects.len() == 1
                && effects[0] is CancelTurn && after == (AppView { last_esc_at: None, ..app })
            &&& idle && app.input.text.len() > 0 ==> effects.len() == 0 && after.input.text.len()
                == 0 && after == (AppView { input: after.input, last_esc_at: None, ..app })
                && after.input.history == app.input.history
            &&& idle && app.input.text.len() == 0 && paired ==> effects.len() == 0 && after == (
            AppView { view: ViewState::Overlay(Overlay::Rewind), last_esc_at: None, ..app })
            &&& idle && app.input.text.len() == 0 && !paired ==> effects.len() == 0 && after == (
            AppView { last_esc_at: Some(now), ..app })
        }),
{
}

/// Control with C stops the turn that runs, leaves the program on an empty
/// prompt, and empties any other.
pub proof fn law_control_c_stops_leaves_or_empties(app: AppView)
    ensures
        ({
            let (after, effects) = interrupted(app);
            &&& app.running is Some ==> after == app && effects.len() == 1
                && effects[0] is CancelTurn
            &&& app.running is None && app.input.text.len() == 0 ==> after == (AppView {
                should_exit: true,
                ..app
            }) && effects.len() == 0
            &&& app.running is None && app.input.text.len() > 0 ==> after == (AppView {
                input: after.input,
                ..app
            }) && after.input.text.len() == 0 && after.input.history == app.input.history
                && effects.len() == 0
        }),
{
}

/// Enter on a blank prompt does nothing. Any other prompt that is handed in
/// leaves the prompt line empty. While no turn runs, a shell command is run
/// and any other prompt goes to the hooks, trimmed and beside the line as it
/// was typed; both are added to the history file, where there is one.
pub proof fn law_enter_hands_the_prompt_in(app: AppView)
    ensures
        ({
            let (after, effects) = entered(app);
            let prompt = trim(app.input.text);
            let kept = app.input_history_path is Some;
            let n = if kept {
                1int
            } else {
                0
            };
            &&& prompt.len() == 0 ==> after == app && effects.len() == 0
            &&& prompt.len() > 0 && !invokes_immediate(prompt, app.commands) && app.running is None
                ==> {
                &&& after.input.text.len() == 0
                &&& after.input.history == app.input.history.push(app.input.text)
                &&& after.auto_scroll
                &&& effects.len() == n + 1
                &&& kept ==> effects[0] == EffectView::AppendHistory {
                    path: app.input_history_path->0,
                    line: app.input.text,
                }
                &&& match intent(app.input.text) {
                    ShellEscapeIntent::Run(cmd) => effects[n] == EffectView::RunShell(cmd)
                        && after.transcript == app.transcript.push(
                        crate::app::TranscriptLine::Info("! "@ + cmd),
                    ),
                    ShellEscapeIntent::NotShellEscape => effects[n] == EffectView::FireHook {
                        prompt,
                        line: app.input.text,
                    } && after.transcript == app.transcript,
                }
            }
            &&& prompt.len() > 0 && invokes_immediate(prompt, app.commands) ==> (after, effects)
                == line_ran(
                AppView { input: app.input.submitted(), auto_scroll: true, ..app },
                prompt,
            )
        }),
{
}

/// Keys of the prompt edit it as they say, and no others do: characters are
/// typed, also a line feed with Shift or Alt and Enter; the rest move,
/// erase or recall.
pub proof fn law_prompt_keys_edit_the_prompt(input: InputView, key: KeyEvent)
    ensures
        ({
            let e = edited(input, key);
            let plain = !key.modifiers.control && !key.modifiers.alt;
            let broken = key.modifiers.shift || key.modifiers.alt;
            match key.code {
                KeyCode::Char(c) => e == (if plain {
                    Some(input.typed(c))
                } else {
                    None
                }),
                KeyCode::Enter => e == (if broken {
                    Some(input.typed('\n'))
                } else {
                    None
                }),
                KeyCode::Backspace => e == Some(input.backspaced()),
                KeyCode::Delete => e == Some(input.deleted()),
                KeyCode::Left => e == Some(input.left()),
                KeyCode::Right => e == Some(input.right()),
                KeyCode::Home => e is Some && e->0.at == 0 && e->0.text == input.text,
                KeyCode::End => e is Some && e->0.at == input.text.len() && e->0.text
                    == input.text,
                KeyCode::Up => e == Some(input.up()),
                KeyCode::Down => e == Some(input.down()),
                _ => e is None,
            }
        }),
{
}

/// The other keys of the main view: Control with G edits the prompt in an
/// editor, with O opens the transcript from its first row, with R the search,
/// with B hands a running turn off, with D leaves on an empty prompt; the
/// back tab steps the mode, Control and Shift with B drops the latch, and
/// the page keys scroll by ten rows.
pub proof fn law_control_keys_do_their_own(app: AppView, key: KeyEvent, now: u64)
    ensures
        ({
            let (after, effects) = main_key(app, key, now);
            let none = Seq::<EffectView>::empty();
            &&& key.ctrl_char('g') ==> after == app && effects == none.push(
                Effect::EditPrompt(app.input.text),
            )
            &&& key.ctrl_char('o') ==> effects == none && after == (AppView {
                view: ViewState::Overlay(Overlay::TranscriptViewer),
                transcript_viewer: TranscriptViewerState { scroll: 0, ..app.transcript_viewer },
                ..app
            })
            &&& key.ctrl_char('r') ==> effects == none && after == search_opened(app)
            &&& key.code == KeyCode::BackTab ==> after == cycled(app, now) && effects
                == cycle_effects(app)
            &&& key.ctrl_char('c') ==> (after, effects) == interrupted(app)
            &&& key.ctrl_char('b') && app.running is Some ==> after == app && effects == none.push(
                Effect::HandOff,
            ).push(Effect::CancelTurn)
            &&& key.ctrl_char('b') && app.running is None ==> after == app && effects == none
            &&& key.code == KeyCode::Char('B') && key.modifiers.control && key.modifiers.shift
                ==> after == latch_dropped(app, now) && effects == none
            &&& key.code == KeyCode::Esc ==> (after, effects) == escaped(app, now)
            &&& key.ctrl_char('d') && app.input.text.len() == 0 ==> after == (AppView {
                should_exit: true,
                ..app
            }) && effects == none
            &&& key.ctrl_char('d') && app.input.text.len() > 0 ==> after == app && effects == none
            &&& key.code == KeyCode::PageUp ==> after == scrolled_up(app, 10) && effects == none
            &&& key.code == KeyCode::PageDown ==> after == scrolled_down(app, 10) && effects
                == none
            &&& key.code == KeyCode::Tab || key.code == KeyCode::Other ==> after == app && effects
                == none
        }),
{
}

/// An overlay is left by Esc and by `q`, and by Control with C unless a turn
/// runs, which it stops then; other keys do nothing to it.
pub proof fn law_overlays_are_left_by_esc(app: AppView, key: KeyEvent)
    ensures
        ({
            let (after, effects) = closing(app, key);
            let leaves = key.code == KeyCode::Esc || key.plain_char('q') || key.ctrl_char('c')
                && app.running is None;
            &&& after == (if leaves {
                AppView { view: ViewState::Main, ..app }
            } else {
                app
            })
            &&& effects == (if key.ctrl_char('c') && app.running is Some {
                Seq::<EffectView>::empty().push(Effect::CancelTurn)
            } else {
                Seq::<EffectView>::empty()
            })
        }),
{
}

/// A key goes to the sub-prompt while it is open, else to the overlay that
/// is, else to the main view; each overlay takes its own keys.
pub proof fn law_keys_go_to_what_is_on_top(
    app: AppView,
    key: KeyEvent,
    rules: RuleSourcesView,
    now: u64,
)
    requires
        app.toast is None,
    ensures
        ({
            let r = key_pressed(app, key, rules, now);
            let free = app.always_subprompt is None;
            &&& app.always_subprompt is Some ==> r == subprompt_key(app, key)
            &&& free && app.view == ViewState::Overlay(Overlay::AskModal) ==> r == modal_key(
                app,
                key,
            )
            &&& free && app.view == ViewState::Overlay(Overlay::TranscriptViewer) ==> r
                == viewer_key(app, key)
            &&& free && app.view == ViewState::Overlay(Overlay::ReverseHistory) ==> r
                == search_key(app, key)
            &&& free && app.view == ViewState::Overlay(Overlay::Permissions) && overlay_takes(
                app,
                key,
            ) ==> r == overlay_key(app, key, rules, now)
            &&& free && app.view == ViewState::Overlay(Overlay::Permissions) && !overlay_takes(
                app,
                key,
            ) ==> r == closing(app, key)
            &&& free && app.view == ViewState::Overlay(Overlay::Mcp) && mcp_notice(key) is Some
                ==> r == (mcp_key(app, key, now), Seq::<EffectView>::empty())
            &&& free && (app.view == ViewState::Overlay(Overlay::SlashHelp) || app.view
                == ViewState::Overlay(Overlay::Config) || app.view == ViewState::Overlay(
                Overlay::Skills,
            ) || app.view == ViewState::Overlay(Overlay::System) || app.view == ViewState::Overlay(
                Overlay::Rewind,
            )) ==> r == closing(app, key)
            &&& free && app.view == ViewState::Main && app.menu is None ==> r.0 == main_key(
                app,
                key,
                now,
            ).0
        }),
{
    assert((AppView { toast: None, ..app }) == app);
}

/// Only a key that is pressed counts: held or let go it does nothing.
pub proof fn law_only_presses_count(app: AppView, e: TermEvent, rules: RuleSourcesView, now: u64)
    ensures
        match e {
            TermEvent::Key { key, press } => event_taken(app, e, rules, now) == (if press {
                key_pressed(app, key, rules, now)
            } else {
                (app, Seq::<EffectView>::empty())
            }),
            TermEvent::Mouse(m) => event_taken(app, e, rules, now) == moused(app, m),
            TermEvent::Other => event_taken(app, e, rules, now) == (
                app,
                Seq::<EffectView>::empty(),
            ),
        },
{
}

} // verus!
