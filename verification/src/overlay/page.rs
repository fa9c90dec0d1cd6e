//! The open overlay: its place and what it says.

use vstd::prelude::*;

use crate::app::{App, AppView, RuleSources};
use crate::layout::{centered_rect, centered_share};
use crate::overlay::ask_modal::{
    action_rows, ask_modal_area, ask_modal_lines, body_rows, modal_area,
};
use crate::overlay::help::{lists_commands, skills_lines, skills_page, slash_help_lines};
use crate::overlay::history::{
    reverse_history_lines, rewind_lines, rewind_page, search_page, Checkpoints,
};
use crate::overlay::rules::{permissions_lines, rules_page};
use crate::overlay::servers::{mcp_lines, servers_page, servers_view, McpServer};
use crate::overlay::settings::{config_lines, config_page, system_lines, system_page, Config};
use crate::overlay::Overlay;
use crate::render::status::directory;
use crate::style::{blank_line, extend_lines, lines_view, push_line, Line, LineView};
use crate::text::{opt_text, texts};
use crate::transcript_viewer::{format_history, help_lines, help_rows, history_rows};
use crate::types::Rect;

verus! {

/// What the overlays tell of the world around.
#[derive(Debug)]
pub struct OverlayInfo {
    pub config: Config,
    /// The working directory below the home directory, where it lies there.
    pub below_home: Option<String>,
    pub servers: Vec<McpServer>,
    /// The files that servers are read from, but for that of the project.
    pub server_paths: Vec<String>,
    pub project_path: String,
    pub checkpoints: Checkpoints,
    pub rules: RuleSources,
    /// Whether there is a record of decisions.
    pub logged: bool,
}

/// How much of the screen an overlay takes, in percent: its width and its
/// height.
pub open spec fn share(o: Overlay) -> (u16, u16) {
    if o == Overlay::ReverseHistory {
        (70, 50)
    } else {
        (80, 80)
    }
}

/// How much of the screen an overlay takes, in percent: its width and its
/// height. The request for permission goes by its contents instead.
pub fn overlay_share(o: Overlay) -> (r: (u16, u16))
    ensures
        r == share(o),
{
    if o == Overlay::ReverseHistory {
        (70, 50)
    } else {
        (80, 80)
    }
}

/// Where an overlay stands.
pub fn overlay_area(o: Overlay, app: &App, screen: Rect) -> (r: Rect)
    requires
        screen.x + screen.width <= u16::MAX,
        screen.y + screen.height <= u16::MAX,
    ensures
        r == (if o == Overlay::AskModal {
            modal_area(body_rows(app@.ask_modal), screen)
        } else {
            centered_share(share(o).0, share(o).1, screen)
        }),
        screen.x <= r.x,
        r.x + r.width <= screen.x + screen.width,
        screen.y <= r.y,
        r.y + r.height <= screen.y + screen.height,
{
    if o == Overlay::AskModal {
        return ask_modal_area(&app.ask_modal, screen);
    }
    let (x, y) = overlay_share(o);
    centered_rect(x, y, screen)
}

/// The conversation, and the keys where they are asked for.
pub open spec fn viewer_page(app: AppView) -> Seq<LineView> {
    let rows = history_rows(app.messages, app.transcript_viewer.show_all);
    if app.transcript_viewer.show_help {
        rows.push(blank_line()) + help_rows()
    } else {
        rows
    }
}

/// The conversation, and the keys where they are asked for.
pub fn viewer_lines(app: &App) -> (out: Vec<Line>)
    ensures
        lines_view(out@) == viewer_page(app@),
{
    let mut out = format_history(&app.messages, app.transcript_viewer.show_all);
    if app.transcript_viewer.show_help {
        push_line(&mut out, Line::blank());
        extend_lines(&mut out, help_lines());
    }
    out
}

/// Whether `page` is what an overlay says.
pub open spec fn says(o: Overlay, app: AppView, info: OverlayInfo, page: Seq<LineView>) -> bool {
    match o {
        Overlay::SlashHelp => lists_commands(app.commands, page),
        Overlay::Config => page == config_page(
            info.config@,
            app.session,
            directory(app.cwd, opt_text(info.below_home)),
        ),
        Overlay::Mcp => page == servers_page(
            servers_view(info.servers@),
            texts(info.server_paths@),
            info.project_path@,
        ),
        Overlay::Skills => page == skills_page(),
        Overlay::System => page == system_page(app),
        Overlay::TranscriptViewer => page == viewer_page(app),
        Overlay::ReverseHistory => page == search_page(app.reverse_history),
        Overlay::AskModal => page == body_rows(app.ask_modal) + action_rows(None),
        Overlay::Rewind => page == rewind_page(info.checkpoints@),
        Overlay::Permissions => page == rules_page(app, info.rules@, info.logged),
    }
}

/// What an overlay says.
pub fn overlay_lines(o: Overlay, app: &App, info: &OverlayInfo) -> (out: Vec<Line>)
    requires
        app.wf(),
    ensures
        says(o, app@, *info, lines_view(out@)),
{
    match o {
        Overlay::SlashHelp => slash_help_lines(&app.slash_registry),
        Overlay::Config => match &info.below_home {
            Some(p) => config_lines(app, &info.config, Some(p.as_str())),
            None => config_lines(app, &info.config, None),
        },
        Overlay::Mcp => mcp_lines(&info.servers, &info.server_paths, info.project_path.as_str()),
        Overlay::Skills => skills_lines(),
        Overlay::System => system_lines(app),
        Overlay::TranscriptViewer => viewer_lines(app),
        Overlay::ReverseHistory => reverse_history_lines(&app.reverse_history),
        Overlay::AskModal => ask_modal_lines(&app.ask_modal),
        Overlay::Rewind => rewind_lines(&info.checkpoints),
        Overlay::Permissions => permissions_lines(app, &info.rules, info.logged),
    }
}

/// How far an overlay is scrolled.
pub fn overlay_scroll(o: Overlay, app: &App) -> (r: u16)
    ensures
        r == (if o == Overlay::TranscriptViewer {
            app@.transcript_viewer.scroll
        } else {
            0
        }),
{
    if o == Overlay::TranscriptViewer {
        app.transcript_viewer.scroll
    } else {
        0
    }
}

/// The search takes seven tenths of the width and half of the height; every
/// other overlay takes four fifths of both.
pub proof fn law_overlays_take_their_share(o: Overlay)
    ensures
        o == Overlay::ReverseHistory ==> share(o) == (70u16, 50u16),
        o != Overlay::ReverseHistory ==> share(o) == (80u16, 80u16),
{
}

/// The conversation is shown as the viewer is set, with the keys below it
/// where they are asked for.
pub proof fn law_the_viewer_shows_the_conversation(app: AppView)
    ensures
        !app.transcript_viewer.show_help ==> viewer_page(app) == history_rows(
            app.messages,
            app.transcript_viewer.show_all,
        ),
        app.transcript_viewer.show_help ==> viewer_page(app) == history_rows(
            app.messages,
            app.transcript_viewer.show_all,
        ) + seq![blank_line()] + help_rows(),
{
    let rows = history_rows(app.messages, app.transcript_viewer.show_all);
    assert(rows.push(blank_line()) =~= rows + seq![blank_line()]);
}

/// Each overlay has a page of its own.
pub proof fn law_overlays_say_their_page(app: AppView, info: OverlayInfo, page: Seq<LineView>)
    ensures
        says(Overlay::SlashHelp, app, info, page) <==> lists_commands(app.commands, page),
        says(Overlay::Config, app, info, page) <==> page == config_page(
            info.config@,
            app.session,
            directory(app.cwd, opt_text(info.below_home)),
        ),
        says(Overlay::Mcp, app, info, page) <==> page == servers_page(
            servers_view(info.servers@),
            texts(info.server_paths@),
            info.project_path@,
        ),
        says(Overlay::Skills, app, info, page) <==> page == skills_page(),
        says(Overlay::System, app, info, page) <==> page == system_page(app),
        says(Overlay::TranscriptViewer, app, info, page) <==> page == viewer_page(app),
        says(Overlay::ReverseHistory, app, info, page) <==> page == search_page(
            app.reverse_history,
        ),
        says(Overlay::AskModal, app, info, page) <==> page == body_rows(app.ask_modal)
            + action_rows(None),
        says(Overlay::Rewind, app, info, page) <==> page == rewind_page(info.checkpoints@),
        says(Overlay::Permissions, app, info, page) <==> page == rules_page(
            app,
            info.rules@,
            info.logged,
        ),
{
}

} // verus!
