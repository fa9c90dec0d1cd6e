//! The status bar.

use vstd::prelude::*;

use crate::app::{activity_view, spinner_frame, spinner_frames, Activity, App, AppView, SessionView};
use crate::overlay::settings::ProviderKind;
use crate::overlay::{Overlay, ViewState};
use crate::style::{
    plain, push_span, row, span, styled, Color, Line, LineView, Style,
};
use crate::text::{cat2, cat3, cat4, cat5, decimal, decimal_u64, decimal_usize, opt_text};
use crate::toast::{elapsed, millis_between};
use crate::types::PermissionMode;

verus! {

/// Milliseconds of silence after which it is mentioned.
pub const STALL_MS: u64 = 10_000;

/// Whether the model has been silent for so long that it is mentioned. While
/// a tool runs it is not.
pub open spec fn stalled(active_tools: bool, last_delta_at: u64, now: u64) -> bool {
    !active_tools && elapsed(last_delta_at, now) >= STALL_MS
}

/// What stands next to the spinner.
pub open spec fn spinner_text(active_tools: bool, last_delta_at: u64, now: u64) -> Seq<char> {
    if stalled(active_tools, last_delta_at, now) {
        "Thinking\u{2026} (no tokens for "@ + decimal(
            (elapsed(last_delta_at, now) / 1000) as nat,
        ) + "s)"@
    } else {
        "Thinking\u{2026}"@
    }
}

/// What stands next to the spinner, with a hint once the model has been
/// silent for ten seconds and no tool runs.
pub fn format_spinner_cell(active_tools: bool, last_delta_at: u64, now: u64) -> (r: String)
    ensures
        r@ == spinner_text(active_tools, last_delta_at, now),
{
    let quiet = millis_between(last_delta_at, now);
    if !active_tools && quiet >= STALL_MS {
        cat3("Thinking\u{2026} (no tokens for ", decimal_u64(quiet / 1000).as_str(), "s)")
    } else {
        String::from_str("Thinking\u{2026}")
    }
}

pub open spec fn session_part(s: Option<SessionView>) -> Seq<char> {
    match s {
        Some(s) => " \u{00B7} session: "@ + s.name + " ("@ + decimal(s.turn_count as nat) + "t)"@,
        None => Seq::empty(),
    }
}

fn session_text(app: &App) -> (r: String)
    ensures
        r@ == session_part(app@.session),
{
    match &app.session {
        Some(s) => cat5(
            " \u{00B7} session: ",
            s.name.as_str(),
            " (",
            decimal_usize(s.turn_count).as_str(),
            "t)",
        ),
        None => String::new(),
    }
}

/// What the turn is at: its activity, or the hint that the model is silent.
pub open spec fn running_part(
    activity: Option<Activity<Seq<char>>>,
    last_delta_at: u64,
    now: u64,
) -> Seq<char> {
    match activity {
        Some(a) => {
            let ms = elapsed(a.began(), now);
            let active = a is DispatchingTool;
            let label = if stalled(active, last_delta_at, now) {
                spinner_text(active, last_delta_at, now)
            } else {
                a.text()
            };
            " \u{00B7} "@ + seq![spinner_frames()[(ms / 100) % 10]] + " "@ + label + " ("@
                + decimal((ms / 1000) as nat) + "s)"@
        },
        None => Seq::empty(),
    }
}

fn running_text(app: &App, now: u64) -> (r: String)
    ensures
        r@ == running_part(app@.running, app@.last_delta_at, now),
{
    match &app.running {
        Some(running) => {
            let ms = millis_between(running.activity.since(), now);
            let active = match running.activity {
                Activity::DispatchingTool { .. } => true,
                _ => false,
            };
            let quiet = millis_between(app.last_delta_at, now);
            let label = if !active && quiet >= STALL_MS {
                format_spinner_cell(active, app.last_delta_at, now)
            } else {
                running.activity.label()
            };
            let mut spinner = String::new();
            spinner.push(spinner_frame(ms));
            assert(spinner@ =~= seq![spinner_frames()[(elapsed(
                activity_view(running.activity).began(),
                now,
            ) / 100) % 10]]);
            let head = cat3(" \u{00B7} ", spinner.as_str(), " ");
            cat5(head.as_str(), label.as_str(), " (", decimal_u64(ms / 1000).as_str(), "s)")
        },
        None => String::new(),
    }
}

pub open spec fn overlay_part(view: ViewState) -> Seq<char> {
    match view {
        ViewState::Overlay(o) => " \u{00B7} ["@ + o.nick() + " \u{2014} q to close]"@,
        ViewState::Main => Seq::empty(),
    }
}

fn overlay_text(view: ViewState) -> (r: String)
    ensures
        r@ == overlay_part(view),
{
    match view {
        ViewState::Overlay(o) => cat3(" \u{00B7} [", o.short_name(), " \u{2014} q to close]"),
        ViewState::Main => String::new(),
    }
}

/// The modes that are not the usual ones.
pub open spec fn mode_part(plan_mode: bool, mode: PermissionMode) -> Seq<char> {
    (if plan_mode {
        " \u{00B7} [\u{1F4CB} plan]"@
    } else {
        ""@
    }) + (match mode {
        PermissionMode::Default => Seq::empty(),
        _ => " \u{00B7} ["@ + mode.name() + "]"@,
    })
}

fn mode_text(plan_mode: bool, mode: PermissionMode) -> (r: String)
    ensures
        r@ == mode_part(plan_mode, mode),
{
    let plan: &str = if plan_mode {
        " \u{00B7} [\u{1F4CB} plan]"
    } else {
        ""
    };
    let chip = match mode {
        PermissionMode::Default => String::new(),
        _ => cat3(" \u{00B7} [", mode.chip(), "]"),
    };
    cat2(plan, chip.as_str())
}

/// What the status bar tells of the world around.
#[derive(Debug)]
pub struct StatusInfo {
    pub provider: ProviderKind,
    pub model: String,
    /// The working directory below the home directory, where it lies there.
    pub below_home: Option<String>,
    /// How full the context is, where that is known.
    pub context: Option<String>,
}

#[verifier::ext_equal]
pub struct StatusInfoView {
    pub provider: ProviderKind,
    pub model: Seq<char>,
    pub below_home: Option<Seq<char>>,
    pub context: Option<Seq<char>>,
}

impl View for StatusInfo {
    type V = StatusInfoView;

    open spec fn view(&self) -> StatusInfoView {
        StatusInfoView {
            provider: self.provider,
            model: self.model@,
            below_home: opt_text(self.below_home),
            context: opt_text(self.context),
        }
    }
}

/// The working directory, short where it lies below the home directory.
pub open spec fn directory(cwd: Seq<char>, below_home: Option<Seq<char>>) -> Seq<char> {
    match below_home {
        Some(p) => if p.len() == 0 {
            "~"@
        } else {
            "~/"@ + p
        },
        None => cwd,
    }
}

fn directory_text(app: &App, below_home: &Option<String>) -> (r: String)
    ensures
        r@ == directory(app@.cwd, opt_text(*below_home)),
{
    match below_home {
        Some(p) => app.cwd_display(Some(p.as_str())),
        None => app.cwd_display(None),
    }
}

/// The text of the status bar.
pub open spec fn status_text(app: AppView, info: StatusInfoView, now: u64) -> Seq<char> {
    let custom = if app.custom_statusline.len() == 0 {
        Seq::empty()
    } else {
        " "@ + app.custom_statusline + " \u{00B7}"@
    };
    let context = match info.context {
        Some(c) => " \u{00B7} "@ + c,
        None => Seq::empty(),
    };
    custom + " "@ + directory(app.cwd, info.below_home) + " \u{00B7} "@ + info.provider.name()
        + " "@ + info.model + session_part(app.session) + mode_part(
        app.plan_mode,
        app.permission_mode,
    ) + overlay_part(app.view) + running_part(app.running, app.last_delta_at, now) + context
}

/// The status bar: its text, and a warning while the latch is set.
pub open spec fn status_row(app: AppView, info: StatusInfoView, now: u64) -> LineView {
    let main = span(
        status_text(app, info, now),
        plain().with_bg(Color::DarkGray).with_fg(Color::White),
    );
    if app.bypass_latch {
        row(
            seq![
                main,
                span(
                    " \u{26A0} bypass latched (Ctrl+Shift+B to drop) "@,
                    plain().with_fg(Color::Red).with_bold(),
                ),
            ],
        )
    } else {
        row(seq![main])
    }
}

/// The status bar: its text, and a warning while the latch is set.
pub fn render_status(app: &App, info: &StatusInfo, now: u64) -> (l: Line)
    ensures
        l@ == status_row(app@, info@, now),
{
    let custom = if app.custom_statusline.as_str().is_empty() {
        String::new()
    } else {
        cat3(" ", app.custom_statusline.as_str(), " \u{00B7}")
    };
    let context = match &info.context {
        Some(c) => cat2(" \u{00B7} ", c.as_str()),
        None => String::new(),
    };
    let head = cat4(
        custom.as_str(),
        " ",
        directory_text(app, &info.below_home).as_str(),
        " \u{00B7} ",
    );
    let model = cat4(head.as_str(), info.provider.label(), " ", info.model.as_str());
    let state = cat4(
        model.as_str(),
        session_text(app).as_str(),
        mode_text(app.plan_mode, app.permission_mode).as_str(),
        overlay_text(app.view).as_str(),
    );
    let text = cat3(state.as_str(), running_text(app, now).as_str(), context.as_str());
    let mut l = Line::of1(
        styled(text.as_str(), Style::default().bg(Color::DarkGray).fg(Color::White)),
    );
    if app.bypass_latch {
        push_span(
            &mut l.spans,
            styled(
                " \u{26A0} bypass latched (Ctrl+Shift+B to drop) ",
                Style::default().fg(Color::Red).bold(),
            ),
        );
    }
    l
}

/// The warning shows whenever the latch is set, whatever the mode.
pub proof fn law_latch_always_shows(app: AppView, info: StatusInfoView, now: u64)
    ensures
        app.bypass_latch <==> status_row(app, info, now).spans.len() == 2,
        app.bypass_latch ==> status_row(app, info, now).spans[1].style == plain().with_fg(
            Color::Red,
        ).with_bold(),
{
}

/// While a tool runs, silence of the model is not mentioned.
pub proof fn law_tools_excuse_silence(last_delta_at: u64, now: u64)
    ensures
        spinner_text(true, last_delta_at, now) == "Thinking\u{2026}"@,
{
}

/// Silence is mentioned from ten seconds on, in whole seconds, and not while
/// a tool runs or where the clock reads less.
pub proof fn law_silence_is_mentioned_after_ten_seconds(
    active_tools: bool,
    last_delta_at: u64,
    now: u64,
)
    ensures
        !active_tools && now >= last_delta_at + 10_000 ==> spinner_text(
            active_tools,
            last_delta_at,
            now,
        ) == "Thinking\u{2026} (no tokens for "@ + decimal(((now - last_delta_at) / 1000) as nat)
            + "s)"@,
        active_tools || now < last_delta_at + 10_000 ==> spinner_text(
            active_tools,
            last_delta_at,
            now,
        ) == "Thinking\u{2026}"@,
        stalled(active_tools, last_delta_at, now) <==> !active_tools && now >= last_delta_at
            + 10_000,
{
}

/// The session is told by its name and its turns, the modes where they are
/// not the usual ones, the overlay by its nickname and how to close it.
pub proof fn law_parts_tell_what_is_unusual(s: SessionView, o: Overlay, plan: bool, mode: PermissionMode)
    ensures
        session_part(Some(s)) == " \u{00B7} session: "@ + s.name + " ("@ + decimal(
            s.turn_count as nat,
        ) + "t)"@,
        session_part(None).len() == 0,
        overlay_part(ViewState::Overlay(o)) == " \u{00B7} ["@ + o.nick()
            + " \u{2014} q to close]"@,
        overlay_part(ViewState::Main).len() == 0,
        !plan && mode == PermissionMode::Default ==> mode_part(plan, mode).len() == 0,
        plan && mode == PermissionMode::Default ==> mode_part(plan, mode)
            == " \u{00B7} [\u{1F4CB} plan]"@,
        !plan && mode != PermissionMode::Default ==> mode_part(plan, mode) == " \u{00B7} ["@
            + mode.name() + "]"@,
        plan && mode != PermissionMode::Default ==> mode_part(plan, mode)
            == " \u{00B7} [\u{1F4CB} plan]"@ + (" \u{00B7} ["@ + mode.name() + "]"@),
{
    reveal_strlit("");
    let part = " \u{00B7} ["@ + mode.name() + "]"@;
    assert(""@ + part =~= part);
    let plan_text = " \u{00B7} [\u{1F4CB} plan]"@;
    assert(plan_text + Seq::<char>::empty() =~= plan_text);
}

/// A turn in flight shows the frame of the spinner for the tenths of a second
/// since it began, what it is doing, and its whole seconds; where the model
/// has been silent for too long, that instead of what it is doing.
pub proof fn law_turns_in_flight_are_shown(
    a: Activity<Seq<char>>,
    last_delta_at: u64,
    now: u64,
)
    requires
        a.began() <= now,
    ensures
        running_part(None, last_delta_at, now).len() == 0,
        !(a is DispatchingTool) && now >= last_delta_at + 10_000 ==> running_part(
            Some(a),
            last_delta_at,
            now,
        ) == " \u{00B7} "@ + seq![spinner_frames()[((now - a.began()) / 100) % 10]] + " "@ + (
        "Thinking\u{2026} (no tokens for "@ + decimal(((now - last_delta_at) / 1000) as nat)
            + "s)"@) + " ("@ + decimal(((now - a.began()) / 1000) as nat) + "s)"@,
        a is DispatchingTool || now < last_delta_at + 10_000 ==> running_part(
            Some(a),
            last_delta_at,
            now,
        ) == " \u{00B7} "@ + seq![spinner_frames()[((now - a.began()) / 100) % 10]] + " "@
            + a.text() + " ("@ + decimal(((now - a.began()) / 1000) as nat) + "s)"@,
{
}

/// The working directory is written below a tilde where it lies below the
/// home directory, and as it is otherwise.
pub proof fn law_directories_are_shortened(cwd: Seq<char>, below: Seq<char>)
    ensures
        directory(cwd, None) == cwd,
        directory(cwd, Some(Seq::empty())) == "~"@,
        below.len() > 0 ==> directory(cwd, Some(below)) == "~/"@ + below,
{
}

/// The bar reads, from left to right: the custom segment, the directory, the
/// provider and the model, the session, the modes, the overlay, the turn in
/// flight, and the context.
pub proof fn law_the_bar_reads_left_to_right(app: AppView, info: StatusInfoView, now: u64)
    ensures
        ({
            let middle = " "@ + directory(app.cwd, info.below_home) + " \u{00B7} "@
                + info.provider.name() + " "@ + info.model + session_part(app.session) + mode_part(
                app.plan_mode,
                app.permission_mode,
            ) + overlay_part(app.view) + running_part(app.running, app.last_delta_at, now);
            let left = if app.custom_statusline.len() == 0 {
                middle
            } else {
                (" "@ + app.custom_statusline + " \u{00B7}"@) + middle
            };
            status_text(app, info, now) == (match info.context {
                Some(c) => left + (" \u{00B7} "@ + c),
                None => left,
            })
        }),
{
    let a = " "@;
    let b = directory(app.cwd, info.below_home);
    let c = " \u{00B7} "@;
    let d = info.provider.name();
    let e = info.model;
    let f = session_part(app.session);
    let g = mode_part(app.plan_mode, app.permission_mode);
    let h = overlay_part(app.view);
    let i = running_part(app.running, app.last_delta_at, now);
    let middle = a + b + c + d + a + e + f + g + h + i;
    let custom = if app.custom_statusline.len() == 0 {
        Seq::<char>::empty()
    } else {
        a + app.custom_statusline + " \u{00B7}"@
    };
    assert(custom + a + b + c + d + a + e + f + g + h + i =~= custom + middle);
    assert(Seq::<char>::empty() + middle =~= middle);
    let none = Seq::<char>::empty();
    assert(custom + middle + none =~= custom + middle);
}

/// The bar is white on dark grey; the warning behind it is bold and red.
pub proof fn law_the_bar_has_its_colours(app: AppView, info: StatusInfoView, now: u64)
    ensures
        status_row(app, info, now).spans[0].content == status_text(app, info, now),
        status_row(app, info, now).spans[0].style == (Style {
            fg: Some(Color::White),
            bg: Some(Color::DarkGray),
            bold: false,
            dim: false,
            italic: false,
            reversed: false,
        }),
        app.bypass_latch ==> status_row(app, info, now).spans[1].content
            == " \u{26A0} bypass latched (Ctrl+Shift+B to drop) "@,
        status_row(app, info, now).style == plain(),
{
}

} // verus!
