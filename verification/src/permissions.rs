//! Permission modes, requests for permission, and the overlay that shows
//! and edits the rules.

use vstd::prelude::*;

use crate::app::{
    displayed, empty_pane, own_rule_positions, own_rules, App, AppView, PermissionsOverlayState,
    PermissionsTab, PermissionsTestPane, RuleOrigin, RuleSources, RuleSourcesView,
};
use crate::ask::{
    derive_suggestions, requests_view, suggestions, AlwaysSubprompt, AskRequest, AskRequestView,
    SubpromptView,
};
use crate::effect::{effects_view, just, nothing, push_effect, Effect, EffectView};
use crate::json::{input_or_empty, json_input, no_input, parse_tool_input};
use crate::overlay::{Overlay, ViewState};
use crate::text::{cat2, cat4, cat5, opt_text, push_text, texts};
use crate::toast::{toast, Toast, ToastLevel};
use crate::types::{
    default_rules_view, rule_view, rules_view, Action, AskResponse, DefaultRule, KeyCode, KeyEvent,
    PermissionMode, RuntimeRule, Scope, ToolInput,
};

verus! {

// ---------------------------------------------------------------------------
// Modes
// ---------------------------------------------------------------------------

/// Whether a step from `mode` has to leave out the mode that asks for
/// nothing.
pub open spec fn step_warns(mode: PermissionMode, latch: bool) -> bool {
    mode.after() == PermissionMode::BypassPermissions && !latch
}

/// The mode after `mode`, without the one that asks for nothing unless the
/// latch is set.
pub open spec fn step(mode: PermissionMode, latch: bool) -> PermissionMode {
    if step_warns(mode, latch) {
        mode.after().after()
    } else {
        mode.after()
    }
}

pub open spec fn bypass_warning() -> Seq<char> {
    "bypassPermissions requires --allow-dangerously-skip-permissions"@
}

/// The next mode, and a warning where one had to be left out.
pub fn next_permission_mode(current: PermissionMode, bypass_latch: bool) -> (r: (
    PermissionMode,
    Option<String>,
))
    ensures
        r.0 == step(current, bypass_latch),
        opt_text(r.1) == (if step_warns(current, bypass_latch) {
            Some(bypass_warning())
        } else {
            None
        }),
{
    let candidate = current.next();
    if candidate == PermissionMode::BypassPermissions && !bypass_latch {
        return (
            candidate.next(),
            Some(String::from_str("bypassPermissions requires --allow-dangerously-skip-permissions")),
        );
    }
    (candidate, None)
}

/// Whether a step back from `mode` has to leave out the mode that asks for
/// nothing.
pub open spec fn back_warns(mode: PermissionMode, latch: bool) -> bool {
    mode.before() == PermissionMode::BypassPermissions && !latch
}

/// The mode before `mode`, without the one that asks for nothing unless the
/// latch is set.
pub open spec fn step_back(mode: PermissionMode, latch: bool) -> PermissionMode {
    if back_warns(mode, latch) {
        mode.before().before()
    } else {
        mode.before()
    }
}

/// The mode before, and a warning where one had to be left out.
pub fn previous_permission_mode(current: PermissionMode, bypass_latch: bool) -> (r: (
    PermissionMode,
    Option<String>,
))
    ensures
        r.0 == step_back(current, bypass_latch),
        opt_text(r.1) == (if back_warns(current, bypass_latch) {
            Some(bypass_warning())
        } else {
            None
        }),
{
    let candidate = current.previous();
    if candidate == PermissionMode::BypassPermissions && !bypass_latch {
        return (
            candidate.previous(),
            Some(String::from_str("bypassPermissions requires --allow-dangerously-skip-permissions")),
        );
    }
    (candidate, None)
}

/// The state in another mode: plan mode goes with the mode, and a notice
/// says which mode it is, unless there is one already.
pub open spec fn switched(app: AppView, next: PermissionMode, warns: bool, now: u64) -> AppView {
    AppView {
        permission_mode: next,
        plan_mode: next == PermissionMode::Plan,
        toast: if warns {
            Some(toast(ToastLevel::Info, bypass_warning(), now))
        } else if app.toast is None {
            Some(toast(ToastLevel::Info, "permission mode: "@ + next.name(), now))
        } else {
            app.toast
        },
        ..app
    }
}

/// Leaving the automatic mode forgets what it decided.
pub open spec fn switch_effects(mode: PermissionMode, next: PermissionMode) -> Seq<EffectView> {
    if mode == PermissionMode::Auto && next != PermissionMode::Auto {
        seq![Effect::ClearClassifierCache]
    } else {
        Seq::empty()
    }
}

fn switch_mode(app: &mut App, next: PermissionMode, warning: Option<String>, now: u64) -> (effects: Vec<
    Effect,
>)
    requires
        old(app).wf(),
        warning is Some ==> warning->0@ == bypass_warning(),
    ensures
        final(app).wf(),
        final(app)@ == switched(old(app)@, next, warning is Some, now),
        effects_view(effects@) == switch_effects(old(app)@.permission_mode, next),
{
    let prev = app.permission_mode;
    if let Some(msg) = warning {
        app.toast = Some(Toast::info(msg.as_str(), now));
    }
    let effects = if prev == PermissionMode::Auto && next != PermissionMode::Auto {
        just(Effect::ClearClassifierCache)
    } else {
        nothing()
    };
    app.permission_mode = next;
    app.plan_mode = next == PermissionMode::Plan;
    if app.toast.is_none() {
        app.toast = Some(Toast::info(cat2("permission mode: ", next.chip()).as_str(), now));
    }
    effects
}

/// The state one mode on.
pub open spec fn cycled(app: AppView, now: u64) -> AppView {
    switched(
        app,
        step(app.permission_mode, app.bypass_latch),
        step_warns(app.permission_mode, app.bypass_latch),
        now,
    )
}

pub open spec fn cycle_effects(app: AppView) -> Seq<EffectView> {
    switch_effects(app.permission_mode, step(app.permission_mode, app.bypass_latch))
}

/// Goes one mode on.
pub fn cycle_permission_mode(app: &mut App, now: u64) -> (effects: Vec<Effect>)
    requires
        old(app).wf(),
    ensures
        final(app).wf(),
        final(app)@ == cycled(old(app)@, now),
        effects_view(effects@) == cycle_effects(old(app)@),
{
    let (next, warning) = next_permission_mode(app.permission_mode, app.bypass_latch);
    switch_mode(app, next, warning, now)
}

/// The state one mode back.
pub open spec fn cycled_back(app: AppView, now: u64) -> AppView {
    switched(
        app,
        step_back(app.permission_mode, app.bypass_latch),
        back_warns(app.permission_mode, app.bypass_latch),
        now,
    )
}

pub open spec fn back_effects(app: AppView) -> Seq<EffectView> {
    switch_effects(app.permission_mode, step_back(app.permission_mode, app.bypass_latch))
}

/// Goes one mode back.
pub fn cycle_back(app: &mut App, now: u64) -> (effects: Vec<Effect>)
    requires
        old(app).wf(),
    ensures
        final(app).wf(),
        final(app)@ == cycled_back(old(app)@, now),
        effects_view(effects@) == back_effects(old(app)@),
{
    let (before, warning) = previous_permission_mode(app.permission_mode, app.bypass_latch);
    switch_mode(app, before, warning, now)
}

/// The state `n` modes on.
pub open spec fn cycled_times(app: AppView, n: nat, now: u64) -> AppView
    decreases n,
{
    if n == 0 {
        app
    } else {
        cycled(cycled_times(app, (n - 1) as nat, now), now)
    }
}

/// The latch off, and with it the mode that needs it.
pub open spec fn latch_dropped(app: AppView, now: u64) -> AppView {
    AppView {
        bypass_latch: false,
        permission_mode: if app.permission_mode == PermissionMode::BypassPermissions {
            PermissionMode::Default
        } else {
            app.permission_mode
        },
        toast: Some(
            toast(
                ToastLevel::Info,
                "bypass latch dropped \u{2014} restart with --allow-dangerously-skip-permissions to re-enable"@,
                now,
            ),
        ),
        ..app
    }
}

/// Takes the latch off.
pub fn drop_bypass(app: &mut App, now: u64)
    requires
        old(app).wf(),
    ensures
        final(app).wf(),
        final(app)@ == latch_dropped(old(app)@, now),
{
    app.bypass_latch = false;
    if app.permission_mode == PermissionMode::BypassPermissions {
        app.permission_mode = PermissionMode::Default;
    }
    app.toast = Some(
        Toast::info(
            "bypass latch dropped \u{2014} restart with --allow-dangerously-skip-permissions to re-enable",
            now,
        ),
    );
}

// ---------------------------------------------------------------------------
// The request on screen
// ---------------------------------------------------------------------------

/// Rows of actions of the modal.
pub const ASK_ACTION_COUNT: usize = 5;

/// What can be answered to a request.
#[derive(Debug, Clone, Copy, PartialEq, Eq, Structural)]
pub enum AskChoice {
    AllowOnce,
    DenyOnce,
    AlwaysAllow,
    AlwaysDeny,
}

pub open spec fn choice_at(cursor: int) -> AskChoice {
    if cursor == 0 {
        AskChoice::AllowOnce
    } else if cursor == 2 {
        AskChoice::AlwaysAllow
    } else if cursor == 3 {
        AskChoice::AlwaysDeny
    } else {
        AskChoice::DenyOnce
    }
}

/// What Enter answers on a row.
pub fn ask_choice_for_cursor(cursor: usize) -> (r: AskChoice)
    ensures
        r == choice_at(cursor as int),
{
    if cursor == 0 {
        AskChoice::AllowOnce
    } else if cursor == 2 {
        AskChoice::AlwaysAllow
    } else if cursor == 3 {
        AskChoice::AlwaysDeny
    } else {
        AskChoice::DenyOnce
    }
}

/// The request on screen answered. Whoever waits behind it is looked at next.
pub open spec fn answered(app: AppView, response: AskResponse) -> (AppView, Seq<EffectView>) {
    match app.ask_modal {
        Some(req) => (
            AppView { ask_modal: None, view: ViewState::Main, ..app },
            seq![Effect::Respond { id: req.id, response }, Effect::DrainAskQueue],
        ),
        None => (app, seq![Effect::DrainAskQueue]),
    }
}

fn answer(app: &mut App, response: AskResponse) -> (effects: Vec<Effect>)
    requires
        old(app).wf(),
    ensures
        final(app).wf(),
        (final(app)@, effects_view(effects@)) == answered(old(app)@, response),
{
    let mut effects = nothing();
    let id = match &app.ask_modal {
        Some(req) => Some(req.id),
        None => None,
    };
    if let Some(id) = id {
        app.ask_modal = None;
        app.view = ViewState::Main;
        push_effect(&mut effects, Effect::Respond { id, response });
    }
    push_effect(&mut effects, Effect::DrainAskQueue);
    assert(effects_view(effects@) =~= answered(old(app)@, response).1);
    effects
}

/// The sub-prompt opened for the request on screen, on its narrowest
/// pattern.
pub open spec fn subprompt_opened(app: AppView, action: Action) -> AppView {
    match app.ask_modal {
        Some(req) => AppView {
            always_subprompt: Some(
                SubpromptView::over(
                    suggestions(req.tool_name, req.tool_input, req.first_arg),
                    None,
                    true,
                    action,
                ),
            ),
            ..app
        },
        None => app,
    }
}

/// Opens the sub-prompt for the request on screen.
pub fn open_always_subprompt(app: &mut App, action: Action)
    requires
        old(app).wf(),
    ensures
        final(app).wf(),
        final(app)@ == subprompt_opened(old(app)@, action),
{
    let sp = match &app.ask_modal {
        Some(req) => Some(
            AlwaysSubprompt::new(
                derive_suggestions(req.tool_name.as_str(), &req.tool_input, &req.first_arg),
                None,
                true,
                action,
            ),
        ),
        None => None,
    };
    if sp.is_some() {
        app.always_subprompt = sp;
    }
}

pub open spec fn chosen(app: AppView, choice: AskChoice) -> (AppView, Seq<EffectView>) {
    match choice {
        AskChoice::AllowOnce => answered(app, AskResponse::AllowOnce),
        AskChoice::DenyOnce => answered(app, AskResponse::Deny),
        AskChoice::AlwaysAllow => (subprompt_opened(app, Action::Allow), Seq::empty()),
        AskChoice::AlwaysDeny => (subprompt_opened(app, Action::Deny), Seq::empty()),
    }
}

/// Does what was chosen.
pub fn perform_ask_choice(app: &mut App, choice: AskChoice) -> (effects: Vec<Effect>)
    requires
        old(app).wf(),
    ensures
        final(app).wf(),
        (final(app)@, effects_view(effects@)) == chosen(old(app)@, choice),
{
    match choice {
        AskChoice::AllowOnce => answer(app, AskResponse::AllowOnce),
        AskChoice::DenyOnce => answer(app, AskResponse::Deny),
        AskChoice::AlwaysAllow => {
            open_always_subprompt(app, Action::Allow);
            nothing()
        },
        AskChoice::AlwaysDeny => {
            open_always_subprompt(app, Action::Deny);
            nothing()
        },
    }
}

/// What a key chooses in the modal by itself.
pub open spec fn key_choice(key: KeyEvent, cursor: usize) -> Option<AskChoice> {
    if key.code == KeyCode::Enter {
        Some(choice_at(cursor as int))
    } else if key.plain_char('y') {
        Some(AskChoice::AllowOnce)
    } else if key.plain_char('a') {
        Some(AskChoice::AlwaysAllow)
    } else if key.plain_char('d') {
        Some(AskChoice::AlwaysDeny)
    } else if key.plain_char('n') || key.code == KeyCode::Esc || key.ctrl_char('c') {
        Some(AskChoice::DenyOnce)
    } else {
        None
    }
}

/// The state after a key in the modal.
pub open spec fn modal_key(app: AppView, key: KeyEvent) -> (AppView, Seq<EffectView>) {
    if app.always_subprompt is Some {
        (subprompt_key(app, key).0, subprompt_key(app, key).1)
    } else if key.code == KeyCode::Up {
        (
            AppView {
                ask_cursor: (if app.ask_cursor > 0 {
                    app.ask_cursor - 1
                } else {
                    0
                }) as usize,
                ..app
            },
            Seq::empty(),
        )
    } else if key.code == KeyCode::Down {
        (
            AppView {
                ask_cursor: (if app.ask_cursor < ASK_ACTION_COUNT - 1 {
                    app.ask_cursor + 1
                } else {
                    ASK_ACTION_COUNT - 1
                }) as usize,
                ..app
            },
            Seq::empty(),
        )
    } else {
        match key_choice(key, app.ask_cursor) {
            Some(c) => chosen(app, c),
            None => (app, Seq::empty()),
        }
    }
}

/// Takes a key in the modal.
pub fn handle_ask_modal_key(key: KeyEvent, app: &mut App) -> (effects: Vec<Effect>)
    requires
        old(app).wf(),
    ensures
        final(app).wf(),
        (final(app)@, effects_view(effects@)) == modal_key(old(app)@, key),
{
    if app.always_subprompt.is_some() {
        return handle_always_subprompt_key(key, app).1;
    }
    if key.code == KeyCode::Up {
        app.ask_cursor = app.ask_cursor.saturating_sub(1);
        nothing()
    } else if key.code == KeyCode::Down {
        app.ask_cursor = if app.ask_cursor < ASK_ACTION_COUNT - 1 {
            app.ask_cursor + 1
        } else {
            ASK_ACTION_COUNT - 1
        };
        nothing()
    } else if key.code == KeyCode::Enter {
        perform_ask_choice(app, ask_choice_for_cursor(app.ask_cursor))
    } else if key.is_plain('y') {
        perform_ask_choice(app, AskChoice::AllowOnce)
    } else if key.is_plain('a') {
        perform_ask_choice(app, AskChoice::AlwaysAllow)
    } else if key.is_plain('d') {
        perform_ask_choice(app, AskChoice::AlwaysDeny)
    } else if key.is_plain('n') || key.code == KeyCode::Esc || key.is_ctrl('c') {
        perform_ask_choice(app, AskChoice::DenyOnce)
    } else {
        nothing()
    }
}

// ---------------------------------------------------------------------------
// The sub-prompt
// ---------------------------------------------------------------------------

pub open spec fn response_for(action: Action) -> AskResponse {
    match action {
        Action::Allow => AskResponse::AlwaysAllow,
        Action::Deny => AskResponse::AlwaysReject,
        Action::Ask => AskResponse::AllowOnce,
    }
}

pub open spec fn unless_empty(s: Seq<char>) -> Option<Seq<char>> {
    if s.len() == 0 {
        None
    } else {
        Some(s)
    }
}

/// What committing asks of the world: the rule written, unless it is for
/// this session only, and the request on screen answered.
pub open spec fn commit_effects(app: AppView, sp: SubpromptView) -> Seq<EffectView> {
    let written: Seq<EffectView> = if sp.scope == Scope::Cli {
        Seq::empty()
    } else {
        seq![
            Effect::PersistRule {
                scope: sp.scope,
                pattern: sp.pattern(),
                action: sp.action,
                comment: unless_empty(sp.comment),
                reason: if sp.action == Action::Deny {
                    unless_empty(sp.reason)
                } else {
                    None
                },
            },
        ]
    };
    match app.ask_modal {
        Some(req) => written.push(
            Effect::Respond { id: req.id, response: response_for(sp.action) },
        ),
        None => written,
    }
}

/// The rule taken up for this session, whatever its scope.
pub open spec fn committed(app: AppView) -> (AppView, Seq<EffectView>) {
    match app.always_subprompt {
        Some(sp) => (
            AppView {
                runtime_rules: app.runtime_rules.push(
                    RuntimeRule { pattern: sp.pattern(), action: sp.action },
                ),
                ask_modal: None,
                ..app
            },
            commit_effects(app, sp),
        ),
        None => (app, Seq::empty()),
    }
}

fn some_text(s: &String) -> (r: Option<String>)
    ensures
        opt_text(r) == unless_empty(s@),
{
    if s.as_str().is_empty() {
        None
    } else {
        Some(s.clone())
    }
}

fn add_rule(rules: &mut Vec<RuntimeRule>, r: RuntimeRule)
    ensures
        rules_view(final(rules)@) == rules_view(old(rules)@).push(rule_view(r)),
{
    let ghost before = rules@;
    rules.push(r);
    assert(rules_view(rules@) =~= rules_view(before).push(rule_view(r)));
}

/// Takes the pattern of the sub-prompt up.
pub fn commit_subprompt(app: &mut App) -> (effects: Vec<Effect>)
    requires
        old(app).wf(),
    ensures
        final(app).wf(),
        (final(app)@, effects_view(effects@)) == committed(old(app)@),
{
    let mut effects = nothing();
    let (pattern, action) = match &app.always_subprompt {
        Some(sp) => {
            let pattern = sp.selected_pattern();
            if sp.scope != Scope::Cli {
                let reason = if sp.action == Action::Deny {
                    some_text(&sp.reason)
                } else {
                    None
                };
                push_effect(
                    &mut effects,
                    Effect::PersistRule {
                        scope: sp.scope,
                        pattern: pattern.clone(),
                        action: sp.action,
                        comment: some_text(&sp.comment),
                        reason,
                    },
                );
            }
            (pattern, sp.action)
        },
        None => return effects,
    };
    add_rule(&mut app.runtime_rules, RuntimeRule { pattern, action });
    let id = match &app.ask_modal {
        Some(req) => Some(req.id),
        None => None,
    };
    if let Some(id) = id {
        let response = match action {
            Action::Allow => AskResponse::AlwaysAllow,
            Action::Deny => AskResponse::AlwaysReject,
            Action::Ask => AskResponse::AllowOnce,
        };
        push_effect(&mut effects, Effect::Respond { id, response });
        app.ask_modal = None;
    }
    assert(effects_view(effects@) =~= committed(old(app)@).1);
    effects
}

/// The answer for this once to a call for which no rule is kept: refused
/// where it was to be refused for good.
pub open spec fn just_once(action: Action) -> AskResponse {
    if action == Action::Deny {
        AskResponse::Deny
    } else {
        AskResponse::AllowOnce
    }
}

/// The state after a key in the sub-prompt. Esc gives up the rule and allows
/// or denies the call just this once; Enter takes the rule up; every other
/// key is the sub-prompt's own.
pub open spec fn subprompt_key(app: AppView, key: KeyEvent) -> (AppView, Seq<EffectView>) {
    match app.always_subprompt {
        None => (app, Seq::empty()),
        Some(sp) => match key.code {
            KeyCode::Esc => answered(
                AppView { always_subprompt: None, ..app },
                just_once(sp.action),
            ),
            KeyCode::Up => (AppView { always_subprompt: Some(sp.up()), ..app }, Seq::empty()),
            KeyCode::Down => (AppView { always_subprompt: Some(sp.down()), ..app }, Seq::empty()),
            KeyCode::Tab => (
                AppView { always_subprompt: Some(sp.next_scope()), ..app },
                Seq::empty(),
            ),
            KeyCode::Enter => (
                AppView { always_subprompt: None, view: ViewState::Main, ..committed(app).0 },
                committed(app).1.push(Effect::DrainAskQueue),
            ),
            KeyCode::Char(c) => (
                AppView { always_subprompt: Some(sp.typed(c)), ..app },
                Seq::empty(),
            ),
            KeyCode::Backspace => (
                AppView { always_subprompt: Some(sp.erased()), ..app },
                Seq::empty(),
            ),
            _ => (app, Seq::empty()),
        },
    }
}

/// Takes a key in the sub-prompt; says whether there is one.
#[verifier::rlimit(40)]
pub fn handle_always_subprompt_key(key: KeyEvent, app: &mut App) -> (r: (bool, Vec<Effect>))
    requires
        old(app).wf(),
    ensures
        final(app).wf(),
        r.0 == (old(app)@.always_subprompt is Some),
        (final(app)@, effects_view(r.1@)) == subprompt_key(old(app)@, key),
{
    let action = match &app.always_subprompt {
        Some(sp) => sp.action,
        None => return (false, nothing()),
    };
    match key.code {
        KeyCode::Esc => {
            app.always_subprompt = None;
            let response = if action == Action::Deny {
                AskResponse::Deny
            } else {
                AskResponse::AllowOnce
            };
            let effects = answer(app, response);
            (true, effects)
        },
        KeyCode::Enter => {
            let mut effects = commit_subprompt(app);
            app.always_subprompt = None;
            app.view = ViewState::Main;
            push_effect(&mut effects, Effect::DrainAskQueue);
            (true, effects)
        },
        _ => {
            edit_subprompt(key, app);
            (true, nothing())
        },
    }
}

fn edit_subprompt(key: KeyEvent, app: &mut App)
    requires
        old(app).wf(),
        old(app)@.always_subprompt is Some,
        key.code != KeyCode::Esc,
        key.code != KeyCode::Enter,
    ensures
        final(app).wf(),
        final(app)@ == subprompt_key(old(app)@, key).0,
{
    match &mut app.always_subprompt {
        Some(sp) => match key.code {
            KeyCode::Up => sp.move_up(),
            KeyCode::Down => sp.move_down(),
            KeyCode::Tab => sp.cycle_scope(),
            KeyCode::Char(c) => sp.push_char(c),
            KeyCode::Backspace => sp.pop_char(),
            _ => {},
        },
        None => {},
    }
}

/// Takes in that a rule was written to a file.
pub fn rule_saved(app: &mut App, path: &str, now: u64)
    requires
        old(app).wf(),
    ensures
        final(app).wf(),
        final(app)@ == old(app)@.noticed(toast(ToastLevel::Info, "rule saved to "@ + path@, now)),
{
    app.toast = Some(Toast::info(cat2("rule saved to ", path).as_str(), now));
}

pub open spec fn action_text(a: Action) -> Seq<char> {
    match a {
        Action::Allow => "allow"@,
        Action::Ask => "ask"@,
        Action::Deny => "deny"@,
    }
}

/// What a rule file calls an action.
pub fn action_str(a: Action) -> (r: &'static str)
    ensures
        r@ == action_text(a),
{
    match a {
        Action::Allow => "allow",
        Action::Ask => "ask",
        Action::Deny => "deny",
    }
}

// ---------------------------------------------------------------------------
// Requests that wait
// ---------------------------------------------------------------------------

/// No rule of the session settles the request at `i`.
pub open spec fn open_at(verdicts: Seq<Option<Action>>, i: int) -> bool {
    i >= verdicts.len() || verdicts[i] is None || verdicts[i] == Some(Action::Ask)
}

/// The first request from `from` on, of `n`, that no rule settles.
pub open spec fn first_open(verdicts: Seq<Option<Action>>, from: int, n: int) -> int
    decreases n - from,
{
    if from >= n {
        n
    } else if open_at(verdicts, from) {
        from
    } else {
        first_open(verdicts, from + 1, n)
    }
}

pub open spec fn verdict_response(v: Option<Action>) -> AskResponse {
    if v == Some(Action::Allow) {
        AskResponse::AllowOnce
    } else {
        AskResponse::Deny
    }
}

/// The requests before the first open one, answered as the rules say.
pub open spec fn settled_responses(
    queue: Seq<AskRequestView>,
    verdicts: Seq<Option<Action>>,
    n: int,
) -> Seq<EffectView> {
    Seq::new(
        n as nat,
        |i: int| Effect::Respond { id: queue[i].id, response: verdict_response(verdicts[i]) },
    )
}

/// The waiting requests looked at: those that the rules settle are answered,
/// up to the first that they do not; that one goes on screen.
pub open spec fn drained(app: AppView, verdicts: Seq<Option<Action>>) -> (AppView, Seq<EffectView>) {
    let n = app.ask_queue.len() as int;
    let k = first_open(verdicts, 0, n);
    (
        if k < n {
            AppView {
                ask_modal: Some(app.ask_queue[k]),
                ask_queue: app.ask_queue.skip(k + 1),
                ask_cursor: 0,
                view: ViewState::Overlay(Overlay::AskModal),
                ..app
            }
        } else {
            AppView { ask_queue: Seq::empty(), ..app }
        },
        settled_responses(app.ask_queue, verdicts, k),
    )
}

/// Looks at the waiting requests. `verdicts` is what the rules of the session
/// say of each of them, in order.
pub fn drain_ask_queue(app: &mut App, verdicts: &Vec<Option<Action>>) -> (effects: Vec<Effect>)
    requires
        old(app).wf(),
    ensures
        final(app).wf(),
        (final(app)@, effects_view(effects@)) == drained(old(app)@, verdicts@),
{
    let ghost start = app@;
    let ghost queue = app@.ask_queue;
    let ghost n = queue.len() as int;
    let mut effects = nothing();
    let mut i: usize = 0;
    let len: usize = app.ask_queue.len();
    assert(queue.skip(0) =~= queue);
    assert(effects_view(effects@) =~= settled_responses(queue, verdicts@, 0));
    assert(n == len);
    while i < len
        invariant
            i <= len,
            n == len == queue.len(),
            queue == start.ask_queue,
            start == old(app)@,
            app.wf(),
            app@ == (AppView { ask_queue: queue.skip(i as int), ..start }),
            first_open(verdicts@, 0, n) == first_open(verdicts@, i as int, n),
            effects_view(effects@) == settled_responses(queue, verdicts@, i as int),
        decreases len - i,
    {
        let ghost waiting = app.ask_queue@;
        assert(requests_view(waiting) == queue.skip(i as int));
        assert(waiting.len() == n - i);
        assert(requests_view(waiting)[0] == waiting[0]@);
        assert(queue.skip(i as int)[0] == queue[i as int]);
        let verdict: Option<Action> = if i < verdicts.len() {
            verdicts[i]
        } else {
            None
        };
        match app.ask_queue.pop_front() {
            Some(req) => {
                assert(req@ == queue[i as int]);
                proof {
                    let left = requests_view(app.ask_queue@);
                    assert forall|k: int| 0 <= k < left.len() implies left[k] == queue.skip(i + 1)[k] by {
                        assert(app.ask_queue@[k] == waiting[k + 1]);
                        assert(requests_view(waiting)[k + 1] == waiting[k + 1]@);
                        assert(queue.skip(i as int)[k + 1] == queue[i + k + 1]);
                    }
                    assert(left =~= queue.skip(i + 1));
                }
                match verdict {
                    Some(Action::Allow) => {
                        push_effect(
                            &mut effects,
                            Effect::Respond { id: req.id, response: AskResponse::AllowOnce },
                        );
                    },
                    Some(Action::Deny) => {
                        push_effect(
                            &mut effects,
                            Effect::Respond { id: req.id, response: AskResponse::Deny },
                        );
                    },
                    _ => {
                        assert(open_at(verdicts@, i as int));
                        app.ask_modal = Some(req);
                        app.ask_cursor = 0;
                        app.view = ViewState::Overlay(Overlay::AskModal);
                        return effects;
                    },
                }
                assert(!open_at(verdicts@, i as int));
                assert(effects_view(effects@) =~= settled_responses(queue, verdicts@, i + 1));
            },
            None => {
                assert(false);
            },
        }
        i = i + 1;
    }
    assert(app@.ask_queue =~= Seq::<AskRequestView>::empty());
    effects
}

/// A request that arrives: on screen where none is, else behind the others.
pub open spec fn arrived(app: AppView, req: AskRequestView) -> AppView {
    if app.ask_modal is None {
        AppView {
            ask_modal: Some(req),
            ask_cursor: 0,
            view: ViewState::Overlay(Overlay::AskModal),
            ..app
        }
    } else {
        AppView { ask_queue: app.ask_queue.push(req), ..app }
    }
}

/// Takes in a request.
pub fn request_arrived(app: &mut App, req: AskRequest)
    requires
        old(app).wf(),
    ensures
        final(app).wf(),
        final(app)@ == arrived(old(app)@, req@),
{
    if app.ask_modal.is_none() {
        app.ask_modal = Some(req);
        app.ask_cursor = 0;
        app.view = ViewState::Overlay(Overlay::AskModal);
    } else {
        let ghost before = app.ask_queue@;
        app.ask_queue.push_back(req);
        assert(requests_view(app.ask_queue@) =~= requests_view(before).push(req@));
    }
}

// ---------------------------------------------------------------------------
// The overlay
// ---------------------------------------------------------------------------

pub open spec fn tab_after(t: PermissionsTab) -> PermissionsTab {
    match t {
        PermissionsTab::View => PermissionsTab::Edit,
        PermissionsTab::Edit => PermissionsTab::Audit,
        PermissionsTab::Audit => PermissionsTab::View,
    }
}

pub open spec fn on_row(app: AppView, cursor: int) -> AppView {
    AppView {
        permissions: PermissionsOverlayState { cursor: cursor as usize, ..app.permissions },
        ..app
    }
}

/// A row, or the last one where there are fewer.
pub open spec fn clamped(cursor: int, len: int) -> int {
    if len == 0 {
        0
    } else if cursor >= len {
        len - 1
    } else {
        cursor
    }
}

/// The rule at the cursor deleted: a session rule at once, a file's rule by
/// whoever writes files, and no other.
pub open spec fn rule_struck(app: AppView, rules: RuleSourcesView, now: u64) -> (
    AppView,
    Seq<EffectView>,
) {
    let rows = displayed(app.runtime_rules, rules);
    if rows.len() == 0 {
        (app, Seq::empty())
    } else {
        let at = clamped(app.permissions.cursor as int, rows.len() as int);
        match rows[at].origin {
            RuleOrigin::Session => {
                let left = app.runtime_rules.remove(own_rules(app.runtime_rules, rules.file)[at]);
                let shown = displayed(left, rules).len() as int;
                let struck = AppView { runtime_rules: left, ..app }.noticed(
                    toast(
                        ToastLevel::Info,
                        "removed session rule: "@ + rows[at].pattern,
                        now,
                    ),
                );
                (on_row(struck, clamped(app.permissions.cursor as int, shown)), Seq::empty())
            },
            RuleOrigin::File { scope, path, .. } => if scope == Scope::Managed {
                (
                    app.noticed(toast(ToastLevel::Warn, "managed-scope rules are read-only"@, now)),
                    Seq::empty(),
                )
            } else {
                (app, seq![Effect::DeleteRule { path, pattern: rows[at].pattern }])
            },
            RuleOrigin::Default => (
                app.noticed(
                    toast(ToastLevel::Warn, "built-in default rules cannot be deleted"@, now),
                ),
                Seq::empty(),
            ),
        }
    }
}

/// The session rule at the cursor offered for a file, on the tab for
/// editing.
pub open spec fn promoted(app: AppView, rules: RuleSourcesView, now: u64) -> AppView {
    let rows = displayed(app.runtime_rules, rules);
    let at = clamped(app.permissions.cursor as int, rows.len() as int);
    if app.permissions.tab != PermissionsTab::Edit {
        app
    } else if rows.len() == 0 || !(rows[at].origin is Session) {
        app.noticed(toast(ToastLevel::Warn, "[p]romote: no rule selected"@, now))
    } else {
        AppView {
            always_subprompt: Some(
                SubpromptView::over(seq![rows[at].pattern], None, false, rows[at].action),
            ),
            ..app
        }
    }
}

/// A sub-prompt opened for a rule of the operator's own, on the tab for
/// editing.
pub open spec fn adding(app: AppView) -> AppView {
    if app.permissions.tab != PermissionsTab::Edit {
        app
    } else {
        AppView {
            always_subprompt: Some(
                SubpromptView::over(seq!["*"@], Some(Seq::empty()), false, Action::Allow),
            ),
            ..app
        }
    }
}

/// Whether the overlay has a use for a key.
pub open spec fn overlay_takes(app: AppView, key: KeyEvent) -> bool {
    ||| key.code == KeyCode::Tab
    ||| key.code == KeyCode::BackTab
    ||| key.code == KeyCode::Up
    ||| key.code == KeyCode::Down
    ||| key.plain_char('k')
    ||| key.plain_char('j')
    ||| key.plain_char('d')
    ||| key.plain_char('a')
    ||| key.plain_char('p')
    ||| key.plain_char('t')
    ||| (app.permissions_test is Some && (key.code == KeyCode::Enter || key.code == KeyCode::Esc))
}

/// The state after a key in the overlay.
pub open spec fn overlay_key(app: AppView, key: KeyEvent, rules: RuleSourcesView, now: u64) -> (
    AppView,
    Seq<EffectView>,
) {
    let cursor = app.permissions.cursor as int;
    if key.code == KeyCode::Tab {
        (
            AppView {
                permissions: PermissionsOverlayState {
                    tab: tab_after(app.permissions.tab),
                    ..app.permissions
                },
                ..app
            },
            Seq::empty(),
        )
    } else if key.code == KeyCode::BackTab {
        (cycled_back(app, now), back_effects(app))
    } else if key.code == KeyCode::Up || key.plain_char('k') {
        (
            on_row(
                app,
                if cursor > 0 {
                    cursor - 1
                } else {
                    0
                },
            ),
            Seq::empty(),
        )
    } else if key.code == KeyCode::Down || key.plain_char('j') {
        let len = displayed(app.runtime_rules, rules).len() as int;
        (
            if len > 0 {
                on_row(app, clamped(cursor + 1, len))
            } else {
                app
            },
            Seq::empty(),
        )
    } else if key.plain_char('d') {
        rule_struck(app, rules, now)
    } else if key.plain_char('a') {
        (adding(app), Seq::empty())
    } else if key.plain_char('p') {
        (promoted(app, rules, now), Seq::empty())
    } else if key.plain_char('t') {
        (
            if app.permissions.tab == PermissionsTab::Edit {
                AppView { permissions_test: Some(empty_pane()), ..app }
            } else {
                app
            },
            Seq::empty(),
        )
    } else {
        match app.permissions_test {
            Some(pane) => if key.code == KeyCode::Enter {
                (app, seq![Effect::TryRules { tool: pane.tool_name, input: pane.input_json }])
            } else if key.code == KeyCode::Esc {
                (AppView { permissions_test: None, ..app }, Seq::empty())
            } else {
                (app, Seq::empty())
            },
            None => (app, Seq::empty()),
        }
    }
}

fn remove_rule(rules: &mut Vec<RuntimeRule>, i: usize)
    requires
        i < old(rules)@.len(),
    ensures
        rules_view(final(rules)@) == rules_view(old(rules)@).remove(i as int),
{
    let ghost before = rules@;
    rules.remove(i);
    assert(rules_view(rules@) =~= rules_view(before).remove(i as int));
}

fn clamp_row(cursor: usize, len: usize) -> (r: usize)
    ensures
        r == clamped(cursor as int, len as int),
{
    if len == 0 {
        0
    } else if cursor >= len {
        len - 1
    } else {
        cursor
    }
}

proof fn lemma_session_rows_come_first(app: AppView, rules: RuleSourcesView, i: int)
    requires
        0 <= i < displayed(app.runtime_rules, rules).len(),
    ensures
        displayed(app.runtime_rules, rules)[i].origin is Session <==> i < own_rules(
            app.runtime_rules,
            rules.file,
        ).len(),
{
    let head = crate::app::session_rows(app.runtime_rules, rules.file);
    let mid = crate::app::file_rows(rules.file);
    let all = displayed(app.runtime_rules, rules);
    crate::app::lemma_file_rows(rules.file);
    if i < head.len() {
        assert(all[i] == head[i]);
    } else if i < head.len() + mid.len() {
        assert(all[i] == mid[i - head.len()]);
    } else {
        assert(all[i] == crate::app::default_rows(rules.defaults)[i - head.len() - mid.len()]);
    }
}

fn strike_rule(app: &mut App, rules: &RuleSources, now: u64) -> (effects: Vec<Effect>)
    requires
        old(app).wf(),
    ensures
        final(app).wf(),
        (final(app)@, effects_view(effects@)) == rule_struck(old(app)@, rules@, now),
{
    let rows = app.displayed_rules(rules);
    let ghost all = displayed(app@.runtime_rules, rules@);
    assert(rows@.len() == all.len());
    if rows.len() == 0 {
        return nothing();
    }
    let cursor: usize = app.permissions.cursor;
    let at = clamp_row(cursor, rows.len());
    assert(all[at as int] == rows@[at as int]@);
    let pattern = rows[at].pattern.clone();
    match &rows[at].origin {
        RuleOrigin::Session => {
            let own = own_rule_positions(&app.runtime_rules, &rules.file);
            proof {
                lemma_session_rows_come_first(app@, rules@, at as int);
            }
            let p: usize = own[at];
            remove_rule(&mut app.runtime_rules, p);
            app.toast = Some(
                Toast::info(cat2("removed session rule: ", pattern.as_str()).as_str(), now),
            );
            let left = app.displayed_rules(rules);
            assert(left@.len() == displayed(app@.runtime_rules, rules@).len());
            app.permissions.cursor = clamp_row(cursor, left.len());
            nothing()
        },
        RuleOrigin::File { scope, path, .. } => {
            if *scope == Scope::Managed {
                app.toast = Some(Toast::warn("managed-scope rules are read-only", now));
                nothing()
            } else {
                just(Effect::DeleteRule { path: path.clone(), pattern })
            }
        },
        RuleOrigin::Default => {
            app.toast = Some(Toast::warn("built-in default rules cannot be deleted", now));
            nothing()
        },
    }
}

fn promote_rule(app: &mut App, rules: &RuleSources, now: u64)
    requires
        old(app).wf(),
    ensures
        final(app).wf(),
        final(app)@ == promoted(old(app)@, rules@, now),
{
    if app.permissions.tab != PermissionsTab::Edit {
        return;
    }
    let rows = app.displayed_rules(rules);
    let ghost all = displayed(app@.runtime_rules, rules@);
    assert(rows@.len() == all.len());
    let selected = if rows.len() == 0 {
        None
    } else {
        let at = clamp_row(app.permissions.cursor, rows.len());
        assert(all[at as int] == rows@[at as int]@);
        match &rows[at].origin {
            RuleOrigin::Session => Some((rows[at].pattern.clone(), rows[at].action)),
            _ => None,
        }
    };
    match selected {
        Some((pattern, action)) => {
            let mut patterns: Vec<String> = Vec::new();
            assert(texts(patterns@) =~= Seq::<Seq<char>>::empty());
            push_text(&mut patterns, pattern);
            app.always_subprompt = Some(AlwaysSubprompt::new(patterns, None, false, action));
        },
        None => {
            app.toast = Some(Toast::warn("[p]romote: no rule selected", now));
        },
    }
}

fn add_own_rule(app: &mut App)
    requires
        old(app).wf(),
    ensures
        final(app).wf(),
        final(app)@ == adding(old(app)@),
{
    if app.permissions.tab == PermissionsTab::Edit {
        let mut patterns: Vec<String> = Vec::new();
        assert(texts(patterns@) =~= Seq::<Seq<char>>::empty());
        push_text(&mut patterns, String::from_str("*"));
        let own = String::new();
        assert(own@ =~= Seq::<char>::empty());
        app.always_subprompt = Some(
            AlwaysSubprompt::new(patterns, Some(own), false, Action::Allow),
        );
    }
}

/// Takes a key in the permissions overlay; says whether it has a use for it.
pub fn handle_permissions_overlay_key(key: KeyEvent, app: &mut App, rules: &RuleSources, now: u64) -> (r: (
    bool,
    Vec<Effect>,
))
    requires
        old(app).wf(),
    ensures
        final(app).wf(),
        r.0 == overlay_takes(old(app)@, key),
        (final(app)@, effects_view(r.1@)) == overlay_key(old(app)@, key, rules@, now),
{
    if key.code == KeyCode::Tab {
        app.permissions.tab = match app.permissions.tab {
            PermissionsTab::View => PermissionsTab::Edit,
            PermissionsTab::Edit => PermissionsTab::Audit,
            PermissionsTab::Audit => PermissionsTab::View,
        };
        (true, nothing())
    } else if key.code == KeyCode::BackTab {
        (true, cycle_back(app, now))
    } else if key.code == KeyCode::Up || key.is_plain('k') {
        app.permissions.cursor = app.permissions.cursor.saturating_sub(1);
        (true, nothing())
    } else if key.code == KeyCode::Down || key.is_plain('j') {
        let rows = app.displayed_rules(rules);
        assert(rows@.len() == displayed(app@.runtime_rules, rules@).len());
        if rows.len() > 0 {
            let cursor: usize = app.permissions.cursor;
            app.permissions.cursor = if cursor < rows.len() - 1 {
                cursor + 1
            } else {
                rows.len() - 1
            };
        }
        (true, nothing())
    } else if key.is_plain('d') {
        (true, strike_rule(app, rules, now))
    } else if key.is_plain('a') {
        add_own_rule(app);
        (true, nothing())
    } else if key.is_plain('p') {
        promote_rule(app, rules, now);
        (true, nothing())
    } else if key.is_plain('t') {
        if app.permissions.tab == PermissionsTab::Edit {
            app.permissions_test = Some(PermissionsTestPane::default());
        }
        (true, nothing())
    } else {
        let asked = match &app.permissions_test {
            Some(pane) => Some((pane.tool_name.clone(), pane.input_json.clone())),
            None => None,
        };
        match asked {
            Some((tool, input)) => {
                if key.code == KeyCode::Enter {
                    (true, just(Effect::TryRules { tool, input }))
                } else if key.code == KeyCode::Esc {
                    app.permissions_test = None;
                    (true, nothing())
                } else {
                    (false, nothing())
                }
            },
            None => (false, nothing()),
        }
    }
}

/// How deleting a rule from a file went.
#[derive(Debug)]
pub enum DeleteRuleResult {
    Deleted,
    /// The file holds no such rule.
    NotFound,
    Failed(String),
}

/// The state after a rule was deleted from a file; the cursor stays on the
/// rows that are left.
pub open spec fn file_rule_struck(
    app: AppView,
    path: Seq<char>,
    pattern: Seq<char>,
    result: DeleteRuleResult,
    rules: RuleSourcesView,
    now: u64,
) -> AppView {
    let told = app.noticed(
        match result {
            DeleteRuleResult::Deleted => toast(
                ToastLevel::Info,
                "removed rule from "@ + path + ": "@ + pattern,
                now,
            ),
            DeleteRuleResult::NotFound => toast(
                ToastLevel::Warn,
                "no rule matching "@ + pattern + " in "@ + path,
                now,
            ),
            DeleteRuleResult::Failed(e) => toast(ToastLevel::Warn, "delete failed: "@ + e@, now),
        },
    );
    on_row(
        told,
        clamped(
            app.permissions.cursor as int,
            displayed(app.runtime_rules, rules).len() as int,
        ),
    )
}

/// Takes in how deleting a rule from a file went; `rules` are those that are
/// left.
pub fn rule_deleted(
    app: &mut App,
    path: &str,
    pattern: &str,
    result: &DeleteRuleResult,
    rules: &RuleSources,
    now: u64,
)
    requires
        old(app).wf(),
    ensures
        final(app).wf(),
        final(app)@ == file_rule_struck(old(app)@, path@, pattern@, *result, rules@, now),
{
    app.toast = Some(
        match result {
            DeleteRuleResult::Deleted => Toast::info(
                cat4("removed rule from ", path, ": ", pattern).as_str(),
                now,
            ),
            DeleteRuleResult::NotFound => Toast::warn(
                cat4("no rule matching ", pattern, " in ", path).as_str(),
                now,
            ),
            DeleteRuleResult::Failed(e) => Toast::warn(
                cat2("delete failed: ", e.as_str()).as_str(),
                now,
            ),
        },
    );
    let rows = app.displayed_rules(rules);
    assert(rows@.len() == displayed(app@.runtime_rules, rules@).len());
    app.permissions.cursor = clamp_row(app.permissions.cursor, rows.len());
}

// ---------------------------------------------------------------------------
// Trying the rules
// ---------------------------------------------------------------------------

/// The input that a call is tried with: the JSON of the pane, or an empty
/// object where it is none.
pub fn permissions_test_input(pane: &PermissionsTestPane) -> (r: ToolInput)
    ensures
        r@ == (match json_input(pane.input_json@) {
            Some(i) => i,
            None => no_input(),
        }),
{
    input_or_empty(parse_tool_input(pane.input_json.as_str()))
}

/// The rules that a call is tried against: those of the session, then the
/// built-in ones.
pub open spec fn tried_rules(
    runtime: Seq<RuntimeRule<Seq<char>>>,
    defaults: Seq<DefaultRule<Seq<char>, Option<Seq<char>>>>,
) -> Seq<RuntimeRule<Seq<char>>> {
    runtime + Seq::new(
        defaults.len(),
        |i: int| RuntimeRule { pattern: defaults[i].pattern, action: defaults[i].action },
    )
}

pub fn permissions_test_rules(app: &App, defaults: &Vec<DefaultRule>) -> (out: Vec<RuntimeRule>)
    ensures
        rules_view(out@) == tried_rules(app@.runtime_rules, default_rules_view(defaults@)),
{
    let ghost head = app@.runtime_rules;
    let ghost dv = default_rules_view(defaults@);
    let ghost tail = Seq::new(
        dv.len(),
        |i: int| RuntimeRule::<Seq<char>> { pattern: dv[i].pattern, action: dv[i].action },
    );
    let mut out: Vec<RuntimeRule> = Vec::new();
    let mut i: usize = 0;
    assert(rules_view(out@) =~= head.take(0));
    while i < app.runtime_rules.len()
        invariant
            i <= app.runtime_rules@.len(),
            head == app@.runtime_rules,
            rules_view(out@) == head.take(i as int),
        decreases app.runtime_rules@.len() - i,
    {
        let r = RuntimeRule {
            pattern: app.runtime_rules[i].pattern.clone(),
            action: app.runtime_rules[i].action,
        };
        assert(rule_view(r) == head[i as int]);
        add_rule(&mut out, r);
        i = i + 1;
        assert(head.take(i as int) =~= head.take(i - 1).push(head[i - 1]));
    }
    assert(head.take(head.len() as int) =~= head);
    let mut j: usize = 0;
    assert(head =~= head + tail.take(0));
    while j < defaults.len()
        invariant
            j <= defaults@.len(),
            dv == default_rules_view(defaults@),
            tail == Seq::new(
                dv.len(),
                |i: int| RuntimeRule::<Seq<char>> { pattern: dv[i].pattern, action: dv[i].action },
            ),
            rules_view(out@) == head + tail.take(j as int),
        decreases defaults@.len() - j,
    {
        let r = RuntimeRule {
            pattern: defaults[j].pattern.clone(),
            action: defaults[j].action,
        };
        assert(dv[j as int] == defaults@[j as int]@);
        assert(rule_view(r) == tail[j as int]);
        add_rule(&mut out, r);
        j = j + 1;
        assert(tail.take(j as int) =~= tail.take(j - 1).push(tail[j - 1]));
        assert((head + tail.take(j - 1)).push(tail[j - 1]) =~= head + tail.take(j as int));
    }
    assert(tail.take(tail.len() as int) =~= tail);
    out
}

pub open spec fn action_name(a: Action) -> Seq<char> {
    match a {
        Action::Allow => "Allow"@,
        Action::Ask => "Ask"@,
        Action::Deny => "Deny"@,
    }
}

pub open spec fn verdict_text(matched: Option<RuntimeRule<Seq<char>>>) -> Seq<char> {
    match matched {
        Some(r) => "MATCH: "@ + r.pattern + " (action="@ + action_name(r.action) + ")"@,
        None => "no match \u{2014} would fall through to default Ask"@,
    }
}

pub open spec fn opt_rule(o: Option<RuntimeRule>) -> Option<RuntimeRule<Seq<char>>> {
    match o {
        Some(r) => Some(rule_view(r)),
        None => None,
    }
}

/// The state after a call was tried.
pub open spec fn tried(app: AppView, matched: Option<RuntimeRule<Seq<char>>>) -> AppView {
    match app.permissions_test {
        Some(p) => AppView {
            permissions_test: Some(
                PermissionsTestPane { last_outcome: Some(verdict_text(matched)), ..p },
            ),
            ..app
        },
        None => app,
    }
}

/// Takes in the rule that a tried call matched.
pub fn run_permissions_test(app: &mut App, matched: &Option<RuntimeRule>)
    requires
        old(app).wf(),
    ensures
        final(app).wf(),
        final(app)@ == tried(old(app)@, opt_rule(*matched)),
{
    let text = match matched {
        Some(r) => {
            let name = match r.action {
                Action::Allow => "Allow",
                Action::Ask => "Ask",
                Action::Deny => "Deny",
            };
            cat5("MATCH: ", r.pattern.as_str(), " (action=", name, ")")
        },
        None => String::from_str("no match \u{2014} would fall through to default Ask"),
    };
    match &mut app.permissions_test {
        Some(p) => {
            p.last_outcome = Some(text);
        },
        None => {},
    }
}

// ---------------------------------------------------------------------------
// Laws
// ---------------------------------------------------------------------------

/// Without the latch no step leads to the mode that asks for nothing, and a
/// step that has to leave it out warns.
pub proof fn law_no_bypass_without_the_latch(mode: PermissionMode)
    ensures
        step(mode, false) != PermissionMode::BypassPermissions,
        step_warns(mode, false) <==> mode.after() == PermissionMode::BypassPermissions,
        step(mode, true) == mode.after(),
{
}

/// A step always changes the mode, and with the latch six steps go round.
pub proof fn law_modes_come_round(mode: PermissionMode, latch: bool)
    ensures
        step(mode, latch) != mode,
        mode.after().after().after().after().after().after() == mode,
{
}

/// The plan flag goes with the mode through every step.
pub proof fn law_plan_flag_follows_the_mode(app: AppView, n: nat, now: u64)
    requires
        n > 0,
    ensures
        cycled_times(app, n, now).plan_mode == (cycled_times(app, n, now).permission_mode
            == PermissionMode::Plan),
        !app.bypass_latch ==> cycled_times(app, n, now).permission_mode
            != PermissionMode::BypassPermissions,
    decreases n,
{
    lemma_cycles_keep_the_latch(app, (n - 1) as nat, now);
    let before = cycled_times(app, (n - 1) as nat, now);
    assert(cycled_times(app, n, now) == cycled(before, now));
}

proof fn lemma_cycles_keep_the_latch(app: AppView, n: nat, now: u64)
    ensures
        cycled_times(app, n, now).bypass_latch == app.bypass_latch,
    decreases n,
{
    if n > 0 {
        lemma_cycles_keep_the_latch(app, (n - 1) as nat, now);
    }
}

/// With the latch off, no steps lead back to the mode that needs it.
pub proof fn law_dropped_latch_stays_dropped(app: AppView, n: nat, now: u64)
    ensures
        cycled_times(latch_dropped(app, now), n, now).permission_mode
            != PermissionMode::BypassPermissions,
{
    if n > 0 {
        law_plan_flag_follows_the_mode(latch_dropped(app, now), n, now);
    } else {
        reveal_with_fuel(cycled_times, 1);
    }
}

/// One mode back and one on, or the other way round, is the same mode again,
/// with the latch and without it, and neither step leaves the mode as it
/// was. The mode that asks for nothing can only be left without the latch.
pub proof fn law_back_and_on_again(app: AppView, now: u64, later: u64)
    ensures
        cycled_back(app, now).permission_mode != app.permission_mode,
        app.bypass_latch || app.permission_mode != PermissionMode::BypassPermissions ==> {
            &&& cycled(cycled_back(app, now), later).permission_mode == app.permission_mode
            &&& cycled_back(cycled(app, now), later).permission_mode == app.permission_mode
        },
        !app.bypass_latch ==> cycled_back(app, now).permission_mode
            != PermissionMode::BypassPermissions,
{
}

/// Every row of the modal can be reached, and the arrows stay on the rows.
pub proof fn law_modal_cursor_stays_on_the_rows(app: AppView, key: KeyEvent)
    requires
        app.always_subprompt is None,
        app.ask_cursor < ASK_ACTION_COUNT,
        key.code == KeyCode::Up || key.code == KeyCode::Down,
    ensures
        modal_key(app, key).0.ask_cursor < ASK_ACTION_COUNT,
        modal_key(app, key).0.ask_modal == app.ask_modal,
        modal_key(app, key).1 == Seq::<EffectView>::empty(),
{
}

/// Capital letters do nothing in the modal.
pub proof fn law_modal_ignores_shifted_letters(app: AppView, key: KeyEvent, c: char)
    requires
        app.always_subprompt is None,
        key.code == KeyCode::Char(c),
        key.modifiers.shift,
    ensures
        modal_key(app, key) == (app, Seq::<EffectView>::empty()),
{
}

/// A request is answered at most once: after an answer none is on screen.
pub proof fn law_answers_clear_the_screen(app: AppView, response: AskResponse)
    ensures
        answered(app, response).0.ask_modal is None,
        app.ask_modal is Some ==> answered(app, response).1 == seq![
            EffectView::Respond { id: app.ask_modal->0.id, response },
            EffectView::DrainAskQueue,
        ],
{
}

proof fn lemma_first_open(verdicts: Seq<Option<Action>>, from: int, n: int)
    requires
        from <= n,
    ensures
        from <= first_open(verdicts, from, n) <= n,
        forall|i: int| from <= i < first_open(verdicts, from, n) ==> !open_at(verdicts, i),
        first_open(verdicts, from, n) < n ==> open_at(verdicts, first_open(verdicts, from, n)),
    decreases n - from,
{
    if from < n && !open_at(verdicts, from) {
        lemma_first_open(verdicts, from + 1, n);
    }
}

/// No waiting request is lost: each is answered, on screen, or still
/// waiting, in the order in which it came; and the one on screen is the
/// first that no rule settles.
pub proof fn law_no_request_is_lost(app: AppView, verdicts: Seq<Option<Action>>)
    ensures
        ({
            let after = drained(app, verdicts).0;
            let answers = drained(app, verdicts).1;
            let k = answers.len() as int;
            &&& k <= app.ask_queue.len()
            &&& forall|i: int|
                0 <= i < k ==> (#[trigger] answers[i]) == (EffectView::Respond {
                    id: app.ask_queue[i].id,
                    response: verdict_response(verdicts[i]),
                }) && !open_at(verdicts, i)
            &&& k < app.ask_queue.len() ==> after.ask_modal == Some(app.ask_queue[k])
                && after.ask_queue == app.ask_queue.skip(k + 1) && open_at(verdicts, k)
            &&& k == app.ask_queue.len() ==> after.ask_queue.len() == 0 && after.ask_modal
                == app.ask_modal
        }),
{
    lemma_first_open(verdicts, 0, app.ask_queue.len() as int);
}

/// Where the rules allow every waiting request, each is allowed once and
/// none is put on screen.
pub proof fn law_allowed_requests_pass(app: AppView, verdicts: Seq<Option<Action>>)
    requires
        verdicts.len() == app.ask_queue.len(),
        forall|i: int| 0 <= i < verdicts.len() ==> #[trigger] verdicts[i] == Some(Action::Allow),
    ensures
        drained(app, verdicts).0.ask_modal == app.ask_modal,
        drained(app, verdicts).0.ask_queue.len() == 0,
        drained(app, verdicts).1.len() == app.ask_queue.len(),
        forall|i: int|
            0 <= i < app.ask_queue.len() ==> #[trigger] drained(app, verdicts).1[i]
                == (EffectView::Respond {
                id: app.ask_queue[i].id,
                response: AskResponse::AllowOnce,
            }),
{
    let n = app.ask_queue.len() as int;
    lemma_first_open(verdicts, 0, n);
    let k = first_open(verdicts, 0, n);
    if k < n {
        assert(open_at(verdicts, k));
        assert(verdicts[k] == Some(Action::Allow));
    }
}

/// A committed rule holds for the session at once, whatever its scope, and
/// is written to a file unless it is for the session only.
pub proof fn law_committed_rules_apply_at_once(app: AppView)
    requires
        app.always_subprompt is Some,
    ensures
        committed(app).0.runtime_rules == app.runtime_rules.push(
            RuntimeRule {
                pattern: app.always_subprompt->0.pattern(),
                action: app.always_subprompt->0.action,
            },
        ),
        (committed(app).1.len() > 0 && committed(app).1[0] is PersistRule) <==> app.always_subprompt->0.scope
            != Scope::Cli,
{
}

/// Giving the sub-prompt up keeps no rule and writes none to a file, and
/// answers the pending call just this once: denied where it was to be always
/// denied, else allowed.
pub proof fn law_giving_up_keeps_no_rule(app: AppView, key: KeyEvent)
    requires
        app.always_subprompt is Some,
        key.code == KeyCode::Esc,
    ensures
        subprompt_key(app, key).0.runtime_rules == app.runtime_rules,
        subprompt_key(app, key).0.always_subprompt is None,
        subprompt_key(app, key).1 == (match app.ask_modal {
            Some(req) => seq![
                EffectView::Respond {
                    id: req.id,
                    response: if app.always_subprompt->0.action == Action::Deny {
                        AskResponse::Deny
                    } else {
                        AskResponse::AllowOnce
                    },
                },
                EffectView::DrainAskQueue,
            ],
            None => seq![EffectView::DrainAskQueue],
        }),
{
}

/// What is promoted is the rule that the cursor is on, and nothing else is.
pub proof fn law_the_selected_rule_is_promoted(app: AppView, rules: RuleSourcesView, now: u64)
    requires
        app.permissions.tab == PermissionsTab::Edit,
        app.permissions.cursor < displayed(app.runtime_rules, rules).len(),
    ensures
        ({
            let row = displayed(app.runtime_rules, rules)[app.permissions.cursor as int];
            let after = promoted(app, rules, now);
            &&& after.runtime_rules == app.runtime_rules
            &&& if row.origin is Session {
                after.always_subprompt is Some && after.always_subprompt->0.suggestions
                    == seq![row.pattern] && after.always_subprompt->0.action == row.action
            } else {
                after.always_subprompt == app.always_subprompt
            }
        }),
{
}

/// Deleting a row removes no rule but the session rule on that row.
pub proof fn law_read_only_rows_stay(app: AppView, rules: RuleSourcesView, now: u64)
    requires
        displayed(app.runtime_rules, rules).len() > 0,
        !(displayed(app.runtime_rules, rules)[clamped(
            app.permissions.cursor as int,
            displayed(app.runtime_rules, rules).len() as int,
        )].origin is Session),
    ensures
        rule_struck(app, rules, now).0.runtime_rules == app.runtime_rules,
{
}

/// After a session rule was deleted the cursor is on a row that is left.
pub proof fn law_cursor_stays_on_a_row(app: AppView, rules: RuleSourcesView, now: u64)
    requires
        displayed(app.runtime_rules, rules).len() > 0,
        app.permissions.cursor < displayed(app.runtime_rules, rules).len() <= usize::MAX,
        displayed(rule_struck(app, rules, now).0.runtime_rules, rules).len() > 0,
    ensures
        rule_struck(app, rules, now).0.permissions.cursor < displayed(
            rule_struck(app, rules, now).0.runtime_rules,
            rules,
        ).len(),
{
}

/// Enter takes up the pattern on the cursor's row: where the cursor is on a
/// suggestion, that suggestion becomes a rule of the session under the
/// action that was asked for, and the same pattern is written to the file of
/// the scope, with the comment and, for a denial, the reason, where they say
/// anything. For the session alone nothing is written.
pub proof fn law_enter_takes_up_the_marked_pattern(app: AppView, key: KeyEvent)
    requires
        key.code == KeyCode::Enter,
        app.always_subprompt is Some,
    ensures
        ({
            let sp = app.always_subprompt->0;
            let pattern = if sp.selected < sp.suggestions.len() {
                sp.suggestions[sp.selected as int]
            } else if sp.custom is Some {
                sp.custom->0
            } else {
                Seq::<char>::empty()
            };
            let (after, effects) = subprompt_key(app, key);
            &&& after.runtime_rules == app.runtime_rules.push(
                RuntimeRule { pattern, action: sp.action },
            )
            &&& after.always_subprompt is None
            &&& after.view == ViewState::Main
            &&& after.ask_modal is None
            &&& sp.scope != Scope::Cli ==> effects.len() > 0 && effects[0]
                == EffectView::PersistRule {
                scope: sp.scope,
                pattern,
                action: sp.action,
                comment: if sp.comment.len() == 0 {
                    None
                } else {
                    Some(sp.comment)
                },
                reason: if sp.action != Action::Deny || sp.reason.len() == 0 {
                    None
                } else {
                    Some(sp.reason)
                },
            }
            &&& sp.scope == Scope::Cli ==> forall|i: int|
                0 <= i < effects.len() ==> !(#[trigger] effects[i] is PersistRule)
        }),
{
}

/// Whichever of two suggestions is marked, it is that one that is taken up:
/// the rule that Enter leaves behind follows the cursor.
pub proof fn law_the_rule_follows_the_cursor(
    app: AppView,
    sp: SubpromptView,
    i: usize,
    key: KeyEvent,
)
    requires
        key.code == KeyCode::Enter,
        i < sp.suggestions.len(),
    ensures
        ({
            let marked = AppView {
                always_subprompt: Some(SubpromptView { selected: i, ..sp }),
                ..app
            };
            subprompt_key(marked, key).0.runtime_rules.last().pattern == sp.suggestions[i as int]
        }),
{
}

/// Taking a rule up answers the call that asked: always allowed for a rule
/// that allows, always rejected for one that denies. Then the requests that
/// wait are looked at.
pub proof fn law_taking_a_rule_up_answers_the_call(app: AppView, key: KeyEvent)
    requires
        key.code == KeyCode::Enter,
        app.always_subprompt is Some,
    ensures
        ({
            let sp = app.always_subprompt->0;
            let effects = subprompt_key(app, key).1;
            let n = effects.len() as int;
            &&& n > 0 && effects[n - 1] == EffectView::DrainAskQueue
            &&& app.ask_modal is Some ==> n > 1 && effects[n - 2] == EffectView::Respond {
                id: app.ask_modal->0.id,
                response: match sp.action {
                    Action::Allow => AskResponse::AlwaysAllow,
                    Action::Deny => AskResponse::AlwaysReject,
                    Action::Ask => AskResponse::AllowOnce,
                },
            }
            &&& n == 1 + (if app.ask_modal is Some {
                1int
            } else {
                0
            }) + (if sp.scope != Scope::Cli {
                1int
            } else {
                0
            })
        }),
{
}

/// Every other key of the sub-prompt changes the sub-prompt alone and asks
/// for nothing.
pub proof fn law_editing_the_subprompt_decides_nothing(app: AppView, key: KeyEvent)
    requires
        key.code != KeyCode::Enter,
        key.code != KeyCode::Esc,
        app.always_subprompt is Some,
    ensures
        ({
            let (after, effects) = subprompt_key(app, key);
            let sp = app.always_subprompt->0;
            &&& after == (AppView { always_subprompt: after.always_subprompt, ..app })
            &&& after.always_subprompt is Some
            &&& effects == Seq::<EffectView>::empty()
            &&& key.code == KeyCode::Up ==> after.always_subprompt->0 == sp.up()
            &&& key.code == KeyCode::Down ==> after.always_subprompt->0 == sp.down()
            &&& key.code == KeyCode::Tab ==> after.always_subprompt->0 == sp.next_scope()
            &&& key.code == KeyCode::Backspace ==> after.always_subprompt->0 == sp.erased()
            &&& key.code is Char ==> after.always_subprompt->0 == sp.typed(key.code->Char_0)
        }),
{
}

/// The rows of the modal answer in their order: allow once, deny once, always
/// allow, always deny; what lies behind them denies once.
pub proof fn law_rows_answer_in_their_order(app: AppView, key: KeyEvent)
    requires
        key.code == KeyCode::Enter,
        app.always_subprompt is None,
        app.ask_modal is Some,
    ensures
        ({
            let (after, effects) = modal_key(app, key);
            let id = app.ask_modal->0.id;
            &&& app.ask_cursor == 0 ==> effects.len() == 2 && effects[0] == EffectView::Respond {
                id,
                response: AskResponse::AllowOnce,
            }
            &&& app.ask_cursor == 1 || app.ask_cursor >= 4 ==> effects.len() == 2 && effects[0]
                == EffectView::Respond { id, response: AskResponse::Deny }
            &&& app.ask_cursor == 2 ==> effects.len() == 0 && after.always_subprompt is Some
                && after.always_subprompt->0.action == Action::Allow
            &&& app.ask_cursor == 3 ==> effects.len() == 0 && after.always_subprompt is Some
                && after.always_subprompt->0.action == Action::Deny
        }),
{
}

/// The letters answer like their rows: `y` allows once, `n`, Esc and Control
/// with C deny once, `a` opens the sub-prompt to allow always and `d` the one
/// to deny always, over the patterns of the pending call and on the last of
/// them.
pub proof fn law_letters_answer_the_request(app: AppView, key: KeyEvent)
    requires
        app.always_subprompt is None,
        app.ask_modal is Some,
    ensures
        ({
            let (after, effects) = modal_key(app, key);
            let req = app.ask_modal->0;
            let offered = suggestions(req.tool_name, req.tool_input, req.first_arg);
            &&& key.plain_char('y') ==> after.ask_modal is None && effects.len() == 2 && effects[0]
                == EffectView::Respond { id: req.id, response: AskResponse::AllowOnce }
            &&& key.plain_char('n') || key.code == KeyCode::Esc || key.ctrl_char('c') ==> after.ask_modal is None
                && effects.len() == 2 && effects[0] == EffectView::Respond {
                id: req.id,
                response: AskResponse::Deny,
            }
            &&& key.plain_char('a') || key.plain_char('d') ==> {
                &&& effects.len() == 0
                &&& after == (AppView { always_subprompt: after.always_subprompt, ..app })
                &&& after.always_subprompt is Some
                &&& after.always_subprompt->0.suggestions == offered
                &&& offered.len() <= usize::MAX ==> after.always_subprompt->0.selected
                    == offered.len() - 1
                &&& after.always_subprompt->0.action == (if key.plain_char('a') {
                    Action::Allow
                } else {
                    Action::Deny
                })
                &&& after.always_subprompt->0.custom is None
                &&& after.always_subprompt->0.preview_matches
                &&& after.always_subprompt->0.scope == Scope::Project
                &&& after.always_subprompt->0.comment.len() == 0
                &&& after.always_subprompt->0.reason.len() == 0
            }
        }),
{
    crate::ask::lemma_suggestions(
        app.ask_modal->0.tool_name,
        app.ask_modal->0.tool_input,
        app.ask_modal->0.first_arg,
    );
}

/// From the request on screen over `a`, some steps up and Enter, the rule is
/// the suggestion as many rows above the last.
pub proof fn law_steps_up_choose_broader_patterns(app: AppView, n: nat, a: KeyEvent, enter: KeyEvent)
    requires
        app.ask_modal is Some,
        app.always_subprompt is None,
        a.plain_char('a'),
        enter.code == KeyCode::Enter,
        n < suggestions(
            app.ask_modal->0.tool_name,
            app.ask_modal->0.tool_input,
            app.ask_modal->0.first_arg,
        ).len() <= usize::MAX,
    ensures
        ({
            let req = app.ask_modal->0;
            let offered = suggestions(req.tool_name, req.tool_input, req.first_arg);
            let opened = modal_key(app, a).0;
            let chosen = subprompt_key(stepped_up(opened, n), enter);
            let pattern = offered[offered.len() - 1 - n];
            &&& chosen.0.runtime_rules == app.runtime_rules.push(
                RuntimeRule { pattern, action: Action::Allow },
            )
            &&& chosen.1[0] is PersistRule && chosen.1[0]->PersistRule_scope == Scope::Project
                && chosen.1[0]->PersistRule_pattern == pattern
        }),
{
    let opened = modal_key(app, a).0;
    law_letters_answer_the_request(app, a);
    lemma_stepped_up(opened, n);
}

/// The state after Up was pressed `n` times in the sub-prompt.
pub open spec fn stepped_up(app: AppView, n: nat) -> AppView
    decreases n,
{
    if n == 0 {
        app
    } else {
        let key = KeyEvent { code: KeyCode::Up, modifiers: crate::types::no_modifiers() };
        subprompt_key(stepped_up(app, (n - 1) as nat), key).0
    }
}

proof fn lemma_stepped_up(app: AppView, n: nat)
    requires
        app.always_subprompt is Some,
        n <= app.always_subprompt->0.selected,
    ensures
        stepped_up(app, n) == (AppView {
            always_subprompt: Some(
                SubpromptView {
                    selected: (app.always_subprompt->0.selected - n) as usize,
                    ..app.always_subprompt->0
                },
            ),
            ..app
        }),
    decreases n,
{
    if n > 0 {
        lemma_stepped_up(app, (n - 1) as nat);
    }
}

/// The arrows move the cursor of the modal by one row and stop at its ends.
pub proof fn law_modal_arrows_move_by_one_row(app: AppView, key: KeyEvent)
    requires
        app.always_subprompt is None,
        app.ask_cursor < 5,
    ensures
        key.code == KeyCode::Up ==> modal_key(app, key).0 == (AppView {
            ask_cursor: (if app.ask_cursor == 0 {
                0int
            } else {
                app.ask_cursor - 1
            }) as usize,
            ..app
        }),
        key.code == KeyCode::Down ==> modal_key(app, key).0 == (AppView {
            ask_cursor: (if app.ask_cursor == 4 {
                4int
            } else {
                app.ask_cursor + 1
            }) as usize,
            ..app
        }),
{
}

/// An answered request leaves the screen to the main view, and nothing else
/// changes; without one on screen nothing does.
pub proof fn law_answers_change_the_screen_alone(app: AppView, response: AskResponse)
    ensures
        app.ask_modal is Some ==> answered(app, response).0 == (AppView {
            ask_modal: None,
            view: ViewState::Main,
            ..app
        }),
        app.ask_modal is None ==> answered(app, response).0 == app && answered(app, response).1
            == Seq::<EffectView>::empty().push(EffectView::DrainAskQueue),
{
}

/// A request that arrives goes on screen where none is, with the cursor on
/// the first row; else it waits behind those that wait already.
pub proof fn law_requests_wait_their_turn(app: AppView, req: AskRequestView)
    ensures
        app.ask_modal is None ==> arrived(app, req) == (AppView {
            ask_modal: Some(req),
            ask_cursor: 0,
            view: ViewState::Overlay(Overlay::AskModal),
            ..app
        }),
        app.ask_modal is Some ==> arrived(app, req) == (AppView {
            ask_queue: app.ask_queue.push(req),
            ..app
        }),
{
}

/// Waiting requests are settled as the rules say: allowed once where they
/// allow, denied where they deny. The first that they leave open goes on
/// screen, with the cursor on the first row.
pub proof fn law_rules_settle_waiting_requests(app: AppView, verdicts: Seq<Option<Action>>)
    ensures
        ({
            let (after, answers) = drained(app, verdicts);
            let k = answers.len() as int;
            &&& forall|i: int|
                0 <= i < k ==> i < verdicts.len() && (verdicts[i] == Some(Action::Allow)
                    || verdicts[i] == Some(Action::Deny)) && (#[trigger] answers[i])
                    == (EffectView::Respond {
                    id: app.ask_queue[i].id,
                    response: if verdicts[i] == Some(Action::Allow) {
                        AskResponse::AllowOnce
                    } else {
                        AskResponse::Deny
                    },
                })
            &&& k < app.ask_queue.len() ==> {
                &&& k >= verdicts.len() || verdicts[k] is None || verdicts[k] == Some(Action::Ask)
                &&& after == (AppView {
                    ask_modal: Some(app.ask_queue[k]),
                    ask_queue: app.ask_queue.skip(k + 1),
                    ask_cursor: 0,
                    view: ViewState::Overlay(Overlay::AskModal),
                    ..app
                })
            }
            &&& k == app.ask_queue.len() ==> after == (AppView {
                ask_queue: Seq::empty(),
                ..app
            })
            &&& k <= app.ask_queue.len()
        }),
{
    lemma_first_open(verdicts, 0, app.ask_queue.len() as int);
    let (after, answers) = drained(app, verdicts);
    assert forall|i: int| 0 <= i < answers.len() implies i < verdicts.len() && (verdicts[i] == Some(
        Action::Allow,
    ) || verdicts[i] == Some(Action::Deny)) && (#[trigger] answers[i]) == (EffectView::Respond {
        id: app.ask_queue[i].id,
        response: if verdicts[i] == Some(Action::Allow) {
            AskResponse::AllowOnce
        } else {
            AskResponse::Deny
        },
    }) by {
        assert(!open_at(verdicts, i));
    }
}

/// The modes are walked in their order, back in the opposite one; the mode
/// that asks for nothing is left out, with a warning, unless the latch is
/// set.
pub proof fn law_modes_are_walked_in_order(app: AppView, now: u64)
    ensures
        ({
            let after = cycled(app, now).permission_mode;
            let before = cycled_back(app, now).permission_mode;
            match app.permission_mode {
                PermissionMode::Default => after == PermissionMode::AcceptEdits && before == (
                if app.bypass_latch {
                    PermissionMode::BypassPermissions
                } else {
                    PermissionMode::DontAsk
                }),
                PermissionMode::AcceptEdits => after == PermissionMode::Plan && before
                    == PermissionMode::Default,
                PermissionMode::Plan => after == PermissionMode::Auto && before
                    == PermissionMode::AcceptEdits,
                PermissionMode::Auto => after == PermissionMode::DontAsk && before
                    == PermissionMode::Plan,
                PermissionMode::DontAsk => before == PermissionMode::Auto && after == (
                if app.bypass_latch {
                    PermissionMode::BypassPermissions
                } else {
                    PermissionMode::Default
                }),
                PermissionMode::BypassPermissions => after == PermissionMode::Default && before
                    == PermissionMode::DontAsk,
            }
        }),
{
}

/// A step to another mode changes the mode, the plan flag and the notice
/// alone. The notice names the mode by the name that settings use, unless
/// one is up already; where the mode that asks for nothing had to be left
/// out, it says what that takes.
pub proof fn law_steps_are_told(app: AppView, now: u64)
    ensures
        ({
            let after = cycled(app, now);
            let left_out = app.permission_mode == PermissionMode::DontAsk && !app.bypass_latch;
            &&& after == (AppView {
                permission_mode: after.permission_mode,
                plan_mode: after.permission_mode == PermissionMode::Plan,
                toast: after.toast,
                ..app
            })
            &&& left_out ==> after.toast == Some(
                toast(
                    ToastLevel::Info,
                    "bypassPermissions requires --allow-dangerously-skip-permissions"@,
                    now,
                ),
            )
            &&& !left_out && app.toast is Some ==> after.toast == app.toast
            &&& !left_out && app.toast is None ==> after.toast == Some(
                toast(
                    ToastLevel::Info,
                    "permission mode: "@ + (match after.permission_mode {
                        PermissionMode::Default => "default"@,
                        PermissionMode::AcceptEdits => "acceptEdits"@,
                        PermissionMode::Plan => "plan"@,
                        PermissionMode::Auto => "auto"@,
                        PermissionMode::DontAsk => "dontAsk"@,
                        PermissionMode::BypassPermissions => "bypassPermissions"@,
                    }),
                    now,
                ),
            )
        }),
{
}

/// What the automatic mode decided is forgotten exactly when it is left.
pub proof fn law_leaving_auto_forgets(app: AppView)
    ensures
        cycle_effects(app) == (if app.permission_mode == PermissionMode::Auto {
            Seq::<EffectView>::empty().push(Effect::ClearClassifierCache)
        } else {
            Seq::<EffectView>::empty()
        }),
        back_effects(app) == (if app.permission_mode == PermissionMode::Auto {
            Seq::<EffectView>::empty().push(Effect::ClearClassifierCache)
        } else {
            Seq::<EffectView>::empty()
        }),
{
}

/// Dropping the latch leaves every mode but the one that needs it, which
/// gives way to the default, and says so.
pub proof fn law_dropping_the_latch_ends_bypass(app: AppView, now: u64)
    ensures
        ({
            let after = latch_dropped(app, now);
            &&& !after.bypass_latch
            &&& app.permission_mode == PermissionMode::BypassPermissions ==> after.permission_mode
                == PermissionMode::Default
            &&& app.permission_mode != PermissionMode::BypassPermissions ==> after.permission_mode
                == app.permission_mode
            &&& after == (AppView {
                bypass_latch: false,
                permission_mode: after.permission_mode,
                toast: after.toast,
                ..app
            })
            &&& after.toast == Some(
                toast(
                    ToastLevel::Info,
                    "bypass latch dropped \u{2014} restart with --allow-dangerously-skip-permissions to re-enable"@,
                    now,
                ),
            )
        }),
{
}

/// Deleting strikes the row that the cursor is on: a rule of the session is
/// gone at once, a file's rule is asked to be deleted from its own file, and
/// those of an administrator and the built-in ones stay, with a warning.
pub proof fn law_deleting_strikes_the_cursors_row(app: AppView, rules: RuleSourcesView, now: u64)
    requires
        app.permissions.cursor < displayed(app.runtime_rules, rules).len(),
    ensures
        ({
            let row = displayed(app.runtime_rules, rules)[app.permissions.cursor as int];
            let (after, effects) = rule_struck(app, rules, now);
            match row.origin {
                RuleOrigin::Session => {
                    let at = own_rules(app.runtime_rules, rules.file)[app.permissions.cursor as int];
                    &&& 0 <= at < app.runtime_rules.len()
                    &&& app.runtime_rules[at].pattern == row.pattern
                    &&& app.runtime_rules[at].action == row.action
                    &&& after.runtime_rules == app.runtime_rules.remove(at)
                    &&& effects.len() == 0
                    &&& after.toast == Some(
                        toast(ToastLevel::Info, "removed session rule: "@ + row.pattern, now),
                    )
                },
                RuleOrigin::File { scope, path, .. } => {
                    &&& after.runtime_rules == app.runtime_rules
                    &&& scope == Scope::Managed ==> effects.len() == 0 && after.toast == Some(
                        toast(ToastLevel::Warn, "managed-scope rules are read-only"@, now),
                    )
                    &&& scope != Scope::Managed ==> after == app && effects
                        == Seq::<EffectView>::empty().push(
                        EffectView::DeleteRule { path, pattern: row.pattern },
                    )
                },
                RuleOrigin::Default => {
                    &&& after.runtime_rules == app.runtime_rules
                    &&& effects.len() == 0
                    &&& after.toast == Some(
                        toast(ToastLevel::Warn, "built-in default rules cannot be deleted"@, now),
                    )
                },
            }
        }),
{
    let c = app.permissions.cursor as int;
    lemma_session_rows_come_first(app, rules, c);
    crate::app::lemma_session_row_at(app.runtime_rules, rules, c);
}

/// A rule of the operator's own, and the pane to try rules in, are opened on
/// the tab for editing alone; so is a promotion.
pub proof fn law_rules_are_edited_on_their_tab(
    app: AppView,
    key: KeyEvent,
    rules: RuleSourcesView,
    now: u64,
)
    requires
        key.plain_char('a') || key.plain_char('p') || key.plain_char('t'),
    ensures
        ({
            let (after, effects) = overlay_key(app, key, rules, now);
            let editing = app.permissions.tab == PermissionsTab::Edit;
            &&& effects.len() == 0
            &&& !editing ==> after == app
            &&& editing && key.plain_char('a') ==> {
                &&& after == (AppView { always_subprompt: after.always_subprompt, ..app })
                &&& after.always_subprompt is Some
                &&& after.always_subprompt->0.suggestions == seq!["*"@]
                &&& after.always_subprompt->0.custom == Some(Seq::<char>::empty())
                &&& after.always_subprompt->0.action == Action::Allow
                &&& !after.always_subprompt->0.preview_matches
            }
            &&& editing && key.plain_char('t') ==> {
                &&& after == (AppView { permissions_test: after.permissions_test, ..app })
                &&& after.permissions_test is Some
                &&& after.permissions_test->0.tool_name.len() == 0
                &&& after.permissions_test->0.input_json.len() == 0
                &&& after.permissions_test->0.last_outcome is None
                &&& after.permissions_test->0.focus == 0
            }
            &&& editing && key.plain_char('p') && app.permissions.cursor < displayed(
                app.runtime_rules,
                rules,
            ).len() ==> {
                let row = displayed(app.runtime_rules, rules)[app.permissions.cursor as int];
                &&& !(row.origin is Session) ==> after == app.noticed(
                    toast(ToastLevel::Warn, "[p]romote: no rule selected"@, now),
                )
                &&& row.origin is Session ==> {
                    &&& after == (AppView { always_subprompt: after.always_subprompt, ..app })
                    &&& after.always_subprompt is Some
                    &&& after.always_subprompt->0.suggestions == seq![row.pattern]
                    &&& after.always_subprompt->0.custom is None
                    &&& after.always_subprompt->0.action == row.action
                    &&& !after.always_subprompt->0.preview_matches
                }
            }
        }),
{
}

/// The tabs follow each other and come round; the arrows, and `k` and `j`,
/// move by one row and stay on the rows; back on the modes is what the back
/// tab does.
pub proof fn law_overlay_keys_move_about(
    app: AppView,
    key: KeyEvent,
    rules: RuleSourcesView,
    now: u64,
)
    requires
        displayed(app.runtime_rules, rules).len() <= usize::MAX,
        app.permissions.cursor < displayed(app.runtime_rules, rules).len(),
    ensures
        ({
            let (after, effects) = overlay_key(app, key, rules, now);
            let n = displayed(app.runtime_rules, rules).len() as int;
            let row = app.permissions.cursor as int;
            &&& key.code == KeyCode::Tab ==> effects.len() == 0 && after.permissions.tab == (
            match app.permissions.tab {
                PermissionsTab::View => PermissionsTab::Edit,
                PermissionsTab::Edit => PermissionsTab::Audit,
                PermissionsTab::Audit => PermissionsTab::View,
            }) && after.permissions.cursor == row
            &&& key.code == KeyCode::BackTab ==> after.permission_mode == cycled_back(
                app,
                now,
            ).permission_mode && effects == back_effects(app)
            &&& key.code == KeyCode::Up || key.plain_char('k') ==> effects.len() == 0
                && after.permissions.cursor == (if row == 0 {
                0int
            } else {
                row - 1
            }) && after.permissions.tab == app.permissions.tab
            &&& key.code == KeyCode::Down || key.plain_char('j') ==> effects.len() == 0
                && after.permissions.cursor == (if row == n - 1 {
                row
            } else {
                row + 1
            }) && after.permissions.tab == app.permissions.tab
        }),
{
}

/// While the pane is open Enter tries the call that it holds, and Esc closes
/// it.
pub proof fn law_the_pane_tries_its_own_call(
    app: AppView,
    key: KeyEvent,
    rules: RuleSourcesView,
    now: u64,
)
    requires
        app.permissions_test is Some,
    ensures
        key.code == KeyCode::Enter ==> overlay_key(app, key, rules, now) == (
            app,
            Seq::<EffectView>::empty().push(
                EffectView::TryRules {
                    tool: app.permissions_test->0.tool_name,
                    input: app.permissions_test->0.input_json,
                },
            ),
        ),
        key.code == KeyCode::Esc ==> overlay_key(app, key, rules, now) == (
            AppView { permissions_test: None, ..app },
            Seq::<EffectView>::empty(),
        ),
{
}

/// What became of a deletion is told with its rule and its file: as an
/// information where the rule is gone, as a warning where it is not.
pub proof fn law_deletions_are_told(
    app: AppView,
    path: Seq<char>,
    pattern: Seq<char>,
    result: DeleteRuleResult,
    rules: RuleSourcesView,
    now: u64,
)
    ensures
        ({
            let after = file_rule_struck(app, path, pattern, result, rules, now);
            &&& after.runtime_rules == app.runtime_rules
            &&& after.toast == Some(
                match result {
                    DeleteRuleResult::Deleted => toast(
                        ToastLevel::Info,
                        "removed rule from "@ + path + ": "@ + pattern,
                        now,
                    ),
                    DeleteRuleResult::NotFound => toast(
                        ToastLevel::Warn,
                        "no rule matching "@ + pattern + " in "@ + path,
                        now,
                    ),
                    DeleteRuleResult::Failed(e) => toast(
                        ToastLevel::Warn,
                        "delete failed: "@ + e@,
                        now,
                    ),
                },
            )
            &&& 0 < displayed(app.runtime_rules, rules).len() <= usize::MAX
                ==> after.permissions.cursor < displayed(app.runtime_rules, rules).len()
            &&& app.permissions.cursor < displayed(app.runtime_rules, rules).len()
                ==> after.permissions.cursor == app.permissions.cursor
        }),
{
}

/// A call is tried against the rules of the session first, in their order,
/// and then against the built-in ones; the outcome names the rule that
/// matched and what it says.
pub proof fn law_trials_name_the_rule(
    app: AppView,
    matched: Option<RuntimeRule<Seq<char>>>,
    runtime: Seq<RuntimeRule<Seq<char>>>,
    defaults: Seq<DefaultRule<Seq<char>, Option<Seq<char>>>>,
    i: int,
)
    ensures
        tried_rules(runtime, defaults).len() == runtime.len() + defaults.len(),
        0 <= i < runtime.len() ==> tried_rules(runtime, defaults)[i] == runtime[i],
        0 <= i < defaults.len() ==> {
            let r = tried_rules(runtime, defaults)[runtime.len() + i];
            r.pattern == defaults[i].pattern && r.action == defaults[i].action
        },
        app.permissions_test is None ==> tried(app, matched) == app,
        app.permissions_test is Some ==> {
            let pane = tried(app, matched).permissions_test;
            &&& tried(app, matched) == (AppView { permissions_test: pane, ..app })
            &&& pane is Some
            &&& pane->0.tool_name == app.permissions_test->0.tool_name
            &&& pane->0.input_json == app.permissions_test->0.input_json
            &&& pane->0.focus == app.permissions_test->0.focus
            &&& pane->0.last_outcome == Some(
                match matched {
                    Some(r) => "MATCH: "@ + r.pattern + " (action="@ + (match r.action {
                        Action::Allow => "Allow"@,
                        Action::Ask => "Ask"@,
                        Action::Deny => "Deny"@,
                    }) + ")"@,
                    None => "no match \u{2014} would fall through to default Ask"@,
                },
            )
        },
{
}

/// Rule files call the actions by their own names.
pub proof fn law_actions_have_their_names(a: Action)
    ensures
        a == Action::Allow ==> action_text(a) == "allow"@,
        a == Action::Ask ==> action_text(a) == "ask"@,
        a == Action::Deny ==> action_text(a) == "deny"@,
{
}

/// The overlay has a use for the two tabulators, the arrows and the plain
/// letters j, k, a, d, p and t, and for Enter and Escape while the test pane
/// is open; every other key does nothing in it.
pub proof fn law_the_overlay_takes_its_own_keys(
    app: AppView,
    key: KeyEvent,
    rules: RuleSourcesView,
    now: u64,
)
    ensures
        ({
            let letter = match key.code {
                KeyCode::Char(c) => c == 'j' || c == 'k' || c == 'a' || c == 'd' || c == 'p' || c
                    == 't',
                _ => false,
            };
            let own = key.code == KeyCode::Tab || key.code == KeyCode::BackTab || key.code
                == KeyCode::Up || key.code == KeyCode::Down || (letter && key.modifiers
                == crate::types::no_modifiers());
            let pane = app.permissions_test is Some && (key.code == KeyCode::Enter || key.code
                == KeyCode::Esc);
            &&& overlay_takes(app, key) <==> own || pane
            &&& !own && !pane ==> overlay_key(app, key, rules, now).0 == app && overlay_key(
                app,
                key,
                rules,
                now,
            ).1.len() == 0
        }),
{
}

} // verus!
