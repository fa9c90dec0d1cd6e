//! The state of the front end: the transcript, the prompt, the turn that
//! runs, what is open above the main view, and the permission rules of the
//! session.

use std::collections::VecDeque;

use vstd::prelude::*;

use crate::ask::{requests_view, AlwaysSubprompt, AskRequest, AskRequestView, SubpromptView};
use crate::input::{Input, InputView};
use crate::menu::{opt_menu, Menu, MenuView};
use crate::mouse_select::{MouseSelection, PositionMap};
use crate::overlay::ViewState;
use crate::reverse_history::{ReverseHistoryState, ReverseHistoryView};
use crate::slash::{builtin_commands, register_builtin, SlashCommand, SlashCommandRegistry};
use crate::text::{
    cat2, clone_opt, join, join_texts, opt_text, push_text, same, texts,
};
use crate::toast::Toast;
use crate::transcript_viewer::TranscriptViewerState;
use crate::types::{
    block_texts, clone_messages, default_rules_view, file_rules_view, messages_view, rule_view,
    rules_view, texts_of_blocks, Action, DefaultRule, FileRule, Message, MessageView,
    PermissionMode, Role, RuntimeRule, Scope,
};

verus! {

// ---------------------------------------------------------------------------
// The transcript
// ---------------------------------------------------------------------------

/// An entry of the scrolling transcript.
#[derive(Debug)]
pub enum TranscriptLine<S = String> {
    /// A prompt that was sent.
    UserPrompt(S),
    AssistantText(S),
    AssistantThinking(S),
    /// A tool call. The input accumulates; the result, an error flag and a
    /// text, comes when the call is over.
    ToolCall { tool_use_id: S, name: S, input: S, result: Option<(bool, S)> },
    /// What a run took.
    UsageSummary {
        input_tokens: u32,
        output_tokens: u32,
        cache_read: Option<u32>,
        cache_creation: Option<u32>,
        last_turn_ttft_ms: Option<u64>,
        turn_count: u32,
    },
    Info(S),
    Error(S),
    /// A file that went along with a prompt.
    Attached { display_path: S, bytes: u64 },
}

pub type EntryView = TranscriptLine<Seq<char>>;

impl View for TranscriptLine<String> {
    type V = TranscriptLine<Seq<char>>;

    open spec fn view(&self) -> TranscriptLine<Seq<char>> {
        match self {
            TranscriptLine::UserPrompt(s) => TranscriptLine::UserPrompt(s@),
            TranscriptLine::AssistantText(s) => TranscriptLine::AssistantText(s@),
            TranscriptLine::AssistantThinking(s) => TranscriptLine::AssistantThinking(s@),
            TranscriptLine::ToolCall { tool_use_id, name, input, result } => TranscriptLine::ToolCall {
                tool_use_id: tool_use_id@,
                name: name@,
                input: input@,
                result: match result {
                    Some(r) => Some((r.0, r.1@)),
                    None => None,
                },
            },
            TranscriptLine::UsageSummary {
                input_tokens,
                output_tokens,
                cache_read,
                cache_creation,
                last_turn_ttft_ms,
                turn_count,
            } => TranscriptLine::UsageSummary {
                input_tokens: *input_tokens,
                output_tokens: *output_tokens,
                cache_read: *cache_read,
                cache_creation: *cache_creation,
                last_turn_ttft_ms: *last_turn_ttft_ms,
                turn_count: *turn_count,
            },
            TranscriptLine::Info(s) => TranscriptLine::Info(s@),
            TranscriptLine::Error(s) => TranscriptLine::Error(s@),
            TranscriptLine::Attached { display_path, bytes } => TranscriptLine::Attached {
                display_path: display_path@,
                bytes: *bytes,
            },
        }
    }
}

pub open spec fn transcript_view(v: Seq<TranscriptLine>) -> Seq<TranscriptLine<Seq<char>>> {
    Seq::new(v.len(), |i: int| v[i]@)
}

pub fn push_entry(v: &mut Vec<TranscriptLine>, l: TranscriptLine)
    ensures
        final(v)@ == old(v)@.push(l),
        transcript_view(final(v)@) == transcript_view(old(v)@).push(l@),
{
    let ghost before = v@;
    v.push(l);
    assert(transcript_view(v@) =~= transcript_view(before).push(l@));
}

// ---------------------------------------------------------------------------
// What the agent is doing
// ---------------------------------------------------------------------------

/// The phase that a running turn is in, and the clock reading at which it
/// began.
#[derive(Debug)]
pub enum Activity<S = String> {
    WaitingForModel { since: u64 },
    Streaming { since: u64 },
    Thinking { since: u64 },
    DispatchingTool { name: S, since: u64 },
}

pub open spec fn activity_view(a: Activity<String>) -> Activity<Seq<char>> {
    match a {
        Activity::WaitingForModel { since } => Activity::WaitingForModel { since },
        Activity::Streaming { since } => Activity::Streaming { since },
        Activity::Thinking { since } => Activity::Thinking { since },
        Activity::DispatchingTool { name, since } => Activity::DispatchingTool { name: name@, since },
    }
}

impl Activity<Seq<char>> {
    pub open spec fn text(self) -> Seq<char> {
        match self {
            Activity::WaitingForModel { .. } => "waiting for model"@,
            Activity::Streaming { .. } => "streaming response"@,
            Activity::Thinking { .. } => "thinking"@,
            Activity::DispatchingTool { name, .. } => "running "@ + name,
        }
    }

    pub open spec fn began(self) -> u64 {
        match self {
            Activity::WaitingForModel { since } => since,
            Activity::Streaming { since } => since,
            Activity::Thinking { since } => since,
            Activity::DispatchingTool { since, .. } => since,
        }
    }
}

impl Activity<String> {
    /// What the status bar calls the phase.
    pub fn label(&self) -> (r: String)
        ensures
            r@ == activity_view(*self).text(),
    {
        match self {
            Activity::WaitingForModel { .. } => String::from_str("waiting for model"),
            Activity::Streaming { .. } => String::from_str("streaming response"),
            Activity::Thinking { .. } => String::from_str("thinking"),
            Activity::DispatchingTool { name, .. } => cat2("running ", name.as_str()),
        }
    }

    /// When the phase began.
    pub fn since(&self) -> (r: u64)
        ensures
            r == activity_view(*self).began(),
    {
        match self {
            Activity::WaitingForModel { since } => *since,
            Activity::Streaming { since } => *since,
            Activity::Thinking { since } => *since,
            Activity::DispatchingTool { since, .. } => *since,
        }
    }
}

/// The frames of the spinner, a tenth of a second each.
pub open spec fn spinner_frames() -> Seq<char> {
    seq![
        '\u{280B}',
        '\u{2819}',
        '\u{2839}',
        '\u{2838}',
        '\u{283C}',
        '\u{2834}',
        '\u{2826}',
        '\u{2827}',
        '\u{2807}',
        '\u{280F}',
    ]
}

/// The frame to show after `elapsed` milliseconds.
pub fn spinner_frame(elapsed: u64) -> (c: char)
    ensures
        c == spinner_frames()[(elapsed as int / 100) % 10],
{
    let i: u64 = (elapsed / 100) % 10;
    if i == 0 {
        '\u{280B}'
    } else if i == 1 {
        '\u{2819}'
    } else if i == 2 {
        '\u{2839}'
    } else if i == 3 {
        '\u{2838}'
    } else if i == 4 {
        '\u{283C}'
    } else if i == 5 {
        '\u{2834}'
    } else if i == 6 {
        '\u{2826}'
    } else if i == 7 {
        '\u{2827}'
    } else if i == 8 {
        '\u{2807}'
    } else {
        '\u{280F}'
    }
}

/// A turn that runs.
#[derive(Debug)]
pub struct RunningTurn {
    pub activity: Activity,
}

pub open spec fn running_view(r: Option<RunningTurn>) -> Option<Activity<Seq<char>>> {
    match r {
        Some(t) => Some(activity_view(t.activity)),
        None => None,
    }
}

// ---------------------------------------------------------------------------
// Permission rules on display
// ---------------------------------------------------------------------------

/// The tabs of the permissions overlay.
#[derive(Debug, Clone, Copy, PartialEq, Eq, Structural)]
pub enum PermissionsTab {
    View,
    Edit,
    Audit,
}

impl Default for PermissionsTab {
    fn default() -> (r: PermissionsTab)
        ensures
            r == PermissionsTab::View,
    {
        PermissionsTab::View
    }
}

/// Where a displayed rule comes from.
#[derive(Debug)]
pub enum RuleOrigin<S = String> {
    /// The running session.
    Session,
    /// A settings file.
    File { scope: Scope, path: S, index_in_scope: usize },
    /// Built in.
    Default,
}

/// A row of the rule list.
#[derive(Debug)]
pub struct DisplayedRule<S = String, O = Option<String>> {
    pub pattern: S,
    pub action: Action,
    pub comment: O,
    pub origin: RuleOrigin<S>,
}

pub type DisplayedRuleView = DisplayedRule<Seq<char>, Option<Seq<char>>>;

pub open spec fn origin_view(o: RuleOrigin<String>) -> RuleOrigin<Seq<char>> {
    match o {
        RuleOrigin::Session => RuleOrigin::Session,
        RuleOrigin::File { scope, path, index_in_scope } => RuleOrigin::File {
            scope,
            path: path@,
            index_in_scope,
        },
        RuleOrigin::Default => RuleOrigin::Default,
    }
}

impl View for DisplayedRule<String, Option<String>> {
    type V = DisplayedRule<Seq<char>, Option<Seq<char>>>;

    open spec fn view(&self) -> DisplayedRule<Seq<char>, Option<Seq<char>>> {
        DisplayedRule {
            pattern: self.pattern@,
            action: self.action,
            comment: opt_text(self.comment),
            origin: origin_view(self.origin),
        }
    }
}

pub open spec fn displayed_view(v: Seq<DisplayedRule>) -> Seq<DisplayedRuleView> {
    Seq::new(v.len(), |i: int| v[i]@)
}

fn push_displayed(v: &mut Vec<DisplayedRule>, d: DisplayedRule)
    ensures
        final(v)@ == old(v)@.push(d),
        displayed_view(final(v)@) == displayed_view(old(v)@).push(d@),
{
    let ghost before = v@;
    v.push(d);
    assert(displayed_view(v@) =~= displayed_view(before).push(d@));
}

/// The rules that are not kept by the session: those of the settings files,
/// in the order of their scopes, and the built-in ones.
#[derive(Debug)]
pub struct RuleSources {
    pub file: Vec<FileRule>,
    pub defaults: Vec<DefaultRule>,
}

#[verifier::ext_equal]
pub struct RuleSourcesView {
    pub file: Seq<FileRule<Seq<char>, Option<Seq<char>>>>,
    pub defaults: Seq<DefaultRule<Seq<char>, Option<Seq<char>>>>,
}

impl View for RuleSources {
    type V = RuleSourcesView;

    open spec fn view(&self) -> RuleSourcesView {
        RuleSourcesView {
            file: file_rules_view(self.file@),
            defaults: default_rules_view(self.defaults@),
        }
    }
}

/// A rule of a file says what a session rule says.
pub open spec fn mirrored_by(
    f: FileRule<Seq<char>, Option<Seq<char>>>,
    r: RuntimeRule<Seq<char>>,
) -> bool {
    f.path is Some && f.pattern == r.pattern && f.action == r.action
}

/// Some rule of a file says what a session rule says.
pub open spec fn mirrored(
    file: Seq<FileRule<Seq<char>, Option<Seq<char>>>>,
    r: RuntimeRule<Seq<char>>,
) -> bool {
    exists|i: int| 0 <= i < file.len() && mirrored_by(#[trigger] file[i], r)
}

/// The session rules that no file repeats, by their positions among the
/// session rules.
pub open spec fn own_rules(
    runtime: Seq<RuntimeRule<Seq<char>>>,
    file: Seq<FileRule<Seq<char>, Option<Seq<char>>>>,
) -> Seq<int>
    decreases runtime.len(),
{
    if runtime.len() == 0 {
        Seq::empty()
    } else {
        let before = own_rules(runtime.drop_last(), file);
        if mirrored(file, runtime.last()) {
            before
        } else {
            before.push(runtime.len() - 1)
        }
    }
}

pub open spec fn session_row(r: RuntimeRule<Seq<char>>) -> DisplayedRuleView {
    DisplayedRule {
        pattern: r.pattern,
        action: r.action,
        comment: None,
        origin: RuleOrigin::Session,
    }
}

pub open spec fn session_rows(
    runtime: Seq<RuntimeRule<Seq<char>>>,
    file: Seq<FileRule<Seq<char>, Option<Seq<char>>>>,
) -> Seq<DisplayedRuleView> {
    Seq::new(
        own_rules(runtime, file).len(),
        |i: int| session_row(runtime[own_rules(runtime, file)[i]]),
    )
}

pub open spec fn file_row(f: FileRule<Seq<char>, Option<Seq<char>>>) -> DisplayedRuleView {
    DisplayedRule {
        pattern: f.pattern,
        action: f.action,
        comment: f.comment,
        origin: RuleOrigin::File {
            scope: f.scope,
            path: f.path->0,
            index_in_scope: f.index_in_scope,
        },
    }
}

/// The rules that stand in a file; one given on the command line stands in
/// none.
pub open spec fn file_rows(file: Seq<FileRule<Seq<char>, Option<Seq<char>>>>) -> Seq<
    DisplayedRuleView,
>
    decreases file.len(),
{
    if file.len() == 0 {
        Seq::empty()
    } else {
        let before = file_rows(file.drop_last());
        if file.last().path is Some {
            before.push(file_row(file.last()))
        } else {
            before
        }
    }
}

pub open spec fn default_rows(defaults: Seq<DefaultRule<Seq<char>, Option<Seq<char>>>>) -> Seq<
    DisplayedRuleView,
> {
    Seq::new(
        defaults.len(),
        |i: int|
            DisplayedRule {
                pattern: defaults[i].pattern,
                action: defaults[i].action,
                comment: defaults[i].comment,
                origin: RuleOrigin::Default,
            },
    )
}

/// The rules on display: those of the session that no file repeats, those of
/// the files, the built-in ones.
pub open spec fn displayed(runtime: Seq<RuntimeRule<Seq<char>>>, rules: RuleSourcesView) -> Seq<
    DisplayedRuleView,
> {
    session_rows(runtime, rules.file) + file_rows(rules.file) + default_rows(rules.defaults)
}

fn action_eq(a: Action, b: Action) -> (r: bool)
    ensures
        r == (a == b),
{
    a == b
}

fn mirrors(file: &Vec<FileRule>, r: &RuntimeRule) -> (b: bool)
    ensures
        b == mirrored(file_rules_view(file@), rule_view(*r)),
{
    let ghost all = file_rules_view(file@);
    let mut i: usize = 0;
    while i < file.len()
        invariant
            i <= file@.len(),
            all == file_rules_view(file@),
            forall|k: int| 0 <= k < i ==> !mirrored_by(#[trigger] all[k], rule_view(*r)),
        decreases file@.len() - i,
    {
        assert(all[i as int] == file@[i as int]@);
        if file[i].path.is_some() && same(file[i].pattern.as_str(), r.pattern.as_str()) && action_eq(
            file[i].action,
            r.action,
        ) {
            assert(mirrored_by(all[i as int], rule_view(*r)));
            return true;
        }
        i = i + 1;
    }
    false
}

proof fn lemma_own_rules(
    runtime: Seq<RuntimeRule<Seq<char>>>,
    file: Seq<FileRule<Seq<char>, Option<Seq<char>>>>,
)
    ensures
        own_rules(runtime, file).len() <= runtime.len(),
        forall|i: int|
            0 <= i < own_rules(runtime, file).len() ==> 0 <= #[trigger] own_rules(runtime, file)[i]
                < runtime.len() && !mirrored(file, runtime[own_rules(runtime, file)[i]]),
        forall|i: int, j: int|
            0 <= i < j < own_rules(runtime, file).len() ==> #[trigger] own_rules(runtime, file)[i]
                < #[trigger] own_rules(runtime, file)[j],
    decreases runtime.len(),
{
    if runtime.len() > 0 {
        let front = runtime.drop_last();
        let before = own_rules(front, file);
        let all = own_rules(runtime, file);
        lemma_own_rules(front, file);
        assert forall|i: int| 0 <= i < all.len() implies 0 <= #[trigger] all[i] < runtime.len()
            && !mirrored(file, runtime[all[i]]) by {
            if i < before.len() {
                assert(all[i] == before[i]);
                assert(front[before[i]] == runtime[before[i]]);
            }
        }
        assert forall|i: int, j: int| 0 <= i < j < all.len() implies #[trigger] all[i]
            < #[trigger] all[j] by {
            assert(all[i] == before[i]);
            if j < before.len() {
                assert(all[j] == before[j]);
            }
        }
    }
}

/// The positions of the session rules that are on display.
pub fn own_rule_positions(runtime: &Vec<RuntimeRule>, file: &Vec<FileRule>) -> (out: Vec<usize>)
    ensures
        out@.len() == own_rules(rules_view(runtime@), file_rules_view(file@)).len(),
        forall|i: int|
            0 <= i < out@.len() ==> #[trigger] out@[i] as int == own_rules(
                rules_view(runtime@),
                file_rules_view(file@),
            )[i] && out@[i] < runtime@.len(),
{
    let ghost all = rules_view(runtime@);
    let ghost files = file_rules_view(file@);
    let mut out: Vec<usize> = Vec::new();
    let mut i: usize = 0;
    while i < runtime.len()
        invariant
            i <= runtime@.len(),
            all == rules_view(runtime@),
            files == file_rules_view(file@),
            out@.len() == own_rules(all.take(i as int), files).len(),
            forall|k: int|
                0 <= k < out@.len() ==> #[trigger] out@[k] as int == own_rules(
                    all.take(i as int),
                    files,
                )[k] && out@[k] < i,
        decreases runtime@.len() - i,
    {
        assert(all.take(i + 1).drop_last() =~= all.take(i as int));
        assert(all.take(i + 1).last() == rule_view(runtime@[i as int]));
        if !mirrors(file, &runtime[i]) {
            out.push(i);
        }
        i = i + 1;
    }
    assert(all.take(all.len() as int) =~= all);
    out
}

/// The rule list as the permissions overlay shows it.
pub fn displayed_rules(runtime: &Vec<RuntimeRule>, rules: &RuleSources) -> (out: Vec<DisplayedRule>)
    ensures
        displayed_view(out@) == displayed(rules_view(runtime@), rules@),
{
    let ghost all = rules_view(runtime@);
    let ghost files = rules@.file;
    let ghost own = own_rules(all, files);
    let ghost head = session_rows(all, files);
    let positions = own_rule_positions(runtime, &rules.file);
    let mut out: Vec<DisplayedRule> = Vec::new();
    let mut i: usize = 0;
    assert(displayed_view(out@) =~= head.take(0));
    while i < positions.len()
        invariant
            i <= positions@.len(),
            all == rules_view(runtime@),
            own == own_rules(all, files),
            head == session_rows(all, files),
            positions@.len() == own.len(),
            forall|k: int|
                0 <= k < positions@.len() ==> #[trigger] positions@[k] as int == own[k]
                    && positions@[k] < runtime@.len(),
            displayed_view(out@) == head.take(i as int),
        decreases positions@.len() - i,
    {
        let p: usize = positions[i];
        let d = DisplayedRule {
            pattern: runtime[p].pattern.clone(),
            action: runtime[p].action,
            comment: None,
            origin: RuleOrigin::Session,
        };
        assert(d@ == head[i as int]);
        push_displayed(&mut out, d);
        i = i + 1;
        assert(head.take(i as int) =~= head.take(i - 1).push(head[i - 1]));
    }
    assert(head.take(head.len() as int) =~= head);
    let mut j: usize = 0;
    assert(head =~= head + file_rows(files.take(0)));
    while j < rules.file.len()
        invariant
            j <= rules.file@.len(),
            files == rules@.file,
            displayed_view(out@) == head + file_rows(files.take(j as int)),
        decreases rules.file@.len() - j,
    {
        let f = &rules.file[j];
        let ghost before = file_rows(files.take(j as int));
        assert(files.take(j + 1).drop_last() =~= files.take(j as int));
        assert(files.take(j + 1).last() == f@);
        if let Some(path) = &f.path {
            let d = DisplayedRule {
                pattern: f.pattern.clone(),
                action: f.action,
                comment: clone_opt(&f.comment),
                origin: RuleOrigin::File {
                    scope: f.scope,
                    path: path.clone(),
                    index_in_scope: f.index_in_scope,
                },
            };
            assert(d@ == file_row(f@));
            push_displayed(&mut out, d);
            assert((head + before).push(d@) =~= head + before.push(d@));
        }
        j = j + 1;
    }
    assert(files.take(files.len() as int) =~= files);
    let ghost tail = default_rows(rules@.defaults);
    let ghost front = head + file_rows(files);
    let mut k: usize = 0;
    assert(front =~= front + tail.take(0));
    while k < rules.defaults.len()
        invariant
            k <= rules.defaults@.len(),
            tail == default_rows(rules@.defaults),
            displayed_view(out@) == front + tail.take(k as int),
        decreases rules.defaults@.len() - k,
    {
        let r = &rules.defaults[k];
        assert(rules@.defaults[k as int] == r@);
        let d = DisplayedRule {
            pattern: r.pattern.clone(),
            action: r.action,
            comment: clone_opt(&r.comment),
            origin: RuleOrigin::Default,
        };
        assert(d@ == tail[k as int]);
        push_displayed(&mut out, d);
        k = k + 1;
        assert(tail.take(k as int) =~= tail.take(k - 1).push(tail[k - 1]));
        assert((front + tail.take(k - 1)).push(d@) =~= front + tail.take(k - 1).push(d@));
    }
    assert(tail.take(tail.len() as int) =~= tail);
    out
}

/// Which sources the rule list shows.
#[derive(Debug, Clone, Copy, PartialEq, Eq, Structural)]
pub enum SourceFilter {
    All,
    Session,
    Local,
    Project,
    User,
    Managed,
    BuiltIn,
}

/// Where the permissions overlay stands.
#[derive(Debug)]
pub struct PermissionsOverlayState<S = String> {
    pub tab: PermissionsTab,
    /// Row of the rule list.
    pub cursor: usize,
    pub filter: S,
    pub source_filter: SourceFilter,
}

impl View for PermissionsOverlayState<String> {
    type V = PermissionsOverlayState<Seq<char>>;

    open spec fn view(&self) -> PermissionsOverlayState<Seq<char>> {
        PermissionsOverlayState {
            tab: self.tab,
            cursor: self.cursor,
            filter: self.filter@,
            source_filter: self.source_filter,
        }
    }
}

pub open spec fn first_tab() -> PermissionsOverlayState<Seq<char>> {
    PermissionsOverlayState {
        tab: PermissionsTab::View,
        cursor: 0,
        filter: Seq::empty(),
        source_filter: SourceFilter::All,
    }
}

impl Default for PermissionsOverlayState<String> {
    fn default() -> (r: PermissionsOverlayState<String>)
        ensures
            r@ == first_tab(),
    {
        let r = PermissionsOverlayState {
            tab: PermissionsTab::View,
            cursor: 0,
            filter: String::new(),
            source_filter: SourceFilter::All,
        };
        assert(r@.filter =~= Seq::<char>::empty());
        r
    }
}

/// The pane in which a call is tried against the rules.
#[derive(Debug)]
pub struct PermissionsTestPane<S = String, O = Option<String>> {
    pub tool_name: S,
    pub input_json: S,
    pub last_outcome: O,
    /// The field that is edited: the tool's name, then its input.
    pub focus: usize,
}

pub type TestPaneView = PermissionsTestPane<Seq<char>, Option<Seq<char>>>;

impl View for PermissionsTestPane<String, Option<String>> {
    type V = PermissionsTestPane<Seq<char>, Option<Seq<char>>>;

    open spec fn view(&self) -> PermissionsTestPane<Seq<char>, Option<Seq<char>>> {
        PermissionsTestPane {
            tool_name: self.tool_name@,
            input_json: self.input_json@,
            last_outcome: opt_text(self.last_outcome),
            focus: self.focus,
        }
    }
}

pub open spec fn empty_pane() -> TestPaneView {
    PermissionsTestPane {
        tool_name: Seq::empty(),
        input_json: Seq::empty(),
        last_outcome: None,
        focus: 0,
    }
}

impl Default for PermissionsTestPane<String, Option<String>> {
    fn default() -> (r: PermissionsTestPane<String, Option<String>>)
        ensures
            r@ == empty_pane(),
    {
        let r = PermissionsTestPane {
            tool_name: String::new(),
            input_json: String::new(),
            last_outcome: None,
            focus: 0,
        };
        assert(r@.tool_name =~= Seq::<char>::empty());
        assert(r@.input_json =~= Seq::<char>::empty());
        r
    }
}

// ---------------------------------------------------------------------------
// The session
// ---------------------------------------------------------------------------

/// The saved session that is worked in.
#[derive(Debug)]
pub struct Session {
    pub name: String,
    pub turn_count: usize,
    pub input_tokens: u32,
    pub output_tokens: u32,
    pub messages: Vec<Message>,
    pub plan_mode: bool,
    /// The tasks, as the agent keeps them.
    pub todos: Vec<String>,
}

#[verifier::ext_equal]
pub struct SessionView {
    pub name: Seq<char>,
    pub turn_count: usize,
    pub input_tokens: u32,
    pub output_tokens: u32,
    pub messages: Seq<MessageView>,
    pub plan_mode: bool,
    pub todos: Seq<Seq<char>>,
}

impl View for Session {
    type V = SessionView;

    open spec fn view(&self) -> SessionView {
        SessionView {
            name: self.name@,
            turn_count: self.turn_count,
            input_tokens: self.input_tokens,
            output_tokens: self.output_tokens,
            messages: messages_view(self.messages@),
            plan_mode: self.plan_mode,
            todos: texts(self.todos@),
        }
    }
}

pub open spec fn opt_session(o: Option<Session>) -> Option<SessionView> {
    match o {
        Some(s) => Some(s@),
        None => None,
    }
}

/// The prompts among some messages: the text blocks of each message of the
/// user, parted by line feeds.
pub open spec fn prompts_of(messages: Seq<MessageView>) -> Seq<Seq<char>>
    decreases messages.len(),
{
    if messages.len() == 0 {
        Seq::empty()
    } else {
        let before = prompts_of(messages.drop_last());
        if messages.last().role == Role::User {
            before.push(join(block_texts(messages.last().content), "\n"@))
        } else {
            before
        }
    }
}

/// Appends the prompts among some messages to `out`.
pub fn append_prompts(messages: &Vec<Message>, out: &mut Vec<String>)
    ensures
        texts(final(out)@) == texts(old(out)@) + prompts_of(messages_view(messages@)),
{
    let ghost all = messages_view(messages@);
    let ghost start = texts(out@);
    let mut i: usize = 0;
    assert(start =~= start + prompts_of(all.take(0)));
    while i < messages.len()
        invariant
            i <= messages@.len(),
            all == messages_view(messages@),
            texts(out@) == start + prompts_of(all.take(i as int)),
        decreases messages@.len() - i,
    {
        let ghost before = prompts_of(all.take(i as int));
        assert(all.take(i + 1).drop_last() =~= all.take(i as int));
        assert(all.take(i + 1).last() == messages@[i as int]@);
        if messages[i].role == Role::User {
            let parts = texts_of_blocks(&messages[i].content);
            let prompt = join_texts(&parts, "\n");
            assert((start + before).push(prompt@) =~= start + before.push(prompt@));
            push_text(out, prompt);
        }
        i = i + 1;
    }
    assert(all.take(all.len() as int) =~= all);
}

// ---------------------------------------------------------------------------
// The whole state
// ---------------------------------------------------------------------------

/// All that the front end remembers. Clock readings are in milliseconds.
#[derive(Debug)]
pub struct App {
    pub session: Option<Session>,
    /// Whether there is a place to save sessions in.
    pub session_store: bool,
    /// Whether the session is not to be saved.
    pub no_save: bool,
    pub cwd: String,
    pub system_prompt: Option<String>,
    pub transcript: Vec<TranscriptLine>,
    pub input: Input,
    /// First row of the transcript shown while it does not follow the end.
    pub scroll: u16,
    /// Follow the end of the transcript.
    pub auto_scroll: bool,
    /// Last row that can be the first one shown, as of the last frame.
    pub last_max_scroll: u16,
    pub should_exit: bool,
    pub running: Option<RunningTurn>,
    /// Prompts that wait for the running turn to end.
    pub queued: VecDeque<String>,
    /// When an Esc last emptied the queue.
    pub esc_armed_at: Option<u64>,
    pub mouse_selection: MouseSelection,
    /// What the last frame drew where.
    pub position_map: PositionMap,
    pub permissions: PermissionsOverlayState,
    pub permissions_test: Option<PermissionsTestPane>,
    pub view: ViewState,
    /// The conversation.
    pub messages: Vec<Message>,
    pub toast: Option<Toast>,
    /// Time to the first token of the last turn.
    pub last_turn_ttft_ms: Option<u64>,
    pub plan_mode: bool,
    pub permission_mode: PermissionMode,
    /// The operator allowed the mode that asks for nothing.
    pub bypass_latch: bool,
    /// The request that is on screen.
    pub ask_modal: Option<AskRequest>,
    /// Requests that came while another was on screen.
    pub ask_queue: VecDeque<AskRequest>,
    /// Row of the modal's actions.
    pub ask_cursor: usize,
    pub transcript_viewer: TranscriptViewerState,
    pub reverse_history: Option<ReverseHistoryState>,
    pub input_history_path: Option<String>,
    pub projects_root: Option<String>,
    /// When Esc was last pressed on an empty prompt.
    pub last_esc_at: Option<u64>,
    /// How close two presses of Esc have to be to count as a pair.
    pub esc_window_ms: u64,
    pub custom_statusline: String,
    pub slash_registry: SlashCommandRegistry,
    pub last_status_message: Option<String>,
    /// When the model or a tool last sent anything.
    pub last_delta_at: u64,
    /// Rules of this session.
    pub runtime_rules: Vec<RuntimeRule>,
    pub always_subprompt: Option<AlwaysSubprompt>,
    /// The completion menu, while it is open.
    pub menu: Option<Menu>,
}

#[verifier::ext_equal]
pub struct AppView {
    pub session: Option<SessionView>,
    pub session_store: bool,
    pub no_save: bool,
    pub cwd: Seq<char>,
    pub system_prompt: Option<Seq<char>>,
    pub transcript: Seq<TranscriptLine<Seq<char>>>,
    pub input: InputView,
    pub scroll: u16,
    pub auto_scroll: bool,
    pub last_max_scroll: u16,
    pub should_exit: bool,
    pub running: Option<Activity<Seq<char>>>,
    pub queued: Seq<Seq<char>>,
    pub esc_armed_at: Option<u64>,
    pub mouse_selection: MouseSelection,
    pub cells: Map<(int, int), char>,
    pub permissions: PermissionsOverlayState<Seq<char>>,
    pub permissions_test: Option<TestPaneView>,
    pub view: ViewState,
    pub messages: Seq<MessageView>,
    pub toast: Option<Toast<Seq<char>>>,
    pub last_turn_ttft_ms: Option<u64>,
    pub plan_mode: bool,
    pub permission_mode: PermissionMode,
    pub bypass_latch: bool,
    pub ask_modal: Option<AskRequestView>,
    pub ask_queue: Seq<AskRequestView>,
    pub ask_cursor: usize,
    pub transcript_viewer: TranscriptViewerState,
    pub reverse_history: Option<ReverseHistoryView>,
    pub input_history_path: Option<Seq<char>>,
    pub projects_root: Option<Seq<char>>,
    pub last_esc_at: Option<u64>,
    pub esc_window_ms: u64,
    pub custom_statusline: Seq<char>,
    pub commands: Seq<SlashCommand>,
    pub last_status_message: Option<Seq<char>>,
    pub last_delta_at: u64,
    pub runtime_rules: Seq<RuntimeRule<Seq<char>>>,
    pub always_subprompt: Option<SubpromptView>,
    pub menu: Option<MenuView>,
}

pub open spec fn opt_toast(o: Option<Toast>) -> Option<Toast<Seq<char>>> {
    match o {
        Some(t) => Some(t@),
        None => None,
    }
}

pub open spec fn opt_pane(o: Option<PermissionsTestPane>) -> Option<TestPaneView> {
    match o {
        Some(p) => Some(p@),
        None => None,
    }
}

pub open spec fn opt_request(o: Option<AskRequest>) -> Option<AskRequestView> {
    match o {
        Some(r) => Some(r@),
        None => None,
    }
}

pub open spec fn opt_search(o: Option<ReverseHistoryState>) -> Option<ReverseHistoryView> {
    match o {
        Some(s) => Some(s@),
        None => None,
    }
}

pub open spec fn opt_subprompt(o: Option<AlwaysSubprompt>) -> Option<SubpromptView> {
    match o {
        Some(s) => Some(s@),
        None => None,
    }
}

impl View for App {
    type V = AppView;

    open spec fn view(&self) -> AppView {
        AppView {
            session: opt_session(self.session),
            session_store: self.session_store,
            no_save: self.no_save,
            cwd: self.cwd@,
            system_prompt: opt_text(self.system_prompt),
            transcript: transcript_view(self.transcript@),
            input: self.input@,
            scroll: self.scroll,
            auto_scroll: self.auto_scroll,
            last_max_scroll: self.last_max_scroll,
            should_exit: self.should_exit,
            running: running_view(self.running),
            queued: texts(self.queued@),
            esc_armed_at: self.esc_armed_at,
            mouse_selection: self.mouse_selection,
            cells: self.position_map@,
            permissions: self.permissions@,
            permissions_test: opt_pane(self.permissions_test),
            view: self.view,
            messages: messages_view(self.messages@),
            toast: opt_toast(self.toast),
            last_turn_ttft_ms: self.last_turn_ttft_ms,
            plan_mode: self.plan_mode,
            permission_mode: self.permission_mode,
            bypass_latch: self.bypass_latch,
            ask_modal: opt_request(self.ask_modal),
            ask_queue: requests_view(self.ask_queue@),
            ask_cursor: self.ask_cursor,
            transcript_viewer: self.transcript_viewer,
            reverse_history: opt_search(self.reverse_history),
            input_history_path: opt_text(self.input_history_path),
            projects_root: opt_text(self.projects_root),
            last_esc_at: self.last_esc_at,
            esc_window_ms: self.esc_window_ms,
            custom_statusline: self.custom_statusline@,
            commands: self.slash_registry@,
            last_status_message: opt_text(self.last_status_message),
            last_delta_at: self.last_delta_at,
            runtime_rules: rules_view(self.runtime_rules@),
            always_subprompt: opt_subprompt(self.always_subprompt),
            menu: opt_menu(self.menu),
        }
    }
}

impl AppView {
    /// With an entry at the end of the transcript.
    pub open spec fn said(self, l: TranscriptLine<Seq<char>>) -> AppView {
        AppView { transcript: self.transcript.push(l), ..self }
    }

    pub open spec fn informed(self, text: Seq<char>) -> AppView {
        self.said(TranscriptLine::Info(text))
    }

    /// With an information line for each text.
    pub open spec fn informed_all(self, lines: Seq<Seq<char>>) -> AppView {
        AppView {
            transcript: self.transcript + Seq::new(lines.len(), |i: int| TranscriptLine::Info(lines[i])),
            ..self
        }
    }

    pub open spec fn failed(self, text: Seq<char>) -> AppView {
        self.said(TranscriptLine::Error(text))
    }

    /// With a notice above the prompt.
    pub open spec fn noticed(self, t: Toast<Seq<char>>) -> AppView {
        AppView { toast: Some(t), ..self }
    }

    /// Whether the session is saved when a run ends.
    pub open spec fn saves(self) -> bool {
        self.session is Some && self.session_store && !self.no_save
    }

    /// With another conversation, in the session too.
    pub open spec fn conversing(self, messages: Seq<MessageView>) -> AppView {
        AppView {
            messages,
            session: match self.session {
                Some(s) => Some(SessionView { messages, ..s }),
                None => None,
            },
            ..self
        }
    }

    pub open spec fn showing(self, v: ViewState) -> AppView {
        AppView { view: v, ..self }
    }

    pub open spec fn typing(self, input: InputView) -> AppView {
        AppView { input, ..self }
    }
}

/// What the program starts with.
#[derive(Debug)]
pub struct Startup {
    pub session: Option<Session>,
    /// Whether there is a place to save sessions in.
    pub session_store: bool,
    /// Whether the session is not to be saved.
    pub no_save: bool,
    pub cwd: String,
    pub system_prompt: Option<String>,
    pub plan_mode: bool,
    pub permission_mode: PermissionMode,
    pub bypass_latch: bool,
    /// Prompts kept from earlier sessions in this project, oldest first.
    pub saved_history: Vec<String>,
    pub input_history_path: Option<String>,
    pub projects_root: Option<String>,
    pub esc_window_ms: u64,
}

/// The conversation of a session; none without one.
pub open spec fn conversation(session: Option<SessionView>) -> Seq<MessageView> {
    match session {
        Some(s) => s.messages,
        None => Seq::empty(),
    }
}

/// The state that a start leads to.
pub open spec fn started(s: Startup, now: u64) -> AppView {
    AppView {
        session: opt_session(s.session),
        session_store: s.session_store,
        no_save: s.no_save,
        cwd: s.cwd@,
        system_prompt: opt_text(s.system_prompt),
        transcript: Seq::empty(),
        input: InputView::over(
            texts(s.saved_history@) + prompts_of(conversation(opt_session(s.session))),
        ),
        scroll: 0,
        auto_scroll: true,
        last_max_scroll: 0,
        should_exit: false,
        running: None,
        queued: Seq::empty(),
        esc_armed_at: None,
        mouse_selection: MouseSelection::Idle,
        cells: Map::empty(),
        permissions: first_tab(),
        permissions_test: None,
        view: ViewState::Main,
        messages: conversation(opt_session(s.session)),
        toast: None,
        last_turn_ttft_ms: None,
        plan_mode: s.plan_mode,
        permission_mode: s.permission_mode,
        bypass_latch: s.bypass_latch,
        ask_modal: None,
        ask_queue: Seq::empty(),
        ask_cursor: 0,
        transcript_viewer: TranscriptViewerState { scroll: 0, show_all: false, show_help: false },
        reverse_history: None,
        input_history_path: opt_text(s.input_history_path),
        projects_root: opt_text(s.projects_root),
        last_esc_at: None,
        esc_window_ms: s.esc_window_ms,
        custom_statusline: Seq::empty(),
        commands: builtin_commands(),
        last_status_message: None,
        last_delta_at: now,
        runtime_rules: Seq::empty(),
        always_subprompt: None,
        menu: None,
    }
}

impl App {
    /// The prompt's cursor, the recorded cells and the commands are in order.
    pub open spec fn wf(&self) -> bool {
        &&& self.input.wf()
        &&& self.position_map.wf()
        &&& self.slash_registry.wf()
    }

    /// The state at the start.
    pub fn new(start: Startup, now: u64) -> (r: App)
        ensures
            r.wf(),
            r@ == started(start, now),
    {
        let mut history = start.saved_history;
        let messages = match &start.session {
            Some(s) => {
                append_prompts(&s.messages, &mut history);
                clone_messages(&s.messages)
            },
            None => {
                assert(texts(history@) =~= texts(history@) + prompts_of(Seq::empty()));
                let m: Vec<Message> = Vec::new();
                assert(messages_view(m@) =~= Seq::<MessageView>::empty());
                m
            },
        };
        let r = App {
            session: start.session,
            session_store: start.session_store,
            no_save: start.no_save,
            cwd: start.cwd,
            system_prompt: start.system_prompt,
            transcript: Vec::new(),
            input: Input::from_history(history),
            scroll: 0,
            auto_scroll: true,
            last_max_scroll: 0,
            should_exit: false,
            running: None,
            queued: VecDeque::new(),
            esc_armed_at: None,
            mouse_selection: MouseSelection::default(),
            position_map: PositionMap::new(),
            permissions: PermissionsOverlayState::default(),
            permissions_test: None,
            view: ViewState::Main,
            messages,
            toast: None,
            last_turn_ttft_ms: None,
            plan_mode: start.plan_mode,
            permission_mode: start.permission_mode,
            bypass_latch: start.bypass_latch,
            ask_modal: None,
            ask_queue: VecDeque::new(),
            ask_cursor: 0,
            transcript_viewer: TranscriptViewerState::default(),
            reverse_history: None,
            input_history_path: start.input_history_path,
            projects_root: start.projects_root,
            last_esc_at: None,
            esc_window_ms: start.esc_window_ms,
            custom_statusline: String::new(),
            slash_registry: register_builtin(),
            last_status_message: None,
            last_delta_at: now,
            runtime_rules: Vec::new(),
            always_subprompt: None,
            menu: None,
        };
        assert(r@ =~= started(start, now)) by {
            assert(r@.transcript =~= started(start, now).transcript);
            assert(r@.queued =~= started(start, now).queued);
            assert(r@.ask_queue =~= started(start, now).ask_queue);
            assert(r@.custom_statusline =~= started(start, now).custom_statusline);
            assert(r@.runtime_rules =~= started(start, now).runtime_rules);
        }
        r
    }

    /// Appends an entry to the transcript.
    pub fn say(&mut self, l: TranscriptLine)
        requires
            old(self).wf(),
        ensures
            final(self).wf(),
            final(self)@ == old(self)@.said(l@),
    {
        push_entry(&mut self.transcript, l);
    }

    /// Appends an information line to the transcript.
    pub fn inform(&mut self, text: &str)
        requires
            old(self).wf(),
        ensures
            final(self).wf(),
            final(self)@ == old(self)@.informed(text@),
    {
        self.say(TranscriptLine::Info(String::from_str(text)));
    }

    /// Appends an information line for each text.
    pub fn inform_all(&mut self, lines: &Vec<String>)
        requires
            old(self).wf(),
        ensures
            final(self).wf(),
            final(self)@ == old(self)@.informed_all(texts(lines@)),
    {
        let ghost start = self@;
        let ghost all: Seq<TranscriptLine<Seq<char>>> = Seq::new(
            lines@.len(),
            |i: int| TranscriptLine::Info(texts(lines@)[i]),
        );
        let mut i: usize = 0;
        assert(start.transcript =~= start.transcript + all.take(0));
        while i < lines.len()
            invariant
                i <= lines@.len(),
                self.wf(),
                all == Seq::new(
                    lines@.len(),
                    |i: int| TranscriptLine::<Seq<char>>::Info(texts(lines@)[i]),
                ),
                self@ == (AppView { transcript: start.transcript + all.take(i as int), ..start }),
            decreases lines@.len() - i,
        {
            self.inform(lines[i].as_str());
            i = i + 1;
            assert(all.take(i as int) =~= all.take(i - 1).push(all[i - 1]));
            assert((start.transcript + all.take(i - 1)).push(all[i - 1]) =~= start.transcript
                + all.take(i as int));
        }
        assert(all.take(lines@.len() as int) =~= all);
        assert(self@.transcript =~= start.informed_all(texts(lines@)).transcript);
    }

    /// Appends an error line to the transcript.
    pub fn fail(&mut self, text: &str)
        requires
            old(self).wf(),
        ensures
            final(self).wf(),
            final(self)@ == old(self)@.failed(text@),
    {
        self.say(TranscriptLine::Error(String::from_str(text)));
    }

    /// Puts another conversation in place of this one, in the session too.
    pub fn converse(&mut self, messages: &Vec<Message>)
        requires
            old(self).wf(),
        ensures
            final(self).wf(),
            final(self)@ == old(self)@.conversing(messages_view(messages@)),
    {
        self.messages = clone_messages(messages);
        match &mut self.session {
            Some(s) => {
                s.messages = clone_messages(messages);
            },
            None => {},
        }
    }

    /// The rule list as the permissions overlay shows it.
    pub fn displayed_rules(&self, rules: &RuleSources) -> (out: Vec<DisplayedRule>)
        ensures
            displayed_view(out@) == displayed(self@.runtime_rules, rules@),
    {
        displayed_rules(&self.runtime_rules, rules)
    }

    /// The working directory with the home directory as a tilde.
    /// `below_home` is its path below the home directory, where it lies there.
    pub fn cwd_display(&self, below_home: Option<&str>) -> (r: String)
        ensures
            r@ == shown_cwd(self@.cwd, below_home),
    {
        match below_home {
            Some(p) => if p.is_empty() {
                String::from_str("~")
            } else {
                cat2("~/", p)
            },
            None => self.cwd.clone(),
        }
    }
}

pub open spec fn shown_cwd(cwd: Seq<char>, below_home: Option<&str>) -> Seq<char> {
    match below_home {
        Some(p) => if p@.len() == 0 {
            "~"@
        } else {
            "~/"@ + p@
        },
        None => cwd,
    }
}

/// How hard the model is to think.
#[derive(Debug, Clone, Copy, PartialEq, Eq, Structural)]
pub enum Effort {
    Low,
    Medium,
    High,
    Max,
    Auto,
}

impl Effort {
    pub open spec fn text(self) -> Seq<char> {
        match self {
            Effort::Low => "low"@,
            Effort::Medium => "medium"@,
            Effort::High => "high"@,
            Effort::Max => "max"@,
            Effort::Auto => "auto"@,
        }
    }

    pub fn label(self) -> (r: &'static str)
        ensures
            r@ == self.text(),
    {
        match self {
            Effort::Low => "low",
            Effort::Medium => "medium",
            Effort::High => "high",
            Effort::Max => "max",
            Effort::Auto => "auto",
        }
    }
}

/// What a custom status line script is told.
#[derive(Debug)]
pub struct StatuslineContext<S = String> {
    pub model: S,
    pub cost_usd: S,
    pub permission_mode: S,
    pub effort: S,
    pub workspace_root: S,
    pub session_id: S,
    pub turn_count: usize,
}

impl View for StatuslineContext<String> {
    type V = StatuslineContext<Seq<char>>;

    open spec fn view(&self) -> StatuslineContext<Seq<char>> {
        StatuslineContext {
            model: self.model@,
            cost_usd: self.cost_usd@,
            permission_mode: self.permission_mode@,
            effort: self.effort@,
            workspace_root: self.workspace_root@,
            session_id: self.session_id@,
            turn_count: self.turn_count,
        }
    }
}

pub open spec fn told(app: AppView, model: Seq<char>, cost_usd: Seq<char>, effort: Effort) -> StatuslineContext<Seq<char>> {
    StatuslineContext {
        model,
        cost_usd,
        permission_mode: app.permission_mode.name(),
        effort: effort.text(),
        workspace_root: app.cwd,
        session_id: match app.session {
            Some(s) => s.name,
            None => Seq::empty(),
        },
        turn_count: match app.session {
            Some(s) => s.turn_count,
            None => 0,
        },
    }
}

impl App {
    /// What a custom status line script is told; `cost_usd` is the cost so
    /// far with four decimals.
    pub fn statusline_context(&self, model: &str, cost_usd: &str, effort: Effort) -> (r: StatuslineContext)
        ensures
            r@ == told(self@, model@, cost_usd@, effort),
    {
        let (session_id, turn_count) = match &self.session {
            Some(s) => (s.name.clone(), s.turn_count),
            None => (String::new(), 0),
        };
        let r = StatuslineContext {
            model: String::from_str(model),
            cost_usd: String::from_str(cost_usd),
            permission_mode: String::from_str(self.permission_mode.chip()),
            effort: String::from_str(effort.label()),
            workspace_root: self.cwd.clone(),
            session_id,
            turn_count,
        };
        assert(r@.session_id =~= told(self@, model@, cost_usd@, effort).session_id);
        r
    }
}

/// A session rule that a file repeats is shown once, as the file's: no row
/// of the session mirrors a rule of a file, and the file's own row stands.
pub proof fn law_mirrored_rules_show_once(
    runtime: Seq<RuntimeRule<Seq<char>>>,
    rules: RuleSourcesView,
    i: int,
)
    requires
        0 <= i < displayed(runtime, rules).len(),
    ensures
        displayed(runtime, rules)[i].origin is Session ==> !mirrored(
            rules.file,
            RuntimeRule {
                pattern: displayed(runtime, rules)[i].pattern,
                action: displayed(runtime, rules)[i].action,
            },
        ),
{
    let own = own_rules(runtime, rules.file);
    let head = session_rows(runtime, rules.file);
    let mid = file_rows(rules.file);
    lemma_own_rules(runtime, rules.file);
    lemma_file_rows(rules.file);
    let all = displayed(runtime, rules);
    if i < head.len() {
        assert(all[i] == head[i]);
        let r = runtime[own[i]];
        assert(head[i] == session_row(r));
        assert(!mirrored(rules.file, r));
        assert(r == RuntimeRule { pattern: all[i].pattern, action: all[i].action });
    } else if i < head.len() + mid.len() {
        assert(all[i] == mid[i - head.len()]);
    } else {
        assert(all[i] == default_rows(rules.defaults)[i - head.len() - mid.len()]);
    }
}

pub proof fn lemma_file_rows(file: Seq<FileRule<Seq<char>, Option<Seq<char>>>>)
    ensures
        forall|i: int|
            0 <= i < file_rows(file).len() ==> (#[trigger] file_rows(file)[i]).origin is File,
    decreases file.len(),
{
    if file.len() > 0 {
        let before = file_rows(file.drop_last());
        lemma_file_rows(file.drop_last());
        assert forall|i: int| 0 <= i < file_rows(file).len() implies (#[trigger] file_rows(
            file,
        )[i]).origin is File by {
            if i < before.len() {
                assert(file_rows(file)[i] == before[i]);
            }
        }
    }
}

/// Every rule of a file stays on display, whatever the session holds.
pub proof fn law_file_rules_stay_on_display(
    runtime: Seq<RuntimeRule<Seq<char>>>,
    rules: RuleSourcesView,
    i: int,
)
    requires
        0 <= i < rules.file.len(),
        rules.file[i].path is Some,
    ensures
        displayed(runtime, rules).contains(file_row(rules.file[i])),
{
    lemma_file_row_present(rules.file, i);
    let mid = file_rows(rules.file);
    let j = mid.index_of(file_row(rules.file[i]));
    assert(mid.contains(file_row(rules.file[i])));
    let head = session_rows(runtime, rules.file);
    assert(displayed(runtime, rules)[head.len() + j] == mid[j]);
}

proof fn lemma_file_row_present(file: Seq<FileRule<Seq<char>, Option<Seq<char>>>>, i: int)
    requires
        0 <= i < file.len(),
        file[i].path is Some,
    ensures
        file_rows(file).contains(file_row(file[i])),
    decreases file.len(),
{
    let before = file_rows(file.drop_last());
    if i == file.len() - 1 {
        assert(file_rows(file)[before.len() as int] == file_row(file[i]));
    } else {
        lemma_file_row_present(file.drop_last(), i);
        assert(file.drop_last()[i] == file[i]);
        let j = before.index_of(file_row(file[i]));
        assert(before.contains(file_row(file[i])));
        assert(file_rows(file)[j] == before[j]);
    }
}

/// The rows of the session come first, each for a rule of the session at the
/// position that goes with it.
pub proof fn lemma_session_row_at(
    runtime: Seq<RuntimeRule<Seq<char>>>,
    rules: RuleSourcesView,
    i: int,
)
    requires
        0 <= i < displayed(runtime, rules).len(),
    ensures
        i < own_rules(runtime, rules.file).len() ==> ({
            let at = own_rules(runtime, rules.file)[i];
            &&& 0 <= at < runtime.len()
            &&& displayed(runtime, rules)[i] == session_row(runtime[at])
        }),
{
    lemma_own_rules(runtime, rules.file);
    let head = session_rows(runtime, rules.file);
    if i < head.len() {
        assert(displayed(runtime, rules)[i] == head[i]);
    }
}

/// A phase goes by its own name, a dispatched tool's by the tool, and began
/// when it says.
pub proof fn law_phases_have_their_names(a: Activity<Seq<char>>)
    ensures
        match a {
            Activity::WaitingForModel { since } => a.text() == "waiting for model"@ && a.began()
                == since,
            Activity::Streaming { since } => a.text() == "streaming response"@ && a.began()
                == since,
            Activity::Thinking { since } => a.text() == "thinking"@ && a.began() == since,
            Activity::DispatchingTool { name, since } => a.text() == "running "@ + name
                && a.began() == since,
        },
{
}

/// The spinner has ten frames, all different, and shows each for a tenth of
/// a second.
pub proof fn law_the_spinner_has_ten_frames(i: int, j: int)
    requires
        0 <= i < j < 10,
    ensures
        spinner_frames().len() == 10,
        spinner_frames()[i] != spinner_frames()[j],
        spinner_frames()[0] == '\u{280B}',
        spinner_frames()[9] == '\u{280F}',
{
    let f = spinner_frames();
    assert(f[0] == '\u{280B}' && f[1] == '\u{2819}' && f[2] == '\u{2839}' && f[3] == '\u{2838}'
        && f[4] == '\u{283C}' && f[5] == '\u{2834}' && f[6] == '\u{2826}' && f[7] == '\u{2827}'
        && f[8] == '\u{2807}' && f[9] == '\u{280F}');
}

/// A rule of the session is on display exactly where no file says the same:
/// then one of the first rows shows its pattern and its action, and all rows
/// before those of the files are such rules.
pub proof fn law_own_rules_are_on_display(
    runtime: Seq<RuntimeRule<Seq<char>>>,
    rules: RuleSourcesView,
    k: int,
)
    requires
        0 <= k < runtime.len(),
    ensures
        (exists|i: int|
            0 <= i < rules.file.len() && (#[trigger] rules.file[i]).path is Some
                && rules.file[i].pattern == runtime[k].pattern && rules.file[i].action
                == runtime[k].action) || displayed(runtime, rules).contains(
            DisplayedRule {
                pattern: runtime[k].pattern,
                action: runtime[k].action,
                comment: None,
                origin: RuleOrigin::Session,
            },
        ),
{
    if mirrored(rules.file, runtime[k]) {
        let i = choose|i: int|
            0 <= i < rules.file.len() && mirrored_by(#[trigger] rules.file[i], runtime[k]);
        assert(rules.file[i].path is Some);
    } else {
        lemma_own_rule_present(runtime, rules.file, k);
        let own = own_rules(runtime, rules.file);
        let j = choose|j: int| 0 <= j < own.len() && own[j] == k;
        let head = session_rows(runtime, rules.file);
        assert(displayed(runtime, rules)[j] == head[j]);
        assert(head[j] == session_row(runtime[k]));
    }
}

proof fn lemma_own_rule_present(
    runtime: Seq<RuntimeRule<Seq<char>>>,
    file: Seq<FileRule<Seq<char>, Option<Seq<char>>>>,
    k: int,
)
    requires
        0 <= k < runtime.len(),
        !mirrored(file, runtime[k]),
    ensures
        exists|j: int|
            0 <= j < own_rules(runtime, file).len() && #[trigger] own_rules(runtime, file)[j] == k,
    decreases runtime.len(),
{
    let own = own_rules(runtime, file);
    let before = own_rules(runtime.drop_last(), file);
    if k == runtime.len() - 1 {
        assert(own[before.len() as int] == k);
    } else {
        lemma_own_rule_present(runtime.drop_last(), file, k);
        let j = choose|j: int| 0 <= j < before.len() && #[trigger] before[j] == k;
        assert(own[j] == k);
    }
}

/// Rows are shown in the order of their sources: the session's, then those
/// of the files, then the built-in ones, each as its rule says.
pub proof fn law_sources_are_shown_in_order(
    runtime: Seq<RuntimeRule<Seq<char>>>,
    rules: RuleSourcesView,
    i: int,
    j: int,
)
    requires
        0 <= i <= j < displayed(runtime, rules).len(),
    ensures
        displayed(runtime, rules)[j].origin is Session ==> displayed(runtime, rules)[i].origin is Session,
        displayed(runtime, rules)[i].origin is Default ==> displayed(runtime, rules)[j].origin is Default,
{
    let all = displayed(runtime, rules);
    let head = session_rows(runtime, rules.file);
    let mid = file_rows(rules.file);
    let tail = default_rows(rules.defaults);
    lemma_file_rows(rules.file);
    assert forall|k: int| 0 <= k < all.len() implies {
        &&& k < head.len() ==> (#[trigger] all[k]).origin is Session
        &&& head.len() <= k < head.len() + mid.len() ==> all[k].origin is File
        &&& head.len() + mid.len() <= k ==> all[k].origin is Default
    } by {
        if k < head.len() {
            assert(all[k] == head[k]);
        } else if k < head.len() + mid.len() {
            assert(all[k] == mid[k - head.len()]);
        } else {
            assert(all[k] == tail[k - head.len() - mid.len()]);
        }
    }
    assert(all[i] == all[i]);
    assert(all[j] == all[j]);
}

/// Every built-in rule is shown, last and in its order; the row of a file's
/// rule names its file, its scope and its position.
pub proof fn law_rows_say_where_they_come_from(
    runtime: Seq<RuntimeRule<Seq<char>>>,
    rules: RuleSourcesView,
    k: int,
)
    ensures
        0 <= k < rules.defaults.len() ==> {
            let all = displayed(runtime, rules);
            &&& all.len() >= rules.defaults.len()
            &&& all[all.len() - rules.defaults.len() + k] == (DisplayedRule {
                pattern: rules.defaults[k].pattern,
                action: rules.defaults[k].action,
                comment: rules.defaults[k].comment,
                origin: RuleOrigin::Default,
            })
        },
        0 <= k < rules.file.len() && rules.file[k].path is Some ==> displayed(
            runtime,
            rules,
        ).contains(
            DisplayedRule {
                pattern: rules.file[k].pattern,
                action: rules.file[k].action,
                comment: rules.file[k].comment,
                origin: RuleOrigin::File {
                    scope: rules.file[k].scope,
                    path: rules.file[k].path->0,
                    index_in_scope: rules.file[k].index_in_scope,
                },
            },
        ),
{
    if 0 <= k < rules.file.len() && rules.file[k].path is Some {
        law_file_rules_stay_on_display(runtime, rules, k);
    }
}

/// The prompts among some messages are those of the user alone, in their
/// order, each with its text blocks parted by line feeds.
pub proof fn law_prompts_come_from_the_user(messages: Seq<MessageView>, m: MessageView)
    ensures
        prompts_of(Seq::<MessageView>::empty()).len() == 0,
        m.role == Role::User ==> prompts_of(messages.push(m)) == prompts_of(messages).push(
            join(block_texts(m.content), "\n"@),
        ),
        m.role != Role::User ==> prompts_of(messages.push(m)) == prompts_of(messages),
{
    assert(messages.push(m).drop_last() =~= messages);
}

/// What is said joins the transcript at its end, as an information or as an
/// error, and changes nothing else.
pub proof fn law_sayings_join_the_transcript(
    app: AppView,
    l: TranscriptLine<Seq<char>>,
    text: Seq<char>,
    lines: Seq<Seq<char>>,
    t: Toast<Seq<char>>,
)
    ensures
        app.said(l) == (AppView { transcript: app.transcript.push(l), ..app }),
        app.informed(text) == (AppView {
            transcript: app.transcript.push(TranscriptLine::Info(text)),
            ..app
        }),
        app.failed(text) == (AppView {
            transcript: app.transcript.push(TranscriptLine::Error(text)),
            ..app
        }),
        ({
            let after = app.informed_all(lines);
            &&& after == (AppView { transcript: after.transcript, ..app })
            &&& after.transcript.len() == app.transcript.len() + lines.len()
            &&& after.transcript.take(app.transcript.len() as int) == app.transcript
            &&& forall|i: int|
                0 <= i < lines.len() ==> #[trigger] after.transcript[app.transcript.len() + i]
                    == TranscriptLine::Info(lines[i])
        }),
        app.noticed(t) == (AppView { toast: Some(t), ..app }),
{
    let after = app.informed_all(lines);
    assert(after.transcript.take(app.transcript.len() as int) =~= app.transcript);
}

/// A conversation that takes the place of another does so in the session
/// too; it is saved exactly where there is a session, a place for it, and
/// saving is not switched off.
pub proof fn law_conversations_replace_each_other(app: AppView, messages: Seq<MessageView>)
    ensures
        ({
            let after = app.conversing(messages);
            &&& after == (AppView { messages, session: after.session, ..app })
            &&& after.session is Some == app.session is Some
            &&& app.session matches Some(s) ==> after.session->0 == (SessionView {
                messages,
                ..s
            })
        }),
        app.saves() <==> app.session is Some && app.session_store && !app.no_save,
{
}

/// The program starts with nothing said, nothing running, nothing waiting
/// and nothing open; with the conversation of its session, in the modes that
/// it was given; and recalls the prompts of earlier sessions before those of
/// this one.
pub proof fn law_a_start_is_a_clean_slate(s: Startup, now: u64)
    ensures
        ({
            let app = started(s, now);
            let messages = match s.session {
                Some(x) => messages_view(x.messages@),
                None => Seq::empty(),
            };
            &&& app.transcript.len() == 0
            &&& app.running is None
            &&& app.queued.len() == 0
            &&& app.ask_modal is None
            &&& app.ask_queue.len() == 0
            &&& app.always_subprompt is None
            &&& app.runtime_rules.len() == 0
            &&& app.menu is None
            &&& app.toast is None
            &&& app.view == ViewState::Main
            &&& app.auto_scroll
            &&& !app.should_exit
            &&& app.messages == messages
            &&& app.plan_mode == s.plan_mode
            &&& app.permission_mode == s.permission_mode
            &&& app.bypass_latch == s.bypass_latch
            &&& app.session_store == s.session_store
            &&& app.no_save == s.no_save
            &&& app.cwd == s.cwd@
            &&& app.esc_window_ms == s.esc_window_ms
            &&& app.last_delta_at == now
            &&& app.input.text.len() == 0
            &&& app.input.history == texts(s.saved_history@) + prompts_of(messages)
            &&& app.commands == builtin_commands()
        }),
{
}

/// The working directory is shown with a tilde for the home directory where
/// it lies there, and as it is elsewhere.
pub proof fn law_home_is_a_tilde(cwd: Seq<char>, below_home: Option<&str>)
    ensures
        below_home is None ==> shown_cwd(cwd, below_home) == cwd,
        below_home is Some && below_home->0@.len() == 0 ==> shown_cwd(cwd, below_home) == "~"@,
        below_home is Some && below_home->0@.len() > 0 ==> shown_cwd(cwd, below_home) == "~/"@
            + below_home->0@,
{
}

/// A status line script is told the model, the cost, the mode, the effort,
/// the directory and the session by their own values.
pub proof fn law_scripts_are_told_the_state(
    app: AppView,
    model: Seq<char>,
    cost_usd: Seq<char>,
    effort: Effort,
)
    ensures
        ({
            let c = told(app, model, cost_usd, effort);
            &&& c.model == model
            &&& c.cost_usd == cost_usd
            &&& c.permission_mode == app.permission_mode.name()
            &&& c.workspace_root == app.cwd
            &&& app.session matches Some(s) ==> c.session_id == s.name && c.turn_count
                == s.turn_count
            &&& app.session is None ==> c.session_id.len() == 0 && c.turn_count == 0
            &&& effort == Effort::Low ==> c.effort == "low"@
            &&& effort == Effort::Medium ==> c.effort == "medium"@
            &&& effort == Effort::High ==> c.effort == "high"@
            &&& effort == Effort::Max ==> c.effort == "max"@
            &&& effort == Effort::Auto ==> c.effort == "auto"@
        }),
{
}

/// The list of rules opens on its first tab and row without a filter, and a
/// test pane opens empty at its first field.
pub proof fn law_overlays_open_at_their_start(s: Startup, now: u64)
    ensures
        started(s, now).permissions.tab == PermissionsTab::View,
        started(s, now).permissions.cursor == 0,
        started(s, now).permissions.filter.len() == 0,
        started(s, now).permissions.source_filter == SourceFilter::All,
        started(s, now).permissions_test is None,
        started(s, now).ask_cursor == 0,
        started(s, now).scroll == 0,
        started(s, now).last_esc_at is None,
        started(s, now).esc_armed_at is None,
        started(s, now).reverse_history is None,
        started(s, now).last_turn_ttft_ms is None,
        started(s, now).last_status_message is None,
        started(s, now).mouse_selection == MouseSelection::Idle,
        empty_pane().tool_name.len() == 0,
        empty_pane().input_json.len() == 0,
        empty_pane().last_outcome is None,
        empty_pane().focus == 0,
{
}

} // verus!
