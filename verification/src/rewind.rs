//! Going back to an earlier prompt: which action a key asks for, what it has
//! to do, and what is told of how it went.

use vstd::prelude::*;

use crate::app::{App, AppView};
use crate::effect::{effects_view, just, nothing, Effect, EffectView};
use crate::text::{
    cat2, cat3, cat4, cat5, chars_of, decimal, decimal_u64, is_ascii_alnum, is_ascii_alnum_char,
    lemma_strip_end, lemma_strip_start, strip_both, strip_both_text, strip_end, strip_end_text,
    strip_start, take_chars, prefix,
};
use crate::toast::{toast, Toast, ToastLevel};
use crate::types::{clone_messages, messages_view, Message, MessageView};

verus! {

/// Longest name that a session may have.
pub const MAX_SESSION_NAME: usize = 64;

/// What to restore.
#[derive(Debug, Clone, Copy, PartialEq, Eq, Structural)]
pub enum RewindAction {
    /// The files that the prompt touched.
    Code,
    /// The conversation, cut off at the prompt.
    Conversation,
    /// Files and conversation.
    Both,
    /// Summarize what followed the prompt.
    SummarizeForward,
    /// Summarize what led up to the prompt.
    SummarizeBackward,
    /// A new session that branches off at the prompt.
    Fork,
}

/// An action on a checkpoint.
#[derive(Debug, Clone, Copy, PartialEq, Eq, Structural)]
pub struct RewindRequest {
    pub prompt_index: u32,
    pub action: RewindAction,
}

pub open spec fn action_of(c: char) -> Option<RewindAction> {
    if c == 'c' {
        Some(RewindAction::Code)
    } else if c == 'v' {
        Some(RewindAction::Conversation)
    } else if c == 'b' {
        Some(RewindAction::Both)
    } else if c == 's' {
        Some(RewindAction::SummarizeForward)
    } else if c == 'S' {
        Some(RewindAction::SummarizeBackward)
    } else if c == 'f' {
        Some(RewindAction::Fork)
    } else {
        None
    }
}

/// The action that a key asks for; none for keys that mean something else.
pub fn action_for_key(c: char) -> (r: Option<RewindAction>)
    ensures
        r == action_of(c),
{
    if c == 'c' {
        Some(RewindAction::Code)
    } else if c == 'v' {
        Some(RewindAction::Conversation)
    } else if c == 'b' {
        Some(RewindAction::Both)
    } else if c == 's' {
        Some(RewindAction::SummarizeForward)
    } else if c == 'S' {
        Some(RewindAction::SummarizeBackward)
    } else if c == 'f' {
        Some(RewindAction::Fork)
    } else {
        None
    }
}

/// What a checkpoint holds.
#[derive(Debug, Clone, Copy, PartialEq, Eq, Structural)]
pub enum ManifestKind {
    Plan,
    Cleared,
    Files,
}

/// A checkpoint as it is listed.
#[derive(Debug)]
pub struct PromptSummary<S = String> {
    pub prompt_index: u32,
    pub title: S,
    pub kind: ManifestKind,
    /// Time of day at which it was made.
    pub time: S,
    pub file_count: usize,
    /// Some files could not be kept.
    pub partial: bool,
}

impl View for PromptSummary<String> {
    type V = PromptSummary<Seq<char>>;

    open spec fn view(&self) -> PromptSummary<Seq<char>> {
        PromptSummary {
            prompt_index: self.prompt_index,
            title: self.title@,
            kind: self.kind,
            time: self.time@,
            file_count: self.file_count,
            partial: self.partial,
        }
    }
}

/// The checkpoint that the cursor points at in the newest-first list.
pub fn resolve_prompt_index(prompts: &Vec<PromptSummary>, cursor: usize) -> (r: Option<u32>)
    ensures
        r == (if cursor < prompts@.len() {
            Some(prompts@[cursor as int].prompt_index)
        } else {
            None
        }),
{
    if cursor < prompts.len() {
        Some(prompts[cursor].prompt_index)
    } else {
        None
    }
}

// ---------------------------------------------------------------------------
// Names for forks
// ---------------------------------------------------------------------------

/// A character that a session name may hold.
pub open spec fn name_char(c: char) -> bool {
    is_ascii_alnum(c) || c == '_' || c == '-'
}

/// A session name: not empty, at most [`MAX_SESSION_NAME`] characters, only
/// letters, digits, underscores and dashes.
pub open spec fn valid_name(s: Seq<char>) -> bool {
    &&& 0 < s.len() <= MAX_SESSION_NAME
    &&& forall|i: int| 0 <= i < s.len() ==> name_char(#[trigger] s[i])
}

pub open spec fn as_name_char(c: char) -> char {
    if name_char(c) {
        c
    } else {
        '-'
    }
}

/// The letters and digits of `s`.
pub open spec fn alnums(s: Seq<char>) -> Seq<char>
    decreases s.len(),
{
    if s.len() == 0 {
        s
    } else if is_ascii_alnum(s.last()) {
        alnums(s.drop_last()).push(s.last())
    } else {
        alnums(s.drop_last())
    }
}

/// At most `n` of the letters and digits of `s`, from its start.
pub open spec fn alnum_prefix(s: Seq<char>, n: int) -> Seq<char> {
    prefix(alnums(s), n)
}

pub open spec fn or_else(s: Seq<char>, other: Seq<char>) -> Seq<char> {
    if s.len() == 0 {
        other
    } else {
        s
    }
}

/// The tail of a fork's name: the prompt and the start of a unique text.
pub open spec fn fork_suffix(idx: u32, unique: Seq<char>) -> Seq<char> {
    "-fork"@ + decimal(idx as nat) + "-"@ + or_else(alnum_prefix(unique, 8), "x"@)
}

/// The parent's name made fit for a session name.
pub open spec fn fork_base(parent: Seq<char>) -> Seq<char> {
    or_else(strip_both(parent.map_values(|c: char| as_name_char(c)), '-'), "session"@)
}

/// The name of a fork: the parent's, cut so that the whole fits, and the
/// tail.
pub open spec fn fork_name(parent: Seq<char>, idx: u32, unique: Seq<char>) -> Seq<char> {
    let suffix = fork_suffix(idx, unique);
    let room = MAX_SESSION_NAME - suffix.len();
    or_else(strip_end(prefix(fork_base(parent), room), '-'), "s"@) + suffix
}

proof fn lemma_decimal(n: nat)
    ensures
        decimal(n).len() > 0,
        forall|i: int| 0 <= i < decimal(n).len() ==> '0' <= #[trigger] decimal(n)[i] <= '9',
        n < 10 ==> decimal(n).len() == 1,
    decreases n,
{
    if n >= 10 {
        lemma_decimal(n / 10);
    }
}

proof fn lemma_decimal_len(n: nat, k: nat, bound: nat)
    requires
        n < bound,
        k >= 1,
        bound == pow10(k),
    ensures
        decimal(n).len() <= k,
    decreases k,
{
    if k == 1 {
        assert(pow10(1) == 10) by {
            reveal_with_fuel(pow10, 2);
        }
        lemma_decimal(n);
    } else if n >= 10 {
        assert(pow10(k) == 10 * pow10((k - 1) as nat));
        lemma_decimal_len(n / 10, (k - 1) as nat, pow10((k - 1) as nat));
    } else {
        lemma_decimal(n);
    }
}

spec fn pow10(k: nat) -> nat
    decreases k,
{
    if k == 0 {
        1
    } else {
        10 * pow10((k - 1) as nat)
    }
}

proof fn lemma_alnum_prefix(s: Seq<char>, n: int)
    requires
        n >= 0,
    ensures
        alnum_prefix(s, n).len() <= n,
        forall|i: int|
            0 <= i < alnum_prefix(s, n).len() ==> is_ascii_alnum(#[trigger] alnum_prefix(s, n)[i]),
{
    lemma_alnums(s);
}

proof fn lemma_alnums(s: Seq<char>)
    ensures
        forall|i: int| 0 <= i < alnums(s).len() ==> is_ascii_alnum(#[trigger] alnums(s)[i]),
    decreases s.len(),
{
    if s.len() > 0 {
        let before = alnums(s.drop_last());
        lemma_alnums(s.drop_last());
        assert forall|i: int| 0 <= i < alnums(s).len() implies is_ascii_alnum(#[trigger] alnums(s)[i]) by {
            if i < before.len() {
                assert(alnums(s)[i] == before[i]);
            }
        }
    }
}

proof fn lemma_suffix(idx: u32, unique: Seq<char>)
    ensures
        fork_suffix(idx, unique).len() <= 24,
        forall|i: int|
            0 <= i < fork_suffix(idx, unique).len() ==> name_char(
                #[trigger] fork_suffix(idx, unique)[i],
            ),
{
    reveal_strlit("-fork");
    reveal_strlit("-");
    reveal_strlit("x");
    lemma_decimal(idx as nat);
    assert(pow10(10) == 10_000_000_000) by {
        reveal_with_fuel(pow10, 11);
    }
    lemma_decimal_len(idx as nat, 10, pow10(10));
    lemma_alnum_prefix(unique, 8);
    let a = "-fork"@;
    let b = a + decimal(idx as nat);
    let c = b + "-"@;
    let short = or_else(alnum_prefix(unique, 8), "x"@);
    assert forall|i: int| 0 <= i < fork_suffix(idx, unique).len() implies name_char(
        #[trigger] fork_suffix(idx, unique)[i],
    ) by {
        let whole = fork_suffix(idx, unique);
        if i < a.len() {
            assert(whole[i] == a[i]);
        } else if i < b.len() {
            assert(whole[i] == decimal(idx as nat)[i - a.len()]);
        } else if i < c.len() {
            assert(whole[i] == "-"@[i - b.len()]);
        } else {
            assert(whole[i] == short[i - c.len()]);
        }
    }
}

proof fn lemma_base_chars(parent: Seq<char>)
    ensures
        forall|i: int| 0 <= i < fork_base(parent).len() ==> name_char(#[trigger] fork_base(parent)[i]),
{
    reveal_strlit("session");
    let raw = parent.map_values(|c: char| as_name_char(c));
    let a = strip_start(raw, '-');
    let b = strip_end(a, '-');
    lemma_strip_start(raw, '-');
    lemma_strip_end(a, '-');
    assert forall|i: int| 0 <= i < fork_base(parent).len() implies name_char(
        #[trigger] fork_base(parent)[i],
    ) by {
        if b.len() > 0 {
            assert(fork_base(parent)[i] == b[i]);
            assert(b[i] == a[i]);
            assert(a[i] == raw[raw.len() - a.len() + i]);
        }
    }
}

pub fn compose_fork_name(parent: &str, idx: u32, unique: &str) -> (out: String)
    ensures
        out@ == fork_name(parent@, idx, unique@),
{
    let us = chars_of(unique);
    let mut short = String::new();
    let mut i: usize = 0;
    while i < us.len()
        invariant
            i <= us@.len(),
            short@ == alnums(us@.take(i as int)),
        decreases us@.len() - i,
    {
        proof {
            assert(us@.take(i + 1).drop_last() =~= us@.take(i as int));
        }
        if is_ascii_alnum_char(us[i]) {
            short.push(us[i]);
        }
        i = i + 1;
    }
    assert(us@.take(us@.len() as int) =~= us@);
    let mut short = take_chars(short.as_str(), 8);
    if short.as_str().is_empty() {
        short = String::from_str("x");
    }
    let suffix = cat4("-fork", decimal_u64(idx as u64).as_str(), "-", short.as_str());
    let ps = chars_of(parent);
    let mut base = String::new();
    let mut j: usize = 0;
    while j < ps.len()
        invariant
            j <= ps@.len(),
            base@ == ps@.take(j as int).map_values(|c: char| as_name_char(c)),
        decreases ps@.len() - j,
    {
        let c = ps[j];
        if is_ascii_alnum_char(c) || c == '_' || c == '-' {
            base.push(c);
        } else {
            base.push('-');
        }
        j = j + 1;
        assert(base@ =~= ps@.take(j as int).map_values(|c: char| as_name_char(c)));
    }
    assert(ps@.take(ps@.len() as int) =~= ps@);
    let mut base = strip_both_text(base.as_str(), '-');
    if base.as_str().is_empty() {
        base = String::from_str("session");
    }
    proof {
        lemma_suffix(idx, unique@);
    }
    let room: usize = MAX_SESSION_NAME - crate::text::count_chars(suffix.as_str());
    let mut cut = strip_end_text(take_chars(base.as_str(), room).as_str(), '-');
    if cut.as_str().is_empty() {
        cut = String::from_str("s");
    }
    cat2(cut.as_str(), suffix.as_str())
}

/// The name of a fork is always a valid session name, whatever the parent's
/// name and the unique text, and ends in the prompt's tail.
pub proof fn law_fork_names_are_valid(parent: Seq<char>, idx: u32, unique: Seq<char>)
    ensures
        valid_name(fork_name(parent, idx, unique)),
        0 < fork_name(parent, idx, unique).len() <= 64,
        forall|i: int|
            0 <= i < fork_name(parent, idx, unique).len() ==> {
                let c = #[trigger] fork_name(parent, idx, unique)[i];
                'a' <= c <= 'z' || 'A' <= c <= 'Z' || '0' <= c <= '9' || c == '_' || c == '-'
            },
        fork_name(parent, idx, unique).skip(
            fork_name(parent, idx, unique).len() - fork_suffix(idx, unique).len(),
        ) == fork_suffix(idx, unique),
{
    let suffix = fork_suffix(idx, unique);
    let base = fork_base(parent);
    let room = MAX_SESSION_NAME - suffix.len();
    let cut = strip_end(prefix(base, room), '-');
    let front = or_else(cut, "s"@);
    let name = fork_name(parent, idx, unique);
    reveal_strlit("s");
    lemma_suffix(idx, unique);
    lemma_base_chars(parent);
    lemma_strip_end(prefix(base, room), '-');
    assert(name == front + suffix);
    assert forall|i: int| 0 <= i < name.len() implies name_char(#[trigger] name[i]) by {
        if i < front.len() {
            if cut.len() > 0 {
                assert(name[i] == cut[i]);
                assert(cut[i] == prefix(base, room)[i]);
                assert(cut[i] == base[i]);
            } else {
                assert(name[i] == "s"@[i]);
            }
        } else {
            assert(name[i] == suffix[i - front.len()]);
        }
    }
    assert(name.skip(front.len() as int) =~= suffix);
}

// ---------------------------------------------------------------------------
// Carrying a rewind out
// ---------------------------------------------------------------------------

/// How the conversation is restored.
#[derive(Debug, Clone, Copy, PartialEq, Eq, Structural)]
pub enum ConversationRestore {
    /// Cut off at the prompt.
    TruncateAtPrompt,
    /// What followed the prompt replaced by a summary.
    SummarizeFromHere,
    /// What led up to the prompt replaced by a summary.
    SummarizeUpToHere,
}

/// What a request takes.
#[derive(Debug, Clone, Copy, PartialEq, Eq, Structural)]
pub enum RewindPlan {
    /// Nothing can be done: no checkpoints are kept.
    NoCheckpoints,
    /// Nothing can be done: a fork needs sessions to be kept.
    NoSessions,
    /// Restore the files alone.
    Files,
    /// Restore the conversation, and the files where `files` is set.
    Restore { files: bool, conversation: ConversationRestore },
    /// Write a new session.
    Fork,
}

pub open spec fn plan_for(action: RewindAction, checkpoints: bool, sessions: bool) -> RewindPlan {
    if !checkpoints {
        RewindPlan::NoCheckpoints
    } else {
        match action {
            RewindAction::Code => RewindPlan::Files,
            RewindAction::Fork => if sessions {
                RewindPlan::Fork
            } else {
                RewindPlan::NoSessions
            },
            RewindAction::Conversation => RewindPlan::Restore {
                files: false,
                conversation: ConversationRestore::TruncateAtPrompt,
            },
            RewindAction::Both => RewindPlan::Restore {
                files: true,
                conversation: ConversationRestore::TruncateAtPrompt,
            },
            RewindAction::SummarizeForward => RewindPlan::Restore {
                files: false,
                conversation: ConversationRestore::SummarizeFromHere,
            },
            RewindAction::SummarizeBackward => RewindPlan::Restore {
                files: false,
                conversation: ConversationRestore::SummarizeUpToHere,
            },
        }
    }
}

/// What a request takes, given whether checkpoints and sessions are kept.
pub fn plan_rewind(req: RewindRequest, checkpoints: bool, sessions: bool) -> (r: RewindPlan)
    ensures
        r == plan_for(req.action, checkpoints, sessions),
{
    if !checkpoints {
        return RewindPlan::NoCheckpoints;
    }
    match req.action {
        RewindAction::Code => RewindPlan::Files,
        RewindAction::Fork => if sessions {
            RewindPlan::Fork
        } else {
            RewindPlan::NoSessions
        },
        RewindAction::Conversation => RewindPlan::Restore {
            files: false,
            conversation: ConversationRestore::TruncateAtPrompt,
        },
        RewindAction::Both => RewindPlan::Restore {
            files: true,
            conversation: ConversationRestore::TruncateAtPrompt,
        },
        RewindAction::SummarizeForward => RewindPlan::Restore {
            files: false,
            conversation: ConversationRestore::SummarizeFromHere,
        },
        RewindAction::SummarizeBackward => RewindPlan::Restore {
            files: false,
            conversation: ConversationRestore::SummarizeUpToHere,
        },
    }
}

/// How carrying a plan out went.
#[derive(Debug)]
pub enum RewindResult<S = String> {
    /// Nothing was attempted.
    Refused,
    FilesRestored { restored: usize, deleted: usize, skipped: usize },
    Restored { messages: usize, files: usize },
    Forked { name: S, messages: usize },
    /// The new session could not be written.
    ForkNotSaved(S),
    Failed(S),
}

pub open spec fn result_view(r: RewindResult<String>) -> RewindResult<Seq<char>> {
    match r {
        RewindResult::Refused => RewindResult::Refused,
        RewindResult::FilesRestored { restored, deleted, skipped } => RewindResult::FilesRestored {
            restored,
            deleted,
            skipped,
        },
        RewindResult::Restored { messages, files } => RewindResult::Restored { messages, files },
        RewindResult::Forked { name, messages } => RewindResult::Forked { name: name@, messages },
        RewindResult::ForkNotSaved(e) => RewindResult::ForkNotSaved(e@),
        RewindResult::Failed(e) => RewindResult::Failed(e@),
    }
}

/// The level and text of the notice about how it went.
pub open spec fn report(idx: u32, plan: RewindPlan, result: RewindResult<Seq<char>>) -> (
    ToastLevel,
    Seq<char>,
) {
    match result {
        RewindResult::Refused => (
            ToastLevel::Error,
            if plan == RewindPlan::NoSessions {
                "forking needs session persistence \u{2014} start caliban with --session"@
            } else {
                "checkpointing is not enabled for this session"@
            },
        ),
        RewindResult::FilesRestored { restored, deleted, skipped } => (
            ToastLevel::Info,
            "rewound #"@ + decimal(idx as nat) + ": "@ + decimal(restored as nat)
                + " file(s) restored, "@ + decimal(deleted as nat) + " deleted, "@ + decimal(
                skipped as nat,
            ) + " skipped"@,
        ),
        RewindResult::Restored { messages, files } => (
            ToastLevel::Info,
            "rewound #"@ + decimal(idx as nat) + ": "@ + decimal(messages as nat)
                + " message(s)"@ + (if plan matches RewindPlan::Restore { files: true, .. } {
                ", "@ + decimal(files as nat) + " file(s) restored"@
            } else {
                Seq::empty()
            }),
        ),
        RewindResult::Forked { name, messages } => (
            ToastLevel::Info,
            "forked #"@ + decimal(idx as nat) + " \u{2192} session \""@ + name + "\" ("@ + decimal(
                messages as nat,
            ) + " msg(s)); resume with /resume"@,
        ),
        RewindResult::ForkNotSaved(e) => (
            ToastLevel::Error,
            "fork #"@ + decimal(idx as nat) + " save failed: "@ + e,
        ),
        RewindResult::Failed(e) => (
            ToastLevel::Error,
            (if plan == RewindPlan::Fork {
                "fork #"@
            } else {
                "rewind #"@
            }) + decimal(idx as nat) + " failed: "@ + e,
        ),
    }
}

/// The notice about how a rewind went.
pub fn report_rewind(req: RewindRequest, plan: RewindPlan, result: &RewindResult, now: u64) -> (r: Toast)
    ensures
        (r.level, r.text@) == report(req.prompt_index, plan, result_view(*result)),
        r.shown_at == now,
{
    let idx = decimal_u64(req.prompt_index as u64);
    match result {
        RewindResult::Refused => {
            if plan == RewindPlan::NoSessions {
                Toast::error(
                    "forking needs session persistence \u{2014} start caliban with --session",
                    now,
                )
            } else {
                Toast::error("checkpointing is not enabled for this session", now)
            }
        },
        RewindResult::FilesRestored { restored, deleted, skipped } => {
            let mut s = cat4(
                "rewound #",
                idx.as_str(),
                ": ",
                crate::text::decimal_usize(*restored).as_str(),
            );
            s.append(" file(s) restored, ");
            s.append(crate::text::decimal_usize(*deleted).as_str());
            s.append(" deleted, ");
            s.append(crate::text::decimal_usize(*skipped).as_str());
            s.append(" skipped");
            Toast::info(s.as_str(), now)
        },
        RewindResult::Restored { messages, files } => {
            let s = cat5(
                "rewound #",
                idx.as_str(),
                ": ",
                crate::text::decimal_usize(*messages).as_str(),
                " message(s)",
            );
            let note = match plan {
                RewindPlan::Restore { files: true, .. } => cat3(
                    ", ",
                    crate::text::decimal_usize(*files).as_str(),
                    " file(s) restored",
                ),
                _ => String::new(),
            };
            Toast::info(cat2(s.as_str(), note.as_str()).as_str(), now)
        },
        RewindResult::Forked { name, messages } => {
            let mut s = cat5("forked #", idx.as_str(), " \u{2192} session \"", name.as_str(), "\" (");
            s.append(crate::text::decimal_usize(*messages).as_str());
            s.append(" msg(s)); resume with /resume");
            Toast::info(s.as_str(), now)
        },
        RewindResult::ForkNotSaved(e) => {
            Toast::error(cat4("fork #", idx.as_str(), " save failed: ", e.as_str()).as_str(), now)
        },
        RewindResult::Failed(e) => {
            let what = if plan == RewindPlan::Fork {
                "fork #"
            } else {
                "rewind #"
            };
            Toast::error(cat4(what, idx.as_str(), " failed: ", e.as_str()).as_str(), now)
        },
    }
}

/// The name of a fork of the session; where there is none, it goes by
/// `session`.
pub fn fork_session_name(app: &App, idx: u32, unique: &str) -> (out: String)
    ensures
        out@ == fork_name(
            match app@.session {
                Some(s) => s.name,
                None => "session"@,
            },
            idx,
            unique@,
        ),
{
    match &app.session {
        Some(s) => compose_fork_name(s.name.as_str(), idx, unique),
        None => compose_fork_name("session", idx, unique),
    }
}

/// The state after a rewind, and what is asked of the world; `conversation`
/// is what the restore left of the conversation.
pub open spec fn rewound(
    app: AppView,
    req: RewindRequest,
    plan: RewindPlan,
    result: RewindResult<Seq<char>>,
    conversation: Seq<MessageView>,
    now: u64,
) -> (AppView, Seq<EffectView>) {
    let (level, text) = report(req.prompt_index, plan, result);
    let told = app.noticed(toast(level, text, now));
    if plan is Restore && result is Restored {
        (told.conversing(conversation), seq![Effect::MeasureContext(conversation)])
    } else {
        (told, Seq::empty())
    }
}

/// Takes in how carrying out the plan for a request went: says so, and where
/// the conversation was restored, goes on with what is left of it.
pub fn execute_rewind(
    app: &mut App,
    req: RewindRequest,
    plan: RewindPlan,
    result: &RewindResult,
    conversation: &Vec<Message>,
    now: u64,
) -> (effects: Vec<Effect>)
    requires
        old(app).wf(),
    ensures
        final(app).wf(),
        (final(app)@, effects_view(effects@)) == rewound(
            old(app)@,
            req,
            plan,
            result_view(*result),
            messages_view(conversation@),
            now,
        ),
{
    app.toast = Some(report_rewind(req, plan, result, now));
    match (plan, result) {
        (RewindPlan::Restore { .. }, RewindResult::Restored { .. }) => {
            app.converse(conversation);
            just(Effect::MeasureContext(clone_messages(conversation)))
        },
        _ => nothing(),
    }
}

/// A restore of the files alone, and a fork, leave everything but the notice
/// as it is, however they end.
pub proof fn law_code_and_fork_leave_the_conversation_alone(
    app: AppView,
    req: RewindRequest,
    checkpoints: bool,
    sessions: bool,
    result: RewindResult<Seq<char>>,
    conversation: Seq<MessageView>,
    now: u64,
)
    requires
        req.action == RewindAction::Code || req.action == RewindAction::Fork,
    ensures
        ({
            let plan = plan_for(req.action, checkpoints, sessions);
            let after = rewound(app, req, plan, result, conversation, now);
            &&& after.0 == (AppView { toast: after.0.toast, ..app })
            &&& after.1 == Seq::<EffectView>::empty()
        }),
{
}

/// Where no checkpoints are kept, nothing but the notice changes, whatever
/// was asked for.
pub proof fn law_no_checkpoints_no_rewind(
    app: AppView,
    req: RewindRequest,
    sessions: bool,
    result: RewindResult<Seq<char>>,
    conversation: Seq<MessageView>,
    now: u64,
)
    ensures
        plan_for(req.action, false, sessions) == RewindPlan::NoCheckpoints,
        ({
            let after = rewound(app, req, RewindPlan::NoCheckpoints, result, conversation, now);
            after.0 == (AppView { toast: after.0.toast, ..app }) && after.1 == Seq::<EffectView>::empty()
        }),
{
}

/// A plan restores files exactly where the action is about code: for the
/// conversation alone, for the two summaries and for a fork no file is
/// touched. It restores the conversation exactly where the action is about
/// it, and it branches off exactly for a fork that has a place to go.
pub proof fn law_plans_restore_what_was_asked_for(action: RewindAction, sessions: bool)
    ensures
        ({
            let plan = plan_for(action, true, sessions);
            let files = plan is Files || (plan is Restore && plan->files);
            &&& files <==> action == RewindAction::Code || action == RewindAction::Both
            &&& plan is Restore <==> action != RewindAction::Code && action != RewindAction::Fork
            &&& plan is Fork <==> action == RewindAction::Fork && sessions
            &&& plan is NoSessions <==> action == RewindAction::Fork && !sessions
            &&& plan !is NoCheckpoints
        }),
{
}

/// Of the conversation, a summary replaces what followed the prompt or what
/// led up to it, as the action says; every other restore cuts it off at the
/// prompt.
pub proof fn law_summaries_replace_their_own_side(action: RewindAction, sessions: bool)
    ensures
        plan_for(action, true, sessions) matches RewindPlan::Restore { conversation, .. } ==> {
            &&& conversation == ConversationRestore::SummarizeFromHere <==> action
                == RewindAction::SummarizeForward
            &&& conversation == ConversationRestore::SummarizeUpToHere <==> action
                == RewindAction::SummarizeBackward
        },
{
}

/// Nothing is planned without checkpoints, and nothing is refused with them
/// but a fork that has no place to go.
pub proof fn law_only_what_is_missing_refuses(action: RewindAction, checkpoints: bool, sessions: bool)
    ensures
        plan_for(action, checkpoints, sessions) is NoCheckpoints <==> !checkpoints,
        plan_for(action, checkpoints, sessions) is NoSessions <==> checkpoints && !sessions
            && action == RewindAction::Fork,
{
}

/// Each action has one key, and the keys that ask for one are those alone.
pub proof fn law_each_action_has_one_key(c: char)
    ensures
        action_of(c) == Some(RewindAction::Code) <==> c == 'c',
        action_of(c) == Some(RewindAction::Conversation) <==> c == 'v',
        action_of(c) == Some(RewindAction::Both) <==> c == 'b',
        action_of(c) == Some(RewindAction::SummarizeForward) <==> c == 's',
        action_of(c) == Some(RewindAction::SummarizeBackward) <==> c == 'S',
        action_of(c) == Some(RewindAction::Fork) <==> c == 'f',
        action_of(c) is Some <==> c == 'c' || c == 'v' || c == 'b' || c == 's' || c == 'S' || c
            == 'f',
{
}

/// A rewind that restored the conversation goes on with what is left of it,
/// in the session too, and has it measured; one that did not restore it
/// leaves it as it was. Nothing but the conversation and the notice changes.
pub proof fn law_a_restored_conversation_is_gone_on_with(
    app: AppView,
    req: RewindRequest,
    plan: RewindPlan,
    result: RewindResult<Seq<char>>,
    conversation: Seq<MessageView>,
    now: u64,
)
    ensures
        ({
            let (after, effects) = rewound(app, req, plan, result, conversation, now);
            let restored = plan is Restore && result is Restored;
            &&& after == (AppView {
                messages: after.messages,
                session: after.session,
                toast: after.toast,
                ..app
            })
            &&& after.messages == (if restored {
                conversation
            } else {
                app.messages
            })
            &&& after.session is Some == app.session is Some
            &&& app.session matches Some(s) ==> after.session == Some(
                crate::app::SessionView {
                    messages: if restored {
                        conversation
                    } else {
                        s.messages
                    },
                    ..s
                },
            )
            &&& effects == (if restored {
                Seq::<EffectView>::empty().push(Effect::MeasureContext(conversation))
            } else {
                Seq::<EffectView>::empty()
            })
            &&& after.toast is Some && after.toast->0.shown_at == now
        }),
{
}

/// The notice about a rewind is an error exactly where nothing was attempted
/// or something failed.
pub proof fn law_failed_rewinds_are_errors(
    idx: u32,
    plan: RewindPlan,
    result: RewindResult<Seq<char>>,
)
    ensures
        report(idx, plan, result).0 == (if result is Refused || result is ForkNotSaved
            || result is Failed {
            ToastLevel::Error
        } else {
            ToastLevel::Info
        }),
{
}

/// The notice tells what happened with its own figures: the files that were
/// restored, deleted and skipped, in that order; the messages that are left,
/// and the files exactly where the plan restored them; the name of a fork;
/// the reason of a failure.
pub proof fn law_notices_give_the_figures(
    idx: u32,
    plan: RewindPlan,
    result: RewindResult<Seq<char>>,
)
    ensures
        ({
            let text = report(idx, plan, result).1;
            let n = decimal(idx as nat);
            match result {
                RewindResult::Refused => text == (if plan is NoSessions {
                    "forking needs session persistence \u{2014} start caliban with --session"@
                } else {
                    "checkpointing is not enabled for this session"@
                }),
                RewindResult::FilesRestored { restored, deleted, skipped } => text == "rewound #"@
                    + n + ": "@ + decimal(restored as nat) + " file(s) restored, "@ + decimal(
                    deleted as nat,
                ) + " deleted, "@ + decimal(skipped as nat) + " skipped"@,
                RewindResult::Restored { messages, files } => {
                    let head = "rewound #"@ + n + ": "@ + decimal(messages as nat)
                        + " message(s)"@;
                    if plan is Restore && plan->files {
                        text == head + (", "@ + decimal(files as nat) + " file(s) restored"@)
                    } else {
                        text =~= head
                    }
                },
                RewindResult::Forked { name, messages } => text == "forked #"@ + n
                    + " \u{2192} session \""@ + name + "\" ("@ + decimal(messages as nat)
                    + " msg(s)); resume with /resume"@,
                RewindResult::ForkNotSaved(e) => text == "fork #"@ + n + " save failed: "@ + e,
                RewindResult::Failed(e) => text == (if plan is Fork {
                    "fork #"@
                } else {
                    "rewind #"@
                }) + n + " failed: "@ + e,
            }
        }),
{
}

/// The tail of a fork's name is the prompt's number and up to eight letters
/// and digits of the unique text, or an `x` where it has none.
pub proof fn law_fork_tails_name_the_prompt(idx: u32, unique: Seq<char>)
    ensures
        ({
            let letters = unique.filter(
                |c: char| 'a' <= c <= 'z' || 'A' <= c <= 'Z' || '0' <= c <= '9',
            );
            fork_suffix(idx, unique) == "-fork"@ + decimal(idx as nat) + "-"@ + (if letters.len()
                == 0 {
                "x"@
            } else if letters.len() <= 8 {
                letters
            } else {
                letters.take(8)
            })
        }),
{
    lemma_alnums_filter(unique);
}

proof fn lemma_alnums_filter(s: Seq<char>)
    ensures
        alnums(s) == s.filter(|c: char| 'a' <= c <= 'z' || 'A' <= c <= 'Z' || '0' <= c <= '9'),
    decreases s.len(),
{
    reveal(Seq::filter);
    if s.len() > 0 {
        lemma_alnums_filter(s.drop_last());
    }
}

/// A parent's name that is a session name already, does not begin or end in
/// a dash and leaves room for the tail, is kept in front of the tail.
pub proof fn law_forks_keep_the_parents_name(parent: Seq<char>, idx: u32, unique: Seq<char>)
    requires
        0 < parent.len() <= 40,
        forall|i: int| 0 <= i < parent.len() ==> name_char(#[trigger] parent[i]),
        parent[0] != '-',
        parent.last() != '-',
    ensures
        fork_name(parent, idx, unique) == parent + fork_suffix(idx, unique),
{
    lemma_suffix(idx, unique);
    assert(parent.map_values(|c: char| as_name_char(c)) =~= parent);
    assert(strip_start(parent, '-') == parent);
    assert(strip_both(parent, '-') == parent);
    assert(strip_end(parent, '-') == parent);
    assert(fork_base(parent) == parent);
    let room = MAX_SESSION_NAME - fork_suffix(idx, unique).len();
    assert(prefix(parent, room) =~= parent);
}

} // verus!
