//! What the agent reports while a turn runs, and what becomes of it on
//! screen.

use vstd::prelude::*;

use crate::app::{
    push_entry, transcript_view, Activity, App, AppView, RunningTurn, SessionView, TranscriptLine,
};
use crate::effect::{effects_view, just, nothing, push_effect, Effect, EffectView, Usage};
use crate::text::{
    cat2, cat3, decimal, decimal_u64, join, join_texts, same, texts,
};
use crate::toast::{toast, Toast, ToastLevel};
use crate::types::{
    block_texts, blocks_view, clone_message, clone_messages, messages_view, push_message,
    texts_of_blocks, ContentBlock, Message, MessageView,
};

verus! {

/// Why a run came to its end.
#[derive(Debug)]
pub enum StopCondition<S = String> {
    EndOfTurn,
    ProviderError(S),
    HookDenied(S),
    CompactionFailed(S),
    MaxTurnsReached(u32),
    Cancelled,
    MaxTokensExhausted,
    Refusal(S),
    ContentFilter(S),
    /// Nothing came for so many seconds.
    StreamIdle { secs: u64 },
}

pub open spec fn stop_view(s: StopCondition<String>) -> StopCondition<Seq<char>> {
    match s {
        StopCondition::EndOfTurn => StopCondition::EndOfTurn,
        StopCondition::ProviderError(m) => StopCondition::ProviderError(m@),
        StopCondition::HookDenied(m) => StopCondition::HookDenied(m@),
        StopCondition::CompactionFailed(m) => StopCondition::CompactionFailed(m@),
        StopCondition::MaxTurnsReached(n) => StopCondition::MaxTurnsReached(n),
        StopCondition::Cancelled => StopCondition::Cancelled,
        StopCondition::MaxTokensExhausted => StopCondition::MaxTokensExhausted,
        StopCondition::Refusal(m) => StopCondition::Refusal(m@),
        StopCondition::ContentFilter(m) => StopCondition::ContentFilter(m@),
        StopCondition::StreamIdle { secs } => StopCondition::StreamIdle { secs },
    }
}

/// Whether an end is an error or merely worth a line.
#[derive(Debug, Clone, Copy, PartialEq, Eq, Structural)]
pub enum StoppedForLevel {
    Error,
    Info,
}

/// What is shown of an end that did not come by itself.
#[derive(Debug)]
pub struct StoppedForSurface<S = String> {
    pub line: S,
    pub level: StoppedForLevel,
}

pub open spec fn surface_view(o: Option<StoppedForSurface<String>>) -> Option<
    StoppedForSurface<Seq<char>>,
> {
    match o {
        Some(s) => Some(StoppedForSurface { line: s.line@, level: s.level }),
        None => None,
    }
}

pub open spec fn framed(what: Seq<char>, msg: Seq<char>) -> Seq<char> {
    what + msg + "]"@
}

/// What is shown of an end; nothing for one that came by itself.
pub open spec fn surface(s: StopCondition<Seq<char>>) -> Option<StoppedForSurface<Seq<char>>> {
    let error = |line: Seq<char>|
        Some(StoppedForSurface { line, level: StoppedForLevel::Error });
    let info = |line: Seq<char>|
        Some(StoppedForSurface { line, level: StoppedForLevel::Info });
    match s {
        StopCondition::EndOfTurn => None,
        StopCondition::ProviderError(m) => error(framed("[caliban: provider error: "@, m)),
        StopCondition::HookDenied(m) => error(framed("[caliban: hook denied: "@, m)),
        StopCondition::CompactionFailed(m) => error(framed("[caliban: compaction failed: "@, m)),
        StopCondition::MaxTurnsReached(n) => info(
            "[caliban: max-turns ("@ + decimal(n as nat) + ") reached]"@,
        ),
        StopCondition::Cancelled => info("[caliban: cancelled]"@),
        StopCondition::MaxTokensExhausted => error(
            "[caliban: max output tokens exhausted \u{2014} try /effort low]"@,
        ),
        StopCondition::Refusal(m) => error(framed("[caliban: model refusal: "@, m)),
        StopCondition::ContentFilter(m) => error(framed("[caliban: content filter: "@, m)),
        StopCondition::StreamIdle { secs } => error(
            "[caliban: stream idle for "@ + decimal(secs as nat) + "s]"@,
        ),
    }
}

fn error_surface(line: String) -> (r: Option<StoppedForSurface>)
    ensures
        r == Some(StoppedForSurface { line, level: StoppedForLevel::Error }),
{
    Some(StoppedForSurface { line, level: StoppedForLevel::Error })
}

fn info_surface(line: String) -> (r: Option<StoppedForSurface>)
    ensures
        r == Some(StoppedForSurface { line, level: StoppedForLevel::Info }),
{
    Some(StoppedForSurface { line, level: StoppedForLevel::Info })
}

pub fn stopped_for_surface(stopped_for: &StopCondition) -> (r: Option<StoppedForSurface>)
    ensures
        surface_view(r) == surface(stop_view(*stopped_for)),
{
    match stopped_for {
        StopCondition::EndOfTurn => None,
        StopCondition::ProviderError(m) => error_surface(
            cat3("[caliban: provider error: ", m.as_str(), "]"),
        ),
        StopCondition::HookDenied(m) => error_surface(
            cat3("[caliban: hook denied: ", m.as_str(), "]"),
        ),
        StopCondition::CompactionFailed(m) => error_surface(
            cat3("[caliban: compaction failed: ", m.as_str(), "]"),
        ),
        StopCondition::MaxTurnsReached(n) => info_surface(
            cat3("[caliban: max-turns (", decimal_u64(*n as u64).as_str(), ") reached]"),
        ),
        StopCondition::Cancelled => info_surface(String::from_str("[caliban: cancelled]")),
        StopCondition::MaxTokensExhausted => error_surface(
            String::from_str("[caliban: max output tokens exhausted \u{2014} try /effort low]"),
        ),
        StopCondition::Refusal(m) => error_surface(
            cat3("[caliban: model refusal: ", m.as_str(), "]"),
        ),
        StopCondition::ContentFilter(m) => error_surface(
            cat3("[caliban: content filter: ", m.as_str(), "]"),
        ),
        StopCondition::StreamIdle { secs } => error_surface(
            cat3("[caliban: stream idle for ", decimal_u64(*secs).as_str(), "s]"),
        ),
    }
}

// ---------------------------------------------------------------------------
// Events
// ---------------------------------------------------------------------------

/// What the agent reports.
#[derive(Debug)]
pub enum TurnEvent {
    TurnStart,
    AssistantTextDelta { text: String },
    AssistantThinkingDelta { text: String },
    ToolCallStart { tool_use_id: String, name: String },
    ToolCallInputDelta { tool_use_id: String, partial_json: String },
    ToolCallEnd { tool_use_id: String, is_error: bool, content: Vec<ContentBlock> },
    TurnEnd { ttft_ms: Option<u64>, assistant_message: Message, usage: Usage },
    RunEnd {
        final_messages: Vec<Message>,
        total_usage: Usage,
        turn_count: u32,
        stopped_for: StopCondition,
    },
}

/// The phase of the running turn replaced; nothing happens without a turn.
pub open spec fn now_doing(running: Option<Activity<Seq<char>>>, a: Activity<Seq<char>>) -> Option<
    Activity<Seq<char>>,
> {
    match running {
        Some(_) => Some(a),
        None => None,
    }
}

/// Where the last call of this identifier stands in the transcript.
pub open spec fn last_call(t: Seq<TranscriptLine<Seq<char>>>, id: Seq<char>) -> Option<int>
    decreases t.len(),
{
    if t.len() == 0 {
        None
    } else if t.last() is ToolCall && t.last()->tool_use_id == id {
        Some(t.len() - 1)
    } else {
        last_call(t.drop_last(), id)
    }
}

/// More of the input of a call.
pub open spec fn with_input(t: Seq<TranscriptLine<Seq<char>>>, id: Seq<char>, more: Seq<char>) -> Seq<
    TranscriptLine<Seq<char>>,
> {
    match last_call(t, id) {
        Some(i) => match t[i] {
            TranscriptLine::ToolCall { tool_use_id, name, input, result } => t.update(
                i,
                TranscriptLine::ToolCall { tool_use_id, name, input: input + more, result },
            ),
            _ => t,
        },
        None => t,
    }
}

/// The result of a call.
pub open spec fn with_result(
    t: Seq<TranscriptLine<Seq<char>>>,
    id: Seq<char>,
    is_error: bool,
    text: Seq<char>,
) -> Seq<TranscriptLine<Seq<char>>> {
    match last_call(t, id) {
        Some(i) => match t[i] {
            TranscriptLine::ToolCall { tool_use_id, name, input, .. } => t.update(
                i,
                TranscriptLine::ToolCall {
                    tool_use_id,
                    name,
                    input,
                    result: Some((is_error, text)),
                },
            ),
            _ => t,
        },
        None => t,
    }
}

/// Text that goes on where the transcript ends in the assistant's text, and
/// starts an entry elsewhere.
pub open spec fn with_text(t: Seq<TranscriptLine<Seq<char>>>, text: Seq<char>) -> Seq<
    TranscriptLine<Seq<char>>,
> {
    if t.len() > 0 && t.last() is AssistantText {
        t.drop_last().push(TranscriptLine::AssistantText(t.last()->AssistantText_0 + text))
    } else {
        t.push(TranscriptLine::AssistantText(text))
    }
}

pub open spec fn with_thinking(t: Seq<TranscriptLine<Seq<char>>>, text: Seq<char>) -> Seq<
    TranscriptLine<Seq<char>>,
> {
    if t.len() > 0 && t.last() is AssistantThinking {
        t.drop_last().push(TranscriptLine::AssistantThinking(t.last()->AssistantThinking_0 + text))
    } else {
        t.push(TranscriptLine::AssistantThinking(text))
    }
}

/// The line, and for an error the notice, that an end puts on screen.
pub open spec fn surfaced(app: AppView, s: StopCondition<Seq<char>>, now: u64) -> AppView {
    match surface(s) {
        None => app,
        Some(x) => match x.level {
            StoppedForLevel::Error => app.failed(x.line).noticed(
                toast(ToastLevel::Error, x.line, now),
            ),
            StoppedForLevel::Info => app.informed(x.line),
        },
    }
}

/// More of the assistant's text.
pub open spec fn after_text(app: AppView, text: Seq<char>, now: u64) -> AppView {
    AppView {
        last_delta_at: now,
        running: match app.running {
            Some(Activity::Streaming { since }) => Some(Activity::Streaming { since }),
            r => now_doing(r, Activity::Streaming { since: now }),
        },
        transcript: with_text(app.transcript, text),
        ..app
    }
}

/// More of the assistant's thinking.
pub open spec fn after_thinking(app: AppView, text: Seq<char>, now: u64) -> AppView {
    AppView {
        last_delta_at: now,
        running: match app.running {
            Some(Activity::Thinking { since }) => Some(Activity::Thinking { since }),
            r => now_doing(r, Activity::Thinking { since: now }),
        },
        transcript: with_thinking(app.transcript, text),
        ..app
    }
}

/// A tool call began.
pub open spec fn after_call_start(app: AppView, id: Seq<char>, name: Seq<char>, now: u64) -> AppView {
    AppView {
        last_delta_at: now,
        running: now_doing(app.running, Activity::DispatchingTool { name, since: now }),
        transcript: app.transcript.push(
            TranscriptLine::ToolCall { tool_use_id: id, name, input: Seq::empty(), result: None },
        ),
        ..app
    }
}

/// A tool call is over.
pub open spec fn after_call_end(app: AppView, id: Seq<char>, is_error: bool, text: Seq<char>, now: u64) -> AppView {
    AppView {
        running: now_doing(app.running, Activity::WaitingForModel { since: now }),
        transcript: with_result(app.transcript, id, is_error, text),
        ..app
    }
}

/// A turn is over; the next one may follow at once.
pub open spec fn after_turn(app: AppView, ttft_ms: Option<u64>, now: u64) -> AppView {
    AppView {
        last_turn_ttft_ms: if ttft_ms is Some {
            ttft_ms
        } else {
            app.last_turn_ttft_ms
        },
        running: now_doing(app.running, Activity::WaitingForModel { since: now }),
        transcript: app.transcript.push(TranscriptLine::AssistantText(Seq::empty())),
        ..app
    }
}

/// A run is over: its end and what it took are shown, the conversation is
/// what the agent made of it, and no turn runs.
pub open spec fn after_run(
    app: AppView,
    messages: Seq<MessageView>,
    usage: Usage,
    turn_count: u32,
    stop: StopCondition<Seq<char>>,
    now: u64,
) -> AppView {
    let shown = surfaced(app, stop, now).said(
        TranscriptLine::UsageSummary {
            input_tokens: usage.input_tokens,
            output_tokens: usage.output_tokens,
            cache_read: usage.cache_read_input_tokens,
            cache_creation: usage.cache_creation_input_tokens,
            last_turn_ttft_ms: app.last_turn_ttft_ms,
            turn_count,
        },
    );
    AppView {
        last_turn_ttft_ms: None,
        messages,
        session: match app.session {
            Some(s) => Some(SessionView { plan_mode: app.plan_mode, ..s }),
            None => None,
        },
        running: None,
        auto_scroll: true,
        ..shown
    }
}

/// The state after an event.
pub open spec fn after_event(app: AppView, evt: TurnEvent, now: u64) -> AppView {
    match evt {
        TurnEvent::TurnStart => app,
        TurnEvent::AssistantTextDelta { text } => after_text(app, text@, now),
        TurnEvent::AssistantThinkingDelta { text } => after_thinking(app, text@, now),
        TurnEvent::ToolCallStart { tool_use_id, name } => after_call_start(
            app,
            tool_use_id@,
            name@,
            now,
        ),
        TurnEvent::ToolCallInputDelta { tool_use_id, partial_json } => AppView {
            last_delta_at: now,
            transcript: with_input(app.transcript, tool_use_id@, partial_json@),
            ..app
        },
        TurnEvent::ToolCallEnd { tool_use_id, is_error, content } => after_call_end(
            app,
            tool_use_id@,
            is_error,
            join(block_texts(blocks_view(content@)), "\n"@),
            now,
        ),
        TurnEvent::TurnEnd { ttft_ms, .. } => after_turn(app, ttft_ms, now),
        TurnEvent::RunEnd { final_messages, total_usage, turn_count, stopped_for } => after_run(
            app,
            messages_view(final_messages@),
            total_usage,
            turn_count,
            stop_view(stopped_for),
            now,
        ),
    }
}

/// What the end of a run asks of the world: the context measured, the run
/// merged into the session, and the session saved where it may be.
pub open spec fn run_effects(app: AppView, messages: Seq<MessageView>, usage: Usage) -> Seq<EffectView> {
    let measured = seq![EffectView::MeasureContext(messages)];
    let merged = if app.session is Some {
        measured.push(Effect::MergeRun { messages, usage })
    } else {
        measured
    };
    if app.saves() {
        merged.push(Effect::SaveSession)
    } else {
        merged
    }
}

/// What an event asks of the world. A turn is measured by the conversation
/// and the assistant's message behind it.
pub open spec fn event_effects(app: AppView, evt: TurnEvent) -> Seq<EffectView> {
    match evt {
        TurnEvent::TurnEnd { assistant_message, usage, .. } => seq![
            Effect::BookTurn(usage),
            Effect::MeasureContext(app.messages.push(assistant_message@)),
        ],
        TurnEvent::RunEnd { final_messages, total_usage, .. } => run_effects(
            app,
            messages_view(final_messages@),
            total_usage,
        ),
        _ => Seq::empty(),
    }
}

fn find_call(v: &Vec<TranscriptLine>, id: &str) -> (r: Option<usize>)
    ensures
        match r {
            Some(i) => last_call(transcript_view(v@), id@) == Some(i as int) && i < v@.len()
                && v@[i as int] is ToolCall,
            None => last_call(transcript_view(v@), id@) is None,
        },
{
    let ghost all = transcript_view(v@);
    let mut n: usize = v.len();
    assert(all.take(n as int) =~= all);
    while n > 0
        invariant
            n <= v@.len(),
            all == transcript_view(v@),
            last_call(all, id@) == last_call(all.take(n as int), id@),
        decreases n,
    {
        let ghost t = all.take(n as int);
        assert(t.last() == v@[n - 1]@);
        assert(t.drop_last() =~= all.take(n - 1));
        if let TranscriptLine::ToolCall { tool_use_id, .. } = &v[n - 1] {
            if same(tool_use_id.as_str(), id) {
                return Some(n - 1);
            }
        }
        n = n - 1;
    }
    None
}

fn replace_entry(v: &mut Vec<TranscriptLine>, i: usize, l: TranscriptLine)
    requires
        i < old(v)@.len(),
    ensures
        transcript_view(final(v)@) == transcript_view(old(v)@).update(i as int, l@),
{
    let ghost before = v@;
    v.set(i, l);
    assert(transcript_view(v@) =~= transcript_view(before).update(i as int, l@));
}

fn copy_result(r: &Option<(bool, String)>) -> (out: Option<(bool, String)>)
    ensures
        (match out {
            Some(x) => Some((x.0, x.1@)),
            None => None,
        }) == (match *r {
            Some(x) => Some((x.0, x.1@)),
            None => None,
        }),
{
    match r {
        Some(x) => Some((x.0, x.1.clone())),
        None => None,
    }
}

fn add_input(v: &mut Vec<TranscriptLine>, id: &str, more: &str)
    ensures
        transcript_view(final(v)@) == with_input(transcript_view(old(v)@), id@, more@),
{
    if let Some(i) = find_call(v, id) {
        assert(transcript_view(v@)[i as int] == v@[i as int]@);
        let entry = match &v[i] {
            TranscriptLine::ToolCall { tool_use_id, name, input, result } => TranscriptLine::ToolCall {
                tool_use_id: tool_use_id.clone(),
                name: name.clone(),
                input: cat2(input.as_str(), more),
                result: copy_result(result),
            },
            _ => return,
        };
        replace_entry(v, i, entry);
    }
}

fn set_result(v: &mut Vec<TranscriptLine>, id: &str, is_error: bool, text: String)
    ensures
        transcript_view(final(v)@) == with_result(transcript_view(old(v)@), id@, is_error, text@),
{
    if let Some(i) = find_call(v, id) {
        assert(transcript_view(v@)[i as int] == v@[i as int]@);
        let entry = match &v[i] {
            TranscriptLine::ToolCall { tool_use_id, name, input, .. } => TranscriptLine::ToolCall {
                tool_use_id: tool_use_id.clone(),
                name: name.clone(),
                input: input.clone(),
                result: Some((is_error, text)),
            },
            _ => return,
        };
        replace_entry(v, i, entry);
    }
}

fn add_text(v: &mut Vec<TranscriptLine>, text: &str)
    ensures
        transcript_view(final(v)@) == with_text(transcript_view(old(v)@), text@),
{
    let n: usize = v.len();
    if n > 0 {
        let longer = match &v[n - 1] {
            TranscriptLine::AssistantText(buf) => Some(cat2(buf.as_str(), text)),
            _ => None,
        };
        assert(transcript_view(v@).last() == v@.last()@);
        if let Some(s) = longer {
            let ghost t = transcript_view(v@);
            let entry = TranscriptLine::AssistantText(s);
            replace_entry(v, n - 1, entry);
            assert(t.update(n - 1, entry@) =~= t.drop_last().push(entry@));
            return;
        }
    }
    push_entry(v, TranscriptLine::AssistantText(String::from_str(text)));
}

fn add_thinking(v: &mut Vec<TranscriptLine>, text: &str)
    ensures
        transcript_view(final(v)@) == with_thinking(transcript_view(old(v)@), text@),
{
    let n: usize = v.len();
    if n > 0 {
        let longer = match &v[n - 1] {
            TranscriptLine::AssistantThinking(buf) => Some(cat2(buf.as_str(), text)),
            _ => None,
        };
        assert(transcript_view(v@).last() == v@.last()@);
        if let Some(s) = longer {
            let ghost t = transcript_view(v@);
            let entry = TranscriptLine::AssistantThinking(s);
            replace_entry(v, n - 1, entry);
            assert(t.update(n - 1, entry@) =~= t.drop_last().push(entry@));
            return;
        }
    }
    push_entry(v, TranscriptLine::AssistantThinking(String::from_str(text)));
}

fn set_activity(app: &mut App, a: Activity)
    requires
        old(app).wf(),
    ensures
        final(app).wf(),
        final(app)@ == (AppView {
            running: now_doing(old(app)@.running, crate::app::activity_view(a)),
            ..old(app)@
        }),
{
    if app.running.is_some() {
        app.running = Some(RunningTurn { activity: a });
    }
}

fn end_of_run(app: &mut App, stopped_for: &StopCondition, now: u64)
    requires
        old(app).wf(),
    ensures
        final(app).wf(),
        final(app)@ == surfaced(old(app)@, stop_view(*stopped_for), now),
{
    if let Some(s) = stopped_for_surface(stopped_for) {
        match s.level {
            StoppedForLevel::Error => {
                app.fail(s.line.as_str());
                app.toast = Some(Toast::error(s.line.as_str(), now));
            },
            StoppedForLevel::Info => {
                app.inform(s.line.as_str());
            },
        }
    }
}

fn take_text(app: &mut App, text: &str, now: u64)
    requires
        old(app).wf(),
    ensures
        final(app).wf(),
        final(app)@ == after_text(old(app)@, text@, now),
{
    app.last_delta_at = now;
    let streaming = match &app.running {
        Some(RunningTurn { activity: Activity::Streaming { .. } }) => true,
        _ => false,
    };
    if !streaming {
        set_activity(app, Activity::Streaming { since: now });
    }
    add_text(&mut app.transcript, text);
}

fn take_thinking(app: &mut App, text: &str, now: u64)
    requires
        old(app).wf(),
    ensures
        final(app).wf(),
        final(app)@ == after_thinking(old(app)@, text@, now),
{
    app.last_delta_at = now;
    let thinking = match &app.running {
        Some(RunningTurn { activity: Activity::Thinking { .. } }) => true,
        _ => false,
    };
    if !thinking {
        set_activity(app, Activity::Thinking { since: now });
    }
    add_thinking(&mut app.transcript, text);
}

fn take_call_start(app: &mut App, id: &str, name: &str, now: u64)
    requires
        old(app).wf(),
    ensures
        final(app).wf(),
        final(app)@ == after_call_start(old(app)@, id@, name@, now),
{
    app.last_delta_at = now;
    set_activity(app, Activity::DispatchingTool { name: String::from_str(name), since: now });
    let input = String::new();
    assert(input@ =~= Seq::<char>::empty());
    app.say(
        TranscriptLine::ToolCall {
            tool_use_id: String::from_str(id),
            name: String::from_str(name),
            input,
            result: None,
        },
    );
}

fn take_call_end(app: &mut App, id: &str, is_error: bool, text: String, now: u64)
    requires
        old(app).wf(),
    ensures
        final(app).wf(),
        final(app)@ == after_call_end(old(app)@, id@, is_error, text@, now),
{
    set_activity(app, Activity::WaitingForModel { since: now });
    set_result(&mut app.transcript, id, is_error, text);
}

fn take_turn_end(app: &mut App, ttft_ms: Option<u64>, now: u64)
    requires
        old(app).wf(),
    ensures
        final(app).wf(),
        final(app)@ == after_turn(old(app)@, ttft_ms, now),
{
    if ttft_ms.is_some() {
        app.last_turn_ttft_ms = ttft_ms;
    }
    set_activity(app, Activity::WaitingForModel { since: now });
    let blank = String::new();
    assert(blank@ =~= Seq::<char>::empty());
    app.say(TranscriptLine::AssistantText(blank));
}

fn note_plan_mode(app: &mut App)
    requires
        old(app).wf(),
    ensures
        final(app).wf(),
        final(app)@ == (AppView {
            session: match old(app)@.session {
                Some(s) => Some(SessionView { plan_mode: old(app)@.plan_mode, ..s }),
                None => None,
            },
            ..old(app)@
        }),
{
    let plan = app.plan_mode;
    match &mut app.session {
        Some(s) => {
            s.plan_mode = plan;
        },
        None => {},
    }
}

fn take_run_end(
    app: &mut App,
    final_messages: &Vec<Message>,
    usage: Usage,
    turn_count: u32,
    stopped_for: &StopCondition,
    now: u64,
)
    requires
        old(app).wf(),
    ensures
        final(app).wf(),
        final(app)@ == after_run(
            old(app)@,
            messages_view(final_messages@),
            usage,
            turn_count,
            stop_view(*stopped_for),
            now,
        ),
{
    let ttft = app.last_turn_ttft_ms;
    end_of_run(app, stopped_for, now);
    app.say(
        TranscriptLine::UsageSummary {
            input_tokens: usage.input_tokens,
            output_tokens: usage.output_tokens,
            cache_read: usage.cache_read_input_tokens,
            cache_creation: usage.cache_creation_input_tokens,
            last_turn_ttft_ms: ttft,
            turn_count,
        },
    );
    note_plan_mode(app);
    app.last_turn_ttft_ms = None;
    app.messages = clone_messages(final_messages);
    app.running = None;
    app.auto_scroll = true;
}

/// Takes in an event of the agent.
pub fn handle_agent_event(evt: &TurnEvent, app: &mut App, now: u64) -> (effects: Vec<Effect>)
    requires
        old(app).wf(),
    ensures
        final(app).wf(),
        final(app)@ == after_event(old(app)@, *evt, now),
        effects_view(effects@) == event_effects(old(app)@, *evt),
{
    match evt {
        TurnEvent::TurnStart => nothing(),
        TurnEvent::AssistantTextDelta { text } => {
            take_text(app, text.as_str(), now);
            nothing()
        },
        TurnEvent::AssistantThinkingDelta { text } => {
            take_thinking(app, text.as_str(), now);
            nothing()
        },
        TurnEvent::ToolCallStart { tool_use_id, name } => {
            take_call_start(app, tool_use_id.as_str(), name.as_str(), now);
            nothing()
        },
        TurnEvent::ToolCallInputDelta { tool_use_id, partial_json } => {
            app.last_delta_at = now;
            add_input(&mut app.transcript, tool_use_id.as_str(), partial_json.as_str());
            nothing()
        },
        TurnEvent::ToolCallEnd { tool_use_id, is_error, content } => {
            let parts = texts_of_blocks(content);
            let text = join_texts(&parts, "\n");
            take_call_end(app, tool_use_id.as_str(), *is_error, text, now);
            nothing()
        },
        TurnEvent::TurnEnd { ttft_ms, assistant_message, usage } => {
            take_turn_end(app, *ttft_ms, now);
            let mut context = clone_messages(&app.messages);
            push_message(&mut context, clone_message(assistant_message));
            let mut effects = just(Effect::BookTurn(*usage));
            push_effect(&mut effects, Effect::MeasureContext(context));
            assert(effects_view(effects@) =~= event_effects(old(app)@, *evt));
            effects
        },
        TurnEvent::RunEnd { final_messages, total_usage, turn_count, stopped_for } => {
            let kept = app.session.is_some();
            let saved = kept && app.session_store && !app.no_save;
            take_run_end(app, final_messages, *total_usage, *turn_count, stopped_for, now);
            let mut effects = just(Effect::MeasureContext(clone_messages(final_messages)));
            if kept {
                push_effect(
                    &mut effects,
                    Effect::MergeRun {
                        messages: clone_messages(final_messages),
                        usage: *total_usage,
                    },
                );
            }
            if saved {
                push_effect(&mut effects, Effect::SaveSession);
            }
            assert(effects_view(effects@) =~= event_effects(old(app)@, *evt));
            effects
        },
    }
}

/// What a session holds once a run was merged into it.
#[derive(Debug)]
pub struct MergedRun {
    pub turn_count: usize,
    pub input_tokens: u32,
    pub output_tokens: u32,
    pub messages: Vec<Message>,
    /// The tasks, as the agent keeps them.
    pub todos: Vec<String>,
}

/// The state after a run was merged into the session: its counts, its
/// messages and its tasks are those handed in, and its plan mode is the one
/// in force. Without a session nothing changes.
pub open spec fn after_merge(app: AppView, m: MergedRun) -> AppView {
    AppView {
        session: match app.session {
            Some(s) => Some(
                SessionView {
                    name: s.name,
                    turn_count: m.turn_count,
                    input_tokens: m.input_tokens,
                    output_tokens: m.output_tokens,
                    messages: messages_view(m.messages@),
                    plan_mode: app.plan_mode,
                    todos: texts(m.todos@),
                },
            ),
            None => None,
        },
        ..app
    }
}

/// Takes in the session with a run merged into it.
pub fn run_merged(app: &mut App, m: MergedRun)
    requires
        old(app).wf(),
    ensures
        final(app).wf(),
        final(app)@ == after_merge(old(app)@, m),
{
    let plan = app.plan_mode;
    match &mut app.session {
        Some(s) => {
            s.turn_count = m.turn_count;
            s.input_tokens = m.input_tokens;
            s.output_tokens = m.output_tokens;
            s.messages = m.messages;
            s.plan_mode = plan;
            s.todos = m.todos;
        },
        None => {},
    }
}

/// How saving the session went.
pub open spec fn after_save(app: AppView, error: Option<&str>) -> AppView {
    match error {
        None => app.informed("session saved"@),
        Some(e) => app.failed("save failed: "@ + e@),
    }
}

/// Takes in how saving the session went.
pub fn session_saved(app: &mut App, error: Option<&str>)
    requires
        old(app).wf(),
    ensures
        final(app).wf(),
        final(app)@ == after_save(old(app)@, error),
{
    match error {
        None => app.inform("session saved"),
        Some(e) => app.fail(cat2("save failed: ", e).as_str()),
    }
}

/// What stopped the agent without a word of its own.
#[derive(Debug)]
pub enum AgentError<S = String> {
    Cancelled,
    Failed(S),
}

pub open spec fn after_error(app: AppView, e: AgentError<String>) -> AppView {
    let shown = match e {
        AgentError::Cancelled => app.informed("turn cancelled"@),
        AgentError::Failed(m) => app.failed(m@),
    };
    AppView { running: None, ..shown }
}

/// Takes in an error of the agent.
pub fn handle_agent_error(e: &AgentError, app: &mut App)
    requires
        old(app).wf(),
    ensures
        final(app).wf(),
        final(app)@ == after_error(old(app)@, *e),
{
    match e {
        AgentError::Cancelled => app.inform("turn cancelled"),
        AgentError::Failed(m) => app.fail(m.as_str()),
    }
    app.running = None;
}

// ---------------------------------------------------------------------------
// Laws
// ---------------------------------------------------------------------------

/// Text that comes in pieces reads as text that came at once.
pub proof fn law_text_deltas_coalesce(t: Seq<TranscriptLine<Seq<char>>>, a: Seq<char>, b: Seq<char>)
    ensures
        with_text(with_text(t, a), b) == with_text(t, a + b),
        with_thinking(with_thinking(t, a), b) == with_thinking(t, a + b),
{
    let x = with_text(t, a);
    assert(with_text(x, b) =~= with_text(t, a + b)) by {
        if t.len() > 0 && t.last() is AssistantText {
            let s = t.last()->AssistantText_0;
            assert(x.drop_last() =~= t.drop_last());
            assert(s + a + b =~= s + (a + b));
        } else {
            assert(x.drop_last() =~= t);
        }
    }
    let y = with_thinking(t, a);
    assert(with_thinking(y, b) =~= with_thinking(t, a + b)) by {
        if t.len() > 0 && t.last() is AssistantThinking {
            let s = t.last()->AssistantThinking_0;
            assert(y.drop_last() =~= t.drop_last());
            assert(s + a + b =~= s + (a + b));
        } else {
            assert(y.drop_last() =~= t);
        }
    }
}

/// Only an end that came by itself passes in silence.
pub proof fn law_every_other_end_is_shown(s: StopCondition<Seq<char>>)
    ensures
        surface(s) is None <==> s is EndOfTurn,
{
}

/// The end of a run leaves no turn running and follows the transcript again,
/// whatever ended it.
pub proof fn law_run_end_stops_the_turn(app: AppView, evt: TurnEvent, now: u64)
    requires
        evt is RunEnd,
    ensures
        after_event(app, evt, now).running is None,
        after_event(app, evt, now).auto_scroll,
        after_event(app, evt, now).last_turn_ttft_ms is None,
{
}

/// A session is saved exactly where there is one, a place for it, and
/// saving is not switched off; else the end of a run asks for no saving.
pub proof fn law_unsaved_sessions_stay_unsaved(app: AppView, evt: TurnEvent)
    requires
        evt is RunEnd,
    ensures
        event_effects(app, evt).contains(EffectView::SaveSession) <==> app.session is Some
            && app.session_store && !app.no_save,
{
    let e = event_effects(app, evt);
    if app.saves() {
        assert(e[e.len() - 1] == EffectView::SaveSession);
    }
}

/// No event starts a turn.
pub proof fn law_events_start_no_turn(app: AppView, evt: TurnEvent, now: u64)
    requires
        app.running is None,
    ensures
        after_event(app, evt, now).running is None,
{
}

proof fn lemma_last_call(t: Seq<TranscriptLine<Seq<char>>>, id: Seq<char>)
    ensures
        match last_call(t, id) {
            Some(i) => {
                &&& 0 <= i < t.len()
                &&& t[i] is ToolCall
                &&& t[i]->tool_use_id == id
                &&& forall|j: int|
                    i < j < t.len() ==> !(#[trigger] t[j] is ToolCall && t[j]->tool_use_id == id)
            },
            None => forall|j: int|
                0 <= j < t.len() ==> !(#[trigger] t[j] is ToolCall && t[j]->tool_use_id == id),
        },
    decreases t.len(),
{
    if t.len() > 0 && !(t.last() is ToolCall && t.last()->tool_use_id == id) {
        let front = t.drop_last();
        lemma_last_call(front, id);
        assert forall|j: int|
            0 <= j < t.len() && (last_call(t, id) matches Some(i) ==> i < j) implies !(
        #[trigger] t[j] is ToolCall && t[j]->tool_use_id == id) by {
            if j < front.len() {
                assert(front[j] == t[j]);
            }
        }
        match last_call(t, id) {
            Some(i) => {
                assert(front[i] == t[i]);
            },
            None => {},
        }
    }
}

/// The end of a call changes nothing but the last entry of that call: it
/// holds the result from then on, under the name and with the input that it
/// had. Entries of other calls, and all other entries, stay as they were, and
/// where no call has the identifier, all of them do.
pub proof fn law_a_result_reaches_its_call_alone(app: AppView, evt: TurnEvent, now: u64)
    requires
        evt is ToolCallEnd,
    ensures
        ({
            let id = evt->ToolCallEnd_tool_use_id@;
            let text = join(block_texts(blocks_view(evt->content@)), "\n"@);
            let before = app.transcript;
            let after = after_event(app, evt, now).transcript;
            &&& after.len() == before.len()
            &&& forall|i: int|
                0 <= i < before.len() && !(before[i] is ToolCall && before[i]->tool_use_id == id)
                    ==> #[trigger] after[i] == before[i]
            &&& forall|i: int, j: int|
                #![trigger after[i], before[j]]
                0 <= i < j < before.len() && before[j] is ToolCall && before[j]->tool_use_id == id
                    ==> after[i] == before[i]
            &&& forall|i: int|
                0 <= i < before.len() && before[i] is ToolCall && before[i]->tool_use_id == id && (
                forall|j: int|
                    i < j < before.len() ==> !(#[trigger] before[j] is ToolCall
                        && before[j]->tool_use_id == id)) ==> #[trigger] after[i]
                    == TranscriptLine::<Seq<char>>::ToolCall {
                    tool_use_id: id,
                    name: before[i]->name,
                    input: before[i]->input,
                    result: Some((evt->is_error, text)),
                }
        }),
{
    lemma_last_call(app.transcript, evt->ToolCallEnd_tool_use_id@);
}

/// More of a call's input goes behind what the last entry of that call has,
/// and nowhere else.
pub proof fn law_input_reaches_its_call_alone(app: AppView, evt: TurnEvent, now: u64)
    requires
        evt is ToolCallInputDelta,
    ensures
        ({
            let id = evt->ToolCallInputDelta_tool_use_id@;
            let before = app.transcript;
            let after = after_event(app, evt, now).transcript;
            &&& after.len() == before.len()
            &&& forall|i: int|
                0 <= i < before.len() && !(before[i] is ToolCall && before[i]->tool_use_id == id)
                    ==> #[trigger] after[i] == before[i]
            &&& forall|i: int, j: int|
                #![trigger after[i], before[j]]
                0 <= i < j < before.len() && before[j] is ToolCall && before[j]->tool_use_id == id
                    ==> after[i] == before[i]
            &&& forall|i: int|
                0 <= i < before.len() && before[i] is ToolCall && before[i]->tool_use_id == id && (
                forall|j: int|
                    i < j < before.len() ==> !(#[trigger] before[j] is ToolCall
                        && before[j]->tool_use_id == id)) ==> #[trigger] after[i]
                    == TranscriptLine::<Seq<char>>::ToolCall {
                    tool_use_id: id,
                    name: before[i]->name,
                    input: before[i]->input + evt->partial_json@,
                    result: before[i]->result,
                }
        }),
{
    lemma_last_call(app.transcript, evt->ToolCallInputDelta_tool_use_id@);
}

/// A call enters the transcript at its end, under its own identifier and
/// name, with no input and no result yet.
pub proof fn law_a_call_begins_without_a_result(app: AppView, evt: TurnEvent, now: u64)
    requires
        evt is ToolCallStart,
    ensures
        after_event(app, evt, now).transcript == app.transcript.push(
            TranscriptLine::ToolCall {
                tool_use_id: evt->ToolCallStart_tool_use_id@,
                name: evt->ToolCallStart_name@,
                input: Seq::<char>::empty(),
                result: None,
            },
        ),
{
}

/// Of two calls that follow each other under different identifiers, the end
/// of the first leaves the second without a result and gives the first its
/// own.
pub proof fn law_calls_in_one_turn_are_told_apart(
    app: AppView,
    first: TurnEvent,
    second: TurnEvent,
    end: TurnEvent,
    now: u64,
)
    requires
        first is ToolCallStart,
        second is ToolCallStart,
        end is ToolCallEnd,
        end->ToolCallEnd_tool_use_id@ == first->ToolCallStart_tool_use_id@,
        first->ToolCallStart_tool_use_id@ != second->ToolCallStart_tool_use_id@,
    ensures
        ({
            let started = after_event(after_event(app, first, now), second, now);
            let after = after_event(started, end, now).transcript;
            let n = app.transcript.len() as int;
            &&& after.len() == n + 2
            &&& after[n] is ToolCall && after[n]->name == first->ToolCallStart_name@
            &&& after[n]->result == Some(
                (end->is_error, join(block_texts(blocks_view(end->content@)), "\n"@)),
            )
            &&& after[n + 1] is ToolCall && after[n + 1]->name == second->ToolCallStart_name@
            &&& after[n + 1]->result is None
        }),
{
    let started = after_event(after_event(app, first, now), second, now);
    let n = app.transcript.len() as int;
    law_a_result_reaches_its_call_alone(started, end, now);
    assert(started.transcript[n]->tool_use_id == first->ToolCallStart_tool_use_id@);
    assert(started.transcript[n + 1]->tool_use_id == second->ToolCallStart_tool_use_id@);
    let after = after_event(started, end, now).transcript;
    assert(after[n + 1] == started.transcript[n + 1]);
    assert(after[n]->result is Some);
}

/// Text of the assistant extends the transcript by just itself: the last
/// entry is the assistant's text and ends in it, what that entry held before
/// stays in front of it, and no other entry changes. Thinking does the same
/// among the thoughts, and the two never run together.
pub proof fn law_deltas_extend_the_last_entry(app: AppView, evt: TurnEvent, now: u64)
    requires
        evt is AssistantTextDelta || evt is AssistantThinkingDelta,
    ensures
        ({
            let before = app.transcript;
            let after = after_event(app, evt, now).transcript;
            let goes_on = before.len() > 0 && (evt is AssistantTextDelta && before.last() is AssistantText
                || evt is AssistantThinkingDelta && before.last() is AssistantThinking);
            &&& after.len() == before.len() + (if goes_on {
                0int
            } else {
                1
            })
            &&& forall|i: int|
                0 <= i < before.len() && i < after.len() - 1 ==> #[trigger] after[i] == before[i]
            &&& evt matches TurnEvent::AssistantTextDelta { text } ==> after.last()
                == TranscriptLine::AssistantText(
                if goes_on {
                    before.last()->AssistantText_0 + text@
                } else {
                    text@
                },
            )
            &&& evt matches TurnEvent::AssistantThinkingDelta { text } ==> after.last()
                == TranscriptLine::AssistantThinking(
                if goes_on {
                    before.last()->AssistantThinking_0 + text@
                } else {
                    text@
                },
            )
        }),
{
}

/// While a turn runs, the phase follows what comes: text is streamed,
/// thinking is thought, a call is dispatched under its name, and behind a
/// call and behind a turn the model is waited for. A phase that goes on
/// keeps its beginning, another one begins now.
pub proof fn law_the_phase_follows_the_events(app: AppView, evt: TurnEvent, now: u64)
    requires
        app.running is Some,
    ensures
        ({
            let was = app.running->0;
            let doing = after_event(app, evt, now).running;
            match evt {
                TurnEvent::TurnStart => doing == Some(was),
                TurnEvent::ToolCallInputDelta { .. } => doing == Some(was),
                TurnEvent::AssistantTextDelta { .. } => doing == Some(
                    if was is Streaming {
                        was
                    } else {
                        Activity::Streaming { since: now }
                    },
                ),
                TurnEvent::AssistantThinkingDelta { .. } => doing == Some(
                    if was is Thinking {
                        was
                    } else {
                        Activity::Thinking { since: now }
                    },
                ),
                TurnEvent::ToolCallStart { name, .. } => doing == Some(
                    Activity::DispatchingTool { name: name@, since: now },
                ),
                TurnEvent::ToolCallEnd { .. } => doing == Some(
                    Activity::<Seq<char>>::WaitingForModel { since: now },
                ),
                TurnEvent::TurnEnd { .. } => doing == Some(
                    Activity::<Seq<char>>::WaitingForModel { since: now },
                ),
                TurnEvent::RunEnd { .. } => doing is None,
            }
        }),
{
}

/// What the model or a tool sends moves the clock of the last sign of life;
/// the other events leave it.
pub proof fn law_signs_of_life_move_the_clock(app: AppView, evt: TurnEvent, now: u64)
    ensures
        after_event(app, evt, now).last_delta_at == (if evt is AssistantTextDelta
            || evt is AssistantThinkingDelta || evt is ToolCallStart || evt is ToolCallInputDelta {
            now
        } else {
            app.last_delta_at
        }),
{
}

/// Events before the end of a run leave everything alone but the transcript,
/// the phase, the clock of the last sign of life and the time to the first
/// token; that one changes only with a turn that measured it.
pub proof fn law_events_touch_the_turn_alone(app: AppView, evt: TurnEvent, now: u64)
    requires
        !(evt is RunEnd),
    ensures
        ({
            let after = after_event(app, evt, now);
            &&& after == (AppView {
                transcript: after.transcript,
                running: after.running,
                last_delta_at: after.last_delta_at,
                last_turn_ttft_ms: after.last_turn_ttft_ms,
                ..app
            })
            &&& after.last_turn_ttft_ms == (if evt is TurnEnd && evt->ttft_ms is Some {
                evt->ttft_ms
            } else {
                app.last_turn_ttft_ms
            })
        }),
{
}

/// A turn that ends opens an empty text for the next one, is booked with its
/// own usage, and has the conversation measured with its message at the end.
pub proof fn law_a_turn_is_booked_and_measured(app: AppView, evt: TurnEvent, now: u64)
    requires
        evt is TurnEnd,
    ensures
        after_event(app, evt, now).transcript == app.transcript.push(
            TranscriptLine::AssistantText(Seq::<char>::empty()),
        ),
        event_effects(app, evt) == Seq::<EffectView>::empty().push(
            Effect::BookTurn(evt->usage),
        ).push(Effect::MeasureContext(app.messages.push(evt->assistant_message@))),
{
}

/// Only the end of a turn and the end of a run ask anything of the world.
pub proof fn law_other_events_ask_for_nothing(app: AppView, evt: TurnEvent)
    requires
        !(evt is TurnEnd),
        !(evt is RunEnd),
    ensures
        event_effects(app, evt) == Seq::<EffectView>::empty(),
{
}

/// The end of a run puts its messages in place of the conversation, has them
/// measured and merged into the session, where there is one, and ends the
/// transcript in what the run took: its own counts, and the time to the
/// first token that was measured before.
pub proof fn law_a_run_leaves_its_messages_and_figures(app: AppView, evt: TurnEvent, now: u64)
    requires
        evt is RunEnd,
    ensures
        ({
            let after = after_event(app, evt, now);
            let messages = messages_view(evt->final_messages@);
            let usage = evt->total_usage;
            let effects = event_effects(app, evt);
            &&& after.messages == messages
            &&& after.transcript.len() > 0
            &&& after.transcript.last() == TranscriptLine::<Seq<char>>::UsageSummary {
                input_tokens: usage.input_tokens,
                output_tokens: usage.output_tokens,
                cache_read: usage.cache_read_input_tokens,
                cache_creation: usage.cache_creation_input_tokens,
                last_turn_ttft_ms: app.last_turn_ttft_ms,
                turn_count: evt->turn_count,
            }
            &&& effects.len() > 0 && effects[0] == EffectView::MeasureContext(messages)
            &&& app.session is Some ==> effects.len() > 1 && effects[1] == EffectView::MergeRun {
                messages,
                usage,
            }
            &&& app.session is None ==> effects.len() == 1
            &&& after.session is Some == app.session is Some
            &&& app.session matches Some(s) ==> after.session->0 == (SessionView {
                plan_mode: app.plan_mode,
                ..s
            })
        }),
{
}

/// The end of a run adds to the transcript, in front of the figures, one
/// line at most: none where it came by itself, an error with a notice of the
/// same words where it failed, and an information without a notice where it
/// was cancelled or ran out of turns. Everything before it stays.
pub proof fn law_failed_runs_raise_a_notice(app: AppView, evt: TurnEvent, now: u64)
    requires
        evt is RunEnd,
    ensures
        ({
            let stop = evt->stopped_for;
            let after = after_event(app, evt, now);
            let n = app.transcript.len() as int;
            let mild = stop is Cancelled || stop is MaxTurnsReached;
            &&& forall|i: int| 0 <= i < n ==> #[trigger] after.transcript[i] == app.transcript[i]
            &&& stop is EndOfTurn ==> after.transcript.len() == n + 1 && after.toast == app.toast
            &&& mild ==> after.transcript.len() == n + 2 && after.transcript[n] is Info
                && after.toast == app.toast
            &&& !(stop is EndOfTurn) && !mild ==> after.transcript.len() == n + 2
                && after.transcript[n] is Error && after.toast is Some && after.toast->0.level
                == ToastLevel::Error && after.toast->0.text == after.transcript[n]->Error_0
                && after.toast->0.shown_at == now
        }),
{
}

/// What is shown of an end says what ended the run, and holds the words that
/// came with it.
pub proof fn law_ends_are_told_by_their_cause(s: StopCondition<Seq<char>>)
    ensures
        surface(s) matches Some(x) ==> x.line == (match s {
            StopCondition::EndOfTurn => Seq::<char>::empty(),
            StopCondition::ProviderError(m) => "[caliban: provider error: "@ + m + "]"@,
            StopCondition::HookDenied(m) => "[caliban: hook denied: "@ + m + "]"@,
            StopCondition::CompactionFailed(m) => "[caliban: compaction failed: "@ + m + "]"@,
            StopCondition::MaxTurnsReached(n) => "[caliban: max-turns ("@ + decimal(n as nat)
                + ") reached]"@,
            StopCondition::Cancelled => "[caliban: cancelled]"@,
            StopCondition::MaxTokensExhausted =>
                "[caliban: max output tokens exhausted \u{2014} try /effort low]"@,
            StopCondition::Refusal(m) => "[caliban: model refusal: "@ + m + "]"@,
            StopCondition::ContentFilter(m) => "[caliban: content filter: "@ + m + "]"@,
            StopCondition::StreamIdle { secs } => "[caliban: stream idle for "@ + decimal(
                secs as nat,
            ) + "s]"@,
        }) && (x.level == StoppedForLevel::Info <==> s is Cancelled || s is MaxTurnsReached),
{
}

/// Merging a run changes the session alone, and of it all but the name: the
/// counts, messages and tasks are those of the merged run, and the plan mode
/// is the one in force.
pub proof fn law_merging_takes_the_run_over(app: AppView, m: MergedRun)
    ensures
        after_merge(app, m) == (AppView { session: after_merge(app, m).session, ..app }),
        after_merge(app, m).session is Some == app.session is Some,
        app.session matches Some(s) ==> ({
            let t = after_merge(app, m).session->0;
            &&& t.name == s.name
            &&& t.turn_count == m.turn_count
            &&& t.input_tokens == m.input_tokens
            &&& t.output_tokens == m.output_tokens
            &&& t.messages == messages_view(m.messages@)
            &&& t.plan_mode == app.plan_mode
            &&& t.todos == texts(m.todos@)
        }),
{
}

/// Saving is told in one line: an information where it worked, an error with
/// the reason where it did not.
pub proof fn law_saving_is_told(app: AppView, error: Option<&str>)
    ensures
        ({
            let after = after_save(app, error);
            &&& after == (AppView { transcript: after.transcript, ..app })
            &&& after.transcript == app.transcript.push(
                if error is Some {
                    TranscriptLine::Error("save failed: "@ + error->0@)
                } else {
                    TranscriptLine::Info("session saved"@)
                },
            )
        }),
{
}

/// An agent that stopped leaves no turn running and one line: what failed,
/// or that the turn was cancelled.
pub proof fn law_a_stopped_agent_is_told(app: AppView, e: AgentError<String>)
    ensures
        ({
            let after = after_error(app, e);
            &&& after == (AppView { transcript: after.transcript, running: None, ..app })
            &&& after.transcript == app.transcript.push(
                match e {
                    AgentError::Cancelled => TranscriptLine::Info("turn cancelled"@),
                    AgentError::Failed(m) => TranscriptLine::Error(m@),
                },
            )
        }),
{
}

} // verus!
