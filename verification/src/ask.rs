//! Asking the operator for permission: the pending request, what the modal
//! shows of it, the patterns it offers to remember, and what an answer means
//! for the tool call.

use vstd::prelude::*;

use crate::layout::{split_area, split_into, Size};
use crate::path::{parent, parent_of};
use crate::style::{
    lines_view, no_lines, plain, push_line, text_line, Color, Line, LineView, Style,
};
use crate::text::{
    cat2, cat3, cat4, cat5, decimal, decimal_usize, drop_last_char, join, join_texts,
    lines, lines_of, opt_text, prefix, push_text, same, shortened, split_whitespace, starts_with,
    starts_with_text, take_chars, texts, words,
};
use crate::types::{
    fields_view, Action, AskResponse, Field, FieldValue, Rect, Scope, ToolInput, ToolInputView,
};

verus! {

/// How long a request waits for an answer, in milliseconds. After that it is
/// denied.
pub const ASK_TIMEOUT_MS: u64 = 600_000;

// ---------------------------------------------------------------------------
// Summaries
// ---------------------------------------------------------------------------

/// `s` on one line: every run of white space a single blank, none at the
/// ends, at most `max` characters.
pub open spec fn single_line(s: Seq<char>, max: int) -> Seq<char> {
    prefix(join(words(s), " "@), max)
}

pub fn one_line(s: &str, max: usize) -> (out: String)
    ensures
        out@ == single_line(s@, max as int),
{
    let parts = split_whitespace(s);
    let joined = join_texts(&parts, " ");
    take_chars(joined.as_str(), max)
}

/// The string under `key`: nothing where there is no such field or it holds
/// something else.
pub open spec fn text_under(fields: Seq<Field<Seq<char>>>, key: Seq<char>) -> Option<Seq<char>>
    decreases fields.len(),
{
    if fields.len() == 0 {
        None
    } else if fields[0].key == key {
        match fields[0].value {
            FieldValue::Text(t) => Some(t),
            FieldValue::Other(_) => None,
        }
    } else {
        text_under(fields.drop_first(), key)
    }
}

/// The string under `key` of an input; nothing where the input is no object.
pub open spec fn input_text(input: ToolInputView, key: Seq<char>) -> Option<Seq<char>> {
    match input {
        ToolInput::Object(f) => text_under(f, key),
        _ => None,
    }
}

fn field_text(fields: &Vec<Field>, key: &str) -> (r: Option<String>)
    ensures
        opt_text(r) == text_under(fields_view(fields@), key@),
{
    let ghost all = fields_view(fields@);
    let mut i: usize = 0;
    assert(all.skip(0) =~= all);
    while i < fields.len()
        invariant
            i <= fields@.len(),
            all == fields_view(fields@),
            text_under(all, key@) == text_under(all.skip(i as int), key@),
        decreases fields@.len() - i,
    {
        assert(all.skip(i as int)[0] == fields@[i as int]@);
        assert(all.skip(i as int).drop_first() =~= all.skip(i + 1));
        if same(fields[i].key.as_str(), key) {
            return match &fields[i].value {
                FieldValue::Text(t) => Some(t.clone()),
                FieldValue::Other(_) => None,
            };
        }
        i = i + 1;
    }
    None
}

fn text_in(input: &ToolInput, key: &str) -> (r: Option<String>)
    ensures
        opt_text(r) == input_text(input@, key@),
{
    match input {
        ToolInput::Object(f) => field_text(f, key),
        _ => None,
    }
}

/// What a value shows: the string itself, or the compact JSON.
pub open spec fn value_text(v: FieldValue<Seq<char>>) -> Seq<char> {
    match v {
        FieldValue::Text(t) => t,
        FieldValue::Other(t) => t,
    }
}

/// Each field as `key=value`, the value on one line of at most forty
/// characters.
pub open spec fn field_parts(fields: Seq<Field<Seq<char>>>) -> Seq<Seq<char>> {
    Seq::new(
        fields.len(),
        |i: int| fields[i].key + "="@ + single_line(value_text(fields[i].value), 40),
    )
}

/// The summary under the first of `keys` that holds a string.
pub open spec fn keyed_summary(input: Seq<Field<Seq<char>>>, keys: Seq<Seq<char>>) -> Option<Seq<char>>
    decreases keys.len(),
{
    if keys.len() == 0 {
        None
    } else {
        match text_under(input, keys[0]) {
            Some(t) => Some(keys[0] + "="@ + single_line(t, 160)),
            None => keyed_summary(input, keys.drop_first()),
        }
    }
}

/// The fields that a summary looks for, in order of preference.
pub open spec fn summary_keys() -> Seq<Seq<char>> {
    seq!["command"@, "path"@, "url"@, "pattern"@]
}

/// The one-line summary of a tool's input.
pub open spec fn summary(input: ToolInputView) -> Seq<char> {
    match input {
        ToolInput::Object(f) => match keyed_summary(f, summary_keys()) {
            Some(s) => s,
            None => join(field_parts(f), ", "@),
        },
        ToolInput::Text(s) => single_line(s, 160),
        ToolInput::Other(s) => single_line(s, 160),
    }
}

fn summary_under(fields: &Vec<Field>, key: &str) -> (r: Option<String>)
    ensures
        opt_text(r) == (match text_under(fields_view(fields@), key@) {
            Some(t) => Some(key@ + "="@ + single_line(t, 160)),
            None => None,
        }),
{
    match field_text(fields, key) {
        Some(t) => Some(cat3(key, "=", one_line(t.as_str(), 160).as_str())),
        None => None,
    }
}

proof fn lemma_keyed_summary(f: Seq<Field<Seq<char>>>)
    ensures
        keyed_summary(f, summary_keys()) == (match text_under(f, "command"@) {
            Some(t) => Some("command"@ + "="@ + single_line(t, 160)),
            None => match text_under(f, "path"@) {
                Some(t) => Some("path"@ + "="@ + single_line(t, 160)),
                None => match text_under(f, "url"@) {
                    Some(t) => Some("url"@ + "="@ + single_line(t, 160)),
                    None => match text_under(f, "pattern"@) {
                        Some(t) => Some("pattern"@ + "="@ + single_line(t, 160)),
                        None => None,
                    },
                },
            },
        }),
{
    let k = summary_keys();
    assert(k.drop_first() =~= seq!["path"@, "url"@, "pattern"@]);
    assert(k.drop_first().drop_first() =~= seq!["url"@, "pattern"@]);
    assert(k.drop_first().drop_first().drop_first() =~= seq!["pattern"@]);
    assert(k.drop_first().drop_first().drop_first().drop_first() =~= Seq::<Seq<char>>::empty());
    reveal_with_fuel(keyed_summary, 5);
}

pub fn input_summary(input: &ToolInput) -> (out: String)
    ensures
        out@ == summary(input@),
{
    match input {
        ToolInput::Object(fields) => {
            proof {
                lemma_keyed_summary(fields_view(fields@));
            }
            if let Some(s) = summary_under(fields, "command") {
                return s;
            }
            if let Some(s) = summary_under(fields, "path") {
                return s;
            }
            if let Some(s) = summary_under(fields, "url") {
                return s;
            }
            if let Some(s) = summary_under(fields, "pattern") {
                return s;
            }
            let ghost all = field_parts(fields_view(fields@));
            let mut parts: Vec<String> = Vec::new();
            let mut i: usize = 0;
            while i < fields.len()
                invariant
                    i <= fields@.len(),
                    all == field_parts(fields_view(fields@)),
                    texts(parts@) =~= all.take(i as int),
                decreases fields@.len() - i,
            {
                let v = match &fields[i].value {
                    FieldValue::Text(t) => t,
                    FieldValue::Other(t) => t,
                };
                let part = cat3(fields[i].key.as_str(), "=", one_line(v.as_str(), 40).as_str());
                assert(part@ == all[i as int]);
                push_text(&mut parts, part);
                i = i + 1;
                assert(all.take(i as int) =~= all.take(i - 1).push(all[i - 1]));
            }
            assert(texts(parts@) =~= all);
            join_texts(&parts, ", ")
        },
        ToolInput::Text(s) => one_line(s.as_str(), 160),
        ToolInput::Other(s) => one_line(s.as_str(), 160),
    }
}

// ---------------------------------------------------------------------------
// Patterns to remember
// ---------------------------------------------------------------------------

/// A tool whose first argument is a path.
pub open spec fn takes_path(tool: Seq<char>) -> bool {
    tool == "Edit"@ || tool == "Read"@ || tool == "Write"@ || tool == "MultiEdit"@ || tool
        == "NotebookEdit"@
}

fn is_path_tool(tool: &str) -> (r: bool)
    ensures
        r == takes_path(tool@),
{
    same(tool, "Edit") || same(tool, "Read") || same(tool, "Write") || same(tool, "MultiEdit")
        || same(tool, "NotebookEdit")
}

pub open spec fn or_empty(o: Option<Seq<char>>) -> Seq<char> {
    match o {
        Some(s) => s,
        None => Seq::empty(),
    }
}

/// For a shell command: the program, the program with its first argument,
/// the exact line.
pub open spec fn bash_patterns(cmd: Seq<char>) -> Seq<Seq<char>> {
    let w = words(cmd);
    let program = if w.len() >= 1 {
        seq!["Bash:"@ + w[0] + " *"@]
    } else {
        Seq::empty()
    };
    let argument = if w.len() >= 2 {
        program.push("Bash:"@ + w[0] + " "@ + w[1] + "*"@)
    } else {
        program
    };
    argument.push("Bash:"@ + cmd)
}

/// For a file: everything below its directory, everything in its directory,
/// the exact path; the tool alone where no path is known.
pub open spec fn path_patterns(tool: Seq<char>, path: Seq<char>) -> Seq<Seq<char>> {
    if path.len() == 0 {
        seq![tool]
    } else {
        let around = match parent(path) {
            Some(d) => seq![tool + ":"@ + d + "/**"@, tool + ":"@ + d + "/*"@],
            None => Seq::empty(),
        };
        around.push(tool + ":"@ + path)
    }
}

/// The patterns for the strings among the fields.
pub open spec fn field_patterns(tool: Seq<char>, fields: Seq<Field<Seq<char>>>) -> Seq<Seq<char>>
    decreases fields.len(),
{
    if fields.len() == 0 {
        Seq::empty()
    } else {
        let before = field_patterns(tool, fields.drop_last());
        match fields.last().value {
            FieldValue::Text(t) => before.push(
                tool + ":"@ + fields.last().key + "="@ + t,
            ),
            FieldValue::Other(_) => before,
        }
    }
}

/// For a tool of another server: the tool alone, then its first two fields
/// where they hold strings.
pub open spec fn mcp_patterns(tool: Seq<char>, input: ToolInputView) -> Seq<Seq<char>> {
    match input {
        ToolInput::Object(f) => seq![tool] + field_patterns(
            tool,
            f.take(if f.len() < 2 {
                f.len() as int
            } else {
                2
            }),
        ),
        _ => seq![tool],
    }
}

/// The patterns that a call suggests to remember, from the broadest to the
/// narrowest. `path` is the first argument of the call as rules are matched
/// against it.
pub open spec fn suggestions(
    tool: Seq<char>,
    input: ToolInputView,
    path: Option<Seq<char>>,
) -> Seq<Seq<char>> {
    if tool == "Bash"@ {
        bash_patterns(or_empty(input_text(input, "command"@)))
    } else if takes_path(tool) {
        path_patterns(tool, or_empty(path))
    } else if starts_with(tool, "mcp__"@) {
        mcp_patterns(tool, input)
    } else {
        seq![tool]
    }
}

fn bash_suggestions(cmd: &str) -> (out: Vec<String>)
    ensures
        texts(out@) == bash_patterns(cmd@),
{
    let toks = split_whitespace(cmd);
    let ghost w = words(cmd@);
    assert(w.len() == toks@.len());
    let mut out: Vec<String> = Vec::new();
    assert(texts(out@) =~= Seq::<Seq<char>>::empty());
    if toks.len() >= 1 {
        assert(w[0] == toks@[0]@);
        push_text(&mut out, cat3("Bash:", toks[0].as_str(), " *"));
    }
    if toks.len() >= 2 {
        assert(w[1] == toks@[1]@);
        push_text(&mut out, cat5("Bash:", toks[0].as_str(), " ", toks[1].as_str(), "*"));
    }
    push_text(&mut out, cat2("Bash:", cmd));
    out
}

fn path_suggestions(tool: &str, path: &str) -> (out: Vec<String>)
    ensures
        texts(out@) == path_patterns(tool@, path@),
{
    let mut out: Vec<String> = Vec::new();
    assert(texts(out@) =~= Seq::<Seq<char>>::empty());
    if path.is_empty() {
        push_text(&mut out, String::from_str(tool));
        return out;
    }
    if let Some(d) = parent_of(path) {
        push_text(&mut out, cat4(tool, ":", d.as_str(), "/**"));
        push_text(&mut out, cat4(tool, ":", d.as_str(), "/*"));
    }
    push_text(&mut out, cat3(tool, ":", path));
    out
}

fn mcp_suggestions(tool: &str, input: &ToolInput) -> (out: Vec<String>)
    ensures
        texts(out@) == mcp_patterns(tool@, input@),
{
    let mut out: Vec<String> = Vec::new();
    assert(texts(out@) =~= Seq::<Seq<char>>::empty());
    push_text(&mut out, String::from_str(tool));
    if let ToolInput::Object(f) = input {
        let ghost all = fields_view(f@);
        let n: usize = if f.len() < 2 {
            f.len()
        } else {
            2
        };
        let mut i: usize = 0;
        assert(texts(out@) =~= seq![tool@] + field_patterns(tool@, all.take(0)));
        while i < n
            invariant
                i <= n <= f@.len(),
                all == fields_view(f@),
                texts(out@) == seq![tool@] + field_patterns(tool@, all.take(i as int)),
            decreases n - i,
        {
            let ghost before = field_patterns(tool@, all.take(i as int));
            let ghost had = texts(out@);
            assert(all.take(i + 1).drop_last() =~= all.take(i as int));
            assert(all.take(i + 1).last() == f@[i as int]@);
            match &f[i].value {
                FieldValue::Text(t) => {
                    let p = cat5(tool, ":", f[i].key.as_str(), "=", t.as_str());
                    assert(seq![tool@] + before.push(p@) =~= (seq![tool@] + before).push(p@));
                    push_text(&mut out, p);
                },
                FieldValue::Other(_) => {},
            }
            i = i + 1;
        }
    }
    out
}

/// The patterns that a call suggests to remember, from the broadest to the
/// narrowest. `path` is the first argument of the call as rules are matched
/// against it: which field of the input that is, the matcher knows.
pub fn derive_suggestions(tool: &str, input: &ToolInput, path: &Option<String>) -> (out: Vec<String>)
    ensures
        texts(out@) == suggestions(tool@, input@, opt_text(*path)),
{
    if same(tool, "Bash") {
        let cmd = match text_in(input, "command") {
            Some(t) => t,
            None => String::new(),
        };
        assert(cmd@ =~= or_empty(input_text(input@, "command"@)));
        bash_suggestions(cmd.as_str())
    } else if is_path_tool(tool) {
        match path {
            Some(p) => path_suggestions(tool, p.as_str()),
            None => {
                let none = String::new();
                assert(none@ =~= Seq::<char>::empty());
                path_suggestions(tool, none.as_str())
            },
        }
    } else if starts_with_text(tool, "mcp__") {
        mcp_suggestions(tool, input)
    } else {
        let mut out: Vec<String> = Vec::new();
        assert(texts(out@) =~= Seq::<Seq<char>>::empty());
        push_text(&mut out, String::from_str(tool));
        out
    }
}

// ---------------------------------------------------------------------------
// Requests
// ---------------------------------------------------------------------------

/// A tool call that waits for the operator's word. `id` tells it from the
/// others; whoever made the request is answered under it.
#[derive(Debug)]
pub struct AskRequest<S = String, I = ToolInput, O = Option<String>> {
    pub id: u64,
    pub tool_name: S,
    /// The input on one line.
    pub input_summary: S,
    /// The narrowest pattern that the call suggests to remember.
    pub always_pattern: S,
    pub tool_input: I,
    /// The first argument of the call as rules are matched against it.
    pub first_arg: O,
}

pub type AskRequestView = AskRequest<Seq<char>, ToolInputView, Option<Seq<char>>>;

impl View for AskRequest<String, ToolInput, Option<String>> {
    type V = AskRequest<Seq<char>, ToolInputView, Option<Seq<char>>>;

    open spec fn view(&self) -> AskRequest<Seq<char>, ToolInputView, Option<Seq<char>>> {
        AskRequest {
            id: self.id,
            tool_name: self.tool_name@,
            input_summary: self.input_summary@,
            always_pattern: self.always_pattern@,
            tool_input: self.tool_input@,
            first_arg: opt_text(self.first_arg),
        }
    }
}

pub open spec fn requests_view(v: Seq<AskRequest>) -> Seq<AskRequestView> {
    Seq::new(v.len(), |i: int| v[i]@)
}

/// The request that a tool call makes.
pub open spec fn request(
    id: u64,
    tool: Seq<char>,
    input: ToolInputView,
    first_arg: Option<Seq<char>>,
) -> AskRequestView {
    AskRequest {
        id,
        tool_name: tool,
        input_summary: summary(input),
        always_pattern: suggestions(tool, input, first_arg).last(),
        tool_input: input,
        first_arg,
    }
}

/// There is always a pattern to suggest.
pub proof fn lemma_suggestions(tool: Seq<char>, input: ToolInputView, path: Option<Seq<char>>)
    ensures
        suggestions(tool, input, path).len() > 0,
{
}

impl AskRequest<String, ToolInput, Option<String>> {
    pub fn new(id: u64, tool_name: &str, tool_input: ToolInput, first_arg: Option<String>) -> (r: AskRequest)
        ensures
            r@ == request(id, tool_name@, tool_input@, opt_text(first_arg)),
    {
        let all = derive_suggestions(tool_name, &tool_input, &first_arg);
        proof {
            lemma_suggestions(tool_name@, tool_input@, opt_text(first_arg));
            assert(texts(all@).last() == all@.last()@);
        }
        AskRequest {
            id,
            tool_name: String::from_str(tool_name),
            input_summary: input_summary(&tool_input),
            always_pattern: all[all.len() - 1].clone(),
            tool_input,
            first_arg,
        }
    }
}

/// How a request came to its end.
#[derive(Debug, Clone, Copy, PartialEq, Eq, Structural)]
pub enum AskEnd {
    Answered(AskResponse),
    /// Nobody will answer any more.
    Dropped,
    TimedOut,
    /// There was nobody to ask.
    Unavailable,
}

/// What is decided of a tool call.
#[derive(Debug)]
pub enum HookDecision<S = String> {
    Allow,
    Deny(S),
}

pub open spec fn decision_view(d: HookDecision<String>) -> HookDecision<Seq<char>> {
    match d {
        HookDecision::Allow => HookDecision::Allow,
        HookDecision::Deny(s) => HookDecision::Deny(s@),
    }
}

/// What the end of a request means for the tool call: it runs only where the
/// operator allowed it.
pub open spec fn decided(tool: Seq<char>, end: AskEnd) -> HookDecision<Seq<char>> {
    let denied = "permission denied for tool '"@ + tool + "'"@;
    match end {
        AskEnd::Answered(AskResponse::AllowOnce) => HookDecision::Allow,
        AskEnd::Answered(AskResponse::AlwaysAllow) => HookDecision::Allow,
        AskEnd::Answered(_) => HookDecision::Deny(denied),
        AskEnd::Dropped => HookDecision::Deny(denied),
        AskEnd::TimedOut => HookDecision::Deny(denied + ": ask modal timed out"@),
        AskEnd::Unavailable => HookDecision::Deny(denied + ": Ask modal unavailable"@),
    }
}

/// What is decided of the call of `tool` whose request ended so.
pub fn ask_decision(tool: &str, end: AskEnd) -> (r: HookDecision)
    ensures
        decision_view(r) == decided(tool@, end),
{
    let denied = cat3("permission denied for tool '", tool, "'");
    match end {
        AskEnd::Answered(AskResponse::AllowOnce) => HookDecision::Allow,
        AskEnd::Answered(AskResponse::AlwaysAllow) => HookDecision::Allow,
        AskEnd::Answered(_) => HookDecision::Deny(denied),
        AskEnd::Dropped => HookDecision::Deny(denied),
        AskEnd::TimedOut => HookDecision::Deny(cat2(denied.as_str(), ": ask modal timed out")),
        AskEnd::Unavailable => HookDecision::Deny(cat2(denied.as_str(), ": Ask modal unavailable")),
    }
}

// ---------------------------------------------------------------------------
// The sub-prompt
// ---------------------------------------------------------------------------

/// The pattern to remember, being chosen. The rows are the suggestions and,
/// one past them, a row for a pattern of the operator's own.
#[derive(Debug)]
pub struct AlwaysSubprompt<S = String, L = Vec<String>, O = Option<String>> {
    /// From the broadest to the narrowest.
    pub suggestions: L,
    /// The row that the cursor is on.
    pub selected: usize,
    /// The operator's own pattern; nothing until that row was visited.
    pub custom: O,
    /// Whether the pattern would match the pending call.
    pub preview_matches: bool,
    pub scope: Scope,
    pub comment: S,
    /// Why it is denied.
    pub reason: S,
    pub action: Action,
}

pub type SubpromptView = AlwaysSubprompt<Seq<char>, Seq<Seq<char>>, Option<Seq<char>>>;

impl View for AlwaysSubprompt<String, Vec<String>, Option<String>> {
    type V = AlwaysSubprompt<Seq<char>, Seq<Seq<char>>, Option<Seq<char>>>;

    open spec fn view(&self) -> AlwaysSubprompt<Seq<char>, Seq<Seq<char>>, Option<Seq<char>>> {
        AlwaysSubprompt {
            suggestions: texts(self.suggestions@),
            selected: self.selected,
            custom: opt_text(self.custom),
            preview_matches: self.preview_matches,
            scope: self.scope,
            comment: self.comment@,
            reason: self.reason@,
            action: self.action,
        }
    }
}

/// The scope after `s` in the order in which the picker walks them.
pub open spec fn scope_after(s: Scope) -> Scope {
    match s {
        Scope::Cli => Scope::Project,
        Scope::Project => Scope::User,
        Scope::User => Scope::Local,
        Scope::Local => Scope::Cli,
        Scope::Managed => Scope::Cli,
    }
}

impl AlwaysSubprompt<Seq<char>, Seq<Seq<char>>, Option<Seq<char>>> {
    /// A sub-prompt over some patterns, with the cursor on the narrowest.
    pub open spec fn over(patterns: Seq<Seq<char>>, custom: Option<Seq<char>>, matches: bool, action: Action) -> SubpromptView {
        AlwaysSubprompt {
            suggestions: patterns,
            selected: (if patterns.len() > 0 {
                patterns.len() - 1
            } else {
                0
            }) as usize,
            custom,
            preview_matches: matches,
            scope: Scope::Project,
            comment: Seq::empty(),
            reason: Seq::empty(),
            action,
        }
    }

    pub open spec fn on_custom(self) -> bool {
        self.selected >= self.suggestions.len()
    }

    pub open spec fn pattern(self) -> Seq<char> {
        if self.on_custom() {
            or_empty(self.custom)
        } else {
            self.suggestions[self.selected as int]
        }
    }

    pub open spec fn up(self) -> SubpromptView {
        AlwaysSubprompt {
            selected: (if self.selected > 0 {
                self.selected - 1
            } else {
                0
            }) as usize,
            ..self
        }
    }

    pub open spec fn down(self) -> SubpromptView {
        let selected = if self.selected < self.suggestions.len() {
            self.selected + 1
        } else {
            self.selected as int
        };
        AlwaysSubprompt {
            selected: selected as usize,
            custom: if selected == self.suggestions.len() && self.custom is None {
                Some(Seq::empty())
            } else {
                self.custom
            },
            ..self
        }
    }

    pub open spec fn next_scope(self) -> SubpromptView {
        AlwaysSubprompt { scope: scope_after(self.scope), ..self }
    }

    /// A character goes to the operator's own pattern where the cursor is on
    /// its row, and to the comment elsewhere.
    pub open spec fn typed(self, c: char) -> SubpromptView {
        if self.on_custom() {
            AlwaysSubprompt { custom: Some(or_empty(self.custom).push(c)), ..self }
        } else {
            AlwaysSubprompt { comment: self.comment.push(c), ..self }
        }
    }

    pub open spec fn erased(self) -> SubpromptView {
        if self.on_custom() {
            AlwaysSubprompt {
                custom: match self.custom {
                    Some(s) => Some(shortened(s)),
                    None => None,
                },
                ..self
            }
        } else {
            AlwaysSubprompt { comment: shortened(self.comment), ..self }
        }
    }
}

impl AlwaysSubprompt<String, Vec<String>, Option<String>> {
    /// A sub-prompt over some patterns, with the cursor on the narrowest.
    pub fn new(suggestions: Vec<String>, custom: Option<String>, preview_matches: bool, action: Action) -> (r: AlwaysSubprompt)
        ensures
            r@ == SubpromptView::over(texts(suggestions@), opt_text(custom), preview_matches, action),
    {
        let selected: usize = if suggestions.len() > 0 {
            suggestions.len() - 1
        } else {
            0
        };
        let r = AlwaysSubprompt {
            suggestions,
            selected,
            custom,
            preview_matches,
            scope: Scope::Project,
            comment: String::new(),
            reason: String::new(),
            action,
        };
        assert(r@.comment =~= Seq::<char>::empty());
        assert(r@.reason =~= Seq::<char>::empty());
        r
    }

    /// Whether the cursor is on the operator's own row.
    pub fn is_custom_selected(&self) -> (r: bool)
        ensures
            r == self@.on_custom(),
    {
        self.selected >= self.suggestions.len()
    }

    /// The pattern that the cursor is on.
    pub fn selected_pattern(&self) -> (r: String)
        ensures
            r@ == self@.pattern(),
    {
        if self.is_custom_selected() {
            match &self.custom {
                Some(s) => s.clone(),
                None => {
                    let r = String::new();
                    assert(r@ =~= Seq::<char>::empty());
                    r
                },
            }
        } else {
            self.suggestions[self.selected].clone()
        }
    }

    pub fn move_up(&mut self)
        ensures
            final(self)@ == old(self)@.up(),
    {
        if self.selected > 0 {
            self.selected = self.selected - 1;
        }
    }

    pub fn move_down(&mut self)
        ensures
            final(self)@ == old(self)@.down(),
    {
        let n: usize = self.suggestions.len();
        if self.selected < n {
            self.selected = self.selected + 1;
        }
        if self.selected == n && self.custom.is_none() {
            let s = String::new();
            assert(s@ =~= Seq::<char>::empty());
            self.custom = Some(s);
        }
    }

    pub fn cycle_scope(&mut self)
        ensures
            final(self)@ == old(self)@.next_scope(),
    {
        self.scope = match self.scope {
            Scope::Cli => Scope::Project,
            Scope::Project => Scope::User,
            Scope::User => Scope::Local,
            Scope::Local => Scope::Cli,
            Scope::Managed => Scope::Cli,
        };
    }

    pub fn push_char(&mut self, c: char)
        ensures
            final(self)@ == old(self)@.typed(c),
    {
        if self.is_custom_selected() {
            let mut s = match &self.custom {
                Some(s) => s.clone(),
                None => String::new(),
            };
            assert(s@ =~= or_empty(opt_text(self.custom)));
            s.push(c);
            self.custom = Some(s);
        } else {
            self.comment.push(c);
        }
    }

    pub fn pop_char(&mut self)
        ensures
            final(self)@ == old(self)@.erased(),
    {
        if self.is_custom_selected() {
            let custom = match &self.custom {
                Some(s) => {
                    let mut t = s.clone();
                    drop_last_char(&mut t);
                    Some(t)
                },
                None => None,
            };
            self.custom = custom;
        } else {
            drop_last_char(&mut self.comment);
        }
    }
}

// ---------------------------------------------------------------------------
// What the sub-prompt shows
// ---------------------------------------------------------------------------

/// Most lines shown of the pending call.
pub const MAX_EXCERPT_LINES: usize = 6;

/// The row of keys at the bottom of the sub-prompt.
pub open spec fn footer_of(action: Action) -> Seq<char> {
    match action {
        Action::Deny => "\u{2191}/\u{2193} move   [tab] cycle scope   [enter] save   [esc] cancel (deny once, no rule)"@,
        _ => "\u{2191}/\u{2193} move   [tab] cycle scope   [enter] save   [esc] cancel (allow once, no rule)"@,
    }
}

/// The row of keys at the bottom of the sub-prompt.
pub fn subprompt_footer(action: Action) -> (r: &'static str)
    ensures
        r@ == footer_of(action),
{
    match action {
        Action::Deny => "\u{2191}/\u{2193} move   [tab] cycle scope   [enter] save   [esc] cancel (deny once, no rule)",
        _ => "\u{2191}/\u{2193} move   [tab] cycle scope   [enter] save   [esc] cancel (allow once, no rule)",
    }
}

pub open spec fn title_of(action: Action) -> Seq<char> {
    match action {
        Action::Allow => " Always allow "@,
        Action::Deny => " Always deny "@,
        Action::Ask => " Always "@,
    }
}

pub fn subprompt_title(action: Action) -> (r: &'static str)
    ensures
        r@ == title_of(action),
{
    match action {
        Action::Allow => " Always allow ",
        Action::Deny => " Always deny ",
        Action::Ask => " Always ",
    }
}

/// How many lines of an excerpt are shown.
pub open spec fn excerpt_shown(total: int) -> int {
    if total > MAX_EXCERPT_LINES {
        MAX_EXCERPT_LINES as int
    } else {
        total
    }
}

/// The rows that an excerpt takes, with the one that says what was left out.
pub open spec fn excerpt_rows(total: int) -> int {
    if total > MAX_EXCERPT_LINES {
        MAX_EXCERPT_LINES + 1
    } else {
        total
    }
}

/// The pending call: its tool, then at most six lines of its input.
pub open spec fn summary_lines(tool: Seq<char>, excerpt: Seq<char>) -> Seq<LineView> {
    let ls = lines(excerpt);
    let shown = excerpt_shown(ls.len() as int);
    let head = seq![text_line("Pending tool call: "@ + tool)] + Seq::new(
        shown as nat,
        |i: int| text_line("  "@ + ls[i]),
    );
    if ls.len() > shown {
        head.push(text_line("  \u{2026} ("@ + decimal((ls.len() - shown) as nat) + " more line(s))"@))
    } else {
        head
    }
}

pub fn subprompt_summary(tool: &str, excerpt: &str) -> (out: Vec<Line>)
    ensures
        lines_view(out@) == summary_lines(tool@, excerpt@),
{
    let ls = lines_of(excerpt);
    let ghost all = lines(excerpt@);
    assert(texts(ls@).len() == ls@.len());
    let shown: usize = if ls.len() > MAX_EXCERPT_LINES {
        MAX_EXCERPT_LINES
    } else {
        ls.len()
    };
    let ghost body = Seq::new(shown as nat, |i: int| text_line("  "@ + all[i]));
    let mut out = no_lines();
    push_line(&mut out, Line::raw(cat2("Pending tool call: ", tool).as_str()));
    let ghost head = lines_view(out@);
    assert(head =~= seq![text_line("Pending tool call: "@ + tool@)] + body.take(0));
    let mut i: usize = 0;
    while i < shown
        invariant
            i <= shown <= ls@.len(),
            texts(ls@) == all,
            body == Seq::new(shown as nat, |i: int| text_line("  "@ + all[i])),
            lines_view(out@) =~= seq![text_line("Pending tool call: "@ + tool@)] + body.take(i as int),
        decreases shown - i,
    {
        push_line(&mut out, Line::raw(cat2("  ", ls[i].as_str()).as_str()));
        assert(all[i as int] == ls@[i as int]@);
        i = i + 1;
        assert(body.take(i as int) =~= body.take(i - 1).push(body[i - 1]));
    }
    assert(body.take(shown as int) =~= body);
    if ls.len() > shown {
        push_line(
            &mut out,
            Line::raw(cat3("  \u{2026} (", decimal_usize(ls.len() - shown).as_str(), " more line(s))").as_str()),
        );
    }
    out
}

/// How the sub-prompt is split from top to bottom: the pending call, the
/// patterns, the scopes, the comments and the footer, with a row between
/// them and what is left over above the footer.
pub open spec fn prompt_sizes(excerpt_lines: int, suggestions: int) -> Seq<Size> {
    seq![
        Size::Length((2 + excerpt_rows(excerpt_lines)) as u16),
        Size::Length(1),
        Size::Length((suggestions + 3) as u16),
        Size::Length(1),
        Size::Length(5),
        Size::Length(1),
        Size::Length(2),
        Size::Min(0),
        Size::Length(1),
    ]
}

/// How the sub-prompt is split, for an excerpt and so many patterns.
pub fn subprompt_sizes(excerpt: &str, suggestions: usize) -> (sizes: Vec<Size>)
    requires
        suggestions + 3 <= u16::MAX,
    ensures
        sizes@ == prompt_sizes(lines(excerpt@).len() as int, suggestions as int),
{
    let ls = lines_of(excerpt);
    assert(texts(ls@).len() == ls@.len());
    let rows: u16 = if ls.len() > MAX_EXCERPT_LINES {
        (MAX_EXCERPT_LINES + 1) as u16
    } else {
        ls.len() as u16
    };
    let mut sizes: Vec<Size> = Vec::new();
    sizes.push(Size::Length(2 + rows));
    sizes.push(Size::Length(1));
    sizes.push(Size::Length(suggestions as u16 + 3));
    sizes.push(Size::Length(1));
    sizes.push(Size::Length(5));
    sizes.push(Size::Length(1));
    sizes.push(Size::Length(2));
    sizes.push(Size::Min(0));
    sizes.push(Size::Length(1));
    assert(sizes@ =~= prompt_sizes(lines(excerpt@).len() as int, suggestions as int));
    sizes
}

/// The places of the sub-prompt's parts inside its border.
pub fn subprompt_parts(inner: Rect, excerpt: &str, suggestions: usize) -> (parts: Vec<Rect>)
    requires
        suggestions + 3 <= u16::MAX,
    ensures
        split_into(
            parts@,
            inner,
            true,
            prompt_sizes(lines(excerpt@).len() as int, suggestions as int),
        ),
{
    split_area(inner, true, &subprompt_sizes(excerpt, suggestions))
}

pub open spec fn marker(on: bool) -> Seq<char> {
    if on {
        "(\u{2022})"@
    } else {
        "( )"@
    }
}

fn mark(on: bool) -> (r: &'static str)
    ensures
        r@ == marker(on),
{
    if on {
        "(\u{2022})"
    } else {
        "( )"
    }
}

/// One row for each suggestion, marked where the cursor is on it.
pub open spec fn suggestion_rows(sp: SubpromptView) -> Seq<LineView> {
    Seq::new(
        sp.suggestions.len(),
        |i: int| text_line("  "@ + marker(i == sp.selected) + " "@ + sp.suggestions[i]),
    )
}

/// The rows to choose a pattern from: a heading, the suggestions, the
/// operator's own, and whether the choice would match the pending call.
pub open spec fn suggestion_lines(sp: SubpromptView) -> Seq<LineView> {
    let head = seq![
        text_line(
            "Suggested patterns (\u{2191}/\u{2193} to move, type to edit comment / custom pattern):"@,
        ),
    ] + suggestion_rows(sp);
    head.push(
        text_line(
            "  "@ + marker(sp.on_custom()) + " [custom] "@ + (match sp.custom {
                Some(s) => s,
                None => "(empty \u{2014} type to fill)"@,
            }),
        ),
    ).push(
        if sp.preview_matches {
            crate::style::row(
                seq![
                    crate::style::span(
                        "\u{2713} would match pending input"@,
                        plain().with_fg(Color::Green),
                    ),
                ],
            )
        } else {
            crate::style::row(
                seq![
                    crate::style::span(
                        "\u{2717} would NOT match pending input"@,
                        plain().with_fg(Color::Red),
                    ),
                ],
            )
        },
    )
}

pub fn subprompt_suggestions(sp: &AlwaysSubprompt) -> (out: Vec<Line>)
    ensures
        lines_view(out@) == suggestion_lines(sp@),
{
    let mut out = no_lines();
    push_line(
        &mut out,
        Line::raw(
            "Suggested patterns (\u{2191}/\u{2193} to move, type to edit comment / custom pattern):",
        ),
    );
    let ghost head = lines_view(out@);
    let ghost rows = suggestion_rows(sp@);
    let mut i: usize = 0;
    assert(head =~= head + rows.take(0));
    while i < sp.suggestions.len()
        invariant
            i <= sp.suggestions@.len(),
            rows == suggestion_rows(sp@),
            lines_view(out@) =~= head + rows.take(i as int),
        decreases sp.suggestions@.len() - i,
    {
        push_line(
            &mut out,
            Line::raw(cat4("  ", mark(i == sp.selected), " ", sp.suggestions[i].as_str()).as_str()),
        );
        assert(sp@.suggestions[i as int] == sp.suggestions@[i as int]@);
        i = i + 1;
        assert(rows.take(i as int) =~= rows.take(i - 1).push(rows[i - 1]));
    }
    assert(rows.take(sp.suggestions@.len() as int) =~= rows);
    let own = match &sp.custom {
        Some(s) => s.clone(),
        None => String::from_str("(empty \u{2014} type to fill)"),
    };
    push_line(
        &mut out,
        Line::raw(cat4("  ", mark(sp.is_custom_selected()), " [custom] ", own.as_str()).as_str()),
    );
    let preview = if sp.preview_matches {
        crate::style::styled("\u{2713} would match pending input", Style::default().fg(Color::Green))
    } else {
        crate::style::styled("\u{2717} would NOT match pending input", Style::default().fg(Color::Red))
    };
    push_line(&mut out, Line::of1(preview));
    out
}

/// The scopes that can be picked, each with what it means.
pub open spec fn scope_choices() -> Seq<(Scope, Seq<char>)> {
    seq![
        (Scope::Cli, "session  (in-memory; gone on restart)"@),
        (Scope::Project, "project  (.caliban/permissions.toml; commit-friendly)"@),
        (Scope::User, "user     (~/.config/caliban/permissions.toml)"@),
        (Scope::Local, "local    (.caliban/permissions.local.toml; gitignored)"@),
    ]
}

pub open spec fn scope_lines(scope: Scope) -> Seq<LineView> {
    seq![text_line("Save to:"@)] + Seq::new(
        4,
        |i: int|
            text_line(
                "  "@ + marker(scope == scope_choices()[i].0) + " "@ + scope_choices()[i].1,
            ),
    )
}

pub fn subprompt_scopes(scope: Scope) -> (out: Vec<Line>)
    ensures
        lines_view(out@) == scope_lines(scope),
{
    let mut out = no_lines();
    push_line(&mut out, Line::raw("Save to:"));
    push_line(
        &mut out,
        Line::raw(
            cat4("  ", mark(scope == Scope::Cli), " ", "session  (in-memory; gone on restart)").as_str(),
        ),
    );
    push_line(
        &mut out,
        Line::raw(
            cat4(
                "  ",
                mark(scope == Scope::Project),
                " ",
                "project  (.caliban/permissions.toml; commit-friendly)",
            ).as_str(),
        ),
    );
    push_line(
        &mut out,
        Line::raw(
            cat4(
                "  ",
                mark(scope == Scope::User),
                " ",
                "user     (~/.config/caliban/permissions.toml)",
            ).as_str(),
        ),
    );
    push_line(
        &mut out,
        Line::raw(
            cat4(
                "  ",
                mark(scope == Scope::Local),
                " ",
                "local    (.caliban/permissions.local.toml; gitignored)",
            ).as_str(),
        ),
    );
    assert(lines_view(out@) =~= scope_lines(scope));
    out
}

/// The comment, and for a denial the reason.
pub open spec fn comment_lines(sp: SubpromptView) -> Seq<LineView> {
    if sp.action == Action::Deny {
        seq![text_line("Comment: "@ + sp.comment), text_line("Reason : "@ + sp.reason)]
    } else {
        seq![text_line("Comment: "@ + sp.comment)]
    }
}

pub fn subprompt_comments(sp: &AlwaysSubprompt) -> (out: Vec<Line>)
    ensures
        lines_view(out@) == comment_lines(sp@),
{
    let mut out = no_lines();
    push_line(&mut out, Line::raw(cat2("Comment: ", sp.comment.as_str()).as_str()));
    if sp.action == Action::Deny {
        push_line(&mut out, Line::raw(cat2("Reason : ", sp.reason.as_str()).as_str()));
    }
    out
}

// ---------------------------------------------------------------------------
// Laws
// ---------------------------------------------------------------------------

/// A call runs only where the operator answered that it may: a denial, a
/// dropped request, a timeout and a missing front end all deny it.
pub proof fn law_only_an_answer_allows(tool: Seq<char>, end: AskEnd)
    ensures
        decided(tool, end) is Allow <==> (end == AskEnd::Answered(AskResponse::AllowOnce) || end
            == AskEnd::Answered(AskResponse::AlwaysAllow)),
{
}

/// The pattern shown with a request is the last of those offered to
/// remember.
pub proof fn law_label_and_suggestions_agree(
    id: u64,
    tool: Seq<char>,
    input: ToolInputView,
    path: Option<Seq<char>>,
)
    ensures
        request(id, tool, input, path).always_pattern == suggestions(tool, input, path).last(),
        SubpromptView::over(suggestions(tool, input, path), None, true, Action::Allow).pattern() == request(
            id,
            tool,
            input,
            path,
        ).always_pattern || suggestions(tool, input, path).len() > usize::MAX,
{
    lemma_suggestions(tool, input, path);
}

/// No pattern is offered that ends in the colon behind a file tool's name:
/// such a rule could never match.
pub proof fn law_no_pattern_without_a_path(
    tool: Seq<char>,
    input: ToolInputView,
    path: Option<Seq<char>>,
    i: int,
)
    requires
        takes_path(tool),
        0 <= i < suggestions(tool, input, path).len(),
    ensures
        suggestions(tool, input, path)[i] != tool + ":"@,
{
    reveal_strlit("Bash");
    reveal_strlit("Edit");
    reveal_strlit("Read");
    reveal_strlit("Write");
    reveal_strlit("MultiEdit");
    reveal_strlit("NotebookEdit");
    reveal_strlit(":");
    reveal_strlit("/**");
    reveal_strlit("/*");
    assert(tool != "Bash"@) by {
        if tool == "Bash"@ {
            assert(tool[0] == 'B');
            assert("Edit"@[0] == 'E');
            assert("Read"@[0] == 'R');
            assert("Write"@[0] == 'W');
            assert("MultiEdit"@[0] == 'M');
            assert("NotebookEdit"@[0] == 'N');
        }
    }
    let all = suggestions(tool, input, path);
    let path = or_empty(path);
    assert(all == path_patterns(tool, path));
    if path.len() == 0 {
        assert(all[i] == tool);
        assert((tool + ":"@).len() == tool.len() + 1);
    } else {
        match parent(path) {
            Some(d) => {
                assert(all[i].len() > tool.len() + 1);
            },
            None => {
                assert(all[i] == tool + ":"@ + path);
                assert(all[i].len() > tool.len() + 1);
            },
        }
    }
}

/// Arrow keys keep the cursor on the suggestions and the row for the
/// operator's own pattern; reaching that row opens it for typing.
pub proof fn law_cursor_stays_on_the_rows(sp: SubpromptView)
    requires
        sp.selected <= sp.suggestions.len() <= usize::MAX,
    ensures
        sp.up().selected <= sp.suggestions.len(),
        sp.down().selected <= sp.suggestions.len(),
        sp.down().on_custom() ==> sp.down().custom is Some,
        sp.selected < sp.suggestions.len() ==> sp.down().up().selected == sp.selected,
{
}

/// Four steps of the scope picker come back to where it started, for every
/// scope that can be picked.
pub proof fn law_scope_picker_comes_round(s: Scope)
    requires
        s != Scope::Managed,
    ensures
        scope_after(scope_after(scope_after(scope_after(s)))) == s,
        scope_after(s) != Scope::Managed,
{
}

/// Typing never touches both the comment and the operator's own pattern.
pub proof fn law_typing_edits_one_field(sp: SubpromptView, c: char)
    ensures
        sp.on_custom() ==> sp.typed(c).comment == sp.comment && sp.typed(c).pattern() == sp.pattern().push(c),
        !sp.on_custom() ==> sp.typed(c).custom == sp.custom && sp.typed(c).comment == sp.comment.push(c),
{
}

/// The pattern that is chosen is the one on the cursor's row: the suggestion
/// of that position, for every suggestion, and the operator's own, as far as
/// it was typed, on the row behind them.
pub proof fn law_the_chosen_pattern_is_on_the_cursors_row(sp: SubpromptView)
    ensures
        sp.selected < sp.suggestions.len() ==> sp.pattern() == sp.suggestions[sp.selected as int],
        sp.selected >= sp.suggestions.len() ==> sp.pattern() == (if sp.custom is Some {
            sp.custom->0
        } else {
            Seq::<char>::empty()
        }),
        sp.on_custom() <==> sp.selected >= sp.suggestions.len(),
{
}

/// A sub-prompt opens over the patterns that it is given, in their order,
/// with the cursor on the last of them, for the project's file, with nothing
/// said yet.
pub proof fn law_subprompts_open_on_the_narrowest(
    patterns: Seq<Seq<char>>,
    custom: Option<Seq<char>>,
    matches: bool,
    action: Action,
)
    requires
        0 < patterns.len() <= usize::MAX,
    ensures
        ({
            let sp = SubpromptView::over(patterns, custom, matches, action);
            &&& sp.suggestions == patterns
            &&& sp.selected == patterns.len() - 1
            &&& sp.pattern() == patterns.last()
            &&& sp.custom == custom
            &&& sp.preview_matches == matches
            &&& sp.scope == Scope::Project
            &&& sp.comment.len() == 0
            &&& sp.reason.len() == 0
            &&& sp.action == action
        }),
{
}

/// The arrows move the cursor by one row and change nothing else, but for
/// opening the operator's own row when it is reached; they stop at the ends.
pub proof fn law_arrows_move_by_one_row(sp: SubpromptView)
    requires
        sp.selected <= sp.suggestions.len() <= usize::MAX,
    ensures
        sp.up() == (SubpromptView { selected: sp.up().selected, ..sp }),
        sp.up().selected == (if sp.selected == 0 {
            0int
        } else {
            sp.selected - 1
        }),
        sp.down() == (SubpromptView {
            selected: sp.down().selected,
            custom: sp.down().custom,
            ..sp
        }),
        sp.down().selected == (if sp.selected == sp.suggestions.len() {
            sp.selected as int
        } else {
            sp.selected + 1
        }),
        sp.custom is Some ==> sp.down().custom == sp.custom,
        sp.custom is None ==> sp.down().custom == (if sp.down().selected == sp.suggestions.len() {
            Some(Seq::<char>::empty())
        } else {
            None
        }),
{
}

/// The scopes are walked from the session over the project and the user to
/// the local file, and nothing else changes with them.
pub proof fn law_scopes_are_walked_in_order(sp: SubpromptView)
    ensures
        sp.next_scope() == (SubpromptView { scope: sp.next_scope().scope, ..sp }),
        sp.scope == Scope::Cli ==> sp.next_scope().scope == Scope::Project,
        sp.scope == Scope::Project ==> sp.next_scope().scope == Scope::User,
        sp.scope == Scope::User ==> sp.next_scope().scope == Scope::Local,
        sp.scope == Scope::Local ==> sp.next_scope().scope == Scope::Cli,
{
}

/// Erasing takes the last character off again that typing put there, of the
/// comment or of the operator's own pattern, and leaves the rest.
pub proof fn law_erasing_undoes_typing(sp: SubpromptView, c: char)
    ensures
        !(sp.on_custom() && sp.custom is None) ==> sp.typed(c).erased() == sp,
        sp.typed(c) == (SubpromptView {
            custom: sp.typed(c).custom,
            comment: sp.typed(c).comment,
            ..sp
        }),
        sp.on_custom() ==> sp.typed(c).pattern() == sp.pattern() + seq![c],
        !sp.on_custom() ==> sp.typed(c).comment == sp.comment + seq![c],
{
    let t = sp.typed(c);
    if sp.on_custom() {
        assert(or_empty(sp.custom).push(c).drop_last() =~= or_empty(sp.custom));
        assert(or_empty(sp.custom).push(c) =~= or_empty(sp.custom) + seq![c]);
    } else {
        assert(sp.comment.push(c).drop_last() =~= sp.comment);
        assert(sp.comment.push(c) =~= sp.comment + seq![c]);
    }
}

proof fn lemma_text_under(fields: Seq<Field<Seq<char>>>, key: Seq<char>, i: int)
    requires
        0 <= i < fields.len(),
        fields[i].key == key,
        forall|j: int| 0 <= j < i ==> (#[trigger] fields[j]).key != key,
    ensures
        text_under(fields, key) == (match fields[i].value {
            FieldValue::Text(t) => Some(t),
            FieldValue::Other(_) => None,
        }),
    decreases i,
{
    if i > 0 {
        assert(fields[0].key != key);
        let rest = fields.drop_first();
        assert forall|j: int| 0 <= j < i - 1 implies (#[trigger] rest[j]).key != key by {
            assert(rest[j] == fields[j + 1]);
        }
        assert(rest[i - 1] == fields[i]);
        lemma_text_under(rest, key, i - 1);
    }
}

/// A field is found by its key: the first one that has it gives its text,
/// or nothing where it holds something else.
pub proof fn law_fields_are_found_by_key(fields: Seq<Field<Seq<char>>>, key: Seq<char>, i: int)
    requires
        0 <= i < fields.len(),
        fields[i].key == key,
        forall|j: int| 0 <= j < i ==> (#[trigger] fields[j]).key != key,
    ensures
        fields[i].value matches FieldValue::Text(t) ==> input_text(ToolInput::Object(fields), key)
            == Some(t),
        fields[i].value is Other ==> input_text(ToolInput::Object(fields), key) is None,
{
    lemma_text_under(fields, key, i);
}

/// A key that no field has gives nothing.
pub proof fn law_absent_fields_give_nothing(fields: Seq<Field<Seq<char>>>, key: Seq<char>)
    requires
        forall|j: int| 0 <= j < fields.len() ==> (#[trigger] fields[j]).key != key,
    ensures
        input_text(ToolInput::Object(fields), key) is None,
    decreases fields.len(),
{
    if fields.len() > 0 {
        let rest = fields.drop_first();
        assert(fields[0].key != key);
        assert forall|j: int| 0 <= j < rest.len() implies (#[trigger] rest[j]).key != key by {
            assert(rest[j] == fields[j + 1]);
        }
        law_absent_fields_give_nothing(rest, key);
    }
}

/// A call is summed up by its command, else by its path, else by its
/// address, else by its pattern, else by all of its fields; on one line of
/// at most a hundred and sixty characters, and forty for a field of many.
pub proof fn law_summaries_prefer_the_command(f: Seq<Field<Seq<char>>>)
    ensures
        ({
            let s = summary(ToolInput::Object(f));
            let command = input_text(ToolInput::Object(f), "command"@);
            let path = input_text(ToolInput::Object(f), "path"@);
            let url = input_text(ToolInput::Object(f), "url"@);
            let pattern = input_text(ToolInput::Object(f), "pattern"@);
            &&& command is Some ==> s == "command"@ + "="@ + single_line(command->0, 160)
            &&& command is None && path is Some ==> s == "path"@ + "="@ + single_line(path->0, 160)
            &&& command is None && path is None && url is Some ==> s == "url"@ + "="@
                + single_line(url->0, 160)
            &&& command is None && path is None && url is None && pattern is Some ==> s
                == "pattern"@ + "="@ + single_line(pattern->0, 160)
            &&& command is None && path is None && url is None && pattern is None ==> s == join(
                Seq::new(
                    f.len(),
                    |i: int|
                        f[i].key + "="@ + single_line(
                            match f[i].value {
                                FieldValue::Text(t) => t,
                                FieldValue::Other(t) => t,
                            },
                            40,
                        ),
                ),
                ", "@,
            )
        }),
{
    lemma_keyed_summary(f);
    let listed = Seq::new(
        f.len(),
        |i: int|
            f[i].key + "="@ + single_line(
                match f[i].value {
                    FieldValue::Text(t) => t,
                    FieldValue::Other(t) => t,
                },
                40,
            ),
    );
    assert(field_parts(f) =~= listed);
}

/// An input that is no object is summed up by itself, and a line of a
/// summary holds the words in their order with single blanks, cut behind the
/// limit.
pub proof fn law_summaries_fit_one_line(s: Seq<char>, max: int)
    requires
        0 <= max,
    ensures
        summary(ToolInput::Text(s)) == single_line(s, 160),
        summary(ToolInput::Other(s)) == single_line(s, 160),
        single_line(s, max).len() <= max,
        single_line(s, max) == (if join(words(s), " "@).len() <= max {
            join(words(s), " "@)
        } else {
            join(words(s), " "@).take(max)
        }),
{
    if join(words(s), " "@).len() == max {
        assert(join(words(s), " "@).take(max) =~= join(words(s), " "@));
    }
}

/// For a shell command the program, the program with its first argument, and
/// the exact line are offered, in that order; what the line lacks is left
/// out.
pub proof fn law_commands_offer_program_argument_and_line(
    input: ToolInputView,
    path: Option<Seq<char>>,
    cmd: Seq<char>,
)
    requires
        input_text(input, "command"@) == Some(cmd),
    ensures
        ({
            let all = suggestions("Bash"@, input, path);
            let w = words(cmd);
            &&& w.len() == 0 ==> all == seq!["Bash:"@ + cmd]
            &&& w.len() == 1 ==> all == seq!["Bash:"@ + w[0] + " *"@, "Bash:"@ + cmd]
            &&& w.len() >= 2 ==> all == seq![
                "Bash:"@ + w[0] + " *"@,
                "Bash:"@ + w[0] + " "@ + w[1] + "*"@,
                "Bash:"@ + cmd,
            ]
        }),
{
    let all = suggestions("Bash"@, input, path);
    let w = words(cmd);
    if w.len() == 0 {
        assert(all =~= seq!["Bash:"@ + cmd]);
    } else if w.len() == 1 {
        assert(all =~= seq!["Bash:"@ + w[0] + " *"@, "Bash:"@ + cmd]);
    } else {
        assert(all =~= seq![
            "Bash:"@ + w[0] + " *"@,
            "Bash:"@ + w[0] + " "@ + w[1] + "*"@,
            "Bash:"@ + cmd,
        ]);
    }
}

/// For a file tool everything below the directory, everything in it and the
/// exact path are offered, in that order; the tool alone where no path is
/// known.
pub proof fn law_file_tools_offer_directory_and_path(
    tool: Seq<char>,
    input: ToolInputView,
    path: Seq<char>,
)
    requires
        tool == "Edit"@ || tool == "Read"@ || tool == "Write"@ || tool == "MultiEdit"@ || tool
            == "NotebookEdit"@,
    ensures
        suggestions(tool, input, None) == seq![tool],
        path.len() > 0 && parent(path) is Some ==> suggestions(tool, input, Some(path)) == seq![
            tool + ":"@ + parent(path)->0 + "/**"@,
            tool + ":"@ + parent(path)->0 + "/*"@,
            tool + ":"@ + path,
        ],
        path.len() > 0 && parent(path) is None ==> suggestions(tool, input, Some(path)) == seq![
            tool + ":"@ + path,
        ],
{
    reveal_strlit("Bash");
    reveal_strlit("Edit");
    reveal_strlit("Read");
    reveal_strlit("Write");
    reveal_strlit("MultiEdit");
    reveal_strlit("NotebookEdit");
    assert(tool != "Bash"@) by {
        assert("Bash"@[0] == 'B');
        assert("Edit"@[0] == 'E');
        assert("Read"@[0] == 'R');
        assert("Write"@[0] == 'W');
        assert("MultiEdit"@[0] == 'M');
        assert("NotebookEdit"@[0] == 'N');
    }
    if path.len() > 0 {
        match parent(path) {
            Some(d) => {
                assert(suggestions(tool, input, Some(path)) =~= seq![
                    tool + ":"@ + d + "/**"@,
                    tool + ":"@ + d + "/*"@,
                    tool + ":"@ + path,
                ]);
            },
            None => {
                assert(suggestions(tool, input, Some(path)) =~= seq![tool + ":"@ + path]);
            },
        }
    }
}

/// A tool of another server is offered alone and by each of its first two
/// fields that hold a text; any other tool is offered alone.
pub proof fn law_other_tools_offer_themselves_first(
    tool: Seq<char>,
    input: ToolInputView,
    path: Option<Seq<char>>,
)
    requires
        tool != "Bash"@,
        !(tool == "Edit"@ || tool == "Read"@ || tool == "Write"@ || tool == "MultiEdit"@ || tool
            == "NotebookEdit"@),
    ensures
        ({
            let all = suggestions(tool, input, path);
            let foreign = tool.len() >= 5 && tool.take(5) == "mcp__"@;
            &&& all.len() > 0 && all[0] == tool
            &&& !foreign || !(input is Object) ==> all.len() == 1
            &&& foreign && input is Object ==> {
                let f = input->Object_0;
                &&& all.len() <= 3
                &&& f.len() >= 1 && f[0].value is Text ==> all.len() > 1 && all[1] == tool + ":"@
                    + f[0].key + "="@ + f[0].value->Text_0
                &&& f.len() >= 2 && f[1].value is Text ==> all.last() == tool + ":"@ + f[1].key
                    + "="@ + f[1].value->Text_0
                &&& f.len() >= 2 ==> all.len() == 1 + (if f[0].value is Text {
                    1int
                } else {
                    0
                }) + (if f[1].value is Text {
                    1int
                } else {
                    0
                })
            }
        }),
{
    reveal_strlit("mcp__");
    let foreign = tool.len() >= 5 && tool.take(5) == "mcp__"@;
    assert(foreign == starts_with(tool, "mcp__"@)) by {
        if tool.len() >= 5 {
            assert(tool.subrange(0, 5) =~= tool.take(5));
        }
    }
    if foreign {
        if let ToolInput::Object(f) = input {
            reveal_with_fuel(field_patterns, 3);
            if f.len() >= 2 {
                let two = f.take(2);
                assert(two.drop_last() =~= f.take(1));
                assert(two.drop_last().drop_last() =~= f.take(0));
                assert(two.last() == f[1]);
                assert(two.drop_last().last() == f[0]);
            } else if f.len() == 1 {
                assert(f.take(1).drop_last() =~= f.take(0));
                assert(f.take(1).last() == f[0]);
            }
        }
    }
}

/// A request holds the call as it was made: its tool, its input, its first
/// argument, its summary, under its own number.
pub proof fn law_requests_hold_the_call(
    id: u64,
    tool: Seq<char>,
    input: ToolInputView,
    first_arg: Option<Seq<char>>,
)
    ensures
        ({
            let r = request(id, tool, input, first_arg);
            &&& r.id == id
            &&& r.tool_name == tool
            &&& r.tool_input == input
            &&& r.first_arg == first_arg
            &&& r.input_summary == summary(input)
            &&& r.always_pattern == suggestions(tool, input, first_arg).last()
        }),
{
}

/// A denial names the tool, and says so where nobody answered in time or
/// there was nobody to ask.
pub proof fn law_denials_name_the_tool(tool: Seq<char>, end: AskEnd)
    ensures
        ({
            let said = "permission denied for tool '"@ + tool + "'"@;
            match end {
                AskEnd::Answered(r) => if r == AskResponse::AllowOnce || r
                    == AskResponse::AlwaysAllow {
                    decided(tool, end) == HookDecision::<Seq<char>>::Allow
                } else {
                    decided(tool, end) == HookDecision::Deny(said)
                },
                AskEnd::Dropped => decided(tool, end) == HookDecision::Deny(said),
                AskEnd::TimedOut => decided(tool, end) == HookDecision::Deny(
                    said + ": ask modal timed out"@,
                ),
                AskEnd::Unavailable => decided(tool, end) == HookDecision::Deny(
                    said + ": Ask modal unavailable"@,
                ),
            }
        }),
{
}

/// The sub-prompt says what it is about and what giving up does: denying for
/// a denial, allowing for anything else.
pub proof fn law_subprompts_say_what_they_do(action: Action)
    ensures
        action == Action::Allow ==> title_of(action) == " Always allow "@,
        action == Action::Deny ==> title_of(action) == " Always deny "@,
        action == Action::Ask ==> title_of(action) == " Always "@,
        action == Action::Deny ==> footer_of(action)
            == "\u{2191}/\u{2193} move   [tab] cycle scope   [enter] save   [esc] cancel (deny once, no rule)"@,
        action != Action::Deny ==> footer_of(action)
            == "\u{2191}/\u{2193} move   [tab] cycle scope   [enter] save   [esc] cancel (allow once, no rule)"@,
{
}

/// Exactly the row of the cursor is marked among the patterns; each
/// suggestion stands on its row, the operator's own behind them, and then
/// whether the choice would match.
pub proof fn law_the_cursors_row_is_marked(sp: SubpromptView, i: int)
    requires
        0 <= i < sp.suggestions.len(),
    ensures
        ({
            let rows = suggestion_lines(sp);
            let n = sp.suggestions.len() as int;
            &&& rows.len() == n + 3
            &&& i == sp.selected ==> rows[i + 1] == text_line(
                "  "@ + "(\u{2022})"@ + " "@ + sp.suggestions[i],
            )
            &&& i != sp.selected ==> rows[i + 1] == text_line(
                "  "@ + "( )"@ + " "@ + sp.suggestions[i],
            )
            &&& rows[n + 1] == text_line(
                "  "@ + (if sp.selected >= n {
                    "(\u{2022})"@
                } else {
                    "( )"@
                }) + " [custom] "@ + (if sp.custom is Some {
                    sp.custom->0
                } else {
                    "(empty \u{2014} type to fill)"@
                }),
            )
            &&& rows[n + 2].spans.len() == 1
            &&& rows[n + 2].spans[0].content == (if sp.preview_matches {
                "\u{2713} would match pending input"@
            } else {
                "\u{2717} would NOT match pending input"@
            })
            &&& rows[n + 2].spans[0].style.fg == Some(
                if sp.preview_matches {
                    Color::Green
                } else {
                    Color::Red
                },
            )
        }),
{
}

/// The scope in force is marked, and no other; each is listed with the file
/// that it stands for.
pub proof fn law_the_scope_in_force_is_marked(scope: Scope)
    ensures
        ({
            let rows = scope_lines(scope);
            let on = "(\u{2022})"@;
            let off = "( )"@;
            &&& rows.len() == 5
            &&& rows[0] == text_line("Save to:"@)
            &&& rows[1] == text_line(
                "  "@ + (if scope == Scope::Cli {
                    on
                } else {
                    off
                }) + " "@ + "session  (in-memory; gone on restart)"@,
            )
            &&& rows[2] == text_line(
                "  "@ + (if scope == Scope::Project {
                    on
                } else {
                    off
                }) + " "@ + "project  (.caliban/permissions.toml; commit-friendly)"@,
            )
            &&& rows[3] == text_line(
                "  "@ + (if scope == Scope::User {
                    on
                } else {
                    off
                }) + " "@ + "user     (~/.config/caliban/permissions.toml)"@,
            )
            &&& rows[4] == text_line(
                "  "@ + (if scope == Scope::Local {
                    on
                } else {
                    off
                }) + " "@ + "local    (.caliban/permissions.local.toml; gitignored)"@,
            )
        }),
{
}

/// The comment is shown always, the reason for a denial alone.
pub proof fn law_reasons_belong_to_denials(sp: SubpromptView)
    ensures
        comment_lines(sp).len() == (if sp.action == Action::Deny {
            2int
        } else {
            1
        }),
        comment_lines(sp)[0] == text_line("Comment: "@ + sp.comment),
        sp.action == Action::Deny ==> comment_lines(sp)[1] == text_line("Reason : "@ + sp.reason),
{
}

/// The pending call is shown by its tool and at most six lines of its input,
/// in their order; what is left out is counted.
pub proof fn law_excerpts_count_what_they_leave_out(tool: Seq<char>, excerpt: Seq<char>)
    ensures
        ({
            let rows = summary_lines(tool, excerpt);
            let ls = lines(excerpt);
            &&& rows[0] == text_line("Pending tool call: "@ + tool)
            &&& forall|i: int|
                0 <= i < ls.len() && i < 6 ==> #[trigger] rows[i + 1] == text_line("  "@ + ls[i])
            &&& ls.len() <= 6 ==> rows.len() == ls.len() + 1
            &&& ls.len() > 6 ==> rows.len() == 8 && rows[7] == text_line(
                "  \u{2026} ("@ + decimal((ls.len() - 6) as nat) + " more line(s))"@,
            )
        }),
{
}

/// A request is given up after ten minutes.
pub proof fn law_requests_wait_ten_minutes()
    ensures
        ASK_TIMEOUT_MS == 10 * 60 * 1000,
{
}

/// The sub-prompt gives the summary all its rows and one to spare, the
/// patterns a row each and three more, the scopes five rows, the comment two
/// and the keys one, with a row between them; what is left lies above the
/// keys.
pub proof fn law_subprompts_give_room_to_their_parts(
    tool: Seq<char>,
    excerpt: Seq<char>,
    suggestions: int,
)
    ensures
        ({
            let sizes = prompt_sizes(lines(excerpt).len() as int, suggestions);
            &&& sizes.len() == 9
            &&& sizes[0] == Size::Length((summary_lines(tool, excerpt).len() + 1) as u16)
            &&& sizes[1] == Size::Length(1)
            &&& sizes[2] == Size::Length((suggestions + 3) as u16)
            &&& sizes[3] == Size::Length(1)
            &&& sizes[4] == Size::Length(5)
            &&& sizes[5] == Size::Length(1)
            &&& sizes[6] == Size::Length(2)
            &&& sizes[7] == Size::Min(0)
            &&& sizes[8] == Size::Length(1)
        }),
{
    law_excerpts_count_what_they_leave_out(tool, excerpt);
}

} // verus!
