//! Slash commands: the registry, its typeahead, and what each built-in
//! command says of itself.

use vstd::prelude::*;

use crate::overlay::Overlay;
use crate::text::{
    alphanumeric, chars_of, char_lowercase, find_char, lemma_find_char, lemma_text_before_transitive,
    lemma_text_order, lower_chars, same, skip_chars, split_whitespace, starts_with,
    starts_with_char, starts_with_character, starts_with_text, string_of, take_chars, text_before,
    text_lt, texts, words,
};

pub mod answers;
pub mod basic;
pub mod config;
pub mod cost;
pub mod dispatch;
pub mod dx;
pub mod existing;
pub mod export;
pub mod model;
pub mod observe;
pub mod perms;
pub mod session;
pub mod think;

verus! {

/// What the registry tells of a command.
#[derive(Debug, Clone, Copy)]
pub struct SlashCommandMeta {
    /// The name, with its leading slash.
    pub name: &'static str,
    pub description: &'static str,
    /// What may follow the name; empty for a command without arguments.
    pub args_hint: &'static str,
    /// Kept out of typeahead and help, though it still runs by name.
    pub hidden: bool,
    /// May run while a turn is in flight.
    pub immediate: bool,
}

/// What a command does when it runs.
#[derive(Debug, Clone, Copy, PartialEq, Eq, Structural)]
pub enum Command {
    Clear,
    Help,
    Quit,
    Usage,
    Context,
    Compact,
    Doctor,
    System,
    Config,
    Hooks,
    Mcp,
    Plugins,
    Agents,
    Cost,
    Export,
    Model,
    Effort,
    Status,
    Login,
    Logout,
    SetupToken,
    Think,
    Permissions,
    Rewind,
    Heapdump,
    Feedback,
    Loop,
    Statusline,
    Tui,
    Voice,
    Plan,
    Skills,
    Memory,
    OutputStyle,
    Init,
    Resume,
    Recap,
    Btw,
    /// Supplied by a plugin.
    Plugin,
}

/// A registered command.
#[derive(Debug, Clone, Copy)]
pub struct SlashCommand {
    pub meta: SlashCommandMeta,
    pub command: Command,
}

/// Whether the model is to think before it answers.
#[derive(Debug, Clone, Copy, PartialEq, Eq, Structural)]
pub enum ThinkingSetting {
    /// As the effort asks.
    Auto,
    Off,
    /// With a budget of tokens, where one is given.
    On(Option<u32>),
}

/// What a command wants done when it has run.
#[derive(Debug, PartialEq, Eq)]
pub enum SlashOutcome<S = String> {
    /// Nothing more.
    Continue,
    /// Leave the program.
    Quit,
    /// Put a text into the prompt.
    InsertText(S),
    /// Open an overlay.
    Overlay(Overlay),
    /// Read settings, skills, hooks and servers again.
    Reload,
    /// Show a line in the transcript.
    StatusMessage(S),
}

pub open spec fn outcome_view(o: SlashOutcome<String>) -> SlashOutcome<Seq<char>> {
    match o {
        SlashOutcome::Continue => SlashOutcome::Continue,
        SlashOutcome::Quit => SlashOutcome::Quit,
        SlashOutcome::InsertText(s) => SlashOutcome::InsertText(s@),
        SlashOutcome::Overlay(v) => SlashOutcome::Overlay(v),
        SlashOutcome::Reload => SlashOutcome::Reload,
        SlashOutcome::StatusMessage(s) => SlashOutcome::StatusMessage(s@),
    }
}

// ---------------------------------------------------------------------------
// The registry
// ---------------------------------------------------------------------------

/// Whether entry `i` goes by `name`.
pub open spec fn named_at(cmds: Seq<SlashCommand>, name: Seq<char>, i: int) -> bool {
    0 <= i < cmds.len() && cmds[i].meta.name@ == name
}

/// Whether a command goes by `name`.
pub open spec fn has_name(cmds: Seq<SlashCommand>, name: Seq<char>) -> bool {
    exists|i: int| named_at(cmds, name, i)
}

/// What goes by `name`, the first of them where there are several.
pub open spec fn command_named(cmds: Seq<SlashCommand>, name: Seq<char>) -> Option<SlashCommand>
    decreases cmds.len(),
{
    if cmds.len() == 0 {
        None
    } else if cmds[0].meta.name@ == name {
        Some(cmds[0])
    } else {
        command_named(cmds.drop_first(), name)
    }
}

proof fn lemma_command_named(cmds: Seq<SlashCommand>, name: Seq<char>, i: int)
    requires
        0 <= i <= cmds.len(),
        forall|k: int| 0 <= k < i ==> !named_at(cmds, name, k),
        i < cmds.len() ==> named_at(cmds, name, i),
    ensures
        command_named(cmds, name) == (if i < cmds.len() {
            Some(cmds[i])
        } else {
            None
        }),
    decreases cmds.len(),
{
    if i > 0 {
        assert(!named_at(cmds, name, 0));
        let rest = cmds.drop_first();
        assert forall|k: int| 0 <= k < i - 1 implies !named_at(rest, name, k) by {
            assert(!named_at(cmds, name, k + 1));
        }
        if i < cmds.len() {
            assert(rest[i - 1] == cmds[i]);
        }
        lemma_command_named(rest, name, i - 1);
    }
}

/// No two commands share a name.
pub open spec fn distinct_names(cmds: Seq<SlashCommand>) -> bool {
    forall|i: int, j: int|
        0 <= i < j < cmds.len() ==> (#[trigger] cmds[i]).meta.name@ != (#[trigger] cmds[j]).meta.name@
}

/// `cmd` registered: in place of the one that went by its name, or behind
/// the others.
pub open spec fn registered(cmds: Seq<SlashCommand>, cmd: SlashCommand) -> Seq<SlashCommand> {
    if has_name(cmds, cmd.meta.name@) {
        cmds.update(choose|i: int| named_at(cmds, cmd.meta.name@, i), cmd)
    } else {
        cmds.push(cmd)
    }
}

/// Several commands registered one after the other.
pub open spec fn registered_all(cmds: Seq<SlashCommand>, more: Seq<SlashCommand>) -> Seq<SlashCommand>
    decreases more.len(),
{
    if more.len() == 0 {
        cmds
    } else {
        registered(registered_all(cmds, more.drop_last()), more.last())
    }
}

/// The commands that can be run by name.
#[derive(Debug)]
pub struct SlashCommandRegistry {
    pub commands: Vec<SlashCommand>,
}

impl View for SlashCommandRegistry {
    type V = Seq<SlashCommand>;

    open spec fn view(&self) -> Seq<SlashCommand> {
        self.commands@
    }
}

impl Default for SlashCommandRegistry {
    fn default() -> (r: SlashCommandRegistry)
        ensures
            r.wf(),
            r@ == Seq::<SlashCommand>::empty(),
    {
        SlashCommandRegistry::new()
    }
}

/// The name of a command without its slash.
pub open spec fn body(name: Seq<char>) -> Seq<char> {
    if starts_with_char(name, '/') {
        name.drop_first()
    } else {
        name
    }
}

/// The score of a command for a typed prefix, where it is suggested at all.
pub open spec fn suggestion_score(m: SlashCommandMeta, prefix: Seq<char>) -> Option<int> {
    if m.hidden {
        None
    } else {
        fuzzy(body(m.name@), prefix)
    }
}

/// Whether a command is listed before another: by the higher score, and by
/// name where the scores are equal.
pub open spec fn ranks_before(a: (int, Seq<char>), b: (int, Seq<char>)) -> bool {
    a.0 > b.0 || (a.0 == b.0 && text_before(a.1, b.1))
}

impl SlashCommandRegistry {
    pub open spec fn wf(&self) -> bool {
        distinct_names(self@)
    }

    /// A registry without commands.
    pub fn new() -> (r: SlashCommandRegistry)
        ensures
            r.wf(),
            r@ == Seq::<SlashCommand>::empty(),
    {
        SlashCommandRegistry { commands: Vec::new() }
    }

    fn position(&self, name: &str) -> (r: Option<usize>)
        ensures
            match r {
                Some(i) => named_at(self@, name@, i as int) && forall|k: int|
                    0 <= k < i ==> !named_at(self@, name@, k),
                None => !has_name(self@, name@),
            },
    {
        let mut i: usize = 0;
        while i < self.commands.len()
            invariant
                i <= self.commands@.len(),
                forall|k: int| 0 <= k < i ==> !named_at(self@, name@, k),
            decreases self.commands@.len() - i,
        {
            if same(self.commands[i].meta.name, name) {
                return Some(i);
            }
            i = i + 1;
        }
        None
    }

    /// Registers a command. One of the same name is replaced.
    pub fn register(&mut self, cmd: SlashCommand)
        requires
            old(self).wf(),
        ensures
            final(self).wf(),
            final(self)@ == registered(old(self)@, cmd),
    {
        proof {
            law_registering_adds_or_replaces(self@, cmd, cmd.meta.name@);
        }
        match self.position(cmd.meta.name) {
            Some(i) => {
                proof {
                    lemma_named_once(self@, cmd.meta.name@, i as int);
                }
                self.commands.set(i, cmd);
            },
            None => {
                assert(forall|k: int| 0 <= k < self@.len() ==> !named_at(self@, cmd.meta.name@, k));
                self.commands.push(cmd);
            },
        }
    }

    /// Number of commands, hidden ones included.
    pub fn len(&self) -> (n: usize)
        ensures
            n == self@.len(),
    {
        self.commands.len()
    }

    /// Whether a command of this name is registered.
    pub fn contains(&self, name: &str) -> (r: bool)
        ensures
            r == has_name(self@, name@),
    {
        self.position(name).is_some()
    }

    /// What is registered under a name.
    pub fn lookup(&self, name: &str) -> (r: Option<SlashCommand>)
        ensures
            r == command_named(self@, name@),
            match r {
                Some(c) => exists|i: int| named_at(self@, name@, i) && self@[i] == c,
                None => !has_name(self@, name@),
            },
    {
        match self.position(name) {
            Some(i) => {
                assert(named_at(self@, name@, i as int) && self@[i as int] == self.commands@[i as int]);
                proof {
                    lemma_command_named(self@, name@, i as int);
                }
                Some(self.commands[i])
            },
            None => {
                proof {
                    assert forall|k: int| 0 <= k < self@.len() implies !named_at(self@, name@, k) by {}
                    lemma_command_named(self@, name@, self@.len() as int);
                }
                None
            },
        }
    }

    /// What is told of the command of this name.
    pub fn lookup_meta(&self, name: &str) -> (r: Option<SlashCommandMeta>)
        ensures
            match r {
                Some(m) => exists|i: int| named_at(self@, name@, i) && self@[i].meta == m,
                None => !has_name(self@, name@),
            },
    {
        match self.position(name) {
            Some(i) => {
                assert(named_at(self@, name@, i as int) && self@[i as int].meta
                    == self.commands@[i as int].meta);
                Some(self.commands[i].meta)
            },
            None => None,
        }
    }

    /// The commands whose name contains the letters of `prefix` in order,
    /// best match first. Hidden commands are left out; an empty prefix lists
    /// all others by name.
    pub fn suggest(&self, prefix: &str) -> (out: Vec<SlashCommandMeta>)
        requires
            self.wf(),
        ensures
            forall|i: int|
                #![trigger out@[i]]
                0 <= i < out@.len() ==> suggestion_score(out@[i], prefix@) is Some && exists|k: int|
                    0 <= k < self@.len() && self@[k].meta == out@[i],
            forall|k: int|
                #![trigger self@[k]]
                0 <= k < self@.len() && suggestion_score(self@[k].meta, prefix@) is Some
                    ==> out@.contains(self@[k].meta),
            forall|i: int, j: int|
                #![trigger out@[i], out@[j]]
                0 <= i < j < out@.len() ==> ranks_before(
                    (suggestion_score(out@[i], prefix@)->0, out@[i].name@),
                    (suggestion_score(out@[j], prefix@)->0, out@[j].name@),
                ),
    {
        let mut out: Vec<SlashCommandMeta> = Vec::new();
        let mut scores: Vec<i128> = Vec::new();
        let mut i: usize = 0;
        while i < self.commands.len()
            invariant
                i <= self.commands@.len(),
                self.wf(),
                out@.len() == scores@.len(),
                forall|k: int|
                    #![trigger out@[k]]
                    0 <= k < out@.len() ==> suggestion_score(out@[k], prefix@) == Some(
                        scores@[k] as int,
                    ) && exists|m: int| 0 <= m < i && self@[m].meta == out@[k],
                forall|k: int|
                    #![trigger self@[k]]
                    0 <= k < i && suggestion_score(self@[k].meta, prefix@) is Some
                        ==> out@.contains(self@[k].meta),
                forall|a: int, b: int|
                    #![trigger out@[a], out@[b]]
                    0 <= a < b < out@.len() ==> ranks_before(
                        (suggestion_score(out@[a], prefix@)->0, out@[a].name@),
                        (suggestion_score(out@[b], prefix@)->0, out@[b].name@),
                    ),
            decreases self.commands@.len() - i,
        {
            let meta = self.commands[i].meta;
            let score = if meta.hidden {
                None
            } else {
                let name = if starts_with_character(meta.name, '/') {
                    assert(meta.name@.skip(1) =~= meta.name@.drop_first());
                    skip_chars(meta.name, 1)
                } else {
                    String::from_str(meta.name)
                };
                fuzzy_score(name.as_str(), prefix)
            };
            match score {
                Some(points) => {
                    proof {
                        assert forall|k: int| 0 <= k < out@.len() implies (
                        #[trigger] out@[k]).name@ != meta.name@ by {
                            let m = choose|m: int| 0 <= m < i && self@[m].meta == out@[k];
                            assert(self@[m].meta.name@ != self@[i as int].meta.name@);
                        }
                    }
                    insert_ranked(&mut out, &mut scores, meta, points, Ghost(prefix@));
                    proof {
                        assert(self@[i as int].meta == meta);
                    }
                },
                None => {},
            }
            i = i + 1;
        }
        out
    }

    /// Every command that is not hidden, by name.
    pub fn visible_metas(&self) -> (out: Vec<SlashCommandMeta>)
        requires
            self.wf(),
        ensures
            forall|i: int|
                #![trigger out@[i]]
                0 <= i < out@.len() ==> !out@[i].hidden && exists|k: int|
                    0 <= k < self@.len() && self@[k].meta == out@[i],
            forall|k: int|
                #![trigger self@[k]]
                0 <= k < self@.len() && !self@[k].meta.hidden ==> out@.contains(self@[k].meta),
            forall|i: int, j: int|
                #![trigger out@[i], out@[j]]
                0 <= i < j < out@.len() ==> text_before(out@[i].name@, out@[j].name@),
    {
        proof {
            reveal_strlit("");
            assert(""@ =~= Seq::<char>::empty());
            assert(forall|m: SlashCommandMeta|
                !m.hidden ==> #[trigger] suggestion_score(m, ""@) == Some(0int));
        }
        let out = self.suggest("");
        assert forall|i: int, j: int|
            #![trigger out@[i], out@[j]]
            0 <= i < j < out@.len() implies text_before(out@[i].name@, out@[j].name@) by {
            assert(suggestion_score(out@[i], ""@) is Some);
            assert(suggestion_score(out@[j], ""@) is Some);
        }
        out
    }
}

proof fn lemma_named_once(cmds: Seq<SlashCommand>, name: Seq<char>, i: int)
    requires
        distinct_names(cmds),
        named_at(cmds, name, i),
    ensures
        (choose|k: int| named_at(cmds, name, k)) == i,
{
    let k = choose|k: int| named_at(cmds, name, k);
    if k < i {
        assert(cmds[k].meta.name@ != cmds[i].meta.name@);
    } else if i < k {
        assert(cmds[i].meta.name@ != cmds[k].meta.name@);
    }
}

/// Puts a suggestion into its place among the ones found so far.
fn insert_ranked(
    out: &mut Vec<SlashCommandMeta>,
    scores: &mut Vec<i128>,
    meta: SlashCommandMeta,
    points: i128,
    Ghost(prefix): Ghost<Seq<char>>,
)
    requires
        old(out)@.len() == old(scores)@.len(),
        suggestion_score(meta, prefix) == Some(points as int),
        forall|k: int|
            #![trigger old(out)@[k]]
            0 <= k < old(out)@.len() ==> suggestion_score(old(out)@[k], prefix) == Some(
                old(scores)@[k] as int,
            ),
        forall|k: int| 0 <= k < old(out)@.len() ==> (#[trigger] old(out)@[k]).name@ != meta.name@,
        forall|a: int, b: int|
            #![trigger old(out)@[a], old(out)@[b]]
            0 <= a < b < old(out)@.len() ==> ranks_before(
                (suggestion_score(old(out)@[a], prefix)->0, old(out)@[a].name@),
                (suggestion_score(old(out)@[b], prefix)->0, old(out)@[b].name@),
            ),
    ensures
        final(out)@.len() == final(scores)@.len(),
        exists|at: int|
            0 <= at <= old(out)@.len() && final(out)@ == old(out)@.insert(at, meta)
                && final(scores)@ == old(scores)@.insert(at, points),
        final(out)@.contains(meta),
        forall|m: SlashCommandMeta| old(out)@.contains(m) ==> #[trigger] final(out)@.contains(m),
        forall|k: int|
            #![trigger final(out)@[k]]
            0 <= k < final(out)@.len() ==> suggestion_score(final(out)@[k], prefix) == Some(
                final(scores)@[k] as int,
            ) && (final(out)@[k] == meta || old(out)@.contains(final(out)@[k])),
        forall|a: int, b: int|
            #![trigger final(out)@[a], final(out)@[b]]
            0 <= a < b < final(out)@.len() ==> ranks_before(
                (suggestion_score(final(out)@[a], prefix)->0, final(out)@[a].name@),
                (suggestion_score(final(out)@[b], prefix)->0, final(out)@[b].name@),
            ),
{
    let ghost before = out@;
    let ghost before_scores = scores@;
    let ghost key = (points as int, meta.name@);
    let mut at: usize = 0;
    while at < out.len() && (scores[at] > points || (scores[at] == points && text_lt(
        out[at].name,
        meta.name,
    )))
        invariant
            at <= out@.len(),
            out@ == before,
            scores@ == before_scores,
            out@.len() == scores@.len(),
            key == (points as int, meta.name@),
            forall|k: int|
                0 <= k < at ==> ranks_before(
                    (scores@[k] as int, (#[trigger] out@[k]).name@),
                    key,
                ),
        decreases out@.len() - at,
    {
        at = at + 1;
    }
    let ghost n = at as int;
    assert forall|k: int| n <= k < before.len() implies ranks_before(
        key,
        (before_scores[k] as int, (#[trigger] before[k]).name@),
    ) by {
        lemma_text_order(before[n].name@, meta.name@);
        assert(before[n].name@ != meta.name@);
        assert(ranks_before(key, (before_scores[n] as int, before[n].name@)));
        if n < k {
            let p = (suggestion_score(before[n], prefix)->0, before[n].name@);
            let q = (suggestion_score(before[k], prefix)->0, before[k].name@);
            assert(ranks_before(p, q));
            if key.0 == p.0 && p.0 == q.0 {
                lemma_text_before_transitive(key.1, p.1, q.1);
            }
        }
    }
    out.insert(at, meta);
    scores.insert(at, points);
    proof {
        assert(out@[n] == meta);
        assert forall|m: SlashCommandMeta| before.contains(m) implies #[trigger] out@.contains(m) by {
            let k = choose|k: int| 0 <= k < before.len() && before[k] == m;
            if k < n {
                assert(out@[k] == m);
            } else {
                assert(out@[k + 1] == m);
            }
        }
        assert forall|k: int| #![trigger out@[k]] 0 <= k < out@.len() implies suggestion_score(
            out@[k],
            prefix,
        ) == Some(scores@[k] as int) && (out@[k] == meta || before.contains(out@[k])) by {
            if k < n {
                assert(out@[k] == before[k]);
            } else if k > n {
                assert(out@[k] == before[k - 1]);
            }
        }
        assert forall|a: int, b: int|
            #![trigger out@[a], out@[b]]
            0 <= a < b < out@.len() implies ranks_before(
            (suggestion_score(out@[a], prefix)->0, out@[a].name@),
            (suggestion_score(out@[b], prefix)->0, out@[b].name@),
        ) by {
            if b < n {
                assert(out@[a] == before[a] && out@[b] == before[b]);
            } else if b == n {
                assert(out@[a] == before[a]);
            } else if a < n {
                assert(out@[a] == before[a] && out@[b] == before[b - 1]);
            } else if a == n {
                assert(out@[b] == before[b - 1]);
            } else {
                assert(out@[a] == before[a - 1] && out@[b] == before[b - 1]);
            }
        }
    }
}

// ---------------------------------------------------------------------------
// Fuzzy matching
// ---------------------------------------------------------------------------

/// `s` with every character in lower case.
pub open spec fn lowered(s: Seq<char>) -> Seq<char>
    decreases s.len(),
{
    if s.len() == 0 {
        Seq::empty()
    } else {
        lowered(s.drop_last()) + char_lowercase(s.last())
    }
}

fn lower_all(s: &str) -> (out: Vec<char>)
    ensures
        out@ == lowered(s@),
{
    let cs = chars_of(s);
    let mut out: Vec<char> = Vec::new();
    let mut i: usize = 0;
    while i < cs.len()
        invariant
            i <= cs@.len(),
            out@ == lowered(cs@.take(i as int)),
        decreases cs@.len() - i,
    {
        let mut low = lower_chars(cs[i]);
        out.append(&mut low);
        i = i + 1;
        assert(cs@.take(i as int).drop_last() =~= cs@.take(i - 1));
    }
    assert(cs@.take(cs@.len() as int) =~= cs@);
    out
}

/// The first position from `from` on at which `hay` holds `c`, or its length.
pub open spec fn next_at(hay: Seq<char>, from: int, c: char) -> int {
    from + find_char(hay.skip(from), c)
}

/// What a match at position `i` earns for where it stands: at the start, or
/// behind a character that is neither letter nor number.
pub open spec fn place_bonus(hay: Seq<char>, i: int) -> int {
    if i == 0 {
        15
    } else if !alphanumeric(hay[i - 1]) {
        10
    } else {
        0
    }
}

/// What a match at position `i` earns or loses against the one before it:
/// a neighbour earns, a gap costs its length.
pub open spec fn step_bonus(prev: Option<int>, i: int) -> int {
    match prev {
        None => 0,
        Some(p) => if i == p + 1 {
            8
        } else if i - p - 1 <= i32::MAX {
            -(i - p - 1)
        } else {
            -(i32::MAX as int)
        },
    }
}

/// The score of matching `needle` into `hay` from `from` on, each character
/// at the first position that has it.
pub open spec fn fuzzy_from(hay: Seq<char>, needle: Seq<char>, from: int, prev: Option<int>) -> Option<
    int,
>
    decreases needle.len(),
{
    if needle.len() == 0 {
        Some(0)
    } else {
        let i = next_at(hay, from, needle[0]);
        if i >= hay.len() {
            None
        } else {
            match fuzzy_from(hay, needle.drop_first(), i + 1, Some(i)) {
                None => None,
                Some(rest) => Some(place_bonus(hay, i) + step_bonus(prev, i) + rest),
            }
        }
    }
}

/// How well `needle` matches `haystack`, letter case aside; nothing where it
/// is no subsequence. An empty needle matches everything alike.
pub open spec fn fuzzy(haystack: Seq<char>, needle: Seq<char>) -> Option<int> {
    if needle.len() == 0 {
        Some(0)
    } else {
        fuzzy_from(lowered(haystack), lowered(needle), 0, None)
    }
}

/// Scores `needle` against `haystack`. Higher is better.
pub fn fuzzy_score(haystack: &str, needle: &str) -> (r: Option<i128>)
    ensures
        match r {
            Some(n) => fuzzy(haystack@, needle@) == Some(n as int),
            None => fuzzy(haystack@, needle@) is None,
        },
{
    if needle.is_empty() {
        return Some(0);
    }
    let hay = lower_all(haystack);
    let nd = lower_all(needle);
    let n: usize = hay.len();
    let m: usize = nd.len();
    let ghost whole = fuzzy_from(hay@, nd@, 0, None);
    let mut score: i128 = 0;
    let mut hi: usize = 0;
    let mut prev: Option<usize> = None;
    let mut j: usize = 0;
    assert(nd@.skip(0) =~= nd@);
    while j < m
        invariant
            j <= m == nd@.len(),
            hi <= n == hay@.len(),
            whole == fuzzy(haystack@, needle@),
            -(i32::MAX as int) * j <= score <= 23 * j,
            match prev {
                Some(p) => p < hi,
                None => true,
            },
            ({
                let rest = fuzzy_from(
                    hay@,
                    nd@.skip(j as int),
                    hi as int,
                    match prev {
                        Some(p) => Some(p as int),
                        None => None,
                    },
                );
                match rest {
                    None => whole is None,
                    Some(x) => whole == Some(score + x),
                }
            }),
        decreases m - j,
    {
        let nc = nd[j];
        let ghost rest_needle = nd@.skip(j as int);
        assert(rest_needle[0] == nc);
        assert(rest_needle.drop_first() =~= nd@.skip(j + 1));
        let mut idx: usize = hi;
        while idx < n && hay[idx] != nc
            invariant
                hi <= idx <= n == hay@.len(),
                next_at(hay@, hi as int, nc) == next_at(hay@, idx as int, nc),
            decreases n - idx,
        {
            assert(hay@.skip(idx as int).drop_first() =~= hay@.skip(idx + 1));
            idx = idx + 1;
        }
        assert(next_at(hay@, hi as int, nc) == idx) by {
            if idx < n {
                assert(hay@.skip(idx as int)[0] == nc);
            } else {
                assert(hay@.skip(idx as int).len() == 0);
            }
        }
        let ghost seen = match prev {
            Some(p) => Some(p as int),
            None => None::<int>,
        };
        if idx >= n {
            assert(fuzzy_from(hay@, rest_needle, hi as int, seen) is None);
            return None;
        }
        let place: i128 = if idx == 0 {
            15
        } else if !hay[idx - 1].is_alphanumeric() {
            10
        } else {
            0
        };
        let step: i128 = match prev {
            None => 0,
            Some(p) => if idx == p + 1 {
                8
            } else {
                let gap: usize = idx - p - 1;
                if gap <= i32::MAX as usize {
                    -(gap as i128)
                } else {
                    -(i32::MAX as i128)
                }
            },
        };
        assert(-(i32::MAX as int) * (j + 1) == -(i32::MAX as int) * j - i32::MAX)
            by (nonlinear_arith);
        assert(-(i32::MAX as int) * j >= -(i32::MAX as int) * u64::MAX) by (nonlinear_arith)
            requires
                j <= u64::MAX,
        ;
        score = score + place + step;
        prev = Some(idx);
        hi = idx + 1;
        j = j + 1;
    }
    assert(nd@.skip(j as int).len() == 0);
    Some(score)
}

// ---------------------------------------------------------------------------
// Classification and arguments
// ---------------------------------------------------------------------------

/// The first word of a prompt; nothing where it has none.
pub open spec fn first_word(prompt: Seq<char>) -> Seq<char> {
    if words(prompt).len() > 0 {
        words(prompt)[0]
    } else {
        Seq::empty()
    }
}

/// Whether a prompt invokes a registered command that may run at any time.
pub open spec fn invokes_immediate(prompt: Seq<char>, cmds: Seq<SlashCommand>) -> bool {
    starts_with_char(first_word(prompt), '/') && exists|i: int|
        named_at(cmds, first_word(prompt), i) && cmds[i].meta.immediate
}

/// Whether a prompt is a slash command that may run while a turn is in
/// flight.
pub fn is_immediate_slash(prompt: &str, registry: &SlashCommandRegistry) -> (r: bool)
    requires
        registry.wf(),
    ensures
        r == invokes_immediate(prompt@, registry@),
{
    let ws = split_whitespace(prompt);
    assert(texts(ws@).len() == ws@.len());
    if ws.len() == 0 {
        return false;
    }
    assert(texts(ws@)[0] == ws@[0]@);
    let name = ws[0].as_str();
    if !starts_with_character(name, '/') {
        return false;
    }
    match registry.lookup_meta(name) {
        Some(m) => {
            proof {
                let i = choose|i: int| named_at(registry@, name@, i) && registry@[i].meta == m;
                assert forall|k: int| named_at(registry@, name@, k) implies k == i by {
                    lemma_named_once(registry@, name@, i);
                    lemma_named_once(registry@, name@, k);
                }
                if m.immediate {
                    assert(named_at(registry@, first_word(prompt@), i)
                        && registry@[i].meta.immediate);
                }
            }
            m.immediate
        },
        None => {
            assert(!has_name(registry@, name@));
            false
        },
    }
}

/// Single or double quotes.
pub open spec fn is_quote(c: char) -> bool {
    c == '"' || c == '\''
}

/// `s` without the quotes at its start.
pub open spec fn unquote_start(s: Seq<char>) -> Seq<char>
    decreases s.len(),
{
    if s.len() > 0 && is_quote(s[0]) {
        unquote_start(s.drop_first())
    } else {
        s
    }
}

/// `s` without the quotes at its end.
pub open spec fn unquote_end(s: Seq<char>) -> Seq<char>
    decreases s.len(),
{
    if s.len() > 0 && is_quote(s.last()) {
        unquote_end(s.drop_last())
    } else {
        s
    }
}

/// `s` without the quotes around it.
pub open spec fn unquoted(s: Seq<char>) -> Seq<char> {
    unquote_end(unquote_start(s))
}

fn unquote(s: &str) -> (out: String)
    ensures
        out@ == unquoted(s@),
{
    let cs = chars_of(s);
    let mut a: usize = 0;
    assert(cs@.skip(0) =~= cs@);
    while a < cs.len() && (cs[a] == '"' || cs[a] == '\'')
        invariant
            a <= cs@.len(),
            unquote_start(cs@.skip(a as int)) == unquote_start(s@),
        decreases cs@.len() - a,
    {
        assert(cs@.skip(a as int).drop_first() =~= cs@.skip(a + 1));
        a = a + 1;
    }
    let mut b: usize = cs.len();
    assert(cs@.subrange(a as int, b as int) =~= cs@.skip(a as int));
    while b > a && (cs[b - 1] == '"' || cs[b - 1] == '\'')
        invariant
            a <= b <= cs@.len(),
            unquote_end(cs@.subrange(a as int, b as int)) == unquoted(s@),
        decreases b,
    {
        assert(cs@.subrange(a as int, b as int).drop_last() =~= cs@.subrange(a as int, b - 1));
        b = b - 1;
    }
    string_of(&cs, a, b)
}

/// The key and value that one word gives: `--key=value`, the value without
/// quotes, or `--key`, which stands for `true`. Any other word gives none.
pub open spec fn kv_pair(word: Seq<char>) -> Option<(Seq<char>, Seq<char>)> {
    if !starts_with(word, "--"@) {
        None
    } else {
        let rest = word.skip(2);
        let n = find_char(rest, '=') as int;
        if n < rest.len() {
            Some((rest.take(n), unquoted(rest.skip(n + 1))))
        } else {
            Some((rest, "true"@))
        }
    }
}

/// The arguments that some words give; of two with one key the later stands.
pub open spec fn kv_args(ws: Seq<Seq<char>>) -> Map<Seq<char>, Seq<char>>
    decreases ws.len(),
{
    if ws.len() == 0 {
        Map::empty()
    } else {
        let before = kv_args(ws.drop_last());
        match kv_pair(ws.last()) {
            Some((k, v)) => before.insert(k, v),
            None => before,
        }
    }
}

/// Arguments by key.
pub struct KvArgs {
    pairs: Vec<(String, String)>,
}

pub open spec fn pairs_view(v: Seq<(String, String)>) -> Map<Seq<char>, Seq<char>>
    decreases v.len(),
{
    if v.len() == 0 {
        Map::empty()
    } else {
        pairs_view(v.drop_last()).insert(v.last().0@, v.last().1@)
    }
}

impl View for KvArgs {
    type V = Map<Seq<char>, Seq<char>>;

    closed spec fn view(&self) -> Map<Seq<char>, Seq<char>> {
        pairs_view(self.pairs@)
    }
}

impl KvArgs {
    /// The value given for a key.
    pub fn get(&self, key: &str) -> (r: Option<&String>)
        ensures
            match r {
                Some(v) => self@.contains_key(key@) && self@[key@] == v@,
                None => !self@.contains_key(key@),
            },
    {
        let mut i: usize = self.pairs.len();
        assert(self.pairs@.take(i as int) =~= self.pairs@);
        while i > 0
            invariant
                i <= self.pairs@.len(),
                self@.contains_key(key@) == pairs_view(self.pairs@.take(i as int)).contains_key(
                    key@,
                ),
                self@.contains_key(key@) ==> self@[key@] == pairs_view(
                    self.pairs@.take(i as int),
                )[key@],
            decreases i,
        {
            assert(self.pairs@.take(i as int).drop_last() =~= self.pairs@.take(i - 1));
            if same(self.pairs[i - 1].0.as_str(), key) {
                return Some(&self.pairs[i - 1].1);
            }
            i = i - 1;
        }
        None
    }
}

fn kv_of(word: &str) -> (r: Option<(String, String)>)
    ensures
        match r {
            Some(p) => kv_pair(word@) == Some((p.0@, p.1@)),
            None => kv_pair(word@) is None,
        },
{
    if !starts_with_text(word, "--") {
        return None;
    }
    proof {
        reveal_strlit("--");
    }
    let rest = skip_chars(word, 2);
    let cs = chars_of(rest.as_str());
    let mut n: usize = 0;
    assert(cs@.skip(0) =~= cs@);
    while n < cs.len() && cs[n] != '='
        invariant
            n <= cs@.len(),
            find_char(cs@, '=') == n + find_char(cs@.skip(n as int), '='),
        decreases cs@.len() - n,
    {
        assert(cs@.skip(n as int).drop_first() =~= cs@.skip(n + 1));
        n = n + 1;
    }
    if n < cs.len() {
        let key = take_chars(rest.as_str(), n);
        let value = skip_chars(rest.as_str(), n + 1);
        Some((key, unquote(value.as_str())))
    } else {
        Some((rest, String::from_str("true")))
    }
}

/// Reads `--key=value` arguments. Words that do not start with `--` are
/// passed over.
pub fn parse_kv_args(s: &str) -> (out: KvArgs)
    ensures
        out@ == kv_args(words(s@)),
{
    let ws = split_whitespace(s);
    let ghost all = words(s@);
    let mut pairs: Vec<(String, String)> = Vec::new();
    let mut i: usize = 0;
    assert(all.take(0) =~= Seq::<Seq<char>>::empty());
    while i < ws.len()
        invariant
            i <= ws@.len(),
            all == texts(ws@),
            pairs_view(pairs@) == kv_args(all.take(i as int)),
        decreases ws@.len() - i,
    {
        let ghost before = pairs@;
        assert(all.take(i + 1).drop_last() =~= all.take(i as int));
        assert(all.take(i + 1).last() == ws@[i as int]@);
        match kv_of(ws[i].as_str()) {
            Some(pair) => {
                pairs.push(pair);
                assert(pairs@.drop_last() =~= before);
            },
            None => {},
        }
        i = i + 1;
    }
    assert(all.take(all.len() as int) =~= all);
    KvArgs { pairs }
}

// ---------------------------------------------------------------------------
// The built-in commands
// ---------------------------------------------------------------------------

/// Every command that ships with the program, in the order in which the
/// groups register them.
pub open spec fn builtin_commands() -> Seq<SlashCommand> {
    registered_all(
        registered_all(
            registered_all(
                registered_all(
                    registered_all(
                        registered_all(
                            registered_all(
                                registered_all(
                                    registered_all(
                                        registered_all(
                                            registered_all(Seq::empty(), basic::commands()),
                                            session::commands(),
                                        ),
                                        observe::commands(),
                                    ),
                                    config::commands(),
                                ),
                                cost::commands(),
                            ),
                            export::commands(),
                        ),
                        model::commands(),
                    ),
                    think::commands(),
                ),
                perms::commands(),
            ),
            dx::commands(),
        ),
        existing::commands(),
    )
}

/// The registry of every command that ships with the program.
pub fn register_builtin() -> (r: SlashCommandRegistry)
    ensures
        r.wf(),
        r@ == builtin_commands(),
{
    let mut registry = SlashCommandRegistry::new();
    basic::register(&mut registry);
    session::register(&mut registry);
    observe::register(&mut registry);
    config::register(&mut registry);
    cost::register(&mut registry);
    export::register(&mut registry);
    model::register(&mut registry);
    think::register(&mut registry);
    perms::register(&mut registry);
    dx::register(&mut registry);
    existing::register(&mut registry);
    registry
}

/// Registers several commands one after the other.
pub fn register_all(registry: &mut SlashCommandRegistry, cmds: Vec<SlashCommand>)
    requires
        old(registry).wf(),
    ensures
        final(registry).wf(),
        final(registry)@ == registered_all(old(registry)@, cmds@),
{
    let ghost start = registry@;
    let mut i: usize = 0;
    assert(cmds@.take(0) =~= Seq::<SlashCommand>::empty());
    while i < cmds.len()
        invariant
            i <= cmds@.len(),
            registry.wf(),
            registry@ == registered_all(start, cmds@.take(i as int)),
        decreases cmds@.len() - i,
    {
        registry.register(cmds[i]);
        i = i + 1;
        assert(cmds@.take(i as int).drop_last() =~= cmds@.take(i - 1));
    }
    assert(cmds@.take(cmds@.len() as int) =~= cmds@);
}

// ---------------------------------------------------------------------------
// Laws
// ---------------------------------------------------------------------------

/// Whether `at` gives, for each character of `needle`, a position in `hay`
/// from `from` on that holds it, in ascending order.
pub open spec fn embeds(hay: Seq<char>, needle: Seq<char>, from: int, at: Seq<int>) -> bool {
    &&& at.len() == needle.len()
    &&& forall|i: int| 0 <= i < at.len() ==> from <= #[trigger] at[i] < hay.len() && hay[at[i]] == needle[i]
    &&& forall|i: int, j: int| 0 <= i < j < at.len() ==> #[trigger] at[i] < #[trigger] at[j]
}

proof fn lemma_fuzzy_gives_embedding(
    hay: Seq<char>,
    needle: Seq<char>,
    from: int,
    prev: Option<int>,
) -> (at: Seq<int>)
    requires
        0 <= from <= hay.len(),
        fuzzy_from(hay, needle, from, prev) is Some,
    ensures
        embeds(hay, needle, from, at),
    decreases needle.len(),
{
    if needle.len() == 0 {
        Seq::empty()
    } else {
        let i = next_at(hay, from, needle[0]);
        lemma_find_char(hay.skip(from), needle[0]);
        assert(hay.skip(from)[i - from] == needle[0]);
        let rest = lemma_fuzzy_gives_embedding(hay, needle.drop_first(), i + 1, Some(i));
        let at = seq![i] + rest;
        assert forall|k: int| 0 <= k < at.len() implies from <= #[trigger] at[k] < hay.len()
            && hay[at[k]] == needle[k] by {
            if k > 0 {
                assert(at[k] == rest[k - 1]);
                assert(needle.drop_first()[k - 1] == needle[k]);
            }
        }
        assert forall|a: int, b: int| 0 <= a < b < at.len() implies #[trigger] at[a]
            < #[trigger] at[b] by {
            assert(at[b] == rest[b - 1]);
            if a > 0 {
                assert(at[a] == rest[a - 1]);
            }
        }
        at
    }
}

proof fn lemma_embedding_gives_fuzzy(
    hay: Seq<char>,
    needle: Seq<char>,
    from: int,
    prev: Option<int>,
    at: Seq<int>,
)
    requires
        0 <= from <= hay.len(),
        embeds(hay, needle, from, at),
    ensures
        fuzzy_from(hay, needle, from, prev) is Some,
    decreases needle.len(),
{
    if needle.len() > 0 {
        let i = next_at(hay, from, needle[0]);
        let p = at[0];
        lemma_find_char(hay.skip(from), needle[0]);
        assert(hay[p] == needle[0]);
        assert(hay.skip(from)[p - from] == needle[0]);
        assert(i <= p);
        let rest = at.drop_first();
        assert forall|k: int| 0 <= k < rest.len() implies i + 1 <= #[trigger] rest[k] < hay.len()
            && hay[rest[k]] == needle.drop_first()[k] by {
            assert(at[0] < at[k + 1]);
            assert(hay[at[k + 1]] == needle[k + 1]);
        }
        assert forall|a: int, b: int| 0 <= a < b < rest.len() implies #[trigger] rest[a]
            < #[trigger] rest[b] by {
            assert(at[a + 1] < at[b + 1]);
        }
        lemma_embedding_gives_fuzzy(hay, needle.drop_first(), i + 1, Some(i), rest);
    }
}

/// A needle has a score exactly where its letters, case aside, occur in the
/// haystack in their order.
pub proof fn law_score_exactly_for_subsequences(haystack: Seq<char>, needle: Seq<char>)
    requires
        needle.len() > 0,
    ensures
        fuzzy(haystack, needle) is Some <==> exists|at: Seq<int>|
            embeds(lowered(haystack), lowered(needle), 0, at),
{
    let h = lowered(haystack);
    let n = lowered(needle);
    if fuzzy(haystack, needle) is Some {
        let at = lemma_fuzzy_gives_embedding(h, n, 0, None);
        assert(embeds(h, n, 0, at));
    }
    if exists|at: Seq<int>| embeds(h, n, 0, at) {
        let at = choose|at: Seq<int>| embeds(h, n, 0, at);
        lemma_embedding_gives_fuzzy(h, n, 0, None, at);
    }
}

/// Registering keeps names unique, makes the command known under its name,
/// and leaves the commands of other names alone.
pub proof fn law_registering_adds_or_replaces(
    cmds: Seq<SlashCommand>,
    cmd: SlashCommand,
    name: Seq<char>,
)
    requires
        distinct_names(cmds),
    ensures
        distinct_names(registered(cmds, cmd)),
        has_name(registered(cmds, cmd), cmd.meta.name@),
        name != cmd.meta.name@ ==> has_name(registered(cmds, cmd), name) == has_name(cmds, name),
        registered(cmds, cmd).len() == cmds.len() + (if has_name(cmds, cmd.meta.name@) {
            0int
        } else {
            1int
        }),
{
    let out = registered(cmds, cmd);
    let own = cmd.meta.name@;
    if has_name(cmds, own) {
        let at = choose|i: int| named_at(cmds, own, i);
        assert(named_at(out, own, at));
        if has_name(cmds, name) {
            let i = choose|i: int| named_at(cmds, name, i);
            assert(name != own ==> named_at(out, name, i));
        }
        if name != own && has_name(out, name) {
            let i = choose|i: int| named_at(out, name, i);
            assert(named_at(cmds, name, i));
        }
    } else {
        assert(named_at(out, own, cmds.len() as int));
        assert forall|i: int, j: int| 0 <= i < j < out.len() implies (#[trigger] out[i]).meta.name@
            != (#[trigger] out[j]).meta.name@ by {
            if j == cmds.len() {
                assert(!named_at(cmds, own, i));
            }
        }
        if has_name(cmds, name) {
            let i = choose|i: int| named_at(cmds, name, i);
            assert(named_at(out, name, i));
        }
        if name != own && has_name(out, name) {
            let i = choose|i: int| named_at(out, name, i);
            assert(named_at(cmds, name, i));
        }
    }
}

/// What is found under a name bears it and is registered; where nothing is
/// found, no command bears it.
pub proof fn law_commands_are_found_by_name(cmds: Seq<SlashCommand>, name: Seq<char>)
    ensures
        match command_named(cmds, name) {
            Some(c) => c.meta.name@ == name && cmds.contains(c),
            None => forall|i: int| 0 <= i < cmds.len() ==> (#[trigger] cmds[i]).meta.name@ != name,
        },
    decreases cmds.len(),
{
    if cmds.len() > 0 {
        let rest = cmds.drop_first();
        law_commands_are_found_by_name(rest, name);
        if cmds[0].meta.name@ == name {
            assert(cmds.contains(cmds[0]));
        } else {
            match command_named(rest, name) {
                Some(c) => {
                    let i = choose|i: int| 0 <= i < rest.len() && rest[i] == c;
                    assert(cmds[i + 1] == c);
                },
                None => {
                    assert forall|i: int| 0 <= i < cmds.len() implies (#[trigger] cmds[i]).meta.name@
                        != name by {
                        if i > 0 {
                            assert(cmds[i] == rest[i - 1]);
                        }
                    }
                },
            }
        }
    }
}

/// A registered command is found under its name as it was registered, every
/// other name finds what it found before, and no command changes its place.
pub proof fn law_the_registered_command_is_found(
    cmds: Seq<SlashCommand>,
    cmd: SlashCommand,
    name: Seq<char>,
)
    requires
        distinct_names(cmds),
    ensures
        command_named(registered(cmds, cmd), cmd.meta.name@) == Some(cmd),
        name != cmd.meta.name@ ==> command_named(registered(cmds, cmd), name) == command_named(
            cmds,
            name,
        ),
        registered(cmds, cmd).contains(cmd),
        forall|i: int|
            0 <= i < cmds.len() && (#[trigger] cmds[i]).meta.name@ != cmd.meta.name@
                ==> registered(cmds, cmd)[i] == cmds[i],
{
    let out = registered(cmds, cmd);
    let own = cmd.meta.name@;
    let at = if has_name(cmds, own) {
        choose|i: int| named_at(cmds, own, i)
    } else {
        cmds.len() as int
    };
    assert(out[at] == cmd);
    assert(named_at(out, own, at));
    assert forall|k: int| 0 <= k < at implies !named_at(out, own, k) by {
        if has_name(cmds, own) {
            assert(cmds[k].meta.name@ != cmds[at].meta.name@);
        } else {
            assert(!named_at(cmds, own, k));
        }
        assert(out[k] == cmds[k]);
    }
    lemma_command_named(out, own, at);
    if name != own {
        if has_name(cmds, name) {
            let i = choose|i: int| named_at(cmds, name, i);
            assert forall|k: int| 0 <= k < i implies !named_at(cmds, name, k) by {
                assert(cmds[k].meta.name@ != cmds[i].meta.name@);
            }
            lemma_command_named(cmds, name, i);
            assert forall|k: int| 0 <= k < i implies !named_at(out, name, k) by {
                assert(!named_at(cmds, name, k));
            }
            assert(named_at(out, name, i));
            lemma_command_named(out, name, i);
        } else {
            assert forall|k: int| 0 <= k < cmds.len() implies !named_at(cmds, name, k) by {}
            lemma_command_named(cmds, name, cmds.len() as int);
            assert forall|k: int| 0 <= k < out.len() implies !named_at(out, name, k) by {
                assert(!named_at(cmds, name, k));
            }
            lemma_command_named(out, name, out.len() as int);
        }
    }
}

/// Of a group that is registered each command is found under its name, the
/// later of two with one name, and other names find what they found before.
pub proof fn law_the_last_registered_stands(
    cmds: Seq<SlashCommand>,
    more: Seq<SlashCommand>,
    last: SlashCommand,
    name: Seq<char>,
)
    requires
        distinct_names(cmds),
    ensures
        registered_all(cmds, Seq::empty()) == cmds,
        distinct_names(registered_all(cmds, more)),
        command_named(registered_all(cmds, more.push(last)), last.meta.name@) == Some(last),
        name != last.meta.name@ ==> command_named(registered_all(cmds, more.push(last)), name)
            == command_named(registered_all(cmds, more), name),
    decreases more.len(),
{
    if more.len() > 0 {
        law_the_last_registered_stands(cmds, more.drop_last(), more.last(), name);
        law_registering_adds_or_replaces(
            registered_all(cmds, more.drop_last()),
            more.last(),
            name,
        );
    }
    assert(more.push(last).drop_last() =~= more);
    law_the_registered_command_is_found(registered_all(cmds, more), last, name);
}

/// A letter of the needle is matched at the first place that has it. A match
/// at the start earns fifteen points, one behind a character that is neither
/// letter nor number ten; one right behind the match before it earns eight,
/// and otherwise each character skipped since costs a point.
pub proof fn law_matches_earn_by_their_place(
    hay: Seq<char>,
    rest: Seq<char>,
    from: int,
    prev: Option<int>,
    i: int,
)
    requires
        0 <= from <= i < hay.len(),
        i <= i32::MAX,
        prev is Some ==> 0 <= prev->0 < from,
        forall|k: int| from <= k < i ==> hay[k] != hay[i],
    ensures
        fuzzy_from(hay, Seq::empty(), from, prev) == Some(0int),
        fuzzy_from(hay, seq![hay[i]] + rest, from, prev) is Some <==> fuzzy_from(
            hay,
            rest,
            i + 1,
            Some(i),
        ) is Some,
        fuzzy_from(hay, rest, i + 1, Some(i)) is Some ==> fuzzy_from(
            hay,
            seq![hay[i]] + rest,
            from,
            prev,
        )->0 == fuzzy_from(hay, rest, i + 1, Some(i))->0 + (if i == 0 {
            15int
        } else if !alphanumeric(hay[i - 1]) {
            10int
        } else {
            0int
        }) + (if prev is None {
            0int
        } else if prev->0 == i - 1 {
            8int
        } else {
            prev->0 + 1 - i
        }),
{
    let needle = seq![hay[i]] + rest;
    assert(needle[0] == hay[i]);
    assert(needle.drop_first() =~= rest);
    let tail = hay.skip(from);
    lemma_find_char(tail, hay[i]);
    let f = find_char(tail, hay[i]) as int;
    assert(tail[i - from] == hay[i]);
    if f < i - from {
        assert(tail[f] == hay[from + f]);
    } else if f > i - from {
        assert(tail[i - from] != hay[i]);
    }
    assert(next_at(hay, from, hay[i]) == i);
}

/// A letter that does not come again leaves the needle without a score; an
/// empty needle scores nothing anywhere.
pub proof fn law_missing_letters_leave_no_score(
    hay: Seq<char>,
    c: char,
    rest: Seq<char>,
    from: int,
    prev: Option<int>,
    name: Seq<char>,
)
    requires
        0 <= from <= hay.len(),
        forall|k: int| from <= k < hay.len() ==> hay[k] != c,
    ensures
        fuzzy_from(hay, seq![c] + rest, from, prev) is None,
        fuzzy(name, Seq::empty()) == Some(0int),
{
    let needle = seq![c] + rest;
    assert(needle[0] == c);
    let tail = hay.skip(from);
    lemma_find_char(tail, c);
    let f = find_char(tail, c) as int;
    if f < tail.len() {
        assert(tail[f] == hay[from + f]);
    }
}

/// A needle is matched from the start, and the case of neither text matters:
/// texts that are the same in lower case score the same.
pub proof fn law_scores_start_at_the_start(haystack: Seq<char>, needle: Seq<char>, a: Seq<char>, c: char)
    requires
        needle.len() > 0,
    ensures
        fuzzy(haystack, needle) == fuzzy_from(lowered(haystack), lowered(needle), 0, None),
        lowered(Seq::empty()) == Seq::<char>::empty(),
        lowered(a.push(c)) == lowered(a) + char_lowercase(c),
{
    assert(a.push(c).drop_last() =~= a);
}

/// A hidden command is never suggested, whatever is typed; the slash before
/// a name takes no part in the match.
pub proof fn law_suggestions_pass_over_the_slash(m: SlashCommandMeta, name: Seq<char>, prefix: Seq<char>)
    requires
        m.name@ == seq!['/'] + name,
    ensures
        m.hidden ==> suggestion_score(m, prefix) is None,
        !m.hidden ==> suggestion_score(m, prefix) == fuzzy(name, prefix),
        !m.hidden ==> suggestion_score(m, Seq::empty()) == Some(0int),
{
    assert(m.name@.drop_first() =~= name);
}

/// More points come first; names decide between the same points.
pub proof fn law_points_rank_before_names(p: int, q: int, a: Seq<char>, b: Seq<char>)
    ensures
        p > q ==> ranks_before((p, a), (q, b)) && !ranks_before((q, b), (p, a)),
        ranks_before((p, a), (p, b)) == text_before(a, b),
{
}

/// A prompt runs at any time exactly where its first word starts with a
/// slash and names a registered command that is marked so.
pub proof fn law_the_first_word_decides(prompt: Seq<char>, cmds: Seq<SlashCommand>)
    requires
        distinct_names(cmds),
    ensures
        words(prompt).len() == 0 ==> !invokes_immediate(prompt, cmds),
        words(prompt).len() > 0 && words(prompt)[0].len() > 0 && words(prompt)[0][0] != '/'
            ==> !invokes_immediate(prompt, cmds),
        words(prompt).len() > 0 && words(prompt)[0].len() > 0 && words(prompt)[0][0] == '/' ==> (
        invokes_immediate(prompt, cmds) <==> command_named(cmds, words(prompt)[0]) is Some
            && command_named(cmds, words(prompt)[0])->0.meta.immediate),
{
    let name = first_word(prompt);
    law_commands_are_found_by_name(cmds, name);
    if has_name(cmds, name) {
        let i = choose|i: int| named_at(cmds, name, i);
        assert forall|k: int| 0 <= k < i implies !named_at(cmds, name, k) by {
            assert(cmds[k].meta.name@ != cmds[i].meta.name@);
        }
        lemma_command_named(cmds, name, i);
        assert forall|k: int| named_at(cmds, name, k) implies k == i by {
            if k < i {
                assert(cmds[k].meta.name@ != cmds[i].meta.name@);
            } else if i < k {
                assert(cmds[i].meta.name@ != cmds[k].meta.name@);
            }
        }
    } else {
        match command_named(cmds, name) {
            Some(c) => {
                let i = choose|i: int| 0 <= i < cmds.len() && cmds[i] == c;
                assert(named_at(cmds, name, i));
            },
            None => {},
        }
    }
}

/// The quotes around a text come off, as many as there are, of both kinds;
/// those inside stay.
pub proof fn law_quotes_come_off_the_ends(lead: Seq<char>, s: Seq<char>, tail: Seq<char>)
    requires
        forall|i: int| 0 <= i < lead.len() ==> #[trigger] lead[i] == '"' || lead[i] == '\'',
        forall|i: int| 0 <= i < tail.len() ==> #[trigger] tail[i] == '"' || tail[i] == '\'',
        s.len() > 0,
        s[0] != '"' && s[0] != '\'',
        s.last() != '"' && s.last() != '\'',
    ensures
        unquoted(lead + s + tail) == s,
        unquoted(lead) == Seq::<char>::empty(),
{
    lemma_lead_unquoted(lead, s + tail);
    assert(lead + s + tail =~= lead + (s + tail));
    lemma_tail_unquoted(s, tail);
    lemma_only_quotes(lead);
}

proof fn lemma_lead_unquoted(lead: Seq<char>, rest: Seq<char>)
    requires
        forall|i: int| 0 <= i < lead.len() ==> is_quote(#[trigger] lead[i]),
        rest.len() > 0,
        !is_quote(rest[0]),
    ensures
        unquote_start(lead + rest) == rest,
    decreases lead.len(),
{
    if lead.len() > 0 {
        assert((lead + rest)[0] == lead[0]);
        assert((lead + rest).drop_first() =~= lead.drop_first() + rest);
        assert forall|i: int| 0 <= i < lead.drop_first().len() implies is_quote(
            #[trigger] lead.drop_first()[i],
        ) by {
            assert(lead.drop_first()[i] == lead[i + 1]);
        }
        lemma_lead_unquoted(lead.drop_first(), rest);
    } else {
        assert(lead + rest =~= rest);
    }
}

proof fn lemma_tail_unquoted(s: Seq<char>, tail: Seq<char>)
    requires
        forall|i: int| 0 <= i < tail.len() ==> is_quote(#[trigger] tail[i]),
        s.len() > 0,
        !is_quote(s.last()),
    ensures
        unquote_end(s + tail) == s,
    decreases tail.len(),
{
    if tail.len() > 0 {
        assert((s + tail).last() == tail.last());
        assert((s + tail).drop_last() =~= s + tail.drop_last());
        lemma_tail_unquoted(s, tail.drop_last());
    } else {
        assert(s + tail =~= s);
    }
}

proof fn lemma_only_quotes(s: Seq<char>)
    requires
        forall|i: int| 0 <= i < s.len() ==> is_quote(#[trigger] s[i]),
    ensures
        unquote_start(s) == Seq::<char>::empty(),
    decreases s.len(),
{
    if s.len() > 0 {
        assert forall|i: int| 0 <= i < s.drop_first().len() implies is_quote(
            #[trigger] s.drop_first()[i],
        ) by {
            assert(s.drop_first()[i] == s[i + 1]);
        }
        lemma_only_quotes(s.drop_first());
    }
}

/// Two dashes, a key, an equals sign and a value set the key to the value
/// without its quotes; two dashes and a key alone set it to `true`.
pub proof fn law_flags_set_their_key(key: Seq<char>, value: Seq<char>)
    requires
        forall|i: int| 0 <= i < key.len() ==> #[trigger] key[i] != '=',
    ensures
        kv_pair("--"@ + key + "="@ + value) == Some((key, unquoted(value))),
        kv_pair("--"@ + key) == Some((key, "true"@)),
{
    reveal_strlit("--");
    reveal_strlit("=");
    let w = "--"@ + key + "="@ + value;
    let rest = w.skip(2);
    assert(rest =~= key + "="@ + value);
    lemma_find_char(rest, '=');
    let n = find_char(rest, '=') as int;
    assert(rest[key.len() as int] == '=');
    if n < key.len() {
        assert(rest[n] == key[n]);
    }
    assert(n == key.len());
    assert(rest.take(n) =~= key);
    assert(rest.skip(n + 1) =~= value);
    assert(w.subrange(0, 2) =~= "--"@);
    let bare = "--"@ + key;
    assert(bare.skip(2) =~= key);
    assert(bare.subrange(0, 2) =~= "--"@);
    lemma_find_char(key, '=');
    let m = find_char(key, '=') as int;
    if m < key.len() {
        assert(key[m] == '=');
    }
}

/// A word that does not start with two dashes sets nothing; a later word
/// overrides an earlier one, and leaves the other keys alone.
pub proof fn law_later_words_override(ws: Seq<Seq<char>>, w: Seq<char>, key: Seq<char>)
    ensures
        kv_args(Seq::empty()) == Map::<Seq<char>, Seq<char>>::empty(),
        w.len() < 2 || w[0] != '-' || w[1] != '-' ==> kv_pair(w) is None,
        kv_pair(w) is None ==> kv_args(ws.push(w)) == kv_args(ws),
        match kv_pair(w) {
            Some((k, v)) => {
                &&& kv_args(ws.push(w)).contains_key(k)
                &&& kv_args(ws.push(w))[k] == v
                &&& key != k ==> kv_args(ws.push(w)).contains_key(key) == kv_args(ws).contains_key(
                    key,
                )
                &&& key != k ==> kv_args(ws.push(w))[key] == kv_args(ws)[key]
            },
            None => true,
        },
{
    assert(ws.push(w).drop_last() =~= ws);
    reveal_strlit("--");
    if starts_with(w, "--"@) {
        assert(w.subrange(0, 2)[0] == w[0]);
        assert(w.subrange(0, 2)[1] == w[1]);
    }
}

} // verus!
