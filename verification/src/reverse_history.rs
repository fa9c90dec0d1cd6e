//! Search through past prompts, newest first, in three scopes: this session,
//! this project, all projects.
//!
//! Histories live in one text file per project, one entry per line. Reading
//! and writing the files is the caller's part; what a file's text means, and
//! what is to be appended to it, is settled here.

use vstd::prelude::*;

use crate::text::{
    clone_texts, contains, contains_text, find_char, is_ascii_alnum, is_ascii_alnum_char,
    law_line_feeds_end_lines, law_stripping_takes_the_runs_off, lemma_find_char, lemma_strip_end,
    lemma_strip_start, lines, lines_of, lowercase, occurs_at, opt_text,
    push_text, same, strip_both, strip_both_text, strip_cr, strip_end, strip_start, texts,
};

verus! {

/// Most entries that a search over all projects considers.
pub const ALL_PROJECTS_CAP: usize = 5000;

/// Where to search.
#[derive(Debug, Clone, Copy, PartialEq, Eq, Structural)]
pub enum HistoryScope {
    /// Prompts of this session.
    Session,
    /// Prompts kept for the current project.
    Project,
    /// Prompts kept for every project.
    AllProjects,
}

impl HistoryScope {
    pub open spec fn next(self) -> HistoryScope {
        match self {
            HistoryScope::Session => HistoryScope::Project,
            HistoryScope::Project => HistoryScope::AllProjects,
            HistoryScope::AllProjects => HistoryScope::Session,
        }
    }

    pub open spec fn name(self) -> Seq<char> {
        match self {
            HistoryScope::Session => "session"@,
            HistoryScope::Project => "project"@,
            HistoryScope::AllProjects => "all-projects"@,
        }
    }

    /// The scope after this one, the first again after the last.
    pub fn cycle(self) -> (r: HistoryScope)
        ensures
            r == self.next(),
    {
        match self {
            HistoryScope::Session => HistoryScope::Project,
            HistoryScope::Project => HistoryScope::AllProjects,
            HistoryScope::AllProjects => HistoryScope::Session,
        }
    }

    /// Label for the footer.
    pub fn label(self) -> (r: &'static str)
        ensures
            r@ == self.name(),
    {
        match self {
            HistoryScope::Session => "session",
            HistoryScope::Project => "project",
            HistoryScope::AllProjects => "all-projects",
        }
    }
}

/// Whether an entry answers a query: it contains it, whatever the case of
/// the letters.
pub open spec fn hit(entry: Seq<char>, query: Seq<char>) -> bool {
    contains(lowercase(entry), lowercase(query))
}

/// Each run of equal neighbours reduced to one.
pub open spec fn dedup(s: Seq<Seq<char>>) -> Seq<Seq<char>>
    decreases s.len(),
{
    if s.len() <= 1 {
        s
    } else if s.last() == s[s.len() - 2] {
        dedup(s.drop_last())
    } else {
        dedup(s.drop_last()).push(s.last())
    }
}

/// The entries that answer a query, newest first, neighbouring repeats left
/// out.
pub open spec fn matching(history: Seq<Seq<char>>, query: Seq<char>) -> Seq<Seq<char>> {
    dedup(history.reverse().filter(|e: Seq<char>| hit(e, query)))
}

proof fn lemma_dedup_last(s: Seq<Seq<char>>)
    requires
        s.len() > 0,
    ensures
        dedup(s).len() > 0,
        dedup(s).last() == s.last(),
    decreases s.len(),
{
    if s.len() > 1 {
        lemma_dedup_last(s.drop_last());
    }
}

/// What the search holds.
#[verifier::ext_equal]
pub struct ReverseHistoryView {
    pub query: Seq<char>,
    pub scope: HistoryScope,
    pub cursor: int,
    pub session: Seq<Seq<char>>,
    pub project_path: Option<Seq<char>>,
    pub all_root: Option<Seq<char>>,
    pub project: Option<Seq<Seq<char>>>,
    pub all: Option<Seq<Seq<char>>>,
}

impl ReverseHistoryView {
    /// A search over `session` that has typed nothing yet.
    pub open spec fn fresh(
        session: Seq<Seq<char>>,
        project_path: Option<Seq<char>>,
        all_root: Option<Seq<char>>,
    ) -> ReverseHistoryView {
        ReverseHistoryView {
            query: Seq::empty(),
            scope: HistoryScope::Session,
            cursor: 0,
            session,
            project_path,
            all_root,
            project: None,
            all: None,
        }
    }

    /// The history of the scope; nothing where it was not loaded.
    pub open spec fn active(self) -> Seq<Seq<char>> {
        match self.scope {
            HistoryScope::Session => self.session,
            HistoryScope::Project => match self.project {
                Some(v) => v,
                None => Seq::empty(),
            },
            HistoryScope::AllProjects => match self.all {
                Some(v) => v,
                None => Seq::empty(),
            },
        }
    }

    pub open spec fn hits(self) -> Seq<Seq<char>> {
        matching(self.active(), self.query)
    }

    pub open spec fn chosen(self) -> Option<Seq<char>> {
        if 0 <= self.cursor < self.hits().len() {
            Some(self.hits()[self.cursor])
        } else {
            None
        }
    }

    pub open spec fn typed(self, c: char) -> ReverseHistoryView {
        ReverseHistoryView { query: self.query.push(c), cursor: 0, ..self }
    }

    pub open spec fn erased(self) -> ReverseHistoryView {
        ReverseHistoryView {
            query: if self.query.len() > 0 {
                self.query.drop_last()
            } else {
                self.query
            },
            cursor: 0,
            ..self
        }
    }

    /// The history that the scope still wants read from disk.
    pub open spec fn wanted(self) -> Option<HistorySource<Seq<char>>> {
        match self.scope {
            HistoryScope::Session => None,
            HistoryScope::Project => match (self.project, self.project_path) {
                (None, Some(p)) => Some(HistorySource::ProjectFile(p)),
                _ => None,
            },
            HistoryScope::AllProjects => match (self.all, self.all_root) {
                (None, Some(p)) => Some(HistorySource::ProjectsRoot(p)),
                _ => None,
            },
        }
    }

    /// The next scope, its history empty where there is no file to read it
    /// from.
    pub open spec fn widened(self) -> ReverseHistoryView {
        let v = ReverseHistoryView { scope: self.scope.next(), cursor: 0, ..self };
        match v.scope {
            HistoryScope::Session => v,
            HistoryScope::Project => if v.project is None && v.project_path is None {
                ReverseHistoryView { project: Some(Seq::empty()), ..v }
            } else {
                v
            },
            HistoryScope::AllProjects => if v.all is None && v.all_root is None {
                ReverseHistoryView { all: Some(Seq::empty()), ..v }
            } else {
                v
            },
        }
    }

    pub open spec fn up(self) -> ReverseHistoryView {
        ReverseHistoryView {
            cursor: if self.cursor > 0 {
                self.cursor - 1
            } else {
                self.cursor
            },
            ..self
        }
    }

    pub open spec fn down(self) -> ReverseHistoryView {
        ReverseHistoryView {
            cursor: if self.cursor + 1 < self.hits().len() {
                self.cursor + 1
            } else {
                self.cursor
            },
            ..self
        }
    }

    /// The highlight is on a hit, or at the top.
    pub open spec fn cursor_valid(self) -> bool {
        0 <= self.cursor && (self.cursor == 0 || self.cursor < self.hits().len())
    }
}

/// A history to be read from disk.
#[derive(Debug, PartialEq, Eq)]
pub enum HistorySource<S = String> {
    /// One history file.
    ProjectFile(S),
    /// The directory that holds one directory with a history file for each
    /// project.
    ProjectsRoot(S),
}

pub open spec fn source_text(o: Option<HistorySource<String>>) -> Option<HistorySource<Seq<char>>> {
    match o {
        Some(HistorySource::ProjectFile(p)) => Some(HistorySource::ProjectFile(p@)),
        Some(HistorySource::ProjectsRoot(p)) => Some(HistorySource::ProjectsRoot(p@)),
        None => None,
    }
}

/// State of the search while its overlay is open.
#[derive(Debug)]
pub struct ReverseHistoryState {
    /// What the user typed.
    pub query: String,
    pub scope: HistoryScope,
    /// Position of the highlight among the hits.
    pub cursor: usize,
    pub session_history: Vec<String>,
    pub project_path: Option<String>,
    pub all_root: Option<String>,
    pub project_cache: Option<Vec<String>>,
    pub all_cache: Option<Vec<String>>,
}

pub open spec fn opt_texts(o: Option<Vec<String>>) -> Option<Seq<Seq<char>>> {
    match o {
        Some(v) => Some(texts(v@)),
        None => None,
    }
}

impl View for ReverseHistoryState {
    type V = ReverseHistoryView;

    open spec fn view(&self) -> ReverseHistoryView {
        ReverseHistoryView {
            query: self.query@,
            scope: self.scope,
            cursor: self.cursor as int,
            session: texts(self.session_history@),
            project_path: opt_text(self.project_path),
            all_root: opt_text(self.all_root),
            project: opt_texts(self.project_cache),
            all: opt_texts(self.all_cache),
        }
    }
}

impl ReverseHistoryState {
    /// A fresh search at session scope.
    pub fn new(
        session_history: Vec<String>,
        project_path: Option<String>,
        all_root: Option<String>,
    ) -> (r: ReverseHistoryState)
        ensures
            r@ == ReverseHistoryView::fresh(
                texts(session_history@),
                opt_text(project_path),
                opt_text(all_root),
            ),
    {
        ReverseHistoryState {
            query: String::new(),
            scope: HistoryScope::Session,
            cursor: 0,
            session_history,
            project_path,
            all_root,
            project_cache: None,
            all_cache: None,
        }
    }

    /// Appends a character to the query; the highlight goes to the top.
    pub fn push_char(&mut self, c: char)
        ensures
            final(self)@ == old(self)@.typed(c),
    {
        self.query.push(c);
        self.cursor = 0;
    }

    /// Takes the last character off the query; the highlight goes to the top.
    pub fn pop_char(&mut self)
        ensures
            final(self)@ == old(self)@.erased(),
    {
        crate::text::drop_last_char(&mut self.query);
        self.cursor = 0;
    }

    /// Goes to the next scope. Returns what has to be read from disk before
    /// it can be searched, to be handed in with [`Self::provide`].
    pub fn cycle_scope(&mut self) -> (want: Option<HistorySource>)
        ensures
            final(self)@ == old(self)@.widened(),
            source_text(want) == final(self)@.wanted(),
    {
        self.scope = self.scope.cycle();
        self.cursor = 0;
        match self.scope {
            HistoryScope::Session => None,
            HistoryScope::Project => {
                if self.project_cache.is_some() {
                    return None;
                }
                match &self.project_path {
                    Some(p) => Some(HistorySource::ProjectFile(p.clone())),
                    None => {
                        let empty: Vec<String> = Vec::new();
                        assert(texts(empty@) =~= Seq::<Seq<char>>::empty());
                        self.project_cache = Some(empty);
                        None
                    },
                }
            },
            HistoryScope::AllProjects => {
                if self.all_cache.is_some() {
                    return None;
                }
                match &self.all_root {
                    Some(p) => Some(HistorySource::ProjectsRoot(p.clone())),
                    None => {
                        let empty: Vec<String> = Vec::new();
                        assert(texts(empty@) =~= Seq::<Seq<char>>::empty());
                        self.all_cache = Some(empty);
                        None
                    },
                }
            },
        }
    }

    /// Takes in the entries that were read for the scope. The session's own
    /// history is never replaced.
    pub fn provide(&mut self, entries: Vec<String>)
        ensures
            final(self)@ == (match old(self)@.scope {
                HistoryScope::Session => old(self)@,
                HistoryScope::Project => ReverseHistoryView {
                    project: Some(texts(entries@)),
                    ..old(self)@
                },
                HistoryScope::AllProjects => ReverseHistoryView {
                    all: Some(texts(entries@)),
                    ..old(self)@
                },
            }),
    {
        match self.scope {
            HistoryScope::Session => {},
            HistoryScope::Project => {
                self.project_cache = Some(entries);
            },
            HistoryScope::AllProjects => {
                self.all_cache = Some(entries);
            },
        }
    }

    /// Moves the highlight towards newer hits.
    pub fn cursor_up(&mut self)
        ensures
            final(self)@ == old(self)@.up(),
    {
        if self.cursor > 0 {
            self.cursor = self.cursor - 1;
        }
    }

    /// Moves the highlight towards older hits.
    pub fn cursor_down(&mut self)
        ensures
            final(self)@ == old(self)@.down(),
    {
        let found = self.matches();
        let total: usize = found.len();
        assert(texts(found@).len() == total);
        if total > 0 && self.cursor < total - 1 {
            self.cursor = self.cursor + 1;
        }
    }

    /// The history of the active scope.
    pub fn active_history(&self) -> (r: Vec<String>)
        ensures
            texts(r@) == self@.active(),
    {
        match self.scope {
            HistoryScope::Session => clone_texts(&self.session_history),
            HistoryScope::Project => match &self.project_cache {
                Some(v) => clone_texts(v),
                None => {
                    let empty: Vec<String> = Vec::new();
                    assert(texts(empty@) =~= Seq::<Seq<char>>::empty());
                    empty
                },
            },
            HistoryScope::AllProjects => match &self.all_cache {
                Some(v) => clone_texts(v),
                None => {
                    let empty: Vec<String> = Vec::new();
                    assert(texts(empty@) =~= Seq::<Seq<char>>::empty());
                    empty
                },
            },
        }
    }

    /// The hits, newest first. An empty query hits every entry.
    pub fn matches(&self) -> (out: Vec<String>)
        ensures
            texts(out@) == self@.hits(),
    {
        let active = self.active_history();
        let q = self.query.as_str().to_lowercase();
        let ghost r = texts(active@).reverse();
        let ghost pred = |e: Seq<char>| hit(e, self.query@);
        let mut out: Vec<String> = Vec::new();
        let mut i: usize = active.len();
        reveal(Seq::filter);
        assert(r.take(0).filter(pred) =~= Seq::<Seq<char>>::empty());
        assert(texts(out@) =~= dedup(r.take(0).filter(pred)));
        while i > 0
            invariant
                i <= active@.len(),
                r == texts(active@).reverse(),
                q@ == lowercase(self.query@),
                pred == (|e: Seq<char>| hit(e, self.query@)),
                texts(out@) == dedup(r.take(active@.len() - i).filter(pred)),
            decreases i,
        {
            let ghost j = active@.len() - i;
            let entry = &active[i - 1];
            let ghost seen = r.take(j).filter(pred);
            let ghost now = r.take(j + 1).filter(pred);
            proof {
                assert(r.take(j + 1).drop_last() =~= r.take(j));
                assert(r.take(j + 1).last() == entry@);
                reveal(Seq::filter);
                if seen.len() > 0 {
                    lemma_dedup_last(seen);
                }
            }
            if contains_text(entry.as_str().to_lowercase().as_str(), q.as_str()) {
                let n: usize = out.len();
                assert(texts(out@).len() == n);
                assert(now == seen.push(entry@));
                assert(now.drop_last() =~= seen);
                if n > 0 && same(out[n - 1].as_str(), entry.as_str()) {
                    assert(texts(out@).last() == out@[n - 1]@);
                    assert(seen.len() > 0);
                } else {
                    if n > 0 {
                        assert(texts(out@).last() == out@[n - 1]@);
                    }
                    push_text(&mut out, entry.clone());
                    assert(texts(out@) =~= dedup(now));
                }
            } else {
                assert(now == seen);
            }
            i = i - 1;
        }
        assert(r.take(r.len() as int) =~= r);
        out
    }

    /// The highlighted hit, if any.
    pub fn selected(&self) -> (r: Option<String>)
        ensures
            opt_text(r) == self@.chosen(),
    {
        let found = self.matches();
        assert(texts(found@).len() == found@.len());
        if self.cursor < found.len() {
            assert(texts(found@)[self.cursor as int] == found@[self.cursor as int]@);
            Some(found[self.cursor].clone())
        } else {
            None
        }
    }
}

// ---------------------------------------------------------------------------
// History files
// ---------------------------------------------------------------------------

/// A character that a directory name keeps; any other becomes a dash.
pub open spec fn portable(c: char) -> char {
    if is_ascii_alnum(c) || c == '.' || c == '_' {
        c
    } else {
        '-'
    }
}

/// The directory name for a working directory: unportable characters as
/// dashes, none at either end.
pub open spec fn sanitized(path: Seq<char>) -> Seq<char> {
    strip_both(path.map_values(|c: char| portable(c)), '-')
}

pub fn sanitize_cwd(path: &str) -> (out: String)
    ensures
        out@ == sanitized(path@),
{
    let cs = crate::text::chars_of(path);
    let mut raw = String::new();
    let mut i: usize = 0;
    while i < cs.len()
        invariant
            i <= cs@.len(),
            raw@ == cs@.take(i as int).map_values(|c: char| portable(c)),
        decreases cs@.len() - i,
    {
        let c = cs[i];
        if is_ascii_alnum_char(c) || c == '.' || c == '_' {
            raw.push(c);
        } else {
            raw.push('-');
        }
        i = i + 1;
        assert(raw@ =~= cs@.take(i as int).map_values(|c: char| portable(c)));
    }
    assert(cs@.take(cs@.len() as int) =~= cs@);
    strip_both_text(raw.as_str(), '-')
}

/// Path of the history file of a project below the home directory.
pub open spec fn history_path(home: Seq<char>, cwd: Seq<char>) -> Seq<char> {
    home + "/.caliban/projects/"@ + sanitized(cwd) + "/input-history.txt"@
}

/// Path of the history file of the project at `cwd`; none without a home
/// directory.
pub fn project_history_path(home: Option<&str>, cwd: &str) -> (out: Option<String>)
    ensures
        opt_text(out) == (match home {
            Some(h) => Some(history_path(h@, cwd@)),
            None => None,
        }),
{
    match home {
        Some(h) => {
            let mut out = String::from_str(h);
            out.append("/.caliban/projects/");
            out.append(sanitize_cwd(cwd).as_str());
            out.append("/input-history.txt");
            Some(out)
        },
        None => None,
    }
}

/// The directory that holds the history of every project; none without a
/// home directory.
pub fn projects_root(home: Option<&str>) -> (out: Option<String>)
    ensures
        opt_text(out) == (match home {
            Some(h) => Some(h@ + "/.caliban/projects"@),
            None => None,
        }),
{
    match home {
        Some(h) => {
            let mut out = String::from_str(h);
            out.append("/.caliban/projects");
            Some(out)
        },
        None => None,
    }
}

/// The entries of a history file: its lines but for the empty ones.
pub open spec fn entries(body: Seq<char>) -> Seq<Seq<char>> {
    lines(body).filter(|l: Seq<char>| l.len() > 0)
}

/// The entries in the text of a history file.
pub fn history_entries(body: &str) -> (out: Vec<String>)
    ensures
        texts(out@) == entries(body@),
{
    let ls = lines_of(body);
    let ghost pred = |l: Seq<char>| l.len() > 0;
    let mut out: Vec<String> = Vec::new();
    let mut i: usize = 0;
    reveal(Seq::filter);
    assert(texts(out@) =~= texts(ls@).take(0).filter(pred));
    while i < ls.len()
        invariant
            i <= ls@.len(),
            pred == (|l: Seq<char>| l.len() > 0),
            texts(out@) == texts(ls@).take(i as int).filter(pred),
        decreases ls@.len() - i,
    {
        proof {
            assert(texts(ls@).take(i + 1).drop_last() =~= texts(ls@).take(i as int));
            assert(texts(ls@).take(i + 1).last() == ls@[i as int]@);
            reveal(Seq::filter);
        }
        if !ls[i].as_str().is_empty() {
            push_text(&mut out, ls[i].clone());
        }
        i = i + 1;
    }
    assert(texts(ls@).take(ls@.len() as int) =~= texts(ls@));
    out
}

/// What is appended to a history file for a submitted line: the line and a
/// line feed, nothing for an empty one.
pub open spec fn record(entry: Seq<char>) -> Seq<char> {
    if entry.len() == 0 {
        entry
    } else {
        entry.push('\n')
    }
}

/// What has to be appended to the history file for a submitted line.
pub fn history_record(entry: &str) -> (out: String)
    ensures
        out@ == record(entry@),
{
    let mut out = String::from_str(entry);
    if !entry.is_empty() {
        out.push('\n');
    }
    out
}

/// The entries of all files, file after file.
pub open spec fn all_entries(bodies: Seq<Seq<char>>) -> Seq<Seq<char>>
    decreases bodies.len(),
{
    if bodies.len() == 0 {
        Seq::empty()
    } else {
        all_entries(bodies.drop_last()) + entries(bodies.last())
    }
}

/// The entries of several history files in the order given, cut off at
/// [`ALL_PROJECTS_CAP`].
pub fn merge_histories(bodies: &Vec<String>) -> (out: Vec<String>)
    ensures
        texts(out@) == (if all_entries(texts(bodies@)).len() <= ALL_PROJECTS_CAP {
            all_entries(texts(bodies@))
        } else {
            all_entries(texts(bodies@)).take(ALL_PROJECTS_CAP as int)
        }),
{
    let ghost all = all_entries(texts(bodies@));
    let mut out: Vec<String> = Vec::new();
    let mut i: usize = 0;
    assert(texts(out@) =~= Seq::<Seq<char>>::empty());
    while i < bodies.len() && out.len() < ALL_PROJECTS_CAP
        invariant
            i <= bodies@.len(),
            texts(out@) == all_entries(texts(bodies@).take(i as int)),
        decreases bodies@.len() - i,
    {
        let more = history_entries(bodies[i].as_str());
        let ghost so_far = texts(out@);
        let mut j: usize = 0;
        assert(so_far + texts(more@).take(0) =~= so_far);
        while j < more.len()
            invariant
                j <= more@.len(),
                texts(out@) == so_far + texts(more@).take(j as int),
            decreases more@.len() - j,
        {
            push_text(&mut out, more[j].clone());
            j = j + 1;
            assert(so_far + texts(more@).take(j as int) =~= (so_far + texts(more@).take(
                j - 1,
            )).push(more@[j - 1]@));
        }
        assert(texts(more@).take(more@.len() as int) =~= texts(more@));
        i = i + 1;
        assert(texts(bodies@).take(i as int).drop_last() =~= texts(bodies@).take(i - 1));
        assert(texts(bodies@).take(i as int).last() == bodies@[i - 1]@);
    }
    proof {
        lemma_all_entries_prefix(texts(bodies@), i as int);
        assert(texts(out@).len() == out@.len());
    }
    let n: usize = out.len();
    if n > ALL_PROJECTS_CAP {
        out.truncate(ALL_PROJECTS_CAP);
    }
    assert(texts(out@) =~= (if all.len() <= ALL_PROJECTS_CAP {
        all
    } else {
        all.take(ALL_PROJECTS_CAP as int)
    })) by {
        assert(texts(bodies@).take(bodies@.len() as int) =~= texts(bodies@));
    }
    out
}

proof fn lemma_all_entries_prefix(bodies: Seq<Seq<char>>, i: int)
    requires
        0 <= i <= bodies.len(),
    ensures
        all_entries(bodies.take(i)).len() <= all_entries(bodies).len(),
        all_entries(bodies).take(all_entries(bodies.take(i)).len() as int) == all_entries(
            bodies.take(i),
        ),
    decreases bodies.len() - i,
{
    if i == bodies.len() {
        assert(bodies.take(i) =~= bodies);
        assert(all_entries(bodies).take(all_entries(bodies).len() as int) =~= all_entries(bodies));
    } else {
        lemma_all_entries_prefix(bodies, i + 1);
        let a = all_entries(bodies.take(i));
        let b = all_entries(bodies.take(i + 1));
        assert(bodies.take(i + 1).drop_last() =~= bodies.take(i));
        assert(b.take(a.len() as int) =~= a);
        assert(all_entries(bodies).take(b.len() as int).take(a.len() as int)
            =~= all_entries(bodies).take(a.len() as int));
    }
}

// ---------------------------------------------------------------------------
// Laws
// ---------------------------------------------------------------------------

/// Three steps through the scopes come back to the first.
pub proof fn law_scopes_come_round(s: HistoryScope)
    ensures
        s.next().next().next() == s,
        s.next() != s,
{
}

/// The highlight never leaves the hits, whatever is typed or pressed.
pub proof fn law_highlight_stays_on_the_hits(v: ReverseHistoryView, c: char)
    requires
        v.cursor_valid(),
    ensures
        v.typed(c).cursor_valid(),
        v.erased().cursor_valid(),
        v.widened().cursor_valid(),
        v.up().cursor_valid(),
        v.down().cursor_valid(),
{
    assert(v.up().hits() == v.hits());
    assert(v.down().hits() == v.hits());
}

/// Letter case does not matter: queries with one lower-case form have the
/// same hits.
pub proof fn law_case_does_not_matter(history: Seq<Seq<char>>, a: Seq<char>, b: Seq<char>)
    requires
        lowercase(a) == lowercase(b),
    ensures
        matching(history, a) == matching(history, b),
{
    assert((|e: Seq<char>| hit(e, a)) =~= (|e: Seq<char>| hit(e, b)));
}

/// Every hit is an entry of the history and answers the query.
pub proof fn law_hits_come_from_the_history(history: Seq<Seq<char>>, query: Seq<char>, i: int)
    requires
        0 <= i < matching(history, query).len(),
    ensures
        history.contains(matching(history, query)[i]),
        hit(matching(history, query)[i], query),
{
    let pred = |e: Seq<char>| hit(e, query);
    let f = history.reverse().filter(pred);
    lemma_dedup_subset(f, i);
    let k = choose|k: int| 0 <= k < f.len() && f[k] == dedup(f)[i];
    lemma_filter_member(history.reverse(), pred, k);
    assert(pred(f[k]));
    let m = choose|m: int| 0 <= m < history.len() && history.reverse()[m] == f[k];
    assert(history[history.len() - 1 - m] == f[k]);
}

proof fn lemma_filter_member(s: Seq<Seq<char>>, pred: spec_fn(Seq<char>) -> bool, k: int)
    requires
        0 <= k < s.filter(pred).len(),
    ensures
        s.contains(s.filter(pred)[k]),
        pred(s.filter(pred)[k]),
    decreases s.len(),
{
    reveal(Seq::filter);
    if s.len() > 0 {
        let f = s.drop_last().filter(pred);
        if k < f.len() {
            lemma_filter_member(s.drop_last(), pred, k);
            let m = choose|m: int| 0 <= m < s.drop_last().len() && s.drop_last()[m] == f[k];
            assert(s[m] == f[k]);
        } else {
            assert(s[s.len() - 1] == s.filter(pred)[k]);
        }
    }
}

proof fn lemma_dedup_subset(s: Seq<Seq<char>>, i: int)
    requires
        0 <= i < dedup(s).len(),
    ensures
        exists|k: int| 0 <= k < s.len() && s[k] == dedup(s)[i],
    decreases s.len(),
{
    if s.len() <= 1 {
        assert(s[i] == dedup(s)[i]);
    } else if i < dedup(s.drop_last()).len() {
        lemma_dedup_subset(s.drop_last(), i);
        let k = choose|k: int|
            0 <= k < s.drop_last().len() && s.drop_last()[k] == dedup(s.drop_last())[i];
        assert(s[k] == dedup(s)[i]);
    } else {
        assert(s[s.len() - 1] == dedup(s)[i]);
    }
}

/// No two neighbouring hits are equal.
pub proof fn law_neighbouring_hits_differ(history: Seq<Seq<char>>, query: Seq<char>, i: int)
    requires
        0 <= i,
        i + 1 < matching(history, query).len(),
    ensures
        matching(history, query)[i] != matching(history, query)[i + 1],
{
    lemma_dedup_neighbours(history.reverse().filter(|e: Seq<char>| hit(e, query)), i);
}

proof fn lemma_dedup_neighbours(s: Seq<Seq<char>>, i: int)
    requires
        0 <= i,
        i + 1 < dedup(s).len(),
    ensures
        dedup(s)[i] != dedup(s)[i + 1],
    decreases s.len(),
{
    if s.len() > 1 {
        let d = dedup(s.drop_last());
        lemma_dedup_last(s.drop_last());
        if i + 1 < d.len() {
            lemma_dedup_neighbours(s.drop_last(), i);
        }
    }
}

/// A directory name for a working directory has only letters, digits, dots,
/// underscores and dashes, and no dash at either end.
pub proof fn law_sanitized_names_are_portable(path: Seq<char>)
    ensures
        forall|i: int|
            0 <= i < sanitized(path).len() ==> (is_ascii_alnum(#[trigger] sanitized(path)[i])
                || sanitized(path)[i] == '.' || sanitized(path)[i] == '_' || sanitized(path)[i]
                == '-'),
        sanitized(path).len() > 0 ==> sanitized(path)[0] != '-' && sanitized(path).last() != '-',
{
    let raw = path.map_values(|c: char| portable(c));
    let a = strip_start(raw, '-');
    lemma_strip_start(raw, '-');
    lemma_strip_end(a, '-');
    let out = strip_end(a, '-');
    assert forall|i: int| 0 <= i < out.len() implies (is_ascii_alnum(#[trigger] out[i]) || out[i]
        == '.' || out[i] == '_' || out[i] == '-') by {
        assert(out[i] == a[i]);
        assert(a[i] == raw[raw.len() - a.len() + i]);
    }
    if out.len() > 0 {
        assert(out[0] == a[0]);
    }
}

proof fn lemma_find_concat(a: Seq<char>, b: Seq<char>, c: char)
    ensures
        find_char(a, c) < a.len() ==> find_char(a + b, c) == find_char(a, c),
        find_char(a, c) >= a.len() ==> find_char(a + b, c) == a.len() + find_char(b, c),
    decreases a.len(),
{
    if a.len() == 0 {
        assert(a + b =~= b);
    } else {
        assert((a + b).drop_first() =~= a.drop_first() + b);
        lemma_find_concat(a.drop_first(), b, c);
        lemma_find_char(a, c);
    }
}

/// The lines of whole lines with one more line behind them.
proof fn lemma_lines_append(body: Seq<char>, entry: Seq<char>)
    requires
        body.len() == 0 || body.last() == '\n',
        entry.len() > 0,
        entry.last() != '\r',
        forall|i: int| 0 <= i < entry.len() ==> #[trigger] entry[i] != '\n',
    ensures
        lines(body + entry.push('\n')) == lines(body).push(entry),
    decreases body.len(),
{
    let whole = body + entry.push('\n');
    lemma_find_char(entry, '\n');
    lemma_find_char(body, '\n');
    if body.len() == 0 {
        assert(whole =~= entry + seq!['\n']);
        assert(find_char(entry, '\n') == entry.len());
        lemma_find_concat(entry, seq!['\n'], '\n');
        assert(find_char(seq!['\n'], '\n') == 0);
        assert(whole.take(entry.len() as int) =~= entry);
        assert(whole.skip(entry.len() as int + 1) =~= Seq::<char>::empty());
        assert(lines(Seq::<char>::empty()) =~= Seq::<Seq<char>>::empty());
        assert(lines(body) =~= Seq::<Seq<char>>::empty());
        assert(lines(whole) =~= seq![entry]);
        assert(lines(body).push(entry) =~= seq![entry]);
    } else {
        let n = find_char(body, '\n') as int;
        if n >= body.len() {
            assert(body[body.len() - 1] == '\n');
            assert(false);
        }
        lemma_find_concat(body, entry.push('\n'), '\n');
        let rest = body.skip(n + 1);
        assert(whole.take(n) =~= body.take(n));
        assert(whole.skip(n + 1) =~= rest + entry.push('\n'));
        if rest.len() > 0 {
            assert(rest.last() == body.last());
        }
        lemma_lines_append(rest, entry);
        assert(lines(whole) == seq![strip_cr(body.take(n))] + lines(rest + entry.push('\n')));
        assert(lines(body).push(entry) =~= seq![strip_cr(body.take(n))] + lines(rest).push(entry));
    }
}

/// What is appended to a history file is what is read back from it, last: on
/// every file made of whole lines, for every line that is not empty, holds no
/// line feed and does not end in a carriage return.
pub proof fn law_appended_entry_is_read_back(body: Seq<char>, entry: Seq<char>)
    requires
        body.len() == 0 || body.last() == '\n',
        entry.len() > 0,
        entry.last() != '\r',
        forall|i: int| 0 <= i < entry.len() ==> #[trigger] entry[i] != '\n',
    ensures
        entries(body + record(entry)) == entries(body).push(entry),
{
    let pred = |l: Seq<char>| l.len() > 0;
    lemma_lines_append(body, entry);
    reveal(Seq::filter);
    assert(lines(body).push(entry).drop_last() =~= lines(body));
}

proof fn lemma_dedup_front(e: Seq<char>, s: Seq<Seq<char>>)
    ensures
        dedup(Seq::<Seq<char>>::empty()).len() == 0,
        s.len() > 0 ==> dedup(s).len() > 0 && dedup(s)[0] == s[0],
        s.len() == 0 || s[0] != e ==> dedup(seq![e] + s) == seq![e] + dedup(s),
        s.len() > 0 && s[0] == e ==> dedup(seq![e] + s) == dedup(s),
    decreases s.len(),
{
    let all = seq![e] + s;
    if s.len() == 0 {
        assert(all =~= seq![e]);
        assert(seq![e] + dedup(s) =~= seq![e]);
    } else {
        assert(all.drop_last() =~= seq![e] + s.drop_last());
        assert(all.last() == s.last());
        lemma_dedup_front(e, s.drop_last());
        if s.len() == 1 {
            assert(all[all.len() - 2] == e);
            assert(s.drop_last() =~= Seq::empty());
            assert(all.drop_last() =~= seq![e]);
            assert(dedup(all.drop_last()) == seq![e]);
            if s[0] != e {
                assert(dedup(all) =~= seq![e] + s);
            } else {
                assert(dedup(all) =~= s);
            }
        } else {
            assert(all[all.len() - 2] == s[s.len() - 2]);
            assert(s.drop_last()[0] == s[0]);
            if s[0] != e {
                assert(dedup(all) =~= seq![e] + dedup(s));
            }
        }
    }
}

/// A newer entry that answers the query becomes the first hit, but for one
/// that repeats the first hit; the other hits follow as they were. One that
/// does not answer it changes nothing.
pub proof fn law_newer_entries_come_first(
    history: Seq<Seq<char>>,
    e: Seq<char>,
    query: Seq<char>,
)
    ensures
        matching(Seq::empty(), query).len() == 0,
        !hit(e, query) ==> matching(history.push(e), query) == matching(history, query),
        hit(e, query) ==> matching(history.push(e), query) == (if matching(history, query).len() > 0
            && matching(history, query)[0] == e {
            matching(history, query)
        } else {
            seq![e] + matching(history, query)
        }),
{
    let pred = |x: Seq<char>| hit(x, query);
    reveal(Seq::filter);
    let none = Seq::<Seq<char>>::empty();
    assert(none.reverse() =~= none);
    assert(none.filter(pred) =~= none);
    assert(history.push(e).reverse() =~= seq![e] + history.reverse());
    Seq::filter_distributes_over_add(seq![e], history.reverse(), pred);
    let rest = history.reverse().filter(pred);
    assert(seq![e].drop_last() =~= none);
    assert(seq![e].last() == e);
    lemma_dedup_front(e, rest);
    if hit(e, query) {
        assert(seq![e].filter(pred) =~= seq![e]);
    } else {
        assert(seq![e].filter(pred) =~= none);
        assert(none + rest =~= rest);
    }
}

/// An entry answers a query that occurs in it, letter case aside.
pub proof fn law_hits_contain_the_query(entry: Seq<char>, query: Seq<char>)
    ensures
        hit(entry, query) <==> exists|i: int|
            {
                &&& 0 <= i
                &&& i + lowercase(query).len() <= lowercase(entry).len()
                &&& #[trigger] lowercase(entry).subrange(i, i + lowercase(query).len()) == lowercase(
                    query,
                )
            },
{
    let s = lowercase(entry);
    let n = lowercase(query);
    if hit(entry, query) {
        let i = choose|i: int| occurs_at(s, n, i);
        assert(s.subrange(i, i + n.len()) == n);
    }
    if exists|i: int| 0 <= i && i + n.len() <= s.len() && #[trigger] s.subrange(i, i + n.len()) == n {
        let i = choose|i: int|
            0 <= i && i + n.len() <= s.len() && #[trigger] s.subrange(i, i + n.len()) == n;
        assert(occurs_at(s, n, i));
    }
}

/// The scopes follow each other and have their names.
pub proof fn law_scopes_have_their_names()
    ensures
        HistoryScope::Session.next() == HistoryScope::Project,
        HistoryScope::Project.next() == HistoryScope::AllProjects,
        HistoryScope::AllProjects.next() == HistoryScope::Session,
        HistoryScope::Session.name() == "session"@,
        HistoryScope::Project.name() == "project"@,
        HistoryScope::AllProjects.name() == "all-projects"@,
{
}

/// A search starts in the session with nothing typed and nothing read.
pub proof fn law_searches_start_in_the_session(
    session: Seq<Seq<char>>,
    project_path: Option<Seq<char>>,
    all_root: Option<Seq<char>>,
)
    ensures
        ({
            let v = ReverseHistoryView::fresh(session, project_path, all_root);
            &&& v.query.len() == 0
            &&& v.scope == HistoryScope::Session
            &&& v.cursor == 0
            &&& v.session == session
            &&& v.project_path == project_path
            &&& v.all_root == all_root
            &&& v.project is None
            &&& v.all is None
            &&& v.active() == session
        }),
{
}

/// Each scope searches its own history; the hits are those of what is
/// searched, and the chosen one is under the highlight.
pub proof fn law_scopes_search_their_history(v: ReverseHistoryView)
    ensures
        v.scope == HistoryScope::Session ==> v.active() == v.session,
        v.scope == HistoryScope::Project && v.project is Some ==> v.active() == v.project->0,
        v.scope == HistoryScope::AllProjects && v.all is Some ==> v.active() == v.all->0,
        v.scope == HistoryScope::Project && v.project is None ==> v.active().len() == 0,
        v.scope == HistoryScope::AllProjects && v.all is None ==> v.active().len() == 0,
        v.hits() == matching(v.active(), v.query),
        v.chosen() is Some <==> 0 <= v.cursor < v.hits().len(),
        v.chosen() is Some ==> v.chosen()->0 == v.hits()[v.cursor],
{
}

/// Typing and erasing work at the end of the query and send the highlight to
/// the top; erasing undoes typing.
pub proof fn law_queries_are_typed_at_the_end(v: ReverseHistoryView, c: char)
    ensures
        v.typed(c) == (ReverseHistoryView { query: v.query.push(c), cursor: 0, ..v }),
        v.typed(c).erased() == (ReverseHistoryView { cursor: 0, ..v }),
        v.query.len() == 0 ==> v.erased() == (ReverseHistoryView { cursor: 0, ..v }),
        v.query.len() > 0 ==> v.erased().query == v.query.drop_last(),
        v.erased() == (ReverseHistoryView { query: v.erased().query, cursor: 0, ..v }),
{
    assert(v.query.push(c).drop_last() =~= v.query);
}

/// The highlight moves by one, up to the ends.
pub proof fn law_the_highlight_moves_by_one(v: ReverseHistoryView)
    ensures
        v.cursor > 0 ==> v.up() == (ReverseHistoryView { cursor: v.cursor - 1, ..v }),
        v.cursor <= 0 ==> v.up() == v,
        v.cursor + 1 < v.hits().len() ==> v.down() == (ReverseHistoryView {
            cursor: v.cursor + 1,
            ..v
        }),
        v.cursor + 1 >= v.hits().len() ==> v.down() == v,
{
}

/// The next scope starts at the top; a history that has no file counts as
/// empty, one that has a file and was not read is wanted, and nothing else
/// changes.
pub proof fn law_scopes_want_what_was_not_read(v: ReverseHistoryView)
    ensures
        ({
            let w = v.widened();
            &&& w == (ReverseHistoryView {
                scope: v.scope.next(),
                cursor: 0,
                project: w.project,
                all: w.all,
                ..v
            })
            &&& w.project == (if v.scope == HistoryScope::Session && v.project is None
                && v.project_path is None {
                Some(Seq::empty())
            } else {
                v.project
            })
            &&& w.all == (if v.scope == HistoryScope::Project && v.all is None && v.all_root is None {
                Some(Seq::empty())
            } else {
                v.all
            })
            &&& v.scope == HistoryScope::Session && v.project is None && v.project_path is Some
                ==> w.wanted() == Some(HistorySource::ProjectFile(v.project_path->0))
            &&& v.scope == HistoryScope::Project && v.all is None && v.all_root is Some
                ==> w.wanted() == Some(HistorySource::ProjectsRoot(v.all_root->0))
            &&& v.scope == HistoryScope::Session && (v.project is Some || v.project_path is None)
                ==> w.wanted() is None
            &&& v.scope == HistoryScope::Project && (v.all is Some || v.all_root is None)
                ==> w.wanted() is None
            &&& v.scope == HistoryScope::AllProjects ==> w.wanted() is None
        }),
{
}

/// Letters, digits, dots and underscores stay in a directory name, and every
/// other character becomes a dash; dashes come off both ends.
pub proof fn law_directory_names_keep_their_length(
    lead: nat,
    path: Seq<char>,
    tail: nat,
    i: int,
)
    requires
        0 <= i < path.len(),
        'a' <= path[0] <= 'z' || 'A' <= path[0] <= 'Z' || '0' <= path[0] <= '9' || path[0] == '.'
            || path[0] == '_',
        'a' <= path.last() <= 'z' || 'A' <= path.last() <= 'Z' || '0' <= path.last() <= '9'
            || path.last() == '.' || path.last() == '_',
    ensures
        sanitized(path).len() == path.len(),
        'a' <= path[i] <= 'z' || 'A' <= path[i] <= 'Z' || '0' <= path[i] <= '9' || path[i] == '.'
            || path[i] == '_' ==> sanitized(path)[i] == path[i],
        !('a' <= path[i] <= 'z' || 'A' <= path[i] <= 'Z' || '0' <= path[i] <= '9' || path[i] == '.'
            || path[i] == '_') ==> sanitized(path)[i] == '-',
        sanitized(Seq::new(lead, |k: int| '/') + path + Seq::new(tail, |k: int| '/')) == sanitized(
            path,
        ),
{
    let f = |c: char| portable(c);
    let m = path.map_values(f);
    let none = Seq::new(0, |k: int| '-');
    assert(m.last() == portable(path.last()));
    law_stripping_takes_the_runs_off(0, m, 0, '-');
    assert(none + m + none =~= m);
    let a = Seq::new(lead, |k: int| '/');
    let b = Seq::new(tail, |k: int| '/');
    let x = Seq::new(lead, |k: int| '-');
    let y = Seq::new(tail, |k: int| '-');
    assert((a + path + b).map_values(f) =~= x + m + y);
    law_stripping_takes_the_runs_off(lead, m, tail, '-');
}

/// The history of a project lies in its directory below the home directory.
pub proof fn law_histories_lie_below_home(home: Seq<char>, cwd: Seq<char>)
    ensures
        history_path(home, cwd) == home + "/.caliban/projects/"@ + sanitized(cwd)
            + "/input-history.txt"@,
{
}

/// A file's entries are its lines in their order, but for the empty ones.
pub proof fn law_empty_lines_are_no_entries(l: Seq<char>, rest: Seq<char>)
    requires
        !l.contains('\n'),
        l.len() > 0 ==> l.last() != '\r',
    ensures
        entries(Seq::empty()).len() == 0,
        entries(seq!['\n'] + rest) == entries(rest),
        l.len() > 0 ==> entries(l + seq!['\n'] + rest) == seq![l] + entries(rest),
{
    let pred = |x: Seq<char>| x.len() > 0;
    let none = Seq::<Seq<char>>::empty();
    let blank = Seq::<char>::empty();
    reveal(Seq::filter);
    law_line_feeds_end_lines(l, rest);
    law_line_feeds_end_lines(blank, rest);
    assert(lines(Seq::<char>::empty()) =~= none);
    assert(none.filter(pred) =~= none);
    assert(blank + seq!['\n'] + rest =~= seq!['\n'] + rest);
    Seq::filter_distributes_over_add(seq![blank], lines(rest), pred);
    assert(seq![blank].drop_last() =~= none);
    assert(seq![blank].last() == blank);
    assert(seq![blank].filter(pred) =~= none);
    assert(none + entries(rest) =~= entries(rest));
    if l.len() > 0 {
        Seq::filter_distributes_over_add(seq![l], lines(rest), pred);
        assert(seq![l].drop_last() =~= none);
        assert(seq![l].last() == l);
        assert(seq![l].filter(pred) =~= seq![l]);
    }
}

/// A line is kept with a line feed behind it, an empty one not at all.
pub proof fn law_records_are_whole_lines(entry: Seq<char>)
    ensures
        entry.len() > 0 ==> record(entry) == entry + seq!['\n'],
        entry.len() == 0 ==> record(entry).len() == 0,
{
    assert(entry.push('\n') =~= entry + seq!['\n']);
}

/// The entries of several files come file after file, at most five thousand
/// of them.
pub proof fn law_files_are_read_one_after_the_other(bodies: Seq<Seq<char>>, last: Seq<char>)
    ensures
        all_entries(Seq::empty()).len() == 0,
        all_entries(bodies.push(last)) == all_entries(bodies) + entries(last),
        ALL_PROJECTS_CAP == 5000,
{
    assert(bodies.push(last).drop_last() =~= bodies);
}

} // verus!
