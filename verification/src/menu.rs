//! The completion menu above the prompt: its entries, its keys and its
//! place.

use vstd::prelude::*;

use crate::app::{App, AppView};
use crate::attach::{dir_len, lemma_dir_len};
use crate::completer::{
    candidates_view, items_view, limited, rank, ranked, scorable, scored, scores_for, summable,
    Candidate, MAX_QUERY_CHARS, MAX_SCORED_CHARS,
};
use crate::effect::{effects_view, just, nothing, Effect, EffectView};
use crate::input::{Input, InputView};
use crate::slash::{
    ranks_before, suggestion_score, SlashCommand, SlashCommandMeta, SlashCommandRegistry,
};
use crate::style::{
    lines_view, no_lines, plain, push_line, row, span, styled, Color, Line, LineView, Style,
};
use crate::text::{
    cat3, chars_of, count_chars, is_white, is_white_char, lemma_text_order, lemma_word_len,
    starts_with_char, text_before,
    starts_with_character, string_of, word_len,
};
use crate::types::{KeyCode, KeyEvent, Rect};

verus! {

// ---------------------------------------------------------------------------
// Keys
// ---------------------------------------------------------------------------

/// What a key does to an open menu.
#[derive(Debug, Clone, Copy, PartialEq, Eq, Structural)]
pub enum MenuAction {
    Close,
    Next,
    Previous,
    /// Put the marked entry into the prompt.
    Accept,
}

/// What a key does to an open menu; every other key goes on to the prompt.
pub open spec fn menu_action(key: KeyEvent) -> Option<MenuAction> {
    match key.code {
        KeyCode::Esc => Some(MenuAction::Close),
        KeyCode::Tab => Some(MenuAction::Next),
        KeyCode::Down => Some(MenuAction::Next),
        KeyCode::BackTab => Some(MenuAction::Previous),
        KeyCode::Up => Some(MenuAction::Previous),
        KeyCode::Enter => if key.modifiers.shift || key.modifiers.alt {
            None
        } else {
            Some(MenuAction::Accept)
        },
        _ => None,
    }
}

/// What a key does to an open menu; every other key goes on to the prompt.
pub fn menu_key(key: KeyEvent) -> (r: Option<MenuAction>)
    ensures
        r == menu_action(key),
{
    match key.code {
        KeyCode::Esc => Some(MenuAction::Close),
        KeyCode::Tab => Some(MenuAction::Next),
        KeyCode::Down => Some(MenuAction::Next),
        KeyCode::BackTab => Some(MenuAction::Previous),
        KeyCode::Up => Some(MenuAction::Previous),
        KeyCode::Enter => {
            if key.modifiers.shift || key.modifiers.alt {
                None
            } else {
                Some(MenuAction::Accept)
            }
        },
        _ => None,
    }
}

// ---------------------------------------------------------------------------
// An open menu
// ---------------------------------------------------------------------------

/// What a menu completes.
#[derive(Debug, Clone, Copy, PartialEq, Eq, Structural)]
pub enum MenuKind {
    Command,
    Path,
}

/// An open menu.
#[derive(Debug)]
pub struct Menu {
    pub kind: MenuKind,
    /// Where the word starts that an entry takes the place of, in
    /// characters.
    pub start: usize,
    pub candidates: Vec<Candidate>,
    /// The marked entry.
    pub selected: usize,
}

#[verifier::ext_equal]
pub struct MenuView {
    pub kind: MenuKind,
    pub start: int,
    pub candidates: Seq<Candidate<Seq<char>>>,
    pub selected: int,
}

impl View for Menu {
    type V = MenuView;

    open spec fn view(&self) -> MenuView {
        MenuView {
            kind: self.kind,
            start: self.start as int,
            candidates: candidates_view(self.candidates@),
            selected: self.selected as int,
        }
    }
}

pub open spec fn opt_menu(o: Option<Menu>) -> Option<MenuView> {
    match o {
        Some(m) => Some(m@),
        None => None,
    }
}

impl MenuView {
    /// The next entry marked, the first again after the last.
    pub open spec fn next(self) -> MenuView {
        MenuView {
            selected: if self.selected + 1 < self.candidates.len() {
                self.selected + 1
            } else {
                0
            },
            ..self
        }
    }

    /// The entry before marked, the last again before the first.
    pub open spec fn previous(self) -> MenuView {
        MenuView {
            selected: if 0 < self.selected {
                self.selected - 1
            } else if self.candidates.len() > 0 {
                self.candidates.len() - 1
            } else {
                0
            },
            ..self
        }
    }

    /// What the marked entry puts into the prompt.
    pub open spec fn choice(self) -> Option<Seq<char>> {
        if self.selected < self.candidates.len() {
            Some(self.candidates[self.selected].insert)
        } else {
            None
        }
    }
}

impl Menu {
    /// Marks the next entry, the first again after the last.
    pub fn cycle_next(&mut self)
        ensures
            final(self)@ == old(self)@.next(),
    {
        let n: usize = self.candidates.len();
        self.selected = if self.selected < n && self.selected + 1 < n {
            self.selected + 1
        } else {
            0
        };
    }

    /// Marks the entry before, the last again before the first.
    pub fn cycle_prev(&mut self)
        ensures
            final(self)@ == old(self)@.previous(),
    {
        let n: usize = self.candidates.len();
        self.selected = if 0 < self.selected {
            self.selected - 1
        } else if n > 0 {
            n - 1
        } else {
            0
        };
    }
}

/// The prompt with a text in place of the word that starts at `start`; as it
/// is where it ends before.
pub open spec fn completed(input: InputView, start: int, text: Seq<char>) -> InputView {
    if start <= input.text.len() {
        input.replaced(start, start + word_len(input.text.skip(start)), text)
    } else {
        input
    }
}

fn complete(input: &mut Input, start: usize, text: &str)
    requires
        old(input).wf(),
    ensures
        final(input).wf(),
        final(input)@ == completed(old(input)@, start as int, text@),
{
    let cs = chars_of(input.buffer.as_str());
    if start > cs.len() {
        return;
    }
    let mut end: usize = start;
    while end < cs.len() && !is_white_char(cs[end])
        invariant
            start <= end <= cs@.len(),
            start + word_len(cs@.skip(start as int)) == end + word_len(cs@.skip(end as int)),
        decreases cs@.len() - end,
    {
        assert(cs@.skip(end as int).drop_first() =~= cs@.skip(end + 1));
        end = end + 1;
    }
    assert(word_len(cs@.skip(end as int)) == 0);
    input.replace(start, end, text);
}

/// The state after a key that an open menu takes: it is closed, another
/// entry is marked, or the marked one goes into the prompt. A directory
/// leaves the cursor behind its slash, and what it holds is listed next.
pub open spec fn menu_pressed(app: AppView, m: MenuView, action: MenuAction) -> (
    AppView,
    Seq<EffectView>,
) {
    match action {
        MenuAction::Close => (AppView { menu: None, ..app }, Seq::empty()),
        MenuAction::Next => (AppView { menu: Some(m.next()), ..app }, Seq::empty()),
        MenuAction::Previous => (AppView { menu: Some(m.previous()), ..app }, Seq::empty()),
        MenuAction::Accept => match m.choice() {
            None => (AppView { menu: None, ..app }, Seq::empty()),
            Some(text) => (
                AppView { menu: None, input: completed(app.input, m.start, text), ..app },
                if m.kind == MenuKind::Path && text.len() > 0 && text.last() == '/' {
                    seq![Effect::RefreshMenu]
                } else {
                    Seq::empty()
                },
            ),
        },
    }
}

/// Takes a key that an open menu has a use for; says whether it did.
pub fn handle_menu_key(key: KeyEvent, app: &mut App) -> (r: Option<Vec<Effect>>)
    requires
        old(app).wf(),
    ensures
        final(app).wf(),
        match r {
            Some(effects) => old(app)@.menu is Some && menu_action(key) is Some && (
                final(app)@,
                effects_view(effects@),
            ) == menu_pressed(old(app)@, old(app)@.menu->0, menu_action(key)->0),
            None => final(app)@ == old(app)@ && (old(app)@.menu is None || menu_action(key) is None),
        },
{
    let action = match menu_key(key) {
        Some(a) => a,
        None => return None,
    };
    match action {
        MenuAction::Close => {
            if app.menu.is_none() {
                return None;
            }
            app.menu = None;
            Some(nothing())
        },
        MenuAction::Next => match &mut app.menu {
            Some(m) => {
                m.cycle_next();
                Some(nothing())
            },
            None => None,
        },
        MenuAction::Previous => match &mut app.menu {
            Some(m) => {
                m.cycle_prev();
                Some(nothing())
            },
            None => None,
        },
        MenuAction::Accept => {
            let chosen = match &app.menu {
                Some(m) => if m.selected < m.candidates.len() {
                    assert(candidates_view(m.candidates@)[m.selected as int]
                        == m.candidates@[m.selected as int]@);
                    Some((m.kind, m.start, m.candidates[m.selected].insert.clone()))
                } else {
                    None
                },
                None => return None,
            };
            app.menu = None;
            match chosen {
                None => Some(nothing()),
                Some((kind, start, text)) => {
                    complete(&mut app.input, start, text.as_str());
                    if kind == MenuKind::Path && ends_in_slash(text.as_str()) {
                        Some(just(Effect::RefreshMenu))
                    } else {
                        Some(nothing())
                    }
                },
            }
        },
    }
}

fn ends_in_slash(text: &str) -> (r: bool)
    ensures
        r == (text@.len() > 0 && text@.last() == '/'),
{
    let cs = chars_of(text);
    cs.len() > 0 && cs[cs.len() - 1] == '/'
}

// ---------------------------------------------------------------------------
// Opening and filtering
// ---------------------------------------------------------------------------

/// Where the word starts that a text ends in.
pub open spec fn last_word_start(s: Seq<char>) -> int
    decreases s.len(),
{
    if s.len() == 0 || is_white(s.last()) {
        s.len() as int
    } else {
        last_word_start(s.drop_last())
    }
}

/// The file name at the cursor: where its mark stands, and what is typed of
/// it up to the cursor.
pub open spec fn path_at(input: InputView) -> Option<(int, Seq<char>)> {
    let before = input.text.take(input.at);
    let start = last_word_start(before);
    if start < before.len() && before[start] == '@' {
        Some((start, before.skip(start + 1)))
    } else {
        None
    }
}

/// The file name at the cursor: where its mark stands, and what is typed of
/// it up to the cursor.
pub fn active_at_token(input: &Input) -> (r: Option<(usize, String)>)
    requires
        input.wf(),
    ensures
        match r {
            Some((start, token)) => path_at(input@) == Some((start as int, token@)),
            None => path_at(input@) is None,
        },
{
    let before = input.before_cursor();
    let cs = chars_of(before.as_str());
    let mut n: usize = cs.len();
    assert(cs@.take(n as int) =~= cs@);
    while n > 0 && !is_white_char(cs[n - 1])
        invariant
            n <= cs@.len(),
            last_word_start(cs@) == last_word_start(cs@.take(n as int)),
        decreases n,
    {
        assert(cs@.take(n as int).drop_last() =~= cs@.take(n - 1));
        n = n - 1;
    }
    assert(last_word_start(cs@.take(n as int)) == n);
    if n < cs.len() && cs[n] == '@' {
        let token = string_of(&cs, n + 1, cs.len());
        assert(token@ =~= cs@.skip(n + 1));
        Some((n, token))
    } else {
        None
    }
}

/// Whether the name of a command is being typed: a slash alone opens the
/// menu, and it stays as long as the word that follows goes on.
pub open spec fn typing_command(app: AppView) -> bool {
    ||| app.input.text == seq!['/']
    ||| (app.menu is Some && app.menu->0.kind == MenuKind::Command && starts_with_char(
        app.input.text,
        '/',
    ) && word_len(app.input.text) == app.input.text.len())
}

/// The entries for commands: each by its name.
pub open spec fn command_entries(metas: Seq<SlashCommandMeta>) -> Seq<Candidate<Seq<char>>> {
    Seq::new(
        metas.len(),
        |i: int| Candidate { display: metas[i].name@, insert: metas[i].name@, score: 0u32 },
    )
}

/// Whether `menu` lists the commands that fit what was typed, the best fit
/// first.
pub open spec fn lists_commands(app: AppView, metas: Seq<SlashCommandMeta>, menu: Option<MenuView>) -> bool {
    &&& suggests(app.commands, command_prefix(app.input.text), metas)
    &&& menu == Some(
        MenuView {
            kind: MenuKind::Command,
            start: 0,
            candidates: command_entries(metas),
            selected: 0,
        },
    )
}

/// The menu for a file name whose mark stands at `start`, given the names
/// that its directory holds.
pub open spec fn paths_for(
    start: int,
    token: Seq<char>,
    names: Seq<(Seq<char>, Seq<char>)>,
) -> MenuView {
    MenuView {
        kind: MenuKind::Path,
        start,
        candidates: wholes(token, path_matches(token, names)),
        selected: 0,
    }
}

/// Whether `menu` is the menu for the prompt as it stands: the paths for a
/// file name at the cursor, given the names that its directory holds; else
/// the commands while one is being typed; else none.
pub open spec fn menu_for(
    app: AppView,
    names: Seq<(Seq<char>, Seq<char>)>,
    menu: Option<MenuView>,
) -> bool {
    match path_at(app.input) {
        Some((start, token)) => menu == Some(paths_for(start, token, names)),
        None => if typing_command(app) {
            exists|metas: Seq<SlashCommandMeta>| lists_commands(app, metas, menu)
        } else {
            menu is None
        },
    }
}

fn command_candidates(metas: &Vec<SlashCommandMeta>) -> (out: Vec<Candidate>)
    ensures
        candidates_view(out@) == command_entries(metas@),
{
    let ghost all = command_entries(metas@);
    let mut out: Vec<Candidate> = Vec::new();
    let mut i: usize = 0;
    assert(candidates_view(out@) =~= all.take(0));
    while i < metas.len()
        invariant
            i <= metas@.len(),
            all == command_entries(metas@),
            candidates_view(out@) == all.take(i as int),
        decreases metas@.len() - i,
    {
        let ghost before = out@;
        let c = Candidate {
            display: String::from_str(metas[i].name),
            insert: String::from_str(metas[i].name),
            score: 0,
        };
        out.push(c);
        assert(candidates_view(out@) =~= candidates_view(before).push(c@));
        i = i + 1;
        assert(all.take(i as int) =~= all.take(i - 1).push(all[i - 1]));
    }
    assert(all.take(i as int) =~= all);
    out
}

fn is_typing_command(app: &App) -> (r: bool)
    ensures
        r == typing_command(app@),
{
    let cs = chars_of(app.input.buffer.as_str());
    if cs.len() == 0 || cs[0] != '/' {
        assert(seq!['/'][0] == '/');
        return false;
    }
    if cs.len() == 1 {
        assert(cs@ =~= seq!['/']);
        return true;
    }
    let open = match &app.menu {
        Some(m) => m.kind == MenuKind::Command,
        None => false,
    };
    let word = slash_prefix(app.input.buffer.as_str());
    proof {
        lemma_word_len(cs@);
    }
    open && count_chars(word.as_str()) == cs.len() - 1
}

/// Whether the names of a directory can be ranked against the file name at
/// the cursor.
pub open spec fn rankable(input: InputView, names: Seq<(Seq<char>, Seq<char>)>) -> bool {
    match path_at(input) {
        Some((_, token)) => forall|i: int|
            0 <= i < names.len() ==> scorable(token_name(token), (#[trigger] names[i]).0),
        None => true,
    }
}

/// Whether the names of a directory can be ranked against the file name at
/// the cursor.
pub fn can_rank(input: &Input, names: &[(&str, &str)]) -> (r: bool)
    requires
        input.wf(),
    ensures
        r == rankable(input@, items_view(names@)),
{
    let token = match active_at_token(input) {
        Some((_, token)) => token,
        None => return true,
    };
    let cs = chars_of(token.as_str());
    let typed = cs.len() - name_start(&cs);
    proof {
        lemma_dir_len(cs@);
    }
    let ghost name = token_name(token@);
    let ghost items = items_view(names@);
    let mut i: usize = 0;
    while i < names.len()
        invariant
            i <= names@.len(),
            items == items_view(names@),
            typed == name.len(),
            path_at(input@) matches Some((_, t)) && name == token_name(t),
            forall|k: int| 0 <= k < i ==> scorable(name, (#[trigger] items[k]).0),
        decreases names@.len() - i,
    {
        let n = count_chars(names[i].0);
        assert(items[i as int].0.len() == n);
        if n > u32::MAX as usize || (typed > MAX_QUERY_CHARS && n > MAX_SCORED_CHARS) {
            return false;
        }
        i = i + 1;
    }
    true
}

proof fn lemma_last_word(s: Seq<char>)
    ensures
        0 <= last_word_start(s) <= s.len(),
        forall|i: int| last_word_start(s) <= i < s.len() ==> !is_white(#[trigger] s[i]),
    decreases s.len(),
{
    if s.len() > 0 && !is_white(s.last()) {
        lemma_last_word(s.drop_last());
        assert forall|i: int| last_word_start(s) <= i < s.len() implies !is_white(
            #[trigger] s[i],
        ) by {
            if i < s.len() - 1 {
                assert(s.drop_last()[i] == s[i]);
            }
        }
    }
}

proof fn lemma_one_word(input: InputView, start: int, token: Seq<char>)
    requires
        path_at(input) == Some((start, token)),
    ensures
        summable(token_name(token)),
{
    let before = input.text.take(input.at);
    lemma_last_word(before);
    lemma_dir_len(token);
    let name = token_name(token);
    assert forall|i: int| 0 <= i < name.len() implies name[i] != ' ' by {
        let k = start + 1 + dir_len(token) + i;
        assert(name[i] == before[k]);
        assert(!is_white(before[k]));
    }
}

fn path_menu(start: usize, token: &str, names: &[(&str, &str)]) -> (r: Menu)
    requires
        summable(token_name(token@)),
        forall|i: int|
            0 <= i < names@.len() ==> scorable(token_name(token@), (#[trigger] names@[i]).0@),
    ensures
        r@ == paths_for(start as int, token@, items_view(names@)),
{
    Menu {
        kind: MenuKind::Path,
        start,
        candidates: at_menu_entries(token, names),
        selected: 0,
    }
}

fn command_menu(app: &App) -> (r: Menu)
    requires
        app.wf(),
    ensures
        exists|metas: Seq<SlashCommandMeta>| lists_commands(app@, metas, Some(r@)),
{
    let metas = slash_menu_entries(app.input.buffer.as_str(), &app.slash_registry);
    let m = Menu {
        kind: MenuKind::Command,
        start: 0,
        candidates: command_candidates(&metas),
        selected: 0,
    };
    assert(lists_commands(app@, metas@, Some(m@)));
    m
}

fn menu_now(app: &App, names: &[(&str, &str)]) -> (r: Option<Menu>)
    requires
        app.wf(),
        rankable(app@.input, items_view(names@)),
    ensures
        menu_for(app@, items_view(names@), opt_menu(r)),
{
    match active_at_token(&app.input) {
        Some((start, token)) => {
            proof {
                lemma_one_word(app@.input, start as int, token@);
                assert forall|i: int| 0 <= i < names@.len() implies scorable(
                    token_name(token@),
                    (#[trigger] names@[i]).0@,
                ) by {
                    assert(items_view(names@)[i].0 == names@[i].0@);
                }
            }
            Some(path_menu(start, token.as_str(), names))
        },
        None => if is_typing_command(app) {
            Some(command_menu(app))
        } else {
            None
        },
    }
}

/// Looks the menu over, given the names that the directory of the file name
/// at the cursor holds, each as it shows and as it is written.
pub fn refresh_menu(app: &mut App, names: &[(&str, &str)])
    requires
        old(app).wf(),
        rankable(old(app)@.input, items_view(names@)),
    ensures
        final(app).wf(),
        final(app)@ == (AppView { menu: final(app)@.menu, ..old(app)@ }),
        menu_for(old(app)@, items_view(names@), final(app)@.menu),
{
    let menu = menu_now(app, names);
    app.menu = menu;
}

// ---------------------------------------------------------------------------
// Commands
// ---------------------------------------------------------------------------

/// What was typed of a command, without its slash.
pub open spec fn command_prefix(text: Seq<char>) -> Seq<char> {
    if starts_with_char(text, '/') {
        text.subrange(1, word_len(text) as int)
    } else {
        Seq::empty()
    }
}

/// What was typed of a command, without its slash.
pub fn slash_prefix(text: &str) -> (r: String)
    ensures
        r@ == command_prefix(text@),
{
    if !starts_with_character(text, '/') {
        return String::new();
    }
    let cs = chars_of(text);
    assert(cs@ == text@);
    let mut end: usize = 0;
    assert(cs@.skip(0) =~= cs@);
    while end < cs.len() && !is_white_char(cs[end])
        invariant
            end <= cs@.len(),
            word_len(cs@) == end + word_len(cs@.skip(end as int)),
        decreases cs@.len() - end,
    {
        assert(cs@.skip(end as int).drop_first() =~= cs@.skip(end + 1));
        end = end + 1;
    }
    assert(!is_white('/'));
    string_of(&cs, 1, end)
}

/// Whether `metas` are the commands that fit what was typed, the best fit
/// first.
pub open spec fn suggests(
    commands: Seq<SlashCommand>,
    prefix: Seq<char>,
    metas: Seq<SlashCommandMeta>,
) -> bool {
    &&& forall|i: int|
        #![trigger metas[i]]
        0 <= i < metas.len() ==> suggestion_score(metas[i], prefix) is Some && exists|k: int|
            0 <= k < commands.len() && commands[k].meta == metas[i]
    &&& forall|k: int|
        #![trigger commands[k]]
        0 <= k < commands.len() && suggestion_score(commands[k].meta, prefix) is Some
            ==> metas.contains(commands[k].meta)
    &&& forall|i: int, j: int|
        #![trigger metas[i], metas[j]]
        0 <= i < j < metas.len() ==> ranks_before(
            (suggestion_score(metas[i], prefix)->0, metas[i].name@),
            (suggestion_score(metas[j], prefix)->0, metas[j].name@),
        )
}

/// The commands that fit what was typed.
pub fn slash_menu_entries(text: &str, registry: &SlashCommandRegistry) -> (metas: Vec<
    SlashCommandMeta,
>)
    requires
        registry.wf(),
    ensures
        suggests(registry@, command_prefix(text@), metas@),
{
    registry.suggest(slash_prefix(text).as_str())
}

// ---------------------------------------------------------------------------
// Paths
// ---------------------------------------------------------------------------

/// Entries that a menu of paths holds at most.
pub const MAX_PATHS: usize = 32;

/// The name that a token ends in.
pub open spec fn token_name(token: Seq<char>) -> Seq<char> {
    token.skip(dir_len(token) as int)
}

/// Whether names with a leading dot are listed for a token.
pub open spec fn lists_hidden(token: Seq<char>) -> bool {
    starts_with_char(token_name(token), '.')
}

fn name_start(cs: &Vec<char>) -> (n: usize)
    ensures
        n == dir_len(cs@),
        n <= cs@.len(),
{
    let mut n: usize = cs.len();
    assert(cs@.take(n as int) =~= cs@);
    while n > 0 && cs[n - 1] != '/'
        invariant
            n <= cs@.len(),
            dir_len(cs@.take(n as int)) == dir_len(cs@),
        decreases n,
    {
        assert(cs@.take(n as int).drop_last() =~= cs@.take(n - 1));
        n = n - 1;
    }
    n
}

/// Whether names with a leading dot are listed for a token.
pub fn shows_hidden(token: &str) -> (r: bool)
    ensures
        r == lists_hidden(token@),
{
    let cs = chars_of(token);
    let n = name_start(&cs);
    if n < cs.len() {
        cs[n] == '.'
    } else {
        false
    }
}

/// An entry that puts the whole token into the prompt, its directory
/// included.
pub open spec fn whole(token: Seq<char>, c: Candidate<Seq<char>>) -> Candidate<Seq<char>> {
    Candidate { insert: "@"@ + token.take(dir_len(token) as int) + c.insert, ..c }
}

pub open spec fn wholes(token: Seq<char>, list: Seq<Candidate<Seq<char>>>) -> Seq<
    Candidate<Seq<char>>,
> {
    Seq::new(list.len(), |i: int| whole(token, list[i]))
}

/// The entries for a token, given those for its name.
pub fn with_directory(token: &str, list: &Vec<Candidate>) -> (out: Vec<Candidate>)
    ensures
        candidates_view(out@) == wholes(token@, candidates_view(list@)),
{
    let cs = chars_of(token);
    let dir = string_of(&cs, 0, name_start(&cs));
    assert(dir@ =~= token@.take(dir_len(token@) as int));
    let ghost all = wholes(token@, candidates_view(list@));
    let mut out: Vec<Candidate> = Vec::new();
    let mut i: usize = 0;
    assert(candidates_view(out@) =~= all.take(0));
    while i < list.len()
        invariant
            i <= list@.len(),
            dir@ == token@.take(dir_len(token@) as int),
            all == wholes(token@, candidates_view(list@)),
            candidates_view(out@) == all.take(i as int),
        decreases list@.len() - i,
    {
        let ghost before = out@;
        let c = Candidate {
            display: list[i].display.clone(),
            insert: cat3("@", dir.as_str(), list[i].insert.as_str()),
            score: list[i].score,
        };
        out.push(c);
        assert(candidates_view(list@)[i as int] == list@[i as int]@);
        assert(candidates_view(out@) =~= candidates_view(before).push(c@));
        i = i + 1;
        assert(all.take(i as int) =~= all.take(i - 1).push(all[i - 1]));
    }
    assert(all.take(i as int) =~= all);
    out
}

/// The names that best fit a token, of those that its directory holds.
pub open spec fn path_matches(token: Seq<char>, items: Seq<(Seq<char>, Seq<char>)>) -> Seq<
    Candidate<Seq<char>>,
> {
    let name = token_name(token);
    if name.len() == 0 {
        limited(Seq::new(items.len(), |i: int| scored(items[i], 0)), MAX_PATHS as int)
    } else {
        limited(ranked(items, scores_for(items, name)), MAX_PATHS as int)
    }
}

/// The entries for a token, given the names that its directory holds, each
/// as it shows and as it is written.
pub fn at_menu_entries(token: &str, names: &[(&str, &str)]) -> (out: Vec<Candidate>)
    requires
        summable(token_name(token@)),
        forall|i: int|
            0 <= i < names@.len() ==> scorable(token_name(token@), (#[trigger] names@[i]).0@),
    ensures
        candidates_view(out@) == wholes(token@, path_matches(token@, items_view(names@))),
{
    let cs = chars_of(token);
    let name = string_of(&cs, name_start(&cs), cs.len());
    assert(name@ =~= token_name(token@));
    let list = rank(names, name.as_str(), MAX_PATHS);
    with_directory(token, &list)
}

// ---------------------------------------------------------------------------
// Its place
// ---------------------------------------------------------------------------

/// Entries that are in view at most.
pub const MENU_ROWS: u16 = 8;

/// Where the menu stands: right above the prompt and as wide, with a row
/// for each entry in view and a border.
pub open spec fn place_of(input: Rect, entries: int) -> Rect {
    let rows = if entries < MENU_ROWS {
        entries
    } else {
        MENU_ROWS as int
    };
    let height = rows + 2;
    Rect {
        x: input.x,
        y: (if input.y >= height {
            input.y - height
        } else {
            0
        }) as u16,
        width: input.width,
        height: height as u16,
    }
}

/// Where the menu stands; nowhere while it has no entries.
pub fn menu_area(input: Rect, entries: usize) -> (r: Option<Rect>)
    ensures
        r == (if entries == 0 {
            None
        } else {
            Some(place_of(input, entries as int))
        }),
{
    if entries == 0 {
        return None;
    }
    let rows: u16 = if entries < MENU_ROWS as usize {
        entries as u16
    } else {
        MENU_ROWS
    };
    let height: u16 = rows + 2;
    Some(Rect { x: input.x, y: input.y.saturating_sub(height), width: input.width, height })
}

/// The row of an entry; the marked one stands out.
pub open spec fn entry_row(display: Seq<char>, marked: bool) -> LineView {
    row(
        seq![
            span(
                display,
                if marked {
                    plain().with_fg(Color::Black).with_bg(Color::Cyan)
                } else {
                    plain()
                },
            ),
        ],
    )
}

pub open spec fn entry_rows(list: Seq<Candidate<Seq<char>>>, selected: int) -> Seq<LineView> {
    Seq::new(list.len(), |i: int| entry_row(list[i].display, i == selected))
}

/// The rows of a menu.
pub fn menu_lines(list: &Vec<Candidate>, selected: usize) -> (out: Vec<Line>)
    ensures
        lines_view(out@) == entry_rows(candidates_view(list@), selected as int),
{
    let ghost rows = entry_rows(candidates_view(list@), selected as int);
    let mut out = no_lines();
    let mut i: usize = 0;
    assert(lines_view(out@) =~= rows.take(0));
    while i < list.len()
        invariant
            i <= list@.len(),
            rows == entry_rows(candidates_view(list@), selected as int),
            lines_view(out@) == rows.take(i as int),
        decreases list@.len() - i,
    {
        let mut style = Style::default();
        if i == selected {
            style = style.fg(Color::Black).bg(Color::Cyan);
        }
        push_line(&mut out, Line::of1(styled(list[i].display.as_str(), style)));
        assert(candidates_view(list@)[i as int] == list@[i as int]@);
        i = i + 1;
        assert(rows.take(i as int) =~= rows.take(i - 1).push(rows[i - 1]));
    }
    assert(rows.take(i as int) =~= rows);
    out
}

// ---------------------------------------------------------------------------
// Laws
// ---------------------------------------------------------------------------

/// What is typed goes on to the prompt while a menu is open, and so does
/// what erases.
pub proof fn law_typing_passes_the_menu(key: KeyEvent)
    requires
        key.code is Char || key.code == KeyCode::Backspace,
    ensures
        menu_action(key) is None,
{
}

/// An empty prompt has no menu.
pub proof fn law_an_empty_prompt_has_no_menu(
    app: AppView,
    names: Seq<(Seq<char>, Seq<char>)>,
    menu: Option<MenuView>,
)
    requires
        app.input.text.len() == 0,
        app.input.at == 0,
        menu_for(app, names, menu),
    ensures
        menu is None,
{
    assert(seq!['/'].len() == 1);
}

/// An entry keeps the directory that was typed: what it puts into the
/// prompt begins with it.
pub proof fn law_entries_keep_the_directory(token: Seq<char>, c: Candidate<Seq<char>>)
    ensures
        whole(token, c).insert == "@"@ + token.take(dir_len(token) as int) + c.insert,
        whole(token, c).display == c.display,
        token.take(dir_len(token) as int) + token_name(token) == token,
{
    lemma_dir_len(token);
    assert(token.take(dir_len(token) as int) + token_name(token) =~= token);
}

/// Marking the next entry and then the one before, or the other way round,
/// marks the same entry again, and the mark stays on the entries.
pub proof fn law_marks_come_round(m: MenuView)
    requires
        0 <= m.selected < m.candidates.len(),
    ensures
        m.next().previous() == m,
        m.previous().next() == m,
        0 <= m.next().selected < m.candidates.len(),
        0 <= m.previous().selected < m.candidates.len(),
{
}

/// Taking an entry replaces the word that it completes and leaves what
/// stands around it.
pub proof fn law_entries_replace_their_word(input: InputView, start: int, text: Seq<char>)
    requires
        0 <= start <= input.text.len(),
    ensures
        ({
            let after = completed(input, start, text).text;
            let end = start + word_len(input.text.skip(start));
            &&& after.take(start) == input.text.take(start)
            &&& after.subrange(start, start + text.len()) == text
            &&& after.skip(start + text.len()) == input.text.skip(end)
        }),
{
    lemma_word_len(input.text.skip(start));
    let end = start + word_len(input.text.skip(start));
    let after = completed(input, start, text).text;
    assert(after.take(start) =~= input.text.take(start));
    assert(after.subrange(start, start + text.len()) =~= text);
    assert(after.skip(start + text.len()) =~= input.text.skip(end));
}

/// Each key does its own to an open menu: Esc closes it, Tab and Down mark
/// the next entry, the back tab and Up the one before, and Enter, unless
/// Shift or Alt is held, takes the marked one. No other key is for the menu.
pub proof fn law_menu_keys_do_their_own(key: KeyEvent)
    ensures
        menu_action(key) == Some(MenuAction::Close) <==> key.code == KeyCode::Esc,
        menu_action(key) == Some(MenuAction::Next) <==> key.code == KeyCode::Tab || key.code
            == KeyCode::Down,
        menu_action(key) == Some(MenuAction::Previous) <==> key.code == KeyCode::BackTab || key.code
            == KeyCode::Up,
        menu_action(key) == Some(MenuAction::Accept) <==> key.code == KeyCode::Enter
            && !key.modifiers.shift && !key.modifiers.alt,
{
}

/// Marking moves by one entry, from the last to the first and from the first
/// to the last, and changes nothing else.
pub proof fn law_marks_move_by_one(m: MenuView)
    requires
        0 <= m.selected < m.candidates.len(),
    ensures
        m.next() == (MenuView {
            selected: if m.selected == m.candidates.len() - 1 {
                0
            } else {
                m.selected + 1
            },
            ..m
        }),
        m.previous() == (MenuView {
            selected: if m.selected == 0 {
                m.candidates.len() - 1
            } else {
                m.selected - 1
            },
            ..m
        }),
        m.choice() == Some(m.candidates[m.selected].insert),
{
}

/// Taking an entry closes the menu and puts what the marked entry inserts in
/// place of the word at the menu's start, with the cursor behind it; the
/// menu is asked for again exactly behind a directory.
pub proof fn law_the_marked_entry_is_taken(app: AppView, m: MenuView)
    requires
        0 <= m.selected < m.candidates.len(),
        0 <= m.start <= app.input.text.len(),
    ensures
        ({
            let text = m.candidates[m.selected].insert;
            let (after, effects) = menu_pressed(app, m, MenuAction::Accept);
            let end = m.start + word_len(app.input.text.skip(m.start));
            &&& after == (AppView { menu: None, input: after.input, ..app })
            &&& after.input.text == app.input.text.take(m.start) + text + app.input.text.skip(end)
            &&& after.input.at == m.start + text.len()
            &&& effects == (if m.kind == MenuKind::Path && text.len() > 0 && text.last() == '/' {
                Seq::<EffectView>::empty().push(Effect::RefreshMenu)
            } else {
                Seq::<EffectView>::empty()
            })
        }),
{
}

/// The file name at the cursor is the word before it, where that starts with
/// the mark: what stands between the mark and the cursor. A word without the
/// mark is none.
pub proof fn law_file_names_stand_behind_their_mark(
    before: Seq<char>,
    c: char,
    name: Seq<char>,
    rest: Seq<char>,
    input: InputView,
)
    requires
        before.len() > 0 ==> is_white(before.last()),
        !is_white(c),
        forall|i: int| 0 <= i < name.len() ==> !is_white(#[trigger] name[i]),
        input.text == before + seq![c] + name + rest,
        input.at == before.len() + 1 + name.len(),
    ensures
        c == '@' ==> path_at(input) == Some((before.len() as int, name)),
        c != '@' ==> path_at(input) is None,
{
    let word = seq![c] + name;
    let typed = input.text.take(input.at);
    assert(typed =~= before + word);
    assert forall|i: int| 0 <= i < word.len() implies !is_white(#[trigger] word[i]) by {
        if i > 0 {
            assert(word[i] == name[i - 1]);
        }
    }
    lemma_word_at_end(before, word);
    assert(typed[before.len() as int] == c);
    assert(typed.skip(before.len() as int + 1) =~= name);
}

proof fn lemma_word_at_end(before: Seq<char>, word: Seq<char>)
    requires
        before.len() > 0 ==> is_white(before.last()),
        forall|i: int| 0 <= i < word.len() ==> !is_white(#[trigger] word[i]),
    ensures
        last_word_start(before + word) == before.len(),
    decreases word.len(),
{
    let s = before + word;
    if word.len() > 0 {
        assert(s.last() == word[word.len() - 1]);
        assert(s.drop_last() =~= before + word.drop_last());
        lemma_word_at_end(before, word.drop_last());
    } else {
        assert(s =~= before);
    }
}

/// Behind a file name the menu lists paths from its mark on, with the first
/// marked; without one it lists commands, from the first character on, while
/// a command is typed, and nothing else.
pub proof fn law_menus_fit_the_prompt(
    app: AppView,
    names: Seq<(Seq<char>, Seq<char>)>,
    menu: Option<MenuView>,
)
    requires
        menu_for(app, names, menu),
    ensures
        path_at(app.input) matches Some((start, _)) ==> menu is Some && menu->0.kind
            == MenuKind::Path && menu->0.start == start && menu->0.selected == 0
            && menu->0.candidates.len() <= 32,
        path_at(app.input) is None && app.input.text == seq!['/'] ==> menu is Some && menu->0.kind
            == MenuKind::Command && menu->0.start == 0 && menu->0.selected == 0,
        path_at(app.input) is None && !(app.input.text.len() > 0 && app.input.text[0] == '/')
            ==> menu is None,
        path_at(app.input) is None && app.menu is None && app.input.text != seq!['/'] ==> menu is None,
        path_at(app.input) is None && word_len(app.input.text) != app.input.text.len()
            ==> menu is None,
{
    if path_at(app.input) is None && app.input.text == seq!['/'] {
        assert(typing_command(app));
        let metas = choose|metas: Seq<SlashCommandMeta>| lists_commands(app, metas, menu);
        assert(lists_commands(app, metas, menu));
    }
    if app.input.text == seq!['/'] {
        assert(!is_white('/'));
        assert(app.input.text.drop_first() =~= Seq::<char>::empty());
        assert(word_len(Seq::<char>::empty()) == 0);
        assert(word_len(app.input.text) == 1);
    }
}

/// What was typed of a command is what follows its slash, up to the first
/// white space.
pub proof fn law_commands_are_typed_behind_the_slash(word: Seq<char>, rest: Seq<char>, c: char)
    requires
        forall|i: int| 0 <= i < word.len() ==> !is_white(#[trigger] word[i]),
        is_white(c),
        word.len() > 0 ==> word[0] != '/',
    ensures
        command_prefix(seq!['/'] + word) == word,
        command_prefix(seq!['/'] + word + seq![c] + rest) == word,
        command_prefix(word).len() == 0,
{
    let w = seq!['/'] + word;
    assert forall|i: int| 0 <= i < w.len() implies !is_white(#[trigger] w[i]) by {
        if i > 0 {
            assert(w[i] == word[i - 1]);
        }
    }
    crate::text::law_command_lines_part_at_white_space(w, c, rest);
    let s = w + seq![c] + rest;
    lemma_word_len(w);
    lemma_word_len(s);
    assert(word_len(w) == w.len()) by {
        if word_len(w) < w.len() {
            assert(is_white(w[word_len(w) as int]));
        }
    }
    assert(word_len(s) == w.len()) by {
        if word_len(s) < w.len() {
            assert(s[word_len(s) as int] == w[word_len(s) as int]);
        }
        if word_len(s) > w.len() {
            assert(s[w.len() as int] == c);
            assert(!is_white(s[w.len() as int]));
        }
    }
    assert(w.subrange(1, w.len() as int) =~= word);
    assert(s.subrange(1, w.len() as int) =~= word);
    assert(s[0] == '/');
}

/// Names with a leading dot are listed exactly where the typed name starts
/// with one, and a command's entry shows and inserts its own name.
pub proof fn law_hidden_names_are_asked_for(
    token: Seq<char>,
    metas: Seq<SlashCommandMeta>,
    i: int,
)
    ensures
        lists_hidden(token) <==> token_name(token).len() > 0 && token_name(token)[0] == '.',
        command_entries(metas).len() == metas.len(),
        0 <= i < metas.len() ==> command_entries(metas)[i].display == metas[i].name@
            && command_entries(metas)[i].insert == metas[i].name@,
{
}

/// With nothing typed of a name the first names are listed in their order;
/// else the best matches are, thirty-two at most either way.
pub proof fn law_paths_are_the_best_matches(token: Seq<char>, items: Seq<(Seq<char>, Seq<char>)>)
    ensures
        path_matches(token, items).len() <= 32,
        token_name(token).len() == 0 ==> forall|i: int|
            0 <= i < path_matches(token, items).len() ==> (#[trigger] path_matches(
                token,
                items,
            )[i]).display == items[i].0 && path_matches(token, items)[i].insert == items[i].1,
        token_name(token).len() == 0 && items.len() <= 32 ==> path_matches(token, items).len()
            == items.len(),
        token_name(token).len() > 0 ==> path_matches(token, items) == (if ranked(
            items,
            scores_for(items, token_name(token)),
        ).len() <= 32 {
            ranked(items, scores_for(items, token_name(token)))
        } else {
            ranked(items, scores_for(items, token_name(token))).take(32)
        }),
{
}

/// The menu stands right above the prompt and as wide as it, with a row for
/// each of at most eight entries and two for its border.
pub proof fn law_menus_stand_above_the_prompt(input: Rect, entries: int)
    requires
        0 < entries,
        input.y >= 10,
    ensures
        ({
            let r = place_of(input, entries);
            &&& r.x == input.x
            &&& r.width == input.width
            &&& r.y + r.height == input.y
            &&& r.height == (if entries <= 8 {
                entries + 2
            } else {
                10
            })
        }),
{
}

/// Each entry has a row that shows it; the marked one alone stands out.
pub proof fn law_the_marked_row_stands_out(
    list: Seq<Candidate<Seq<char>>>,
    selected: int,
    i: int,
)
    requires
        0 <= i < list.len(),
    ensures
        ({
            let rows = entry_rows(list, selected);
            &&& rows.len() == list.len()
            &&& rows[i].spans.len() == 1
            &&& rows[i].spans[0].content == list[i].display
            &&& i == selected ==> rows[i].spans[0].style.fg == Some(Color::Black)
                && rows[i].spans[0].style.bg == Some(Color::Cyan)
            &&& i != selected ==> rows[i].spans[0].style.fg is None
                && rows[i].spans[0].style.bg is None
        }),
{
}

/// An empty menu marks its top, whichever way it is stepped from there, and
/// has nothing to choose.
pub proof fn law_an_empty_menu_has_no_choice(m: MenuView)
    requires
        m.candidates.len() == 0,
        m.selected == 0,
    ensures
        m.next().selected == 0,
        m.previous().selected == 0,
        m.choice() is None,
{
}

/// The commands that a menu lists are those that fit what was typed, all of
/// them and no others, the better fit before the worse and names in their
/// order where they fit alike.
pub proof fn law_menus_list_what_fits(
    commands: Seq<SlashCommand>,
    prefix: Seq<char>,
    metas: Seq<SlashCommandMeta>,
    k: int,
    i: int,
    j: int,
)
    requires
        suggests(commands, prefix, metas),
        0 <= k < commands.len(),
        0 <= i < j < metas.len(),
    ensures
        metas.contains(commands[k].meta) <==> suggestion_score(commands[k].meta, prefix) is Some,
        suggestion_score(metas[i], prefix) is Some,
        suggestion_score(metas[i], prefix)->0 >= suggestion_score(metas[j], prefix)->0,
        suggestion_score(metas[i], prefix)->0 == suggestion_score(metas[j], prefix)->0
            ==> text_before(metas[i].name@, metas[j].name@),
        metas[i].name@ != metas[j].name@,
        exists|c: int| 0 <= c < commands.len() && (#[trigger] commands[c]).meta == metas[i],
{
    if metas.contains(commands[k].meta) {
        let n = choose|n: int| 0 <= n < metas.len() && metas[n] == commands[k].meta;
        assert(suggestion_score(metas[n], prefix) is Some);
    }
    lemma_text_order(metas[i].name@, metas[j].name@);
    assert(ranks_before(
        (suggestion_score(metas[i], prefix)->0, metas[i].name@),
        (suggestion_score(metas[j], prefix)->0, metas[j].name@),
    ));
}

/// A directory can be ranked where there is nothing to complete, and
/// otherwise where each of its names can be.
pub proof fn law_directories_are_ranked_name_by_name(
    input: InputView,
    names: Seq<(Seq<char>, Seq<char>)>,
    i: int,
)
    ensures
        path_at(input) is None ==> rankable(input, names),
        rankable(input, Seq::empty()),
        match path_at(input) {
            Some((_, token)) => 0 <= i < names.len() && !scorable(token_name(token), names[i].0)
                ==> !rankable(input, names),
            None => true,
        },
{
}

} // verus!
