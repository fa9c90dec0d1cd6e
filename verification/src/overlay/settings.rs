//! The configuration, and the system prompt.

use vstd::prelude::*;

use crate::app::{shown_cwd, App, AppView, SessionView};
use crate::style::{
    bare, blank_line, extend_lines, lines_view, no_lines, plain, push_line, raw, row, span, styled,
    styled_text, text_line, Color, Line, LineView, Style,
};
use crate::text::{
    cat3, cat4, clone_opt, decimal, decimal_u64, decimal_usize, join, join_texts, lines, lines_of,
    opt_text, pad_right, padded_right, texts,
};
use crate::types::{
    blocks_view, messages_view, BlockView, ContentBlock, Message, MessageView, Role,
};

verus! {

/// Who serves the model.
#[derive(Debug, Clone, Copy, PartialEq, Eq, Structural)]
pub enum ProviderKind {
    Anthropic,
    Openai,
    Ollama,
    Google,
}

impl ProviderKind {
    pub open spec fn name(self) -> Seq<char> {
        match self {
            ProviderKind::Anthropic => "anthropic"@,
            ProviderKind::Openai => "openai"@,
            ProviderKind::Ollama => "ollama"@,
            ProviderKind::Google => "google"@,
        }
    }

    pub fn label(self) -> (r: &'static str)
        ensures
            r@ == self.name(),
    {
        match self {
            ProviderKind::Anthropic => "anthropic",
            ProviderKind::Openai => "openai",
            ProviderKind::Ollama => "ollama",
            ProviderKind::Google => "google",
        }
    }
}

/// A file that settings were read from, or a place without one.
#[derive(Debug)]
pub struct SettingsSource<S = String, O = Option<String>> {
    pub label: S,
    pub path: O,
    pub format: O,
}

pub type SettingsSourceView = SettingsSource<Seq<char>, Option<Seq<char>>>;

impl View for SettingsSource<String, Option<String>> {
    type V = SettingsSource<Seq<char>, Option<Seq<char>>>;

    open spec fn view(&self) -> SettingsSource<Seq<char>, Option<Seq<char>>> {
        SettingsSource {
            label: self.label@,
            path: opt_text(self.path),
            format: opt_text(self.format),
        }
    }
}

pub open spec fn sources_view(v: Seq<SettingsSource>) -> Seq<SettingsSourceView> {
    Seq::new(v.len(), |i: int| v[i]@)
}

/// The settings as the files give them together.
#[derive(Debug)]
pub struct Settings {
    pub sources: Vec<SettingsSource>,
    pub model: Option<String>,
    pub allow: Vec<String>,
    pub deny: Vec<String>,
    pub output_style: Option<String>,
    pub editor_mode: Option<String>,
}

#[verifier::ext_equal]
pub struct SettingsView {
    pub sources: Seq<SettingsSourceView>,
    pub model: Option<Seq<char>>,
    pub allow: Seq<Seq<char>>,
    pub deny: Seq<Seq<char>>,
    pub output_style: Option<Seq<char>>,
    pub editor_mode: Option<Seq<char>>,
}

impl View for Settings {
    type V = SettingsView;

    open spec fn view(&self) -> SettingsView {
        SettingsView {
            sources: sources_view(self.sources@),
            model: opt_text(self.model),
            allow: texts(self.allow@),
            deny: texts(self.deny@),
            output_style: opt_text(self.output_style),
            editor_mode: opt_text(self.editor_mode),
        }
    }
}

/// How the program was started.
#[derive(Debug)]
pub struct Config {
    pub provider: ProviderKind,
    pub model: String,
    pub max_tokens: u32,
    pub max_turns: u32,
    /// The temperature in figures, where one was given.
    pub temperature: Option<String>,
    pub workspace: Option<String>,
    pub restrict_paths: bool,
    pub no_tools: bool,
    pub sessions_dir: Option<String>,
    /// Where sessions go when nothing was given; unknown on some systems.
    pub default_sessions_dir: Option<String>,
    pub quiet: bool,
    /// The settings, where they were loaded.
    pub settings: Option<Settings>,
}

#[verifier::ext_equal]
pub struct ConfigView {
    pub provider: ProviderKind,
    pub model: Seq<char>,
    pub max_tokens: u32,
    pub max_turns: u32,
    pub temperature: Option<Seq<char>>,
    pub workspace: Option<Seq<char>>,
    pub restrict_paths: bool,
    pub no_tools: bool,
    pub sessions_dir: Option<Seq<char>>,
    pub default_sessions_dir: Option<Seq<char>>,
    pub quiet: bool,
    pub settings: Option<SettingsView>,
}

impl View for Config {
    type V = ConfigView;

    open spec fn view(&self) -> ConfigView {
        ConfigView {
            provider: self.provider,
            model: self.model@,
            max_tokens: self.max_tokens,
            max_turns: self.max_turns,
            temperature: opt_text(self.temperature),
            workspace: opt_text(self.workspace),
            restrict_paths: self.restrict_paths,
            no_tools: self.no_tools,
            sessions_dir: opt_text(self.sessions_dir),
            default_sessions_dir: opt_text(self.default_sessions_dir),
            quiet: self.quiet,
            settings: match self.settings {
                Some(s) => Some(s@),
                None => None,
            },
        }
    }
}

/// A setting and its value.
pub open spec fn setting_row(key: Seq<char>, value: Seq<char>) -> LineView {
    row(
        seq![bare("   "@), span(pad_right(key, 20), plain().with_fg(Color::Cyan)), bare(value)],
    )
}

fn setting_line(key: &str, value: &str) -> (l: Line)
    ensures
        l@ == setting_row(key@, value@),
{
    Line::of3(
        raw("   "),
        styled(padded_right(key, 20).as_str(), Style::default().fg(Color::Cyan)),
        raw(value),
    )
}

pub open spec fn truth(b: bool) -> Seq<char> {
    if b {
        "true"@
    } else {
        "false"@
    }
}

fn truth_text(b: bool) -> (r: &'static str)
    ensures
        r@ == truth(b),
{
    if b {
        "true"
    } else {
        "false"
    }
}

/// The text that is given, or another in its place.
pub open spec fn given_or(o: Option<Seq<char>>, other: Seq<char>) -> Seq<char> {
    match o {
        Some(t) => t,
        None => other,
    }
}

/// The session in a few words.
pub open spec fn session_text(s: Option<SessionView>) -> Seq<char> {
    match s {
        Some(s) => s.name + " ("@ + decimal(s.turn_count as nat) + " turns, "@ + decimal(
            session_tokens(s.input_tokens, s.output_tokens) as nat,
        ) + " tokens)"@,
        None => "(ephemeral \u{2014} no session)"@,
    }
}

/// The tokens of a session together, as far as they can be counted.
pub open spec fn session_tokens(input: u32, output: u32) -> int {
    if input + output <= u32::MAX {
        input + output
    } else {
        u32::MAX as int
    }
}

fn session_line(app: &App) -> (r: String)
    ensures
        r@ == session_text(app@.session),
{
    match &app.session {
        Some(s) => {
            let tokens = s.input_tokens.saturating_add(s.output_tokens);
            let head = cat3(
                s.name.as_str(),
                " (",
                decimal_usize(s.turn_count).as_str(),
            );
            cat4(head.as_str(), " turns, ", decimal_u64(tokens as u64).as_str(), " tokens)")
        },
        None => String::from_str("(ephemeral \u{2014} no session)"),
    }
}

/// What the program was started with.
pub open spec fn start_rows(
    c: ConfigView,
    session: Option<SessionView>,
    cwd: Seq<char>,
) -> Seq<LineView> {
    seq![
        blank_line(),
        setting_row("Provider"@, c.provider.name()),
        setting_row("Model"@, c.model),
        setting_row("Max tokens"@, decimal(c.max_tokens as nat)),
        setting_row("Max turns"@, decimal(c.max_turns as nat)),
        setting_row("Temperature"@, given_or(c.temperature, "(default)"@)),
        blank_line(),
        setting_row("Workspace root"@, given_or(c.workspace, cwd)),
        setting_row("Restrict paths"@, truth(c.restrict_paths)),
        setting_row(
            "Tools"@,
            if c.no_tools {
                "disabled"@
            } else {
                "enabled (Read, Write, Edit, Bash, Glob, Grep)"@
            },
        ),
        blank_line(),
        setting_row(
            "Sessions dir"@,
            given_or(c.sessions_dir, given_or(c.default_sessions_dir, "(unavailable)"@)),
        ),
        setting_row("Active session"@, session_text(session)),
        blank_line(),
        setting_row("Quiet mode"@, truth(c.quiet)),
    ]
}

fn or_text(o: &Option<String>, other: String) -> (r: String)
    ensures
        r@ == given_or(opt_text(*o), other@),
{
    match o {
        Some(t) => t.clone(),
        None => other,
    }
}

fn start_lines(app: &App, c: &Config, below_home: Option<&str>) -> (out: Vec<Line>)
    ensures
        lines_view(out@) == start_rows(c@, app@.session, shown_cwd(app@.cwd, below_home)),
{
    let temperature = or_text(&c.temperature, String::from_str("(default)"));
    let workspace = or_text(&c.workspace, app.cwd_display(below_home));
    let fallback = or_text(&c.default_sessions_dir, String::from_str("(unavailable)"));
    let sessions = or_text(&c.sessions_dir, fallback);
    let tools: &str = if c.no_tools {
        "disabled"
    } else {
        "enabled (Read, Write, Edit, Bash, Glob, Grep)"
    };
    let mut out = no_lines();
    push_line(&mut out, Line::blank());
    push_line(&mut out, setting_line("Provider", c.provider.label()));
    push_line(&mut out, setting_line("Model", c.model.as_str()));
    push_line(&mut out, setting_line("Max tokens", decimal_u64(c.max_tokens as u64).as_str()));
    push_line(&mut out, setting_line("Max turns", decimal_u64(c.max_turns as u64).as_str()));
    push_line(&mut out, setting_line("Temperature", temperature.as_str()));
    push_line(&mut out, Line::blank());
    push_line(&mut out, setting_line("Workspace root", workspace.as_str()));
    push_line(&mut out, setting_line("Restrict paths", truth_text(c.restrict_paths)));
    push_line(&mut out, setting_line("Tools", tools));
    push_line(&mut out, Line::blank());
    push_line(&mut out, setting_line("Sessions dir", sessions.as_str()));
    push_line(&mut out, setting_line("Active session", session_line(app).as_str()));
    push_line(&mut out, Line::blank());
    push_line(&mut out, setting_line("Quiet mode", truth_text(c.quiet)));
    out
}

/// The row of a file that settings were read from.
pub open spec fn source_row(s: SettingsSourceView) -> LineView {
    row(
        seq![
            bare("   "@),
            span(pad_right(s.label, 10), plain().with_fg(Color::Cyan)),
            bare(
                given_or(s.path, "(inline)"@) + "  ["@ + given_or(s.format, "?"@) + "]"@,
            ),
        ],
    )
}

fn source_line(s: &SettingsSource) -> (l: Line)
    ensures
        l@ == source_row(s@),
{
    let path: &str = match &s.path {
        Some(p) => p.as_str(),
        None => "(inline)",
    };
    let format: &str = match &s.format {
        Some(f) => f.as_str(),
        None => "?",
    };
    Line::of3(
        raw("   "),
        styled(padded_right(s.label.as_str(), 10).as_str(), Style::default().fg(Color::Cyan)),
        raw(cat4(path, "  [", format, "]").as_str()),
    )
}

pub open spec fn source_rows(sources: Seq<SettingsSourceView>) -> Seq<LineView> {
    if sources.len() == 0 {
        seq![
            styled_text(
                "   (no scope files found \u{2014} defaults in effect)"@,
                plain().with_dim(),
            ),
        ]
    } else {
        Seq::new(sources.len(), |i: int| source_row(sources[i]))
    }
}

fn source_lines(sources: &Vec<SettingsSource>) -> (out: Vec<Line>)
    ensures
        lines_view(out@) == source_rows(sources_view(sources@)),
{
    let ghost rows = source_rows(sources_view(sources@));
    let mut out = no_lines();
    if sources.len() == 0 {
        push_line(
            &mut out,
            Line::styled(
                "   (no scope files found \u{2014} defaults in effect)",
                Style::default().dim(),
            ),
        );
        return out;
    }
    let mut i: usize = 0;
    assert(lines_view(out@) =~= rows.take(0));
    while i < sources.len()
        invariant
            i <= sources@.len(),
            sources@.len() > 0,
            rows == source_rows(sources_view(sources@)),
            lines_view(out@) == rows.take(i as int),
        decreases sources@.len() - i,
    {
        push_line(&mut out, source_line(&sources[i]));
        assert(sources_view(sources@)[i as int] == sources@[i as int]@);
        i = i + 1;
        assert(rows.take(i as int) =~= rows.take(i - 1).push(rows[i - 1]));
    }
    assert(rows.take(i as int) =~= rows);
    out
}

/// A row for a value that may not be set.
pub open spec fn opt_row(key: Seq<char>, value: Option<Seq<char>>) -> Seq<LineView> {
    match value {
        Some(v) => seq![setting_row(key, v)],
        None => Seq::empty(),
    }
}

/// A row for a list that may be empty.
pub open spec fn list_row(key: Seq<char>, list: Seq<Seq<char>>) -> Seq<LineView> {
    if list.len() == 0 {
        Seq::empty()
    } else {
        seq![setting_row(key, "["@ + join(list, ", "@) + "]"@)]
    }
}

fn push_opt(key: &str, value: &Option<String>, out: &mut Vec<Line>)
    ensures
        lines_view(final(out)@) == lines_view(old(out)@) + opt_row(key@, opt_text(*value)),
{
    let ghost before = lines_view(out@);
    if let Some(v) = value {
        push_line(out, setting_line(key, v.as_str()));
    }
    assert(lines_view(out@) =~= before + opt_row(key@, opt_text(*value)));
}

fn push_list(key: &str, list: &Vec<String>, out: &mut Vec<Line>)
    ensures
        lines_view(final(out)@) == lines_view(old(out)@) + list_row(key@, texts(list@)),
{
    let ghost before = lines_view(out@);
    assert(texts(list@).len() == list@.len());
    if list.len() > 0 {
        let text = cat3("[", join_texts(list, ", ").as_str(), "]");
        push_line(out, setting_line(key, text.as_str()));
    }
    assert(lines_view(out@) =~= before + list_row(key@, texts(list@)));
}

/// Where settings came from, and the chief of them.
pub open spec fn hierarchy_rows(s: SettingsView) -> Seq<LineView> {
    seq![
        blank_line(),
        styled_text("  Settings hierarchy"@, plain().with_fg(Color::Yellow).with_bold()),
    ] + source_rows(s.sources) + opt_row("settings.model"@, s.model) + list_row(
        "settings.allow"@,
        s.allow,
    ) + list_row("settings.deny"@, s.deny) + opt_row("settings.output_style"@, s.output_style)
        + opt_row("settings.editor_mode"@, s.editor_mode)
}

fn hierarchy_lines(s: &Settings) -> (out: Vec<Line>)
    ensures
        lines_view(out@) == hierarchy_rows(s@),
{
    let mut out = no_lines();
    push_line(&mut out, Line::blank());
    push_line(
        &mut out,
        Line::styled("  Settings hierarchy", Style::default().fg(Color::Yellow).bold()),
    );
    extend_lines(&mut out, source_lines(&s.sources));
    push_opt("settings.model", &s.model, &mut out);
    push_list("settings.allow", &s.allow, &mut out);
    push_list("settings.deny", &s.deny, &mut out);
    push_opt("settings.output_style", &s.output_style, &mut out);
    push_opt("settings.editor_mode", &s.editor_mode, &mut out);
    out
}

/// What the program was started with, and what the settings add.
pub open spec fn config_page(
    c: ConfigView,
    session: Option<SessionView>,
    cwd: Seq<char>,
) -> Seq<LineView> {
    (start_rows(c, session, cwd) + (match c.settings {
        Some(s) => hierarchy_rows(s),
        None => Seq::empty(),
    })).push(blank_line()).push(styled_text("  Press q or Esc to close."@, plain().with_dim()))
}

/// What the program was started with, and what the settings add.
/// `below_home` is the working directory below the home directory, where it
/// lies there.
pub fn config_lines(app: &App, c: &Config, below_home: Option<&str>) -> (out: Vec<Line>)
    ensures
        lines_view(out@) == config_page(c@, app@.session, shown_cwd(app@.cwd, below_home)),
{
    let mut out = start_lines(app, c, below_home);
    let ghost before = lines_view(out@);
    if let Some(s) = &c.settings {
        extend_lines(&mut out, hierarchy_lines(s));
    }
    assert(lines_view(out@) =~= before + (match c@.settings {
        Some(s) => hierarchy_rows(s),
        None => Seq::empty(),
    }));
    push_line(&mut out, Line::blank());
    push_line(&mut out, Line::styled("  Press q or Esc to close.", Style::default().dim()));
    out
}

// ---------------------------------------------------------------------------
// The system prompt
// ---------------------------------------------------------------------------

/// The first text of a message.
pub open spec fn first_text(blocks: Seq<BlockView>) -> Option<Seq<char>>
    decreases blocks.len(),
{
    if blocks.len() == 0 {
        None
    } else {
        match blocks[0] {
            ContentBlock::Text(t) => Some(t),
            _ => first_text(blocks.skip(1)),
        }
    }
}

fn first_text_of(blocks: &Vec<ContentBlock>) -> (r: Option<String>)
    ensures
        opt_text(r) == first_text(blocks_view(blocks@)),
{
    let ghost all = blocks_view(blocks@);
    let mut i: usize = 0;
    assert(all.skip(0) =~= all);
    while i < blocks.len()
        invariant
            i <= blocks@.len(),
            all == blocks_view(blocks@),
            first_text(all) == first_text(all.skip(i as int)),
        decreases blocks@.len() - i,
    {
        assert(all.skip(i as int)[0] == blocks@[i as int]@);
        if let ContentBlock::Text(t) = &blocks[i] {
            return Some(t.clone());
        }
        assert(all.skip(i as int).skip(1) =~= all.skip(i + 1));
        i = i + 1;
    }
    None
}

/// The text of the first system message.
pub open spec fn system_text(messages: Seq<MessageView>) -> Option<Seq<char>>
    decreases messages.len(),
{
    if messages.len() == 0 {
        None
    } else if messages[0].role == Role::System {
        first_text(messages[0].content)
    } else {
        system_text(messages.skip(1))
    }
}

fn system_text_of(messages: &Vec<Message>) -> (r: Option<String>)
    ensures
        opt_text(r) == system_text(messages_view(messages@)),
{
    let ghost all = messages_view(messages@);
    let mut i: usize = 0;
    assert(all.skip(0) =~= all);
    while i < messages.len()
        invariant
            i <= messages@.len(),
            all == messages_view(messages@),
            system_text(all) == system_text(all.skip(i as int)),
        decreases messages@.len() - i,
    {
        assert(all.skip(i as int)[0] == messages@[i as int]@);
        if messages[i].role == Role::System {
            return first_text_of(&messages[i].content);
        }
        assert(all.skip(i as int).skip(1) =~= all.skip(i + 1));
        i = i + 1;
    }
    None
}

/// The system prompt in force: that of the session before that of the
/// command line.
pub open spec fn system_in_force(app: AppView) -> Option<Seq<char>> {
    let own = match app.session {
        Some(s) => system_text(s.messages),
        None => None,
    };
    match own {
        Some(t) => Some(t),
        None => app.system_prompt,
    }
}

pub open spec fn text_lines(ls: Seq<Seq<char>>) -> Seq<LineView> {
    Seq::new(ls.len(), |i: int| text_line(ls[i]))
}

/// The system prompt in force.
pub open spec fn system_page(app: AppView) -> Seq<LineView> {
    (seq![blank_line()] + (match system_in_force(app) {
        Some(t) => text_lines(lines(t)),
        None => seq![
            text_line(
                "(no system prompt \u{2014} use --system or --system-file to set one)"@,
            ),
        ],
    })).push(blank_line()).push(
        styled_text(
            "  Press q or Esc to close. Edit via --system-file or by editing the session JSON."@,
            plain().with_dim(),
        ),
    )
}

fn push_text_lines(ls: &Vec<String>, out: &mut Vec<Line>)
    ensures
        lines_view(final(out)@) == lines_view(old(out)@) + text_lines(texts(ls@)),
{
    let ghost head = lines_view(out@);
    let ghost rows = text_lines(texts(ls@));
    let mut i: usize = 0;
    assert(head + rows.take(0) =~= head);
    while i < ls.len()
        invariant
            i <= ls@.len(),
            rows == text_lines(texts(ls@)),
            lines_view(out@) == head + rows.take(i as int),
        decreases ls@.len() - i,
    {
        push_line(out, Line::raw(ls[i].as_str()));
        assert(texts(ls@)[i as int] == ls@[i as int]@);
        i = i + 1;
        assert(rows.take(i as int) =~= rows.take(i - 1).push(rows[i - 1]));
        assert((head + rows.take(i - 1)).push(rows[i - 1]) =~= head + rows.take(i as int));
    }
    assert(texts(ls@).len() == ls@.len());
    assert(rows.take(i as int) =~= rows);
}

/// The system prompt in force.
pub fn system_lines(app: &App) -> (out: Vec<Line>)
    ensures
        lines_view(out@) == system_page(app@),
{
    let own = match &app.session {
        Some(s) => system_text_of(&s.messages),
        None => None,
    };
    let text = match own {
        Some(t) => Some(t),
        None => clone_opt(&app.system_prompt),
    };
    let mut out = no_lines();
    push_line(&mut out, Line::blank());
    let ghost head = lines_view(out@);
    assert(head =~= seq![blank_line()]);
    match &text {
        Some(t) => push_text_lines(&lines_of(t.as_str()), &mut out),
        None => {
            push_line(
                &mut out,
                Line::raw("(no system prompt \u{2014} use --system or --system-file to set one)"),
            );
        },
    }
    push_line(&mut out, Line::blank());
    push_line(
        &mut out,
        Line::styled(
            "  Press q or Esc to close. Edit via --system-file or by editing the session JSON.",
            Style::default().dim(),
        ),
    );
    assert(lines_view(out@) =~= system_page(app@));
    out
}

// ---------------------------------------------------------------------------
// Laws
// ---------------------------------------------------------------------------

/// Who serves the model, by name.
pub proof fn law_providers_have_their_names(p: ProviderKind)
    ensures
        p.name() == (match p {
            ProviderKind::Anthropic => "anthropic"@,
            ProviderKind::Openai => "openai"@,
            ProviderKind::Ollama => "ollama"@,
            ProviderKind::Google => "google"@,
        }),
{
}

/// A setting has its key in a cyan column of twenty cells, and its value
/// behind it.
pub proof fn law_settings_have_two_columns(key: Seq<char>, value: Seq<char>, other: Seq<char>)
    ensures
        setting_row(key, value).spans.len() == 3,
        setting_row(key, value).spans[0] == bare("   "@),
        setting_row(key, value).spans[1] == span(pad_right(key, 20), plain().with_fg(Color::Cyan)),
        setting_row(key, value).spans[2] == bare(value),
        truth(true) == "true"@,
        truth(false) == "false"@,
        given_or(Some(value), other) == value,
        given_or(None, other) == other,
{
}

/// The session is told by its name, its turns and its tokens together, as
/// far as they can be counted.
pub proof fn law_sessions_are_told(s: SessionView)
    ensures
        s.input_tokens + s.output_tokens <= 4_294_967_295 ==> session_text(Some(s)) == s.name + " ("@
            + decimal(s.turn_count as nat) + " turns, "@ + decimal(
            (s.input_tokens + s.output_tokens) as nat,
        ) + " tokens)"@,
        s.input_tokens + s.output_tokens > 4_294_967_295 ==> session_text(Some(s)) == s.name + " ("@
            + decimal(s.turn_count as nat) + " turns, "@ + decimal(4_294_967_295) + " tokens)"@,
        session_text(None) == "(ephemeral \u{2014} no session)"@,
{
}

/// What the program was started with is told row by row; what was not given
/// shows what stands in its place.
pub proof fn law_the_start_is_told(c: ConfigView, session: Option<SessionView>, cwd: Seq<char>)
    ensures
        ({
            let rows = start_rows(c, session, cwd);
            &&& rows.len() == 15
            &&& rows[1] == setting_row("Provider"@, c.provider.name())
            &&& rows[2] == setting_row("Model"@, c.model)
            &&& rows[3] == setting_row("Max tokens"@, decimal(c.max_tokens as nat))
            &&& rows[4] == setting_row("Max turns"@, decimal(c.max_turns as nat))
            &&& c.temperature is Some ==> rows[5] == setting_row("Temperature"@, c.temperature->0)
            &&& c.temperature is None ==> rows[5] == setting_row("Temperature"@, "(default)"@)
            &&& c.workspace is Some ==> rows[7] == setting_row("Workspace root"@, c.workspace->0)
            &&& c.workspace is None ==> rows[7] == setting_row("Workspace root"@, cwd)
            &&& c.restrict_paths ==> rows[8] == setting_row("Restrict paths"@, "true"@)
            &&& !c.restrict_paths ==> rows[8] == setting_row("Restrict paths"@, "false"@)
            &&& c.no_tools ==> rows[9] == setting_row("Tools"@, "disabled"@)
            &&& !c.no_tools ==> rows[9] == setting_row(
                "Tools"@,
                "enabled (Read, Write, Edit, Bash, Glob, Grep)"@,
            )
            &&& c.sessions_dir is Some ==> rows[11] == setting_row(
                "Sessions dir"@,
                c.sessions_dir->0,
            )
            &&& c.sessions_dir is None && c.default_sessions_dir is Some ==> rows[11]
                == setting_row("Sessions dir"@, c.default_sessions_dir->0)
            &&& c.sessions_dir is None && c.default_sessions_dir is None ==> rows[11]
                == setting_row("Sessions dir"@, "(unavailable)"@)
            &&& rows[12] == setting_row("Active session"@, session_text(session))
            &&& c.quiet ==> rows[14] == setting_row("Quiet mode"@, "true"@)
            &&& !c.quiet ==> rows[14] == setting_row("Quiet mode"@, "false"@)
        }),
{
}

/// The files that settings come from are listed in their order, each by its
/// scope, its path and its format; where there are none that is said.
pub proof fn law_sources_are_listed(sources: Seq<SettingsSourceView>, i: int)
    ensures
        sources.len() == 0 ==> source_rows(sources) == seq![
            styled_text(
                "   (no scope files found \u{2014} defaults in effect)"@,
                plain().with_dim(),
            ),
        ],
        sources.len() > 0 ==> source_rows(sources).len() == sources.len(),
        0 <= i < sources.len() ==> ({
            let l = source_rows(sources)[i];
            let s = sources[i];
            &&& l.spans[1].content == pad_right(s.label, 10)
            &&& l.spans[2].content == (if s.path is Some {
                s.path->0
            } else {
                "(inline)"@
            }) + "  ["@ + (if s.format is Some {
                s.format->0
            } else {
                "?"@
            }) + "]"@
        }),
{
}

/// The settings that are set have a row each below the files, in this order;
/// those that are not have none.
pub proof fn law_set_settings_have_a_row(
    s: SettingsView,
    key: Seq<char>,
    value: Seq<char>,
    list: Seq<Seq<char>>,
)
    ensures
        hierarchy_rows(s) == seq![
            blank_line(),
            styled_text("  Settings hierarchy"@, plain().with_fg(Color::Yellow).with_bold()),
        ] + source_rows(s.sources) + opt_row("settings.model"@, s.model) + list_row(
            "settings.allow"@,
            s.allow,
        ) + list_row("settings.deny"@, s.deny) + opt_row("settings.output_style"@, s.output_style)
            + opt_row("settings.editor_mode"@, s.editor_mode),
        opt_row(key, Some(value)) == seq![setting_row(key, value)],
        opt_row(key, None).len() == 0,
        list_row(key, Seq::empty()).len() == 0,
        list.len() > 0 ==> list_row(key, list) == seq![
            setting_row(key, "["@ + join(list, ", "@) + "]"@),
        ],
{
}

/// The page has what the program was started with, then the settings where
/// they were loaded, and how to close it.
pub proof fn law_the_page_ends_in_how_to_close_it(
    c: ConfigView,
    session: Option<SessionView>,
    cwd: Seq<char>,
)
    ensures
        ({
            let tail = seq![
                blank_line(),
                styled_text("  Press q or Esc to close."@, plain().with_dim()),
            ];
            &&& c.settings is None ==> config_page(c, session, cwd) == start_rows(c, session, cwd)
                + tail
            &&& c.settings is Some ==> config_page(c, session, cwd) == start_rows(c, session, cwd)
                + hierarchy_rows(c.settings->0) + tail
        }),
{
    let tail = seq![blank_line(), styled_text("  Press q or Esc to close."@, plain().with_dim())];
    let rows = start_rows(c, session, cwd) + (match c.settings {
        Some(s) => hierarchy_rows(s),
        None => Seq::empty(),
    });
    assert(config_page(c, session, cwd) =~= rows + tail);
    if c.settings is None {
        assert(rows =~= start_rows(c, session, cwd));
    }
}

/// The first text of a message is that of the first block that is one; the
/// text of the system is that of the first message of the system.
pub proof fn law_the_first_text_is_taken(
    before: Seq<BlockView>,
    t: Seq<char>,
    after: Seq<BlockView>,
)
    requires
        forall|i: int| 0 <= i < before.len() ==> !(#[trigger] before[i] is Text),
    ensures
        first_text(before) is None,
        first_text(before + seq![ContentBlock::Text(t)] + after) == Some(t),
    decreases before.len(),
{
    let all = before + seq![ContentBlock::Text(t)] + after;
    if before.len() > 0 {
        let rest = before.skip(1);
        assert forall|i: int| 0 <= i < rest.len() implies !(#[trigger] rest[i] is Text) by {
            assert(before[i + 1] == rest[i]);
        }
        law_the_first_text_is_taken(rest, t, after);
        assert(all[0] == before[0]);
        assert(all.skip(1) =~= rest + seq![ContentBlock::Text(t)] + after);
    } else {
        assert(all[0] == ContentBlock::<Seq<char>, Seq<Seq<char>>>::Text(t));
    }
}

/// Messages of others are passed over until the first of the system.
pub proof fn law_the_first_system_message_is_taken(
    before: Seq<MessageView>,
    m: MessageView,
    after: Seq<MessageView>,
)
    requires
        forall|i: int| 0 <= i < before.len() ==> (#[trigger] before[i]).role != Role::System,
        m.role == Role::System,
    ensures
        system_text(before) is None,
        system_text(before + seq![m] + after) == first_text(m.content),
    decreases before.len(),
{
    let all = before + seq![m] + after;
    if before.len() > 0 {
        let rest = before.skip(1);
        assert forall|i: int| 0 <= i < rest.len() implies (#[trigger] rest[i]).role
            != Role::System by {
            assert(before[i + 1] == rest[i]);
        }
        law_the_first_system_message_is_taken(rest, m, after);
        assert(all[0] == before[0]);
        assert(all.skip(1) =~= rest + seq![m] + after);
    } else {
        assert(all[0] == m);
    }
}

/// The prompt of the session comes before that of the command line; the page
/// shows it line by line, or says that there is none.
pub proof fn law_the_session_prompt_comes_first(app: AppView, i: int)
    ensures
        app.session is Some && system_text(app.session->0.messages) is Some ==> system_in_force(app)
            == system_text(app.session->0.messages),
        app.session is Some && system_text(app.session->0.messages) is None ==> system_in_force(app)
            == app.system_prompt,
        app.session is None ==> system_in_force(app) == app.system_prompt,
        ({
            let page = system_page(app);
            &&& page[0] == blank_line()
            &&& page.last() == styled_text(
                "  Press q or Esc to close. Edit via --system-file or by editing the session JSON."@,
                plain().with_dim(),
            )
            &&& match system_in_force(app) {
                Some(t) => {
                    &&& page.len() == lines(t).len() + 3
                    &&& 0 <= i < lines(t).len() ==> page[i + 1] == text_line(lines(t)[i])
                },
                None => page.len() == 4 && page[1] == text_line(
                    "(no system prompt \u{2014} use --system or --system-file to set one)"@,
                ),
            }
        }),
{
}

} // verus!
