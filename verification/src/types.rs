//! What the front end shows and decides about: messages, permission rules
//! and modes, requests for permission, terminal events.
//!
//! Types that hold text take the text's type as a parameter, so that a
//! value and what a contract says of it have one shape: `T<String>` is held
//! by the program, `T<Seq<char>>` is its view.

use vstd::prelude::*;

use crate::text::{clone_texts, opt_text, push_text, texts};

verus! {

// ---------------------------------------------------------------------------
// Messages
// ---------------------------------------------------------------------------

#[derive(Debug, Clone, Copy, PartialEq, Eq, Structural)]
pub enum Role {
    System,
    User,
    Assistant,
}

/// Where an image comes from.
#[derive(Debug, PartialEq, Eq)]
pub enum ImageSource<S = String> {
    /// Inline data, `bytes` long in its base64 form.
    Base64 { media_type: S, bytes: usize },
    Url(S),
}

/// One block of a message.
#[derive(Debug, PartialEq, Eq)]
pub enum ContentBlock<S = String, L = Vec<String>> {
    Text(S),
    /// A tool call; `input` is its input as compact JSON.
    ToolUse { id: S, name: S, input: S },
    /// What a tool call gave; `texts` are its text blocks.
    ToolResult { tool_use_id: S, texts: L, is_error: bool },
    Thinking(S),
    Image(ImageSource<S>),
}

pub type BlockView = ContentBlock<Seq<char>, Seq<Seq<char>>>;

impl View for ContentBlock<String, Vec<String>> {
    type V = ContentBlock<Seq<char>, Seq<Seq<char>>>;

    open spec fn view(&self) -> ContentBlock<Seq<char>, Seq<Seq<char>>> {
        match self {
            ContentBlock::Text(t) => ContentBlock::Text(t@),
            ContentBlock::ToolUse { id, name, input } => ContentBlock::ToolUse {
                id: id@,
                name: name@,
                input: input@,
            },
            ContentBlock::ToolResult { tool_use_id, texts: ts, is_error } => ContentBlock::ToolResult {
                tool_use_id: tool_use_id@,
                texts: texts(ts@),
                is_error: *is_error,
            },
            ContentBlock::Thinking(t) => ContentBlock::Thinking(t@),
            ContentBlock::Image(ImageSource::Base64 { media_type, bytes }) => ContentBlock::Image(
                ImageSource::Base64 { media_type: media_type@, bytes: *bytes },
            ),
            ContentBlock::Image(ImageSource::Url(u)) => ContentBlock::Image(ImageSource::Url(u@)),
        }
    }
}

#[derive(Debug, PartialEq, Eq)]
pub struct Message {
    pub role: Role,
    pub content: Vec<ContentBlock>,
}

#[verifier::ext_equal]
pub struct MessageView {
    pub role: Role,
    pub content: Seq<ContentBlock<Seq<char>, Seq<Seq<char>>>>,
}

pub open spec fn blocks_view(v: Seq<ContentBlock>) -> Seq<
    ContentBlock<Seq<char>, Seq<Seq<char>>>,
> {
    Seq::new(v.len(), |i: int| v[i]@)
}

impl View for Message {
    type V = MessageView;

    open spec fn view(&self) -> MessageView {
        MessageView { role: self.role, content: blocks_view(self.content@) }
    }
}

pub open spec fn messages_view(v: Seq<Message>) -> Seq<MessageView> {
    Seq::new(v.len(), |i: int| v[i]@)
}

/// A message of one text block.
pub open spec fn text_message(role: Role, text: Seq<char>) -> MessageView {
    MessageView { role, content: seq![ContentBlock::Text(text)] }
}

impl Message {
    pub fn of_text(role: Role, text: &str) -> (m: Message)
        ensures
            m@ == text_message(role, text@),
    {
        let mut content: Vec<ContentBlock> = Vec::new();
        assert(blocks_view(content@) =~= Seq::<BlockView>::empty());
        push_block(&mut content, ContentBlock::Text(String::from_str(text)));
        Message { role, content }
    }

    pub fn user_text(text: &str) -> (m: Message)
        ensures
            m@ == text_message(Role::User, text@),
    {
        Message::of_text(Role::User, text)
    }

    pub fn assistant_text(text: &str) -> (m: Message)
        ensures
            m@ == text_message(Role::Assistant, text@),
    {
        Message::of_text(Role::Assistant, text)
    }

    pub fn system_text(text: &str) -> (m: Message)
        ensures
            m@ == text_message(Role::System, text@),
    {
        Message::of_text(Role::System, text)
    }
}

pub fn clone_block(b: &ContentBlock) -> (r: ContentBlock)
    ensures
        r@ == b@,
{
    match b {
        ContentBlock::Text(t) => ContentBlock::Text(t.clone()),
        ContentBlock::ToolUse { id, name, input } => ContentBlock::ToolUse {
            id: id.clone(),
            name: name.clone(),
            input: input.clone(),
        },
        ContentBlock::ToolResult { tool_use_id, texts: ts, is_error } => ContentBlock::ToolResult {
            tool_use_id: tool_use_id.clone(),
            texts: clone_texts(ts),
            is_error: *is_error,
        },
        ContentBlock::Thinking(t) => ContentBlock::Thinking(t.clone()),
        ContentBlock::Image(ImageSource::Base64 { media_type, bytes }) => ContentBlock::Image(
            ImageSource::Base64 { media_type: media_type.clone(), bytes: *bytes },
        ),
        ContentBlock::Image(ImageSource::Url(u)) => ContentBlock::Image(ImageSource::Url(u.clone())),
    }
}

pub fn push_block(v: &mut Vec<ContentBlock>, b: ContentBlock)
    ensures
        final(v)@ == old(v)@.push(b),
        blocks_view(final(v)@) == blocks_view(old(v)@).push(b@),
{
    let ghost before = v@;
    v.push(b);
    assert(blocks_view(v@) =~= blocks_view(before).push(b@));
}

pub fn push_message(v: &mut Vec<Message>, m: Message)
    ensures
        final(v)@ == old(v)@.push(m),
        messages_view(final(v)@) == messages_view(old(v)@).push(m@),
{
    let ghost before = v@;
    v.push(m);
    assert(messages_view(v@) =~= messages_view(before).push(m@));
}

pub fn clone_message(m: &Message) -> (r: Message)
    ensures
        r@ == m@,
{
    let mut content: Vec<ContentBlock> = Vec::new();
    let mut i: usize = 0;
    while i < m.content.len()
        invariant
            i <= m.content@.len(),
            blocks_view(content@) =~= blocks_view(m.content@).take(i as int),
        decreases m.content@.len() - i,
    {
        push_block(&mut content, clone_block(&m.content[i]));
        i = i + 1;
        assert(blocks_view(m.content@).take(i as int) =~= blocks_view(m.content@).take(i - 1).push(
            m.content@[i - 1]@,
        ));
    }
    let r = Message { role: m.role, content };
    assert(r@.content =~= m@.content);
    r
}

pub fn clone_messages(v: &Vec<Message>) -> (r: Vec<Message>)
    ensures
        messages_view(r@) == messages_view(v@),
{
    let mut r: Vec<Message> = Vec::new();
    let mut i: usize = 0;
    while i < v.len()
        invariant
            i <= v@.len(),
            messages_view(r@) =~= messages_view(v@).take(i as int),
        decreases v@.len() - i,
    {
        push_message(&mut r, clone_message(&v[i]));
        i = i + 1;
        assert(messages_view(v@).take(i as int) =~= messages_view(v@).take(i - 1).push(
            v@[i - 1]@,
        ));
    }
    assert(messages_view(r@) =~= messages_view(v@));
    r
}

/// The texts of the text blocks among `blocks`, in order.
pub open spec fn block_texts(blocks: Seq<ContentBlock<Seq<char>, Seq<Seq<char>>>>) -> Seq<Seq<char>>
    decreases blocks.len(),
{
    if blocks.len() == 0 {
        Seq::empty()
    } else {
        let rest = block_texts(blocks.drop_last());
        match blocks.last() {
            ContentBlock::Text(t) => rest.push(t),
            _ => rest,
        }
    }
}

/// The texts of the text blocks among `blocks`.
pub fn texts_of_blocks(blocks: &Vec<ContentBlock>) -> (out: Vec<String>)
    ensures
        texts(out@) == block_texts(blocks_view(blocks@)),
{
    let ghost all = blocks_view(blocks@);
    let mut out: Vec<String> = Vec::new();
    let mut i: usize = 0;
    assert(texts(out@) =~= Seq::<Seq<char>>::empty());
    while i < blocks.len()
        invariant
            i <= blocks@.len(),
            all == blocks_view(blocks@),
            texts(out@) == block_texts(all.take(i as int)),
        decreases blocks@.len() - i,
    {
        assert(all.take(i + 1).drop_last() =~= all.take(i as int));
        assert(all.take(i + 1).last() == blocks@[i as int]@);
        match &blocks[i] {
            ContentBlock::Text(t) => {
                push_text(&mut out, t.clone());
            },
            _ => {},
        }
        i = i + 1;
    }
    assert(all.take(all.len() as int) =~= all);
    out
}

// ---------------------------------------------------------------------------
// Permissions
// ---------------------------------------------------------------------------

/// What a permission rule says to do.
#[derive(Debug, Clone, Copy, PartialEq, Eq, Structural)]
pub enum Action {
    Allow,
    Ask,
    Deny,
}

/// How tool calls are permitted while nothing more specific says otherwise.
#[derive(Debug, Clone, Copy, PartialEq, Eq, Structural)]
pub enum PermissionMode {
    Default,
    AcceptEdits,
    Plan,
    Auto,
    DontAsk,
    BypassPermissions,
}

impl PermissionMode {
    pub open spec fn after(self) -> PermissionMode {
        match self {
            PermissionMode::Default => PermissionMode::AcceptEdits,
            PermissionMode::AcceptEdits => PermissionMode::Plan,
            PermissionMode::Plan => PermissionMode::Auto,
            PermissionMode::Auto => PermissionMode::DontAsk,
            PermissionMode::DontAsk => PermissionMode::BypassPermissions,
            PermissionMode::BypassPermissions => PermissionMode::Default,
        }
    }

    pub open spec fn before(self) -> PermissionMode {
        match self {
            PermissionMode::Default => PermissionMode::BypassPermissions,
            PermissionMode::AcceptEdits => PermissionMode::Default,
            PermissionMode::Plan => PermissionMode::AcceptEdits,
            PermissionMode::Auto => PermissionMode::Plan,
            PermissionMode::DontAsk => PermissionMode::Auto,
            PermissionMode::BypassPermissions => PermissionMode::DontAsk,
        }
    }

    pub open spec fn name(self) -> Seq<char> {
        match self {
            PermissionMode::Default => "default"@,
            PermissionMode::AcceptEdits => "acceptEdits"@,
            PermissionMode::Plan => "plan"@,
            PermissionMode::Auto => "auto"@,
            PermissionMode::DontAsk => "dontAsk"@,
            PermissionMode::BypassPermissions => "bypassPermissions"@,
        }
    }

    /// The mode after this one, the first again after the last.
    pub fn next(self) -> (r: PermissionMode)
        ensures
            r == self.after(),
    {
        match self {
            PermissionMode::Default => PermissionMode::AcceptEdits,
            PermissionMode::AcceptEdits => PermissionMode::Plan,
            PermissionMode::Plan => PermissionMode::Auto,
            PermissionMode::Auto => PermissionMode::DontAsk,
            PermissionMode::DontAsk => PermissionMode::BypassPermissions,
            PermissionMode::BypassPermissions => PermissionMode::Default,
        }
    }

    /// The mode before this one, the last again before the first.
    pub fn previous(self) -> (r: PermissionMode)
        ensures
            r == self.before(),
    {
        match self {
            PermissionMode::Default => PermissionMode::BypassPermissions,
            PermissionMode::AcceptEdits => PermissionMode::Default,
            PermissionMode::Plan => PermissionMode::AcceptEdits,
            PermissionMode::Auto => PermissionMode::Plan,
            PermissionMode::DontAsk => PermissionMode::Auto,
            PermissionMode::BypassPermissions => PermissionMode::DontAsk,
        }
    }

    /// The mode's name, as settings and the command line write it.
    pub fn chip(self) -> (r: &'static str)
        ensures
            r@ == self.name(),
    {
        match self {
            PermissionMode::Default => "default",
            PermissionMode::AcceptEdits => "acceptEdits",
            PermissionMode::Plan => "plan",
            PermissionMode::Auto => "auto",
            PermissionMode::DontAsk => "dontAsk",
            PermissionMode::BypassPermissions => "bypassPermissions",
        }
    }
}

/// Where a rule is kept.
#[derive(Debug, Clone, Copy, PartialEq, Eq, Structural)]
pub enum Scope {
    /// The running session only.
    Cli,
    Local,
    Project,
    User,
    /// Set by an administrator; read-only.
    Managed,
}

impl Scope {
    pub open spec fn name(self) -> Seq<char> {
        match self {
            Scope::Cli => "cli"@,
            Scope::Local => "local"@,
            Scope::Project => "project"@,
            Scope::User => "user"@,
            Scope::Managed => "managed"@,
        }
    }

    pub fn label(self) -> (r: &'static str)
        ensures
            r@ == self.name(),
    {
        match self {
            Scope::Cli => "cli",
            Scope::Local => "local",
            Scope::Project => "project",
            Scope::User => "user",
            Scope::Managed => "managed",
        }
    }
}

/// A rule of the running session.
#[derive(Debug)]
pub struct RuntimeRule<S = String> {
    pub pattern: S,
    pub action: Action,
}

pub open spec fn rule_view(r: RuntimeRule<String>) -> RuntimeRule<Seq<char>> {
    RuntimeRule { pattern: r.pattern@, action: r.action }
}

pub open spec fn rules_view(v: Seq<RuntimeRule<String>>) -> Seq<RuntimeRule<Seq<char>>> {
    Seq::new(v.len(), |i: int| rule_view(v[i]))
}

/// A rule as it was read from a settings layer. `path` is the file it stands
/// in; a rule given on the command line stands in none.
#[derive(Debug)]
pub struct FileRule<S = String, O = Option<String>> {
    pub pattern: S,
    pub action: Action,
    pub comment: O,
    pub scope: Scope,
    pub path: O,
    /// Position among the rules of its scope.
    pub index_in_scope: usize,
}

pub type FileRuleView = FileRule<Seq<char>, Option<Seq<char>>>;

impl View for FileRule<String, Option<String>> {
    type V = FileRule<Seq<char>, Option<Seq<char>>>;

    open spec fn view(&self) -> FileRule<Seq<char>, Option<Seq<char>>> {
        FileRule {
            pattern: self.pattern@,
            action: self.action,
            comment: opt_text(self.comment),
            scope: self.scope,
            path: opt_text(self.path),
            index_in_scope: self.index_in_scope,
        }
    }
}

pub open spec fn file_rules_view(v: Seq<FileRule>) -> Seq<FileRule<Seq<char>, Option<Seq<char>>>> {
    Seq::new(v.len(), |i: int| v[i]@)
}

/// A built-in rule.
#[derive(Debug)]
pub struct DefaultRule<S = String, O = Option<String>> {
    pub pattern: S,
    pub action: Action,
    pub comment: O,
}

pub type DefaultRuleView = DefaultRule<Seq<char>, Option<Seq<char>>>;

impl View for DefaultRule<String, Option<String>> {
    type V = DefaultRule<Seq<char>, Option<Seq<char>>>;

    open spec fn view(&self) -> DefaultRule<Seq<char>, Option<Seq<char>>> {
        DefaultRule {
            pattern: self.pattern@,
            action: self.action,
            comment: opt_text(self.comment),
        }
    }
}

pub open spec fn default_rules_view(v: Seq<DefaultRule>) -> Seq<
    DefaultRule<Seq<char>, Option<Seq<char>>>,
> {
    Seq::new(v.len(), |i: int| v[i]@)
}

/// The answer to a request for permission.
#[derive(Debug, Clone, Copy, PartialEq, Eq, Structural)]
pub enum AskResponse {
    AllowOnce,
    AlwaysAllow,
    Deny,
    AlwaysReject,
}

// ---------------------------------------------------------------------------
// Tool input
// ---------------------------------------------------------------------------

/// The value of one field of a tool's input.
#[derive(Debug, PartialEq, Eq)]
pub enum FieldValue<S = String> {
    /// A JSON string; what it holds.
    Text(S),
    /// Any other JSON value, as compact JSON.
    Other(S),
}

/// One field of a tool's input.
#[derive(Debug, PartialEq, Eq)]
pub struct Field<S = String> {
    pub key: S,
    pub value: FieldValue<S>,
}

impl View for Field<String> {
    type V = Field<Seq<char>>;

    open spec fn view(&self) -> Field<Seq<char>> {
        Field {
            key: self.key@,
            value: match self.value {
                FieldValue::Text(t) => FieldValue::Text(t@),
                FieldValue::Other(t) => FieldValue::Other(t@),
            },
        }
    }
}

pub open spec fn fields_view(v: Seq<Field<String>>) -> Seq<Field<Seq<char>>> {
    Seq::new(v.len(), |i: int| v[i]@)
}

/// The input of a tool call: a JSON object by its fields in the order in
/// which they are walked, or another JSON value.
#[derive(Debug)]
pub enum ToolInput<S = String, F = Vec<Field<String>>> {
    Object(F),
    Text(S),
    /// A number, a truth value, null or an array, as compact JSON.
    Other(S),
}

pub type ToolInputView = ToolInput<Seq<char>, Seq<Field<Seq<char>>>>;

impl View for ToolInput<String, Vec<Field<String>>> {
    type V = ToolInput<Seq<char>, Seq<Field<Seq<char>>>>;

    open spec fn view(&self) -> ToolInput<Seq<char>, Seq<Field<Seq<char>>>> {
        match self {
            ToolInput::Object(f) => ToolInput::Object(fields_view(f@)),
            ToolInput::Text(t) => ToolInput::Text(t@),
            ToolInput::Other(t) => ToolInput::Other(t@),
        }
    }
}

// ---------------------------------------------------------------------------
// Terminal events
// ---------------------------------------------------------------------------

#[derive(Debug, Clone, Copy, PartialEq, Eq, Structural)]
pub enum KeyCode {
    Char(char),
    Enter,
    Esc,
    Backspace,
    Delete,
    Left,
    Right,
    Up,
    Down,
    Home,
    End,
    PageUp,
    PageDown,
    Tab,
    BackTab,
    /// Any key that nothing is bound to.
    Other,
}

#[derive(Debug, Clone, Copy, PartialEq, Eq, Structural)]
pub struct KeyModifiers {
    pub control: bool,
    pub shift: bool,
    pub alt: bool,
    /// Any further modifier.
    pub other: bool,
}

#[derive(Debug, Clone, Copy, PartialEq, Eq, Structural)]
pub struct KeyEvent {
    pub code: KeyCode,
    pub modifiers: KeyModifiers,
}

pub open spec fn no_modifiers() -> KeyModifiers {
    KeyModifiers { control: false, shift: false, alt: false, other: false }
}

pub open spec fn control_only() -> KeyModifiers {
    KeyModifiers { control: true, shift: false, alt: false, other: false }
}

impl KeyModifiers {
    /// No modifier held.
    pub fn none() -> (r: KeyModifiers)
        ensures
            r == no_modifiers(),
    {
        KeyModifiers { control: false, shift: false, alt: false, other: false }
    }

    /// Control alone held.
    pub fn control() -> (r: KeyModifiers)
        ensures
            r == control_only(),
    {
        KeyModifiers { control: true, shift: false, alt: false, other: false }
    }

    /// Shift alone held.
    pub fn shift() -> (r: KeyModifiers)
        ensures
            r == (KeyModifiers { shift: true, ..no_modifiers() }),
    {
        KeyModifiers { control: false, shift: true, alt: false, other: false }
    }
}

impl KeyEvent {
    /// The key is the character `c`, with no modifier held.
    pub open spec fn plain_char(self, c: char) -> bool {
        self.code == KeyCode::Char(c) && self.modifiers == no_modifiers()
    }

    /// The key is the character `c`, with Control alone held.
    pub open spec fn ctrl_char(self, c: char) -> bool {
        self.code == KeyCode::Char(c) && self.modifiers == control_only()
    }

    pub fn is_plain(&self, c: char) -> (r: bool)
        ensures
            r == self.plain_char(c),
    {
        self.code == KeyCode::Char(c) && !self.modifiers.control && !self.modifiers.shift
            && !self.modifiers.alt && !self.modifiers.other
    }

    pub fn is_ctrl(&self, c: char) -> (r: bool)
        ensures
            r == self.ctrl_char(c),
    {
        self.code == KeyCode::Char(c) && self.modifiers.control && !self.modifiers.shift
            && !self.modifiers.alt && !self.modifiers.other
    }

    /// A key press.
    pub fn new(code: KeyCode, modifiers: KeyModifiers) -> (r: KeyEvent)
        ensures
            r.code == code,
            r.modifiers == modifiers,
    {
        KeyEvent { code, modifiers }
    }
}

#[derive(Debug, Clone, Copy, PartialEq, Eq, Structural)]
pub enum MouseButton {
    Left,
    Right,
    Middle,
}

#[derive(Debug, Clone, Copy, PartialEq, Eq, Structural)]
pub enum MouseEventKind {
    Down(MouseButton),
    Drag(MouseButton),
    Up(MouseButton),
    ScrollUp,
    ScrollDown,
    /// Movement without a button, and sideways scrolling.
    Other,
}

#[derive(Debug, Clone, Copy, PartialEq, Eq, Structural)]
pub struct MouseEvent {
    pub kind: MouseEventKind,
    pub column: u16,
    pub row: u16,
}

/// A rectangle of terminal cells.
#[derive(Debug, Clone, Copy, PartialEq, Eq, Structural)]
pub struct Rect {
    pub x: u16,
    pub y: u16,
    pub width: u16,
    pub height: u16,
}

// ---------------------------------------------------------------------------
// Laws
// ---------------------------------------------------------------------------

/// The texts among some blocks are those of the text blocks, all of them and
/// in their order.
pub proof fn law_texts_come_from_text_blocks(
    blocks: Seq<ContentBlock<Seq<char>, Seq<Seq<char>>>>,
    b: ContentBlock<Seq<char>, Seq<Seq<char>>>,
)
    ensures
        block_texts(Seq::<BlockView>::empty()).len() == 0,
        b matches ContentBlock::Text(t) ==> block_texts(blocks.push(b)) == block_texts(blocks).push(
            t,
        ),
        !(b is Text) ==> block_texts(blocks.push(b)) == block_texts(blocks),
{
    assert(blocks.push(b).drop_last() =~= blocks);
}

/// A message of one text has that text as its only block.
pub proof fn law_text_messages_hold_their_text(role: Role, text: Seq<char>)
    ensures
        text_message(role, text).role == role,
        text_message(role, text).content.len() == 1,
        text_message(role, text).content[0] == ContentBlock::<Seq<char>, Seq<Seq<char>>>::Text(text),
{
}

/// The modes follow each other from the default over accepting edits,
/// planning, deciding by itself and not asking to the one that asks for
/// nothing, and back again.
pub proof fn law_modes_stand_in_a_ring(m: PermissionMode)
    ensures
        m.after().before() == m,
        m.before().after() == m,
        PermissionMode::Default.after() == PermissionMode::AcceptEdits,
        PermissionMode::AcceptEdits.after() == PermissionMode::Plan,
        PermissionMode::Plan.after() == PermissionMode::Auto,
        PermissionMode::Auto.after() == PermissionMode::DontAsk,
        PermissionMode::DontAsk.after() == PermissionMode::BypassPermissions,
        PermissionMode::BypassPermissions.after() == PermissionMode::Default,
{
}

/// Modes and scopes go by the names that settings use.
pub proof fn law_modes_and_scopes_have_their_names()
    ensures
        PermissionMode::Default.name() == "default"@,
        PermissionMode::AcceptEdits.name() == "acceptEdits"@,
        PermissionMode::Plan.name() == "plan"@,
        PermissionMode::Auto.name() == "auto"@,
        PermissionMode::DontAsk.name() == "dontAsk"@,
        PermissionMode::BypassPermissions.name() == "bypassPermissions"@,
        Scope::Cli.name() == "cli"@,
        Scope::Local.name() == "local"@,
        Scope::Project.name() == "project"@,
        Scope::User.name() == "user"@,
        Scope::Managed.name() == "managed"@,
{
}

/// A plain character comes with no modifier, one with Control with no other.
pub proof fn law_modifiers_tell_keys_apart(key: KeyEvent, c: char)
    ensures
        key.plain_char(c) <==> key.code == KeyCode::Char(c) && !key.modifiers.control
            && !key.modifiers.shift && !key.modifiers.alt && !key.modifiers.other,
        key.ctrl_char(c) <==> key.code == KeyCode::Char(c) && key.modifiers.control
            && !key.modifiers.shift && !key.modifiers.alt && !key.modifiers.other,
{
}

/// What stands for a list of messages, blocks, fields or rules holds each of
/// them at its place.
pub proof fn law_views_keep_every_place(
    messages: Seq<Message>,
    blocks: Seq<ContentBlock>,
    fields: Seq<Field<String>>,
    rules: Seq<RuntimeRule<String>>,
)
    ensures
        messages_view(messages).len() == messages.len(),
        forall|i: int|
            0 <= i < messages.len() ==> (#[trigger] messages_view(messages)[i]).role
                == messages[i].role && messages_view(messages)[i].content == blocks_view(
                messages[i].content@,
            ),
        blocks_view(blocks).len() == blocks.len(),
        forall|i: int|
            0 <= i < blocks.len() ==> match blocks[i] {
                ContentBlock::Text(t) => #[trigger] blocks_view(blocks)[i]
                    == ContentBlock::<Seq<char>, Seq<Seq<char>>>::Text(t@),
                ContentBlock::ToolUse { id, name, input } => blocks_view(blocks)[i]
                    == ContentBlock::<Seq<char>, Seq<Seq<char>>>::ToolUse {
                    id: id@,
                    name: name@,
                    input: input@,
                },
                ContentBlock::ToolResult { tool_use_id, texts: ts, is_error } => blocks_view(
                    blocks,
                )[i] == ContentBlock::<Seq<char>, Seq<Seq<char>>>::ToolResult {
                    tool_use_id: tool_use_id@,
                    texts: texts(ts@),
                    is_error,
                },
                ContentBlock::Thinking(t) => blocks_view(blocks)[i]
                    == ContentBlock::<Seq<char>, Seq<Seq<char>>>::Thinking(t@),
                ContentBlock::Image(_) => blocks_view(blocks)[i] is Image,
            },
        fields_view(fields).len() == fields.len(),
        forall|i: int|
            0 <= i < fields.len() ==> (#[trigger] fields_view(fields)[i]).key == fields[i].key@ && (
            match fields[i].value {
                FieldValue::Text(t) => fields_view(fields)[i].value == FieldValue::Text(t@),
                FieldValue::Other(t) => fields_view(fields)[i].value == FieldValue::Other(t@),
            }),
        rules_view(rules).len() == rules.len(),
        forall|i: int|
            0 <= i < rules.len() ==> (#[trigger] rules_view(rules)[i]).pattern == rules[i].pattern@
                && rules_view(rules)[i].action == rules[i].action,
{
}

} // verus!
