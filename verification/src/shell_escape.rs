//! `!cmd`: running a shell command from the prompt through the same
//! permission stack as a tool call of the model.

use vstd::prelude::*;

use crate::text::{cat2, chars_of, opt_text, prefix, string_of, take_chars, trim, trim_text};
use crate::types::{blocks_view, BlockView, ContentBlock};

verus! {

/// Whether a line is a shell command.
#[derive(Debug, PartialEq, Eq)]
pub enum ShellEscapeIntent<S = String> {
    /// Run this command.
    Run(S),
    /// Treat the line like any other.
    NotShellEscape,
}

/// `s` without the blanks and tabs at its start.
pub open spec fn unindented(s: Seq<char>) -> Seq<char>
    decreases s.len(),
{
    if s.len() > 0 && (s[0] == ' ' || s[0] == '\t') {
        unindented(s.drop_first())
    } else {
        s
    }
}

/// What a line asks for: after any indent it starts with `!`, holds no line
/// feed, and has a command behind the mark.
pub open spec fn intent(buffer: Seq<char>) -> ShellEscapeIntent<Seq<char>> {
    let t = unindented(buffer);
    if t.len() > 0 && t[0] == '!' && !t.contains('\n') && trim(t.skip(1)).len() > 0 {
        ShellEscapeIntent::Run(trim(t.skip(1)))
    } else {
        ShellEscapeIntent::NotShellEscape
    }
}

pub open spec fn intent_view(i: ShellEscapeIntent<String>) -> ShellEscapeIntent<Seq<char>> {
    match i {
        ShellEscapeIntent::Run(s) => ShellEscapeIntent::Run(s@),
        ShellEscapeIntent::NotShellEscape => ShellEscapeIntent::NotShellEscape,
    }
}

pub fn parse_shell_escape(buffer: &str) -> (r: ShellEscapeIntent)
    ensures
        intent_view(r) == intent(buffer@),
{
    let cs = chars_of(buffer);
    let mut a: usize = 0;
    assert(cs@.skip(0) =~= cs@);
    while a < cs.len() && (cs[a] == ' ' || cs[a] == '\t')
        invariant
            a <= cs@.len(),
            unindented(cs@.skip(a as int)) == unindented(buffer@),
        decreases cs@.len() - a,
    {
        assert(cs@.skip(a as int).drop_first() =~= cs@.skip(a + 1));
        a = a + 1;
    }
    let ghost t = cs@.skip(a as int);
    if a >= cs.len() || cs[a] != '!' {
        return ShellEscapeIntent::NotShellEscape;
    }
    let mut i: usize = a;
    while i < cs.len()
        invariant
            a <= i <= cs@.len(),
            a < cs@.len(),
            t == cs@.skip(a as int),
            t == unindented(buffer@),
            forall|k: int| a <= k < i ==> #[trigger] cs@[k] != '\n',
        decreases cs@.len() - i,
    {
        if cs[i] == '\n' {
            assert(t[i - a] == '\n');
            return ShellEscapeIntent::NotShellEscape;
        }
        i = i + 1;
    }
    assert(!t.contains('\n')) by {
        assert forall|k: int| 0 <= k < t.len() implies t[k] != '\n' by {
            assert(cs@[a + k] != '\n');
        }
    }
    let rest = string_of(&cs, a + 1, cs.len());
    assert(cs@.subrange(a + 1, cs@.len() as int) =~= t.skip(1));
    let cmd = trim_text(rest.as_str());
    if cmd.as_str().is_empty() {
        ShellEscapeIntent::NotShellEscape
    } else {
        ShellEscapeIntent::Run(cmd)
    }
}

// ---------------------------------------------------------------------------
// The synthetic call
// ---------------------------------------------------------------------------

/// A number for some bytes: each step multiplies by 31 and adds a byte,
/// modulo two to the sixty-fourth.
pub open spec fn byte_hash(bytes: Seq<u8>) -> nat
    decreases bytes.len(),
{
    if bytes.len() == 0 {
        0
    } else {
        (byte_hash(bytes.drop_last()) * 31 + bytes.last() as nat) % 0x1_0000_0000_0000_0000
    }
}

/// Whether a character is a hexadecimal digit in lower case.
pub open spec fn is_hex(c: char) -> bool {
    '0' <= c <= '9' || 'a' <= c <= 'f'
}

/// The hexadecimal digit of a value below sixteen, in lower case.
pub open spec fn hex_digit(d: nat) -> char {
    if d < 10 {
        ((0x30 + d) as u32) as char
    } else {
        ((0x61 + (d - 10)) as u32) as char
    }
}

/// The last `k` hexadecimal digits of `n`.
pub open spec fn hex(n: nat, k: nat) -> Seq<char>
    decreases k,
{
    if k == 0 {
        Seq::empty()
    } else {
        hex(n / 16, (k - 1) as nat).push(hex_digit(n % 16))
    }
}

fn hex_char(d: u64) -> (c: char)
    requires
        d < 16,
    ensures
        c == hex_digit(d as nat),
{
    if d < 10 {
        (0x30u8 + d as u8) as char
    } else {
        (0x61u8 + (d as u8 - 10u8)) as char
    }
}

fn hex_digits(n: u64, k: u8) -> (out: String)
    ensures
        out@ == hex(n as nat, k as nat),
    decreases k,
{
    if k == 0 {
        String::new()
    } else {
        let mut out = hex_digits(n / 16, k - 1);
        out.push(hex_char(n % 16));
        out
    }
}

proof fn lemma_hex(n: nat, k: nat)
    ensures
        hex(n, k).len() == k,
        forall|i: int| 0 <= i < k ==> is_hex(#[trigger] hex(n, k)[i]),
    decreases k,
{
    if k > 0 {
        lemma_hex(n / 16, (k - 1) as nat);
        let h = hex(n, k);
        assert forall|i: int| 0 <= i < k implies is_hex(#[trigger] h[i]) by {
            if i < k - 1 {
                assert(h[i] == hex(n / 16, (k - 1) as nat)[i]);
            }
        }
    }
}

/// Digits of an identifier.
pub const ID_DIGITS: usize = 8;

/// The identifier for a seed: the first digits of its number, written with
/// sixteen.
pub open spec fn seed_id(seed: Seq<char>) -> Seq<char> {
    prefix(hex(byte_hash(vstd::utf8::encode_utf8(seed)), 16), ID_DIGITS as int)
}

/// An identifier for a seed: eight hexadecimal digits in lower case.
pub fn uuid_like_id(seed: &str) -> (out: String)
    ensures
        out@ == seed_id(seed@),
        out@.len() == ID_DIGITS,
        forall|i: int| 0 <= i < out@.len() ==> is_hex(#[trigger] out@[i]),
{
    let bytes = seed.as_bytes();
    let n: usize = bytes.len();
    let mut h: u64 = 0;
    let mut i: usize = 0;
    assert(bytes@.take(0) =~= Seq::<u8>::empty());
    while i < n
        invariant
            i <= n == bytes@.len(),
            h == byte_hash(bytes@.take(i as int)),
        decreases n - i,
    {
        let wide: u128 = (h as u128) * 31 + bytes[i] as u128;
        h = (wide % 0x1_0000_0000_0000_0000) as u64;
        i = i + 1;
        assert(bytes@.take(i as int).drop_last() =~= bytes@.take(i - 1));
    }
    assert(bytes@.take(bytes@.len() as int) =~= bytes@);
    let all = hex_digits(h, 16);
    proof {
        lemma_hex(h as nat, 16);
    }
    take_chars(all.as_str(), ID_DIGITS)
}

/// The identifier that the call of a command goes by.
pub open spec fn call_id(command: Seq<char>) -> Seq<char> {
    "shell-escape-"@ + seed_id(command)
}

pub fn shell_call_id(command: &str) -> (out: String)
    ensures
        out@ == call_id(command@),
{
    cat2("shell-escape-", uuid_like_id(command).as_str())
}

// ---------------------------------------------------------------------------
// The outcome
// ---------------------------------------------------------------------------

/// What came of a command.
#[derive(Debug)]
pub struct ShellEscapeOutcome<S = String, O = Option<String>> {
    /// The command, without its mark.
    pub command: S,
    /// What it printed.
    pub output: S,
    pub is_error: bool,
    /// A permission rule stood in the way.
    pub denied: bool,
    pub message: O,
}

pub type OutcomeView = ShellEscapeOutcome<Seq<char>, Option<Seq<char>>>;

impl View for ShellEscapeOutcome<String, Option<String>> {
    type V = ShellEscapeOutcome<Seq<char>, Option<Seq<char>>>;

    open spec fn view(&self) -> ShellEscapeOutcome<Seq<char>, Option<Seq<char>>> {
        ShellEscapeOutcome {
            command: self.command@,
            output: self.output@,
            is_error: self.is_error,
            denied: self.denied,
            message: opt_text(self.message),
        }
    }
}

/// What the permission hooks said of the call.
#[derive(Debug)]
pub enum HookVerdict<S = String> {
    Allow,
    /// Allowed with another input, which a shell command does not take up.
    UpdatedInput,
    Deny(S),
    Failed(S),
}

/// What the shell tool answered.
#[derive(Debug)]
pub enum ToolReply<S = String, B = Vec<ContentBlock>> {
    /// No shell tool is registered.
    Missing,
    Blocks(B),
    Cancelled,
    Failed(S),
}

/// A command that failed with a message.
pub open spec fn failed(command: Seq<char>, denied: bool, message: Seq<char>) -> OutcomeView {
    ShellEscapeOutcome {
        command,
        output: Seq::empty(),
        is_error: true,
        denied,
        message: Some(message),
    }
}

fn failure(command: &str, denied: bool, message: &str) -> (r: ShellEscapeOutcome)
    ensures
        r@ == failed(command@, denied, message@),
{
    ShellEscapeOutcome {
        command: String::from_str(command),
        output: String::new(),
        is_error: true,
        denied,
        message: Some(String::from_str(message)),
    }
}

/// What the hooks' word means for the command: nothing where it may run.
pub open spec fn hook_outcome(command: Seq<char>, verdict: HookVerdict<Seq<char>>) -> Option<
    OutcomeView,
> {
    match verdict {
        HookVerdict::Allow => None,
        HookVerdict::UpdatedInput => None,
        HookVerdict::Deny(msg) => Some(failed(command, true, msg)),
        HookVerdict::Failed(e) => Some(failed(command, false, "hook error: "@ + e)),
    }
}

pub open spec fn verdict_view(v: HookVerdict<String>) -> HookVerdict<Seq<char>> {
    match v {
        HookVerdict::Allow => HookVerdict::Allow,
        HookVerdict::UpdatedInput => HookVerdict::UpdatedInput,
        HookVerdict::Deny(s) => HookVerdict::Deny(s@),
        HookVerdict::Failed(s) => HookVerdict::Failed(s@),
    }
}

/// The outcome where the hooks end the matter.
pub fn shell_after_hook(command: &str, verdict: &HookVerdict) -> (r: Option<ShellEscapeOutcome>)
    ensures
        match r {
            Some(o) => hook_outcome(command@, verdict_view(*verdict)) == Some(o@),
            None => hook_outcome(command@, verdict_view(*verdict)) is None,
        },
{
    match verdict {
        HookVerdict::Allow => None,
        HookVerdict::UpdatedInput => None,
        HookVerdict::Deny(msg) => Some(failure(command, true, msg.as_str())),
        HookVerdict::Failed(e) => Some(
            failure(command, false, cat2("hook error: ", e.as_str()).as_str()),
        ),
    }
}

/// The text blocks strung together, with a line feed before each once there
/// is any text.
pub open spec fn collected(blocks: Seq<BlockView>) -> Seq<char>
    decreases blocks.len(),
{
    if blocks.len() == 0 {
        Seq::empty()
    } else {
        let before = collected(blocks.drop_last());
        match blocks.last() {
            ContentBlock::Text(t) => if before.len() > 0 {
                before.push('\n') + t
            } else {
                before + t
            },
            _ => before,
        }
    }
}

pub fn collect_text(blocks: &Vec<ContentBlock>) -> (out: String)
    ensures
        out@ == collected(blocks_view(blocks@)),
{
    let ghost all = blocks_view(blocks@);
    let mut out = String::new();
    let mut i: usize = 0;
    while i < blocks.len()
        invariant
            i <= blocks@.len(),
            all == blocks_view(blocks@),
            out@ == collected(all.take(i as int)),
        decreases blocks@.len() - i,
    {
        assert(all.take(i + 1).drop_last() =~= all.take(i as int));
        assert(all.take(i + 1).last() == blocks@[i as int]@);
        match &blocks[i] {
            ContentBlock::Text(t) => {
                if !out.as_str().is_empty() {
                    out.push('\n');
                }
                out.append(t.as_str());
            },
            _ => {},
        }
        i = i + 1;
    }
    assert(all.take(all.len() as int) =~= all);
    out
}

/// What the tool's answer means for the command.
pub open spec fn reply_outcome(command: Seq<char>, reply: ToolReply<Seq<char>, Seq<BlockView>>) -> OutcomeView {
    match reply {
        ToolReply::Missing => failed(command, false, "Bash tool not registered"@),
        ToolReply::Blocks(b) => ShellEscapeOutcome {
            command,
            output: collected(b),
            is_error: false,
            denied: false,
            message: None,
        },
        ToolReply::Cancelled => failed(command, false, "cancelled"@),
        ToolReply::Failed(e) => failed(command, false, "error: "@ + e),
    }
}

pub open spec fn reply_view(r: ToolReply<String, Vec<ContentBlock>>) -> ToolReply<
    Seq<char>,
    Seq<BlockView>,
> {
    match r {
        ToolReply::Missing => ToolReply::Missing,
        ToolReply::Blocks(b) => ToolReply::Blocks(blocks_view(b@)),
        ToolReply::Cancelled => ToolReply::Cancelled,
        ToolReply::Failed(e) => ToolReply::Failed(e@),
    }
}

/// The outcome of a command that was allowed to run.
pub fn shell_after_tool(command: &str, reply: &ToolReply) -> (r: ShellEscapeOutcome)
    ensures
        r@ == reply_outcome(command@, reply_view(*reply)),
{
    match reply {
        ToolReply::Missing => failure(command, false, "Bash tool not registered"),
        ToolReply::Blocks(b) => ShellEscapeOutcome {
            command: String::from_str(command),
            output: collect_text(b),
            is_error: false,
            denied: false,
            message: None,
        },
        ToolReply::Cancelled => failure(command, false, "cancelled"),
        ToolReply::Failed(e) => failure(command, false, cat2("error: ", e.as_str()).as_str()),
    }
}

// ---------------------------------------------------------------------------
// Laws
// ---------------------------------------------------------------------------

/// A denied command never runs: it has an outcome before the tool is asked,
/// marked as denied and as an error, with nothing printed.
pub proof fn law_denied_commands_do_not_run(command: Seq<char>, msg: Seq<char>)
    ensures
        hook_outcome(command, HookVerdict::Deny(msg)) is Some,
        hook_outcome(command, HookVerdict::Deny(msg))->0.denied,
        hook_outcome(command, HookVerdict::Deny(msg))->0.is_error,
        hook_outcome(command, HookVerdict::Deny(msg))->0.output == Seq::<char>::empty(),
{
}

proof fn lemma_unindented(indent: Seq<char>, s: Seq<char>)
    requires
        forall|i: int| 0 <= i < indent.len() ==> #[trigger] indent[i] == ' ' || indent[i] == '\t',
        s.len() > 0 ==> s[0] != ' ' && s[0] != '\t',
    ensures
        unindented(indent + s) == s,
    decreases indent.len(),
{
    if indent.len() > 0 {
        assert((indent + s)[0] == indent[0]);
        assert(indent[0] == ' ' || indent[0] == '\t');
        let rest = indent.drop_first();
        assert((indent + s).drop_first() =~= rest + s);
        assert forall|i: int| 0 <= i < rest.len() implies #[trigger] rest[i] == ' ' || rest[i]
            == '\t' by {
            assert(rest[i] == indent[i + 1]);
        }
        lemma_unindented(rest, s);
    } else {
        assert(indent + s =~= s);
    }
}

/// A line of a bang and a command, indented or not, asks for that command,
/// trimmed; a bang alone, a line of several lines, and a line that starts
/// with anything else ask for none.
pub proof fn law_a_bang_asks_for_the_command(indent: Seq<char>, rest: Seq<char>, c: char)
    requires
        forall|i: int| 0 <= i < indent.len() ==> #[trigger] indent[i] == ' ' || indent[i] == '\t',
        c != '!',
        c != ' ',
        c != '\t',
    ensures
        !rest.contains('\n') && trim(rest).len() > 0 ==> intent(indent + seq!['!'] + rest)
            == ShellEscapeIntent::Run(trim(rest)),
        rest.contains('\n') || trim(rest).len() == 0 ==> intent(indent + seq!['!'] + rest) is NotShellEscape,
        intent(indent + seq![c] + rest) is NotShellEscape,
        intent(indent) is NotShellEscape,
{
    let t = seq!['!'] + rest;
    assert(indent + seq!['!'] + rest =~= indent + t);
    lemma_unindented(indent, t);
    assert(t.skip(1) =~= rest);
    assert(t.contains('\n') == rest.contains('\n')) by {
        if t.contains('\n') {
            let k = t.index_of('\n');
            assert(t[k] == '\n');
            assert(rest[k - 1] == '\n');
        }
        if rest.contains('\n') {
            let k = rest.index_of('\n');
            assert(rest[k] == '\n');
            assert(t[k + 1] == '\n');
        }
    }
    let u = seq![c] + rest;
    assert(indent + seq![c] + rest =~= indent + u);
    lemma_unindented(indent, u);
    assert(indent + Seq::<char>::empty() =~= indent);
    lemma_unindented(indent, Seq::<char>::empty());
}

/// The number of some bytes grows with each of them: thirty-one times the
/// number before, and the byte, within sixty-four bits.
pub proof fn law_hashes_add_byte_by_byte(bytes: Seq<u8>, b: u8)
    ensures
        byte_hash(Seq::<u8>::empty()) == 0,
        byte_hash(bytes.push(b)) == (byte_hash(bytes) * 31 + b) % 0x1_0000_0000_0000_0000,
{
    assert(bytes.push(b).drop_last() =~= bytes);
}

/// What hexadecimal digits stand for.
pub open spec fn hex_value(s: Seq<char>) -> nat
    decreases s.len(),
{
    if s.len() == 0 {
        0
    } else {
        let c = s.last();
        (hex_value(s.drop_last()) * 16 + (if '0' <= c <= '9' {
            c as int - 48
        } else {
            c as int - 87
        })) as nat
    }
}

/// A number reads back from its hexadecimal digits, as far as they go.
pub proof fn law_hexadecimals_read_back(n: nat, k: nat)
    ensures
        hex(n, k).len() == k,
        forall|i: int|
            0 <= i < k ==> {
                let c = #[trigger] hex(n, k)[i];
                '0' <= c <= '9' || 'a' <= c <= 'f'
            },
        n < vstd::arithmetic::power::pow(16, k) ==> hex_value(hex(n, k)) == n,
    decreases k,
{
    lemma_hex(n, k);
    if k > 0 {
        let front = hex(n / 16, (k - 1) as nat);
        law_hexadecimals_read_back(n / 16, (k - 1) as nat);
        assert(hex(n, k).drop_last() =~= front);
        let d = n % 16;
        assert(hex_digit(d) as int == (if d < 10 {
            0x30int + d
        } else {
            0x61int + d - 10
        }));
        if n < vstd::arithmetic::power::pow(16, k) {
            reveal(vstd::arithmetic::power::pow);
            assert(vstd::arithmetic::power::pow(16, k) == 16 * vstd::arithmetic::power::pow(
                16,
                (k - 1) as nat,
            ));
            let p = vstd::arithmetic::power::pow(16, (k - 1) as nat);
            assert(n / 16 < p);
        }
    } else {
        reveal(vstd::arithmetic::power::pow);
    }
}

/// A call goes by the first eight of the sixteen digits of its command's
/// number, behind a name of its own; the same command always by the same.
pub proof fn law_calls_are_named_by_their_command(command: Seq<char>)
    ensures
        ({
            let digits = hex(byte_hash(vstd::utf8::encode_utf8(command)), 16);
            &&& digits.len() == 16
            &&& call_id(command) == "shell-escape-"@ + digits.take(8)
        }),
{
    lemma_hex(byte_hash(vstd::utf8::encode_utf8(command)), 16);
}

/// The hooks end the matter where they deny the command, with their word, or
/// fail, with their error; where they allow it, the tool is asked.
pub proof fn law_hooks_end_the_matter_or_not(command: Seq<char>, verdict: HookVerdict<Seq<char>>)
    ensures
        ({
            let o = hook_outcome(command, verdict);
            &&& o is None <==> verdict is Allow || verdict is UpdatedInput
            &&& o matches Some(x) ==> x.command == command && x.is_error && x.output.len() == 0
                && x.denied == (verdict is Deny)
            &&& verdict matches HookVerdict::Deny(m) ==> o->0.message == Some(m)
            &&& verdict matches HookVerdict::Failed(e) ==> o->0.message == Some(
                "hook error: "@ + e,
            )
        }),
{
}

/// The tool's answer is the command's output; where there is no tool, or it
/// was cancelled or failed, that is an error which says so, and no denial.
pub proof fn law_answers_become_outcomes(
    command: Seq<char>,
    reply: ToolReply<Seq<char>, Seq<BlockView>>,
)
    ensures
        ({
            let o = reply_outcome(command, reply);
            &&& o.command == command
            &&& !o.denied
            &&& o.is_error <==> !(reply is Blocks)
            &&& reply matches ToolReply::Blocks(b) ==> o.output == collected(b) && o.message is None
            &&& !(reply is Blocks) ==> o.output.len() == 0
            &&& reply is Missing ==> o.message == Some("Bash tool not registered"@)
            &&& reply is Cancelled ==> o.message == Some("cancelled"@)
            &&& reply matches ToolReply::Failed(e) ==> o.message == Some("error: "@ + e)
        }),
{
}

/// The output is the text blocks one behind the other, with a line feed
/// between a text and what stands before it, where anything does; other
/// blocks leave nothing.
pub proof fn law_output_is_the_text_blocks(blocks: Seq<BlockView>, b: BlockView)
    ensures
        collected(Seq::<BlockView>::empty()).len() == 0,
        b matches ContentBlock::Text(t) ==> collected(blocks.push(b)) == (if collected(
            blocks,
        ).len() == 0 {
            t
        } else {
            collected(blocks) + seq!['\n'] + t
        }),
        !(b is Text) ==> collected(blocks.push(b)) == collected(blocks),
{
    assert(blocks.push(b).drop_last() =~= blocks);
    if let ContentBlock::Text(t) = b {
        if collected(blocks).len() == 0 {
            assert(collected(blocks) + t =~= t);
        } else {
            assert(collected(blocks).push('\n') + t =~= collected(blocks) + seq!['\n'] + t);
        }
    }
}

} // verus!
