//! Slash commands: usage, context and diagnostics.

use vstd::prelude::*;

use crate::slash::{
    register_all, registered_all, Command, SlashCommand, SlashCommandMeta, SlashCommandRegistry,
};
use crate::app::{App, AppView, SessionView, TranscriptLine};
use crate::effect::{effects_view, just, nothing, Effect, EffectView};
use crate::order::{
    descending, descending_order, law_order_descends, law_order_lists_each_position_once,
};
use crate::slash::cost::{costs_view, CostBreakdown, ModelCost};
use crate::text::{
    cat2, cat3, cat4, cat5, contains, contains_text, count_chars, decimal, decimal_u64,
    decimal_usize, first_line, first_line_of, pad_left, pad_right, padded_left, padded_right,
    prefix, push_text, take_chars, texts,
};
use crate::types::{
    blocks_view, clone_messages, messages_view, BlockView, ContentBlock, Message, MessageView,
};

verus! {

/// The commands of this group, in the order in which they register.
pub open spec fn commands() -> Seq<SlashCommand> {
    seq![
        SlashCommand {
            meta: SlashCommandMeta {
                name: "/usage",
                description: "show token + cost usage for this session",
                args_hint: "",
                hidden: false,
                immediate: true,
            },
            command: Command::Usage,
        },
        SlashCommand {
            meta: SlashCommandMeta {
                name: "/context",
                description: "show context window utilization + top-N largest blocks",
                args_hint: "",
                hidden: false,
                immediate: true,
            },
            command: Command::Context,
        },
        SlashCommand {
            meta: SlashCommandMeta {
                name: "/compact",
                description: "trigger the configured compactor; reports dropped/summarized count",
                args_hint: "",
                hidden: false,
                immediate: false,
            },
            command: Command::Compact,
        },
        SlashCommand {
            meta: SlashCommandMeta {
                name: "/doctor",
                description: "run startup-time health checks (skills, hooks, MCP, auth)",
                args_hint: "",
                hidden: false,
                immediate: true,
            },
            command: Command::Doctor,
        },
        SlashCommand {
            meta: SlashCommandMeta {
                name: "/system",
                description: "view the active system prompt",
                args_hint: "",
                hidden: true,
                immediate: true,
            },
            command: Command::System,
        },
    ]
}

/// Registers the commands of this group.
pub fn register(registry: &mut SlashCommandRegistry)
    requires
        old(registry).wf(),
    ensures
        final(registry).wf(),
        final(registry)@ == registered_all(old(registry)@, commands()),
{
    let mut cmds: Vec<SlashCommand> = Vec::new();
    cmds.push(
        SlashCommand {
            meta: SlashCommandMeta {
                name: "/usage",
                description: "show token + cost usage for this session",
                args_hint: "",
                hidden: false,
                immediate: true,
            },
            command: Command::Usage,
        },
    );
    cmds.push(
        SlashCommand {
            meta: SlashCommandMeta {
                name: "/context",
                description: "show context window utilization + top-N largest blocks",
                args_hint: "",
                hidden: false,
                immediate: true,
            },
            command: Command::Context,
        },
    );
    cmds.push(
        SlashCommand {
            meta: SlashCommandMeta {
                name: "/compact",
                description: "trigger the configured compactor; reports dropped/summarized count",
                args_hint: "",
                hidden: false,
                immediate: false,
            },
            command: Command::Compact,
        },
    );
    cmds.push(
        SlashCommand {
            meta: SlashCommandMeta {
                name: "/doctor",
                description: "run startup-time health checks (skills, hooks, MCP, auth)",
                args_hint: "",
                hidden: false,
                immediate: true,
            },
            command: Command::Doctor,
        },
    );
    cmds.push(
        SlashCommand {
            meta: SlashCommandMeta {
                name: "/system",
                description: "view the active system prompt",
                args_hint: "",
                hidden: true,
                immediate: true,
            },
            command: Command::System,
        },
    );
    assert(cmds@ =~= commands());
    register_all(registry, cmds);
}

// ---------------------------------------------------------------------------
// /usage
// ---------------------------------------------------------------------------

pub open spec fn usage_row(m: ModelCost<Seq<char>>) -> Seq<char> {
    "    "@ + m.provider + "/"@ + m.model + "  in "@ + decimal(m.input_tokens as nat) + "  out "@
        + decimal(m.output_tokens as nat) + "  cache_r "@ + decimal(m.cache_read_tokens as nat)
        + "  cache_w "@ + decimal(m.cache_creation_tokens as nat) + "  $"@ + m.usd_rounded
}

/// The total, one row for each model, and what the cache saved.
pub open spec fn usage_text(c: CostBreakdown) -> Seq<Seq<char>> {
    let head = seq!["usage \u{2014} total $"@ + c.total_rounded@];
    let rows = costs_view(c.by_model@);
    let listed = if rows.len() == 0 {
        head.push("  (no provider calls yet this session)"@)
    } else {
        head.push("  by model:"@) + Seq::new(rows.len(), |i: int| usage_row(rows[i]))
    };
    if c.cache_savings.mantissa > 0 {
        listed.push("  cache savings vs no-cache: $"@ + c.cache_savings_rounded@)
    } else {
        listed
    }
}

fn usage_line(m: &ModelCost) -> (r: String)
    ensures
        r@ == usage_row(m@),
{
    let mut s = cat4("    ", m.provider.as_str(), "/", m.model.as_str());
    s.append("  in ");
    s.append(decimal_u64(m.input_tokens).as_str());
    s.append("  out ");
    s.append(decimal_u64(m.output_tokens).as_str());
    s.append("  cache_r ");
    s.append(decimal_u64(m.cache_read_tokens).as_str());
    s.append("  cache_w ");
    s.append(decimal_u64(m.cache_creation_tokens).as_str());
    s.append("  $");
    s.append(m.usd_rounded.as_str());
    s
}

pub fn format_usage_lines(c: &CostBreakdown) -> (out: Vec<String>)
    ensures
        texts(out@) == usage_text(*c),
{
    let mut out: Vec<String> = Vec::new();
    assert(texts(out@) =~= Seq::<Seq<char>>::empty());
    push_text(&mut out, cat2("usage \u{2014} total $", c.total_rounded.as_str()));
    let ghost all = costs_view(c.by_model@);
    let ghost rows = Seq::new(all.len(), |i: int| usage_row(all[i]));
    if c.by_model.len() == 0 {
        push_text(&mut out, String::from_str("  (no provider calls yet this session)"));
    } else {
        push_text(&mut out, String::from_str("  by model:"));
        let ghost head = texts(out@);
        let mut i: usize = 0;
        assert(head =~= head + rows.take(0));
        while i < c.by_model.len()
            invariant
                i <= c.by_model@.len(),
                all == costs_view(c.by_model@),
                rows == Seq::new(all.len(), |i: int| usage_row(all[i])),
                texts(out@) == head + rows.take(i as int),
            decreases c.by_model@.len() - i,
        {
            assert(all[i as int] == c.by_model@[i as int]@);
            push_text(&mut out, usage_line(&c.by_model[i]));
            i = i + 1;
            assert(rows.take(i as int) =~= rows.take(i - 1).push(rows[i - 1]));
            assert((head + rows.take(i - 1)).push(rows[i - 1]) =~= head + rows.take(i as int));
        }
        assert(rows.take(rows.len() as int) =~= rows);
    }
    if c.cache_savings.mantissa > 0 {
        push_text(
            &mut out,
            cat2("  cache savings vs no-cache: $", c.cache_savings_rounded.as_str()),
        );
    }
    out
}

pub open spec fn session_text(s: SessionView) -> Seq<char> {
    "  session "@ + s.name + " \u{2014} "@ + decimal(s.turn_count as nat) + " turns, "@ + decimal(
        s.input_tokens as nat,
    ) + " input + "@ + decimal(s.output_tokens as nat) + " output tokens"@
}

/// The answer to `/usage`: the costs, and what the session took.
pub open spec fn usage_report(c: CostBreakdown, session: Option<SessionView>) -> Seq<Seq<char>> {
    match session {
        Some(s) => usage_text(c).push(session_text(s)),
        None => usage_text(c),
    }
}

pub fn render_usage_lines(app: &App, c: &CostBreakdown) -> (out: Vec<String>)
    ensures
        texts(out@) == usage_report(*c, app@.session),
{
    let mut out = format_usage_lines(c);
    if let Some(s) = &app.session {
        let mut line = cat4(
            "  session ",
            s.name.as_str(),
            " \u{2014} ",
            decimal_usize(s.turn_count).as_str(),
        );
        line.append(" turns, ");
        line.append(decimal_u64(s.input_tokens as u64).as_str());
        line.append(" input + ");
        line.append(decimal_u64(s.output_tokens as u64).as_str());
        line.append(" output tokens");
        push_text(&mut out, line);
    }
    out
}

// ---------------------------------------------------------------------------
// /context
// ---------------------------------------------------------------------------

/// The tokens that one sort of message takes.
#[derive(Debug)]
pub struct ContextBin<S = String> {
    pub label: S,
    pub tokens: u64,
}

/// How full the context window is. `utilization_bp` is in hundredths of a
/// percent.
#[derive(Debug)]
pub struct ContextUsage {
    pub capacity: u64,
    pub used: u64,
    pub utilization_bp: u16,
    pub bins: Vec<ContextBin>,
}

pub open spec fn bins_view(v: Seq<ContextBin<String>>) -> Seq<ContextBin<Seq<char>>> {
    Seq::new(v.len(), |i: int| ContextBin { label: v[i].label@, tokens: v[i].tokens })
}

/// The bins that hold anything.
pub open spec fn filled_bins(bins: Seq<ContextBin<Seq<char>>>) -> Seq<ContextBin<Seq<char>>>
    decreases bins.len(),
{
    if bins.len() == 0 {
        bins
    } else {
        let before = filled_bins(bins.drop_last());
        if bins.last().tokens > 0 {
            before.push(bins.last())
        } else {
            before
        }
    }
}

pub open spec fn bin_tokens(bins: Seq<ContextBin<Seq<char>>>) -> Seq<u64> {
    Seq::new(bins.len(), |i: int| bins[i].tokens)
}

/// One row for each bin that holds anything, the fullest first.
pub open spec fn bin_rows(bins: Seq<ContextBin<Seq<char>>>) -> Seq<Seq<char>> {
    let f = filled_bins(bins);
    let order = descending(bin_tokens(f));
    Seq::new(
        f.len(),
        |i: int|
            "  "@ + pad_right(f[order[i]].label, 18) + " "@ + pad_left(
                decimal(f[order[i]].tokens as nat),
                8,
            ),
    )
}

/// How full the window is, what fills it, and a warning from four fifths on.
pub open spec fn context_text(u: ContextUsage) -> Seq<Seq<char>> {
    let bins = bins_view(u.bins@);
    let pct = u.utilization_bp as nat / 100;
    if u.capacity == 0 {
        seq![
            "context window \u{2014} no capacity reported by provider (start a turn first)"@,
        ]
    } else {
        let head = seq![
            "context window \u{2014} "@ + decimal(u.capacity as nat) + "-token window, "@ + decimal(
                pct,
            ) + "% used ("@ + decimal(u.used as nat) + " of "@ + decimal(u.capacity as nat) + ")"@,
        ] + bin_rows(bins);
        let noted = if filled_bins(bins).len() == 0 {
            head.push("  (no messages yet)"@)
        } else {
            head
        };
        if pct >= 80 {
            noted.push("  warning: \u{2265} 80% of context used \u{2014} consider /compact"@)
        } else {
            noted
        }
    }
}

/// The positions of the bins that hold anything.
fn filled_positions(bins: &Vec<ContextBin>) -> (out: Vec<usize>)
    ensures
        out@.len() == filled_bins(bins_view(bins@)).len(),
        forall|i: int|
            0 <= i < out@.len() ==> #[trigger] out@[i] < bins@.len() && bins_view(bins@)[out@[i] as int]
                == filled_bins(bins_view(bins@))[i],
{
    let ghost all = bins_view(bins@);
    let mut out: Vec<usize> = Vec::new();
    let mut i: usize = 0;
    while i < bins.len()
        invariant
            i <= bins@.len(),
            all == bins_view(bins@),
            out@.len() == filled_bins(all.take(i as int)).len(),
            forall|k: int|
                0 <= k < out@.len() ==> #[trigger] out@[k] < i && all[out@[k] as int] == filled_bins(
                    all.take(i as int),
                )[k],
        decreases bins@.len() - i,
    {
        assert(all.take(i + 1).drop_last() =~= all.take(i as int));
        assert(all.take(i + 1).last() == all[i as int]);
        if bins[i].tokens > 0 {
            out.push(i);
        }
        i = i + 1;
    }
    assert(all.take(all.len() as int) =~= all);
    out
}

fn push_bin_rows(out: &mut Vec<String>, bins: &Vec<ContextBin>) -> (n: usize)
    ensures
        texts(final(out)@) == texts(old(out)@) + bin_rows(bins_view(bins@)),
        n == filled_bins(bins_view(bins@)).len(),
{
    let ghost all = bins_view(bins@);
    let ghost f = filled_bins(all);
    let ghost rows = bin_rows(all);
    let ghost start = texts(out@);
    let positions = filled_positions(bins);
    let mut keys: Vec<u64> = Vec::new();
    let mut k: usize = 0;
    while k < positions.len()
        invariant
            k <= positions@.len(),
            keys@.len() == k,
            all == bins_view(bins@),
            f == filled_bins(all),
            positions@.len() == f.len(),
            forall|i: int|
                0 <= i < positions@.len() ==> #[trigger] positions@[i] < bins@.len()
                    && all[positions@[i] as int] == f[i],
            forall|i: int| 0 <= i < k ==> #[trigger] keys@[i] == f[i].tokens,
        decreases positions@.len() - k,
    {
        let p: usize = positions[k];
        assert(all[p as int] == f[k as int]);
        keys.push(bins[p].tokens);
        k = k + 1;
    }
    assert(keys@ =~= bin_tokens(f));
    let order = descending_order(&keys);
    let mut i: usize = 0;
    assert(start =~= start + rows.take(0));
    while i < order.len()
        invariant
            i <= order@.len(),
            order@.len() == f.len() == positions@.len() == keys@.len(),
            keys@ == bin_tokens(f),
            all == bins_view(bins@),
            f == filled_bins(all),
            rows == bin_rows(all),
            forall|i: int|
                0 <= i < positions@.len() ==> #[trigger] positions@[i] < bins@.len()
                    && all[positions@[i] as int] == f[i],
            forall|i: int|
                0 <= i < order@.len() ==> #[trigger] order@[i] as int == descending(keys@)[i]
                    && order@[i] < keys@.len(),
            texts(out@) == start + rows.take(i as int),
        decreases order@.len() - i,
    {
        let at: usize = order[i];
        let p: usize = positions[at];
        assert(all[p as int] == f[at as int]);
        let s = cat4(
            "  ",
            padded_right(bins[p].label.as_str(), 18).as_str(),
            " ",
            padded_left(decimal_u64(bins[p].tokens).as_str(), 8).as_str(),
        );
        assert(s@ == rows[i as int]);
        push_text(out, s);
        i = i + 1;
        assert(rows.take(i as int) =~= rows.take(i - 1).push(rows[i - 1]));
        assert((start + rows.take(i - 1)).push(rows[i - 1]) =~= start + rows.take(i as int));
    }
    assert(rows.take(rows.len() as int) =~= rows);
    positions.len()
}

pub fn format_context_lines(u: &ContextUsage) -> (out: Vec<String>)
    ensures
        texts(out@) == context_text(*u),
{
    let mut out: Vec<String> = Vec::new();
    assert(texts(out@) =~= Seq::<Seq<char>>::empty());
    if u.capacity == 0 {
        push_text(
            &mut out,
            String::from_str(
                "context window \u{2014} no capacity reported by provider (start a turn first)",
            ),
        );
        return out;
    }
    let pct: u16 = u.utilization_bp / 100;
    let mut s = cat4(
        "context window \u{2014} ",
        decimal_u64(u.capacity).as_str(),
        "-token window, ",
        decimal_u64(pct as u64).as_str(),
    );
    s.append("% used (");
    s.append(decimal_u64(u.used).as_str());
    s.append(" of ");
    s.append(decimal_u64(u.capacity).as_str());
    s.append(")");
    push_text(&mut out, s);
    assert(texts(out@) =~= seq![s@]);
    let n = push_bin_rows(&mut out, &u.bins);
    if n == 0 {
        push_text(&mut out, String::from_str("  (no messages yet)"));
    }
    if pct >= 80 {
        push_text(
            &mut out,
            String::from_str("  warning: \u{2265} 80% of context used \u{2014} consider /compact"),
        );
    }
    out
}

/// A block of the conversation by its size.
#[derive(Debug)]
pub struct BlockEntry<K = &'static str, S = String> {
    /// What sort of block it is.
    pub kind: K,
    /// How it starts, or what it belongs to.
    pub label: S,
    /// Its length in characters.
    pub chars: usize,
}

pub type BlockEntryView = BlockEntry<Seq<char>, Seq<char>>;

impl View for BlockEntry<&'static str, String> {
    type V = BlockEntry<Seq<char>, Seq<char>>;

    open spec fn view(&self) -> BlockEntry<Seq<char>, Seq<char>> {
        BlockEntry { kind: self.kind@, label: self.label@, chars: self.chars }
    }
}

pub open spec fn entries_view(v: Seq<BlockEntry>) -> Seq<BlockEntryView> {
    Seq::new(v.len(), |i: int| v[i]@)
}

/// The characters of some texts together, at most what a machine word holds.
pub open spec fn total_chars(parts: Seq<Seq<char>>) -> int
    decreases parts.len(),
{
    if parts.len() == 0 {
        0
    } else {
        let sum = total_chars(parts.drop_last()) + parts.last().len();
        if sum > usize::MAX {
            usize::MAX as int
        } else {
            sum
        }
    }
}

/// A block by its sort, its label and its size.
pub open spec fn entry_of(b: BlockView) -> BlockEntryView {
    match b {
        ContentBlock::Text(t) => BlockEntry {
            kind: "text"@,
            label: prefix(first_line(t), 60),
            chars: t.len() as usize,
        },
        ContentBlock::ToolUse { name, input, .. } => BlockEntry {
            kind: "tool_use"@,
            label: name,
            chars: input.len() as usize,
        },
        ContentBlock::ToolResult { tool_use_id, texts: parts, .. } => BlockEntry {
            kind: "tool_result"@,
            label: prefix(tool_use_id, 20),
            chars: total_chars(parts) as usize,
        },
        ContentBlock::Thinking(t) => BlockEntry {
            kind: "thinking"@,
            label: prefix(t, 60),
            chars: t.len() as usize,
        },
        ContentBlock::Image(_) => BlockEntry { kind: "image"@, label: "(image)"@, chars: 0 },
    }
}

/// Every block of a conversation, in order.
pub open spec fn entries_of(messages: Seq<MessageView>) -> Seq<BlockEntryView>
    decreases messages.len(),
{
    if messages.len() == 0 {
        Seq::empty()
    } else {
        let c = messages.last().content;
        entries_of(messages.drop_last()) + Seq::new(c.len(), |i: int| entry_of(c[i]))
    }
}

pub open spec fn entry_sizes(e: Seq<BlockEntryView>) -> Seq<u64> {
    Seq::new(e.len(), |i: int| e[i].chars as u64)
}

/// The `n` largest blocks, the largest first.
pub open spec fn largest(messages: Seq<MessageView>, n: int) -> Seq<BlockEntryView> {
    let e = entries_of(messages);
    let order = descending(entry_sizes(e));
    Seq::new(
        (if n < e.len() {
            n
        } else {
            e.len() as int
        }) as nat,
        |i: int| e[order[i]],
    )
}

fn sum_chars(parts: &Vec<String>) -> (n: usize)
    ensures
        n == total_chars(texts(parts@)),
{
    let ghost all = texts(parts@);
    let mut n: usize = 0;
    let mut i: usize = 0;
    while i < parts.len()
        invariant
            i <= parts@.len(),
            all == texts(parts@),
            n == total_chars(all.take(i as int)),
        decreases parts@.len() - i,
    {
        assert(all.take(i + 1).drop_last() =~= all.take(i as int));
        assert(all.take(i + 1).last() == parts@[i as int]@);
        n = n.saturating_add(count_chars(parts[i].as_str()));
        i = i + 1;
    }
    assert(all.take(all.len() as int) =~= all);
    n
}

fn block_entry(b: &ContentBlock) -> (e: BlockEntry)
    ensures
        e@ == entry_of(b@),
{
    match b {
        ContentBlock::Text(t) => BlockEntry {
            kind: "text",
            label: take_chars(first_line_of(t.as_str()).as_str(), 60),
            chars: count_chars(t.as_str()),
        },
        ContentBlock::ToolUse { name, input, .. } => BlockEntry {
            kind: "tool_use",
            label: name.clone(),
            chars: count_chars(input.as_str()),
        },
        ContentBlock::ToolResult { tool_use_id, texts: parts, .. } => BlockEntry {
            kind: "tool_result",
            label: take_chars(tool_use_id.as_str(), 20),
            chars: sum_chars(parts),
        },
        ContentBlock::Thinking(t) => BlockEntry {
            kind: "thinking",
            label: take_chars(t.as_str(), 60),
            chars: count_chars(t.as_str()),
        },
        ContentBlock::Image(_) => BlockEntry {
            kind: "image",
            label: String::from_str("(image)"),
            chars: 0,
        },
    }
}

fn push_entry_of(v: &mut Vec<BlockEntry>, e: BlockEntry)
    ensures
        final(v)@ == old(v)@.push(e),
        entries_view(final(v)@) == entries_view(old(v)@).push(e@),
{
    let ghost before = v@;
    v.push(e);
    assert(entries_view(v@) =~= entries_view(before).push(e@));
}

fn push_entries(v: &mut Vec<BlockEntry>, blocks: &Vec<ContentBlock>)
    ensures
        entries_view(final(v)@) == entries_view(old(v)@) + Seq::new(
            blocks@.len(),
            |i: int| entry_of(blocks_view(blocks@)[i]),
        ),
{
    let ghost all = blocks_view(blocks@);
    let ghost rows = Seq::new(blocks@.len(), |i: int| entry_of(all[i]));
    let ghost start = entries_view(v@);
    let mut i: usize = 0;
    assert(start =~= start + rows.take(0));
    while i < blocks.len()
        invariant
            i <= blocks@.len(),
            all == blocks_view(blocks@),
            rows == Seq::new(blocks@.len(), |i: int| entry_of(all[i])),
            entries_view(v@) == start + rows.take(i as int),
        decreases blocks@.len() - i,
    {
        assert(all[i as int] == blocks@[i as int]@);
        push_entry_of(v, block_entry(&blocks[i]));
        i = i + 1;
        assert(rows.take(i as int) =~= rows.take(i - 1).push(rows[i - 1]));
        assert((start + rows.take(i - 1)).push(rows[i - 1]) =~= start + rows.take(i as int));
    }
    assert(rows.take(rows.len() as int) =~= rows);
}

fn all_entries(messages: &Vec<Message>) -> (v: Vec<BlockEntry>)
    ensures
        entries_view(v@) == entries_of(messages_view(messages@)),
{
    let ghost all = messages_view(messages@);
    let mut v: Vec<BlockEntry> = Vec::new();
    let mut i: usize = 0;
    assert(entries_view(v@) =~= entries_of(all.take(0)));
    while i < messages.len()
        invariant
            i <= messages@.len(),
            all == messages_view(messages@),
            entries_view(v@) == entries_of(all.take(i as int)),
        decreases messages@.len() - i,
    {
        assert(all.take(i + 1).drop_last() =~= all.take(i as int));
        assert(all.take(i + 1).last() == messages@[i as int]@);
        push_entries(&mut v, &messages[i].content);
        i = i + 1;
    }
    assert(all.take(all.len() as int) =~= all);
    v
}

/// The `n` largest blocks of a conversation, the largest first.
pub fn top_n_blocks(messages: &Vec<Message>, n: usize) -> (out: Vec<BlockEntry>)
    ensures
        entries_view(out@) == largest(messages_view(messages@), n as int),
{
    let entries = all_entries(messages);
    let ghost e = entries_view(entries@);
    let mut sizes: Vec<u64> = Vec::new();
    let mut k: usize = 0;
    while k < entries.len()
        invariant
            k <= entries@.len(),
            sizes@.len() == k,
            e == entries_view(entries@),
            forall|i: int| 0 <= i < k ==> #[trigger] sizes@[i] == e[i].chars as u64,
        decreases entries@.len() - k,
    {
        assert(e[k as int].chars == entries@[k as int].chars);
        sizes.push(entries[k].chars as u64);
        k = k + 1;
    }
    assert(sizes@ =~= entry_sizes(e));
    let order = descending_order(&sizes);
    let m: usize = if n < entries.len() {
        n
    } else {
        entries.len()
    };
    let ghost rows = largest(messages_view(messages@), n as int);
    let mut out: Vec<BlockEntry> = Vec::new();
    let mut i: usize = 0;
    assert(entries_view(out@) =~= rows.take(0));
    while i < m
        invariant
            i <= m <= entries@.len(),
            order@.len() == entries@.len() == sizes@.len(),
            e == entries_view(entries@),
            e == entries_of(messages_view(messages@)),
            sizes@ == entry_sizes(e),
            rows == largest(messages_view(messages@), n as int),
            rows.len() == m,
            forall|i: int|
                0 <= i < order@.len() ==> #[trigger] order@[i] as int == descending(sizes@)[i]
                    && order@[i] < sizes@.len(),
            entries_view(out@) == rows.take(i as int),
        decreases m - i,
    {
        let at: usize = order[i];
        assert(e[at as int] == entries@[at as int]@);
        let copy = BlockEntry {
            kind: entries[at].kind,
            label: entries[at].label.clone(),
            chars: entries[at].chars,
        };
        assert(copy@ == rows[i as int]);
        push_entry_of(&mut out, copy);
        i = i + 1;
        assert(rows.take(i as int) =~= rows.take(i - 1).push(rows[i - 1]));
    }
    assert(rows.take(rows.len() as int) =~= rows);
    out
}

/// The schemas that are loaded, where not all of them always are.
#[derive(Debug)]
pub struct ActiveSchemas {
    pub limit: usize,
    pub names: Vec<String>,
}

/// How many blocks `/context` lists.
pub const LARGEST_SHOWN: usize = 5;

pub open spec fn schema_rows(s: Option<ActiveSchemas>) -> Seq<Seq<char>> {
    match s {
        None => Seq::empty(),
        Some(a) => seq![
            "MCP active: "@ + decimal(a.names@.len()) + "/"@ + decimal(a.limit as nat),
        ] + Seq::new(a.names@.len(), |i: int| "  "@ + texts(a.names@)[i]),
    }
}

pub open spec fn block_rows(top: Seq<BlockEntryView>) -> Seq<Seq<char>> {
    if top.len() == 0 {
        Seq::empty()
    } else {
        seq!["largest blocks (descending chars):"@] + Seq::new(
            top.len(),
            |i: int|
                "  "@ + pad_left(decimal((i + 1) as nat), 2) + ". "@ + pad_right(top[i].kind, 14)
                    + " "@ + pad_left(decimal(top[i].chars as nat), 8) + " chars  "@ + top[i].label,
        )
    }
}

/// The answer to `/context`: how full the window is, the loaded schemas, and
/// the largest blocks.
pub open spec fn context_report(
    u: ContextUsage,
    schemas: Option<ActiveSchemas>,
    messages: Seq<MessageView>,
) -> Seq<Seq<char>> {
    context_text(u) + schema_rows(schemas) + block_rows(largest(messages, LARGEST_SHOWN as int))
}

fn push_schema_rows(out: &mut Vec<String>, schemas: &Option<ActiveSchemas>)
    ensures
        texts(final(out)@) == texts(old(out)@) + schema_rows(*schemas),
{
    let ghost start = texts(out@);
    match schemas {
        None => {
            assert(start =~= start + schema_rows(*schemas));
        },
        Some(a) => {
            let ghost rows = schema_rows(*schemas);
            push_text(
                out,
                cat4(
                    "MCP active: ",
                    decimal_usize(a.names.len()).as_str(),
                    "/",
                    decimal_usize(a.limit).as_str(),
                ),
            );
            let mut i: usize = 0;
            assert(texts(out@) =~= start + rows.take(1));
            while i < a.names.len()
                invariant
                    i <= a.names@.len(),
                    *schemas == Some(*a),
                    rows == schema_rows(*schemas),
                    texts(out@) == start + rows.take(i + 1),
                decreases a.names@.len() - i,
            {
                let s = cat2("  ", a.names[i].as_str());
                assert(rows[i + 1] == s@);
                push_text(out, s);
                i = i + 1;
                assert(rows.take(i + 1) =~= rows.take(i as int).push(rows[i as int]));
                assert((start + rows.take(i as int)).push(rows[i as int]) =~= start + rows.take(
                    i + 1,
                ));
            }
            assert(rows.take(rows.len() as int) =~= rows);
        },
    }
}

fn push_block_rows(out: &mut Vec<String>, top: &Vec<BlockEntry>)
    ensures
        texts(final(out)@) == texts(old(out)@) + block_rows(entries_view(top@)),
{
    let ghost start = texts(out@);
    let ghost all = entries_view(top@);
    let ghost rows = block_rows(all);
    if top.len() == 0 {
        assert(start =~= start + rows);
        return;
    }
    push_text(out, String::from_str("largest blocks (descending chars):"));
    let mut i: usize = 0;
    assert(texts(out@) =~= start + rows.take(1));
    while i < top.len()
        invariant
            i <= top@.len(),
            top@.len() > 0,
            all == entries_view(top@),
            rows == block_rows(all),
            texts(out@) == start + rows.take(i + 1),
        decreases top@.len() - i,
    {
        assert(all[i as int] == top@[i as int]@);
        let mut s = cat4(
            "  ",
            padded_left(decimal_usize(i + 1).as_str(), 2).as_str(),
            ". ",
            padded_right(top[i].kind, 14).as_str(),
        );
        s.append(" ");
        s.append(padded_left(decimal_usize(top[i].chars).as_str(), 8).as_str());
        s.append(" chars  ");
        s.append(top[i].label.as_str());
        assert(rows[i + 1] == s@);
        push_text(out, s);
        i = i + 1;
        assert(rows.take(i + 1) =~= rows.take(i as int).push(rows[i as int]));
        assert((start + rows.take(i as int)).push(rows[i as int]) =~= start + rows.take(i + 1));
    }
    assert(rows.take(rows.len() as int) =~= rows);
}

pub fn render_context_lines(
    u: &ContextUsage,
    schemas: &Option<ActiveSchemas>,
    messages: &Vec<Message>,
) -> (out: Vec<String>)
    ensures
        texts(out@) == context_report(*u, *schemas, messages_view(messages@)),
{
    let mut out = format_context_lines(u);
    push_schema_rows(&mut out, schemas);
    let top = top_n_blocks(messages, LARGEST_SHOWN);
    push_block_rows(&mut out, &top);
    out
}

// ---------------------------------------------------------------------------
// /compact
// ---------------------------------------------------------------------------

/// What became of the conversation.
#[derive(Debug)]
pub enum Compaction {
    Failed(String),
    /// It stayed as it was.
    Unchanged,
    Compacted { messages: Vec<Message>, tokens: u64 },
}

/// How much shorter one length is than another.
pub open spec fn shrunk_by(before: nat, after: nat) -> nat {
    if before > after {
        (before - after) as nat
    } else {
        0
    }
}

/// The state after a compaction by `strategy`; the conversation took
/// `tokens_before` tokens.
pub open spec fn compacted(app: AppView, c: Compaction, strategy: Seq<char>, tokens_before: u64) -> AppView {
    let before = app.messages.len();
    match c {
        Compaction::Failed(e) => app.failed("compact failed: "@ + e@),
        Compaction::Unchanged => app.informed(
            "compact: no-op (strategy "@ + strategy + " kept "@ + decimal(before) + " messages, ~"@
                + decimal(tokens_before as nat) + " tokens)"@,
        ),
        Compaction::Compacted { messages, tokens } => {
            let after = messages@.len();
            app.conversing(messages_view(messages@)).informed(
                "compact (strategy "@ + strategy + "): "@ + decimal(before) + " \u{2192} "@ + decimal(
                    after,
                ) + " messages ("@ + decimal(shrunk_by(before, after))
                    + " dropped/summarized), ~"@ + decimal(tokens_before as nat) + " \u{2192} ~"@
                    + decimal(tokens as nat) + " tokens"@,
            )
        },
    }
}

/// What a compaction asks of the world.
pub open spec fn compaction_asks(c: Compaction) -> Seq<EffectView> {
    match c {
        Compaction::Compacted { messages, .. } => seq![
            Effect::MeasureContext(messages_view(messages@)),
        ],
        _ => Seq::empty(),
    }
}

/// Takes in what a compaction made of the conversation.
pub fn compact_finished(app: &mut App, c: &Compaction, strategy: &str, tokens_before: u64) -> (effects: Vec<
    Effect,
>)
    requires
        old(app).wf(),
    ensures
        final(app).wf(),
        final(app)@ == compacted(old(app)@, *c, strategy@, tokens_before),
        effects_view(effects@) == compaction_asks(*c),
{
    let before: usize = app.messages.len();
    match c {
        Compaction::Failed(e) => {
            app.fail(cat2("compact failed: ", e.as_str()).as_str());
            nothing()
        },
        Compaction::Unchanged => {
            let mut s = cat4(
                "compact: no-op (strategy ",
                strategy,
                " kept ",
                decimal_usize(before).as_str(),
            );
            s.append(" messages, ~");
            s.append(decimal_u64(tokens_before).as_str());
            s.append(" tokens)");
            app.inform(s.as_str());
            nothing()
        },
        Compaction::Compacted { messages, tokens } => {
            let after: usize = messages.len();
            app.converse(messages);
            let mut s = cat4(
                "compact (strategy ",
                strategy,
                "): ",
                decimal_usize(before).as_str(),
            );
            s.append(" \u{2192} ");
            s.append(decimal_usize(after).as_str());
            s.append(" messages (");
            s.append(decimal_usize(before.saturating_sub(after)).as_str());
            s.append(" dropped/summarized), ~");
            s.append(decimal_u64(tokens_before).as_str());
            s.append(" \u{2192} ~");
            s.append(decimal_u64(*tokens).as_str());
            s.append(" tokens");
            app.inform(s.as_str());
            just(Effect::MeasureContext(clone_messages(messages)))
        },
    }
}

// ---------------------------------------------------------------------------
// /doctor
// ---------------------------------------------------------------------------

/// One health check.
#[derive(Debug)]
pub struct Check<S = String> {
    pub glyph: S,
    pub name: S,
    pub hint: S,
}

pub open spec fn checks_view(v: Seq<Check<String>>) -> Seq<Check<Seq<char>>> {
    Seq::new(v.len(), |i: int| Check { glyph: v[i].glyph@, name: v[i].name@, hint: v[i].hint@ })
}

/// Whether `/doctor` is to look closely.
pub fn doctor_is_deep(args: &str) -> (r: bool)
    ensures
        r == contains(args@, "--deep"@),
{
    contains_text(args, "--deep")
}

pub open spec fn doctor_text(checks: Seq<Check<Seq<char>>>) -> Seq<Seq<char>> {
    seq!["doctor \u{2014} "@ + decimal(checks.len()) + " check(s):"@] + Seq::new(
        checks.len(),
        |i: int|
            "  "@ + checks[i].glyph + " "@ + checks[i].name + " \u{2014} "@ + checks[i].hint,
    )
}

/// The answer to `/doctor`.
pub fn doctor_lines(checks: &Vec<Check>) -> (out: Vec<String>)
    ensures
        texts(out@) == doctor_text(checks_view(checks@)),
{
    let ghost rows = doctor_text(checks_view(checks@));
    let mut out: Vec<String> = Vec::new();
    assert(texts(out@) =~= Seq::<Seq<char>>::empty());
    push_text(
        &mut out,
        cat3("doctor \u{2014} ", decimal_usize(checks.len()).as_str(), " check(s):"),
    );
    let mut i: usize = 0;
    assert(texts(out@) =~= rows.take(1));
    while i < checks.len()
        invariant
            i <= checks@.len(),
            rows == doctor_text(checks_view(checks@)),
            texts(out@) == rows.take(i + 1),
        decreases checks@.len() - i,
    {
        let mut s = cat5(
            "  ",
            checks[i].glyph.as_str(),
            " ",
            checks[i].name.as_str(),
            " \u{2014} ",
        );
        s.append(checks[i].hint.as_str());
        assert(rows[i + 1] == s@);
        push_text(&mut out, s);
        i = i + 1;
        assert(rows.take(i + 1) =~= rows.take(i as int).push(rows[i as int]));
    }
    assert(rows.take(rows.len() as int) =~= rows);
    out
}

// ---------------------------------------------------------------------------
// Laws
// ---------------------------------------------------------------------------

/// No block that comes later in the order, listed or left out, is larger
/// than a listed one.
pub proof fn law_largest_blocks_come_first(messages: Seq<MessageView>, n: int, i: int, j: int)
    requires
        n >= 0,
        0 <= i < largest(messages, n).len(),
        i < j < entries_of(messages).len(),
    ensures
        largest(messages, n)[i].chars >= entries_of(messages)[descending(
            entry_sizes(entries_of(messages)),
        )[j]].chars,
{
    let e = entries_of(messages);
    let o = descending(entry_sizes(e));
    crate::order::law_order_descends(entry_sizes(e), i, j);
    crate::order::law_order_lists_each_position_once(entry_sizes(e));
    assert(0 <= o[i] < e.len() && 0 <= o[j] < e.len());
    assert(entry_sizes(e)[o[i]] == e[o[i]].chars as u64);
    assert(entry_sizes(e)[o[j]] == e[o[j]].chars as u64);
}

/// As many blocks are listed as were asked for, or all there are.
pub proof fn law_listing_more_than_there_is_lists_all(messages: Seq<MessageView>, n: int)
    requires
        n >= 0,
    ensures
        largest(messages, n).len() == (if n < entries_of(messages).len() {
            n
        } else {
            entries_of(messages).len() as int
        }),
{
}

/// Each name with what it runs, whether it is listed, and whether it may run
/// while a turn is in flight.
pub proof fn law_observers_are_registered()
    ensures
        commands().len() == 5,
        commands()[0].meta.name@ == "/usage"@,
        commands()[0].meta.description@ == "show token + cost usage for this session"@,
        commands()[0].meta.args_hint@ == ""@,
        !commands()[0].meta.hidden,
        commands()[0].meta.immediate,
        commands()[0].command == Command::Usage,
        commands()[1].meta.name@ == "/context"@,
        commands()[1].meta.description@ == "show context window utilization + top-N largest blocks"@,
        commands()[1].meta.args_hint@ == ""@,
        !commands()[1].meta.hidden,
        commands()[1].meta.immediate,
        commands()[1].command == Command::Context,
        commands()[2].meta.name@ == "/compact"@,
        commands()[2].meta.description@ == "trigger the configured compactor; reports dropped/summarized count"@,
        commands()[2].meta.args_hint@ == ""@,
        !commands()[2].meta.hidden,
        !commands()[2].meta.immediate,
        commands()[2].command == Command::Compact,
        commands()[3].meta.name@ == "/doctor"@,
        commands()[3].meta.description@ == "run startup-time health checks (skills, hooks, MCP, auth)"@,
        commands()[3].meta.args_hint@ == ""@,
        !commands()[3].meta.hidden,
        commands()[3].meta.immediate,
        commands()[3].command == Command::Doctor,
        commands()[4].meta.name@ == "/system"@,
        commands()[4].meta.description@ == "view the active system prompt"@,
        commands()[4].meta.args_hint@ == ""@,
        commands()[4].meta.hidden,
        commands()[4].meta.immediate,
        commands()[4].command == Command::System,
{
}

/// The costs lead with the total; the models follow under a heading in their
/// order, or a line that says there were none; what the cache saved comes
/// last, where it saved anything; the session's line closes the report.
pub proof fn law_usage_is_listed(c: CostBreakdown, session: Option<SessionView>, i: int)
    ensures
        ({
            let out = usage_report(c, session);
            let n = c.by_model@.len() as int;
            let k = if n == 0 {
                2int
            } else {
                n + 2
            };
            let saved = if c.cache_savings.mantissa > 0 {
                1int
            } else {
                0int
            };
            &&& out[0] == "usage \u{2014} total $"@ + c.total_rounded@
            &&& n == 0 ==> out[1] == "  (no provider calls yet this session)"@
            &&& n > 0 ==> out[1] == "  by model:"@
            &&& 0 <= i < n ==> out[i + 2] == usage_row(c.by_model@[i]@)
            &&& saved == 1 ==> out[k] == "  cache savings vs no-cache: $"@ + c.cache_savings_rounded@
            &&& session is None ==> out.len() == k + saved
            &&& session is Some ==> out.len() == k + saved + 1 && out.last() == "  session "@
                + session->0.name + " \u{2014} "@ + decimal(session->0.turn_count as nat)
                + " turns, "@ + decimal(session->0.input_tokens as nat) + " input + "@ + decimal(
                session->0.output_tokens as nat,
            ) + " output tokens"@
        }),
{
}

/// The row of a model tells its provider, its name, its four numbers of
/// tokens and what it cost.
pub proof fn law_usage_rows_tell_the_tokens(m: ModelCost<Seq<char>>)
    ensures
        usage_row(m) == "    "@ + m.provider + "/"@ + m.model + "  in "@ + decimal(
            m.input_tokens as nat,
        ) + "  out "@ + decimal(m.output_tokens as nat) + "  cache_r "@ + decimal(
            m.cache_read_tokens as nat,
        ) + "  cache_w "@ + decimal(m.cache_creation_tokens as nat) + "  $"@ + m.usd_rounded,
{
}

/// Empty bins are passed over, the others keep their order.
pub proof fn law_empty_bins_are_passed_over(
    bins: Seq<ContextBin<Seq<char>>>,
    b: ContextBin<Seq<char>>,
)
    ensures
        filled_bins(Seq::empty()).len() == 0,
        b.tokens == 0 ==> filled_bins(bins.push(b)) == filled_bins(bins),
        b.tokens > 0 ==> filled_bins(bins.push(b)) == filled_bins(bins).push(b),
{
    assert(bins.push(b).drop_last() =~= bins);
}

/// There is a row for each bin that holds anything: its label filled up to
/// eighteen places and its tokens to eight, and no later row has more tokens
/// than an earlier one.
pub proof fn law_bins_are_listed_fullest_first(bins: Seq<ContextBin<Seq<char>>>, i: int, j: int) -> (at:
    (int, int))
    requires
        0 <= i < j < filled_bins(bins).len(),
    ensures
        bin_rows(bins).len() == filled_bins(bins).len(),
        0 <= at.0 < filled_bins(bins).len(),
        0 <= at.1 < filled_bins(bins).len(),
        at.0 != at.1,
        filled_bins(bins)[at.0].tokens >= filled_bins(bins)[at.1].tokens,
        bin_rows(bins)[i] == "  "@ + pad_right(filled_bins(bins)[at.0].label, 18) + " "@ + pad_left(
            decimal(filled_bins(bins)[at.0].tokens as nat),
            8,
        ),
        bin_rows(bins)[j] == "  "@ + pad_right(filled_bins(bins)[at.1].label, 18) + " "@ + pad_left(
            decimal(filled_bins(bins)[at.1].tokens as nat),
            8,
        ),
{
    let f = filled_bins(bins);
    let keys = bin_tokens(f);
    let order = descending(keys);
    law_order_lists_each_position_once(keys);
    law_order_descends(keys, i, j);
    assert(0 <= order[i] < keys.len());
    assert(0 <= order[j] < keys.len());
    assert(keys[order[i]] == f[order[i]].tokens);
    assert(keys[order[j]] == f[order[j]].tokens);
    (order[i], order[j])
}

/// The report on the window leads with its size and how full it is, in whole
/// percent; a warning comes last from eighty percent on, and an empty window
/// is told as such.
pub proof fn law_full_windows_are_warned_of(u: ContextUsage)
    ensures
        u.capacity == 0 ==> context_text(u) == seq![
            "context window \u{2014} no capacity reported by provider (start a turn first)"@,
        ],
        u.capacity > 0 ==> ({
            let out = context_text(u);
            let rows = bin_rows(bins_view(u.bins@));
            let n = filled_bins(bins_view(u.bins@)).len() as int;
            &&& out[0] == "context window \u{2014} "@ + decimal(u.capacity as nat)
                + "-token window, "@ + decimal(u.utilization_bp as nat / 100) + "% used ("@
                + decimal(u.used as nat) + " of "@ + decimal(u.capacity as nat) + ")"@
            &&& forall|i: int| 0 <= i < n ==> out[i + 1] == #[trigger] rows[i]
            &&& n == 0 ==> out[1] == "  (no messages yet)"@
            &&& u.utilization_bp >= 8000 ==> out.last()
                == "  warning: \u{2265} 80% of context used \u{2014} consider /compact"@
            &&& out.len() == 1 + (if n == 0 {
                1int
            } else {
                n
            }) + (if u.utilization_bp >= 8000 {
                1int
            } else {
                0int
            })
        }),
{
}

/// A block is listed by its sort, by how it starts or what it belongs to,
/// and by its length.
pub proof fn law_blocks_are_measured(b: BlockView)
    ensures
        match b {
            ContentBlock::Text(t) => entry_of(b).kind == "text"@ && entry_of(b).label == prefix(
                first_line(t),
                60,
            ) && (t.len() <= usize::MAX ==> entry_of(b).chars == t.len()),
            ContentBlock::ToolUse { name, input, .. } => entry_of(b).kind == "tool_use"@ && entry_of(
                b,
            ).label == name && (input.len() <= usize::MAX ==> entry_of(b).chars == input.len()),
            ContentBlock::ToolResult { tool_use_id, texts: parts, .. } => entry_of(b).kind
                == "tool_result"@ && entry_of(b).label == prefix(tool_use_id, 20) && (0
                <= total_chars(parts) <= usize::MAX ==> entry_of(b).chars == total_chars(parts)),
            ContentBlock::Thinking(t) => entry_of(b).kind == "thinking"@ && entry_of(b).label
                == prefix(t, 60) && (t.len() <= usize::MAX ==> entry_of(b).chars == t.len()),
            ContentBlock::Image(_) => entry_of(b).kind == "image"@ && entry_of(b).label
                == "(image)"@ && entry_of(b).chars == 0,
        },
{
}

/// The parts of a result count together, up to what a machine word holds.
pub proof fn law_parts_are_counted_together(parts: Seq<Seq<char>>, last: Seq<char>)
    ensures
        total_chars(Seq::empty()) == 0,
        total_chars(parts) + last.len() <= usize::MAX ==> total_chars(parts.push(last))
            == total_chars(parts) + last.len(),
        total_chars(parts) + last.len() > usize::MAX ==> total_chars(parts.push(last))
            == usize::MAX,
{
    assert(parts.push(last).drop_last() =~= parts);
}

/// A message adds an entry for each of its blocks, in order, behind those of
/// the messages before it.
pub proof fn law_every_block_has_an_entry(messages: Seq<MessageView>, m: MessageView, i: int)
    ensures
        entries_of(Seq::empty()).len() == 0,
        entries_of(messages.push(m)).len() == entries_of(messages).len() + m.content.len(),
        0 <= i < entries_of(messages).len() ==> entries_of(messages.push(m))[i] == entries_of(
            messages,
        )[i],
        0 <= i < m.content.len() ==> entries_of(messages.push(m))[entries_of(messages).len() + i]
            == entry_of(m.content[i]),
{
    assert(messages.push(m).drop_last() =~= messages);
}

/// A listed block is one of the conversation, and two listed blocks are two
/// of them, the larger first.
pub proof fn law_listed_blocks_are_in_the_conversation(
    messages: Seq<MessageView>,
    n: int,
    i: int,
    j: int,
) -> (at: (int, int))
    requires
        0 <= i < j < largest(messages, n).len(),
        n >= 0,
    ensures
        0 <= at.0 < entries_of(messages).len(),
        0 <= at.1 < entries_of(messages).len(),
        at.0 != at.1,
        largest(messages, n)[i] == entries_of(messages)[at.0],
        largest(messages, n)[j] == entries_of(messages)[at.1],
        largest(messages, n)[i].chars >= largest(messages, n)[j].chars,
{
    let e = entries_of(messages);
    let keys = entry_sizes(e);
    law_order_lists_each_position_once(keys);
    law_order_descends(keys, i, j);
    let order = descending(keys);
    assert(0 <= order[i] < keys.len());
    assert(0 <= order[j] < keys.len());
    assert(keys[order[i]] == e[order[i]].chars as u64);
    assert(keys[order[j]] == e[order[j]].chars as u64);
    (order[i], order[j])
}

/// The schemas are told by how many of how many are active, and by name; the
/// largest blocks under a heading, numbered from one.
pub proof fn law_schemas_and_blocks_are_listed(
    a: ActiveSchemas,
    top: Seq<BlockEntryView>,
    i: int,
)
    ensures
        schema_rows(None).len() == 0,
        schema_rows(Some(a)).len() == a.names@.len() + 1,
        schema_rows(Some(a))[0] == "MCP active: "@ + decimal(a.names@.len()) + "/"@ + decimal(
            a.limit as nat,
        ),
        0 <= i < a.names@.len() ==> schema_rows(Some(a))[i + 1] == "  "@ + a.names@[i]@,
        top.len() == 0 ==> block_rows(top).len() == 0,
        top.len() > 0 ==> block_rows(top).len() == top.len() + 1,
        top.len() > 0 ==> block_rows(top)[0] == "largest blocks (descending chars):"@,
        0 <= i < top.len() ==> block_rows(top)[i + 1] == "  "@ + pad_left(
            decimal((i + 1) as nat),
            2,
        ) + ". "@ + pad_right(top[i].kind, 14) + " "@ + pad_left(decimal(top[i].chars as nat), 8)
            + " chars  "@ + top[i].label,
{
}

/// `/context` tells the window, then the schemas, then the five largest
/// blocks of the conversation.
pub proof fn law_the_report_has_three_parts(
    u: ContextUsage,
    schemas: Option<ActiveSchemas>,
    messages: Seq<MessageView>,
)
    ensures
        context_report(u, schemas, messages) == context_text(u) + schema_rows(schemas) + block_rows(
            largest(messages, 5),
        ),
{
}

/// A compaction that failed or changed nothing keeps the conversation and
/// asks for nothing; one that went through puts the new messages in place
/// everywhere and has the context measured by them.
pub proof fn law_compaction_replaces_the_conversation(
    app: AppView,
    c: Compaction,
    strategy: Seq<char>,
    tokens_before: u64,
)
    ensures
        ({
            let after = compacted(app, c, strategy, tokens_before);
            &&& app.transcript.len() + 1 == after.transcript.len()
            &&& app.transcript == after.transcript.drop_last()
            &&& match c {
                Compaction::Failed(e) => {
                    &&& after == (AppView { transcript: after.transcript, ..app })
                    &&& after.transcript.last() == TranscriptLine::Error("compact failed: "@ + e@)
                    &&& compaction_asks(c).len() == 0
                },
                Compaction::Unchanged => {
                    &&& after == (AppView { transcript: after.transcript, ..app })
                    &&& after.transcript.last() == TranscriptLine::Info(
                        "compact: no-op (strategy "@ + strategy + " kept "@ + decimal(
                            app.messages.len(),
                        ) + " messages, ~"@ + decimal(tokens_before as nat) + " tokens)"@,
                    )
                    &&& compaction_asks(c).len() == 0
                },
                Compaction::Compacted { messages, tokens } => {
                    let n = messages@.len();
                    let fewer = if n < app.messages.len() {
                        (app.messages.len() - n) as nat
                    } else {
                        0nat
                    };
                    &&& after.messages == messages_view(messages@)
                    &&& after.session is Some <==> app.session is Some
                    &&& app.session is Some ==> after.session == Some(
                        (SessionView { messages: messages_view(messages@), ..app.session->0 }),
                    )
                    &&& after == (AppView {
                        transcript: after.transcript,
                        messages: after.messages,
                        session: after.session,
                        ..app
                    })
                    &&& after.transcript.last() == TranscriptLine::Info(
                        "compact (strategy "@ + strategy + "): "@ + decimal(app.messages.len())
                            + " \u{2192} "@ + decimal(n) + " messages ("@ + decimal(fewer)
                            + " dropped/summarized), ~"@ + decimal(tokens_before as nat)
                            + " \u{2192} ~"@ + decimal(tokens as nat) + " tokens"@,
                    )
                    &&& compaction_asks(c) == seq![
                        EffectView::MeasureContext(messages_view(messages@)),
                    ]
                },
            }
        }),
{
}

/// The checks are counted and listed in their order, each by its mark, its
/// name and its hint.
pub proof fn law_checks_are_listed(checks: Seq<Check<Seq<char>>>, i: int)
    ensures
        doctor_text(checks).len() == checks.len() + 1,
        doctor_text(checks)[0] == "doctor \u{2014} "@ + decimal(checks.len()) + " check(s):"@,
        0 <= i < checks.len() ==> doctor_text(checks)[i + 1] == "  "@ + checks[i].glyph + " "@
            + checks[i].name + " \u{2014} "@ + checks[i].hint,
{
}

} // verus!
