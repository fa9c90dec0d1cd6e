//! The transcript as lines, and the figures in it.

use vstd::prelude::*;

use crate::app::{transcript_view, App, TranscriptLine};
use crate::json::{json_input, opt_input, parse_tool_input};
use crate::style::{
    bare, blank_line, extend_lines, lines_view, no_lines, plain, push_line, raw, row, span, styled,
    styled_text, text_line, Color, Line, LineView, Style,
};
use crate::text::{
    cat2, cat3, cat4, cat5, count_chars, decimal, decimal_u64, join, join_texts, prefix, push_text,
    split, split_text, take_chars, texts,
};
use crate::types::{fields_view, Field, FieldValue, ToolInput, ToolInputView};

verus! {

// ---------------------------------------------------------------------------
// The input of a tool call
// ---------------------------------------------------------------------------

/// Characters of a field's text that are shown at most.
pub const FIELD_CHARS: usize = 40;

/// Characters of a call's input, and of what it gave, that are shown at
/// most.
pub const CALL_CHARS: usize = 80;

/// A text cut to `max` characters, with a mark where it was cut.
pub open spec fn clipped(s: Seq<char>, max: int) -> Seq<char> {
    if s.len() > max {
        prefix(s, max) + "\u{2026}"@
    } else {
        s
    }
}

fn clip(s: &str, max: usize) -> (r: String)
    ensures
        r@ == clipped(s@, max as int),
{
    if count_chars(s) > max {
        cat2(take_chars(s, max).as_str(), "\u{2026}")
    } else {
        String::from_str(s)
    }
}

/// The value of a field: a text in quotes, cut where it is long, and
/// anything else as JSON.
pub open spec fn field_value(v: FieldValue<Seq<char>>) -> Seq<char> {
    match v {
        FieldValue::Text(t) => "\""@ + clipped(t, FIELD_CHARS as int) + "\""@,
        FieldValue::Other(t) => t,
    }
}

pub open spec fn field_text(f: Field<Seq<char>>) -> Seq<char> {
    f.key + "="@ + field_value(f.value)
}

fn field_line(f: &Field) -> (r: String)
    ensures
        r@ == field_text(f@),
{
    match &f.value {
        FieldValue::Text(t) => {
            let quoted = cat3("\"", clip(t.as_str(), FIELD_CHARS).as_str(), "\"");
            cat3(f.key.as_str(), "=", quoted.as_str())
        },
        FieldValue::Other(t) => cat3(f.key.as_str(), "=", t.as_str()),
    }
}

pub open spec fn field_texts(fields: Seq<Field<Seq<char>>>) -> Seq<Seq<char>> {
    Seq::new(fields.len(), |i: int| field_text(fields[i]))
}

/// An input in a line: the fields of an object, and any other input as it
/// was written.
pub open spec fn input_text(input: Seq<char>, parsed: Option<ToolInputView>, max: int) -> Seq<char> {
    match parsed {
        Some(ToolInput::Object(fields)) => clipped(join(field_texts(fields), ", "@), max),
        _ => clipped(input, max),
    }
}

fn fields_line(fields: &Vec<Field>) -> (r: String)
    ensures
        r@ == join(field_texts(fields_view(fields@)), ", "@),
{
    let ghost all = field_texts(fields_view(fields@));
    let mut parts: Vec<String> = Vec::new();
    let mut i: usize = 0;
    assert(texts(parts@) =~= all.take(0));
    while i < fields.len()
        invariant
            i <= fields@.len(),
            all == field_texts(fields_view(fields@)),
            texts(parts@) == all.take(i as int),
        decreases fields@.len() - i,
    {
        push_text(&mut parts, field_line(&fields[i]));
        assert(fields_view(fields@)[i as int] == fields@[i as int]@);
        i = i + 1;
        assert(all.take(i as int) =~= all.take(i - 1).push(all[i - 1]));
    }
    assert(all.take(i as int) =~= all);
    join_texts(&parts, ", ")
}

/// An input in a line, given what JSON it holds.
pub fn format_parsed_input(input: &str, parsed: &Option<ToolInput>, max_chars: usize) -> (r: String)
    ensures
        r@ == input_text(input@, opt_input(*parsed), max_chars as int),
{
    match parsed {
        Some(ToolInput::Object(fields)) => clip(fields_line(fields).as_str(), max_chars),
        _ => clip(input, max_chars),
    }
}

/// An input in a line: the fields of a JSON object, and any other input as
/// it was written; never longer than `max_chars` and a mark.
pub fn format_tool_input(input: &str, max_chars: usize) -> (r: String)
    ensures
        r@ == input_text(input@, json_input(input@), max_chars as int),
{
    let parsed = parse_tool_input(input);
    format_parsed_input(input, &parsed, max_chars)
}

// ---------------------------------------------------------------------------
// Sizes and counts
// ---------------------------------------------------------------------------

/// `n / d` rounded to the nearest whole number, and to the even one of two
/// that are equally near.
pub open spec fn rounded(n: int, d: int) -> int {
    let q = n / d;
    let r = n % d;
    if 2 * r > d || (2 * r == d && q % 2 == 1) {
        q + 1
    } else {
        q
    }
}

fn round(n: u128, d: u128) -> (r: u128)
    requires
        0 < d < 0x1_0000_0000_0000_0000,
        n < 0x1_0000_0000_0000_0000_0000_0000,
    ensures
        r == rounded(n as int, d as int),
{
    let q: u128 = n / d;
    let m: u128 = n % d;
    proof {
        vstd::arithmetic::div_mod::lemma_mod_bound(n as int, d as int);
        assert(q <= n) by (nonlinear_arith)
            requires
                q == n / d,
                0 < d,
        ;
    }
    if 2 * m > d || (2 * m == d && q % 2 == 1) {
        q + 1
    } else {
        q
    }
}

/// Whole numbers up to this one have a floating-point number of their own.
pub const FLOAT_LIMIT: u64 = 0x20_0000_0000_0000;

/// The floating-point number nearest to `n`, for numbers that come in steps
/// of `step` at least: it has 53 significant binary digits.
pub open spec fn nearest_float(n: int, step: int) -> int
    decreases n / step,
{
    if step <= 0 || n < 0 {
        n
    } else if n / step < FLOAT_LIMIT {
        rounded(n, step) * step
    } else {
        proof {
            vstd::arithmetic::div_mod::lemma_div_denominator(n, step, 2);
            vstd::arithmetic::div_mod::lemma_div_decreases(n / step, 2);
        }
        nearest_float(n, step * 2)
    }
}

fn as_float(n: u64) -> (r: u128)
    ensures
        r == nearest_float(n as int, 1),
        r <= 0x2_0000_0000_0000_0000,
{
    let mut step: u64 = 1;
    while n / step >= FLOAT_LIMIT
        invariant
            1 <= step <= 0x1000,
            nearest_float(n as int, 1) == nearest_float(n as int, step as int),
        decreases 0x2000 - step,
    {
        assert(step * FLOAT_LIMIT <= n) by (nonlinear_arith)
            requires
                n / step >= FLOAT_LIMIT,
                step > 0,
        ;
        assert(step <= 0x800);
        step = step * 2;
    }
    let q = round(n as u128, step as u128);
    proof {
        assert(q <= FLOAT_LIMIT) by {
            assert(n as int / step as int == n / step);
        }
        assert(q * step <= FLOAT_LIMIT * 0x1000) by (nonlinear_arith)
            requires
                q <= FLOAT_LIMIT,
                step <= 0x1000,
        ;
    }
    q * (step as u128)
}

/// A number of tenths with its decimal point.
pub open spec fn tenths_text(t: int) -> Seq<char> {
    decimal((t / 10) as nat) + "."@ + decimal((t % 10) as nat)
}

/// A size in the largest unit that it fills, up to megabytes.
pub open spec fn bytes_text(n: u64) -> Seq<char> {
    if n < 1024 {
        decimal(n as nat) + " B"@
    } else if n < 1024 * 1024 {
        tenths_text(rounded(n * 10, 1024)) + " KB"@
    } else {
        tenths_text(rounded(nearest_float(n as int, 1) * 10, 1048576)) + " MB"@
    }
}

fn tenths(t: u128, unit: &str) -> (r: String)
    requires
        t <= 0x10_0000_0000_0000,
    ensures
        r@ == tenths_text(t as int) + unit@,
{
    let whole: u64 = (t / 10) as u64;
    let part: u64 = (t % 10) as u64;
    cat4(decimal_u64(whole).as_str(), ".", decimal_u64(part).as_str(), unit)
}

/// A size in the largest unit that it fills, up to megabytes.
pub fn format_bytes(n: u64) -> (r: String)
    ensures
        r@ == bytes_text(n),
{
    if n < 1024 {
        cat2(decimal_u64(n).as_str(), " B")
    } else if n < 1024 * 1024 {
        tenths(round(n as u128 * 10, 1024), " KB")
    } else {
        tenths(round(as_float(n) * 10, 1024 * 1024), " MB")
    }
}

pub open spec fn count_or_zero(o: Option<u32>) -> u32 {
    match o {
        Some(n) => n,
        None => 0,
    }
}

fn or_zero(o: Option<u32>) -> (n: u32)
    ensures
        n == count_or_zero(o),
{
    match o {
        Some(n) => n,
        None => 0,
    }
}

/// What the cache had a part in, behind the count of input tokens.
pub open spec fn cache_text(read: Option<u32>, created: Option<u32>) -> Seq<char> {
    let r = count_or_zero(read);
    let c = count_or_zero(created);
    if r == 0 && c == 0 {
        Seq::empty()
    } else if c == 0 {
        " ("@ + decimal(r as nat) + " cached)"@
    } else if r == 0 {
        " ("@ + decimal(c as nat) + " cache write)"@
    } else {
        " ("@ + decimal(r as nat) + " cached, "@ + decimal(c as nat) + " write)"@
    }
}

/// What the cache had a part in, behind the count of input tokens.
pub fn format_cache_suffix(cache_read: Option<u32>, cache_creation: Option<u32>) -> (r: String)
    ensures
        r@ == cache_text(cache_read, cache_creation),
{
    let read = or_zero(cache_read);
    let created = or_zero(cache_creation);
    if read == 0 && created == 0 {
        String::new()
    } else if created == 0 {
        cat3(" (", decimal_u64(read as u64).as_str(), " cached)")
    } else if read == 0 {
        cat3(" (", decimal_u64(created as u64).as_str(), " cache write)")
    } else {
        cat5(
            " (",
            decimal_u64(read as u64).as_str(),
            " cached, ",
            decimal_u64(created as u64).as_str(),
            " write)",
        )
    }
}

// ---------------------------------------------------------------------------
// The entries
// ---------------------------------------------------------------------------

/// A line of a prompt: the first behind its label, the others under it.
pub open spec fn prompt_row(segment: Seq<char>, i: int) -> LineView {
    row(
        seq![
            if i == 0 {
                span("user: "@, plain().with_bold().with_fg(Color::Cyan))
            } else {
                bare("      "@)
            },
            bare(segment),
        ],
    )
}

pub open spec fn prompt_rows(text: Seq<char>) -> Seq<LineView> {
    Seq::new(split(text, '\n').len(), |i: int| prompt_row(split(text, '\n')[i], i)).push(
        blank_line(),
    )
}

fn prompt_lines(text: &str) -> (out: Vec<Line>)
    ensures
        lines_view(out@) == prompt_rows(text@),
{
    let segments = split_text(text, '\n');
    let ghost rows = prompt_rows(text@).drop_last();
    let mut out = no_lines();
    let mut i: usize = 0;
    assert(lines_view(out@) =~= rows.take(0));
    assert(texts(segments@).len() == segments@.len());
    while i < segments.len()
        invariant
            i <= segments@.len(),
            texts(segments@) == split(text@, '\n'),
            rows == prompt_rows(text@).drop_last(),
            rows.len() == segments@.len(),
            lines_view(out@) == rows.take(i as int),
        decreases segments@.len() - i,
    {
        let label = if i == 0 {
            styled("user: ", Style::default().bold().fg(Color::Cyan))
        } else {
            raw("      ")
        };
        push_line(&mut out, Line::of2(label, raw(segments[i].as_str())));
        assert(texts(segments@)[i as int] == segments@[i as int]@);
        i = i + 1;
        assert(rows.take(i as int) =~= rows.take(i - 1).push(rows[i - 1]));
    }
    assert(rows.take(i as int) =~= rows);
    push_line(&mut out, Line::blank());
    assert(lines_view(out@) =~= prompt_rows(text@));
    out
}

pub open spec fn answer_rows(text: Seq<char>) -> Seq<LineView> {
    Seq::new(split(text, '\n').len(), |i: int| text_line(split(text, '\n')[i]))
}

fn answer_lines(text: &str) -> (out: Vec<Line>)
    ensures
        lines_view(out@) == answer_rows(text@),
{
    let segments = split_text(text, '\n');
    let ghost rows = answer_rows(text@);
    let mut out = no_lines();
    let mut i: usize = 0;
    assert(lines_view(out@) =~= rows.take(0));
    assert(texts(segments@).len() == segments@.len());
    while i < segments.len()
        invariant
            i <= segments@.len(),
            texts(segments@) == split(text@, '\n'),
            rows == answer_rows(text@),
            rows.len() == segments@.len(),
            lines_view(out@) == rows.take(i as int),
        decreases segments@.len() - i,
    {
        push_line(&mut out, Line::raw(segments[i].as_str()));
        assert(texts(segments@)[i as int] == segments@[i as int]@);
        i = i + 1;
        assert(rows.take(i as int) =~= rows.take(i - 1).push(rows[i - 1]));
    }
    assert(rows.take(i as int) =~= rows);
    out
}

/// A tool call and, once there is one, its result.
pub open spec fn call_rows(
    name: Seq<char>,
    input: Seq<char>,
    result: Option<(bool, Seq<char>)>,
) -> Seq<LineView> {
    let call = styled_text(
        "\u{1F527} "@ + name + "("@ + input_text(input, json_input(input), CALL_CHARS as int)
            + ")"@,
        plain().with_fg(Color::Yellow),
    );
    match result {
        Some((is_error, text)) => seq![
            call,
            styled_text(
                "   \u{2192} "@ + (if is_error {
                    "(error) "@
                } else {
                    ""@
                }) + prefix(text, CALL_CHARS as int),
                plain().with_dim(),
            ),
            blank_line(),
        ],
        None => seq![call, blank_line()],
    }
}

fn call_lines(name: &str, input: &str, result: &Option<(bool, String)>) -> (out: Vec<Line>)
    ensures
        lines_view(out@) == call_rows(
            name@,
            input@,
            match *result {
                Some((e, t)) => Some((e, t@)),
                None => None,
            },
        ),
{
    let shown = format_tool_input(input, CALL_CHARS);
    let mut out = no_lines();
    push_line(
        &mut out,
        Line::styled(
            cat5("\u{1F527} ", name, "(", shown.as_str(), ")").as_str(),
            Style::default().fg(Color::Yellow),
        ),
    );
    if let Some((is_error, text)) = result {
        let mark: &str = if *is_error {
            "(error) "
        } else {
            ""
        };
        push_line(
            &mut out,
            Line::styled(
                cat3("   \u{2192} ", mark, take_chars(text.as_str(), CALL_CHARS).as_str()).as_str(),
                Style::default().dim(),
            ),
        );
    }
    push_line(&mut out, Line::blank());
    out
}

/// What a run took.
pub open spec fn usage_text(
    input: u32,
    output: u32,
    read: Option<u32>,
    created: Option<u32>,
    ttft: Option<u64>,
    turns: u32,
) -> Seq<char> {
    let counts = decimal(turns as nat) + " turns \u{00B7} "@ + (decimal(input as nat)
        + "\u{2191}"@ + cache_text(read, created) + " "@ + decimal(output as nat)
        + "\u{2193} tokens"@);
    "[caliban: "@ + (match ttft {
        Some(ms) => counts + " \u{00B7} TTFT "@ + decimal(ms as nat) + "ms"@,
        None => counts,
    }) + "]"@
}

fn usage_line(
    input: u32,
    output: u32,
    read: Option<u32>,
    created: Option<u32>,
    ttft: Option<u64>,
    turns: u32,
) -> (r: String)
    ensures
        r@ == usage_text(input, output, read, created, ttft, turns),
{
    let tokens = cat5(
        decimal_u64(input as u64).as_str(),
        "\u{2191}",
        format_cache_suffix(read, created).as_str(),
        " ",
        cat2(decimal_u64(output as u64).as_str(), "\u{2193} tokens").as_str(),
    );
    let counts = cat3(decimal_u64(turns as u64).as_str(), " turns \u{00B7} ", tokens.as_str());
    let all = match ttft {
        Some(ms) => cat4(counts.as_str(), " \u{00B7} TTFT ", decimal_u64(ms).as_str(), "ms"),
        None => counts,
    };
    let r = cat3("[caliban: ", all.as_str(), "]");
    assert(r@ =~= usage_text(input, output, read, created, ttft, turns));
    r
}

/// The lines of an entry.
pub open spec fn entry_rows(e: TranscriptLine<Seq<char>>) -> Seq<LineView> {
    let dim = plain().with_dim();
    match e {
        TranscriptLine::UserPrompt(s) => prompt_rows(s),
        TranscriptLine::AssistantText(s) => answer_rows(s),
        TranscriptLine::AssistantThinking(s) => seq![
            styled_text("(thinking) "@ + s, dim.with_italic()),
        ],
        TranscriptLine::ToolCall { name, input, result, .. } => call_rows(name, input, result),
        TranscriptLine::UsageSummary {
            input_tokens,
            output_tokens,
            cache_read,
            cache_creation,
            last_turn_ttft_ms,
            turn_count,
        } => seq![
            styled_text(
                usage_text(
                    input_tokens,
                    output_tokens,
                    cache_read,
                    cache_creation,
                    last_turn_ttft_ms,
                    turn_count,
                ),
                dim,
            ),
            blank_line(),
        ],
        TranscriptLine::Info(s) => seq![styled_text("["@ + s + "]"@, dim)],
        TranscriptLine::Error(s) => seq![styled_text("error: "@ + s, plain().with_fg(Color::Red))],
        TranscriptLine::Attached { display_path, bytes } => seq![
            row(
                seq![
                    bare("    "@),
                    span(
                        "\u{1F4CE} "@ + display_path + " ("@ + bytes_text(bytes) + ")"@,
                        plain().with_fg(Color::DarkGray),
                    ),
                ],
            ),
        ],
    }
}

fn entry_lines(e: &TranscriptLine) -> (out: Vec<Line>)
    ensures
        lines_view(out@) == entry_rows(e@),
{
    let dim = Style::default().dim();
    let mut out = no_lines();
    match e {
        TranscriptLine::UserPrompt(s) => return prompt_lines(s.as_str()),
        TranscriptLine::AssistantText(s) => return answer_lines(s.as_str()),
        TranscriptLine::AssistantThinking(s) => push_line(
            &mut out,
            Line::styled(cat2("(thinking) ", s.as_str()).as_str(), dim.italic()),
        ),
        TranscriptLine::ToolCall { name, input, result, .. } => {
            return call_lines(name.as_str(), input.as_str(), result);
        },
        TranscriptLine::UsageSummary {
            input_tokens,
            output_tokens,
            cache_read,
            cache_creation,
            last_turn_ttft_ms,
            turn_count,
        } => {
            let text = usage_line(
                *input_tokens,
                *output_tokens,
                *cache_read,
                *cache_creation,
                *last_turn_ttft_ms,
                *turn_count,
            );
            push_line(&mut out, Line::styled(text.as_str(), dim));
            push_line(&mut out, Line::blank());
        },
        TranscriptLine::Info(s) => push_line(
            &mut out,
            Line::styled(cat3("[", s.as_str(), "]").as_str(), dim),
        ),
        TranscriptLine::Error(s) => push_line(
            &mut out,
            Line::styled(cat2("error: ", s.as_str()).as_str(), Style::default().fg(Color::Red)),
        ),
        TranscriptLine::Attached { display_path, bytes } => {
            let text = cat5(
                "\u{1F4CE} ",
                display_path.as_str(),
                " (",
                format_bytes(*bytes).as_str(),
                ")",
            );
            push_line(
                &mut out,
                Line::of2(raw("    "), styled(text.as_str(), Style::default().fg(Color::DarkGray))),
            );
        },
    }
    out
}

/// The lines of the transcript, entry by entry.
pub open spec fn transcript_rows(entries: Seq<TranscriptLine<Seq<char>>>) -> Seq<LineView>
    decreases entries.len(),
{
    if entries.len() == 0 {
        Seq::empty()
    } else {
        transcript_rows(entries.drop_last()) + entry_rows(entries.last())
    }
}

/// The lines of the transcript, entry by entry.
pub fn render_transcript(app: &App) -> (out: Vec<Line>)
    ensures
        lines_view(out@) == transcript_rows(app@.transcript),
{
    let ghost all = transcript_view(app.transcript@);
    let mut out = no_lines();
    let mut i: usize = 0;
    assert(all.take(0) =~= Seq::<TranscriptLine<Seq<char>>>::empty());
    while i < app.transcript.len()
        invariant
            i <= app.transcript@.len(),
            all == transcript_view(app.transcript@),
            lines_view(out@) == transcript_rows(all.take(i as int)),
        decreases app.transcript@.len() - i,
    {
        extend_lines(&mut out, entry_lines(&app.transcript[i]));
        assert(all[i as int] == app.transcript@[i as int]@);
        i = i + 1;
        assert(all.take(i as int).drop_last() =~= all.take(i - 1));
    }
    assert(all.take(i as int) =~= all);
    out
}

/// An entry that joins the transcript adds its lines behind all others.
pub proof fn law_entries_add_lines_at_the_end(
    entries: Seq<TranscriptLine<Seq<char>>>,
    e: TranscriptLine<Seq<char>>,
)
    ensures
        transcript_rows(entries.push(e)) == transcript_rows(entries) + entry_rows(e),
{
    assert(entries.push(e).drop_last() =~= entries);
}

/// A shown input is never longer than the limit and a mark.
pub proof fn law_inputs_stay_short(input: Seq<char>, parsed: Option<ToolInputView>, max: int)
    requires
        0 <= max,
    ensures
        input_text(input, parsed, max).len() <= max + 1,
{
    reveal_strlit("\u{2026}");
}

/// What a call gave stands on the second of three rows: behind the arrow,
/// its first eighty characters, with `(error) ` before them exactly where
/// the call failed. The row is dim, and a blank one follows.
pub proof fn law_results_are_marked_where_they_failed(
    id: Seq<char>,
    name: Seq<char>,
    input: Seq<char>,
    is_error: bool,
    text: Seq<char>,
)
    ensures
        ({
            let rows = entry_rows(
                TranscriptLine::ToolCall {
                    tool_use_id: id,
                    name,
                    input,
                    result: Some((is_error, text)),
                },
            );
            let shown = if text.len() <= 80 {
                text
            } else {
                text.take(80)
            };
            &&& rows.len() == 3
            &&& !is_error ==> rows[1] == styled_text(
                "   \u{2192} "@ + shown,
                Style { dim: true, ..plain() },
            )
            &&& is_error ==> rows[1] == styled_text(
                "   \u{2192} "@ + ("(error) "@ + shown),
                Style { dim: true, ..plain() },
            )
            &&& rows[2].spans.len() == 0
        }),
{
    reveal_strlit("");
    let shown = prefix(text, 80);
    assert("   \u{2192} "@ + ""@ + shown =~= "   \u{2192} "@ + shown);
    assert("   \u{2192} "@ + "(error) "@ + shown =~= "   \u{2192} "@ + ("(error) "@ + shown));
    if text.len() == 80 {
        assert(text.take(80) =~= text);
    }
}

/// A failed call and one that succeeded with the same text differ on the
/// row of the result alone, and there by the mark.
pub proof fn law_the_mark_is_all_that_tells_failures_apart(
    id: Seq<char>,
    name: Seq<char>,
    input: Seq<char>,
    text: Seq<char>,
)
    ensures
        ({
            let failed = entry_rows(
                TranscriptLine::ToolCall {
                    tool_use_id: id,
                    name,
                    input,
                    result: Some((true, text)),
                },
            );
            let marked = entry_rows(
                TranscriptLine::ToolCall {
                    tool_use_id: id,
                    name,
                    input,
                    result: Some((false, "(error) "@ + text)),
                },
            );
            &&& failed[0] == marked[0]
            &&& text.len() <= 72 ==> failed[1] == marked[1]
        }),
{
    reveal_strlit("(error) ");
    law_results_are_marked_where_they_failed(id, name, input, true, text);
    law_results_are_marked_where_they_failed(id, name, input, false, "(error) "@ + text);
}

/// The first row of a call is its name and, in brackets, its input, in
/// yellow; a call without a result has that row and a blank one.
pub proof fn law_calls_show_their_name_and_input(
    id: Seq<char>,
    name: Seq<char>,
    input: Seq<char>,
    result: Option<(bool, Seq<char>)>,
)
    ensures
        ({
            let rows = entry_rows(TranscriptLine::ToolCall { tool_use_id: id, name, input, result });
            &&& rows.len() == (if result is Some {
                3int
            } else {
                2
            })
            &&& rows[0] == styled_text(
                "\u{1F527} "@ + name + "("@ + input_text(input, json_input(input), 80) + ")"@,
                Style { fg: Some(Color::Yellow), ..plain() },
            )
            &&& rows.last().spans.len() == 0
        }),
{
}

/// An input that is no object is shown as it was written; one that is, by
/// its fields: `key=value` each, texts in quotes and cut behind forty
/// characters, parted by commas. Either is cut behind the limit, with a mark
/// exactly where something was cut off.
pub proof fn law_inputs_show_their_fields(
    input: Seq<char>,
    parsed: Option<ToolInputView>,
    max: int,
)
    requires
        0 <= max,
    ensures
        ({
            let whole = match parsed {
                Some(ToolInput::Object(fields)) => join(
                    Seq::new(
                        fields.len(),
                        |i: int|
                            fields[i].key + "="@ + (match fields[i].value {
                                FieldValue::Text(t) => "\""@ + (if t.len() <= 40 {
                                    t
                                } else {
                                    t.take(40) + "\u{2026}"@
                                }) + "\""@,
                                FieldValue::Other(t) => t,
                            }),
                    ),
                    ", "@,
                ),
                _ => input,
            };
            input_text(input, parsed, max) == (if whole.len() <= max {
                whole
            } else {
                whole.take(max) + "\u{2026}"@
            })
        }),
{
    if let Some(ToolInput::Object(fields)) = parsed {
        let listed = Seq::new(
            fields.len(),
            |i: int|
                fields[i].key + "="@ + (match fields[i].value {
                    FieldValue::Text(t) => "\""@ + (if t.len() <= 40 {
                        t
                    } else {
                        t.take(40) + "\u{2026}"@
                    }) + "\""@,
                    FieldValue::Other(t) => t,
                }),
        );
        assert(field_texts(fields) =~= listed);
    }
}

/// A prompt takes a row for each of its lines and a blank one: the first
/// behind the label `user: `, the others under it.
pub proof fn law_prompts_stand_behind_their_label(text: Seq<char>)
    ensures
        ({
            let rows = entry_rows(TranscriptLine::UserPrompt(text));
            let ls = split(text, '\n');
            &&& rows.len() == ls.len() + 1
            &&& rows.last().spans.len() == 0
            &&& forall|i: int|
                0 <= i < ls.len() ==> {
                    &&& (#[trigger] rows[i]).spans.len() == 2
                    &&& rows[i].spans[0].content == (if i == 0 {
                        "user: "@
                    } else {
                        "      "@
                    })
                    &&& rows[i].spans[1].content == ls[i]
                }
        }),
{
}

/// An answer takes a row for each of its lines, just as it reads.
pub proof fn law_answers_read_line_by_line(text: Seq<char>)
    ensures
        ({
            let rows = entry_rows(TranscriptLine::AssistantText(text));
            let ls = split(text, '\n');
            &&& rows.len() == ls.len()
            &&& forall|i: int| 0 <= i < ls.len() ==> #[trigger] rows[i] == text_line(ls[i])
        }),
{
}

/// The other entries say what they are: thinking is marked as such,
/// information stands in brackets, errors are named and red, and a file
/// comes with its size.
pub proof fn law_entries_say_what_they_are(text: Seq<char>, bytes: u64)
    ensures
        entry_rows(TranscriptLine::AssistantThinking(text)) == Seq::<LineView>::empty().push(
            styled_text("(thinking) "@ + text, Style { dim: true, italic: true, ..plain() }),
        ),
        entry_rows(TranscriptLine::Info(text)) == Seq::<LineView>::empty().push(
            styled_text("["@ + text + "]"@, Style { dim: true, ..plain() }),
        ),
        entry_rows(TranscriptLine::Error(text)) == Seq::<LineView>::empty().push(
            styled_text("error: "@ + text, Style { fg: Some(Color::Red), ..plain() }),
        ),
        ({
            let rows = entry_rows(TranscriptLine::Attached { display_path: text, bytes });
            &&& rows.len() == 1
            &&& rows[0].spans.len() == 2
            &&& rows[0].spans[0].content == "    "@
            &&& rows[0].spans[1].content == "\u{1F4CE} "@ + text + " ("@ + bytes_text(bytes)
                + ")"@
        }),
{
}

/// The figures of a run: its turns, what went in, what of that the cache had
/// a part in, what came out, and the time to the first token where it was
/// measured, in brackets.
pub proof fn law_figures_stand_in_their_places(
    input_tokens: u32,
    output_tokens: u32,
    cache_read: Option<u32>,
    cache_creation: Option<u32>,
    last_turn_ttft_ms: Option<u64>,
    turn_count: u32,
)
    ensures
        ({
            let rows = entry_rows(
                TranscriptLine::UsageSummary {
                    input_tokens,
                    output_tokens,
                    cache_read,
                    cache_creation,
                    last_turn_ttft_ms,
                    turn_count,
                },
            );
            let text = "[caliban: "@ + decimal(turn_count as nat) + " turns \u{00B7} "@ + decimal(
                input_tokens as nat,
            ) + "\u{2191}"@ + cache_text(cache_read, cache_creation) + " "@ + decimal(
                output_tokens as nat,
            ) + "\u{2193} tokens"@ + (match last_turn_ttft_ms {
                Some(ms) => " \u{00B7} TTFT "@ + decimal(ms as nat) + "ms"@,
                None => Seq::empty(),
            }) + "]"@;
            &&& rows.len() == 2
            &&& rows[0] == styled_text(text, Style { dim: true, ..plain() })
            &&& rows[1].spans.len() == 0
        }),
{
    let text = "[caliban: "@ + decimal(turn_count as nat) + " turns \u{00B7} "@ + decimal(
        input_tokens as nat,
    ) + "\u{2191}"@ + cache_text(cache_read, cache_creation) + " "@ + decimal(output_tokens as nat)
        + "\u{2193} tokens"@ + (match last_turn_ttft_ms {
        Some(ms) => " \u{00B7} TTFT "@ + decimal(ms as nat) + "ms"@,
        None => Seq::empty(),
    }) + "]"@;
    assert(usage_text(
        input_tokens,
        output_tokens,
        cache_read,
        cache_creation,
        last_turn_ttft_ms,
        turn_count,
    ) =~= text);
}

/// The cache is named with what it had a part in: nothing where it had none,
/// what was read from it as cached, what was written to it as written.
pub proof fn law_the_cache_is_named_where_it_helped(read: Option<u32>, created: Option<u32>)
    ensures
        ({
            let reads = read is Some && read->0 > 0;
            let writes = created is Some && created->0 > 0;
            &&& !reads && !writes ==> cache_text(read, created).len() == 0
            &&& reads && !writes ==> cache_text(read, created) == " ("@ + decimal(read->0 as nat)
                + " cached)"@
            &&& !reads && writes ==> cache_text(read, created) == " ("@ + decimal(
                created->0 as nat,
            ) + " cache write)"@
            &&& reads && writes ==> cache_text(read, created) == " ("@ + decimal(read->0 as nat)
                + " cached, "@ + decimal(created->0 as nat) + " write)"@
        }),
{
}

/// Rounding finds a nearest whole number, and the even one of two.
pub proof fn law_rounding_finds_the_nearest(n: int, d: int)
    requires
        0 <= n,
        0 < d,
    ensures
        -d <= 2 * (rounded(n, d) * d - n) <= d,
        2 * (rounded(n, d) * d - n) == d || 2 * (rounded(n, d) * d - n) == -d ==> rounded(n, d) % 2
            == 0,
{
    let q = n / d;
    let r = n % d;
    vstd::arithmetic::div_mod::lemma_fundamental_div_mod(n, d);
    vstd::arithmetic::div_mod::lemma_mod_bound(n, d);
    assert(d * q == q * d) by (nonlinear_arith);
    assert((q + 1) * d == q * d + d) by (nonlinear_arith);
}

/// Numbers below two to the power of fifty-three are floating-point numbers
/// themselves.
pub proof fn law_small_numbers_stay_exact(n: int)
    requires
        0 <= n < 0x20_0000_0000_0000,
    ensures
        nearest_float(n, 1) == n,
{
    assert(n / 1 == n && n % 1 == 0) by (nonlinear_arith);
    assert(rounded(n, 1) * 1 == n);
}

/// A size below a kilobyte counts its bytes; a larger one is given in
/// kilobytes or, from a megabyte on, in megabytes, to the nearest tenth.
pub proof fn law_sizes_come_in_their_unit(n: u64)
    ensures
        n < 1024 ==> bytes_text(n) == decimal(n as nat) + " B"@,
        1024 <= n < 1048576 ==> ({
            let t = rounded(n * 10, 1024);
            &&& bytes_text(n) == decimal((t / 10) as nat) + "."@ + decimal((t % 10) as nat)
                + " KB"@
            &&& -1024 <= 2 * (t * 1024 - n * 10) <= 1024
        }),
        1048576 <= n < 0x20_0000_0000_0000 ==> ({
            let t = rounded(n * 10, 1048576);
            &&& bytes_text(n) == decimal((t / 10) as nat) + "."@ + decimal((t % 10) as nat)
                + " MB"@
            &&& -1048576 <= 2 * (t * 1048576 - n * 10) <= 1048576
        }),
{
    law_rounding_finds_the_nearest(n * 10, 1024);
    law_rounding_finds_the_nearest(n * 10, 1048576);
    if n < 0x20_0000_0000_0000 {
        law_small_numbers_stay_exact(n as int);
    }
}

/// The transcript is drawn in its order: the lines of its entries, one entry
/// behind the other.
pub proof fn law_transcripts_draw_in_order(
    a: Seq<TranscriptLine<Seq<char>>>,
    b: Seq<TranscriptLine<Seq<char>>>,
)
    ensures
        transcript_rows(a + b) == transcript_rows(a) + transcript_rows(b),
        b.len() == 1 ==> transcript_rows(b) == entry_rows(b[0]),
    decreases b.len(),
{
    if b.len() == 0 {
        assert(a + b =~= a);
        assert(transcript_rows(a) + transcript_rows(b) =~= transcript_rows(a));
    } else {
        law_transcripts_draw_in_order(a, b.drop_last());
        assert((a + b).drop_last() =~= a + b.drop_last());
        assert((a + b).last() == b.last());
        assert(transcript_rows(a + b) =~= transcript_rows(a) + transcript_rows(b));
        if b.len() == 1 {
            assert(transcript_rows(b.drop_last()) =~= Seq::<LineView>::empty());
            assert(transcript_rows(b) =~= entry_rows(b[0]));
        }
    }
}

} // verus!
