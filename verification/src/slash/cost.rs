//! Slash commands: what the session has cost.

use vstd::prelude::*;

use crate::slash::{
    register_all, registered_all, Command, SlashCommand, SlashCommandMeta, SlashCommandRegistry,
};
use crate::text::{
    cat4, decimal, decimal_u64, digit, push_text, texts,
};

verus! {

/// The commands of this group, in the order in which they register.
pub open spec fn commands() -> Seq<SlashCommand> {
    seq![
        SlashCommand {
            meta: SlashCommandMeta {
                name: "/cost",
                description: "show cumulative cost and per-model breakdown",
                args_hint: "",
                hidden: false,
                immediate: true,
            },
            command: Command::Cost,
        },
    ]
}

/// Registers the commands of this group.
pub fn register(registry: &mut SlashCommandRegistry)
    requires
        old(registry).wf(),
    ensures
        final(registry).wf(),
        final(registry)@ == registered_all(old(registry)@, commands()),
{
    let mut cmds: Vec<SlashCommand> = Vec::new();
    cmds.push(
        SlashCommand {
            meta: SlashCommandMeta {
                name: "/cost",
                description: "show cumulative cost and per-model breakdown",
                args_hint: "",
                hidden: false,
                immediate: true,
            },
            command: Command::Cost,
        },
    );
    assert(cmds@ =~= commands());
    register_all(registry, cmds);
}

// ---------------------------------------------------------------------------
// Amounts
// ---------------------------------------------------------------------------

/// An amount of money: `mantissa` divided by ten to the power of `scale`.
#[derive(Debug, Clone, Copy, PartialEq, Eq, Structural)]
pub struct Usd {
    pub mantissa: i128,
    pub scale: u32,
}

/// Ten to the power of `n`.
pub open spec fn ten_to(n: nat) -> nat
    decreases n,
{
    if n == 0 {
        1
    } else {
        10 * ten_to((n - 1) as nat)
    }
}

/// The last four digits of a number, with zeros in front where it has fewer.
pub open spec fn four_digits(n: nat) -> Seq<char> {
    seq![digit((n / 1000) % 10), digit((n / 100) % 10), digit((n / 10) % 10), digit(n % 10)]
}

pub open spec fn magnitude(n: int) -> nat {
    if n < 0 {
        (-n) as nat
    } else {
        n as nat
    }
}

/// An amount with four decimals; what lies behind them is cut off.
pub open spec fn four_places(u: Usd) -> Seq<char> {
    let units = magnitude(u.mantissa as int) * 10000 / ten_to(u.scale as nat);
    (if u.mantissa < 0 {
        "-"@
    } else {
        ""@
    }) + decimal(units / 10000) + "."@ + four_digits(units)
}

impl Usd {
    /// At most twenty-eight decimals, ninety-six bits, and twenty-seven
    /// digits before the point.
    pub open spec fn wf(self) -> bool {
        &&& self.scale <= 28
        &&& -0x1_0000_0000_0000_0000_0000_0000 < self.mantissa < 0x1_0000_0000_0000_0000_0000_0000
        &&& magnitude(self.mantissa as int) < ten_to((27 + self.scale) as nat)
    }

    /// Whether the amount can be written.
    pub fn is_writable(self) -> (r: bool)
        ensures
            r == self.wf(),
    {
        proof {
            lemma_ten_to_27();
            if self.scale >= 2 {
                lemma_ten_to_grows(29, (27 + self.scale) as nat);
            }
        }
        let most: i128 = if self.scale == 0 {
            1_000_000_000_000_000_000_000_000_000
        } else if self.scale == 1 {
            10_000_000_000_000_000_000_000_000_000
        } else {
            0x1_0000_0000_0000_0000_0000_0000
        };
        self.scale <= 28 && -most < self.mantissa && self.mantissa < most
    }
}

proof fn lemma_ten_to_27()
    ensures
        ten_to(27) == 1_000_000_000_000_000_000_000_000_000,
        ten_to(28) == 10_000_000_000_000_000_000_000_000_000,
        ten_to(29) == 100_000_000_000_000_000_000_000_000_000,
{
    reveal_with_fuel(ten_to, 30);
}

proof fn lemma_ten_to_grows(a: nat, b: nat)
    requires
        a <= b,
    ensures
        ten_to(a) <= ten_to(b),
    decreases b,
{
    if a < b {
        lemma_ten_to_grows(a, (b - 1) as nat);
    }
}

/// Writes an amount with `{:.4}` of `rust_decimal::Decimal`, made by
/// `Decimal::from_i128_with_scale`: the sign, the whole part, a point, and
/// four decimals, the rest cut off without rounding. The text is built in
/// thirty-two characters, the sign apart: more than twenty-seven digits
/// before the point do not fit, and panic.
#[verifier::external_body]
pub(crate) fn format_usd(u: Usd) -> (r: String)
    requires
        u.wf(),
    ensures
        r@ == four_places(u),
{
    format!("{:.4}", rust_decimal::Decimal::from_i128_with_scale(u.mantissa, u.scale))
}

// ---------------------------------------------------------------------------
// What the session cost
// ---------------------------------------------------------------------------

/// What one model took and cost. `usd_rounded` is the amount with four
/// decimals, rounded.
#[derive(Debug)]
pub struct ModelCost<S = String> {
    pub provider: S,
    pub model: S,
    pub input_tokens: u64,
    pub output_tokens: u64,
    pub cache_read_tokens: u64,
    pub cache_creation_tokens: u64,
    pub usd: Usd,
    pub usd_rounded: S,
}

pub type ModelCostView = ModelCost<Seq<char>>;

impl View for ModelCost<String> {
    type V = ModelCost<Seq<char>>;

    open spec fn view(&self) -> ModelCost<Seq<char>> {
        ModelCost {
            provider: self.provider@,
            model: self.model@,
            input_tokens: self.input_tokens,
            output_tokens: self.output_tokens,
            cache_read_tokens: self.cache_read_tokens,
            cache_creation_tokens: self.cache_creation_tokens,
            usd: self.usd,
            usd_rounded: self.usd_rounded@,
        }
    }
}

pub open spec fn costs_view(v: Seq<ModelCost>) -> Seq<ModelCost<Seq<char>>> {
    Seq::new(v.len(), |i: int| v[i]@)
}

/// What the session cost, in all and by model.
#[derive(Debug)]
pub struct CostBreakdown {
    pub total: Usd,
    pub total_rounded: String,
    pub cache_savings: Usd,
    pub cache_savings_rounded: String,
    pub by_model: Vec<ModelCost>,
}

impl CostBreakdown {
    pub open spec fn wf(&self) -> bool {
        &&& self.total.wf()
        &&& self.cache_savings.wf()
        &&& forall|i: int| 0 <= i < self.by_model@.len() ==> (#[trigger] self.by_model@[i]).usd.wf()
    }

    /// Whether all amounts can be written.
    pub fn is_writable(&self) -> (r: bool)
        ensures
            r == self.wf(),
    {
        if !self.total.is_writable() || !self.cache_savings.is_writable() {
            return false;
        }
        let mut i: usize = 0;
        while i < self.by_model.len()
            invariant
                i <= self.by_model@.len(),
                forall|k: int| 0 <= k < i ==> (#[trigger] self.by_model@[k]).usd.wf(),
            decreases self.by_model@.len() - i,
        {
            if !self.by_model[i].usd.is_writable() {
                return false;
            }
            i = i + 1;
        }
        true
    }
}

pub open spec fn cost_row(m: ModelCost<Seq<char>>) -> Seq<char> {
    "  "@ + m.provider + " / "@ + m.model + "  in="@ + decimal(m.input_tokens as nat) + "  out="@
        + decimal(m.output_tokens as nat) + "  cache_r="@ + decimal(m.cache_read_tokens as nat)
        + "  cache_w="@ + decimal(m.cache_creation_tokens as nat) + "  $"@ + four_places(m.usd)
}

/// The total and the savings, then one row for each model.
pub open spec fn cost_text(c: CostBreakdown) -> Seq<Seq<char>> {
    let head = seq![
        "cost \u{2014} total: $"@ + four_places(c.total) + "  cache savings: $"@ + four_places(
            c.cache_savings,
        ),
    ];
    let rows = costs_view(c.by_model@);
    if rows.len() == 0 {
        head.push("(no usage recorded yet \u{2014} send a prompt first)"@)
    } else {
        head + Seq::new(rows.len(), |i: int| cost_row(rows[i]))
    }
}

fn cost_line(m: &ModelCost) -> (r: String)
    requires
        m.usd.wf(),
    ensures
        r@ == cost_row(m@),
{
    let mut s = cat4("  ", m.provider.as_str(), " / ", m.model.as_str());
    s.append("  in=");
    s.append(decimal_u64(m.input_tokens).as_str());
    s.append("  out=");
    s.append(decimal_u64(m.output_tokens).as_str());
    s.append("  cache_r=");
    s.append(decimal_u64(m.cache_read_tokens).as_str());
    s.append("  cache_w=");
    s.append(decimal_u64(m.cache_creation_tokens).as_str());
    s.append("  $");
    s.append(format_usd(m.usd).as_str());
    s
}

/// The answer to `/cost`.
pub fn cost_lines(c: &CostBreakdown) -> (out: Vec<String>)
    requires
        c.wf(),
    ensures
        texts(out@) == cost_text(*c),
{
    let mut out: Vec<String> = Vec::new();
    assert(texts(out@) =~= Seq::<Seq<char>>::empty());
    push_text(
        &mut out,
        cat4(
            "cost \u{2014} total: $",
            format_usd(c.total).as_str(),
            "  cache savings: $",
            format_usd(c.cache_savings).as_str(),
        ),
    );
    let ghost head = texts(out@);
    let ghost all = costs_view(c.by_model@);
    let ghost rows = Seq::new(all.len(), |i: int| cost_row(all[i]));
    if c.by_model.len() == 0 {
        push_text(
            &mut out,
            String::from_str("(no usage recorded yet \u{2014} send a prompt first)"),
        );
        return out;
    }
    let mut i: usize = 0;
    assert(head =~= head + rows.take(0));
    while i < c.by_model.len()
        invariant
            i <= c.by_model@.len(),
            c.wf(),
            all == costs_view(c.by_model@),
            rows == Seq::new(all.len(), |i: int| cost_row(all[i])),
            texts(out@) == head + rows.take(i as int),
        decreases c.by_model@.len() - i,
    {
        assert(all[i as int] == c.by_model@[i as int]@);
        push_text(&mut out, cost_line(&c.by_model[i]));
        i = i + 1;
        assert(rows.take(i as int) =~= rows.take(i - 1).push(rows[i - 1]));
        assert((head + rows.take(i - 1)).push(rows[i - 1]) =~= head + rows.take(i as int));
    }
    assert(rows.take(rows.len() as int) =~= rows);
    out
}

/// Each name with what it runs, whether it is listed, and whether it may run
/// while a turn is in flight.
pub proof fn law_cost_is_registered()
    ensures
        commands().len() == 1,
        commands()[0].meta.name@ == "/cost"@,
        commands()[0].meta.description@ == "show cumulative cost and per-model breakdown"@,
        commands()[0].meta.args_hint@ == ""@,
        !commands()[0].meta.hidden,
        commands()[0].meta.immediate,
        commands()[0].command == Command::Cost,
{
}

/// The row of a model tells its provider, its name, its four numbers of
/// tokens and what it cost.
pub proof fn law_cost_rows_tell_the_tokens(m: ModelCost<Seq<char>>)
    ensures
        cost_row(m) == "  "@ + m.provider + " / "@ + m.model + "  in="@ + decimal(
            m.input_tokens as nat,
        ) + "  out="@ + decimal(m.output_tokens as nat) + "  cache_r="@ + decimal(
            m.cache_read_tokens as nat,
        ) + "  cache_w="@ + decimal(m.cache_creation_tokens as nat) + "  $"@ + four_places(m.usd),
{
}

/// The answer leads with the total and what the cache saved, and then has a
/// row for each model in their order, or a line that says there is none.
pub proof fn law_costs_are_listed(c: CostBreakdown, i: int)
    ensures
        cost_text(c)[0] == "cost \u{2014} total: $"@ + four_places(c.total) + "  cache savings: $"@
            + four_places(c.cache_savings),
        c.by_model@.len() == 0 ==> cost_text(c).len() == 2 && cost_text(c)[1]
            == "(no usage recorded yet \u{2014} send a prompt first)"@,
        c.by_model@.len() > 0 ==> cost_text(c).len() == c.by_model@.len() + 1,
        0 <= i < c.by_model@.len() ==> cost_text(c)[i + 1] == cost_row(c.by_model@[i]@),
{
}

/// An amount in ten-thousandths is written with a point before its last four
/// digits; a further decimal is cut off, and a minus stands before an amount
/// below nothing.
pub proof fn law_amounts_are_cut_to_four_places(u: Usd, n: nat, more: nat)
    requires
        more < 10,
        u.mantissa == n || u.mantissa == -(n as int) || u.mantissa == 10 * n + more || u.mantissa
            == -(10 * n + more),
        u.scale == 4 ==> u.mantissa == n || u.mantissa == -(n as int),
        u.scale == 5 ==> u.mantissa == 10 * n + more || u.mantissa == -(10 * n + more),
        u.scale == 4 || u.scale == 5,
    ensures
        u.mantissa >= 0 ==> four_places(u) == decimal(n / 10000) + "."@ + four_digits(n),
        u.mantissa < 0 ==> four_places(u) == "-"@ + decimal(n / 10000) + "."@ + four_digits(n),
{
    assert(ten_to(4) == 10000 && ten_to(5) == 100000) by {
        reveal_with_fuel(ten_to, 6);
    }
    let m = magnitude(u.mantissa as int);
    let units = m * 10000 / ten_to(u.scale as nat);
    if u.scale == 4 {
        assert(m == n);
        assert(n * 10000 / 10000 == n) by (nonlinear_arith);
    } else {
        assert(m == 10 * n + more);
        assert((10 * n + more) * 10000 / 100000 == n) by (nonlinear_arith)
            requires
                more < 10,
        ;
    }
    assert(units == n);
    reveal_strlit("");
    assert(""@ + decimal(n / 10000) =~= decimal(n / 10000));
}

/// The four digits of a number below ten thousand are its digits, with zeros
/// before them.
pub proof fn law_four_digits_weigh_tenfold(a: nat, b: nat, c: nat, d: nat)
    requires
        a < 10 && b < 10 && c < 10 && d < 10,
    ensures
        four_digits(((a * 10 + b) * 10 + c) * 10 + d) == seq![digit(a), digit(b), digit(c), digit(d)],
{
    let ab = a * 10 + b;
    let abc = ab * 10 + c;
    let n = abc * 10 + d;
    assert(n / 10 == abc && n % 10 == d);
    assert(abc / 10 == ab && abc % 10 == c);
    assert(ab / 10 == a && ab % 10 == b);
    assert(n / 100 == ab) by (nonlinear_arith)
        requires
            n == (ab * 10 + c) * 10 + d,
            c < 10,
            d < 10,
    ;
    assert(n / 1000 == a) by (nonlinear_arith)
        requires
            n == ((a * 10 + b) * 10 + c) * 10 + d,
            b < 10,
            c < 10,
            d < 10,
    ;
    assert(a % 10 == a);
    assert(four_digits(n) =~= seq![digit(a), digit(b), digit(c), digit(d)]);
}

/// Each further place is worth ten times the one before.
pub proof fn law_places_weigh_tenfold(n: nat)
    ensures
        ten_to(0) == 1,
        ten_to(n + 1) == 10 * ten_to(n),
{
}

/// An amount can be written exactly where it has at most twenty-eight
/// decimals, ninety-six bits and twenty-seven digits before the point.
pub proof fn law_writable_amounts_are_bounded(u: Usd)
    ensures
        u.wf() <==> u.scale <= 28 && -79_228_162_514_264_337_593_543_950_336 < u.mantissa
            < 79_228_162_514_264_337_593_543_950_336 && magnitude(u.mantissa as int) < ten_to(
            (27 + u.scale) as nat,
        ),
        magnitude(u.mantissa as int) == u.mantissa || magnitude(u.mantissa as int) == -u.mantissa,
{
}

} // verus!
