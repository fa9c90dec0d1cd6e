//! Slash commands: extended thinking.

use vstd::prelude::*;

use crate::slash::{
    register_all, registered_all, Command, SlashCommand, SlashCommandMeta, SlashCommandRegistry,
    ThinkingSetting,
};
use crate::text::{
    ascii_lowercase, cat2, cat3, decimal, decimal_u64, law_decimals_read_back,
    law_numbers_are_read_as_written, law_trimming_takes_white_space_off, parse_u32, same, skip_chars, starts_with,
    starts_with_text, to_ascii_lowercase, trim, trim_text, written_u32,
};

verus! {

/// The commands of this group, in the order in which they register.
pub open spec fn commands() -> Seq<SlashCommand> {
    seq![
        SlashCommand {
            meta: SlashCommandMeta {
                name: "/think",
                description: "toggle extended thinking (on|off|auto|<budget>), independent of /effort",
                args_hint: "<on|off|auto|budget>",
                hidden: false,
                immediate: true,
            },
            command: Command::Think,
        },
    ]
}

/// Registers the commands of this group.
pub fn register(registry: &mut SlashCommandRegistry)
    requires
        old(registry).wf(),
    ensures
        final(registry).wf(),
        final(registry)@ == registered_all(old(registry)@, commands()),
{
    let mut cmds: Vec<SlashCommand> = Vec::new();
    cmds.push(
        SlashCommand {
            meta: SlashCommandMeta {
                name: "/think",
                description: "toggle extended thinking (on|off|auto|<budget>), independent of /effort",
                args_hint: "<on|off|auto|budget>",
                hidden: false,
                immediate: true,
            },
            command: Command::Think,
        },
    );
    assert(cmds@ =~= commands());
    register_all(registry, cmds);
}

/// The budget that an argument writes: a number of tokens, with or without
/// `on` before it.
pub open spec fn budget(lowered: Seq<char>) -> Option<nat> {
    written_u32(
        trim(
            if starts_with(lowered, "on"@) {
                lowered.skip("on"@.len() as int)
            } else {
                lowered
            },
        ),
    )
}

/// The setting that an argument asks for, whatever its case; a message for
/// one that is no setting. A budget of nothing is none.
pub open spec fn thinking_arg(arg: Seq<char>) -> Result<ThinkingSetting, Seq<char>> {
    let lowered = ascii_lowercase(trim(arg));
    if lowered == "auto"@ {
        Ok(ThinkingSetting::Auto)
    } else if lowered == "off"@ {
        Ok(ThinkingSetting::Off)
    } else if lowered == "on"@ {
        Ok(ThinkingSetting::On(None))
    } else if budget(lowered) is Some && budget(lowered)->0 > 0 {
        Ok(ThinkingSetting::On(Some(budget(lowered)->0 as u32)))
    } else {
        Err("/think: unknown arg `"@ + trim(arg) + "` (expected on|off|auto|<budget>)"@)
    }
}

pub open spec fn result_text(r: Result<ThinkingSetting, String>) -> Result<ThinkingSetting, Seq<char>> {
    match r {
        Ok(t) => Ok(t),
        Err(e) => Err(e@),
    }
}

pub fn parse_thinking_arg(arg: &str) -> (r: Result<ThinkingSetting, String>)
    ensures
        result_text(r) == thinking_arg(arg@),
{
    let trimmed = trim_text(arg);
    let lowered = to_ascii_lowercase(trimmed.as_str());
    if same(lowered.as_str(), "auto") {
        return Ok(ThinkingSetting::Auto);
    }
    if same(lowered.as_str(), "off") {
        return Ok(ThinkingSetting::Off);
    }
    if same(lowered.as_str(), "on") {
        return Ok(ThinkingSetting::On(None));
    }
    proof {
        reveal_strlit("on");
    }
    let rest = if starts_with_text(lowered.as_str(), "on") {
        skip_chars(lowered.as_str(), 2)
    } else {
        lowered.clone()
    };
    let number = trim_text(rest.as_str());
    match parse_u32(number.as_str()) {
        Some(n) => {
            if n > 0 {
                return Ok(ThinkingSetting::On(Some(n)));
            }
        },
        None => {},
    }
    Err(
        cat3("/think: unknown arg `", trimmed.as_str(), "` (expected on|off|auto|<budget>)"),
    )
}

pub open spec fn setting_text(s: ThinkingSetting) -> Seq<char> {
    match s {
        ThinkingSetting::Auto => "auto (derived from /effort)"@,
        ThinkingSetting::Off => "off"@,
        ThinkingSetting::On(None) => "on"@,
        ThinkingSetting::On(Some(n)) => "on (budget "@ + decimal(n as nat) + ")"@,
    }
}

/// What a setting is called.
pub fn describe(setting: ThinkingSetting) -> (r: String)
    ensures
        r@ == setting_text(setting),
{
    match setting {
        ThinkingSetting::Auto => String::from_str("auto (derived from /effort)"),
        ThinkingSetting::Off => String::from_str("off"),
        ThinkingSetting::On(None) => String::from_str("on"),
        ThinkingSetting::On(Some(n)) => cat3("on (budget ", decimal_u64(n as u64).as_str(), ")"),
    }
}

/// The answer to `/think` without an argument.
pub fn think_report(current: ThinkingSetting) -> (r: String)
    ensures
        r@ == "thinking: "@ + setting_text(current),
{
    cat2("thinking: ", describe(current).as_str())
}

/// A budget, where one is set, is never nothing.
pub proof fn law_budgets_are_positive(arg: Seq<char>)
    ensures
        match thinking_arg(arg) {
            Ok(ThinkingSetting::On(Some(n))) => n > 0,
            _ => true,
        },
{
}

/// White space around an argument does not matter.
pub proof fn law_argument_is_read_as_written(a: Seq<char>, b: Seq<char>)
    requires
        trim(a) == trim(b),
    ensures
        thinking_arg(a) == thinking_arg(b),
{
}

/// Each name with what it runs, whether it is listed, and whether it may run
/// while a turn is in flight.
pub proof fn law_thinking_is_registered()
    ensures
        commands().len() == 1,
        commands()[0].meta.name@ == "/think"@,
        commands()[0].meta.description@ == "toggle extended thinking (on|off|auto|<budget>), independent of /effort"@,
        commands()[0].meta.args_hint@ == "<on|off|auto|budget>"@,
        !commands()[0].meta.hidden,
        commands()[0].meta.immediate,
        commands()[0].command == Command::Think,
{
}

/// The three words, in any case, give the three settings.
pub proof fn law_three_words_give_a_setting(arg: Seq<char>)
    ensures
        ({
            let l = ascii_lowercase(trim(arg));
            &&& l == "auto"@ ==> thinking_arg(arg) == Ok::<ThinkingSetting, Seq<char>>(
                ThinkingSetting::Auto,
            )
            &&& l == "off"@ ==> thinking_arg(arg) == Ok::<ThinkingSetting, Seq<char>>(
                ThinkingSetting::Off,
            )
            &&& l == "on"@ ==> thinking_arg(arg) == Ok::<ThinkingSetting, Seq<char>>(
                ThinkingSetting::On(None),
            )
            &&& thinking_arg(arg) == Ok::<ThinkingSetting, Seq<char>>(ThinkingSetting::Auto) ==> l
                == "auto"@
            &&& thinking_arg(arg) == Ok::<ThinkingSetting, Seq<char>>(ThinkingSetting::Off) ==> l
                == "off"@
            &&& thinking_arg(arg) == Ok::<ThinkingSetting, Seq<char>>(ThinkingSetting::On(None)) ==> l
                == "on"@
        }),
{
    reveal_strlit("auto");
    reveal_strlit("off");
    reveal_strlit("on");
}

/// A number of tokens, alone or behind `on`, is the budget; nothing is not a
/// budget.
pub proof fn law_budgets_are_read_as_written(n: u32)
    ensures
        n > 0 ==> thinking_arg(decimal(n as nat)) == Ok::<ThinkingSetting, Seq<char>>(
            ThinkingSetting::On(Some(n)),
        ),
        n > 0 ==> thinking_arg("on "@ + decimal(n as nat)) == Ok::<ThinkingSetting, Seq<char>>(
            ThinkingSetting::On(Some(n)),
        ),
        n > 0 ==> thinking_arg("on"@ + decimal(n as nat)) == Ok::<ThinkingSetting, Seq<char>>(
            ThinkingSetting::On(Some(n)),
        ),
        n == 0 ==> thinking_arg(decimal(n as nat)) is Err,
{
    let d = decimal(n as nat);
    reveal_strlit("auto");
    reveal_strlit("off");
    reveal_strlit("on");
    reveal_strlit("on ");
    law_decimals_read_back(n as nat);
    law_numbers_are_read_as_written(n, d);
    assert('0' <= d[0] <= '9');
    assert('0' <= d.last() <= '9') by {
        assert(d[d.len() - 1] == d.last());
    }
    let none = Seq::<char>::empty();
    law_trimming_takes_white_space_off(none, d, none);
    assert(none + d + none =~= d);
    assert(ascii_lowercase(d) =~= d) by {
        assert forall|i: int| 0 <= i < d.len() implies ascii_lowercase(d)[i] == d[i] by {
            assert('0' <= d[i] <= '9');
        }
    }
    if starts_with(d, "on"@) {
        assert(d.subrange(0, 2)[0] == d[0]);
    }
    assert(budget(d) == Some(n as nat));
    let spaced = "on "@ + d;
    law_trimming_takes_white_space_off(none, spaced, none);
    assert(none + spaced + none =~= spaced);
    assert(ascii_lowercase(spaced) =~= spaced) by {
        assert forall|i: int| 0 <= i < spaced.len() implies ascii_lowercase(spaced)[i] == spaced[i] by {
            if i >= 3 {
                assert('0' <= d[i - 3] <= '9');
            }
        }
    }
    assert(spaced.subrange(0, 2) =~= "on"@);
    assert(spaced.skip(2) =~= seq![' '] + d);
    law_trimming_takes_white_space_off(seq![' '], d, none);
    assert(seq![' '] + d + none =~= seq![' '] + d);
    assert(budget(spaced) == Some(n as nat));
    let joined = "on"@ + d;
    law_trimming_takes_white_space_off(none, joined, none);
    assert(none + joined + none =~= joined);
    assert(ascii_lowercase(joined) =~= joined) by {
        assert forall|i: int| 0 <= i < joined.len() implies ascii_lowercase(joined)[i] == joined[i] by {
            if i >= 2 {
                assert('0' <= d[i - 2] <= '9');
            }
        }
    }
    assert(joined.subrange(0, 2) =~= "on"@);
    assert(joined.skip(2) =~= d);
    assert(budget(joined) == Some(n as nat));
}

/// What is no setting is quoted as it was written, without the white space
/// around it.
pub proof fn law_other_arguments_are_quoted(arg: Seq<char>)
    ensures
        match thinking_arg(arg) {
            Ok(_) => true,
            Err(e) => e == "/think: unknown arg `"@ + trim(arg)
                + "` (expected on|off|auto|<budget>)"@,
        },
{
}

/// What each setting is called.
pub proof fn law_settings_are_told_apart(n: u32)
    ensures
        setting_text(ThinkingSetting::Auto) == "auto (derived from /effort)"@,
        setting_text(ThinkingSetting::Off) == "off"@,
        setting_text(ThinkingSetting::On(None)) == "on"@,
        setting_text(ThinkingSetting::On(Some(n))) == "on (budget "@ + decimal(n as nat) + ")"@,
{
}

} // verus!
