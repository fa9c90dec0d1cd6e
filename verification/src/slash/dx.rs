//! Slash commands: rewinding, diagnostics and comfort.

use vstd::prelude::*;

use crate::slash::{
    kv_args, parse_kv_args, register_all, registered_all, Command, SlashCommand, SlashCommandMeta,
    SlashCommandRegistry,
};
use crate::text::{
    cat3, decimal, decimal_u64, law_numbers_are_read_as_written, parse_u32, words, written_u32,
};

verus! {

/// The commands of this group, in the order in which they register.
pub open spec fn commands() -> Seq<SlashCommand> {
    seq![
        SlashCommand {
            meta: SlashCommandMeta {
                name: "/rewind",
                description: "open the rewind/checkpoint picker (Esc-Esc also opens this)",
                args_hint: "",
                hidden: false,
                immediate: false,
            },
            command: Command::Rewind,
        },
        SlashCommand {
            meta: SlashCommandMeta {
                name: "/heapdump",
                description: "capture a heap profile (requires --features=jemalloc-prof)",
                args_hint: "",
                hidden: false,
                immediate: true,
            },
            command: Command::Heapdump,
        },
        SlashCommand {
            meta: SlashCommandMeta {
                name: "/feedback",
                description: "submit feedback to the configured endpoint",
                args_hint: "",
                hidden: false,
                immediate: true,
            },
            command: Command::Feedback,
        },
        SlashCommand {
            meta: SlashCommandMeta {
                name: "/loop",
                description: "re-run the last assistant turn N times (bounded by --max-turns)",
                args_hint: "[--n=<count>] [--interval=<seconds>]",
                hidden: false,
                immediate: false,
            },
            command: Command::Loop,
        },
        SlashCommand {
            meta: SlashCommandMeta {
                name: "/statusline",
                description: "customize the status line via a shell-script template",
                args_hint: "",
                hidden: false,
                immediate: true,
            },
            command: Command::Statusline,
        },
        SlashCommand {
            meta: SlashCommandMeta {
                name: "/tui",
                description: "toggle fullscreen vs default TUI mode",
                args_hint: "",
                hidden: false,
                immediate: true,
            },
            command: Command::Tui,
        },
        SlashCommand {
            meta: SlashCommandMeta {
                name: "/voice",
                description: "voice dictation (reserved for future)",
                args_hint: "",
                hidden: true,
                immediate: true,
            },
            command: Command::Voice,
        },
    ]
}

/// Registers the commands of this group.
pub fn register(registry: &mut SlashCommandRegistry)
    requires
        old(registry).wf(),
    ensures
        final(registry).wf(),
        final(registry)@ == registered_all(old(registry)@, commands()),
{
    let mut cmds: Vec<SlashCommand> = Vec::new();
    cmds.push(
        SlashCommand {
            meta: SlashCommandMeta {
                name: "/rewind",
                description: "open the rewind/checkpoint picker (Esc-Esc also opens this)",
                args_hint: "",
                hidden: false,
                immediate: false,
            },
            command: Command::Rewind,
        },
    );
    cmds.push(
        SlashCommand {
            meta: SlashCommandMeta {
                name: "/heapdump",
                description: "capture a heap profile (requires --features=jemalloc-prof)",
                args_hint: "",
                hidden: false,
                immediate: true,
            },
            command: Command::Heapdump,
        },
    );
    cmds.push(
        SlashCommand {
            meta: SlashCommandMeta {
                name: "/feedback",
                description: "submit feedback to the configured endpoint",
                args_hint: "",
                hidden: false,
                immediate: true,
            },
            command: Command::Feedback,
        },
    );
    cmds.push(
        SlashCommand {
            meta: SlashCommandMeta {
                name: "/loop",
                description: "re-run the last assistant turn N times (bounded by --max-turns)",
                args_hint: "[--n=<count>] [--interval=<seconds>]",
                hidden: false,
                immediate: false,
            },
            command: Command::Loop,
        },
    );
    cmds.push(
        SlashCommand {
            meta: SlashCommandMeta {
                name: "/statusline",
                description: "customize the status line via a shell-script template",
                args_hint: "",
                hidden: false,
                immediate: true,
            },
            command: Command::Statusline,
        },
    );
    cmds.push(
        SlashCommand {
            meta: SlashCommandMeta {
                name: "/tui",
                description: "toggle fullscreen vs default TUI mode",
                args_hint: "",
                hidden: false,
                immediate: true,
            },
            command: Command::Tui,
        },
    );
    cmds.push(
        SlashCommand {
            meta: SlashCommandMeta {
                name: "/voice",
                description: "voice dictation (reserved for future)",
                args_hint: "",
                hidden: true,
                immediate: true,
            },
            command: Command::Voice,
        },
    );
    assert(cmds@ =~= commands());
    register_all(registry, cmds);
}

/// The number given for a key, or a default where none is given or it is no
/// number.
pub open spec fn number_for(args: Map<Seq<char>, Seq<char>>, key: Seq<char>, default: nat) -> nat {
    if args.contains_key(key) {
        match written_u32(args[key]) {
            Some(n) => n,
            None => default,
        }
    } else {
        default
    }
}

pub open spec fn least(a: nat, b: nat) -> nat {
    if a < b {
        a
    } else {
        b
    }
}

/// What `/loop` plans: so many repeats, never more than the turns allowed.
pub open spec fn loop_text(args: Seq<char>, max_turns: u32) -> Seq<char> {
    let kv = kv_args(words(args));
    let n = number_for(kv, "n"@, 3);
    let interval = number_for(kv, "interval"@, 15);
    "/loop \u{2014} planned "@ + decimal(n) + " repeats every "@ + decimal(interval)
        + "s; bounded to "@ + decimal(least(n, max_turns as nat)) + " by --max-turns="@ + decimal(
        max_turns as nat,
    ) + " (execution lands with the polling scheduler spec)"@
}

/// The answer to `/loop`.
pub fn loop_line(args: &str, max_turns: u32) -> (r: String)
    ensures
        r@ == loop_text(args@, max_turns),
{
    let kv = parse_kv_args(args);
    let n: u32 = match kv.get("n") {
        Some(s) => match parse_u32(s.as_str()) {
            Some(n) => n,
            None => 3,
        },
        None => 3,
    };
    let interval: u32 = match kv.get("interval") {
        Some(s) => match parse_u32(s.as_str()) {
            Some(n) => n,
            None => 15,
        },
        None => 15,
    };
    let bounded: u32 = if n < max_turns {
        n
    } else {
        max_turns
    };
    let mut s = cat3("/loop \u{2014} planned ", decimal_u64(n as u64).as_str(), " repeats every ");
    s.append(decimal_u64(interval as u64).as_str());
    s.append("s; bounded to ");
    s.append(decimal_u64(bounded as u64).as_str());
    s.append(" by --max-turns=");
    s.append(decimal_u64(max_turns as u64).as_str());
    s.append(" (execution lands with the polling scheduler spec)");
    s
}

/// The script of a custom status line.
#[derive(Debug)]
pub struct StatuslineConfig {
    pub command: String,
    pub timeout_ms: u64,
    pub padding: u64,
}

pub open spec fn statusline_text(config: Option<StatuslineConfig>) -> Seq<char> {
    match config {
        Some(c) => "/statusline \u{2014} active: `"@ + c.command@ + "` (timeout "@ + decimal(
            c.timeout_ms as nat,
        ) + " ms, padding "@ + decimal(c.padding as nat) + "); refreshed after each turn"@,
        None =>
            "/statusline \u{2014} unset; configure `statusLine.command` in settings.toml/.json to prefix a custom segment on the status bar"@,
    }
}

/// The answer to `/statusline`.
pub fn statusline_message(config: &Option<StatuslineConfig>) -> (r: String)
    ensures
        r@ == statusline_text(*config),
{
    match config {
        Some(c) => {
            let mut s = cat3("/statusline \u{2014} active: `", c.command.as_str(), "` (timeout ");
            s.append(decimal_u64(c.timeout_ms).as_str());
            s.append(" ms, padding ");
            s.append(decimal_u64(c.padding).as_str());
            s.append("); refreshed after each turn");
            s
        },
        None => String::from_str(
            "/statusline \u{2014} unset; configure `statusLine.command` in settings.toml/.json to prefix a custom segment on the status bar",
        ),
    }
}

/// Each name with what it runs, whether it is listed, and whether it may run
/// while a turn is in flight.
pub proof fn law_comforts_are_registered()
    ensures
        commands().len() == 7,
        commands()[0].meta.name@ == "/rewind"@,
        commands()[0].meta.description@ == "open the rewind/checkpoint picker (Esc-Esc also opens this)"@,
        commands()[0].meta.args_hint@ == ""@,
        !commands()[0].meta.hidden,
        !commands()[0].meta.immediate,
        commands()[0].command == Command::Rewind,
        commands()[1].meta.name@ == "/heapdump"@,
        commands()[1].meta.description@ == "capture a heap profile (requires --features=jemalloc-prof)"@,
        commands()[1].meta.args_hint@ == ""@,
        !commands()[1].meta.hidden,
        commands()[1].meta.immediate,
        commands()[1].command == Command::Heapdump,
        commands()[2].meta.name@ == "/feedback"@,
        commands()[2].meta.description@ == "submit feedback to the configured endpoint"@,
        commands()[2].meta.args_hint@ == ""@,
        !commands()[2].meta.hidden,
        commands()[2].meta.immediate,
        commands()[2].command == Command::Feedback,
        commands()[3].meta.name@ == "/loop"@,
        commands()[3].meta.description@ == "re-run the last assistant turn N times (bounded by --max-turns)"@,
        commands()[3].meta.args_hint@ == "[--n=<count>] [--interval=<seconds>]"@,
        !commands()[3].meta.hidden,
        !commands()[3].meta.immediate,
        commands()[3].command == Command::Loop,
        commands()[4].meta.name@ == "/statusline"@,
        commands()[4].meta.description@ == "customize the status line via a shell-script template"@,
        commands()[4].meta.args_hint@ == ""@,
        !commands()[4].meta.hidden,
        commands()[4].meta.immediate,
        commands()[4].command == Command::Statusline,
        commands()[5].meta.name@ == "/tui"@,
        commands()[5].meta.description@ == "toggle fullscreen vs default TUI mode"@,
        commands()[5].meta.args_hint@ == ""@,
        !commands()[5].meta.hidden,
        commands()[5].meta.immediate,
        commands()[5].command == Command::Tui,
        commands()[6].meta.name@ == "/voice"@,
        commands()[6].meta.description@ == "voice dictation (reserved for future)"@,
        commands()[6].meta.args_hint@ == ""@,
        commands()[6].meta.hidden,
        commands()[6].meta.immediate,
        commands()[6].command == Command::Voice,
{
}

/// `/loop` tells the repeats and the seconds that are written for `n` and
/// `interval`, three and fifteen where none are; the repeats that will run
/// are the fewer of those and the turns allowed.
pub proof fn law_loops_are_bounded_by_the_turns(args: Seq<char>, max_turns: u32)
    ensures
        ({
            let kv = kv_args(words(args));
            let n = if kv.contains_key("n"@) && written_u32(kv["n"@]) is Some {
                written_u32(kv["n"@])->0
            } else {
                3nat
            };
            let every = if kv.contains_key("interval"@) && written_u32(kv["interval"@]) is Some {
                written_u32(kv["interval"@])->0
            } else {
                15nat
            };
            let bounded = if n <= max_turns {
                n
            } else {
                max_turns as nat
            };
            loop_text(args, max_turns) == "/loop \u{2014} planned "@ + decimal(n)
                + " repeats every "@ + decimal(every) + "s; bounded to "@ + decimal(bounded)
                + " by --max-turns="@ + decimal(max_turns as nat)
                + " (execution lands with the polling scheduler spec)"@
        }),
{
}

/// A flag that writes a number sets it, one that writes none leaves the
/// default.
pub proof fn law_numbers_are_taken_from_their_flag(
    args: Map<Seq<char>, Seq<char>>,
    key: Seq<char>,
    n: u32,
    default: nat,
)
    ensures
        number_for(args.insert(key, decimal(n as nat)), key, default) == n,
        number_for(args.remove(key), key, default) == default,
        args.contains_key(key) && written_u32(args[key]) is None ==> number_for(args, key, default)
            == default,
        least(n as nat, default) <= n,
        least(n as nat, default) <= default,
        least(n as nat, default) == n || least(n as nat, default) == default,
{
    law_numbers_are_read_as_written(n, Seq::empty());
}

/// A custom status line is told by its command, its time and its padding; an
/// unset one by how to set it.
pub proof fn law_status_lines_are_told(c: StatuslineConfig)
    ensures
        statusline_text(Some(c)) == "/statusline \u{2014} active: `"@ + c.command@ + "` (timeout "@
            + decimal(c.timeout_ms as nat) + " ms, padding "@ + decimal(c.padding as nat)
            + "); refreshed after each turn"@,
        statusline_text(None)
            == "/statusline \u{2014} unset; configure `statusLine.command` in settings.toml/.json to prefix a custom segment on the status bar"@,
{
}

} // verus!
