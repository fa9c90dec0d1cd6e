//! Slash commands: configuration and extensions.

use vstd::prelude::*;

use crate::slash::{
    register_all, registered_all, Command, SlashCommand, SlashCommandMeta, SlashCommandRegistry,
};
use crate::text::{
    cat4, cat5, decimal, decimal_usize, push_text, texts,
};

verus! {

/// The commands of this group, in the order in which they register.
pub open spec fn commands() -> Seq<SlashCommand> {
    seq![
        SlashCommand {
            meta: SlashCommandMeta {
                name: "/config",
                description: "open the configuration overlay",
                args_hint: "",
                hidden: false,
                immediate: true,
            },
            command: Command::Config,
        },
        SlashCommand {
            meta: SlashCommandMeta {
                name: "/hooks",
                description: "list configured hooks per event",
                args_hint: "",
                hidden: false,
                immediate: true,
            },
            command: Command::Hooks,
        },
        SlashCommand {
            meta: SlashCommandMeta {
                name: "/mcp",
                description: "show MCP server status",
                args_hint: "",
                hidden: false,
                immediate: true,
            },
            command: Command::Mcp,
        },
        SlashCommand {
            meta: SlashCommandMeta {
                name: "/plugins",
                description: "list installed plugins",
                args_hint: "",
                hidden: false,
                immediate: true,
            },
            command: Command::Plugins,
        },
        SlashCommand {
            meta: SlashCommandMeta {
                name: "/plugin",
                description: "alias for /plugins",
                args_hint: "",
                hidden: true,
                immediate: true,
            },
            command: Command::Plugins,
        },
        SlashCommand {
            meta: SlashCommandMeta {
                name: "/agents",
                description: "list sub-agents (full fleet overlay arrives with sub-agent isolation spec)",
                args_hint: "",
                hidden: false,
                immediate: true,
            },
            command: Command::Agents,
        },
    ]
}

/// Registers the commands of this group.
pub fn register(registry: &mut SlashCommandRegistry)
    requires
        old(registry).wf(),
    ensures
        final(registry).wf(),
        final(registry)@ == registered_all(old(registry)@, commands()),
{
    let mut cmds: Vec<SlashCommand> = Vec::new();
    cmds.push(
        SlashCommand {
            meta: SlashCommandMeta {
                name: "/config",
                description: "open the configuration overlay",
                args_hint: "",
                hidden: false,
                immediate: true,
            },
            command: Command::Config,
        },
    );
    cmds.push(
        SlashCommand {
            meta: SlashCommandMeta {
                name: "/hooks",
                description: "list configured hooks per event",
                args_hint: "",
                hidden: false,
                immediate: true,
            },
            command: Command::Hooks,
        },
    );
    cmds.push(
        SlashCommand {
            meta: SlashCommandMeta {
                name: "/mcp",
                description: "show MCP server status",
                args_hint: "",
                hidden: false,
                immediate: true,
            },
            command: Command::Mcp,
        },
    );
    cmds.push(
        SlashCommand {
            meta: SlashCommandMeta {
                name: "/plugins",
                description: "list installed plugins",
                args_hint: "",
                hidden: false,
                immediate: true,
            },
            command: Command::Plugins,
        },
    );
    cmds.push(
        SlashCommand {
            meta: SlashCommandMeta {
                name: "/plugin",
                description: "alias for /plugins",
                args_hint: "",
                hidden: true,
                immediate: true,
            },
            command: Command::Plugins,
        },
    );
    cmds.push(
        SlashCommand {
            meta: SlashCommandMeta {
                name: "/agents",
                description: "list sub-agents (full fleet overlay arrives with sub-agent isolation spec)",
                args_hint: "",
                hidden: false,
                immediate: true,
            },
            command: Command::Agents,
        },
    );
    assert(cmds@ =~= commands());
    register_all(registry, cmds);
}

/// The hooks of one event.
#[derive(Debug)]
pub struct HookEvent<S = String> {
    pub event: S,
    pub handlers: usize,
}

pub open spec fn hook_events_view(v: Seq<HookEvent<String>>) -> Seq<HookEvent<Seq<char>>> {
    Seq::new(v.len(), |i: int| HookEvent { event: v[i].event@, handlers: v[i].handlers })
}

/// One row for each event.
pub open spec fn hook_rows(events: Seq<HookEvent<Seq<char>>>) -> Seq<Seq<char>> {
    Seq::new(
        events.len(),
        |i: int|
            "  "@ + events[i].event + " \u{2192} "@ + decimal(events[i].handlers as nat)
                + " handler(s)"@,
    )
}

/// The hooks that are loaded, `total` handlers in all.
pub open spec fn hooks_text(total: usize, events: Seq<HookEvent<Seq<char>>>, disabled: bool) -> Seq<
    Seq<char>,
> {
    if total == 0 {
        seq![
            "no hooks configured (drop a hooks.toml under .caliban/ or your platform's user config dir for caliban)"@,
        ]
    } else {
        let all = seq![
            decimal(total as nat) + " hook handler(s) loaded across "@ + decimal(events.len())
                + " event(s):"@,
        ] + hook_rows(events);
        if disabled {
            all.push("kill switch active (disable_all_hooks = true)"@)
        } else {
            all
        }
    }
}

/// The answer to `/hooks`.
pub fn hooks_lines(total: usize, events: &Vec<HookEvent>, disabled: bool) -> (out: Vec<String>)
    ensures
        texts(out@) == hooks_text(total, hook_events_view(events@), disabled),
{
    let mut out: Vec<String> = Vec::new();
    assert(texts(out@) =~= Seq::<Seq<char>>::empty());
    if total == 0 {
        push_text(
            &mut out,
            String::from_str(
                "no hooks configured (drop a hooks.toml under .caliban/ or your platform's user config dir for caliban)",
            ),
        );
        return out;
    }
    push_text(
        &mut out,
        cat4(
            decimal_usize(total).as_str(),
            " hook handler(s) loaded across ",
            decimal_usize(events.len()).as_str(),
            " event(s):",
        ),
    );
    let ghost head = texts(out@);
    let ghost rows = hook_rows(hook_events_view(events@));
    let mut i: usize = 0;
    assert(head =~= head + rows.take(0));
    while i < events.len()
        invariant
            i <= events@.len(),
            rows == hook_rows(hook_events_view(events@)),
            texts(out@) == head + rows.take(i as int),
        decreases events@.len() - i,
    {
        push_text(
            &mut out,
            cat5(
                "  ",
                events[i].event.as_str(),
                " \u{2192} ",
                decimal_usize(events[i].handlers).as_str(),
                " handler(s)",
            ),
        );
        i = i + 1;
        assert(rows.take(i as int) =~= rows.take(i - 1).push(rows[i - 1]));
        assert((head + rows.take(i - 1)).push(rows[i - 1]) =~= head + rows.take(i as int));
    }
    assert(rows.take(events@.len() as int) =~= rows);
    assert(head =~= seq![
        decimal(total as nat) + " hook handler(s) loaded across "@ + decimal(events@.len())
            + " event(s):"@,
    ]);
    if disabled {
        push_text(&mut out, String::from_str("kill switch active (disable_all_hooks = true)"));
    }
    out
}

/// Each name with what it runs, whether it is listed, and whether it may run
/// while a turn is in flight.
pub proof fn law_configuration_is_registered()
    ensures
        commands().len() == 6,
        commands()[0].meta.name@ == "/config"@,
        commands()[0].meta.description@ == "open the configuration overlay"@,
        commands()[0].meta.args_hint@ == ""@,
        !commands()[0].meta.hidden,
        commands()[0].meta.immediate,
        commands()[0].command == Command::Config,
        commands()[1].meta.name@ == "/hooks"@,
        commands()[1].meta.description@ == "list configured hooks per event"@,
        commands()[1].meta.args_hint@ == ""@,
        !commands()[1].meta.hidden,
        commands()[1].meta.immediate,
        commands()[1].command == Command::Hooks,
        commands()[2].meta.name@ == "/mcp"@,
        commands()[2].meta.description@ == "show MCP server status"@,
        commands()[2].meta.args_hint@ == ""@,
        !commands()[2].meta.hidden,
        commands()[2].meta.immediate,
        commands()[2].command == Command::Mcp,
        commands()[3].meta.name@ == "/plugins"@,
        commands()[3].meta.description@ == "list installed plugins"@,
        commands()[3].meta.args_hint@ == ""@,
        !commands()[3].meta.hidden,
        commands()[3].meta.immediate,
        commands()[3].command == Command::Plugins,
        commands()[4].meta.name@ == "/plugin"@,
        commands()[4].meta.description@ == "alias for /plugins"@,
        commands()[4].meta.args_hint@ == ""@,
        commands()[4].meta.hidden,
        commands()[4].meta.immediate,
        commands()[4].command == Command::Plugins,
        commands()[5].meta.name@ == "/agents"@,
        commands()[5].meta.description@ == "list sub-agents (full fleet overlay arrives with sub-agent isolation spec)"@,
        commands()[5].meta.args_hint@ == ""@,
        !commands()[5].meta.hidden,
        commands()[5].meta.immediate,
        commands()[5].command == Command::Agents,
{
}

/// The hooks are counted and listed by event in their order; a last line
/// tells where they are switched off.
pub proof fn law_hooks_are_listed(
    total: usize,
    events: Seq<HookEvent<Seq<char>>>,
    disabled: bool,
    i: int,
)
    requires
        total > 0,
    ensures
        ({
            let out = hooks_text(total, events, disabled);
            &&& out.len() == events.len() + (if disabled {
                2int
            } else {
                1int
            })
            &&& out[0] == decimal(total as nat) + " hook handler(s) loaded across "@ + decimal(
                events.len(),
            ) + " event(s):"@
            &&& 0 <= i < events.len() ==> out[i + 1] == "  "@ + events[i].event + " \u{2192} "@
                + decimal(events[i].handlers as nat) + " handler(s)"@
            &&& disabled ==> out.last() == "kill switch active (disable_all_hooks = true)"@
        }),
{
}

/// Without handlers there is one line, whatever the events.
pub proof fn law_no_hooks_are_one_line(events: Seq<HookEvent<Seq<char>>>, disabled: bool)
    ensures
        hooks_text(0, events, disabled) == seq![
            "no hooks configured (drop a hooks.toml under .caliban/ or your platform's user config dir for caliban)"@,
        ],
{
}

} // verus!
