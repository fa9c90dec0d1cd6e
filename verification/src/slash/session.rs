//! Slash commands: the session itself.

use vstd::prelude::*;

use crate::slash::{
    register_all, registered_all, Command, SlashCommand, SlashCommandMeta, SlashCommandRegistry,
};

verus! {

/// The commands of this group, in the order in which they register.
pub open spec fn commands() -> Seq<SlashCommand> {
    seq![
        SlashCommand {
            meta: SlashCommandMeta {
                name: "/init",
                description: "set up the workspace for caliban",
                args_hint: "",
                hidden: false,
                immediate: true,
            },
            command: Command::Init,
        },
        SlashCommand {
            meta: SlashCommandMeta {
                name: "/resume",
                description: "list sessions to resume",
                args_hint: "",
                hidden: false,
                immediate: true,
            },
            command: Command::Resume,
        },
        SlashCommand {
            meta: SlashCommandMeta {
                name: "/recap",
                description: "summarize the conversation so far",
                args_hint: "",
                hidden: false,
                immediate: false,
            },
            command: Command::Recap,
        },
        SlashCommand {
            meta: SlashCommandMeta {
                name: "/btw",
                description: "ask a side question without touching the conversation",
                args_hint: "<question>",
                hidden: false,
                immediate: false,
            },
            command: Command::Btw,
        },
    ]
}

/// Registers the commands of this group.
pub fn register(registry: &mut SlashCommandRegistry)
    requires
        old(registry).wf(),
    ensures
        final(registry).wf(),
        final(registry)@ == registered_all(old(registry)@, commands()),
{
    let mut cmds: Vec<SlashCommand> = Vec::new();
    cmds.push(
        SlashCommand {
            meta: SlashCommandMeta {
                name: "/init",
                description: "set up the workspace for caliban",
                args_hint: "",
                hidden: false,
                immediate: true,
            },
            command: Command::Init,
        },
    );
    cmds.push(
        SlashCommand {
            meta: SlashCommandMeta {
                name: "/resume",
                description: "list sessions to resume",
                args_hint: "",
                hidden: false,
                immediate: true,
            },
            command: Command::Resume,
        },
    );
    cmds.push(
        SlashCommand {
            meta: SlashCommandMeta {
                name: "/recap",
                description: "summarize the conversation so far",
                args_hint: "",
                hidden: false,
                immediate: false,
            },
            command: Command::Recap,
        },
    );
    cmds.push(
        SlashCommand {
            meta: SlashCommandMeta {
                name: "/btw",
                description: "ask a side question without touching the conversation",
                args_hint: "<question>",
                hidden: false,
                immediate: false,
            },
            command: Command::Btw,
        },
    );
    assert(cmds@ =~= commands());
    register_all(registry, cmds);
}

/// Each name with what it runs, whether it is listed, and whether it may run
/// while a turn is in flight.
pub proof fn law_session_commands_are_registered()
    ensures
        commands().len() == 4,
        commands()[0].meta.name@ == "/init"@,
        commands()[0].meta.description@ == "set up the workspace for caliban"@,
        commands()[0].meta.args_hint@ == ""@,
        !commands()[0].meta.hidden,
        commands()[0].meta.immediate,
        commands()[0].command == Command::Init,
        commands()[1].meta.name@ == "/resume"@,
        commands()[1].meta.description@ == "list sessions to resume"@,
        commands()[1].meta.args_hint@ == ""@,
        !commands()[1].meta.hidden,
        commands()[1].meta.immediate,
        commands()[1].command == Command::Resume,
        commands()[2].meta.name@ == "/recap"@,
        commands()[2].meta.description@ == "summarize the conversation so far"@,
        commands()[2].meta.args_hint@ == ""@,
        !commands()[2].meta.hidden,
        !commands()[2].meta.immediate,
        commands()[2].command == Command::Recap,
        commands()[3].meta.name@ == "/btw"@,
        commands()[3].meta.description@ == "ask a side question without touching the conversation"@,
        commands()[3].meta.args_hint@ == "<question>"@,
        !commands()[3].meta.hidden,
        !commands()[3].meta.immediate,
        commands()[3].command == Command::Btw,
{
}

} // verus!
