//! Slash commands: permissions.

use vstd::prelude::*;

use crate::slash::{
    register_all, registered_all, Command, SlashCommand, SlashCommandMeta, SlashCommandRegistry,
};

verus! {

/// The commands of this group, in the order in which they register.
pub open spec fn commands() -> Seq<SlashCommand> {
    seq![
        SlashCommand {
            meta: SlashCommandMeta {
                name: "/permissions",
                description: "view current mode + runtime rules; Tab cycles mode, d deletes rule",
                args_hint: "",
                hidden: false,
                immediate: true,
            },
            command: Command::Permissions,
        },
    ]
}

/// Registers the commands of this group.
pub fn register(registry: &mut SlashCommandRegistry)
    requires
        old(registry).wf(),
    ensures
        final(registry).wf(),
        final(registry)@ == registered_all(old(registry)@, commands()),
{
    let mut cmds: Vec<SlashCommand> = Vec::new();
    cmds.push(
        SlashCommand {
            meta: SlashCommandMeta {
                name: "/permissions",
                description: "view current mode + runtime rules; Tab cycles mode, d deletes rule",
                args_hint: "",
                hidden: false,
                immediate: true,
            },
            command: Command::Permissions,
        },
    );
    assert(cmds@ =~= commands());
    register_all(registry, cmds);
}

/// Each name with what it runs, whether it is listed, and whether it may run
/// while a turn is in flight.
pub proof fn law_permissions_are_registered()
    ensures
        commands().len() == 1,
        commands()[0].meta.name@ == "/permissions"@,
        commands()[0].meta.description@ == "view current mode + runtime rules; Tab cycles mode, d deletes rule"@,
        commands()[0].meta.args_hint@ == ""@,
        !commands()[0].meta.hidden,
        commands()[0].meta.immediate,
        commands()[0].command == Command::Permissions,
{
}

} // verus!
