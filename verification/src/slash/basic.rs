//! Slash commands: leaving, clearing and help.

use vstd::prelude::*;

use crate::slash::{
    register_all, registered_all, Command, SlashCommand, SlashCommandMeta, SlashCommandRegistry,
};
use crate::app::{transcript_view, App, AppView, SessionView, TranscriptLine};
use crate::types::{messages_view, MessageView};

verus! {

/// The commands of this group, in the order in which they register.
pub open spec fn commands() -> Seq<SlashCommand> {
    seq![
        SlashCommand {
            meta: SlashCommandMeta {
                name: "/clear",
                description: "clear the transcript and conversation history",
                args_hint: "",
                hidden: false,
                immediate: false,
            },
            command: Command::Clear,
        },
        SlashCommand {
            meta: SlashCommandMeta {
                name: "/help",
                description: "list available slash commands",
                args_hint: "",
                hidden: false,
                immediate: true,
            },
            command: Command::Help,
        },
        SlashCommand {
            meta: SlashCommandMeta {
                name: "/quit",
                description: "exit caliban",
                args_hint: "",
                hidden: false,
                immediate: true,
            },
            command: Command::Quit,
        },
        SlashCommand {
            meta: SlashCommandMeta {
                name: "/exit",
                description: "exit caliban",
                args_hint: "",
                hidden: true,
                immediate: true,
            },
            command: Command::Quit,
        },
    ]
}

/// Registers the commands of this group.
pub fn register(registry: &mut SlashCommandRegistry)
    requires
        old(registry).wf(),
    ensures
        final(registry).wf(),
        final(registry)@ == registered_all(old(registry)@, commands()),
{
    let mut cmds: Vec<SlashCommand> = Vec::new();
    cmds.push(
        SlashCommand {
            meta: SlashCommandMeta {
                name: "/clear",
                description: "clear the transcript and conversation history",
                args_hint: "",
                hidden: false,
                immediate: false,
            },
            command: Command::Clear,
        },
    );
    cmds.push(
        SlashCommand {
            meta: SlashCommandMeta {
                name: "/help",
                description: "list available slash commands",
                args_hint: "",
                hidden: false,
                immediate: true,
            },
            command: Command::Help,
        },
    );
    cmds.push(
        SlashCommand {
            meta: SlashCommandMeta {
                name: "/quit",
                description: "exit caliban",
                args_hint: "",
                hidden: false,
                immediate: true,
            },
            command: Command::Quit,
        },
    );
    cmds.push(
        SlashCommand {
            meta: SlashCommandMeta {
                name: "/exit",
                description: "exit caliban",
                args_hint: "",
                hidden: true,
                immediate: true,
            },
            command: Command::Quit,
        },
    );
    assert(cmds@ =~= commands());
    register_all(registry, cmds);
}

/// The transcript and the conversation emptied; the rest stays.
pub open spec fn cleared(app: AppView) -> AppView {
    AppView {
        transcript: Seq::empty(),
        messages: Seq::empty(),
        last_turn_ttft_ms: None,
        session: match app.session {
            Some(s) => Some(SessionView { messages: Seq::empty(), ..s }),
            None => None,
        },
        ..app
    }
}

/// Empties the transcript and the conversation.
pub fn clear(app: &mut App)
    requires
        old(app).wf(),
    ensures
        final(app).wf(),
        final(app)@ == cleared(old(app)@),
{
    app.transcript = Vec::new();
    app.messages = Vec::new();
    app.last_turn_ttft_ms = None;
    assert(transcript_view(app.transcript@) =~= Seq::<TranscriptLine<Seq<char>>>::empty());
    assert(messages_view(app.messages@) =~= Seq::<MessageView>::empty());
    match &mut app.session {
        Some(s) => {
            s.messages = Vec::new();
            assert(messages_view(s.messages@) =~= Seq::<MessageView>::empty());
        },
        None => {},
    }
}

/// Clearing keeps the prompt and its history, the permission mode and rules,
/// plan mode, and the prompts that wait.
pub proof fn law_clearing_keeps_the_rest(app: AppView)
    ensures
        cleared(app).input == app.input,
        cleared(app).permission_mode == app.permission_mode,
        cleared(app).runtime_rules == app.runtime_rules,
        cleared(app).plan_mode == app.plan_mode,
        cleared(app).queued == app.queued,
        cleared(app).system_prompt == app.system_prompt,
        cleared(cleared(app)) == cleared(app),
{
}

/// Each name with what it runs, whether it is listed, and whether it may run
/// while a turn is in flight.
pub proof fn law_basics_are_registered()
    ensures
        commands().len() == 4,
        commands()[0].meta.name@ == "/clear"@,
        commands()[0].meta.description@ == "clear the transcript and conversation history"@,
        commands()[0].meta.args_hint@ == ""@,
        !commands()[0].meta.hidden,
        !commands()[0].meta.immediate,
        commands()[0].command == Command::Clear,
        commands()[1].meta.name@ == "/help"@,
        commands()[1].meta.description@ == "list available slash commands"@,
        commands()[1].meta.args_hint@ == ""@,
        !commands()[1].meta.hidden,
        commands()[1].meta.immediate,
        commands()[1].command == Command::Help,
        commands()[2].meta.name@ == "/quit"@,
        commands()[2].meta.description@ == "exit caliban"@,
        commands()[2].meta.args_hint@ == ""@,
        !commands()[2].meta.hidden,
        commands()[2].meta.immediate,
        commands()[2].command == Command::Quit,
        commands()[3].meta.name@ == "/exit"@,
        commands()[3].meta.description@ == "exit caliban"@,
        commands()[3].meta.args_hint@ == ""@,
        commands()[3].meta.hidden,
        commands()[3].meta.immediate,
        commands()[3].command == Command::Quit,
{
}

/// Clearing drops the transcript, the messages and those of the session, and
/// the time to the first token; it changes nothing else.
pub proof fn law_clearing_drops_the_conversation(app: AppView)
    ensures
        cleared(app).transcript.len() == 0,
        cleared(app).messages.len() == 0,
        cleared(app).last_turn_ttft_ms is None,
        cleared(app).session is Some <==> app.session is Some,
        app.session is Some ==> cleared(app).session == Some(
            (SessionView { messages: Seq::empty(), ..app.session->0 }),
        ),
        cleared(app) == (AppView {
            transcript: cleared(app).transcript,
            messages: cleared(app).messages,
            last_turn_ttft_ms: None,
            session: cleared(app).session,
            ..app
        }),
{
}

} // verus!
