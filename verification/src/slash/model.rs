//! Slash commands: model, effort and credentials.

use vstd::prelude::*;

use crate::slash::{
    register_all, registered_all, Command, SlashCommand, SlashCommandMeta, SlashCommandRegistry,
};
use crate::app::Effort;
use crate::text::{
    ascii_lowercase, cat2, cat3, cat4, cat5, decimal, decimal_u64, decimal_usize, is_white,
    law_trimming_takes_white_space_off, push_text, same,
    texts, to_ascii_lowercase, trim, trim_text,
};

verus! {

/// The commands of this group, in the order in which they register.
pub open spec fn commands() -> Seq<SlashCommand> {
    seq![
        SlashCommand {
            meta: SlashCommandMeta {
                name: "/model",
                description: "show or switch the active model (same-provider in v1)",
                args_hint: "[id]",
                hidden: false,
                immediate: true,
            },
            command: Command::Model,
        },
        SlashCommand {
            meta: SlashCommandMeta {
                name: "/effort",
                description: "set reasoning effort (low|medium|high|max|auto)",
                args_hint: "<level>",
                hidden: false,
                immediate: true,
            },
            command: Command::Effort,
        },
        SlashCommand {
            meta: SlashCommandMeta {
                name: "/status",
                description: "show provider/auth/subscription status",
                args_hint: "",
                hidden: false,
                immediate: true,
            },
            command: Command::Status,
        },
        SlashCommand {
            meta: SlashCommandMeta {
                name: "/login",
                description: "run the active provider's auth flow",
                args_hint: "",
                hidden: false,
                immediate: true,
            },
            command: Command::Login,
        },
        SlashCommand {
            meta: SlashCommandMeta {
                name: "/logout",
                description: "clear cached credentials for the active provider",
                args_hint: "",
                hidden: false,
                immediate: true,
            },
            command: Command::Logout,
        },
        SlashCommand {
            meta: SlashCommandMeta {
                name: "/setup-token",
                description: "generate a long-lived Anthropic OAuth token for CI",
                args_hint: "",
                hidden: false,
                immediate: true,
            },
            command: Command::SetupToken,
        },
    ]
}

/// Registers the commands of this group.
pub fn register(registry: &mut SlashCommandRegistry)
    requires
        old(registry).wf(),
    ensures
        final(registry).wf(),
        final(registry)@ == registered_all(old(registry)@, commands()),
{
    let mut cmds: Vec<SlashCommand> = Vec::new();
    cmds.push(
        SlashCommand {
            meta: SlashCommandMeta {
                name: "/model",
                description: "show or switch the active model (same-provider in v1)",
                args_hint: "[id]",
                hidden: false,
                immediate: true,
            },
            command: Command::Model,
        },
    );
    cmds.push(
        SlashCommand {
            meta: SlashCommandMeta {
                name: "/effort",
                description: "set reasoning effort (low|medium|high|max|auto)",
                args_hint: "<level>",
                hidden: false,
                immediate: true,
            },
            command: Command::Effort,
        },
    );
    cmds.push(
        SlashCommand {
            meta: SlashCommandMeta {
                name: "/status",
                description: "show provider/auth/subscription status",
                args_hint: "",
                hidden: false,
                immediate: true,
            },
            command: Command::Status,
        },
    );
    cmds.push(
        SlashCommand {
            meta: SlashCommandMeta {
                name: "/login",
                description: "run the active provider's auth flow",
                args_hint: "",
                hidden: false,
                immediate: true,
            },
            command: Command::Login,
        },
    );
    cmds.push(
        SlashCommand {
            meta: SlashCommandMeta {
                name: "/logout",
                description: "clear cached credentials for the active provider",
                args_hint: "",
                hidden: false,
                immediate: true,
            },
            command: Command::Logout,
        },
    );
    cmds.push(
        SlashCommand {
            meta: SlashCommandMeta {
                name: "/setup-token",
                description: "generate a long-lived Anthropic OAuth token for CI",
                args_hint: "",
                hidden: false,
                immediate: true,
            },
            command: Command::SetupToken,
        },
    );
    assert(cmds@ =~= commands());
    register_all(registry, cmds);
}

/// The effort that an argument names, whatever its case.
pub open spec fn effort_named(arg: Seq<char>) -> Option<Effort> {
    let l = ascii_lowercase(trim(arg));
    if l == "low"@ {
        Some(Effort::Low)
    } else if l == "medium"@ {
        Some(Effort::Medium)
    } else if l == "high"@ {
        Some(Effort::High)
    } else if l == "max"@ {
        Some(Effort::Max)
    } else if l == "auto"@ {
        Some(Effort::Auto)
    } else {
        None
    }
}

pub fn parse_effort(arg: &str) -> (r: Option<Effort>)
    ensures
        r == effort_named(arg@),
{
    let l = to_ascii_lowercase(trim_text(arg).as_str());
    let l = l.as_str();
    if same(l, "low") {
        Some(Effort::Low)
    } else if same(l, "medium") {
        Some(Effort::Medium)
    } else if same(l, "high") {
        Some(Effort::High)
    } else if same(l, "max") {
        Some(Effort::Max)
    } else if same(l, "auto") {
        Some(Effort::Auto)
    } else {
        None
    }
}

/// The name of an effort as a message writes it.
pub open spec fn effort_name(e: Effort) -> Seq<char> {
    match e {
        Effort::Low => "Low"@,
        Effort::Medium => "Medium"@,
        Effort::High => "High"@,
        Effort::Max => "Max"@,
        Effort::Auto => "Auto"@,
    }
}

pub open spec fn effort_text(arg: Seq<char>) -> Seq<char> {
    match effort_named(arg) {
        Some(e) => "effort \u{2192} "@ + effort_name(e),
        None => "/effort: unknown level `"@ + ascii_lowercase(trim(arg))
            + "` (expected low|medium|high|max|auto)"@,
    }
}

/// The answer to `/effort`.
pub fn effort_message(arg: &str) -> (r: String)
    ensures
        r@ == effort_text(arg@),
{
    match parse_effort(arg) {
        Some(e) => {
            let name = match e {
                Effort::Low => "Low",
                Effort::Medium => "Medium",
                Effort::High => "High",
                Effort::Max => "Max",
                Effort::Auto => "Auto",
            };
            cat2("effort \u{2192} ", name)
        },
        None => {
            let l = to_ascii_lowercase(trim_text(arg).as_str());
            cat3("/effort: unknown level `", l.as_str(), "` (expected low|medium|high|max|auto)")
        },
    }
}

/// A model that a provider knows, with the tokens it can take in.
#[derive(Debug)]
pub struct KnownModel<S = String> {
    pub id: S,
    pub max_input_tokens: u64,
}

pub open spec fn models_view(v: Seq<KnownModel<String>>) -> Seq<KnownModel<Seq<char>>> {
    Seq::new(
        v.len(),
        |i: int| KnownModel { id: v[i].id@, max_input_tokens: v[i].max_input_tokens },
    )
}

/// Whether `/model` is to list the models: it names none.
pub open spec fn lists_models(arg: Seq<char>) -> bool {
    trim(arg).len() == 0 || trim(arg) == "--picker"@
}

pub fn is_model_list(arg: &str) -> (r: bool)
    ensures
        r == lists_models(arg@),
{
    let t = trim_text(arg);
    t.as_str().is_empty() || same(t.as_str(), "--picker")
}

/// One row for each model, the active one marked.
pub open spec fn model_rows(active: Seq<char>, models: Seq<KnownModel<Seq<char>>>) -> Seq<Seq<char>> {
    Seq::new(
        models.len(),
        |i: int|
            "  "@ + (if models[i].id == active {
                "*"@
            } else {
                " "@
            }) + " "@ + models[i].id + " \u{2014} "@ + decimal(models[i].max_input_tokens as nat)
                + " ctx"@,
    )
}

/// The active model, and the models to choose from.
pub open spec fn models_text(
    active: Seq<char>,
    provider: Seq<char>,
    models: Seq<KnownModel<Seq<char>>>,
) -> Seq<Seq<char>> {
    let head = seq!["active model: "@ + active + " (provider: "@ + provider + ")"@];
    if models.len() == 0 {
        head.push(
            "no known-model list from this provider \u{2014} use `/model <id>` directly"@,
        )
    } else {
        (head.push(decimal(models.len()) + " model(s) on `"@ + provider + "`:"@) + model_rows(
            active,
            models,
        )).push("use `/model <id>` to switch. picker overlay lands in a follow-up."@)
    }
}

/// The answer to `/model` without a name.
pub fn models_lines(active: &str, provider: &str, models: &Vec<KnownModel>) -> (out: Vec<String>)
    ensures
        texts(out@) == models_text(active@, provider@, models_view(models@)),
{
    let mut out: Vec<String> = Vec::new();
    assert(texts(out@) =~= Seq::<Seq<char>>::empty());
    push_text(&mut out, cat5("active model: ", active, " (provider: ", provider, ")"));
    if models.len() == 0 {
        push_text(
            &mut out,
            String::from_str(
                "no known-model list from this provider \u{2014} use `/model <id>` directly",
            ),
        );
        return out;
    }
    push_text(
        &mut out,
        cat4(decimal_usize(models.len()).as_str(), " model(s) on `", provider, "`:"),
    );
    let ghost head = texts(out@);
    let ghost rows = model_rows(active@, models_view(models@));
    let mut i: usize = 0;
    assert(head =~= head + rows.take(0));
    while i < models.len()
        invariant
            i <= models@.len(),
            rows == model_rows(active@, models_view(models@)),
            texts(out@) == head + rows.take(i as int),
        decreases models@.len() - i,
    {
        let marker = if same(models[i].id.as_str(), active) {
            "*"
        } else {
            " "
        };
        let mut s = cat5("  ", marker, " ", models[i].id.as_str(), " \u{2014} ");
        s.append(decimal_u64(models[i].max_input_tokens).as_str());
        s.append(" ctx");
        assert(s@ == rows[i as int]);
        push_text(&mut out, s);
        i = i + 1;
        assert(rows.take(i as int) =~= rows.take(i - 1).push(rows[i - 1]));
        assert((head + rows.take(i - 1)).push(rows[i - 1]) =~= head + rows.take(i as int));
    }
    assert(rows.take(models@.len() as int) =~= rows);
    push_text(
        &mut out,
        String::from_str("use `/model <id>` to switch. picker overlay lands in a follow-up."),
    );
    out
}

pub open spec fn swap_text(id: Seq<char>, error: Option<&str>) -> Seq<char> {
    match error {
        None => "model \u{2192} "@ + trim(id),
        Some(e) => "/model: "@ + e@,
    }
}

/// The answer to `/model` with a name: the model it switched to, or why not.
pub fn model_message(id: &str, error: Option<&str>) -> (r: String)
    ensures
        r@ == swap_text(id@, error),
{
    match error {
        None => cat2("model \u{2192} ", trim_text(id).as_str()),
        Some(e) => cat2("/model: ", e),
    }
}

pub open spec fn status_text(provider: Seq<char>) -> Seq<char> {
    "provider: "@ + provider
        + " (full provider/auth/subscription status arrives with the Auth spec)"@
}

/// The answer to `/status`.
pub fn status_line(provider: &str) -> (r: String)
    ensures
        r@ == status_text(provider@),
{
    cat3(
        "provider: ",
        provider,
        " (full provider/auth/subscription status arrives with the Auth spec)",
    )
}

/// Each name with what it runs, whether it is listed, and whether it may run
/// while a turn is in flight.
pub proof fn law_model_commands_are_registered()
    ensures
        commands().len() == 6,
        commands()[0].meta.name@ == "/model"@,
        commands()[0].meta.description@ == "show or switch the active model (same-provider in v1)"@,
        commands()[0].meta.args_hint@ == "[id]"@,
        !commands()[0].meta.hidden,
        commands()[0].meta.immediate,
        commands()[0].command == Command::Model,
        commands()[1].meta.name@ == "/effort"@,
        commands()[1].meta.description@ == "set reasoning effort (low|medium|high|max|auto)"@,
        commands()[1].meta.args_hint@ == "<level>"@,
        !commands()[1].meta.hidden,
        commands()[1].meta.immediate,
        commands()[1].command == Command::Effort,
        commands()[2].meta.name@ == "/status"@,
        commands()[2].meta.description@ == "show provider/auth/subscription status"@,
        commands()[2].meta.args_hint@ == ""@,
        !commands()[2].meta.hidden,
        commands()[2].meta.immediate,
        commands()[2].command == Command::Status,
        commands()[3].meta.name@ == "/login"@,
        commands()[3].meta.description@ == "run the active provider's auth flow"@,
        commands()[3].meta.args_hint@ == ""@,
        !commands()[3].meta.hidden,
        commands()[3].meta.immediate,
        commands()[3].command == Command::Login,
        commands()[4].meta.name@ == "/logout"@,
        commands()[4].meta.description@ == "clear cached credentials for the active provider"@,
        commands()[4].meta.args_hint@ == ""@,
        !commands()[4].meta.hidden,
        commands()[4].meta.immediate,
        commands()[4].command == Command::Logout,
        commands()[5].meta.name@ == "/setup-token"@,
        commands()[5].meta.description@ == "generate a long-lived Anthropic OAuth token for CI"@,
        commands()[5].meta.args_hint@ == ""@,
        !commands()[5].meta.hidden,
        commands()[5].meta.immediate,
        commands()[5].command == Command::SetupToken,
{
}

/// The five names, in lower case and without the white space around them,
/// give the five efforts; anything else gives none.
pub proof fn law_five_names_give_an_effort(arg: Seq<char>)
    ensures
        ({
            let l = ascii_lowercase(trim(arg));
            &&& l == "low"@ <==> effort_named(arg) == Some(Effort::Low)
            &&& l == "medium"@ <==> effort_named(arg) == Some(Effort::Medium)
            &&& l == "high"@ <==> effort_named(arg) == Some(Effort::High)
            &&& l == "max"@ <==> effort_named(arg) == Some(Effort::Max)
            &&& l == "auto"@ <==> effort_named(arg) == Some(Effort::Auto)
        }),
{
    reveal_strlit("low");
    reveal_strlit("medium");
    reveal_strlit("high");
    reveal_strlit("max");
    reveal_strlit("auto");
    assert("low"@[0] == 'l');
    assert("max"@[0] == 'm');
    assert("high"@[0] == 'h');
    assert("auto"@[0] == 'a');
    assert("low"@.len() == 3 && "max"@.len() == 3);
    assert("high"@.len() == 4 && "auto"@.len() == 4);
    assert("medium"@.len() == 6);
    assert("low"@ != "max"@);
    assert("high"@ != "auto"@);
    let l = ascii_lowercase(trim(arg));
    if l =~= "low"@ {
    } else if l =~= "medium"@ {
    } else if l =~= "high"@ {
    } else if l =~= "max"@ {
    } else if l =~= "auto"@ {
    }
}

/// The name that a message writes for an effort names that effort, with any
/// white space around it.
pub proof fn law_written_efforts_read_back(e: Effort, lead: Seq<char>, tail: Seq<char>)
    requires
        forall|i: int| 0 <= i < lead.len() ==> is_white(#[trigger] lead[i]),
        forall|i: int| 0 <= i < tail.len() ==> is_white(#[trigger] tail[i]),
    ensures
        effort_named(lead + effort_name(e) + tail) == Some(e),
        effort_text(lead + effort_name(e) + tail) == "effort \u{2192} "@ + effort_name(e),
{
    let arg = lead + effort_name(e) + tail;
    reveal_strlit("low");
    reveal_strlit("medium");
    reveal_strlit("high");
    reveal_strlit("max");
    reveal_strlit("auto");
    reveal_strlit("Low");
    reveal_strlit("Medium");
    reveal_strlit("High");
    reveal_strlit("Max");
    reveal_strlit("Auto");
    law_trimming_takes_white_space_off(lead, effort_name(e), tail);
    let l = ascii_lowercase(trim(arg));
    match e {
        Effort::Low => {
            assert(l =~= "low"@);
        },
        Effort::Medium => {
            assert(l =~= "medium"@);
        },
        Effort::High => {
            assert(l =~= "high"@);
        },
        Effort::Max => {
            assert(l =~= "max"@);
        },
        Effort::Auto => {
            assert(l =~= "auto"@);
        },
    }
    law_five_names_give_an_effort(arg);
}

/// An effort is written by its name with a capital; what names none is
/// quoted in lower case, with the five that could be named.
pub proof fn law_efforts_are_answered(e: Effort, arg: Seq<char>)
    ensures
        effort_name(e) == (match e {
            Effort::Low => "Low"@,
            Effort::Medium => "Medium"@,
            Effort::High => "High"@,
            Effort::Max => "Max"@,
            Effort::Auto => "Auto"@,
        }),
        effort_named(arg) is None ==> effort_text(arg) == "/effort: unknown level `"@
            + ascii_lowercase(trim(arg)) + "` (expected low|medium|high|max|auto)"@,
{
}

/// The list has a row for each model, in their order, behind two lines and
/// before a last one; the active model alone is starred.
pub proof fn law_models_are_listed(
    active: Seq<char>,
    provider: Seq<char>,
    models: Seq<KnownModel<Seq<char>>>,
    i: int,
)
    requires
        0 <= i < models.len(),
    ensures
        ({
            let out = models_text(active, provider, models);
            &&& out.len() == models.len() + 3
            &&& out[0] == "active model: "@ + active + " (provider: "@ + provider + ")"@
            &&& out[1] == decimal(models.len()) + " model(s) on `"@ + provider + "`:"@
            &&& models[i].id == active ==> out[i + 2] == "  "@ + "*"@ + " "@ + models[i].id
                + " \u{2014} "@ + decimal(models[i].max_input_tokens as nat) + " ctx"@
            &&& models[i].id != active ==> out[i + 2] == "  "@ + " "@ + " "@ + models[i].id
                + " \u{2014} "@ + decimal(models[i].max_input_tokens as nat) + " ctx"@
            &&& out.last() == "use `/model <id>` to switch. picker overlay lands in a follow-up."@
        }),
{
}

/// Without known models there are two lines: the active model, and how to
/// name another.
pub proof fn law_no_models_are_listed(active: Seq<char>, provider: Seq<char>)
    ensures
        models_text(active, provider, Seq::empty()) == seq![
            "active model: "@ + active + " (provider: "@ + provider + ")"@,
            "no known-model list from this provider \u{2014} use `/model <id>` directly"@,
        ],
{
}

/// Models are listed where the argument is blank or `--picker`; white space
/// around it does not matter.
pub proof fn law_blank_arguments_list_models(arg: Seq<char>)
    ensures
        lists_models(arg) <==> trim(arg).len() == 0 || trim(arg) == "--picker"@,
{
}

/// A switch is answered by the model, or by why it failed; the status names
/// the provider.
pub proof fn law_switches_are_answered(id: Seq<char>, error: Option<&str>, provider: Seq<char>)
    ensures
        error is None ==> swap_text(id, error) == "model \u{2192} "@ + trim(id),
        error is Some ==> swap_text(id, error) == "/model: "@ + error->0@,
        status_text(provider) == "provider: "@ + provider
            + " (full provider/auth/subscription status arrives with the Auth spec)"@,
{
}

} // verus!
