use caliban::slash::{
    fuzzy_score, is_immediate_slash, parse_kv_args, register_builtin, Command, SlashCommand,
    SlashCommandMeta, SlashCommandRegistry,
};

fn echo(name: &'static str, hidden: bool) -> SlashCommand {
    SlashCommand {
        meta: SlashCommandMeta {
            name,
            description: "echo for tests",
            args_hint: "",
            hidden,
            immediate: false,
        },
        command: Command::Plugin,
    }
}

fn echo_immediate(name: &'static str, immediate: bool) -> SlashCommand {
    SlashCommand {
        meta: SlashCommandMeta {
            name,
            description: "echo for tests",
            args_hint: "",
            hidden: false,
            immediate,
        },
        command: Command::Plugin,
    }
}

#[test]
fn suggester_returns_alpha_order_when_prefix_empty() {
    let mut r = SlashCommandRegistry::new();
    r.register(echo("/zebra", false));
    r.register(echo("/apple", false));
    r.register(echo("/mango", false));
    let names: Vec<&str> = r.suggest("").iter().map(|m| m.name).collect();
    assert_eq!(names, vec!["/apple", "/mango", "/zebra"]);
}

#[test]
fn suggester_filters_by_substring() {
    let mut r = SlashCommandRegistry::new();
    r.register(echo("/compact", false));
    r.register(echo("/config", false));
    r.register(echo("/context", false));
    r.register(echo("/quit", false));
    let names: Vec<&str> = r.suggest("co").iter().map(|m| m.name).collect();
    assert_eq!(names, vec!["/compact", "/config", "/context"]);
}

#[test]
fn suggester_prefix_matches_sort_before_substring() {
    let mut r = SlashCommandRegistry::new();
    // "/config" starts with "/co"; "/recap" doesn't but contains "ca".
    r.register(echo("/config", false));
    r.register(echo("/recap", false));
    let names: Vec<&str> = r.suggest("ca").iter().map(|m| m.name).collect();
    // Both contain "ca"; only "/recap" does *not* start with "ca".
    // Same group: alphabetical.
    // "/config" contains "ca"? no — drop it.
    assert_eq!(names, vec!["/recap"]);
}

#[test]
fn suggester_matches_non_contiguous_subsequence() {
    let mut r = SlashCommandRegistry::new();
    r.register(echo("/compact", false));
    r.register(echo("/config", false));
    r.register(echo("/context", false));
    // "cfg" is a subsequence of "config" (c-o-n-f-i-g) only — substring
    // matching would have dropped it entirely.
    let names: Vec<&str> = r.suggest("cfg").iter().map(|m| m.name).collect();
    assert_eq!(names, vec!["/config"]);
}

#[test]
fn suggester_is_case_insensitive() {
    let mut r = SlashCommandRegistry::new();
    r.register(echo("/compact", false));
    let names: Vec<&str> = r.suggest("CMP").iter().map(|m| m.name).collect();
    assert_eq!(names, vec!["/compact"]);
}

#[test]
fn suggester_ranks_contiguous_prefix_above_scattered() {
    let mut r = SlashCommandRegistry::new();
    r.register(echo("/cost", false)); // "co" contiguous at start
    r.register(echo("/doctor", false)); // "co" scattered (d-o-...-c→o)
    let names: Vec<&str> = r.suggest("co").iter().map(|m| m.name).collect();
    assert_eq!(names, vec!["/cost", "/doctor"]);
}

#[test]
fn suggester_drops_non_subsequence() {
    let mut r = SlashCommandRegistry::new();
    r.register(echo("/compact", false));
    assert!(r.suggest("xyz").is_empty());
}

#[test]
fn fuzzy_score_rejects_non_subsequence() {
    assert!(fuzzy_score("config", "cfgx").is_none());
}

#[test]
fn fuzzy_score_prefers_contiguous_over_gapped() {
    let contiguous = fuzzy_score("config", "co").expect("subsequence");
    let gapped = fuzzy_score("doctor", "co").expect("subsequence");
    assert!(contiguous > gapped, "{contiguous} !> {gapped}");
}

#[test]
fn fuzzy_score_empty_needle_is_neutral() {
    assert_eq!(fuzzy_score("anything", ""), Some(0));
}

#[test]
fn suggester_hides_hidden_commands() {
    let mut r = SlashCommandRegistry::new();
    r.register(echo("/visible", false));
    r.register(echo("/voice", true));
    let names: Vec<&str> = r.suggest("").iter().map(|m| m.name).collect();
    assert_eq!(names, vec!["/visible"]);
}

#[test]
fn parse_kv_args_handles_flags_and_pairs() {
    let kv = parse_kv_args("--force --target=path --name=\"hello\"");
    assert_eq!(kv.get("force"), Some(&"true".to_string()));
    assert_eq!(kv.get("target"), Some(&"path".to_string()));
    // Surrounding quotes are stripped; whitespace-quoted values are
    // not supported (we tokenize on whitespace first).
    assert_eq!(kv.get("name"), Some(&"hello".to_string()));
}

#[test]
fn registry_contains_and_len_track_registrations() {
    let mut r = SlashCommandRegistry::new();
    assert_eq!(r.len(), 0);
    assert!(!r.contains("/echo"));
    r.register(echo("/echo", false));
    assert_eq!(r.len(), 1);
    assert!(r.contains("/echo"));
}

#[test]
fn visible_metas_excludes_hidden() {
    let mut r = SlashCommandRegistry::new();
    r.register(echo("/aaa", false));
    r.register(echo("/bbb", true));
    let names: Vec<&str> = r.visible_metas().iter().map(|m| m.name).collect();
    assert_eq!(names, vec!["/aaa"]);
}

#[test]
fn known_immediate_commands_are_tagged_in_builtin_registry() {
    let r = register_builtin();
    let immediate = [
        // Original 13 (read-only diagnostics, overlays, runtime config).
        "/usage",
        "/context",
        "/cost",
        "/help",
        "/permissions",
        "/config",
        "/model",
        "/effort",
        "/think",
        "/export",
        "/doctor",
        "/quit",
        "/exit",
        "/system",
        "/heapdump",
        "/feedback",
        "/statusline",
        "/tui",
        "/voice",
        "/hooks",
        "/mcp",
        "/plugins",
        "/plugin",
        "/agents",
        "/skills",
        "/memory",
        "/output-style",
        "/status",
        "/login",
        "/logout",
        "/setup-token",
        "/init",
        "/resume",
    ];
    for cmd in &immediate {
        let m = r
            .lookup_meta(cmd)
            .unwrap_or_else(|| panic!("missing {cmd} from registry"));
        assert!(m.immediate, "expected {cmd} to be immediate");
    }
    // Sanity: ones that touch the model or the in-flight conversation
    // stay non-immediate.
    // - /clear, /compact, /rewind: mutate conversation history.
    // - /plan: toggles mid-turn mutating-tool gating.
    // - /recap, /btw: call the model/provider.
    // - /loop: drives the agent loop (re-runs assistant turns).
    let not_immediate = [
        "/clear", "/compact", "/rewind", "/plan", "/recap", "/btw", "/loop",
    ];
    for cmd in &not_immediate {
        let m = r
            .lookup_meta(cmd)
            .unwrap_or_else(|| panic!("missing {cmd} from registry"));
        assert!(!m.immediate, "{cmd} should NOT be immediate");
    }
}

#[test]
fn lookup_meta_returns_some_for_known_command() {
    let mut r = SlashCommandRegistry::new();
    r.register(echo("/foo", false));
    assert!(r.lookup_meta("/foo").is_some());
    assert!(r.lookup_meta("/bar").is_none());
}

#[test]
fn is_immediate_slash_recognizes_tagged_command() {
    let mut r = SlashCommandRegistry::new();
    r.register(echo_immediate("/inst", true));
    r.register(echo_immediate("/slow", false));
    assert!(is_immediate_slash("/inst", &r));
    assert!(is_immediate_slash("/inst with args", &r));
    assert!(!is_immediate_slash("/slow", &r));
    assert!(!is_immediate_slash("/unknown", &r));
    assert!(!is_immediate_slash("hello world", &r));
    assert!(!is_immediate_slash("", &r));
}

#[test]
fn meta_carries_immediate_flag() {
    let m = SlashCommandMeta {
        name: "/x",
        description: "",
        args_hint: "",
        hidden: false,
        immediate: true,
    };
    assert!(m.immediate);
    let m2 = SlashCommandMeta {
        name: "/y",
        description: "",
        args_hint: "",
        hidden: false,
        immediate: false,
    };
    assert!(!m2.immediate);
}
