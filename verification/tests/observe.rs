use caliban::app::{App, Startup, TranscriptLine};
use caliban::effect::Effect;
use caliban::slash::answers::{command_answered, Gathered};
use caliban::slash::cost::{cost_lines, CostBreakdown, ModelCost, Usd};
use caliban::slash::dispatch::handle_slash_command;
use caliban::slash::observe::{
    format_context_lines, format_usage_lines, top_n_blocks, ContextBin, ContextUsage,
};
use caliban::slash::Command;
use caliban::types::{Message, PermissionMode};

#[test]
fn top_n_returns_largest_descending() {
    let msgs = vec![
        Message::user_text("small"),
        Message::user_text(&"x".repeat(10_000)),
        Message::assistant_text(&"y".repeat(20_000)),
    ];
    let top = top_n_blocks(&msgs, 2);
    assert_eq!(top.len(), 2);
    assert!(top[0].chars >= top[1].chars);
    assert_eq!(top[0].chars, 20_000);
}

#[test]
fn top_n_n_larger_than_history_returns_all() {
    let msgs = vec![Message::user_text("hi"), Message::assistant_text("there")];
    let top = top_n_blocks(&msgs, 100);
    assert_eq!(top.len(), 2);
}

fn usd(mantissa: i128, scale: u32) -> Usd {
    Usd { mantissa, scale }
}

fn costs(by_model: Vec<ModelCost>) -> CostBreakdown {
    CostBreakdown {
        total: usd(12345678, 6),
        total_rounded: "12.3457".into(),
        cache_savings: usd(0, 0),
        cache_savings_rounded: "0.0000".into(),
        by_model,
    }
}

fn call() -> ModelCost {
    ModelCost {
        provider: "anthropic".into(),
        model: "test-model".into(),
        input_tokens: 100,
        output_tokens: 50,
        cache_read_tokens: 10,
        cache_creation_tokens: 5,
        usd: usd(12345678, 6),
        usd_rounded: "12.3457".into(),
    }
}

/// Runs `/cost`; the status message and the lines that it leads to.
fn run_cost(c: CostBreakdown) -> (Option<String>, String) {
    let mut app = App::new(
        Startup {
            session: None,
            session_store: true,
            no_save: false,
            cwd: "/ws".into(),
            system_prompt: None,
            plan_mode: false,
            permission_mode: PermissionMode::Default,
            bypass_latch: false,
            saved_history: Vec::new(),
            input_history_path: None,
            projects_root: None,
            esc_window_ms: 500,
        },
        1_000_000,
    );
    assert_eq!(
        handle_slash_command("/cost", &mut app),
        vec![Effect::RunCommand { command: Command::Cost, args: String::new() }],
    );
    assert!(c.is_writable());
    command_answered(&mut app, &Gathered::Cost(c));
    let body = app
        .transcript
        .iter()
        .filter_map(|l| match l {
            TranscriptLine::Info(s) => Some(s.as_str()),
            _ => None,
        })
        .collect::<Vec<_>>()
        .join("\n");
    (app.last_status_message, body)
}

#[test]
fn format_usage_lines_empty_reports_no_calls() {
    let lines = format_usage_lines(&costs(Vec::new()));
    assert!(lines[0].starts_with("usage \u{2014} total $"));
    assert!(
        lines.iter().any(|l| l.contains("no provider calls yet")),
        "empty accumulator must report no calls; got {lines:?}"
    );
}

#[test]
fn format_usage_lines_with_recorded_call_lists_model() {
    let lines = format_usage_lines(&costs(vec![call()]));
    assert!(
        lines.iter().any(|l| l.contains("by model:")),
        "recorded call must produce a by-model header; got {lines:?}"
    );
    assert!(
        lines.iter().any(|l| l.contains("anthropic/test-model")),
        "the recorded model must appear; got {lines:?}"
    );
}

#[test]
fn format_context_lines_zero_capacity_reports_no_capacity() {
    let lines = format_context_lines(&ContextUsage {
        capacity: 0,
        used: 0,
        utilization_bp: 0,
        bins: Vec::new(),
    });
    assert_eq!(lines.len(), 1);
    assert!(
        lines[0].contains("no capacity reported"),
        "zero-capacity window must report no capacity; got {lines:?}"
    );
}

#[test]
fn format_context_lines_capacity_but_empty_bins() {
    let lines = format_context_lines(&ContextUsage {
        capacity: 100_000,
        used: 0,
        utilization_bp: 0,
        bins: Vec::new(),
    });
    assert!(
        lines[0].contains("100000-token window"),
        "must show the capacity header; got {lines:?}"
    );
    assert!(
        lines.iter().any(|l| l.contains("no messages yet")),
        "empty bins must produce the no-messages note; got {lines:?}"
    );
    assert!(
        !lines.iter().any(|l| l.contains("warning")),
        "low utilization must not warn; got {lines:?}"
    );
}

#[test]
fn format_context_lines_over_80_percent_warns() {
    let lines = format_context_lines(&ContextUsage {
        capacity: 10,
        used: 21,
        utilization_bp: 21_000,
        bins: vec![ContextBin { label: "user text".into(), tokens: 21 }],
    });
    assert!(
        lines.iter().any(|l| l.contains("warning")),
        "over-80% utilization must emit a warning; got {lines:?}"
    );
    assert!(
        !lines.iter().any(|l| l.contains("no messages yet")),
        "non-empty bins must not show the no-messages note; got {lines:?}"
    );
}

#[test]
fn cost_command_emits_total_line_even_when_empty() {
    let mut c = costs(Vec::new());
    c.total = usd(0, 0);
    let (outcome, body) = run_cost(c);
    assert_eq!(outcome, None, "no status message");
    assert!(body.contains("cost"), "missing leading cost line: {body}");
    assert!(body.starts_with("cost \u{2014} total: $0.0000"), "got {body}");
}

#[test]
fn cost_command_lists_per_model_rows_after_record() {
    let mut row = call();
    row.input_tokens = 1_000;
    row.output_tokens = 2_000;
    row.cache_read_tokens = 0;
    row.cache_creation_tokens = 0;
    let (_, body) = run_cost(costs(vec![row]));
    assert!(body.contains("test-model"), "missing model row: {body}");
    assert!(
        body.contains("  anthropic / test-model  in=1000  out=2000  cache_r=0  cache_w=0  $"),
        "got {body}"
    );
    // Amounts are cut to four decimals.
    assert!(body.contains("total: $12.3456"), "got {body}");
}

#[test]
fn amounts_that_are_too_large_are_not_written() {
    assert!(usd(999_999_999_999_999_999_999_999_999, 0).is_writable());
    assert!(!usd(1_000_000_000_000_000_000_000_000_000, 0).is_writable());
    assert!(!usd(-10_000_000_000_000_000_000_000_000_000, 1).is_writable());
    assert!(usd(79_228_162_514_264_337_593_543_950_335, 2).is_writable());
    assert!(!usd(1, 29).is_writable());
    let mut c = costs(vec![call()]);
    assert!(c.is_writable());
    // Twenty-seven digits before the point are written still.
    c.total = usd(-999_999_999_999_999_999_999_999_999, 0);
    assert!(cost_lines(&c)[0].contains("$-999999999999999999999999999.0000"));
    c.total = usd(79_228_162_514_264_337_593_543_950_335, 2);
    assert!(cost_lines(&c)[0].contains("$792281625142643375935439503.3500"));
    c.by_model[0].usd = usd(1_000_000_000_000_000_000_000_000_000, 0);
    assert!(!c.is_writable());
}

#[test]
fn negative_and_fine_amounts_are_cut_not_rounded() {
    let mut c = costs(Vec::new());
    c.total = usd(-19999, 5);
    assert!(cost_lines(&c)[0].contains("$-0.1999"), "got {:?}", cost_lines(&c));
    c.total = usd(7, 0);
    assert!(cost_lines(&c)[0].contains("$7.0000"));
}
