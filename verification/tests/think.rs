use caliban::slash::think::parse_thinking_arg;
use caliban::slash::ThinkingSetting;

#[test]
fn parses_auto_off_on() {
    assert_eq!(parse_thinking_arg("auto"), Ok(ThinkingSetting::Auto));
    assert_eq!(parse_thinking_arg("off"), Ok(ThinkingSetting::Off));
    assert_eq!(parse_thinking_arg("on"), Ok(ThinkingSetting::On(None)));
}

#[test]
fn parses_on_with_budget() {
    assert_eq!(
        parse_thinking_arg("on 12000"),
        Ok(ThinkingSetting::On(Some(12_000)))
    );
}

#[test]
fn parses_bare_budget_shorthand() {
    assert_eq!(
        parse_thinking_arg("8192"),
        Ok(ThinkingSetting::On(Some(8_192)))
    );
}

#[test]
fn is_case_insensitive_and_trims() {
    assert_eq!(parse_thinking_arg("  OFF "), Ok(ThinkingSetting::Off));
    assert_eq!(
        parse_thinking_arg("On 4096"),
        Ok(ThinkingSetting::On(Some(4_096)))
    );
}

#[test]
fn rejects_zero_budget_and_garbage() {
    assert!(parse_thinking_arg("0").is_err());
    assert!(parse_thinking_arg("on 0").is_err());
    assert!(parse_thinking_arg("sometimes").is_err());
}
