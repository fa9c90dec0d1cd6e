use caliban::completer::{rank, rank_scored};

#[test]
fn empty_query_returns_all_in_order() {
    let items = &[("/help", "/help"), ("/quit", "/quit")];
    let out = rank(items, "", 10);
    assert_eq!(out.len(), 2);
    assert_eq!(out[0].display, "/help");
}

#[test]
fn ranks_prefix_matches_highest() {
    let items = &[
        ("/help", "/help"),
        ("/clear", "/clear"),
        ("/config", "/config"),
    ];
    let out = rank(items, "he", 10);
    assert_eq!(out[0].display, "/help");
}

#[test]
fn nonmatch_excluded() {
    let items = &[("/help", "/help")];
    let out = rank(items, "zzz", 10);
    assert!(out.is_empty());
}

#[test]
fn limit_respected() {
    let items = &[("a", "a"), ("ab", "ab"), ("abc", "abc")];
    let out = rank(items, "a", 2);
    assert_eq!(out.len(), 2);
}

#[test]
fn scores_decide_the_order() {
    let items = &[("low", "l"), ("none", "n"), ("high", "h"), ("also low", "a")];
    let out = rank_scored(items, &vec![Some(3), None, Some(9), Some(3)], 10);
    let shown: Vec<&str> = out.iter().map(|c| c.display.as_str()).collect();
    assert_eq!(shown, vec!["high", "also low", "low"]);
    assert_eq!(out[0].insert, "h");
    assert_eq!(out[0].score, 9);
}

#[test]
fn upper_case_queries_match_upper_case_only() {
    let items = &[("readme", "readme"), ("README", "README")];
    let out = rank(items, "READ", 10);
    assert_eq!(out.len(), 1);
    assert_eq!(out[0].display, "README");
    assert!(out[0].score > 0);
}

#[test]
fn the_longest_candidates_have_the_highest_scores() {
    let long = "x".repeat(2520);
    let items = [(long.as_str(), "x")];
    let out = rank(&items, &long, 10);
    assert_eq!(out[0].score, 36 + 26 * 2519);
    assert!(rank(&items, &"x".repeat(5000), 10).is_empty());
}
