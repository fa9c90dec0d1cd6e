use caliban::toast::{Toast, ToastLevel};

#[test]
fn fresh_toast_not_expired() {
    let t = Toast::error("boom", 1000);
    assert!(!t.is_expired(1000));
}

#[test]
fn level_preserved() {
    assert!(matches!(Toast::error("x", 1000).level, ToastLevel::Error));
    assert!(matches!(Toast::warn("x", 1000).level, ToastLevel::Warn));
    assert!(matches!(Toast::info("x", 1000).level, ToastLevel::Info));
}
