//! A short-lived notice of one row above the prompt.

use vstd::prelude::*;

verus! {

/// How long a notice stays, in milliseconds.
pub const TOAST_TTL_MS: u64 = 5000;

#[derive(Debug, Clone, Copy, PartialEq, Eq, Structural)]
pub enum ToastLevel {
    Error,
    Warn,
    Info,
}

/// A notice, with the clock reading at which it was shown.
#[derive(Debug)]
pub struct Toast<S = String> {
    pub level: ToastLevel,
    pub text: S,
    pub shown_at: u64,
}

pub open spec fn toast(level: ToastLevel, text: Seq<char>, now: u64) -> Toast<Seq<char>> {
    Toast { level, text, shown_at: now }
}

impl View for Toast<String> {
    type V = Toast<Seq<char>>;

    open spec fn view(&self) -> Toast<Seq<char>> {
        Toast { level: self.level, text: self.text@, shown_at: self.shown_at }
    }
}

/// Milliseconds from `from` to `to`; none where the clock reads less.
pub open spec fn elapsed(from: u64, to: u64) -> int {
    if to >= from {
        to - from
    } else {
        0
    }
}

/// Milliseconds from `from` to `to`; none where the clock reads less.
pub fn millis_between(from: u64, to: u64) -> (r: u64)
    ensures
        r == elapsed(from, to),
{
    if to >= from {
        to - from
    } else {
        0
    }
}

impl Toast<String> {
    pub fn new(level: ToastLevel, text: &str, now: u64) -> (r: Toast)
        ensures
            r@ == toast(level, text@, now),
    {
        Toast { level, text: String::from_str(text), shown_at: now }
    }

    pub fn error(text: &str, now: u64) -> (r: Toast)
        ensures
            r@ == toast(ToastLevel::Error, text@, now),
    {
        Toast::new(ToastLevel::Error, text, now)
    }

    pub fn warn(text: &str, now: u64) -> (r: Toast)
        ensures
            r@ == toast(ToastLevel::Warn, text@, now),
    {
        Toast::new(ToastLevel::Warn, text, now)
    }

    pub fn info(text: &str, now: u64) -> (r: Toast)
        ensures
            r@ == toast(ToastLevel::Info, text@, now),
    {
        Toast::new(ToastLevel::Info, text, now)
    }

    /// Whether the notice has been up for its time.
    pub fn is_expired(&self, now: u64) -> (r: bool)
        ensures
            r == (elapsed(self.shown_at, now) >= TOAST_TTL_MS),
    {
        millis_between(self.shown_at, now) >= TOAST_TTL_MS
    }
}

/// Time passes from an earlier reading to a later one, and none the other
/// way; a notice stays for five seconds.
pub proof fn law_notices_stay_five_seconds(from: u64, to: u64)
    ensures
        from <= to ==> elapsed(from, to) == to - from,
        from >= to ==> elapsed(from, to) == 0,
        elapsed(from, to) >= TOAST_TTL_MS <==> to >= from + 5000,
{
}

/// A notice holds what it is given.
pub proof fn law_notices_hold_their_text(level: ToastLevel, text: Seq<char>, now: u64)
    ensures
        toast(level, text, now).level == level,
        toast(level, text, now).text == text,
        toast(level, text, now).shown_at == now,
{
}

} // verus!
