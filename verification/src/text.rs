//! Text primitives: strings seen as sequences of characters, the operations
//! on them that the rest of the crate states its contracts with, and their
//! executable counterparts.

use vstd::prelude::*;
use vstd::utf8::{encode_scalar, encode_utf8};

verus! {

// ---------------------------------------------------------------------------
// Building strings
// ---------------------------------------------------------------------------

/// `String::push` of std: appends the character at the end.
pub assume_specification[ String::push ](s: &mut String, c: char)
    ensures
        final(s)@ == old(s)@.push(c),
;

/// The characters of `s`, in order.
pub fn chars_of(s: &str) -> (out: Vec<char>)
    ensures
        out@ == s@,
{
    let mut out: Vec<char> = Vec::new();
    for c in it: s.chars()
        invariant
            out@ == s@.take(it.index() as int),
            it.seq() == s@,
    {
        out.push(c);
        assert(s@.take(it.index() as int + 1) =~= s@.take(it.index() as int).push(c));
    }
    assert(s@.take(s@.len() as int) =~= s@);
    out
}

/// The string made of `cs[from..to]`.
pub fn string_of(cs: &Vec<char>, from: usize, to: usize) -> (out: String)
    requires
        from <= to <= cs@.len(),
    ensures
        out@ == cs@.subrange(from as int, to as int),
{
    let mut out = String::new();
    let mut i: usize = from;
    while i < to
        invariant
            from <= i <= to <= cs@.len(),
            out@ == cs@.subrange(from as int, i as int),
        decreases to - i,
    {
        out.push(cs[i]);
        i = i + 1;
        assert(cs@.subrange(from as int, i as int) =~= cs@.subrange(from as int, i - 1).push(
            cs@[i - 1],
        ));
    }
    out
}

pub fn cat2(a: &str, b: &str) -> (out: String)
    ensures
        out@ == a@ + b@,
{
    let mut out = String::from_str(a);
    out.append(b);
    out
}

pub fn cat3(a: &str, b: &str, c: &str) -> (out: String)
    ensures
        out@ == a@ + b@ + c@,
{
    let mut out = String::from_str(a);
    out.append(b);
    out.append(c);
    out
}

pub fn cat4(a: &str, b: &str, c: &str, d: &str) -> (out: String)
    ensures
        out@ == a@ + b@ + c@ + d@,
{
    let mut out = String::from_str(a);
    out.append(b);
    out.append(c);
    out.append(d);
    out
}

pub fn cat5(a: &str, b: &str, c: &str, d: &str, e: &str) -> (out: String)
    ensures
        out@ == a@ + b@ + c@ + d@ + e@,
{
    let mut out = String::from_str(a);
    out.append(b);
    out.append(c);
    out.append(d);
    out.append(e);
    out
}

/// `s` without its last character, if there is one.
pub open spec fn shortened(s: Seq<char>) -> Seq<char> {
    if s.len() > 0 {
        s.drop_last()
    } else {
        s
    }
}

/// Takes the last character off `s`, if there is one.
pub fn drop_last_char(s: &mut String)
    ensures
        final(s)@ == shortened(old(s)@),
{
    let cs = chars_of(s.as_str());
    if cs.len() > 0 {
        *s = string_of(&cs, 0, cs.len() - 1);
        assert(cs@.subrange(0, cs@.len() - 1) =~= cs@.drop_last());
    }
}

/// Whether two strings hold the same characters.
pub fn same(a: &str, b: &str) -> (r: bool)
    ensures
        r == (a@ == b@),
{
    let x = chars_of(a);
    let y = chars_of(b);
    if x.len() != y.len() {
        return false;
    }
    let mut i: usize = 0;
    while i < x.len()
        invariant
            i <= x@.len(),
            x@.len() == y@.len(),
            x@ == a@,
            y@ == b@,
            forall|j: int| 0 <= j < i ==> x@[j] == y@[j],
        decreases x@.len() - i,
    {
        if x[i] != y[i] {
            return false;
        }
        i = i + 1;
    }
    assert(a@ =~= b@);
    true
}

// ---------------------------------------------------------------------------
// Sequences of strings
// ---------------------------------------------------------------------------

/// The texts held by a sequence of strings.
pub open spec fn texts(v: Seq<String>) -> Seq<Seq<char>> {
    Seq::new(v.len(), |i: int| v[i]@)
}

/// The text held by an optional string.
pub open spec fn opt_text(o: Option<String>) -> Option<Seq<char>> {
    match o {
        Some(s) => Some(s@),
        None => None,
    }
}

pub proof fn lemma_texts_push(v: Seq<String>, s: String)
    ensures
        texts(v.push(s)) == texts(v).push(s@),
{
    assert(texts(v.push(s)) =~= texts(v).push(s@));
}

/// Appends `s` to `v`.
pub fn push_text(v: &mut Vec<String>, s: String)
    ensures
        final(v)@ == old(v)@.push(s),
        texts(final(v)@) == texts(old(v)@).push(s@),
{
    proof {
        lemma_texts_push(v@, s);
    }
    v.push(s);
}

/// A copy of a list of strings.
pub fn clone_texts(v: &Vec<String>) -> (out: Vec<String>)
    ensures
        texts(out@) == texts(v@),
{
    let mut out: Vec<String> = Vec::new();
    let mut i: usize = 0;
    while i < v.len()
        invariant
            i <= v@.len(),
            texts(out@) == texts(v@).take(i as int),
        decreases v@.len() - i,
    {
        push_text(&mut out, v[i].clone());
        i = i + 1;
        assert(texts(v@).take(i as int) =~= texts(v@).take(i - 1).push(v@[i - 1]@));
    }
    assert(texts(v@).take(v@.len() as int) =~= texts(v@));
    out
}

/// A copy of an optional string.
pub fn clone_opt(o: &Option<String>) -> (out: Option<String>)
    ensures
        opt_text(out) == opt_text(*o),
{
    match o {
        Some(s) => Some(s.clone()),
        None => None,
    }
}

/// The parts in order, `sep` between each two of them.
pub open spec fn join(parts: Seq<Seq<char>>, sep: Seq<char>) -> Seq<char>
    decreases parts.len(),
{
    if parts.len() == 0 {
        Seq::empty()
    } else if parts.len() == 1 {
        parts[0]
    } else {
        join(parts.drop_last(), sep) + sep + parts.last()
    }
}

pub fn join_texts(parts: &Vec<String>, sep: &str) -> (out: String)
    ensures
        out@ == join(texts(parts@), sep@),
{
    let mut out = String::new();
    let mut i: usize = 0;
    while i < parts.len()
        invariant
            i <= parts@.len(),
            out@ == join(texts(parts@).take(i as int), sep@),
        decreases parts@.len() - i,
    {
        let ghost t = texts(parts@).take(i + 1);
        assert(t.drop_last() =~= texts(parts@).take(i as int));
        if i > 0 {
            out.append(sep);
        }
        out.append(parts[i].as_str());
        assert(t.last() == parts@[i as int]@);
        if i == 0 {
            assert(out@ =~= t[0]);
        }
        i = i + 1;
    }
    assert(texts(parts@).take(parts@.len() as int) =~= texts(parts@));
    out
}

// ---------------------------------------------------------------------------
// White space
// ---------------------------------------------------------------------------

/// The Unicode `White_Space` property.
pub open spec fn is_white(c: char) -> bool {
    ||| '\u{9}' <= c <= '\u{d}'
    ||| c == ' '
    ||| c == '\u{85}'
    ||| c == '\u{a0}'
    ||| c == '\u{1680}'
    ||| '\u{2000}' <= c <= '\u{200a}'
    ||| c == '\u{2028}'
    ||| c == '\u{2029}'
    ||| c == '\u{202f}'
    ||| c == '\u{205f}'
    ||| c == '\u{3000}'
}

pub fn is_white_char(c: char) -> (r: bool)
    ensures
        r == is_white(c),
{
    ('\u{9}' <= c && c <= '\u{d}') || c == ' ' || c == '\u{85}' || c == '\u{a0}' || c == '\u{1680}'
        || ('\u{2000}' <= c && c <= '\u{200a}') || c == '\u{2028}' || c == '\u{2029}' || c
        == '\u{202f}' || c == '\u{205f}' || c == '\u{3000}'
}

/// `s` without its leading white space.
pub open spec fn trim_start(s: Seq<char>) -> Seq<char>
    decreases s.len(),
{
    if s.len() > 0 && is_white(s[0]) {
        trim_start(s.drop_first())
    } else {
        s
    }
}

/// `s` without its trailing white space.
pub open spec fn trim_end(s: Seq<char>) -> Seq<char>
    decreases s.len(),
{
    if s.len() > 0 && is_white(s.last()) {
        trim_end(s.drop_last())
    } else {
        s
    }
}

/// `s` without the white space at either end.
pub open spec fn trim(s: Seq<char>) -> Seq<char> {
    trim_end(trim_start(s))
}

/// Number of leading white-space characters of `cs[from..]`, added to `from`.
fn skip_white(cs: &Vec<char>, from: usize) -> (i: usize)
    requires
        from <= cs@.len(),
    ensures
        from <= i <= cs@.len(),
        cs@.skip(i as int) == trim_start(cs@.skip(from as int)),
{
    let mut i: usize = from;
    while i < cs.len() && is_white_char(cs[i])
        invariant
            from <= i <= cs@.len(),
            trim_start(cs@.skip(i as int)) == trim_start(cs@.skip(from as int)),
        decreases cs@.len() - i,
    {
        assert(cs@.skip(i as int).drop_first() =~= cs@.skip(i + 1));
        i = i + 1;
    }
    i
}

pub fn trim_text(s: &str) -> (out: String)
    ensures
        out@ == trim(s@),
{
    let cs = chars_of(s);
    let start = skip_white(&cs, 0);
    assert(cs@.skip(0) =~= cs@);
    let mut end: usize = cs.len();
    assert(cs@.subrange(start as int, end as int) =~= cs@.skip(start as int));
    while end > start && is_white_char(cs[end - 1])
        invariant
            start <= end <= cs@.len(),
            trim_end(cs@.subrange(start as int, end as int)) == trim(s@),
        decreases end,
    {
        assert(cs@.subrange(start as int, end as int).drop_last() =~= cs@.subrange(
            start as int,
            end - 1,
        ));
        end = end - 1;
    }
    string_of(&cs, start, end)
}

/// Length of the run of non-white characters at the start of `s`.
pub open spec fn word_len(s: Seq<char>) -> nat
    decreases s.len(),
{
    if s.len() > 0 && !is_white(s[0]) {
        1 + word_len(s.drop_first())
    } else {
        0
    }
}

pub proof fn lemma_word_len(s: Seq<char>)
    ensures
        word_len(s) <= s.len(),
        forall|i: int| 0 <= i < word_len(s) ==> !is_white(#[trigger] s[i]),
        word_len(s) < s.len() ==> is_white(s[word_len(s) as int]),
    decreases s.len(),
{
    if s.len() > 0 && !is_white(s[0]) {
        lemma_word_len(s.drop_first());
        assert forall|i: int| 0 <= i < word_len(s) implies !is_white(#[trigger] s[i]) by {
            if i > 0 {
                assert(s.drop_first()[i - 1] == s[i]);
            }
        }
    }
}

pub proof fn lemma_trim_start(s: Seq<char>)
    ensures
        trim_start(s).len() <= s.len(),
        trim_start(s) == s.skip(s.len() - trim_start(s).len()),
        trim_start(s).len() > 0 ==> !is_white(trim_start(s)[0]),
        forall|i: int| 0 <= i < s.len() - trim_start(s).len() ==> is_white(#[trigger] s[i]),
    decreases s.len(),
{
    if s.len() > 0 && is_white(s[0]) {
        lemma_trim_start(s.drop_first());
        let k = s.len() - trim_start(s).len();
        assert(s.drop_first().skip(k - 1) =~= s.skip(k));
        assert forall|i: int| 0 <= i < k implies is_white(#[trigger] s[i]) by {
            if i > 0 {
                assert(s.drop_first()[i - 1] == s[i]);
            }
        }
    } else {
        assert(s.skip(0) =~= s);
    }
}

/// The maximal runs of non-white characters, in order.
pub open spec fn words(s: Seq<char>) -> Seq<Seq<char>>
    decreases s.len(),
    via words_decreases
{
    let t = trim_start(s);
    if t.len() == 0 {
        Seq::empty()
    } else {
        let n = word_len(t) as int;
        seq![t.take(n)] + words(t.skip(n))
    }
}

#[via_fn]
proof fn words_decreases(s: Seq<char>) {
    lemma_trim_start(s);
    lemma_word_len(trim_start(s));
}

fn word_end(cs: &Vec<char>, from: usize) -> (i: usize)
    requires
        from <= cs@.len(),
    ensures
        i == from + word_len(cs@.skip(from as int)),
        i <= cs@.len(),
{
    let mut i: usize = from;
    while i < cs.len() && !is_white_char(cs[i])
        invariant
            from <= i <= cs@.len(),
            from + word_len(cs@.skip(from as int)) == i + word_len(cs@.skip(i as int)),
        decreases cs@.len() - i,
    {
        assert(cs@.skip(i as int).drop_first() =~= cs@.skip(i + 1));
        i = i + 1;
    }
    i
}

pub fn split_whitespace(s: &str) -> (out: Vec<String>)
    ensures
        texts(out@) == words(s@),
{
    let cs = chars_of(s);
    let mut out: Vec<String> = Vec::new();
    let mut i: usize = 0;
    assert(cs@.skip(0) =~= cs@);
    assert(texts(out@) + words(cs@) =~= words(cs@));
    let mut done = false;
    while !done
        invariant
            i <= cs@.len(),
            !done ==> texts(out@) + words(cs@.skip(i as int)) == words(s@),
            done ==> texts(out@) == words(s@),
        decreases (if done { 0 } else { cs@.len() - i + 1 }),
    {
        let start = skip_white(&cs, i);
        let end = word_end(&cs, start);
        let ghost t = cs@.skip(start as int);
        if start == cs.len() {
            assert(words(cs@.skip(i as int)) =~= Seq::<Seq<char>>::empty());
            assert(texts(out@) + words(cs@.skip(i as int)) =~= texts(out@));
            done = true;
        } else {
            let ghost before = texts(out@);
            let ghost n = word_len(t) as int;
            push_text(&mut out, string_of(&cs, start, end));
            assert(cs@.subrange(start as int, end as int) =~= t.take(n));
            assert(t.skip(n) =~= cs@.skip(end as int));
            assert(before + (seq![t.take(n)] + words(t.skip(n))) =~= before.push(t.take(n)) + words(
                t.skip(n),
            ));
            proof {
                lemma_word_len(t);
                lemma_trim_start(cs@.skip(i as int));
                assert(word_len(t) > 0);
            }
            i = end;
        }
    }
    out
}

/// What `s` holds before its first white-space character.
pub open spec fn head_word(s: Seq<char>) -> Seq<char> {
    s.take(word_len(s) as int)
}

/// What follows the first white-space character of `s`, trimmed; nothing
/// where `s` has none.
pub open spec fn tail_words(s: Seq<char>) -> Seq<char> {
    let n = word_len(s) as int;
    if n < s.len() {
        trim(s.skip(n + 1))
    } else {
        Seq::empty()
    }
}

/// Splits a command line at its first white space into the head word and
/// the trimmed rest.
pub fn split_command(s: &str) -> (out: (String, String))
    ensures
        out.0@ == head_word(s@),
        out.1@ == tail_words(s@),
{
    let cs = chars_of(s);
    let n = word_end(&cs, 0);
    assert(cs@.skip(0) =~= cs@);
    let head = string_of(&cs, 0, n);
    assert(cs@.subrange(0, n as int) =~= cs@.take(n as int));
    if n < cs.len() {
        let rest = string_of(&cs, n + 1, cs.len());
        assert(cs@.subrange(n + 1, cs@.len() as int) =~= cs@.skip(n + 1));
        (head, trim_text(rest.as_str()))
    } else {
        (head, String::new())
    }
}

// ---------------------------------------------------------------------------
// Lines and separators
// ---------------------------------------------------------------------------

/// Position of the first `c` in `s`, or the length of `s`.
pub open spec fn find_char(s: Seq<char>, c: char) -> nat
    decreases s.len(),
{
    if s.len() > 0 && s[0] != c {
        1 + find_char(s.drop_first(), c)
    } else {
        0
    }
}

pub proof fn lemma_find_char(s: Seq<char>, c: char)
    ensures
        find_char(s, c) <= s.len(),
        forall|i: int| 0 <= i < find_char(s, c) ==> #[trigger] s[i] != c,
        find_char(s, c) < s.len() ==> s[find_char(s, c) as int] == c,
    decreases s.len(),
{
    if s.len() > 0 && s[0] != c {
        lemma_find_char(s.drop_first(), c);
        assert forall|i: int| 0 <= i < find_char(s, c) implies #[trigger] s[i] != c by {
            if i > 0 {
                assert(s.drop_first()[i - 1] == s[i]);
            }
        }
    }
}

/// The pieces of `s` between the occurrences of `c`; one more of them than
/// `c` occurs.
pub open spec fn split(s: Seq<char>, c: char) -> Seq<Seq<char>>
    decreases s.len(),
    via split_decreases
{
    let n = find_char(s, c) as int;
    if n >= s.len() {
        seq![s]
    } else {
        seq![s.take(n)] + split(s.skip(n + 1), c)
    }
}

#[via_fn]
proof fn split_decreases(s: Seq<char>, c: char) {
    lemma_find_char(s, c);
}

fn find_from(cs: &Vec<char>, from: usize, c: char) -> (i: usize)
    requires
        from <= cs@.len(),
    ensures
        i == from + find_char(cs@.skip(from as int), c),
        i <= cs@.len(),
{
    let mut i: usize = from;
    while i < cs.len() && cs[i] != c
        invariant
            from <= i <= cs@.len(),
            from + find_char(cs@.skip(from as int), c) == i + find_char(cs@.skip(i as int), c),
        decreases cs@.len() - i,
    {
        assert(cs@.skip(i as int).drop_first() =~= cs@.skip(i + 1));
        i = i + 1;
    }
    i
}

pub fn split_text(s: &str, c: char) -> (out: Vec<String>)
    ensures
        texts(out@) == split(s@, c),
{
    let cs = chars_of(s);
    let mut out: Vec<String> = Vec::new();
    let mut i: usize = 0;
    assert(cs@.skip(0) =~= cs@);
    assert(texts(out@) + split(cs@, c) =~= split(cs@, c));
    let mut done = false;
    while !done
        invariant
            i <= cs@.len(),
            !done ==> texts(out@) + split(cs@.skip(i as int), c) == split(s@, c),
            done ==> texts(out@) == split(s@, c),
        decreases (if done { 0 } else { cs@.len() - i + 1 }),
    {
        let end = find_from(&cs, i, c);
        let ghost t = cs@.skip(i as int);
        let ghost before = texts(out@);
        push_text(&mut out, string_of(&cs, i, end));
        if end == cs.len() {
            assert(cs@.subrange(i as int, end as int) =~= t);
            assert(before + seq![t] =~= before.push(t));
            done = true;
        } else {
            let ghost n = find_char(t, c) as int;
            assert(cs@.subrange(i as int, end as int) =~= t.take(n));
            assert(t.skip(n + 1) =~= cs@.skip(end + 1));
            assert(before + (seq![t.take(n)] + split(t.skip(n + 1), c)) =~= before.push(t.take(n))
                + split(t.skip(n + 1), c));
            i = end + 1;
        }
    }
    out
}

/// A line without the carriage return it may end in.
pub open spec fn strip_cr(s: Seq<char>) -> Seq<char> {
    if s.len() > 0 && s.last() == '\r' {
        s.drop_last()
    } else {
        s
    }
}

/// The lines of `s`: each ends at a line feed or at the end of the text, and
/// loses the line feed and a carriage return before it. Nothing after the
/// last line feed is no line.
pub open spec fn lines(s: Seq<char>) -> Seq<Seq<char>>
    decreases s.len(),
    via lines_decreases
{
    let n = find_char(s, '\n') as int;
    if s.len() == 0 {
        Seq::empty()
    } else if n >= s.len() {
        seq![s]
    } else {
        seq![strip_cr(s.take(n))] + lines(s.skip(n + 1))
    }
}

#[via_fn]
proof fn lines_decreases(s: Seq<char>) {
    lemma_find_char(s, '\n');
}

pub fn lines_of(s: &str) -> (out: Vec<String>)
    ensures
        texts(out@) == lines(s@),
{
    let cs = chars_of(s);
    let mut out: Vec<String> = Vec::new();
    let mut i: usize = 0;
    assert(cs@.skip(0) =~= cs@);
    assert(texts(out@) + lines(cs@) =~= lines(cs@));
    while i < cs.len()
        invariant
            i <= cs@.len(),
            texts(out@) + lines(cs@.skip(i as int)) == lines(s@),
        decreases cs@.len() - i,
    {
        let end = find_from(&cs, i, '\n');
        let ghost t = cs@.skip(i as int);
        let ghost before = texts(out@);
        if end == cs.len() {
            push_text(&mut out, string_of(&cs, i, end));
            assert(cs@.subrange(i as int, end as int) =~= t);
            assert(before + seq![t] =~= before.push(t));
            assert(lines(cs@.skip(end as int)) =~= Seq::<Seq<char>>::empty());
            assert(texts(out@) + lines(cs@.skip(end as int)) =~= texts(out@));
            i = end;
        } else {
            let ghost n = find_char(t, '\n') as int;
            let ghost line = cs@.subrange(i as int, end as int);
            assert(line =~= t.take(n));
            let stop: usize = if end > i && cs[end - 1] == '\r' {
                assert(cs@.subrange(i as int, end - 1) =~= line.drop_last());
                end - 1
            } else {
                end
            };
            push_text(&mut out, string_of(&cs, i, stop));
            assert(t.skip(n + 1) =~= cs@.skip(end + 1));
            assert(before + (seq![strip_cr(t.take(n))] + lines(t.skip(n + 1))) =~= before.push(
                strip_cr(t.take(n)),
            ) + lines(t.skip(n + 1)));
            i = end + 1;
        }
    }
    assert(lines(cs@.skip(i as int)) =~= Seq::<Seq<char>>::empty());
    assert(texts(out@) + lines(cs@.skip(i as int)) =~= texts(out@));
    out
}

/// The first line of `s`; nothing where `s` is empty.
pub open spec fn first_line(s: Seq<char>) -> Seq<char> {
    if lines(s).len() > 0 {
        lines(s)[0]
    } else {
        Seq::empty()
    }
}

pub fn first_line_of(s: &str) -> (out: String)
    ensures
        out@ == first_line(s@),
{
    let ls = lines_of(s);
    if ls.len() > 0 {
        assert(texts(ls@)[0] == ls@[0]@);
        ls[0].clone()
    } else {
        assert(texts(ls@).len() == 0);
        String::new()
    }
}

// ---------------------------------------------------------------------------
// Searching
// ---------------------------------------------------------------------------

/// Whether `needle` stands in `s` at position `i`.
pub open spec fn occurs_at(s: Seq<char>, needle: Seq<char>, i: int) -> bool {
    0 <= i && i + needle.len() <= s.len() && s.subrange(i, i + needle.len()) == needle
}

/// Whether `needle` occurs in `s`.
pub open spec fn contains(s: Seq<char>, needle: Seq<char>) -> bool {
    exists|i: int| occurs_at(s, needle, i)
}

fn matches_at(cs: &Vec<char>, needle: &Vec<char>, at: usize) -> (r: bool)
    requires
        at + needle@.len() <= cs@.len(),
    ensures
        r == occurs_at(cs@, needle@, at as int),
{
    let n: usize = cs.len();
    let mut j: usize = 0;
    while j < needle.len()
        invariant
            j <= needle@.len(),
            at + needle@.len() <= n == cs@.len(),
            forall|k: int| 0 <= k < j ==> cs@[at + k] == needle@[k],
        decreases needle@.len() - j,
    {
        if cs[at + j] != needle[j] {
            assert(cs@.subrange(at as int, at + needle@.len())[j as int] != needle@[j as int]);
            return false;
        }
        j = j + 1;
    }
    assert(cs@.subrange(at as int, at + needle@.len()) =~= needle@);
    true
}

pub fn contains_text(s: &str, needle: &str) -> (r: bool)
    ensures
        r == contains(s@, needle@),
{
    let cs = chars_of(s);
    let nd = chars_of(needle);
    if nd.len() > cs.len() {
        return false;
    }
    let last: usize = cs.len() - nd.len();
    let mut i: usize = 0;
    while i <= last
        invariant
            i <= last + 1,
            last == cs@.len() - nd@.len(),
            cs@ == s@,
            nd@ == needle@,
            forall|k: int| 0 <= k < i ==> !occurs_at(s@, needle@, k),
        decreases last + 1 - i,
    {
        if matches_at(&cs, &nd, i) {
            return true;
        }
        if i == last {
            assert forall|k: int| !occurs_at(s@, needle@, k) by {
                if 0 <= k && k + needle@.len() <= s@.len() {
                    assert(k <= last);
                }
            }
            return false;
        }
        i = i + 1;
    }
    false
}

/// Whether `s` begins with `prefix`.
pub open spec fn starts_with(s: Seq<char>, prefix: Seq<char>) -> bool {
    occurs_at(s, prefix, 0)
}

pub fn starts_with_text(s: &str, prefix: &str) -> (r: bool)
    ensures
        r == starts_with(s@, prefix@),
{
    let cs = chars_of(s);
    let pf = chars_of(prefix);
    pf.len() <= cs.len() && matches_at(&cs, &pf, 0)
}

/// Whether `s` begins with the character `c`.
pub open spec fn starts_with_char(s: Seq<char>, c: char) -> bool {
    s.len() > 0 && s[0] == c
}

pub fn starts_with_character(s: &str, c: char) -> (r: bool)
    ensures
        r == starts_with_char(s@, c),
{
    let cs = chars_of(s);
    cs.len() > 0 && cs[0] == c
}

/// The first `n` characters of `s`, or all of it where it is shorter.
pub open spec fn prefix(s: Seq<char>, n: int) -> Seq<char> {
    if n <= s.len() {
        s.take(n)
    } else {
        s
    }
}

pub fn take_chars(s: &str, n: usize) -> (out: String)
    ensures
        out@ == prefix(s@, n as int),
{
    let cs = chars_of(s);
    let end: usize = if n <= cs.len() {
        n
    } else {
        cs.len()
    };
    assert(cs@.subrange(0, end as int) =~= prefix(s@, n as int));
    string_of(&cs, 0, end)
}

/// What `s` holds from its character `n` on.
pub fn skip_chars(s: &str, n: usize) -> (out: String)
    requires
        n <= s@.len(),
    ensures
        out@ == s@.skip(n as int),
{
    let cs = chars_of(s);
    assert(cs@.subrange(n as int, cs@.len() as int) =~= cs@.skip(n as int));
    string_of(&cs, n, cs.len())
}

/// Number of characters of `s`.
pub fn count_chars(s: &str) -> (n: usize)
    ensures
        n == s@.len(),
{
    chars_of(s).len()
}

// ---------------------------------------------------------------------------
// Numbers
// ---------------------------------------------------------------------------

/// The decimal digit of a value below ten.
pub open spec fn digit(d: nat) -> char {
    ((0x30 + d) as u32) as char
}

/// `n` in decimal notation, without leading zeros.
pub open spec fn decimal(n: nat) -> Seq<char>
    decreases n,
{
    if n < 10 {
        seq![digit(n)]
    } else {
        decimal(n / 10).push(digit(n % 10))
    }
}

fn digit_char(d: u64) -> (c: char)
    requires
        d < 10,
    ensures
        c == digit(d as nat),
{
    (0x30u8 + d as u8) as char
}

pub fn decimal_u64(n: u64) -> (out: String)
    ensures
        out@ == decimal(n as nat),
    decreases n,
{
    if n < 10 {
        let mut out = String::new();
        out.push(digit_char(n));
        assert(out@ =~= decimal(n as nat));
        out
    } else {
        let mut out = decimal_u64(n / 10);
        out.push(digit_char(n % 10));
        out
    }
}

pub fn decimal_usize(n: usize) -> (out: String)
    ensures
        out@ == decimal(n as nat),
{
    decimal_u64(n as u64)
}

// ---------------------------------------------------------------------------
// Columns
// ---------------------------------------------------------------------------

/// A decimal digit.
pub open spec fn is_digit(c: char) -> bool {
    '0' <= c <= '9'
}

/// What a run of digits stands for.
pub open spec fn digits_value(s: Seq<char>) -> nat
    decreases s.len(),
{
    if s.len() == 0 {
        0
    } else {
        (digits_value(s.drop_last()) * 10 + (s.last() as int - '0' as int)) as nat
    }
}

/// A text without the plus sign it may start with.
pub open spec fn unsigned(s: Seq<char>) -> Seq<char> {
    if s.len() > 0 && s[0] == '+' {
        s.skip(1)
    } else {
        s
    }
}

/// The number that a text writes: digits, with a plus sign before them at
/// most, and no more than thirty-two bits.
pub open spec fn written_u32(s: Seq<char>) -> Option<nat> {
    let d = unsigned(s);
    if d.len() > 0 && (forall|i: int| 0 <= i < d.len() ==> is_digit(#[trigger] d[i]))
        && digits_value(d) <= u32::MAX {
        Some(digits_value(d))
    } else {
        None
    }
}

proof fn lemma_digits_value_grows(s: Seq<char>, n: int)
    requires
        0 <= n <= s.len(),
        forall|i: int| 0 <= i < s.len() ==> is_digit(#[trigger] s[i]),
    ensures
        digits_value(s.take(n)) <= digits_value(s),
    decreases s.len() - n,
{
    if n < s.len() {
        lemma_digits_value_grows(s, n + 1);
        assert(s.take(n + 1).drop_last() =~= s.take(n));
        assert(s.take(n + 1).last() == s[n]);
        assert(is_digit(s[n]));
    } else {
        assert(s.take(n) =~= s);
    }
}

pub fn parse_u32(s: &str) -> (r: Option<u32>)
    ensures
        match r {
            Some(n) => written_u32(s@) == Some(n as nat),
            None => written_u32(s@) is None,
        },
{
    let cs = chars_of(s);
    let from: usize = if cs.len() > 0 && cs[0] == '+' {
        1
    } else {
        0
    };
    let ghost d = unsigned(s@);
    assert(d =~= cs@.skip(from as int));
    if from >= cs.len() {
        return None;
    }
    let mut value: u64 = 0;
    let mut big = false;
    let mut i: usize = from;
    assert(d.take(0) =~= Seq::<char>::empty());
    while i < cs.len()
        invariant
            from <= i <= cs@.len(),
            d == cs@.skip(from as int),
            d == unsigned(s@),
            forall|k: int| 0 <= k < i - from ==> is_digit(#[trigger] d[k]),
            !big ==> value == digits_value(d.take(i - from)) && value <= u32::MAX,
            big ==> exists|n: int| 0 <= n <= i - from && #[trigger] digits_value(d.take(n)) > u32::MAX,
        decreases cs@.len() - i,
    {
        let c = cs[i];
        assert(d[i - from] == c);
        if !('0' <= c && c <= '9') {
            return None;
        }
        assert(d.take(i + 1 - from).drop_last() =~= d.take(i - from));
        assert(d.take(i + 1 - from).last() == c);
        if !big {
            value = value * 10 + (c as u32 - '0' as u32) as u64;
            if value > u32::MAX as u64 {
                big = true;
                assert(digits_value(d.take(i + 1 - from)) > u32::MAX);
            }
        }
        i = i + 1;
    }
    assert(d.take(d.len() as int) =~= d);
    if big {
        proof {
            let n = choose|n: int| 0 <= n <= d.len() && #[trigger] digits_value(d.take(n)) > u32::MAX;
            lemma_digits_value_grows(d, n);
        }
        None
    } else {
        Some(value as u32)
    }
}

/// `n` blanks.
pub open spec fn blanks(n: int) -> Seq<char> {
    Seq::new(if n > 0 { n as nat } else { 0 }, |i: int| ' ')
}

/// `s` filled up with blanks on the right to `width` characters.
pub open spec fn pad_right(s: Seq<char>, width: int) -> Seq<char> {
    s + blanks(width - s.len())
}

/// `s` filled up with blanks on the left to `width` characters.
pub open spec fn pad_left(s: Seq<char>, width: int) -> Seq<char> {
    blanks(width - s.len()) + s
}

pub fn spaces(n: usize) -> (out: String)
    ensures
        out@ == blanks(n as int),
{
    let mut out = String::new();
    let mut i: usize = 0;
    while i < n
        invariant
            i <= n,
            out@ == blanks(i as int),
        decreases n - i,
    {
        out.push(' ');
        i = i + 1;
        assert(blanks(i as int) =~= blanks(i - 1).push(' '));
    }
    out
}

pub fn padded_right(s: &str, width: usize) -> (out: String)
    ensures
        out@ == pad_right(s@, width as int),
{
    let n = count_chars(s);
    let mut out = String::from_str(s);
    if n < width {
        out.append(spaces(width - n).as_str());
    } else {
        assert(s@ + blanks(width - s@.len()) =~= s@);
    }
    out
}

pub fn padded_left(s: &str, width: usize) -> (out: String)
    ensures
        out@ == pad_left(s@, width as int),
{
    let n = count_chars(s);
    if n < width {
        let mut out = spaces(width - n);
        out.append(s);
        out
    } else {
        assert(blanks(width - s@.len()) + s@ =~= s@);
        String::from_str(s)
    }
}

// ---------------------------------------------------------------------------
// Letter case
// ---------------------------------------------------------------------------

/// `c` with `A` to `Z` mapped to `a` to `z`.
pub open spec fn ascii_lower(c: char) -> char {
    if 'A' <= c <= 'Z' {
        ((c as u32 + 32) as u32) as char
    } else {
        c
    }
}

/// `s` with `A` to `Z` mapped to `a` to `z`.
pub open spec fn ascii_lowercase(s: Seq<char>) -> Seq<char> {
    Seq::new(s.len(), |i: int| ascii_lower(s[i]))
}

fn ascii_lower_char(c: char) -> (r: char)
    ensures
        r == ascii_lower(c),
{
    if 'A' <= c && c <= 'Z' {
        (c as u8 + 32u8) as char
    } else {
        c
    }
}

pub fn to_ascii_lowercase(s: &str) -> (out: String)
    ensures
        out@ == ascii_lowercase(s@),
{
    let cs = chars_of(s);
    let mut out = String::new();
    let mut i: usize = 0;
    while i < cs.len()
        invariant
            i <= cs@.len(),
            out@ == ascii_lowercase(cs@.take(i as int)),
        decreases cs@.len() - i,
    {
        out.push(ascii_lower_char(cs[i]));
        i = i + 1;
        assert(ascii_lowercase(cs@.take(i as int)) =~= ascii_lowercase(cs@.take(i - 1)).push(
            ascii_lower(cs@[i - 1]),
        ));
    }
    assert(cs@.take(cs@.len() as int) =~= cs@);
    out
}

// ---------------------------------------------------------------------------
// Bytes
// ---------------------------------------------------------------------------

/// Number of bytes of the UTF-8 encoding of `c`.
pub open spec fn char_width(c: char) -> nat {
    if c <= '\u{7f}' {
        1
    } else if c <= '\u{7ff}' {
        2
    } else if c <= '\u{ffff}' {
        3
    } else {
        4
    }
}

/// Number of bytes of the UTF-8 encoding of `s`.
pub open spec fn byte_len(s: Seq<char>) -> nat
    decreases s.len(),
{
    if s.len() == 0 {
        0
    } else {
        byte_len(s.drop_last()) + char_width(s.last())
    }
}

pub fn width_of(c: char) -> (n: usize)
    ensures
        n == char_width(c),
        1 <= n <= 4,
{
    if c <= '\u{7f}' {
        1
    } else if c <= '\u{7ff}' {
        2
    } else if c <= '\u{ffff}' {
        3
    } else {
        4
    }
}

pub proof fn lemma_byte_len_concat(a: Seq<char>, b: Seq<char>)
    ensures
        byte_len(a + b) == byte_len(a) + byte_len(b),
    decreases b.len(),
{
    if b.len() == 0 {
        assert(a + b =~= a);
    } else {
        assert((a + b).drop_last() =~= a + b.drop_last());
        lemma_byte_len_concat(a, b.drop_last());
    }
}

proof fn lemma_char_width_encode(c: char)
    ensures
        encode_scalar(c as u32).len() == char_width(c),
{
    vstd::utf8::char_is_scalar(c);
}

pub proof fn lemma_byte_len_encode(s: Seq<char>)
    ensures
        encode_utf8(s).len() == byte_len(s),
    decreases s.len(),
{
    if s.len() > 0 {
        lemma_byte_len_encode(s.drop_first());
        assert(seq![s[0]] + s.drop_first() =~= s);
        lemma_byte_len_concat(seq![s[0]], s.drop_first());
        assert(seq![s[0]].drop_last() =~= Seq::<char>::empty());
        assert(byte_len(seq![s[0]]) == char_width(s[0])) by {
            reveal_with_fuel(byte_len, 2);
        }
        lemma_char_width_encode(s[0]);
    }
}

/// A prefix is no longer than the whole, and strictly shorter where it
/// leaves characters out.
pub proof fn lemma_byte_len_prefix(s: Seq<char>, i: int, j: int)
    requires
        0 <= i <= j <= s.len(),
    ensures
        byte_len(s.take(i)) <= byte_len(s.take(j)),
        i < j ==> byte_len(s.take(i)) < byte_len(s.take(j)),
        byte_len(s.take(j)) <= byte_len(s),
        j - i <= byte_len(s.take(j)) - byte_len(s.take(i)),
    decreases s.len() - i,
{
    assert(s.take(s.len() as int) =~= s);
    if i < j {
        lemma_byte_len_prefix(s, i + 1, j);
        assert(s.take(i + 1).drop_last() =~= s.take(i));
    } else if j < s.len() {
        lemma_byte_len_prefix(s, i + 1, j + 1);
        assert(s.take(j + 1).drop_last() =~= s.take(j));
    }
}

/// Number of bytes that `s` takes.
pub fn bytes_in(s: &str) -> (n: usize)
    ensures
        n == byte_len(s@),
{
    proof {
        lemma_byte_len_encode(s@);
    }
    s.as_bytes().len()
}

// ---------------------------------------------------------------------------
// Character classes
// ---------------------------------------------------------------------------

/// `A` to `Z`, `a` to `z`, `0` to `9`.
pub open spec fn is_ascii_alnum(c: char) -> bool {
    ('a' <= c <= 'z') || ('A' <= c <= 'Z') || ('0' <= c <= '9')
}

pub fn is_ascii_alnum_char(c: char) -> (r: bool)
    ensures
        r == is_ascii_alnum(c),
{
    ('a' <= c && c <= 'z') || ('A' <= c && c <= 'Z') || ('0' <= c && c <= '9')
}

/// What `char::is_alphanumeric` says of a character: whether Unicode counts
/// it among the letters and numbers.
pub uninterp spec fn alphanumeric(c: char) -> bool;

/// `char::is_alphanumeric` of std, named.
pub assume_specification[ char::is_alphanumeric ](c: char) -> (r: bool)
    ensures
        r == alphanumeric(c),
;

/// What `str::to_lowercase` gives for a text: its Unicode lower-case form.
pub uninterp spec fn lowercase(s: Seq<char>) -> Seq<char>;

/// `str::to_lowercase` of std, named.
pub assume_specification[ str::to_lowercase ](s: &str) -> (r: String)
    ensures
        r@ == lowercase(s@),
;

/// What `char::to_lowercase` gives for a character: the one or more
/// characters of its Unicode lower-case form.
pub uninterp spec fn char_lowercase(c: char) -> Seq<char>;

/// `char::to_lowercase` of std, named, its characters collected.
#[verifier::external_body]
pub(crate) fn lower_chars(c: char) -> (r: Vec<char>)
    ensures
        r@ == char_lowercase(c),
{
    c.to_lowercase().collect()
}

// ---------------------------------------------------------------------------
// Stripping one character off the ends
// ---------------------------------------------------------------------------

/// `s` without the `c` at its start.
pub open spec fn strip_start(s: Seq<char>, c: char) -> Seq<char>
    decreases s.len(),
{
    if s.len() > 0 && s[0] == c {
        strip_start(s.drop_first(), c)
    } else {
        s
    }
}

/// `s` without the `c` at its end.
pub open spec fn strip_end(s: Seq<char>, c: char) -> Seq<char>
    decreases s.len(),
{
    if s.len() > 0 && s.last() == c {
        strip_end(s.drop_last(), c)
    } else {
        s
    }
}

pub proof fn lemma_strip_end(s: Seq<char>, c: char)
    ensures
        strip_end(s, c).len() <= s.len(),
        strip_end(s, c) == s.take(strip_end(s, c).len() as int),
        strip_end(s, c).len() > 0 ==> strip_end(s, c).last() != c,
    decreases s.len(),
{
    if s.len() > 0 && s.last() == c {
        lemma_strip_end(s.drop_last(), c);
        assert(s.drop_last().take(strip_end(s, c).len() as int) =~= s.take(
            strip_end(s, c).len() as int,
        ));
    } else {
        assert(s.take(s.len() as int) =~= s);
    }
}

pub proof fn lemma_strip_start(s: Seq<char>, c: char)
    ensures
        strip_start(s, c).len() <= s.len(),
        strip_start(s, c) == s.skip(s.len() - strip_start(s, c).len()),
        strip_start(s, c).len() > 0 ==> strip_start(s, c)[0] != c,
    decreases s.len(),
{
    if s.len() > 0 && s[0] == c {
        lemma_strip_start(s.drop_first(), c);
        let k = s.len() - strip_start(s, c).len();
        assert(s.drop_first().skip(k - 1) =~= s.skip(k));
    } else {
        assert(s.skip(0) =~= s);
    }
}

pub fn strip_end_text(s: &str, c: char) -> (out: String)
    ensures
        out@ == strip_end(s@, c),
{
    let cs = chars_of(s);
    let mut end: usize = cs.len();
    assert(cs@.take(end as int) =~= cs@);
    while end > 0 && cs[end - 1] == c
        invariant
            end <= cs@.len(),
            strip_end(cs@.take(end as int), c) == strip_end(s@, c),
        decreases end,
    {
        assert(cs@.take(end as int).drop_last() =~= cs@.take(end - 1));
        end = end - 1;
    }
    assert(cs@.subrange(0, end as int) =~= cs@.take(end as int));
    string_of(&cs, 0, end)
}

/// `s` without the `c` at either end.
pub open spec fn strip_both(s: Seq<char>, c: char) -> Seq<char> {
    strip_end(strip_start(s, c), c)
}

pub fn strip_both_text(s: &str, c: char) -> (out: String)
    ensures
        out@ == strip_both(s@, c),
{
    let cs = chars_of(s);
    let mut start: usize = 0;
    assert(cs@.skip(0) =~= cs@);
    while start < cs.len() && cs[start] == c
        invariant
            start <= cs@.len(),
            strip_start(cs@.skip(start as int), c) == strip_start(s@, c),
        decreases cs@.len() - start,
    {
        assert(cs@.skip(start as int).drop_first() =~= cs@.skip(start + 1));
        start = start + 1;
    }
    let rest = string_of(&cs, start, cs.len());
    assert(cs@.subrange(start as int, cs@.len() as int) =~= cs@.skip(start as int));
    strip_end_text(rest.as_str(), c)
}

// ---------------------------------------------------------------------------
// Order
// ---------------------------------------------------------------------------

/// Whether `a` comes before `b` in a dictionary that goes by code points.
pub open spec fn text_before(a: Seq<char>, b: Seq<char>) -> bool
    decreases a.len(),
{
    if b.len() == 0 {
        false
    } else if a.len() == 0 {
        true
    } else if a[0] != b[0] {
        a[0] < b[0]
    } else {
        text_before(a.drop_first(), b.drop_first())
    }
}

pub proof fn lemma_text_order(a: Seq<char>, b: Seq<char>)
    ensures
        a == b || text_before(a, b) || text_before(b, a),
        !(text_before(a, b) && text_before(b, a)),
        a == b ==> !text_before(a, b),
    decreases a.len(),
{
    if a.len() > 0 && b.len() > 0 {
        lemma_text_order(a.drop_first(), b.drop_first());
        if a[0] == b[0] && a.drop_first() == b.drop_first() {
            assert(a =~= seq![a[0]] + a.drop_first());
            assert(b =~= seq![b[0]] + b.drop_first());
        }
    } else if a.len() == 0 && b.len() == 0 {
        assert(a =~= b);
    }
}

pub proof fn lemma_text_before_transitive(a: Seq<char>, b: Seq<char>, c: Seq<char>)
    requires
        text_before(a, b),
        text_before(b, c),
    ensures
        text_before(a, c),
    decreases a.len(),
{
    if a.len() > 0 && a[0] == b[0] && b[0] == c[0] {
        lemma_text_before_transitive(a.drop_first(), b.drop_first(), c.drop_first());
    }
}

pub fn text_lt(a: &str, b: &str) -> (r: bool)
    ensures
        r == text_before(a@, b@),
{
    let x = chars_of(a);
    let y = chars_of(b);
    let mut i: usize = 0;
    assert(x@.skip(0) =~= x@);
    assert(y@.skip(0) =~= y@);
    while i < x.len() && i < y.len()
        invariant
            i <= x@.len(),
            i <= y@.len(),
            text_before(x@.skip(i as int), y@.skip(i as int)) == text_before(a@, b@),
        decreases x@.len() - i,
    {
        if x[i] != y[i] {
            return x[i] < y[i];
        }
        assert(x@.skip(i as int).drop_first() =~= x@.skip(i + 1));
        assert(y@.skip(i as int).drop_first() =~= y@.skip(i + 1));
        i = i + 1;
    }
    i < y.len()
}

// ---------------------------------------------------------------------------
// Laws
// ---------------------------------------------------------------------------

/// A number reads back from its decimal digits: they are digits, the first
/// of several is not zero, and what they stand for is the number.
pub proof fn law_decimals_read_back(n: nat)
    ensures
        decimal(n).len() > 0,
        forall|i: int| 0 <= i < decimal(n).len() ==> '0' <= #[trigger] decimal(n)[i] <= '9',
        decimal(n).len() > 1 ==> decimal(n)[0] != '0',
        digits_value(decimal(n)) == n,
    decreases n,
{
    if n < 10 {
        assert(decimal(n).drop_last() =~= Seq::<char>::empty());
        assert(digits_value(Seq::<char>::empty()) == 0);
        assert(digit(n) as int == 0x30 + n);
    } else {
        let front = decimal(n / 10);
        law_decimals_read_back(n / 10);
        assert(decimal(n).drop_last() =~= front);
        assert(digit(n % 10) as int == 0x30 + n % 10);
        assert forall|i: int| 0 <= i < decimal(n).len() implies '0' <= #[trigger] decimal(n)[i]
            <= '9' by {
            if i < front.len() {
                assert(decimal(n)[i] == front[i]);
            }
        }
        assert(decimal(n)[0] == front[0]);
        if front.len() == 1 {
            assert(n / 10 >= 1);
            assert(front[0] != '0') by {
                if n / 10 < 10 {
                    assert(digit(n / 10) as int == 0x30 + n / 10);
                } else {
                    law_decimals_read_back(n / 10 / 10);
                }
            }
        }
    }
}

/// A digit behind others adds its value to ten times theirs.
pub proof fn law_digits_weigh_tenfold(s: Seq<char>, d: char)
    requires
        '0' <= d <= '9',
    ensures
        digits_value(Seq::<char>::empty()) == 0,
        digits_value(s.push(d)) == 10 * digits_value(s) + (d as int - 48),
{
    assert(s.push(d).drop_last() =~= s);
}

/// Numbers of thirty-two bits are read from what writes them, with a plus
/// sign before it or without one; nothing else is read as a number.
pub proof fn law_numbers_are_read_as_written(n: u32, s: Seq<char>)
    ensures
        written_u32(decimal(n as nat)) == Some(n as nat),
        written_u32(seq!['+'] + decimal(n as nat)) == Some(n as nat),
        s.len() == 0 ==> written_u32(s) is None,
        (exists|i: int| 0 < i < s.len() && !('0' <= #[trigger] s[i] <= '9')) ==> written_u32(s) is None,
        written_u32(s) matches Some(v) ==> v <= u32::MAX,
{
    law_decimals_read_back(n as nat);
    let d = decimal(n as nat);
    assert(d[0] != '+');
    assert(unsigned(d) == d);
    assert((seq!['+'] + d).skip(1) =~= d);
    if exists|i: int| 0 < i < s.len() && !('0' <= #[trigger] s[i] <= '9') {
        let i = choose|i: int| 0 < i < s.len() && !('0' <= #[trigger] s[i] <= '9');
        let u = unsigned(s);
        if s[0] == '+' {
            assert(u[i - 1] == s[i]);
            assert(!is_digit(u[i - 1]));
        } else {
            assert(!is_digit(u[i]));
        }
    }
}

/// Joining puts the parts one behind the other in their order, with the
/// separator between each two and nowhere else.
pub proof fn law_joining_separates_the_parts(parts: Seq<Seq<char>>, last: Seq<char>, sep: Seq<char>)
    ensures
        join(Seq::<Seq<char>>::empty(), sep).len() == 0,
        join(seq![last], sep) == last,
        parts.len() > 0 ==> join(parts.push(last), sep) == join(parts, sep) + sep + last,
{
    assert(parts.push(last).drop_last() =~= parts);
}

proof fn lemma_join_front(first: Seq<char>, parts: Seq<Seq<char>>, sep: Seq<char>)
    requires
        parts.len() > 0,
    ensures
        join(seq![first] + parts, sep) == first + sep + join(parts, sep),
    decreases parts.len(),
{
    let all = seq![first] + parts;
    assert(all.drop_last() =~= seq![first] + parts.drop_last());
    assert(all.last() == parts.last());
    if parts.len() == 1 {
        assert(all.drop_last() =~= seq![first]);
        assert(join(seq![first], sep) == first);
        assert(join(all, sep) == join(all.drop_last(), sep) + sep + all.last());
        assert(join(parts, sep) == parts[0]);
    } else {
        lemma_join_front(first, parts.drop_last(), sep);
        assert(join(all, sep) =~= first + sep + join(parts, sep));
    }
}

/// The pieces of a text joined by the separator are the text again, and none
/// of them holds the separator.
pub proof fn law_pieces_join_again(s: Seq<char>, c: char)
    ensures
        split(s, c).len() > 0,
        join(split(s, c), seq![c]) == s,
        forall|i: int| 0 <= i < split(s, c).len() ==> !(#[trigger] split(s, c)[i]).contains(c),
    decreases s.len(),
{
    let n = find_char(s, c) as int;
    lemma_find_char(s, c);
    if n >= s.len() {
        assert(!s.contains(c));
    } else {
        let rest = s.skip(n + 1);
        law_pieces_join_again(rest, c);
        lemma_join_front(s.take(n), split(rest, c), seq![c]);
        assert(s.take(n) + seq![c] + rest =~= s);
        assert(!s.take(n).contains(c)) by {
            if s.take(n).contains(c) {
                let k = s.take(n).index_of(c);
                assert(s.take(n)[k] == c);
                assert(s[k] == c);
            }
        }
        assert forall|i: int| 0 <= i < split(s, c).len() implies !(#[trigger] split(
            s,
            c,
        )[i]).contains(c) by {
            if i > 0 {
                assert(split(s, c)[i] == split(rest, c)[i - 1]);
            }
        }
    }
}

/// The characters that count as white space, by their numbers.
pub proof fn law_white_space_is_what_unicode_says(c: char)
    ensures
        is_white(c) <==> {
            let n = c as u32;
            ||| 9 <= n <= 13
            ||| n == 32
            ||| n == 0x85
            ||| n == 0xa0
            ||| n == 0x1680
            ||| 0x2000 <= n <= 0x200a
            ||| n == 0x2028
            ||| n == 0x2029
            ||| n == 0x202f
            ||| n == 0x205f
            ||| n == 0x3000
        },
{
}

proof fn lemma_trim_lead(lead: Seq<char>, s: Seq<char>)
    requires
        forall|i: int| 0 <= i < lead.len() ==> is_white(#[trigger] lead[i]),
        s.len() > 0 ==> !is_white(s[0]),
    ensures
        trim_start(lead + s) == s,
    decreases lead.len(),
{
    if lead.len() > 0 {
        assert((lead + s)[0] == lead[0]);
        assert(is_white(lead[0]));
        assert((lead + s).drop_first() =~= lead.drop_first() + s);
        assert forall|i: int| 0 <= i < lead.drop_first().len() implies is_white(
            #[trigger] lead.drop_first()[i],
        ) by {
            assert(lead.drop_first()[i] == lead[i + 1]);
        }
        lemma_trim_lead(lead.drop_first(), s);
    } else {
        assert(lead + s =~= s);
    }
}

proof fn lemma_trim_tail(s: Seq<char>, tail: Seq<char>)
    requires
        forall|i: int| 0 <= i < tail.len() ==> is_white(#[trigger] tail[i]),
        s.len() > 0 ==> !is_white(s.last()),
    ensures
        trim_end(s + tail) == s,
    decreases tail.len(),
{
    if tail.len() > 0 {
        assert((s + tail).last() == tail.last());
        assert(is_white(tail[tail.len() - 1]));
        assert((s + tail).drop_last() =~= s + tail.drop_last());
        lemma_trim_tail(s, tail.drop_last());
    } else {
        assert(s + tail =~= s);
    }
}

/// Trimming takes the white space at both ends off and nothing else.
pub proof fn law_trimming_takes_white_space_off(lead: Seq<char>, s: Seq<char>, tail: Seq<char>)
    requires
        forall|i: int| 0 <= i < lead.len() ==> is_white(#[trigger] lead[i]),
        forall|i: int| 0 <= i < tail.len() ==> is_white(#[trigger] tail[i]),
        s.len() > 0,
        !is_white(s[0]),
        !is_white(s.last()),
    ensures
        trim(lead + s + tail) == s,
        trim(lead + tail).len() == 0,
{
    assert(lead + s + tail =~= lead + (s + tail));
    lemma_trim_lead(lead, s + tail);
    lemma_trim_tail(s, tail);
    let white = lead + tail;
    assert(white + Seq::<char>::empty() =~= white);
    assert forall|i: int| 0 <= i < white.len() implies is_white(#[trigger] white[i]) by {
        if i < lead.len() {
            assert(white[i] == lead[i]);
        } else {
            assert(white[i] == tail[i - lead.len()]);
        }
    }
    lemma_trim_lead(white, Seq::<char>::empty());
    assert(trim_end(Seq::<char>::empty()) =~= Seq::<char>::empty());
}

proof fn lemma_word_then_white(w: Seq<char>, rest: Seq<char>)
    requires
        forall|i: int| 0 <= i < w.len() ==> !is_white(#[trigger] w[i]),
        rest.len() > 0 ==> is_white(rest[0]),
    ensures
        word_len(w + rest) == w.len(),
    decreases w.len(),
{
    if w.len() > 0 {
        assert((w + rest)[0] == w[0]);
        assert((w + rest).drop_first() =~= w.drop_first() + rest);
        assert forall|i: int| 0 <= i < w.drop_first().len() implies !is_white(
            #[trigger] w.drop_first()[i],
        ) by {
            assert(w.drop_first()[i] == w[i + 1]);
        }
        lemma_word_then_white(w.drop_first(), rest);
    } else {
        assert(w + rest =~= rest);
    }
}

/// White space parts words: what stands before it and what stands behind it
/// have their words each for themselves. A text without white space is one
/// word, unless it is empty.
pub proof fn law_white_space_parts_words(a: Seq<char>, c: char, b: Seq<char>)
    requires
        is_white(c),
    ensures
        words(a + seq![c] + b) == words(a) + words(b),
    decreases a.len(),
{
    let s = a + seq![c] + b;
    let tail = seq![c] + b;
    assert(s =~= a + tail);
    if a.len() == 0 {
        assert(s.drop_first() =~= b);
        assert(s[0] == c);
        assert(trim_start(s) == trim_start(b));
        assert(words(a) =~= Seq::<Seq<char>>::empty());
        assert(words(s) == words(b));
        assert(words(a) + words(b) =~= words(b));
    } else if is_white(a[0]) {
        let rest = a.drop_first();
        assert(s[0] == a[0]);
        assert(s.drop_first() =~= rest + seq![c] + b);
        assert(trim_start(s) == trim_start(rest + seq![c] + b));
        assert(words(s) == words(rest + seq![c] + b));
        assert(trim_start(a) == trim_start(rest));
        assert(words(a) == words(rest));
        law_white_space_parts_words(rest, c, b);
    } else {
        lemma_word_len(a);
        let n = word_len(a) as int;
        let w = a.take(n);
        let rest = a.skip(n);
        assert(s[0] == a[0]);
        assert(trim_start(s) == s);
        assert(trim_start(a) == a);
        assert(s =~= w + (rest + seq![c] + b));
        assert(w.len() > 0);
        lemma_word_then_white(w, rest + seq![c] + b);
        assert(s.take(n) =~= w);
        assert(s.skip(n) =~= rest + seq![c] + b);
        law_white_space_parts_words(rest, c, b);
        assert(words(s) == seq![w] + words(rest + seq![c] + b));
        assert(words(a) == seq![w] + words(rest));
        assert(words(s) =~= words(a) + words(b));
    }
}

/// A text without white space is one word; an empty one has none.
pub proof fn law_unbroken_text_is_one_word(w: Seq<char>)
    requires
        forall|i: int| 0 <= i < w.len() ==> !is_white(#[trigger] w[i]),
    ensures
        w.len() > 0 ==> words(w) == seq![w],
        w.len() == 0 ==> words(w).len() == 0,
{
    if w.len() > 0 {
        assert(!is_white(w[0]));
        assert(trim_start(w) == w);
        assert(w + Seq::<char>::empty() =~= w);
        lemma_word_then_white(w, Seq::<char>::empty());
        assert(w.take(w.len() as int) =~= w);
        assert(words(w.skip(w.len() as int)) =~= Seq::<Seq<char>>::empty());
        assert(words(w) =~= seq![w]);
    }
}

/// A command line is its first word and, trimmed, what follows the white
/// space behind it.
pub proof fn law_command_lines_part_at_white_space(w: Seq<char>, c: char, rest: Seq<char>)
    requires
        forall|i: int| 0 <= i < w.len() ==> !is_white(#[trigger] w[i]),
        is_white(c),
    ensures
        head_word(w + seq![c] + rest) == w,
        tail_words(w + seq![c] + rest) == trim(rest),
        head_word(w) == w,
        tail_words(w).len() == 0,
{
    let s = w + seq![c] + rest;
    assert(s =~= w + (seq![c] + rest));
    lemma_word_then_white(w, seq![c] + rest);
    assert(s.take(w.len() as int) =~= w);
    assert(s.skip(w.len() as int + 1) =~= rest);
    assert(w + Seq::<char>::empty() =~= w);
    lemma_word_then_white(w, Seq::<char>::empty());
    assert(w.take(w.len() as int) =~= w);
}

/// A line feed ends a line: it and a carriage return before it belong to no
/// line. What follows the last line feed is a line unless it is empty.
pub proof fn law_line_feeds_end_lines(l: Seq<char>, rest: Seq<char>)
    requires
        !l.contains('\n'),
    ensures
        lines(Seq::<char>::empty()).len() == 0,
        l.len() > 0 ==> lines(l) == seq![l],
        lines(l + seq!['\n'] + rest) == seq![
            if l.len() > 0 && l.last() == '\r' {
                l.drop_last()
            } else {
                l
            },
        ] + lines(rest),
{
    let s = l + seq!['\n'] + rest;
    lemma_find_char(l, '\n');
    lemma_find_char(s, '\n');
    let n = find_char(s, '\n') as int;
    assert(s[l.len() as int] == '\n');
    assert(n <= l.len());
    if n < l.len() {
        assert(s[n] == l[n]);
        assert(l.contains(l[n]));
    }
    assert(s.take(n) =~= l);
    assert(s.skip(n + 1) =~= rest);
    if l.len() > 0 {
        if find_char(l, '\n') < l.len() {
            assert(l.contains(l[find_char(l, '\n') as int]));
        }
    }
}

/// The first line of a text is what stands before its first line feed.
pub proof fn law_the_first_line_ends_at_the_first_feed(l: Seq<char>, rest: Seq<char>)
    requires
        !l.contains('\n'),
        l.len() > 0 ==> l.last() != '\r',
    ensures
        first_line(l) == l,
        first_line(l + seq!['\n'] + rest) == l,
{
    law_line_feeds_end_lines(l, rest);
    if l.len() == 0 {
        assert(lines(l).len() == 0);
        assert(first_line(l) =~= l);
    }
}

/// A text is found where it stands, whatever stands around it; and where it
/// is found, it stands.
pub proof fn law_texts_are_found_where_they_stand(a: Seq<char>, x: Seq<char>, b: Seq<char>, s: Seq<char>)
    ensures
        contains(a + x + b, x),
        starts_with(x + b, x),
        contains(s, x) ==> exists|p: Seq<char>, q: Seq<char>| s == #[trigger] (p + x + q),
        starts_with(s, x) ==> s == x + s.skip(x.len() as int),
        starts_with_char(s, '/') <==> s.len() > 0 && s[0] == '/',
{
    assert((a + x + b).subrange(a.len() as int, a.len() as int + x.len()) =~= x);
    assert(occurs_at(a + x + b, x, a.len() as int));
    assert((x + b).subrange(0, x.len() as int) =~= x);
    if contains(s, x) {
        let i = choose|i: int| occurs_at(s, x, i);
        let p = s.take(i);
        let q = s.skip(i + x.len());
        assert(s =~= p + x + q) by {
            assert forall|k: int| i <= k < i + x.len() implies s[k] == x[k - i] by {
                assert(s.subrange(i, i + x.len())[k - i] == s[k]);
            }
        }
    }
    if starts_with(s, x) {
        assert(s =~= x + s.skip(x.len() as int)) by {
            assert forall|k: int| 0 <= k < x.len() implies s[k] == x[k] by {
                assert(s.subrange(0, x.len() as int)[k] == s[k]);
            }
        }
    }
}

/// A text cut to some characters keeps its first ones, that many or all.
pub proof fn law_cut_texts_keep_their_start(s: Seq<char>, n: int)
    requires
        0 <= n,
    ensures
        prefix(s, n).len() == (if s.len() <= n {
            s.len() as int
        } else {
            n
        }),
        forall|i: int| 0 <= i < prefix(s, n).len() ==> #[trigger] prefix(s, n)[i] == s[i],
        shortened(s).len() == (if s.len() == 0 {
            0int
        } else {
            s.len() - 1
        }),
        forall|i: int| 0 <= i < shortened(s).len() ==> #[trigger] shortened(s)[i] == s[i],
{
}

/// Filling up adds blanks on its own side alone, up to the width.
pub proof fn law_filling_up_adds_blanks(s: Seq<char>, width: int)
    ensures
        ({
            let n = s.len() as int;
            let w = if n < width {
                width
            } else {
                n
            };
            &&& pad_right(s, width).len() == w
            &&& pad_left(s, width).len() == w
            &&& forall|i: int| 0 <= i < n ==> #[trigger] pad_right(s, width)[i] == s[i]
            &&& forall|i: int| n <= i < w ==> #[trigger] pad_right(s, width)[i] == ' '
            &&& forall|i: int| 0 <= i < w - n ==> #[trigger] pad_left(s, width)[i] == ' '
            &&& forall|i: int|
                w - n <= i < w ==> #[trigger] pad_left(s, width)[i] == s[i - (w - n)]
        }),
{
}

/// Lower case moves the letters from `A` to `Z` by thirty-two places and
/// leaves all other characters.
pub proof fn law_lower_case_moves_the_capitals(s: Seq<char>, i: int)
    requires
        0 <= i < s.len(),
    ensures
        ascii_lowercase(s).len() == s.len(),
        'A' <= s[i] <= 'Z' ==> ascii_lowercase(s)[i] as int == s[i] as int + 32,
        !('A' <= s[i] <= 'Z') ==> ascii_lowercase(s)[i] == s[i],
{
}

/// Texts are ordered by the first place in which they differ, and a text
/// comes before every longer one that it begins.
pub proof fn law_the_first_difference_decides(
    p: Seq<char>,
    a: char,
    x: Seq<char>,
    b: char,
    y: Seq<char>,
)
    ensures
        text_before(p, p + seq![a] + x),
        a < b ==> text_before(p + seq![a] + x, p + seq![b] + y),
    decreases p.len(),
{
    let l = p + seq![a] + x;
    let r = p + seq![b] + y;
    if p.len() > 0 {
        let q = p.drop_first();
        law_the_first_difference_decides(q, a, x, b, y);
        assert(l.drop_first() =~= q + seq![a] + x);
        assert(r.drop_first() =~= q + seq![b] + y);
        assert(l[0] == p[0]);
        assert(r[0] == p[0]);
    } else {
        assert(l[0] == a);
        assert(r[0] == b);
    }
}

proof fn lemma_stripped_run(n: nat, s: Seq<char>, c: char)
    requires
        s.len() > 0 ==> s[0] != c,
    ensures
        strip_start(Seq::new(n, |i: int| c) + s, c) == s,
    decreases n,
{
    let run = Seq::new(n, |i: int| c);
    if n > 0 {
        let fewer = Seq::new((n - 1) as nat, |i: int| c);
        assert((run + s).drop_first() =~= fewer + s);
        assert((run + s)[0] == c);
        lemma_stripped_run((n - 1) as nat, s, c);
    } else {
        assert(run + s =~= s);
    }
}

proof fn lemma_stripped_end(s: Seq<char>, n: nat, c: char)
    requires
        s.len() > 0 ==> s.last() != c,
    ensures
        strip_end(s + Seq::new(n, |i: int| c), c) == s,
    decreases n,
{
    let run = Seq::new(n, |i: int| c);
    if n > 0 {
        let fewer = Seq::new((n - 1) as nat, |i: int| c);
        assert((s + run).drop_last() =~= s + fewer);
        assert((s + run).last() == c);
        lemma_stripped_end(s, (n - 1) as nat, c);
    } else {
        assert(s + run =~= s);
    }
}

/// Stripping takes a character off both ends, however often it stands
/// there, and nothing else.
pub proof fn law_stripping_takes_the_runs_off(m: nat, s: Seq<char>, n: nat, c: char)
    requires
        s.len() > 0,
        s[0] != c,
        s.last() != c,
    ensures
        strip_both(Seq::new(m, |i: int| c) + s + Seq::new(n, |i: int| c), c) == s,
{
    let lead = Seq::new(m, |i: int| c);
    let tail = Seq::new(n, |i: int| c);
    assert(lead + s + tail =~= lead + (s + tail));
    lemma_stripped_run(m, s + tail, c);
    lemma_stripped_end(s, n, c);
}

} // verus!
