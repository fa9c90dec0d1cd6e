//! Paths as Unix writes them: the directory that a path lies in, and how it
//! lies below another one.

use vstd::prelude::*;

use crate::text::{chars_of, opt_text, same, string_of};

verus! {

// ---------------------------------------------------------------------------
// The directory of a path
// ---------------------------------------------------------------------------

/// Where the path proper starts: behind the root, or behind a leading `.`.
pub open spec fn body_start(p: Seq<char>) -> int {
    if p.len() > 0 && (p[0] == '/' || (p[0] == '.' && (p.len() == 1 || p[1] == '/'))) {
        1
    } else {
        0
    }
}

/// Where the last piece of `p[start..end]` starts, pieces being parted by
/// slashes.
pub open spec fn last_piece(p: Seq<char>, start: int, end: int) -> int
    decreases end,
{
    if end <= start || end <= 0 {
        start
    } else if p[end - 1] == '/' {
        end
    } else {
        last_piece(p, start, end - 1)
    }
}

/// Where the text before a piece ends that starts at `at`.
pub open spec fn before_piece(start: int, at: int) -> int {
    if at > start {
        at - 1
    } else {
        start
    }
}

/// The piece `p[at..end]` names nothing: it is empty or a single dot.
pub open spec fn names_nothing(p: Seq<char>, at: int, end: int) -> bool {
    at == end || (end == at + 1 && p[at] == '.')
}

/// `end` without the pieces before it that name nothing.
pub open spec fn settled(p: Seq<char>, start: int, end: int) -> int
    decreases end,
    via settled_decreases
{
    let at = last_piece(p, start, end);
    if end <= start || start < 0 {
        end
    } else if names_nothing(p, at, end) {
        settled(p, start, before_piece(start, at))
    } else {
        end
    }
}

#[via_fn]
proof fn settled_decreases(p: Seq<char>, start: int, end: int) {
    if 0 <= start < end {
        lemma_last_piece(p, start, end);
    }
}

proof fn lemma_last_piece(p: Seq<char>, start: int, end: int)
    requires
        0 <= start < end,
    ensures
        start <= last_piece(p, start, end) <= end,
    decreases end,
{
    assert(last_piece(p, start, start) == start);
    if p[end - 1] != '/' && end - 1 > start {
        lemma_last_piece(p, start, end - 1);
    }
}

/// The directory that a Unix path lies in: the path without its last name;
/// nothing for the root and for the empty path. Doubled slashes and dots
/// that name nothing count for nothing at the end.
pub open spec fn parent(p: Seq<char>) -> Option<Seq<char>> {
    let start = body_start(p);
    let end = settled(p, start, p.len() as int);
    if end > start {
        Some(p.take(settled(p, start, before_piece(start, last_piece(p, start, end)))))
    } else if p.len() == 0 || p[0] == '/' {
        None
    } else {
        Some(Seq::empty())
    }
}

fn piece_at(cs: &Vec<char>, start: usize, end: usize) -> (at: usize)
    requires
        start < end <= cs@.len(),
    ensures
        at == last_piece(cs@, start as int, end as int),
        start <= at <= end,
{
    let mut e: usize = end;
    while e > start && cs[e - 1] != '/'
        invariant
            start <= e <= end <= cs@.len(),
            start < end,
            last_piece(cs@, start as int, end as int) == last_piece(cs@, start as int, e as int),
        decreases e,
    {
        e = e - 1;
    }
    e
}

fn settle(cs: &Vec<char>, start: usize, end: usize) -> (r: usize)
    requires
        end <= cs@.len(),
    ensures
        r == settled(cs@, start as int, end as int),
        r <= end || r == start,
        start <= end ==> start <= r,
    decreases end,
{
    if end <= start {
        return end;
    }
    let at = piece_at(cs, start, end);
    if at == end || (end == at + 1 && cs[at] == '.') {
        let e: usize = if at > start {
            at - 1
        } else {
            start
        };
        settle(cs, start, e)
    } else {
        end
    }
}

/// The directory that a path lies in.
pub fn parent_of(path: &str) -> (r: Option<String>)
    ensures
        opt_text(r) == parent(path@),
{
    let cs = chars_of(path);
    let start = body_of(&cs);
    let end = settle(&cs, start, cs.len());
    if end > start {
        let at = piece_at(&cs, start, end);
        let e: usize = if at > start {
            at - 1
        } else {
            start
        };
        let cut = settle(&cs, start, e);
        let out = string_of(&cs, 0, cut);
        assert(cs@.subrange(0, cut as int) =~= cs@.take(cut as int));
        Some(out)
    } else if cs.len() == 0 || cs[0] == '/' {
        None
    } else {
        let out = String::new();
        assert(out@ =~= Seq::<char>::empty());
        Some(out)
    }
}

// ---------------------------------------------------------------------------
// Below a directory
// ---------------------------------------------------------------------------

/// Where the piece ends that starts at `at`.
pub open spec fn piece_end(p: Seq<char>, at: int) -> int
    decreases p.len() - at,
{
    if at < 0 || at >= p.len() || p[at] == '/' {
        at
    } else {
        piece_end(p, at + 1)
    }
}

/// Where the piece starts that follows one that ends at `end`.
pub open spec fn past_piece(p: Seq<char>, end: int) -> int {
    if end < p.len() {
        end + 1
    } else {
        end
    }
}

/// The names that a path holds from `at` on, in their order.
pub open spec fn names_from(p: Seq<char>, at: int) -> Seq<Seq<char>>
    decreases p.len() - at,
    via names_from_decreases
{
    let end = piece_end(p, at);
    if at < 0 || at >= p.len() {
        Seq::empty()
    } else if names_nothing(p, at, end) {
        names_from(p, past_piece(p, end))
    } else {
        seq![p.subrange(at, end)] + names_from(p, past_piece(p, end))
    }
}

#[via_fn]
proof fn names_from_decreases(p: Seq<char>, at: int) {
    if 0 <= at < p.len() {
        lemma_piece_end(p, at);
    }
}

proof fn lemma_piece_end(p: Seq<char>, at: int)
    requires
        0 <= at <= p.len(),
    ensures
        at <= piece_end(p, at) <= p.len(),
        at < p.len() ==> at < past_piece(p, piece_end(p, at)) <= p.len(),
    decreases p.len() - at,
{
    if at < p.len() && p[at] != '/' {
        lemma_piece_end(p, at + 1);
    }
}

/// The components of a Unix path: the root or the leading dot that it starts
/// with, where it does, and its names.
pub open spec fn components(p: Seq<char>) -> Seq<Seq<char>> {
    p.take(body_start(p)).map_values(|c: char| seq![c]) + names_from(p, body_start(p))
}

/// Where the names of a path go on behind the next `n` of those from `at` on.
pub open spec fn behind_names(p: Seq<char>, at: int, n: int) -> int
    decreases p.len() - at,
    via behind_names_decreases
{
    let end = piece_end(p, at);
    if at < 0 || at >= p.len() {
        p.len() as int
    } else if names_nothing(p, at, end) {
        behind_names(p, past_piece(p, end), n)
    } else if n <= 0 {
        at
    } else {
        behind_names(p, past_piece(p, end), n - 1)
    }
}

#[via_fn]
proof fn behind_names_decreases(p: Seq<char>, at: int, n: int) {
    if 0 <= at < p.len() {
        lemma_piece_end(p, at);
    }
}

/// Where the rest of a path starts behind its first `n` components.
pub open spec fn rest_start(p: Seq<char>, n: int) -> int {
    if n <= 0 {
        0
    } else {
        behind_names(p, body_start(p), n - body_start(p))
    }
}

/// What is left of a path behind its first `n` components, without what
/// names nothing at its end.
pub open spec fn rest_of(p: Seq<char>, n: int) -> Seq<char> {
    let from = rest_start(p, n);
    let body = if n <= 0 {
        body_start(p)
    } else {
        from
    };
    p.subrange(from, settled(p, body, p.len() as int))
}

/// A directory as it lies below another one: nothing where its components do
/// not begin with those of the other one.
pub open spec fn below(home: Seq<char>, dir: Seq<char>) -> Option<Seq<char>> {
    if components(home).is_prefix_of(components(dir)) {
        Some(rest_of(dir, components(home).len() as int))
    } else {
        None
    }
}

fn end_of_piece(cs: &Vec<char>, at: usize) -> (end: usize)
    requires
        at <= cs@.len(),
    ensures
        end == piece_end(cs@, at as int),
        at <= end <= cs@.len(),
{
    let mut e: usize = at;
    while e < cs.len() && cs[e] != '/'
        invariant
            at <= e <= cs@.len(),
            piece_end(cs@, at as int) == piece_end(cs@, e as int),
        decreases cs@.len() - e,
    {
        e = e + 1;
    }
    e
}

fn skip_nothing(cs: &Vec<char>, at: usize) -> (i: usize)
    requires
        at <= cs@.len(),
    ensures
        at <= i <= cs@.len(),
        names_from(cs@, i as int) == names_from(cs@, at as int),
        forall|n: int|
            #[trigger] behind_names(cs@, i as int, n) == behind_names(cs@, at as int, n),
        i < cs@.len() ==> !names_nothing(cs@, i as int, piece_end(cs@, i as int)),
{
    let mut i: usize = at;
    while i < cs.len()
        invariant
            at <= i <= cs@.len(),
            names_from(cs@, i as int) == names_from(cs@, at as int),
            forall|n: int|
                #[trigger] behind_names(cs@, i as int, n) == behind_names(cs@, at as int, n),
        decreases cs@.len() - i,
    {
        let e = end_of_piece(cs, i);
        proof {
            lemma_piece_end(cs@, i as int);
        }
        if !(e == i || (e == i + 1 && cs[i] == '.')) {
            return i;
        }
        let ghost before = i as int;
        i = if e < cs.len() {
            e + 1
        } else {
            e
        };
        assert forall|n: int|
            #[trigger] behind_names(cs@, i as int, n) == behind_names(cs@, at as int, n) by {
            assert(behind_names(cs@, before, n) == behind_names(cs@, i as int, n));
        }
    }
    i
}

proof fn lemma_prefix_step(a: Seq<char>, x: Seq<Seq<char>>, b: Seq<char>, y: Seq<Seq<char>>)
    ensures
        (seq![a] + x).is_prefix_of(seq![b] + y) == (a == b && x.is_prefix_of(y)),
{
    let s = seq![a] + x;
    let t = seq![b] + y;
    if s.is_prefix_of(t) {
        assert(s[0] == t.subrange(0, s.len() as int)[0]);
        assert forall|k: int| 0 <= k < x.len() implies x[k] == y.subrange(0, x.len() as int)[k] by {
            assert(s[k + 1] == t.subrange(0, s.len() as int)[k + 1]);
        }
        assert(x =~= y.subrange(0, x.len() as int));
    }
    if a == b && x.is_prefix_of(y) {
        assert forall|k: int| 0 <= k < s.len() implies s[k] == t.subrange(0, s.len() as int)[k] by {
            if k > 0 {
                assert(x[k - 1] == y.subrange(0, x.len() as int)[k - 1]);
            }
        }
        assert(s =~= t.subrange(0, s.len() as int));
    }
}

/// Where the rest of `cs` starts, from `i` on, behind the names of `h` from
/// `j` on, where it begins with them.
fn strip_names(h: &Vec<char>, j: usize, cs: &Vec<char>, i: usize) -> (r: Option<usize>)
    requires
        j <= h@.len(),
        i <= cs@.len(),
    ensures
        r is Some == names_from(h@, j as int).is_prefix_of(names_from(cs@, i as int)),
        r matches Some(at) ==> at <= cs@.len() && at == behind_names(
            cs@,
            i as int,
            names_from(h@, j as int).len() as int,
        ),
    decreases h@.len() - j,
{
    let b = skip_nothing(h, j);
    let a = skip_nothing(cs, i);
    if b == h.len() {
        assert(names_from(h@, j as int) =~= Seq::<Seq<char>>::empty());
        assert(behind_names(cs@, a as int, 0) == a);
        return Some(a);
    }
    let eb = end_of_piece(h, b);
    let ea = end_of_piece(cs, a);
    proof {
        lemma_piece_end(h@, b as int);
        lemma_piece_end(cs@, a as int);
    }
    if a == cs.len() {
        assert(names_from(cs@, a as int).len() == 0);
        assert(names_from(h@, b as int).len() > 0);
        return None;
    }
    let nb: usize = if eb < h.len() {
        eb + 1
    } else {
        eb
    };
    let na: usize = if ea < cs.len() {
        ea + 1
    } else {
        ea
    };
    proof {
        lemma_prefix_step(
            h@.subrange(b as int, eb as int),
            names_from(h@, nb as int),
            cs@.subrange(a as int, ea as int),
            names_from(cs@, na as int),
        );
    }
    let wanted = string_of(h, b, eb);
    let found = string_of(cs, a, ea);
    if !same(wanted.as_str(), found.as_str()) {
        return None;
    }
    assert(behind_names(cs@, a as int, names_from(h@, b as int).len() as int) == behind_names(
        cs@,
        na as int,
        names_from(h@, nb as int).len() as int,
    ));
    strip_names(h, nb, cs, na)
}

fn body_of(cs: &Vec<char>) -> (start: usize)
    ensures
        start == body_start(cs@),
        start <= 1,
        start <= cs@.len(),
{
    if cs.len() > 0 && (cs[0] == '/' || (cs[0] == '.' && (cs.len() == 1 || cs[1] == '/'))) {
        1
    } else {
        0
    }
}

proof fn lemma_components(p: Seq<char>)
    ensures
        body_start(p) == 1 ==> components(p) == seq![seq![p[0]]] + names_from(p, 1),
        body_start(p) == 0 ==> components(p) == names_from(p, 0),
{
    if body_start(p) == 1 {
        assert(components(p) =~= seq![seq![p[0]]] + names_from(p, 1));
    } else {
        assert(components(p) =~= names_from(p, 0));
    }
}

/// A root or a leading dot.
spec fn is_lead(c: Seq<char>) -> bool {
    c == seq!['/'] || c == seq!['.']
}

proof fn lemma_names(p: Seq<char>, at: int)
    ensures
        forall|k: int|
            0 <= k < names_from(p, at).len() ==> !is_lead(#[trigger] names_from(p, at)[k]),
    decreases p.len() - at,
{
    if 0 <= at < p.len() {
        lemma_piece_end(p, at);
        let end = piece_end(p, at);
        lemma_names(p, past_piece(p, end));
        if !names_nothing(p, at, end) {
            let name = p.subrange(at, end);
            assert(name[0] == p[at]);
            assert(p[at] != '/');
            assert(!is_lead(name)) by {
                assert(seq!['/'][0] == '/');
                assert(seq!['.'].len() == 1 && seq!['.'][0] == '.');
            }
            let rest = names_from(p, past_piece(p, end));
            assert forall|k: int| 0 <= k < names_from(p, at).len() implies !is_lead(
                #[trigger] names_from(p, at)[k],
            ) by {
                if k > 0 {
                    assert(names_from(p, at)[k] == rest[k - 1]);
                }
            }
        } else {
            assert(names_from(p, at) == names_from(p, past_piece(p, end)));
        }
    } else {
        assert(names_from(p, at).len() == 0);
    }
}

proof fn lemma_some_component(p: Seq<char>)
    requires
        p.len() > 0,
    ensures
        components(p).len() > 0,
        body_start(p) == 0 ==> names_from(p, 0).len() > 0,
{
    lemma_components(p);
    lemma_piece_end(p, 0);
    if body_start(p) == 0 {
        lemma_piece_end(p, 1);
        assert(piece_end(p, 0) == piece_end(p, 1));
        if p.len() > 1 && p[1] != '/' {
            lemma_piece_end(p, 2);
        }
        assert(!names_nothing(p, 0, piece_end(p, 0)));
    }
}

proof fn lemma_other_lead(h: Seq<char>, p: Seq<char>)
    requires
        h.len() > 0,
        body_start(h) != body_start(p) || (body_start(h) == 1 && h[0] != p[0]),
    ensures
        !components(h).is_prefix_of(components(p)),
{
    lemma_components(h);
    lemma_components(p);
    lemma_some_component(h);
    lemma_names(h, body_start(h));
    lemma_names(p, body_start(p));
    let a = components(h);
    let b = components(p);
    if a.is_prefix_of(b) {
        assert(a[0] == b.subrange(0, a.len() as int)[0]);
        assert(a[0] == b[0]);
        if body_start(h) == 1 {
            assert(a[0] =~= seq![h[0]]);
            assert(is_lead(a[0]));
        }
        if body_start(p) == 1 {
            assert(b[0] =~= seq![p[0]]);
            assert(is_lead(b[0]));
        }
        if body_start(h) == 1 && body_start(p) == 1 {
            assert(a[0][0] == b[0][0]);
        }
    }
}

/// A directory as it lies below another one, such as the home directory;
/// nothing where it does not lie there. It is below itself as the empty path.
pub fn below_home(home: &str, dir: &str) -> (r: Option<String>)
    ensures
        opt_text(r) == below(home@, dir@),
{
    let h = chars_of(home);
    let cs = chars_of(dir);
    let hs = body_of(&h);
    let start = body_of(&cs);
    proof {
        lemma_components(h@);
        lemma_components(cs@);
        lemma_names(h@, hs as int);
        lemma_names(cs@, start as int);
    }
    if h.len() == 0 {
        assert(components(h@) =~= Seq::<Seq<char>>::empty());
        assert(components(h@).is_prefix_of(components(cs@)));
        let end = settle(&cs, start, cs.len());
        return Some(string_of(&cs, 0, end));
    }
    if hs != start || (hs == 1 && h[0] != cs[0]) {
        proof {
            lemma_other_lead(h@, cs@);
        }
        return None;
    }
    proof {
        if hs == 1 {
            lemma_prefix_step(
                seq![h@[0]],
                names_from(h@, 1),
                seq![cs@[0]],
                names_from(cs@, 1),
            );
        }
        lemma_some_component(h@);
    }
    match strip_names(&h, hs, &cs, start) {
        None => None,
        Some(at) => {
            let end = settle(&cs, at, cs.len());
            Some(string_of(&cs, at, end))
        },
    }
}

// ---------------------------------------------------------------------------
// Laws
// ---------------------------------------------------------------------------

proof fn lemma_behind_all(p: Seq<char>, at: int)
    requires
        0 <= at <= p.len(),
    ensures
        behind_names(p, at, names_from(p, at).len() as int) == p.len(),
    decreases p.len() - at,
{
    if at < p.len() {
        lemma_piece_end(p, at);
        lemma_behind_all(p, past_piece(p, piece_end(p, at)));
    }
}

/// A directory lies below itself as the empty path.
pub proof fn law_a_directory_is_below_itself(dir: Seq<char>)
    ensures
        below(dir, dir) == Some(Seq::<char>::empty()),
{
    let n = components(dir).len() as int;
    assert(components(dir) =~= components(dir).subrange(0, n));
    lemma_components(dir);
    if dir.len() > 0 {
        lemma_some_component(dir);
        lemma_behind_all(dir, body_start(dir));
    }
    assert(rest_of(dir, n) =~= Seq::<char>::empty());
}

proof fn lemma_piece_end_cut(p: Seq<char>, k: int, e: int, at: int)
    requires
        0 <= k <= e <= p.len(),
        0 <= at <= e - k,
    ensures
        ({
            let end = piece_end(p, at + k);
            piece_end(p.subrange(k, e), at) + k == (if end <= e {
                end
            } else {
                e
            })
        }),
    decreases e - k - at,
{
    let q = p.subrange(k, e);
    lemma_piece_end(p, at + k);
    if at < q.len() {
        assert(q[at] == p[at + k]);
        if q[at] != '/' {
            lemma_piece_end(p, at + k + 1);
            lemma_piece_end_cut(p, k, e, at + 1);
        }
    }
}

proof fn lemma_names_moved(p: Seq<char>, k: int, at: int)
    requires
        0 <= k <= p.len(),
        0 <= at <= p.len() - k,
    ensures
        names_from(p.subrange(k, p.len() as int), at) == names_from(p, at + k),
    decreases p.len() - k - at,
{
    let n = p.len() as int;
    let q = p.subrange(k, n);
    if at < q.len() {
        lemma_piece_end_cut(p, k, n, at);
        lemma_piece_end(p, at + k);
        lemma_piece_end(q, at);
        let end = piece_end(q, at);
        lemma_names_moved(p, k, past_piece(q, end));
        assert(q[at] == p[at + k]);
        assert(q.subrange(at, end) =~= p.subrange(at + k, end + k));
    }
}

proof fn lemma_names_cut(p: Seq<char>, start: int, at: int)
    requires
        0 <= start <= at,
        start < p.len(),
        names_nothing(p, last_piece(p, start, p.len() as int), p.len() as int),
    ensures
        ({
            let e = before_piece(start, last_piece(p, start, p.len() as int));
            names_from(p.take(e), at) == names_from(p, at)
        }),
    decreases p.len() - at,
{
    let n = p.len() as int;
    let last = last_piece(p, start, n);
    let e = before_piece(start, last);
    let q = p.take(e);
    lemma_last_piece(p, start, n);
    lemma_last_start(p, start, n);
    if at < last {
        assert(last > start && p[e] == '/');
        lemma_piece_within(p, at, e);
        lemma_piece_end_cut(p, 0, e, at);
        assert(q =~= p.subrange(0, e));
        let end = piece_end(p, at);
        lemma_piece_end(p, at);
        lemma_names_cut(p, start, past_piece(p, end));
        if at < e {
            lemma_piece_end(q, at);
            assert(q[at] == p[at]);
            assert(q.subrange(at, end) =~= p.subrange(at, end));
            if end == e {
                assert(names_from(q, e) =~= Seq::<Seq<char>>::empty());
                assert(names_from(q, e + 1) =~= Seq::<Seq<char>>::empty());
            }
        } else {
            assert(end == at);
        }
    } else {
        assert(names_from(q, at) =~= Seq::<Seq<char>>::empty());
        if at < n {
            assert(at == last);
            lemma_piece_whole(p, at, n);
            assert(names_from(p, n) =~= Seq::<Seq<char>>::empty());
        }
        assert(names_from(p, at) =~= Seq::<Seq<char>>::empty());
    }
}

proof fn lemma_last_start(p: Seq<char>, start: int, end: int)
    requires
        0 <= start <= end <= p.len(),
    ensures
        ({
            let last = last_piece(p, start, end);
            &&& last > start ==> p[last - 1] == '/'
            &&& forall|k: int| last <= k < end ==> #[trigger] p[k] != '/'
        }),
    decreases end,
{
    if end > start && p[end - 1] != '/' {
        lemma_last_start(p, start, end - 1);
    }
}

proof fn lemma_piece_within(p: Seq<char>, at: int, e: int)
    requires
        0 <= at <= e < p.len(),
        p[e] == '/',
    ensures
        at <= piece_end(p, at) <= e,
    decreases e - at,
{
    if at < e && p[at] != '/' {
        lemma_piece_within(p, at + 1, e);
    }
}

proof fn lemma_piece_whole(p: Seq<char>, at: int, end: int)
    requires
        0 <= at <= end == p.len(),
        forall|k: int| at <= k < end ==> #[trigger] p[k] != '/',
    ensures
        piece_end(p, at) == end,
    decreases end - at,
{
    if at < end {
        lemma_piece_whole(p, at + 1, end);
    }
}

proof fn lemma_names_settled(p: Seq<char>, start: int, end: int, at: int)
    requires
        0 <= start <= end <= p.len(),
        start <= at,
    ensures
        start <= settled(p, start, end) <= end,
        names_from(p.take(settled(p, start, end)), at) == names_from(p.take(end), at),
    decreases end,
{
    let last = last_piece(p, start, end);
    if start < end {
        lemma_last_piece(p, start, end);
        if names_nothing(p, last, end) {
            let q = p.take(end);
            let e = before_piece(start, last);
            lemma_last_cut(p, start, end, end);
            lemma_names_cut(q, start, at);
            assert(q.take(e) =~= p.take(e));
            lemma_names_settled(p, start, e, at);
        }
    }
}

proof fn lemma_last_cut(p: Seq<char>, start: int, end: int, cut: int)
    requires
        0 <= start <= end <= cut <= p.len(),
    ensures
        last_piece(p.take(cut), start, end) == last_piece(p, start, end),
    decreases end,
{
    if end > start && p[end - 1] != '/' {
        lemma_last_cut(p, start, end - 1, cut);
    }
}

proof fn lemma_names_behind(p: Seq<char>, at: int, n: int)
    requires
        0 <= at <= p.len(),
        0 <= n <= names_from(p, at).len(),
    ensures
        ({
            let from = behind_names(p, at, n);
            &&& at <= from <= p.len()
            &&& names_from(p, from) == names_from(p, at).skip(n)
            &&& from < p.len() ==> !names_nothing(p, from, piece_end(p, from))
        }),
    decreases p.len() - at,
{
    if at < p.len() {
        lemma_piece_end(p, at);
        let end = piece_end(p, at);
        let next = past_piece(p, end);
        if names_nothing(p, at, end) {
            lemma_names_behind(p, next, n);
        } else if n > 0 {
            lemma_names_behind(p, next, n - 1);
            assert(names_from(p, at).skip(n) =~= names_from(p, next).skip(n - 1));
        } else {
            assert(names_from(p, at).skip(0) =~= names_from(p, at));
        }
    } else {
        assert(names_from(p, at).skip(n) =~= names_from(p, at));
    }
}

proof fn lemma_nothing_named(p: Seq<char>)
    requires
        p.len() == 1,
    ensures
        p[0] == '.' || p[0] == '/' ==> names_from(p, 0).len() == 0,
{
    lemma_piece_end(p, 0);
    lemma_piece_end(p, 1);
    assert(names_from(p, 1).len() == 0);
}

/// What is left of a path behind some of its components has just the
/// components that are left.
pub proof fn law_the_rest_has_what_is_left(p: Seq<char>, n: int)
    requires
        0 <= n <= components(p).len(),
    ensures
        components(rest_of(p, n)) == components(p).skip(n),
{
    let body = body_start(p);
    let len = p.len() as int;
    lemma_components(p);
    lemma_components(rest_of(p, n));
    assert(p.take(len) =~= p);
    if n == 0 {
        let e = settled(p, body, len);
        lemma_names_settled(p, body, len, body);
        let rest = rest_of(p, 0);
        assert(rest =~= p.take(e));
        if body == 0 && p.len() > 0 {
            lemma_some_component(p);
            assert(rest.len() > 0);
            if rest.len() == 1 {
                lemma_nothing_named(rest);
            }
        }
        assert(components(p).skip(0) =~= components(p));
    } else {
        let from = behind_names(p, body, n - body);
        let e = settled(p, from, len);
        lemma_names_behind(p, body, n - body);
        lemma_names_settled(p, from, len, from);
        let cut = p.take(e);
        let rest = rest_of(p, n);
        assert(rest =~= cut.subrange(from, e));
        lemma_names_moved(cut, from, 0);
        if from < len {
            lemma_piece_end(p, from);
            lemma_piece_end(p, from + 1);
            if rest.len() == 1 {
                lemma_nothing_named(rest);
            }
            assert(names_from(p, from).len() > 0);
        }
        assert(components(p).skip(n) =~= names_from(p, body).skip(n - body));
    }
}

/// A directory that lies below another one has the components of the other
/// one, and then those of the path by which it lies there.
pub proof fn law_below_parts_the_components(home: Seq<char>, dir: Seq<char>)
    requires
        below(home, dir) is Some,
    ensures
        components(dir) == components(home) + components(below(home, dir)->0),
{
    let n = components(home).len() as int;
    law_the_rest_has_what_is_left(dir, n);
    assert(components(home) =~= components(dir).subrange(0, n));
    assert(components(dir) =~= components(home) + components(dir).skip(n));
}

/// A name with a slash behind it is the first of the names of a path; a slash
/// or a dot alone names nothing.
pub proof fn law_slashes_part_the_names(name: Seq<char>, rest: Seq<char>)
    requires
        !name.contains('/'),
        name.len() > 0,
        name != seq!['.'],
    ensures
        names_from(name, 0) == seq![name],
        names_from(name + seq!['/'] + rest, 0) == seq![name] + names_from(rest, 0),
        names_from(seq!['/'] + rest, 0) == names_from(rest, 0),
        names_from(seq!['.', '/'] + rest, 0) == names_from(rest, 0),
{
    let p = name + seq!['/'] + rest;
    let n = name.len() as int;
    assert forall|k: int| 0 <= k < n implies #[trigger] name[k] != '/' by {
        assert(name.contains(name[k]));
    }
    lemma_piece_whole(name, 0, n);
    assert(name.subrange(0, n) =~= name);
    assert(names_from(name, n) == Seq::<Seq<char>>::empty());
    if n == 1 {
        assert(name[0] != '.') by {
            if name[0] == '.' {
                assert(name =~= seq!['.']);
            }
        }
    }
    assert(seq![name] + Seq::<Seq<char>>::empty() =~= seq![name]);
    lemma_piece_stops(p, 0, n);
    assert(p.subrange(0, n) =~= name);
    assert(p[0] == name[0]);
    lemma_names_moved(p, n + 1, 0);
    assert(p.subrange(n + 1, p.len() as int) =~= rest);
    let q = seq!['/'] + rest;
    lemma_names_moved(q, 1, 0);
    assert(q.subrange(1, q.len() as int) =~= rest);
    assert(piece_end(q, 0) == 0);
    let d = seq!['.', '/'] + rest;
    lemma_piece_stops(d, 0, 1);
    lemma_names_moved(d, 2, 0);
    assert(d.subrange(2, d.len() as int) =~= rest);
}

proof fn lemma_piece_stops(p: Seq<char>, at: int, end: int)
    requires
        0 <= at <= end < p.len(),
        p[end] == '/',
        forall|k: int| at <= k < end ==> #[trigger] p[k] != '/',
    ensures
        piece_end(p, at) == end,
    decreases end - at,
{
    if at < end {
        lemma_piece_stops(p, at + 1, end);
    }
}

/// A path with a root or a leading dot has that as its first component, and
/// its names behind it; any other has its names alone.
pub proof fn law_paths_start_at_the_root_or_a_name(rest: Seq<char>, p: Seq<char>)
    ensures
        components(seq!['/'] + rest) == seq![seq!['/']] + names_from(rest, 0),
        components(seq!['.', '/'] + rest) == seq![seq!['.']] + names_from(rest, 0),
        p.len() > 0 && p[0] != '/' && p[0] != '.' ==> components(p) == names_from(p, 0),
        components(Seq::empty()).len() == 0,
{
    let a = seq!['/'] + rest;
    lemma_components(a);
    lemma_names_moved(a, 1, 0);
    assert(a.subrange(1, a.len() as int) =~= rest);
    let b = seq!['.', '/'] + rest;
    lemma_components(b);
    lemma_names_moved(b, 2, 0);
    assert(b.subrange(2, b.len() as int) =~= rest);
    assert(b[1] == '/');
    assert(piece_end(b, 1) == 1);
    assert(names_from(b, 1) == names_from(b, 2));
    lemma_components(p);
    lemma_components(Seq::empty());
}

proof fn lemma_last_piece_found(p: Seq<char>, start: int, at: int, end: int)
    requires
        0 <= start <= at <= end <= p.len(),
        at > start ==> p[at - 1] == '/',
        forall|k: int| at <= k < end ==> #[trigger] p[k] != '/',
    ensures
        last_piece(p, start, end) == at,
    decreases end - at,
{
    if end > at {
        lemma_last_piece_found(p, start, at, end - 1);
    }
}

/// The directory of a name in a directory is that directory; a name below
/// the root lies in the root, and a bare name in the empty path. Neither the
/// root nor the empty path lies anywhere.
pub proof fn law_a_name_lies_in_its_directory(dir: Seq<char>, name: Seq<char>)
    requires
        !name.contains('/'),
        name.len() > 0,
        name != seq!['.'],
        dir.len() > 0,
        dir.last() != '/',
        dir.last() != '.',
    ensures
        parent(dir + seq!['/'] + name) == Some(dir),
        parent(seq!['/'] + name) == Some(seq!['/']),
        parent(name) == Some(Seq::<char>::empty()),
        parent(seq!['/']) is None,
        parent(Seq::empty()) is None,
{
    assert forall|k: int| 0 <= k < name.len() implies #[trigger] name[k] != '/' by {
        assert(name.contains(name[k]));
    }
    if name.len() == 1 && name[0] == '.' {
        assert(name =~= seq!['.']);
    }
    let p = dir + seq!['/'] + name;
    let d = dir.len() as int;
    let start = body_start(p);
    assert(p[0] == dir[0]);
    if d == 1 {
        assert(dir[0] == dir.last());
    }
    assert(start <= d);
    let end = p.len() as int;
    assert forall|k: int| d + 1 <= k < end implies #[trigger] p[k] != '/' by {
        assert(p[k] == name[k - d - 1]);
    }
    lemma_last_piece_found(p, start, d + 1, end);
    assert(p[d + 1] == name[0]);
    assert(!names_nothing(p, d + 1, end));
    assert(settled(p, start, end) == end);
    assert(before_piece(start, d + 1) == d);
    assert(p[d - 1] == dir.last());
    if d > start {
        lemma_last_piece(p, start, d);
        lemma_last_start(p, start, d);
        let at = last_piece(p, start, d);
        if at == d {
            assert(p[at - 1] == '/');
        }
        assert(!names_nothing(p, at, d));
    }
    assert(settled(p, start, d) == d);
    assert(p.take(d) =~= dir);
    let r = seq!['/'] + name;
    assert forall|k: int| 1 <= k < r.len() implies #[trigger] r[k] != '/' by {
        assert(r[k] == name[k - 1]);
    }
    lemma_last_piece_found(r, 1, 1, r.len() as int);
    assert(r[1] == name[0]);
    assert(!names_nothing(r, 1, r.len() as int));
    assert(settled(r, 1, r.len() as int) == r.len());
    assert(settled(r, 1, 1) == 1);
    assert(r.take(1) =~= seq!['/']);
    assert(body_start(name) == 0);
    lemma_last_piece_found(name, 0, 0, name.len() as int);
    assert(!names_nothing(name, 0, name.len() as int));
    assert(settled(name, 0, name.len() as int) == name.len());
    assert(settled(name, 0, 0) == 0);
    assert(name.take(0) =~= Seq::<char>::empty());
    assert(settled(seq!['/'], 1, 1) == 1);
    assert(settled(Seq::<char>::empty(), 0, 0) == 0);
}

} // verus!
