//! Ranking completion candidates against what was typed.

use vstd::prelude::*;

use crate::text::{lemma_text_before_transitive, lemma_text_order, text_before, text_lt};

verus! {

/// Longest candidate whose score fits sixteen bits whatever it is matched
/// with: at most 36 for its first character, and 26 for each further one.
pub const MAX_SCORED_CHARS: usize = 2520;

/// Longest query whose score fits sixteen bits whatever it is matched with.
/// Reading a query can double the backslashes in it.
pub const MAX_QUERY_CHARS: usize = 1260;

/// Longest query of several words whose summed scores fit thirty-two bits.
pub const MAX_WORDS_CHARS: usize = 67_108_864;

/// One entry of a completion menu.
#[derive(Debug)]
pub struct Candidate<S = String> {
    /// What the menu shows.
    pub display: S,
    /// What replaces the typed token, its trigger character included.
    pub insert: S,
    /// How well it matches; zero where nothing was typed.
    pub score: u32,
}

impl View for Candidate<String> {
    type V = Candidate<Seq<char>>;

    open spec fn view(&self) -> Candidate<Seq<char>> {
        Candidate { display: self.display@, insert: self.insert@, score: self.score }
    }
}

pub open spec fn candidates_view(v: Seq<Candidate<String>>) -> Seq<Candidate<Seq<char>>> {
    Seq::new(v.len(), |i: int| v[i]@)
}

/// The score that the nucleo matcher gives a candidate for a query, with its
/// default configuration and with letter case and accents matched smartly;
/// none where it does not match.
pub uninterp spec fn nucleo_score(query: Seq<char>, candidate: Seq<char>) -> Option<u32>;

/// Whether the scores of the words of a query fit sixteen bits on a
/// candidate. A word that is longer than the candidate does not match and has
/// no score, so one of the two being short is enough.
pub open spec fn scorable(query: Seq<char>, candidate: Seq<char>) -> bool {
    &&& candidate.len() <= u32::MAX
    &&& query.len() <= MAX_QUERY_CHARS || candidate.len() <= MAX_SCORED_CHARS
}

/// Whether the scores of the words of a query can be summed: there is one
/// word, or there are not too many.
pub open spec fn summable(query: Seq<char>) -> bool {
    query.len() <= MAX_WORDS_CHARS || !query.contains(' ')
}

/// `Pattern::score` of the nucleo-matcher crate, named, on a pattern parsed
/// from the query and a matcher of the default configuration. The matcher
/// panics on a candidate of more than 2^32-1 characters, and its scores
/// overflow where a query and a candidate that match are both too long.
#[verifier::external_body]
fn match_score(query: &str, candidate: &str) -> (r: Option<u32>)
    requires
        scorable(query@, candidate@),
        summable(query@),
    ensures
        r == nucleo_score(query@, candidate@),
{
    let mut matcher = nucleo_matcher::Matcher::new(nucleo_matcher::Config::DEFAULT);
    let pattern = nucleo_matcher::pattern::Pattern::parse(
        query,
        nucleo_matcher::pattern::CaseMatching::Smart,
        nucleo_matcher::pattern::Normalization::Smart,
    );
    let haystack = nucleo_matcher::Utf32String::from(candidate);
    pattern.score(haystack.slice(..), &mut matcher)
}

/// Whether `a` has to stand before `b`: by the higher score, and by what is
/// shown where the scores are equal.
pub open spec fn outranks(a: Candidate<Seq<char>>, b: Candidate<Seq<char>>) -> bool {
    a.score > b.score || (a.score == b.score && text_before(a.display, b.display))
}

/// `c` put into a ranked list, behind everything that it does not outrank.
pub open spec fn placed(list: Seq<Candidate<Seq<char>>>, c: Candidate<Seq<char>>) -> Seq<
    Candidate<Seq<char>>,
>
    decreases list.len(),
{
    if list.len() > 0 && outranks(c, list.last()) {
        placed(list.drop_last(), c).push(list.last())
    } else {
        list.push(c)
    }
}

/// What an item becomes for a query, with the score that the matcher gave.
pub open spec fn scored(item: (Seq<char>, Seq<char>), score: u32) -> Candidate<Seq<char>> {
    Candidate { display: item.0, insert: item.1, score }
}

/// The items with a score, ranked; items that rank alike keep their order.
pub open spec fn ranked(items: Seq<(Seq<char>, Seq<char>)>, scores: Seq<Option<u32>>) -> Seq<
    Candidate<Seq<char>>,
>
    decreases items.len(),
{
    if items.len() == 0 {
        Seq::empty()
    } else {
        let rest = ranked(items.drop_last(), scores.drop_last());
        match scores.last() {
            Some(s) => placed(rest, scored(items.last(), s)),
            None => rest,
        }
    }
}

/// The scores of some items for a query.
pub open spec fn scores_for(items: Seq<(Seq<char>, Seq<char>)>, query: Seq<char>) -> Seq<
    Option<u32>,
> {
    Seq::new(items.len(), |i: int| nucleo_score(query, items[i].0))
}

/// At most `limit` of a list, from its start.
pub open spec fn limited(list: Seq<Candidate<Seq<char>>>, limit: int) -> Seq<Candidate<Seq<char>>> {
    if list.len() <= limit {
        list
    } else {
        list.take(limit)
    }
}

pub open spec fn items_view(items: Seq<(&str, &str)>) -> Seq<(Seq<char>, Seq<char>)> {
    Seq::new(items.len(), |i: int| (items[i].0@, items[i].1@))
}

fn copy_candidate(display: &str, insert: &str, score: u32) -> (c: Candidate)
    ensures
        c@ == scored((display@, insert@), score),
{
    Candidate { display: String::from_str(display), insert: String::from_str(insert), score }
}

fn place(list: &mut Vec<Candidate>, c: Candidate)
    ensures
        candidates_view(final(list)@) == placed(candidates_view(old(list)@), c@),
{
    let ghost start = candidates_view(list@);
    let ghost exec_start = list@;
    let mut at: usize = list.len();
    assert(start.take(at as int) =~= start);
    assert(start.skip(at as int) =~= Seq::<Candidate<Seq<char>>>::empty());
    assert(placed(start, c@) + start.skip(at as int) =~= placed(start, c@));
    while at > 0 && (c.score > list[at - 1].score || (c.score == list[at - 1].score && text_lt(
        c.display.as_str(),
        list[at - 1].display.as_str(),
    )))
        invariant
            at <= list@.len(),
            list@ == exec_start,
            start == candidates_view(list@),
            placed(start, c@) == placed(start.take(at as int), c@) + start.skip(at as int),
        decreases at,
    {
        let ghost t = start.take(at as int);
        assert(t.drop_last() =~= start.take(at - 1));
        assert(t.last() == list@[at - 1]@);
        assert(placed(t.drop_last(), c@).push(t.last()) + start.skip(at as int) =~= placed(
            t.drop_last(),
            c@,
        ) + start.skip(at - 1));
        at = at - 1;
    }
    proof {
        if at > 0 {
            assert(start.take(at as int).last() == list@[at - 1]@);
        }
        assert(placed(start, c@) == start.take(at as int).push(c@) + start.skip(at as int));
    }
    list.insert(at, c);
    assert(candidates_view(list@) =~= start.take(at as int).push(c@) + start.skip(at as int));
}

/// Ranks items that the matcher has scored. An item without a score is left
/// out; at most `limit` candidates stay.
pub fn rank_scored(items: &[(&str, &str)], scores: &Vec<Option<u32>>, limit: usize) -> (out: Vec<
    Candidate,
>)
    requires
        items@.len() == scores@.len(),
    ensures
        candidates_view(out@) == limited(ranked(items_view(items@), scores@), limit as int),
{
    let ghost all = items_view(items@);
    let mut out: Vec<Candidate> = Vec::new();
    let mut i: usize = 0;
    assert(candidates_view(out@) =~= ranked(all.take(0), scores@.take(0)));
    while i < items.len()
        invariant
            i <= items@.len(),
            items@.len() == scores@.len(),
            all == items_view(items@),
            candidates_view(out@) == ranked(all.take(i as int), scores@.take(i as int)),
        decreases items@.len() - i,
    {
        proof {
            assert(all.take(i + 1).drop_last() =~= all.take(i as int));
            assert(scores@.take(i + 1).drop_last() =~= scores@.take(i as int));
            assert(all.take(i + 1).last() == (items@[i as int].0@, items@[i as int].1@));
        }
        match scores[i] {
            Some(s) => {
                let c = copy_candidate(items[i].0, items[i].1, s);
                place(&mut out, c);
            },
            None => {},
        }
        i = i + 1;
    }
    assert(all.take(all.len() as int) =~= all);
    assert(scores@.take(scores@.len() as int) =~= scores@);
    let ghost full = candidates_view(out@);
    if out.len() > limit {
        out.truncate(limit);
        assert(candidates_view(out@) =~= full.take(limit as int));
    }
    out
}

/// Ranks `(display, insert)` items against what was typed: best match first,
/// at most `limit` of them. With nothing typed, the first `limit` items in
/// their order.
pub fn rank(items: &[(&str, &str)], query: &str, limit: usize) -> (out: Vec<Candidate>)
    requires
        summable(query@),
        forall|i: int| 0 <= i < items@.len() ==> scorable(query@, (#[trigger] items@[i]).0@),
    ensures
        candidates_view(out@) == (if query@.len() == 0 {
            limited(
                Seq::new(items@.len(), |i: int| scored(items_view(items@)[i], 0)),
                limit as int,
            )
        } else {
            limited(
                ranked(items_view(items@), scores_for(items_view(items@), query@)),
                limit as int,
            )
        }),
{
    if query.is_empty() {
        let ghost all = Seq::new(items@.len(), |i: int| scored(items_view(items@)[i], 0));
        let mut out: Vec<Candidate> = Vec::new();
        let mut i: usize = 0;
        while i < items.len() && i < limit
            invariant
                i <= items@.len(),
                i <= limit,
                all == Seq::new(items@.len(), |k: int| scored(items_view(items@)[k], 0)),
                candidates_view(out@) =~= all.take(i as int),
            decreases items@.len() - i,
        {
            let ghost before = out@;
            out.push(copy_candidate(items[i].0, items[i].1, 0));
            assert(candidates_view(out@) =~= candidates_view(before).push(out@.last()@));
            i = i + 1;
            assert(all.take(i as int) =~= all.take(i - 1).push(all[i - 1]));
        }
        assert(candidates_view(out@) =~= limited(all, limit as int));
        return out;
    }
    let mut scores: Vec<Option<u32>> = Vec::new();
    let mut i: usize = 0;
    while i < items.len()
        invariant
            i <= items@.len(),
            summable(query@),
            forall|k: int| 0 <= k < items@.len() ==> scorable(query@, (#[trigger] items@[k]).0@),
            scores@ =~= scores_for(items_view(items@), query@).take(i as int),
        decreases items@.len() - i,
    {
        assert(scorable(query@, items@[i as int].0@));
        scores.push(match_score(query, items[i].0));
        i = i + 1;
    }
    assert(scores@ =~= scores_for(items_view(items@), query@));
    rank_scored(items, &scores, limit)
}

// ---------------------------------------------------------------------------
// Laws
// ---------------------------------------------------------------------------

/// No candidate stands behind one that it outranks.
pub open spec fn in_order(list: Seq<Candidate<Seq<char>>>) -> bool {
    forall|i: int, j: int| 0 <= i < j < list.len() ==> !outranks(#[trigger] list[j], #[trigger] list[i])
}

proof fn lemma_outranks_transitive(
    a: Candidate<Seq<char>>,
    b: Candidate<Seq<char>>,
    c: Candidate<Seq<char>>,
)
    requires
        !outranks(b, a),
        !outranks(c, b),
    ensures
        !outranks(c, a),
{
    if outranks(c, a) {
        lemma_text_order(a.display, b.display);
        lemma_text_order(b.display, c.display);
        lemma_text_order(a.display, c.display);
        if a.score == b.score && b.score == c.score {
            if a.display != b.display && b.display != c.display {
                lemma_text_before_transitive(a.display, b.display, c.display);
            }
        }
    }
}

proof fn lemma_placed_in_order(list: Seq<Candidate<Seq<char>>>, c: Candidate<Seq<char>>)
    requires
        in_order(list),
    ensures
        in_order(placed(list, c)),
        placed(list, c).len() == list.len() + 1,
        forall|i: int|
            0 <= i < placed(list, c).len() ==> (#[trigger] placed(list, c)[i] == c
                || list.contains(placed(list, c)[i])),
    decreases list.len(),
{
    let out = placed(list, c);
    if list.len() > 0 && outranks(c, list.last()) {
        let rest = list.drop_last();
        lemma_placed_in_order(rest, c);
        let inner = placed(rest, c);
        assert forall|i: int| 0 <= i < out.len() implies (#[trigger] out[i] == c || list.contains(
            out[i],
        )) by {
            if i < inner.len() {
                assert(out[i] == inner[i]);
                if inner[i] != c {
                    let k = choose|k: int| 0 <= k < rest.len() && rest[k] == inner[i];
                    assert(list[k] == out[i]);
                }
            } else {
                assert(list[list.len() - 1] == out[i]);
            }
        }
        assert forall|i: int, j: int| 0 <= i < j < out.len() implies !outranks(
            #[trigger] out[j],
            #[trigger] out[i],
        ) by {
            if j < inner.len() {
                assert(out[i] == inner[i] && out[j] == inner[j]);
            } else {
                assert(out[j] == list.last());
                assert(out[i] == inner[i]);
                if inner[i] == c {
                    lemma_text_order(c.display, list.last().display);
                } else {
                    let k = choose|k: int| 0 <= k < rest.len() && rest[k] == inner[i];
                    assert(list[k] == inner[i]);
                    assert(!outranks(list[list.len() - 1], list[k]));
                }
            }
        }
    } else {
        assert forall|i: int, j: int| 0 <= i < j < out.len() implies !outranks(
            #[trigger] out[j],
            #[trigger] out[i],
        ) by {
            if j == list.len() {
                assert(out[i] == list[i]);
                if i < list.len() - 1 {
                    assert(!outranks(list[list.len() - 1], list[i]));
                    lemma_outranks_transitive(list[i], list.last(), c);
                }
            } else {
                assert(out[i] == list[i] && out[j] == list[j]);
            }
        }
        assert forall|i: int| 0 <= i < out.len() implies (#[trigger] out[i] == c || list.contains(
            out[i],
        )) by {
            if i < list.len() {
                assert(list[i] == out[i]);
            }
        }
    }
}

/// Ranking puts no candidate behind one that it outranks, and keeps exactly
/// as many as have a score.
pub proof fn law_ranking_is_in_order(items: Seq<(Seq<char>, Seq<char>)>, scores: Seq<Option<u32>>)
    requires
        items.len() == scores.len(),
    ensures
        in_order(ranked(items, scores)),
        ranked(items, scores).len() == scores.filter(|s: Option<u32>| s is Some).len(),
    decreases items.len(),
{
    reveal(Seq::filter);
    if items.len() > 0 {
        law_ranking_is_in_order(items.drop_last(), scores.drop_last());
        match scores.last() {
            Some(s) => {
                lemma_placed_in_order(
                    ranked(items.drop_last(), scores.drop_last()),
                    scored(items.last(), s),
                );
            },
            None => {},
        }
    }
}

/// The higher score comes first, and among equal scores what is shown
/// decides, in the order of a dictionary.
pub proof fn law_scores_decide_then_names(a: Candidate<Seq<char>>, b: Candidate<Seq<char>>)
    ensures
        a.score > b.score ==> outranks(a, b) && !outranks(b, a),
        a.score == b.score ==> outranks(a, b) == text_before(a.display, b.display),
        a.score < b.score ==> !outranks(a, b),
{
}

proof fn lemma_placed_keeps(list: Seq<Candidate<Seq<char>>>, c: Candidate<Seq<char>>, k: int)
    requires
        0 <= k <= list.len(),
    ensures
        k < list.len() ==> placed(list, c).contains(list[k]),
        k == list.len() ==> placed(list, c).contains(c),
    decreases list.len(),
{
    let out = placed(list, c);
    if list.len() > 0 && outranks(c, list.last()) {
        let inner = placed(list.drop_last(), c);
        if k == list.len() {
            lemma_placed_keeps(list.drop_last(), c, k - 1);
            let j = inner.index_of(c);
            assert(inner[j] == c);
            assert(out[j] == c);
        } else if k == list.len() - 1 {
            assert(out.last() == list[k]);
            assert(out[out.len() - 1] == list[k]);
        } else {
            lemma_placed_keeps(list.drop_last(), c, k);
            assert(list.drop_last()[k] == list[k]);
            let j = inner.index_of(list[k]);
            assert(inner[j] == list[k]);
            assert(out[j] == list[k]);
        }
    } else {
        if k < list.len() {
            assert(out[k] == list[k]);
        } else {
            assert(out[k] == c);
        }
    }
}

/// Every item with a score is among the ranked ones, as it shows, with what
/// it inserts and with its own score.
pub proof fn law_every_scored_item_is_ranked(
    items: Seq<(Seq<char>, Seq<char>)>,
    scores: Seq<Option<u32>>,
    k: int,
)
    requires
        items.len() == scores.len(),
        0 <= k < items.len(),
        scores[k] is Some,
    ensures
        ranked(items, scores).contains(
            Candidate { display: items[k].0, insert: items[k].1, score: scores[k]->0 },
        ),
    decreases items.len(),
{
    let rest = ranked(items.drop_last(), scores.drop_last());
    let c = Candidate { display: items[k].0, insert: items[k].1, score: scores[k]->0 };
    if k == items.len() - 1 {
        lemma_placed_keeps(rest, c, rest.len() as int);
    } else {
        assert(items.drop_last()[k] == items[k]);
        assert(scores.drop_last()[k] == scores[k]);
        law_every_scored_item_is_ranked(items.drop_last(), scores.drop_last(), k);
        if let Some(s) = scores.last() {
            let j = rest.index_of(c);
            assert(rest[j] == c);
            lemma_placed_keeps(rest, scored(items.last(), s), j);
        }
    }
}

/// What is ranked comes from the items: each candidate is one of them with
/// the score that it was given.
pub proof fn law_candidates_come_from_the_items(
    items: Seq<(Seq<char>, Seq<char>)>,
    scores: Seq<Option<u32>>,
    i: int,
)
    requires
        items.len() == scores.len(),
        0 <= i < ranked(items, scores).len(),
    ensures
        exists|k: int|
            0 <= k < items.len() && #[trigger] scores[k] == Some(ranked(items, scores)[i].score)
                && items[k].0 == ranked(items, scores)[i].display && items[k].1 == ranked(
                items,
                scores,
            )[i].insert,
    decreases items.len(),
{
    let c = ranked(items, scores)[i];
    let front = items.drop_last();
    let marks = scores.drop_last();
    let rest = ranked(front, marks);
    let n = items.len() - 1;
    law_ranking_is_in_order(front, marks);
    if let Some(s) = scores.last() {
        let last = scored(items.last(), s);
        lemma_placed_in_order(rest, last);
        if c == last {
            assert(scores[n] == Some(c.score));
        } else {
            assert(rest.contains(c));
            let j = rest.index_of(c);
            law_candidates_come_from_the_items(front, marks, j);
            let k = choose|k: int|
                0 <= k < front.len() && #[trigger] marks[k] == Some(rest[j].score) && front[k].0
                    == rest[j].display && front[k].1 == rest[j].insert;
            assert(scores[k] == Some(c.score));
            assert(items[k] == front[k]);
        }
    } else {
        law_candidates_come_from_the_items(front, marks, i);
        let k = choose|k: int|
            0 <= k < front.len() && #[trigger] marks[k] == Some(rest[i].score) && front[k].0
                == rest[i].display && front[k].1 == rest[i].insert;
        assert(scores[k] == Some(c.score));
        assert(items[k] == front[k]);
    }
}

/// A limit keeps the first of a list, no more than it says.
pub proof fn law_limits_keep_the_first(list: Seq<Candidate<Seq<char>>>, limit: int)
    requires
        0 <= limit,
    ensures
        limited(list, limit).len() == (if list.len() <= limit {
            list.len() as int
        } else {
            limit
        }),
        forall|i: int|
            0 <= i < limited(list, limit).len() ==> #[trigger] limited(list, limit)[i] == list[i],
{
}

/// The score of an item is what the matcher gives for what it shows.
pub proof fn law_items_are_scored_by_what_they_show(
    items: Seq<(Seq<char>, Seq<char>)>,
    query: Seq<char>,
    i: int,
)
    requires
        0 <= i < items.len(),
    ensures
        scores_for(items, query).len() == items.len(),
        scores_for(items, query)[i] == nucleo_score(query, items[i].0),
{
}

} // verus!
