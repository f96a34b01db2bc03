//! Fuzzy matching of a query against a text.
//!
//! A query matches a text when its characters occur in the text in order,
//! ignoring case. A match is exact when the query occurs as one contiguous
//! piece. The result carries the ranges of the text to highlight.

use vstd::prelude::*;
use crate::text::{
    contains_query, find_first, first_occurrence, lowercase, occurs_at, to_chars, to_lowercase,
};

verus! {

/// Outcome of matching one query against one text.
#[derive(Debug, Clone)]
pub struct FuzzyMatch {
    pub matched: bool,
    /// The ranges to highlight, as `(offset, length)` counted in characters.
    pub match_positions: Vec<(usize, usize)>,
    pub is_exact: bool,
}

impl FuzzyMatch {
    /// The highlighted ranges as pairs of integers.
    pub open spec fn ranges(&self) -> Seq<(int, int)> {
        as_ranges(self.match_positions@)
    }
}

pub open spec fn as_ranges(s: Seq<(usize, usize)>) -> Seq<(int, int)> {
    s.map_values(|r: (usize, usize)| (r.0 as int, r.1 as int))
}

pub open spec fn as_ints(s: Seq<usize>) -> Seq<int> {
    s.map_values(|x: usize| x as int)
}

/// `p` places the first `p.len()` characters of `query` at increasing
/// indices of `text`.
pub open spec fn embeds(text: Seq<char>, query: Seq<char>, p: Seq<int>) -> bool {
    &&& p.len() <= query.len()
    &&& forall|k: int|
        0 <= k < p.len() ==> 0 <= #[trigger] p[k] < text.len() && text[p[k]] == query[k]
    &&& forall|j: int, k: int| 0 <= j < k < p.len() ==> p[j] < p[k]
}

/// The characters of `query` occur in `text` in order.
pub open spec fn is_subsequence(text: Seq<char>, query: Seq<char>) -> bool {
    exists|p: Seq<int>| embeds(text, query, p) && p.len() == query.len()
}

/// `p` places all of `query` in `text`, each character as far left as any
/// placement of the query's first characters can put it.
pub open spec fn leftmost(text: Seq<char>, query: Seq<char>, p: Seq<int>) -> bool {
    &&& embeds(text, query, p)
    &&& p.len() == query.len()
    &&& forall|e: Seq<int>, k: int|
        #![trigger embeds(text, query, e), e[k]]
        embeds(text, query, e) && 0 <= k < e.len() ==> p[k] <= e[k]
}

/// The indices that the range `(offset, length)` covers, in order.
pub open spec fn span(r: (int, int)) -> Seq<int> {
    Seq::new(r.1 as nat, |i: int| r.0 + i)
}

/// The indices that a list of ranges covers, range after range.
pub open spec fn expand(ranges: Seq<(int, int)>) -> Seq<int>
    decreases ranges.len(),
{
    if ranges.len() == 0 {
        Seq::empty()
    } else {
        expand(ranges.drop_last()) + span(ranges.last())
    }
}

/// No range is empty, and between two neighbours at least one index is left
/// out: the ranges are the maximal runs of the indices they cover.
pub open spec fn maximal_runs(ranges: Seq<(int, int)>) -> bool {
    &&& forall|i: int| 0 <= i < ranges.len() ==> (#[trigger] ranges[i]).1 >= 1
    &&& forall|i: int|
        0 <= i < ranges.len() - 1 ==> (#[trigger] ranges[i]).0 + ranges[i].1 < ranges[i + 1].0
}

/// What a match of `query` against `text` is, both already in lower case.
///
/// An exact match highlights the first occurrence of the query. Any other
/// match highlights the leftmost placement of the query's characters, with
/// neighbouring characters merged into one range.
pub open spec fn describes(text: Seq<char>, query: Seq<char>, m: FuzzyMatch) -> bool {
    let ranges = m.ranges();
    &&& m.is_exact == contains_query(text, query)
    &&& m.matched == is_subsequence(text, query)
    &&& m.is_exact ==> {
        &&& ranges.len() == 1
        &&& first_occurrence(text, query, ranges[0].0)
        &&& ranges[0].1 == query.len()
    }
    &&& !m.matched ==> ranges.len() == 0
    &&& m.matched && !m.is_exact ==> {
        &&& maximal_runs(ranges)
        &&& leftmost(text, query, expand(ranges))
    }
}

/// A query that occurs as one piece also occurs as a subsequence: every
/// exact match is a match.
pub proof fn lemma_exact_is_match(text: Seq<char>, query: Seq<char>)
    requires
        contains_query(text, query),
    ensures
        is_subsequence(text, query),
{
    let i = choose|i: int| occurs_at(text, query, i);
    let p = Seq::new(query.len(), |k: int| i + k);
    assert forall|k: int| 0 <= k < p.len() implies 0 <= #[trigger] p[k] < text.len() && text[p[k]]
        == query[k] by {
        assert(text.subrange(i, i + query.len())[k] == query[k]);
    }
    assert(embeds(text, query, p));
}

/// A text shorter than the query does not match it.
pub proof fn lemma_longer_query_no_match(text: Seq<char>, query: Seq<char>)
    requires
        text.len() < query.len(),
    ensures
        !is_subsequence(text, query),
        !contains_query(text, query),
{
    if is_subsequence(text, query) {
        let p = choose|p: Seq<int>| embeds(text, query, p) && p.len() == query.len();
        lemma_increasing_lower_bound(p, p.len() - 1);
    }
    if contains_query(text, query) {
        lemma_exact_is_match(text, query);
    }
}

/// In an increasing sequence of indices from 0 on, the `k`-th is at least `k`.
proof fn lemma_increasing_lower_bound(p: Seq<int>, k: int)
    requires
        0 <= k < p.len(),
        forall|i: int| 0 <= i < p.len() ==> 0 <= #[trigger] p[i],
        forall|i: int, j: int| 0 <= i < j < p.len() ==> p[i] < p[j],
    ensures
        p[k] >= k,
    decreases k,
{
    if k > 0 {
        lemma_increasing_lower_bound(p, k - 1);
    }
}

/// Every range lies in the text.
pub open spec fn ranges_within(ranges: Seq<(int, int)>, len: int) -> bool {
    forall|k: int|
        0 <= k < ranges.len() ==> 0 <= (#[trigger] ranges[k]).0 && ranges[k].0 + ranges[k].1 <= len
}

/// The first and the last index of every non-empty range are among the
/// indices that the ranges cover.
proof fn lemma_expand_holds_ends(ranges: Seq<(int, int)>, k: int)
    requires
        0 <= k < ranges.len(),
        ranges[k].1 >= 1,
    ensures
        expand(ranges).contains(ranges[k].0),
        expand(ranges).contains(ranges[k].0 + ranges[k].1 - 1),
    decreases ranges.len(),
{
    let head = expand(ranges.drop_last());
    let tail = span(ranges.last());
    let all = expand(ranges);
    assert(all == head + tail);
    if k == ranges.len() - 1 {
        assert(all[head.len() as int] == tail[0]);
        assert(all[head.len() + ranges[k].1 - 1] == tail[ranges[k].1 - 1]);
    } else {
        assert(ranges.drop_last()[k] == ranges[k]);
        lemma_expand_holds_ends(ranges.drop_last(), k);
        let i = choose|i: int| 0 <= i < head.len() && head[i] == ranges[k].0;
        assert(all[i] == head[i]);
        let j = choose|j: int| 0 <= j < head.len() && head[j] == ranges[k].0 + ranges[k].1 - 1;
        assert(all[j] == head[j]);
    }
}

/// The ranges of a match lie in the text that was matched: they are
/// offsets and lengths in that text.
pub proof fn lemma_ranges_lie_in_text(text: Seq<char>, query: Seq<char>, m: FuzzyMatch)
    requires
        describes(text, query, m),
    ensures
        ranges_within(m.ranges(), text.len() as int),
{
    let ranges = m.ranges();
    if m.matched && !m.is_exact {
        let placed = expand(ranges);
        assert forall|k: int| 0 <= k < ranges.len() implies 0 <= (#[trigger] ranges[k]).0
            && ranges[k].0 + ranges[k].1 <= text.len() by {
            lemma_expand_holds_ends(ranges, k);
            let i = choose|i: int| 0 <= i < placed.len() && placed[i] == ranges[k].0;
            assert(0 <= placed[i] < text.len());
            let j = choose|j: int|
                0 <= j < placed.len() && placed[j] == ranges[k].0 + ranges[k].1 - 1;
            assert(0 <= placed[j] < text.len());
        }
    }
}

/// Two leftmost placements of the same query are the same placement.
pub proof fn lemma_leftmost_unique(text: Seq<char>, query: Seq<char>, p: Seq<int>, q: Seq<int>)
    requires
        leftmost(text, query, p),
        leftmost(text, query, q),
    ensures
        p == q,
{
    assert forall|k: int| 0 <= k < p.len() implies p[k] == q[k] by {
        assert(p[k] <= q[k]);
        assert(q[k] <= p[k]);
    }
    assert(p =~= q);
}

/// The leftmost placement of `query` in `text`, if its characters occur in
/// order.
fn leftmost_positions(text: &Vec<char>, query: &Vec<char>) -> (r: Option<Vec<usize>>)
    ensures
        r is None ==> !is_subsequence(text@, query@),
        r matches Some(p) ==> leftmost(text@, query@, as_ints(p@)),
{
    let n: usize = text.len();
    let m: usize = query.len();
    let mut pos: Vec<usize> = Vec::new();
    let mut ti: usize = 0;
    let mut k: usize = 0;
    while k < m && ti < n
        invariant
            n == text.len(),
            m == query.len(),
            k == pos.len(),
            k <= m,
            ti <= n,
            embeds(text@, query@, as_ints(pos@)),
            forall|j: int| 0 <= j < k ==> (#[trigger] pos@[j]) < ti,
            forall|e: Seq<int>, j: int|
                #![trigger embeds(text@, query@, e), e[j]]
                embeds(text@, query@, e) && 0 <= j < e.len() && j < k ==> pos@[j] <= e[j],
            forall|e: Seq<int>| #[trigger]
                embeds(text@, query@, e) && e.len() > k ==> e[k as int] >= ti,
        decreases n - ti,
    {
        let ghost before = as_ints(pos@);
        if text[ti] == query[k] {
            pos.push(ti);
            proof {
                let after = as_ints(pos@);
                assert(after =~= before.push(ti as int));
                assert forall|e: Seq<int>| #[trigger]
                    embeds(text@, query@, e) && e.len() > k + 1 implies e[k + 1] >= ti + 1 by {
                    assert(e[k as int] >= ti);
                    assert(e[k as int] < e[k + 1]);
                }
            }
            k += 1;
        } else {
            proof {
                assert forall|e: Seq<int>| #[trigger]
                    embeds(text@, query@, e) && e.len() > k implies e[k as int] >= ti + 1 by {
                    assert(e[k as int] >= ti);
                    assert(text@[e[k as int]] == query@[k as int]);
                }
            }
        }
        ti += 1;
    }
    if k == m {
        Some(pos)
    } else {
        proof {
            if is_subsequence(text@, query@) {
                let e = choose|e: Seq<int>| embeds(text@, query@, e) && e.len() == query@.len();
                assert(e[k as int] >= ti);
            }
        }
        None
    }
}

/// Merges neighbouring positions into ranges.
fn merge_runs(pos: &Vec<usize>) -> (r: Vec<(usize, usize)>)
    requires
        forall|i: int, j: int| 0 <= i < j < pos.len() ==> pos@[i] < pos@[j],
    ensures
        maximal_runs(as_ranges(r@)),
        expand(as_ranges(r@)) == as_ints(pos@),
{
    let mut merged: Vec<(usize, usize)> = Vec::new();
    let mut i: usize = 0;
    while i < pos.len()
        invariant
            i <= pos.len(),
            forall|a: int, b: int| 0 <= a < b < pos.len() ==> pos@[a] < pos@[b],
            maximal_runs(as_ranges(merged@)),
            expand(as_ranges(merged@)) == as_ints(pos@).take(i as int),
            (merged.len() == 0) == (i == 0),
            i > 0 ==> merged@.last().0 + merged@.last().1 == pos@[i - 1] + 1,
        decreases pos.len() - i,
    {
        let p: usize = pos[i];
        let ghost old_ranges = as_ranges(merged@);
        let ghost target = as_ints(pos@).take(i as int + 1);
        assert(target =~= as_ints(pos@).take(i as int).push(p as int));
        let count: usize = merged.len();
        if count > 0 && merged[count - 1].0 + merged[count - 1].1 == p {
            let (start, len) = merged[count - 1];
            assert(i > 0 && pos@[i - 1] < p);
            merged.pop();
            merged.push((start, len + 1));
            proof {
                let new_ranges = as_ranges(merged@);
                assert(new_ranges.drop_last() =~= old_ranges.drop_last());
                assert(span((start as int, len + 1)) =~= span((start as int, len as int)).push(
                    p as int,
                ));
                assert(new_ranges.last() == (start as int, len + 1));
                assert(old_ranges.last() == (start as int, len as int));
                assert(expand(new_ranges) =~= expand(old_ranges).push(p as int));
                assert forall|a: int| 0 <= a < new_ranges.len() - 1 implies (
                #[trigger] new_ranges[a]).0 + new_ranges[a].1 < new_ranges[a + 1].0 by {
                    assert(new_ranges[a] == old_ranges[a]);
                    assert(new_ranges[a + 1].0 == old_ranges[a + 1].0);
                }
                assert forall|a: int| 0 <= a < new_ranges.len() implies (
                #[trigger] new_ranges[a]).1 >= 1 by {
                    if a < new_ranges.len() - 1 {
                        assert(new_ranges[a] == old_ranges[a]);
                    }
                }
            }
        } else {
            merged.push((p, 1));
            proof {
                let new_ranges = as_ranges(merged@);
                assert(new_ranges =~= old_ranges.push((p as int, 1)));
                assert(new_ranges.drop_last() =~= old_ranges);
                assert(span((p as int, 1)) =~= seq![p as int]);
                assert(expand(new_ranges) =~= expand(old_ranges).push(p as int));
                assert forall|a: int| 0 <= a < new_ranges.len() - 1 implies (
                #[trigger] new_ranges[a]).0 + new_ranges[a].1 < new_ranges[a + 1].0 by {
                    if a < new_ranges.len() - 2 {
                        assert(new_ranges[a] == old_ranges[a]);
                        assert(new_ranges[a + 1] == old_ranges[a + 1]);
                    } else {
                        assert(new_ranges[a] == old_ranges.last());
                        assert(i > 0);
                        assert(pos@[i - 1] < p);
                    }
                }
                assert forall|a: int| 0 <= a < new_ranges.len() implies (
                #[trigger] new_ranges[a]).1 >= 1 by {
                    if a < new_ranges.len() - 1 {
                        assert(new_ranges[a] == old_ranges[a]);
                    }
                }
            }
        }
        i += 1;
    }
    assert(as_ints(pos@).take(pos.len() as int) =~= as_ints(pos@));
    merged
}

/// The match of `query` against `text`, the characters compared as they
/// are.
fn match_chars(text: &Vec<char>, query: &Vec<char>) -> (r: FuzzyMatch)
    ensures
        describes(text@, query@, r),
{
    if let Some(start) = find_first(text, query) {
        proof {
            assert(contains_query(text@, query@));
            lemma_exact_is_match(text@, query@);
        }
        let mut ranges: Vec<(usize, usize)> = Vec::new();
        ranges.push((start, query.len()));
        return FuzzyMatch { matched: true, match_positions: ranges, is_exact: true };
    }
    match leftmost_positions(text, query) {
        None => FuzzyMatch { matched: false, match_positions: Vec::new(), is_exact: false },
        Some(pos) => {
            proof {
                let p = as_ints(pos@);
                assert(embeds(text@, query@, p));
                assert forall|i: int, j: int| 0 <= i < j < pos.len() implies pos@[i] < pos@[j] by {
                    assert(p[i] < p[j]);
                }
            }
            let merged = merge_runs(&pos);
            FuzzyMatch { matched: true, match_positions: merged, is_exact: false }
        },
    }
}

/// Matches `query` against `text`, comparing the characters as they are.
///
/// Both are expected in one case already; [`fuzzy_match`] folds the case
/// and then calls this function.
pub fn fuzzy_match_chars(text: &Vec<char>, query: &Vec<char>) -> (r: FuzzyMatch)
    ensures
        describes(text@, query@, r),
        ranges_within(r.ranges(), text@.len() as int),
{
    let r = match_chars(text, query);
    proof {
        lemma_ranges_lie_in_text(text@, query@, r);
    }
    r
}

/// Matches `query` against `text`, ignoring case.
///
/// The ranges are offsets and lengths, in characters, in the lower-case
/// form of `text`. Where folding the case keeps the number of characters,
/// as it does for most texts, they are the same offsets in `text` itself;
/// a caller that marks them in `text` has to make sure of that first.
pub fn fuzzy_match(text: &str, query: &str) -> (r: FuzzyMatch)
    ensures
        describes(lowercase(text@), lowercase(query@), r),
        ranges_within(r.ranges(), lowercase(text@).len() as int),
        lowercase(text@).len() == text@.len() ==> ranges_within(r.ranges(), text@.len() as int),
{
    let text_lower = to_lowercase(text);
    let query_lower = to_lowercase(query);
    let text_chars = to_chars(text_lower.as_str());
    let query_chars = to_chars(query_lower.as_str());
    let r = fuzzy_match_chars(&text_chars, &query_chars);
    proof {
        lemma_ranges_lie_in_text(lowercase(text@), lowercase(query@), r);
    }
    r
}

} // verus!
