//! Recognising e-mail addresses, URLs, IP addresses, secrets and UUIDs in a
//! text, to show them in colour.

use vstd::prelude::*;
use crate::text::{lowercase, to_chars, to_lowercase};
use crate::tui::components::{
    as_marked, find_occurrences, is_scan, mark_matches, pieces, segment_views, segments_text, split_at_ranges, lemma_segments_text_one,
    Marked, PatternType, Segment, SegmentKind, SegmentView,
};

verus! {

pub const EMAIL_PATTERN: &'static str = "[a-zA-Z0-9._%+-]+@[a-zA-Z0-9.-]+\\.[a-zA-Z]{2,}";

pub const URL_PATTERN: &'static str = "https?://[^\\s<>\\[\\]()]+";

pub const IP_PATTERN: &'static str = "\\b(?:\\d{1,3}\\.){3}\\d{1,3}\\b";

pub const SECRET_PATTERN: &'static str = "(?i)(password|secret|token|api[_-]?key|auth)[=:]\\s*\\S+";

pub const UUID_PATTERN: &'static str =
    "[0-9a-fA-F]{8}-[0-9a-fA-F]{4}-[0-9a-fA-F]{4}-[0-9a-fA-F]{4}-[0-9a-fA-F]{12}";

/// A place where a pattern was found: the byte offsets of its start and
/// end in the text, and what it is.
pub type Found = (int, int, PatternType);

/// The matches of a regular expression in a text, as the regex crate finds
/// them one after the other: the byte offsets of the start and the end of
/// each. `None` if the expression does not compile.
pub uninterp spec fn regex_matches(pattern: Seq<char>, text: Seq<char>) -> Option<Seq<(int, int)>>;

pub open spec fn byte_ranges(found: Option<Vec<(usize, usize)>>) -> Option<Seq<(int, int)>> {
    match found {
        Some(ranges) => Some(ranges@.map_values(|r: (usize, usize)| (r.0 as int, r.1 as int))),
        None => None,
    }
}

/// Compiles the expression with `regex::Regex::new` and collects what
/// `Regex::find_iter` yields for the text: `Match::start` and `Match::end`
/// of each match, in the order of the iterator. `None` if the expression
/// does not compile. The result is a function of the two texts; it is known
/// here only by its name, [`regex_matches`].
#[verifier::external_body]
fn regex_find_all(pattern: &str, text: &str) -> (r: Option<Vec<(usize, usize)>>)
    ensures
        byte_ranges(r) == regex_matches(pattern@, text@),
{
    match regex::Regex::new(pattern) {
        Ok(re) => Some(re.find_iter(text).map(|m| (m.start(), m.end())).collect()),
        Err(_) => None,
    }
}

impl PatternType {
    /// The regular expression that recognises the pattern.
    pub open spec fn expression(self) -> Seq<char> {
        match self {
            PatternType::Email => EMAIL_PATTERN@,
            PatternType::Url => URL_PATTERN@,
            PatternType::Ip => IP_PATTERN@,
            PatternType::Secret => SECRET_PATTERN@,
            PatternType::Uuid => UUID_PATTERN@,
        }
    }

    pub fn pattern(&self) -> (r: &'static str)
        ensures
            r@ == self.expression(),
    {
        match self {
            PatternType::Email => EMAIL_PATTERN,
            PatternType::Url => URL_PATTERN,
            PatternType::Ip => IP_PATTERN,
            PatternType::Secret => SECRET_PATTERN,
            PatternType::Uuid => UUID_PATTERN,
        }
    }
}

/// The matches of one pattern, each with the pattern's kind; none if the
/// expression did not compile.
pub open spec fn tagged(ranges: Option<Seq<(int, int)>>, kind: PatternType) -> Seq<Found> {
    match ranges {
        Some(found) => found.map_values(|r: (int, int)| (r.0, r.1, kind)),
        None => Seq::empty(),
    }
}

/// Everything that any of the patterns matches in the text: the matches of
/// the e-mail pattern first, then those of the URL, IP, secret and UUID
/// patterns.
pub open spec fn candidates(text: Seq<char>) -> Seq<Found> {
    tagged(regex_matches(EMAIL_PATTERN@, text), PatternType::Email) + tagged(
        regex_matches(URL_PATTERN@, text),
        PatternType::Url,
    ) + tagged(regex_matches(IP_PATTERN@, text), PatternType::Ip) + tagged(
        regex_matches(SECRET_PATTERN@, text),
        PatternType::Secret,
    ) + tagged(regex_matches(UUID_PATTERN@, text), PatternType::Uuid)
}

/// `x` put into a list that is in order of start: behind everything that
/// starts where `x` starts or before.
pub open spec fn insert_by_start(sorted: Seq<Found>, x: Found) -> Seq<Found>
    decreases sorted.len(),
{
    if sorted.len() == 0 || sorted.last().0 <= x.0 {
        sorted.push(x)
    } else {
        insert_by_start(sorted.drop_last(), x).push(sorted.last())
    }
}

/// The list in order of start; what starts at the same place keeps its
/// order.
pub open spec fn sorted_by_start(s: Seq<Found>) -> Seq<Found>
    decreases s.len(),
{
    if s.len() == 0 {
        Seq::empty()
    } else {
        insert_by_start(sorted_by_start(s.drop_last()), s.last())
    }
}

/// The list without what overlaps: going through it in order, an element
/// is kept if it starts where the last kept one ends, or behind that.
pub open spec fn without_overlaps(s: Seq<Found>) -> Seq<Found>
    decreases s.len(),
{
    if s.len() == 0 {
        Seq::empty()
    } else {
        let kept = without_overlaps(s.drop_last());
        let last_end = if kept.len() == 0 {
            0
        } else {
            kept.last().1
        };
        if s.last().0 >= last_end {
            kept.push(s.last())
        } else {
            kept
        }
    }
}

pub open spec fn found_views(found: Seq<(usize, usize, PatternType)>) -> Seq<Found> {
    found.map_values(|f: (usize, usize, PatternType)| (f.0 as int, f.1 as int, f.2))
}

/// Putting `x` at `at` is what [`insert_by_start`] does, if everything from
/// `at` on starts behind `x` and what stands before `at` does not.
proof fn lemma_insert_position(sorted: Seq<Found>, x: Found, at: int)
    requires
        0 <= at <= sorted.len(),
        forall|k: int| at <= k < sorted.len() ==> (#[trigger] sorted[k]).0 > x.0,
        at > 0 ==> sorted[at - 1].0 <= x.0,
    ensures
        insert_by_start(sorted, x) == sorted.insert(at, x),
    decreases sorted.len() - at,
{
    if at == sorted.len() {
        assert(sorted.insert(at, x) =~= sorted.push(x));
    } else {
        let head = sorted.drop_last();
        assert forall|k: int| at <= k < head.len() implies (#[trigger] head[k]).0 > x.0 by {
            assert(head[k] == sorted[k]);
        }
        if at > 0 {
            assert(head[at - 1] == sorted[at - 1]);
        }
        lemma_insert_position(head, x, at);
        assert(sorted.last().0 > x.0);
        assert(head.insert(at, x).push(sorted.last()) =~= sorted.insert(at, x));
    }
}

/// Appends the matches of one pattern to the list, keeping it in order of
/// start.
fn add_sorted(sorted: &mut Vec<(usize, usize, PatternType)>, text: &str, kind: PatternType)
    ensures
        found_views(final(sorted)@) == fold_sorted(
            found_views(old(sorted)@),
            tagged(regex_matches(kind.expression(), text@), kind),
        ),
{
    let ghost start_views = found_views(sorted@);
    let ghost all = tagged(regex_matches(kind.expression(), text@), kind);
    match regex_find_all(kind.pattern(), text) {
        None => {},
        Some(ranges) => {
            let mut i: usize = 0;
            proof {
                assert(all.take(0) =~= Seq::<Found>::empty());
            }
            while i < ranges.len()
                invariant
                    i <= ranges.len(),
                    all == tagged(byte_ranges(Some(ranges)), kind),
                    all.len() == ranges.len(),
                    found_views(sorted@) == fold_sorted(start_views, all.take(i as int)),
                decreases ranges.len() - i,
            {
                let (start, end) = ranges[i];
                let x = (start, end, kind);
                let ghost before = found_views(sorted@);
                let mut at: usize = sorted.len();
                while at > 0 && sorted[at - 1].0 > start
                    invariant
                        at <= sorted.len(),
                        before == found_views(sorted@),
                        forall|k: int| at <= k < before.len() ==> (#[trigger] before[k]).0 > start,
                    decreases at,
                {
                    at -= 1;
                }
                sorted.insert(at, x);
                proof {
                    let xv: Found = (start as int, end as int, kind);
                    lemma_insert_position(before, xv, at as int);
                    assert(found_views(sorted@) =~= before.insert(at as int, xv));
                    assert(all[i as int] == xv);
                    assert(all.take(i + 1).drop_last() =~= all.take(i as int));
                    assert(all.take(i + 1).last() == xv);
                }
                i += 1;
            }
            proof {
                assert(all.take(ranges.len() as int) =~= all);
            }
        },
    }
}

/// `more` put one by one into a list that is in order of start.
pub open spec fn fold_sorted(sorted: Seq<Found>, more: Seq<Found>) -> Seq<Found>
    decreases more.len(),
{
    if more.len() == 0 {
        sorted
    } else {
        insert_by_start(fold_sorted(sorted, more.drop_last()), more.last())
    }
}

/// Sorting two lists in a row is sorting the first and then putting the
/// elements of the second into it one by one.
pub proof fn lemma_sorted_concat(a: Seq<Found>, b: Seq<Found>)
    ensures
        sorted_by_start(a + b) == fold_sorted(sorted_by_start(a), b),
    decreases b.len(),
{
    if b.len() == 0 {
        assert(a + b =~= a);
    } else {
        lemma_sorted_concat(a, b.drop_last());
        assert((a + b).drop_last() =~= a + b.drop_last());
        assert((a + b).last() == b.last());
    }
}

/// The patterns found in a text, in order of their start, without those
/// that begin inside one that was found before them.
pub fn find_patterns(text: &str) -> (r: Vec<(usize, usize, PatternType)>)
    ensures
        found_views(r@) == without_overlaps(sorted_by_start(candidates(text@))),
{
    let mut sorted: Vec<(usize, usize, PatternType)> = Vec::new();
    let ghost email = tagged(regex_matches(EMAIL_PATTERN@, text@), PatternType::Email);
    let ghost url = tagged(regex_matches(URL_PATTERN@, text@), PatternType::Url);
    let ghost ip = tagged(regex_matches(IP_PATTERN@, text@), PatternType::Ip);
    let ghost secret = tagged(regex_matches(SECRET_PATTERN@, text@), PatternType::Secret);
    let ghost uuid = tagged(regex_matches(UUID_PATTERN@, text@), PatternType::Uuid);
    proof {
        assert(found_views(sorted@) =~= sorted_by_start(Seq::<Found>::empty()));
        lemma_sorted_concat(Seq::<Found>::empty(), email);
        assert(Seq::<Found>::empty() + email =~= email);
        lemma_sorted_concat(email, url);
        lemma_sorted_concat(email + url, ip);
        lemma_sorted_concat(email + url + ip, secret);
        lemma_sorted_concat(email + url + ip + secret, uuid);
    }
    add_sorted(&mut sorted, text, PatternType::Email);
    add_sorted(&mut sorted, text, PatternType::Url);
    add_sorted(&mut sorted, text, PatternType::Ip);
    add_sorted(&mut sorted, text, PatternType::Secret);
    add_sorted(&mut sorted, text, PatternType::Uuid);
    assert(found_views(sorted@) == sorted_by_start(candidates(text@)));
    let mut result: Vec<(usize, usize, PatternType)> = Vec::new();
    let mut last_end: usize = 0;
    let mut i: usize = 0;
    let ghost all = found_views(sorted@);
    proof {
        assert(all.take(0) =~= Seq::<Found>::empty());
        assert(found_views(result@) =~= Seq::<Found>::empty());
    }
    while i < sorted.len()
        invariant
            i <= sorted.len(),
            all == found_views(sorted@),
            found_views(result@) == without_overlaps(all.take(i as int)),
            last_end == if result.len() == 0 {
                0
            } else {
                result@[result.len() - 1].1 as int
            },
        decreases sorted.len() - i,
    {
        let (start, end, kind) = sorted[i];
        let ghost kept = found_views(result@);
        proof {
            assert(all.take(i + 1).drop_last() =~= all.take(i as int));
            assert(all.take(i + 1).last() == (start as int, end as int, kind));
            if kept.len() > 0 {
                assert(kept.last().1 == result@[result.len() - 1].1);
            }
        }
        if start >= last_end {
            result.push((start, end, kind));
            last_end = end;
            assert(found_views(result@) =~= kept.push((start as int, end as int, kind)));
        }
        i += 1;
    }
    proof {
        assert(all.take(sorted.len() as int) =~= all);
    }
    result
}

/// The number of bytes that a character takes in UTF-8.
pub open spec fn utf8_len(c: char) -> int {
    let u = c as u32;
    if u < 0x80 {
        1
    } else if u < 0x800 {
        2
    } else if u < 0x10000 {
        3
    } else {
        4
    }
}

pub fn char_utf8_len(c: char) -> (r: usize)
    ensures
        r == utf8_len(c),
{
    let u: u32 = c as u32;
    if u < 0x80 {
        1
    } else if u < 0x800 {
        2
    } else if u < 0x10000 {
        3
    } else {
        4
    }
}

/// The index of the character that begins at the given byte offset of the
/// text in UTF-8; the number of characters for the offset of the end.
/// `None` for an offset inside a character or behind the text.
pub open spec fn char_index(chars: Seq<char>, byte: int) -> Option<int>
    decreases chars.len(),
{
    if byte == 0 {
        Some(0)
    } else if chars.len() == 0 || byte < utf8_len(chars[0]) {
        None
    } else {
        match char_index(chars.drop_first(), byte - utf8_len(chars[0])) {
            Some(k) => Some(k + 1),
            None => None,
        }
    }
}

pub open spec fn shifted(index: Option<int>, by: int) -> Option<int> {
    match index {
        Some(k) => Some(k + by),
        None => None,
    }
}

pub open spec fn index_view(index: Option<usize>) -> Option<int> {
    match index {
        Some(k) => Some(k as int),
        None => None,
    }
}

pub fn char_index_at(chars: &Vec<char>, byte: usize) -> (r: Option<usize>)
    ensures
        index_view(r) == char_index(chars@, byte as int),
        r matches Some(k) ==> k <= chars.len(),
{
    let n: usize = chars.len();
    let mut k: usize = 0;
    let mut left: usize = byte;
    proof {
        assert(chars@.skip(0) =~= chars@);
    }
    while left > 0
        invariant
            k <= n,
            n == chars.len(),
            char_index(chars@, byte as int) == shifted(
                char_index(chars@.skip(k as int), left as int),
                k as int,
            ),
        decreases left,
    {
        if k == n {
            return None;
        }
        let width: usize = char_utf8_len(chars[k]);
        proof {
            assert(chars@.skip(k as int)[0] == chars@[k as int]);
            assert(chars@.skip(k as int).drop_first() =~= chars@.skip(k + 1));
        }
        if left < width {
            return None;
        }
        left -= width;
        k += 1;
    }
    Some(k)
}

/// The ranges of characters that the found byte ranges cover, each marked
/// with its pattern. A range whose start or end is no character boundary
/// is left out.
pub open spec fn to_marked(chars: Seq<char>, found: Seq<Found>) -> Seq<Marked>
    decreases found.len(),
{
    if found.len() == 0 {
        Seq::empty()
    } else {
        let rest = to_marked(chars, found.drop_last());
        let last = found.last();
        match (char_index(chars, last.0), char_index(chars, last.1)) {
            (Some(a), Some(b)) => if a <= b {
                rest.push((a, b - a, SegmentKind::Pattern(last.2)))
            } else {
                rest
            },
            _ => rest,
        }
    }
}

/// The text cut at the patterns that [`find_patterns`] finds in it; a text
/// without any is one plain segment.
pub open spec fn pattern_segments(text: Seq<char>) -> Seq<SegmentView> {
    let found = without_overlaps(sorted_by_start(candidates(text)));
    if found.len() == 0 {
        seq![SegmentView { text, kind: SegmentKind::Plain }]
    } else {
        pieces(text, to_marked(text, found), 0)
    }
}

/// The text in segments, the recognised patterns marked with their kind.
/// The segments in a row are the text.
pub fn highlight_patterns(text: &str) -> (r: Vec<Segment>)
    ensures
        segment_views(r@) == pattern_segments(text@),
        segments_text(segment_views(r@)) == text@,
{
    let found = find_patterns(text);
    let chars = to_chars(text);
    if found.len() == 0 {
        let mut out: Vec<Segment> = Vec::new();
        out.push(Segment { text: text.to_owned(), kind: SegmentKind::Plain });
        proof {
            let one = SegmentView { text: text@, kind: SegmentKind::Plain };
            assert(segment_views(out@) =~= seq![one]);
            lemma_segments_text_one(one);
        }
        return out;
    }
    let mut marked: Vec<(usize, usize, SegmentKind)> = Vec::new();
    let ghost all = found_views(found@);
    let mut i: usize = 0;
    proof {
        assert(all.take(0) =~= Seq::<Found>::empty());
        assert(as_marked(marked@) =~= Seq::<Marked>::empty());
    }
    while i < found.len()
        invariant
            i <= found.len(),
            all == found_views(found@),
            chars@ == text@,
            as_marked(marked@) == to_marked(text@, all.take(i as int)),
        decreases found.len() - i,
    {
        let (start, end, kind) = found[i];
        let ghost before = as_marked(marked@);
        proof {
            assert(all.take(i + 1).drop_last() =~= all.take(i as int));
            assert(all.take(i + 1).last() == (start as int, end as int, kind));
        }
        let from = char_index_at(&chars, start);
        let to = char_index_at(&chars, end);
        match (from, to) {
            (Some(a), Some(b)) => {
                if a <= b {
                    marked.push((a, b - a, SegmentKind::Pattern(kind)));
                    assert(as_marked(marked@) =~= before.push(
                        (a as int, b - a, SegmentKind::Pattern(kind)),
                    ));
                }
            },
            _ => {},
        }
        i += 1;
    }
    proof {
        assert(all.take(found.len() as int) =~= all);
    }
    let out = split_at_ranges(&chars, &marked);
    proof {
        if out.len() == 0 {
            assert(segments_text(segment_views(out@)) =~= Seq::<char>::empty());
            assert(text@ =~= Seq::<char>::empty());
        }
    }
    out
}

/// The ranges are the scan of the query through the text, each as long as
/// the query and marked as a match.
pub open spec fn marks_scan(text: Seq<char>, query: Seq<char>, marked: Seq<Marked>) -> bool {
    &&& is_scan(text, query, marked.map_values(|m: Marked| m.0))
    &&& forall|k: int|
        0 <= k < marked.len() ==> (#[trigger] marked[k]).1 == query.len() && marked[k].2
            == SegmentKind::Match
}

/// The search can be shown in the text: there is a query and a text, the
/// text is no shorter than the query, and folding the case has kept the
/// number of its characters, so that a place in one is the same place in
/// the other.
pub open spec fn searchable(text: Seq<char>, query: Seq<char>) -> bool {
    &&& query.len() > 0
    &&& lowercase(query).len() > 0
    &&& text.len() > 0
    &&& lowercase(text).len() == text.len()
    &&& lowercase(query).len() <= text.len()
}

/// The text in segments, with every place marked where the query stands
/// in it, ignoring case; the places are found by a scan from the left that
/// goes on behind each find. Where the search cannot be shown the
/// recognised patterns are marked instead. The segments in a row are the
/// text.
pub fn highlight_search(text: &str, query: &str) -> (r: Vec<Segment>)
    ensures
        segments_text(segment_views(r@)) == text@,
        !searchable(text@, query@) ==> segment_views(r@) == pattern_segments(text@),
        searchable(text@, query@) ==> exists|marked: Seq<Marked>|
            marks_scan(lowercase(text@), lowercase(query@), marked) && segment_views(r@)
                == #[trigger] pieces(text@, marked, 0),
{
    if query.is_empty() {
        return highlight_patterns(text);
    }
    let chars = to_chars(text);
    let text_lower = to_lowercase(text);
    let query_lower = to_lowercase(query);
    let lower = to_chars(text_lower.as_str());
    let needle = to_chars(query_lower.as_str());
    if needle.len() == 0 || chars.len() == 0 || lower.len() != chars.len() || needle.len()
        > chars.len() {
        return highlight_patterns(text);
    }
    let found = find_occurrences(&lower, &needle);
    let marked = mark_matches(&found);
    let out = split_at_ranges(&chars, &marked);
    proof {
        let views = as_marked(marked@);
        assert(views.map_values(|m: Marked| m.0) =~= crate::tui::components::range_starts(
            crate::tui::fuzzy::as_ranges(found@),
        ));
        assert forall|k: int| 0 <= k < views.len() implies (#[trigger] views[k]).1
            == needle.len() && views[k].2 == SegmentKind::Match by {
            assert(marked@[k] == (found@[k].0, found@[k].1, SegmentKind::Match));
        }
        assert(marks_scan(lowercase(text@), lowercase(query@), views));
    }
    out
}

} // verus!
