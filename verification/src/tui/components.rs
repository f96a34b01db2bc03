//! What the browser's widgets show, computed from plain values: texts,
//! their highlighted pieces, and the choice between alternatives. Drawing
//! is done elsewhere.

use vstd::prelude::*;
use vstd::string::StringExecFns;
use crate::text::{
    contains, decimal, is_whitespace, is_whitespace_char, lowercase, matches_at,
    occurs_at, push_decimal, string_from_chars, string_push, to_chars, to_lowercase,
};
use crate::tui::app::matches_exactly;
use crate::tui::fuzzy::{as_ranges, describes, fuzzy_match, FuzzyMatch};

verus! {

/// How long ago a moment was, in the short form of the entry list. An
/// `elapsed` below one minute, negative ones too, reads `now`; then whole
/// minutes, hours, days and weeks, each up to the next unit, and from five
/// weeks on months of thirty days.
pub open spec fn relative_date(elapsed: int) -> Seq<char> {
    if elapsed < 60 {
        "now"@
    } else if elapsed / 60 < 60 {
        decimal(elapsed / 60) + "m ago"@
    } else if elapsed / 3600 < 24 {
        decimal(elapsed / 3600) + "h ago"@
    } else if elapsed / 86400 < 7 {
        decimal(elapsed / 86400) + "d ago"@
    } else if elapsed / 604800 < 5 {
        decimal(elapsed / 604800) + "w ago"@
    } else {
        decimal(elapsed / 86400 / 30) + "mo ago"@
    }
}

/// How long before `now` the moment `date` was, both in seconds since the
/// Unix epoch.
pub fn format_relative_date(date: i64, now: i64) -> (r: String)
    ensures
        r@ == relative_date(now - date),
{
    let elapsed: i128 = (now as i128) - (date as i128);
    if elapsed < 60 {
        return String::from_str("now");
    }
    let seconds: u64 = elapsed as u64;
    let mut out = String::new();
    if seconds / 60 < 60 {
        push_decimal(&mut out, seconds / 60);
        out.append("m ago");
    } else if seconds / 3600 < 24 {
        push_decimal(&mut out, seconds / 3600);
        out.append("h ago");
    } else if seconds / 86400 < 7 {
        push_decimal(&mut out, seconds / 86400);
        out.append("d ago");
    } else if seconds / 604800 < 5 {
        push_decimal(&mut out, seconds / 604800);
        out.append("w ago");
    } else {
        push_decimal(&mut out, seconds / 86400 / 30);
        out.append("mo ago");
    }
    out
}

/// The badge at the left of the status bar.
#[derive(Debug, Clone, Copy, PartialEq, Eq, Structural)]
pub enum StatusBadge {
    Quit,
    Delete,
    Filter,
    Filtered,
    Normal,
}

/// Which badge the state calls for: a pending quit before the delete flow,
/// the delete flow before filtering, filtering before a kept filter.
pub open spec fn badge_for(
    is_filtering: bool,
    has_filter: bool,
    confirm_quit: bool,
    is_in_delete_mode: bool,
) -> StatusBadge {
    if confirm_quit {
        StatusBadge::Quit
    } else if is_in_delete_mode {
        StatusBadge::Delete
    } else if is_filtering {
        StatusBadge::Filter
    } else if has_filter {
        StatusBadge::Filtered
    } else {
        StatusBadge::Normal
    }
}

pub fn status_badge(
    is_filtering: bool,
    filter_text: &str,
    confirm_quit: bool,
    is_in_delete_mode: bool,
) -> (r: StatusBadge)
    ensures
        r == badge_for(is_filtering, filter_text@.len() > 0, confirm_quit, is_in_delete_mode),
{
    if confirm_quit {
        StatusBadge::Quit
    } else if is_in_delete_mode {
        StatusBadge::Delete
    } else if is_filtering {
        StatusBadge::Filter
    } else if !filter_text.is_empty() {
        StatusBadge::Filtered
    } else {
        StatusBadge::Normal
    }
}

impl StatusBadge {
    pub open spec fn label_text(self) -> Seq<char> {
        match self {
            StatusBadge::Quit => " QUIT "@,
            StatusBadge::Delete => " DELETE "@,
            StatusBadge::Filter => " FILTER "@,
            StatusBadge::Filtered => " FILTERED "@,
            StatusBadge::Normal => " NORMAL "@,
        }
    }

    pub open spec fn help_text(self) -> Seq<char> {
        match self {
            StatusBadge::Quit => " y/Enter:Quit  n/Esc:Cancel "@,
            StatusBadge::Delete => " y:Confirm  n/Esc:Cancel  j/k:Navigate "@,
            StatusBadge::Filter => " Type to filter  Enter:Keep  Esc:Clear "@,
            _ =>
                " q:Quit  j/k:Nav  Enter:Copy  /:Filter  d/x:Del  D:Bulk  r:Refresh  h/l:Scroll "@,
        }
    }

    /// The text of the badge.
    pub fn label(&self) -> (r: &'static str)
        ensures
            r@ == self.label_text(),
    {
        match self {
            StatusBadge::Quit => " QUIT ",
            StatusBadge::Delete => " DELETE ",
            StatusBadge::Filter => " FILTER ",
            StatusBadge::Filtered => " FILTERED ",
            StatusBadge::Normal => " NORMAL ",
        }
    }

    /// The keys that the status bar lists beside the badge.
    pub fn help(&self) -> (r: &'static str)
        ensures
            r@ == self.help_text(),
    {
        match self {
            StatusBadge::Quit => " y/Enter:Quit  n/Esc:Cancel ",
            StatusBadge::Delete => " y:Confirm  n/Esc:Cancel  j/k:Navigate ",
            StatusBadge::Filter => " Type to filter  Enter:Keep  Esc:Clear ",
            _ =>
                " q:Quit  j/k:Nav  Enter:Copy  /:Filter  d/x:Del  D:Bulk  r:Refresh  h/l:Scroll ",
        }
    }
}

/// The title of the dialog that asks whether to delete everything: it
/// counts the confirmation that is being asked for.
pub open spec fn wipe_title(confirmation_count: int) -> Seq<char> {
    " CONFIRM DELETION ("@ + decimal(confirmation_count + 1) + "/3) "@
}

pub fn delete_confirmation_title(is_all: bool, confirmation_count: u8) -> (r: String)
    ensures
        r@ == if is_all {
            wipe_title(confirmation_count as int)
        } else {
            " Confirm Deletion "@
        },
{
    if is_all {
        let mut out = String::from_str(" CONFIRM DELETION (");
        push_decimal(&mut out, confirmation_count as u64 + 1);
        out.append("/3) ");
        out
    } else {
        String::from_str(" Confirm Deletion ")
    }
}

/// Where the preview scrolls to so that it shows the first matching line:
/// unchanged while the line is in view, else a quarter of a page above the
/// line; and never past the last page.
pub open spec fn followed_scroll(
    scroll: int,
    first_match: Option<int>,
    total_lines: int,
    height: int,
) -> int {
    let target = match first_match {
        Some(line) => if line >= scroll + height || line < scroll {
            if line >= height / 4 {
                line - height / 4
            } else {
                0
            }
        } else {
            scroll
        },
        None => scroll,
    };
    let last_page = if total_lines >= height {
        total_lines - height
    } else {
        0
    };
    if target > last_page {
        last_page
    } else {
        target
    }
}

pub fn follow_preview(
    scroll: usize,
    first_match: Option<usize>,
    total_lines: usize,
    height: usize,
) -> (r: usize)
    ensures
        r == followed_scroll(
            scroll as int,
            match first_match {
                Some(line) => Some(line as int),
                None => None,
            },
            total_lines as int,
            height as int,
        ),
        r <= total_lines,
{
    let mut target: usize = scroll;
    if let Some(line) = first_match {
        let below: bool = line >= scroll && line - scroll >= height;
        if below || line < scroll {
            target = if line >= height / 4 {
                line - height / 4
            } else {
                0
            };
        }
    }
    let last_page: usize = if total_lines >= height {
        total_lines - height
    } else {
        0
    };
    if target > last_page {
        last_page
    } else {
        target
    }
}

/// What a recognised pattern in a text is.
#[derive(Debug, Clone, Copy, PartialEq, Eq, Structural)]
pub enum PatternType {
    Email,
    Url,
    Ip,
    Secret,
    Uuid,
}

/// How a piece of text is shown.
#[derive(Debug, Clone, Copy, PartialEq, Eq, Structural)]
pub enum SegmentKind {
    Plain,
    /// The piece matches the filter.
    Match,
    /// The piece is a recognised pattern.
    Pattern(PatternType),
}

/// A piece of text with the way it is shown.
#[derive(Debug)]
pub struct Segment {
    pub text: String,
    pub kind: SegmentKind,
}

/// A [`Segment`] as plain values.
pub struct SegmentView {
    pub text: Seq<char>,
    pub kind: SegmentKind,
}

impl View for Segment {
    type V = SegmentView;

    open spec fn view(&self) -> SegmentView {
        SegmentView { text: self.text@, kind: self.kind }
    }
}

pub open spec fn segment_views(segments: Seq<Segment>) -> Seq<SegmentView> {
    segments.map_values(|s: Segment| s@)
}

/// The texts of the segments, one after the other.
pub open spec fn segments_text(segments: Seq<SegmentView>) -> Seq<char>
    decreases segments.len(),
{
    if segments.len() == 0 {
        Seq::empty()
    } else {
        segments_text(segments.drop_last()) + segments.last().text
    }
}

/// A range of a text with the way it is shown: offset, length, kind.
pub type Marked = (int, int, SegmentKind);

/// The range lies in the text at or after `from`.
pub open spec fn range_fits(range: Marked, from: int, len: int) -> bool {
    from <= range.0 && 0 <= range.1 && range.0 + range.1 <= len
}

pub open spec fn as_marked(ranges: Seq<(usize, usize, SegmentKind)>) -> Seq<Marked> {
    ranges.map_values(|r: (usize, usize, SegmentKind)| (r.0 as int, r.1 as int, r.2))
}

/// The text from index `from` on, cut at the ranges: each range becomes a
/// segment of its kind, and what lies between two ranges, before the first
/// and after the last becomes a plain segment unless it is empty. A range
/// that reaches back before the end of the one before it, or beyond the
/// text, is passed over.
pub open spec fn pieces(chars: Seq<char>, ranges: Seq<Marked>, from: int) -> Seq<SegmentView>
    decreases ranges.len(),
{
    if ranges.len() == 0 {
        if from < chars.len() {
            seq![SegmentView { text: chars.subrange(from, chars.len() as int), kind: SegmentKind::Plain }]
        } else {
            Seq::empty()
        }
    } else if !range_fits(ranges[0], from, chars.len() as int) {
        pieces(chars, ranges.drop_first(), from)
    } else {
        let start = ranges[0].0;
        let end = ranges[0].0 + ranges[0].1;
        let gap = if start > from {
            seq![SegmentView { text: chars.subrange(from, start), kind: SegmentKind::Plain }]
        } else {
            Seq::empty()
        };
        gap.push(SegmentView { text: chars.subrange(start, end), kind: ranges[0].2 }) + pieces(
            chars,
            ranges.drop_first(),
            end,
        )
    }
}

/// Cutting a text into pieces loses nothing: the pieces, put together
/// again, are the text from `from` on.
pub proof fn lemma_pieces_cover(chars: Seq<char>, ranges: Seq<Marked>, from: int)
    requires
        0 <= from <= chars.len(),
    ensures
        segments_text(pieces(chars, ranges, from)) == chars.subrange(from, chars.len() as int),
    decreases ranges.len(),
{
    let n = chars.len() as int;
    if ranges.len() == 0 {
        if from < n {
            lemma_segments_text_one(
                SegmentView { text: chars.subrange(from, n), kind: SegmentKind::Plain },
            );
        } else {
            assert(chars.subrange(from, n) =~= Seq::<char>::empty());
        }
    } else if !range_fits(ranges[0], from, n) {
        lemma_pieces_cover(chars, ranges.drop_first(), from);
    } else {
        let start = ranges[0].0;
        let end = ranges[0].0 + ranges[0].1;
        lemma_pieces_cover(chars, ranges.drop_first(), end);
        let rest = pieces(chars, ranges.drop_first(), end);
        let marked = SegmentView { text: chars.subrange(start, end), kind: ranges[0].2 };
        let gap = if start > from {
            seq![SegmentView { text: chars.subrange(from, start), kind: SegmentKind::Plain }]
        } else {
            Seq::empty()
        };
        let head = gap.push(marked);
        lemma_segments_text_add(head, rest);
        if start > from {
            assert(head.drop_last() =~= gap);
            lemma_segments_text_one(
                SegmentView { text: chars.subrange(from, start), kind: SegmentKind::Plain },
            );
        } else {
            assert(head.drop_last() =~= Seq::<SegmentView>::empty());
        }
        assert(head.last() == marked);
        assert(segments_text(head) == segments_text(head.drop_last()) + marked.text);
        if start > from {
            assert(chars.subrange(from, start) + chars.subrange(start, end) =~= chars.subrange(
                from,
                end,
            ));
        } else {
            assert(segments_text(head.drop_last()) =~= Seq::<char>::empty());
            assert(Seq::<char>::empty() + marked.text =~= marked.text);
        }
        assert(segments_text(head) =~= chars.subrange(from, end));
        assert(chars.subrange(from, end) + chars.subrange(end, n) =~= chars.subrange(from, n));
    }
}

/// The text of a single segment is its text.
pub proof fn lemma_segments_text_one(segment: SegmentView)
    ensures
        segments_text(seq![segment]) == segment.text,
{
    let one = seq![segment];
    assert(one.drop_last() =~= Seq::<SegmentView>::empty());
    assert(segments_text(one.drop_last()) =~= Seq::<char>::empty());
    assert(segments_text(one) =~= segment.text);
}

/// The text of two lists of segments in a row is the text of the first
/// followed by the text of the second.
pub proof fn lemma_segments_text_add(a: Seq<SegmentView>, b: Seq<SegmentView>)
    ensures
        segments_text(a + b) == segments_text(a) + segments_text(b),
    decreases b.len(),
{
    if b.len() == 0 {
        assert(a + b =~= a);
        assert(segments_text(a) + segments_text(b) =~= segments_text(a));
    } else {
        lemma_segments_text_add(a, b.drop_last());
        assert((a + b).drop_last() =~= a + b.drop_last());
        assert((a + b).last() == b.last());
        assert(segments_text(a + b) =~= segments_text(a) + segments_text(b));
    }
}

/// Cuts `chars` at the ranges, as [`pieces`] says.
pub fn split_at_ranges(chars: &Vec<char>, ranges: &Vec<(usize, usize, SegmentKind)>) -> (r: Vec<
    Segment,
>)
    ensures
        segment_views(r@) == pieces(chars@, as_marked(ranges@), 0),
        r.len() > 0 ==> segments_text(segment_views(r@)) == chars@,
        r.len() == 0 ==> chars.len() == 0,
{
    let n: usize = chars.len();
    let mut out: Vec<Segment> = Vec::new();
    let mut from: usize = 0;
    let mut i: usize = 0;
    let ghost all = as_marked(ranges@);
    proof {
        assert(all.skip(0) =~= all);
        assert(segment_views(out@) + pieces(chars@, all, 0) =~= pieces(chars@, all, 0));
    }
    while i < ranges.len()
        invariant
            i <= ranges.len(),
            from <= n,
            n == chars.len(),
            all == as_marked(ranges@),
            from > 0 ==> out.len() > 0,
            segment_views(out@) + pieces(chars@, all.skip(i as int), from as int) == pieces(
                chars@,
                all,
                0,
            ),
        decreases ranges.len() - i,
    {
        let (start, len, kind) = ranges[i];
        let ghost before = segment_views(out@);
        let ghost rest = all.skip(i as int);
        proof {
            assert(rest[0] == (start as int, len as int, kind));
            assert(rest.drop_first() =~= all.skip(i + 1));
        }
        if from <= start && len <= n && start <= n - len {
            let end: usize = start + len;
            if start > from {
                out.push(Segment { text: string_from_chars(chars, from, start), kind: SegmentKind::Plain });
            }
            out.push(Segment { text: string_from_chars(chars, start, end), kind });
            proof {
                let gap = if start > from {
                    seq![SegmentView {
                        text: chars@.subrange(from as int, start as int),
                        kind: SegmentKind::Plain,
                    }]
                } else {
                    Seq::empty()
                };
                let head = gap.push(
                    SegmentView { text: chars@.subrange(start as int, end as int), kind },
                );
                assert(segment_views(out@) =~= before + head);
                assert(before + (head + pieces(chars@, all.skip(i + 1), end as int)) =~= (before
                    + head) + pieces(chars@, all.skip(i + 1), end as int));
            }
            from = end;
        }
        i += 1;
    }
    proof {
        assert(all.skip(ranges.len() as int) =~= Seq::<Marked>::empty());
    }
    let ghost before = segment_views(out@);
    if from < n {
        out.push(Segment { text: string_from_chars(chars, from, n), kind: SegmentKind::Plain });
        assert(segment_views(out@) =~= before + pieces(
            chars@,
            Seq::<Marked>::empty(),
            from as int,
        ));
    } else {
        assert(before + pieces(chars@, Seq::<Marked>::empty(), from as int) =~= before);
    }
    proof {
        lemma_pieces_cover(chars@, all, 0);
        assert(chars@.subrange(0, n as int) =~= chars@);
    }
    out
}

/// The ranges, each to be shown as a match.
pub fn mark_matches(ranges: &Vec<(usize, usize)>) -> (r: Vec<(usize, usize, SegmentKind)>)
    ensures
        r.len() == ranges.len(),
        forall|k: int|
            0 <= k < r.len() ==> #[trigger] r@[k] == (
                ranges@[k].0,
                ranges@[k].1,
                SegmentKind::Match,
            ),
{
    let mut out: Vec<(usize, usize, SegmentKind)> = Vec::new();
    let mut i: usize = 0;
    while i < ranges.len()
        invariant
            i <= ranges.len(),
            out.len() == i,
            forall|k: int|
                0 <= k < i ==> #[trigger] out@[k] == (
                    ranges@[k].0,
                    ranges@[k].1,
                    SegmentKind::Match,
                ),
        decreases ranges.len() - i,
    {
        let (start, len) = ranges[i];
        out.push((start, len, SegmentKind::Match));
        i += 1;
    }
    out
}

/// `starts` are the places where a scan from the left finds `query` in
/// `text`, going on behind each find: every one is an occurrence, none
/// begins before an earlier one ends, and every occurrence in the text
/// begins inside one of them.
pub open spec fn is_scan(text: Seq<char>, query: Seq<char>, starts: Seq<int>) -> bool {
    &&& forall|k: int| 0 <= k < starts.len() ==> occurs_at(text, query, #[trigger] starts[k])
    &&& forall|j: int, k: int|
        0 <= j < k < starts.len() ==> (#[trigger] starts[j]) + query.len() <= #[trigger] starts[k]
    &&& forall|i: int|
        occurs_at(text, query, i) ==> exists|k: int|
            0 <= k < starts.len() && (#[trigger] starts[k]) <= i < starts[k] + query.len()
}

pub open spec fn range_starts(ranges: Seq<(int, int)>) -> Seq<int> {
    ranges.map_values(|r: (int, int)| r.0)
}

/// The places where `query` stands in `text`, found by a scan from the left
/// that goes on behind each find, each with the length of the query. An
/// empty query is found nowhere.
pub fn find_occurrences(text: &Vec<char>, query: &Vec<char>) -> (r: Vec<(usize, usize)>)
    ensures
        query.len() == 0 ==> r.len() == 0,
        query.len() > 0 ==> is_scan(text@, query@, range_starts(as_ranges(r@))),
        forall|k: int| 0 <= k < r.len() ==> (#[trigger] r@[k]).1 == query.len(),
{
    let n: usize = text.len();
    let q: usize = query.len();
    let mut found: Vec<(usize, usize)> = Vec::new();
    if q == 0 || q > n {
        proof {
            if q > n {
                assert forall|i: int| !occurs_at(text@, query@, i) by {}
            }
        }
        return found;
    }
    let last: usize = n - q;
    let mut i: usize = 0;
    let ghost mut starts: Seq<int> = Seq::empty();
    proof {
        assert(range_starts(as_ranges(found@)) =~= starts);
    }
    while i <= last
        invariant
            q > 0,
            n == text.len(),
            q == query.len(),
            last == n - q,
            i <= n,
            starts == range_starts(as_ranges(found@)),
            forall|k: int| 0 <= k < found.len() ==> (#[trigger] found@[k]).1 == q,
            forall|k: int| 0 <= k < starts.len() ==> occurs_at(text@, query@, #[trigger] starts[k]),
            forall|k: int| 0 <= k < starts.len() ==> (#[trigger] starts[k]) + q <= i,
            forall|j: int, k: int|
                0 <= j < k < starts.len() ==> (#[trigger] starts[j]) + q <= #[trigger] starts[k],
            forall|j: int|
                0 <= j < i && occurs_at(text@, query@, j) ==> exists|k: int|
                    0 <= k < starts.len() && (#[trigger] starts[k]) <= j < starts[k] + q,
        decreases n - i,
    {
        if matches_at(text, query, i) {
            found.push((i, q));
            let ghost before = starts;
            proof {
                starts = before.push(i as int);
                assert(range_starts(as_ranges(found@)) =~= starts);
                assert forall|j: int|
                    0 <= j < i + q && occurs_at(text@, query@, j) implies exists|k: int|
                    0 <= k < starts.len() && (#[trigger] starts[k]) <= j < starts[k] + q by {
                    if j < i {
                        let k = choose|k: int|
                            0 <= k < before.len() && (#[trigger] before[k]) <= j < before[k] + q;
                        assert(starts[k] == before[k]);
                    } else {
                        assert(starts[starts.len() - 1] == i);
                    }
                }
            }
            i += q;
        } else {
            i += 1;
        }
    }
    proof {
        assert forall|j: int| occurs_at(text@, query@, j) implies exists|k: int|
            0 <= k < starts.len() && (#[trigger] starts[k]) <= j < starts[k] + q by {
            assert(j <= last);
        }
    }
    found
}

/// Where the word that begins at `i` ends: the index of the next white
/// space, or the length of the text.
pub open spec fn word_end(s: Seq<char>, i: int) -> int
    decreases s.len() - i,
{
    if 0 <= i < s.len() && !is_whitespace(s[i]) {
        word_end(s, i + 1)
    } else {
        i
    }
}

/// The words of the text from index `i` on: the pieces between white
/// space, none of them empty.
pub open spec fn words_from(s: Seq<char>, i: int) -> Seq<Seq<char>>
    decreases s.len() - i,
{
    if i < 0 || i >= s.len() {
        Seq::empty()
    } else if is_whitespace(s[i]) {
        words_from(s, i + 1)
    } else {
        let end = word_end(s, i);
        let next = if i < end <= s.len() {
            end
        } else {
            i + 1
        };
        seq![s.subrange(i, end)] + words_from(s, next)
    }
}

/// One more word on the lines that are being filled. The word opens a
/// line if none is open, and is a line of its own if it is wider than a
/// line; it joins the open line after a blank if it fits; else the open
/// line is closed and the word opens the next.
pub open spec fn wrap_step(
    lines: Seq<Seq<char>>,
    current: Seq<char>,
    word: Seq<char>,
    width: int,
) -> (Seq<Seq<char>>, Seq<char>) {
    if current.len() == 0 {
        if word.len() > width {
            (lines.push(word), current)
        } else {
            (lines, word)
        }
    } else if current.len() + 1 + word.len() <= width {
        (lines, current.push(' ') + word)
    } else {
        (lines.push(current), word)
    }
}

/// The closed lines and the open line after all the words.
pub open spec fn wrap_fold(words: Seq<Seq<char>>, width: int) -> (Seq<Seq<char>>, Seq<char>)
    decreases words.len(),
{
    if words.len() == 0 {
        (Seq::empty(), Seq::empty())
    } else {
        let state = wrap_fold(words.drop_last(), width);
        wrap_step(state.0, state.1, words.last(), width)
    }
}

/// The text broken into lines of at most `width` characters at its white
/// space. A word wider than a line stays whole. With no width, or no text,
/// the text is the one line.
pub open spec fn wrapped(text: Seq<char>, width: int) -> Seq<Seq<char>> {
    if width == 0 || text.len() == 0 {
        seq![text]
    } else {
        let state = wrap_fold(words_from(text, 0), width);
        if state.1.len() > 0 {
            state.0.push(state.1)
        } else {
            state.0
        }
    }
}

pub open spec fn line_views(lines: Seq<String>) -> Seq<Seq<char>> {
    lines.map_values(|l: String| l@)
}

pub open spec fn word_views(chars: Seq<char>, words: Seq<(usize, usize)>) -> Seq<Seq<char>> {
    words.map_values(|w: (usize, usize)| chars.subrange(w.0 as int, w.1 as int))
}

/// The words of a text, each as the indices of its start and its end.
pub fn split_words(chars: &Vec<char>) -> (r: Vec<(usize, usize)>)
    ensures
        word_views(chars@, r@) == words_from(chars@, 0),
        forall|k: int| 0 <= k < r.len() ==> (#[trigger] r@[k]).0 < r@[k].1 <= chars.len(),
{
    let n: usize = chars.len();
    let mut out: Vec<(usize, usize)> = Vec::new();
    let mut i: usize = 0;
    proof {
        assert(word_views(chars@, out@) + words_from(chars@, 0) =~= words_from(chars@, 0));
    }
    while i < n
        invariant
            i <= n,
            n == chars.len(),
            word_views(chars@, out@) + words_from(chars@, i as int) == words_from(chars@, 0),
            forall|k: int| 0 <= k < out.len() ==> (#[trigger] out@[k]).0 < out@[k].1 <= n,
        decreases n - i,
    {
        if is_whitespace_char(chars[i]) {
            i += 1;
        } else {
            let start: usize = i;
            let mut end: usize = i + 1;
            while end < n && !is_whitespace_char(chars[end])
                invariant
                    start < end <= n,
                    n == chars.len(),
                    word_end(chars@, start as int) == word_end(chars@, end as int),
                    !is_whitespace(chars@[start as int]),
                decreases n - end,
            {
                end += 1;
            }
            let ghost before = word_views(chars@, out@);
            out.push((start, end));
            proof {
                assert(word_end(chars@, end as int) == end);
                let word = chars@.subrange(start as int, end as int);
                assert(word_views(chars@, out@) =~= before.push(word));
                assert(before.push(word) + words_from(chars@, end as int) =~= before + (seq![word]
                    + words_from(chars@, end as int)));
            }
            i = end;
        }
    }
    proof {
        assert(words_from(chars@, n as int) =~= Seq::<Seq<char>>::empty());
        assert(word_views(chars@, out@) + Seq::<Seq<char>>::empty() =~= word_views(chars@, out@));
    }
    out
}

/// Breaks a text into lines of at most `width` characters.
pub fn wrap_text(text: &str, width: usize) -> (r: Vec<String>)
    ensures
        line_views(r@) == wrapped(text@, width as int),
{
    let mut lines: Vec<String> = Vec::new();
    if width == 0 || text.is_empty() {
        lines.push(text.to_owned());
        assert(line_views(lines@) =~= seq![text@]);
        return lines;
    }
    let chars = to_chars(text);
    let words = split_words(&chars);
    let mut current: Vec<char> = Vec::new();
    let ghost all = words_from(text@, 0);
    let mut i: usize = 0;
    proof {
        assert(all.take(0) =~= Seq::<Seq<char>>::empty());
        assert(line_views(lines@) =~= Seq::<Seq<char>>::empty());
    }
    while i < words.len()
        invariant
            i <= words.len(),
            chars@ == text@,
            all == word_views(chars@, words@),
            forall|k: int| 0 <= k < words.len() ==> (#[trigger] words@[k]).0 < words@[k].1
                <= chars.len(),
            (line_views(lines@), current@) == wrap_fold(all.take(i as int), width as int),
        decreases words.len() - i,
    {
        let (start, end) = words[i];
        let length: usize = end - start;
        let ghost word = chars@.subrange(start as int, end as int);
        let ghost closed = line_views(lines@);
        let ghost open = current@;
        proof {
            assert(all.take(i + 1).drop_last() =~= all.take(i as int));
            assert(all.take(i + 1).last() == word);
        }
        if current.len() == 0 {
            if length > width {
                lines.push(string_from_chars(&chars, start, end));
                assert(line_views(lines@) =~= closed.push(word));
            } else {
                current = copy_chars(&chars, start, end);
            }
        } else if current.len() <= width && length <= width - current.len() && length + 1 <= width
            - current.len() {
            current.push(' ');
            let mut k: usize = start;
            while k < end
                invariant
                    start <= k <= end,
                    end <= chars.len(),
                    current@ == open.push(' ') + chars@.subrange(start as int, k as int),
                decreases end - k,
            {
                current.push(chars[k]);
                assert(chars@.subrange(start as int, k + 1) =~= chars@.subrange(
                    start as int,
                    k as int,
                ).push(chars@[k as int]));
                assert(current@ =~= open.push(' ') + chars@.subrange(start as int, k + 1));
                k += 1;
            }
        } else {
            lines.push(string_from_chars(&current, 0, current.len()));
            proof {
                assert(open.subrange(0, open.len() as int) =~= open);
                assert(line_views(lines@) =~= closed.push(open));
            }
            current = copy_chars(&chars, start, end);
        }
        i += 1;
    }
    proof {
        assert(all.take(words.len() as int) =~= all);
    }
    if current.len() > 0 {
        let ghost closed = line_views(lines@);
        lines.push(string_from_chars(&current, 0, current.len()));
        proof {
            assert(current@.subrange(0, current.len() as int) =~= current@);
            assert(line_views(lines@) =~= closed.push(current@));
        }
    }
    lines
}

/// The characters `chars[from..to]`.
fn copy_chars(chars: &Vec<char>, from: usize, to: usize) -> (r: Vec<char>)
    requires
        from <= to <= chars.len(),
    ensures
        r@ == chars@.subrange(from as int, to as int),
{
    let mut out: Vec<char> = Vec::new();
    let mut k: usize = from;
    while k < to
        invariant
            from <= k <= to,
            to <= chars.len(),
            out@ == chars@.subrange(from as int, k as int),
        decreases to - k,
    {
        out.push(chars[k]);
        assert(chars@.subrange(from as int, k + 1) =~= chars@.subrange(from as int, k as int).push(
            chars@[k as int],
        ));
        k += 1;
    }
    out
}

/// The sign that stands for a line break in a one-line view.
pub const LINE_BREAK_SIGN: char = '\u{21b5}';

/// The sign that stands for what was cut off.
pub const ELLIPSIS: char = '\u{2026}';

/// The text on one line: every line feed becomes the line-break sign, and
/// every carriage return goes.
pub open spec fn one_line(s: Seq<char>) -> Seq<char>
    decreases s.len(),
{
    if s.len() == 0 {
        Seq::empty()
    } else if s.last() == '\n' {
        one_line(s.drop_last()).push(LINE_BREAK_SIGN)
    } else if s.last() == '\r' {
        one_line(s.drop_last())
    } else {
        one_line(s.drop_last()).push(s.last())
    }
}

/// The text cut to `max` characters: a longer text keeps its first
/// `max - 1` characters and ends in an ellipsis.
pub open spec fn truncated(s: Seq<char>, max: int) -> Seq<char> {
    if s.len() > max {
        s.take(
            if max >= 1 {
                max - 1
            } else {
                0
            },
        ).push(ELLIPSIS)
    } else {
        s
    }
}

/// The content of an entry as the list shows it: on one line, cut to the
/// width of the column.
pub fn display_line(content: &str, max_width: usize) -> (r: Vec<char>)
    ensures
        r@ == truncated(one_line(content@), max_width as int),
{
    let chars = to_chars(content);
    let mut line: Vec<char> = Vec::new();
    let mut i: usize = 0;
    proof {
        assert(chars@.take(0) =~= Seq::<char>::empty());
    }
    while i < chars.len()
        invariant
            i <= chars.len(),
            line@ == one_line(chars@.take(i as int)),
        decreases chars.len() - i,
    {
        proof {
            assert(chars@.take(i + 1).drop_last() =~= chars@.take(i as int));
            assert(chars@.take(i + 1).last() == chars@[i as int]);
        }
        let c: char = chars[i];
        if c == '\n' {
            line.push(LINE_BREAK_SIGN);
        } else if c != '\r' {
            line.push(c);
        }
        i += 1;
    }
    proof {
        assert(chars@.take(chars.len() as int) =~= chars@);
    }
    if line.len() > max_width {
        let keep: usize = if max_width >= 1 {
            max_width - 1
        } else {
            0
        };
        let mut cut = copy_chars(&line, 0, keep);
        cut.push(ELLIPSIS);
        assert(line@.subrange(0, keep as int) =~= line@.take(keep as int));
        cut
    } else {
        line
    }
}

/// The one plain segment that holds the whole text.
pub fn plain_segment(chars: &Vec<char>) -> (r: Vec<Segment>)
    ensures
        segment_views(r@) == seq![SegmentView { text: chars@, kind: SegmentKind::Plain }],
        segments_text(segment_views(r@)) == chars@,
{
    let mut out: Vec<Segment> = Vec::new();
    out.push(Segment { text: string_from_chars(chars, 0, chars.len()), kind: SegmentKind::Plain });
    proof {
        assert(chars@.subrange(0, chars.len() as int) =~= chars@);
        let one = SegmentView { text: chars@, kind: SegmentKind::Plain };
        assert(segment_views(out@) =~= seq![one]);
        lemma_segments_text_one(one);
    }
    out
}

/// The ranges of a match, each marked as a match.
pub open spec fn match_marks(m: FuzzyMatch) -> Seq<Marked> {
    m.ranges().map_values(|r: (int, int)| (r.0, r.1, SegmentKind::Match))
}

/// Folding the case keeps the number of characters of the text, so that
/// an offset in the folded text is the same offset in the text.
pub open spec fn keeps_length(text: Seq<char>) -> bool {
    lowercase(text).len() == text.len()
}

/// A row of the entry list: the content as the list shows it, in segments.
/// With a filter that matches the row, the matched ranges are marked. The
/// row is one plain segment without a filter, without a match, and where
/// folding the case changes the number of characters of the row, since the
/// ranges of a match would then not be places in the row.
pub fn entry_segments(content: &str, filter: &str, max_width: usize) -> (r: Vec<Segment>)
    ensures
        ({
            let line = truncated(one_line(content@), max_width as int);
            let plain = seq![SegmentView { text: line, kind: SegmentKind::Plain }];
            &&& filter@.len() == 0 || !keeps_length(line) ==> segment_views(r@) == plain
            &&& filter@.len() > 0 && keeps_length(line) ==> exists|m: FuzzyMatch| #[trigger]
                describes(lowercase(line), lowercase(filter@), m) && segment_views(r@) == if m.matched {
                    pieces(line, match_marks(m), 0)
                } else {
                    plain
                }
            &&& segments_text(segment_views(r@)) == line
        }),
{
    let line = display_line(content, max_width);
    if filter.is_empty() {
        return plain_segment(&line);
    }
    let shown = string_from_chars(&line, 0, line.len());
    assert(line@.subrange(0, line.len() as int) =~= line@);
    let folded = to_chars(to_lowercase(shown.as_str()).as_str());
    if folded.len() != line.len() {
        return plain_segment(&line);
    }
    let m = fuzzy_match(shown.as_str(), filter);
    if m.matched {
        let marked = mark_matches(&m.match_positions);
        let out = split_at_ranges(&line, &marked);
        proof {
            assert(as_marked(marked@) =~= match_marks(m));
            assert(describes(lowercase(line@), lowercase(filter@), m));
            if out.len() == 0 {
                assert(segments_text(segment_views(out@)) =~= Seq::<char>::empty());
                assert(line@ =~= Seq::<char>::empty());
            }
        }
        out
    } else {
        let out = plain_segment(&line);
        assert(describes(lowercase(line@), lowercase(filter@), m));
        out
    }
}

/// Whether a line of the preview holds the filter, ignoring case: the
/// preview scrolls to the first line that does.
pub fn line_matches(line: &str, filter: &str) -> (r: bool)
    ensures
        r == matches_exactly(line@, filter@),
{
    let folded_line = to_lowercase(line);
    let folded_filter = to_lowercase(filter);
    contains(folded_line.as_str(), folded_filter.as_str())
}

/// How many lines stand at the head of the preview, above the entry's text:
/// the date and an empty line. They are never searched.
pub const PREVIEW_HEADER_LINES: usize = 2;

/// Whether line `i` of the preview belongs to the entry's text and holds the
/// filter, ignoring case.
pub open spec fn holds_filter(lines: Seq<Seq<char>>, filter: Seq<char>, i: int) -> bool {
    PREVIEW_HEADER_LINES <= i < lines.len() && matches_exactly(lines[i], filter)
}

/// The line of the preview to scroll to: with a filter, the first line of
/// the entry's text that holds it; without one, or where no line holds it,
/// none. `lines` are all lines of the preview, the header included.
pub fn first_match_line(lines: &Vec<String>, filter: &str) -> (r: Option<usize>)
    ensures
        match r {
            Some(i) => filter@.len() > 0 && holds_filter(lines.deep_view(), filter@, i as int)
                && forall|j: int| 0 <= j < i ==> !holds_filter(lines.deep_view(), filter@, j),
            None => filter@.len() == 0 || forall|j: int|
                0 <= j < lines.len() ==> !holds_filter(lines.deep_view(), filter@, j),
        },
{
    if filter.is_empty() {
        return None;
    }
    let mut i: usize = PREVIEW_HEADER_LINES;
    while i < lines.len()
        invariant
            PREVIEW_HEADER_LINES <= i,
            filter@.len() > 0,
            forall|j: int| 0 <= j < i ==> !holds_filter(lines.deep_view(), filter@, j),
        decreases lines.len() - i,
    {
        assert(lines.deep_view()[i as int] == lines[i as int]@);
        if line_matches(lines[i].as_str(), filter) {
            return Some(i);
        }
        i += 1;
    }
    None
}

/// How many characters of an entry the delete dialog shows.
pub const DELETE_PREVIEW_LENGTH: usize = 100;

/// The text with the line-break sign for every line feed.
pub open spec fn breaks_shown(s: Seq<char>) -> Seq<char> {
    s.map_values(
        |c: char|
            if c == '\n' {
                LINE_BREAK_SIGN
            } else {
                c
            },
    )
}

/// What the delete dialog shows of an entry: its first hundred characters,
/// followed by three dots if there are more, with line breaks made
/// visible.
pub open spec fn delete_preview_of(content: Seq<char>) -> Seq<char> {
    if content.len() > DELETE_PREVIEW_LENGTH {
        breaks_shown(content.take(DELETE_PREVIEW_LENGTH as int)) + seq!['.', '.', '.']
    } else {
        breaks_shown(content)
    }
}

pub fn delete_preview(content: &str) -> (r: String)
    ensures
        r@ == delete_preview_of(content@),
{
    let chars = to_chars(content);
    let count: usize = if chars.len() > DELETE_PREVIEW_LENGTH {
        DELETE_PREVIEW_LENGTH
    } else {
        chars.len()
    };
    let mut out = String::new();
    let mut i: usize = 0;
    while i < count
        invariant
            i <= count <= chars.len(),
            out@ == breaks_shown(chars@.take(i as int)),
        decreases count - i,
    {
        let c: char = chars[i];
        let ghost before = out@;
        if c == '\n' {
            string_push(&mut out, LINE_BREAK_SIGN);
        } else {
            string_push(&mut out, c);
        }
        assert(out@ =~= breaks_shown(chars@.take(i + 1)));
        i += 1;
    }
    if chars.len() > DELETE_PREVIEW_LENGTH {
        string_push(&mut out, '.');
        string_push(&mut out, '.');
        string_push(&mut out, '.');
        assert(out@ =~= breaks_shown(chars@.take(count as int)) + seq!['.', '.', '.']);
    } else {
        assert(chars@.take(count as int) =~= chars@);
    }
    out
}

} // verus!
