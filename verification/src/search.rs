//! In-document search: query normalisation, match selection, result
//! previews and the highlighted segments of a text.
use vstd::prelude::*;

use crate::text::{
    char_lowercase, char_to_lowercase, chars_of, find_from, occurs_at,
    seq_contains, str_lowercase, str_to_lowercase, string_from_chars, trim, trim_spec,
};

use crate::parser::{MarkdownDocument, blocks_view, matches_view, search_matches_spec};

verus! {

broadcast use vstd::string::group_string_axioms;

/// Most characters a result preview shows before it is cut off.
pub const MAX_PREVIEW_CHARS: usize = 72;

/// A block of the document that contains the query, with a short preview.
#[derive(Clone)]
pub struct SearchMatch {
    pub block_index: usize,
    pub preview: String,
}

impl View for SearchMatch {
    type V = (int, Seq<char>);

    open spec fn view(&self) -> (int, Seq<char>) {
        (self.block_index as int, self.preview@)
    }
}

/// The search box's query, its matches and the selected match.
pub struct SearchState {
    pub query: String,
    pub matches: Vec<SearchMatch>,
    pub active_index: Option<usize>,
    pub focus_input: bool,
}

/// A piece of a text, marked as a match of the query or not.
pub struct HighlightSegment<'a> {
    pub text: &'a str,
    pub is_match: bool,
    pub is_active_match: bool,
}

/// How many segments, and how many of them matches, a highlight walk gave.
#[derive(Clone, Copy, Debug, Default, Eq, PartialEq)]
pub struct HighlightWalkSummary {
    pub segment_count: usize,
    pub match_count: usize,
}

/// The block index of match `i` of `matches`, if there is such a match.
pub open spec fn block_of(matches: Seq<SearchMatch>, i: Option<usize>) -> Option<usize> {
    match i {
        Some(k) => if k < matches.len() {
            Some(matches[k as int].block_index)
        } else {
            None
        },
        None => None,
    }
}

/// The match that `select_next` moves to.
pub open spec fn next_index(active: Option<usize>, n: nat) -> int {
    match active {
        Some(k) => (k + 1) % (n as int),
        None => 0,
    }
}

/// The match that `select_previous` moves to.
pub open spec fn previous_index(active: Option<usize>, n: nat) -> int {
    match active {
        Some(k) => if k == 0 {
            n - 1
        } else {
            k - 1
        },
        None => n - 1,
    }
}

/// The query with surrounding white space removed and lowercased, unless
/// nothing is left after trimming.
pub open spec fn normalized_query_spec(q: Seq<char>) -> Option<Seq<char>> {
    if trim_spec(q).len() == 0 {
        None
    } else {
        Some(str_lowercase(trim_spec(q)))
    }
}

/// The preview of a text: trimmed, and cut after `MAX_PREVIEW_CHARS`
/// characters with "..." added when it was longer.
pub open spec fn preview_spec(text: Seq<char>) -> Seq<char> {
    let t = trim_spec(text);
    if t.len() <= MAX_PREVIEW_CHARS {
        t
    } else {
        t.take(MAX_PREVIEW_CHARS as int) + seq!['.', '.', '.']
    }
}

impl SearchState {
    /// An empty search.
    pub fn new() -> (r: Self)
        ensures
            r.query@ == Seq::<char>::empty(),
            r.matches@.len() == 0,
            r.active_index is None,
            !r.focus_input,
    {
        Self { query: String::new(), matches: Vec::new(), active_index: None, focus_input: false }
    }

    /// Forgets the query and its matches.
    pub fn clear(&mut self)
        ensures
            final(self).query@ == Seq::<char>::empty(),
            final(self).matches@.len() == 0,
            final(self).active_index is None,
            final(self).focus_input == old(self).focus_input,
    {
        self.query = String::new();
        self.matches.clear();
        self.active_index = None;
    }

    /// Forgets the matches but keeps the query.
    pub fn clear_matches(&mut self)
        ensures
            final(self).query == old(self).query,
            final(self).matches@.len() == 0,
            final(self).active_index is None,
            final(self).focus_input == old(self).focus_input,
    {
        self.matches.clear();
        self.active_index = None;
    }

    /// Selects match `index` and gives its block, or leaves the state as it
    /// is and gives `None` when there is no such match.
    pub fn select_match(&mut self, index: usize) -> (r: Option<usize>)
        ensures
            final(self).query == old(self).query,
            final(self).matches == old(self).matches,
            final(self).focus_input == old(self).focus_input,
            index < old(self).matches@.len() ==> final(self).active_index == Some(index) && r
                == Some(old(self).matches@[index as int].block_index),
            index >= old(self).matches@.len() ==> final(self).active_index
                == old(self).active_index && r is None,
    {
        if index < self.matches.len() {
            let block_index = self.matches[index].block_index;
            self.active_index = Some(index);
            Some(block_index)
        } else {
            None
        }
    }

    /// Moves to the next match, wrapping around after the last one.
    pub fn select_next(&mut self) -> (r: Option<usize>)
        ensures
            final(self).query == old(self).query,
            final(self).matches == old(self).matches,
            final(self).focus_input == old(self).focus_input,
            old(self).matches@.len() == 0 ==> r is None && final(self).active_index
                == old(self).active_index,
            old(self).matches@.len() > 0 ==> {
                let k = next_index(old(self).active_index, old(self).matches@.len());
                &&& final(self).active_index == Some(k as usize)
                &&& r == Some(old(self).matches@[k].block_index)
            },
    {
        if self.matches.len() == 0 {
            return None;
        }
        let next = match self.active_index {
            Some(index) => (index as u128 + 1) % (self.matches.len() as u128),
            None => 0,
        };
        assert(next < self.matches.len());
        self.select_match(next as usize)
    }

    /// Moves to the previous match, wrapping around before the first one.
    pub fn select_previous(&mut self) -> (r: Option<usize>)
        ensures
            final(self).query == old(self).query,
            final(self).matches == old(self).matches,
            final(self).focus_input == old(self).focus_input,
            old(self).matches@.len() == 0 ==> r is None && final(self).active_index
                == old(self).active_index,
            old(self).matches@.len() > 0 ==> {
                let k = previous_index(old(self).active_index, old(self).matches@.len());
                &&& (k < old(self).matches@.len() ==> final(self).active_index == Some(k as usize)
                    && r == Some(old(self).matches@[k].block_index))
                &&& (k >= old(self).matches@.len() ==> final(self).active_index
                    == old(self).active_index && r is None)
            },
    {
        if self.matches.len() == 0 {
            return None;
        }
        let previous = match self.active_index {
            Some(0) | None => self.matches.len() - 1,
            Some(index) => index - 1,
        };
        self.select_match(previous)
    }

    /// Whether the query has any match.
    pub fn has_matches(&self) -> (r: bool)
        ensures
            r == (self.matches@.len() > 0),
    {
        self.matches.len() != 0
    }

    /// The block of the selected match.
    pub fn active_block(&self) -> (r: Option<usize>)
        ensures
            r == block_of(self.matches@, self.active_index),
    {
        match self.active_index {
            Some(index) => if index < self.matches.len() {
                Some(self.matches[index].block_index)
            } else {
                None
            },
            None => None,
        }
    }

    /// The trimmed query, unless it is blank.
    pub fn active_query(&self) -> (r: Option<&str>)
        ensures
            trim_spec(self.query@).len() == 0 ==> r is None,
            trim_spec(self.query@).len() > 0 ==> r is Some && r->0@ == trim_spec(self.query@),
    {
        let trimmed = trim(self.query.as_str());
        if trimmed.is_empty() {
            None
        } else {
            Some(trimmed)
        }
    }
}

/// Stepping forward and then back returns to the match one started from,
/// for every valid selection in a non-empty list of matches.
pub proof fn law_next_then_previous(active: Option<usize>, n: nat)
    requires
        n > 0,
        n <= usize::MAX,
        active matches Some(k) ==> k < n,
    ensures
        active matches Some(k) ==> previous_index(Some(next_index(active, n) as usize), n) == k,
{
    if let Some(k) = active {
        if k + 1 < n {
            assert((k + 1) % (n as int) == k + 1) by (nonlinear_arith)
                requires
                    0 <= k + 1 < n,
            ;
        } else {
            assert((k + 1) % (n as int) == 0) by (nonlinear_arith)
                requires
                    k + 1 == n,
                    n > 0,
            ;
        }
    }
}

/// Stepping back and then forward returns to the match one started from.
pub proof fn law_previous_then_next(active: Option<usize>, n: nat)
    requires
        n > 0,
        n <= usize::MAX,
        active matches Some(k) ==> k < n,
    ensures
        active matches Some(k) ==> next_index(Some(previous_index(active, n) as usize), n) == k,
{
    if let Some(k) = active {
        let p = previous_index(active, n);
        if k == 0 {
            assert(p == n - 1);
            assert((p + 1) % (n as int) == 0) by (nonlinear_arith)
                requires
                    p + 1 == n,
                    n > 0,
            ;
        } else {
            assert((p + 1) % (n as int) == k) by (nonlinear_arith)
                requires
                    p + 1 == k,
                    0 < k < n,
            ;
        }
    }
}

/// The trimmed and lowercased query, or `None` when it is blank.
pub fn normalized_query(query: &str) -> (r: Option<String>)
    ensures
        r matches Some(s) ==> normalized_query_spec(query@) == Some(s@),
        r is None ==> normalized_query_spec(query@) is None,
{
    let trimmed = trim(query);
    if trimmed.is_empty() {
        None
    } else {
        Some(str_to_lowercase(trimmed))
    }
}

/// Whether the lowercased text contains an already normalized query.
pub fn contains_normalized_query(text: &str, normalized_query: &str) -> (r: bool)
    ensures
        r == seq_contains(str_lowercase(text@), normalized_query@),
{
    let lowered = str_to_lowercase(text);
    crate::text::str_contains(lowered.as_str(), normalized_query)
}

/// A short single-line preview of a search result.
pub fn preview_text(text: &str) -> (r: String)
    ensures
        r@ == preview_spec(text@),
{
    let trimmed = trim(text);
    let chars = chars_of(trimmed);
    if chars.len() <= MAX_PREVIEW_CHARS {
        return string_from_chars(chars.as_slice());
    }
    let mut preview: Vec<char> = Vec::new();
    let mut i: usize = 0;
    while i < MAX_PREVIEW_CHARS
        invariant
            chars@ == trim_spec(text@),
            chars@.len() > MAX_PREVIEW_CHARS,
            i <= MAX_PREVIEW_CHARS,
            preview@ == chars@.take(i as int),
        decreases MAX_PREVIEW_CHARS - i,
    {
        preview.push(chars[i]);
        assert(chars@.take(i + 1) =~= chars@.take(i as int).push(chars@[i as int]));
        i = i + 1;
    }
    preview.push('.');
    preview.push('.');
    preview.push('.');
    assert(preview@ =~= chars@.take(MAX_PREVIEW_CHARS as int) + seq!['.', '.', '.']);
    string_from_chars(preview.as_slice())
}

/// Whether `text` contains the query after both are normalised; a blank or
/// missing query matches nothing.
pub fn text_matches_query(text: &str, search_query: Option<&str>) -> (r: bool)
    ensures
        r == match search_query {
            Some(q) => match normalized_query_spec(q@) {
                Some(nq) => seq_contains(str_lowercase(text@), nq),
                None => false,
            },
            None => false,
        },
{
    match search_query {
        Some(q) => match normalized_query(q) {
            Some(nq) => contains_normalized_query(text, nq.as_str()),
            None => false,
        },
        None => false,
    }
}


// ---------------------------------------------------------------------------
// Highlighting the matches of a query inside a text
// ---------------------------------------------------------------------------
/// The text with every character replaced by its lowercase mapping.
pub open spec fn fold(t: Seq<char>) -> Seq<char>
    decreases t.len(),
{
    if t.len() == 0 {
        Seq::<char>::empty()
    } else {
        fold(t.drop_last()) + char_lowercase(t.last())
    }
}

/// Where the mapping of character `i` starts in the folded text.
pub open spec fn fold_start(t: Seq<char>, i: int) -> int {
    fold(t.take(i)).len() as int
}

/// Where the mapping of character `i` ends in the folded text.
pub open spec fn fold_end(t: Seq<char>, i: int) -> int {
    fold(t.take(i + 1)).len() as int
}

/// The character of `t` whose lowercase mapping holds position `m` of the
/// folded text.
pub open spec fn covering_char(t: Seq<char>, m: int) -> int {
    choose|i: int| 0 <= i < t.len() && #[trigger] fold_start(t, i) <= m < fold_end(t, i)
}

/// The first position at or after `from` where `pat` occurs in `text`.
pub open spec fn first_occurrence(text: Seq<char>, pat: Seq<char>, from: int) -> Option<int>
    decreases text.len() + 1 - from,
{
    if from < 0 || from > text.len() {
        None
    } else if occurs_at(text, pat, from) {
        Some(from)
    } else {
        first_occurrence(text, pat, from + 1)
    }
}

/// A segment of a text as character bounds `(start, end)`, whether it is a
/// match and whether it is marked as the active match.
pub type SegmentSpec = (int, int, bool, bool);

/// The unmatched rest of the text from `cur`, if any is left.
pub open spec fn tail_segment(t: Seq<char>, cur: int) -> Seq<SegmentSpec> {
    if cur < t.len() {
        seq![(cur, t.len() as int, false, false)]
    } else {
        Seq::empty()
    }
}

/// The segments produced from source position `cur` on, searching the folded
/// text from `search` on: each match of `q` in the folded text is widened to
/// the source characters it touches, and the text between matches is kept
/// as unmatched segments.
pub open spec fn highlight_walk(t: Seq<char>, q: Seq<char>, active: bool, cur: int, search: int) -> Seq<
    SegmentSpec,
>
    decreases fold(t).len() + 1 - search,
{
    if q.len() == 0 || search < 0 || search > fold(t).len() {
        tail_segment(t, cur)
    } else {
        match first_occurrence(fold(t), q, search) {
            Some(m) => {
                proof {
                    lemma_first_occurrence(fold(t), q, search);
                }
                let a = covering_char(t, m);
                let b = covering_char(t, m + q.len() - 1) + 1;
                let before = if cur < a {
                    seq![(cur, a, false, false)]
                } else {
                    Seq::<SegmentSpec>::empty()
                };
                before + seq![(a, b, true, active)] + highlight_walk(t, q, active, b, m + q.len())
            },
            None => tail_segment(t, cur),
        }
    }
}

/// All segments of `t` for an already normalized query `q`; a walk that
/// produced nothing becomes one unmatched segment holding the whole text.
pub open spec fn segments_for_normalized(t: Seq<char>, q: Seq<char>, active: bool) -> Seq<
    SegmentSpec,
> {
    let w = highlight_walk(t, q, active, 0, 0);
    if q.len() == 0 || w.len() == 0 {
        seq![(0, t.len() as int, false, false)]
    } else {
        w
    }
}

/// The segments of `t` for an optional raw query.
pub open spec fn highlight_segments_spec(t: Seq<char>, query: Option<Seq<char>>, active: bool) -> Seq<
    SegmentSpec,
> {
    match query {
        Some(q) => match normalized_query_spec(q) {
            Some(nq) => segments_for_normalized(t, nq, active),
            None => seq![(0, t.len() as int, false, false)],
        },
        None => seq![(0, t.len() as int, false, false)],
    }
}

/// How many of the segments are matches.
pub open spec fn count_matches(segs: Seq<SegmentSpec>) -> nat
    decreases segs.len(),
{
    if segs.len() == 0 {
        0
    } else {
        count_matches(segs.drop_last()) + if segs.last().2 {
            1nat
        } else {
            0nat
        }
    }
}

/// The segments found, each paired with its place in the text.
pub open spec fn segments_agree(t: Seq<char>, segs: Seq<HighlightSegment>, spec: Seq<SegmentSpec>) -> bool {
    &&& segs.len() == spec.len()
    &&& forall|i: int| 0 <= i < segs.len() ==> segment_agrees(t, #[trigger] segs[i], spec[i])
}

/// One segment holds the characters `[s.0, s.1)` of `t` and the flags of `s`.
pub open spec fn segment_agrees(t: Seq<char>, seg: HighlightSegment, s: SegmentSpec) -> bool {
    &&& 0 <= s.0
    &&& s.0 <= s.1
    &&& s.1 <= t.len()
    &&& seg.text@ == t.subrange(s.0, s.1)
    &&& seg.is_match == s.2
    &&& seg.is_active_match == s.3
}

pub proof fn lemma_first_occurrence(text: Seq<char>, pat: Seq<char>, from: int)
    ensures
        first_occurrence(text, pat, from) matches Some(m) ==> from <= m && occurs_at(text, pat, m),
    decreases text.len() + 1 - from,
{
    if from < 0 || from > text.len() {
    } else if occurs_at(text, pat, from) {
    } else {
        lemma_first_occurrence(text, pat, from + 1);
    }
}

pub proof fn lemma_first_occurrence_found(text: Seq<char>, pat: Seq<char>, from: int, m: int)
    requires
        0 <= from <= m,
        occurs_at(text, pat, m),
        forall|j: int| from <= j < m ==> !occurs_at(text, pat, j),
    ensures
        first_occurrence(text, pat, from) == Some(m),
    decreases m - from,
{
    if from < m {
        lemma_first_occurrence_found(text, pat, from + 1, m);
    }
}

pub proof fn lemma_first_occurrence_none(text: Seq<char>, pat: Seq<char>, from: int)
    requires
        0 <= from,
        forall|j: int| from <= j ==> !occurs_at(text, pat, j),
    ensures
        first_occurrence(text, pat, from) is None,
    decreases text.len() + 1 - from,
{
    if from <= text.len() {
        lemma_first_occurrence_none(text, pat, from + 1);
    }
}

pub proof fn lemma_fold_step(t: Seq<char>, i: int)
    requires
        0 <= i < t.len(),
    ensures
        fold(t.take(i + 1)) == fold(t.take(i)) + char_lowercase(t[i]),
        fold_end(t, i) == fold_start(t, i + 1),
{
    assert(t.take(i + 1).drop_last() =~= t.take(i));
}

proof fn lemma_fold_monotone(t: Seq<char>, i: int, j: int)
    requires
        0 <= i <= j <= t.len(),
    ensures
        fold_start(t, i) <= fold_start(t, j),
    decreases j - i,
{
    if i < j {
        lemma_fold_monotone(t, i, j - 1);
        lemma_fold_step(t, j - 1);
    }
}

proof fn lemma_fold_full(t: Seq<char>)
    ensures
        fold_start(t, t.len() as int) == fold(t).len(),
        fold_start(t, 0) == 0,
{
    assert(t.take(t.len() as int) =~= t);
    assert(t.take(0) =~= Seq::<char>::empty());
}

proof fn lemma_covering_exists(t: Seq<char>, n: int, m: int)
    requires
        0 <= n <= t.len(),
        0 <= m < fold_start(t, n),
    ensures
        exists|i: int| 0 <= i < n && #[trigger] fold_start(t, i) <= m < fold_end(t, i),
    decreases n,
{
    lemma_fold_full(t);
    if n > 0 {
        lemma_fold_step(t, n - 1);
        if m >= fold_start(t, n - 1) {
            assert(fold_start(t, n - 1) <= m < fold_end(t, n - 1));
        } else {
            lemma_covering_exists(t, n - 1, m);
        }
    }
}

proof fn lemma_covering_unique(t: Seq<char>, i: int, j: int, m: int)
    requires
        0 <= i < t.len(),
        0 <= j < t.len(),
        fold_start(t, i) <= m < fold_end(t, i),
        fold_start(t, j) <= m < fold_end(t, j),
    ensures
        i == j,
{
    if i < j {
        lemma_fold_step(t, i);
        lemma_fold_monotone(t, i + 1, j);
    } else if j < i {
        lemma_fold_step(t, j);
        lemma_fold_monotone(t, j + 1, i);
    }
}

proof fn lemma_covering_char(t: Seq<char>, m: int)
    requires
        0 <= m < fold(t).len(),
    ensures
        0 <= covering_char(t, m) < t.len(),
        fold_start(t, covering_char(t, m)) <= m < fold_end(t, covering_char(t, m)),
        forall|i: int|
            0 <= i < t.len() && #[trigger] fold_start(t, i) <= m < fold_end(t, i) ==> i
                == covering_char(t, m),
{
    lemma_fold_full(t);
    lemma_covering_exists(t, t.len() as int, m);
    let c = covering_char(t, m);
    assert forall|i: int|
        0 <= i < t.len() && #[trigger] fold_start(t, i) <= m < fold_end(t, i) implies i == c by {
        lemma_covering_unique(t, i, c, m);
    }
}

/// The segments run through the text `[0, n)` without a gap: each lies in
/// the text, the first starts at 0, the last ends at `n`, and each starts
/// no later than the one before it ends and ends no earlier.
pub open spec fn segments_cover(segs: Seq<SegmentSpec>, n: int) -> bool {
    &&& segs.len() > 0
    &&& segs[0].0 == 0
    &&& segs.last().1 == n
    &&& forall|i: int| 0 <= i < segs.len() ==> 0 <= (#[trigger] segs[i]).0 <= segs[i].1 <= n
    &&& forall|i: int|
        0 <= i < segs.len() - 1 ==> (#[trigger] segs[i + 1]).0 <= segs[i].1 <= segs[i + 1].1
}

/// Position `p` lies in one of the segments.
pub open spec fn position_covered(segs: Seq<SegmentSpec>, p: int) -> bool {
    exists|i: int| 0 <= i < segs.len() && (#[trigger] segs[i]).0 <= p < segs[i].1
}

/// The segments from source position `cur` on run to `n` without a gap.
spec fn walk_chain(segs: Seq<SegmentSpec>, cur: int, n: int) -> bool {
    &&& segs.len() == 0 ==> cur >= n
    &&& segs.len() > 0 ==> segs[0].0 <= cur <= segs[0].1 && segs.last().1 == n
    &&& forall|i: int| 0 <= i < segs.len() ==> 0 <= (#[trigger] segs[i]).0 <= segs[i].1 <= n
    &&& forall|i: int|
        0 <= i < segs.len() - 1 ==> (#[trigger] segs[i + 1]).0 <= segs[i].1 <= segs[i + 1].1
}

proof fn lemma_walk_chain(t: Seq<char>, q: Seq<char>, active: bool, cur: int, search: int)
    requires
        0 <= cur <= t.len(),
        search == 0 ==> cur == 0,
        search > 0 ==> search <= fold(t).len() && cur == covering_char(t, search - 1) + 1,
    ensures
        walk_chain(highlight_walk(t, q, active, cur, search), cur, t.len() as int),
    decreases fold(t).len() + 1 - search,
{
    let n = t.len() as int;
    if q.len() == 0 || search < 0 || search > fold(t).len() {
    } else {
        match first_occurrence(fold(t), q, search) {
            Some(m) => {
                lemma_first_occurrence(fold(t), q, search);
                lemma_covering_char(t, m);
                lemma_covering_char(t, m + q.len() - 1);
                lemma_covering_monotone(t, m, m + q.len() - 1);
                if search > 0 {
                    lemma_covering_monotone(t, search - 1, m + q.len() - 1);
                }
                let a = covering_char(t, m);
                let b = covering_char(t, m + q.len() - 1) + 1;
                lemma_walk_chain(t, q, active, b, m + q.len());
                let rest = highlight_walk(t, q, active, b, m + q.len());
                let before = if cur < a {
                    seq![(cur, a, false, false)]
                } else {
                    Seq::<SegmentSpec>::empty()
                };
                let mid = seq![(a, b, true, active)] + rest;
                let start = if cur < a {
                    a
                } else {
                    cur
                };
                assert(walk_chain(mid, start, n)) by {
                    assert(mid[0] == (a, b, true, active));
                    assert forall|i: int| 0 <= i < mid.len() - 1 implies (#[trigger] mid[i + 1]).0
                        <= mid[i].1 <= mid[i + 1].1 by {
                        if i > 0 {
                            assert(mid[i] == rest[i - 1]);
                            assert(mid[i + 1] == rest[(i - 1) + 1]);
                            assert(rest[(i - 1) + 1].0 <= rest[i - 1].1 <= rest[(i - 1) + 1].1);
                        } else {
                            assert(mid[1] == rest[0]);
                        }
                    }
                    assert forall|i: int| 0 <= i < mid.len() implies 0 <= (#[trigger] mid[i]).0
                        <= mid[i].1 <= n by {
                        if i > 0 {
                            assert(mid[i] == rest[i - 1]);
                        }
                    }
                    if rest.len() > 0 {
                        assert(mid.last() == rest.last());
                    }
                }
                let all = before + mid;
                assert(all == highlight_walk(t, q, active, cur, search));
                if cur < a {
                    assert(walk_chain(all, cur, n)) by {
                        assert forall|i: int| 0 <= i < all.len() - 1 implies (#[trigger] all[i
                            + 1]).0 <= all[i].1 <= all[i + 1].1 by {
                            if i > 0 {
                                assert(all[i] == mid[i - 1]);
                                assert(all[i + 1] == mid[(i - 1) + 1]);
                                assert(mid[(i - 1) + 1].0 <= mid[i - 1].1 <= mid[(i - 1) + 1].1);
                            } else {
                                assert(all[1] == mid[0]);
                            }
                        }
                        assert forall|i: int| 0 <= i < all.len() implies 0 <= (#[trigger] all[
                            i]).0 <= all[i].1 <= n by {
                            if i > 0 {
                                assert(all[i] == mid[i - 1]);
                            }
                        }
                        assert(all.last() == mid.last());
                    }
                } else {
                    assert(all =~= mid);
                }
            },
            None => {},
        }
    }
}

/// Every position of the text below the end of segment `k` lies in one of
/// the first `k + 1` segments.
proof fn lemma_cover_prefix(segs: Seq<SegmentSpec>, n: int, k: int, p: int)
    requires
        segments_cover(segs, n),
        0 <= k < segs.len(),
        0 <= p < segs[k].1,
    ensures
        exists|i: int| 0 <= i <= k && (#[trigger] segs[i]).0 <= p < segs[i].1,
    decreases k,
{
    if k == 0 {
        assert(segs[0].0 <= p < segs[0].1);
    } else if p < segs[k - 1].1 {
        lemma_cover_prefix(segs, n, k - 1, p);
        let i = choose|i: int| 0 <= i <= k - 1 && (#[trigger] segs[i]).0 <= p < segs[i].1;
        assert(0 <= i <= k && segs[i].0 <= p < segs[i].1);
    } else {
        assert(segs[(k - 1) + 1].0 <= segs[k - 1].1);
        assert(segs[k].0 <= p < segs[k].1);
    }
}

/// Highlighting loses none of the text: the segments run in order from the
/// start of the text to its end, each starting no later than the one before
/// it ends, so that every character lies in some segment. (They need not
/// be disjoint: a match that starts inside the lowercase mapping of a
/// character that the previous match ended in shows that character again.)
pub proof fn law_highlight_covers_text(t: Seq<char>, query: Option<Seq<char>>, active: bool)
    ensures
        segments_cover(highlight_segments_spec(t, query, active), t.len() as int),
        forall|p: int|
            0 <= p < t.len() ==> #[trigger] position_covered(
                highlight_segments_spec(t, query, active),
                p,
            ),
{
    let n = t.len() as int;
    let segs = highlight_segments_spec(t, query, active);
    let whole: Seq<SegmentSpec> = seq![(0, n, false, false)];
    assert(segments_cover(whole, n)) by {
        assert(whole.last() == whole[0]);
    }
    if let Some(q) = query {
        if let Some(nq) = normalized_query_spec(q) {
            let w = highlight_walk(t, nq, active, 0, 0);
            if !(nq.len() == 0 || w.len() == 0) {
                lemma_walk_chain(t, nq, active, 0, 0);
                assert(segments_cover(w, n));
            }
        }
    }
    assert(segments_cover(segs, n));
    assert forall|p: int| 0 <= p < t.len() implies #[trigger] position_covered(segs, p) by {
        lemma_cover_prefix(segs, n, segs.len() - 1, p);
    }
}

/// Where one character's lowercase mapping sits in the folded text, and
/// which source character it came from.
#[derive(Clone, Copy)]
struct SourceRange {
    folded_start: usize,
    folded_end: usize,
    source_start: usize,
    source_end: usize,
}

/// The folded text of `t` and, for every character, its `SourceRange`.
fn folded_text_with_source_ranges(t: &Vec<char>) -> (r: (Vec<char>, Vec<SourceRange>))
    ensures
        r.0@ == fold(t@),
        r.1@.len() == t@.len(),
        forall|i: int|
            #![trigger r.1@[i]]
            0 <= i < t@.len() ==> {
                &&& r.1@[i].folded_start == fold_start(t@, i)
                &&& r.1@[i].folded_end == fold_end(t@, i)
                &&& r.1@[i].source_start == i
                &&& r.1@[i].source_end == i + 1
            },
{
    let mut folded: Vec<char> = Vec::new();
    let mut ranges: Vec<SourceRange> = Vec::new();
    let mut i: usize = 0;
    assert(t@.take(0) =~= Seq::<char>::empty());
    while i < t.len()
        invariant
            i <= t@.len(),
            folded@ == fold(t@.take(i as int)),
            ranges@.len() == i,
            forall|k: int|
                #![trigger ranges@[k]]
                0 <= k < i ==> {
                    &&& ranges@[k].folded_start == fold_start(t@, k)
                    &&& ranges@[k].folded_end == fold_end(t@, k)
                    &&& ranges@[k].source_start == k
                    &&& ranges@[k].source_end == k + 1
                },
        decreases t.len() - i,
    {
        proof {
            lemma_fold_step(t@, i as int);
        }
        let folded_start = folded.len();
        let lower = char_to_lowercase(t[i]);
        let mut k: usize = 0;
        let ghost before = folded@;
        while k < lower.len()
            invariant
                k <= lower@.len(),
                folded@ == before + lower@.take(k as int),
            decreases lower.len() - k,
        {
            assert(lower@.take(k + 1) =~= lower@.take(k as int).push(lower@[k as int]));
            folded.push(lower[k]);
            k = k + 1;
        }
        assert(lower@.take(k as int) =~= lower@);
        ranges.push(
            SourceRange {
                folded_start,
                folded_end: folded.len(),
                source_start: i,
                source_end: i + 1,
            },
        );
        i = i + 1;
    }
    assert(t@.take(i as int) =~= t@);
    (folded, ranges)
}

/// The source characters touched by the folded match `[start, end)`.
fn source_range_for_folded_match(
    ranges: &Vec<SourceRange>,
    folded_match_start: usize,
    folded_match_end: usize,
    Ghost(t): Ghost<Seq<char>>,
) -> (r: Option<(usize, usize)>)
    requires
        ranges@.len() == t.len(),
        forall|i: int|
            #![trigger ranges@[i]]
            0 <= i < t.len() ==> {
                &&& ranges@[i].folded_start == fold_start(t, i)
                &&& ranges@[i].folded_end == fold_end(t, i)
                &&& ranges@[i].source_start == i
                &&& ranges@[i].source_end == i + 1
            },
        folded_match_start < folded_match_end <= fold(t).len(),
    ensures
        r matches Some((s, e)) && s as int == covering_char(t, folded_match_start as int) && e as int
            == covering_char(t, folded_match_end - 1) + 1,
{
    proof {
        lemma_covering_char(t, folded_match_start as int);
        lemma_covering_char(t, folded_match_end - 1);
    }
    let mut start: Option<usize> = None;
    let mut i: usize = 0;
    while i < ranges.len()
        invariant
            ranges@.len() == t.len(),
            i <= ranges@.len(),
            forall|k: int|
                #![trigger ranges@[k]]
                0 <= k < t.len() ==> {
                    &&& ranges@[k].folded_start == fold_start(t, k)
                    &&& ranges@[k].folded_end == fold_end(t, k)
                    &&& ranges@[k].source_start == k
                },
            0 <= covering_char(t, folded_match_start as int) < t.len(),
            fold_start(t, covering_char(t, folded_match_start as int)) <= folded_match_start
                < fold_end(t, covering_char(t, folded_match_start as int)),
            start is None ==> i <= covering_char(t, folded_match_start as int),
            start matches Some(s) ==> s as int == covering_char(t, folded_match_start as int),
            forall|k: int|
                0 <= k < t.len() && #[trigger] fold_start(t, k) <= folded_match_start < fold_end(t, k) ==> k
                    == covering_char(t, folded_match_start as int),
        ensures
            start is Some,
            start->0 as int == covering_char(t, folded_match_start as int),
        decreases ranges.len() - i,
    {
        let range = ranges[i];
        if range.folded_start <= folded_match_start && folded_match_start < range.folded_end {
            start = Some(range.source_start);
            break;
        }
        i = i + 1;
    }
    let mut end: Option<usize> = None;
    let mut j: usize = 0;
    while j < ranges.len()
        invariant
            start is Some,
            start->0 as int == covering_char(t, folded_match_start as int),
            ranges@.len() == t.len(),
            j <= ranges@.len(),
            forall|k: int|
                #![trigger ranges@[k]]
                0 <= k < t.len() ==> {
                    &&& ranges@[k].folded_start == fold_start(t, k)
                    &&& ranges@[k].folded_end == fold_end(t, k)
                    &&& ranges@[k].source_end == k + 1
                },
            0 <= covering_char(t, folded_match_end - 1) < t.len(),
            fold_start(t, covering_char(t, folded_match_end - 1)) <= folded_match_end - 1
                < fold_end(t, covering_char(t, folded_match_end - 1)),
            end is None ==> j <= covering_char(t, folded_match_end - 1),
            end matches Some(e) ==> e as int == covering_char(t, folded_match_end - 1) + 1,
            forall|k: int|
                0 <= k < t.len() && #[trigger] fold_start(t, k) <= folded_match_end - 1 < fold_end(t, k) ==> k
                    == covering_char(t, folded_match_end - 1),
        ensures
            start is Some,
            start->0 as int == covering_char(t, folded_match_start as int),
            end is Some,
            end->0 as int == covering_char(t, folded_match_end - 1) + 1,
        decreases ranges.len() - j,
    {
        let range = ranges[j];
        if range.folded_start < folded_match_end && folded_match_end <= range.folded_end {
            end = Some(range.source_end);
            break;
        }
        j = j + 1;
    }
    match (start, end) {
        (Some(s), Some(e)) => Some((s, e)),
        _ => None,
    }
}


proof fn lemma_covering_monotone(t: Seq<char>, m1: int, m2: int)
    requires
        0 <= m1 <= m2 < fold(t).len(),
    ensures
        covering_char(t, m1) <= covering_char(t, m2),
{
    lemma_covering_char(t, m1);
    lemma_covering_char(t, m2);
    let c1 = covering_char(t, m1);
    let c2 = covering_char(t, m2);
    if c2 < c1 {
        lemma_fold_step(t, c2);
        lemma_fold_monotone(t, c2 + 1, c1);
    }
}

proof fn lemma_agree_push(
    t: Seq<char>,
    segs: Seq<HighlightSegment>,
    spec: Seq<SegmentSpec>,
    seg: HighlightSegment,
    sp: SegmentSpec,
)
    requires
        segments_agree(t, segs, spec),
        0 <= sp.0 <= sp.1 <= t.len(),
        seg.text@ == t.subrange(sp.0, sp.1),
        seg.is_match == sp.2,
        seg.is_active_match == sp.3,
    ensures
        segments_agree(t, segs.push(seg), spec.push(sp)),
{
    let s2 = segs.push(seg);
    let p2 = spec.push(sp);
    assert forall|i: int| 0 <= i < s2.len() implies segment_agrees(t, #[trigger] s2[i], p2[i]) by {
        if i < segs.len() {
            assert(s2[i] == segs[i]);
            assert(p2[i] == spec[i]);
        } else {
            assert(s2[i] == seg);
            assert(p2[i] == sp);
        }
    }
    assert(s2.len() == p2.len());
}

/// An unmatched segment holding the whole text.
fn whole_text_segment<'a>(text: &'a str) -> (r: HighlightSegment<'a>)
    ensures
        r.text@ == text@,
        !r.is_match,
        !r.is_active_match,
{
    HighlightSegment { text, is_match: false, is_active_match: false }
}

/// The segments of `text` for a query that is already trimmed and lowercased.
fn for_each_segment_with_normalized_query<'a>(
    text: &'a str,
    normalized_query: &str,
    is_active_match: bool,
) -> (r: (Vec<HighlightSegment<'a>>, HighlightWalkSummary))
    ensures
        segments_agree(
            text@,
            r.0@,
            segments_for_normalized(text@, normalized_query@, is_active_match),
        ),
        r.1.segment_count == r.0@.len(),
        r.1.match_count == count_matches(
            segments_for_normalized(text@, normalized_query@, is_active_match),
        ),
{
    let q = chars_of(normalized_query);
    let ghost whole: Seq<SegmentSpec> = seq![(0, text@.len() as int, false, false)];
    if q.len() == 0 {
        let mut segs = Vec::new();
        segs.push(whole_text_segment(text));
        assert(text@.subrange(0, text@.len() as int) =~= text@);
        assert(count_matches(whole) == 0) by {
            assert(whole.drop_last() =~= Seq::<SegmentSpec>::empty());
            assert(count_matches(Seq::<SegmentSpec>::empty()) == 0);
        }
        return (segs, HighlightWalkSummary { segment_count: 1, match_count: 0 });
    }
    let t = chars_of(text);
    let (folded, ranges) = folded_text_with_source_ranges(&t);
    let ghost tq = t@;
    let folded_len = folded.len();
    let ghost full = highlight_walk(tq, q@, is_active_match, 0, 0);
    let mut segs: Vec<HighlightSegment<'a>> = Vec::new();
    let ghost mut done: Seq<SegmentSpec> = Seq::empty();
    let mut match_count: usize = 0;
    let mut current: usize = 0;
    let mut search: usize = 0;
    proof {
        lemma_fold_full(tq);
    }
    loop
        invariant_except_break
            done + highlight_walk(tq, q@, is_active_match, current as int, search as int) == full,
        invariant
            t@ == text@,
            tq == t@,
            q@ == normalized_query@,
            q@.len() > 0,
            folded@ == fold(tq),
            folded_len == folded@.len(),
            ranges@.len() == tq.len(),
            forall|i: int|
                #![trigger ranges@[i]]
                0 <= i < tq.len() ==> {
                    &&& ranges@[i].folded_start == fold_start(tq, i)
                    &&& ranges@[i].folded_end == fold_end(tq, i)
                    &&& ranges@[i].source_start == i
                    &&& ranges@[i].source_end == i + 1
                },
            current <= tq.len(),
            search <= folded@.len(),
            full == highlight_walk(tq, q@, is_active_match, 0, 0),
            segments_agree(tq, segs@, done),
            match_count == count_matches(done),
            match_count <= segs@.len(),
        ensures
            done == full,
        decreases folded@.len() + 1 - search,
    {
        let found = find_from(&folded, &q, search);
        match found {
            None => {
                proof {
                    lemma_first_occurrence_none(folded@, q@, search as int);
                }
                if current < t.len() {
                    let piece = text.substring_char(current, t.len());
                    let ghost old_done = done;
                    let ghost old_segs = segs@;
                    let seg = HighlightSegment { text: piece, is_match: false, is_active_match: false };
                    segs.push(seg);
                    proof {
                        lemma_agree_push(tq, old_segs, done, seg, (current as int, tq.len() as int, false, false));
                        done = done.push((current as int, tq.len() as int, false, false));
                        assert(count_matches(done) == count_matches(old_done)) by {
                            assert(done.drop_last() =~= old_done);
                        }
                        assert(done.drop_last() =~= old_done);
                        assert(done =~= old_done + tail_segment(tq, current as int));
                    }
                } else {
                    assert(done + tail_segment(tq, current as int) =~= done);
                }
                assert(done == full);
                break;
            },
            Some(m) => {
                proof {
                    lemma_first_occurrence_found(folded@, q@, search as int, m as int);
                    lemma_first_occurrence(folded@, q@, search as int);
                }
                assert(m + q@.len() <= folded@.len());
                let e = m + q.len();
                proof {
                    lemma_covering_monotone(tq, m as int, e - 1);
                    lemma_covering_char(tq, m as int);
                    lemma_covering_char(tq, e - 1);
                }
                let range = source_range_for_folded_match(&ranges, m, e, Ghost(tq));
                let (a, b) = match range {
                    Some(pair) => pair,
                    None => {
                        assert(false);
                        (0, 0)
                    },
                };
                let ghost old_done = done;
                let ghost rest = highlight_walk(tq, q@, is_active_match, b as int, e as int);
                assert(a as int == covering_char(tq, m as int));
                assert(b as int == covering_char(tq, m + q@.len() - 1) + 1);
                assert(first_occurrence(fold(tq), q@, search as int) == Some(m as int));
                assert(e as int == m + q@.len());
                assert(highlight_walk(tq, q@, is_active_match, current as int, search as int) == (
                if current < a {
                    seq![(current as int, a as int, false, false)]
                } else {
                    Seq::<SegmentSpec>::empty()
                }) + seq![(a as int, b as int, true, is_active_match)] + rest);
                if current < a {
                    let piece = text.substring_char(current, a);
                    let ghost old_segs = segs@;
                    let seg = HighlightSegment { text: piece, is_match: false, is_active_match: false };
                    segs.push(seg);
                    proof {
                        let d0 = done;
                        lemma_agree_push(tq, old_segs, done, seg, (current as int, a as int, false, false));
                        done = done.push((current as int, a as int, false, false));
                        assert(done.drop_last() =~= d0);
                        assert(count_matches(done) == count_matches(d0));
                    }
                }
                let ghost mid = done;
                let piece = text.substring_char(a, b);
                let ghost old_segs = segs@;
                let seg = HighlightSegment { text: piece, is_match: true, is_active_match };
                segs.push(seg);
                proof {
                    lemma_agree_push(tq, old_segs, done, seg, (a as int, b as int, true, is_active_match));
                }
                let pushed = segs.len();
                assert(match_count < pushed);
                match_count = match_count + 1;
                proof {
                    done = done.push((a as int, b as int, true, is_active_match));
                    assert(done.drop_last() =~= mid);
                    assert(count_matches(done) == count_matches(mid) + 1);
                    if current < a {
                        assert(done =~= old_done + seq![(current as int, a as int, false, false)]
                            + seq![(a as int, b as int, true, is_active_match)]);
                    } else {
                        assert(done =~= old_done + Seq::<SegmentSpec>::empty() + seq![
                            (a as int, b as int, true, is_active_match),
                        ]);
                    }
                    assert(done + rest =~= old_done + highlight_walk(
                        tq,
                        q@,
                        is_active_match,
                        current as int,
                        search as int,
                    ));
                }
                current = b;
                search = e;
            },
        }
    }
    assert(done == full);
    if segs.len() == 0 {
        segs.push(whole_text_segment(text));
        assert(text@.subrange(0, text@.len() as int) =~= text@);
        assert(count_matches(whole) == 0) by {
            assert(whole.drop_last() =~= Seq::<SegmentSpec>::empty());
            assert(count_matches(Seq::<SegmentSpec>::empty()) == 0);
        }
        return (segs, HighlightWalkSummary { segment_count: 1, match_count: 0 });
    }
    let n = segs.len();
    (segs, HighlightWalkSummary { segment_count: n, match_count })
}

/// The optional query, viewed as characters.
pub open spec fn opt_str_view(q: Option<&str>) -> Option<Seq<char>> {
    match q {
        Some(s) => Some(s@),
        None => None,
    }
}

/// Splits `text` into matched and unmatched segments for the search query,
/// and says how many segments and matches there are.
pub fn highlighted_segments<'a>(
    text: &'a str,
    search_query: Option<&str>,
    is_active_match: bool,
) -> (r: (Vec<HighlightSegment<'a>>, HighlightWalkSummary))
    ensures
        segments_agree(
            text@,
            r.0@,
            highlight_segments_spec(text@, opt_str_view(search_query), is_active_match),
        ),
        r.1.segment_count == r.0@.len(),
        r.1.match_count == count_matches(
            highlight_segments_spec(text@, opt_str_view(search_query), is_active_match),
        ),
{
    let ghost whole: Seq<SegmentSpec> = seq![(0, text@.len() as int, false, false)];
    let query = match search_query {
        Some(q) => normalized_query(q),
        None => None,
    };
    match query {
        Some(q) => for_each_segment_with_normalized_query(text, q.as_str(), is_active_match),
        None => {
            let mut segs = Vec::new();
            segs.push(whole_text_segment(text));
            assert(text@.subrange(0, text@.len() as int) =~= text@);
            assert(count_matches(whole) == 0) by {
                assert(whole.drop_last() =~= Seq::<SegmentSpec>::empty());
                assert(count_matches(Seq::<SegmentSpec>::empty()) == 0);
            }
            (segs, HighlightWalkSummary { segment_count: 1, match_count: 0 })
        },
    }
}

/// The segments of `text` for the search query, in order.
pub fn split_highlighted_segments<'a>(
    text: &'a str,
    search_query: Option<&str>,
    is_active_match: bool,
) -> (r: Vec<HighlightSegment<'a>>)
    ensures
        segments_agree(
            text@,
            r@,
            highlight_segments_spec(text@, opt_str_view(search_query), is_active_match),
        ),
{
    highlighted_segments(text, search_query, is_active_match).0
}


/// Hands each highlighted segment of `text`, in order, to `visit`, and says
/// how many segments and matches there were.
pub fn for_each_highlighted_segment<'a, F>(
    text: &'a str,
    search_query: Option<&str>,
    is_active_match: bool,
    mut visit: F,
) -> (r: HighlightWalkSummary) where F: FnMut(HighlightSegment<'a>)
    requires
        forall|seg: HighlightSegment<'a>| call_requires(visit, (seg,)),
    ensures
        r.segment_count == highlight_segments_spec(text@, opt_str_view(search_query), is_active_match).len(),
        r.match_count == count_matches(
            highlight_segments_spec(text@, opt_str_view(search_query), is_active_match),
        ),
{
    let (segs, summary) = highlighted_segments(text, search_query, is_active_match);
    let mut segs = segs;
    while segs.len() > 0
        invariant
            forall|seg: HighlightSegment<'a>| call_requires(visit, (seg,)),
        decreases segs.len(),
    {
        let seg = segs.remove(0);
        visit(seg);
    }
    summary
}


/// The characters of `t` each replaced by its lowercase mapping.
pub fn fold_chars(t: &Vec<char>) -> (r: Vec<char>)
    ensures
        r@ == fold(t@),
{
    folded_text_with_source_ranges(t).0
}


/// The first match from `i` on that lies in block `b`.
pub open spec fn position_of_block(ms: Seq<(int, Seq<char>)>, b: int, i: int) -> Option<int>
    decreases ms.len() - i,
{
    if i < 0 || i >= ms.len() {
        None
    } else if ms[i].0 == b {
        Some(i)
    } else {
        position_of_block(ms, b, i + 1)
    }
}

/// The selection after the matches were recomputed: the match in the block
/// that was selected before, else the first match, else none.
pub open spec fn reselect(previous_block: Option<usize>, ms: Seq<(int, Seq<char>)>) -> Option<int> {
    match previous_block {
        Some(b) => match position_of_block(ms, b as int, 0) {
            Some(k) => Some(k),
            None => if ms.len() > 0 {
                Some(0)
            } else {
                None
            },
        },
        None => if ms.len() > 0 {
            Some(0)
        } else {
            None
        },
    }
}

/// The first match that lies in block `block_index`.
fn find_block_position(found: &Vec<SearchMatch>, block_index: usize) -> (r: Option<usize>)
    ensures
        match r {
            Some(k) => position_of_block(matches_view(found@), block_index as int, 0) == Some(k as int),
            None => position_of_block(matches_view(found@), block_index as int, 0) is None,
        },
{
    let ghost ms = matches_view(found@);
    let mut i: usize = 0;
    while i < found.len()
        invariant
            i <= found@.len(),
            ms == matches_view(found@),
            ms.len() == found@.len(),
            position_of_block(ms, block_index as int, i as int) == position_of_block(
                ms,
                block_index as int,
                0,
            ),
        decreases found.len() - i,
    {
        assert(ms[i as int] == found@[i as int]@);
        if found[i].block_index == block_index {
            return Some(i);
        }
        i = i + 1;
    }
    None
}

/// `after` is `before` with its matches recomputed in `document`: the same
/// query, the matches of that query, and the selection moved to the match in
/// the block that was selected before, else to the first match.
pub open spec fn search_refreshed(before: SearchState, after: SearchState, document: MarkdownDocument) -> bool {
    let ms = search_matches_spec(blocks_view(document.blocks@), before.query@);
    &&& after.query == before.query
    &&& after.focus_input == before.focus_input
    &&& matches_view(after.matches@) == ms
    &&& match reselect(block_of(before.matches@, before.active_index), ms) {
        Some(k) => after.active_index == Some(k as usize),
        None => after.active_index is None,
    }
}

impl SearchState {
    /// Recomputes the matches of the query in `document`, keeping the
    /// selected block selected when it still matches; without a document
    /// the matches are cleared.
    pub fn refresh_matches(&mut self, document: Option<&MarkdownDocument>)
        ensures
            final(self).query == old(self).query,
            final(self).focus_input == old(self).focus_input,
            document is None ==> final(self).matches@.len() == 0 && final(self).active_index is None,
            document matches Some(doc) ==> search_refreshed(*old(self), *final(self), *doc),
    {
        let document = match document {
            Some(d) => d,
            None => {
                self.clear_matches();
                return;
            },
        };
        let previous_block = self.active_block();
        let found = document.search_matches(self.query.as_str());
        let ghost ms = matches_view(found@);
        let mut index: Option<usize> = match previous_block {
            Some(block_index) => find_block_position(&found, block_index),
            None => None,
        };
        if index.is_none() && found.len() > 0 {
            index = Some(0);
        }
        self.matches = found;
        self.active_index = index;
    }
}

} // verus!
