//! Case-insensitive search over lines, wrap-around navigation between
//! matches, and highlighting of matches inside styled lines.

use vstd::prelude::*;

use crate::style::{
    lemma_pieces_text_append, lemma_pieces_text_single, lemma_spans_text_view, pieces_text, span_view, spans_text,
    spans_view, Color, Line, Modifier, Span, Style,
};
use crate::text::{
    ascii_lower, ascii_upper, chars_of, contains_exec, is_ascii_text, contains_seq, find_from, next_occurrence, occurs_at, spec_lowercase,
    string_of, to_lowercase, utf8_width,
};

verus! {

/// Whether a line matches a query: the lowercased query occurs in the lowercased line.
pub open spec fn line_matches(line: Seq<char>, query: Seq<char>) -> bool {
    contains_seq(spec_lowercase(line), spec_lowercase(query))
}

/// Whether the indices in `s` strictly increase.
pub open spec fn strictly_sorted(s: Seq<usize>) -> bool {
    forall|i: int, j: int| 0 <= i < j < s.len() ==> s[i] < s[j]
}

/// The indices of the lines of `lines` that match `query`, in increasing order;
/// none for an empty query.
pub open spec fn spec_search_lines(lines: Seq<Seq<char>>, query: Seq<char>) -> Seq<usize>
    decreases lines.len(),
{
    if query.len() == 0 || lines.len() == 0 {
        Seq::empty()
    } else {
        let prev = spec_search_lines(lines.drop_last(), query);
        if line_matches(lines.last(), query) {
            prev.push((lines.len() - 1) as usize)
        } else {
            prev
        }
    }
}

/// The views of a slice of strings.
pub open spec fn strings_view(v: Seq<String>) -> Seq<Seq<char>> {
    v.map_values(|s: String| s@)
}

proof fn lemma_search_lines_facts(lines: Seq<Seq<char>>, query: Seq<char>)
    requires
        lines.len() <= usize::MAX,
    ensures
        strictly_sorted(spec_search_lines(lines, query)),
        forall|k: int|
            0 <= k < spec_search_lines(lines, query).len() ==> spec_search_lines(lines, query)[k]
                < lines.len(),
    decreases lines.len(),
{
    if query.len() != 0 && lines.len() != 0 {
        lemma_search_lines_facts(lines.drop_last(), query);
        let prev = spec_search_lines(lines.drop_last(), query);
        if line_matches(lines.last(), query) {
            let r = prev.push((lines.len() - 1) as usize);
            assert forall|i: int, j: int| 0 <= i < j < r.len() implies r[i] < r[j] by {
                if j == r.len() - 1 {
                    assert(prev[i] < lines.len() - 1);
                } else {
                    assert(r[i] == prev[i] && r[j] == prev[j]);
                }
            }
        }
    }
}

/// Whether an ASCII line matches an ASCII query: the query, with its letters
/// in lowercase, occurs in the line with its letters in lowercase.
pub open spec fn ascii_line_matches(line: Seq<char>, query: Seq<char>) -> bool {
    contains_seq(ascii_lower(line), ascii_lower(query))
}

proof fn lemma_lower_of_upper(q: Seq<char>)
    ensures
        ascii_lower(ascii_upper(q)) == ascii_lower(q),
        ascii_lower(ascii_lower(q)) == ascii_lower(q),
{
    assert(ascii_lower(ascii_upper(q)) =~= ascii_lower(q));
    assert(ascii_lower(ascii_lower(q)) =~= ascii_lower(q));
}

/// The case of a query does not matter: on ASCII text a query matches the
/// same lines written in capitals, in small letters, or as it is, and any two
/// queries that differ only in the case of their letters match the same lines.
pub proof fn law_query_case_does_not_matter(line: Seq<char>, q1: Seq<char>, q2: Seq<char>)
    requires
        ascii_lower(q1) == ascii_lower(q2),
    ensures
        ascii_line_matches(line, q1) == ascii_line_matches(line, q2),
        ascii_line_matches(line, ascii_upper(q1)) == ascii_line_matches(line, q1),
        ascii_line_matches(line, ascii_lower(q1)) == ascii_line_matches(line, q1),
{
    lemma_lower_of_upper(q1);
}

/// Find all line indices in `raw_lines` that contain `query` (case-insensitive).
pub fn search_lines(raw_lines: &[String], query: &str) -> (r: Vec<usize>)
    ensures
        forall|i: int|
            0 <= i < raw_lines@.len() && is_ascii_text(query@) && is_ascii_text(raw_lines@[i]@) ==> (
            r@.contains(i as usize) <==> (query@.len() > 0 && ascii_line_matches(raw_lines@[i]@, query@))),
        r@ == spec_search_lines(strings_view(raw_lines@), query@),
        strictly_sorted(r@),
        forall|k: int| 0 <= k < r@.len() ==> r@[k] < raw_lines@.len(),
        query@.len() == 0 ==> r@.len() == 0,
        forall|i: int|
            0 <= i < raw_lines@.len() ==> (r@.contains(i as usize) <==> (query@.len() > 0
                && line_matches(raw_lines@[i]@, query@))),
{
    let ghost lines = strings_view(raw_lines@);
    proof {
        assert(raw_lines@.len() == raw_lines.len());
        assert forall|i: int| 0 <= i < raw_lines@.len() implies lines[i] == raw_lines@[i]@ by {}
        lemma_search_lines_facts(lines, query@);
    }
    let mut out: Vec<usize> = Vec::new();
    let query_chars = chars_of(query);
    if query_chars.len() == 0 {
        proof {
            lemma_search_membership(lines, query@);
        }
        return out;
    }
    let q = to_lowercase(query);
    let qv = chars_of(q.as_str());
    let mut i: usize = 0;
    while i < raw_lines.len()
        invariant
            i <= raw_lines@.len(),
            lines == strings_view(raw_lines@),
            query@.len() > 0,
            qv@ == spec_lowercase(query@),
            is_ascii_text(query@) ==> qv@ == ascii_lower(query@),
            forall|j: int|
                0 <= j < i && is_ascii_text(#[trigger] lines[j]) ==> spec_lowercase(lines[j]) == ascii_lower(lines[j]),
            out@ == spec_search_lines(lines.subrange(0, i as int), query@),
        decreases raw_lines.len() - i,
    {
        let lower = to_lowercase(raw_lines[i].as_str());
        assert(lines[i as int] == raw_lines@[i as int]@);
        let lv = chars_of(lower.as_str());
        let m = contains_exec(&lv, &qv);
        proof {
            let sub = lines.subrange(0, i + 1);
            assert(sub.drop_last() =~= lines.subrange(0, i as int));
            assert(sub.last() == raw_lines@[i as int]@);
        }
        if m {
            out.push(i);
        }
        i = i + 1;
    }
    proof {
        assert(lines.subrange(0, raw_lines@.len() as int) =~= lines);
        assert(raw_lines@.len() == raw_lines.len());
        assert forall|i: int| 0 <= i < raw_lines@.len() implies lines[i] == raw_lines@[i]@ by {}
        lemma_search_membership(lines, query@);
        assert forall|i: int| 0 <= i < raw_lines@.len() implies (out@.contains(i as usize) <==> (
        query@.len() > 0 && line_matches(raw_lines@[i]@, query@))) by {
            assert(lines[i] == raw_lines@[i]@);
        }
        assert forall|i: int|
            0 <= i < raw_lines@.len() && is_ascii_text(query@) && is_ascii_text(raw_lines@[i]@) implies (
        out@.contains(i as usize) <==> (query@.len() > 0 && ascii_line_matches(raw_lines@[i]@, query@))) by {
            assert(lines[i] == raw_lines@[i]@);
        }
    }
    out
}

proof fn lemma_search_membership(lines: Seq<Seq<char>>, query: Seq<char>)
    requires
        lines.len() <= usize::MAX,
    ensures
        forall|i: int|
            0 <= i < lines.len() ==> (spec_search_lines(lines, query).contains(i as usize) <==> (
            query.len() > 0 && line_matches(lines[i], query))),
    decreases lines.len(),
{
    if query.len() != 0 && lines.len() != 0 {
        let prev = lines.drop_last();
        lemma_search_membership(prev, query);
        lemma_search_lines_facts(prev, query);
        let r = spec_search_lines(lines, query);
        let pr = spec_search_lines(prev, query);
        assert forall|i: int| 0 <= i < lines.len() implies (r.contains(i as usize) <==> (
        query.len() > 0 && line_matches(lines[i], query))) by {
            if i < lines.len() - 1 {
                assert(lines[i] == prev[i]);
                if r.contains(i as usize) {
                    let k = choose|k: int| 0 <= k < r.len() && r[k] == i as usize;
                    if k < pr.len() {
                        assert(pr[k] == r[k]);
                    }
                }
                if pr.contains(i as usize) {
                    let k = choose|k: int| 0 <= k < pr.len() && pr[k] == i as usize;
                    assert(r[k] == pr[k]);
                }
            } else {
                if r.contains(i as usize) {
                    let k = choose|k: int| 0 <= k < r.len() && r[k] == i as usize;
                    if k < pr.len() {
                        assert(pr[k] < prev.len());
                    }
                }
                if line_matches(lines[i], query) {
                    assert(r[pr.len() as int] == i as usize);
                }
            }
        }
    }
}

// ---------------------------------------------------------------------------
// Navigation between matches
// ---------------------------------------------------------------------------

/// Number of leading elements of `s` that are at most `cur`.
pub open spec fn count_at_most(s: Seq<usize>, cur: usize) -> nat
    decreases s.len(),
{
    if s.len() == 0 {
        0
    } else if s[0] > cur {
        0
    } else {
        1 + count_at_most(s.drop_first(), cur)
    }
}

/// Number of leading elements of `s` that are below `cur`.
pub open spec fn count_below(s: Seq<usize>, cur: usize) -> nat
    decreases s.len(),
{
    if s.len() == 0 {
        0
    } else if s[0] >= cur {
        0
    } else {
        1 + count_below(s.drop_first(), cur)
    }
}

/// The match after `cur`: the first element above `cur`, or the first element
/// when none is above it; nothing for an empty list.
pub open spec fn spec_next_match(results: Seq<usize>, cur: usize) -> Option<usize> {
    if results.len() == 0 {
        None
    } else if count_at_most(results, cur) < results.len() {
        Some(results[count_at_most(results, cur) as int])
    } else {
        Some(results[0])
    }
}

/// The match before `cur`: the last element below `cur`, or the last element
/// when none is below it; nothing for an empty list.
pub open spec fn spec_prev_match(results: Seq<usize>, cur: usize) -> Option<usize> {
    if results.len() == 0 {
        None
    } else if count_below(results, cur) > 0 {
        Some(results[count_below(results, cur) - 1])
    } else {
        Some(results[results.len() - 1])
    }
}

proof fn lemma_count_at_most(s: Seq<usize>, cur: usize)
    requires
        strictly_sorted(s),
    ensures
        count_at_most(s, cur) <= s.len(),
        forall|j: int| 0 <= j < count_at_most(s, cur) ==> s[j] <= cur,
        forall|j: int| count_at_most(s, cur) <= j < s.len() ==> s[j] > cur,
    decreases s.len(),
{
    if s.len() > 0 {
        lemma_count_at_most(s.drop_first(), cur);
        assert forall|j: int| count_at_most(s, cur) <= j < s.len() implies s[j] > cur by {
            if s[0] > cur {
                if j > 0 {
                    assert(s[0] < s[j]);
                }
            } else {
                assert(s.drop_first()[j - 1] == s[j]);
            }
        }
        assert forall|j: int| 0 <= j < count_at_most(s, cur) implies s[j] <= cur by {
            if j > 0 {
                assert(s.drop_first()[j - 1] == s[j]);
            }
        }
    }
}

proof fn lemma_count_below(s: Seq<usize>, cur: usize)
    requires
        strictly_sorted(s),
    ensures
        count_below(s, cur) <= s.len(),
        forall|j: int| 0 <= j < count_below(s, cur) ==> s[j] < cur,
        forall|j: int| count_below(s, cur) <= j < s.len() ==> s[j] >= cur,
    decreases s.len(),
{
    if s.len() > 0 {
        lemma_count_below(s.drop_first(), cur);
        assert forall|j: int| count_below(s, cur) <= j < s.len() implies s[j] >= cur by {
            if s[0] >= cur {
                if j > 0 {
                    assert(s[0] < s[j]);
                }
            } else {
                assert(s.drop_first()[j - 1] == s[j]);
            }
        }
        assert forall|j: int| 0 <= j < count_below(s, cur) implies s[j] < cur by {
            if j > 0 {
                assert(s.drop_first()[j - 1] == s[j]);
            }
        }
    }
}

/// A count fixed by where the elements of a sorted list stop being at most `cur`.
proof fn lemma_count_at_most_unique(s: Seq<usize>, cur: usize, k: int)
    requires
        strictly_sorted(s),
        0 <= k <= s.len(),
        forall|j: int| 0 <= j < k ==> s[j] <= cur,
        forall|j: int| k <= j < s.len() ==> s[j] > cur,
    ensures
        count_at_most(s, cur) == k,
{
    lemma_count_at_most(s, cur);
    let c = count_at_most(s, cur) as int;
    if c < k {
        assert(s[c] <= cur);
    } else if c > k {
        assert(s[k] > cur);
    }
}

proof fn lemma_count_below_unique(s: Seq<usize>, cur: usize, k: int)
    requires
        strictly_sorted(s),
        0 <= k <= s.len(),
        forall|j: int| 0 <= j < k ==> s[j] < cur,
        forall|j: int| k <= j < s.len() ==> s[j] >= cur,
    ensures
        count_below(s, cur) == k,
{
    lemma_count_below(s, cur);
    let c = count_below(s, cur) as int;
    if c < k {
        assert(s[c] < cur);
    } else if c > k {
        assert(s[k] >= cur);
    }
}

/// The count of leading elements at most `cur` is where the first element
/// above `cur` stands, in any list.
proof fn lemma_count_at_most_stop(s: Seq<usize>, cur: usize, k: int)
    requires
        0 <= k <= s.len(),
        forall|j: int| 0 <= j < k ==> s[j] <= cur,
        k < s.len() ==> s[k] > cur,
    ensures
        count_at_most(s, cur) == k,
    decreases k,
{
    if k > 0 {
        assert forall|j: int| 0 <= j < k - 1 implies s.drop_first()[j] <= cur by {
            assert(s.drop_first()[j] == s[j + 1]);
        }
        if k - 1 < s.len() - 1 {
            assert(s.drop_first()[k - 1] == s[k]);
        }
        lemma_count_at_most_stop(s.drop_first(), cur, k - 1);
    }
}

/// The count of leading elements below `cur` is where the first element not
/// below `cur` stands, in any list.
proof fn lemma_count_below_stop(s: Seq<usize>, cur: usize, k: int)
    requires
        0 <= k <= s.len(),
        forall|j: int| 0 <= j < k ==> s[j] < cur,
        k < s.len() ==> s[k] >= cur,
    ensures
        count_below(s, cur) == k,
    decreases k,
{
    if k > 0 {
        assert forall|j: int| 0 <= j < k - 1 implies s.drop_first()[j] < cur by {
            assert(s.drop_first()[j] == s[j + 1]);
        }
        if k - 1 < s.len() - 1 {
            assert(s.drop_first()[k - 1] == s[k]);
        }
        lemma_count_below_stop(s.drop_first(), cur, k - 1);
    }
}

/// Find the next match after `current` in a sorted `results` list, wrapping around.
///
/// On any list it gives the first element above `current` when every element
/// before it is at most `current`, else the first element: always one of the
/// list's elements, and nothing only for an empty list.
pub fn find_next_match(results: &[usize], current: Option<usize>) -> (r: Option<usize>)
    ensures
        r == spec_next_match(results@, current.unwrap_or(0)),
        r is Some <==> results@.len() > 0,
        r matches Some(x) ==> results@.contains(x),
{
    if results.len() == 0 {
        return None;
    }
    let cur = match current {
        Some(c) => c,
        None => 0,
    };
    let mut i: usize = 0;
    while i < results.len() && results[i] <= cur
        invariant
            i <= results@.len(),
            forall|j: int| 0 <= j < i ==> results@[j] <= cur,
        decreases results.len() - i,
    {
        i = i + 1;
    }
    proof {
        lemma_count_at_most_stop(results@, cur, i as int);
    }
    if i < results.len() {
        assert(results@.contains(results@[i as int]));
        Some(results[i])
    } else {
        assert(results@.contains(results@[0]));
        Some(results[0])
    }
}

/// Find the previous match before `current` in a sorted `results` list, wrapping around.
///
/// On any list it gives the element before the first one not below
/// `current`, else the last element: always one of the list's elements, and
/// nothing only for an empty list.
pub fn find_prev_match(results: &[usize], current: Option<usize>) -> (r: Option<usize>)
    ensures
        r == spec_prev_match(results@, current.unwrap_or(0)),
        r is Some <==> results@.len() > 0,
        r matches Some(x) ==> results@.contains(x),
{
    if results.len() == 0 {
        return None;
    }
    let cur = match current {
        Some(c) => c,
        None => 0,
    };
    let mut i: usize = 0;
    while i < results.len() && results[i] < cur
        invariant
            i <= results@.len(),
            forall|j: int| 0 <= j < i ==> results@[j] < cur,
        decreases results.len() - i,
    {
        i = i + 1;
    }
    proof {
        lemma_count_below_stop(results@, cur, i as int);
    }
    if i > 0 {
        assert(results@.contains(results@[i - 1]));
        Some(results[i - 1])
    } else {
        assert(results@.contains(results@[results@.len() - 1]));
        Some(results[results.len() - 1])
    }
}

/// Going to the next match and then to the previous one comes back to where
/// one started, from any match of a sorted list.
pub proof fn law_prev_undoes_next(results: Seq<usize>, k: int)
    requires
        strictly_sorted(results),
        0 <= k < results.len(),
    ensures
        spec_next_match(results, results[k]) matches Some(n) && spec_prev_match(results, n)
            == Some(results[k]),
{
    let x = results[k];
    assert forall|j: int| 0 <= j < k + 1 implies results[j] <= x by {
        if j < k {
            assert(results[j] < results[k]);
        }
    }
    assert forall|j: int| k + 1 <= j < results.len() implies results[j] > x by {
        assert(results[k] < results[j]);
    }
    lemma_count_at_most_unique(results, x, k + 1);
    if k + 1 < results.len() {
        let n = results[k + 1];
        assert forall|j: int| 0 <= j < k + 1 implies results[j] < n by {
            assert(results[j] < results[k + 1]);
        }
        assert forall|j: int| k + 1 <= j < results.len() implies results[j] >= n by {
            if j > k + 1 {
                assert(results[k + 1] < results[j]);
            }
        }
        lemma_count_below_unique(results, n, k + 1);
    } else {
        let n = results[0];
        assert forall|j: int| 0 <= j < results.len() implies results[j] >= n by {
            if j > 0 {
                assert(results[0] < results[j]);
            }
        }
        lemma_count_below_unique(results, n, 0);
    }
}

/// Going to the previous match and then to the next one comes back to where
/// one started, from any match of a sorted list.
pub proof fn law_next_undoes_prev(results: Seq<usize>, k: int)
    requires
        strictly_sorted(results),
        0 <= k < results.len(),
    ensures
        spec_prev_match(results, results[k]) matches Some(p) && spec_next_match(results, p)
            == Some(results[k]),
{
    let x = results[k];
    assert forall|j: int| 0 <= j < k implies results[j] < x by {
        assert(results[j] < results[k]);
    }
    assert forall|j: int| k <= j < results.len() implies results[j] >= x by {
        if j > k {
            assert(results[k] < results[j]);
        }
    }
    lemma_count_below_unique(results, x, k);
    if k > 0 {
        let p = results[k - 1];
        assert forall|j: int| 0 <= j < k implies results[j] <= p by {
            if j < k - 1 {
                assert(results[j] < results[k - 1]);
            }
        }
        assert forall|j: int| k <= j < results.len() implies results[j] > p by {
            assert(results[k - 1] < results[j]);
        }
        lemma_count_at_most_unique(results, p, k);
    } else {
        let last = results.len() - 1;
        let p = results[last];
        assert forall|j: int| 0 <= j < results.len() implies results[j] <= p by {
            if j < last {
                assert(results[j] < results[last]);
            }
        }
        lemma_count_at_most_unique(results, p, results.len() as int);
    }
}

proof fn lemma_counts_bounded(s: Seq<usize>, cur: usize)
    ensures
        count_at_most(s, cur) <= s.len(),
        count_below(s, cur) <= s.len(),
    decreases s.len(),
{
    if s.len() > 0 {
        lemma_counts_bounded(s.drop_first(), cur);
    }
}

/// Whatever list and position, a found match is one of the results, and one
/// is found unless the list is empty.
pub proof fn law_match_is_a_result(results: Seq<usize>, cur: usize)
    ensures
        spec_next_match(results, cur) matches Some(n) ==> results.contains(n),
        spec_prev_match(results, cur) matches Some(p) ==> results.contains(p),
        spec_next_match(results, cur) is None <==> results.len() == 0,
        spec_prev_match(results, cur) is None <==> results.len() == 0,
{
    lemma_counts_bounded(results, cur);
    if results.len() > 0 {
        let a = count_at_most(results, cur) as int;
        let b = count_below(results, cur) as int;
        if a < results.len() {
            assert(results[a] == results[a]);
        }
        assert(results.contains(results[0]));
        assert(results.contains(results[results.len() - 1]));
        if b > 0 {
            assert(results.contains(results[b - 1]));
        }
        if a < results.len() {
            assert(results.contains(results[a]));
        }
    }
}

// ---------------------------------------------------------------------------
// Highlighting
// ---------------------------------------------------------------------------

/// The style given to highlighted matches: bold white on blue.
pub open spec fn highlight_style() -> Style {
    Style::spec_default().spec_fg(Color::White).spec_bg(Color::Blue).spec_add(
        Modifier { bold: true, ..Modifier::spec_empty() },
    )
}

/// Whether lowercasing `s` keeps each character in place and keeps its UTF-8 width,
/// so that positions in the lowercased text are positions in `s`.
pub open spec fn lowercase_keeps_layout(s: Seq<char>) -> bool {
    let l = spec_lowercase(s);
    &&& l.len() == s.len()
    &&& forall|i: int| 0 <= i < s.len() ==> utf8_width(#[trigger] l[i]) == utf8_width(s[i])
}

/// Whether highlighting `query` in the text `c` finds its matches where they
/// are: the lowercased query does not occur in the lowercased text, or
/// lowercasing keeps the layout of both, so that positions in the lowercased
/// text are positions in `c`.
pub open spec fn span_highlightable(c: Seq<char>, query: Seq<char>) -> bool {
    ||| !contains_seq(spec_lowercase(c), spec_lowercase(query))
    ||| (lowercase_keeps_layout(c) && lowercase_keeps_layout(query))
}

/// The pieces into which highlighting cuts the text `c` (lowercased `lc`) from
/// position `start` on: between matches of `lq` the text keeps the style `base`;
/// each match of length `qlen` gets the highlight style.
pub open spec fn highlight_pieces(
    c: Seq<char>,
    lc: Seq<char>,
    lq: Seq<char>,
    qlen: nat,
    base: Style,
    start: int,
) -> Seq<(Seq<char>, Style)>
    decreases c.len() - start,
{
    if start < 0 || start > c.len() || qlen == 0 {
        Seq::empty()
    } else {
        let p = next_occurrence(lc, lq, start);
        if p >= start && p + qlen <= c.len() {
            let before = if p > 0 {
                seq![(c.subrange(start, p), base)]
            } else {
                Seq::empty()
            };
            before + seq![(c.subrange(p, p + qlen), highlight_style())] + highlight_pieces(
                c,
                lc,
                lq,
                qlen,
                base,
                p + qlen,
            )
        } else if start < c.len() {
            seq![(c.subrange(start, c.len() as int), base)]
        } else {
            Seq::empty()
        }
    }
}

/// The pieces of a whole line of spans, span after span, for the query `query`.
pub open spec fn highlight_line_pieces(spans: Seq<Span>, query: Seq<char>) -> Seq<(Seq<char>, Style)>
    decreases spans.len(),
{
    if spans.len() == 0 {
        Seq::empty()
    } else {
        let s = spans.last();
        highlight_line_pieces(spans.drop_last(), query) + highlight_pieces(
            s.content@,
            spec_lowercase(s.content@),
            spec_lowercase(query),
            query.len(),
            s.style,
            0,
        )
    }
}

proof fn lemma_next_occurrence_bounds(hay: Seq<char>, needle: Seq<char>, from: int)
    ensures
        next_occurrence(hay, needle, from) == -1 || (from <= next_occurrence(hay, needle, from)
            && occurs_at(hay, needle, next_occurrence(hay, needle, from))),
    decreases hay.len() + 1 - from,
{
    if 0 <= from <= hay.len() && !occurs_at(hay, needle, from) {
        lemma_next_occurrence_bounds(hay, needle, from + 1);
    }
}

proof fn lemma_highlight_pieces_text(
    c: Seq<char>,
    lc: Seq<char>,
    lq: Seq<char>,
    qlen: nat,
    base: Style,
    start: int,
)
    requires
        0 <= start <= c.len(),
        qlen > 0,
    ensures
        pieces_text(highlight_pieces(c, lc, lq, qlen, base, start)) == c.subrange(start, c.len() as int),
    decreases c.len() - start,
{
    let p = next_occurrence(lc, lq, start);
    lemma_next_occurrence_bounds(lc, lq, start);
    if p >= start && p + qlen <= c.len() {
        lemma_highlight_pieces_text(c, lc, lq, qlen, base, p + qlen);
        let before: Seq<(Seq<char>, Style)> = if p > 0 {
            seq![(c.subrange(start, p), base)]
        } else {
            Seq::empty()
        };
        let mid = seq![(c.subrange(p, p + qlen), highlight_style())];
        let rest = highlight_pieces(c, lc, lq, qlen, base, p + qlen);
        lemma_pieces_text_append(before + mid, rest);
        lemma_pieces_text_append(before, mid);
        lemma_pieces_text_single((c.subrange(p, p + qlen), highlight_style()));
        if p > 0 {
            lemma_pieces_text_single((c.subrange(start, p), base));
        } else {
            assert(pieces_text(before) =~= c.subrange(start, p));
        }
        assert(c.subrange(start, p) + c.subrange(p, p + qlen) + c.subrange(p + qlen, c.len() as int)
            =~= c.subrange(start, c.len() as int));
    } else if start < c.len() {
        let one = seq![(c.subrange(start, c.len() as int), base)];
        lemma_pieces_text_single((c.subrange(start, c.len() as int), base));
    } else {
        assert(c.subrange(start, c.len() as int) =~= Seq::<char>::empty());
    }
}

proof fn lemma_highlight_line_text(spans: Seq<Span>, query: Seq<char>)
    requires
        query.len() > 0,
    ensures
        pieces_text(highlight_line_pieces(spans, query)) == spans_text(spans),
    decreases spans.len(),
{
    if spans.len() > 0 {
        let s = spans.last();
        lemma_highlight_line_text(spans.drop_last(), query);
        lemma_highlight_pieces_text(
            s.content@,
            spec_lowercase(s.content@),
            spec_lowercase(query),
            query.len(),
            s.style,
            0,
        );
        lemma_pieces_text_append(
            highlight_line_pieces(spans.drop_last(), query),
            highlight_pieces(
                s.content@,
                spec_lowercase(s.content@),
                spec_lowercase(query),
                query.len(),
                s.style,
                0,
            ),
        );
        assert(s.content@.subrange(0, s.content@.len() as int) =~= s.content@);
    }
}

proof fn lemma_no_occurrence_before(hay: Seq<char>, needle: Seq<char>, from: int, j: int)
    requires
        0 <= from <= j,
        next_occurrence(hay, needle, from) == -1 || j < next_occurrence(hay, needle, from),
    ensures
        !occurs_at(hay, needle, j),
    decreases j - from,
{
    if from <= hay.len() && !occurs_at(hay, needle, from) && from < j {
        lemma_no_occurrence_before(hay, needle, from + 1, j);
    }
}

/// Where piece `k` of the highlighting starts: after the text of the pieces before it.
pub open spec fn piece_offset(ps: Seq<(Seq<char>, Style)>, start: int, k: int) -> int {
    start + pieces_text(ps.take(k)).len()
}

/// What piece `k` of the highlighting of `c` from `start` is: the text of `c`
/// where it stands; in the highlight style exactly when it is a match, found
/// in the lowercased text `lc` and as long as the query; otherwise in the
/// span's style, with no match starting inside it.
pub open spec fn piece_is_right(
    c: Seq<char>,
    lc: Seq<char>,
    lq: Seq<char>,
    qlen: nat,
    base: Style,
    start: int,
    ps: Seq<(Seq<char>, Style)>,
    k: int,
) -> bool {
    let a = piece_offset(ps, start, k);
    let b = a + ps[k].0.len();
    &&& start <= a
    &&& b <= c.len()
    &&& ps[k].0 == c.subrange(a, b)
    &&& (ps[k].1 == highlight_style() ==> b == a + qlen && occurs_at(lc, lq, a))
    &&& (ps[k].1 != highlight_style() ==> ps[k].1 == base && forall|j: int|
        a <= j < b ==> !(#[trigger] occurs_at(lc, lq, j) && j + qlen <= c.len()))
}

proof fn lemma_highlight_piece(
    c: Seq<char>,
    lc: Seq<char>,
    lq: Seq<char>,
    qlen: nat,
    base: Style,
    start: int,
    k: int,
)
    requires
        0 <= start <= c.len(),
        qlen > 0,
        base != highlight_style(),
        0 <= k < highlight_pieces(c, lc, lq, qlen, base, start).len(),
    ensures
        piece_is_right(c, lc, lq, qlen, base, start, highlight_pieces(c, lc, lq, qlen, base, start), k),
    decreases c.len() - start,
{
    let ps = highlight_pieces(c, lc, lq, qlen, base, start);
    let p = next_occurrence(lc, lq, start);
    lemma_next_occurrence_bounds(lc, lq, start);
    if p >= start && p + qlen <= c.len() {
        let before: Seq<(Seq<char>, Style)> = if p > 0 {
            seq![(c.subrange(start, p), base)]
        } else {
            Seq::empty()
        };
        let mid = seq![(c.subrange(p, p + qlen), highlight_style())];
        let pre = before + mid;
        let rest = highlight_pieces(c, lc, lq, qlen, base, p + qlen);
        assert(ps == pre + rest);
        lemma_pieces_text_append(before, mid);
        lemma_pieces_text_single((c.subrange(p, p + qlen), highlight_style()));
        if p > 0 {
            lemma_pieces_text_single((c.subrange(start, p), base));
        } else {
            assert(pieces_text(before) == Seq::<char>::empty());
        }
        assert(pieces_text(pre).len() == p + qlen - start);
        if k < pre.len() {
            if p > 0 && k == 0 {
                assert(ps.take(0) =~= Seq::<(Seq<char>, Style)>::empty());
                assert(ps[0] == (c.subrange(start, p), base));
                assert forall|j: int| start <= j < p implies !(#[trigger] occurs_at(lc, lq, j) && j + qlen
                    <= c.len()) by {
                    lemma_no_occurrence_before(lc, lq, start, j);
                }
            } else {
                assert(ps[k] == (c.subrange(p, p + qlen), highlight_style()));
                if p > 0 {
                    assert(ps.take(k) =~= before);
                } else {
                    assert(ps.take(k) =~= Seq::<(Seq<char>, Style)>::empty());
                }
            }
        } else {
            let k2 = k - pre.len();
            lemma_highlight_piece(c, lc, lq, qlen, base, p + qlen, k2);
            assert(ps[k] == rest[k2]);
            assert(ps.take(k) =~= pre + rest.take(k2));
            lemma_pieces_text_append(pre, rest.take(k2));
        }
    } else {
        assert(start < c.len());
        assert(ps == seq![(c.subrange(start, c.len() as int), base)]);
        assert(k == 0);
        assert(ps.take(0) =~= Seq::<(Seq<char>, Style)>::empty());
        assert forall|j: int| start <= j < c.len() implies !(#[trigger] occurs_at(lc, lq, j) && j + qlen
            <= c.len()) by {
            if p == -1 || j < p {
                lemma_no_occurrence_before(lc, lq, start, j);
            }
        }
    }
}

/// Highlighting marks every match and nothing else: each piece is the text
/// of the span where it stands; a piece in the highlight style is a match of
/// the lowercased query in the lowercased text, and every other piece keeps
/// the span's style and holds no match (of a query as long as the query) that
/// starts inside it. So every match the scan meets is highlighted, the later
/// ones as much as the first.
pub proof fn law_highlight_marks_every_match(
    c: Seq<char>,
    lc: Seq<char>,
    lq: Seq<char>,
    qlen: nat,
    base: Style,
)
    requires
        qlen > 0,
        base != highlight_style(),
    ensures
        forall|k: int|
            0 <= k < highlight_pieces(c, lc, lq, qlen, base, 0).len() ==> piece_is_right(
                c,
                lc,
                lq,
                qlen,
                base,
                0,
                highlight_pieces(c, lc, lq, qlen, base, 0),
                k,
            ),
        pieces_text(highlight_pieces(c, lc, lq, qlen, base, 0)) == c,
{
    assert forall|k: int| 0 <= k < highlight_pieces(c, lc, lq, qlen, base, 0).len() implies piece_is_right(
        c,
        lc,
        lq,
        qlen,
        base,
        0,
        highlight_pieces(c, lc, lq, qlen, base, 0),
        k,
    ) by {
        lemma_highlight_piece(c, lc, lq, qlen, base, 0, k);
    }
    lemma_highlight_pieces_text(c, lc, lq, qlen, base, 0);
    assert(c.subrange(0, c.len() as int) =~= c);
}

/// Cuts one span into its highlighted pieces, appending them to `out`.
fn highlight_span(span: &Span, lq: &Vec<char>, qlen: usize, out: &mut Vec<Span>)
    requires
        qlen > 0,
    ensures
        spans_view(final(out)@) == spans_view(old(out)@) + highlight_pieces(
            span.content@,
            spec_lowercase(span.content@),
            lq@,
            qlen as nat,
            span.style,
            0,
        ),
{
    let c = chars_of(span.content.as_str());
    let lower = to_lowercase(span.content.as_str());
    let lc = chars_of(lower.as_str());
    let ghost base_view = spans_view(out@);
    let ghost cs = span.content@;
    let ghost lcs = spec_lowercase(span.content@);
    let hl = Style::new().fg(Color::White).bg(Color::Blue).add_modifier(Modifier::bold());
    let mut start: usize = 0;
    let mut done = false;
    while !done
        invariant
            qlen > 0,
            c@ == cs,
            lc@ == lcs,
            start <= cs.len(),
            hl == highlight_style(),
            done ==> spans_view(out@) == base_view + highlight_pieces(cs, lcs, lq@, qlen as nat, span.style, 0),
            !done ==> spans_view(out@) + highlight_pieces(cs, lcs, lq@, qlen as nat, span.style, start as int)
                == base_view + highlight_pieces(cs, lcs, lq@, qlen as nat, span.style, 0),
        decreases cs.len() - start + (if done { 0int } else { 1int }),
    {
        let ghost before_view = spans_view(out@);
        let ghost rest = highlight_pieces(cs, lcs, lq@, qlen as nat, span.style, start as int);
        match find_from(&lc, lq, start) {
            Some(p) if p <= c.len() && qlen <= c.len() - p => {
                if p > 0 {
                    let piece = string_of(&c.as_slice()[start..p]);
                    out.push(Span::styled(piece, span.style));
                }
                let m = string_of(&c.as_slice()[p..p + qlen]);
                out.push(Span::styled(m, hl));
                proof {
                    assert(c@.subrange(start as int, p as int) == cs.subrange(start as int, p as int));
                    let before: Seq<(Seq<char>, Style)> = if p > 0 {
                        seq![(cs.subrange(start as int, p as int), span.style)]
                    } else {
                        Seq::empty()
                    };
                    let mid = seq![(cs.subrange(p as int, p + qlen), highlight_style())];
                    let next = highlight_pieces(cs, lcs, lq@, qlen as nat, span.style, p + qlen);
                    assert(rest == before + mid + next);
                    assert(spans_view(out@) =~= before_view + before + mid);
                    assert(spans_view(out@) + next =~= before_view + rest);
                }
                start = p + qlen;
            },
            _ => {
                if start < c.len() {
                    let piece = string_of(&c.as_slice()[start..c.len()]);
                    out.push(Span::styled(piece, span.style));
                    proof {
                        assert(spans_view(out@) =~= before_view + rest);
                    }
                } else {
                    proof {
                        assert(spans_view(out@) =~= before_view + rest);
                    }
                }
                done = true;
            },
        }
    }
}

/// Highlight occurrences of `query` in `line` by applying an inverted style to matches.
pub fn highlight_line(line: &Line, query: &str) -> (r: Line)
    requires
        query@.len() > 0 ==> forall|k: int|
            0 <= k < line.spans@.len() ==> span_highlightable(#[trigger] line.spans@[k].content@, query@),
    ensures
        query@.len() == 0 ==> spans_view(r.spans@) == spans_view(line.spans@),
        query@.len() > 0 ==> spans_view(r.spans@) == highlight_line_pieces(line.spans@, query@),
        spans_text(r.spans@) == spans_text(line.spans@),
{
    let qchars = chars_of(query);
    if qchars.len() == 0 {
        let r = line.copy();
        proof {
            lemma_spans_text_view(r.spans@);
            lemma_spans_text_view(line.spans@);
        }
        return r;
    }
    let lower_q = to_lowercase(query);
    let lq = chars_of(lower_q.as_str());
    let qlen = qchars.len();
    let mut out: Vec<Span> = Vec::new();
    let mut i: usize = 0;
    while i < line.spans.len()
        invariant
            i <= line.spans@.len(),
            qlen as nat == query@.len(),
            qlen > 0,
            lq@ == spec_lowercase(query@),
            spans_view(out@) == highlight_line_pieces(line.spans@.subrange(0, i as int), query@),
        decreases line.spans.len() - i,
    {
        assert(line.spans@.subrange(0, i + 1).drop_last() =~= line.spans@.subrange(0, i as int));
        highlight_span(&line.spans[i], &lq, qlen, &mut out);
        i = i + 1;
    }
    assert(line.spans@.subrange(0, line.spans@.len() as int) =~= line.spans@);
    proof {
        lemma_highlight_line_text(line.spans@, query@);
        lemma_spans_text_view(out@);
    }
    Line { spans: out }
}


/// The pieces of a line given as pieces, piece after piece, for the query `query`.
pub open spec fn highlight_view(pieces: Seq<(Seq<char>, Style)>, query: Seq<char>) -> Seq<(Seq<char>, Style)>
    decreases pieces.len(),
{
    if pieces.len() == 0 {
        Seq::empty()
    } else {
        let p = pieces.last();
        highlight_view(pieces.drop_last(), query) + highlight_pieces(
            p.0,
            spec_lowercase(p.0),
            spec_lowercase(query),
            query.len(),
            p.1,
            0,
        )
    }
}

/// Highlighting spans is highlighting their views.
pub proof fn lemma_highlight_view(spans: Seq<Span>, query: Seq<char>)
    ensures
        highlight_line_pieces(spans, query) == highlight_view(spans_view(spans), query),
    decreases spans.len(),
{
    if spans.len() > 0 {
        assert(spans_view(spans).drop_last() =~= spans_view(spans.drop_last()));
        lemma_highlight_view(spans.drop_last(), query);
    }
}

/// Whether highlighting `query` in `pieces` finds every match where it is:
/// each piece is `span_highlightable`.
pub open spec fn highlightable(pieces: Seq<(Seq<char>, Style)>, query: Seq<char>) -> bool {
    forall|k: int| 0 <= k < pieces.len() ==> span_highlightable(#[trigger] pieces[k].0, query)
}

/// Whether lowercasing `s` keeps each character in place and its UTF-8 width.
pub fn keeps_layout(s: &str) -> (r: bool)
    ensures
        r == lowercase_keeps_layout(s@),
{
    let c = chars_of(s);
    let lower = to_lowercase(s);
    let l = chars_of(lower.as_str());
    if l.len() != c.len() {
        return false;
    }
    let mut k: usize = 0;
    while k < c.len()
        invariant
            c@ == s@,
            l@ == spec_lowercase(s@),
            l@.len() == c@.len(),
            k <= c@.len(),
            forall|i: int| 0 <= i < k ==> utf8_width(#[trigger] l@[i]) == utf8_width(c@[i]),
        decreases c.len() - k,
    {
        if crate::theme::utf8_width_exec(l[k]) != crate::theme::utf8_width_exec(c[k]) {
            return false;
        }
        k = k + 1;
    }
    true
}

/// Whether highlighting `query` in `line` finds every match where it is.
pub fn line_highlightable(line: &Line, query: &str) -> (r: bool)
    ensures
        r == highlightable(spans_view(line.spans@), query@),
        r ==> forall|k: int|
            0 <= k < line.spans@.len() ==> span_highlightable(#[trigger] line.spans@[k].content@, query@),
{
    let q_ok = keeps_layout(query);
    let lower_q = to_lowercase(query);
    let lq = chars_of(lower_q.as_str());
    let mut k: usize = 0;
    while k < line.spans.len()
        invariant
            k <= line.spans@.len(),
            q_ok == lowercase_keeps_layout(query@),
            lq@ == spec_lowercase(query@),
            forall|i: int| 0 <= i < k ==> span_highlightable(#[trigger] spans_view(line.spans@)[i].0, query@),
        decreases line.spans.len() - k,
    {
        let content = line.spans[k].content.as_str();
        assert(spans_view(line.spans@)[k as int].0 == line.spans@[k as int].content@);
        if !(q_ok && keeps_layout(content)) {
            let lower = to_lowercase(content);
            let lc = chars_of(lower.as_str());
            if contains_exec(&lc, &lq) {
                return false;
            }
        }
        k = k + 1;
    }
    assert forall|k: int| 0 <= k < line.spans@.len() implies span_highlightable(
        #[trigger] line.spans@[k].content@,
        query@,
    ) by {
        assert(spans_view(line.spans@)[k].0 == line.spans@[k].content@);
    }
    true
}

} // verus!
