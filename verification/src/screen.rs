//! Pieces of the screen that do not depend on the viewer's state: the
//! line-number gutter, and how the lines of raw markdown are told apart
//! (front matter, code fences, headings, text).

use vstd::prelude::*;

use crate::render::{decimal, decimal_exec, run};
use crate::style::{spans_view, Color, Line, Span, Style};
use crate::text::{has_prefix, string_of, trim_ws, trim_ws_start};

verus! {

/// The style of line numbers.
pub open spec fn gutter_style() -> Style {
    Style::spec_default().spec_fg(Color::DarkGray)
}

/// The gutter text of line `num` out of `total`: the number right-aligned to
/// the width of `total`, then a space.
pub open spec fn number_cell(num: usize, total: usize) -> Seq<char> {
    let width = decimal(total as nat).len();
    let digits = decimal(num as nat);
    let pad: nat = if digits.len() < width {
        (width - digits.len()) as nat
    } else {
        0
    };
    run(' ', pad) + digits + " "@
}

proof fn lemma_decimal_len_monotone(a: nat, b: nat)
    requires
        a <= b,
    ensures
        1 <= decimal(a).len() <= decimal(b).len(),
    decreases b,
{
    if b >= 10 {
        if a >= 10 {
            lemma_decimal_len_monotone(a / 10, b / 10);
        } else {
            lemma_decimal_len_monotone(0, b / 10);
        }
    }
}

/// The gutter cell is as long as the wider of `total` and `num` written in
/// decimal, plus one: the digits of `num`, right-aligned, then a space, with
/// spaces before them.
pub proof fn law_gutter_cell_aligned(num: usize, total: usize)
    ensures
        ({
            let cell = number_cell(num, total);
            let d = decimal(num as nat);
            let w = decimal(total as nat).len();
            &&& cell.len() == (if w > d.len() { w } else { d.len() }) + 1
            &&& cell.subrange(cell.len() - 1 - d.len(), cell.len() - 1) == d
            &&& cell[cell.len() - 1] == ' '
            &&& forall|j: int| 0 <= j < cell.len() - 1 - d.len() ==> cell[j] == ' '
        }),
{
    reveal_strlit(" ");
    let cell = number_cell(num, total);
    let d = decimal(num as nat);
    let w = decimal(total as nat).len();
    let pad: nat = if d.len() < w {
        (w - d.len()) as nat
    } else {
        0
    };
    assert(cell == run(' ', pad) + d + " "@);
    assert(cell.subrange(cell.len() - 1 - d.len(), cell.len() - 1) =~= d);
}

/// Every line number up to `total` gets a gutter cell of the same length,
/// the width of `total` plus one, so the numbers line up.
pub proof fn law_gutter_width_fixed(a: usize, b: usize, total: usize)
    requires
        a <= total,
        b <= total,
    ensures
        number_cell(a, total).len() == number_cell(b, total).len(),
        number_cell(a, total).len() == decimal(total as nat).len() + 1,
{
    lemma_decimal_len_monotone(a as nat, total as nat);
    lemma_decimal_len_monotone(b as nat, total as nat);
    law_gutter_cell_aligned(a, total);
    law_gutter_cell_aligned(b, total);
}

fn spaces(n: usize) -> (r: Vec<char>)
    ensures
        r@ == run(' ', n as nat),
{
    let mut v: Vec<char> = Vec::new();
    let mut k: usize = 0;
    while k < n
        invariant
            k <= n,
            v@ == run(' ', k as nat),
        decreases n - k,
    {
        v.push(' ');
        k = k + 1;
        assert(v@ =~= run(' ', k as nat));
    }
    v
}

/// Puts the number of line `num` out of `total` in front of `line`.
pub fn prepend_line_number(line: Line, num: usize, total: usize) -> (r: Line)
    ensures
        spans_view(r.spans@) == seq![(number_cell(num, total), gutter_style())] + spans_view(line.spans@),
{
    let width = decimal_exec(total).len();
    let digits = decimal_exec(num);
    let pad = if digits.len() < width {
        width - digits.len()
    } else {
        0
    };
    let mut cell = spaces(pad);
    let mut i: usize = 0;
    let ghost c0 = cell@;
    while i < digits.len()
        invariant
            i <= digits@.len(),
            cell@ == c0 + digits@.subrange(0, i as int),
        decreases digits.len() - i,
    {
        cell.push(digits[i]);
        i = i + 1;
        assert(cell@ =~= c0 + digits@.subrange(0, i as int));
    }
    assert(digits@.subrange(0, digits@.len() as int) =~= digits@);
    cell.push(' ');
    proof {
        reveal_strlit(" ");
    }
    assert(cell@ =~= number_cell(num, total));
    let sp = Span::styled(string_of(cell.as_slice()), Style::new().fg(Color::DarkGray));
    let mut spans: Vec<Span> = Vec::new();
    spans.push(sp);
    let mut rest = line.spans;
    let ghost rv = spans_view(rest@);
    spans.append(&mut rest);
    assert(spans_view(spans@) =~= seq![(number_cell(num, total), gutter_style())] + rv);
    Line { spans }
}

// ---------------------------------------------------------------------------
// Raw markdown lines
// ---------------------------------------------------------------------------

/// What a line of raw markdown is drawn as.
#[derive(Clone, Copy, Debug, PartialEq, Eq, Structural)]
pub enum LineKind {
    /// Inside the front matter block, or one of its `---` fences.
    FrontMatter,
    /// Inside a fenced code block, or one of its fences.
    Code,
    /// A heading of the given level.
    Heading(usize),
    Text,
}

/// The number of `#` characters `t` begins with.
pub open spec fn hashes(t: Seq<char>) -> nat
    decreases t.len(),
{
    if t.len() > 0 && t[0] == '#' {
        1 + hashes(t.drop_first())
    } else {
        0
    }
}

/// The level of a heading line (after its leading whitespace): one to six
/// `#` characters followed by a space.
pub open spec fn heading_level(t: Seq<char>) -> Option<usize> {
    let p = hashes(t);
    if 0 < p <= 6 && p < t.len() && t[p as int] == ' ' {
        Some(p as usize)
    } else {
        None
    }
}

pub fn heading_level_exec(t: &Vec<char>) -> (r: Option<usize>)
    ensures
        r == heading_level(t@),
{
    let mut k: usize = 0;
    assert(t@.subrange(0, t@.len() as int) =~= t@);
    while k < t.len() && t[k] == '#'
        invariant
            k <= t@.len(),
            hashes(t@) == k + hashes(t@.subrange(k as int, t@.len() as int)),
        decreases t.len() - k,
    {
        assert(t@.subrange(k as int, t@.len() as int).drop_first() =~= t@.subrange(k + 1, t@.len() as int));
        k = k + 1;
    }
    assert(hashes(t@.subrange(k as int, t@.len() as int)) == 0);
    if 0 < k && k <= 6 && k < t.len() && t[k] == ' ' {
        Some(k)
    } else {
        None
    }
}

/// Whether the document opens with front matter: its first line that is not
/// blank is `---`.
pub open spec fn opens_front_matter(ls: Seq<Seq<char>>, i: int) -> bool
    decreases ls.len() - i,
{
    if i < 0 || i >= ls.len() {
        false
    } else if trim_ws(ls[i]).len() > 0 {
        trim_ws(ls[i]) == "---"@
    } else {
        opens_front_matter(ls, i + 1)
    }
}

/// The kind of line `t`, and whether front matter and a code fence are open
/// after it, given whether the document has front matter and whether they
/// are open before it. Every `---` line outside front matter opens it when
/// the document has some.
pub open spec fn kind_step(t: Seq<char>, has_fm: bool, in_fm: bool, in_fence: bool) -> (LineKind, bool, bool) {
    let t2 = trim_ws_start(t);
    if has_fm && !in_fm && t2 == "---"@ {
        (LineKind::FrontMatter, true, in_fence)
    } else if in_fm && t2 == "---"@ {
        (LineKind::FrontMatter, false, in_fence)
    } else if in_fm {
        (LineKind::FrontMatter, in_fm, in_fence)
    } else if has_prefix(t2, "```"@) {
        (LineKind::Code, in_fm, !in_fence)
    } else if in_fence {
        (LineKind::Code, in_fm, in_fence)
    } else {
        match heading_level(t2) {
            Some(k) => (LineKind::Heading(k), in_fm, in_fence),
            None => (LineKind::Text, in_fm, in_fence),
        }
    }
}

/// The kinds of the first `n` lines, and the open front matter and fence after them.
pub open spec fn kinds_upto(ls: Seq<Seq<char>>, has_fm: bool, n: nat) -> (Seq<LineKind>, bool, bool)
    decreases n,
{
    if n == 0 {
        (Seq::empty(), false, false)
    } else {
        let (ks, f, c) = kinds_upto(ls, has_fm, (n - 1) as nat);
        let (k, f2, c2) = kind_step(ls[n - 1], has_fm, f, c);
        (ks.push(k), f2, c2)
    }
}

/// The kind of each line of a raw markdown document.
pub open spec fn line_kinds(ls: Seq<Seq<char>>) -> Seq<LineKind> {
    kinds_upto(ls, opens_front_matter(ls, 0), ls.len()).0
}

proof fn lemma_kinds_len(ls: Seq<Seq<char>>, has_fm: bool, n: nat)
    ensures
        kinds_upto(ls, has_fm, n).0.len() == n,
    decreases n,
{
    if n > 0 {
        lemma_kinds_len(ls, has_fm, (n - 1) as nat);
    }
}

/// The kind of each line of a raw markdown document.
pub fn line_kinds_exec(ls: &Vec<Vec<char>>) -> (r: Vec<LineKind>)
    ensures
        r@ == line_kinds(crate::text::vv(ls@)),
        r@.len() == ls@.len(),
{
    let ghost lv = crate::text::vv(ls@);
    // Whether the first line that is not blank is `---`.
    let mut has_fm = false;
    let mut found = false;
    let mut i: usize = 0;
    let dashes = crate::text::chars_of("---");
    while i < ls.len() && !found
        invariant
            i <= ls@.len(),
            lv == crate::text::vv(ls@),
            dashes@ == "---"@,
            found ==> has_fm == opens_front_matter(lv, 0),
            !found ==> !has_fm && opens_front_matter(lv, i as int) == opens_front_matter(lv, 0),
        decreases ls@.len() - i + (if found {
            0int
        } else {
            1int
        }),
    {
        let t = crate::text::trim_chars(&ls[i]);
        assert(lv[i as int] == ls@[i as int]@);
        if t.len() > 0 {
            has_fm = crate::text::eq_chars(&t, &dashes);
            found = true;
        } else {
            i = i + 1;
        }
    }
    assert(has_fm == opens_front_matter(lv, 0));
    let mut kinds: Vec<LineKind> = Vec::new();
    let mut in_fm = false;
    let mut in_fence = false;
    let fence = crate::text::chars_of("```");
    let mut k: usize = 0;
    while k < ls.len()
        invariant
            k <= ls@.len(),
            lv == crate::text::vv(ls@),
            dashes@ == "---"@,
            fence@ == "```"@,
            has_fm == opens_front_matter(lv, 0),
            kinds_upto(lv, has_fm, k as nat) == (kinds@, in_fm, in_fence),
        decreases ls.len() - k,
    {
        let t2 = crate::text::trim_start_chars(&ls[k]);
        let is_dashes = crate::text::eq_chars(&t2, &dashes);
        let kind = if has_fm && !in_fm && is_dashes {
            in_fm = true;
            LineKind::FrontMatter
        } else if in_fm && is_dashes {
            in_fm = false;
            LineKind::FrontMatter
        } else if in_fm {
            LineKind::FrontMatter
        } else if crate::text::has_prefix_exec(&t2, &fence) {
            in_fence = !in_fence;
            LineKind::Code
        } else if in_fence {
            LineKind::Code
        } else {
            match heading_level_exec(&t2) {
                Some(h) => LineKind::Heading(h),
                None => LineKind::Text,
            }
        };
        kinds.push(kind);
        k = k + 1;
    }
    proof {
        lemma_kinds_len(lv, has_fm, ls@.len());
    }
    kinds
}

} // verus!
