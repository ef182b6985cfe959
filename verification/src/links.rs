//! Links on a rendered line. The renderer shows the destination of each link
//! and image after its text, as a dimmed piece ` ─ destination`; an image's
//! text comes after an image icon. These pieces are what `Enter` follows.

use vstd::prelude::*;

use crate::render::{url_style, SpanV};
use crate::style::{spans_view, Color, Modifier, Span, Style};
use crate::text::{chars_of, string_of, sub_chars};

verus! {

/// Whether a piece of a line shows a destination: the dimmed dark-grey style
/// of destinations and a text starting with ` ─ `.
pub open spec fn is_url_piece(sp: SpanV) -> bool {
    &&& sp.1 == url_style()
    &&& sp.0.len() >= 3
    &&& sp.0[0] == ' '
    &&& sp.0[1] == '─'
    &&& sp.0[2] == ' '
}

/// Whether a piece of a line is the icon put before an image's text.
pub open spec fn is_image_icon(sp: SpanV) -> bool {
    sp.0 == seq!['🖼', ' '] && sp.1 == Style::spec_default().spec_fg(Color::DarkGray)
}

/// The links shown by the pieces of a line from piece `k` on, with `col`
/// characters before piece `k` and `icon` telling whether an image icon came
/// since the last destination: for each destination piece, the column where
/// it starts, the destination, and whether it is an image's.
pub open spec fn links_from(sps: Seq<SpanV>, k: int, col: nat, icon: bool) -> Seq<(nat, Seq<char>, bool)>
    decreases sps.len() - k,
{
    if k < 0 || k >= sps.len() {
        Seq::empty()
    } else {
        let sp = sps[k];
        if is_url_piece(sp) {
            seq![(col, sp.0.subrange(3, sp.0.len() as int), icon)] + links_from(
                sps,
                k + 1,
                col + sp.0.len(),
                false,
            )
        } else {
            links_from(sps, k + 1, col + sp.0.len(), icon || is_image_icon(sp))
        }
    }
}

/// The links shown on a line, from its start.
pub open spec fn line_links(sps: Seq<SpanV>) -> Seq<(nat, Seq<char>, bool)> {
    links_from(sps, 0, 0, false)
}

/// The last of the first `n` links whose column is at most `cur`.
pub open spec fn last_at_or_before(ls: Seq<(nat, Seq<char>, bool)>, cur: nat, n: int) -> Option<int>
    decreases n,
{
    if n <= 0 {
        None
    } else if ls[n - 1].0 <= cur {
        Some(n - 1)
    } else {
        last_at_or_before(ls, cur, n - 1)
    }
}

/// The link `Enter` follows among `ls`, with the cursor in column `cur`: the
/// last one starting at or before the cursor, else the first one.
pub open spec fn chosen_link(ls: Seq<(nat, Seq<char>, bool)>, cur: nat) -> int {
    match last_at_or_before(ls, cur, ls.len() as int) {
        Some(i) => i,
        None => 0,
    }
}

/// A link shown on a line: where its destination starts, the destination,
/// and whether it is an image's.
pub struct LinkSpot {
    pub col: usize,
    pub url: String,
    pub image: bool,
}

/// The columns of a link, capped at `0x10000`, above any cursor column.
pub open spec fn capped(n: nat) -> nat {
    if n < 0x10000 {
        n
    } else {
        0x10000
    }
}

/// The links `ls` with their columns capped at `0x10000`. (No cursor column
/// reaches `0x10000`, so capping changes no choice of link.)
pub open spec fn capped_links(ls: Seq<(nat, Seq<char>, bool)>) -> Seq<(nat, Seq<char>, bool)> {
    ls.map_values(|l: (nat, Seq<char>, bool)| (capped(l.0), l.1, l.2))
}

pub open spec fn spots_view(v: Seq<LinkSpot>) -> Seq<(nat, Seq<char>, bool)> {
    v.map_values(|l: LinkSpot| (l.col as nat, l.url@, l.image))
}

fn is_url_span(sp: &Span, c: &Vec<char>) -> (r: bool)
    requires
        c@ == sp.content@,
    ensures
        r == is_url_piece((sp.content@, sp.style)),
{
    let st = Style::new().fg(Color::DarkGray).add_modifier(Modifier::dim());
    sp.style == st && c.len() >= 3 && c[0] == ' ' && c[1] == '─' && c[2] == ' '
}

fn is_icon_span(sp: &Span, c: &Vec<char>) -> (r: bool)
    requires
        c@ == sp.content@,
    ensures
        r == is_image_icon((sp.content@, sp.style)),
{
    let st = Style::new().fg(Color::DarkGray);
    let r = sp.style == st && c.len() == 2 && c[0] == '🖼' && c[1] == ' ';
    proof {
        if c@.len() == 2 && c@[0] == '🖼' && c@[1] == ' ' {
            assert(c@ =~= seq!['🖼', ' ']);
        }
    }
    r
}

/// The links shown on a line, their columns capped at `0x10000`.
pub fn links_of_line(spans: &Vec<Span>) -> (r: Vec<LinkSpot>)
    ensures
        spots_view(r@) == capped_links(line_links(spans_view(spans@))),
{
    let ghost sps = spans_view(spans@);
    let mut out: Vec<LinkSpot> = Vec::new();
    let mut k: usize = 0;
    let mut col: usize = 0;
    let ghost mut gcol: nat = 0;
    let mut icon = false;
    while k < spans.len()
        invariant
            sps == spans_view(spans@),
            k <= spans@.len(),
            col as nat == capped(gcol),
            out@.len() + links_from(sps, k as int, gcol, icon).len() == line_links(sps).len(),
            forall|i: int|
                0 <= i < out@.len() ==> {
                    let l = line_links(sps)[i];
                    &&& (#[trigger] out@[i]).col as nat == capped(l.0)
                    &&& out@[i].url@ == l.1
                    &&& out@[i].image == l.2
                },
            forall|i: int|
                0 <= i < links_from(sps, k as int, gcol, icon).len() ==> line_links(sps)[out@.len() + i]
                    == #[trigger] links_from(sps, k as int, gcol, icon)[i],
        decreases spans.len() - k,
    {
        let sp = &spans[k];
        let c = chars_of(sp.content.as_str());
        assert(sps[k as int] == (sp.content@, sp.style));
        let ghost rest = links_from(sps, k as int, gcol, icon);
        let n = c.len();
        let next_col = if col < 0x10000 && n < 0x10000 - col {
            col + n
        } else {
            0x10000
        };
        if is_url_span(sp, &c) {
            let url = string_of(sub_chars(&c, 3, n).as_slice());
            let ghost tail = links_from(sps, k + 1, (gcol + n) as nat, false);
            assert(rest == seq![(gcol, sp.content@.subrange(3, n as int), icon)] + tail);
            assert(rest[0] == (gcol, sp.content@.subrange(3, n as int), icon));
            let ghost before = out@;
            out.push(LinkSpot { col, url, image: icon });
            proof {
                assert forall|i: int| 0 <= i < out@.len() implies {
                    let l = line_links(sps)[i];
                    &&& (#[trigger] out@[i]).col as nat == capped(l.0)
                    &&& out@[i].url@ == l.1
                    &&& out@[i].image == l.2
                } by {
                    if i < before.len() {
                        assert(out@[i] == before[i]);
                    } else {
                        assert(line_links(sps)[before.len() as int] == rest[0]);
                    }
                }
                assert forall|i: int| 0 <= i < tail.len() implies line_links(sps)[out@.len() + i]
                    == #[trigger] tail[i] by {
                    assert(rest[1 + i] == tail[i]);
                    assert(line_links(sps)[before.len() + (1 + i)] == rest[1 + i]);
                }
            }
            icon = false;
        } else {
            let is_icon = is_icon_span(sp, &c);
            icon = icon || is_icon;
        }
        proof {
            gcol = (gcol + n) as nat;
        }
        col = next_col;
        k = k + 1;
    }
    assert(spots_view(out@) =~= capped_links(line_links(sps)));
    out
}

/// The position, among `ls`, of the link `Enter` follows with the cursor in
/// column `cur`, for a non-empty list.
pub fn choose_link(ls: &Vec<LinkSpot>, cur: u16) -> (r: usize)
    requires
        ls@.len() > 0,
    ensures
        r < ls@.len(),
        r as int == chosen_link(spots_view(ls@), cur as nat),
{
    let ghost v = spots_view(ls@);
    let mut n: usize = ls.len();
    while n > 0 && ls[n - 1].col > cur as usize
        invariant
            n <= ls@.len(),
            v == spots_view(ls@),
            last_at_or_before(v, cur as nat, n as int) == last_at_or_before(v, cur as nat, ls@.len() as int),
        decreases n,
    {
        assert(v[n - 1].0 == ls@[n - 1].col as nat);
        n = n - 1;
    }
    if n == 0 {
        0
    } else {
        assert(v[n - 1].0 == ls@[n - 1].col as nat);
        n - 1
    }
}

} // verus!
