//! Character-level helpers shared by the other modules.

use vstd::prelude::*;

verus! {

/// Lowercase image of a character sequence, as computed by `str::to_lowercase`.
pub uninterp spec fn spec_lowercase(s: Seq<char>) -> Seq<char>;

/// Whether every character of `s` is ASCII.
pub open spec fn is_ascii_text(s: Seq<char>) -> bool {
    forall|k: int| 0 <= k < s.len() ==> (s[k] as u32) < 128
}

/// The ASCII lowercase of a character: `A` to `Z` become `a` to `z`.
pub open spec fn ascii_lower_char(c: char) -> char {
    if 'A' <= c <= 'Z' {
        ((c as u32) + 32) as char
    } else {
        c
    }
}

/// The ASCII uppercase of a character: `a` to `z` become `A` to `Z`.
pub open spec fn ascii_upper_char(c: char) -> char {
    if 'a' <= c <= 'z' {
        ((c as u32) - 32) as char
    } else {
        c
    }
}

pub open spec fn ascii_lower(s: Seq<char>) -> Seq<char> {
    s.map_values(|c: char| ascii_lower_char(c))
}

pub open spec fn ascii_upper(s: Seq<char>) -> Seq<char> {
    s.map_values(|c: char| ascii_upper_char(c))
}

/// `str::to_lowercase`: the Unicode lowercase mapping of `s`.
/// Its result is named by `spec_lowercase`; std's tables make it a function of
/// `s` alone. On ASCII text, Unicode lowercasing maps exactly the letters `A`
/// to `Z` to `a` to `z` and keeps every other character.
#[verifier::external_body]
pub(crate) fn to_lowercase(s: &str) -> (r: String)
    ensures
        r@ == spec_lowercase(s@),
        is_ascii_text(s@) ==> r@ == ascii_lower(s@),
{
    s.to_lowercase()
}

/// The characters of `s`, in order.
pub fn chars_of(s: &str) -> (r: Vec<char>)
    ensures
        r@ == s@,
{
    broadcast use vstd::string::axiom_spec_iter;
    let mut v: Vec<char> = Vec::new();
    for c in it: s.chars()
        invariant
            v@ == it.seq().take(it.index() as int),
    {
        v.push(c);
    }
    v
}

/// The string made of the characters of `v`, in order (collecting chars into a `String`).
#[verifier::external_body]
pub(crate) fn string_of(v: &[char]) -> (r: String)
    ensures
        r@ == v@,
{
    v.iter().collect()
}

/// The characters of `v` from `a` up to (not including) `b`.
pub fn sub_chars(v: &Vec<char>, a: usize, b: usize) -> (r: Vec<char>)
    requires
        a <= b <= v@.len(),
    ensures
        r@ == v@.subrange(a as int, b as int),
{
    let mut r: Vec<char> = Vec::new();
    let mut k = a;
    while k < b
        invariant
            a <= k <= b <= v@.len(),
            r@ == v@.subrange(a as int, k as int),
        decreases b - k,
    {
        r.push(v[k]);
        k = k + 1;
        assert(r@ =~= v@.subrange(a as int, k as int));
    }
    r
}

/// Whether `needle` occurs in `hay` starting at position `i`.
pub open spec fn occurs_at(hay: Seq<char>, needle: Seq<char>, i: int) -> bool {
    &&& 0 <= i
    &&& i + needle.len() <= hay.len()
    &&& hay.subrange(i, i + needle.len()) == needle
}

/// Whether `needle` occurs somewhere in `hay` (the empty needle occurs everywhere).
pub open spec fn contains_seq(hay: Seq<char>, needle: Seq<char>) -> bool {
    exists|i: int| occurs_at(hay, needle, i)
}

/// The first position at or after `from` where `needle` occurs in `hay`, or -1.
pub open spec fn next_occurrence(hay: Seq<char>, needle: Seq<char>, from: int) -> int
    decreases hay.len() + 1 - from,
{
    if from < 0 || from > hay.len() {
        -1
    } else if occurs_at(hay, needle, from) {
        from
    } else {
        next_occurrence(hay, needle, from + 1)
    }
}

/// Number of bytes that UTF-8 takes for `c`.
pub open spec fn utf8_width(c: char) -> nat {
    if (c as u32) < 0x80 {
        1
    } else if (c as u32) < 0x800 {
        2
    } else if (c as u32) < 0x10000 {
        3
    } else {
        4
    }
}

proof fn lemma_next_occurrence_at(hay: Seq<char>, needle: Seq<char>, from: int, p: int)
    requires
        0 <= from <= p,
        occurs_at(hay, needle, p),
        forall|q: int| from <= q < p ==> !occurs_at(hay, needle, q),
    ensures
        next_occurrence(hay, needle, from) == p,
    decreases p - from,
{
    if from < p {
        lemma_next_occurrence_at(hay, needle, from + 1, p);
    }
}

proof fn lemma_next_occurrence_none(hay: Seq<char>, needle: Seq<char>, from: int)
    requires
        0 <= from,
        forall|q: int| from <= q ==> !occurs_at(hay, needle, q),
    ensures
        next_occurrence(hay, needle, from) == -1,
    decreases hay.len() + 1 - from,
{
    if from <= hay.len() {
        lemma_next_occurrence_none(hay, needle, from + 1);
    }
}

/// Whether `needle` occurs in `hay` at position `i`, checked character by character.
pub fn occurs_at_exec(hay: &Vec<char>, needle: &Vec<char>, i: usize) -> (r: bool)
    ensures
        r == occurs_at(hay@, needle@, i as int),
{
    if i > hay.len() || needle.len() > hay.len() - i {
        return false;
    }
    let mut k: usize = 0;
    while k < needle.len()
        invariant
            i + needle.len() <= hay.len(),
            k <= needle.len(),
            forall|j: int| 0 <= j < k ==> hay@[i + j] == needle@[j],
        decreases needle.len() - k,
    {
        if hay[i + k] != needle[k] {
            assert(hay@.subrange(i as int, i + needle.len())[k as int] != needle@[k as int]);
            return false;
        }
        k = k + 1;
    }
    assert(hay@.subrange(i as int, i + needle.len()) =~= needle@);
    true
}

/// First position at or after `from` where `needle` occurs in `hay`, if any.
pub fn find_from(hay: &Vec<char>, needle: &Vec<char>, from: usize) -> (r: Option<usize>)
    ensures
        match r {
            Some(p) => {
                &&& from <= p
                &&& occurs_at(hay@, needle@, p as int)
                &&& forall|q: int| from <= q < p ==> !occurs_at(hay@, needle@, q)
                &&& p as int == next_occurrence(hay@, needle@, from as int)
            },
            None => {
                &&& forall|q: int| from <= q ==> !occurs_at(hay@, needle@, q)
                &&& next_occurrence(hay@, needle@, from as int) == -1
            },
        },
{
    if from > hay.len() {
        proof {
            assert forall|q: int| from <= q implies !occurs_at(hay@, needle@, q) by {}
        }
        return None;
    }
    let mut p = from;
    while p < hay.len()
        invariant
            from <= p <= hay.len(),
            forall|q: int| from <= q < p ==> !occurs_at(hay@, needle@, q),
        decreases hay.len() - p,
    {
        if occurs_at_exec(hay, needle, p) {
            proof {
                lemma_next_occurrence_at(hay@, needle@, from as int, p as int);
            }
            return Some(p);
        }
        p = p + 1;
    }
    if occurs_at_exec(hay, needle, p) {
        proof {
            lemma_next_occurrence_at(hay@, needle@, from as int, p as int);
        }
        return Some(p);
    }
    proof {
        assert forall|q: int| from <= q implies !occurs_at(hay@, needle@, q) by {
            if q > p {
            }
        }
        lemma_next_occurrence_none(hay@, needle@, from as int);
    }
    None
}

/// Whether `needle` occurs in `hay`.
pub fn contains_exec(hay: &Vec<char>, needle: &Vec<char>) -> (r: bool)
    ensures
        r == contains_seq(hay@, needle@),
{
    match find_from(hay, needle, 0) {
        Some(p) => true,
        None => {
            assert forall|i: int| !occurs_at(hay@, needle@, i) by {
                if 0 <= i {
                }
            }
            false
        },
    }
}

/// Whether two character sequences are equal, compared character by character.
pub fn eq_chars(a: &Vec<char>, b: &Vec<char>) -> (r: bool)
    ensures
        r == (a@ == b@),
{
    if a.len() != b.len() {
        return false;
    }
    let mut k: usize = 0;
    while k < a.len()
        invariant
            a@.len() == b@.len(),
            k <= a@.len(),
            forall|j: int| 0 <= j < k ==> a@[j] == b@[j],
        decreases a.len() - k,
    {
        if a[k] != b[k] {
            return false;
        }
        k = k + 1;
    }
    assert(a@ =~= b@);
    true
}

/// Whether `s` has no characters.
pub fn str_is_empty(s: &str) -> (r: bool)
    ensures
        r == (s@.len() == 0),
{
    let c = chars_of(s);
    c.len() == 0
}

/// Whether two strings hold the same characters.
pub fn str_eq(a: &str, b: &str) -> (r: bool)
    ensures
        r == (a@ == b@),
{
    let av = chars_of(a);
    let bv = chars_of(b);
    eq_chars(&av, &bv)
}

/// The position of the first entry whose key is `k`, or -1.
pub open spec fn first_key_index<V>(e: Seq<(Seq<char>, V)>, k: Seq<char>) -> int
    decreases e.len(),
{
    if e.len() == 0 {
        -1
    } else if e[0].0 == k {
        0
    } else {
        let r = first_key_index(e.drop_first(), k);
        if r < 0 {
            -1
        } else {
            r + 1
        }
    }
}

/// The map that an association list stands for: each key maps to the value of
/// its first entry.
pub open spec fn assoc_map<V>(e: Seq<(Seq<char>, V)>) -> Map<Seq<char>, V>
    decreases e.len(),
{
    if e.len() == 0 {
        Map::empty()
    } else {
        assoc_map(e.drop_first()).insert(e[0].0, e[0].1)
    }
}

/// The first entry for a key holds the value the map gives it.
pub proof fn lemma_first_key_index<V>(e: Seq<(Seq<char>, V)>, k: Seq<char>)
    ensures
        -1 <= first_key_index(e, k) < e.len(),
        first_key_index(e, k) >= 0 ==> e[first_key_index(e, k)].0 == k,
        first_key_index(e, k) >= 0 ==> forall|j: int| 0 <= j < first_key_index(e, k) ==> e[j].0 != k,
        first_key_index(e, k) < 0 ==> forall|j: int| 0 <= j < e.len() ==> e[j].0 != k,
        assoc_map(e).contains_key(k) <==> first_key_index(e, k) >= 0,
        first_key_index(e, k) >= 0 ==> assoc_map(e)[k] == e[first_key_index(e, k)].1,
    decreases e.len(),
{
    if e.len() > 0 {
        lemma_first_key_index(e.drop_first(), k);
        let r = first_key_index(e.drop_first(), k);
        if e[0].0 != k {
            assert forall|j: int| 0 <= j < first_key_index(e, k) implies e[j].0 != k by {
                if j > 0 {
                    assert(e.drop_first()[j - 1] == e[j]);
                }
            }
            if r < 0 {
                assert forall|j: int| 0 <= j < e.len() implies e[j].0 != k by {
                    if j > 0 {
                        assert(e.drop_first()[j - 1] == e[j]);
                    }
                }
            } else {
                assert(e.drop_first()[r] == e[r + 1]);
            }
        }
    }
}

/// Replacing the value of the first entry for `k` changes the map at `k` only.
pub proof fn lemma_assoc_update<V>(e: Seq<(Seq<char>, V)>, i: int, k: Seq<char>, v: V)
    requires
        0 <= i < e.len(),
        i == first_key_index(e, k),
    ensures
        assoc_map(e.update(i, (k, v))) == assoc_map(e).insert(k, v),
    decreases e.len(),
{
    lemma_first_key_index(e, k);
    if i == 0 {
        assert(e.update(0, (k, v)).drop_first() =~= e.drop_first());
        assert(assoc_map(e.drop_first()).insert(k, v) =~= assoc_map(e).insert(k, v));
    } else {
        let d = e.drop_first();
        assert(e[0].0 != k);
        lemma_first_key_index(d, k);
        assert(first_key_index(d, k) == i - 1);
        lemma_assoc_update(d, i - 1, k, v);
        assert(e.update(i, (k, v)).drop_first() =~= d.update(i - 1, (k, v)));
        assert(assoc_map(d).insert(k, v).insert(e[0].0, e[0].1) =~= assoc_map(d).insert(
            e[0].0,
            e[0].1,
        ).insert(k, v));
    }
}

/// Appending an entry for a key that has none adds it to the map.
pub proof fn lemma_assoc_push<V>(e: Seq<(Seq<char>, V)>, k: Seq<char>, v: V)
    requires
        first_key_index(e, k) < 0,
    ensures
        assoc_map(e.push((k, v))) == assoc_map(e).insert(k, v),
    decreases e.len(),
{
    lemma_first_key_index(e, k);
    if e.len() == 0 {
        assert(e.push((k, v)).drop_first() =~= e);
        assert(assoc_map(e).insert(k, v) =~= Map::<Seq<char>, V>::empty().insert(k, v));
    } else {
        let d = e.drop_first();
        assert(e[0].0 != k);
        lemma_first_key_index(d, k);
        assert(first_key_index(d, k) < 0) by {
            if first_key_index(d, k) >= 0 {
                assert(d[first_key_index(d, k)] == e[first_key_index(d, k) + 1]);
            }
        }
        lemma_assoc_push(d, k, v);
        assert(e.push((k, v)).drop_first() =~= d.push((k, v)));
        assert(assoc_map(d).insert(k, v).insert(e[0].0, e[0].1) =~= assoc_map(d).insert(
            e[0].0,
            e[0].1,
        ).insert(k, v));
    }
}

/// Index of the first `c` at or after `j` in `s`, or `s.len()` when there is none.
pub open spec fn char_pos(s: Seq<char>, j: int, c: char) -> int
    decreases s.len() - j,
{
    if j >= s.len() {
        s.len() as int
    } else if j >= 0 && s[j] == c {
        j
    } else {
        char_pos(s, j + 1, c)
    }
}

pub proof fn lemma_char_pos(s: Seq<char>, j: int, c: char)
    requires
        0 <= j <= s.len(),
    ensures
        j <= char_pos(s, j, c) <= s.len(),
        char_pos(s, j, c) < s.len() ==> s[char_pos(s, j, c)] == c,
        forall|k: int| j <= k < char_pos(s, j, c) ==> s[k] != c,
    decreases s.len() - j,
{
    if j < s.len() && s[j] != c {
        lemma_char_pos(s, j + 1, c);
    }
}

/// The views of a sequence of character vectors.
pub open spec fn vv(v: Seq<Vec<char>>) -> Seq<Seq<char>> {
    v.map_values(|x: Vec<char>| x@)
}

/// `x` without one trailing carriage return.
pub open spec fn strip_cr(x: Seq<char>) -> Seq<char> {
    if x.len() > 0 && x.last() == '\r' {
        x.drop_last()
    } else {
        x
    }
}

/// The lines of `s` from `j` on, as `str::lines` gives them: split after each
/// line feed, which is dropped with a carriage return just before it; a last
/// line without line feed keeps its carriage return.
pub open spec fn lines_from(s: Seq<char>, j: int) -> Seq<Seq<char>>
    decreases s.len() - j,
{
    if j < 0 || j >= s.len() {
        Seq::empty()
    } else {
        proof {
            lemma_char_pos(s, j, '\n');
        }
        let k = char_pos(s, j, '\n');
        if k < s.len() {
            seq![strip_cr(s.subrange(j, k))] + lines_from(s, k + 1)
        } else {
            seq![s.subrange(j, s.len() as int)]
        }
    }
}

/// The pieces of `s` from `j` on, each up to and including a line feed; the
/// last one may have none.
pub open spec fn pieces_from(s: Seq<char>, j: int) -> Seq<Seq<char>>
    decreases s.len() - j,
{
    if j < 0 || j >= s.len() {
        Seq::empty()
    } else {
        proof {
            lemma_char_pos(s, j, '\n');
        }
        let k = char_pos(s, j, '\n');
        if k < s.len() {
            seq![s.subrange(j, k + 1)] + pieces_from(s, k + 1)
        } else {
            seq![s.subrange(j, s.len() as int)]
        }
    }
}

/// Splits `s` into lines as `str::lines` does.
pub fn split_lines(s: &Vec<char>) -> (r: Vec<Vec<char>>)
    ensures
        vv(r@) == lines_from(s@, 0),
{
    let mut out: Vec<Vec<char>> = Vec::new();
    let mut j: usize = 0;
    assert(vv(out@) =~= Seq::<Seq<char>>::empty());
    while j < s.len()
        invariant
            j <= s@.len(),
            vv(out@) + lines_from(s@, j as int) == lines_from(s@, 0),
        decreases s.len() - j,
    {
        let mut k = j;
        while k < s.len() && s[k] != '\n'
            invariant
                j <= k <= s@.len(),
                char_pos(s@, k as int, '\n') == char_pos(s@, j as int, '\n'),
            decreases s.len() - k,
        {
            k = k + 1;
        }
        proof {
            lemma_char_pos(s@, j as int, '\n');
        }
        let ghost before = vv(out@);
        if k < s.len() {
            let end = if k > j && s[k - 1] == '\r' { k - 1 } else { k };
            let piece = sub_chars(s, j, end);
            proof {
                assert(piece@ =~= strip_cr(s@.subrange(j as int, k as int)));
            }
            out.push(piece);
            assert(vv(out@) =~= before.push(strip_cr(s@.subrange(j as int, k as int))));
            assert(vv(out@) + lines_from(s@, k + 1) =~= before + lines_from(s@, j as int));
            j = k + 1;
        } else {
            let piece = sub_chars(s, j, k);
            out.push(piece);
            assert(vv(out@) =~= before.push(s@.subrange(j as int, s@.len() as int)));
            assert(vv(out@) + lines_from(s@, k as int) =~= before + lines_from(s@, j as int));
            j = k;
        }
    }
    assert(vv(out@) + Seq::<Seq<char>>::empty() =~= vv(out@));
    out
}

/// Splits `s` after each line feed.
pub fn split_pieces(s: &Vec<char>) -> (r: Vec<Vec<char>>)
    ensures
        vv(r@) == pieces_from(s@, 0),
{
    let mut out: Vec<Vec<char>> = Vec::new();
    let mut j: usize = 0;
    assert(vv(out@) =~= Seq::<Seq<char>>::empty());
    while j < s.len()
        invariant
            j <= s@.len(),
            vv(out@) + pieces_from(s@, j as int) == pieces_from(s@, 0),
        decreases s.len() - j,
    {
        let mut k = j;
        while k < s.len() && s[k] != '\n'
            invariant
                j <= k <= s@.len(),
                char_pos(s@, k as int, '\n') == char_pos(s@, j as int, '\n'),
            decreases s.len() - k,
        {
            k = k + 1;
        }
        proof {
            lemma_char_pos(s@, j as int, '\n');
        }
        let ghost before = vv(out@);
        if k < s.len() {
            let piece = sub_chars(s, j, k + 1);
            out.push(piece);
            assert(vv(out@) =~= before.push(s@.subrange(j as int, k + 1)));
            assert(vv(out@) + pieces_from(s@, k + 1) =~= before + pieces_from(s@, j as int));
            j = k + 1;
        } else {
            let piece = sub_chars(s, j, k);
            out.push(piece);
            assert(vv(out@) =~= before.push(s@.subrange(j as int, s@.len() as int)));
            assert(vv(out@) + pieces_from(s@, k as int) =~= before + pieces_from(s@, j as int));
            j = k;
        }
    }
    assert(vv(out@) + Seq::<Seq<char>>::empty() =~= vv(out@));
    out
}


// ---------------------------------------------------------------------------
// Whitespace, control characters and numbers
// ---------------------------------------------------------------------------

/// Whether `c` has the Unicode `White_Space` property, which `char::is_whitespace` tests.
pub open spec fn is_white(c: char) -> bool {
    let v = c as u32;
    ||| 0x9 <= v <= 0xD
    ||| v == 0x20
    ||| v == 0x85
    ||| v == 0xA0
    ||| v == 0x1680
    ||| 0x2000 <= v <= 0x200A
    ||| v == 0x2028
    ||| v == 0x2029
    ||| v == 0x202F
    ||| v == 0x205F
    ||| v == 0x3000
}

pub fn is_white_exec(c: char) -> (r: bool)
    ensures
        r == is_white(c),
{
    let v = c as u32;
    (0x9 <= v && v <= 0xD) || v == 0x20 || v == 0x85 || v == 0xA0 || v == 0x1680 || (0x2000 <= v
        && v <= 0x200A) || v == 0x2028 || v == 0x2029 || v == 0x202F || v == 0x205F || v == 0x3000
}

/// Whether `c` is a control character (general category Cc), which `char::is_control` tests.
pub open spec fn is_control(c: char) -> bool {
    let v = c as u32;
    v <= 0x1F || (0x7F <= v <= 0x9F)
}

pub fn is_control_exec(c: char) -> (r: bool)
    ensures
        r == is_control(c),
{
    let v = c as u32;
    v <= 0x1F || (0x7F <= v && v <= 0x9F)
}

/// `s` without its leading whitespace.
pub open spec fn trim_ws_start(s: Seq<char>) -> Seq<char>
    decreases s.len(),
{
    if s.len() > 0 && is_white(s[0]) {
        trim_ws_start(s.drop_first())
    } else {
        s
    }
}

/// `s` without its trailing whitespace.
pub open spec fn trim_ws_end(s: Seq<char>) -> Seq<char>
    decreases s.len(),
{
    if s.len() > 0 && is_white(s.last()) {
        trim_ws_end(s.drop_last())
    } else {
        s
    }
}

/// `s` without leading and trailing whitespace, as `str::trim` gives it.
pub open spec fn trim_ws(s: Seq<char>) -> Seq<char> {
    trim_ws_end(trim_ws_start(s))
}

/// The characters of `s` without its leading whitespace.
pub fn trim_start_chars(s: &Vec<char>) -> (r: Vec<char>)
    ensures
        r@ == trim_ws_start(s@),
{
    let mut k: usize = 0;
    assert(s@.subrange(0, s@.len() as int) =~= s@);
    while k < s.len() && is_white_exec(s[k])
        invariant
            k <= s@.len(),
            trim_ws_start(s@.subrange(k as int, s@.len() as int)) == trim_ws_start(s@),
        decreases s.len() - k,
    {
        assert(s@.subrange(k as int, s@.len() as int).drop_first() =~= s@.subrange(k + 1, s@.len() as int));
        k = k + 1;
    }
    sub_chars(s, k, s.len())
}

/// The characters of `s` without its trailing whitespace.
pub fn trim_end_chars(s: &Vec<char>) -> (r: Vec<char>)
    ensures
        r@ == trim_ws_end(s@),
{
    let mut k: usize = s.len();
    assert(s@.subrange(0, s@.len() as int) =~= s@);
    while k > 0 && is_white_exec(s[k - 1])
        invariant
            k <= s@.len(),
            trim_ws_end(s@.subrange(0, k as int)) == trim_ws_end(s@),
        decreases k,
    {
        assert(s@.subrange(0, k as int).drop_last() =~= s@.subrange(0, k - 1));
        k = k - 1;
    }
    sub_chars(s, 0, k)
}

/// The characters of `s` without leading and trailing whitespace.
pub fn trim_chars(s: &Vec<char>) -> (r: Vec<char>)
    ensures
        r@ == trim_ws(s@),
{
    let t = trim_start_chars(s);
    trim_end_chars(&t)
}

/// Whether `s` begins with `prefix`.
pub open spec fn has_prefix(s: Seq<char>, prefix: Seq<char>) -> bool {
    prefix.len() <= s.len() && s.take(prefix.len() as int) == prefix
}

pub fn has_prefix_exec(s: &Vec<char>, prefix: &Vec<char>) -> (r: bool)
    ensures
        r == has_prefix(s@, prefix@),
{
    if prefix.len() > s.len() {
        return false;
    }
    let mut k: usize = 0;
    while k < prefix.len()
        invariant
            prefix@.len() <= s@.len(),
            k <= prefix@.len(),
            forall|j: int| 0 <= j < k ==> s@[j] == prefix@[j],
        decreases prefix.len() - k,
    {
        if s[k] != prefix[k] {
            assert(s@.take(prefix@.len() as int)[k as int] != prefix@[k as int]);
            return false;
        }
        k = k + 1;
    }
    assert(s@.take(prefix@.len() as int) =~= prefix@);
    true
}

/// `s` with every leading copy of `prefix` removed, as `str::trim_start_matches` gives it.
pub open spec fn strip_prefixes(s: Seq<char>, prefix: Seq<char>) -> Seq<char>
    decreases s.len(),
{
    if prefix.len() > 0 && has_prefix(s, prefix) {
        strip_prefixes(s.skip(prefix.len() as int), prefix)
    } else {
        s
    }
}

pub fn strip_prefixes_exec(s: &Vec<char>, prefix: &Vec<char>) -> (r: Vec<char>)
    ensures
        r@ == strip_prefixes(s@, prefix@),
{
    let mut cur = sub_chars(s, 0, s.len());
    assert(s@.subrange(0, s@.len() as int) =~= s@);
    if prefix.len() == 0 {
        return cur;
    }
    while has_prefix_exec(&cur, prefix)
        invariant
            prefix@.len() > 0,
            strip_prefixes(cur@, prefix@) == strip_prefixes(s@, prefix@),
        decreases cur@.len(),
    {
        let next = sub_chars(&cur, prefix.len(), cur.len());
        assert(next@ =~= cur@.skip(prefix@.len() as int));
        cur = next;
    }
    cur
}

/// Whether `c` is an ASCII decimal digit.
pub open spec fn is_digit(c: char) -> bool {
    '0' <= c <= '9'
}

/// The number the decimal digits `s` write.
pub open spec fn decimal_value(s: Seq<char>) -> int
    decreases s.len(),
{
    if s.len() == 0 {
        0
    } else {
        decimal_value(s.drop_last()) * 10 + (s.last() as int - '0' as int)
    }
}

/// Whether every character of `s` is a decimal digit.
pub open spec fn all_digits(s: Seq<char>) -> bool {
    forall|k: int| 0 <= k < s.len() ==> is_digit(#[trigger] s[k])
}

/// `s` without one leading `+`.
pub open spec fn unsigned_part(s: Seq<char>) -> Seq<char> {
    if s.len() > 0 && s[0] == '+' {
        s.drop_first()
    } else {
        s
    }
}

/// What `str::parse::<usize>` gives for `s`: an optional `+`, then one or more
/// decimal digits whose value fits in `usize`.
pub open spec fn parse_usize_spec(s: Seq<char>) -> Option<usize> {
    let d = unsigned_part(s);
    if d.len() > 0 && all_digits(d) && decimal_value(d) <= usize::MAX {
        Some(decimal_value(d) as usize)
    } else {
        None
    }
}

proof fn lemma_decimal_value_nonneg(s: Seq<char>)
    requires
        forall|i: int| 0 <= i < s.len() ==> is_digit(#[trigger] s[i]),
    ensures
        0 <= decimal_value(s),
    decreases s.len(),
{
    if s.len() > 0 {
        lemma_decimal_value_nonneg(s.drop_last());
        assert(is_digit(s[s.len() - 1]));
    }
}

proof fn lemma_decimal_value_grows(s: Seq<char>, j: int, k: int)
    requires
        0 <= j <= k <= s.len(),
        forall|i: int| 0 <= i < s.len() ==> is_digit(#[trigger] s[i]),
    ensures
        0 <= decimal_value(s.take(j)) <= decimal_value(s.take(k)),
    decreases k - j,
{
    if j < k {
        lemma_decimal_value_grows(s, j, k - 1);
        assert(s.take(k).drop_last() =~= s.take(k - 1));
        assert(is_digit(s[k - 1]));
    } else {
        lemma_decimal_value_nonneg(s.take(j));
    }
}

/// Parses a decimal number as `str::parse::<usize>` does.
pub fn parse_usize(s: &Vec<char>) -> (r: Option<usize>)
    ensures
        r == parse_usize_spec(s@),
{
    let start: usize = if s.len() > 0 && s[0] == '+' {
        1
    } else {
        0
    };
    let ghost d = unsigned_part(s@);
    assert(d =~= s@.subrange(start as int, s@.len() as int));
    if start == s.len() {
        return None;
    }
    let mut acc: usize = 0;
    let mut k: usize = start;
    while k < s.len()
        invariant
            start <= k <= s@.len(),
            d == s@.subrange(start as int, s@.len() as int),
            d == unsigned_part(s@),
            forall|i: int| start <= i < k ==> is_digit(#[trigger] s@[i]),
            acc as int == decimal_value(d.take(k - start)),
        decreases s.len() - k,
    {
        let c = s[k];
        assert(d[k - start] == s@[k as int]);
        if !('0' <= c && c <= '9') {
            proof {
                assert(!is_digit(d[k - start]));
                assert(!all_digits(d));
            }
            return None;
        }
        let dv = (c as u32 - '0' as u32) as usize;
        let ghost i = k - start;
        assert(d.take(i + 1).drop_last() =~= d.take(i));
        assert(d.take(i + 1).last() == c);
        assert(decimal_value(d.take(i + 1)) == acc * 10 + dv);
        let m = acc.checked_mul(10);
        let a = match m {
            Some(a10) => a10.checked_add(dv),
            None => None,
        };
        match a {
            Some(a) => {
                acc = a;
            },
            None => {
                proof {
                    assert(decimal_value(d.take(i + 1)) > usize::MAX);
                    if all_digits(d) {
                        lemma_decimal_value_grows(d, i + 1, d.len() as int);
                        assert(d.take(d.len() as int) =~= d);
                    }
                    }
                return None;
            },
        }
        k = k + 1;
    }
    assert(d.take(d.len() as int) =~= d);
    Some(acc)
}

} // verus!
