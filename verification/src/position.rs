//! Position resolution: parsing absolute badge positions out of layout
//! markup, and resolving each badge's destination on the canvas.

use vstd::prelude::*;
use crate::models::{BadgeInfo, LayoutEntry, badge_id_seq};

verus! {

// ---------------------------------------------------------------------
// Substring search
// ---------------------------------------------------------------------

/// Whether `p` occurs in `s` starting at position `i`.
pub open spec fn matches_at(s: Seq<char>, p: Seq<char>, i: int) -> bool {
    0 <= i && i + p.len() <= s.len() && s.subrange(i, i + p.len() as int) == p
}

/// The position of the first occurrence of `p` in `s`, if any.
pub open spec fn index_of_sub(s: Seq<char>, p: Seq<char>) -> Option<int>
    decreases s.len(),
{
    if p.len() > s.len() {
        None
    } else if s.subrange(0, p.len() as int) == p {
        Some(0)
    } else if s.len() == 0 {
        None
    } else {
        match index_of_sub(s.subrange(1, s.len() as int), p) {
            Some(i) => Some(i + 1),
            None => None,
        }
    }
}

/// Occurrences in the tail of `s` are occurrences in `s`, shifted.
proof fn lemma_shift_match(s: Seq<char>, p: Seq<char>, j: int)
    requires
        1 <= j,
        s.len() >= 1,
    ensures
        matches_at(s, p, j) == matches_at(s.subrange(1, s.len() as int), p, j - 1),
{
    let t = s.subrange(1, s.len() as int);
    if j + p.len() <= s.len() {
        assert(s.subrange(j, j + p.len() as int) =~= t.subrange(j - 1, j - 1 + p.len() as int));
    }
}

/// `index_of_sub` returns the first occurrence: a match where it points,
/// no match before it, and no match at all when it returns nothing.
pub proof fn lemma_index_of_sub(s: Seq<char>, p: Seq<char>)
    ensures
        match index_of_sub(s, p) {
            Some(i) => matches_at(s, p, i) && forall|j: int| 0 <= j < i ==> !matches_at(s, p, j),
            None => forall|j: int| !matches_at(s, p, j),
        },
    decreases s.len(),
{
    if p.len() > s.len() {
    } else if s.subrange(0, p.len() as int) == p {
    } else if s.len() == 0 {
        assert(forall|j: int| !matches_at(s, p, j));
    } else {
        let t = s.subrange(1, s.len() as int);
        lemma_index_of_sub(t, p);
        assert forall|j: int| 1 <= j implies matches_at(s, p, j) == matches_at(t, p, j - 1) by {
            lemma_shift_match(s, p, j);
        }
        assert(!matches_at(s, p, 0));
    }
}

/// Whether `pat` occurs in `hay` at position `i`, checked character by
/// character.
fn window_eq(hay: &Vec<char>, pat: &Vec<char>, i: usize) -> (r: bool)
    requires
        i + pat@.len() <= hay@.len(),
    ensures
        r == matches_at(hay@, pat@, i as int),
{
    let hn = hay.len();
    let mut k: usize = 0;
    while k < pat.len()
        invariant
            k <= pat@.len(),
            hn == hay@.len(),
            i + pat@.len() <= hay@.len(),
            hay@.len() <= usize::MAX,
            forall|m: int| 0 <= m < k ==> hay@[i + m] == pat@[m],
        decreases pat@.len() - k,
    {
        if hay[i + k] != pat[k] {
            proof {
                if matches_at(hay@, pat@, i as int) {
                    assert(hay@.subrange(i as int, i as int + pat@.len() as int)[k as int]
                        == hay@[i + k]);
                }
            }
            return false;
        }
        k = k + 1;
    }
    proof {
        assert(hay@.subrange(i as int, i as int + pat@.len() as int) =~= pat@);
    }
    true
}

/// Finds the first occurrence of `pat` in `hay`.
pub fn find_sub(hay: &Vec<char>, pat: &Vec<char>) -> (r: Option<usize>)
    ensures
        match r {
            Some(i) => index_of_sub(hay@, pat@) == Some(i as int),
            None => index_of_sub(hay@, pat@) is None,
        },
{
    if pat.len() > hay.len() {
        proof {
            lemma_index_of_sub(hay@, pat@);
        }
        return None;
    }
    if pat.len() == 0 {
        proof {
            assert(hay@.subrange(0, 0) =~= pat@);
        }
        return Some(0);
    }
    let last: usize = hay.len() - pat.len();
    let mut i: usize = 0;
    while i <= last
        invariant
            1 <= pat@.len() <= hay@.len(),
            hay@.len() <= usize::MAX,
            last == hay@.len() - pat@.len(),
            i <= last + 1,
            forall|j: int| 0 <= j < i ==> !matches_at(hay@, pat@, j),
        decreases last + 1 - i,
    {
        if window_eq(hay, pat, i) {
            proof {
                lemma_index_of_sub(hay@, pat@);
            }
            return Some(i);
        }
        i = i + 1;
    }
    proof {
        assert forall|j: int| !matches_at(hay@, pat@, j) by {
            if j >= 0 && j + pat@.len() <= hay@.len() {
                assert(j < i);
            }
        }
        lemma_index_of_sub(hay@, pat@);
    }
    None
}

// ---------------------------------------------------------------------
// Integer parsing
// ---------------------------------------------------------------------

pub open spec fn is_digit(c: char) -> bool {
    48 <= c as u32 && c as u32 <= 57
}

pub open spec fn digit_val(c: char) -> int {
    c as u32 - 48
}

pub open spec fn all_digits(s: Seq<char>) -> bool {
    forall|i: int| 0 <= i < s.len() ==> is_digit(#[trigger] s[i])
}

/// The value of a digit string, most significant digit first.
pub open spec fn dec_val(s: Seq<char>) -> int
    decreases s.len(),
{
    if s.len() == 0 {
        0
    } else {
        dec_val(s.drop_last()) * 10 + digit_val(s.last())
    }
}

/// The integer denoted by `s`: an optional `-` or `+` sign followed by
/// one or more digits; anything else does not parse.
pub open spec fn parse_int_spec(s: Seq<char>) -> Option<int> {
    if s.len() == 0 {
        None
    } else if s[0] == '-' {
        if s.len() > 1 && all_digits(s.subrange(1, s.len() as int)) {
            Some(-dec_val(s.subrange(1, s.len() as int)))
        } else {
            None
        }
    } else if s[0] == '+' {
        if s.len() > 1 && all_digits(s.subrange(1, s.len() as int)) {
            Some(dec_val(s.subrange(1, s.len() as int)))
        } else {
            None
        }
    } else {
        if all_digits(s) {
            Some(dec_val(s))
        } else {
            None
        }
    }
}

proof fn lemma_dec_val_nonneg(s: Seq<char>)
    requires
        all_digits(s),
    ensures
        dec_val(s) >= 0,
    decreases s.len(),
{
    if s.len() > 0 {
        assert(all_digits(s.drop_last()));
        lemma_dec_val_nonneg(s.drop_last());
    }
}

/// A digit string is worth at least any of its prefixes.
proof fn lemma_dec_val_prefix(s: Seq<char>, k: int)
    requires
        all_digits(s),
        0 <= k <= s.len(),
    ensures
        dec_val(s.subrange(0, k)) <= dec_val(s),
    decreases s.len() - k,
{
    if k == s.len() {
        assert(s.subrange(0, k) =~= s);
    } else {
        let a = s.subrange(0, k);
        let b = s.subrange(0, k + 1);
        assert(b.drop_last() =~= a);
        assert(all_digits(a)) by {
            assert(forall|i: int| 0 <= i < a.len() ==> a[i] == s[i]);
        }
        lemma_dec_val_nonneg(a);
        assert(dec_val(b) == dec_val(a) * 10 + digit_val(b.last()));
        assert(dec_val(a) * 10 >= dec_val(a)) by (nonlinear_arith)
            requires
                dec_val(a) >= 0,
        ;
        lemma_dec_val_prefix(s, k + 1);
    }
}

/// Parses an integer from the characters of `v`, accepting exactly the
/// strings that `parse_int_spec` gives a value in the `i64` range.
pub fn parse_i64(v: &Vec<char>) -> (r: Option<i64>)
    ensures
        ({
            let n = parse_int_spec(v@);
            if n is Some && i64::MIN <= n->0 <= i64::MAX {
                r == Some(n->0 as i64)
            } else {
                r is None
            }
        }),
{
    if v.len() == 0 {
        return None;
    }
    let c0 = v[0];
    let neg: bool = c0 == '-';
    let start: usize = if c0 == '-' || c0 == '+' {
        1
    } else {
        0
    };
    if v.len() == start {
        return None;
    }
    let limit: u64 = if neg {
        9223372036854775808u64
    } else {
        9223372036854775807u64
    };
    let ghost digits = v@.subrange(start as int, v@.len() as int);
    let mut mag: u64 = 0;
    let mut i: usize = start;
    while i < v.len()
        invariant
            start <= i <= v@.len(),
            start <= 1,
            (start == 1) == (v@[0] == '-' || v@[0] == '+'),
            neg == (v@[0] == '-'),
            v@.len() > start,
            limit == if neg {
                9223372036854775808u64
            } else {
                9223372036854775807u64
            },
            digits == v@.subrange(start as int, v@.len() as int),
            all_digits(v@.subrange(start as int, i as int)),
            mag as int == dec_val(v@.subrange(start as int, i as int)),
            mag <= limit,
        decreases v@.len() - i,
    {
        let c = v[i];
        let cv: u32 = c as u32;
        if !(48 <= cv && cv <= 57) {
            proof {
                if start == 0 {
                    assert(digits =~= v@);
                }
                assert(digits[i - start] == v@[i as int]);
                assert(!all_digits(digits));
                assert(parse_int_spec(v@) is None);
            }
            return None;
        }
        let d: u64 = (cv - 48) as u64;
        proof {
            assert(v@.subrange(start as int, i as int + 1).drop_last() =~= v@.subrange(
                start as int,
                i as int,
            ));
            assert(v@.subrange(start as int, i as int + 1).last() == v@[i as int]);
        }
        if mag > (limit - d) / 10 {
            proof {
                assert(mag * 10 > limit - d) by (nonlinear_arith)
                    requires
                        mag > (limit - d as u64) / 10,
                        0 <= d <= 9,
                        d <= limit,
                ;
                let pre = v@.subrange(start as int, i as int + 1);
                assert(all_digits(pre)) by {
                    assert(forall|m: int|
                        0 <= m < i - start ==> pre[m] == v@.subrange(start as int, i as int)[m]);
                }
                assert(dec_val(pre) > limit);
                assert(pre =~= digits.subrange(0, i - start + 1));
                if start == 0 {
                    assert(digits =~= v@);
                }
                if all_digits(digits) {
                    assert(forall|m: int| 0 <= m < pre.len() ==> pre[m] == digits[m]);
                    lemma_dec_val_prefix(digits, i - start + 1);
                    assert(dec_val(digits.subrange(0, i - start + 1)) <= dec_val(digits));
                    assert(dec_val(digits) > limit);
                }
            }
            return None;
        }
        proof {
            assert(mag * 10 + d <= limit) by (nonlinear_arith)
                requires
                    mag <= (limit - d as u64) / 10,
                    0 <= d <= 9,
                    d <= limit,
            ;
        }
        mag = mag * 10 + d;
        i = i + 1;
        proof {
            assert(all_digits(v@.subrange(start as int, i as int))) by {
                let pre = v@.subrange(start as int, i as int);
                assert(forall|m: int|
                    0 <= m < i - 1 - start ==> pre[m] == v@.subrange(start as int, i as int - 1)[m]);
                assert(pre[i - 1 - start] == v@[i - 1]);
            }
        }
    }
    proof {
        assert(v@.subrange(start as int, i as int) =~= digits);
        assert(all_digits(digits));
        assert(mag as int == dec_val(digits));
        if start == 0 {
            assert(digits =~= v@);
        }
    }
    if neg {
        if mag == 9223372036854775808u64 {
            Some(i64::MIN)
        } else {
            Some(-(mag as i64))
        }
    } else {
        Some(mag as i64)
    }
}

// ---------------------------------------------------------------------
// Trimming
// ---------------------------------------------------------------------

pub open spec fn is_space(c: char) -> bool {
    c == ' ' || c == '\t' || c == '\n' || c == '\r'
}

/// `s` with leading and trailing whitespace removed.
pub open spec fn trim_seq(s: Seq<char>) -> Seq<char>
    decreases s.len(),
{
    if s.len() == 0 {
        s
    } else if is_space(s[0]) {
        trim_seq(s.subrange(1, s.len() as int))
    } else if is_space(s.last()) {
        trim_seq(s.subrange(0, s.len() as int - 1))
    } else {
        s
    }
}

fn is_space_exec(c: char) -> (r: bool)
    ensures
        r == is_space(c),
{
    c == ' ' || c == '\t' || c == '\n' || c == '\r'
}

/// Copies the characters of `v` in positions `a ..= b-1`.
pub fn subvec(v: &Vec<char>, a: usize, b: usize) -> (r: Vec<char>)
    requires
        a <= b <= v@.len(),
    ensures
        r@ == v@.subrange(a as int, b as int),
{
    let mut r: Vec<char> = Vec::new();
    let mut i: usize = a;
    while i < b
        invariant
            a <= i <= b <= v@.len(),
            r@ == v@.subrange(a as int, i as int),
        decreases b - i,
    {
        r.push(v[i]);
        i = i + 1;
        proof {
            assert(r@ =~= v@.subrange(a as int, i as int));
        }
    }
    r
}

/// Removes leading and trailing whitespace.
pub fn trim_vec(v: Vec<char>) -> (r: Vec<char>)
    ensures
        r@ == trim_seq(v@),
    decreases v@.len(),
{
    if v.len() == 0 {
        v
    } else if is_space_exec(v[0]) {
        trim_vec(subvec(&v, 1, v.len()))
    } else if is_space_exec(v[v.len() - 1]) {
        trim_vec(subvec(&v, 0, v.len() - 1))
    } else {
        v
    }
}

// ---------------------------------------------------------------------
// Style parsing
// ---------------------------------------------------------------------

pub open spec fn px_seq() -> Seq<char> {
    seq!['p', 'x']
}

pub open spec fn left_key_seq() -> Seq<char> {
    seq!['l', 'e', 'f', 't', ':']
}

pub open spec fn top_key_seq() -> Seq<char> {
    seq!['t', 'o', 'p', ':']
}

/// The coordinate declared in a style string under `key`: the text
/// between the first occurrence of `key` and the next `px`, trimmed and
/// parsed as an integer.
pub open spec fn style_coord(style: Seq<char>, key: Seq<char>) -> Option<int> {
    match index_of_sub(style, key) {
        None => None,
        Some(i) => {
            let after = style.subrange(i + key.len(), style.len() as int);
            match index_of_sub(after, px_seq()) {
                None => None,
                Some(j) => parse_int_spec(trim_seq(after.subrange(0, j))),
            }
        },
    }
}

/// Extracts the coordinate declared under `key` (such as `left:`),
/// when present, numeric, and within the `i64` range.
pub fn extract_style_coord(style: &Vec<char>, key: &Vec<char>) -> (r: Option<i64>)
    ensures
        ({
            let n = style_coord(style@, key@);
            if n is Some && i64::MIN <= n->0 <= i64::MAX {
                r == Some(n->0 as i64)
            } else {
                r is None
            }
        }),
{
    match find_sub(style, key) {
        None => None,
        Some(i) => {
            proof {
                lemma_index_of_sub(style@, key@);
            }
            let sl = style.len();
            let after = subvec(style, i + key.len(), sl);
            match find_sub(&after, &px_vec()) {
                None => None,
                Some(j) => {
                    proof {
                        lemma_index_of_sub(after@, px_seq());
                    }
                    let t = trim_vec(subvec(&after, 0, j));
                    parse_i64(&t)
                },
            }
        },
    }
}

fn px_vec() -> (r: Vec<char>)
    ensures
        r@ == px_seq(),
{
    let mut r: Vec<char> = Vec::new();
    r.push('p');
    r.push('x');
    proof {
        assert(r@ =~= px_seq());
    }
    r
}

fn left_key_vec() -> (r: Vec<char>)
    ensures
        r@ == left_key_seq(),
{
    let mut r: Vec<char> = Vec::new();
    r.push('l');
    r.push('e');
    r.push('f');
    r.push('t');
    r.push(':');
    proof {
        assert(r@ =~= left_key_seq());
    }
    r
}

fn top_key_vec() -> (r: Vec<char>)
    ensures
        r@ == top_key_seq(),
{
    let mut r: Vec<char> = Vec::new();
    r.push('t');
    r.push('o');
    r.push('p');
    r.push(':');
    proof {
        assert(r@ =~= top_key_seq());
    }
    r
}

// ---------------------------------------------------------------------
// Layout entries
// ---------------------------------------------------------------------

/// The `left`/`top` coordinates declared by a style string, when both
/// are present, numeric, and within the `i64` range.
pub open spec fn entry_coords(style: Seq<char>) -> Option<(int, int)> {
    let x = style_coord(style, left_key_seq());
    let y = style_coord(style, top_key_seq());
    if x is Some && y is Some && i64::MIN <= x->0 <= i64::MAX && i64::MIN <= y->0 <= i64::MAX {
        Some((x->0, y->0))
    } else {
        None
    }
}

/// Whether one selected element yields a layout entry: it must carry
/// both attributes and declare both coordinates.
pub open spec fn elem_ok(e: (Option<Seq<char>>, Option<Seq<char>>)) -> bool {
    e.0 is Some && e.1 is Some && entry_coords(e.1->0) is Some
}

/// The layout entries extracted from a list of selected elements, as
/// (identifier, x, y) triples; elements with a missing attribute or a
/// malformed style are skipped.
pub open spec fn layout_views(elems: Seq<(Option<Seq<char>>, Option<Seq<char>>)>) -> Seq<
    (Seq<char>, int, int),
>
    decreases elems.len(),
{
    if elems.len() == 0 {
        Seq::empty()
    } else {
        let rest = layout_views(elems.drop_last());
        let e = elems.last();
        if elem_ok(e) {
            let c = (entry_coords(e.1->0))->0;
            rest.push((e.0->0, c.0, c.1))
        } else {
            rest
        }
    }
}

/// The view of an optional owned string.
pub open spec fn opt_str_view(o: Option<String>) -> Option<Seq<char>> {
    match o {
        Some(s) => Some(s@),
        None => None,
    }
}

pub open spec fn elem_views(elems: Seq<(Option<String>, Option<String>)>) -> Seq<
    (Option<Seq<char>>, Option<Seq<char>>),
> {
    elems.map_values(|e: (Option<String>, Option<String>)| (opt_str_view(e.0), opt_str_view(e.1)))
}

pub open spec fn entry_views(entries: Seq<LayoutEntry>) -> Seq<(Seq<char>, int, int)> {
    entries.map_values(|e: LayoutEntry| (e.id@, e.x as int, e.y as int))
}

/// Builds the layout entry list from the selected elements' `id` and
/// `style` attributes, skipping any element whose attributes are absent
/// or whose coordinates do not parse.
pub fn parse_layout_entries(elements: &Vec<(Option<String>, Option<String>)>) -> (r: Vec<
    LayoutEntry,
>)
    ensures
        entry_views(r@) == layout_views(elem_views(elements@)),
{
    let left_key = left_key_vec();
    let top_key = top_key_vec();
    let mut r: Vec<LayoutEntry> = Vec::new();
    let mut k: usize = 0;
    while k < elements.len()
        invariant
            k <= elements@.len(),
            left_key@ == left_key_seq(),
            top_key@ == top_key_seq(),
            entry_views(r@) == layout_views(elem_views(elements@).take(k as int)),
        decreases elements@.len() - k,
    {
        let ghost prev = r@;
        let e = &elements[k];
        match (&e.0, &e.1) {
            (Some(id), Some(style)) => {
                let style_chars = crate::text::chars_vec(style.as_str());
                let x = extract_style_coord(&style_chars, &left_key);
                let y = extract_style_coord(&style_chars, &top_key);
                match (x, y) {
                    (Some(xv), Some(yv)) => {
                        r.push(LayoutEntry { id: id.clone(), x: xv, y: yv });
                    },
                    _ => {},
                }
            },
            _ => {},
        }
        k = k + 1;
        proof {
            let evs = elem_views(elements@);
            assert(evs.take(k as int).drop_last() =~= evs.take(k as int - 1));
            assert(evs.take(k as int).last() == evs[k as int - 1]);
            assert(entry_views(r@) =~= layout_views(evs.take(k as int)));
        }
    }
    proof {
        assert(elem_views(elements@).take(elements@.len() as int) =~= elem_views(elements@));
    }
    r
}

// ---------------------------------------------------------------------
// Selecting badge elements from markup (outside HTML parser)
// ---------------------------------------------------------------------

/// The `id` and `style` attributes of each `img.badgeimg` element of a
/// markup fragment, in document order.  Determined by the markup text
/// alone.
pub uninterp spec fn badge_elements_of(html: Seq<char>) -> Seq<
    (Option<Seq<char>>, Option<Seq<char>>),
>;

/// Relies on scraper: `Html::parse_fragment` parses the markup,
/// `select` walks the `img.badgeimg` elements in document order, and
/// `attr` hands back each element's `id` and `style` attribute values.
/// (`Selector::parse` cannot fail on this fixed, valid selector.)
#[verifier::external_body]
fn select_badge_elements(html: &str) -> (r: Vec<(Option<String>, Option<String>)>)
    ensures
        elem_views(r@) == badge_elements_of(html@),
{
    let doc = scraper::Html::parse_fragment(html);
    let sel = scraper::Selector::parse("img.badgeimg").unwrap();
    let attrs = |el: scraper::ElementRef| {
        let e = el.value();
        (e.attr("id").map(|s| s.to_string()), e.attr("style").map(|s| s.to_string()))
    };
    doc.select(&sel).map(attrs).collect()
}

/// Parses layout markup into the list of absolute badge positions it
/// declares: one entry per `img.badgeimg` element that carries an `id`
/// and a style with numeric `left:<N>px` and `top:<N>px` declarations.
pub fn parse_layout_markup(html: &str) -> (r: Vec<LayoutEntry>)
    ensures
        entry_views(r@) == layout_views(badge_elements_of(html@)),
{
    let elements = select_badge_elements(html);
    parse_layout_entries(&elements)
}

// ---------------------------------------------------------------------
// Position resolution
// ---------------------------------------------------------------------

/// The first layout entry carrying the given identifier, if any.
pub open spec fn first_layout_match(entries: Seq<LayoutEntry>, id: Seq<char>) -> Option<int>
    decreases entries.len(),
{
    if entries.len() == 0 {
        None
    } else if entries[0].id@ == id {
        Some(0)
    } else {
        match first_layout_match(entries.subrange(1, entries.len() as int), id) {
            Some(i) => Some(i + 1),
            None => None,
        }
    }
}

/// `first_layout_match` points at the first matching entry.
pub proof fn lemma_first_layout_match(entries: Seq<LayoutEntry>, id: Seq<char>)
    ensures
        match first_layout_match(entries, id) {
            Some(i) => 0 <= i < entries.len() && entries[i].id@ == id && forall|j: int|
                0 <= j < i ==> entries[j].id@ != id,
            None => forall|j: int| 0 <= j < entries.len() ==> entries[j].id@ != id,
        },
    decreases entries.len(),
{
    if entries.len() == 0 {
    } else if entries[0].id@ == id {
    } else {
        let sub = entries.subrange(1, entries.len() as int);
        lemma_first_layout_match(sub, id);
        assert(forall|j: int| 1 <= j < entries.len() ==> entries[j] == #[trigger] sub[j - 1]);
        match first_layout_match(sub, id) {
            Some(i) => {
                assert(entries[i + 1] == sub[i]);
                assert forall|j: int| 0 <= j < i + 1 implies entries[j].id@ != id by {
                    if j >= 1 {
                        assert(sub[j - 1].id@ != id);
                    }
                }
            },
            None => {
                assert forall|j: int| 0 <= j < entries.len() implies entries[j].id@ != id by {
                    if j >= 1 {
                        assert(sub[j - 1].id@ != id);
                    }
                }
            },
        }
    }
}

/// Resolves a badge's destination: the literal position of the first
/// layout entry whose identifier matches the badge's identifier when
/// the markup declares one, else the formulaic location.
pub fn resolve_position(badge: &BadgeInfo, entries: &Vec<LayoutEntry>) -> (r: (i64, i64))
    ensures
        ({
            let id = badge_id_seq(badge.creator_id as int, badge.creator_badge_index as int);
            match first_layout_match(entries@, id) {
                Some(i) => r == (entries@[i].x, entries@[i].y),
                None => r.0 == badge.xloc && r.1 == badge.yloc as int % (
                crate::CANVAS_HEIGHT as int),
            }
        }),
{
    let id = badge.to_id_string();
    let mut k: usize = 0;
    while k < entries.len()
        invariant
            k <= entries@.len(),
            id@ == badge_id_seq(badge.creator_id as int, badge.creator_badge_index as int),
            forall|j: int| 0 <= j < k ==> (#[trigger] entries@[j].id@) != id@,
        decreases entries@.len() - k,
    {
        if entries[k].id == id {
            proof {
                lemma_first_layout_match(entries@, id@);
            }
            return (entries[k].x, entries[k].y);
        }
        k = k + 1;
    }
    proof {
        lemma_first_layout_match(entries@, id@);
    }
    badge.to_offset_location()
}

} // verus!
