use vstd::prelude::*;

use crate::styles::units::{Color, FloatBits, Vec2};

verus! {

/// Whether `c` is white space (the Unicode `White_Space` property, which both `char::is_whitespace`
/// and the `\s` class of regular expressions use).
pub open spec fn is_white(c: char) -> bool {
    ||| c == ' '
    ||| ('\u{9}' <= c && c <= '\u{d}')
    ||| c == '\u{85}'
    ||| c == '\u{a0}'
    ||| c == '\u{1680}'
    ||| ('\u{2000}' <= c && c <= '\u{200a}')
    ||| c == '\u{2028}'
    ||| c == '\u{2029}'
    ||| c == '\u{202f}'
    ||| c == '\u{205f}'
    ||| c == '\u{3000}'
}

fn white(c: char) -> (r: bool)
    ensures
        r == is_white(c),
{
    c == ' ' || ('\u{9}' <= c && c <= '\u{d}') || c == '\u{85}' || c == '\u{a0}' || c == '\u{1680}'
        || ('\u{2000}' <= c && c <= '\u{200a}') || c == '\u{2028}' || c == '\u{2029}' || c == '\u{202f}'
        || c == '\u{205f}' || c == '\u{3000}'
}

/// Whether `pat` occurs in `s` at position `i`.
pub open spec fn occurs_at(s: Seq<char>, pat: Seq<char>, i: int) -> bool {
    0 <= i && i + pat.len() <= s.len() && s.subrange(i, i + pat.len()) == pat
}

/// Whether `pat` occurs in `s`.
pub open spec fn contains_text(s: Seq<char>, pat: Seq<char>) -> bool {
    exists|i: int| #[trigger] occurs_at(s, pat, i)
}

/// `s` with each occurrence of `pat` removed, the occurrences found from left to right
/// without overlap (what `str::replace` with an empty replacement gives).
pub open spec fn remove_all(s: Seq<char>, pat: Seq<char>) -> Seq<char>
    decreases s.len(),
{
    if s.len() == 0 || pat.len() == 0 {
        s
    } else if occurs_at(s, pat, 0) {
        remove_all(s.skip(pat.len() as int), pat)
    } else {
        seq![s[0]] + remove_all(s.skip(1), pat)
    }
}

/// The characters of `s`.
pub fn chars_of(s: &str) -> (r: Vec<char>)
    ensures
        r@ == s@,
{
    let mut out: Vec<char> = Vec::new();
    for c in it: s.chars()
        invariant
            out@ == it.seq().take(it.index() as int),
            it.seq() == s@,
    {
        assert(it.seq().take(it.index() + 1) =~= it.seq().take(it.index() as int).push(c));
        out.push(c);
    }
    assert(s@.take(s@.len() as int) =~= s@);
    out
}

/// Whether `pat` occurs in `s` at position `i`.
fn occurs_at_exec(s: &Vec<char>, pat: &Vec<char>, i: usize) -> (r: bool)
    ensures
        r == occurs_at(s@, pat@, i as int),
{
    if i > s.len() || pat.len() > s.len() - i {
        return false;
    }
    let n = s.len();
    let mut k: usize = 0;
    while k < pat.len()
        invariant
            n == s@.len(),
            i + pat@.len() <= s@.len(),
            k <= pat@.len(),
            forall|m: int| 0 <= m < k ==> s@[i + m] == pat@[m],
        decreases pat@.len() - k,
    {
        if s[i + k] != pat[k] {
            assert(s@.subrange(i as int, i + pat@.len())[k as int] != pat@[k as int]);
            return false;
        }
        k += 1;
    }
    assert(s@.subrange(i as int, i + pat@.len()) =~= pat@);
    true
}

/// Whether `pat` occurs in `s`.
pub fn contains_text_exec(s: &Vec<char>, pat: &Vec<char>) -> (r: bool)
    ensures
        r == contains_text(s@, pat@),
{
    if pat.len() == 0 {
        assert(s@.subrange(0, 0) =~= pat@);
        assert(occurs_at(s@, pat@, 0));
        return true;
    }
    let mut i: usize = 0;
    while i < s.len()
        invariant
            pat@.len() > 0,
            i <= s@.len(),
            forall|j: int| 0 <= j < i ==> !occurs_at(s@, pat@, j),
        decreases s@.len() - i,
    {
        if occurs_at_exec(s, pat, i) {
            return true;
        }
        i += 1;
    }
    assert forall|j: int| !occurs_at(s@, pat@, j) by {
        if 0 <= j < s@.len() {
            assert(j < i);
        }
    }
    false
}

proof fn lemma_remove_all_step(s: Seq<char>, pat: Seq<char>, i: int)
    requires
        0 <= i < s.len(),
        pat.len() > 0,
    ensures
        occurs_at(s, pat, i) ==> remove_all(s.skip(i), pat) == remove_all(s.skip(i + pat.len()), pat),
        !occurs_at(s, pat, i) ==> remove_all(s.skip(i), pat) == seq![s[i]] + remove_all(s.skip(i + 1), pat),
{
    let t = s.skip(i);
    assert(t.len() > 0);
    if i + pat.len() <= s.len() {
        assert(t.subrange(0, pat.len() as int) =~= s.subrange(i, i + pat.len()));
    }
    assert(occurs_at(t, pat, 0) == occurs_at(s, pat, i));
    if i + pat.len() <= s.len() {
        assert(t.skip(pat.len() as int) =~= s.skip(i + pat.len()));
    }
    assert(t.skip(1) =~= s.skip(i + 1));
}

/// `s` with each occurrence of `pat` removed, from left to right.
pub fn remove_all_exec(s: &Vec<char>, pat: &Vec<char>) -> (r: Vec<char>)
    ensures
        r@ == remove_all(s@, pat@),
{
    if pat.len() == 0 {
        let mut out: Vec<char> = Vec::new();
        let mut k: usize = 0;
        while k < s.len()
            invariant
                k <= s@.len(),
                out@ == s@.take(k as int),
            decreases s@.len() - k,
        {
            assert(s@.take(k + 1) =~= s@.take(k as int).push(s@[k as int]));
            out.push(s[k]);
            k += 1;
        }
        assert(s@.take(s@.len() as int) =~= s@);
        return out;
    }
    let mut out: Vec<char> = Vec::new();
    let mut i: usize = 0;
    assert(s@.skip(0) =~= s@);
    while i < s.len()
        invariant
            pat@.len() > 0,
            i <= s@.len(),
            out@ + remove_all(s@.skip(i as int), pat@) == remove_all(s@, pat@),
        decreases s@.len() - i,
    {
        proof {
            lemma_remove_all_step(s@, pat@, i as int);
        }
        if occurs_at_exec(s, pat, i) {
            i += pat.len();
        } else {
            let ghost before = out@;
            out.push(s[i]);
            assert(out@ + remove_all(s@.skip(i + 1), pat@) =~= before + (seq![s@[i as int]] + remove_all(s@.skip(i + 1), pat@)));
            i += 1;
        }
    }
    assert(s@.skip(i as int).len() == 0);
    assert(out@ + remove_all(s@.skip(i as int), pat@) =~= out@);
    out
}

/// Where a text is split.
#[derive(Debug, Clone, Copy, PartialEq, Eq, Structural)]
pub enum Separator {
    /// At each comma.
    Comma,
    /// At each comma outside parentheses.
    OuterComma,
    /// At each white space character outside parentheses.
    OuterSpace,
}

/// Whether, from position `j` of `s` on, a `)` comes before any `(`: a position there is
/// inside parentheses.
pub open spec fn closes_before_open(s: Seq<char>, j: int) -> bool
    decreases s.len() - j,
{
    if j < 0 || j >= s.len() {
        false
    } else if s[j] == ')' {
        true
    } else if s[j] == '(' {
        false
    } else {
        closes_before_open(s, j + 1)
    }
}

/// Whether position `i` of `s` separates pieces.
pub open spec fn separates(s: Seq<char>, sep: Separator, i: int) -> bool {
    match sep {
        Separator::Comma => s[i] == ',',
        Separator::OuterComma => s[i] == ',' && !closes_before_open(s, i + 1),
        Separator::OuterSpace => is_white(s[i]) && !closes_before_open(s, i + 1),
    }
}

/// The pieces of `s` from position `from` on, as spans of positions, the current piece
/// starting at `start`: each separator ends a piece, and the end of `s` ends the last one.
pub open spec fn spans_from(s: Seq<char>, sep: Separator, from: int, start: int) -> Seq<(int, int)>
    decreases s.len() - from,
{
    if from >= s.len() {
        seq![(start, s.len() as int)]
    } else if separates(s, sep, from) {
        seq![(start, from)] + spans_from(s, sep, from + 1, from + 1)
    } else {
        spans_from(s, sep, from + 1, start)
    }
}

/// The pieces of `s` between separators.
pub open spec fn split_text(s: Seq<char>, sep: Separator) -> Seq<Seq<char>> {
    spans_from(s, sep, 0, 0).map_values(|p: (int, int)| s.subrange(p.0, p.1))
}

/// The spans of the pieces of `s` between separators.
fn split_spans(s: &Vec<char>, sep: Separator) -> (r: Vec<(usize, usize)>)
    ensures
        r@.len() == spans_from(s@, sep, 0, 0).len(),
        forall|k: int| 0 <= k < r@.len() ==> {
            &&& (#[trigger] r@[k]).0 == spans_from(s@, sep, 0, 0)[k].0
            &&& r@[k].1 == spans_from(s@, sep, 0, 0)[k].1
            &&& r@[k].0 <= r@[k].1 <= s@.len()
        },
{
    let n = s.len();
    // closes[j] tells whether a `)` comes before any `(` from position j on.
    let mut closes: Vec<bool> = Vec::new();
    let mut j: usize = n;
    let mut acc = false;
    let mut rev: Vec<bool> = Vec::new();
    rev.push(false);
    while j > 0
        invariant
            n == s@.len(),
            j <= n,
            rev@.len() == n - j + 1,
            acc == closes_before_open(s@, j as int),
            forall|m: int| 0 <= m < rev@.len() ==> #[trigger] rev@[m] == closes_before_open(s@, n - m),
        decreases j,
    {
        j -= 1;
        let c = s[j];
        acc = if c == ')' {
            true
        } else if c == '(' {
            false
        } else {
            acc
        };
        rev.push(acc);
    }
    let mut m: usize = rev.len();
    while m > 0
        invariant
            n == s@.len(),
            rev@.len() == n + 1,
            m <= rev@.len(),
            closes@.len() == rev@.len() - m,
            forall|m: int| 0 <= m < rev@.len() ==> #[trigger] rev@[m] == closes_before_open(s@, n - m),
            forall|q: int| 0 <= q < closes@.len() ==> #[trigger] closes@[q] == closes_before_open(s@, q),
        decreases m,
    {
        m -= 1;
        closes.push(rev[m]);
    }
    let mut out: Vec<(usize, usize)> = Vec::new();
    let mut start: usize = 0;
    let mut i: usize = 0;
    while i < n
        invariant
            n == s@.len(),
            closes@.len() == n + 1,
            forall|q: int| 0 <= q < closes@.len() ==> #[trigger] closes@[q] == closes_before_open(s@, q),
            start <= i <= n,
            out@.len() + spans_from(s@, sep, i as int, start as int).len() == spans_from(s@, sep, 0, 0).len(),
            forall|k: int| 0 <= k < spans_from(s@, sep, i as int, start as int).len() ==>
                spans_from(s@, sep, 0, 0)[out@.len() + k] == #[trigger] spans_from(s@, sep, i as int, start as int)[k],
            forall|k: int| 0 <= k < out@.len() ==> {
                &&& (#[trigger] out@[k]).0 == spans_from(s@, sep, 0, 0)[k].0
                &&& out@[k].1 == spans_from(s@, sep, 0, 0)[k].1
                &&& out@[k].0 <= out@[k].1 <= n
            },
        decreases n - i,
    {
        let c = s[i];
        let inside = closes[i + 1];
        let is_sep = match sep {
            Separator::Comma => c == ',',
            Separator::OuterComma => c == ',' && !inside,
            Separator::OuterSpace => white(c) && !inside,
        };
        assert(is_sep == separates(s@, sep, i as int));
        let ghost rest = spans_from(s@, sep, i as int, start as int);
        if is_sep {
            assert(rest == seq![(start as int, i as int)] + spans_from(s@, sep, i + 1, i + 1));
            out.push((start, i));
            start = i + 1;
            proof {
                assert forall|k: int| 0 <= k < spans_from(s@, sep, i + 1, start as int).len() implies
                    spans_from(s@, sep, 0, 0)[out@.len() + k] == #[trigger] spans_from(s@, sep, i + 1, start as int)[k] by {
                    assert(rest[k + 1] == spans_from(s@, sep, i + 1, start as int)[k]);
                }
                assert(rest[0] == (out@.last().0 as int, out@.last().1 as int));
            }
        } else {
            assert(rest == spans_from(s@, sep, i + 1, start as int));
        }
        i += 1;
    }
    let ghost rest = spans_from(s@, sep, n as int, start as int);
    assert(rest == seq![(start as int, n as int)]);
    out.push((start, n));
    assert(rest[0] == (start as int, n as int));
    out
}

/// Where the text of `s` starts once leading white space (from position `i` on) is skipped.
pub open spec fn lead_end(s: Seq<char>, i: int) -> int
    decreases s.len() - i,
{
    if i < 0 || i >= s.len() {
        s.len() as int
    } else if is_white(s[i]) {
        lead_end(s, i + 1)
    } else {
        i
    }
}

/// Where the text of `s[..j]` ends once trailing white space is skipped.
pub open spec fn trail_end(s: Seq<char>, j: int) -> int
    decreases j,
{
    if j <= 0 || j > s.len() {
        0
    } else if is_white(s[j - 1]) {
        trail_end(s, j - 1)
    } else {
        j
    }
}

/// `s` without leading and trailing white space (what `str::trim` gives).
pub open spec fn trim(s: Seq<char>) -> Seq<char> {
    let a = lead_end(s, 0);
    let b = trail_end(s, s.len() as int);
    if a < b {
        s.subrange(a, b)
    } else {
        Seq::empty()
    }
}

/// The characters of `s` from position `a` to position `b`.
fn sub_chars(s: &Vec<char>, a: usize, b: usize) -> (r: Vec<char>)
    requires
        a <= b <= s@.len(),
    ensures
        r@ == s@.subrange(a as int, b as int),
{
    let mut out: Vec<char> = Vec::new();
    let mut k: usize = a;
    while k < b
        invariant
            a <= k <= b,
            b <= s@.len(),
            out@ == s@.subrange(a as int, k as int),
        decreases b - k,
    {
        assert(s@.subrange(a as int, k + 1) =~= s@.subrange(a as int, k as int).push(s@[k as int]));
        out.push(s[k]);
        k += 1;
    }
    out
}

/// `s` without leading and trailing white space.
pub fn trim_exec(s: &Vec<char>) -> (r: Vec<char>)
    ensures
        r@ == trim(s@),
{
    let n = s.len();
    let mut a: usize = 0;
    while a < n && white(s[a])
        invariant
            n == s@.len(),
            a <= n,
            lead_end(s@, 0) == lead_end(s@, a as int),
        decreases n - a,
    {
        a += 1;
    }
    let mut b: usize = n;
    while b > 0 && white(s[b - 1])
        invariant
            n == s@.len(),
            b <= n,
            trail_end(s@, n as int) == trail_end(s@, b as int),
        decreases b,
    {
        b -= 1;
    }
    assert(lead_end(s@, a as int) == a);
    assert(trail_end(s@, b as int) == b);
    if a < b {
        sub_chars(s, a, b)
    } else {
        Vec::new()
    }
}

proof fn lemma_spans_nonempty(s: Seq<char>, sep: Separator, from: int, start: int)
    ensures
        spans_from(s, sep, from, start).len() >= 1,
    decreases s.len() - from,
{
    if from < s.len() {
        lemma_spans_nonempty(s, sep, from + 1, if separates(s, sep, from) { from + 1 } else { start });
    }
}

/// The pieces of `s` between separators.
fn split_exec(s: &Vec<char>, sep: Separator) -> (r: Vec<Vec<char>>)
    ensures
        r@.len() == split_text(s@, sep).len(),
        r@.len() >= 1,
        forall|k: int| 0 <= k < r@.len() ==> (#[trigger] r@[k])@ == split_text(s@, sep)[k],
{
    let spans = split_spans(s, sep);
    proof {
        lemma_spans_nonempty(s@, sep, 0, 0);
    }
    let mut out: Vec<Vec<char>> = Vec::new();
    let mut k: usize = 0;
    while k < spans.len()
        invariant
            k <= spans@.len(),
            spans@.len() == spans_from(s@, sep, 0, 0).len(),
            forall|q: int| 0 <= q < spans@.len() ==> {
                &&& (#[trigger] spans@[q]).0 == spans_from(s@, sep, 0, 0)[q].0
                &&& spans@[q].1 == spans_from(s@, sep, 0, 0)[q].1
                &&& spans@[q].0 <= spans@[q].1 <= s@.len()
            },
            out@.len() == k,
            forall|q: int| 0 <= q < k ==> (#[trigger] out@[q])@ == split_text(s@, sep)[q],
        decreases spans@.len() - k,
    {
        let (a, b) = spans[k];
        let piece = sub_chars(s, a, b);
        out.push(piece);
        k += 1;
    }
    out
}

/// The text of one shadow in a `box-shadow` value: its color, and its lengths in the order
/// given without their `px` unit.
pub struct ShadowText {
    pub color: Vec<char>,
    pub lengths: Vec<Vec<char>>,
}

/// The color of a shadow made of `parts`: the last part when it reads as an `rgb`/`rgba` or
/// `#` color, the first part otherwise.
pub open spec fn shadow_color(parts: Seq<Seq<char>>) -> Seq<char> {
    let last = parts.last();
    if contains_text(last, "rgb"@) || contains_text(last, "#"@) {
        last
    } else {
        parts[0]
    }
}

/// The lengths of a shadow made of `parts` with color `color`: the parts other than
/// `inset` and the color, without `px`.
pub open spec fn shadow_lengths(parts: Seq<Seq<char>>, color: Seq<char>) -> Seq<Seq<char>>
    decreases parts.len(),
{
    if parts.len() == 0 {
        Seq::empty()
    } else {
        let prev = shadow_lengths(parts.drop_last(), color);
        let p = parts.last();
        if p != "inset"@ && p != color {
            prev.push(remove_all(p, "px"@))
        } else {
            prev
        }
    }
}

/// The lengths taken from parts none of which is `inset` or the color are those parts,
/// each without `px`, in order.
pub proof fn lemma_lengths_of_plain_parts(parts: Seq<Seq<char>>, color: Seq<char>)
    requires
        forall|i: int| 0 <= i < parts.len() ==> parts[i] != "inset"@ && parts[i] != color,
    ensures
        shadow_lengths(parts, color) == parts.map_values(|p: Seq<char>| remove_all(p, "px"@)),
    decreases parts.len(),
{
    if parts.len() > 0 {
        lemma_lengths_of_plain_parts(parts.drop_last(), color);
        assert(shadow_lengths(parts, color) =~= parts.map_values(|p: Seq<char>| remove_all(p, "px"@)));
    }
}

/// A shadow whose last part holds the text `rgb` (so an `rgb(..)` as well as an `rgba(..)`
/// color) or `#` has that last part as its color, and its lengths are the other parts,
/// each without `px`, when none of them is `inset` or the same text as the color.
pub proof fn lemma_trailing_color(parts: Seq<Seq<char>>, k: int)
    requires
        parts.len() > 0,
        occurs_at(parts.last(), "rgb"@, k) || occurs_at(parts.last(), "#"@, k),
    ensures
        shadow_color(parts) == parts.last(),
        (forall|i: int| 0 <= i < parts.len() - 1 ==> parts[i] != "inset"@ && parts[i] != parts.last())
            ==> shadow_lengths(parts, shadow_color(parts))
                == parts.drop_last().map_values(|p: Seq<char>| remove_all(p, "px"@)),
{
    assert(contains_text(parts.last(), "rgb"@) || contains_text(parts.last(), "#"@));
    let color = parts.last();
    if forall|i: int| 0 <= i < parts.len() - 1 ==> parts[i] != "inset"@ && parts[i] != color {
        lemma_lengths_of_plain_parts(parts.drop_last(), color);
        assert(shadow_lengths(parts, color) == shadow_lengths(parts.drop_last(), color));
    }
}

/// A shadow whose last part holds neither the text `rgb` nor `#` has its first part as its
/// color.
pub proof fn lemma_leading_color(parts: Seq<Seq<char>>)
    requires
        parts.len() > 0,
        forall|k: int| !occurs_at(parts.last(), "rgb"@, k) && !occurs_at(parts.last(), "#"@, k),
    ensures
        shadow_color(parts) == parts[0],
{
}

/// The shadows of a `box-shadow` value (the `box-shadow: ` prefix and semicolons are
/// dropped): its comma-separated values outside parentheses, trimmed.
pub open spec fn shadow_values(s: Seq<char>) -> Seq<Seq<char>> {
    let text = remove_all(remove_all(s, "box-shadow: "@), ";"@);
    split_text(text, Separator::OuterComma).map_values(|v: Seq<char>| trim(v))
}

/// The text of one shadow value `v`: its parts are separated by white space outside
/// parentheses.
fn shadow_text(v: &Vec<char>) -> (r: ShadowText)
    ensures
        r.color@ == shadow_color(split_text(v@, Separator::OuterSpace)),
        r.lengths@.len() == shadow_lengths(split_text(v@, Separator::OuterSpace), r.color@).len(),
        forall|j: int| 0 <= j < r.lengths@.len() ==> (#[trigger] r.lengths@[j])@
            == shadow_lengths(split_text(v@, Separator::OuterSpace), r.color@)[j],
{
    let parts = split_exec(v, Separator::OuterSpace);
    let ghost ps = split_text(v@, Separator::OuterSpace);
    let rgb = chars_of("rgb");
    let hash = chars_of("#");
    let inset = chars_of("inset");
    let px = chars_of("px");
    let last = parts.len() - 1;
    let color = if contains_text_exec(&parts[last], &rgb) || contains_text_exec(&parts[last], &hash) {
        sub_chars(&parts[last], 0, parts[last].len())
    } else {
        sub_chars(&parts[0], 0, parts[0].len())
    };
    assert(parts@[last as int]@.subrange(0, parts@[last as int]@.len() as int) =~= parts@[last as int]@);
    assert(parts@[0]@.subrange(0, parts@[0]@.len() as int) =~= parts@[0]@);
    assert(ps.last() == ps[last as int]);
    let mut lengths: Vec<Vec<char>> = Vec::new();
    let mut k: usize = 0;
    while k < parts.len()
        invariant
            k <= parts@.len(),
            parts@.len() == ps.len(),
            forall|q: int| 0 <= q < parts@.len() ==> (#[trigger] parts@[q])@ == ps[q],
            inset@ == "inset"@,
            px@ == "px"@,
            lengths@.len() == shadow_lengths(ps.take(k as int), color@).len(),
            forall|j: int| 0 <= j < lengths@.len() ==> (#[trigger] lengths@[j])@ == shadow_lengths(ps.take(k as int), color@)[j],
        decreases parts@.len() - k,
    {
        let part = &parts[k];
        assert(ps.take(k + 1).drop_last() =~= ps.take(k as int));
        assert(ps.take(k + 1).last() == ps[k as int]);
        let is_inset = part.len() == inset.len() && occurs_at_exec(part, &inset, 0);
        let is_color = part.len() == color.len() && occurs_at_exec(part, &color, 0);
        proof {
            if part@.len() == inset@.len() {
                assert(part@.subrange(0, part@.len() as int) =~= part@);
            }
            if part@.len() == color@.len() {
                assert(part@.subrange(0, part@.len() as int) =~= part@);
            }
        }
        assert(is_inset == (part@ == inset@));
        assert(is_color == (part@ == color@));
        if !is_inset && !is_color {
            let length = remove_all_exec(part, &px);
            lengths.push(length);
        }
        k += 1;
    }
    assert(ps.take(ps.len() as int) =~= ps);
    ShadowText { color, lengths }
}

/// Splits a `box-shadow` value into its shadows: the `box-shadow: ` prefix and semicolons
/// are dropped, shadows are separated by commas outside parentheses, and each shadow's
/// parts by white space outside parentheses. A shadow's color is its last part when that
/// reads as an `rgb`/`rgba` or `#` color and its first part otherwise; its lengths are the
/// other parts but `inset`, without `px`.
pub fn box_shadow_parts(s: &str) -> (r: Vec<ShadowText>)
    ensures
        r@.len() == shadow_values(s@).len(),
        forall|i: int| 0 <= i < r@.len() ==> {
            let parts = split_text(#[trigger] shadow_values(s@)[i], Separator::OuterSpace);
            let color = shadow_color(parts);
            &&& r@[i].color@ == color
            &&& r@[i].lengths@.len() == shadow_lengths(parts, color).len()
            &&& forall|j: int| 0 <= j < r@[i].lengths@.len() ==> (#[trigger] r@[i].lengths@[j])@
                == shadow_lengths(parts, color)[j]
        },
{
    let chars = chars_of(s);
    let prefix = chars_of("box-shadow: ");
    let semicolon = chars_of(";");
    let without_prefix = remove_all_exec(&chars, &prefix);
    let text = remove_all_exec(&without_prefix, &semicolon);
    let values = split_exec(&text, Separator::OuterComma);
    let ghost vs = shadow_values(s@);
    let mut out: Vec<ShadowText> = Vec::new();
    let mut k: usize = 0;
    while k < values.len()
        invariant
            k <= values@.len(),
            values@.len() == vs.len(),
            forall|q: int| 0 <= q < values@.len() ==> trim((#[trigger] values@[q])@) == vs[q],
            out@.len() == k,
            forall|i: int| 0 <= i < k ==> {
                let parts = split_text(#[trigger] vs[i], Separator::OuterSpace);
                let color = shadow_color(parts);
                &&& out@[i].color@ == color
                &&& out@[i].lengths@.len() == shadow_lengths(parts, color).len()
                &&& forall|j: int| 0 <= j < out@[i].lengths@.len() ==> (#[trigger] out@[i].lengths@[j])@
                    == shadow_lengths(parts, color)[j]
            },
        decreases values@.len() - k,
    {
        let value = trim_exec(&values[k]);
        let shadow = shadow_text(&value);
        out.push(shadow);
        k += 1;
    }
    out
}

/// Whether a color text reads as an `rgb` or `rgba` color.
pub fn is_rgba(s: &Vec<char>) -> (r: bool)
    ensures
        r == (contains_text(s@, "rgba"@) || contains_text(s@, "rgb"@)),
{
    let rgba = chars_of("rgba");
    let rgb = chars_of("rgb");
    contains_text_exec(s, &rgba) || contains_text_exec(s, &rgb)
}

/// The component texts of an `rgb(..)` or `rgba(..)` color: the text between commas once
/// `rgba(`, `rgb(` and `)` are dropped, trimmed.
pub open spec fn rgba_components(s: Seq<char>) -> Seq<Seq<char>> {
    let text = remove_all(remove_all(remove_all(s, "rgba("@), "rgb("@), ")"@);
    split_text(text, Separator::Comma).map_values(|v: Seq<char>| trim(v))
}

/// The component texts of an `rgb(..)` or `rgba(..)` color (red, green, blue and, for
/// `rgba`, alpha).
pub fn rgba_parts(s: &Vec<char>) -> (r: Vec<Vec<char>>)
    ensures
        r@.len() == rgba_components(s@).len(),
        forall|k: int| 0 <= k < r@.len() ==> (#[trigger] r@[k])@ == rgba_components(s@)[k],
{
    let rgba = chars_of("rgba(");
    let rgb = chars_of("rgb(");
    let close = chars_of(")");
    let a = remove_all_exec(s, &rgba);
    let b = remove_all_exec(&a, &rgb);
    let text = remove_all_exec(&b, &close);
    let pieces = split_exec(&text, Separator::Comma);
    let mut out: Vec<Vec<char>> = Vec::new();
    let mut k: usize = 0;
    while k < pieces.len()
        invariant
            k <= pieces@.len(),
            pieces@.len() == split_text(text@, Separator::Comma).len(),
            forall|q: int| 0 <= q < pieces@.len() ==> (#[trigger] pieces@[q])@ == split_text(text@, Separator::Comma)[q],
            text@ == remove_all(remove_all(remove_all(s@, "rgba("@), "rgb("@), ")"@),
            out@.len() == k,
            forall|q: int| 0 <= q < k ==> (#[trigger] out@[q])@ == rgba_components(s@)[q],
        decreases pieces@.len() - k,
    {
        out.push(trim_exec(&pieces[k]));
        k += 1;
    }
    out
}

/// The value of a hexadecimal digit.
pub open spec fn hex_digit(c: char) -> Option<u8> {
    if '0' <= c && c <= '9' {
        Some((c as u32 - '0' as u32) as u8)
    } else if 'a' <= c && c <= 'f' {
        Some((c as u32 - 'a' as u32 + 10) as u8)
    } else if 'A' <= c && c <= 'F' {
        Some((c as u32 - 'A' as u32 + 10) as u8)
    } else {
        None
    }
}

fn hex_digit_exec(c: char) -> (r: Option<u8>)
    ensures
        r == hex_digit(c),
{
    if '0' <= c && c <= '9' {
        Some((c as u32 - '0' as u32) as u8)
    } else if 'a' <= c && c <= 'f' {
        Some((c as u32 - 'a' as u32 + 10) as u8)
    } else if 'A' <= c && c <= 'F' {
        Some((c as u32 - 'A' as u32 + 10) as u8)
    } else {
        None
    }
}

/// Whether every character of `s` is a hexadecimal digit.
pub open spec fn all_hex(s: Seq<char>) -> bool {
    forall|i: int| 0 <= i < s.len() ==> #[trigger] hex_digit(s[i]) is Some
}

/// The value of the hexadecimal digit at position `i` of `s`.
pub open spec fn digit_at(s: Seq<char>, i: int) -> int {
    hex_digit(s[i])->0 as int
}

/// The red, green, blue and alpha bytes of a hexadecimal color: an optional `#` followed by
/// three, four, six or eight hexadecimal digits (one or two per component, alpha opaque when
/// left out); `None` otherwise.
pub open spec fn hex_rgba(s: Seq<char>) -> Option<(u8, u8, u8, u8)> {
    hex_digits_rgba(strip_hash(s))
}

/// `s` without one leading `#`, if it has one.
pub open spec fn strip_hash(s: Seq<char>) -> Seq<char> {
    if s.len() > 0 && s[0] == '#' {
        s.skip(1)
    } else {
        s
    }
}

/// The red, green, blue and alpha bytes given by three, four, six or eight hexadecimal
/// digits; `None` otherwise.
pub open spec fn hex_digits_rgba(t: Seq<char>) -> Option<(u8, u8, u8, u8)> {
    if !all_hex(t) {
        None
    } else if t.len() == 3 {
        Some(((digit_at(t, 0) * 17) as u8, (digit_at(t, 1) * 17) as u8, (digit_at(t, 2) * 17) as u8, 255u8))
    } else if t.len() == 4 {
        Some((
            (digit_at(t, 0) * 17) as u8,
            (digit_at(t, 1) * 17) as u8,
            (digit_at(t, 2) * 17) as u8,
            (digit_at(t, 3) * 17) as u8,
        ))
    } else if t.len() == 6 {
        Some((
            (digit_at(t, 0) * 16 + digit_at(t, 1)) as u8,
            (digit_at(t, 2) * 16 + digit_at(t, 3)) as u8,
            (digit_at(t, 4) * 16 + digit_at(t, 5)) as u8,
            255u8,
        ))
    } else if t.len() == 8 {
        Some((
            (digit_at(t, 0) * 16 + digit_at(t, 1)) as u8,
            (digit_at(t, 2) * 16 + digit_at(t, 3)) as u8,
            (digit_at(t, 4) * 16 + digit_at(t, 5)) as u8,
            (digit_at(t, 6) * 16 + digit_at(t, 7)) as u8,
        ))
    } else {
        None
    }
}

/// The red, green, blue and alpha bytes of a hexadecimal color such as `#fa0` or
/// `#ffaa0080`, or `None` when the text is not one.
pub fn hex_color(s: &Vec<char>) -> (r: Option<(u8, u8, u8, u8)>)
    ensures
        r == hex_rgba(s@),
{
    let t = if s.len() > 0 && s[0] == '#' {
        sub_chars(s, 1, s.len())
    } else {
        sub_chars(s, 0, s.len())
    };
    assert(s@.subrange(0, s@.len() as int) =~= s@);
    assert(s@.len() > 0 ==> s@.subrange(1, s@.len() as int) =~= s@.skip(1));
    let ghost spec_t = strip_hash(s@);
    assert(t@ == spec_t);
    let mut digits: Vec<u8> = Vec::new();
    let mut i: usize = 0;
    while i < t.len()
        invariant
            t@ == spec_t,
            spec_t == strip_hash(s@),
            i <= t@.len(),
            digits@.len() == i,
            forall|j: int| 0 <= j < i ==> #[trigger] hex_digit(t@[j]) is Some,
            forall|j: int| 0 <= j < i ==> #[trigger] digits@[j] == hex_digit(t@[j])->0,
        decreases t@.len() - i,
    {
        match hex_digit_exec(t[i]) {
            Some(d) => {
                digits.push(d);
            },
            None => {
                assert(hex_digit(t@[i as int]) is None);
                assert(!all_hex(spec_t));
                return None;
            },
        }
        i += 1;
    }
    assert(all_hex(t@));
    assert forall|j: int| 0 <= j < digits@.len() implies digits@[j] < 16 by {
        assert(hex_digit(t@[j]) is Some);
    }
    let n = digits.len();
    if n == 3 {
        Some((digits[0] * 17, digits[1] * 17, digits[2] * 17, 255))
    } else if n == 4 {
        Some((digits[0] * 17, digits[1] * 17, digits[2] * 17, digits[3] * 17))
    } else if n == 6 {
        Some((digits[0] * 16 + digits[1], digits[2] * 16 + digits[3], digits[4] * 16 + digits[5], 255))
    } else if n == 8 {
        Some((
            digits[0] * 16 + digits[1],
            digits[2] * 16 + digits[3],
            digits[4] * 16 + digits[5],
            digits[6] * 16 + digits[7],
        ))
    } else {
        None
    }
}

/// A shadow cast by a widget.
#[derive(Debug, Clone, Copy, PartialEq, Eq, Structural)]
pub struct BoxShadow {
    pub color: Color,
    pub radius: FloatBits,
    pub offset: Vec2,
    pub spread: Vec2,
}

impl BoxShadow {
    /// The shadow of `color` with its lengths in the order they are written: horizontal
    /// offset, vertical offset, blur radius and spread (on both axes); a missing length is
    /// zero.
    pub fn from_lengths(color: Color, lengths: &[FloatBits]) -> (r: BoxShadow)
        ensures
            ({
                let at = |i: int| if i < lengths@.len() { lengths@[i] } else { FloatBits(0) };
                r == BoxShadow {
                    color,
                    radius: at(2),
                    offset: Vec2 { x: at(0), y: at(1) },
                    spread: Vec2 { x: at(3), y: at(3) },
                }
            }),
    {
        let n = lengths.len();
        let offset_x = if n > 0 { lengths[0] } else { FloatBits(0) };
        let offset_y = if n > 1 { lengths[1] } else { FloatBits(0) };
        let blur_radius = if n > 2 { lengths[2] } else { FloatBits(0) };
        let spread = if n > 3 { lengths[3] } else { FloatBits(0) };
        BoxShadow { color, radius: blur_radius, offset: Vec2 { x: offset_x, y: offset_y }, spread: Vec2 { x: spread, y: spread } }
    }
}

} // verus!
