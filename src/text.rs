//! Character-level text helpers, each stated over `Seq<char>`.
use vstd::prelude::*;

verus! {

/// The Unicode `White_Space` property, the set that `char::is_whitespace` and `str::trim` use.
pub open spec fn is_ws(c: char) -> bool {
    ('\u{9}' <= c && c <= '\u{d}') || c == ' ' || c == '\u{85}' || c == '\u{a0}'
        || c == '\u{1680}' || ('\u{2000}' <= c && c <= '\u{200a}') || c == '\u{2028}'
        || c == '\u{2029}' || c == '\u{202f}' || c == '\u{205f}' || c == '\u{3000}'
}

/// Appends one character.
/// Relies on `String::push`: the character is added at the end.
#[verifier::external_body]
pub(crate) fn push_char(s: &mut String, c: char)
    ensures
        final(s)@ == old(s)@.push(c),
{
    s.push(c)
}

/// The characters of `s`, in order.
pub fn chars_of(s: &str) -> (r: Vec<char>)
    ensures
        r@ == s@,
{
    let mut r: Vec<char> = Vec::new();
    for c in it: s.chars()
        invariant
            r@ == it.seq().take(it.index() as int),
    {
        r.push(c);
    }
    r
}

} // verus!

verus! {

/// `s` without its leading whitespace.
pub open spec fn trim_start(s: Seq<char>) -> Seq<char>
    decreases s.len(),
{
    if s.len() > 0 && is_ws(s[0]) {
        trim_start(s.drop_first())
    } else {
        s
    }
}

/// `s` without its trailing whitespace.
pub open spec fn trim_end(s: Seq<char>) -> Seq<char>
    decreases s.len(),
{
    if s.len() > 0 && is_ws(s.last()) {
        trim_end(s.drop_last())
    } else {
        s
    }
}

/// `s` without whitespace at either end, as `str::trim` gives it.
pub open spec fn trim(s: Seq<char>) -> Seq<char> {
    trim_end(trim_start(s))
}

/// The index of the first `c` in `s`, or `s.len()` when there is none.
pub open spec fn first_index(s: Seq<char>, c: char) -> int
    decreases s.len(),
{
    if s.len() == 0 {
        0
    } else if s[0] == c {
        0
    } else {
        1 + first_index(s.drop_first(), c)
    }
}

/// Whether `p` stands in `s` at index `i`.
pub open spec fn occurs_at(s: Seq<char>, p: Seq<char>, i: int) -> bool {
    0 <= i && i + p.len() <= s.len() && s.subrange(i, i + p.len()) == p
}

/// The first index at or after `i` where `p` stands in `s`, or -1.
pub open spec fn find_from(s: Seq<char>, p: Seq<char>, i: int) -> int
    decreases s.len() + 1 - i,
{
    if i < 0 || i + p.len() > s.len() {
        -1
    } else if occurs_at(s, p, i) {
        i
    } else {
        find_from(s, p, i + 1)
    }
}

/// The first index where `p` stands in `s`, or -1, as `str::find` gives it.
pub open spec fn find_sub(s: Seq<char>, p: Seq<char>) -> int {
    find_from(s, p, 0)
}

/// Whether `p` stands somewhere in `s`.
pub open spec fn has_sub(s: Seq<char>, p: Seq<char>) -> bool {
    find_sub(s, p) >= 0
}

pub proof fn lemma_first_index_bounds(s: Seq<char>, c: char)
    ensures
        0 <= first_index(s, c) <= s.len(),
        first_index(s, c) < s.len() ==> s[first_index(s, c)] == c,
        forall|j: int| 0 <= j < first_index(s, c) ==> s[j] != c,
    decreases s.len(),
{
    if s.len() > 0 && s[0] != c {
        lemma_first_index_bounds(s.drop_first(), c);
        assert forall|j: int| 0 <= j < first_index(s, c) implies s[j] != c by {
            if j > 0 {
                assert(s[j] == s.drop_first()[j - 1]);
            }
        }
    }
}

pub proof fn lemma_find_from_bounds(s: Seq<char>, p: Seq<char>, i: int)
    ensures
        find_from(s, p, i) == -1 || (i <= find_from(s, p, i) && occurs_at(s, p, find_from(s, p, i))),
    decreases s.len() + 1 - i,
{
    if !(i < 0 || i + p.len() > s.len()) && !occurs_at(s, p, i) {
        lemma_find_from_bounds(s, p, i + 1);
    }
}

/// Whether `c` is whitespace.
pub fn is_ws_char(c: char) -> (r: bool)
    ensures
        r == is_ws(c),
{
    ('\u{9}' <= c && c <= '\u{d}') || c == ' ' || c == '\u{85}' || c == '\u{a0}' || c == '\u{1680}'
        || ('\u{2000}' <= c && c <= '\u{200a}') || c == '\u{2028}' || c == '\u{2029}' || c
        == '\u{202f}' || c == '\u{205f}' || c == '\u{3000}'
}

/// The bounds of `cs[lo..hi]` once trimmed.
pub fn trim_range(cs: &Vec<char>, lo: usize, hi: usize) -> (r: (usize, usize))
    requires
        lo <= hi <= cs.len(),
    ensures
        lo <= r.0 <= r.1 <= hi,
        cs@.subrange(r.0 as int, r.1 as int) == trim(cs@.subrange(lo as int, hi as int)),
{
    let mut a: usize = lo;
    while a < hi && is_ws_char(cs[a])
        invariant
            lo <= a <= hi <= cs.len(),
            trim_start(cs@.subrange(lo as int, hi as int)) == trim_start(
                cs@.subrange(a as int, hi as int),
            ),
        decreases hi - a,
    {
        assert(cs@.subrange(a as int, hi as int).drop_first() =~= cs@.subrange(
            a + 1,
            hi as int,
        ));
        a = a + 1;
    }
    let mut b: usize = hi;
    while b > a && is_ws_char(cs[b - 1])
        invariant
            lo <= a <= b <= hi <= cs.len(),
            trim_end(cs@.subrange(a as int, hi as int)) == trim_end(
                cs@.subrange(a as int, b as int),
            ),
            trim_start(cs@.subrange(lo as int, hi as int)) == cs@.subrange(a as int, hi as int),
        decreases b - a,
    {
        assert(cs@.subrange(a as int, b as int).drop_last() =~= cs@.subrange(
            a as int,
            b - 1,
        ));
        b = b - 1;
    }
    (a, b)
}

/// The index of the first `c` in `cs[lo..hi]`, counted from the start of `cs`; `hi` when there is none.
pub fn find_char(cs: &Vec<char>, lo: usize, hi: usize, c: char) -> (k: usize)
    requires
        lo <= hi <= cs.len(),
    ensures
        k == lo + first_index(cs@.subrange(lo as int, hi as int), c),
        lo <= k <= hi,
{
    let mut i: usize = lo;
    while i < hi && cs[i] != c
        invariant
            lo <= i <= hi <= cs.len(),
            first_index(cs@.subrange(lo as int, hi as int), c) == (i - lo) + first_index(
                cs@.subrange(i as int, hi as int),
                c,
            ),
        decreases hi - i,
    {
        assert(cs@.subrange(i as int, hi as int).drop_first() =~= cs@.subrange(
            i + 1,
            hi as int,
        ));
        i = i + 1;
    }
    i
}

/// Whether `c` occurs in `cs[lo..hi]`.
pub fn has_char(cs: &Vec<char>, lo: usize, hi: usize, c: char) -> (r: bool)
    requires
        lo <= hi <= cs.len(),
    ensures
        r == cs@.subrange(lo as int, hi as int).contains(c),
{
    let k = find_char(cs, lo, hi, c);
    proof {
        let s = cs@.subrange(lo as int, hi as int);
        lemma_first_index_bounds(s, c);
        if k < hi {
            assert(s[k - lo] == c);
        }
    }
    k < hi
}

/// Whether `p` stands in `cs` at index `i`, within `cs[lo..hi]`.
pub fn matches_at(cs: &Vec<char>, lo: usize, hi: usize, i: usize, p: &Vec<char>) -> (r: bool)
    requires
        lo <= i <= hi <= cs.len(),
    ensures
        r == occurs_at(cs@.subrange(lo as int, hi as int), p@, i - lo),
{
    if p.len() > hi - i {
        return false;
    }
    let mut j: usize = 0;
    while j < p.len()
        invariant
            lo <= i <= hi <= cs.len(),
            p.len() <= hi - i,
            j <= p.len(),
            forall|k: int| 0 <= k < j ==> cs@[i + k] == p@[k],
        decreases p.len() - j,
    {
        if cs[i + j] != p[j] {
            assert(cs@.subrange(lo as int, hi as int).subrange(i - lo, i - lo + p.len())[j as int]
                != p@[j as int]);
            return false;
        }
        j = j + 1;
    }
    assert(cs@.subrange(lo as int, hi as int).subrange(i - lo, i - lo + p.len()) =~= p@);
    true
}

/// The first index where `p` stands in `cs[lo..hi]`, counted from the start of `cs`.
pub fn find_in(cs: &Vec<char>, lo: usize, hi: usize, p: &Vec<char>) -> (r: Option<usize>)
    requires
        lo <= hi <= cs.len(),
    ensures
        match r {
            Some(k) => k == lo + find_sub(cs@.subrange(lo as int, hi as int), p@) && find_sub(
                cs@.subrange(lo as int, hi as int),
                p@,
            ) >= 0 && k + p@.len() <= hi,
            None => find_sub(cs@.subrange(lo as int, hi as int), p@) == -1,
        },
{
    let ghost s = cs@.subrange(lo as int, hi as int);
    let mut i: usize = lo;
    loop
        invariant
            lo <= i <= hi <= cs.len(),
            s == cs@.subrange(lo as int, hi as int),
            find_sub(s, p@) == find_from(s, p@, i - lo),
        decreases hi - i,
    {
        if matches_at(cs, lo, hi, i, p) {
            proof {
                lemma_find_from_bounds(s, p@, i - lo);
            }
            return Some(i);
        }
        if i == hi {
            assert(find_from(s, p@, i - lo + 1) == -1);
            return None;
        }
        i = i + 1;
    }
}

/// Whether `p` stands somewhere in `cs[lo..hi]`.
pub fn contains_in(cs: &Vec<char>, lo: usize, hi: usize, p: &Vec<char>) -> (r: bool)
    requires
        lo <= hi <= cs.len(),
    ensures
        r == has_sub(cs@.subrange(lo as int, hi as int), p@),
{
    find_in(cs, lo, hi, p).is_some()
}

/// `cs[lo..hi]` as a `String`.
pub fn string_from(cs: &Vec<char>, lo: usize, hi: usize) -> (r: String)
    requires
        lo <= hi <= cs.len(),
    ensures
        r@ == cs@.subrange(lo as int, hi as int),
{
    let mut r = String::new();
    let mut i: usize = lo;
    while i < hi
        invariant
            lo <= i <= hi <= cs.len(),
            r@ == cs@.subrange(lo as int, i as int),
        decreases hi - i,
    {
        push_char(&mut r, cs[i]);
        assert(cs@.subrange(lo as int, i + 1) =~= cs@.subrange(lo as int, i as int).push(cs@[i as int]));
        i = i + 1;
    }
    r
}

} // verus!

verus! {

/// A line without the `'\r'` of a `"\r\n"` ending.
pub open spec fn strip_cr(line: Seq<char>) -> Seq<char> {
    if line.len() > 0 && line.last() == '\r' {
        line.drop_last()
    } else {
        line
    }
}

/// The lines of `s`, as `str::lines` yields them: split at `'\n'`, a `'\r'` before it
/// dropped, and no empty line after a final `'\n'`.
pub open spec fn lines_of(s: Seq<char>) -> Seq<Seq<char>>
    decreases s.len(),
{
    let k = first_index(s, '\n');
    if s.len() == 0 {
        seq![]
    } else if k < 0 || k >= s.len() {
        seq![s]
    } else {
        seq![strip_cr(s.subrange(0, k))] + lines_of(s.subrange(k + 1, s.len() as int))
    }
}

/// The index of the first whitespace character in `s`, or `s.len()`.
pub open spec fn first_ws(s: Seq<char>) -> int
    decreases s.len(),
{
    if s.len() == 0 {
        0
    } else if is_ws(s[0]) {
        0
    } else {
        1 + first_ws(s.drop_first())
    }
}

/// The words of `s`, as `str::split_whitespace` yields them.
pub open spec fn words(s: Seq<char>) -> Seq<Seq<char>>
    decreases s.len(),
    via words_decreases
{
    let t = trim_start(s);
    let k = first_ws(t);
    if t.len() == 0 {
        seq![]
    } else {
        seq![t.subrange(0, k)] + words(t.subrange(k, t.len() as int))
    }
}

pub proof fn lemma_trim_start(s: Seq<char>)
    ensures
        trim_start(s).len() <= s.len(),
        trim_start(s) == s.subrange(s.len() - trim_start(s).len(), s.len() as int),
        trim_start(s).len() > 0 ==> !is_ws(trim_start(s)[0]),
    decreases s.len(),
{
    if s.len() > 0 && is_ws(s[0]) {
        lemma_trim_start(s.drop_first());
        assert(s.drop_first().subrange(
            s.drop_first().len() - trim_start(s).len(),
            s.drop_first().len() as int,
        ) =~= s.subrange(s.len() - trim_start(s).len(), s.len() as int));
    } else {
        assert(s =~= s.subrange(0, s.len() as int));
    }
}

pub proof fn lemma_first_ws_bounds(s: Seq<char>)
    ensures
        0 <= first_ws(s) <= s.len(),
        first_ws(s) < s.len() ==> is_ws(s[first_ws(s)]),
        forall|j: int| 0 <= j < first_ws(s) ==> !is_ws(s[j]),
    decreases s.len(),
{
    if s.len() > 0 && !is_ws(s[0]) {
        lemma_first_ws_bounds(s.drop_first());
        assert forall|j: int| 0 <= j < first_ws(s) implies !is_ws(s[j]) by {
            if j > 0 {
                assert(s[j] == s.drop_first()[j - 1]);
            }
        }
    }
}

#[via_fn]
proof fn words_decreases(s: Seq<char>) {
    lemma_trim_start(s);
    let t = trim_start(s);
    lemma_first_ws_bounds(t);
    if t.len() > 0 {
        assert(first_ws(t) > 0);
    }
}

/// The first line of `cs[p..n]`: it ends at `r.0`, and the next one starts at `r.1`.
pub fn next_line(cs: &Vec<char>, p: usize, n: usize) -> (r: (usize, usize))
    requires
        p < n <= cs.len(),
    ensures
        p <= r.0 <= r.1 <= n,
        p < r.1,
        lines_of(cs@.subrange(p as int, n as int)) == seq![cs@.subrange(p as int, r.0 as int)]
            + lines_of(cs@.subrange(r.1 as int, n as int)),
{
    let k = find_char(cs, p, n, '\n');
    let ghost s = cs@.subrange(p as int, n as int);
    proof {
        lemma_first_index_bounds(s, '\n');
    }
    if k == n {
        assert(lines_of(cs@.subrange(n as int, n as int)) =~= seq![]);
        assert(s =~= cs@.subrange(p as int, n as int));
        assert(lines_of(s) =~= seq![s] + seq![]);
        (n, n)
    } else {
        assert(s.subrange(0, k - p) =~= cs@.subrange(p as int, k as int));
        assert(s.subrange(k - p + 1, s.len() as int) =~= cs@.subrange(k + 1, n as int));
        if k > p && cs[k - 1] == '\r' {
            assert(cs@.subrange(p as int, k as int).drop_last() =~= cs@.subrange(
                p as int,
                k - 1,
            ));
            (k - 1, k + 1)
        } else {
            (k, k + 1)
        }
    }
}

/// The words of `cs[lo..hi]`, each as a `String`.
pub fn split_words(cs: &Vec<char>, lo: usize, hi: usize) -> (r: Vec<String>)
    requires
        lo <= hi <= cs.len(),
    ensures
        r@.map_values(|w: String| w@) == words(cs@.subrange(lo as int, hi as int)),
{
    let mut r: Vec<String> = Vec::new();
    let mut p: usize = lo;
    while p < hi
        invariant
            lo <= p <= hi <= cs.len(),
            words(cs@.subrange(lo as int, hi as int)) == r@.map_values(|w: String| w@) + words(
                cs@.subrange(p as int, hi as int),
            ),
        decreases hi - p,
    {
        let ghost s = cs@.subrange(p as int, hi as int);
        let mut a: usize = p;
        while a < hi && is_ws_char(cs[a])
            invariant
                p <= a <= hi <= cs.len(),
                trim_start(s) == trim_start(cs@.subrange(a as int, hi as int)),
                s == cs@.subrange(p as int, hi as int),
            decreases hi - a,
        {
            assert(cs@.subrange(a as int, hi as int).drop_first() =~= cs@.subrange(
                a + 1,
                hi as int,
            ));
            a = a + 1;
        }
        let ghost t = cs@.subrange(a as int, hi as int);
        assert(trim_start(s) == t);
        if a == hi {
            assert(words(s) =~= seq![]);
            assert(r@.map_values(|w: String| w@) + seq![] =~= r@.map_values(|w: String| w@));
            p = hi;
        } else {
            let mut b: usize = a;
            while b < hi && !is_ws_char(cs[b])
                invariant
                    a <= b <= hi <= cs.len(),
                    t == cs@.subrange(a as int, hi as int),
                    first_ws(t) == (b - a) + first_ws(cs@.subrange(b as int, hi as int)),
                decreases hi - b,
            {
                assert(cs@.subrange(b as int, hi as int).drop_first() =~= cs@.subrange(
                    b + 1,
                    hi as int,
                ));
                b = b + 1;
            }
            assert(first_ws(t) == b - a);
            assert(t.subrange(0, b - a) =~= cs@.subrange(a as int, b as int));
            assert(t.subrange(b - a, t.len() as int) =~= cs@.subrange(b as int, hi as int));
            let w = string_from(cs, a, b);
            let ghost old_r = r@;
            r.push(w);
            assert(r@.map_values(|w: String| w@) =~= old_r.map_values(|w: String| w@).push(w@));
            assert(words(s) == seq![cs@.subrange(a as int, b as int)] + words(
                cs@.subrange(b as int, hi as int),
            ));
            assert(r@.map_values(|w: String| w@) + words(cs@.subrange(b as int, hi as int))
                =~= old_r.map_values(|w: String| w@) + words(s));
            p = b;
        }
    }
    assert(words(cs@.subrange(hi as int, hi as int)) =~= seq![]);
    assert(r@.map_values(|w: String| w@) + seq![] =~= r@.map_values(|w: String| w@));
    r
}

} // verus!

verus! {

pub proof fn lemma_trim_end(s: Seq<char>)
    ensures
        trim_end(s).len() <= s.len(),
        trim_end(s) == s.subrange(0, trim_end(s).len() as int),
    decreases s.len(),
{
    if s.len() > 0 && is_ws(s.last()) {
        lemma_trim_end(s.drop_last());
        assert(s.drop_last().subrange(0, trim_end(s).len() as int) =~= s.subrange(
            0,
            trim_end(s).len() as int,
        ));
    } else {
        assert(s =~= s.subrange(0, s.len() as int));
    }
}

/// Where the trimmed text stands in `s`.
pub proof fn lemma_trim_range(s: Seq<char>) -> (r: (int, int))
    ensures
        0 <= r.0 <= r.1 <= s.len(),
        trim(s) == s.subrange(r.0, r.1),
{
    lemma_trim_start(s);
    let t = trim_start(s);
    let a = s.len() - t.len();
    lemma_trim_end(t);
    let b = a + trim_end(t).len();
    assert(t.subrange(0, trim_end(t).len() as int) =~= s.subrange(a, b));
    (a, b)
}

/// `find_from` gives the first occurrence at or after `i`.
pub proof fn lemma_find_from_first(s: Seq<char>, p: Seq<char>, i: int)
    requires
        0 <= i,
    ensures
        forall|j: int|
            i <= j && (find_from(s, p, i) == -1 || j < find_from(s, p, i)) ==> !occurs_at(s, p, j),
    decreases s.len() + 1 - i,
{
    if !(i + p.len() > s.len()) && !occurs_at(s, p, i) {
        lemma_find_from_first(s, p, i + 1);
    }
}

} // verus!
