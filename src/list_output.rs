//! Record names out of the text that the `list` operation prints.
use vstd::prelude::*;
use crate::records::strings_view;
use crate::text::{
    chars_of, contains_in, find_char, first_index, has_char, has_sub, lemma_first_index_bounds,
    lines_of, next_line, string_from, trim, trim_range,
};

verus! {

/// The text before the first `':'` of a line, trimmed.
pub open spec fn name_part(line: Seq<char>) -> Seq<char> {
    trim(line.subrange(0, first_index(line, ':')))
}

/// Whether `line` opens a record: it holds a `':'`, and the text before the first one
/// is a non-empty name with no path separator. Any other line is a continuation of
/// the record before it (or is skipped, before the first record).
pub open spec fn opens_record(line: Seq<char>) -> bool {
    &&& line.contains(':')
    &&& name_part(line).len() > 0
    &&& !name_part(line).contains('/')
    &&& !name_part(line).contains('\\')
}

/// The names that the lines open, in order, continuation lines absorbed.
pub open spec fn scan_names(lines: Seq<Seq<char>>) -> Seq<Seq<char>>
    decreases lines.len(),
{
    if lines.len() == 0 {
        seq![]
    } else if opens_record(lines[0]) {
        seq![name_part(lines[0])] + scan_names(lines.drop_first())
    } else {
        scan_names(lines.drop_first())
    }
}

/// `s` with each item kept only where it is first seen.
pub open spec fn first_seen(s: Seq<Seq<char>>) -> Seq<Seq<char>>
    decreases s.len(),
{
    if s.len() == 0 {
        s
    } else {
        let d = first_seen(s.drop_last());
        if d.contains(s.last()) {
            d
        } else {
            d.push(s.last())
        }
    }
}

/// The text by which the tool says that it has no records.
pub open spec fn no_records_text() -> Seq<char> {
    "No MCP servers configured"@
}

/// The distinct record names of a `list` output, in first-seen order.
pub open spec fn listed_names(output: Seq<char>) -> Seq<Seq<char>> {
    let t = trim(output);
    if t.len() == 0 || has_sub(t, no_records_text()) {
        seq![]
    } else {
        first_seen(scan_names(lines_of(t)))
    }
}

/// The bounds of the name that `cs[p..e]` opens, if it opens a record.
fn record_name(cs: &Vec<char>, p: usize, e: usize) -> (r: Option<(usize, usize)>)
    requires
        p <= e <= cs.len(),
    ensures
        r is Some <==> opens_record(cs@.subrange(p as int, e as int)),
        r matches Some((x, y)) ==> x <= y <= cs.len() && cs@.subrange(x as int, y as int)
            == name_part(cs@.subrange(p as int, e as int)),
{
    let ghost line = cs@.subrange(p as int, e as int);
    let k = find_char(cs, p, e, ':');
    proof {
        lemma_first_index_bounds(line, ':');
        if k < e {
            assert(line[k - p] == ':');
        }
        assert(line.subrange(0, k - p) =~= cs@.subrange(p as int, k as int));
    }
    if k == e {
        return None;
    }
    let (x, y) = trim_range(cs, p, k);
    if x == y || has_char(cs, x, y, '/') || has_char(cs, x, y, '\\') {
        None
    } else {
        Some((x, y))
    }
}

/// Whether `names` holds a string equal to `n`.
fn holds_name(names: &Vec<String>, n: &String) -> (r: bool)
    ensures
        r == strings_view(names@).contains(n@),
{
    let mut i: usize = 0;
    while i < names.len()
        invariant
            i <= names.len(),
            forall|j: int| 0 <= j < i ==> names@[j]@ != n@,
        decreases names.len() - i,
    {
        if names[i] == *n {
            assert(strings_view(names@)[i as int] == n@);
            return true;
        }
        i = i + 1;
    }
    assert forall|j: int| 0 <= j < strings_view(names@).len() implies strings_view(names@)[j]
        != n@ by {
        assert(strings_view(names@)[j] == names@[j]@);
    }
    false
}

/// Splits the output of `list` into record names: distinct, in first-seen order.
///
/// A line opens a record when it holds a `':'` and the text before the first one is a
/// non-empty name with no `'/'` or `'\\'`; the lines after it are absorbed until one
/// opens a record. A name that opens a second record is listed once. Blank output, or
/// output that holds the no-records text, yields no names.
pub fn parse_server_names(output: &str) -> (r: Vec<String>)
    ensures
        strings_view(r@) == listed_names(output@),
{
    let cs = chars_of(output);
    let (a, b) = trim_range(&cs, 0, cs.len());
    assert(cs@.subrange(0, cs.len() as int) =~= output@);
    let sentinel = chars_of("No MCP servers configured");
    if a == b || contains_in(&cs, a, b, &sentinel) {
        let r: Vec<String> = Vec::new();
        assert(strings_view(r@) =~= seq![]);
        return r;
    }
    let ghost all = scan_names(lines_of(cs@.subrange(a as int, b as int)));
    let ghost mut seen: Seq<Seq<char>> = seq![];
    let mut names: Vec<String> = Vec::new();
    assert(strings_view(names@) =~= first_seen(seen));
    assert(all =~= seen + all);
    let mut p: usize = a;
    while p < b
        invariant
            a <= p <= b <= cs.len(),
            all == scan_names(lines_of(cs@.subrange(a as int, b as int))),
            all == seen + scan_names(lines_of(cs@.subrange(p as int, b as int))),
            strings_view(names@) == first_seen(seen),
        decreases b - p,
    {
        let (e, q) = next_line(&cs, p, b);
        let ghost line = cs@.subrange(p as int, e as int);
        let ghost rest = scan_names(lines_of(cs@.subrange(q as int, b as int)));
        let ghost ls = lines_of(cs@.subrange(q as int, b as int));
        assert((seq![line] + ls).drop_first() =~= ls);
        assert((seq![line] + ls)[0] == line);
        match record_name(&cs, p, e) {
            Some((x, y)) => {
                let n = string_from(&cs, x, y);
                let ghost before = seen;
                proof {
                    seen = seen.push(n@);
                    assert(before + (seq![n@] + rest) =~= seen + rest);
                    assert(seen.drop_last() =~= before);
                }
                if !holds_name(&names, &n) {
                    let ghost old_names = names@;
                    names.push(n);
                    assert(strings_view(names@) =~= strings_view(old_names).push(seen.last()));
                }
            },
            None => {},
        }
        p = q;
    }
    assert(lines_of(cs@.subrange(b as int, b as int)) =~= seq![]);
    assert(seen + seq![] =~= seen);
    names
}

} // verus!

verus! {

/// The lines that open a record.
pub open spec fn opening_lines(lines: Seq<Seq<char>>) -> Seq<Seq<char>> {
    lines.filter(|l: Seq<char>| opens_record(l))
}

proof fn lemma_scan_is_filter(lines: Seq<Seq<char>>)
    ensures
        scan_names(lines) == opening_lines(lines).map_values(|l: Seq<char>| name_part(l)),
    decreases lines.len(),
{
    if lines.len() > 0 {
        let rest = lines.drop_first();
        lemma_scan_is_filter(rest);
        assert(lines =~= seq![lines[0]] + rest);
        rest.lemma_filter_prepend(lines[0], |l: Seq<char>| opens_record(l));
        let f = |l: Seq<char>| name_part(l);
        if opens_record(lines[0]) {
            assert((seq![lines[0]] + opening_lines(rest)).map_values(f) =~= seq![name_part(lines[0])]
                + opening_lines(rest).map_values(f));
        } else {
            assert((Seq::<Seq<char>>::empty() + opening_lines(rest)) =~= opening_lines(rest));
        }
    }
}

proof fn lemma_first_seen(s: Seq<Seq<char>>)
    ensures
        first_seen(s).no_duplicates(),
        forall|i: int| 0 <= i < first_seen(s).len() ==> s.contains(#[trigger] first_seen(s)[i]),
        s.no_duplicates() ==> first_seen(s) == s,
    decreases s.len(),
{
    if s.len() > 0 {
        let init = s.drop_last();
        let d = first_seen(init);
        lemma_first_seen(init);
        assert forall|i: int| 0 <= i < first_seen(s).len() implies s.contains(
            #[trigger] first_seen(s)[i],
        ) by {
            if i < d.len() {
                let x = d[i];
                assert(first_seen(s)[i] == x);
                assert(init.contains(x));
                let j = choose|j: int| 0 <= j < init.len() && init[j] == x;
                assert(s[j] == x);
            } else {
                assert(first_seen(s)[i] == s.last());
                assert(s[s.len() - 1] == s.last());
            }
        }
        if !d.contains(s.last()) {
            let e = d.push(s.last());
            assert forall|i: int, j: int| 0 <= i < e.len() && 0 <= j < e.len() && i != j implies e[i]
                != e[j] by {
                if i < d.len() && j < d.len() {
                    assert(e[i] == d[i] && e[j] == d[j]);
                } else if i < d.len() {
                    assert(e[i] == d[i]);
                } else {
                    assert(e[j] == d[j]);
                }
            }
        }
        if s.no_duplicates() {
            assert(init.no_duplicates()) by {
                assert forall|i: int, j: int|
                    0 <= i < init.len() && 0 <= j < init.len() && i != j implies init[i]
                    != init[j] by {
                    assert(init[i] == s[i] && init[j] == s[j]);
                }
            }
            if d.contains(s.last()) {
                let k = choose|k: int| 0 <= k < d.len() && d[k] == s.last();
                assert(init[k] == s[k]);
                assert(s[k] == s[s.len() - 1]);
            }
            assert(s =~= init.push(s.last()));
        }
    }
}

proof fn lemma_scan_names_open(lines: Seq<Seq<char>>)
    ensures
        forall|i: int|
            0 <= i < scan_names(lines).len() ==> {
                let n = #[trigger] scan_names(lines)[i];
                n.len() > 0 && !n.contains('/') && !n.contains('\\')
            },
    decreases lines.len(),
{
    if lines.len() > 0 {
        lemma_scan_names_open(lines.drop_first());
        let tail = scan_names(lines.drop_first());
        let all = scan_names(lines);
        if opens_record(lines[0]) {
            assert forall|i: int| 0 < i < all.len() implies all[i] == tail[i - 1] by {}
            assert(all[0] == name_part(lines[0]));
        } else {
            assert(all == tail);
        }
    }
}

/// The names of `list` are those of the record-opening lines, in the order of the
/// lines, each kept once where it is first seen; where no name opens two records,
/// there is exactly one name for each record-opening line.
pub proof fn listed_names_follow_opening_lines(output: Seq<char>)
    requires
        trim(output).len() > 0,
        !has_sub(trim(output), no_records_text()),
    ensures
        listed_names(output) == first_seen(
            opening_lines(lines_of(trim(output))).map_values(|l: Seq<char>| name_part(l)),
        ),
        opening_lines(lines_of(trim(output))).map_values(|l: Seq<char>| name_part(l)).no_duplicates()
            ==> listed_names(output).len() == opening_lines(lines_of(trim(output))).len(),
{
    let names = opening_lines(lines_of(trim(output))).map_values(|l: Seq<char>| name_part(l));
    lemma_scan_is_filter(lines_of(trim(output)));
    lemma_first_seen(names);
}

/// No name is listed twice.
pub proof fn listed_names_are_distinct(output: Seq<char>)
    ensures
        listed_names(output).no_duplicates(),
{
    lemma_first_seen(scan_names(lines_of(trim(output))));
    assert(Seq::<Seq<char>>::empty().no_duplicates());
}

/// Blank output, and output that holds the no-records text, list no names.
pub proof fn blank_or_empty_output_lists_nothing(output: Seq<char>)
    requires
        trim(output).len() == 0 || has_sub(trim(output), no_records_text()),
    ensures
        listed_names(output) == Seq::<Seq<char>>::empty(),
{
}

/// A line whose text before its `':'` is empty or holds `'/'` or `'\\'` never opens a
/// record: every listed name is non-empty and holds no path separator.
pub proof fn listed_names_are_plain(output: Seq<char>)
    ensures
        forall|i: int|
            0 <= i < listed_names(output).len() ==> {
                let n = #[trigger] listed_names(output)[i];
                n.len() > 0 && !n.contains('/') && !n.contains('\\')
            },
{
    let s = scan_names(lines_of(trim(output)));
    lemma_scan_names_open(lines_of(trim(output)));
    lemma_first_seen(s);
    let t = trim(output);
    if !(t.len() == 0 || has_sub(t, no_records_text())) {
        assert forall|i: int| 0 <= i < first_seen(s).len() implies {
            let n = #[trigger] first_seen(s)[i];
            n.len() > 0 && !n.contains('/') && !n.contains('\\')
        } by {
            assert(s.contains(first_seen(s)[i]));
            let j = choose|j: int| 0 <= j < s.len() && s[j] == first_seen(s)[i];
            assert(s[j] == scan_names(lines_of(trim(output)))[j]);
        }
    }
}

} // verus!
