//! A server record out of the text that the `get <name>` operation prints.
use vstd::prelude::*;
use crate::records::{opt_view, strings_view, MCPServer, ServerStatus, ServerView};
use crate::text::{
    chars_of, contains_in, find_in, find_sub, has_char, has_sub, lines_of, matches_at, next_line, occurs_at,
    split_words, string_from, trim, trim_range, words, lemma_find_from_bounds, lemma_find_from_first,
    lemma_trim_range,
};

verus! {

/// What `str::to_lowercase` makes of a text.
pub uninterp spec fn lower_of(s: Seq<char>) -> Seq<char>;

/// Relies on `str::to_lowercase`: the lowercase form, a function of the characters alone.
#[verifier::external_body]
fn lowercase(s: &str) -> (r: String)
    ensures
        r@ == lower_of(s@),
{
    s.to_lowercase()
}

/// The fields that the detail lines set, as far as they have been read.
pub struct DetailFields {
    /// The scope, once a `Scope:` line has named one.
    pub scope: Option<Seq<char>>,
    pub transport: Seq<char>,
    pub command: Option<Seq<char>>,
    pub args: Seq<Seq<char>>,
    pub url: Option<Seq<char>>,
    pub running: bool,
    pub error: Option<Seq<char>>,
}

/// Whether the trimmed line `t` starts with `label`.
pub open spec fn labelled(t: Seq<char>, label: Seq<char>) -> bool {
    occurs_at(t, label, 0)
}

/// The value after `label` on the trimmed line `t`, trimmed.
pub open spec fn label_value(t: Seq<char>, label: Seq<char>) -> Seq<char> {
    trim(t.subrange(label.len() as int, t.len() as int))
}

/// The scope that a lowercase `Scope:` value names, the first of the words that matches.
pub open spec fn scope_named(lowered: Seq<char>) -> Option<Seq<char>> {
    if has_sub(lowered, "local"@) {
        Some("local"@)
    } else if has_sub(lowered, "project"@) {
        Some("project"@)
    } else if has_sub(lowered, "user"@) || has_sub(lowered, "global"@) {
        Some("user"@)
    } else {
        None
    }
}

/// What a `Status:` value `v` says, given its lowercase form `lv`: running (`Some(true)`)
/// when it holds `✓` or "connected", else stopped with an error (`Some(false)`) when it
/// holds `✗` or "failed", else nothing (`None`).
pub open spec fn status_reading(v: Seq<char>, lv: Seq<char>) -> Option<bool> {
    if v.contains('✓') || has_sub(lv, "connected"@) {
        Some(true)
    } else if v.contains('✗') || has_sub(lv, "failed"@) {
        Some(false)
    } else {
        None
    }
}

/// The fields after one more line.
pub open spec fn read_line(f: DetailFields, line: Seq<char>) -> DetailFields {
    let t = trim(line);
    if labelled(t, "Scope:"@) {
        if f.scope is None {
            DetailFields { scope: scope_named(lower_of(label_value(t, "Scope:"@))), ..f }
        } else {
            f
        }
    } else if labelled(t, "Status:"@) {
        let v = label_value(t, "Status:"@);
        match status_reading(v, lower_of(v)) {
            Some(true) => DetailFields { running: true, ..f },
            Some(false) => DetailFields { running: false, error: Some(v), ..f },
            None => f,
        }
    } else if labelled(t, "Type:"@) {
        DetailFields { transport: label_value(t, "Type:"@), ..f }
    } else if labelled(t, "Command:"@) {
        DetailFields { command: Some(label_value(t, "Command:"@)), ..f }
    } else if labelled(t, "Args:"@) {
        if label_value(t, "Args:"@).len() > 0 {
            DetailFields { args: words(label_value(t, "Args:"@)), ..f }
        } else {
            f
        }
    } else if labelled(t, "URL:"@) {
        DetailFields { url: Some(label_value(t, "URL:"@)), ..f }
    } else {
        f
    }
}

/// The fields after the lines, read in order.
pub open spec fn read_lines(f: DetailFields, lines: Seq<Seq<char>>) -> DetailFields
    decreases lines.len(),
{
    if lines.len() == 0 {
        f
    } else {
        read_lines(read_line(f, lines[0]), lines.drop_first())
    }
}

/// The fields before any line is read.
pub open spec fn initial_fields() -> DetailFields {
    DetailFields {
        scope: None,
        transport: "stdio"@,
        command: None,
        args: seq![],
        url: None,
        running: false,
        error: None,
    }
}

/// The record that a detail output describes for `name`, read at time `checked_at`.
pub open spec fn detail_view(name: Seq<char>, output: Seq<char>, checked_at: u64) -> ServerView {
    let f = read_lines(initial_fields(), lines_of(output));
    ServerView {
        name: name,
        transport: f.transport,
        command: f.command,
        args: f.args,
        env: seq![],
        url: f.url,
        scope: match f.scope {
            Some(s) => s,
            None => "local"@,
        },
        is_active: f.running,
        running: f.running,
        error: f.error,
        last_checked: Some(checked_at),
    }
}

} // verus!

verus! {

/// The fixed texts that the detail parser looks for.
struct Patterns {
    scope: Vec<char>,
    status: Vec<char>,
    kind: Vec<char>,
    command: Vec<char>,
    args: Vec<char>,
    url: Vec<char>,
}

impl Patterns {
    spec fn wf(&self) -> bool {
        &&& self.scope@ == "Scope:"@
        &&& self.status@ == "Status:"@
        &&& self.kind@ == "Type:"@
        &&& self.command@ == "Command:"@
        &&& self.args@ == "Args:"@
        &&& self.url@ == "URL:"@
    }

    fn new() -> (r: Patterns)
        ensures
            r.wf(),
    {
        Patterns {
            scope: chars_of("Scope:"),
            status: chars_of("Status:"),
            kind: chars_of("Type:"),
            command: chars_of("Command:"),
            args: chars_of("Args:"),
            url: chars_of("URL:"),
        }
    }
}

/// The fields read so far, as executable values.
struct Fields {
    scope: Option<String>,
    transport: String,
    command: Option<String>,
    args: Vec<String>,
    url: Option<String>,
    running: bool,
    error: Option<String>,
}

impl Fields {
    spec fn fields(&self) -> DetailFields {
        DetailFields {
            scope: opt_view(self.scope),
            transport: self.transport@,
            command: opt_view(self.command),
            args: strings_view(self.args@),
            url: opt_view(self.url),
            running: self.running,
            error: opt_view(self.error),
        }
    }
}

/// Whether `p` stands somewhere in `v`.
fn contains_all(v: &Vec<char>, p: &Vec<char>) -> (r: bool)
    ensures
        r == has_sub(v@, p@),
{
    assert(v@.subrange(0, v.len() as int) =~= v@);
    contains_in(v, 0, v.len(), p)
}

/// The scope that a lowercase `Scope:` value names: `local`, `project` or `user` (for
/// "user" or "global"), the first that it holds, or none.
pub fn scope_from_lowered(lowered: &str) -> (r: Option<String>)
    ensures
        opt_view(r) == scope_named(lowered@),
{
    let lv = chars_of(lowered);
    if contains_all(&lv, &chars_of("local")) {
        Some(String::from_str("local"))
    } else if contains_all(&lv, &chars_of("project")) {
        Some(String::from_str("project"))
    } else if contains_all(&lv, &chars_of("user")) || contains_all(&lv, &chars_of("global")) {
        Some(String::from_str("user"))
    } else {
        None
    }
}

/// What a `Status:` value says (see `status_reading`), given the value and its
/// lowercase form.
pub fn status_from_lowered(value: &str, lowered: &str) -> (r: Option<bool>)
    ensures
        r == status_reading(value@, lowered@),
{
    let v = chars_of(value);
    let lv = chars_of(lowered);
    assert(v@.subrange(0, v.len() as int) =~= v@);
    if has_char(&v, 0, v.len(), '✓') || contains_all(&lv, &chars_of("connected")) {
        Some(true)
    } else if has_char(&v, 0, v.len(), '✗') || contains_all(&lv, &chars_of("failed")) {
        Some(false)
    } else {
        None
    }
}

/// Whether the trimmed line `cs[a..b]` starts with `label`; the bounds of its value if so.
fn value_after(cs: &Vec<char>, a: usize, b: usize, label: &Vec<char>) -> (r: Option<(usize, usize)>)
    requires
        a <= b <= cs.len(),
    ensures
        r is Some <==> labelled(cs@.subrange(a as int, b as int), label@),
        r matches Some((x, y)) ==> x <= y <= cs.len() && cs@.subrange(x as int, y as int)
            == label_value(cs@.subrange(a as int, b as int), label@),
{
    if matches_at(cs, a, b, a, label) {
        let ghost t = cs@.subrange(a as int, b as int);
        assert(t.subrange(label@.len() as int, t.len() as int) =~= cs@.subrange(
            a + label@.len(),
            b as int,
        ));
        Some(trim_range(cs, a + label.len(), b))
    } else {
        None
    }
}

/// Reads one line, `cs[p..e]`, into the fields.
fn read_detail_line(f: &mut Fields, cs: &Vec<char>, p: usize, e: usize, pats: &Patterns)
    requires
        p <= e <= cs.len(),
        pats.wf(),
    ensures
        final(f).fields() == read_line(old(f).fields(), cs@.subrange(p as int, e as int)),
{
    let (a, b) = trim_range(cs, p, e);
    if let Some((x, y)) = value_after(cs, a, b, &pats.scope) {
        if f.scope.is_none() {
            let v = string_from(cs, x, y);
            let lowered = lowercase(v.as_str());
            f.scope = scope_from_lowered(lowered.as_str());
        }
    } else if let Some((x, y)) = value_after(cs, a, b, &pats.status) {
        let v = string_from(cs, x, y);
        let lowered = lowercase(v.as_str());
        match status_from_lowered(v.as_str(), lowered.as_str()) {
            Some(true) => {
                f.running = true;
            },
            Some(false) => {
                f.running = false;
                f.error = Some(v);
            },
            None => {},
        }
    } else if let Some((x, y)) = value_after(cs, a, b, &pats.kind) {
        f.transport = string_from(cs, x, y);
    } else if let Some((x, y)) = value_after(cs, a, b, &pats.command) {
        f.command = Some(string_from(cs, x, y));
    } else if let Some((x, y)) = value_after(cs, a, b, &pats.args) {
        if x < y {
            f.args = split_words(cs, x, y);
        }
    } else if let Some((x, y)) = value_after(cs, a, b, &pats.url) {
        f.url = Some(string_from(cs, x, y));
    }
}

/// Parses the output of `get <name>` into the record of `name`, stamped with `checked_at`
/// (seconds since the Unix epoch).
///
/// Each line is trimmed and read by its label: `Scope:`, `Status:`, `Type:`, `Command:`,
/// `Args:`, `URL:`; other lines are ignored. The first `Scope:` line whose value names
/// `local`, `project`, `user` or `global` (in that order, ignoring case) decides the
/// scope, `local` when none does. A status with `✓` or "connected" marks the server
/// running; one with `✗` or "failed" marks it stopped and keeps the status as the error.
/// The environment is left empty.
pub fn parse_server_detail(name: String, output: &str, checked_at: u64) -> (r: MCPServer)
    ensures
        r@ == detail_view(name@, output@, checked_at),
        r.wf(),
{
    let cs = chars_of(output);
    let pats = Patterns::new();
    let mut f = Fields {
        scope: None,
        transport: String::from_str("stdio"),
        command: None,
        args: Vec::new(),
        url: None,
        running: false,
        error: None,
    };
    assert(f.fields().args =~= seq![]);
    assert(cs@.subrange(0, cs.len() as int) =~= output@);
    let n = cs.len();
    let mut p: usize = 0;
    while p < n
        invariant
            p <= n == cs.len(),
            pats.wf(),
            read_lines(initial_fields(), lines_of(output@)) == read_lines(
                f.fields(),
                lines_of(cs@.subrange(p as int, n as int)),
            ),
        decreases n - p,
    {
        let (e, q) = next_line(&cs, p, n);
        let ghost line = cs@.subrange(p as int, e as int);
        let ghost rest = lines_of(cs@.subrange(q as int, n as int));
        assert((seq![line] + rest).drop_first() =~= rest);
        assert((seq![line] + rest)[0] == line);
        read_detail_line(&mut f, &cs, p, e, &pats);
        p = q;
    }
    assert(lines_of(cs@.subrange(n as int, n as int)) =~= seq![]);
    let scope = match f.scope {
        Some(s) => s,
        None => String::from_str("local"),
    };
    let r = MCPServer {
        name,
        transport: f.transport,
        command: f.command,
        args: f.args,
        env: Vec::new(),
        url: f.url,
        scope,
        is_active: f.running,
        status: ServerStatus { running: f.running, error: f.error, last_checked: Some(checked_at) },
    };
    assert(r@.env =~= seq![]);
    r
}

} // verus!

verus! {

/// Reading the same detail output again gives the same record, all but the time stamp.
pub proof fn detail_parse_is_repeatable(name: Seq<char>, output: Seq<char>, t1: u64, t2: u64)
    ensures
        detail_view(name, output, t1) == (ServerView {
            last_checked: Some(t1),
            ..detail_view(name, output, t2)
        }),
{
}

proof fn lemma_scope_stays_unset(f: DetailFields, lines: Seq<Seq<char>>)
    requires
        f.scope is None,
        forall|i: int| 0 <= i < lines.len() ==> !labelled(trim(#[trigger] lines[i]), "Scope:"@),
    ensures
        read_lines(f, lines).scope is None,
    decreases lines.len(),
{
    if lines.len() > 0 {
        assert(!labelled(trim(lines[0]), "Scope:"@));
        let rest = lines.drop_first();
        assert forall|i: int| 0 <= i < rest.len() implies !labelled(
            trim(#[trigger] rest[i]),
            "Scope:"@,
        ) by {
            assert(rest[i] == lines[i + 1]);
        }
        lemma_scope_stays_unset(read_line(f, lines[0]), rest);
    }
}

/// A detail output with no `Scope:` line gives the scope `local`.
pub proof fn detail_scope_defaults_to_local(name: Seq<char>, output: Seq<char>, checked_at: u64)
    requires
        forall|i: int|
            0 <= i < lines_of(output).len() ==> !labelled(
                trim(#[trigger] lines_of(output)[i]),
                "Scope:"@,
            ),
    ensures
        detail_view(name, output, checked_at).scope == "local"@,
{
    lemma_scope_stays_unset(initial_fields(), lines_of(output));
}

/// The first index where a status mark, `" - ✓"` or `" - ✗"`, stands in `s`, or -1.
pub open spec fn first_mark(s: Seq<char>) -> int {
    let a = find_sub(s, " - ✓"@);
    let b = find_sub(s, " - ✗"@);
    if a < 0 {
        b
    } else if b < 0 || a <= b {
        a
    } else {
        b
    }
}

/// A command string cut before its first status mark and trimmed, or unchanged when it
/// holds none.
pub open spec fn cleaned_command(s: Seq<char>) -> Seq<char> {
    if first_mark(s) < 0 {
        s
    } else {
        trim(s.subrange(0, first_mark(s)))
    }
}

/// Removes the status suffix that some outputs append to a command (`" - ✓ Connected"`,
/// `" - ✗ Failed to connect"`, `" - ✓ connected"`, `" - ✗ failed"`, or a bare `" - ✓"` or
/// `" - ✗"`). Each starts with one of the two marks, so the text is cut before the first
/// mark and trimmed; a text without a mark is left as it is.
pub fn clean_command_string(command: &str) -> (r: String)
    ensures
        r@ == cleaned_command(command@),
{
    let cs = chars_of(command);
    let n = cs.len();
    assert(cs@.subrange(0, n as int) =~= command@);
    let ok = find_in(&cs, 0, n, &chars_of(" - ✓"));
    let bad = find_in(&cs, 0, n, &chars_of(" - ✗"));
    let cut: Option<usize> = match (ok, bad) {
        (None, None) => None,
        (Some(a), None) => Some(a),
        (None, Some(b)) => Some(b),
        (Some(a), Some(b)) => Some(if a <= b { a } else { b }),
    };
    match cut {
        None => String::from_str(command),
        Some(k) => {
            assert(cs@.subrange(0, k as int) =~= command@.subrange(0, k as int));
            let (x, y) = trim_range(&cs, 0, k);
            string_from(&cs, x, y)
        },
    }
}

proof fn lemma_no_mark_before(s: Seq<char>, m: Seq<char>, k: int, t: Seq<char>)
    requires
        m.len() > 0,
        0 <= k <= s.len(),
        find_sub(s, m) == -1 || find_sub(s, m) >= k,
        t == trim(s.subrange(0, k)),
    ensures
        !has_sub(t, m),
{
    lemma_find_from_first(s, m, 0);
    let (a, b) = lemma_trim_range(s.subrange(0, k));
    if has_sub(t, m) {
        let j = find_sub(t, m);
        lemma_find_from_bounds(t, m, 0);
        assert(t.subrange(j, j + m.len()) =~= s.subrange(a + j, a + j + m.len()));
        assert(occurs_at(s, m, a + j));
    }
}

/// A cleaned command holds no status mark, so cleaning it again leaves it as it is.
pub proof fn cleaned_command_is_stable(s: Seq<char>)
    ensures
        !has_sub(cleaned_command(s), " - ✓"@),
        !has_sub(cleaned_command(s), " - ✗"@),
        cleaned_command(cleaned_command(s)) == cleaned_command(s),
{
    reveal_strlit(" - ✓");
    reveal_strlit(" - ✗");
    let k = first_mark(s);
    if k >= 0 {
        lemma_find_from_bounds(s, " - ✓"@, 0);
        lemma_find_from_bounds(s, " - ✗"@, 0);
        lemma_no_mark_before(s, " - ✓"@, k, cleaned_command(s));
        lemma_no_mark_before(s, " - ✗"@, k, cleaned_command(s));
    }
}

} // verus!
