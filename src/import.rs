//! Import of the servers that the desktop application configures: each entry becomes
//! an `add-json` call, and each outcome a line of the import ledger.
use vstd::prelude::*;
use crate::lifecycle::{add_json_arguments, outcome_view};
use crate::records::{opt_view, strings_view, ImportResult, ImportServerResult};

verus! {

#[verifier::external_type_specification]
#[verifier::external_body]
pub struct ExJsonError(serde_json::Error);

/// The JSON escape of one character, as serde_json writes it inside a string: `"` and
/// `\` behind a backslash, the short escapes `\b`, `\t`, `\n`, `\f` and `\r`, other
/// control characters below U+0020 as `\u00` and two lowercase hex digits, and every
/// other character as itself.
pub open spec fn json_escaped(c: char) -> Seq<char> {
    if c == '"' {
        seq!['\\', '"']
    } else if c == '\\' {
        seq!['\\', '\\']
    } else if c == '\u{8}' {
        seq!['\\', 'b']
    } else if c == '\t' {
        seq!['\\', 't']
    } else if c == '\n' {
        seq!['\\', 'n']
    } else if c == '\u{c}' {
        seq!['\\', 'f']
    } else if c == '\r' {
        seq!['\\', 'r']
    } else if (c as u32) < 32 {
        seq!['\\', 'u', '0', '0', hex_digit((c as u32 / 16) as int), hex_digit((c as u32 % 16) as int)]
    } else {
        seq![c]
    }
}

/// The lowercase hex digit of `n`, for `0 <= n < 16`.
pub open spec fn hex_digit(n: int) -> char {
    seq!['0', '1', '2', '3', '4', '5', '6', '7', '8', '9', 'a', 'b', 'c', 'd', 'e', 'f'][n]
}

/// A string written as a JSON string: quoted, each character escaped.
pub open spec fn json_quoted(s: Seq<char>) -> Seq<char> {
    seq!['"'] + s.map_values(|c: char| json_escaped(c)).flatten() + seq!['"']
}

/// Relies on `serde_json::to_string` on a `str`: it writes the quoted, escaped string
/// into a `Vec`, which cannot fail.
#[verifier::external_body]
fn json_string_text(s: &str) -> (r: Result<String, serde_json::Error>)
    ensures
        r is Ok,
        r matches Ok(t) ==> t@ == json_quoted(s@),
{
    serde_json::to_string(s)
}

/// One server of the desktop application's configuration, as far as the import reads it.
#[derive(Debug, Clone, PartialEq, Eq)]
pub struct DesktopServer {
    pub name: String,
    /// The `command` member, when it is a string.
    pub command: Option<String>,
    /// The `args` member, as JSON text, when it is an array.
    pub args_json: Option<String>,
    /// The `env` member, as JSON text, when it is an object.
    pub env_json: Option<String>,
}

/// The `add-json` configuration for a server of the desktop application: always stdio,
/// with its command, and its arguments and environment or empty ones.
pub open spec fn add_json_config(
    command_json: Seq<char>,
    args_json: Option<Seq<char>>,
    env_json: Option<Seq<char>>,
) -> Seq<char> {
    "{\"type\":\"stdio\",\"command\":"@ + command_json + ",\"args\":"@ + match args_json {
        Some(a) => a,
        None => "[]"@,
    } + ",\"env\":"@ + match env_json {
        Some(e) => e,
        None => "{}"@,
    } + "}"@
}

/// The error recorded for an entry without a command.
pub open spec fn missing_command_text() -> Seq<char> {
    "missing command field"@
}

/// What to do with one entry.
pub enum ImportStep {
    /// The entry fails with this ledger line, without a call; it goes to `record_failure`.
    Failed(ImportServerResult),
    /// Call the tool with these arguments, then record the outcome.
    Invoke(Vec<String>),
}

/// `s` followed by `t`.
fn append_str(s: String, t: &str) -> (r: String)
    ensures
        r@ == s@ + t@,
{
    s.concat(t)
}

/// An empty ledger.
pub fn new_import_result() -> (r: ImportResult)
    ensures
        r.wf(),
        r.servers@.len() == 0,
{
    let r = ImportResult { imported_count: 0, failed_count: 0, servers: Vec::new() };
    assert(r.servers@.filter(|s: ImportServerResult| s.success) =~= seq![]);
    r
}

/// Adds one line to the ledger, with its count.
fn push_line(ledger: &mut ImportResult, line: ImportServerResult)
    requires
        old(ledger).wf(),
        old(ledger).servers@.len() < u32::MAX,
    ensures
        final(ledger).wf(),
        final(ledger).servers@ == old(ledger).servers@.push(line),
{
    let ghost before = ledger.servers@;
    let success = line.success;
    proof {
        before.lemma_filter_len_push(|s: ImportServerResult| s.success, line);
    }
    ledger.servers.push(line);
    if success {
        ledger.imported_count = ledger.imported_count + 1;
    } else {
        ledger.failed_count = ledger.failed_count + 1;
    }
}

/// Whether `l` is the ledger line of an import of `name` that failed with `error`.
pub open spec fn failed_line(l: ImportServerResult, name: Seq<char>, error: Seq<char>) -> bool {
    l.name@ == name && !l.success && opt_view(l.error) == Some(error)
}

/// Plans the import of one entry for `scope`.
///
/// An entry without a command fails with "missing command field", and no call is made.
/// Otherwise the result is the `add-json` call with the entry's configuration (stdio,
/// the command as a JSON string, and the entry's arguments and environment or empty
/// ones); its outcome goes to `record_import`.
pub fn plan_import(entry: &DesktopServer, scope: &String) -> (r: ImportStep)
    ensures
        match entry.command {
            None => r matches ImportStep::Failed(l) && failed_line(l, entry.name@, missing_command_text()),
            Some(c) => (r matches ImportStep::Invoke(a) && strings_view(a@) == seq![
                    "add-json"@,
                    entry.name@,
                    add_json_config(
                        json_quoted(c@),
                        opt_view(entry.args_json),
                        opt_view(entry.env_json),
                    ),
                    "-s"@,
                    scope@,
                ]),
        },
{
    match &entry.command {
        None => {
            ImportStep::Failed(
                ImportServerResult {
                    name: entry.name.clone(),
                    success: false,
                    error: Some(String::from_str("missing command field")),
                },
            )
        },
        Some(c) => {
            match json_string_text(c.as_str()) {
                Err(_) => {
                    proof {
                        assert(false);
                    }
                    ImportStep::Invoke(Vec::new())
                },
                Ok(q) => {
                    let mut config = String::from_str("{\"type\":\"stdio\",\"command\":");
                    config = append_str(config, q.as_str());
                    config = append_str(config, ",\"args\":");
                    match &entry.args_json {
                        Some(a) => {
                            config = append_str(config, a.as_str());
                        },
                        None => {
                            config = append_str(config, "[]");
                        },
                    }
                    config = append_str(config, ",\"env\":");
                    match &entry.env_json {
                        Some(e) => {
                            config = append_str(config, e.as_str());
                        },
                        None => {
                            config = append_str(config, "{}");
                        },
                    }
                    config = append_str(config, "}");
                    ImportStep::Invoke(add_json_arguments(&entry.name, &config, scope))
                },
            }
        },
    }
}

/// Records an entry that failed without a call.
pub fn record_failure(ledger: &mut ImportResult, line: ImportServerResult)
    requires
        old(ledger).wf(),
        old(ledger).servers@.len() < u32::MAX,
    ensures
        final(ledger).wf(),
        final(ledger).servers@ == old(ledger).servers@.push(line),
{
    push_line(ledger, line);
}

/// Records the outcome of the `add-json` call of server `name`: imported on success,
/// failed with the call's message otherwise.
pub fn record_import(ledger: &mut ImportResult, name: String, outcome: Result<String, String>)
    requires
        old(ledger).wf(),
        old(ledger).servers@.len() < u32::MAX,
    ensures
        final(ledger).wf(),
        final(ledger).servers@.drop_last() == old(ledger).servers@,
        final(ledger).servers@.len() == old(ledger).servers@.len() + 1,
        match outcome_view(outcome) {
            Ok(_) => {
                let l = final(ledger).servers@.last();
                l.name@ == name@ && l.success && l.error is None
            },
            Err(e) => failed_line(final(ledger).servers@.last(), name@, e),
        },
{
    let line = match outcome {
        Ok(_) => ImportServerResult { name, success: true, error: None },
        Err(e) => ImportServerResult { name, success: false, error: Some(e) },
    };
    push_line(ledger, line);
}

} // verus!
