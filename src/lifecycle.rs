//! The add / get / list / remove / update operations: the argument lists handed to the
//! external tool, and what each outcome of a call becomes.
//!
//! A call of the tool is made by the caller; these functions decide what to call and
//! what the result is. A call comes back as `Ok(output)` or `Err(message)`.
use vstd::prelude::*;
use crate::detail_output::{detail_view, parse_server_detail};
use crate::records::{keys_unique, opt_view, pairs_view, strings_view, AddServerResult, MCPServer, ServerStatus, ServerView};
use crate::text::{chars_of, has_char, string_from, trim, trim_range};

verus! {

/// How one run of the external tool ended.
pub enum ProcessReport {
    /// The tool could not be located; the message says why.
    NotFound(String),
    /// The named program could not be started.
    SpawnFailed(String),
    /// The process ran to its end.
    Exited { success: bool, stdout: String, stderr: String },
}

/// The outcome of one call: the output on a zero exit status, else the failure text.
pub open spec fn call_outcome(report: ProcessReport) -> Result<Seq<char>, Seq<char>> {
    match report {
        ProcessReport::NotFound(m) => Err(m@),
        ProcessReport::SpawnFailed(program) => Err("Failed to execute "@ + program@ + " command"@),
        ProcessReport::Exited { success, stdout, stderr } => if success {
            Ok(stdout@)
        } else {
            Err("Command failed: "@ + stderr@)
        },
    }
}

/// The view of a call's outcome.
pub open spec fn outcome_view(o: Result<String, String>) -> Result<Seq<char>, Seq<char>> {
    match o {
        Ok(s) => Ok(s@),
        Err(e) => Err(e@),
    }
}

/// `a` followed by `b`.
fn joined(a: &str, b: &str) -> (r: String)
    ensures
        r@ == a@ + b@,
{
    let s = String::from_str(a);
    s.concat(b)
}

/// Turns how a run of the tool ended into the outcome of the call. No call is retried.
pub fn command_outcome(report: ProcessReport) -> (r: Result<String, String>)
    ensures
        outcome_view(r) == call_outcome(report),
{
    match report {
        ProcessReport::NotFound(m) => Err(m),
        ProcessReport::SpawnFailed(program) => Err(
            joined("Failed to execute ", program.as_str()).concat(" command"),
        ),
        ProcessReport::Exited { success, stdout, stderr } => {
            if success {
                Ok(stdout)
            } else {
                Err(joined("Command failed: ", stderr.as_str()))
            }
        },
    }
}

/// The full argument list of a call: the tool's `mcp` command group, then `args`.
pub fn tool_command_line(args: Vec<String>) -> (r: Vec<String>)
    ensures
        strings_view(r@) == seq!["mcp"@] + strings_view(args@),
{
    let mut r: Vec<String> = vec![String::from_str("mcp")];
    let mut i: usize = 0;
    while i < args.len()
        invariant
            i <= args.len(),
            strings_view(r@) == seq!["mcp"@] + strings_view(args@.subrange(0, i as int)),
        decreases args.len() - i,
    {
        push_one(&mut r, args[i].clone());
        assert(strings_view(args@.subrange(0, i + 1)) =~= strings_view(
            args@.subrange(0, i as int),
        ).push(args@[i as int]@));
        assert(strings_view(r@) =~= seq!["mcp"@] + strings_view(args@.subrange(0, i + 1)));
        i = i + 1;
    }
    assert(args@.subrange(0, args.len() as int) =~= args@);
    r
}

/// A request to add one server.
#[derive(Debug, Clone, PartialEq, Eq)]
pub struct AddRequest {
    pub name: String,
    /// "stdio" or "sse".
    pub transport: String,
    /// The command to run (stdio).
    pub command: Option<String>,
    pub args: Vec<String>,
    /// Environment entries, in the order they are passed on.
    pub env: Vec<(String, String)>,
    /// The endpoint (sse).
    pub url: Option<String>,
    /// "local", "project" or "user".
    pub scope: String,
}

impl AddRequest {
    /// Environment keys are unique.
    pub open spec fn wf(&self) -> bool {
        keys_unique(self.env@)
    }
}

/// Why an add request is refused before any call, if it is.
pub open spec fn add_rejection(req: AddRequest) -> Option<Seq<char>> {
    if req.transport@ == "stdio"@ && req.command is None {
        Some("Command is required for stdio transport"@)
    } else if req.transport@ == "sse"@ && req.url is None {
        Some("URL is required for SSE transport"@)
    } else {
        None
    }
}

/// One `-e key=value` pair for each environment entry, in order.
pub open spec fn env_arguments(env: Seq<(Seq<char>, Seq<char>)>) -> Seq<Seq<char>>
    decreases env.len(),
{
    if env.len() == 0 {
        seq![]
    } else {
        seq!["-e"@, env[0].0 + "="@ + env[0].1] + env_arguments(env.drop_first())
    }
}

/// What follows the name: the command and its arguments, or the URL.
pub open spec fn target_arguments(req: AddRequest) -> Seq<Seq<char>> {
    if req.transport@ == "stdio"@ {
        match req.command {
            Some(c) => (if req.args.len() > 0 || c@.contains('-') {
                seq!["--"@]
            } else {
                seq![]
            }) + seq![c@] + strings_view(req.args@),
            None => seq![],
        }
    } else if req.transport@ == "sse"@ {
        match req.url {
            Some(u) => seq![u@],
            None => seq![],
        }
    } else {
        seq![]
    }
}

/// The arguments of the `add` call for `req`.
pub open spec fn add_arguments(req: AddRequest) -> Seq<Seq<char>> {
    seq!["add"@, "-s"@, req.scope@] + (if req.transport@ == "sse"@ {
        seq!["--transport"@, "sse"@]
    } else {
        seq![]
    }) + env_arguments(pairs_view(req.env@)) + seq![req.name@] + target_arguments(req)
}

/// The next thing to do in an operation: call the tool with these arguments, or stop
/// with this result.
pub enum Step {
    Invoke(Vec<String>),
    Done(AddServerResult),
}

/// Whether `r` is a failed add result with `message`.
pub open spec fn is_failure(r: AddServerResult, message: Seq<char>) -> bool {
    !r.success && r.message@ == message && r.server_name is None
}

/// What an add request leads to: the `add` call, or its refusal.
pub open spec fn add_step_is(step: Step, req: AddRequest) -> bool {
    match add_rejection(req) {
        Some(m) => step matches Step::Done(d) && is_failure(d, m),
        None => step matches Step::Invoke(a) && strings_view(a@) == add_arguments(req),
    }
}

/// Appends the strings of `extra` to `v`.
fn push_all(v: &mut Vec<String>, extra: &Vec<String>)
    ensures
        strings_view(final(v)@) == strings_view(old(v)@) + strings_view(extra@),
{
    let mut i: usize = 0;
    while i < extra.len()
        invariant
            i <= extra.len(),
            strings_view(v@) == strings_view(old(v)@) + strings_view(extra@.subrange(0, i as int)),
        decreases extra.len() - i,
    {
        let ghost before = v@;
        v.push(extra[i].clone());
        assert(strings_view(extra@.subrange(0, i + 1)) =~= strings_view(
            extra@.subrange(0, i as int),
        ).push(extra@[i as int]@));
        assert(strings_view(v@) =~= strings_view(before).push(extra@[i as int]@));
        assert(strings_view(v@) =~= strings_view(old(v)@) + strings_view(
            extra@.subrange(0, i + 1),
        ));
        i = i + 1;
    }
    assert(extra@.subrange(0, extra.len() as int) =~= extra@);
}

/// Appends one string to `v`.
fn push_one(v: &mut Vec<String>, s: String)
    ensures
        strings_view(final(v)@) == strings_view(old(v)@).push(s@),
{
    v.push(s);
    assert(strings_view(final(v)@) =~= strings_view(old(v)@).push(s@));
}

/// Plans the `add` operation.
///
/// A stdio request without a command, or an sse request without a URL, is refused
/// at once, with no call. Otherwise the arguments are, in order: `add`, `-s <scope>`,
/// `--transport sse` for sse, `-e key=value` for each environment entry, the name,
/// then for stdio `--` (when there are arguments or the command holds a `-`), the
/// command and its arguments, or for sse the URL.
pub fn plan_add(req: &AddRequest) -> (r: Step)
    ensures
        add_step_is(r, *req),
{
    let stdio = req.transport == String::from_str("stdio");
    let sse = req.transport == String::from_str("sse");
    if stdio && req.command.is_none() {
        return Step::Done(
            AddServerResult {
                success: false,
                message: String::from_str("Command is required for stdio transport"),
                server_name: None,
            },
        );
    }
    if sse && req.url.is_none() {
        return Step::Done(
            AddServerResult {
                success: false,
                message: String::from_str("URL is required for SSE transport"),
                server_name: None,
            },
        );
    }
    let mut a: Vec<String> = vec![
        String::from_str("add"),
        String::from_str("-s"),
        req.scope.clone(),
    ];
    let ghost head = seq!["add"@, "-s"@, req.scope@];
    assert(strings_view(a@) =~= head);
    if sse {
        push_one(&mut a, String::from_str("--transport"));
        push_one(&mut a, String::from_str("sse"));
        assert(strings_view(a@) =~= head + seq!["--transport"@, "sse"@]);
    } else {
        assert(strings_view(a@) =~= head + seq![]);
    }
    let ghost before_env = strings_view(a@);
    assert(req.env@.subrange(0, req.env.len() as int) =~= req.env@);
    let mut i: usize = 0;
    while i < req.env.len()
        invariant
            i <= req.env.len(),
            strings_view(a@) + env_arguments(pairs_view(req.env@.subrange(i as int, req.env.len() as int)))
                == before_env + env_arguments(pairs_view(req.env@)),
        decreases req.env.len() - i,
    {
        let ghost rest = pairs_view(req.env@.subrange(i as int, req.env.len() as int));
        let ghost a0 = strings_view(a@);
        let (k, v) = &req.env[i];
        let pair = joined(k.as_str(), "=").concat(v.as_str());
        push_one(&mut a, String::from_str("-e"));
        push_one(&mut a, pair);
        assert(rest.drop_first() =~= pairs_view(req.env@.subrange(i + 1, req.env.len() as int)));
        assert(rest[0] == (k@, v@));
        assert(strings_view(a@) =~= a0 + seq!["-e"@, k@ + "="@ + v@]);
        assert(strings_view(a@) + env_arguments(rest.drop_first()) =~= a0 + env_arguments(rest));
        i = i + 1;
    }
    assert(pairs_view(req.env@.subrange(i as int, req.env.len() as int)) =~= seq![]);
    assert(strings_view(a@) + seq![] =~= strings_view(a@));
    push_one(&mut a, req.name.clone());
    let ghost before_target = strings_view(a@);
    if stdio {
        match &req.command {
            Some(c) => {
                let cs = chars_of(c.as_str());
                assert(cs@.subrange(0, cs.len() as int) =~= c@);
                if req.args.len() > 0 || has_char(&cs, 0, cs.len(), '-') {
                    push_one(&mut a, String::from_str("--"));
                }
                push_one(&mut a, c.clone());
                push_all(&mut a, &req.args);
                assert(strings_view(a@) =~= before_target + target_arguments(*req));
            },
            None => {},
        }
    } else if sse {
        match &req.url {
            Some(u) => {
                push_one(&mut a, u.clone());
                assert(strings_view(a@) =~= before_target + target_arguments(*req));
            },
            None => {},
        }
    } else {
        assert(strings_view(a@) =~= before_target + target_arguments(*req));
    }
    Step::Invoke(a)
}

/// The result of an add call: success with the trimmed output and the name, or
/// failure with the call's message. A failed call is reported here, never raised.
pub open spec fn add_result_is(r: AddServerResult, name: Seq<char>, outcome: Result<Seq<char>, Seq<char>>) -> bool {
    match outcome {
        Ok(out) => r.success && r.message@ == trim(out) && opt_view(r.server_name) == Some(name),
        Err(e) => is_failure(r, e),
    }
}

/// The trimmed form of `s`.
pub fn trimmed(s: &str) -> (r: String)
    ensures
        r@ == trim(s@),
{
    let cs = chars_of(s);
    let (a, b) = trim_range(&cs, 0, cs.len());
    assert(cs@.subrange(0, cs.len() as int) =~= s@);
    string_from(&cs, a, b)
}

/// What an `add` (or `add-json`) call of server `name` comes to.
pub fn add_result(name: String, outcome: Result<String, String>) -> (r: AddServerResult)
    ensures
        add_result_is(r, name@, outcome_view(outcome)),
{
    match outcome {
        Ok(out) => AddServerResult {
            success: true,
            message: trimmed(out.as_str()),
            server_name: Some(name),
        },
        Err(e) => AddServerResult { success: false, message: e, server_name: None },
    }
}

} // verus!

verus! {

/// The arguments of a call on one named server: `sub`, then the name.
pub fn named_arguments(sub: &str, name: &String) -> (r: Vec<String>)
    ensures
        strings_view(r@) == seq![sub@, name@],
{
    let r = vec![String::from_str(sub), name.clone()];
    assert(strings_view(r@) =~= seq![sub@, name@]);
    r
}

/// The arguments of a call with no operand.
pub fn bare_arguments(sub: &str) -> (r: Vec<String>)
    ensures
        strings_view(r@) == seq![sub@],
{
    let r = vec![String::from_str(sub)];
    assert(strings_view(r@) =~= seq![sub@]);
    r
}

/// The arguments of the `add-json` call: `add-json <name> <json> -s <scope>`.
pub fn add_json_arguments(name: &String, json: &String, scope: &String) -> (r: Vec<String>)
    ensures
        strings_view(r@) == seq!["add-json"@, name@, json@, "-s"@, scope@],
{
    let r = vec![
        String::from_str("add-json"),
        name.clone(),
        json.clone(),
        String::from_str("-s"),
        scope.clone(),
    ];
    assert(strings_view(r@) =~= seq!["add-json"@, name@, json@, "-s"@, scope@]);
    r
}

/// What a `remove` call comes to: the trimmed output, or the failure, raised as an error.
pub fn remove_result(outcome: Result<String, String>) -> (r: Result<String, String>)
    ensures
        outcome_view(r) == match outcome_view(outcome) {
            Ok(out) => Ok(trim(out)),
            Err(e) => Err(e),
        },
{
    match outcome {
        Ok(out) => Ok(trimmed(out.as_str())),
        Err(e) => Err(e),
    }
}

/// The next step of an update (remove the old server, then add the new one) once the
/// `remove` call has come back.
///
/// When the removal failed the update stops there with a failed result, and no `add`
/// is attempted. Otherwise it goes on as `plan_add` does. Nothing is rolled back: an
/// add that fails after a removal leaves the old server removed.
pub fn update_after_remove(remove_outcome: Result<String, String>, req: &AddRequest) -> (r: Step)
    ensures
        match outcome_view(remove_outcome) {
            Err(e) => r matches Step::Done(d) && is_failure(d, "Failed to remove old server: "@ + e),
            Ok(_) => add_step_is(r, *req),
        },
{
    match remove_outcome {
        Err(e) => Step::Done(
            AddServerResult {
                success: false,
                message: joined("Failed to remove old server: ", e.as_str()),
                server_name: None,
            },
        ),
        Ok(_) => plan_add(req),
    }
}

/// What a `get` call for `name` comes to: the parsed record, or the failure, raised.
pub fn get_result(name: String, outcome: Result<String, String>, checked_at: u64) -> (r: Result<
    MCPServer,
    String,
>)
    ensures
        match outcome_view(outcome) {
            Ok(out) => r matches Ok(s) && s@ == detail_view(name@, out, checked_at) && s.wf(),
            Err(e) => r matches Err(m) && m@ == e,
        },
{
    match outcome {
        Ok(out) => Ok(parse_server_detail(name, out.as_str(), checked_at)),
        Err(e) => Err(e),
    }
}

/// The record that stands in the list for a server whose details could not be read.
pub open spec fn unread_view(name: Seq<char>, error: Seq<char>) -> ServerView {
    ServerView {
        name: name,
        transport: "stdio"@,
        command: None,
        args: seq![],
        env: seq![],
        url: None,
        scope: "local"@,
        is_active: false,
        running: false,
        error: Some("Failed to get details: "@ + error),
        last_checked: None,
    }
}

/// The list entry for `name` once its `get` call has come back: the parsed record, or,
/// when the call failed, a record that carries the failure. No listed name is dropped.
pub fn list_entry(name: String, outcome: Result<String, String>, checked_at: u64) -> (r: MCPServer)
    ensures
        r@ == match outcome_view(outcome) {
            Ok(out) => detail_view(name@, out, checked_at),
            Err(e) => unread_view(name@, e),
        },
        r.wf(),
{
    match outcome {
        Ok(out) => parse_server_detail(name, out.as_str(), checked_at),
        Err(e) => {
            let r = MCPServer {
                name,
                transport: String::from_str("stdio"),
                command: None,
                args: Vec::new(),
                env: Vec::new(),
                url: None,
                scope: String::from_str("local"),
                is_active: false,
                status: ServerStatus {
                    running: false,
                    error: Some(joined("Failed to get details: ", e.as_str())),
                    last_checked: None,
                },
            };
            assert(r@.args =~= seq![]);
            assert(r@.env =~= seq![]);
            r
        },
    }
}

} // verus!

verus! {

/// The list entry of `name` for the outcome of its `get` call.
pub open spec fn entry_view(name: Seq<char>, outcome: Result<Seq<char>, Seq<char>>, checked_at: u64) -> ServerView {
    match outcome {
        Ok(out) => detail_view(name, out, checked_at),
        Err(e) => unread_view(name, e),
    }
}

/// The records of a listing: one for each listed name, in the order of the names, built
/// from the outcome of that name's `get` call and the time it came back (`fetched[i]`
/// for `names[i]`). A name whose details could not be read keeps a record that carries
/// the failure.
pub fn assemble_list(names: Vec<String>, fetched: Vec<(Result<String, String>, u64)>) -> (r: Vec<MCPServer>)
    requires
        names.len() == fetched.len(),
    ensures
        r.len() == names.len(),
        forall|i: int|
            0 <= i < r.len() ==> (#[trigger] r@[i])@ == entry_view(
                names@[i]@,
                outcome_view(fetched@[i].0),
                fetched@[i].1,
            ),
        forall|i: int| 0 <= i < r.len() ==> (#[trigger] r@[i]).name@ == names@[i]@,
        forall|i: int| 0 <= i < r.len() ==> (#[trigger] r@[i]).wf(),
{
    let mut r: Vec<MCPServer> = Vec::new();
    let mut i: usize = 0;
    while i < names.len()
        invariant
            i <= names.len() == fetched.len(),
            r.len() == i,
            forall|j: int|
                0 <= j < i ==> (#[trigger] r@[j])@ == entry_view(
                    names@[j]@,
                    outcome_view(fetched@[j].0),
                    fetched@[j].1,
                ),
            forall|j: int| 0 <= j < i ==> (#[trigger] r@[j]).wf(),
        decreases names.len() - i,
    {
        let (fetch, checked_at) = &fetched[i];
        let outcome = match fetch {
            Ok(out) => Ok(out.clone()),
            Err(e) => Err(e.clone()),
        };
        let e = list_entry(names[i].clone(), outcome, *checked_at);
        r.push(e);
        i = i + 1;
    }
    r
}

} // verus!
