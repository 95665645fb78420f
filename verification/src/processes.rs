//! Limits and reports of the shell tool's managed processes: output caps,
//! runtime and memory limits, incremental output reads and the tool's
//! replies.
use vstd::prelude::*;
use vstd::string::StringSliceAdditionalSpecFns;
use crate::text::{decimal_spec, is_blank, is_blank_spec, is_ws, owned, starts_with_spec, str_eq, trim_start_spec};

verus! {

broadcast use vstd::string::group_string_axioms;

/// A reply of the shell tool: whether it succeeded and its text.
pub struct ToolReply {
    pub success: bool,
    pub output: String,
}

/// A successful reply.
pub fn tool_success(output: String) -> (r: ToolReply)
    ensures
        r.success && r.output@ == output@,
{
    ToolReply { success: true, output }
}

/// A failed reply.
pub fn tool_error(output: String) -> (r: ToolReply)
    ensures
        !r.success && r.output@ == output@,
{
    ToolReply { success: false, output }
}

/// The limits a process manager imposes.
pub struct ProcessLimits {
    pub runtime_limit_secs: u64,
    pub output_limit: usize,
    pub memory_limit: u64,
}

impl ProcessLimits {
    /// Thirty minutes of runtime, 16 MiB of output per stream, 512 MiB of memory.
    pub fn default_limits() -> (l: Self)
        ensures
            l.runtime_limit_secs == 30 * 60,
            l.output_limit == 16 * 1024 * 1024,
            l.memory_limit == 512 * 1024 * 1024,
    {
        ProcessLimits { runtime_limit_secs: 30 * 60, output_limit: 16 * 1024 * 1024, memory_limit: 512 * 1024 * 1024 }
    }
}

/// What the shell tool was asked to do.
#[derive(PartialEq, Eq, Structural, Clone, Copy, Debug)]
pub enum ProcessAction {
    Exec,
    Write,
    Wait,
    Terminate,
}

/// The requested action: `exec` when none is named; an error for any other name.
pub fn parse_action(action: Option<&str>) -> (r: Result<ProcessAction, String>)
    ensures
        action is None ==> r == Ok::<ProcessAction, String>(ProcessAction::Exec),
        action matches Some(a) ==> (if a@ == "exec"@ {
            r == Ok::<ProcessAction, String>(ProcessAction::Exec)
        } else if a@ == "write"@ {
            r == Ok::<ProcessAction, String>(ProcessAction::Write)
        } else if a@ == "wait"@ {
            r == Ok::<ProcessAction, String>(ProcessAction::Wait)
        } else if a@ == "terminate"@ {
            r == Ok::<ProcessAction, String>(ProcessAction::Terminate)
        } else {
            r matches Err(m) && m@ == "action must be exec, write, wait, or terminate"@
        }),
{
    let a = match action {
        Some(a) => a,
        None => return Ok(ProcessAction::Exec),
    };
    if str_eq(a, "exec") {
        Ok(ProcessAction::Exec)
    } else if str_eq(a, "write") {
        Ok(ProcessAction::Write)
    } else if str_eq(a, "wait") {
        Ok(ProcessAction::Wait)
    } else if str_eq(a, "terminate") {
        Ok(ProcessAction::Terminate)
    } else {
        Err(owned("action must be exec, write, wait, or terminate"))
    }
}

/// How long `exec` and `wait` keep waiting: 10 s unless asked, at most 60 s.
pub fn yield_time_ms(requested: Option<u64>) -> (r: u64)
    ensures
        requested is None ==> r == 10_000,
        requested matches Some(v) ==> r == (if v < 60_000 { v } else { 60_000 }),
{
    let v = match requested {
        Some(v) => v,
        None => 10_000,
    };
    if v < 60_000 { v } else { 60_000 }
}

/// The arguments that run `command` through `/bin/sh -lc`.
pub fn shell_arguments(command: &str) -> (r: Vec<String>)
    ensures
        r@.len() == 2,
        r@[0]@ == "-lc"@,
        r@[1]@ == command@,
{
    let mut v: Vec<String> = Vec::new();
    v.push(owned("-lc"));
    v.push(owned(command));
    v
}

/// `process output exceeded {limit} bytes`.
pub open spec fn output_exceeded_message(limit: nat) -> Seq<char> {
    "process output exceeded "@ + decimal_spec(limit) + " bytes"@
}

/// Appends a chunk of output without letting the buffer pass the limit:
/// what fits is kept, and an error reports that the limit was crossed.
pub fn append_limited(buffer: &mut Vec<u8>, chunk: &[u8], output_limit: usize) -> (error: Option<String>)
    ensures
        ({
            let remaining = if old(buffer)@.len() < output_limit { output_limit - old(buffer)@.len() } else { 0 };
            let kept = if chunk@.len() < remaining { chunk@.len() as int } else { remaining };
            &&& final(buffer)@ == old(buffer)@ + chunk@.take(kept)
            &&& (chunk@.len() > remaining) == error is Some
            &&& error matches Some(m) ==> m@ == output_exceeded_message(output_limit as nat)
        }),
        old(buffer)@.len() <= output_limit ==> final(buffer)@.len() <= output_limit,
{
    let remaining: usize = output_limit.saturating_sub(buffer.len());
    let kept: usize = if chunk.len() < remaining { chunk.len() } else { remaining };
    let ghost start = buffer@;
    let mut i: usize = 0;
    while i < kept
        invariant
            kept <= chunk@.len(),
            i <= kept,
            buffer@ == start + chunk@.take(i as int),
        decreases kept - i,
    {
        buffer.push(chunk[i]);
        assert(chunk@.take(i + 1) =~= chunk@.take(i as int).push(chunk@[i as int]));
        i = i + 1;
    }
    if chunk.len() > remaining {
        let mut m = owned("process output exceeded ");
        crate::text::append_decimal(&mut m, output_limit as u64);
        m.append(" bytes");
        Some(m)
    } else {
        None
    }
}

/// The text `String::from_utf8_lossy` makes of some bytes.
pub uninterp spec fn lossy_text(bytes: Seq<u8>) -> Seq<char>;

/// `String::from_utf8_lossy(bytes).into_owned()`: the bytes decoded as
/// UTF-8, each invalid sequence replaced by U+FFFD. The result is named
/// `lossy_text(bytes)`; of valid UTF-8 it is the plain decoding.
#[verifier::external_body]
pub(crate) fn decode_lossy(bytes: &[u8]) -> (r: String)
    ensures
        r@ == lossy_text(bytes@),
        vstd::utf8::valid_utf8(bytes@) ==> r@ == vstd::utf8::decode_utf8(bytes@),
{
    String::from_utf8_lossy(bytes).into_owned()
}

/// The bytes of `v` from `start` on.
fn tail_bytes(v: &Vec<u8>, start: usize) -> (r: Vec<u8>)
    requires
        start <= v@.len(),
    ensures
        r@ == v@.subrange(start as int, v@.len() as int),
{
    let mut r: Vec<u8> = Vec::new();
    let mut i: usize = start;
    while i < v.len()
        invariant
            start <= i <= v@.len(),
            r@ == v@.subrange(start as int, i as int),
        decreases v@.len() - i,
    {
        r.push(v[i]);
        assert(v@.subrange(start as int, i + 1) =~= v@.subrange(start as int, i as int).push(v@[i as int]));
        i = i + 1;
    }
    r
}

/// Where an unread stretch of a buffer starts: the reader's offset, or the
/// buffer's end when the offset is past it.
pub open spec fn delta_start(offset: nat, len: nat) -> nat {
    if offset < len { offset } else { len }
}

/// The report of newly read output: stdout, then stderr under a
/// `[stderr]` heading; a stream that is only whitespace is left out.
pub open spec fn combine_output_spec(stdout: Seq<char>, stderr: Seq<char>) -> Seq<char> {
    if is_blank_spec(stdout) && is_blank_spec(stderr) {
        Seq::empty()
    } else if is_blank_spec(stderr) {
        stdout
    } else if is_blank_spec(stdout) {
        "[stderr]\n"@ + stderr
    } else {
        stdout + "\n[stderr]\n"@ + stderr
    }
}

/// Joins newly read stdout and stderr text into one report.
pub fn combine_output(stdout: &str, stderr: &str) -> (r: String)
    ensures
        r@ == combine_output_spec(stdout@, stderr@),
{
    let out_blank = is_blank(stdout);
    let err_blank = is_blank(stderr);
    if out_blank && err_blank {
        String::new()
    } else if err_blank {
        owned(stdout)
    } else if out_blank {
        let mut r = owned("[stderr]\n");
        r.append(stderr);
        r
    } else {
        let mut r = owned(stdout);
        r.append("\n[stderr]\n");
        r.append(stderr);
        r
    }
}

/// The output a process produced since the last read, and the new read
/// offsets of its two streams (their current lengths).
pub fn read_delta(stdout: &Vec<u8>, stdout_offset: usize, stderr: &Vec<u8>, stderr_offset: usize) -> (r: (String, usize, usize))
    ensures
        r.1 == stdout@.len(),
        r.2 == stderr@.len(),
        ({
            let out = stdout@.subrange(delta_start(stdout_offset as nat, stdout@.len()) as int, stdout@.len() as int);
            let err = stderr@.subrange(delta_start(stderr_offset as nat, stderr@.len()) as int, stderr@.len() as int);
            &&& r.0@ == combine_output_spec(lossy_text(out), lossy_text(err))
            &&& vstd::utf8::valid_utf8(out) && vstd::utf8::valid_utf8(err) ==> r.0@ == combine_output_spec(
                vstd::utf8::decode_utf8(out),
                vstd::utf8::decode_utf8(err),
            )
        }),
{
    let out_start = if stdout_offset < stdout.len() { stdout_offset } else { stdout.len() };
    let err_start = if stderr_offset < stderr.len() { stderr_offset } else { stderr.len() };
    let out_bytes = tail_bytes(stdout, out_start);
    let err_bytes = tail_bytes(stderr, err_start);
    let out_text = decode_lossy(out_bytes.as_slice());
    let err_text = decode_lossy(err_bytes.as_slice());
    (combine_output(out_text.as_str(), err_text.as_str()), stdout.len(), stderr.len())
}

/// Why a process must be stopped, in order of precedence: an output error
/// already recorded, the runtime limit, then the memory limit.
pub open spec fn limit_violation_spec(
    output_error: Option<Seq<char>>,
    elapsed_nanos: nat,
    limit_secs: nat,
    limit_subsec_nanos: nat,
    memory_bytes: Option<u64>,
    memory_limit: nat,
) -> Option<Seq<char>> {
    if output_error is Some {
        output_error
    } else if elapsed_nanos > limit_secs * 1_000_000_000 + limit_subsec_nanos {
        Some("process runtime exceeded "@ + decimal_spec(limit_secs) + " seconds"@)
    } else if memory_bytes is Some && memory_bytes->0 > memory_limit {
        Some("process memory exceeded "@ + decimal_spec(memory_limit) + " bytes (observed "@ + decimal_spec(memory_bytes->0 as nat) + ")"@)
    } else {
        None
    }
}

/// A recorded output error always wins; without one, a process is stopped
/// exactly when it ran longer than its limit or uses more memory than
/// allowed, and a process within both limits is left alone.
pub proof fn lemma_limit_order(
    output_error: Option<Seq<char>>,
    elapsed_nanos: nat,
    limit_secs: nat,
    limit_subsec_nanos: nat,
    memory_bytes: Option<u64>,
    memory_limit: nat,
)
    ensures
        output_error is Some ==> limit_violation_spec(output_error, elapsed_nanos, limit_secs, limit_subsec_nanos, memory_bytes, memory_limit) == output_error,
        output_error is None ==> (limit_violation_spec(output_error, elapsed_nanos, limit_secs, limit_subsec_nanos, memory_bytes, memory_limit) is None
            <==> (elapsed_nanos <= limit_secs * 1_000_000_000 + limit_subsec_nanos
                && !(memory_bytes is Some && memory_bytes->0 > memory_limit))),
{
}

/// Checks a process against its limits (the decision of `enforce_limits`;
/// the caller kills the process when a reason is given).
pub fn limit_violation(
    output_error: Option<String>,
    elapsed_nanos: u128,
    limit_secs: u64,
    limit_subsec_nanos: u32,
    memory_bytes: Option<u64>,
    memory_limit: u64,
) -> (r: Option<String>)
    ensures
        crate::providers::opt_view(r) == limit_violation_spec(
            crate::providers::opt_view(output_error),
            elapsed_nanos as nat,
            limit_secs as nat,
            limit_subsec_nanos as nat,
            memory_bytes,
            memory_limit as nat,
        ),
{
    if let Some(e) = output_error {
        return Some(e);
    }
    let limit_nanos: u128 = (limit_secs as u128) * 1_000_000_000 + (limit_subsec_nanos as u128);
    if elapsed_nanos > limit_nanos {
        let mut m = owned("process runtime exceeded ");
        crate::text::append_decimal(&mut m, limit_secs);
        m.append(" seconds");
        return Some(m);
    }
    if let Some(bytes) = memory_bytes {
        if bytes > memory_limit {
            let mut m = owned("process memory exceeded ");
            crate::text::append_decimal(&mut m, memory_limit);
            m.append(" bytes (observed ");
            crate::text::append_decimal(&mut m, bytes);
            m.append(")");
            return Some(m);
        }
    }
    None
}

/// The final report of a process that exited: its output and exit status;
/// a success exactly when the process succeeded.
pub fn exit_report(output: &str, status: &str, success: bool) -> (r: ToolReply)
    ensures
        r.success == success,
        r.output@ == output@ + "\nexit: "@ + status@,
{
    let mut text = owned(output);
    text.append("\nexit: ");
    text.append(status);
    ToolReply { success, output: text }
}

/// The reply to `exec` when the process outlived the wait: it keeps
/// running under a session id.
pub fn running_report(session_id: &str) -> (r: ToolReply)
    ensures
        r.success,
        r.output@ == "process running\nsession_id: "@ + session_id@,
{
    let mut text = owned("process running\nsession_id: ");
    text.append(session_id);
    ToolReply { success: true, output: text }
}

/// What one round of `wait` decides for a process that is still running:
/// report now (there is new output or the wait is over), or keep waiting.
pub fn still_running_report(output: &str, deadline_passed: bool) -> (r: Option<ToolReply>)
    ensures
        (!is_blank_spec(output@) || deadline_passed) ==> (r matches Some(t) && t.success
            && t.output@ == output@ + "\nprocess still running"@),
        (is_blank_spec(output@) && !deadline_passed) ==> r is None,
{
    if !is_blank(output) || deadline_passed {
        let mut text = owned(output);
        text.append("\nprocess still running");
        Some(ToolReply { success: true, output: text })
    } else {
        None
    }
}

/// `wrote {n} bytes`, where `n` is the UTF-8 length of what was written.
pub fn wrote_report(input: &str) -> (r: ToolReply)
    ensures
        r.success,
        r.output@ == "wrote "@ + decimal_spec(vstd::utf8::encode_utf8(input@).len()) + " bytes"@,
{
    let mut text = owned("wrote ");
    crate::text::append_decimal(&mut text, input.as_bytes().len() as u64);
    text.append(" bytes");
    ToolReply { success: true, output: text }
}

/// `terminated {id}`.
pub fn terminated_report(id: &str) -> (r: ToolReply)
    ensures
        r.success,
        r.output@ == "terminated "@ + id@,
{
    let mut text = owned("terminated ");
    text.append(id);
    ToolReply { success: true, output: text }
}

/// Why the shell tool could not do what it was asked.
pub enum ProcessFailure {
    /// A required string argument (named here) is missing.
    MissingArgument(String),
    /// The runtime backend could not build the shell command.
    PrepareRuntimeShell(String),
    /// The shell could not be started.
    StartShell(String),
    /// The process state could not be queried.
    QueryProcess(String),
    /// The process's standard input was closed earlier.
    StdinClosed,
    /// Writing to standard input failed.
    WriteStdin(String),
    /// No process runs under this session id.
    UnknownSession(String),
}

/// The text of the failed reply.
pub open spec fn failure_message(f: ProcessFailure) -> Seq<char> {
    match f {
        ProcessFailure::MissingArgument(name) => "missing string argument: "@ + name@,
        ProcessFailure::PrepareRuntimeShell(e) => "failed to prepare runtime shell: "@ + e@,
        ProcessFailure::StartShell(e) => "failed to start shell: "@ + e@,
        ProcessFailure::QueryProcess(e) => "failed to query process: "@ + e@,
        ProcessFailure::StdinClosed => "process stdin is closed"@,
        ProcessFailure::WriteStdin(e) => "failed to write stdin: "@ + e@,
        ProcessFailure::UnknownSession(id) => "unknown process session: "@ + id@,
    }
}

/// The failed reply for a failure.
pub fn failure_report(f: ProcessFailure) -> (r: ToolReply)
    ensures
        !r.success,
        r.output@ == failure_message(f),
{
    let (prefix, detail) = match f {
        ProcessFailure::MissingArgument(name) => ("missing string argument: ", name),
        ProcessFailure::PrepareRuntimeShell(e) => ("failed to prepare runtime shell: ", e),
        ProcessFailure::StartShell(e) => ("failed to start shell: ", e),
        ProcessFailure::QueryProcess(e) => ("failed to query process: ", e),
        ProcessFailure::StdinClosed => ("process stdin is closed", String::new()),
        ProcessFailure::WriteStdin(e) => ("failed to write stdin: ", e),
        ProcessFailure::UnknownSession(id) => ("unknown process session: ", id),
    };
    let mut text = owned(prefix);
    text.append(detail.as_str());
    proof {
        reveal_strlit("process stdin is closed");
        assert(text@ =~= failure_message(f));
    }
    ToolReply { success: false, output: text }
}

/// What one poll of a process found.
pub enum ProcessProbe {
    /// It exited: its exit status as shown, and whether it succeeded.
    Exited(String, bool),
    /// It is still running.
    Running,
    /// Its state could not be queried.
    QueryFailed(String),
}

/// What `exec` does after one poll while it waits for a new process.
pub enum ExecStep {
    /// Reply with this and stop.
    Reply(ToolReply),
    /// The process exited: read its last output and report the exit.
    Exited(String, bool),
    /// Poll again after a pause.
    Continue,
    /// Stop waiting and leave the process running in the background.
    Detach,
}

/// One step of `exec`'s wait: a limit that was crossed ends it with that
/// error; otherwise an exit is reported, a failed query ends it with an
/// error, and a running process is polled again until the wait is over.
pub fn exec_step(limit_error: Option<String>, probe: ProcessProbe, deadline_passed: bool) -> (s: ExecStep)
    ensures
        limit_error matches Some(e) ==> (s matches ExecStep::Reply(r) && !r.success && r.output@ == e@),
        limit_error is None ==> match probe {
            ProcessProbe::Exited(status, ok) => s matches ExecStep::Exited(t, k) && t@ == status@ && k == ok,
            ProcessProbe::QueryFailed(e) => s matches ExecStep::Reply(r) && !r.success
                && r.output@ == failure_message(ProcessFailure::QueryProcess(e)),
            ProcessProbe::Running => if deadline_passed { s is Detach } else { s is Continue },
        },
{
    if let Some(e) = limit_error {
        return ExecStep::Reply(tool_error(e));
    }
    match probe {
        ProcessProbe::Exited(status, ok) => ExecStep::Exited(status, ok),
        ProcessProbe::QueryFailed(e) => ExecStep::Reply(failure_report(ProcessFailure::QueryProcess(e))),
        ProcessProbe::Running => if deadline_passed {
            ExecStep::Detach
        } else {
            ExecStep::Continue
        },
    }
}

/// What `wait` does after one poll of a background process.
pub enum WaitStep {
    /// A limit was crossed and the process killed: forget it and reply
    /// with this error.
    Killed(ToolReply),
    /// Reply with this and keep the process.
    Reply(ToolReply),
    /// The process exited: read its last output, forget it and report the exit.
    Exited(String, bool),
    /// Still running: read its new output and let `still_running_report` decide.
    Running,
}

/// One step of `wait`: a crossed limit first, then what the poll found.
pub fn wait_step(limit_error: Option<String>, probe: ProcessProbe) -> (s: WaitStep)
    ensures
        limit_error matches Some(e) ==> (s matches WaitStep::Killed(r) && !r.success && r.output@ == e@),
        limit_error is None ==> match probe {
            ProcessProbe::Exited(status, ok) => s matches WaitStep::Exited(t, k) && t@ == status@ && k == ok,
            ProcessProbe::QueryFailed(e) => s matches WaitStep::Reply(r) && !r.success
                && r.output@ == failure_message(ProcessFailure::QueryProcess(e)),
            ProcessProbe::Running => s is Running,
        },
{
    if let Some(e) = limit_error {
        return WaitStep::Killed(tool_error(e));
    }
    match probe {
        ProcessProbe::Exited(status, ok) => WaitStep::Exited(status, ok),
        ProcessProbe::QueryFailed(e) => WaitStep::Reply(failure_report(ProcessFailure::QueryProcess(e))),
        ProcessProbe::Running => WaitStep::Running,
    }
}

/// The host shell to try: `COOMI_SHELL` when it is set, otherwise `bash`
/// in the `bin` directory of `PREFIX` when that is set.
pub fn shell_candidate(coomi_shell: Option<String>, prefix: Option<String>) -> (r: Option<String>)
    ensures
        coomi_shell is Some ==> crate::providers::opt_view(r) == crate::providers::opt_view(coomi_shell),
        coomi_shell is None && prefix is Some ==> (r matches Some(c) && c@ == crate::runtime::join_path_spec(
            crate::runtime::join_path_spec(prefix->0@, "bin"@),
            "bash"@,
        )),
        coomi_shell is None && prefix is None ==> r is None,
{
    match coomi_shell {
        Some(s) => Some(s),
        None => match prefix {
            Some(p) => {
                let bin = crate::runtime::join_path(p.as_str(), "bin");
                Some(crate::runtime::join_path(bin.as_str(), "bash"))
            },
            None => None,
        },
    }
}

/// The host shell program: the candidate when it is an existing file,
/// `/bin/bash` otherwise.
pub fn host_shell_program(candidate: Option<String>, candidate_is_file: bool) -> (r: String)
    ensures
        candidate is Some && candidate_is_file ==> r@ == candidate->0@,
        !(candidate is Some && candidate_is_file) ==> r@ == "/bin/bash"@,
{
    match candidate {
        Some(c) => if candidate_is_file {
            c
        } else {
            owned("/bin/bash")
        },
        None => owned("/bin/bash"),
    }
}

/// Only a ProotLinux backend runs the shell tool's commands; any other
/// backend leaves them to the host shell.
pub fn uses_runtime_backend(kind: crate::runtime::RuntimeBackendKind) -> (r: bool)
    ensures
        r == (kind == crate::runtime::RuntimeBackendKind::ProotLinux),
{
    match kind {
        crate::runtime::RuntimeBackendKind::ProotLinux => true,
        crate::runtime::RuntimeBackendKind::LegacyTermux => false,
    }
}

/// A line of `s` starts at `p`.
pub open spec fn line_start(s: Seq<char>, p: int) -> bool {
    p == 0 || (0 < p <= s.len() && s[p - 1] == '\n')
}

/// A line starting at `p` begins with `VmRSS:`.
pub open spec fn vmrss_at(s: Seq<char>, p: int) -> bool {
    0 <= p <= s.len() && line_start(s, p) && starts_with_spec(s.skip(p), "VmRSS:"@)
}

/// The text up to the next newline.
pub open spec fn until_newline(t: Seq<char>) -> Seq<char>
    decreases t.len(),
{
    if t.len() == 0 || t[0] == '\n' {
        Seq::empty()
    } else {
        seq![t[0]] + until_newline(t.drop_first())
    }
}

/// The text up to the next whitespace.
pub open spec fn until_ws(t: Seq<char>) -> Seq<char>
    decreases t.len(),
{
    if t.len() == 0 || is_ws(t[0]) {
        Seq::empty()
    } else {
        seq![t[0]] + until_ws(t.drop_first())
    }
}

/// The first whitespace-separated word (empty when there is none).
pub open spec fn first_token(t: Seq<char>) -> Seq<char> {
    until_ws(trim_start_spec(t))
}

/// An ASCII digit.
pub open spec fn is_digit(c: char) -> bool {
    '0' <= c && c <= '9'
}

/// The number a string of ASCII digits denotes.
pub open spec fn digits_value(d: Seq<char>) -> nat
    decreases d.len(),
{
    if d.len() == 0 {
        0
    } else {
        digits_value(d.drop_last()) * 10 + ((d.last() as int) - ('0' as int)) as nat
    }
}

/// A number's digits: the text after an optional leading `+`.
pub open spec fn unsigned_digits(tok: Seq<char>) -> Seq<char> {
    if tok.len() > 0 && tok[0] == '+' { tok.drop_first() } else { tok }
}

/// Every character is an ASCII digit.
pub open spec fn all_digits(d: Seq<char>) -> bool {
    forall|i: int| 0 <= i < d.len() ==> is_digit(#[trigger] d[i])
}

/// `str::parse::<u64>`: an optional `+`, then one or more ASCII digits,
/// within range.
pub open spec fn parse_u64_spec(tok: Seq<char>) -> Option<u64> {
    let d = unsigned_digits(tok);
    if d.len() > 0 && all_digits(d) && digits_value(d) <= u64::MAX {
        Some(digits_value(d) as u64)
    } else {
        None
    }
}

/// The resident set size a `/proc/<pid>/status` text reports, in bytes,
/// from the first line that starts with `VmRSS:` (its kilobyte count times
/// 1024, saturating).
pub open spec fn memory_from_vmrss(s: Seq<char>, p: int) -> Option<u64> {
    match parse_u64_spec(first_token(until_newline(s.skip(p + 6)))) {
        Some(k) => Some(if k * 1024 > u64::MAX { u64::MAX } else { (k * 1024) as u64 }),
        None => None,
    }
}

proof fn lemma_until_newline_step(s: Seq<char>, j: int)
    requires
        0 <= j < s.len(),
        s[j] != '\n',
    ensures
        until_newline(s.skip(j)) == seq![s[j]] + until_newline(s.skip(j + 1)),
{
    assert(s.skip(j).drop_first() =~= s.skip(j + 1));
}

proof fn lemma_until_ws_step(s: Seq<char>, j: int, end: int)
    requires
        0 <= j < end <= s.len(),
        !is_ws(s[j]),
    ensures
        until_ws(s.subrange(j, end)) == seq![s[j]] + until_ws(s.subrange(j + 1, end)),
{
    assert(s.subrange(j, end).drop_first() =~= s.subrange(j + 1, end));
}

proof fn lemma_digits_prefix(d: Seq<char>, i: int)
    requires
        0 <= i <= d.len(),
        all_digits(d),
    ensures
        digits_value(d.take(i)) <= digits_value(d),
    decreases d.len() - i,
{
    if i < d.len() {
        lemma_digits_prefix(d, i + 1);
        assert(d.take(i + 1).drop_last() =~= d.take(i));
    } else {
        assert(d.take(i) =~= d);
    }
}

/// Parses the digits `cs[a..b]` (after an optional `+`).
fn parse_u64_range(cs: &Vec<char>, a: usize, b: usize) -> (r: Option<u64>)
    requires
        a <= b <= cs@.len(),
    ensures
        r == parse_u64_spec(cs@.subrange(a as int, b as int)),
{
    let tok = Ghost(cs@.subrange(a as int, b as int));
    let mut start = a;
    if a < b && cs[a] == '+' {
        start = a + 1;
    }
    let ghost d = cs@.subrange(start as int, b as int);
    assert(d =~= unsigned_digits(tok@));
    if start == b {
        return None;
    }
    let mut value: u64 = 0;
    let mut i: usize = start;
    while i < b
        invariant
            start <= i <= b <= cs@.len(),
            a <= start,
            d == cs@.subrange(start as int, b as int),
            tok@ == cs@.subrange(a as int, b as int),
            d == unsigned_digits(tok@),
            d.len() > 0,
            forall|k: int| start <= k < i ==> is_digit(#[trigger] cs@[k]),
            value == digits_value(d.take(i - start)),
        decreases b - i,
    {
        let c = cs[i];
        if !('0' <= c && c <= '9') {
            assert(!is_digit(d[i - start]));
            assert(!all_digits(d));
            return None;
        }
        let digit: u64 = (c as u32 - '0' as u32) as u64;
        assert(d.take(i - start + 1).drop_last() =~= d.take(i - start));
        assert(d.take(i - start + 1).last() == c);
        let ghost prefix_value = digits_value(d.take(i - start + 1));
        assert(prefix_value == value * 10 + digit);
        let next = match value.checked_mul(10) {
            Some(v10) => v10.checked_add(digit),
            None => None,
        };
        match next {
            Some(v) => {
                value = v;
            },
            None => {
                proof {
                    if all_digits(d) {
                        lemma_digits_prefix(d, i - start + 1);
                    }
                }
                return None;
            },
        }
        i = i + 1;
    }
    assert(d.take(b - start) =~= d);
    Some(value)
}

/// The resident set size in bytes that a `/proc/<pid>/status` text
/// reports: the number after the first line's `VmRSS:` prefix, in
/// kilobytes, times 1024 (saturating); `None` when there is no such line
/// or the number does not parse.
pub fn process_memory_bytes(status: &str) -> (r: Option<u64>)
    ensures
        (exists|p: int| vmrss_at(status@, p)) ==> exists|p: int| {
            &&& vmrss_at(status@, p)
            &&& forall|q: int| 0 <= q < p ==> !vmrss_at(status@, q)
            &&& r == memory_from_vmrss(status@, p)
        },
        !(exists|p: int| vmrss_at(status@, p)) ==> r is None,
{
    let cs = crate::text::chars_of(status);
    let needle = crate::text::chars_of("VmRSS:");
    proof {
        reveal_strlit("VmRSS:");
    }
    let n = cs.len();
    let ghost s = status@;
    let mut p: usize = 0;
    let mut found = false;
    while p < n && !found
        invariant
            cs@ == s,
            n == s.len(),
            needle@ == "VmRSS:"@,
            p <= n,
            found ==> vmrss_at(s, p as int),
            forall|q: int| 0 <= q < p ==> !vmrss_at(s, q),
        decreases n - p + (if found { 0int } else { 1int }),
    {
        let starts = p == 0 || cs[p - 1] == '\n';
        let hit = starts && crate::text::occurs_at_exec(&cs, &needle, p);
        proof {
            reveal_strlit("VmRSS:");
            if p + 6 <= n {
                assert(s.skip(p as int).subrange(0, 6) =~= s.subrange(p as int, p + 6));
            }
            assert(hit == vmrss_at(s, p as int));
        }
        if hit {
            found = true;
        } else {
            p = p + 1;
        }
    }
    if !found {
        assert forall|q: int| !vmrss_at(s, q) by {
            if 0 <= q && q <= n && q >= p {
                assert(q == n);
                assert(s.skip(q).len() == 0);
            }
        }
        return None;
    }
    let k = p + 6;
    assert(s.skip(p as int).subrange(0, 6) =~= s.subrange(p as int, p + 6));
    assert(k <= n);
    let mut j: usize = k;
    assert(s.subrange(k as int, k as int) =~= Seq::<char>::empty());
    assert(s.skip(k as int) =~= Seq::<char>::empty() + s.skip(k as int));
    while j < n && cs[j] != '\n'
        invariant
            cs@ == s,
            n == s.len(),
            k <= j <= n,
            until_newline(s.skip(k as int)) == s.subrange(k as int, j as int) + until_newline(s.skip(j as int)),
        decreases n - j,
    {
        proof {
            lemma_until_newline_step(s, j as int);
            assert(s.subrange(k as int, j + 1) =~= s.subrange(k as int, j as int) + seq![s[j as int]]);
        }
        j = j + 1;
    }
    proof {
        if j < n {
            assert(s.skip(j as int)[0] == s[j as int]);
        }
        assert(until_newline(s.skip(j as int)) =~= Seq::<char>::empty());
        assert(until_newline(s.skip(k as int)) =~= s.subrange(k as int, j as int));
    }
    let ghost line = s.subrange(k as int, j as int);
    let mut a: usize = k;
    while a < j && crate::text::is_ws_exec(cs[a])
        invariant
            cs@ == s,
            n == s.len(),
            k <= a <= j <= n,
            line == s.subrange(k as int, j as int),
            trim_start_spec(line) == trim_start_spec(s.subrange(a as int, j as int)),
        decreases j - a,
    {
        assert(s.subrange(a as int, j as int).drop_first() =~= s.subrange(a + 1, j as int));
        a = a + 1;
    }
    proof {
        let t = s.subrange(a as int, j as int);
        if t.len() > 0 {
            assert(t[0] == s[a as int]);
        }
        assert(trim_start_spec(t) == t);
    }
    let mut b: usize = a;
    assert(s.subrange(a as int, a as int) =~= Seq::<char>::empty());
    assert(s.subrange(a as int, j as int) =~= Seq::<char>::empty() + s.subrange(a as int, j as int));
    while b < j && !crate::text::is_ws_exec(cs[b])
        invariant
            cs@ == s,
            n == s.len(),
            a <= b <= j <= n,
            until_ws(s.subrange(a as int, j as int)) == s.subrange(a as int, b as int) + until_ws(s.subrange(b as int, j as int)),
        decreases j - b,
    {
        proof {
            lemma_until_ws_step(s, b as int, j as int);
            assert(s.subrange(a as int, b + 1) =~= s.subrange(a as int, b as int) + seq![s[b as int]]);
        }
        b = b + 1;
    }
    proof {
        let t = s.subrange(b as int, j as int);
        if t.len() > 0 {
            assert(t[0] == s[b as int]);
        }
        assert(until_ws(t) =~= Seq::<char>::empty());
        assert(first_token(line) =~= s.subrange(a as int, b as int));
    }
    let kb = parse_u64_range(&cs, a, b);
    match kb {
        Some(v) => Some(if v <= u64::MAX / 1024 { v * 1024 } else { u64::MAX }),
        None => None,
    }
}

} // verus!
