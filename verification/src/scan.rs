//! Which processes listen on which ports.
//!
//! The host's own tools find the listeners: `lsof` on Unix, `netstat` and
//! `tasklist` on Windows. Running a tool is left to the functions that the
//! caller passes in; what the tools are asked and what their output means
//! stands here.
use vstd::prelude::*;
use vstd::string::StringExecFns;
use crate::decimal;
use crate::model;
use crate::model::Protocol;
use crate::sort;
use crate::sort::InOrder;
use crate::text;

verus! {

/// A process that listens on a port.
#[derive(Debug, PartialEq, Eq)]
pub struct PortProcess {
    pub port: u16,
    pub pid: u32,
    pub command: String,
    pub protocol: Protocol,
}

/// A listening process as plain values.
pub struct Listener {
    pub port: u16,
    pub pid: u32,
    pub command: Seq<char>,
    pub protocol: Protocol,
}

impl View for PortProcess {
    type V = Listener;

    open spec fn view(&self) -> Listener {
        Listener {
            port: self.port,
            pid: self.pid,
            command: self.command@,
            protocol: self.protocol,
        }
    }
}

impl Clone for PortProcess {
    fn clone(&self) -> (copy: Self)
        ensures
            copy == *self,
    {
        PortProcess {
            port: self.port,
            pid: self.pid,
            command: self.command.clone(),
            protocol: self.protocol,
        }
    }
}

/// The processes as plain values.
pub open spec fn listeners(processes: Seq<PortProcess>) -> Seq<Listener> {
    processes.map_values(|process: PortProcess| process@)
}

// ── Errors ──────────────────────────────────────────────────────────────

/// Why a scan or a kill failed.
#[derive(Debug)]
pub enum ScanError {
    /// `lsof` could not be run.
    LsofNotRun,
    /// `lsof` failed, with this on its error output.
    LsofFailed { stderr: String },
    /// `netstat` could not be run.
    NetstatNotRun,
    /// `netstat` failed.
    NetstatFailed,
    /// `tasklist` could not be run for the process.
    TasklistNotRun { pid: u32 },
    /// `tasklist` failed for the process.
    TasklistFailed { pid: u32 },
    /// `tasklist` knows no such process.
    ProcessNotFound { pid: u32 },
    /// Nothing listens on the port.
    NoListener { port: u16 },
    /// The tool that ends processes could not be run for the process.
    KillNotRun { tool: KillTool, pid: u32 },
    /// The tool that ends processes failed for the process.
    KillFailed { tool: KillTool, pid: u32 },
}

/// The tool that ends processes.
#[derive(Debug, Clone, Copy, PartialEq, Eq, Structural)]
pub enum KillTool {
    /// `kill` on Unix.
    Kill,
    /// `taskkill` on Windows.
    Taskkill,
}

/// The name under which the tool is run.
pub open spec fn tool_name(tool: KillTool) -> Seq<char> {
    match tool {
        KillTool::Kill => "kill"@,
        KillTool::Taskkill => "taskkill"@,
    }
}

impl KillTool {
    /// The name under which the tool is run.
    pub fn name(self) -> (name: &'static str)
        ensures
            name@ == tool_name(self),
    {
        match self {
            KillTool::Kill => "kill",
            KillTool::Taskkill => "taskkill",
        }
    }
}

/// The text of an error.
pub open spec fn error_text(error: ScanError) -> Seq<char> {
    match error {
        ScanError::LsofNotRun => "failed to execute lsof"@,
        ScanError::LsofFailed { stderr } => "lsof failed: "@ + stderr@,
        ScanError::NetstatNotRun => "failed to execute netstat for tcp"@,
        ScanError::NetstatFailed => "netstat returned non-zero status for tcp"@,
        ScanError::TasklistNotRun { pid } => "failed to execute tasklist for pid "@
            + decimal::decimal(pid as nat),
        ScanError::TasklistFailed { pid } => "tasklist returned non-zero status for pid "@
            + decimal::decimal(pid as nat),
        ScanError::ProcessNotFound { pid } => "process not found for pid "@ + decimal::decimal(
            pid as nat,
        ),
        ScanError::NoListener { port } => "no listening process found on port "@
            + decimal::decimal(port as nat),
        ScanError::KillNotRun { tool, pid } => "failed to invoke "@ + tool_name(tool) + " for pid "@
            + decimal::decimal(pid as nat),
        ScanError::KillFailed { tool, pid } => tool_name(tool)
            + " returned non-zero status for pid "@ + decimal::decimal(pid as nat),
    }
}

fn with_number(start: &str, number: u64) -> (out: String)
    ensures
        out@ == start@ + decimal::decimal(number as nat),
{
    let mut out = start.to_owned();
    out.append(decimal::decimal_text(number).as_str());
    out
}

impl ScanError {
    /// The text of the error.
    pub fn message(&self) -> (message: String)
        ensures
            message@ == error_text(*self),
    {
        match self {
            ScanError::LsofNotRun => "failed to execute lsof".to_owned(),
            ScanError::LsofFailed { stderr } => {
                let mut out = "lsof failed: ".to_owned();
                out.append(stderr.as_str());
                out
            },
            ScanError::NetstatNotRun => "failed to execute netstat for tcp".to_owned(),
            ScanError::NetstatFailed => "netstat returned non-zero status for tcp".to_owned(),
            ScanError::TasklistNotRun { pid } => {
                with_number("failed to execute tasklist for pid ", *pid as u64)
            },
            ScanError::TasklistFailed { pid } => {
                with_number("tasklist returned non-zero status for pid ", *pid as u64)
            },
            ScanError::ProcessNotFound { pid } => {
                with_number("process not found for pid ", *pid as u64)
            },
            ScanError::NoListener { port } => {
                with_number("no listening process found on port ", *port as u64)
            },
            ScanError::KillNotRun { tool, pid } => {
                let mut out = "failed to invoke ".to_owned();
                out.append(tool.name());
                out.append(" for pid ");
                out.append(decimal::decimal_text(*pid as u64).as_str());
                out
            },
            ScanError::KillFailed { tool, pid } => {
                let mut out = tool.name().to_owned();
                out.append(" returned non-zero status for pid ");
                out.append(decimal::decimal_text(*pid as u64).as_str());
                out
            },
        }
    }
}

/// What a tool that was run gave back.
#[derive(Debug)]
pub struct ToolOutput {
    /// Whether it exited with success.
    pub success: bool,
    /// Its exit code, unless a signal ended it.
    pub code: Option<i32>,
    pub stdout: String,
    pub stderr: String,
}

// ── Ports in the tools' output ──────────────────────────────────────────

/// The digits at the end of the text.
pub open spec fn trailing_digits(text: Seq<char>) -> Seq<char>
    decreases text.len(),
{
    if text.len() > 0 && text::is_digit(text.last()) {
        trailing_digits(text.drop_last()).push(text.last())
    } else {
        seq![]
    }
}

/// The port at the end of an address such as `127.0.0.1:8080`: the digits at
/// the end of what stands before `->` and before closing brackets, where a
/// colon stands anywhere in front of them.
pub open spec fn token_port(token: Seq<char>) -> Option<u16> {
    let address = text::before_first(text::without_trailing(token, ')'), "->"@);
    let digits = trailing_digits(address);
    let prefix = address.take(address.len() - digits.len());
    if digits.len() == 0 || !prefix.contains(':') {
        None
    } else {
        match decimal::parse_unsigned(digits, u16::MAX as nat) {
            Some(port) => Some(port as u16),
            None => None,
        }
    }
}

/// The port in the last of the tokens that has one.
pub open spec fn last_port(tokens: Seq<Seq<char>>) -> Option<u16>
    decreases tokens.len(),
{
    if tokens.len() == 0 {
        None
    } else {
        match token_port(tokens.last()) {
            Some(port) => Some(port),
            None => last_port(tokens.drop_last()),
        }
    }
}

proof fn lemma_trailing_digits(text: Seq<char>)
    ensures
        trailing_digits(text).len() <= text.len(),
        trailing_digits(text) == text.skip(text.len() - trailing_digits(text).len()),
    decreases text.len(),
{
    if text.len() > 0 && text::is_digit(text.last()) {
        lemma_trailing_digits(text.drop_last());
        let n = trailing_digits(text.drop_last()).len();
        assert(text.drop_last().skip(text.drop_last().len() - n).push(text.last()) =~= text.skip(
            text.len() - (n + 1),
        ));
    } else {
        assert(text.skip(text.len() as int) =~= seq![]);
    }
}

/// The port in an address.
pub fn extract_port_from_token(token: &[char]) -> (port: Option<u16>)
    ensures
        port == token_port(token@),
{
    let token = text::trim_end_matches(token, ')');
    let arrow = text::chars_of("->");
    let address = text::take_before(&token, &arrow);
    let mut start: usize = address.len();
    proof {
        lemma_trailing_digits(address@);
        assert(address@.take(address@.len() as int) =~= address@);
    }
    while 0 < start && text::char_is_digit(address[start - 1])
        invariant
            start <= address.len(),
            trailing_digits(address@).len() == address.len() - start + trailing_digits(
                address@.take(start as int),
            ).len(),
        decreases start,
    {
        assert(address@.take(start as int).drop_last() =~= address@.take(start - 1));
        start -= 1;
    }
    let digits = text::chars_between(&address, start, address.len());
    let prefix = text::chars_between(&address, 0, start);
    proof {
        assert(digits@ =~= trailing_digits(address@));
        assert(prefix@ =~= address@.take(address@.len() - trailing_digits(address@).len()));
    }
    if digits.len() == 0 {
        return None;
    }
    if !text::contains_char(&prefix, ':') {
        return None;
    }
    decimal::parse_u16(&digits)
}

/// The port in a line: that of the last address in it.
pub fn extract_port(line: &str) -> (port: Option<u16>)
    ensures
        port == last_port(text::tokens(line@)),
{
    let chars = text::chars_of(line);
    let tokens = text::split_whitespace(&chars);
    port_of_tokens(&tokens)
}

fn port_of_tokens(tokens: &Vec<Vec<char>>) -> (port: Option<u16>)
    ensures
        port == last_port(text::texts(tokens@)),
{
    let ghost all = text::texts(tokens@);
    let mut i: usize = tokens.len();
    assert(all.take(all.len() as int) =~= all);
    while 0 < i
        invariant
            i <= tokens.len(),
            all == text::texts(tokens@),
            last_port(all) == last_port(all.take(i as int)),
        decreases i,
    {
        assert(all.take(i as int).drop_last() =~= all.take(i - 1));
        assert(all.take(i as int).last() == tokens@[i - 1]@);
        if let Some(port) = extract_port_from_token(&tokens[i - 1]) {
            return Some(port);
        }
        i -= 1;
    }
    None
}

// ── lsof ────────────────────────────────────────────────────────────────

/// Whether the two are the same process on the same port.
pub open spec fn same_socket(a: Listener, b: Listener) -> bool {
    a.port == b.port && a.pid == b.pid && a.protocol == b.protocol
}

/// Whether the process is among those found so far on the same port.
pub open spec fn seen(found: Seq<Listener>, listener: Listener) -> bool {
    exists|i: int| 0 <= i < found.len() && same_socket(#[trigger] found[i], listener)
}

/// The listeners found so far and one more, unless it is among them.
pub open spec fn with_listener(found: Seq<Listener>, listener: Option<Listener>) -> Seq<Listener> {
    match listener {
        Some(listener) => if seen(found, listener) {
            found
        } else {
            found.push(listener)
        },
        None => found,
    }
}

/// The listener that a line of `lsof` is about: the command stands in the first
/// column, the process id in the second, the port at the end of the address.
pub open spec fn lsof_line(line: Seq<char>, protocol: Protocol) -> Option<Listener> {
    let columns = text::tokens(line);
    if columns.len() < 2 {
        None
    } else {
        match (decimal::parse_unsigned(columns[1], u32::MAX as nat), last_port(columns)) {
            (Some(pid), Some(port)) => Some(
                Listener { port, pid: pid as u32, command: columns[0], protocol },
            ),
            _ => None,
        }
    }
}

/// The listeners that the lines are about, each once, where it comes first.
pub open spec fn lsof_lines(lines: Seq<Seq<char>>, protocol: Protocol) -> Seq<Listener>
    decreases lines.len(),
{
    if lines.len() == 0 {
        seq![]
    } else {
        with_listener(lsof_lines(lines.drop_last(), protocol), lsof_line(lines.last(), protocol))
    }
}

/// The listeners that the output of `lsof` is about; its first line is a heading.
pub open spec fn lsof_listeners(output: Seq<char>, protocol: Protocol) -> Seq<Listener> {
    let lines = text::lines(output);
    lsof_lines(lines.skip(if lines.len() == 0 {
        0
    } else {
        1
    }), protocol)
}

fn is_seen(found: &Vec<PortProcess>, process: &PortProcess) -> (answer: bool)
    ensures
        answer == seen(listeners(found@), process@),
{
    let mut i: usize = 0;
    while i < found.len()
        invariant
            i <= found.len(),
            forall|k: int|
                0 <= k < i ==> !same_socket(#[trigger] listeners(found@)[k], process@),
        decreases found.len() - i,
    {
        assert(listeners(found@)[i as int] == found@[i as int]@);
        if found[i].port == process.port && found[i].pid == process.pid && found[i].protocol
            == process.protocol {
            assert(same_socket(listeners(found@)[i as int], process@));
            return true;
        }
        i += 1;
    }
    false
}

fn parse_lsof_line(line: &Vec<char>, protocol: Protocol) -> (process: Option<PortProcess>)
    ensures
        match process {
            Some(process) => lsof_line(line@, protocol) == Some(process@),
            None => lsof_line(line@, protocol) is None,
        },
{
    let columns = text::split_whitespace(line);
    assert(forall|k: int| 0 <= k < columns.len() ==> text::texts(columns@)[k] == columns@[k]@);
    if columns.len() < 2 {
        return None;
    }
    let pid: u32 = match decimal::parse_u32(&columns[1]) {
        Some(pid) => pid,
        None => {
            return None;
        },
    };
    match port_of_tokens(&columns) {
        Some(port) => Some(
            PortProcess { port, pid, command: text::text_of(&columns[0]), protocol },
        ),
        None => None,
    }
}

/// The listeners that the output of `lsof` is about.
pub fn parse_lsof_output(output: &str, protocol: Protocol) -> (entries: Vec<PortProcess>)
    ensures
        listeners(entries@) == lsof_listeners(output@, protocol),
{
    let chars = text::chars_of(output);
    let lines = text::split_lines(&chars);
    let ghost all = text::texts(lines@);
    let mut entries: Vec<PortProcess> = Vec::new();
    if lines.len() == 0 {
        assert(all.skip(0) =~= seq![]);
        assert(listeners(entries@) =~= seq![]);
        return entries;
    }
    let ghost body = all.skip(1);
    let mut i: usize = 1;
    assert(body.take(0) =~= seq![]);
    assert(listeners(entries@) =~= seq![]);
    while i < lines.len()
        invariant
            1 <= i <= lines.len(),
            all == text::texts(lines@),
            body == all.skip(1),
            listeners(entries@) == lsof_lines(body.take(i - 1), protocol),
        decreases lines.len() - i,
    {
        let ghost before = entries@;
        assert(body.take(i as int).drop_last() =~= body.take(i - 1));
        assert(body.take(i as int).last() == lines@[i as int]@);
        if let Some(entry) = parse_lsof_line(&lines[i], protocol) {
            if !is_seen(&entries, &entry) {
                entries.push(entry);
                assert(listeners(entries@) =~= listeners(before).push(entry@));
            }
        }
        i += 1;
    }
    assert(body.take(body.len() as int) =~= body);
    entries
}

/// What `lsof` is asked.
pub open spec fn lsof_question(protocol: Protocol, port: Option<u16>) -> Seq<Seq<char>> {
    match (protocol, port) {
        (Protocol::Tcp, Some(port)) => seq![
            "-nP"@,
            "-iTCP:"@ + decimal::decimal(port as nat),
            "-sTCP:LISTEN"@,
        ],
        (Protocol::Tcp, None) => seq!["-nP"@, "-iTCP"@, "-sTCP:LISTEN"@],
        (Protocol::Udp, Some(port)) => seq!["-nP"@, "-iUDP:"@ + decimal::decimal(port as nat)],
        (Protocol::Udp, None) => seq!["-nP"@, "-iUDP"@],
    }
}

/// The arguments for `lsof`.
pub fn lsof_arguments(protocol: Protocol, port: Option<u16>) -> (arguments: Vec<String>)
    ensures
        text::strings(arguments@) == lsof_question(protocol, port),
{
    let mut arguments: Vec<String> = Vec::new();
    arguments.push("-nP".to_owned());
    match protocol {
        Protocol::Tcp => {
            arguments.push(
                match port {
                    Some(port) => with_number("-iTCP:", port as u64),
                    None => "-iTCP".to_owned(),
                },
            );
            arguments.push("-sTCP:LISTEN".to_owned());
        },
        Protocol::Udp => {
            arguments.push(
                match port {
                    Some(port) => with_number("-iUDP:", port as u64),
                    None => "-iUDP".to_owned(),
                },
            );
        },
    }
    assert(text::strings(arguments@) =~= lsof_question(protocol, port));
    arguments
}

/// What a run of `lsof` comes to: its listeners where it succeeded, none where
/// it exited with 1 because there are none, an error otherwise.
pub open spec fn lsof_result(
    output: Option<ToolOutput>,
    protocol: Protocol,
    outcome: Result<Vec<PortProcess>, ScanError>,
) -> bool {
    match output {
        None => outcome == Err::<Vec<PortProcess>, ScanError>(ScanError::LsofNotRun),
        Some(output) => if output.success {
            outcome matches Ok(found) && listeners(found@) == lsof_listeners(
                output.stdout@,
                protocol,
            )
        } else if output.code == Some(1i32) {
            outcome matches Ok(found) && found@.len() == 0
        } else {
            outcome matches Err(error) && error matches ScanError::LsofFailed { stderr } && stderr@
                == text::trimmed(output.stderr@)
        },
    }
}

/// Reads what a run of `lsof` gave back; `None` where it could not be run.
pub fn read_lsof(output: &Option<ToolOutput>, protocol: Protocol) -> (outcome: Result<
    Vec<PortProcess>,
    ScanError,
>)
    ensures
        lsof_result(*output, protocol, outcome),
{
    match output {
        None => Err(ScanError::LsofNotRun),
        Some(output) => {
            if output.success {
                Ok(parse_lsof_output(output.stdout.as_str(), protocol))
            } else if output.code == Some(1i32) {
                Ok(Vec::new())
            } else {
                let stderr = text::chars_of(output.stderr.as_str());
                let trimmed = text::trim(&stderr);
                Err(ScanError::LsofFailed { stderr: text::text_of(&trimmed) })
            }
        },
    }
}

/// Whether the tool can be run with these arguments.
pub open spec fn runs<R: Fn(&Vec<String>) -> Option<ToolOutput>>(
    run: R,
    arguments: Seq<Seq<char>>,
) -> bool {
    forall|given: &Vec<String>|
        text::strings(given@) == arguments ==> #[trigger] call_requires(run, (given,))
}

/// Whether a run of the tool with these arguments may give this back.
pub open spec fn ran<R: Fn(&Vec<String>) -> Option<ToolOutput>>(
    run: R,
    arguments: Seq<Seq<char>>,
    output: Option<ToolOutput>,
) -> bool {
    exists|given: Vec<String>|
        text::strings(given@) == arguments && #[trigger] call_ensures(run, (&given,), output)
}

fn scan_protocol<R: Fn(&Vec<String>) -> Option<ToolOutput>>(
    protocol: Protocol,
    port: Option<u16>,
    run_lsof: &R,
) -> (outcome: Result<Vec<PortProcess>, ScanError>)
    requires
        runs(*run_lsof, lsof_question(protocol, port)),
    ensures
        exists|output: Option<ToolOutput>| #[trigger]
            ran(*run_lsof, lsof_question(protocol, port), output) && lsof_result(
                output,
                protocol,
                outcome,
            ),
{
    let arguments = lsof_arguments(protocol, port);
    let output = run_lsof(&arguments);
    assert(ran(*run_lsof, lsof_question(protocol, port), output));
    read_lsof(&output, protocol)
}

// ── The order of listeners ──────────────────────────────────────────────

/// The place of a protocol in the order: by name.
pub open spec fn protocol_rank(protocol: Protocol) -> int {
    match protocol {
        Protocol::Tcp => 0,
        Protocol::Udp => 1,
    }
}

/// Listeners are ordered by port, process id and protocol.
impl InOrder for PortProcess {
    open spec fn comes_by(self, other: Self) -> bool {
        self.port < other.port || (self.port == other.port && (self.pid < other.pid || (self.pid
            == other.pid && protocol_rank(self.protocol) <= protocol_rank(other.protocol))))
    }

    proof fn order_is_total(a: Self, b: Self) {
    }

    proof fn order_is_transitive(a: Self, b: Self, c: Self) {
    }

    fn not_after(&self, other: &Self) -> (answer: bool) {
        self.port < other.port || (self.port == other.port && (self.pid < other.pid || (self.pid
            == other.pid && (self.protocol == Protocol::Tcp || other.protocol == Protocol::Udp))))
    }
}

/// What a scan comes to once the listeners are found: the same listeners in order.
pub open spec fn ordered(
    found: Result<Vec<PortProcess>, ScanError>,
    outcome: Result<Vec<PortProcess>, ScanError>,
) -> bool {
    match found {
        Ok(found) => outcome matches Ok(sorted) && sort::stably_sorted(found@, sorted@),
        Err(error) => outcome == Err::<Vec<PortProcess>, ScanError>(error),
    }
}

/// Scan the listening processes, on one port or on all, with `lsof`.
pub fn scan_ports<R: Fn(&Vec<String>) -> Option<ToolOutput>>(
    port: Option<u16>,
    run_lsof: &R,
) -> (outcome: Result<Vec<PortProcess>, ScanError>)
    requires
        runs(*run_lsof, lsof_question(Protocol::Tcp, port)),
    ensures
        exists|output: Option<ToolOutput>, found: Result<Vec<PortProcess>, ScanError>|
            #![trigger ran(*run_lsof, lsof_question(Protocol::Tcp, port), output), lsof_result(output, Protocol::Tcp, found)]
            ran(*run_lsof, lsof_question(Protocol::Tcp, port), output) && lsof_result(
                output,
                Protocol::Tcp,
                found,
            ) && ordered(found, outcome),
{
    let found = scan_protocol(Protocol::Tcp, port, run_lsof);
    match found {
        Ok(found) => Ok(sort::sort(found)),
        Err(error) => Err(error),
    }
}

// ── netstat and tasklist ────────────────────────────────────────────────

/// Whether a line of `netstat` with these columns is about a socket that
/// listens. A TCP socket has its state in the fourth column; a UDP socket has
/// none, and no column for it.
pub open spec fn netstat_listens(columns: Seq<Seq<char>>, protocol: Protocol) -> bool {
    match protocol {
        Protocol::Tcp => columns.len() >= 5 && columns[3] == "LISTENING"@,
        Protocol::Udp => columns.len() >= 4,
    }
}

/// The listening socket that a line of `netstat` is about: the protocol stands
/// in the first column, the local address in the second, the process id in the
/// last. The command is not in the line.
pub open spec fn netstat_line(
    line: Seq<char>,
    protocol: Protocol,
    target_port: Option<u16>,
) -> Option<Listener> {
    let columns = text::tokens(line);
    if !netstat_listens(columns, protocol) || text::ascii_lowered(columns[0])
        != model::protocol_label(protocol) {
        None
    } else {
        match (token_port(columns[1]), decimal::parse_unsigned(columns.last(), u32::MAX as nat)) {
            (Some(port), Some(pid)) => if target_port is Some && target_port != Some(port) {
                None
            } else {
                Some(Listener { port, pid: pid as u32, command: seq![], protocol })
            },
            _ => None,
        }
    }
}

/// The sockets that the lines are about, each once, where it comes first.
pub open spec fn netstat_lines(
    lines: Seq<Seq<char>>,
    protocol: Protocol,
    target_port: Option<u16>,
) -> Seq<Listener>
    decreases lines.len(),
{
    if lines.len() == 0 {
        seq![]
    } else {
        with_listener(
            netstat_lines(lines.drop_last(), protocol, target_port),
            netstat_line(lines.last(), protocol, target_port),
        )
    }
}

/// The text that stands for a process of which no name is known.
pub open spec fn unnamed_process(pid: u32) -> Seq<char> {
    "pid-"@ + decimal::decimal(pid as nat)
}

/// Whether the process may be listed under this command.
pub open spec fn listed_as<N: Fn(u32) -> Result<String, ScanError>>(
    process_name: N,
    pid: u32,
    command: Seq<char>,
) -> bool {
    exists|answer: Result<String, ScanError>| #[trigger]
        call_ensures(process_name, (pid,), answer) && match answer {
            Ok(name) => command == name@,
            Err(_) => command == unnamed_process(pid),
        }
}

/// Whether the processes are those of the sockets, each under its command.
pub open spec fn named<N: Fn(u32) -> Result<String, ScanError>>(
    sockets: Seq<Listener>,
    process_name: N,
    processes: Seq<PortProcess>,
) -> bool {
    &&& processes.len() == sockets.len()
    &&& forall|i: int|
        0 <= i < sockets.len() ==> same_socket(#[trigger] sockets[i], processes[i]@) && listed_as(
            process_name,
            sockets[i].pid,
            processes[i].command@,
        )
}

/// Whether one of the lines is about a socket of the process.
pub open spec fn netstat_names(
    lines: Seq<Seq<char>>,
    protocol: Protocol,
    target_port: Option<u16>,
    pid: u32,
) -> bool {
    exists|i: int|
        {
            &&& 0 <= i < lines.len()
            &&& netstat_line(#[trigger] lines[i], protocol, target_port) matches Some(socket)
            &&& socket.pid == pid
        }
}

/// Whether the name can be asked for of every process that has a socket in the
/// output of `netstat`. No other process is asked for.
pub open spec fn names_known<N: Fn(u32) -> Result<String, ScanError>>(
    output: Seq<char>,
    protocol: Protocol,
    target_port: Option<u16>,
    process_name: N,
) -> bool {
    forall|pid: u32|
        netstat_names(text::lines(output), protocol, target_port, pid) ==> #[trigger] call_requires(
            process_name,
            (pid,),
        )
}

fn parse_netstat_line(line: &Vec<char>, protocol: Protocol, target_port: Option<u16>) -> (socket:
    Option<(u16, u32)>)
    ensures
        match socket {
            Some((port, pid)) => netstat_line(line@, protocol, target_port) == Some(
                (Listener { port, pid, command: seq![], protocol }),
            ),
            None => netstat_line(line@, protocol, target_port) is None,
        },
{
    let columns = text::split_whitespace(line);
    assert(forall|k: int| 0 <= k < columns.len() ==> text::texts(columns@)[k] == columns@[k]@);
    if columns.len() < 4 {
        return None;
    }
    if protocol == Protocol::Tcp {
        let state = text::text_of(&columns[3]);
        if columns.len() < 5 || !text::same_text(state.as_str(), "LISTENING") {
            return None;
        }
    }
    let first = text::text_of(&columns[0]);
    if !text::same_text(text::to_ascii_lowercase(first.as_str()).as_str(), protocol.label()) {
        return None;
    }
    let port: u16 = match extract_port_from_token(&columns[1]) {
        Some(port) => port,
        None => {
            return None;
        },
    };
    if let Some(target) = target_port {
        if target != port {
            return None;
        }
    }
    match decimal::parse_u32(&columns[columns.len() - 1]) {
        Some(pid) => Some((port, pid)),
        None => None,
    }
}

/// The listeners that the output of `netstat` is about, on the given port or on
/// all. The name of each process is asked for.
pub fn parse_netstat_output<N: Fn(u32) -> Result<String, ScanError>>(
    output: &str,
    protocol: Protocol,
    target_port: Option<u16>,
    process_name: &N,
) -> (entries: Vec<PortProcess>)
    requires
        names_known(output@, protocol, target_port, *process_name),
    ensures
        named(
            netstat_lines(text::lines(output@), protocol, target_port),
            *process_name,
            entries@,
        ),
{
    let chars = text::chars_of(output);
    let lines = text::split_lines(&chars);
    let ghost all = text::texts(lines@);
    let mut entries: Vec<PortProcess> = Vec::new();
    let mut i: usize = 0;
    assert(all.take(0) =~= seq![]);
    while i < lines.len()
        invariant
            i <= lines.len(),
            all == text::texts(lines@),
            all == text::lines(output@),
            names_known(output@, protocol, target_port, *process_name),
            named(
                netstat_lines(all.take(i as int), protocol, target_port),
                *process_name,
                entries@,
            ),
        decreases lines.len() - i,
    {
        let ghost sockets = netstat_lines(all.take(i as int), protocol, target_port);
        assert(all.take(i + 1).drop_last() =~= all.take(i as int));
        assert(all.take(i + 1).last() == lines@[i as int]@);
        if let Some((port, pid)) = parse_netstat_line(&lines[i], protocol, target_port) {
            assert(netstat_names(all, protocol, target_port, pid)) by {
                assert(all[i as int] == lines@[i as int]@);
            }
            let command = match process_name(pid) {
                Ok(name) => name,
                Err(_) => with_number("pid-", pid as u64),
            };
            let entry = PortProcess { port, pid, command, protocol };
            let ghost socket = Listener { port, pid, command: seq![], protocol };
            proof {
                assert(listed_as(*process_name, pid, entry.command@));
                assert(seen(sockets, socket) == seen(listeners(entries@), entry@)) by {
                    if seen(sockets, socket) {
                        let k = choose|k: int|
                            0 <= k < sockets.len() && same_socket(#[trigger] sockets[k], socket);
                        assert(same_socket(listeners(entries@)[k], entry@));
                    }
                    if seen(listeners(entries@), entry@) {
                        let k = choose|k: int|
                            0 <= k < entries@.len() && same_socket(
                                #[trigger] listeners(entries@)[k],
                                entry@,
                            );
                        assert(same_socket(sockets[k], socket));
                    }
                }
            }
            if !is_seen(&entries, &entry) {
                entries.push(entry);
            }
        }
        i += 1;
    }
    assert(all.take(all.len() as int) =~= all);
    entries
}

/// What a run of `netstat` comes to.
pub open spec fn netstat_result<N: Fn(u32) -> Result<String, ScanError>>(
    output: Option<ToolOutput>,
    port: Option<u16>,
    process_name: N,
    outcome: Result<Vec<PortProcess>, ScanError>,
) -> bool {
    match output {
        None => outcome == Err::<Vec<PortProcess>, ScanError>(ScanError::NetstatNotRun),
        Some(output) => if output.success {
            outcome matches Ok(found) && named(
                netstat_lines(text::lines(output.stdout@), Protocol::Tcp, port),
                process_name,
                found@,
            )
        } else {
            outcome == Err::<Vec<PortProcess>, ScanError>(ScanError::NetstatFailed)
        },
    }
}

/// Reads what a run of `netstat` gave back, on the given port or on all; `None`
/// where it could not be run.
pub fn read_netstat<N: Fn(u32) -> Result<String, ScanError>>(
    output: &Option<ToolOutput>,
    port: Option<u16>,
    process_name: &N,
) -> (outcome: Result<Vec<PortProcess>, ScanError>)
    requires
        output matches Some(output) ==> (output.success ==> names_known(
            output.stdout@,
            Protocol::Tcp,
            port,
            *process_name,
        )),
    ensures
        netstat_result(*output, port, *process_name, outcome),
{
    match output {
        None => Err(ScanError::NetstatNotRun),
        Some(output) => {
            if output.success {
                Ok(
                    parse_netstat_output(
                        output.stdout.as_str(),
                        Protocol::Tcp,
                        port,
                        process_name,
                    ),
                )
            } else {
                Err(ScanError::NetstatFailed)
            }
        },
    }
}

/// What `netstat` is asked.
pub open spec fn netstat_question() -> Seq<Seq<char>> {
    seq!["-ano"@, "-p"@, "tcp"@]
}

/// The arguments for `netstat`.
pub fn netstat_arguments() -> (arguments: Vec<String>)
    ensures
        text::strings(arguments@) == netstat_question(),
{
    let mut arguments: Vec<String> = Vec::new();
    arguments.push("-ano".to_owned());
    arguments.push("-p".to_owned());
    arguments.push("tcp".to_owned());
    assert(text::strings(arguments@) =~= netstat_question());
    arguments
}

/// Scan the listening processes, on one port or on all, with `netstat`.
pub fn scan_windows<
    R: Fn(&Vec<String>) -> Option<ToolOutput>,
    N: Fn(u32) -> Result<String, ScanError>,
>(port: Option<u16>, run_netstat: &R, process_name: &N) -> (outcome: Result<
    Vec<PortProcess>,
    ScanError,
>)
    requires
        runs(*run_netstat, netstat_question()),
        forall|output: ToolOutput| #[trigger]
            ran(*run_netstat, netstat_question(), Some(output)) && output.success ==> names_known(
                output.stdout@,
                Protocol::Tcp,
                port,
                *process_name,
            ),
    ensures
        exists|output: Option<ToolOutput>, found: Result<Vec<PortProcess>, ScanError>|
            #![trigger ran(*run_netstat, netstat_question(), output), netstat_result(output, port, *process_name, found)]
            ran(*run_netstat, netstat_question(), output) && netstat_result(
                output,
                port,
                *process_name,
                found,
            ) && ordered(found, outcome),
{
    let arguments = netstat_arguments();
    let output = run_netstat(&arguments);
    assert(ran(*run_netstat, netstat_question(), output));
    let found = read_netstat(&output, port, process_name);
    assert(netstat_result(output, port, *process_name, found));
    match found {
        Ok(found) => Ok(sort::sort(found)),
        Err(error) => Err(error),
    }
}

/// What `tasklist` is asked about a process.
pub open spec fn tasklist_question(pid: u32) -> Seq<Seq<char>> {
    seq!["/FI"@, "PID eq "@ + decimal::decimal(pid as nat), "/FO"@, "CSV"@, "/NH"@]
}

/// The arguments for `tasklist`.
pub fn tasklist_arguments(pid: u32) -> (arguments: Vec<String>)
    ensures
        text::strings(arguments@) == tasklist_question(pid),
{
    let mut arguments: Vec<String> = Vec::new();
    arguments.push("/FI".to_owned());
    arguments.push(with_number("PID eq ", pid as u64));
    arguments.push("/FO".to_owned());
    arguments.push("CSV".to_owned());
    arguments.push("/NH".to_owned());
    assert(text::strings(arguments@) =~= tasklist_question(pid));
    arguments
}

/// The first line of the text without whitespace around it; nothing where
/// there is no line.
pub open spec fn first_line(output: Seq<char>) -> Seq<char> {
    let lines = text::lines(output);
    if lines.len() == 0 {
        seq![]
    } else {
        text::trimmed(lines[0])
    }
}

/// The text without the quotation marks around it.
pub open spec fn unquoted(line: Seq<char>) -> Seq<char> {
    text::without_trailing(text::without_leading(line, '"'), '"')
}

/// The name of a process from what `tasklist` gave back about it; `None` where
/// it could not be run.
pub fn windows_process_name(pid: u32, output: &Option<ToolOutput>) -> (name: Result<
    String,
    ScanError,
>)
    ensures
        match output {
            None => name == Err::<String, ScanError>(ScanError::TasklistNotRun { pid }),
            Some(output) => if !output.success {
                name == Err::<String, ScanError>(ScanError::TasklistFailed { pid })
            } else if first_line(output.stdout@).len() == 0 || "INFO:"@.is_prefix_of(
                first_line(output.stdout@),
            ) {
                name == Err::<String, ScanError>(ScanError::ProcessNotFound { pid })
            } else {
                name matches Ok(name) && name@ == text::before_first(
                    unquoted(first_line(output.stdout@)),
                    "\",\""@,
                )
            },
        },
{
    match output {
        None => Err(ScanError::TasklistNotRun { pid }),
        Some(output) => {
            if !output.success {
                return Err(ScanError::TasklistFailed { pid });
            }
            let stdout = text::chars_of(output.stdout.as_str());
            let lines = text::split_lines(&stdout);
            assert(text::texts(lines@).len() == lines.len());
            if lines.len() == 0 {
                return Err(ScanError::ProcessNotFound { pid });
            }
            assert(text::texts(lines@)[0] == lines@[0]@);
            let line = text::trim(&lines[0]);
            let line_text = text::text_of(&line);
            if line.len() == 0 || text::starts_with(line_text.as_str(), "INFO:") {
                return Err(ScanError::ProcessNotFound { pid });
            }
            let end = text::trim_start_matches(&line, '"');
            let inner = text::trim_end_matches(&end, '"');
            let separator = text::chars_of("\",\"");
            let first = text::take_before(&inner, &separator);
            Ok(text::text_of(&first))
        },
    }
}

/// Whether what `tasklist` gave back about a process shows that it is alive.
pub fn tasklist_shows_process(output: &Option<ToolOutput>) -> (alive: bool)
    ensures
        alive == (output matches Some(output) && output.success && text::trimmed(
            output.stdout@,
        ).len() > 0 && !"INFO:"@.is_prefix_of(output.stdout@)),
{
    match output {
        None => false,
        Some(output) => {
            let stdout = text::chars_of(output.stdout.as_str());
            output.success && text::trim(&stdout).len() > 0 && !text::starts_with(
                output.stdout.as_str(),
                "INFO:",
            )
        },
    }
}

// ── Ending the processes on a port ──────────────────────────────────────

/// The process ids of the listeners, each once, where it comes first.
pub open spec fn distinct_pids(processes: Seq<PortProcess>) -> Seq<u32>
    decreases processes.len(),
{
    if processes.len() == 0 {
        seq![]
    } else {
        let pids = distinct_pids(processes.drop_last());
        if pids.contains(processes.last().pid) {
            pids
        } else {
            pids.push(processes.last().pid)
        }
    }
}

/// The process ids of the listeners, each once.
pub fn unique_pids(processes: &[PortProcess]) -> (pids: Vec<u32>)
    ensures
        pids@ == distinct_pids(processes@),
{
    let mut pids: Vec<u32> = Vec::new();
    let mut i: usize = 0;
    assert(processes@.take(0) =~= seq![]);
    while i < processes.len()
        invariant
            i <= processes.len(),
            pids@ == distinct_pids(processes@.take(i as int)),
        decreases processes.len() - i,
    {
        assert(processes@.take(i + 1).drop_last() =~= processes@.take(i as int));
        let pid: u32 = processes[i].pid;
        let mut known = false;
        let mut k: usize = 0;
        while k < pids.len()
            invariant
                k <= pids.len(),
                known == exists|j: int| 0 <= j < k && #[trigger] pids@[j] == pid,
            decreases pids.len() - k,
        {
            if pids[k] == pid {
                known = true;
            }
            k += 1;
        }
        assert(known == pids@.contains(pid));
        if !known {
            pids.push(pid);
        }
        i += 1;
    }
    assert(processes@.take(processes@.len() as int) =~= processes@);
    pids
}

/// How the tool is told to end a process.
pub open spec fn kill_order(tool: KillTool, signal: Seq<char>, pid: u32) -> Seq<Seq<char>> {
    match tool {
        KillTool::Kill => seq!["-"@ + signal, decimal::decimal(pid as nat)],
        KillTool::Taskkill => if text::ascii_lowered(signal) == "kill"@ {
            seq!["/PID"@, decimal::decimal(pid as nat), "/F"@]
        } else {
            seq!["/PID"@, decimal::decimal(pid as nat)]
        },
    }
}

/// The arguments for the tool that ends processes.
pub fn kill_arguments(tool: KillTool, signal: &str, pid: u32) -> (arguments: Vec<String>)
    ensures
        text::strings(arguments@) == kill_order(tool, signal@, pid),
{
    let mut arguments: Vec<String> = Vec::new();
    match tool {
        KillTool::Kill => {
            let mut option = "-".to_owned();
            option.append(signal);
            arguments.push(option);
            arguments.push(decimal::decimal_text(pid as u64));
        },
        KillTool::Taskkill => {
            arguments.push("/PID".to_owned());
            arguments.push(decimal::decimal_text(pid as u64));
            if text::same_text(text::to_ascii_lowercase(signal).as_str(), "kill") {
                arguments.push("/F".to_owned());
            }
        },
    }
    assert(text::strings(arguments@) =~= kill_order(tool, signal@, pid));
    arguments
}

/// Whether the tool may be run for the process with this result: whether it
/// succeeded, or `None` where it could not be run.
pub open spec fn kill_ran<K: Fn(&Vec<String>) -> Option<bool>>(
    tool: KillTool,
    signal: Seq<char>,
    pid: u32,
    run_kill: K,
    result: Option<bool>,
) -> bool {
    exists|given: Vec<String>|
        text::strings(given@) == kill_order(tool, signal, pid) && #[trigger] call_ensures(
            run_kill,
            (&given,),
            result,
        )
}

/// Whether the tool may have been run for the first `n` processes, each time
/// with success.
pub open spec fn all_told<K: Fn(&Vec<String>) -> Option<bool>>(
    pids: Seq<u32>,
    n: int,
    tool: KillTool,
    signal: Seq<char>,
    run_kill: K,
) -> bool {
    forall|i: int|
        0 <= i < n ==> kill_ran(tool, signal, #[trigger] pids[i], run_kill, Some(true))
}

/// Whether it may be the turn of a process for these arguments: the scan found
/// it, and all processes before it were told to end with success.
pub open spec fn in_turn<K: Fn(&Vec<String>) -> Option<bool>>(
    found: Result<Vec<PortProcess>, ScanError>,
    tool: KillTool,
    signal: Seq<char>,
    run_kill: K,
    arguments: Seq<Seq<char>>,
) -> bool {
    found matches Ok(listeners) && {
        let pids = distinct_pids(listeners@);
        exists|k: int|
            {
                &&& 0 <= k < pids.len()
                &&& arguments == kill_order(tool, signal, pids[k])
                &&& #[trigger] all_told(pids, k, tool, signal, run_kill)
            }
    }
}

/// Whether the tool can be run whenever it is the turn of a process. It is run
/// for no other process and at no other time.
pub open spec fn kills_in_turn<K: Fn(&Vec<String>) -> Option<bool>>(
    found: Result<Vec<PortProcess>, ScanError>,
    tool: KillTool,
    signal: Seq<char>,
    run_kill: K,
) -> bool {
    forall|arguments: &Vec<String>|
        in_turn(found, tool, signal, run_kill, text::strings(arguments@))
            ==> #[trigger] call_requires(run_kill, (arguments,))
}

/// The next step in ending the processes of the listeners.
#[derive(Debug)]
pub enum KillStep {
    /// Run the tool with these arguments.
    Tell { arguments: Vec<String> },
    /// Every process was told to end.
    Done,
    /// Nothing more is done.
    Failed { error: ScanError },
}

/// The error where the tool did not end a process: it could not be run, or it
/// did not succeed.
pub open spec fn kill_error(tool: KillTool, pid: u32, result: Option<bool>) -> ScanError {
    match result {
        None => ScanError::KillNotRun { tool, pid },
        Some(_) => ScanError::KillFailed { tool, pid },
    }
}

/// Whether the first `n` results are successes.
pub open spec fn succeeded(results: Seq<Option<bool>>, n: int) -> bool {
    forall|i: int| 0 <= i < n ==> #[trigger] results[i] == Some(true)
}

/// What is done after the tool was run with these results: where all were
/// successes, the next process is told, if there is one; the first failure
/// ends it.
pub open spec fn kill_next(
    listeners: Seq<PortProcess>,
    results: Seq<Option<bool>>,
    port: u16,
    tool: KillTool,
    signal: Seq<char>,
    step: KillStep,
) -> bool {
    let pids = distinct_pids(listeners);
    if listeners.len() == 0 {
        step == (KillStep::Failed { error: ScanError::NoListener { port } })
    } else if succeeded(results, results.len() as int) {
        if results.len() < pids.len() {
            step matches KillStep::Tell { arguments } && text::strings(arguments@) == kill_order(
                tool,
                signal,
                pids[results.len() as int],
            )
        } else {
            step is Done
        }
    } else {
        exists|k: int|
            {
                &&& 0 <= k < results.len()
                &&& #[trigger] succeeded(results, k)
                &&& results[k] != Some(true)
                &&& step == (KillStep::Failed { error: kill_error(tool, pids[k], results[k]) })
            }
    }
}

/// What to do next about the processes of the listeners, once the tool was run
/// for the first of them with these results: whether it succeeded, or `None`
/// where it could not be run.
pub fn kill_step(
    listeners: &[PortProcess],
    results: &[Option<bool>],
    port: u16,
    tool: KillTool,
    signal: &str,
) -> (step: KillStep)
    requires
        results@.len() <= distinct_pids(listeners@).len(),
    ensures
        kill_next(listeners@, results@, port, tool, signal@, step),
{
    if listeners.len() == 0 {
        return KillStep::Failed { error: ScanError::NoListener { port } };
    }
    let pids = unique_pids(listeners);
    let mut i: usize = 0;
    while i < results.len()
        invariant
            i <= results.len() <= pids.len(),
            pids@ == distinct_pids(listeners@),
            listeners@.len() > 0,
            succeeded(results@, i as int),
        decreases results.len() - i,
    {
        match results[i] {
            None => {
                return KillStep::Failed { error: ScanError::KillNotRun { tool, pid: pids[i] } };
            },
            Some(success) => {
                if !success {
                    return KillStep::Failed {
                        error: ScanError::KillFailed { tool, pid: pids[i] },
                    };
                }
            },
        }
        i += 1;
    }
    if results.len() < pids.len() {
        KillStep::Tell { arguments: kill_arguments(tool, signal, pids[results.len()]) }
    } else {
        KillStep::Done
    }
}

/// What ending the processes of the listeners comes to. Every process is told,
/// in order; the first one for which that fails ends it.
pub open spec fn processes_ended<K: Fn(&Vec<String>) -> Option<bool>>(
    found: Result<Vec<PortProcess>, ScanError>,
    port: u16,
    tool: KillTool,
    signal: Seq<char>,
    run_kill: K,
    outcome: Result<Vec<PortProcess>, ScanError>,
) -> bool {
    match found {
        Err(error) => outcome == Err::<Vec<PortProcess>, ScanError>(error),
        Ok(listeners) => if listeners@.len() == 0 {
            outcome == Err::<Vec<PortProcess>, ScanError>(ScanError::NoListener { port })
        } else {
            let pids = distinct_pids(listeners@);
            match outcome {
                Ok(returned) => returned == listeners && all_told(
                    pids,
                    pids.len() as int,
                    tool,
                    signal,
                    run_kill,
                ),
                Err(error) => exists|k: int|
                    {
                        &&& 0 <= k < pids.len()
                        &&& #[trigger] all_told(pids, k, tool, signal, run_kill)
                        &&& match error {
                            ScanError::KillNotRun { tool: t, pid } => t == tool && pid == pids[k]
                                && kill_ran(tool, signal, pids[k], run_kill, None),
                            ScanError::KillFailed { tool: t, pid } => t == tool && pid == pids[k]
                                && kill_ran(tool, signal, pids[k], run_kill, Some(false)),
                            _ => false,
                        }
                    },
            }
        },
    }
}

/// Ends the processes of the listeners that a scan of the port found.
pub fn kill_listeners<K: Fn(&Vec<String>) -> Option<bool>>(
    found: Result<Vec<PortProcess>, ScanError>,
    port: u16,
    tool: KillTool,
    signal: &str,
    run_kill: &K,
) -> (outcome: Result<Vec<PortProcess>, ScanError>)
    requires
        kills_in_turn(found, tool, signal@, *run_kill),
    ensures
        processes_ended(found, port, tool, signal@, *run_kill, outcome),
{
    let listeners = match found {
        Ok(listeners) => listeners,
        Err(error) => {
            return Err(error);
        },
    };
    let ghost pids = distinct_pids(listeners@);
    let mut results: Vec<Option<bool>> = Vec::new();
    loop
        invariant
            found == Ok::<Vec<PortProcess>, ScanError>(listeners),
            pids == distinct_pids(listeners@),
            kills_in_turn(found, tool, signal@, *run_kill),
            results@.len() <= pids.len(),
            forall|i: int|
                0 <= i < results@.len() ==> kill_ran(
                    tool,
                    signal@,
                    #[trigger] pids[i],
                    *run_kill,
                    results@[i],
                ),
        decreases pids.len() - results@.len(),
    {
        let step = kill_step(listeners.as_slice(), results.as_slice(), port, tool, signal);
        assert(pids == distinct_pids(found->Ok_0@));
        match step {
            KillStep::Tell { arguments } => {
                let ghost k = results@.len() as int;
                assert(all_told(pids, k, tool, signal@, *run_kill)) by {
                    assert(forall|i: int| 0 <= i < k ==> #[trigger] results@[i] == Some(true));
                }
                let result = run_kill(&arguments);
                assert(kill_ran(tool, signal@, pids[k], *run_kill, result));
                results.push(result);
            },
            KillStep::Done => {
                assert(all_told(pids, pids.len() as int, tool, signal@, *run_kill)) by {
                    assert(forall|i: int|
                        0 <= i < pids.len() ==> #[trigger] results@[i] == Some(true));
                }
                return Ok(listeners);
            },
            KillStep::Failed { error } => {
                proof {
                    if listeners@.len() > 0 {
                        let k = choose|k: int|
                            {
                                &&& 0 <= k < results@.len()
                                &&& #[trigger] succeeded(results@, k)
                                &&& results@[k] != Some(true)
                                &&& error == kill_error(tool, pids[k], results@[k])
                            };
                        assert(kill_ran(tool, signal@, pids[k], *run_kill, results@[k]));
                        assert(results@[k] is Some ==> results@[k] == Some(false));
                        assert(all_told(pids, k, tool, signal@, *run_kill)) by {
                            assert(forall|i: int|
                                0 <= i < k ==> #[trigger] results@[i] == Some(true));
                        }
                    }
                }
                return Err(error);
            },
        }
    }
}

/// Ends every process that listens on the port.
pub fn kill_processes_on_port<
    S: Fn(Option<u16>) -> Result<Vec<PortProcess>, ScanError>,
    K: Fn(&Vec<String>) -> Option<bool>,
>(port: u16, signal: &str, tool: KillTool, scan: &S, run_kill: &K) -> (outcome: Result<
    Vec<PortProcess>,
    ScanError,
>)
    requires
        call_requires(*scan, (Some(port),)),
        forall|found: Result<Vec<PortProcess>, ScanError>| #[trigger]
            call_ensures(*scan, (Some(port),), found) ==> kills_in_turn(
                found,
                tool,
                signal@,
                *run_kill,
            ),
    ensures
        exists|found: Result<Vec<PortProcess>, ScanError>| #[trigger]
            call_ensures(*scan, (Some(port),), found) && processes_ended(
                found,
                port,
                tool,
                signal@,
                *run_kill,
                outcome,
            ),
{
    let found = scan(Some(port));
    kill_listeners(found, port, tool, signal, run_kill)
}

// ── What holds of every scan ────────────────────────────────────────────

/// Whether no process is listed twice on the same port.
pub open spec fn all_distinct(found: Seq<Listener>) -> bool {
    forall|i: int, j: int|
        0 <= i < j < found.len() ==> !same_socket(#[trigger] found[i], #[trigger] found[j])
}

/// `lsof` may name a process on a port several times; a scan lists it once.
pub proof fn lsof_listeners_are_distinct(lines: Seq<Seq<char>>, protocol: Protocol)
    ensures
        all_distinct(lsof_lines(lines, protocol)),
        forall|i: int|
            0 <= i < lsof_lines(lines, protocol).len() ==> (#[trigger] lsof_lines(
                lines,
                protocol,
            )[i]).protocol == protocol,
    decreases lines.len(),
{
    if lines.len() > 0 {
        lsof_listeners_are_distinct(lines.drop_last(), protocol);
    }
}

/// `netstat` may name a process on a port several times; a scan lists it once,
/// and only on the port that was asked for.
pub proof fn netstat_listeners_are_distinct(
    lines: Seq<Seq<char>>,
    protocol: Protocol,
    target_port: Option<u16>,
)
    ensures
        all_distinct(netstat_lines(lines, protocol, target_port)),
        target_port matches Some(port) ==> forall|i: int|
            0 <= i < netstat_lines(lines, protocol, target_port).len() ==> (
            #[trigger] netstat_lines(lines, protocol, target_port)[i]).port == port,
    decreases lines.len(),
{
    if lines.len() > 0 {
        netstat_listeners_are_distinct(lines.drop_last(), protocol, target_port);
    }
}

/// A process that listens on a port several times is told to end once, and
/// every process that listens is told.
pub proof fn each_process_is_told_once(processes: Seq<PortProcess>)
    ensures
        distinct_pids(processes).no_duplicates(),
        forall|pid: u32| #[trigger]
            distinct_pids(processes).contains(pid) <==> exists|i: int|
                0 <= i < processes.len() && (#[trigger] processes[i]).pid == pid,
        processes.len() > 0 ==> distinct_pids(processes).len() > 0,
    decreases processes.len(),
{
    if processes.len() > 0 {
        let before = processes.drop_last();
        let last = processes.last().pid;
        each_process_is_told_once(before);
        let pids = distinct_pids(before);
        let all = distinct_pids(processes);
        assert forall|pid: u32| #[trigger] all.contains(pid) <==> exists|i: int|
            0 <= i < processes.len() && (#[trigger] processes[i]).pid == pid by {
            if all.contains(pid) {
                if pids.contains(pid) {
                    let k = choose|k: int| 0 <= k < before.len() && (#[trigger] before[k]).pid == pid;
                    assert(processes[k].pid == pid);
                } else {
                    assert(pid == last);
                    assert(processes[processes.len() - 1].pid == pid);
                }
            }
            if exists|i: int| 0 <= i < processes.len() && (#[trigger] processes[i]).pid == pid {
                let k = choose|k: int|
                    0 <= k < processes.len() && (#[trigger] processes[k]).pid == pid;
                if k < before.len() {
                    assert(before[k].pid == pid);
                    assert(pids.contains(pid));
                    let j = choose|j: int| 0 <= j < pids.len() && pids[j] == pid;
                    assert(all[j] == pid);
                } else {
                    if !pids.contains(last) {
                        assert(all[all.len() - 1] == last);
                    }
                }
            }
        }
        assert(all.contains(last));
    }
}

/// However the tool fares, no process is told to end twice, and none after a
/// failure: of two steps on the way the later one tells another process than
/// the earlier one, and only where the tool succeeded for that one.
pub proof fn steps_tell_no_process_twice(
    listeners: Seq<PortProcess>,
    earlier: Seq<Option<bool>>,
    later: Seq<Option<bool>>,
    port: u16,
    tool: KillTool,
    signal: Seq<char>,
    first: KillStep,
    second: KillStep,
)
    requires
        earlier.is_prefix_of(later),
        earlier.len() < later.len() <= distinct_pids(listeners).len(),
        kill_next(listeners, earlier, port, tool, signal, first),
        kill_next(listeners, later, port, tool, signal, second),
    ensures
        second is Tell ==> {
            let pids = distinct_pids(listeners);
            &&& first is Tell
            &&& later[earlier.len() as int] == Some(true)
            &&& pids[earlier.len() as int] != pids[later.len() as int]
        },
        first is Failed ==> second == first,
        !(first is Done),
{
    each_process_is_told_once(listeners);
    assert(forall|i: int| 0 <= i < earlier.len() ==> #[trigger] earlier[i] == later[i]);
    if succeeded(later, later.len() as int) {
        assert(later[earlier.len() as int] == Some(true));
        assert(succeeded(earlier, earlier.len() as int)) by {
            assert forall|i: int| 0 <= i < earlier.len() implies #[trigger] earlier[i] == Some(
                true,
            ) by {
                assert(later[i] == Some(true));
            }
        }
    }
    if listeners.len() > 0 && !succeeded(earlier, earlier.len() as int) {
        let k = choose|k: int|
            {
                &&& 0 <= k < earlier.len()
                &&& #[trigger] succeeded(earlier, k)
                &&& earlier[k] != Some(true)
                &&& first == (KillStep::Failed {
                    error: kill_error(tool, distinct_pids(listeners)[k], earlier[k]),
                })
            };
        assert(later[k] != Some(true));
        let j = choose|j: int|
            {
                &&& 0 <= j < later.len()
                &&& #[trigger] succeeded(later, j)
                &&& later[j] != Some(true)
                &&& second == (KillStep::Failed {
                    error: kill_error(tool, distinct_pids(listeners)[j], later[j]),
                })
            };
        if j < k {
            assert(earlier[j] == Some(true));
        }
        if k < j {
            assert(later[k] == Some(true));
        }
    }
}

} // verus!
