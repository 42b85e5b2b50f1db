//! Finding the processes that listen.
use vstd::prelude::*;
use crate::decimal;
use crate::model;
use crate::model::Protocol;
use crate::promises::words;
use crate::scan;
use crate::scan::{Listener, PortProcess, ScanError, ToolOutput};
use crate::text;

verus! {

// ── Addresses ───────────────────────────────────────────────────────────

/// The digits at the end of a text that ends with them.
proof fn lemma_digits_at_end(start: Seq<char>, digits: Seq<char>)
    requires
        start.len() > 0,
        !('0' <= start.last() <= '9'),
        forall|i: int| 0 <= i < digits.len() ==> '0' <= #[trigger] digits[i] <= '9',
    ensures
        scan::trailing_digits(start + digits) == digits,
    decreases digits.len(),
{
    let whole = start + digits;
    if digits.len() > 0 {
        assert(whole.last() == digits.last());
        assert(whole.drop_last() =~= start + digits.drop_last());
        lemma_digits_at_end(start, digits.drop_last());
        assert(digits.drop_last().push(digits.last()) =~= digits);
    } else {
        assert(whole =~= start);
        assert(scan::trailing_digits(whole) =~= digits);
    }
}

/// The port of an address that is not followed by anything.
proof fn lemma_plain_address(host: Seq<char>, port: u16)
    ensures
        ({
            let digits = decimal::decimal(port as nat);
            let address = host.push(':') + digits;
            &&& scan::trailing_digits(address) == digits
            &&& digits.len() > 0
            &&& address.take(address.len() - digits.len()).contains(':')
            &&& decimal::parse_unsigned(digits, u16::MAX as nat) == Some(port as nat)
        }),
{
    let digits = decimal::decimal(port as nat);
    let address = host.push(':') + digits;
    decimal::decimal_reads_back(port as nat);
    assert forall|i: int| 0 <= i < digits.len() implies '0' <= #[trigger] digits[i] <= '9' by {
        assert(text::is_digit(digits[i]));
    }
    lemma_digits_at_end(host.push(':'), digits);
    assert(address.take(address.len() - digits.len()) =~= host.push(':'));
    assert(host.push(':')[host.len() as int] == ':');
    words::lemma_parses(port as nat, u16::MAX as nat);
}

/// The port of an address is the number behind its colon, also where brackets
/// are closed behind it.
pub proof fn port_stands_behind_the_colon(
    token: &[char],
    host: Seq<char>,
    port: u16,
    brackets: Seq<char>,
    found: Option<u16>,
)
    requires
        call_ensures(scan::extract_port_from_token, (token,), found),
        token@ == host.push(':') + decimal::decimal(port as nat) + brackets,
        forall|i: int| 0 <= i < host.len() ==> #[trigger] host[i] != '>',
        forall|i: int| 0 <= i < brackets.len() ==> #[trigger] brackets[i] == ')',
    ensures
        found == Some(port),
{
    lemma_bracketed_address(host, port, brackets);
}

/// The port of an address with closing brackets behind it.
pub proof fn lemma_bracketed_address(host: Seq<char>, port: u16, brackets: Seq<char>)
    requires
        forall|i: int| 0 <= i < host.len() ==> #[trigger] host[i] != '>',
        forall|i: int| 0 <= i < brackets.len() ==> #[trigger] brackets[i] == ')',
    ensures
        scan::token_port(host.push(':') + decimal::decimal(port as nat) + brackets) == Some(port),
{
    let digits = decimal::decimal(port as nat);
    let address = host.push(':') + digits;
    let token = address + brackets;
    lemma_plain_address(host, port);
    decimal::decimal_reads_back(port as nat);
    words::lemma_without_trailing(token, ')');
    let start = text::without_trailing(token, ')');
    assert(text::is_digit(digits.last()));
    assert(address.last() == digits.last());
    assert(start =~= address) by {
        if start.len() > address.len() {
            assert(start.last() == token[start.len() - 1]);
            assert(token[start.len() - 1] == brackets[start.len() - 1 - address.len()]);
        }
        if start.len() < address.len() {
            assert(token[address.len() - 1] == address.last());
        }
    }
    reveal_strlit("->");
    text::lemma_find_text(address, "->"@, 0);
    if text::find_text(address, "->"@, 0) is Some {
        let at = text::find_text(address, "->"@, 0)->0;
        assert(address.subrange(at, at + 2)[1] == address[at + 1]);
        assert("->"@[1] == '>');
        if at + 1 > host.len() {
            assert(text::is_digit(digits[at + 1 - host.len() - 1]));
        }
    }
}

/// The port of a connection is that of its local end, before the arrow.
pub proof fn port_stands_before_the_arrow(
    token: &[char],
    host: Seq<char>,
    port: u16,
    remote: Seq<char>,
    found: Option<u16>,
)
    requires
        call_ensures(scan::extract_port_from_token, (token,), found),
        token@ == host.push(':') + decimal::decimal(port as nat) + seq!['-', '>'] + remote,
        forall|i: int| 0 <= i < host.len() ==> #[trigger] host[i] != '>',
    ensures
        found == Some(port),
{
    let digits = decimal::decimal(port as nat);
    let address = host.push(':') + digits;
    lemma_plain_address(host, port);
    decimal::decimal_reads_back(port as nat);
    words::lemma_without_trailing(token@, ')');
    let start = text::without_trailing(token@, ')');
    let n = address.len() as int;
    reveal_strlit("->");
    assert(start.len() >= n + 2) by {
        if start.len() < n + 2 {
            assert(token@[n + 1] == '>');
        }
    }
    assert(start.subrange(n, n + 2) =~= "->"@);
    assert(text::occurs_at(start, "->"@, n));
    text::lemma_find_text(start, "->"@, 0);
    let at = text::find_text(start, "->"@, 0)->0;
    assert(at == n) by {
        if at < n {
            assert(start.subrange(at, at + 2)[1] == start[at + 1]);
            assert("->"@[1] == '>');
            assert(start[at + 1] == token@[at + 1]);
            if at + 1 < n {
                assert(token@[at + 1] == address[at + 1]);
                if at + 1 > host.len() {
                    assert(text::is_digit(digits[at + 1 - host.len() - 1]));
                }
            } else {
                assert(token@[at + 1] == '-');
            }
        }
    }
    assert(start.subrange(0, at) =~= address);
}

/// A word without a colon has no port.
pub proof fn word_without_colon_has_no_port(token: &[char], found: Option<u16>)
    requires
        call_ensures(scan::extract_port_from_token, (token,), found),
        !token@.contains(':'),
    ensures
        found is None,
{
    lemma_no_colon(token@);
}

/// A word without a colon has no port.
pub proof fn lemma_no_colon(token: Seq<char>)
    requires
        !token.contains(':'),
    ensures
        scan::token_port(token) is None,
{
    words::lemma_without_trailing(token, ')');
    let start = text::without_trailing(token, ')');
    let address = text::before_first(start, "->"@);
    text::lemma_find_text(start, "->"@, 0);
    let digits = scan::trailing_digits(address);
    let prefix = address.take(address.len() - digits.len());
    if digits.len() > 0 && prefix.contains(':') {
        let i = choose|i: int| 0 <= i < prefix.len() && prefix[i] == ':';
        lemma_trailing_len(address);
        assert(address[i] == ':');
        assert(start[i] == ':');
        assert(token[i] == ':');
    }
}

proof fn lemma_trailing_len(text: Seq<char>)
    ensures
        scan::trailing_digits(text).len() <= text.len(),
    decreases text.len(),
{
    if text.len() > 0 && text::is_digit(text.last()) {
        lemma_trailing_len(text.drop_last());
    }
}

/// Whether the words name the port: it stands in one of them, and none of those
/// behind it has one.
pub open spec fn port_is_named(words: Seq<Seq<char>>, port: u16) -> bool {
    exists|k: int|
        {
            &&& 0 <= k < words.len()
            &&& scan::token_port(#[trigger] words[k]) == Some(port)
            &&& forall|j: int|
                k < j < words.len() ==> scan::token_port(#[trigger] words[j]) is None
        }
}

/// The last port in the words is the one that they name.
proof fn lemma_last_port(words: Seq<Seq<char>>, port: u16)
    ensures
        scan::last_port(words) == Some(port) <==> port_is_named(words, port),
    decreases words.len(),
{
    if words.len() > 0 {
        let n = words.len() - 1;
        let before = words.drop_last();
        lemma_last_port(before, port);
        if scan::token_port(words[n]) is Some {
            if port_is_named(words, port) {
                let k = choose|k: int|
                    {
                        &&& 0 <= k < words.len()
                        &&& scan::token_port(#[trigger] words[k]) == Some(port)
                        &&& forall|j: int|
                            k < j < words.len() ==> scan::token_port(#[trigger] words[j]) is None
                    };
                if k < n {
                    assert(scan::token_port(words[n]) is None);
                }
            }
            if scan::last_port(words) == Some(port) {
                assert(scan::token_port(words[n]) == Some(port));
            }
        } else {
            if port_is_named(before, port) {
                let k = choose|k: int|
                    {
                        &&& 0 <= k < before.len()
                        &&& scan::token_port(#[trigger] before[k]) == Some(port)
                        &&& forall|j: int|
                            k < j < before.len() ==> scan::token_port(#[trigger] before[j]) is None
                    };
                assert(scan::token_port(words[k]) == Some(port));
                assert forall|j: int| k < j < words.len() implies scan::token_port(
                    #[trigger] words[j],
                ) is None by {
                    if j < n {
                        assert(before[j] == words[j]);
                    }
                }
            }
            if port_is_named(words, port) {
                let k = choose|k: int|
                    {
                        &&& 0 <= k < words.len()
                        &&& scan::token_port(#[trigger] words[k]) == Some(port)
                        &&& forall|j: int|
                            k < j < words.len() ==> scan::token_port(#[trigger] words[j]) is None
                    };
                assert(k < n);
                assert(scan::token_port(before[k]) == Some(port));
                assert forall|j: int| k < j < before.len() implies scan::token_port(
                    #[trigger] before[j],
                ) is None by {
                    assert(before[j] == words[j]);
                }
            }
        }
    }
}

/// The port of a line is the one that its words name.
pub proof fn port_of_a_line_is_the_last_one(line: &str, found: Option<u16>, port: u16)
    requires
        call_ensures(scan::extract_port, (line,), found),
    ensures
        found == Some(port) <==> port_is_named(text::tokens(line@), port),
{
    lemma_last_port(text::tokens(line@), port);
}

// ── lsof ────────────────────────────────────────────────────────────────

/// Whether the line of `lsof` names the process and the port: the process id
/// is its second word, and the port that of its last address.
pub open spec fn lsof_line_names(line: Seq<char>, pid: u32, port: u16) -> bool {
    let words = text::tokens(line);
    &&& words.len() >= 2
    &&& decimal::parse_unsigned(words[1], u32::MAX as nat) == Some(pid as nat)
    &&& port_is_named(words, port)
}

proof fn lemma_lsof_line(line: Seq<char>, protocol: Protocol, pid: u32, port: u16)
    ensures
        lsof_line_names(line, pid, port) <==> (scan::lsof_line(line, protocol) matches Some(found)
            && found.pid == pid && found.port == port),
        scan::lsof_line(line, protocol) matches Some(found) ==> found.protocol == protocol
            && found.command == text::tokens(line)[0],
{
    lemma_last_port(text::tokens(line), port);
}

/// Every line that names a process and a port has its entry.
proof fn lemma_lsof_complete(
    lines: Seq<Seq<char>>,
    protocol: Protocol,
    i: int,
    pid: u32,
    port: u16,
)
    requires
        0 <= i < lines.len(),
        lsof_line_names(lines[i], pid, port),
    ensures
        exists|k: int|
            {
                &&& 0 <= k < scan::lsof_lines(lines, protocol).len()
                &&& (#[trigger] scan::lsof_lines(lines, protocol)[k]).port == port
                &&& scan::lsof_lines(lines, protocol)[k].pid == pid
                &&& scan::lsof_lines(lines, protocol)[k].protocol == protocol
            },
    decreases lines.len(),
{
    let n = lines.len() - 1;
    let before = scan::lsof_lines(lines.drop_last(), protocol);
    let all = scan::lsof_lines(lines, protocol);
    if i < n {
        lemma_lsof_complete(lines.drop_last(), protocol, i, pid, port);
        let k = choose|k: int|
            {
                &&& 0 <= k < before.len()
                &&& (#[trigger] before[k]).port == port
                &&& before[k].pid == pid
                &&& before[k].protocol == protocol
            };
        assert(all[k] == before[k]);
    } else {
        lemma_lsof_line(lines[n], protocol, pid, port);
        let found = scan::lsof_line(lines[n], protocol)->0;
        if scan::seen(before, found) {
            let k = choose|k: int|
                0 <= k < before.len() && scan::same_socket(#[trigger] before[k], found);
            assert(all[k] == before[k]);
            assert(all[k].port == port && all[k].pid == pid && all[k].protocol == protocol);
        } else {
            assert(all[before.len() as int] == found);
        }
    }
}

/// Every entry comes from a line that names its process and its port.
proof fn lemma_lsof_sound(lines: Seq<Seq<char>>, protocol: Protocol, k: int)
    requires
        0 <= k < scan::lsof_lines(lines, protocol).len(),
    ensures
        ({
            let entry = scan::lsof_lines(lines, protocol)[k];
            &&& entry.protocol == protocol
            &&& exists|i: int|
                {
                    &&& 0 <= i < lines.len()
                    &&& lsof_line_names(#[trigger] lines[i], entry.pid, entry.port)
                    &&& entry.command == text::tokens(lines[i])[0]
                }
        }),
    decreases lines.len(),
{
    let n = lines.len() - 1;
    let first = lines.drop_last();
    let before = scan::lsof_lines(first, protocol);
    let entry = scan::lsof_lines(lines, protocol)[k];
    if k < before.len() {
        lemma_lsof_sound(first, protocol, k);
        let i = choose|i: int|
            {
                &&& 0 <= i < first.len()
                &&& lsof_line_names(#[trigger] first[i], entry.pid, entry.port)
                &&& entry.command == text::tokens(first[i])[0]
            };
        assert(lines[i] == first[i]);
    } else {
        lemma_lsof_line(lines[n], protocol, entry.pid, entry.port);
        assert(lsof_line_names(lines[n], entry.pid, entry.port));
    }
}

/// A scan with `lsof` is complete: whatever process and port a line behind the
/// heading names, there is an entry for that process on that port.
pub proof fn every_listener_of_lsof_is_listed(
    output: &str,
    protocol: Protocol,
    entries: Vec<PortProcess>,
    i: int,
    pid: u32,
    port: u16,
)
    requires
        call_ensures(scan::parse_lsof_output, (output, protocol), entries),
        1 <= i < text::lines(output@).len(),
        lsof_line_names(text::lines(output@)[i], pid, port),
    ensures
        exists|k: int|
            {
                &&& 0 <= k < entries@.len()
                &&& (#[trigger] entries@[k]).port == port
                &&& entries@[k].pid == pid
                &&& entries@[k].protocol == protocol
            },
{
    let lines = text::lines(output@).skip(1);
    assert(lines[i - 1] == text::lines(output@)[i]);
    lemma_lsof_complete(lines, protocol, i - 1, pid, port);
    let all = scan::lsof_lines(lines, protocol);
    let k = choose|k: int|
        {
            &&& 0 <= k < all.len()
            &&& (#[trigger] all[k]).port == port
            &&& all[k].pid == pid
            &&& all[k].protocol == protocol
        };
    assert(scan::listeners(entries@)[k] == entries@[k]@);
}

/// Every entry of a scan with `lsof` comes from a line behind the heading that
/// names its process and its port, under the command at its start; and no
/// process is listed twice on a port.
pub proof fn every_entry_of_lsof_is_a_listener(
    output: &str,
    protocol: Protocol,
    entries: Vec<PortProcess>,
    k: int,
)
    requires
        call_ensures(scan::parse_lsof_output, (output, protocol), entries),
        0 <= k < entries@.len(),
    ensures
        entries@[k].protocol == protocol,
        exists|i: int|
            {
                &&& 1 <= i < text::lines(output@).len()
                &&& lsof_line_names(
                    #[trigger] text::lines(output@)[i],
                    entries@[k].pid,
                    entries@[k].port,
                )
                &&& entries@[k].command@ == text::tokens(text::lines(output@)[i])[0]
            },
        forall|j: int|
            0 <= j < entries@.len() && j != k ==> (#[trigger] entries@[j]).port
                != entries@[k].port || entries@[j].pid != entries@[k].pid,
{
    let whole = text::lines(output@);
    let lines = whole.skip(if whole.len() == 0 {
        0
    } else {
        1
    });
    let all = scan::lsof_lines(lines, protocol);
    assert(scan::listeners(entries@)[k] == entries@[k]@);
    lemma_lsof_sound(lines, protocol, k);
    let i = choose|i: int|
        {
            &&& 0 <= i < lines.len()
            &&& lsof_line_names(#[trigger] lines[i], all[k].pid, all[k].port)
            &&& all[k].command == text::tokens(lines[i])[0]
        };
    assert(lines[i] == whole[i + 1]);
    scan::lsof_listeners_are_distinct(lines, protocol);
    assert forall|j: int| 0 <= j < entries@.len() && j != k implies (#[trigger] entries@[j]).port
        != entries@[k].port || entries@[j].pid != entries@[k].pid by {
        assert(scan::listeners(entries@)[j] == entries@[j]@);
        if j < k {
            assert(!scan::same_socket(all[j], all[k]));
        } else {
            assert(!scan::same_socket(all[k], all[j]));
        }
    }
}

/// A line as `lsof` writes it, with the command, the process id, some columns,
/// an address and its state, names that process and the port of the address.
pub proof fn listening_line_names_its_process(
    command: Seq<char>,
    pid: u32,
    columns: Seq<char>,
    host: Seq<char>,
    port: u16,
    state: Seq<char>,
)
    requires
        command.len() > 0,
        forall|i: int| 0 <= i < command.len() ==> '!' <= #[trigger] command[i] <= '~',
        forall|i: int|
            0 <= i < host.len() ==> '!' <= #[trigger] host[i] <= '~' && host[i] != '>',
        state.len() > 0,
        forall|i: int|
            0 <= i < state.len() ==> '!' <= #[trigger] state[i] <= '~' && state[i] != ':',
    ensures
        lsof_line_names(
            command.push(' ') + (decimal::decimal(pid as nat).push(' ') + (columns.push(' ') + ((
            host.push(':') + decimal::decimal(port as nat)).push(' ') + state))),
            pid,
            port,
        ),
{
    let number = decimal::decimal(pid as nat);
    let address = host.push(':') + decimal::decimal(port as nat);
    let end = address.push(' ') + state;
    let middle = columns.push(' ') + end;
    let rest = number.push(' ') + middle;
    let line = command.push(' ') + rest;
    decimal::decimal_reads_back(pid as nat);
    decimal::decimal_reads_back(port as nat);
    assert forall|i: int| 0 <= i < number.len() implies '!' <= #[trigger] number[i] <= '~' by {
        assert(text::is_digit(number[i]));
    }
    assert forall|i: int| 0 <= i < address.len() implies '!' <= #[trigger] address[i] <= '~' by {
        if i > host.len() {
            assert(text::is_digit(decimal::decimal(port as nat)[i - host.len() - 1]));
        }
    }
    words::lemma_word(command);
    words::lemma_word(number);
    words::lemma_word(address);
    words::lemma_word(state);
    words::lemma_words_join(address, state, ' ', 0);
    words::lemma_words_join(columns, end, ' ', 0);
    words::lemma_words_join(number, middle, ' ', 0);
    words::lemma_words_join(command, rest, ' ', 0);
    let all = text::tokens(line);
    let inner = text::tokens(columns);
    let last = all.len() - 1;
    assert(all == seq![command] + (seq![number] + (inner + (seq![address] + seq![state]))));
    assert(all[1] == number);
    assert(all[last] == state);
    assert(all[last - 1] == address);
    words::lemma_parses(pid as nat, u32::MAX as nat);
    lemma_bracketed_address(host, port, seq![]);
    assert(address + Seq::<char>::empty() =~= address);
    lemma_no_colon(state);
    assert(scan::token_port(all[last - 1]) == Some(port));
}

/// What `lsof` is asked: for all addresses and ports as numbers, of the
/// protocol, on the port if one is given, and of TCP only those that listen.
pub proof fn lsof_is_asked_for_listeners(
    protocol: Protocol,
    port: Option<u16>,
    arguments: Vec<String>,
)
    requires
        call_ensures(scan::lsof_arguments, (protocol, port), arguments),
    ensures
        arguments@[0]@ == "-nP"@,
        protocol is Tcp ==> arguments@.len() == 3 && arguments@[2]@ == "-sTCP:LISTEN"@,
        protocol is Udp ==> arguments@.len() == 2,
        arguments@[1]@ == match (protocol, port) {
            (Protocol::Tcp, None) => "-iTCP"@,
            (Protocol::Tcp, Some(port)) => "-iTCP:"@ + decimal::decimal(port as nat),
            (Protocol::Udp, None) => "-iUDP"@,
            (Protocol::Udp, Some(port)) => "-iUDP:"@ + decimal::decimal(port as nat),
        },
{
    let asked = text::strings(arguments@);
    assert(asked.len() == arguments@.len());
    assert(asked[0] == arguments@[0]@);
    assert(asked[1] == arguments@[1]@);
    if protocol is Tcp {
        assert(asked[2] == arguments@[2]@);
    }
}

/// A run of `lsof` that succeeded is read as its output; one that exited with 1
/// found nothing; any other failed, with what it wrote about it.
pub proof fn lsof_run_is_read_by_its_exit(
    output: &Option<ToolOutput>,
    protocol: Protocol,
    outcome: Result<Vec<PortProcess>, ScanError>,
    stdout: &str,
    entries: Vec<PortProcess>,
    stderr: &[char],
    trimmed: Vec<char>,
)
    requires
        call_ensures(scan::read_lsof, (output, protocol), outcome),
        output matches Some(run) ==> stdout@ == run.stdout@ && stderr@ == run.stderr@,
        call_ensures(text::trim, (stderr,), trimmed),
        call_ensures(scan::parse_lsof_output, (stdout, protocol), entries),
    ensures
        match output {
            None => outcome matches Err(error) && error is LsofNotRun,
            Some(run) => if run.success {
                outcome matches Ok(found) && found@.len() == entries@.len() && forall|i: int|
                    0 <= i < found@.len() ==> (#[trigger] found@[i]).port == entries@[i].port
                        && found@[i].pid == entries@[i].pid && found@[i].command@
                        == entries@[i].command@ && found@[i].protocol == entries@[i].protocol
            } else if run.code == Some(1i32) {
                outcome matches Ok(found) && found@.len() == 0
            } else {
                outcome matches Err(error) && error matches ScanError::LsofFailed { stderr: said }
                    && said@ == trimmed@
            },
        },
{
    if let Some(run) = output {
        if run.success {
            let found = outcome->Ok_0;
            let a = scan::listeners(found@);
            let b = scan::listeners(entries@);
            assert(a == b);
            assert(a.len() == found@.len() && b.len() == entries@.len());
            assert forall|i: int| 0 <= i < found@.len() implies (#[trigger] found@[i]).port
                == entries@[i].port && found@[i].pid == entries@[i].pid && found@[i].command@
                == entries@[i].command@ && found@[i].protocol == entries@[i].protocol by {
                assert(a[i] == found@[i]@);
                assert(b[i] == entries@[i]@);
            }
        }
    }
}

/// Whether the processes are ordered by port, and on the same port by process.
pub open spec fn ordered_by_port(processes: Seq<PortProcess>) -> bool {
    forall|i: int, j: int|
        0 <= i < j < processes.len() ==> (#[trigger] processes[i]).port < (
        #[trigger] processes[j]).port || (processes[i].port == processes[j].port
            && processes[i].pid <= processes[j].pid)
}

proof fn lemma_sorted(found: Seq<PortProcess>, sorted: Seq<PortProcess>)
    requires
        crate::sort::stably_sorted(found, sorted),
    ensures
        ordered_by_port(sorted),
        sorted.len() == found.len(),
        forall|k: int| 0 <= k < found.len() ==> sorted.contains(#[trigger] found[k]),
        forall|j: int| 0 <= j < sorted.len() ==> found.contains(#[trigger] sorted[j]),
{
    broadcast use vstd::seq_lib::group_to_multiset_ensures;

    assert forall|i: int, j: int| 0 <= i < j < sorted.len() implies (#[trigger] sorted[i]).port < (
    #[trigger] sorted[j]).port || (sorted[i].port == sorted[j].port && sorted[i].pid
        <= sorted[j].pid) by {
        assert(crate::sort::InOrder::comes_by(sorted[i], sorted[j]));
    }
    assert(found.to_multiset().len() == found.len());
    assert(sorted.to_multiset().len() == sorted.len());
    assert forall|k: int| 0 <= k < found.len() implies sorted.contains(#[trigger] found[k]) by {
        assert(found.contains(found[k]));
        assert(found.to_multiset().count(found[k]) > 0);
        assert(sorted.contains(found[k]));
    }
    assert forall|j: int| 0 <= j < sorted.len() implies found.contains(#[trigger] sorted[j]) by {
        assert(sorted.contains(sorted[j]));
        assert(sorted.to_multiset().count(sorted[j]) > 0);
        assert(found.contains(sorted[j]));
    }
}

/// A scan asks `lsof` for the TCP listeners, on the port if one is given. Where
/// that succeeds, the scan holds every process and port that a line of the
/// output names, ordered by port; where nothing is found it holds nothing.
pub proof fn scan_holds_what_lsof_says<R: Fn(&Vec<String>) -> Option<ToolOutput>>(
    port: Option<u16>,
    run_lsof: &R,
    found: Vec<PortProcess>,
)
    requires
        call_ensures(scan::scan_ports::<R>, (port, run_lsof), Ok(found)),
    ensures
        ordered_by_port(found@),
        exists|given: Vec<String>, run: ToolOutput|
            {
                &&& #[trigger] call_ensures(*run_lsof, (&given,), Some(run))
                &&& given@.len() == 3
                &&& given@[0]@ == "-nP"@
                &&& given@[1]@ == match port {
                    None => "-iTCP"@,
                    Some(port) => "-iTCP:"@ + decimal::decimal(port as nat),
                }
                &&& given@[2]@ == "-sTCP:LISTEN"@
                &&& if run.success {
                    lists_lsof_output(found@, run.stdout@)
                } else {
                    run.code == Some(1i32) && found@.len() == 0
                }
            },
{
    let (output, raw) = choose|
        output: Option<ToolOutput>,
        raw: Result<Vec<PortProcess>, ScanError>,
    |
        #![trigger scan::ran(*run_lsof, scan::lsof_question(Protocol::Tcp, port), output), scan::lsof_result(output, Protocol::Tcp, raw)]
        scan::ran(*run_lsof, scan::lsof_question(Protocol::Tcp, port), output)
            && scan::lsof_result(output, Protocol::Tcp, raw) && scan::ordered(raw, Ok(found));
    let given = choose|given: Vec<String>|
        text::strings(given@) == scan::lsof_question(Protocol::Tcp, port)
            && #[trigger] call_ensures(*run_lsof, (&given,), output);
    let run = output->0;
    let listed = raw->Ok_0;
    lemma_sorted(listed@, found@);
    let asked = text::strings(given@);
    assert(asked.len() == given@.len());
    assert(asked[0] == given@[0]@ && asked[1] == given@[1]@ && asked[2] == given@[2]@);
    if run.success {
        lemma_lists_lsof(listed@, found@, run.stdout@);
    }
    assert(call_ensures(*run_lsof, (&given,), Some(run)));
}

/// Whether the processes are exactly those that the lines behind the heading
/// name.
pub open spec fn lists_lsof_output(processes: Seq<PortProcess>, output: Seq<char>) -> bool {
    &&& forall|i: int, pid: u32, port: u16|
        1 <= i < text::lines(output).len() && #[trigger] lsof_line_names(
            text::lines(output)[i],
            pid,
            port,
        ) ==> exists|k: int|
            0 <= k < processes.len() && (#[trigger] processes[k]).port == port
                && processes[k].pid == pid
    &&& forall|k: int|
        0 <= k < processes.len() ==> exists|i: int|
            1 <= i < text::lines(output).len() && lsof_line_names(
                #[trigger] text::lines(output)[i],
                (#[trigger] processes[k]).pid,
                processes[k].port,
            )
}

proof fn lemma_lists_lsof(listed: Seq<PortProcess>, found: Seq<PortProcess>, output: Seq<char>)
    requires
        scan::listeners(listed) == scan::lsof_listeners(output, Protocol::Tcp),
        crate::sort::stably_sorted(listed, found),
    ensures
        lists_lsof_output(found, output),
{
    let whole = text::lines(output);
    let lines = whole.skip(if whole.len() == 0 {
        0
    } else {
        1
    });
    let all = scan::lsof_lines(lines, Protocol::Tcp);
    lemma_sorted(listed, found);
    assert(all.len() == listed.len());
    assert forall|i: int, pid: u32, port: u16|
        1 <= i < whole.len() && #[trigger] lsof_line_names(whole[i], pid, port) implies exists|
        k: int,
    | 0 <= k < found.len() && (#[trigger] found[k]).port == port && found[k].pid == pid by {
        assert(lines[i - 1] == whole[i]);
        lemma_lsof_complete(lines, Protocol::Tcp, i - 1, pid, port);
        let k = choose|k: int|
            {
                &&& 0 <= k < all.len()
                &&& (#[trigger] all[k]).port == port
                &&& all[k].pid == pid
                &&& all[k].protocol == Protocol::Tcp
            };
        assert(scan::listeners(listed)[k] == listed[k]@);
        assert(found.contains(listed[k]));
        let j = choose|j: int| 0 <= j < found.len() && found[j] == listed[k];
        assert(found[j].port == port && found[j].pid == pid);
    }
    assert forall|k: int| 0 <= k < found.len() implies exists|i: int|
        1 <= i < whole.len() && lsof_line_names(
            #[trigger] whole[i],
            (#[trigger] found[k]).pid,
            found[k].port,
        ) by {
        assert(listed.contains(found[k]));
        let j = choose|j: int| 0 <= j < listed.len() && listed[j] == found[k];
        assert(scan::listeners(listed)[j] == listed[j]@);
        lemma_lsof_sound(lines, Protocol::Tcp, j);
        let i = choose|i: int|
            {
                &&& 0 <= i < lines.len()
                &&& lsof_line_names(#[trigger] lines[i], all[j].pid, all[j].port)
                &&& all[j].command == text::tokens(lines[i])[0]
            };
        assert(lines[i] == whole[i + 1]);
    }
}

// ── netstat and tasklist ────────────────────────────────────────────────

/// Whether the line of `netstat` is about a TCP socket of the process that
/// listens on the port: the protocol is its first word, in whatever letters,
/// the local address the second, the state the fourth, the process the last.
pub open spec fn netstat_line_names(line: Seq<char>, pid: u32, port: u16) -> bool {
    let words = text::tokens(line);
    &&& words.len() >= 5
    &&& text::ascii_lowered(words[0]) == "tcp"@
    &&& scan::token_port(words[1]) == Some(port)
    &&& words[3] == "LISTENING"@
    &&& decimal::parse_unsigned(words.last(), u32::MAX as nat) == Some(pid as nat)
}

proof fn lemma_netstat_line(line: Seq<char>, target: Option<u16>, pid: u32, port: u16)
    ensures
        (netstat_line_names(line, pid, port) && (target is None || target == Some(port))) <==> (
        scan::netstat_line(line, Protocol::Tcp, target) matches Some(found) && found.pid == pid
            && found.port == port),
        scan::netstat_line(line, Protocol::Tcp, target) matches Some(found) ==> found.protocol
            == Protocol::Tcp,
{
}

proof fn lemma_netstat_complete(
    lines: Seq<Seq<char>>,
    target: Option<u16>,
    i: int,
    pid: u32,
    port: u16,
)
    requires
        0 <= i < lines.len(),
        netstat_line_names(lines[i], pid, port),
        target is None || target == Some(port),
    ensures
        exists|k: int|
            {
                &&& 0 <= k < scan::netstat_lines(lines, Protocol::Tcp, target).len()
                &&& (#[trigger] scan::netstat_lines(lines, Protocol::Tcp, target)[k]).port == port
                &&& scan::netstat_lines(lines, Protocol::Tcp, target)[k].pid == pid
            },
    decreases lines.len(),
{
    let n = lines.len() - 1;
    let before = scan::netstat_lines(lines.drop_last(), Protocol::Tcp, target);
    let all = scan::netstat_lines(lines, Protocol::Tcp, target);
    if i < n {
        lemma_netstat_complete(lines.drop_last(), target, i, pid, port);
        let k = choose|k: int|
            {
                &&& 0 <= k < before.len()
                &&& (#[trigger] before[k]).port == port
                &&& before[k].pid == pid
            };
        assert(all[k] == before[k]);
    } else {
        lemma_netstat_line(lines[n], target, pid, port);
        let found = scan::netstat_line(lines[n], Protocol::Tcp, target)->0;
        if scan::seen(before, found) {
            let k = choose|k: int|
                0 <= k < before.len() && scan::same_socket(#[trigger] before[k], found);
            assert(all[k] == before[k]);
            assert(all[k].port == port && all[k].pid == pid);
        } else {
            assert(all[before.len() as int] == found);
        }
    }
}

proof fn lemma_netstat_sound(lines: Seq<Seq<char>>, target: Option<u16>, k: int)
    requires
        0 <= k < scan::netstat_lines(lines, Protocol::Tcp, target).len(),
    ensures
        ({
            let entry = scan::netstat_lines(lines, Protocol::Tcp, target)[k];
            &&& target is None || target == Some(entry.port)
            &&& exists|i: int|
                0 <= i < lines.len() && netstat_line_names(
                    #[trigger] lines[i],
                    entry.pid,
                    entry.port,
                )
        }),
    decreases lines.len(),
{
    let n = lines.len() - 1;
    let first = lines.drop_last();
    let before = scan::netstat_lines(first, Protocol::Tcp, target);
    let entry = scan::netstat_lines(lines, Protocol::Tcp, target)[k];
    if k < before.len() {
        lemma_netstat_sound(first, target, k);
        let i = choose|i: int|
            0 <= i < first.len() && netstat_line_names(#[trigger] first[i], entry.pid, entry.port);
        assert(lines[i] == first[i]);
    } else {
        lemma_netstat_line(lines[n], target, entry.pid, entry.port);
        assert(netstat_line_names(lines[n], entry.pid, entry.port));
    }
}

/// A scan with `netstat` is complete and lists nothing else: there is an entry
/// for every process and port that a line about a listening socket names, on
/// the port if one is given, and every entry comes from such a line, under the
/// name that was given for the process or its number.
pub proof fn every_listener_of_netstat_is_listed<N: Fn(u32) -> Result<String, ScanError>>(
    output: &str,
    target: Option<u16>,
    process_name: &N,
    entries: Vec<PortProcess>,
)
    requires
        call_ensures(
            scan::parse_netstat_output::<N>,
            (output, Protocol::Tcp, target, process_name),
            entries,
        ),
    ensures
        forall|i: int, pid: u32, port: u16|
            0 <= i < text::lines(output@).len() && #[trigger] netstat_line_names(
                text::lines(output@)[i],
                pid,
                port,
            ) && (target is None || target == Some(port)) ==> exists|k: int|
                0 <= k < entries@.len() && (#[trigger] entries@[k]).port == port
                    && entries@[k].pid == pid,
        forall|k: int|
            0 <= k < entries@.len() ==> {
                &&& (#[trigger] entries@[k]).protocol is Tcp
                &&& target is None || target == Some(entries@[k].port)
                &&& exists|i: int|
                    0 <= i < text::lines(output@).len() && netstat_line_names(
                        #[trigger] text::lines(output@)[i],
                        entries@[k].pid,
                        entries@[k].port,
                    )
                &&& exists|answer: Result<String, ScanError>|
                    #[trigger]
                    call_ensures(*process_name, (entries@[k].pid,), answer) && match answer {
                        Ok(name) => entries@[k].command@ == name@,
                        Err(_) => entries@[k].command@ == "pid-"@ + decimal::decimal(
                            entries@[k].pid as nat,
                        ),
                    }
            },
        forall|j: int, k: int|
            0 <= j < k < entries@.len() ==> (#[trigger] entries@[j]).port != (
            #[trigger] entries@[k]).port || entries@[j].pid != entries@[k].pid,
{
    let lines = text::lines(output@);
    let all = scan::netstat_lines(lines, Protocol::Tcp, target);
    assert(all.len() == entries@.len());
    assert forall|i: int, pid: u32, port: u16|
        0 <= i < lines.len() && #[trigger] netstat_line_names(lines[i], pid, port) && (target
            is None || target == Some(port)) implies exists|k: int|
        0 <= k < entries@.len() && (#[trigger] entries@[k]).port == port && entries@[k].pid
            == pid by {
        lemma_netstat_complete(lines, target, i, pid, port);
        let k = choose|k: int|
            {
                &&& 0 <= k < all.len()
                &&& (#[trigger] all[k]).port == port
                &&& all[k].pid == pid
            };
        assert(scan::same_socket(all[k], entries@[k]@));
        assert(entries@[k].port == port && entries@[k].pid == pid);
    }
    scan::netstat_listeners_are_distinct(lines, Protocol::Tcp, target);
    assert forall|k: int| 0 <= k < entries@.len() implies {
        &&& (#[trigger] entries@[k]).protocol is Tcp
        &&& target is None || target == Some(entries@[k].port)
        &&& exists|i: int|
            0 <= i < lines.len() && netstat_line_names(
                #[trigger] lines[i],
                entries@[k].pid,
                entries@[k].port,
            )
        &&& exists|answer: Result<String, ScanError>|
            #[trigger]
            call_ensures(*process_name, (entries@[k].pid,), answer) && match answer {
                Ok(name) => entries@[k].command@ == name@,
                Err(_) => entries@[k].command@ == "pid-"@ + decimal::decimal(
                    entries@[k].pid as nat,
                ),
            }
    } by {
        lemma_netstat_sound(lines, target, k);
        lemma_netstat_protocol(lines, target, k);
        assert(scan::same_socket(all[k], entries@[k]@));
        assert(scan::listed_as(*process_name, all[k].pid, entries@[k].command@));
    }
    assert forall|j: int, k: int| 0 <= j < k < entries@.len() implies (#[trigger] entries@[j]).port
        != (#[trigger] entries@[k]).port || entries@[j].pid != entries@[k].pid by {
        assert(scan::same_socket(all[j], entries@[j]@));
        assert(scan::same_socket(all[k], entries@[k]@));
        lemma_netstat_protocol(lines, target, j);
        lemma_netstat_protocol(lines, target, k);
        assert(!scan::same_socket(all[j], all[k]));
    }
}

proof fn lemma_netstat_protocol(lines: Seq<Seq<char>>, target: Option<u16>, k: int)
    requires
        0 <= k < scan::netstat_lines(lines, Protocol::Tcp, target).len(),
    ensures
        scan::netstat_lines(lines, Protocol::Tcp, target)[k].protocol is Tcp,
    decreases lines.len(),
{
    let first = lines.drop_last();
    if k < scan::netstat_lines(first, Protocol::Tcp, target).len() {
        lemma_netstat_protocol(first, target, k);
    }
}

/// `netstat` is asked for all TCP sockets with their processes, as numbers, and
/// `tasklist` for the one process, as a table without a heading.
pub proof fn windows_tools_are_asked(pid: u32, netstat: Vec<String>, tasklist: Vec<String>)
    requires
        call_ensures(scan::netstat_arguments, (), netstat),
        call_ensures(scan::tasklist_arguments, (pid,), tasklist),
    ensures
        netstat@.len() == 3,
        netstat@[0]@ == "-ano"@ && netstat@[1]@ == "-p"@ && netstat@[2]@ == "tcp"@,
        tasklist@.len() == 5,
        tasklist@[0]@ == "/FI"@ && tasklist@[1]@ == "PID eq "@ + decimal::decimal(pid as nat),
        tasklist@[2]@ == "/FO"@ && tasklist@[3]@ == "CSV"@ && tasklist@[4]@ == "/NH"@,
{
    let a = text::strings(netstat@);
    let b = text::strings(tasklist@);
    assert(a.len() == netstat@.len() && b.len() == tasklist@.len());
    assert(a[0] == netstat@[0]@ && a[1] == netstat@[1]@ && a[2] == netstat@[2]@);
    assert(b[0] == tasklist@[0]@ && b[1] == tasklist@[1]@ && b[2] == tasklist@[2]@);
    assert(b[3] == tasklist@[3]@ && b[4] == tasklist@[4]@);
}

/// A run of `netstat` that succeeded is read as its output; any other failed.
pub proof fn netstat_run_is_read_by_its_exit<N: Fn(u32) -> Result<String, ScanError>>(
    output: &Option<ToolOutput>,
    port: Option<u16>,
    process_name: &N,
    outcome: Result<Vec<PortProcess>, ScanError>,
)
    requires
        call_ensures(scan::read_netstat::<N>, (output, port, process_name), outcome),
    ensures
        match output {
            None => outcome matches Err(error) && error is NetstatNotRun,
            Some(run) => if run.success {
                outcome matches Ok(found) && forall|i: int, pid: u32, on: u16|
                    0 <= i < text::lines(run.stdout@).len() && #[trigger] netstat_line_names(
                        text::lines(run.stdout@)[i],
                        pid,
                        on,
                    ) && (port is None || port == Some(on)) ==> exists|k: int|
                        0 <= k < found@.len() && (#[trigger] found@[k]).port == on && found@[k].pid
                            == pid
            } else {
                outcome matches Err(error) && error is NetstatFailed
            },
        },
{
    if let Some(run) = output {
        if run.success {
            let found = outcome->Ok_0;
            let lines = text::lines(run.stdout@);
            let all = scan::netstat_lines(lines, Protocol::Tcp, port);
            assert forall|i: int, pid: u32, on: u16|
                0 <= i < lines.len() && #[trigger] netstat_line_names(lines[i], pid, on) && (port
                    is None || port == Some(on)) implies exists|k: int|
                0 <= k < found@.len() && (#[trigger] found@[k]).port == on && found@[k].pid
                    == pid by {
                lemma_netstat_complete(lines, port, i, pid, on);
                let k = choose|k: int|
                    {
                        &&& 0 <= k < all.len()
                        &&& (#[trigger] all[k]).port == on
                        &&& all[k].pid == pid
                    };
                assert(scan::same_socket(all[k], found@[k]@));
                assert(found@[k].port == on && found@[k].pid == pid);
            }
        }
    }
}

/// A scan with `netstat` is ordered by port.
pub proof fn scan_with_netstat_is_ordered<
    R: Fn(&Vec<String>) -> Option<ToolOutput>,
    N: Fn(u32) -> Result<String, ScanError>,
>(port: Option<u16>, run_netstat: &R, process_name: &N, found: Vec<PortProcess>)
    requires
        call_ensures(scan::scan_windows::<R, N>, (port, run_netstat, process_name), Ok(found)),
    ensures
        ordered_by_port(found@),
        exists|given: Vec<String>, run: ToolOutput|
            {
                &&& #[trigger] call_ensures(*run_netstat, (&given,), Some(run))
                &&& run.success
                &&& lists_netstat_output(found@, run.stdout@, port)
            },
{
    let (output, raw) = choose|
        output: Option<ToolOutput>,
        raw: Result<Vec<PortProcess>, ScanError>,
    |
        #![trigger scan::ran(*run_netstat, scan::netstat_question(), output), scan::netstat_result(output, port, *process_name, raw)]
        scan::ran(*run_netstat, scan::netstat_question(), output) && scan::netstat_result(
            output,
            port,
            *process_name,
            raw,
        ) && scan::ordered(raw, Ok(found));
    let given = choose|given: Vec<String>|
        text::strings(given@) == scan::netstat_question() && #[trigger] call_ensures(
            *run_netstat,
            (&given,),
            output,
        );
    let run = output->0;
    let listed = raw->Ok_0;
    lemma_sorted(listed@, found@);
    lemma_lists_netstat(listed@, found@, run.stdout@, port, *process_name);
    assert(call_ensures(*run_netstat, (&given,), Some(run)));
}

/// Whether there is a process for all that the lines of `netstat` name.
pub open spec fn lists_netstat_output(
    processes: Seq<PortProcess>,
    output: Seq<char>,
    port: Option<u16>,
) -> bool {
    forall|i: int, pid: u32, on: u16|
        0 <= i < text::lines(output).len() && #[trigger] netstat_line_names(
            text::lines(output)[i],
            pid,
            on,
        ) && (port is None || port == Some(on)) ==> exists|k: int|
            0 <= k < processes.len() && (#[trigger] processes[k]).port == on && processes[k].pid
                == pid
}

proof fn lemma_lists_netstat<N: Fn(u32) -> Result<String, ScanError>>(
    listed: Seq<PortProcess>,
    found: Seq<PortProcess>,
    output: Seq<char>,
    port: Option<u16>,
    process_name: N,
)
    requires
        scan::named(
            scan::netstat_lines(text::lines(output), Protocol::Tcp, port),
            process_name,
            listed,
        ),
        crate::sort::stably_sorted(listed, found),
    ensures
        lists_netstat_output(found, output, port),
{
    let lines = text::lines(output);
    let all = scan::netstat_lines(lines, Protocol::Tcp, port);
    lemma_sorted(listed, found);
    assert forall|i: int, pid: u32, on: u16|
        0 <= i < lines.len() && #[trigger] netstat_line_names(lines[i], pid, on) && (port is None
            || port == Some(on)) implies exists|k: int|
        0 <= k < found.len() && (#[trigger] found[k]).port == on && found[k].pid == pid by {
        lemma_netstat_complete(lines, port, i, pid, on);
        let k = choose|k: int|
            {
                &&& 0 <= k < all.len()
                &&& (#[trigger] all[k]).port == on
                &&& all[k].pid == pid
            };
        assert(scan::same_socket(all[k], listed[k]@));
        assert(found.contains(listed[k]));
        let j = choose|j: int| 0 <= j < found.len() && found[j] == listed[k];
        assert(found[j].port == on && found[j].pid == pid);
    }
}

/// A scan fails only where `lsof` could not be run, or failed with another code
/// than 1, and that is what is said.
pub proof fn scan_fails_only_with_lsof<R: Fn(&Vec<String>) -> Option<ToolOutput>>(
    port: Option<u16>,
    run_lsof: &R,
    error: ScanError,
)
    requires
        call_ensures(scan::scan_ports::<R>, (port, run_lsof), Err(error)),
    ensures
        exists|arguments: Vec<String>, output: Option<ToolOutput>| #[trigger]
            call_ensures(*run_lsof, (&arguments,), output) && match output {
                None => error is LsofNotRun,
                Some(run) => !run.success && run.code != Some(1i32) && error is LsofFailed,
            },
{
    let question = scan::lsof_question(Protocol::Tcp, port);
    let (output, found) = choose|
        output: Option<ToolOutput>,
        found: Result<Vec<PortProcess>, ScanError>,
    |
        #![trigger scan::ran(*run_lsof, question, output), scan::lsof_result(output, Protocol::Tcp, found)]
        scan::ran(*run_lsof, question, output) && scan::lsof_result(output, Protocol::Tcp, found)
            && scan::ordered(found, Err(error));
    let given = choose|given: Vec<String>|
        text::strings(given@) == question && #[trigger] call_ensures(
            *run_lsof,
            (&given,),
            output,
        );
    assert(call_ensures(*run_lsof, (&given,), output));
}

/// A scan fails only where `netstat` could not be run or failed, and that is
/// what is said.
pub proof fn scan_fails_only_with_netstat<
    R: Fn(&Vec<String>) -> Option<ToolOutput>,
    N: Fn(u32) -> Result<String, ScanError>,
>(port: Option<u16>, run_netstat: &R, process_name: &N, error: ScanError)
    requires
        call_ensures(
            scan::scan_windows::<R, N>,
            (port, run_netstat, process_name),
            Err(error),
        ),
    ensures
        exists|arguments: Vec<String>, output: Option<ToolOutput>| #[trigger]
            call_ensures(*run_netstat, (&arguments,), output) && match output {
                None => error is NetstatNotRun,
                Some(run) => !run.success && error is NetstatFailed,
            },
{
    let question = scan::netstat_question();
    let (output, found) = choose|
        output: Option<ToolOutput>,
        found: Result<Vec<PortProcess>, ScanError>,
    |
        #![trigger scan::ran(*run_netstat, question, output), scan::netstat_result(output, port, *process_name, found)]
        scan::ran(*run_netstat, question, output) && scan::netstat_result(
            output,
            port,
            *process_name,
            found,
        ) && scan::ordered(found, Err(error));
    let given = choose|given: Vec<String>|
        text::strings(given@) == question && #[trigger] call_ensures(
            *run_netstat,
            (&given,),
            output,
        );
    assert(call_ensures(*run_netstat, (&given,), output));
}

/// The name of a process is what stands between the first quotation marks of
/// the line that `tasklist` writes about it.
pub proof fn process_name_is_the_first_cell(
    pid: u32,
    output: &Option<ToolOutput>,
    name: Result<String, ScanError>,
    cell: Seq<char>,
    rest: Seq<char>,
)
    requires
        call_ensures(scan::windows_process_name, (pid, output), name),
        cell.len() > 0,
        forall|i: int| 0 <= i < cell.len() ==> '!' <= #[trigger] cell[i] <= '~' && cell[i] != '"',
        forall|i: int| 0 <= i < rest.len() ==> '!' <= #[trigger] rest[i] <= '~',
        output matches Some(run) && run.success && run.stdout@ == seq!['"'] + cell + seq![
            '"',
            ',',
            '"',
        ] + rest,
        rest.len() > 0,
        rest.last() != '"',
    ensures
        name matches Ok(name) && name@ == cell,
{
    let run = output->0;
    let line = run.stdout@;
    assert forall|i: int| 0 <= i < line.len() implies '!' <= #[trigger] line[i] <= '~' by {
        if i > cell.len() + 3 {
            assert(line[i] == rest[i - cell.len() - 4]);
        } else if 0 < i <= cell.len() {
            assert(line[i] == cell[i - 1]);
        }
    }
    assert(text::lines(line) == seq![line]) by {
        assert forall|i: int| 0 <= i < line.len() implies #[trigger] line[i] != '\n' by {}
        lemma_one_line(line);
    }
    assert(text::trimmed(line) == line) by {
        assert(!text::is_space(line.first()));
        assert(!text::is_space(line.last()));
    }
    reveal_strlit("INFO:");
    assert(!"INFO:"@.is_prefix_of(line)) by {
        assert("INFO:"@[0] == 'I');
        if "INFO:"@.is_prefix_of(line) {
            assert(line.subrange(0, 5)[0] == line[0]);
        }
    }
    lemma_first_cell(line, cell, rest);
}

/// The first cell of a line is what stands before the first separator.
proof fn lemma_first_cell(line: Seq<char>, cell: Seq<char>, rest: Seq<char>)
    requires
        line == seq!['"'] + cell + seq!['"', ',', '"'] + rest,
        cell.len() > 0,
        forall|i: int| 0 <= i < cell.len() ==> #[trigger] cell[i] != '"',
        rest.len() > 0,
        rest.last() != '"',
    ensures
        text::before_first(scan::unquoted(line), "\",\""@) == cell,
{
    let separator = seq!['"', ',', '"'];
    let inner = cell + separator + rest;
    assert(text::without_leading(line, '"') == inner) by {
        reveal_with_fuel(text::without_leading, 2);
        assert(line.drop_first() =~= inner);
        assert(line.first() == '"');
        assert(inner.first() == cell[0]);
    }
    assert(text::without_trailing(inner, '"') == inner) by {
        assert(inner.last() == rest.last());
    }
    reveal_strlit("\",\"");
    assert("\",\""@ =~= separator);
    let n = cell.len() as int;
    assert(inner.subrange(n, n + 3) =~= separator);
    assert(text::occurs_at(inner, separator, n));
    text::lemma_find_text(inner, separator, 0);
    let at = text::find_text(inner, separator, 0)->0;
    if at < n {
        assert(inner.subrange(at, at + 3)[0] == inner[at]);
        assert(inner[at] == cell[at]);
    }
    assert(inner.subrange(0, n) =~= cell);
}

proof fn lemma_one_line(line: Seq<char>)
    requires
        line.len() > 0,
        forall|i: int| 0 <= i < line.len() ==> #[trigger] line[i] != '\n',
    ensures
        text::lines(line) == seq![line],
{
    lemma_line_end(line, 0);
    assert(line.subrange(0, line.len() as int) =~= line);
    assert(text::lines(line) =~= seq![line]);
}

proof fn lemma_line_end(line: Seq<char>, from: int)
    requires
        0 <= from <= line.len(),
        forall|i: int| 0 <= i < line.len() ==> #[trigger] line[i] != '\n',
    ensures
        text::line_end(line, from) == line.len(),
    decreases line.len() - from,
{
    if from < line.len() {
        lemma_line_end(line, from + 1);
    }
}

/// A process is not named where `tasklist` could not be run, failed, or gave
/// nothing back but a notice, and that is what is said. A line that starts with
/// a quotation mark names it.
pub proof fn unknown_process_has_no_name(
    pid: u32,
    output: &Option<ToolOutput>,
    name: Result<String, ScanError>,
)
    requires
        call_ensures(scan::windows_process_name, (pid, output), name),
    ensures
        output is None ==> name == Err::<String, ScanError>(ScanError::TasklistNotRun { pid }),
        output matches Some(run) ==> (!run.success ==> name == Err::<String, ScanError>(
            ScanError::TasklistFailed { pid },
        )),
        output matches Some(run) ==> (run.success && (run.stdout@.len() == 0 || is_notice(
            run.stdout@,
        )) ==> name == Err::<String, ScanError>(ScanError::ProcessNotFound { pid })),
        output matches Some(run) ==> (run.success && run.stdout@.len() > 0 && run.stdout@[0] == '"'
            ==> name is Ok),
{
    if let Some(run) = output {
        let out = run.stdout@;
        reveal_strlit("INFO:");
        if is_notice(out) {
            lemma_notice(out);
        }
        if out.len() > 0 && out[0] == '"' {
            lemma_line_start(out);
            let line = text::lines(out)[0];
            lemma_trimmed_keeps_start(line);
            if "INFO:"@.is_prefix_of(text::trimmed(line)) {
                assert(text::trimmed(line).subrange(0, 5)[0] == text::trimmed(line)[0]);
                assert("INFO:"@[0] == 'I');
            }
        }
    }
}

/// Whether the text starts with the word for a notice.
pub open spec fn is_notice(text: Seq<char>) -> bool {
    text.len() >= 5 && text[0] == 'I' && text[1] == 'N' && text[2] == 'F' && text[3] == 'O'
        && text[4] == ':'
}

proof fn lemma_notice(out: Seq<char>)
    requires
        is_notice(out),
    ensures
        "INFO:"@.is_prefix_of(out),
        "INFO:"@.is_prefix_of(scan::first_line(out)),
{
    reveal_strlit("INFO:");
    assert("INFO:"@ =~= out.subrange(0, 5));
    let end = text::line_end(out, 0);
    text::lemma_line_end(out, 0);
    reveal_with_fuel(text::line_end, 6);
    text::lemma_line_end(out, 5);
    assert(end >= 5);
    let line = text::lines(out)[0];
    assert(line.len() >= 5);
    assert(is_notice(line));
    lemma_trimmed_keeps_notice(line);
    assert("INFO:"@ =~= text::trimmed(line).subrange(0, 5));
}

proof fn lemma_trimmed_keeps_notice(text: Seq<char>)
    requires
        is_notice(text),
    ensures
        is_notice(text::trimmed(text)),
    decreases text.len(),
{
    if text::is_space(text.last()) {
        assert(text.len() > 5);
        lemma_trimmed_keeps_notice(text.drop_last());
    }
}

/// The first line of a text that starts with a mark starts with that mark.
proof fn lemma_line_start(out: Seq<char>)
    requires
        out.len() > 0,
        out[0] == '"',
    ensures
        text::lines(out).len() > 0,
        text::lines(out)[0].len() > 0,
        text::lines(out)[0][0] == '"',
{
    reveal_with_fuel(text::line_end, 2);
    text::lemma_line_end(out, 1);
}

/// A process is alive where `tasklist` succeeds and writes something that is no
/// notice.
pub proof fn tasklist_shows_living_processes(output: &Option<ToolOutput>, alive: bool)
    requires
        call_ensures(scan::tasklist_shows_process, (output,), alive),
    ensures
        output is None ==> !alive,
        output matches Some(run) ==> (!run.success || run.stdout@.len() == 0 || is_notice(
            run.stdout@,
        ) ==> !alive),
        output matches Some(run) ==> (run.success && run.stdout@.len() > 0 && run.stdout@[0] == '"'
            ==> alive),
{
    if let Some(run) = output {
        if is_notice(run.stdout@) {
            lemma_notice(run.stdout@);
        }
        if run.success && run.stdout@.len() > 0 && run.stdout@[0] == '"' {
            let out = run.stdout@;
            reveal_strlit("INFO:");
            assert("INFO:"@[0] == 'I');
            if "INFO:"@.is_prefix_of(out) {
                assert(out.subrange(0, 5)[0] == out[0]);
            }
            lemma_trimmed_keeps_start(out);
        }
    }
}

proof fn lemma_trimmed_keeps_start(text: Seq<char>)
    requires
        text.len() > 0,
        !text::is_space(text[0]),
    ensures
        text::trimmed(text).len() > 0,
        text::trimmed(text)[0] == text[0],
    decreases text.len(),
{
    if text::is_space(text.last()) {
        assert(text.len() > 1);
        assert(text.drop_last()[0] == text[0]);
        lemma_trimmed_keeps_start(text.drop_last());
    }
}

} // verus!
