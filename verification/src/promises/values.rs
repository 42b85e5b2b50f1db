//! What leases, errors, lists and texts do by themselves.
use std::path::PathBuf;
use vstd::prelude::*;
use crate::cli::CliError;
use crate::clock;
use crate::clock::Timestamp;
use crate::decimal;
use crate::leases;
use crate::model::{Lease, Protocol};
use crate::paths::PathError;
use crate::protocol::Response;
use crate::registry::{Registry, RegistryError};
use crate::scan::{PortProcess, ScanError};
use crate::sort;
use crate::sort::InOrder;
use crate::text;
use crate::transport::TransportError;

verus! {

// ── Leases ──────────────────────────────────────────────────────────────

/// Whether two leases differ in their state and their instants at most.
pub open spec fn same_grant(a: Lease, b: Lease) -> bool {
    &&& a.lease_id == b.lease_id
    &&& a.project_path == b.project_path
    &&& a.service_name == b.service_name
    &&& a.port == b.port
    &&& a.protocol == b.protocol
    &&& a.client_pid == b.client_pid
    &&& a.session_token == b.session_token
    &&& a.granted_at == b.granted_at
}

/// A confirmed lease is active and good for five minutes.
pub proof fn confirmed_lease_is_active(lease: &mut Lease, now: Timestamp, done: ())
    requires
        call_ensures(Lease::confirm_at, (lease, now), done),
        now.secs + 300 <= i64::MAX,
        now.nanos < 1_000_000_000,
    ensures
        final(lease).state is Active,
        final(lease).confirmed_at == Some(now),
        final(lease).last_heartbeat_at == Some(now),
        final(lease).expires_at.secs == now.secs + 300,
        final(lease).expires_at.nanos == now.nanos,
        same_grant(*final(lease), *old(lease)),
{
}

/// A lease that is confirmed by the clock runs out five minutes after its
/// confirmation.
pub proof fn lease_confirmed_by_the_clock_is_active(lease: &mut Lease, done: ())
    requires
        call_ensures(Lease::confirm, (lease,), done),
    ensures
        final(lease).state is Active,
        final(lease).confirmed_at is Some,
        final(lease).last_heartbeat_at == final(lease).confirmed_at,
        clock::is_clock_reading(final(lease).confirmed_at->0),
        final(lease).expires_at.secs == final(lease).confirmed_at->0.secs + 300,
        same_grant(*final(lease), *old(lease)),
{
}

/// A heartbeat moves the expiry to the given time from now; the lease stays in
/// its state and stays confirmed as it was.
pub proof fn heartbeat_moves_the_expiry(
    lease: &mut Lease,
    now: Timestamp,
    extension_secs: i64,
    done: (),
)
    requires
        call_ensures(Lease::heartbeat_at, (lease, now, extension_secs), done),
        i64::MIN <= now.secs + extension_secs <= i64::MAX,
        now.nanos < 1_000_000_000,
    ensures
        final(lease).state == old(lease).state,
        final(lease).confirmed_at == old(lease).confirmed_at,
        final(lease).last_heartbeat_at == Some(now),
        final(lease).expires_at.secs == now.secs + extension_secs,
        final(lease).expires_at.nanos == now.nanos,
        same_grant(*final(lease), *old(lease)),
{
}

/// A heartbeat by the clock moves the expiry from when it is made.
pub proof fn heartbeat_by_the_clock_moves_the_expiry(
    lease: &mut Lease,
    extension_secs: i64,
    done: (),
)
    requires
        clock::duration_in_range(extension_secs as int),
        call_ensures(Lease::heartbeat, (lease, extension_secs), done),
    ensures
        final(lease).state == old(lease).state,
        final(lease).confirmed_at == old(lease).confirmed_at,
        final(lease).last_heartbeat_at is Some,
        clock::is_clock_reading(final(lease).last_heartbeat_at->0),
        final(lease).expires_at.secs == final(lease).last_heartbeat_at->0.secs + extension_secs,
        same_grant(*final(lease), *old(lease)),
{
}

/// A lease that is released, or that runs out, changes in its state alone.
pub proof fn end_of_a_lease_changes_its_state(released: &mut Lease, expired: &mut Lease, done: ())
    requires
        call_ensures(Lease::release, (released,), done),
        call_ensures(Lease::expire, (expired,), done),
    ensures
        final(released).state is Released,
        same_grant(*final(released), *old(released)),
        final(released).confirmed_at == old(released).confirmed_at,
        final(released).last_heartbeat_at == old(released).last_heartbeat_at,
        final(released).expires_at == old(released).expires_at,
        final(expired).state is Expired,
        same_grant(*final(expired), *old(expired)),
        final(expired).confirmed_at == old(expired).confirmed_at,
        final(expired).last_heartbeat_at == old(expired).last_heartbeat_at,
        final(expired).expires_at == old(expired).expires_at,
{
}

/// A lease has run out by the clock exactly where the clock reads an instant
/// behind its expiry.
pub proof fn lease_runs_out_by_the_clock(lease: &Lease, expired: bool)
    requires
        call_ensures(Lease::is_expired, (lease,), expired),
    ensures
        exists|now: Timestamp| #[trigger]
            clock::is_clock_reading(now) && (expired <==> now.secs > lease.expires_at.secs || (
            now.secs == lease.expires_at.secs && now.nanos > lease.expires_at.nanos)),
{
}

/// Recovery changes an active lease that has run out, and no other. Within a
/// minute of its expiry the lease gets another chance; later it is expired.
pub proof fn recovery_gives_a_minute(lease: &mut Lease, now: Timestamp, changed: bool)
    requires
        call_ensures(leases::recover, (lease, now), changed),
        now.nanos < 1_000_000_000,
        old(lease).expires_at.nanos < 1_000_000_000,
    ensures
        ({
            let expiry = old(lease).expires_at;
            let late = (now.secs - expiry.secs) * 1_000_000_000 + (now.nanos - expiry.nanos);
            &&& changed <==> old(lease).state is Active && late > 0
            &&& changed && late <= 60_000_000_000 ==> final(lease).state is Pending
            &&& changed && late > 60_000_000_000 ==> final(lease).state is Expired
        }),
        !changed ==> *final(lease) == *old(lease),
        same_grant(*final(lease), *old(lease)),
        final(lease).confirmed_at == old(lease).confirmed_at,
        final(lease).last_heartbeat_at == old(lease).last_heartbeat_at,
        final(lease).expires_at == old(lease).expires_at,
{
}

/// Leases are copied one for one.
pub proof fn leases_are_copied(found: &Vec<&Lease>, copies: Vec<Lease>, i: int)
    requires
        call_ensures(leases::cloned, (found,), copies),
        0 <= i < found@.len(),
    ensures
        copies@.len() == found@.len(),
        copies@[i] == *found@[i],
{
}

/// A copy of a lease is that lease, and TCP is the protocol where none is
/// given.
pub proof fn copy_is_the_lease(lease: &Lease, copy: Lease, protocol: Protocol)
    requires
        call_ensures(Lease::clone, (lease,), copy),
        call_ensures(Protocol::default, (), protocol),
    ensures
        copy == *lease,
        protocol is Tcp,
{
}

// ── The registry ────────────────────────────────────────────────────────

/// A lease that is granted is in the registry under its id, and so is every
/// other lease that was there. It is handed out once the registry is written.
pub proof fn granted_lease_is_entered<W: Fn(&Registry, &PathBuf) -> Result<(), String>>(
    registry: &mut Registry,
    lease: Lease,
    write: &W,
    outcome: Result<Lease, RegistryError>,
)
    requires
        call_ensures(Registry::grant::<W>, (registry, lease, write), outcome),
    ensures
        final(registry)@.contains_key(lease.lease_id@),
        final(registry)@[lease.lease_id@] == lease,
        forall|id: Seq<char>|
            id != lease.lease_id@ ==> (#[trigger] final(registry)@.contains_key(id) <==> old(
                registry,
            )@.contains_key(id)) && (old(registry)@.contains_key(id) ==> final(registry)@[id]
                == old(registry)@[id]),
        final(registry).file() == old(registry).file(),
        outcome matches Ok(returned) ==> returned == lease,
        final(registry).file() is None ==> outcome is Ok,
        final(registry).file() matches Some(path) ==> match outcome {
            Ok(_) => call_ensures(*write, (final(registry), &path), Ok(())),
            Err(error) => error matches RegistryError::Save { message } && call_ensures(
                *write,
                (final(registry), &path),
                Err(message),
            ),
        },
{
}

/// The registry knows its file and how many leases it holds.
pub proof fn registry_knows_its_size(
    registry: &Registry,
    path: Option<&PathBuf>,
    count: usize,
    entries: &Vec<leases::LeaseEntry>,
)
    requires
        registry.wf(),
        call_ensures(Registry::path, (registry,), path),
        call_ensures(Registry::len, (registry,), count),
        call_ensures(Registry::entries, (registry,), entries),
    ensures
        registry.file() matches Some(file) ==> path == Some(&file),
        registry.file() is None ==> path is None,
        count == entries@.len(),
{
    let ids = leases::entry_ids(entries@);
    leases::lemma_by_id(entries@);
    ids.unique_seq_to_set();
    assert(registry@.dom() =~= ids.to_set());
}

/// What is loaded by the clock is what would be loaded at some reading of it.
pub proof fn loading_by_the_clock_keeps_pending_leases<
    W: Fn(&Registry, &PathBuf) -> Result<(), String>,
>(
    path: PathBuf,
    entries: Vec<leases::LeaseEntry>,
    write: &W,
    registry: Registry,
    i: int,
)
    requires
        leases::entry_ids(entries@).no_duplicates(),
        call_ensures(Registry::load::<W>, (path, entries, write), Ok(registry)),
        0 <= i < entries@.len(),
    ensures
        registry.file() == Some(path),
        registry@.contains_key(entries@[i].id@),
        !(entries@[i].lease.state is Active) ==> registry@[entries@[i].id@] == entries@[i].lease,
        ({
            let now_held = registry@[entries@[i].id@];
            same_grant(now_held, entries@[i].lease) && now_held.expires_at
                == entries@[i].lease.expires_at && !(now_held.state is Released
                && entries@[i].lease.state is Active)
        }),
{
    leases::lemma_by_id(entries@);
    assert(leases::by_id(entries@).contains_key(entries@[i].id@));
}

// ── Lists ───────────────────────────────────────────────────────────────

/// Sorting keeps the items, as many times as they occur, and puts them in
/// order.
pub proof fn sorting_keeps_the_items<T: InOrder>(items: Vec<T>, sorted: Vec<T>, x: T)
    requires
        call_ensures(sort::sort::<T>, (items,), sorted),
    ensures
        sorted@.len() == items@.len(),
        sorted@.contains(x) <==> items@.contains(x),
        sorted@.to_multiset().count(x) == items@.to_multiset().count(x),
        forall|i: int, j: int|
            0 <= i <= j < sorted@.len() ==> (#[trigger] sorted@[i]).comes_by(
                #[trigger] sorted@[j],
            ),
{
    broadcast use vstd::seq_lib::group_to_multiset_ensures;

    assert(sorted@.to_multiset().count(x) > 0 <==> sorted@.contains(x));
    assert(items@.to_multiset().count(x) > 0 <==> items@.contains(x));
    assert(sorted@.len() == sorted@.to_multiset().len());
    assert(items@.len() == items@.to_multiset().len());
}

/// Leases stand in the order of their ports, and of their services where the
/// ports are the same.
pub proof fn leases_stand_by_port(
    a: &Lease,
    b: &Lease,
    answer: bool,
    first: &str,
    second: &str,
    by_service: bool,
)
    requires
        call_ensures(<Lease as InOrder>::not_after, (a, b), answer),
        first@ == a.service_name@,
        second@ == b.service_name@,
        call_ensures(text::text_at_most, (first, second), by_service),
    ensures
        a.port < b.port ==> answer,
        a.port > b.port ==> !answer,
        a.port == b.port ==> (answer <==> by_service),
{
}

/// Listeners stand in the order of their ports, of their processes where the
/// ports are the same, and of their protocols where both are.
pub proof fn listeners_stand_by_port(a: &PortProcess, b: &PortProcess, answer: bool)
    requires
        call_ensures(<PortProcess as InOrder>::not_after, (a, b), answer),
    ensures
        a.port < b.port ==> answer,
        a.port > b.port ==> !answer,
        a.port == b.port && a.pid < b.pid ==> answer,
        a.port == b.port && a.pid > b.pid ==> !answer,
        a.port == b.port && a.pid == b.pid ==> (answer <==> a.protocol is Tcp || b.protocol
            is Udp),
{
}

// ── Texts ───────────────────────────────────────────────────────────────

/// A text and its characters hold the same, and a part of them is what stands
/// between its ends.
pub proof fn characters_are_those_of_the_text(
    s: &str,
    chars: Vec<char>,
    slice: &[char],
    out: String,
    from: usize,
    to: usize,
    part: Vec<char>,
)
    requires
        call_ensures(text::chars_of, (s,), chars),
        call_ensures(text::text_of, (slice,), out),
        from <= to <= slice@.len(),
        call_ensures(text::chars_between, (slice, from, to), part),
    ensures
        chars@ == s@,
        out@ == slice@,
        part@.len() == to - from,
        forall|i: int| 0 <= i < part@.len() ==> #[trigger] part@[i] == slice@[from + i],
{
}

/// A repeated character fills the text.
pub proof fn repeated_character_fills_the_text(c: char, n: usize, out: String)
    requires
        call_ensures(text::repeat_char, (c, n), out),
    ensures
        out@.len() == n,
        forall|i: int| 0 <= i < n ==> #[trigger] out@[i] == c,
{
}

/// A capital letter of ASCII has its small one thirty-two places on; any other
/// character stays.
pub proof fn small_letters_stand_behind_capitals(c: char, lower: char)
    requires
        call_ensures(text::char_ascii_lower, (c,), lower),
    ensures
        'A' <= c <= 'Z' ==> lower as int == c as int + 32,
        !('A' <= c <= 'Z') ==> lower == c,
{
}

/// Whatever can be shortened is known to be.
pub proof fn shortenable_text_is_known(value: &str, max: usize, answer: bool)
    requires
        call_ensures(text::is_shortenable, (value, max), answer),
    ensures
        answer <==> text::can_be_shortened(value@, max as int),
        value@.len() == 0 ==> answer,
{
    if value@.len() == 0 {
        assert(value@ =~= seq![]);
        assert(vstd::utf8::encode_utf8(value@).len() == 0) by {
            reveal_with_fuel(vstd::utf8::encode_utf8, 1);
        }
    }
}

// ── Errors ──────────────────────────────────────────────────────────────

/// An error response holds its code and its message.
pub proof fn error_response_holds_its_words(code: &str, message: &str, response: Response)
    requires
        call_ensures(Response::error, (code, message), response),
    ensures
        response matches Response::Error { code: c, message: m } && c@ == code@ && m@ == message@,
{
}

/// The errors of a scan name their process or port, and pass on what the tool
/// said.
pub proof fn errors_of_a_scan_name_their_subject(error: &ScanError, message: String)
    requires
        call_ensures(ScanError::message, (error,), message),
    ensures
        match *error {
            ScanError::LsofFailed { stderr } => message@ == "lsof failed: "@ + stderr@,
            ScanError::TasklistNotRun { pid } => ends_with(
                message@,
                " for pid "@ + decimal::decimal(pid as nat),
            ),
            ScanError::TasklistFailed { pid } => ends_with(
                message@,
                " for pid "@ + decimal::decimal(pid as nat),
            ),
            ScanError::ProcessNotFound { pid } => ends_with(
                message@,
                " for pid "@ + decimal::decimal(pid as nat),
            ),
            ScanError::NoListener { port } => ends_with(
                message@,
                " on port "@ + decimal::decimal(port as nat),
            ),
            ScanError::KillNotRun { tool, pid } => ends_with(
                message@,
                " for pid "@ + decimal::decimal(pid as nat),
            ),
            ScanError::KillFailed { tool, pid } => ends_with(
                message@,
                " for pid "@ + decimal::decimal(pid as nat),
            ),
            _ => message@.len() > 0,
        },
{
    reveal_strlit(" for pid ");
    reveal_strlit(" on port ");
    match *error {
        ScanError::LsofNotRun => {
            reveal_strlit("failed to execute lsof");
        },
        ScanError::NetstatNotRun => {
            reveal_strlit("failed to execute netstat for tcp");
        },
        ScanError::NetstatFailed => {
            reveal_strlit("netstat returned non-zero status for tcp");
        },
        ScanError::TasklistNotRun { pid } => {
            reveal_strlit("failed to execute tasklist for pid ");
            lemma_ends_with(
                "failed to execute tasklist for pid "@,
                " for pid "@,
                decimal::decimal(pid as nat),
            );
        },
        ScanError::TasklistFailed { pid } => {
            reveal_strlit("tasklist returned non-zero status for pid ");
            lemma_ends_with(
                "tasklist returned non-zero status for pid "@,
                " for pid "@,
                decimal::decimal(pid as nat),
            );
        },
        ScanError::ProcessNotFound { pid } => {
            reveal_strlit("process not found for pid ");
            lemma_ends_with(
                "process not found for pid "@,
                " for pid "@,
                decimal::decimal(pid as nat),
            );
        },
        ScanError::NoListener { port } => {
            reveal_strlit("no listening process found on port ");
            lemma_ends_with(
                "no listening process found on port "@,
                " on port "@,
                decimal::decimal(port as nat),
            );
        },
        ScanError::KillNotRun { tool, pid } => {
            let start = "failed to invoke "@ + crate::scan::tool_name(tool) + " for pid "@;
            lemma_ends_with(start, " for pid "@, decimal::decimal(pid as nat));
        },
        ScanError::KillFailed { tool, pid } => {
            reveal_strlit(" returned non-zero status for pid ");
            let start = crate::scan::tool_name(tool) + " returned non-zero status for pid "@;
            lemma_ends_with(start, " for pid "@, decimal::decimal(pid as nat));
        },
        _ => {},
    }
}

/// Whether the text ends with the other.
pub open spec fn ends_with(text: Seq<char>, end: Seq<char>) -> bool {
    text.len() >= end.len() && text.skip(text.len() - end.len()) == end
}

proof fn lemma_ends_with(start: Seq<char>, words: Seq<char>, number: Seq<char>)
    requires
        start.len() >= words.len(),
        start.skip(start.len() - words.len()) =~= words,
    ensures
        ends_with(start + number, words + number),
{
    let text = start + number;
    let end = words + number;
    let tail = text.skip(text.len() - end.len());
    assert forall|i: int| 0 <= i < tail.len() implies tail[i] == end[i] by {
        if i < words.len() {
            assert(start.skip(start.len() - words.len())[i] == words[i]);
        }
    }
    assert(tail =~= end);
}

/// The errors of the client say what is wrong: the signal that is not known,
/// the port that was not bound and how the child ended, and what the scan said.
pub proof fn errors_of_the_client_name_their_subject(
    error: &CliError,
    message: String,
    scan_error: &ScanError,
    scan_message: String,
)
    requires
        call_ensures(CliError::message, (error,), message),
        call_ensures(ScanError::message, (scan_error,), scan_message),
    ensures
        match *error {
            CliError::UnknownSignal { name } => message@ == "unknown signal: '"@ + name@
                + "' (use 'term' or 'kill')"@,
            CliError::ChildExited { port, code } => {
                &&& code is None ==> message@ == "child exited before binding port "@
                    + decimal::decimal(port as nat) + " (exit: "@ + "None"@ + ")"@
                &&& code matches Some(code) ==> message@ == "child exited before binding port "@
                    + decimal::decimal(port as nat) + " (exit: "@ + ("Some("@ + (if code < 0 {
                    seq!['-'] + decimal::decimal((-code) as nat)
                } else {
                    decimal::decimal(code as nat)
                }) + ")"@) + ")"@
            },
            CliError::Scan { error } => error == *scan_error ==> message@ == scan_message@,
            _ => true,
        },
{
}

/// A message that is too large is named with its size and the limit of one
/// mebibyte, and there is a message for a missing home directory.
pub proof fn errors_of_the_transport_name_the_size(
    error: &TransportError,
    message: String,
    path_error: PathError,
    path_message: &'static str,
)
    requires
        call_ensures(TransportError::message, (error,), message),
        call_ensures(PathError::message, (path_error,), path_message),
    ensures
        match *error {
            TransportError::TooLarge { len } => message@ == "message too large: "@
                + decimal::decimal(len as nat) + " bytes (max "@ + decimal::decimal(1_048_576)
                + ")"@,
            TransportError::IncomingTooLarge { announced } => message@
                == "incoming message too large: "@ + decimal::decimal(announced as nat)
                + " bytes (max "@ + decimal::decimal(1_048_576) + ")"@,
            TransportError::CutShort => message@ == "failed to read message body"@,
        },
        path_message@ == "cannot determine home directory"@,
{
}

} // verus!
