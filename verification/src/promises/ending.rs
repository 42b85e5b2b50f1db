//! Ending the processes on a port.
use vstd::prelude::*;
use crate::decimal;
use crate::promises::words;
use crate::scan;
use crate::scan::{KillStep, KillTool, PortProcess, ScanError};
use crate::text;

verus! {

/// Whether the arguments tell the tool to end the process: for `kill` the
/// signal as an option and the number of the process; for `taskkill` the number
/// behind `/PID`, and force where the signal is to kill.
pub open spec fn tells_to_end(
    arguments: Seq<String>,
    tool: KillTool,
    signal: Seq<char>,
    pid: u32,
) -> bool {
    match tool {
        KillTool::Kill => {
            &&& arguments.len() == 2
            &&& arguments[0]@ == seq!['-'] + signal
            &&& arguments[1]@ == decimal::decimal(pid as nat)
        },
        KillTool::Taskkill => {
            &&& arguments.len() == if text::ascii_lowered(signal) == seq!['k', 'i', 'l', 'l'] {
                3int
            } else {
                2
            }
            &&& arguments[0]@ == seq!['/', 'P', 'I', 'D']
            &&& arguments[1]@ == decimal::decimal(pid as nat)
            &&& arguments.len() == 3 ==> arguments[2]@ == seq!['/', 'F']
        },
    }
}

proof fn lemma_order(arguments: Seq<String>, tool: KillTool, signal: Seq<char>, pid: u32)
    requires
        text::strings(arguments) == scan::kill_order(tool, signal, pid),
    ensures
        tells_to_end(arguments, tool, signal, pid),
{
    let order = text::strings(arguments);
    assert(order.len() == arguments.len());
    assert(order[0] == arguments[0]@);
    assert(order[1] == arguments[1]@);
    if arguments.len() == 3 {
        assert(order[2] == arguments[2]@);
    }
    reveal_strlit("-");
    reveal_strlit("/PID");
    reveal_strlit("/F");
    reveal_strlit("kill");
    assert("-"@ =~= seq!['-']);
    assert("/PID"@ =~= seq!['/', 'P', 'I', 'D']);
    assert("/F"@ =~= seq!['/', 'F']);
    assert("kill"@ =~= seq!['k', 'i', 'l', 'l']);
}

/// The arguments for the tool name the process: its number is one of them, in
/// full, and reads back as that number.
pub proof fn arguments_name_the_process(
    tool: KillTool,
    signal: &str,
    pid: u32,
    arguments: Vec<String>,
    number: &[char],
    value: Option<u32>,
)
    requires
        call_ensures(scan::kill_arguments, (tool, signal, pid), arguments),
        number@ == arguments@[1]@,
        call_ensures(decimal::parse_u32, (number,), value),
    ensures
        tells_to_end(arguments@, tool, signal@, pid),
        value == Some(pid),
{
    lemma_order(arguments@, tool, signal@, pid);
    words::lemma_parses(pid as nat, u32::MAX as nat);
}

/// Orders for different processes differ.
pub proof fn different_processes_get_different_orders(
    tool: KillTool,
    signal: &str,
    one: u32,
    other: u32,
    to_one: Vec<String>,
    to_other: Vec<String>,
)
    requires
        call_ensures(scan::kill_arguments, (tool, signal, one), to_one),
        call_ensures(scan::kill_arguments, (tool, signal, other), to_other),
        one != other,
    ensures
        to_one@[1]@ != to_other@[1]@,
{
    lemma_order(to_one@, tool, signal@, one);
    lemma_order(to_other@, tool, signal@, other);
    if to_one@[1]@ == to_other@[1]@ {
        words::lemma_decimal_injective(one as nat, other as nat);
    }
}

/// The processes of the listeners are all of them, each once, in the order in
/// which they come.
pub proof fn processes_come_once_and_in_order(processes: &[PortProcess], pids: Vec<u32>)
    requires
        call_ensures(scan::unique_pids, (processes,), pids),
    ensures
        forall|i: int| 0 <= i < processes@.len() ==> pids@.contains((#[trigger] processes@[i]).pid),
        forall|j: int|
            0 <= j < pids@.len() ==> exists|i: int|
                0 <= i < processes@.len() && (#[trigger] processes@[i]).pid == #[trigger] pids@[j],
        forall|j: int, k: int|
            0 <= j < k < pids@.len() ==> #[trigger] pids@[j] != #[trigger] pids@[k],
        processes@.len() > 0 ==> pids@.len() > 0 && pids@[0] == processes@[0].pid,
{
    lemma_unique(processes@);
    lemma_first(processes@);
}

proof fn lemma_unique(processes: Seq<PortProcess>)
    ensures
        ({
            let pids = scan::distinct_pids(processes);
            &&& forall|i: int|
                0 <= i < processes.len() ==> pids.contains((#[trigger] processes[i]).pid)
            &&& forall|j: int|
                0 <= j < pids.len() ==> exists|i: int|
                    0 <= i < processes.len() && (#[trigger] processes[i]).pid == #[trigger] pids[j]
            &&& forall|j: int, k: int|
                0 <= j < k < pids.len() ==> #[trigger] pids[j] != #[trigger] pids[k]
        }),
{
    let pids = scan::distinct_pids(processes);
    scan::each_process_is_told_once(processes);
    assert forall|j: int| 0 <= j < pids.len() implies exists|i: int|
        0 <= i < processes.len() && (#[trigger] processes[i]).pid == #[trigger] pids[j] by {
        assert(pids.contains(pids[j]));
    }
}

proof fn lemma_first(processes: Seq<PortProcess>)
    ensures
        processes.len() > 0 ==> scan::distinct_pids(processes).len() > 0 && scan::distinct_pids(
            processes,
        )[0] == processes[0].pid,
    decreases processes.len(),
{
    if processes.len() > 1 {
        lemma_first(processes.drop_last());
    } else if processes.len() == 1 {
        assert(processes.drop_last() =~= seq![]);
        assert(scan::distinct_pids(processes.drop_last()) =~= seq![]);
    }
}

/// Whether the tool may have been run for the process with this result.
pub open spec fn was_told<K: Fn(&Vec<String>) -> Option<bool>>(
    tool: KillTool,
    signal: Seq<char>,
    pid: u32,
    run_kill: K,
    result: Option<bool>,
) -> bool {
    exists|given: Vec<String>|
        tells_to_end(given@, tool, signal, pid) && #[trigger] call_ensures(
            run_kill,
            (&given,),
            result,
        )
}

proof fn lemma_told<K: Fn(&Vec<String>) -> Option<bool>>(
    tool: KillTool,
    signal: Seq<char>,
    pid: u32,
    run_kill: K,
    result: Option<bool>,
)
    requires
        scan::kill_ran(tool, signal, pid, run_kill, result),
    ensures
        was_told(tool, signal, pid, run_kill, result),
{
    let given = choose|given: Vec<String>|
        text::strings(given@) == scan::kill_order(tool, signal, pid) && #[trigger] call_ensures(
            run_kill,
            (&given,),
            result,
        );
    lemma_order(given@, tool, signal, pid);
}

/// Whether ending the processes may come to this. Success is that every process
/// that listens was told to end, with success, and what is returned is what was
/// found. A failure names a process that listens and that could not be told, or
/// for which the tool failed, and every process before it was told. Where
/// nothing listens, that is the error.
pub open spec fn ends_listeners<K: Fn(&Vec<String>) -> Option<bool>>(
    listeners: Seq<PortProcess>,
    port: u16,
    tool: KillTool,
    signal: Seq<char>,
    run_kill: K,
    outcome: Result<Vec<PortProcess>, ScanError>,
) -> bool {
    match outcome {
        Ok(returned) => {
            &&& returned@ == listeners
            &&& listeners.len() > 0
            &&& forall|i: int|
                0 <= i < listeners.len() ==> was_told(
                    tool,
                    signal,
                    (#[trigger] listeners[i]).pid,
                    run_kill,
                    Some(true),
                )
        },
        Err(error) => match error {
            ScanError::NoListener { port: on } => listeners.len() == 0 && on == port,
            ScanError::KillNotRun { tool: with, pid } => {
                &&& with == tool
                &&& was_told(tool, signal, pid, run_kill, None)
                &&& exists|i: int| 0 <= i < listeners.len() && (#[trigger] listeners[i]).pid == pid
            },
            ScanError::KillFailed { tool: with, pid } => {
                &&& with == tool
                &&& was_told(tool, signal, pid, run_kill, Some(false))
                &&& exists|i: int| 0 <= i < listeners.len() && (#[trigger] listeners[i]).pid == pid
            },
            _ => false,
        },
    }
}

proof fn lemma_ends<K: Fn(&Vec<String>) -> Option<bool>>(
    listeners: Vec<PortProcess>,
    port: u16,
    tool: KillTool,
    signal: Seq<char>,
    run_kill: K,
    outcome: Result<Vec<PortProcess>, ScanError>,
)
    requires
        scan::processes_ended(Ok(listeners), port, tool, signal, run_kill, outcome),
    ensures
        ends_listeners(listeners@, port, tool, signal, run_kill, outcome),
{
    let pids = scan::distinct_pids(listeners@);
    lemma_unique(listeners@);
    if listeners@.len() > 0 {
        match outcome {
            Ok(returned) => {
                assert forall|i: int| 0 <= i < listeners@.len() implies was_told(
                    tool,
                    signal,
                    (#[trigger] listeners@[i]).pid,
                    run_kill,
                    Some(true),
                ) by {
                    assert(pids.contains(listeners@[i].pid));
                    let j = choose|j: int| 0 <= j < pids.len() && pids[j] == listeners@[i].pid;
                    assert(scan::kill_ran(tool, signal, pids[j], run_kill, Some(true)));
                    lemma_told(tool, signal, listeners@[i].pid, run_kill, Some(true));
                }
            },
            Err(error) => {
                let k = choose|k: int|
                    {
                        &&& 0 <= k < pids.len()
                        &&& #[trigger] scan::all_told(pids, k, tool, signal, run_kill)
                        &&& match error {
                            ScanError::KillNotRun { tool: t, pid } => t == tool && pid == pids[k]
                                && scan::kill_ran(tool, signal, pids[k], run_kill, None),
                            ScanError::KillFailed { tool: t, pid } => t == tool && pid == pids[k]
                                && scan::kill_ran(tool, signal, pids[k], run_kill, Some(false)),
                            _ => false,
                        }
                    };
                let result = if error is KillNotRun {
                    None
                } else {
                    Some(false)
                };
                lemma_told(tool, signal, pids[k], run_kill, result);
                let i = choose|i: int|
                    0 <= i < listeners@.len() && (#[trigger] listeners@[i]).pid == pids[k];
                assert(listeners@[i].pid == pids[k]);
            },
        }
    }
}

/// Ending the listeners that were found tells each of their processes, or says
/// for which one that failed.
pub proof fn found_listeners_are_ended<K: Fn(&Vec<String>) -> Option<bool>>(
    listeners: Vec<PortProcess>,
    port: u16,
    tool: KillTool,
    signal: &str,
    run_kill: &K,
    outcome: Result<Vec<PortProcess>, ScanError>,
)
    requires
        call_ensures(
            scan::kill_listeners::<K>,
            (Ok(listeners), port, tool, signal, run_kill),
            outcome,
        ),
    ensures
        ends_listeners(listeners@, port, tool, signal@, *run_kill, outcome),
{
    lemma_ends(listeners, port, tool, signal@, *run_kill, outcome);
}

/// Ending the processes on a port tells each process that a scan of that port
/// found. Where the scan fails, that is the error, and it is passed on.
pub proof fn listeners_on_the_port_are_ended<
    S: Fn(Option<u16>) -> Result<Vec<PortProcess>, ScanError>,
    K: Fn(&Vec<String>) -> Option<bool>,
>(
    port: u16,
    signal: &str,
    tool: KillTool,
    scan: &S,
    run_kill: &K,
    outcome: Result<Vec<PortProcess>, ScanError>,
)
    requires
        call_ensures(
            scan::kill_processes_on_port::<S, K>,
            (port, signal, tool, scan, run_kill),
            outcome,
        ),
    ensures
        exists|found: Result<Vec<PortProcess>, ScanError>| #[trigger]
            call_ensures(*scan, (Some(port),), found) && match found {
                Err(error) => outcome == Err::<Vec<PortProcess>, ScanError>(error),
                Ok(listeners) => ends_listeners(
                    listeners@,
                    port,
                    tool,
                    signal@,
                    *run_kill,
                    outcome,
                ),
            },
{
    let found = choose|found: Result<Vec<PortProcess>, ScanError>| #[trigger]
        call_ensures(*scan, (Some(port),), found) && scan::processes_ended(
            found,
            port,
            tool,
            signal@,
            *run_kill,
            outcome,
        );
    if let Ok(listeners) = found {
        lemma_ends(listeners, port, tool, signal@, *run_kill, outcome);
    }
    assert(call_ensures(*scan, (Some(port),), found));
}

/// The next step tells a process that listens and that was not told before, as
/// long as all went well; it ends with the first failure, and with the last
/// process.
pub proof fn step_tells_the_next_process(
    listeners: &[PortProcess],
    results: &[Option<bool>],
    port: u16,
    tool: KillTool,
    signal: &str,
    step: KillStep,
    pids: Vec<u32>,
)
    requires
        call_ensures(scan::kill_step, (listeners, results, port, tool, signal), step),
        call_ensures(scan::unique_pids, (listeners,), pids),
        results@.len() <= pids@.len(),
    ensures
        match step {
            KillStep::Tell { arguments } => {
                &&& results@.len() < pids@.len()
                &&& forall|i: int| 0 <= i < results@.len() ==> #[trigger] results@[i] == Some(true)
                &&& tells_to_end(arguments@, tool, signal@, pids@[results@.len() as int])
            },
            KillStep::Done => {
                &&& results@.len() == pids@.len()
                &&& results@.len() > 0
                &&& forall|i: int| 0 <= i < results@.len() ==> #[trigger] results@[i] == Some(true)
            },
            KillStep::Failed { error } => {
                ||| listeners@.len() == 0 && error == (ScanError::NoListener { port })
                ||| exists|k: int|
                    {
                        &&& 0 <= k < results@.len()
                        &&& #[trigger] results@[k] == None::<bool>
                        &&& error == (ScanError::KillNotRun { tool, pid: pids@[k] })
                        &&& forall|i: int| 0 <= i < k ==> #[trigger] results@[i] == Some(true)
                    }
                ||| exists|k: int|
                    {
                        &&& 0 <= k < results@.len()
                        &&& #[trigger] results@[k] == Some(false)
                        &&& error == (ScanError::KillFailed { tool, pid: pids@[k] })
                        &&& forall|i: int| 0 <= i < k ==> #[trigger] results@[i] == Some(true)
                    }
            },
        },
{
    lemma_first(listeners@);
    let all = results@;
    if listeners@.len() > 0 {
        if scan::succeeded(all, all.len() as int) {
            if let KillStep::Tell { arguments } = step {
                lemma_order(arguments@, tool, signal@, pids@[all.len() as int]);
            }
        } else {
            let k = choose|k: int|
                {
                    &&& 0 <= k < all.len()
                    &&& #[trigger] scan::succeeded(all, k)
                    &&& all[k] != Some(true)
                    &&& step == (KillStep::Failed {
                        error: scan::kill_error(tool, pids@[k], all[k]),
                    })
                };
            assert(all[k] is Some ==> all[k] == Some(false));
        }
    }
}

/// What is said about a process ends with its number.
pub proof fn message_ends_with_the_number(error: &ScanError, message: String, number: nat)
    requires
        call_ensures(ScanError::message, (error,), message),
        match *error {
            ScanError::TasklistNotRun { pid } => number == pid,
            ScanError::TasklistFailed { pid } => number == pid,
            ScanError::ProcessNotFound { pid } => number == pid,
            ScanError::NoListener { port } => number == port,
            ScanError::KillNotRun { tool, pid } => number == pid,
            ScanError::KillFailed { tool, pid } => number == pid,
            _ => false,
        },
    ensures
        message@.len() > decimal::decimal(number).len(),
        message@.skip(message@.len() - decimal::decimal(number).len()) == decimal::decimal(number),
{
    let digits = decimal::decimal(number);
    reveal_strlit("failed to execute tasklist for pid ");
    reveal_strlit("tasklist returned non-zero status for pid ");
    reveal_strlit("process not found for pid ");
    reveal_strlit("no listening process found on port ");
    reveal_strlit("failed to invoke ");
    reveal_strlit(" returned non-zero status for pid ");
    let start = message@.take(message@.len() - digits.len());
    assert(message@.skip(message@.len() - digits.len()) =~= digits);
}

} // verus!
