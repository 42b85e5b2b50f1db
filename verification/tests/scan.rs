use std::cell::RefCell;

use portus::model::Protocol;
use portus::scan::{
    extract_port, extract_port_from_token, kill_arguments, kill_listeners, kill_processes_on_port,
    kill_step, lsof_arguments, parse_lsof_output, parse_netstat_output, scan_ports, scan_windows,
    tasklist_arguments, tasklist_shows_process, unique_pids, windows_process_name, KillStep,
    KillTool, PortProcess, ScanError, ToolOutput,
};

fn output(stdout: &str) -> ToolOutput {
    ToolOutput { success: true, code: Some(0), stdout: stdout.into(), stderr: String::new() }
}

fn failed(code: Option<i32>, stderr: &str) -> ToolOutput {
    ToolOutput { success: false, code, stdout: String::new(), stderr: stderr.into() }
}

fn process(port: u16, pid: u32, command: &str) -> PortProcess {
    PortProcess { port, pid, command: command.into(), protocol: Protocol::Tcp }
}

#[test]
fn parses_listen_line_port() {
    let line = "Python 123 user 4u IPv4 0x123 0t0 TCP 127.0.0.1:43123 (LISTEN)";
    assert_eq!(extract_port(line), Some(43123));
}

#[test]
fn ports_in_tokens() {
    let port = |token: &str| extract_port_from_token(&token.chars().collect::<Vec<char>>());
    assert_eq!(port("127.0.0.1:8080"), Some(8080));
    assert_eq!(port("[::1]:3000"), Some(3000));
    assert_eq!(port("*:22"), Some(22));
    assert_eq!(port("(127.0.0.1:22))"), Some(22));
    assert_eq!(port("10.0.0.1:5000->10.0.0.2:443"), Some(5000));
    assert_eq!(port("*:*"), None);
    assert_eq!(port("8080"), None);
    assert_eq!(port(":65535"), Some(65535));
    assert_eq!(port(":65536"), None);
    assert_eq!(port(":"), None);
    assert_eq!(port(""), None);
    assert_eq!(port("a:b80"), Some(80));
    assert_eq!(extract_port("a:1 b c:2 (LISTEN)"), Some(2));
    assert_eq!(extract_port("nothing here"), None);
}

const LSOF: &str = "COMMAND   PID USER   FD   TYPE DEVICE SIZE/OFF NODE NAME
node      900 user   20u  IPv4 0x1    0t0      TCP *:3000 (LISTEN)
node      900 user   21u  IPv6 0x2    0t0      TCP *:3000 (LISTEN)
postgres  77 user    5u   IPv4 0x3    0t0      TCP 127.0.0.1:5432 (LISTEN)
broken
python    x user     4u   IPv4 0x4    0t0      TCP *:9000 (LISTEN)
ruby      12 user    4u   IPv4 0x5    0t0      TCP *:3000 (LISTEN)
";

#[test]
fn lsof_output_lists_each_process_once() {
    let found = parse_lsof_output(LSOF, Protocol::Tcp);
    assert_eq!(
        found,
        [process(3000, 900, "node"), process(5432, 77, "postgres"), process(3000, 12, "ruby")]
    );
    assert!(parse_lsof_output("", Protocol::Tcp).is_empty());
    assert!(parse_lsof_output("HEADING ONLY 1 a:2", Protocol::Tcp).is_empty());
}

#[test]
fn scans_ask_lsof_and_sort() {
    let asked = RefCell::new(vec![]);
    let run = |arguments: &Vec<String>| {
        asked.borrow_mut().push(arguments.join(" "));
        Some(output(LSOF))
    };
    let found = scan_ports(Some(3000), &run).unwrap();
    assert_eq!(
        found,
        [process(3000, 12, "ruby"), process(3000, 900, "node"), process(5432, 77, "postgres")]
    );
    scan_ports(None, &run).unwrap();
    assert_eq!(*asked.borrow(), ["-nP -iTCP:3000 -sTCP:LISTEN", "-nP -iTCP -sTCP:LISTEN"]);
    assert_eq!(lsof_arguments(Protocol::Udp, Some(53)), ["-nP", "-iUDP:53"]);
    assert_eq!(lsof_arguments(Protocol::Udp, None), ["-nP", "-iUDP"]);
}

#[test]
fn scans_that_fail() {
    let scan = |out: fn() -> Option<ToolOutput>| scan_ports(None, &|_: &Vec<String>| out());
    assert!(scan(|| Some(failed(Some(1), "nothing"))).unwrap().is_empty());
    assert_eq!(
        scan(|| Some(failed(Some(2), " bad option\n"))).unwrap_err().message(),
        "lsof failed: bad option"
    );
    assert_eq!(scan(|| Some(failed(None, "killed"))).unwrap_err().message(), "lsof failed: killed");
    assert_eq!(scan(|| None).unwrap_err().message(), "failed to execute lsof");
}

const NETSTAT: &str = "
Active Connections

  Proto  Local Address          Foreign Address        State           PID
  TCP    0.0.0.0:8080           0.0.0.0:0              LISTENING       4040
  tcp    [::]:8080              [::]:0                 LISTENING       4040
  TCP    127.0.0.1:3000         0.0.0.0:0              LISTENING       12
  UDP    0.0.0.0:53             *:*                                    99
  TCP    0.0.0.0:135            0.0.0.0:0              LISTENING       x
";

#[test]
fn netstat_output_lists_each_process_once() {
    let name = |pid: u32| {
        if pid == 12 {
            Ok("node.exe".to_string())
        } else {
            Err(ScanError::ProcessNotFound { pid })
        }
    };
    let found = parse_netstat_output(NETSTAT, Protocol::Tcp, None, &name);
    assert_eq!(found, [process(8080, 4040, "pid-4040"), process(3000, 12, "node.exe")]);
    let found = parse_netstat_output(NETSTAT, Protocol::Tcp, Some(3000), &name);
    assert_eq!(found, [process(3000, 12, "node.exe")]);
    let found = parse_netstat_output(NETSTAT, Protocol::Udp, None, &name);
    assert_eq!(found.len(), 1);
    assert_eq!(found[0].protocol, Protocol::Udp);

    let run = |arguments: &Vec<String>| {
        assert_eq!(*arguments, ["-ano", "-p", "tcp"]);
        Some(output(NETSTAT))
    };
    let found = scan_windows(None, &run, &name).unwrap();
    assert_eq!(found, [process(3000, 12, "node.exe"), process(8080, 4040, "pid-4040")]);
    let missing = |_: &Vec<String>| None;
    assert_eq!(
        scan_windows(None, &missing, &name).unwrap_err().message(),
        "failed to execute netstat for tcp"
    );
    let broken = |_: &Vec<String>| Some(failed(Some(1), ""));
    assert_eq!(
        scan_windows(None, &broken, &name).unwrap_err().message(),
        "netstat returned non-zero status for tcp"
    );
}

#[test]
fn connections_are_no_listeners() {
    let name = |_: u32| Ok("x.exe".to_string());
    let parse = |line: &str| parse_netstat_output(line, Protocol::Tcp, None, &name);
    assert!(parse("  TCP    127.0.0.1:50000    10.0.0.1:443    ESTABLISHED    77\n").is_empty());
    assert!(parse("  TCP    127.0.0.1:50000    10.0.0.1:443    TIME_WAIT    0\n").is_empty());
    assert!(parse("  TCP    127.0.0.1:50000    0.0.0.0:0    77\n").is_empty());
    assert!(parse("  TCP    127.0.0.1:50000    0.0.0.0:0    LISTENING\n").is_empty());
    assert_eq!(
        parse("  TCP    127.0.0.1:50000    0.0.0.0:0    LISTENING    77\n"),
        [process(50000, 77, "x.exe")]
    );
}

#[test]
fn tasklist_names_processes() {
    assert_eq!(tasklist_arguments(7), ["/FI", "PID eq 7", "/FO", "CSV", "/NH"]);
    let line = "\"node.exe\",\"4040\",\"Console\",\"1\",\"50,000 K\"\r\n";
    assert_eq!(windows_process_name(4040, &Some(output(line))).unwrap(), "node.exe");
    let none = "INFO: No tasks are running which match the specified criteria.\r\n";
    assert_eq!(
        windows_process_name(7, &Some(output(none))).unwrap_err().message(),
        "process not found for pid 7"
    );
    assert_eq!(
        windows_process_name(7, &Some(output("  \r\n"))).unwrap_err().message(),
        "process not found for pid 7"
    );
    assert!(windows_process_name(7, &Some(output(""))).is_err());
    assert_eq!(
        windows_process_name(7, &Some(failed(Some(1), ""))).unwrap_err().message(),
        "tasklist returned non-zero status for pid 7"
    );
    assert_eq!(
        windows_process_name(7, &None).unwrap_err().message(),
        "failed to execute tasklist for pid 7"
    );
    assert!(tasklist_shows_process(&Some(output(line))));
    assert!(!tasklist_shows_process(&Some(output(none))));
    assert!(!tasklist_shows_process(&Some(output(" \n"))));
    assert!(!tasklist_shows_process(&Some(failed(Some(1), ""))));
    assert!(!tasklist_shows_process(&None));
}

#[test]
fn each_process_is_ended_once() {
    let told = RefCell::new(vec![]);
    let run = |arguments: &Vec<String>| {
        told.borrow_mut().push(arguments.join(" "));
        Some(true)
    };
    let scan = |port: Option<u16>| {
        assert_eq!(port, Some(3000));
        Ok(vec![process(3000, 5, "a"), process(3000, 9, "b"), process(3000, 5, "a")])
    };
    let killed = kill_processes_on_port(3000, "TERM", KillTool::Kill, &scan, &run).unwrap();
    assert_eq!(killed.len(), 3);
    assert_eq!(*told.borrow(), ["-TERM 5", "-TERM 9"]);
    assert_eq!(unique_pids(&killed), [5, 9]);
}

#[test]
fn ending_processes_stops_at_the_first_failure() {
    let told = RefCell::new(0);
    let found = || Ok(vec![process(1, 5, "a"), process(1, 6, "b"), process(1, 7, "c")]);
    let refuse = |arguments: &Vec<String>| {
        *told.borrow_mut() += 1;
        Some(arguments[1] != "6")
    };
    let error = kill_listeners(found(), 1, KillTool::Kill, "KILL", &refuse).unwrap_err();
    assert_eq!(error.message(), "kill returned non-zero status for pid 6");
    assert_eq!(*told.borrow(), 2);

    let missing = |_: &Vec<String>| None;
    let error = kill_listeners(found(), 1, KillTool::Taskkill, "KILL", &missing).unwrap_err();
    assert_eq!(error.message(), "failed to invoke taskkill for pid 5");

    let error = kill_listeners(Ok(vec![]), 80, KillTool::Kill, "KILL", &missing).unwrap_err();
    assert_eq!(error.message(), "no listening process found on port 80");

    let error =
        kill_listeners(Err(ScanError::LsofNotRun), 80, KillTool::Kill, "KILL", &missing)
            .unwrap_err();
    assert_eq!(error.message(), "failed to execute lsof");
}

#[test]
fn arguments_for_ending_a_process() {
    assert_eq!(kill_arguments(KillTool::Kill, "KILL", 5), ["-KILL", "5"]);
    assert_eq!(kill_arguments(KillTool::Taskkill, "KILL", 5), ["/PID", "5", "/F"]);
    assert_eq!(kill_arguments(KillTool::Taskkill, "TERM", 5), ["/PID", "5"]);
}

#[test]
fn no_process_is_told_after_a_failure() {
    let found = || vec![process(1, 5, "a"), process(1, 6, "b"), process(1, 5, "a"), process(1, 7, "c")];
    for answer in [Some(false), None] {
        let told = RefCell::new(vec![]);
        let run = |arguments: &Vec<String>| {
            told.borrow_mut().push(arguments[1].clone());
            if arguments[1] == "6" {
                answer
            } else {
                Some(true)
            }
        };
        assert!(kill_listeners(Ok(found()), 1, KillTool::Kill, "KILL", &run).is_err());
        assert_eq!(*told.borrow(), ["5", "6"]);
    }
    let told = RefCell::new(vec![]);
    let run = |arguments: &Vec<String>| {
        told.borrow_mut().push(arguments[1].clone());
        Some(true)
    };
    assert!(kill_listeners(Ok(vec![]), 1, KillTool::Kill, "KILL", &run).is_err());
    assert!(kill_listeners(Err(ScanError::LsofNotRun), 1, KillTool::Kill, "KILL", &run).is_err());
    assert!(told.borrow().is_empty());
    assert!(kill_listeners(Ok(found()), 1, KillTool::Kill, "KILL", &run).is_ok());
    assert_eq!(*told.borrow(), ["5", "6", "7"]);
}

#[test]
fn the_steps_tell_each_process_in_turn() {
    let found = [process(1, 5, "a"), process(1, 6, "b"), process(1, 5, "a")];
    let step = |results: &[Option<bool>]| kill_step(&found, results, 1, KillTool::Kill, "TERM");
    let told = |step: KillStep| match step {
        KillStep::Tell { arguments } => arguments,
        other => panic!("expected a process to be told, got {other:?}"),
    };
    let failed = |step: KillStep| match step {
        KillStep::Failed { error } => error.message(),
        other => panic!("expected a failure, got {other:?}"),
    };
    assert_eq!(told(step(&[])), ["-TERM", "5"]);
    assert_eq!(told(step(&[Some(true)])), ["-TERM", "6"]);
    assert!(matches!(step(&[Some(true), Some(true)]), KillStep::Done));
    assert_eq!(failed(step(&[Some(false)])), "kill returned non-zero status for pid 5");
    assert_eq!(failed(step(&[None, Some(true)])), "failed to invoke kill for pid 5");
    assert_eq!(failed(step(&[Some(true), None])), "failed to invoke kill for pid 6");
    assert_eq!(
        failed(kill_step(&[], &[], 80, KillTool::Kill, "TERM")),
        "no listening process found on port 80"
    );
}
