use std::collections::HashSet;

use portus::model::Protocol;
use portus::port_check::{
    auto_port_range, find_available_port, find_available_port_fast, get_used_ports,
};
use portus::scan::{PortProcess, ScanError};

const NO_PORTS: [u16; 0] = [];

fn all_free(_: u16, _: Protocol) -> bool {
    true
}

#[test]
fn find_available_port_returns_some() {
    let port = find_available_port(40000..=40100, Protocol::Tcp, &all_free);
    assert!(port.is_some());
    assert_eq!(port, Some(40000));
}

#[test]
fn fast_scan_skips_used_ports() {
    let ports = [40000, 40001, 40002];
    let used_ports = HashSet::from([ports[0], ports[1]]);
    let allocated_ports = HashSet::new();

    let port = find_available_port_fast(
        ports[0]..=ports[2],
        Protocol::Tcp,
        &used_ports,
        &allocated_ports,
        &all_free,
    );

    assert_eq!(port, Some(ports[2]));
}

#[test]
fn fast_scan_skips_allocated_ports() {
    let ports = [40000, 40001, 40002];
    let used_ports = HashSet::new();
    let allocated_ports = HashSet::from([ports[0], ports[1]]);

    let port = find_available_port_fast(
        ports[0]..=ports[2],
        Protocol::Tcp,
        &used_ports,
        &allocated_ports,
        &all_free,
    );

    assert_eq!(port, Some(ports[2]));
}

#[test]
fn fast_scan_falls_back_on_bind_failure() {
    let taken_port = 40000;
    let fallback_port = taken_port + 1;
    let used_ports = HashSet::new();
    let allocated_ports = HashSet::new();

    let port = find_available_port_fast(
        taken_port..=fallback_port,
        Protocol::Tcp,
        &used_ports,
        &allocated_ports,
        &|port: u16, _: Protocol| port != taken_port,
    );

    assert_eq!(port, Some(fallback_port));
}

#[test]
fn no_port_where_all_are_refused() {
    let refuse = |_: u16, _: Protocol| false;
    assert_eq!(find_available_port(1..=u16::MAX, Protocol::Udp, &refuse), None);
    assert_eq!(find_available_port(u16::MAX..=u16::MAX, Protocol::Udp, &all_free), Some(u16::MAX));
    assert_eq!(find_available_port(0..=0, Protocol::Udp, &all_free), Some(0));
    assert_eq!(find_available_port(5..=4, Protocol::Udp, &all_free), None);
}

#[test]
fn the_protocol_is_asked_for() {
    let tcp_only = |_: u16, protocol: Protocol| protocol == Protocol::Tcp;
    assert_eq!(find_available_port(7..=8, Protocol::Tcp, &tcp_only), Some(7));
    assert_eq!(find_available_port(7..=8, Protocol::Udp, &tcp_only), None);
}

#[test]
fn default_range_for_auto_assignment() {
    assert_eq!(auto_port_range(), 10000..=19999);
}

#[test]
fn used_ports_are_those_of_the_scan() {
    let listener = |port| PortProcess {
        port,
        pid: 1,
        command: "x".into(),
        protocol: Protocol::Tcp,
    };
    let found = Ok(vec![listener(80), listener(443), listener(80)]);
    assert_eq!(get_used_ports(&found), HashSet::from([80, 443]));
    assert_eq!(get_used_ports(&Err(ScanError::LsofNotRun)), HashSet::from(NO_PORTS));
}
