use listeners::windows::{
    get_all, get_process_by_port, get_proto_listener, get_rows_count, next_fetch_step, pname, ppath,
    FetchStep, ImagePath, IpHelperSnapshot, ProcessEntry, ProtoListener, TableKind, Tcp6Row,
    Tcp6Table, ERROR_INSUFFICIENT_BUFFER, NO_ERROR,
};
use listeners::{Error, IpAddr, Ipv4Addr, Ipv6Addr, Protocol};

fn table(rows: &[Vec<u8>]) -> Vec<u8> {
    let mut t = (rows.len() as u32).to_le_bytes().to_vec();
    for r in rows {
        t.extend_from_slice(r);
    }
    t
}

fn port_field(port: u16, garbage: u16) -> [u8; 4] {
    let p = port.to_be_bytes();
    let g = garbage.to_le_bytes();
    [p[0], p[1], g[0], g[1]]
}

fn tcp_row(addr: [u8; 4], port: u16, pid: u32) -> Vec<u8> {
    let mut r = Vec::new();
    r.extend_from_slice(&2u32.to_le_bytes());
    r.extend_from_slice(&addr);
    r.extend_from_slice(&port_field(port, 0));
    r.extend_from_slice(&[0; 8]);
    r.extend_from_slice(&pid.to_le_bytes());
    r
}

fn tcp6_row(addr: [u8; 16], port: u16, pid: u32) -> Vec<u8> {
    let mut r = Vec::new();
    r.extend_from_slice(&addr);
    r.extend_from_slice(&7u32.to_le_bytes());
    r.extend_from_slice(&port_field(port, 0));
    r.extend_from_slice(&[0; 24]);
    r.extend_from_slice(&5u32.to_le_bytes());
    r.extend_from_slice(&pid.to_le_bytes());
    r
}

fn udp_row(addr: [u8; 4], port: u16, pid: u32) -> Vec<u8> {
    let mut r = Vec::new();
    r.extend_from_slice(&addr);
    r.extend_from_slice(&port_field(port, 0xbeef));
    r.extend_from_slice(&pid.to_le_bytes());
    r
}

fn udp6_row(addr: [u8; 16], port: u16, pid: u32) -> Vec<u8> {
    let mut r = Vec::new();
    r.extend_from_slice(&addr);
    r.extend_from_slice(&0u32.to_le_bytes());
    r.extend_from_slice(&port_field(port, 0));
    r.extend_from_slice(&pid.to_le_bytes());
    r
}

fn entry(pid: u32, name: &[u8]) -> ProcessEntry {
    let mut exe_file = name.to_vec();
    exe_file.resize(260, 0);
    ProcessEntry { process_id: pid, exe_file }
}

fn loopback6() -> [u8; 16] {
    let mut a = [0u8; 16];
    a[15] = 1;
    a
}

#[test]
fn fetching_a_table_retries_while_the_buffer_is_too_small() {
    assert_eq!(next_fetch_step(0, ERROR_INSUFFICIENT_BUFFER), FetchStep::Retry);
    assert_eq!(next_fetch_step(1, ERROR_INSUFFICIENT_BUFFER), FetchStep::Retry);
    assert_eq!(next_fetch_step(100, ERROR_INSUFFICIENT_BUFFER), FetchStep::Retry);
    assert_eq!(next_fetch_step(101, ERROR_INSUFFICIENT_BUFFER), FetchStep::Failed);
    assert_eq!(next_fetch_step(0, NO_ERROR), FetchStep::Done);
    assert_eq!(next_fetch_step(100, NO_ERROR), FetchStep::Done);
    assert_eq!(next_fetch_step(101, NO_ERROR), FetchStep::Failed);
    assert_eq!(next_fetch_step(0, 5), FetchStep::Failed);
    assert_eq!(next_fetch_step(3, 87), FetchStep::Failed);
}

#[test]
fn fetching_a_table_ends_after_a_hundred_and_one_calls() {
    let mut attempts = 0;
    let mut calls = 0;
    loop {
        match next_fetch_step(attempts, ERROR_INSUFFICIENT_BUFFER) {
            FetchStep::Retry => {
                attempts += 1;
                calls += 1;
            }
            step => {
                assert_eq!(step, FetchStep::Failed);
                break;
            }
        }
    }
    assert_eq!(calls, 101);
}

#[test]
fn rows_of_each_table_are_read_at_their_places() {
    let t = table(&[tcp_row([127, 0, 0, 1], 8080, 4), tcp_row([192, 168, 1, 20], 445, 1234)]);
    assert_eq!(get_rows_count(&t), 2);
    assert_eq!(
        get_proto_listener(&t, TableKind::Tcp, 1),
        Some(ProtoListener {
            local_addr: IpAddr::V4(Ipv4Addr::new(192, 168, 1, 20)),
            local_port: 445,
            pid: 1234,
            protocol: Protocol::TCP,
        })
    );
    assert_eq!(get_proto_listener(&t, TableKind::Tcp, 2), None);

    let t = table(&[tcp6_row(loopback6(), 5600, 0x0102_0304)]);
    assert_eq!(
        get_proto_listener(&t, TableKind::Tcp6, 0),
        Some(ProtoListener {
            local_addr: IpAddr::V6(Ipv6Addr::new(0, 0, 0, 0, 0, 0, 0, 1)),
            local_port: 5600,
            pid: 0x0102_0304,
            protocol: Protocol::TCP,
        })
    );

    let t = table(&[udp_row([0, 0, 0, 0], 53, 900), udp_row([10, 1, 2, 3], 1500, 901)]);
    assert_eq!(
        get_proto_listener(&t, TableKind::Udp, 1),
        Some(ProtoListener {
            local_addr: IpAddr::V4(Ipv4Addr::new(10, 1, 2, 3)),
            local_port: 1500,
            pid: 901,
            protocol: Protocol::UDP,
        })
    );

    let addr = [0xfe, 0x80, 0, 0, 0, 0, 0, 0, 0, 0x1c, 0xab, 0xcd, 0, 0x0f, 0x10, 0];
    let t = table(&[udp6_row(addr, 65535, 7)]);
    assert_eq!(
        get_proto_listener(&t, TableKind::Udp6, 0),
        Some(ProtoListener {
            local_addr: IpAddr::V6(Ipv6Addr::new(0xfe80, 0, 0, 0, 0x1c, 0xabcd, 0xf, 0x1000)),
            local_port: 65535,
            pid: 7,
            protocol: Protocol::UDP,
        })
    );
}

#[test]
fn rows_that_the_buffer_does_not_hold_are_not_read() {
    assert_eq!(get_rows_count(&[]), 0);
    assert_eq!(get_rows_count(&[1, 0, 0]), 0);
    assert_eq!(get_proto_listener(&[], TableKind::Tcp, 0), None);
    let mut t = table(&[udp_row([1, 2, 3, 4], 1, 1), udp_row([5, 6, 7, 8], 2, 2)]);
    t.pop();
    assert!(get_proto_listener(&t, TableKind::Udp, 0).is_some());
    assert_eq!(get_proto_listener(&t, TableKind::Udp, 1), None);
    // a count that promises more than the buffer holds
    let mut t = table(&[udp_row([1, 2, 3, 4], 1, 1)]);
    t[0..4].copy_from_slice(&u32::MAX.to_le_bytes());
    assert!(get_proto_listener(&t, TableKind::Udp, 0).is_some());
    assert_eq!(get_proto_listener(&t, TableKind::Udp, 1), None);
    assert_eq!(get_proto_listener(&t, TableKind::Udp, usize::MAX), None);
}

#[test]
fn name_is_that_of_the_first_process_with_the_pid() {
    let processes = vec![entry(0, b"[System Process]"), entry(4, b"System"), entry(900, b"svchost.exe"), entry(900, b"other.exe")];
    assert_eq!(pname(&processes, 4), Some("System".to_string()));
    assert_eq!(pname(&processes, 0), Some("[System Process]".to_string()));
    assert_eq!(pname(&processes, 900), Some("svchost.exe".to_string()));
    assert_eq!(pname(&processes, 5), None);
    assert_eq!(pname(&[].to_vec(), 4), None);
    // a name that no zero byte ends, and one that is no text
    let unterminated = ProcessEntry { process_id: 1, exe_file: b"abc".to_vec() };
    assert_eq!(pname(&vec![unterminated], 1), None);
    assert_eq!(pname(&vec![entry(2, b"\xff.exe")], 2), None);
    assert_eq!(pname(&vec![entry(3, b"")], 3), Some(String::new()));
}

#[test]
fn path_is_that_of_the_first_answer_for_the_pid() {
    let paths = vec![
        ImagePath { pid: 4, path: String::new() },
        ImagePath { pid: 900, path: "C:\\Windows\\System32\\svchost.exe".to_string() },
        ImagePath { pid: 900, path: "C:\\other.exe".to_string() },
    ];
    assert_eq!(ppath(&paths, 900), "C:\\Windows\\System32\\svchost.exe");
    assert_eq!(ppath(&paths, 4), "");
    assert_eq!(ppath(&paths, 5), "");
}

fn snapshot() -> IpHelperSnapshot {
    IpHelperSnapshot {
        tcp: Some(table(&[tcp_row([0, 0, 0, 0], 445, 4), tcp_row([127, 0, 0, 1], 8080, 900), tcp_row([127, 0, 0, 1], 9, 77)])),
        tcp6: Some(table(&[tcp6_row(loopback6(), 8080, 900)])),
        udp: Some(table(&[udp_row([0, 0, 0, 0], 8080, 901), udp_row([0, 0, 0, 0], 1, 0)])),
        udp6: Some(table(&[])),
        processes: vec![entry(0, b"[System Process]"), entry(4, b"System"), entry(900, b"svchost.exe"), entry(901, b"dns.exe")],
        image_paths: vec![ImagePath { pid: 900, path: "C:\\Windows\\System32\\svchost.exe".to_string() }],
    }
}

#[test]
fn windows_enumeration_joins_rows_to_processes() {
    let all = get_all(&snapshot()).unwrap();
    let lines: Vec<String> = all.iter().map(|l| l.to_string()).collect();
    assert_eq!(
        lines,
        vec![
            "PID: 4          Process name: System                    Socket: 0.0.0.0:445                    Protocol: TCP",
            "PID: 900        Process name: svchost.exe               Socket: 127.0.0.1:8080                 Protocol: TCP",
            "PID: 900        Process name: svchost.exe               Socket: [::1]:8080                     Protocol: TCP",
            "PID: 901        Process name: dns.exe                   Socket: 0.0.0.0:8080                   Protocol: UDP",
        ]
    );
    assert_eq!(all[0].process.path, "");
    assert_eq!(all[1].process.path, "C:\\Windows\\System32\\svchost.exe");
}

#[test]
fn lookup_tells_the_protocols_apart() {
    let snap = snapshot();
    assert_eq!(get_process_by_port(&snap, 8080, Protocol::TCP).unwrap().pid, 900);
    assert_eq!(get_process_by_port(&snap, 8080, Protocol::UDP).unwrap().pid, 901);
    assert_eq!(get_process_by_port(&snap, 445, Protocol::UDP), Err(Error::NotFound));
    // a socket of a process that is not listed, and one of PID 0
    assert_eq!(get_process_by_port(&snap, 9, Protocol::TCP), Err(Error::NotFound));
    assert_eq!(get_process_by_port(&snap, 1, Protocol::UDP), Err(Error::NotFound));
}

#[test]
fn windows_enumeration_fails_without_a_table() {
    let mut snap = snapshot();
    snap.udp6 = None;
    assert_eq!(get_all(&snap), Err(Error::SourceUnavailable));
    assert_eq!(get_process_by_port(&snap, 8080, Protocol::TCP), Err(Error::SourceUnavailable));
}

#[test]
fn tcp6_table_is_read_field_by_field() {
    let addr = [0xfe, 0x80, 0, 0, 0, 0, 0, 0, 0, 0x1c, 0xab, 0xcd, 0, 0x0f, 0x10, 0];
    let mut first = tcp6_row(addr, 443, 1234);
    first[24..40].copy_from_slice(&loopback6());
    first[40..44].copy_from_slice(&9u32.to_le_bytes());
    first[44..48].copy_from_slice(&port_field(80, 0));
    let t = table(&[first, tcp6_row(loopback6(), 5600, 77)]);
    let decoded = Tcp6Table::decode(&t);
    assert_eq!(decoded.rows_count, 2);
    assert_eq!(
        decoded.rows,
        vec![
            Tcp6Row {
                local_addr: addr,
                local_scope_id: 7,
                local_port: 0x0000_bb01,
                remote_addr: loopback6(),
                remote_scope_id: 9,
                remote_port: 0x0000_5000,
                state: 5,
                owning_pid: 1234,
            },
            Tcp6Row {
                local_addr: loopback6(),
                local_scope_id: 7,
                local_port: 0x0000_e015,
                remote_addr: [0; 16],
                remote_scope_id: 0,
                remote_port: 0,
                state: 5,
                owning_pid: 77,
            },
        ]
    );
    for (i, row) in decoded.rows.iter().enumerate() {
        assert_eq!(Some(row.to_proto_listener()), get_proto_listener(&t, TableKind::Tcp6, i));
        assert_eq!(Tcp6Table::get_row(&t, i), Some(*row));
    }
    assert_eq!(decoded.rows[0].to_proto_listener().local_port, 443);
    assert_eq!(Tcp6Table::get_row(&t, 2), None);
}

#[test]
fn tcp6_table_stops_where_the_buffer_ends() {
    let mut t = table(&[tcp6_row(loopback6(), 1, 1), tcp6_row(loopback6(), 2, 2)]);
    t.truncate(4 + 56 + 55);
    let decoded = Tcp6Table::decode(&t);
    assert_eq!(decoded.rows_count, 2);
    assert_eq!(decoded.rows.len(), 1);
    assert_eq!(decoded.rows[0].owning_pid, 1);
    let decoded = Tcp6Table::decode(&[]);
    assert_eq!(decoded.rows_count, 0);
    assert!(decoded.rows.is_empty());
}
