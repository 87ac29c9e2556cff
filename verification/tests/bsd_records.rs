use listeners::bsd::helpers::{locate_process, search_path};
use listeners::bsd::openbsd::{CProcessInfo, ProcessInfo, ProcessSockets, SysctlSnapshot};
use listeners::bsd::{
    cast_unsigned, get_all, get_kvaddr_to_pid_table, get_process_by_port,
    get_process_name_path, socket_info_list, CSocketAddress, CSocketFile, CSocketInfo,
    KernelSnapshot, Numbers, ProcessNamePath, SocketInfo,
};
use listeners::engine::CorrelationKey;
use listeners::{Error, IpAddr, Ipv4Addr, Ipv6Addr, Protocol, SocketAddr};

const NUMBERS: Numbers = Numbers { af_inet: 2, ipproto_tcp: 6 };

fn v4(octets: [u8; 4], port: u16, protocol: i32, kvaddr: u64) -> CSocketInfo {
    let mut addr = [0u8; 16];
    addr[..4].copy_from_slice(&octets);
    CSocketInfo { address: CSocketAddress { addr, family: 2 }, kvaddr, protocol, port }
}

fn v6(addr: [u8; 16], port: u16, protocol: i32, kvaddr: u64) -> CSocketInfo {
    CSocketInfo { address: CSocketAddress { addr, family: 28 }, kvaddr, protocol, port }
}

fn resolved(pid: i32, name: Option<&str>, path: Option<&str>) -> ProcessNamePath {
    ProcessNamePath { pid, name: name.map(str::to_string), path: path.map(str::to_string) }
}

#[test]
fn numbers_of_the_target_are_those_of_libc() {
    assert_eq!(Numbers::of_target(), NUMBERS);
}

#[test]
fn record_of_a_socket_is_read_in_wire_order() {
    let s = v4([127, 0, 0, 1], 8080, 6, 0xffff_f800_1234_5678).to_socket_info(&NUMBERS);
    assert_eq!(
        s,
        SocketInfo {
            address: SocketAddr::new(IpAddr::V4(Ipv4Addr::new(127, 0, 0, 1)), 8080),
            protocol: Protocol::TCP,
            kvaddr: 0xffff_f800_1234_5678,
        }
    );
    let mut loopback = [0u8; 16];
    loopback[15] = 1;
    let s = v6(loopback, 5600, 17, 1).to_socket_info(&NUMBERS);
    assert_eq!(s.address, SocketAddr::new(IpAddr::V6(Ipv6Addr::new(0, 0, 0, 0, 0, 0, 0, 1)), 5600));
    assert_eq!(s.protocol, Protocol::UDP);
    let addr = [0x20, 0x01, 0x0d, 0xb8, 0x85, 0xa3, 0, 0, 0, 0, 0x8a, 0x2e, 0x03, 0x70, 0x73, 0x34];
    let s = v6(addr, 1, 6, 1).to_socket_info(&NUMBERS);
    assert_eq!(
        s.address.ip(),
        IpAddr::V6(Ipv6Addr::new(0x2001, 0x0db8, 0x85a3, 0, 0, 0x8a2e, 0x0370, 0x7334))
    );
    // every protocol but TCP counts as UDP
    assert_eq!(v4([1, 1, 1, 1], 1, 0, 1).to_socket_info(&NUMBERS).protocol, Protocol::UDP);
    // the numbers decide: under other numbers the same record reads otherwise
    let other = Numbers { af_inet: 28, ipproto_tcp: 17 };
    let s = v6(addr, 1, 6, 1).to_socket_info(&other);
    assert_eq!(s.address.ip(), IpAddr::V4(Ipv4Addr::new(0x20, 0x01, 0x0d, 0xb8)));
    assert_eq!(s.protocol, Protocol::UDP);
}

#[test]
fn list_of_records_keeps_its_order() {
    let list = vec![v4([1, 1, 1, 1], 1, 6, 10), v4([2, 2, 2, 2], 2, 17, 20), v4([3, 3, 3, 3], 3, 6, 30)];
    let sockets = socket_info_list(&list, &NUMBERS);
    assert_eq!(sockets.len(), 3);
    assert_eq!(sockets[0].kvaddr, 10);
    assert_eq!(sockets[1].address.port(), 2);
    assert_eq!(sockets[2].address.ip(), IpAddr::V4(Ipv4Addr::new(3, 3, 3, 3)));
    assert_eq!(socket_info_list(&vec![], &NUMBERS), vec![]);
}

#[test]
fn later_entry_for_a_socket_replaces_the_earlier() {
    let files = vec![
        CSocketFile { kvaddr: 10, pid: 100 },
        CSocketFile { kvaddr: 20, pid: 200 },
        CSocketFile { kvaddr: 10, pid: 300 },
    ];
    let map = get_kvaddr_to_pid_table(&files);
    assert_eq!(map.owner_of(&CorrelationKey::KvAddr(10)), Some(300));
    assert_eq!(map.owner_of(&CorrelationKey::KvAddr(20)), Some(200));
    assert_eq!(map.owner_of(&CorrelationKey::KvAddr(30)), None);
    assert_eq!(map.owner_of(&CorrelationKey::Inode(10)), None);
    assert_eq!(map.owner_of(&CorrelationKey::Pid(30)), Some(30));
}

#[test]
fn pid_is_cast_bit_for_bit() {
    assert_eq!(cast_unsigned(0), 0);
    assert_eq!(cast_unsigned(i32::MAX), 0x7fff_ffff);
    assert_eq!(cast_unsigned(-1), u32::MAX);
    assert_eq!(cast_unsigned(i32::MIN), 0x8000_0000);
}

#[test]
fn process_without_a_name_does_not_resolve() {
    assert_eq!(
        get_process_name_path(Some("sshd".to_string()), Some("/usr/sbin/sshd".to_string())),
        Some(("sshd".to_string(), "/usr/sbin/sshd".to_string()))
    );
    assert_eq!(
        get_process_name_path(Some("sshd".to_string()), None),
        Some(("sshd".to_string(), String::new()))
    );
    assert_eq!(get_process_name_path(None, Some("/usr/sbin/sshd".to_string())), None);
    assert_eq!(get_process_name_path(None, None), None);
}

fn kernel_snapshot() -> KernelSnapshot {
    KernelSnapshot {
        numbers: NUMBERS,
        tcp: Some(vec![v4([0, 0, 0, 0], 22, 6, 0xa0), v4([127, 0, 0, 1], 8080, 6, 0xa1)]),
        tcp6: Some(vec![v6([0; 16], 22, 6, 0xa2)]),
        udp: Some(vec![v4([0, 0, 0, 0], 8080, 17, 0xb0), v4([0, 0, 0, 0], 514, 17, 0xb1)]),
        udp6: Some(vec![v6([0; 16], 123, 17, 0xb2)]),
        files: Some(vec![
            CSocketFile { kvaddr: 0xa0, pid: 700 },
            CSocketFile { kvaddr: 0xa1, pid: 800 },
            CSocketFile { kvaddr: 0xa2, pid: 700 },
            CSocketFile { kvaddr: 0xb0, pid: 900 },
            CSocketFile { kvaddr: 0xb2, pid: 950 },
        ]),
        processes: vec![
            resolved(700, Some("sshd"), Some("/usr/sbin/sshd")),
            resolved(800, Some("web"), None),
            resolved(900, Some("dns"), Some("/usr/local/bin/dns")),
            resolved(950, None, Some("/nameless")),
        ],
    }
}

#[test]
fn bsd_enumeration_joins_sockets_to_processes() {
    let all = get_all(&kernel_snapshot()).unwrap();
    let lines: Vec<String> = all.iter().map(|l| l.to_string()).collect();
    assert_eq!(
        lines,
        vec![
            "PID: 700        Process name: sshd                      Socket: 0.0.0.0:22                     Protocol: TCP",
            "PID: 800        Process name: web                       Socket: 127.0.0.1:8080                 Protocol: TCP",
            "PID: 700        Process name: sshd                      Socket: [::]:22                        Protocol: TCP",
            "PID: 900        Process name: dns                       Socket: 0.0.0.0:8080                   Protocol: UDP",
        ]
    );
    assert_eq!(all[1].process.path, "");
    assert_eq!(all[3].process.path, "/usr/local/bin/dns");
}

#[test]
fn lookup_reads_the_lists_of_its_protocol() {
    let mut snap = kernel_snapshot();
    assert_eq!(get_process_by_port(&snap, 8080, Protocol::TCP).unwrap().name, "web");
    assert_eq!(get_process_by_port(&snap, 8080, Protocol::UDP).unwrap().name, "dns");
    assert_eq!(get_process_by_port(&snap, 22, Protocol::TCP).unwrap().pid, 700);
    // a socket without an owner, one whose owner has no name, and no socket
    assert_eq!(get_process_by_port(&snap, 514, Protocol::UDP), Err(Error::NotFound));
    assert_eq!(get_process_by_port(&snap, 123, Protocol::UDP), Err(Error::NotFound));
    assert_eq!(get_process_by_port(&snap, 1, Protocol::TCP), Err(Error::NotFound));
    snap.udp = None;
    assert_eq!(get_all(&snap), Err(Error::SourceUnavailable));
    assert_eq!(get_process_by_port(&snap, 8080, Protocol::UDP), Err(Error::SourceUnavailable));
    assert_eq!(get_process_by_port(&snap, 8080, Protocol::TCP).unwrap().name, "web");
    snap.files = None;
    assert_eq!(get_process_by_port(&snap, 8080, Protocol::TCP), Err(Error::SourceUnavailable));
}

#[test]
fn openbsd_process_name_ends_at_the_zero_byte() {
    let p = ProcessInfo::from(&CProcessInfo { name: b"sshd\0garbage\0".to_vec(), pid: 42 });
    assert_eq!(p, ProcessInfo { pid: 42, name: "sshd".to_string() });
    let p = ProcessInfo::from(&CProcessInfo { name: b"unterminated".to_vec(), pid: 1 });
    assert_eq!(p.name, "unterminated");
    let p = ProcessInfo::from(&CProcessInfo { name: b"caf\xe9\0".to_vec(), pid: 1 });
    assert_eq!(p.name, "caf\u{fffd}");
    let p = ProcessInfo::from(&CProcessInfo { name: b"\0".to_vec(), pid: 1 });
    assert_eq!(p.name, "");
}

fn with_sockets(pid: i32, name: &str, path: &str, sockets: Option<Vec<CSocketInfo>>) -> ProcessSockets {
    ProcessSockets {
        process: ProcessInfo { pid, name: name.to_string() },
        path: path.to_string(),
        sockets,
    }
}

#[test]
fn openbsd_enumeration_lists_the_sockets_of_each_process() {
    let snap = SysctlSnapshot {
        numbers: NUMBERS,
        processes: Some(vec![
            with_sockets(1, "init", "/sbin/init", Some(vec![])),
            with_sockets(300, "sshd", "/usr/sbin/sshd", Some(vec![v4([0, 0, 0, 0], 22, 6, 0), v6([0; 16], 22, 6, 0)])),
            with_sockets(301, "ntpd", "", Some(vec![v4([0, 0, 0, 0], 123, 17, 0), v4([0, 0, 0, 0], 22, 6, 0)])),
        ]),
    };
    let all = listeners::bsd::openbsd::get_all(&snap).unwrap();
    let lines: Vec<String> = all.iter().map(|l| l.to_string()).collect();
    assert_eq!(
        lines,
        vec![
            "PID: 300        Process name: sshd                      Socket: 0.0.0.0:22                     Protocol: TCP",
            "PID: 300        Process name: sshd                      Socket: [::]:22                        Protocol: TCP",
            "PID: 301        Process name: ntpd                      Socket: 0.0.0.0:123                    Protocol: UDP",
            "PID: 301        Process name: ntpd                      Socket: 0.0.0.0:22                     Protocol: TCP",
        ]
    );
    assert_eq!(all[2].process.path, "");
    let p = listeners::bsd::openbsd::get_process_by_port(&snap, 22, Protocol::TCP).unwrap();
    assert_eq!((p.pid, p.name.as_str(), p.path.as_str()), (300, "sshd", "/usr/sbin/sshd"));
    assert_eq!(listeners::bsd::openbsd::get_process_by_port(&snap, 123, Protocol::UDP).unwrap().pid, 301);
    assert_eq!(listeners::bsd::openbsd::get_process_by_port(&snap, 123, Protocol::TCP), Err(Error::NotFound));
}

#[test]
fn openbsd_enumeration_fails_if_sockets_cannot_be_fetched() {
    let snap = SysctlSnapshot {
        numbers: NUMBERS,
        processes: Some(vec![
            with_sockets(300, "sshd", "", Some(vec![v4([0, 0, 0, 0], 22, 6, 0)])),
            with_sockets(301, "ntpd", "", None),
        ]),
    };
    assert_eq!(listeners::bsd::openbsd::get_all(&snap), Err(Error::SourceUnavailable));
    assert_eq!(listeners::bsd::openbsd::get_process_by_port(&snap, 22, Protocol::TCP), Err(Error::SourceUnavailable));
    let snap = SysctlSnapshot { numbers: NUMBERS, processes: None };
    assert_eq!(listeners::bsd::openbsd::get_all(&snap), Err(Error::SourceUnavailable));
}

#[test]
fn search_path_names_a_candidate_for_each_entry() {
    let text = |v: Vec<Vec<u8>>| -> Vec<String> {
        v.into_iter().map(|b| String::from_utf8(b).unwrap()).collect()
    };
    assert_eq!(
        text(search_path(b"sshd", b"/usr/bin:/usr/sbin/::/opt/bin///:/:bin")),
        vec!["/usr/bin/sshd", "/usr/sbin/sshd", "./sshd", "/opt/bin/sshd", "sshd", "bin/sshd"]
    );
    assert_eq!(text(search_path(b"sshd", b"")), vec!["./sshd"]);
    assert_eq!(text(search_path(b"sshd", b":")), vec!["./sshd", "./sshd"]);
    assert_eq!(text(search_path(b"/abs/sshd", b"/usr/bin:/bin")), vec!["/abs/sshd", "/abs/sshd"]);
    assert_eq!(text(search_path(b"", b"/usr/bin")), vec!["/usr/bin/"]);
}

#[test]
fn locate_process_takes_the_first_executable() {
    let candidates = search_path(b"sshd", b"/usr/bin:/usr/sbin:/opt/bin");
    assert_eq!(locate_process(&candidates, &vec![false, true, true]), Some(b"/usr/sbin/sshd".to_vec()));
    assert_eq!(locate_process(&candidates, &vec![true, false, false]), Some(b"/usr/bin/sshd".to_vec()));
    assert_eq!(locate_process(&candidates, &vec![false, false, false]), None);
    assert_eq!(locate_process(&candidates, &vec![false]), None);
    assert_eq!(locate_process(&candidates, &vec![]), None);
    assert_eq!(locate_process(&vec![], &vec![true]), None);
}
