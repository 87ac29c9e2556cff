use listeners::macos::{
    get_all, get_process_by_port, CProcFdInfo, CSocketFdInfo, LibprocProcess, LibprocSnapshot,
    ProcName, ProcPath, ProcPid, ProtoListener, SocketFd,
};
use listeners::{Error, IpAddr, Ipv4Addr, Ipv6Addr, Protocol, SocketAddr};

fn v4_socket(ip_protocol: i32, octets: [u8; 4], port: u16) -> CSocketFdInfo {
    let mut laddr = [0u8; 16];
    laddr[12..].copy_from_slice(&octets);
    CSocketFdInfo {
        family: 2,
        ip_protocol,
        state: 1,
        lport: i32::from(port.to_be()),
        laddr,
    }
}

fn v6_socket(ip_protocol: i32, laddr: [u8; 16], port: u16) -> CSocketFdInfo {
    CSocketFdInfo {
        family: 30,
        ip_protocol,
        state: 0,
        lport: i32::from(port.to_be()),
        laddr,
    }
}

fn buffer(text: &[u8]) -> Vec<u8> {
    let mut b = text.to_vec();
    b.resize(64, 0);
    b
}

fn process(pid: i32, name: &[u8], path: &[u8], sockets: Vec<CSocketFdInfo>) -> LibprocProcess {
    LibprocProcess {
        pid: ProcPid::new(pid),
        name_buffer: buffer(name),
        name_len: name.len() as i32,
        path_buffer: buffer(path),
        path_len: path.len() as i32,
        sockets,
    }
}

#[test]
fn listing_of_pids_drops_the_empty_places() {
    let pids = ProcPid::get_all(&[0, 1, 312, 0, -4, 77, 0, 0]);
    assert_eq!(pids, vec![ProcPid::new(1), ProcPid::new(312), ProcPid::new(77)]);
    assert_eq!(ProcPid::get_all(&[]), vec![]);
    assert_eq!(ProcPid::new(312).as_c_int(), 312);
    assert_eq!(ProcPid::new(312).as_u_32(), Some(312));
    assert_eq!(ProcPid::new(0).as_u_32(), Some(0));
    assert_eq!(ProcPid::new(-1).as_u_32(), None);
}

#[test]
fn listing_of_descriptors_keeps_the_sockets() {
    let listing = [
        CProcFdInfo { proc_fd: 0, proc_fd_type: 1 },
        CProcFdInfo { proc_fd: 3, proc_fd_type: 2 },
        CProcFdInfo { proc_fd: 4, proc_fd_type: 6 },
        CProcFdInfo { proc_fd: 9, proc_fd_type: 2 },
    ];
    assert_eq!(listing[1].fd(), 3);
    assert_eq!(listing[1].fd_type(), 2);
    let fds = SocketFd::get_all_of_pid(&listing);
    assert_eq!(fds, vec![SocketFd::new(3), SocketFd::new(9)]);
    assert_eq!(fds[1].fd(), 9);
    assert_eq!(SocketFd::count_in(32), 4);
    assert_eq!(SocketFd::count_in(39), 4);
    assert_eq!(SocketFd::count_in(7), 0);
    assert_eq!(SocketFd::count_in(0), 0);
    assert_eq!(SocketFd::count_in(-8), 0);
}

#[test]
fn port_is_the_low_half_in_network_order() {
    // 8080 is 0x1f90: in network order the byte 0x1f comes first
    assert_eq!(CSocketFdInfo::get_local_port(0x0000_901f), 8080);
    // what the high half holds does not count
    assert_eq!(CSocketFdInfo::get_local_port(0x7fff_901f), 8080);
    assert_eq!(CSocketFdInfo::get_local_port(-1), 0xffff);
    assert_eq!(CSocketFdInfo::get_local_port(i32::MIN), 0);
    assert_eq!(CSocketFdInfo::get_local_port(i32::MIN + 0x0100), 1);
    assert_eq!(CSocketFdInfo::get_local_port(0), 0);
    assert_eq!(CSocketFdInfo::get_local_port(0x3500), 53);
}

#[test]
fn address_is_read_as_it_goes_over_the_wire() {
    let s = v4_socket(6, [127, 0, 0, 1], 8080);
    assert_eq!(
        s.to_tcp_listener(),
        Some(ProtoListener::new(IpAddr::V4(Ipv4Addr::new(127, 0, 0, 1)), 8080, Protocol::TCP))
    );
    let mut laddr = [0u8; 16];
    laddr[15] = 1;
    let s = v6_socket(17, laddr, 5600);
    let l = s.to_tcp_listener().unwrap();
    assert_eq!(
        l.socket_addr(),
        SocketAddr::new(IpAddr::V6(Ipv6Addr::new(0, 0, 0, 0, 0, 0, 0, 1)), 5600)
    );
    assert_eq!(l.protocol(), Protocol::UDP);
    let laddr = [0x20, 0x01, 0x0d, 0xb8, 0x85, 0xa3, 0, 0, 0, 0, 0x8a, 0x2e, 0x03, 0x70, 0x73, 0x34];
    assert_eq!(
        CSocketFdInfo::get_local_addr(30, &laddr),
        Some(IpAddr::V6(Ipv6Addr::new(0x2001, 0x0db8, 0x85a3, 0, 0, 0x8a2e, 0x0370, 0x7334)))
    );
    assert_eq!(
        CSocketFdInfo::get_local_addr(2, &laddr),
        Some(IpAddr::V4(Ipv4Addr::new(0x03, 0x70, 0x73, 0x34)))
    );
    assert_eq!(CSocketFdInfo::get_local_addr(1, &laddr), None);
}

#[test]
fn only_ip_sockets_under_tcp_or_udp_count() {
    assert_eq!(CSocketFdInfo::get_protocol(2, 6), Some(Protocol::TCP));
    assert_eq!(CSocketFdInfo::get_protocol(30, 6), Some(Protocol::TCP));
    assert_eq!(CSocketFdInfo::get_protocol(2, 17), Some(Protocol::UDP));
    assert_eq!(CSocketFdInfo::get_protocol(30, 17), Some(Protocol::UDP));
    assert_eq!(CSocketFdInfo::get_protocol(2, 1), None);
    assert_eq!(CSocketFdInfo::get_protocol(1, 6), None);
    assert_eq!(CSocketFdInfo::get_protocol(0, 0), None);
    let mut unix = v4_socket(6, [1, 2, 3, 4], 80);
    unix.family = 1;
    assert_eq!(unix.to_tcp_listener(), None);
    let icmp = v4_socket(1, [1, 2, 3, 4], 80);
    assert_eq!(icmp.to_tcp_listener(), None);
}

#[test]
fn sockets_count_in_every_state() {
    for state in [0, 1, 2, 4, 10] {
        let mut s = v4_socket(6, [10, 0, 0, 1], 443);
        s.state = state;
        assert!(s.to_tcp_listener().is_some());
    }
}

#[test]
fn name_and_path_come_out_of_their_buffers() {
    assert_eq!(ProcName::from_pid(&buffer(b"launchd"), 7), Some(ProcName::new("launchd".to_string())));
    assert_eq!(ProcName::from_pid(&buffer(b"launchd"), 3), Some(ProcName::new("lau".to_string())));
    assert_eq!(ProcName::from_pid(&buffer(b"launchd"), 0), None);
    assert_eq!(ProcName::from_pid(&buffer(b"launchd"), -1), None);
    assert_eq!(ProcName::from_pid(&buffer(b"launchd"), 65), None);
    assert_eq!(ProcName::from_pid(&buffer(b"caf\xc3\xa9"), 5), Some(ProcName::new("caf\u{e9}".to_string())));
    assert_eq!(ProcName::from_pid(&buffer(b"caf\xc3\xa9"), 4), None);
    assert_eq!(ProcName::from_pid(&buffer(b"\xff\xfe"), 2), None);
    assert_eq!(ProcPath::from_pid(&buffer(b"/sbin/launchd"), 13), ProcPath::new("/sbin/launchd".to_string()));
    assert_eq!(ProcPath::from_pid(&buffer(b"/sbin/launchd"), 0), ProcPath::new(String::new()));
    assert_eq!(ProcPath::from_pid(&buffer(b"\xff"), 1), ProcPath::new(String::new()));
}

#[test]
fn enumeration_lists_every_socket_under_its_process() {
    let snap = LibprocSnapshot {
        processes: Some(vec![
            process(455, b"rapportd", b"/usr/libexec/rapportd", vec![
                v4_socket(6, [0, 0, 0, 0], 51189),
                v6_socket(6, [0; 16], 51189),
                v4_socket(17, [0, 0, 0, 0], 0),
                v4_socket(17, [0, 0, 0, 0], 0),
            ]),
            process(-3, b"ghost", b"", vec![v4_socket(6, [1, 1, 1, 1], 1)]),
            process(500, b"", b"/no/name", vec![v4_socket(6, [1, 1, 1, 1], 2)]),
            process(2123, b"Telegram", b"", vec![v4_socket(6, [192, 168, 1, 102], 49659)]),
        ]),
    };
    let all = get_all(&snap).unwrap();
    assert_eq!(all.len(), 4);
    assert_eq!(all[0].to_string(), "PID: 455        Process name: rapportd                  Socket: 0.0.0.0:51189                  Protocol: TCP");
    assert_eq!(all[1].to_string(), "PID: 455        Process name: rapportd                  Socket: [::]:51189                     Protocol: TCP");
    assert_eq!(all[2].to_string(), "PID: 455        Process name: rapportd                  Socket: 0.0.0.0:0                      Protocol: UDP");
    assert_eq!(all[3].to_string(), "PID: 2123       Process name: Telegram                  Socket: 192.168.1.102:49659            Protocol: TCP");
    assert_eq!(all[0].process.path, "/usr/libexec/rapportd");
    assert_eq!(all[3].process.path, "");

    let p = get_process_by_port(&snap, 49659, Protocol::TCP).unwrap();
    assert_eq!((p.pid, p.name.as_str()), (2123, "Telegram"));
    assert_eq!(get_process_by_port(&snap, 49659, Protocol::UDP), Err(Error::NotFound));
    assert_eq!(get_process_by_port(&snap, 2, Protocol::TCP), Err(Error::NotFound));
    let p = get_process_by_port(&snap, 0, Protocol::UDP).unwrap();
    assert_eq!(p.pid, 455);
}

#[test]
fn enumeration_fails_without_a_listing_of_pids() {
    let snap = LibprocSnapshot { processes: None };
    assert_eq!(get_all(&snap), Err(Error::SourceUnavailable));
    assert_eq!(get_process_by_port(&snap, 1, Protocol::TCP), Err(Error::SourceUnavailable));
    let snap = LibprocSnapshot { processes: Some(vec![]) };
    assert_eq!(get_all(&snap), Ok(vec![]));
}
