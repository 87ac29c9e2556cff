use listeners::linux::helpers::{get_socket_inode, ProcEntry};
use listeners::linux::proc_info::{is_number_entry, ProcInfo};
use listeners::linux::proto_listener::ProtoListener;
use listeners::linux::{get_all, get_process_by_port, ProcfsSnapshot};
use listeners::{Error, IpAddr, Ipv4Addr, Ipv6Addr, Protocol, SocketAddr};

const TCP_HEADER: &str = "  sl  local_address rem_address   st tx_queue rx_queue tr tm->when retrnsmt   uid  timeout inode\n";

fn tcp_row(local: &str, inode: u64) -> String {
    format!(
        "   0: {local} 00000000:0000 0A 00000000:00000000 00:00000000 00000000  1000        0 {inode} 1 0000000000000000 100 0 0 10 0"
    )
}

fn v6_row(local: &str, inode: u64) -> String {
    format!(
        "   1: {local} 00000000000000000000000000000000:0000 0A 00000000:00000000 00:00000000 00000000     0        0 {inode} 1 0000000000000000 100 0 0 10 0"
    )
}

fn entry(stat: &str, exe: &str, links: &[&str]) -> ProcEntry {
    ProcEntry {
        stat: stat.as_bytes().to_vec(),
        exe: exe.to_string(),
        fd_links: links.iter().map(|l| l.as_bytes().to_vec()).collect(),
    }
}

fn snapshot(processes: Vec<ProcEntry>, tcp: &str, tcp6: &str, udp: &str, udp6: &str) -> ProcfsSnapshot {
    ProcfsSnapshot {
        little_endian: true,
        processes: Some(processes),
        tcp: Some(tcp.as_bytes().to_vec()),
        tcp6: Some(tcp6.as_bytes().to_vec()),
        udp: Some(udp.as_bytes().to_vec()),
        udp6: Some(udp6.as_bytes().to_vec()),
    }
}

#[test]
fn v4_row_on_little_endian_host() {
    let row = tcp_row("0100007F:1F90", 12345);
    let l = ProtoListener::from_protocol_table_entry(row.as_bytes(), Protocol::TCP, true).unwrap();
    assert_eq!(l.local_addr(), SocketAddr::new(IpAddr::V4(Ipv4Addr::new(127, 0, 0, 1)), 8080));
    assert_eq!(l.inode(), 12345);
    assert_eq!(l.protocol(), Protocol::TCP);
}

#[test]
fn v4_row_on_big_endian_host() {
    let row = tcp_row("7F000001:1F90", 12345);
    let l = ProtoListener::from_protocol_table_entry(row.as_bytes(), Protocol::UDP, false).unwrap();
    assert_eq!(l.local_addr(), SocketAddr::new(IpAddr::V4(Ipv4Addr::new(127, 0, 0, 1)), 8080));
    assert_eq!(l.protocol(), Protocol::UDP);
}

#[test]
fn v4_row_keeps_port_zero() {
    let row = tcp_row("00000000:0000", 7);
    let l = ProtoListener::from_protocol_table_entry(row.as_bytes(), Protocol::UDP, true).unwrap();
    assert_eq!(l.local_addr(), SocketAddr::new(IpAddr::V4(Ipv4Addr::new(0, 0, 0, 0)), 0));
}

#[test]
fn v4_row_accepts_every_state() {
    let row = "   5: 0200A8C0:D431 0100A8C0:01BB 01 00000000:00000000 00:00000000 00000000  1000        0 99 1";
    let l = ProtoListener::from_protocol_table_entry(row.as_bytes(), Protocol::TCP, true).unwrap();
    assert_eq!(l.local_addr(), SocketAddr::new(IpAddr::V4(Ipv4Addr::new(192, 168, 0, 2)), 0xd431));
    assert_eq!(l.inode(), 99);
}

#[test]
fn v4_row_tolerates_interleaved_blanks() {
    let row = "\t 0:\t0100007F:0035   00000000:0000\t0A  0:0 00:0 0 0 0   \t 42  ";
    let l = ProtoListener::from_protocol_table_entry(row.as_bytes(), Protocol::TCP, true).unwrap();
    assert_eq!(l.local_addr(), SocketAddr::new(IpAddr::V4(Ipv4Addr::new(127, 0, 0, 1)), 53));
    assert_eq!(l.inode(), 42);
}

#[test]
fn v4_row_refuses_what_is_no_row() {
    let parse = |s: &str| ProtoListener::from_protocol_table_entry(s.as_bytes(), Protocol::TCP, true);
    assert_eq!(parse(TCP_HEADER), None);
    assert_eq!(parse(""), None);
    assert_eq!(parse("0: 0100007F:1F90 00000000:0000"), None);
    // a port that does not fit sixteen bits
    assert_eq!(parse(&tcp_row("0100007F:1F900", 1)), None);
    // no port
    assert_eq!(parse(&tcp_row("0100007F", 1)), None);
    // an inode that is no number
    assert_eq!(parse("0: 0100007F:1F90 0:0 0A 0:0 0:0 0 0 0 x12"), None);
    // too few fields for an inode
    assert_eq!(parse("0: 0100007F:1F90 0:0 0A 0:0 0:0 0 0 0"), None);
}

#[test]
fn v6_row_on_little_endian_host() {
    let row = v6_row("00000000000000000000000001000000:15E0", 23456);
    let l = ProtoListener::from_protocolv6_table_entry(row.as_bytes(), Protocol::TCP, true).unwrap();
    assert_eq!(
        l.local_addr(),
        SocketAddr::new(IpAddr::V6(Ipv6Addr::new(0, 0, 0, 0, 0, 0, 0, 1)), 5600)
    );
    assert_eq!(l.inode(), 23456);
}

#[test]
fn v6_row_reassembles_each_word() {
    // 2001:db8:85a3::8a2e:370:7334 as a little-endian kernel prints it
    let row = v6_row("B80D01200000A3852E8A000034737003:01BB", 1);
    let l = ProtoListener::from_protocolv6_table_entry(row.as_bytes(), Protocol::UDP, true).unwrap();
    assert_eq!(
        l.local_addr(),
        SocketAddr::new(
            IpAddr::V6(Ipv6Addr::new(0x2001, 0x0db8, 0x85a3, 0, 0, 0x8a2e, 0x0370, 0x7334)),
            443
        )
    );
    // and as a big-endian kernel prints it
    let row = v6_row("20010DB885A3000000008A2E03707334:01BB", 1);
    let l = ProtoListener::from_protocolv6_table_entry(row.as_bytes(), Protocol::UDP, false).unwrap();
    assert_eq!(
        l.local_addr(),
        SocketAddr::new(
            IpAddr::V6(Ipv6Addr::new(0x2001, 0x0db8, 0x85a3, 0, 0, 0x8a2e, 0x0370, 0x7334)),
            443
        )
    );
}

#[test]
fn v6_row_refuses_what_is_no_row() {
    let parse = |s: &str| ProtoListener::from_protocolv6_table_entry(s.as_bytes(), Protocol::TCP, true);
    // an odd number of digits
    assert_eq!(parse(&v6_row("0000000000000000000000000100000:15E0", 1)), None);
    // fewer than sixteen bytes
    assert_eq!(parse(&v6_row("000000000000000000000000010000:15E0", 1)), None);
    // no port
    assert_eq!(parse(&v6_row("00000000000000000000000001000000", 1)), None);
    // a port that does not fit sixteen bits
    assert_eq!(parse(&v6_row("00000000000000000000000001000000:15E00", 1)), None);
    assert_eq!(parse(TCP_HEADER), None);
}

#[test]
fn stat_name_is_between_first_and_last_parenthesis() {
    let info = ProcInfo::from_stat(b"4242 (tmux: server) S 1 4242 4242 0 -1\n", "/usr/bin/tmux".to_string()).unwrap();
    assert_eq!(info.pid(), 4242);
    assert_eq!(info.name(), "tmux: server");
    assert_eq!(info.path(), "/usr/bin/tmux");
    let info = ProcInfo::from_stat(b"17 (a) (b)) R 1 (x)", String::new()).unwrap();
    assert_eq!(info.pid(), 17);
    assert_eq!(info.name(), "a) (b)) R 1 (x");
    assert_eq!(info.path(), "");
}

#[test]
fn stat_that_says_nothing_is_refused() {
    assert_eq!(ProcInfo::from_stat(b"", String::new()), None);
    assert_eq!(ProcInfo::from_stat(b"12 name S", String::new()), None);
    assert_eq!(ProcInfo::from_stat(b"(name) S", String::new()), None);
    assert_eq!(ProcInfo::from_stat(b"12 )name( S", String::new()), None);
    assert_eq!(ProcInfo::from_stat(b"x12 (name) S", String::new()), None);
    assert_eq!(ProcInfo::from_stat(b"4294967296 (name) S", String::new()), None);
    let max = ProcInfo::from_stat(b"4294967295 (name) S", String::new()).unwrap();
    assert_eq!(max.pid(), u32::MAX);
}

#[test]
fn fd_link_to_a_socket_names_its_inode() {
    assert_eq!(get_socket_inode(b"socket:[12345]"), Some(12345));
    assert_eq!(get_socket_inode(b"socket:[18446744073709551615]"), Some(u64::MAX));
    assert_eq!(get_socket_inode(b"socket:[12345]:more"), Some(12345));
    assert_eq!(get_socket_inode(b"socket:[18446744073709551616]"), None);
    assert_eq!(get_socket_inode(b"pipe:[12345]"), None);
    assert_eq!(get_socket_inode(b"/dev/null"), None);
    assert_eq!(get_socket_inode(b"/tmp/socket:[1]"), None);
    assert_eq!(get_socket_inode(b"anon_inode:[eventfd]"), None);
    assert_eq!(get_socket_inode(b"socket:12345"), None);
    assert_eq!(get_socket_inode(b"socket:[12345"), None);
    assert_eq!(get_socket_inode(b"socket:[]"), None);
    assert_eq!(get_socket_inode(b"socket:["), None);
    assert_eq!(get_socket_inode(b"socket"), None);
    assert_eq!(get_socket_inode(b""), None);
}

#[test]
fn directory_names_that_are_numbers() {
    assert!(is_number_entry(b"1"));
    assert!(is_number_entry(b"2147483647"));
    assert!(is_number_entry(b"-2147483648"));
    assert!(is_number_entry(b"+7"));
    assert!(!is_number_entry(b"2147483648"));
    assert!(!is_number_entry(b"-2147483649"));
    assert!(!is_number_entry(b"self"));
    assert!(!is_number_entry(b""));
    assert!(!is_number_entry(b"-"));
    assert!(!is_number_entry(b"12a"));
}

#[test]
fn enumeration_joins_rows_to_processes() {
    let tcp = format!("{TCP_HEADER}{}\n{}\n", tcp_row("0100007F:1F90", 100), tcp_row("00000000:0016", 200));
    let tcp6 = format!("{TCP_HEADER}{}\n", v6_row("00000000000000000000000001000000:15E0", 300));
    let udp = format!("{TCP_HEADER}{}\n", tcp_row("0100007F:1F90", 400));
    let snap = snapshot(
        vec![
            entry("10 (web) S 1", "/usr/bin/web", &["/dev/null", "socket:[100]", "socket:[400]"]),
            entry("20 (sshd) S 1", "", &["socket:[200]", "pipe:[5]"]),
            entry("30 (six) S 1", "/opt/six", &["socket:[300]"]),
        ],
        &tcp,
        &tcp6,
        &udp,
        TCP_HEADER,
    );
    let all = get_all(&snap).unwrap();
    assert_eq!(all.len(), 4);
    assert_eq!(all[0].process.pid, 10);
    assert_eq!(all[0].process.name, "web");
    assert_eq!(all[0].process.path, "/usr/bin/web");
    assert_eq!(all[0].socket, SocketAddr::new(IpAddr::V4(Ipv4Addr::new(127, 0, 0, 1)), 8080));
    assert_eq!(all[0].protocol, Protocol::TCP);
    assert_eq!(all[1].process.pid, 20);
    assert_eq!(all[1].process.path, "");
    assert_eq!(all[1].socket.port(), 22);
    assert_eq!(all[2].process.name, "six");
    assert_eq!(all[2].socket, SocketAddr::new(IpAddr::V6(Ipv6Addr::new(0, 0, 0, 0, 0, 0, 0, 1)), 5600));
    assert_eq!(all[3].process.pid, 10);
    assert_eq!(all[3].protocol, Protocol::UDP);
    assert_eq!(all[3].socket.port(), 8080);
}

#[test]
fn enumeration_drops_what_has_no_owner_and_what_repeats() {
    let tcp = format!(
        "{TCP_HEADER}{}\n{}\n{}\n{}\n",
        tcp_row("0100007F:1F90", 100),
        tcp_row("0100007F:1F90", 101),
        tcp_row("0100007F:0050", 0),
        tcp_row("0100007F:0051", 999),
    );
    let snap = snapshot(
        vec![
            entry("10 (web) S 1", "/usr/bin/web", &["socket:[100]", "socket:[101]"]),
            entry("broken", "/bin/broken", &["socket:[999]"]),
        ],
        &tcp,
        "",
        "",
        "",
    );
    let all = get_all(&snap).unwrap();
    assert_eq!(all.len(), 1);
    assert_eq!(all[0].process.pid, 10);
    assert_eq!(all[0].socket.port(), 8080);
}

#[test]
fn enumeration_needs_every_source() {
    let mut snap = snapshot(vec![], "", "", "", "");
    assert_eq!(get_all(&snap), Ok(vec![]));
    snap.udp6 = None;
    assert_eq!(get_all(&snap), Err(Error::SourceUnavailable));
    assert_eq!(get_process_by_port(&snap, 80, Protocol::TCP), Err(Error::NotFound));
    assert_eq!(get_process_by_port(&snap, 80, Protocol::UDP), Err(Error::SourceUnavailable));
    snap.udp6 = Some(vec![]);
    snap.processes = None;
    assert_eq!(get_all(&snap), Err(Error::SourceUnavailable));
    assert_eq!(get_process_by_port(&snap, 80, Protocol::TCP), Err(Error::SourceUnavailable));
}

#[test]
fn lookup_finds_the_owner_of_a_port() {
    let tcp = format!("{TCP_HEADER}{}\n{}\n", tcp_row("0100007F:1F90", 5), tcp_row("0100007F:1F90", 100));
    let udp = format!("{TCP_HEADER}{}\n", tcp_row("00000000:1F90", 400));
    let snap = snapshot(
        vec![
            entry("10 (web) S 1", "/usr/bin/web", &["socket:[100]"]),
            entry("11 (dns) S 1", "/usr/bin/dns", &["socket:[400]"]),
        ],
        &tcp,
        "",
        &udp,
        "",
    );
    let p = get_process_by_port(&snap, 8080, Protocol::TCP).unwrap();
    assert_eq!((p.pid, p.name.as_str(), p.path.as_str()), (10, "web", "/usr/bin/web"));
    let p = get_process_by_port(&snap, 8080, Protocol::UDP).unwrap();
    assert_eq!((p.pid, p.name.as_str()), (11, "dns"));
    assert_eq!(get_process_by_port(&snap, 8081, Protocol::TCP), Err(Error::NotFound));
    assert_eq!(get_process_by_port(&snap, 0, Protocol::UDP), Err(Error::NotFound));
}
