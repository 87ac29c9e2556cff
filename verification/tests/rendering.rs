use listeners::{IpAddr, Ipv4Addr, Ipv6Addr, Listener, Process, Protocol, SocketAddr};

#[test]
fn test_v4_listener_to_string() {
    let listener = Listener::new(
        455,
        "rapportd".to_string(),
        "/usr/libexec/rapportd".to_string(),
        SocketAddr::new(IpAddr::V4(Ipv4Addr::new(0, 0, 0, 0)), 51189),
        Protocol::TCP,
    );
    assert_eq!(
        listener.to_string(),
        "PID: 455        Process name: rapportd                  Socket: 0.0.0.0:51189                  Protocol: TCP"
    );
}

#[test]
fn test_v6_listener_to_string() {
    let listener = Listener::new(
        160,
        "mysqld".to_string(),
        "/usr/sbin/mysqld".to_string(),
        SocketAddr::new(IpAddr::V6(Ipv6Addr::new(0, 0, 0, 0, 0, 0, 0, 0)), 3306),
        Protocol::UDP,
    );
    assert_eq!(
        listener.to_string(),
        "PID: 160        Process name: mysqld                    Socket: [::]:3306                      Protocol: UDP"
    );
}

#[test]
fn test_process_to_string() {
    let process = Process::new(611, "Microsoft SharePoint".to_string(), String::new());
    assert_eq!(
        process.to_string(),
        "PID: 611        Process name: Microsoft SharePoint"
    );
}

#[test]
fn protocol_reads_as_its_name() {
    assert_eq!(Protocol::TCP.to_string(), "TCP");
    assert_eq!(Protocol::UDP.to_string(), "UDP");
}

#[test]
fn process_with_the_longest_pid_is_not_padded() {
    let process = Process::new(u32::MAX, "x".to_string(), String::new());
    assert_eq!(process.to_string(), "PID: 4294967295 Process name: x");
    let process = Process::new(0, String::new(), String::new());
    assert_eq!(process.to_string(), "PID: 0          Process name: ");
}

#[test]
fn listener_longer_than_its_columns_is_not_cut() {
    let listener = Listener::new(
        1480,
        "a process with a name of more than fifty-five characters".to_string(),
        String::new(),
        SocketAddr::new(
            IpAddr::V6(Ipv6Addr::new(0x2001, 0xdb8, 0x85a3, 0x1234, 0x5678, 0x8a2e, 0x370, 0x7334)),
            65535,
        ),
        Protocol::TCP,
    );
    assert_eq!(
        listener.to_string(),
        "PID: 1480       Process name: a process with a name of more than fifty-five characters Socket: [2001:db8:85a3:1234:5678:8a2e:370:7334]:65535 Protocol: TCP"
    );
}

#[test]
fn padding_counts_characters_not_bytes() {
    let process = Process::new(7, "caf\u{e9}".to_string(), String::new());
    let listener = Listener {
        process,
        socket: SocketAddr::new(IpAddr::V4(Ipv4Addr::new(127, 0, 0, 1)), 80),
        protocol: Protocol::UDP,
    };
    let text = listener.to_string();
    assert_eq!(
        text,
        "PID: 7          Process name: caf\u{e9}                      Socket: 127.0.0.1:80                   Protocol: UDP"
    );
    assert_eq!(text.chars().count(), 55 + 9 + 30 + 11 + 3);
}

#[test]
fn ipv4_sockets_are_dotted_quads() {
    assert_eq!(SocketAddr::new(IpAddr::V4(Ipv4Addr::new(192, 168, 1, 102)), 49659).to_string(), "192.168.1.102:49659");
    assert_eq!(SocketAddr::new(IpAddr::V4(Ipv4Addr::new(255, 255, 255, 255)), 0).to_string(), "255.255.255.255:0");
    assert_eq!(Ipv4Addr::new(10, 0, 200, 9).to_string(), "10.0.200.9");
}

#[test]
fn ipv6_addresses_take_their_short_form() {
    let text = |s: [u16; 8]| Ipv6Addr::new(s[0], s[1], s[2], s[3], s[4], s[5], s[6], s[7]).to_string();
    assert_eq!(text([0, 0, 0, 0, 0, 0, 0, 0]), "::");
    assert_eq!(text([0, 0, 0, 0, 0, 0, 0, 1]), "::1");
    assert_eq!(text([1, 0, 0, 0, 0, 0, 0, 0]), "1::");
    assert_eq!(text([0, 0, 0, 0, 0, 0, 0x7f00, 1]), "::7f00:1");
    assert_eq!(text([0, 0, 0, 0, 0, 0xffff, 0x7f00, 1]), "::ffff:127.0.0.1");
    assert_eq!(text([0, 0, 0, 0, 0, 0xffff, 0xc0a8, 0x0166]), "::ffff:192.168.1.102");
    assert_eq!(text([0xfe80, 0, 0, 0, 0x1c, 0xabcd, 0xf, 0x1000]), "fe80::1c:abcd:f:1000");
    // a single zero segment is written out
    assert_eq!(text([0x2001, 0xdb8, 0, 1, 1, 1, 1, 1]), "2001:db8:0:1:1:1:1:1");
    // of two runs of equal length the first is shortened
    assert_eq!(text([0x2001, 0, 0, 1, 0, 0, 1, 1]), "2001::1:0:0:1:1");
    assert_eq!(text([0x2001, 0xdb8, 0, 0, 1, 0, 0, 1]), "2001:db8::1:0:0:1");
    assert_eq!(text([1, 0, 1, 0, 1, 0, 1, 0]), "1:0:1:0:1:0:1:0");
    assert_eq!(text([0, 1, 0, 0, 1, 0, 0, 0]), "0:1:0:0:1::");
    assert_eq!(text([0xa, 0xb0, 0xc00, 0xd000, 0, 0, 0, 0xfff]), "a:b0:c00:d000::fff");
    assert_eq!(text([0x64, 0xff9b, 0, 0, 0, 0, 0xc000, 0x221]), "64:ff9b::c000:221");
    // of two runs the longer is shortened
    assert_eq!(text([0x2001, 0, 0, 1, 0, 0, 0, 1]), "2001:0:0:1::1");
    assert_eq!(text([1, 2, 3, 4, 5, 6, 0, 0]), "1:2:3:4:5:6::");
    assert_eq!(text([0, 0, 3, 4, 5, 6, 7, 8]), "::3:4:5:6:7:8");
    assert_eq!(text([0xffff, 0xffff, 0xffff, 0xffff, 0xffff, 0xffff, 0xffff, 0xffff]), "ffff:ffff:ffff:ffff:ffff:ffff:ffff:ffff");
    assert_eq!(SocketAddr::new(IpAddr::V6(Ipv6Addr::new(0, 0, 0, 0, 0, 0, 0, 1)), 5600).to_string(), "[::1]:5600");
}
