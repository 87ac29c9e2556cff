use listeners::linux::helpers::ProcEntry;
use listeners::linux::ProcfsSnapshot;
use listeners::macos::LibprocSnapshot;
use listeners::{
    get_all, get_ports_by_pid, get_ports_by_process_name, get_process_by_port,
    get_processes_by_port, Error, Listener, Process, Protocol, Snapshot,
};

fn row(local: &str, inode: u64) -> String {
    format!("   0: {local} 00000000:0000 0A 00000000:00000000 00:00000000 00000000  1000        0 {inode} 1\n")
}

fn entry(stat: &str, exe: &str, inodes: &[u64]) -> ProcEntry {
    ProcEntry {
        stat: stat.as_bytes().to_vec(),
        exe: exe.to_string(),
        fd_links: inodes.iter().map(|i| format!("socket:[{i}]").into_bytes()).collect(),
    }
}

fn snapshot() -> Snapshot {
    let tcp = [row("0100007F:0CEA", 1), row("00000000:8124", 2), row("0100007F:1F90", 3), row("0100007F:1F90", 4)].concat();
    let tcp6 = [
        "   0: 00000000000000000000000000000000:0CEA 00000000000000000000000000000000:0000 0A 00000000:00000000 00:00000000 00000000   1000        0 5 1\n",
        "   1: 00000000000000000000000000000000:8124 00000000000000000000000000000000:0000 0A 00000000:00000000 00:00000000 00000000   1000        0 6 1\n",
    ]
    .concat();
    let udp = [row("00000000:0035", 7), row("00000000:0CEA", 8)].concat();
    Snapshot::Linux(ProcfsSnapshot {
        little_endian: true,
        processes: Some(vec![
            entry("160 (mysqld) S 1", "/usr/sbin/mysqld", &[1, 2, 5, 6]),
            entry("200 (worker) S 1", "/srv/worker", &[3]),
            entry("201 (worker) S 1", "/srv/worker", &[4, 8]),
            entry("53 (named) S 1", "/usr/sbin/named", &[7]),
        ]),
        tcp: Some(tcp.into_bytes()),
        tcp6: Some(tcp6.into_bytes()),
        udp: Some(udp.into_bytes()),
        udp6: Some(Vec::new()),
    })
}

#[test]
fn ports_of_a_pid_come_once_each() {
    let snap = snapshot();
    assert_eq!(get_ports_by_pid(&snap, 160), Ok(vec![3306, 33060]));
    assert_eq!(get_ports_by_pid(&snap, 201), Ok(vec![8080, 3306]));
    assert_eq!(get_ports_by_pid(&snap, 53), Ok(vec![53]));
    assert_eq!(get_ports_by_pid(&snap, 1), Ok(vec![]));
}

#[test]
fn ports_of_a_name_cover_every_process_of_that_name() {
    let snap = snapshot();
    assert_eq!(get_ports_by_process_name(&snap, "mysqld"), Ok(vec![3306, 33060]));
    assert_eq!(get_ports_by_process_name(&snap, "worker"), Ok(vec![8080, 3306]));
    assert_eq!(get_ports_by_process_name(&snap, "Worker"), Ok(vec![]));
    assert_eq!(get_ports_by_process_name(&snap, ""), Ok(vec![]));
}

#[test]
fn processes_on_a_port_come_once_each() {
    let snap = snapshot();
    let on = |port: u16| -> Vec<u32> {
        get_processes_by_port(&snap, port).unwrap().iter().map(|p| p.pid).collect()
    };
    assert_eq!(on(8080), vec![200, 201]);
    assert_eq!(on(3306), vec![160, 201]);
    assert_eq!(on(33060), vec![160]);
    assert_eq!(on(1), Vec::<u32>::new());
    let p = get_processes_by_port(&snap, 53).unwrap();
    assert_eq!(p, vec![Process::new(53, "named".to_string(), "/usr/sbin/named".to_string())]);
}

#[test]
fn projections_agree_with_the_enumeration() {
    let snap = snapshot();
    let all = get_all(&snap).unwrap();
    assert!(!all.is_empty());
    for l in &all {
        let ports_by_pid = get_ports_by_pid(&snap, l.process.pid).unwrap();
        assert!(ports_by_pid.contains(&l.socket.port()));
        let ports_by_name = get_ports_by_process_name(&snap, &l.process.name).unwrap();
        assert!(ports_by_name.contains(&l.socket.port()));
        let processes_by_port = get_processes_by_port(&snap, l.socket.port()).unwrap();
        assert!(processes_by_port.contains(&l.process));
    }
}

#[test]
fn enumeration_is_a_set_of_well_formed_listeners() {
    let all = get_all(&snapshot()).unwrap();
    assert_eq!(all.len(), 8);
    for (i, a) in all.iter().enumerate() {
        assert!(a.process.pid > 0);
        assert!(!a.process.name.is_empty());
        for b in &all[i + 1..] {
            assert!(
                a.process.pid != b.process.pid || a.socket != b.socket || a.protocol != b.protocol
            );
        }
    }
}

#[test]
fn enumeration_is_idempotent() {
    let snap = snapshot();
    assert_eq!(get_all(&snap), get_all(&snap));
    assert_eq!(get_all(&snap), get_all(&snapshot()));
}

#[test]
fn lookup_round_trips_where_one_process_holds_the_port() {
    let snap = snapshot();
    let all = get_all(&snap).unwrap();
    for l in &all {
        let found = get_process_by_port(&snap, l.socket.port(), l.protocol).unwrap();
        let shared = all
            .iter()
            .any(|m| m.socket.port() == l.socket.port() && m.protocol == l.protocol && m.process != l.process);
        if !shared {
            assert_eq!(found, l.process);
        }
    }
    // port 8080 is shared under TCP: the lookup finds the first holder
    assert_eq!(get_process_by_port(&snap, 8080, Protocol::TCP).unwrap().pid, 200);
}

#[test]
fn lookup_of_a_port_that_is_not_bound_finds_nothing() {
    let snap = snapshot();
    let all = get_all(&snap).unwrap();
    let mut tried = 0;
    let mut port: u16 = 1;
    while tried < 10 {
        if !all.iter().any(|l| l.socket.port() == port) {
            assert_eq!(get_process_by_port(&snap, port, Protocol::TCP), Err(Error::NotFound));
            assert_eq!(get_process_by_port(&snap, port, Protocol::UDP), Err(Error::NotFound));
            tried += 1;
        }
        port += 6551;
    }
}

#[test]
fn same_port_under_both_protocols_gives_two_listeners() {
    let all = get_all(&snapshot()).unwrap();
    let on_3306: Vec<&Listener> = all.iter().filter(|l| l.socket.port() == 3306 && l.process.pid != 160).collect();
    assert_eq!(on_3306.len(), 1);
    let tcp = all.iter().filter(|l| l.socket.port() == 3306 && l.protocol == Protocol::TCP).count();
    let udp = all.iter().filter(|l| l.socket.port() == 3306 && l.protocol == Protocol::UDP).count();
    assert_eq!((tcp, udp), (2, 1));
}

#[test]
fn unsupported_system_fails_every_operation() {
    let snap = Snapshot::Unsupported;
    assert_eq!(get_all(&snap), Err(Error::Unsupported));
    assert_eq!(get_process_by_port(&snap, 80, Protocol::TCP), Err(Error::Unsupported));
    assert_eq!(get_processes_by_port(&snap, 80), Err(Error::Unsupported));
    assert_eq!(get_ports_by_pid(&snap, 1), Err(Error::Unsupported));
    assert_eq!(get_ports_by_process_name(&snap, "x"), Err(Error::Unsupported));
}

#[test]
fn unavailable_source_fails_every_projection() {
    let snap = Snapshot::Macos(LibprocSnapshot { processes: None });
    assert_eq!(get_all(&snap), Err(Error::SourceUnavailable));
    assert_eq!(get_process_by_port(&snap, 80, Protocol::UDP), Err(Error::SourceUnavailable));
    assert_eq!(get_processes_by_port(&snap, 80), Err(Error::SourceUnavailable));
    assert_eq!(get_ports_by_pid(&snap, 1), Err(Error::SourceUnavailable));
    assert_eq!(get_ports_by_process_name(&snap, "x"), Err(Error::SourceUnavailable));
}
