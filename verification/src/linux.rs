//! The Linux adapter: listeners out of what procfs says.
//!
//! The sockets come from the four tables under `/proc/net`, which name each
//! socket's inode; the owners come from the `fd` links of each process
//! directory, which name the inodes a process holds; names come from `stat`.

pub mod helpers;
pub mod printing;
pub mod proc_info;
pub mod proto_listener;

use crate::engine::{
    collect_listeners, enumerate, find_process, first_process_on, listener_views, Correlation,
    Endpoint, Resolution,
};
use crate::laws::{lemma_find_append, lemma_find_other_protocol};
use crate::linux::helpers::{build_inode_proc_map, inode_owners, process_table, ProcEntry};
use crate::linux::proto_listener::{
    endpoint_of, table_entries, table_entry, ProtoListener, LINE_FEED,
};
use crate::model::{Error, Listener, ListenerView, Process, ProcessView, Protocol};
use crate::text::lemma_split_map_each;
use vstd::prelude::*;

verus! {

/// What procfs held when it was read. A part that could not be read at all
/// is `None`.
#[derive(Debug, Clone, PartialEq, Eq, Hash)]
pub struct ProcfsSnapshot {
    /// Whether the host stores the low byte of a word first.
    pub little_endian: bool,
    /// The process directories under `/proc`, in the order they were listed.
    pub processes: Option<Vec<ProcEntry>>,
    /// The contents of `/proc/net/tcp`.
    pub tcp: Option<Vec<u8>>,
    /// The contents of `/proc/net/tcp6`.
    pub tcp6: Option<Vec<u8>>,
    /// The contents of `/proc/net/udp`.
    pub udp: Option<Vec<u8>>,
    /// The contents of `/proc/net/udp6`.
    pub udp6: Option<Vec<u8>>,
}

/// The rows of a table that was read, none of a table that was not.
pub open spec fn rows_of(table: Option<Vec<u8>>, protocol: Protocol, v6: bool, little_endian: bool) -> Seq<
    ProtoListener,
> {
    match table {
        Some(t) => table_entries(t@, protocol, v6, little_endian),
        None => Seq::empty(),
    }
}

impl ProcfsSnapshot {
    /// Whether everything that an enumeration needs was read.
    pub open spec fn complete(&self) -> bool {
        self.processes is Some && self.tcp is Some && self.tcp6 is Some && self.udp is Some
            && self.udp6 is Some
    }

    /// Whether everything that a lookup under `protocol` needs was read.
    pub open spec fn complete_for(&self, protocol: Protocol) -> bool {
        self.processes is Some && match protocol {
            Protocol::TCP => self.tcp is Some && self.tcp6 is Some,
            Protocol::UDP => self.udp is Some && self.udp6 is Some,
        }
    }

    /// The sockets of the two TCP tables, IPv4 first.
    pub open spec fn tcp_rows(&self) -> Seq<ProtoListener> {
        rows_of(self.tcp, Protocol::TCP, false, self.little_endian) + rows_of(
            self.tcp6,
            Protocol::TCP,
            true,
            self.little_endian,
        )
    }

    /// The sockets of the two UDP tables, IPv4 first.
    pub open spec fn udp_rows(&self) -> Seq<ProtoListener> {
        rows_of(self.udp, Protocol::UDP, false, self.little_endian) + rows_of(
            self.udp6,
            Protocol::UDP,
            true,
            self.little_endian,
        )
    }

    /// The sockets of all four tables: TCP, TCP6, UDP, UDP6.
    pub open spec fn rows(&self) -> Seq<ProtoListener> {
        self.tcp_rows() + self.udp_rows()
    }

    /// The sockets of the tables of one protocol.
    pub open spec fn rows_under(&self, protocol: Protocol) -> Seq<ProtoListener> {
        match protocol {
            Protocol::TCP => self.tcp_rows(),
            Protocol::UDP => self.udp_rows(),
        }
    }

    /// The process directories that were read.
    pub open spec fn entries(&self) -> Seq<ProcEntry> {
        match self.processes {
            Some(p) => p@,
            None => Seq::empty(),
        }
    }

    /// The endpoints of all four tables, keyed by inode.
    pub open spec fn endpoints(&self) -> Seq<Endpoint> {
        self.rows().map_values(|l: ProtoListener| endpoint_of(l))
    }

    /// Who owns which inode.
    pub open spec fn correlation(&self) -> Correlation {
        inode_owners(self.entries())
    }

    /// The name and path of each PID.
    pub open spec fn processes(&self) -> Map<u32, Resolution> {
        process_table(self.entries())
    }

    /// The listeners that the snapshot holds.
    pub open spec fn listeners(&self) -> Seq<ListenerView> {
        enumerate(self.endpoints(), self.correlation(), self.processes())
    }

    /// The process that a lookup of `port` under `protocol` finds.
    pub open spec fn process_on(&self, port: u16, protocol: Protocol) -> Option<ProcessView> {
        find_process(self.endpoints(), self.correlation(), self.processes(), port, protocol)
    }
}

/// Every row of a table is under the protocol of the table.
pub proof fn lemma_rows_protocol(
    table: Option<Vec<u8>>,
    protocol: Protocol,
    v6: bool,
    little_endian: bool,
    k: int,
)
    requires
        0 <= k < rows_of(table, protocol, v6, little_endian).len(),
    ensures
        rows_of(table, protocol, v6, little_endian)[k].protocol == protocol,
{
    let f = |line: Seq<u8>| table_entry(line, protocol, v6, little_endian);
    lemma_split_map_each(table->0@, LINE_FEED, 0, f, k);
}

/// A lookup needs only the tables of its protocol: in the others it finds
/// nothing.
pub proof fn lemma_lookup_reads_own_tables(snapshot: &ProcfsSnapshot, port: u16, protocol: Protocol)
    ensures
        snapshot.process_on(port, protocol) == find_process(
            snapshot.rows_under(protocol).map_values(|l: ProtoListener| endpoint_of(l)),
            snapshot.correlation(),
            snapshot.processes(),
            port,
            protocol,
        ),
{
    let corr = snapshot.correlation();
    let procs = snapshot.processes();
    let le = snapshot.little_endian;
    let tcp = snapshot.tcp_rows().map_values(|l: ProtoListener| endpoint_of(l));
    let udp = snapshot.udp_rows().map_values(|l: ProtoListener| endpoint_of(l));
    assert(snapshot.endpoints() =~= tcp + udp);
    lemma_find_append(tcp, udp, corr, procs, port, protocol);
    assert forall|k: int| 0 <= k < tcp.len() implies (#[trigger] tcp[k]).protocol
        == Protocol::TCP by {
        let a = rows_of(snapshot.tcp, Protocol::TCP, false, le);
        if k < a.len() {
            lemma_rows_protocol(snapshot.tcp, Protocol::TCP, false, le, k);
            assert(snapshot.tcp_rows()[k] == a[k]);
        } else {
            lemma_rows_protocol(snapshot.tcp6, Protocol::TCP, true, le, k - a.len());
            assert(snapshot.tcp_rows()[k] == rows_of(snapshot.tcp6, Protocol::TCP, true, le)[k
                - a.len()]);
        }
    }
    assert forall|k: int| 0 <= k < udp.len() implies (#[trigger] udp[k]).protocol
        == Protocol::UDP by {
        let a = rows_of(snapshot.udp, Protocol::UDP, false, le);
        if k < a.len() {
            lemma_rows_protocol(snapshot.udp, Protocol::UDP, false, le, k);
            assert(snapshot.udp_rows()[k] == a[k]);
        } else {
            lemma_rows_protocol(snapshot.udp6, Protocol::UDP, true, le, k - a.len());
            assert(snapshot.udp_rows()[k] == rows_of(snapshot.udp6, Protocol::UDP, true, le)[k
                - a.len()]);
        }
    }
    match protocol {
        Protocol::TCP => {
            lemma_find_other_protocol(udp, corr, procs, port, protocol);
        },
        Protocol::UDP => {
            lemma_find_other_protocol(tcp, corr, procs, port, protocol);
        },
    }
}

/// The endpoints that rows stand for.
fn endpoints_of(rows: &Vec<ProtoListener>) -> (r: Vec<Endpoint>)
    ensures
        r@ == rows@.map_values(|l: ProtoListener| endpoint_of(l)),
{
    let mut out: Vec<Endpoint> = Vec::new();
    let mut i: usize = 0;
    while i < rows.len()
        invariant
            i <= rows@.len(),
            out@ == rows@.take(i as int).map_values(|l: ProtoListener| endpoint_of(l)),
        decreases rows@.len() - i,
    {
        out.push(rows[i].endpoint());
        assert(out@ =~= rows@.take(i + 1).map_values(|l: ProtoListener| endpoint_of(l)));
        i += 1;
    }
    assert(rows@.take(i as int) =~= rows@);
    out
}

/// Adds the rows of a table to `out`, if the table was read.
fn read_rows(
    table: &Option<Vec<u8>>,
    protocol: Protocol,
    v6: bool,
    little_endian: bool,
    out: &mut Vec<ProtoListener>,
)
    ensures
        final(out)@ == old(out)@ + rows_of(*table, protocol, v6, little_endian),
{
    match table {
        Some(t) => {
            ProtoListener::read_table(t.as_slice(), protocol, v6, little_endian, out);
        },
        None => {
            assert(out@ + Seq::<ProtoListener>::empty() =~= out@);
        },
    }
}

/// Every listener that the snapshot holds, each once.
///
/// Fails only if a table or the list of processes could not be read at
/// all. A row that is malformed, a socket that no process holds and a
/// process whose `stat` says nothing are passed over.
pub fn get_all(snapshot: &ProcfsSnapshot) -> (r: Result<Vec<Listener>, Error>)
    ensures
        match r {
            Ok(v) => snapshot.complete() && listener_views(v@) == snapshot.listeners(),
            Err(e) => !snapshot.complete() && e == Error::SourceUnavailable,
        },
{
    let entries = match &snapshot.processes {
        Some(p) => p,
        None => {
            return Err(Error::SourceUnavailable);
        },
    };
    if snapshot.tcp.is_none() || snapshot.tcp6.is_none() || snapshot.udp.is_none()
        || snapshot.udp6.is_none() {
        return Err(Error::SourceUnavailable);
    }
    let (corr, cache) = build_inode_proc_map(entries);
    let mut rows: Vec<ProtoListener> = Vec::new();
    let le = snapshot.little_endian;
    read_rows(&snapshot.tcp, Protocol::TCP, false, le, &mut rows);
    read_rows(&snapshot.tcp6, Protocol::TCP, true, le, &mut rows);
    read_rows(&snapshot.udp, Protocol::UDP, false, le, &mut rows);
    read_rows(&snapshot.udp6, Protocol::UDP, true, le, &mut rows);
    assert(rows@ =~= snapshot.rows());
    let endpoints = endpoints_of(&rows);
    Ok(collect_listeners(&endpoints, &corr, &cache))
}

/// The process that owns the first socket bound to `port` under `protocol`
/// whose owner is known. Only the tables of that protocol are looked at.
pub fn get_process_by_port(snapshot: &ProcfsSnapshot, port: u16, protocol: Protocol) -> (r: Result<
    Process,
    Error,
>)
    ensures
        match r {
            Ok(p) => snapshot.complete_for(protocol) && snapshot.process_on(port, protocol)
                == Some(p@),
            Err(e) => if snapshot.complete_for(protocol) {
                e == Error::NotFound && snapshot.process_on(port, protocol) is None
            } else {
                e == Error::SourceUnavailable
            },
        },
{
    let entries = match &snapshot.processes {
        Some(p) => p,
        None => {
            return Err(Error::SourceUnavailable);
        },
    };
    let le = snapshot.little_endian;
    let mut rows: Vec<ProtoListener> = Vec::new();
    match protocol {
        Protocol::TCP => {
            if snapshot.tcp.is_none() || snapshot.tcp6.is_none() {
                return Err(Error::SourceUnavailable);
            }
            read_rows(&snapshot.tcp, Protocol::TCP, false, le, &mut rows);
            read_rows(&snapshot.tcp6, Protocol::TCP, true, le, &mut rows);
        },
        Protocol::UDP => {
            if snapshot.udp.is_none() || snapshot.udp6.is_none() {
                return Err(Error::SourceUnavailable);
            }
            read_rows(&snapshot.udp, Protocol::UDP, false, le, &mut rows);
            read_rows(&snapshot.udp6, Protocol::UDP, true, le, &mut rows);
        },
    }
    assert(rows@ =~= snapshot.rows_under(protocol));
    proof {
        lemma_lookup_reads_own_tables(snapshot, port, protocol);
    }
    let (corr, cache) = build_inode_proc_map(entries);
    let endpoints = endpoints_of(&rows);
    match first_process_on(&endpoints, &corr, &cache, port, protocol) {
        Some(p) => Ok(p),
        None => Err(Error::NotFound),
    }
}

} // verus!
