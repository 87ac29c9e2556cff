//! Which local process owns which IP socket.
//!
//! The library is the pure half of a socket-ownership inspector: it takes a
//! [`Snapshot`] of what an operating system reports about its sockets and
//! processes, as plain values, and computes from it the set of
//! [`Listener`]s, the owner of a given port, and the usual projections.
//! Gathering the snapshot is left to the caller.

pub mod bsd;
pub mod byte_order;
pub mod engine;
pub mod laws;
pub mod linux;
pub mod macos;
pub mod model;
pub mod number;
pub mod render;
pub mod text;
pub mod windows;

pub use model::{
    Error, IpAddr, Ipv4Addr, Ipv6Addr, Listener, ListenerView, Process, ProcessView, Protocol,
    SocketAddr,
};

use engine::{
    enumerate, find_process, listener_views, push_unique, Correlation, Endpoint, Resolution,
};
use bsd::openbsd::SysctlSnapshot;
use bsd::KernelSnapshot;
use linux::ProcfsSnapshot;
use macos::LibprocSnapshot;
use windows::IpHelperSnapshot;
use vstd::prelude::*;
use vstd::string::StringExecFns;

verus! {

/// What an operating system held when it was asked, in the form in which
/// that system gives it.
#[derive(Debug, Clone, PartialEq, Eq, Hash)]
pub enum Snapshot {
    /// Linux: the contents of procfs.
    Linux(ProcfsSnapshot),
    /// macOS: the answers of libproc.
    Macos(LibprocSnapshot),
    /// Windows: the tables of the IP helper and the listing of processes.
    Windows(IpHelperSnapshot),
    /// FreeBSD and NetBSD: the lists of the native helpers.
    Bsd(KernelSnapshot),
    /// OpenBSD: the processes with their sockets.
    OpenBsd(SysctlSnapshot),
    /// A system for which there is no adapter.
    Unsupported,
}

/// No failure if `complete`, else that a source is unavailable.
pub open spec fn unavailable_unless(complete: bool) -> Option<Error> {
    if complete {
        None
    } else {
        Some(Error::SourceUnavailable)
    }
}

impl Snapshot {
    /// Why an enumeration of this snapshot fails, if it does.
    pub open spec fn failure(&self) -> Option<Error> {
        match self {
            Snapshot::Linux(s) => unavailable_unless(s.complete()),
            Snapshot::Macos(s) => unavailable_unless(s.complete()),
            Snapshot::Windows(s) => unavailable_unless(s.complete()),
            Snapshot::Bsd(s) => unavailable_unless(s.complete()),
            Snapshot::OpenBsd(s) => unavailable_unless(s.complete()),
            Snapshot::Unsupported => Some(Error::Unsupported),
        }
    }

    /// Why a lookup under `protocol` cannot be made in this snapshot, if it
    /// cannot.
    pub open spec fn failure_for(&self, protocol: Protocol) -> Option<Error> {
        match self {
            Snapshot::Linux(s) => unavailable_unless(s.complete_for(protocol)),
            Snapshot::Macos(s) => unavailable_unless(s.complete()),
            Snapshot::Windows(s) => unavailable_unless(s.complete()),
            Snapshot::Bsd(s) => unavailable_unless(s.complete_for(protocol)),
            Snapshot::OpenBsd(s) => unavailable_unless(s.complete()),
            Snapshot::Unsupported => Some(Error::Unsupported),
        }
    }

    /// The endpoints that the snapshot holds, in the order of its sources.
    pub open spec fn endpoints(&self) -> Seq<Endpoint> {
        match self {
            Snapshot::Linux(s) => s.endpoints(),
            Snapshot::Macos(s) => s.endpoints(),
            Snapshot::Windows(s) => s.endpoints(),
            Snapshot::Bsd(s) => s.endpoints(),
            Snapshot::OpenBsd(s) => s.endpoints(),
            Snapshot::Unsupported => Seq::empty(),
        }
    }

    /// Which PID owns which correlation key.
    pub open spec fn correlation(&self) -> Correlation {
        match self {
            Snapshot::Linux(s) => s.correlation(),
            Snapshot::Macos(s) => s.correlation(),
            Snapshot::Windows(s) => s.correlation(),
            Snapshot::Bsd(s) => s.correlation(),
            Snapshot::OpenBsd(s) => s.correlation(),
            Snapshot::Unsupported => engine::no_correlation(),
        }
    }

    /// The name and path of each PID that was resolved.
    pub open spec fn processes(&self) -> Map<u32, Resolution> {
        match self {
            Snapshot::Linux(s) => s.processes(),
            Snapshot::Macos(s) => s.processes(),
            Snapshot::Windows(s) => s.processes(),
            Snapshot::Bsd(s) => s.processes(),
            Snapshot::OpenBsd(s) => s.processes(),
            Snapshot::Unsupported => Map::empty(),
        }
    }

    /// The listeners that the snapshot holds: each endpoint whose owner
    /// resolves, once, in the order of first occurrence.
    pub open spec fn listeners(&self) -> Seq<ListenerView> {
        enumerate(self.endpoints(), self.correlation(), self.processes())
    }

    /// The process that a lookup of `port` under `protocol` finds: the owner
    /// of the first endpoint on that port and protocol whose owner resolves.
    pub open spec fn process_on(&self, port: u16, protocol: Protocol) -> Option<ProcessView> {
        find_process(self.endpoints(), self.correlation(), self.processes(), port, protocol)
    }
}

/// The ports of the listeners that `keep` accepts, each once, in the order
/// of first occurrence.
pub open spec fn ports_where(ls: Seq<ListenerView>, keep: spec_fn(ListenerView) -> bool) -> Seq<u16>
    decreases ls.len(),
{
    if ls.len() == 0 {
        Seq::empty()
    } else {
        let before = ports_where(ls.drop_last(), keep);
        if keep(ls.last()) {
            push_unique(before, ls.last().socket.port)
        } else {
            before
        }
    }
}

/// The ports that the process with PID `pid` is bound to.
pub open spec fn ports_of_pid(ls: Seq<ListenerView>, pid: u32) -> Seq<u16> {
    ports_where(ls, |l: ListenerView| l.process.pid == pid)
}

/// The ports that processes named `name` are bound to.
pub open spec fn ports_of_name(ls: Seq<ListenerView>, name: Seq<char>) -> Seq<u16> {
    ports_where(ls, |l: ListenerView| l.process.name == name)
}

/// The processes bound to `port`, each once, in the order of first
/// occurrence.
pub open spec fn processes_on_port(ls: Seq<ListenerView>, port: u16) -> Seq<ProcessView>
    decreases ls.len(),
{
    if ls.len() == 0 {
        Seq::empty()
    } else {
        let before = processes_on_port(ls.drop_last(), port);
        if ls.last().socket.port == port {
            push_unique(before, ls.last().process)
        } else {
            before
        }
    }
}

/// The views of a sequence of processes.
pub open spec fn process_views(v: Seq<Process>) -> Seq<ProcessView> {
    v.map_values(|p: Process| p@)
}

/// Returns all the [`Listener`]s of the snapshot.
///
/// Fails if the system is not supported or a source of the snapshot could
/// not be read at all; what is wrong with a single record only drops that
/// record.
pub fn get_all(snapshot: &Snapshot) -> (r: Result<Vec<Listener>, Error>)
    ensures
        match r {
            Ok(v) => snapshot.failure() is None && listener_views(v@) == snapshot.listeners(),
            Err(e) => snapshot.failure() == Some(e),
        },
{
    match snapshot {
        Snapshot::Linux(s) => linux::get_all(s),
        Snapshot::Macos(s) => macos::get_all(s),
        Snapshot::Windows(s) => windows::get_all(s),
        Snapshot::Bsd(s) => bsd::get_all(s),
        Snapshot::OpenBsd(s) => bsd::openbsd::get_all(s),
        Snapshot::Unsupported => Err(Error::Unsupported),
    }
}

/// Returns the [`Process`] listening on a given port under a given protocol:
/// the first that matches.
///
/// Fails with [`Error::NotFound`] if no endpoint with an owner matches.
pub fn get_process_by_port(snapshot: &Snapshot, port: u16, protocol: Protocol) -> (r: Result<
    Process,
    Error,
>)
    ensures
        match r {
            Ok(p) => snapshot.failure_for(protocol) is None && snapshot.process_on(port, protocol)
                == Some(p@),
            Err(e) => match snapshot.failure_for(protocol) {
                Some(f) => e == f,
                None => e == Error::NotFound && snapshot.process_on(port, protocol) is None,
            },
        },
{
    match snapshot {
        Snapshot::Linux(s) => linux::get_process_by_port(s, port, protocol),
        Snapshot::Macos(s) => macos::get_process_by_port(s, port, protocol),
        Snapshot::Windows(s) => windows::get_process_by_port(s, port, protocol),
        Snapshot::Bsd(s) => bsd::get_process_by_port(s, port, protocol),
        Snapshot::OpenBsd(s) => bsd::openbsd::get_process_by_port(s, port, protocol),
        Snapshot::Unsupported => Err(Error::Unsupported),
    }
}

/// Whether `p` occurs in `set`.
fn contains_process(set: &Vec<Process>, p: &Process) -> (b: bool)
    ensures
        b == process_views(set@).contains(p@),
{
    let mut i: usize = 0;
    while i < set.len()
        invariant
            i <= set@.len(),
            forall|k: int| 0 <= k < i ==> process_views(set@)[k] != p@,
        decreases set@.len() - i,
    {
        if set[i].same(p) {
            assert(process_views(set@)[i as int] == p@);
            return true;
        }
        i += 1;
    }
    false
}

/// Whether `port` occurs in `set`.
fn contains_port(set: &Vec<u16>, port: u16) -> (b: bool)
    ensures
        b == set@.contains(port),
{
    let mut i: usize = 0;
    while i < set.len()
        invariant
            i <= set@.len(),
            forall|k: int| 0 <= k < i ==> set@[k] != port,
        decreases set@.len() - i,
    {
        if set[i] == port {
            return true;
        }
        i += 1;
    }
    false
}

/// Returns the list of [`Process`]es listening on a given port, under either
/// protocol.
pub fn get_processes_by_port(snapshot: &Snapshot, port: u16) -> (r: Result<Vec<Process>, Error>)
    ensures
        match r {
            Ok(v) => snapshot.failure() is None && process_views(v@) == processes_on_port(
                snapshot.listeners(),
                port,
            ),
            Err(e) => snapshot.failure() == Some(e),
        },
{
    let listeners = match get_all(snapshot) {
        Ok(v) => v,
        Err(e) => {
            return Err(e);
        },
    };
    let ghost ls = listener_views(listeners@);
    let mut out: Vec<Process> = Vec::new();
    let mut i: usize = 0;
    assert(ls.take(0) =~= Seq::<ListenerView>::empty());
    assert(process_views(out@) =~= Seq::<ProcessView>::empty());
    while i < listeners.len()
        invariant
            i <= listeners@.len(),
            ls == listener_views(listeners@),
            process_views(out@) == processes_on_port(ls.take(i as int), port),
        decreases listeners@.len() - i,
    {
        let ghost before = process_views(out@);
        proof {
            assert(ls.take(i + 1).drop_last() =~= ls.take(i as int));
            assert(ls.take(i + 1).last() == listeners@[i as int]@);
        }
        let l = &listeners[i];
        if l.socket.port() == port && !contains_process(&out, &l.process) {
            out.push(l.process.duplicate());
            assert(process_views(out@) =~= before.push(l.process@));
        }
        i += 1;
    }
    assert(ls.take(i as int) =~= ls);
    Ok(out)
}

/// Returns the list of ports listened to by a process given its PID.
pub fn get_ports_by_pid(snapshot: &Snapshot, pid: u32) -> (r: Result<Vec<u16>, Error>)
    ensures
        match r {
            Ok(v) => snapshot.failure() is None && v@ == ports_of_pid(snapshot.listeners(), pid),
            Err(e) => snapshot.failure() == Some(e),
        },
{
    let listeners = match get_all(snapshot) {
        Ok(v) => v,
        Err(e) => {
            return Err(e);
        },
    };
    let ghost ls = listener_views(listeners@);
    let ghost keep = |l: ListenerView| l.process.pid == pid;
    let mut out: Vec<u16> = Vec::new();
    let mut i: usize = 0;
    assert(ls.take(0) =~= Seq::<ListenerView>::empty());
    while i < listeners.len()
        invariant
            i <= listeners@.len(),
            ls == listener_views(listeners@),
            keep == (|l: ListenerView| l.process.pid == pid),
            out@ == ports_where(ls.take(i as int), keep),
        decreases listeners@.len() - i,
    {
        proof {
            assert(ls.take(i + 1).drop_last() =~= ls.take(i as int));
            assert(ls.take(i + 1).last() == listeners@[i as int]@);
        }
        let l = &listeners[i];
        if l.process.pid == pid && !contains_port(&out, l.socket.port()) {
            out.push(l.socket.port());
        }
        i += 1;
    }
    assert(ls.take(i as int) =~= ls);
    Ok(out)
}

/// Returns the list of ports listened to by a process given its name.
pub fn get_ports_by_process_name(snapshot: &Snapshot, name: &str) -> (r: Result<Vec<u16>, Error>)
    ensures
        match r {
            Ok(v) => snapshot.failure() is None && v@ == ports_of_name(
                snapshot.listeners(),
                name@,
            ),
            Err(e) => snapshot.failure() == Some(e),
        },
{
    let listeners = match get_all(snapshot) {
        Ok(v) => v,
        Err(e) => {
            return Err(e);
        },
    };
    let wanted = String::from_str(name);
    let ghost ls = listener_views(listeners@);
    let ghost keep = |l: ListenerView| l.process.name == name@;
    let mut out: Vec<u16> = Vec::new();
    let mut i: usize = 0;
    assert(ls.take(0) =~= Seq::<ListenerView>::empty());
    while i < listeners.len()
        invariant
            i <= listeners@.len(),
            wanted@ == name@,
            ls == listener_views(listeners@),
            keep == (|l: ListenerView| l.process.name == name@),
            out@ == ports_where(ls.take(i as int), keep),
        decreases listeners@.len() - i,
    {
        proof {
            assert(ls.take(i + 1).drop_last() =~= ls.take(i as int));
            assert(ls.take(i + 1).last() == listeners@[i as int]@);
        }
        let l = &listeners[i];
        if l.process.name == wanted && !contains_port(&out, l.socket.port()) {
            out.push(l.socket.port());
        }
        i += 1;
    }
    assert(ls.take(i as int) =~= ls);
    Ok(out)
}

} // verus!
