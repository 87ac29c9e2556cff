//! OpenBSD: the kernel is asked for the processes and, for each process,
//! for its sockets, so every socket comes with its owner.

use crate::bsd::{
    socket_info_list, socket_infos, unsigned_pid, cast_unsigned, CSocketInfo, Numbers, SocketInfo,
};
use crate::engine::{
    collect_listeners, enumerate, find_process, first_process_on, listener_views, no_correlation,
    remember, Correlation, CorrelationKey, CorrelationMap, Endpoint, ProcNamesPathsCache,
    Resolution,
};
use crate::model::{Error, Listener, ListenerView, Process, ProcessView, Protocol};
use crate::text::{find_byte_from, find_from, lossy_text, string_from_utf8_lossy};
use vstd::prelude::*;
use vstd::slice::slice_subrange;

verus! {

/// A process as the helper gives it: its PID and its short command name as
/// text that a zero byte ends.
#[derive(Debug, Clone, PartialEq, Eq, Hash)]
pub struct CProcessInfo {
    pub name: Vec<u8>,
    pub pid: i32,
}

/// A process: its PID and its short command name.
#[derive(Debug, Clone, PartialEq, Eq, Hash)]
pub struct ProcessInfo {
    pub pid: i32,
    pub name: String,
}

/// The bytes of `buffer` in front of its first zero byte; all of them if
/// there is none.
pub open spec fn c_bytes(buffer: Seq<u8>) -> Seq<u8> {
    buffer.subrange(0, find_from(buffer, 0, 0))
}

impl ProcessInfo {
    /// The process that the helper's record stands for. Bytes of the name
    /// that are no text are replaced.
    pub fn from(c_info: &CProcessInfo) -> (r: ProcessInfo)
        ensures
            r.pid == c_info.pid,
            r.name@ == lossy_text(c_bytes(c_info.name@)),
    {
        let buffer = c_info.name.as_slice();
        let end = find_byte_from(buffer, 0, 0);
        ProcessInfo { pid: c_info.pid, name: string_from_utf8_lossy(slice_subrange(buffer, 0, end)) }
    }
}

/// What was learned of one process.
#[derive(Debug, Clone, PartialEq, Eq, Hash)]
pub struct ProcessSockets {
    /// The process.
    pub process: ProcessInfo,
    /// Where its executable was found on the search path; empty if it was
    /// not found.
    pub path: String,
    /// Its sockets; `None` if they could not be fetched.
    pub sockets: Option<Vec<CSocketInfo>>,
}

/// What the helpers said when they were asked. `None` if the processes
/// could not be listed.
#[derive(Debug, Clone, PartialEq, Eq, Hash)]
pub struct SysctlSnapshot {
    /// The numbers of the target.
    pub numbers: Numbers,
    /// The processes, in the order in which they are to be looked at.
    pub processes: Option<Vec<ProcessSockets>>,
}

/// The endpoint that a socket of process `pid` stands for: the protocol is
/// that of the socket, the correlation key is the PID.
pub open spec fn endpoint_of(s: SocketInfo, pid: u32) -> Endpoint {
    Endpoint {
        local_addr: s.address.ip,
        local_port: s.address.port,
        protocol: s.protocol,
        key: CorrelationKey::Pid(pid),
    }
}

/// The endpoints of one process.
pub open spec fn process_endpoints(p: ProcessSockets, numbers: Numbers) -> Seq<Endpoint> {
    match p.sockets {
        Some(list) => socket_infos(list@, numbers).map_values(
            |s: SocketInfo| endpoint_of(s, unsigned_pid(p.process.pid)),
        ),
        None => Seq::empty(),
    }
}

/// The endpoints of the processes, in order.
pub open spec fn all_endpoints(ps: Seq<ProcessSockets>, numbers: Numbers) -> Seq<Endpoint>
    decreases ps.len(),
{
    if ps.len() == 0 {
        Seq::empty()
    } else {
        all_endpoints(ps.drop_last(), numbers) + process_endpoints(ps.last(), numbers)
    }
}

/// The name and path of each PID, going by the processes in order.
pub open spec fn process_table(ps: Seq<ProcessSockets>) -> Map<u32, Resolution>
    decreases ps.len(),
{
    if ps.len() == 0 {
        Map::empty()
    } else {
        remember(
            process_table(ps.drop_last()),
            unsigned_pid(ps.last().process.pid),
            Some((ps.last().process.name@, ps.last().path@)),
        )
    }
}

/// Whether the sockets of each of the processes were fetched.
pub open spec fn all_fetched(ps: Seq<ProcessSockets>) -> bool {
    forall|i: int| 0 <= i < ps.len() ==> (#[trigger] ps[i]).sockets is Some
}

impl SysctlSnapshot {
    /// Whether the processes were listed and the sockets of each were
    /// fetched.
    pub open spec fn complete(&self) -> bool {
        self.processes is Some && all_fetched(self.processes->0@)
    }

    /// The processes that were listed.
    pub open spec fn entries(&self) -> Seq<ProcessSockets> {
        match self.processes {
            Some(p) => p@,
            None => Seq::empty(),
        }
    }

    /// The endpoints of all processes, keyed by PID.
    pub open spec fn endpoints(&self) -> Seq<Endpoint> {
        all_endpoints(self.entries(), self.numbers)
    }

    /// A PID is its own owner: nothing to correlate.
    pub open spec fn correlation(&self) -> Correlation {
        no_correlation()
    }

    /// The name and path of each PID.
    pub open spec fn processes(&self) -> Map<u32, Resolution> {
        process_table(self.entries())
    }

    /// The listeners that the snapshot holds.
    pub open spec fn listeners(&self) -> Seq<ListenerView> {
        enumerate(self.endpoints(), self.correlation(), self.processes())
    }

    /// The process that a lookup of `port` under `protocol` finds.
    pub open spec fn process_on(&self, port: u16, protocol: Protocol) -> Option<ProcessView> {
        find_process(self.endpoints(), self.correlation(), self.processes(), port, protocol)
    }
}

/// Adds the endpoints of one process to `out`. Says whether its sockets
/// were fetched.
fn push_process_endpoints(p: &ProcessSockets, numbers: &Numbers, out: &mut Vec<Endpoint>) -> (ok:
    bool)
    ensures
        ok == p.sockets is Some,
        final(out)@ == old(out)@ + process_endpoints(*p, *numbers),
{
    match &p.sockets {
        Some(list) => {
            let sockets = socket_info_list(list, numbers);
            let pid = cast_unsigned(p.process.pid);
            let mut i: usize = 0;
            assert(out@ =~= old(out)@ + sockets@.take(0).map_values(
                |s: SocketInfo| endpoint_of(s, pid),
            ));
            while i < sockets.len()
                invariant
                    i <= sockets@.len(),
                    out@ == old(out)@ + sockets@.take(i as int).map_values(
                        |s: SocketInfo| endpoint_of(s, pid),
                    ),
                decreases sockets@.len() - i,
            {
                let s = &sockets[i];
                out.push(
                    Endpoint {
                        local_addr: s.address.ip,
                        local_port: s.address.port,
                        protocol: s.protocol,
                        key: CorrelationKey::Pid(pid),
                    },
                );
                assert(out@ =~= old(out)@ + sockets@.take(i + 1).map_values(
                    |s: SocketInfo| endpoint_of(s, pid),
                ));
                i += 1;
            }
            assert(sockets@.take(i as int) =~= sockets@);
            true
        },
        None => {
            assert(out@ + Seq::<Endpoint>::empty() =~= out@);
            false
        },
    }
}

/// The endpoints and the names and paths that the processes give; nothing
/// if the sockets of one of them were not fetched.
fn gather(ps: &Vec<ProcessSockets>, numbers: &Numbers) -> (r: Option<
    (Vec<Endpoint>, ProcNamesPathsCache),
>)
    ensures
        match r {
            Some((endpoints, cache)) => all_fetched(ps@) && endpoints@ == all_endpoints(
                ps@,
                *numbers,
            ) && cache@ == process_table(ps@),
            None => !all_fetched(ps@),
        },
{
    let mut endpoints: Vec<Endpoint> = Vec::new();
    let mut cache = ProcNamesPathsCache::new();
    let mut i: usize = 0;
    assert(ps@.take(0) =~= Seq::<ProcessSockets>::empty());
    while i < ps.len()
        invariant
            i <= ps@.len(),
            forall|k: int| 0 <= k < i ==> (#[trigger] ps@[k]).sockets is Some,
            endpoints@ == all_endpoints(ps@.take(i as int), *numbers),
            cache@ == process_table(ps@.take(i as int)),
        decreases ps@.len() - i,
    {
        proof {
            assert(ps@.take(i + 1).drop_last() =~= ps@.take(i as int));
            assert(ps@.take(i + 1).last() == ps@[i as int]);
        }
        let p = &ps[i];
        if !push_process_endpoints(p, numbers, &mut endpoints) {
            return None;
        }
        cache.insert(cast_unsigned(p.process.pid), Some((p.process.name.clone(), p.path.clone())));
        i += 1;
    }
    assert(ps@.take(i as int) =~= ps@);
    Some((endpoints, cache))
}

/// Every listener that the snapshot holds, each once.
///
/// Fails if the processes could not be listed or the sockets of one of
/// them could not be fetched.
pub fn get_all(snapshot: &SysctlSnapshot) -> (r: Result<Vec<Listener>, Error>)
    ensures
        match r {
            Ok(v) => snapshot.complete() && listener_views(v@) == snapshot.listeners(),
            Err(e) => !snapshot.complete() && e == Error::SourceUnavailable,
        },
{
    let ps = match &snapshot.processes {
        Some(p) => p,
        None => {
            return Err(Error::SourceUnavailable);
        },
    };
    match gather(ps, &snapshot.numbers) {
        Some((endpoints, cache)) => {
            let corr = CorrelationMap::new();
            Ok(collect_listeners(&endpoints, &corr, &cache))
        },
        None => Err(Error::SourceUnavailable),
    }
}

/// The first process, in the order of the snapshot, that holds a socket
/// bound to `port` under `protocol`.
pub fn get_process_by_port(snapshot: &SysctlSnapshot, port: u16, protocol: Protocol) -> (r: Result<
    Process,
    Error,
>)
    ensures
        match r {
            Ok(p) => snapshot.complete() && snapshot.process_on(port, protocol) == Some(p@),
            Err(e) => if snapshot.complete() {
                e == Error::NotFound && snapshot.process_on(port, protocol) is None
            } else {
                e == Error::SourceUnavailable
            },
        },
{
    let ps = match &snapshot.processes {
        Some(p) => p,
        None => {
            return Err(Error::SourceUnavailable);
        },
    };
    match gather(ps, &snapshot.numbers) {
        Some((endpoints, cache)) => {
            let corr = CorrelationMap::new();
            match first_process_on(&endpoints, &corr, &cache, port, protocol) {
                Some(p) => Ok(p),
                None => Err(Error::NotFound),
            }
        },
        None => Err(Error::SourceUnavailable),
    }
}

} // verus!
