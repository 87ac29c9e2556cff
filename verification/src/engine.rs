//! The part that every platform shares: endpoints carry a correlation key,
//! a correlation map turns the key into a PID, a per-call cache turns the
//! PID into a name and a path, and what resolves is gathered without
//! repetition.
//!
//! An endpoint whose key has no owner, whose owner is PID 0, whose owner
//! could not be resolved or resolved to an empty name yields no listener.

use crate::model::{IpAddr, Listener, ListenerView, Process, ProcessView, Protocol, SocketAddr};
use std::collections::HashMap;
use vstd::prelude::*;

verus! {

/// What an operating system uses to tie a socket to its owner.
#[derive(Debug, Clone, Copy, PartialEq, Eq, Hash, Structural)]
pub enum CorrelationKey {
    /// The owner's PID itself.
    Pid(u32),
    /// The inode of the socket.
    Inode(u64),
    /// The kernel-virtual address of the socket's control block.
    KvAddr(u64),
}

/// A bound local address with its protocol and correlation key.
#[derive(Debug, Clone, Copy, PartialEq, Eq, Hash, Structural)]
pub struct Endpoint {
    pub local_addr: IpAddr,
    pub local_port: u16,
    pub protocol: Protocol,
    pub key: CorrelationKey,
}

/// What a [`CorrelationMap`] holds: one map from key to PID per kind of key.
pub struct Correlation {
    pub inodes: Map<u64, u32>,
    pub kvaddrs: Map<u64, u32>,
}

/// The PID that owns the socket with key `key`, if the maps know one.
pub open spec fn owner(corr: Correlation, key: CorrelationKey) -> Option<u32> {
    match key {
        CorrelationKey::Pid(pid) => Some(pid),
        CorrelationKey::Inode(i) => if corr.inodes.contains_key(i) {
            Some(corr.inodes[i])
        } else {
            None
        },
        CorrelationKey::KvAddr(a) => if corr.kvaddrs.contains_key(a) {
            Some(corr.kvaddrs[a])
        } else {
            None
        },
    }
}

/// `corr` after learning that `pid` owns `key`. A later entry for the same
/// key replaces an earlier one; a key that is a PID teaches nothing.
pub open spec fn learn(corr: Correlation, key: CorrelationKey, pid: u32) -> Correlation {
    match key {
        CorrelationKey::Pid(_) => corr,
        CorrelationKey::Inode(i) => Correlation { inodes: corr.inodes.insert(i, pid), ..corr },
        CorrelationKey::KvAddr(a) => Correlation { kvaddrs: corr.kvaddrs.insert(a, pid), ..corr },
    }
}

/// The correlation that knows nothing.
pub open spec fn no_correlation() -> Correlation {
    Correlation { inodes: Map::empty(), kvaddrs: Map::empty() }
}

/// From correlation key to owning PID.
pub struct CorrelationMap {
    inodes: HashMap<u64, u32>,
    kvaddrs: HashMap<u64, u32>,
}

impl View for CorrelationMap {
    type V = Correlation;

    closed spec fn view(&self) -> Correlation {
        Correlation { inodes: self.inodes@, kvaddrs: self.kvaddrs@ }
    }
}

impl CorrelationMap {
    /// A map that knows no owner.
    pub fn new() -> (m: CorrelationMap)
        ensures
            m@ == no_correlation(),
    {
        CorrelationMap { inodes: HashMap::new(), kvaddrs: HashMap::new() }
    }

    /// Records that `pid` owns the socket with key `key`.
    pub fn insert(&mut self, key: CorrelationKey, pid: u32)
        ensures
            final(self)@ == learn(old(self)@, key, pid),
    {
        match key {
            CorrelationKey::Pid(_) => {},
            CorrelationKey::Inode(i) => {
                self.inodes.insert(i, pid);
            },
            CorrelationKey::KvAddr(a) => {
                self.kvaddrs.insert(a, pid);
            },
        }
    }

    /// The PID that owns the socket with key `key`.
    pub fn owner_of(&self, key: &CorrelationKey) -> (r: Option<u32>)
        ensures
            r == owner(self@, *key),
    {
        match key {
            CorrelationKey::Pid(pid) => Some(*pid),
            CorrelationKey::Inode(i) => match self.inodes.get(i) {
                Some(pid) => Some(*pid),
                None => None,
            },
            CorrelationKey::KvAddr(a) => match self.kvaddrs.get(a) {
                Some(pid) => Some(*pid),
                None => None,
            },
        }
    }
}

/// What is known of a PID: its name and path, or that resolving it failed.
pub type Resolution = Option<(Seq<char>, Seq<char>)>;

/// What a resolution says, as characters.
pub open spec fn resolution_view(r: Option<(String, String)>) -> Resolution {
    match r {
        Some((name, path)) => Some((name@, path@)),
        None => None,
    }
}

/// `procs` after resolving `pid` to `r`: the first resolution of a PID stays.
pub open spec fn remember(procs: Map<u32, Resolution>, pid: u32, r: Resolution) -> Map<
    u32,
    Resolution,
> {
    if procs.contains_key(pid) {
        procs
    } else {
        procs.insert(pid, r)
    }
}

/// The name and path of each PID resolved in the course of one call.
pub struct ProcNamesPathsCache {
    cache: HashMap<u32, Option<(String, String)>>,
}

impl View for ProcNamesPathsCache {
    type V = Map<u32, Resolution>;

    closed spec fn view(&self) -> Map<u32, Resolution> {
        Map::new(
            |pid: u32| self.cache@.contains_key(pid),
            |pid: u32| resolution_view(self.cache@[pid]),
        )
    }
}

impl ProcNamesPathsCache {
    /// An empty cache.
    pub fn new() -> (c: ProcNamesPathsCache)
        ensures
            c@ == Map::<u32, Resolution>::empty(),
    {
        let c = ProcNamesPathsCache { cache: HashMap::new() };
        assert(c@ =~= Map::<u32, Resolution>::empty());
        c
    }

    /// Whether `pid` has been resolved, successfully or not.
    pub fn contains(&self, pid: u32) -> (b: bool)
        ensures
            b == self@.contains_key(pid),
    {
        self.cache.contains_key(&pid)
    }

    /// Records the outcome of resolving `pid`, unless one is recorded already.
    pub fn insert(&mut self, pid: u32, resolution: Option<(String, String)>)
        ensures
            final(self)@ == remember(old(self)@, pid, resolution_view(resolution)),
    {
        if !self.cache.contains_key(&pid) {
            self.cache.insert(pid, resolution);
            assert(self@ =~= old(self)@.insert(pid, resolution_view(resolution)));
        }
    }

    /// The name and path recorded for `pid`; `None` if `pid` was never
    /// resolved or resolving it failed.
    pub fn get(&self, pid: u32) -> (r: Option<(String, String)>)
        ensures
            match r {
                Some((name, path)) => self@.contains_key(pid) && self@[pid] == Some(
                    (name@, path@),
                ),
                None => !self@.contains_key(pid) || self@[pid] is None,
            },
    {
        match self.cache.get(&pid) {
            Some(Some((name, path))) => Some((name.clone(), path.clone())),
            _ => None,
        }
    }
}

/// The process that owns `ep`, if its key has an owner other than PID 0 that
/// was resolved to a name that is not empty.
pub open spec fn process_for(ep: Endpoint, corr: Correlation, procs: Map<u32, Resolution>) -> Option<
    ProcessView,
> {
    match owner(corr, ep.key) {
        Some(pid) => if pid > 0 && procs.contains_key(pid) {
            match procs[pid] {
                Some((name, path)) => if name.len() > 0 {
                    Some(ProcessView { pid, name, path })
                } else {
                    None
                },
                None => None,
            }
        } else {
            None
        },
        None => None,
    }
}

/// The listener that `ep` stands for, if its owner resolves.
pub open spec fn listener_for(ep: Endpoint, corr: Correlation, procs: Map<u32, Resolution>) -> Option<
    ListenerView,
> {
    match process_for(ep, corr, procs) {
        Some(process) => Some(
            ListenerView {
                process,
                socket: SocketAddr { ip: ep.local_addr, port: ep.local_port },
                protocol: ep.protocol,
            },
        ),
        None => None,
    }
}

/// `s` with `x` added at the end unless it occurs in `s` already.
pub open spec fn push_unique<T>(s: Seq<T>, x: T) -> Seq<T> {
    if s.contains(x) {
        s
    } else {
        s.push(x)
    }
}

/// The listeners that the endpoints stand for, each once, in the order in
/// which they first occur.
pub open spec fn enumerate(eps: Seq<Endpoint>, corr: Correlation, procs: Map<u32, Resolution>) -> Seq<
    ListenerView,
>
    decreases eps.len(),
{
    if eps.len() == 0 {
        Seq::empty()
    } else {
        let before = enumerate(eps.drop_last(), corr, procs);
        match listener_for(eps.last(), corr, procs) {
            Some(l) => push_unique(before, l),
            None => before,
        }
    }
}

/// Whether `ep` is bound to `port` under `protocol`.
pub open spec fn is_on(ep: Endpoint, port: u16, protocol: Protocol) -> bool {
    ep.local_port == port && ep.protocol == protocol
}

/// The owner of the first endpoint at or after position `i` that is bound
/// to `port` under `protocol` and whose owner resolves.
pub open spec fn find_process_from(
    eps: Seq<Endpoint>,
    corr: Correlation,
    procs: Map<u32, Resolution>,
    port: u16,
    protocol: Protocol,
    i: int,
) -> Option<ProcessView>
    decreases eps.len() - i,
{
    if 0 <= i < eps.len() {
        if is_on(eps[i], port, protocol) && process_for(eps[i], corr, procs) is Some {
            process_for(eps[i], corr, procs)
        } else {
            find_process_from(eps, corr, procs, port, protocol, i + 1)
        }
    } else {
        None
    }
}

/// The owner of the first endpoint bound to `port` under `protocol` whose
/// owner resolves.
pub open spec fn find_process(
    eps: Seq<Endpoint>,
    corr: Correlation,
    procs: Map<u32, Resolution>,
    port: u16,
    protocol: Protocol,
) -> Option<ProcessView> {
    find_process_from(eps, corr, procs, port, protocol, 0)
}

/// The views of a sequence of listeners.
pub open spec fn listener_views(v: Seq<Listener>) -> Seq<ListenerView> {
    v.map_values(|l: Listener| l@)
}

/// The process that owns `ep`.
pub fn resolve_process(ep: &Endpoint, corr: &CorrelationMap, cache: &ProcNamesPathsCache) -> (r:
    Option<Process>)
    ensures
        match r {
            Some(p) => process_for(*ep, corr@, cache@) == Some(p@),
            None => process_for(*ep, corr@, cache@) is None,
        },
{
    match corr.owner_of(&ep.key) {
        Some(pid) => {
            if pid == 0 {
                return None;
            }
            match cache.get(pid) {
                Some((name, path)) => {
                    if name.as_str().is_empty() {
                        None
                    } else {
                        Some(Process::new(pid, name, path))
                    }
                },
                None => None,
            }
        },
        None => None,
    }
}

/// The listener that `ep` stands for.
pub fn resolve(ep: &Endpoint, corr: &CorrelationMap, cache: &ProcNamesPathsCache) -> (r: Option<
    Listener,
>)
    ensures
        match r {
            Some(l) => listener_for(*ep, corr@, cache@) == Some(l@),
            None => listener_for(*ep, corr@, cache@) is None,
        },
{
    match resolve_process(ep, corr, cache) {
        Some(process) => Some(
            Listener {
                process,
                socket: SocketAddr::new(ep.local_addr, ep.local_port),
                protocol: ep.protocol,
            },
        ),
        None => None,
    }
}

/// Whether `l` occurs in `set`.
pub fn contains_listener(set: &Vec<Listener>, l: &Listener) -> (b: bool)
    ensures
        b == listener_views(set@).contains(l@),
{
    let mut i: usize = 0;
    while i < set.len()
        invariant
            i <= set@.len(),
            forall|k: int| 0 <= k < i ==> listener_views(set@)[k] != l@,
        decreases set@.len() - i,
    {
        if set[i].same(l) {
            assert(listener_views(set@)[i as int] == l@);
            return true;
        }
        i += 1;
    }
    false
}

/// Every listener that the endpoints stand for, each once, in the order in
/// which they first occur.
pub fn collect_listeners(
    endpoints: &Vec<Endpoint>,
    corr: &CorrelationMap,
    cache: &ProcNamesPathsCache,
) -> (r: Vec<Listener>)
    ensures
        listener_views(r@) == enumerate(endpoints@, corr@, cache@),
{
    let mut out: Vec<Listener> = Vec::new();
    let mut i: usize = 0;
    assert(endpoints@.take(0) =~= Seq::<Endpoint>::empty());
    assert(listener_views(out@) =~= Seq::<ListenerView>::empty());
    while i < endpoints.len()
        invariant
            i <= endpoints@.len(),
            listener_views(out@) == enumerate(endpoints@.take(i as int), corr@, cache@),
        decreases endpoints@.len() - i,
    {
        let ghost before = listener_views(out@);
        proof {
            assert(endpoints@.take(i + 1).drop_last() =~= endpoints@.take(i as int));
            assert(endpoints@.take(i + 1).last() == endpoints@[i as int]);
        }
        match resolve(&endpoints[i], corr, cache) {
            Some(l) => {
                if !contains_listener(&out, &l) {
                    out.push(l);
                    assert(listener_views(out@) =~= before.push(l@));
                }
            },
            None => {},
        }
        i += 1;
    }
    assert(endpoints@.take(i as int) =~= endpoints@);
    out
}

/// The owner of the first endpoint bound to `port` under `protocol` whose
/// owner resolves.
pub fn first_process_on(
    endpoints: &Vec<Endpoint>,
    corr: &CorrelationMap,
    cache: &ProcNamesPathsCache,
    port: u16,
    protocol: Protocol,
) -> (r: Option<Process>)
    ensures
        match r {
            Some(p) => find_process(endpoints@, corr@, cache@, port, protocol) == Some(p@),
            None => find_process(endpoints@, corr@, cache@, port, protocol) is None,
        },
{
    let mut i: usize = 0;
    while i < endpoints.len()
        invariant
            i <= endpoints@.len(),
            find_process(endpoints@, corr@, cache@, port, protocol) == find_process_from(
                endpoints@,
                corr@,
                cache@,
                port,
                protocol,
                i as int,
            ),
        decreases endpoints@.len() - i,
    {
        let ep = &endpoints[i];
        if ep.local_port == port && ep.protocol == protocol {
            match resolve_process(ep, corr, cache) {
                Some(p) => {
                    return Some(p);
                },
                None => {},
            }
        }
        i += 1;
    }
    None
}

} // verus!
