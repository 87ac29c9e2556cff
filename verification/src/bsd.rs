//! The BSD adapters: listeners out of what small native helpers read from
//! the kernel.
//!
//! On FreeBSD and NetBSD the helpers give the sockets of each protocol and
//! family, each with the kernel-virtual address of its control block, and a
//! list that ties such addresses to PIDs. On OpenBSD the helpers give the
//! processes and, for each process, its sockets. In both cases a socket
//! comes as a record with the address as it goes over the wire, the port in
//! host order, and the numbers of its family and protocol.

pub mod helpers;
pub mod openbsd;

use crate::byte_order::{big_endian_u16, read_u16_into};
use crate::engine::{
    collect_listeners, enumerate, find_process, first_process_on, learn, listener_views,
    no_correlation, remember, Correlation, CorrelationKey, CorrelationMap, Endpoint,
    ProcNamesPathsCache, Resolution,
};
use crate::laws::{lemma_find_append, lemma_find_other_protocol};
use crate::model::{
    Error, IpAddr, Ipv4Addr, Ipv6Addr, Listener, ListenerView, Process, ProcessView, Protocol,
    SocketAddr,
};
use vstd::prelude::*;

verus! {

/// `libc::AF_INET`: the number that the target gives the address family of
/// IPv4. It differs between targets: the crate gives it the value 1, 2 or 3,
/// and no more than that is claimed of it.
#[verifier::external_body]
pub(crate) fn af_inet() -> (r: i32)
    ensures
        1 <= r <= 3,
{
    libc::AF_INET
}

/// `libc::IPPROTO_TCP`: the number of the protocol TCP, which the crate
/// gives the value 6 on every target.
#[verifier::external_body]
pub(crate) fn ipproto_tcp() -> (r: i32)
    ensures
        r == 6,
{
    libc::IPPROTO_TCP
}

/// The numbers by which the target tells IPv4 from IPv6 and TCP from UDP.
#[derive(Debug, Clone, Copy, PartialEq, Eq, Hash, Structural)]
pub struct Numbers {
    /// The address family of IPv4.
    pub af_inet: i32,
    /// The protocol number of TCP.
    pub ipproto_tcp: i32,
}

impl Numbers {
    /// The numbers of the target that this was built for: TCP is protocol
    /// 6 everywhere; the family of IPv4 is 1, 2 or 3, as the target has it.
    pub fn of_target() -> (r: Numbers)
        ensures
            r.ipproto_tcp == 6,
            1 <= r.af_inet <= 3,
    {
        Numbers { af_inet: af_inet(), ipproto_tcp: ipproto_tcp() }
    }
}

/// An address as a helper gives it.
#[derive(Debug, Clone, Copy, PartialEq, Eq, Hash)]
pub struct CSocketAddress {
    /// The address as it goes over the wire: an IPv4 address in the first
    /// four bytes, an IPv6 address in all sixteen.
    pub addr: [u8; 16],
    /// The address family.
    pub family: i32,
}

/// A socket as a helper gives it.
#[derive(Debug, Clone, Copy, PartialEq, Eq, Hash)]
pub struct CSocketInfo {
    pub address: CSocketAddress,
    /// The kernel-virtual address of the control block, where the helper
    /// gives one.
    pub kvaddr: u64,
    /// The protocol number.
    pub protocol: i32,
    /// The port, in host order.
    pub port: u16,
}

/// One entry of the list that ties sockets to processes.
#[derive(Debug, Clone, Copy, PartialEq, Eq, Hash, Structural)]
pub struct CSocketFile {
    pub kvaddr: u64,
    pub pid: i32,
}

/// A socket: its address, its protocol and the kernel-virtual address of
/// its control block.
#[derive(Debug, Clone, Copy, PartialEq, Eq, Hash, Structural)]
pub struct SocketInfo {
    pub address: SocketAddr,
    pub protocol: Protocol,
    pub kvaddr: u64,
}

/// The address that a helper's record holds: IPv4 if the family is that of
/// IPv4, else IPv6.
pub open spec fn ip_of(address: CSocketAddress, numbers: Numbers) -> IpAddr {
    let b = address.addr@;
    if address.family == numbers.af_inet {
        IpAddr::V4(Ipv4Addr { a: b[0], b: b[1], c: b[2], d: b[3] })
    } else {
        IpAddr::V6(
            Ipv6Addr {
                s0: big_endian_u16(b[0], b[1]),
                s1: big_endian_u16(b[2], b[3]),
                s2: big_endian_u16(b[4], b[5]),
                s3: big_endian_u16(b[6], b[7]),
                s4: big_endian_u16(b[8], b[9]),
                s5: big_endian_u16(b[10], b[11]),
                s6: big_endian_u16(b[12], b[13]),
                s7: big_endian_u16(b[14], b[15]),
            },
        )
    }
}

/// The socket that a helper's record stands for: TCP if the protocol is
/// that of TCP, else UDP.
pub open spec fn socket_info_of(c: CSocketInfo, numbers: Numbers) -> SocketInfo {
    SocketInfo {
        address: SocketAddr { ip: ip_of(c.address, numbers), port: c.port },
        protocol: if c.protocol == numbers.ipproto_tcp {
            Protocol::TCP
        } else {
            Protocol::UDP
        },
        kvaddr: c.kvaddr,
    }
}

/// The sockets that a list of records stands for.
pub open spec fn socket_infos(list: Seq<CSocketInfo>, numbers: Numbers) -> Seq<SocketInfo> {
    list.map_values(|c: CSocketInfo| socket_info_of(c, numbers))
}

/// The PID as a number without sign, bit for bit.
pub open spec fn unsigned_pid(pid: i32) -> u32 {
    if pid >= 0 {
        pid as u32
    } else {
        (pid + 0x1_0000_0000) as u32
    }
}

/// The PID as a number without sign, bit for bit.
pub fn cast_unsigned(pid: i32) -> (r: u32)
    ensures
        r == unsigned_pid(pid),
{
    if pid >= 0 {
        pid as u32
    } else {
        (pid as i64 + 0x1_0000_0000) as u32
    }
}

impl CSocketInfo {
    /// The socket that the record stands for.
    pub fn to_socket_info(&self, numbers: &Numbers) -> (r: SocketInfo)
        ensures
            r == socket_info_of(*self, *numbers),
    {
        let b = &self.address.addr;
        let ip = if self.address.family == numbers.af_inet {
            IpAddr::V4(Ipv4Addr::new(b[0], b[1], b[2], b[3]))
        } else {
            let s = read_u16_into(b.as_slice());
            IpAddr::V6(Ipv6Addr::new(s[0], s[1], s[2], s[3], s[4], s[5], s[6], s[7]))
        };
        SocketInfo {
            address: SocketAddr::new(ip, self.port),
            protocol: if self.protocol == numbers.ipproto_tcp {
                Protocol::TCP
            } else {
                Protocol::UDP
            },
            kvaddr: self.kvaddr,
        }
    }
}

/// The sockets that a list of records stands for.
pub fn socket_info_list(list: &Vec<CSocketInfo>, numbers: &Numbers) -> (r: Vec<SocketInfo>)
    ensures
        r@ == socket_infos(list@, *numbers),
{
    let mut sockets: Vec<SocketInfo> = Vec::new();
    let mut i: usize = 0;
    while i < list.len()
        invariant
            i <= list@.len(),
            sockets@ == socket_infos(list@.take(i as int), *numbers),
        decreases list@.len() - i,
    {
        sockets.push(list[i].to_socket_info(numbers));
        assert(sockets@ =~= socket_infos(list@.take(i + 1), *numbers));
        i += 1;
    }
    assert(list@.take(i as int) =~= list@);
    sockets
}

/// What resolving one PID gave: its name and its path, each if it could be
/// read.
#[derive(Debug, Clone, PartialEq, Eq, Hash)]
pub struct ProcessNamePath {
    pub pid: i32,
    pub name: Option<String>,
    pub path: Option<String>,
}

/// The name and path of a process whose name could be read; the path is
/// empty if it could not be read.
pub open spec fn name_path(name: Option<String>, path: Option<String>) -> Resolution {
    match name {
        Some(n) => Some(
            (
                n@,
                match path {
                    Some(p) => p@,
                    None => Seq::empty(),
                },
            ),
        ),
        None => None,
    }
}

/// The name and path of a process whose name could be read.
pub fn get_process_name_path(name: Option<String>, path: Option<String>) -> (r: Option<
    (String, String),
>)
    ensures
        crate::engine::resolution_view(r) == name_path(name, path),
{
    match name {
        Some(n) => {
            let p = match path {
                Some(p) => p,
                None => String::new(),
            };
            Some((n, p))
        },
        None => None,
    }
}

/// What the helpers said when they were asked. A list that could not be
/// fetched is `None`.
#[derive(Debug, Clone, PartialEq, Eq, Hash)]
pub struct KernelSnapshot {
    /// The numbers of the target.
    pub numbers: Numbers,
    /// The TCP sockets over IPv4.
    pub tcp: Option<Vec<CSocketInfo>>,
    /// The TCP sockets over IPv6.
    pub tcp6: Option<Vec<CSocketInfo>>,
    /// The UDP sockets over IPv4.
    pub udp: Option<Vec<CSocketInfo>>,
    /// The UDP sockets over IPv6.
    pub udp6: Option<Vec<CSocketInfo>>,
    /// The list that ties sockets to processes.
    pub files: Option<Vec<CSocketFile>>,
    /// What resolving the PIDs of that list gave.
    pub processes: Vec<ProcessNamePath>,
}

/// The sockets of a list that was fetched, none of one that was not.
pub open spec fn sockets_of(list: Option<Vec<CSocketInfo>>, numbers: Numbers) -> Seq<SocketInfo> {
    match list {
        Some(l) => socket_infos(l@, numbers),
        None => Seq::empty(),
    }
}

/// The endpoint that a socket stands for, under the protocol of the list
/// it came in: its correlation key is the address of its control block.
pub open spec fn endpoint_of(s: SocketInfo, protocol: Protocol) -> Endpoint {
    Endpoint {
        local_addr: s.address.ip,
        local_port: s.address.port,
        protocol,
        key: CorrelationKey::KvAddr(s.kvaddr),
    }
}

/// The endpoints that the sockets of a list stand for.
pub open spec fn endpoints_of(list: Option<Vec<CSocketInfo>>, numbers: Numbers, protocol: Protocol) -> Seq<
    Endpoint,
> {
    sockets_of(list, numbers).map_values(|s: SocketInfo| endpoint_of(s, protocol))
}

/// Who owns which socket, going by the list in order: of two entries for
/// one socket the later counts.
pub open spec fn kvaddr_owners(files: Seq<CSocketFile>) -> Correlation
    decreases files.len(),
{
    if files.len() == 0 {
        no_correlation()
    } else {
        learn(
            kvaddr_owners(files.drop_last()),
            CorrelationKey::KvAddr(files.last().kvaddr),
            unsigned_pid(files.last().pid),
        )
    }
}

/// The name and path of each PID, going by what was resolved in order.
pub open spec fn process_table(ps: Seq<ProcessNamePath>) -> Map<u32, Resolution>
    decreases ps.len(),
{
    if ps.len() == 0 {
        Map::empty()
    } else {
        remember(
            process_table(ps.drop_last()),
            unsigned_pid(ps.last().pid),
            name_path(ps.last().name, ps.last().path),
        )
    }
}

impl KernelSnapshot {
    /// Whether everything that an enumeration needs was fetched.
    pub open spec fn complete(&self) -> bool {
        self.tcp is Some && self.tcp6 is Some && self.udp is Some && self.udp6 is Some
            && self.files is Some
    }

    /// Whether everything that a lookup under `protocol` needs was fetched.
    pub open spec fn complete_for(&self, protocol: Protocol) -> bool {
        self.files is Some && match protocol {
            Protocol::TCP => self.tcp is Some && self.tcp6 is Some,
            Protocol::UDP => self.udp is Some && self.udp6 is Some,
        }
    }

    /// The endpoints of the two TCP lists, IPv4 first.
    pub open spec fn tcp_endpoints(&self) -> Seq<Endpoint> {
        endpoints_of(self.tcp, self.numbers, Protocol::TCP) + endpoints_of(
            self.tcp6,
            self.numbers,
            Protocol::TCP,
        )
    }

    /// The endpoints of the two UDP lists, IPv4 first.
    pub open spec fn udp_endpoints(&self) -> Seq<Endpoint> {
        endpoints_of(self.udp, self.numbers, Protocol::UDP) + endpoints_of(
            self.udp6,
            self.numbers,
            Protocol::UDP,
        )
    }

    /// The endpoints of the lists of one protocol.
    pub open spec fn endpoints_under(&self, protocol: Protocol) -> Seq<Endpoint> {
        match protocol {
            Protocol::TCP => self.tcp_endpoints(),
            Protocol::UDP => self.udp_endpoints(),
        }
    }

    /// The endpoints of all four lists: TCP, TCP6, UDP, UDP6.
    pub open spec fn endpoints(&self) -> Seq<Endpoint> {
        self.tcp_endpoints() + self.udp_endpoints()
    }

    /// Who owns which socket.
    pub open spec fn correlation(&self) -> Correlation {
        match self.files {
            Some(f) => kvaddr_owners(f@),
            None => no_correlation(),
        }
    }

    /// The name and path of each PID.
    pub open spec fn processes(&self) -> Map<u32, Resolution> {
        process_table(self.processes@)
    }

    /// The listeners that the snapshot holds.
    pub open spec fn listeners(&self) -> Seq<ListenerView> {
        enumerate(self.endpoints(), self.correlation(), self.processes())
    }

    /// The process that a lookup of `port` under `protocol` finds.
    pub open spec fn process_on(&self, port: u16, protocol: Protocol) -> Option<ProcessView> {
        find_process(self.endpoints(), self.correlation(), self.processes(), port, protocol)
    }
}

/// A lookup needs only the lists of its protocol: in the others it finds
/// nothing.
pub proof fn lemma_lookup_reads_own_lists(snapshot: &KernelSnapshot, port: u16, protocol: Protocol)
    ensures
        snapshot.process_on(port, protocol) == find_process(
            snapshot.endpoints_under(protocol),
            snapshot.correlation(),
            snapshot.processes(),
            port,
            protocol,
        ),
{
    let corr = snapshot.correlation();
    let procs = snapshot.processes();
    let tcp = snapshot.tcp_endpoints();
    let udp = snapshot.udp_endpoints();
    lemma_find_append(tcp, udp, corr, procs, port, protocol);
    assert forall|k: int| 0 <= k < tcp.len() implies (#[trigger] tcp[k]).protocol
        == Protocol::TCP by {}
    assert forall|k: int| 0 <= k < udp.len() implies (#[trigger] udp[k]).protocol
        == Protocol::UDP by {}
    match protocol {
        Protocol::TCP => {
            lemma_find_other_protocol(udp, corr, procs, port, protocol);
        },
        Protocol::UDP => {
            lemma_find_other_protocol(tcp, corr, procs, port, protocol);
        },
    }
}

/// Adds the endpoints of a list to `out`, if the list was fetched.
pub fn push_endpoints(
    list: &Option<Vec<CSocketInfo>>,
    numbers: &Numbers,
    protocol: Protocol,
    out: &mut Vec<Endpoint>,
)
    ensures
        final(out)@ == old(out)@ + endpoints_of(*list, *numbers, protocol),
{
    match list {
        Some(l) => {
            let sockets = socket_info_list(l, numbers);
            let mut i: usize = 0;
            assert(out@ =~= old(out)@ + sockets@.take(0).map_values(
                |s: SocketInfo| endpoint_of(s, protocol),
            ));
            while i < sockets.len()
                invariant
                    i <= sockets@.len(),
                    out@ == old(out)@ + sockets@.take(i as int).map_values(
                        |s: SocketInfo| endpoint_of(s, protocol),
                    ),
                decreases sockets@.len() - i,
            {
                let s = &sockets[i];
                out.push(
                    Endpoint {
                        local_addr: s.address.ip,
                        local_port: s.address.port,
                        protocol,
                        key: CorrelationKey::KvAddr(s.kvaddr),
                    },
                );
                assert(out@ =~= old(out)@ + sockets@.take(i + 1).map_values(
                    |s: SocketInfo| endpoint_of(s, protocol),
                ));
                i += 1;
            }
            assert(sockets@.take(i as int) =~= sockets@);
        },
        None => {
            assert(out@ + Seq::<Endpoint>::empty() =~= out@);
            assert(endpoints_of(*list, *numbers, protocol) =~= Seq::<Endpoint>::empty());
        },
    }
}

/// The map from the address of a control block to the PID of its owner.
pub fn get_kvaddr_to_pid_table(files: &Vec<CSocketFile>) -> (r: CorrelationMap)
    ensures
        r@ == kvaddr_owners(files@),
{
    let mut retval = CorrelationMap::new();
    let mut i: usize = 0;
    assert(files@.take(0) =~= Seq::<CSocketFile>::empty());
    while i < files.len()
        invariant
            i <= files@.len(),
            retval@ == kvaddr_owners(files@.take(i as int)),
        decreases files@.len() - i,
    {
        proof {
            assert(files@.take(i + 1).drop_last() =~= files@.take(i as int));
            assert(files@.take(i + 1).last() == files@[i as int]);
        }
        retval.insert(CorrelationKey::KvAddr(files[i].kvaddr), cast_unsigned(files[i].pid));
        i += 1;
    }
    assert(files@.take(i as int) =~= files@);
    retval
}

/// The names and paths that resolving the PIDs gave.
pub fn fill_cache(ps: &Vec<ProcessNamePath>) -> (r: ProcNamesPathsCache)
    ensures
        r@ == process_table(ps@),
{
    let mut cache = ProcNamesPathsCache::new();
    let mut i: usize = 0;
    assert(ps@.take(0) =~= Seq::<ProcessNamePath>::empty());
    while i < ps.len()
        invariant
            i <= ps@.len(),
            cache@ == process_table(ps@.take(i as int)),
        decreases ps@.len() - i,
    {
        proof {
            assert(ps@.take(i + 1).drop_last() =~= ps@.take(i as int));
            assert(ps@.take(i + 1).last() == ps@[i as int]);
        }
        let p = &ps[i];
        let resolution = get_process_name_path(p.name.clone(), p.path.clone());
        cache.insert(cast_unsigned(p.pid), resolution);
        i += 1;
    }
    assert(ps@.take(i as int) =~= ps@);
    cache
}

/// Every listener that the snapshot holds, each once.
///
/// Fails only if a list could not be fetched. A socket that no process
/// holds and a process whose name could not be read are passed over.
pub fn get_all(snapshot: &KernelSnapshot) -> (r: Result<Vec<Listener>, Error>)
    ensures
        match r {
            Ok(v) => snapshot.complete() && listener_views(v@) == snapshot.listeners(),
            Err(e) => !snapshot.complete() && e == Error::SourceUnavailable,
        },
{
    let files = match &snapshot.files {
        Some(f) => f,
        None => {
            return Err(Error::SourceUnavailable);
        },
    };
    if snapshot.tcp.is_none() || snapshot.tcp6.is_none() || snapshot.udp.is_none()
        || snapshot.udp6.is_none() {
        return Err(Error::SourceUnavailable);
    }
    let cache = fill_cache(&snapshot.processes);
    let mut endpoints: Vec<Endpoint> = Vec::new();
    push_endpoints(&snapshot.tcp, &snapshot.numbers, Protocol::TCP, &mut endpoints);
    push_endpoints(&snapshot.tcp6, &snapshot.numbers, Protocol::TCP, &mut endpoints);
    push_endpoints(&snapshot.udp, &snapshot.numbers, Protocol::UDP, &mut endpoints);
    push_endpoints(&snapshot.udp6, &snapshot.numbers, Protocol::UDP, &mut endpoints);
    assert(endpoints@ =~= snapshot.endpoints());
    let kvaddr_pid_map = get_kvaddr_to_pid_table(files);
    Ok(collect_listeners(&endpoints, &kvaddr_pid_map, &cache))
}

/// The process that owns the first socket bound to `port` under `protocol`
/// whose owner is known by name. Only the lists of that protocol are looked
/// at.
pub fn get_process_by_port(snapshot: &KernelSnapshot, port: u16, protocol: Protocol) -> (r: Result<
    Process,
    Error,
>)
    ensures
        match r {
            Ok(p) => snapshot.complete_for(protocol) && snapshot.process_on(port, protocol)
                == Some(p@),
            Err(e) => if snapshot.complete_for(protocol) {
                e == Error::NotFound && snapshot.process_on(port, protocol) is None
            } else {
                e == Error::SourceUnavailable
            },
        },
{
    let files = match &snapshot.files {
        Some(f) => f,
        None => {
            return Err(Error::SourceUnavailable);
        },
    };
    let mut sockets_on_port: Vec<Endpoint> = Vec::new();
    match protocol {
        Protocol::TCP => {
            if snapshot.tcp.is_none() || snapshot.tcp6.is_none() {
                return Err(Error::SourceUnavailable);
            }
            push_endpoints(&snapshot.tcp, &snapshot.numbers, Protocol::TCP, &mut sockets_on_port);
            push_endpoints(&snapshot.tcp6, &snapshot.numbers, Protocol::TCP, &mut sockets_on_port);
        },
        Protocol::UDP => {
            if snapshot.udp.is_none() || snapshot.udp6.is_none() {
                return Err(Error::SourceUnavailable);
            }
            push_endpoints(&snapshot.udp, &snapshot.numbers, Protocol::UDP, &mut sockets_on_port);
            push_endpoints(&snapshot.udp6, &snapshot.numbers, Protocol::UDP, &mut sockets_on_port);
        },
    }
    assert(sockets_on_port@ =~= snapshot.endpoints_under(protocol));
    proof {
        lemma_lookup_reads_own_lists(snapshot, port, protocol);
    }
    let kvaddr_pid_map = get_kvaddr_to_pid_table(files);
    let cache = fill_cache(&snapshot.processes);
    match first_process_on(&sockets_on_port, &kvaddr_pid_map, &cache, port, protocol) {
        Some(p) => Ok(p),
        None => Err(Error::NotFound),
    }
}

} // verus!
