//! The macOS adapter: listeners out of what libproc says.
//!
//! libproc lists the PIDs, for each PID its file descriptors, and for each
//! descriptor that is a socket a record of the socket. The record holds the
//! local port in network order in the low half of a 32-bit field and the
//! local address as it goes over the wire. The owner of a socket is the
//! process it was listed under.

use crate::byte_order::{big_endian_u16, read_u16, read_u16_into, string_from_utf8};
use crate::engine::{
    collect_listeners, enumerate, find_process, first_process_on, listener_views, no_correlation,
    remember, Correlation, CorrelationKey, CorrelationMap, Endpoint, ProcNamesPathsCache,
    Resolution,
};
use crate::model::{
    Error, IpAddr, Ipv4Addr, Ipv6Addr, Listener, ListenerView, Process, ProcessView, Protocol,
    SocketAddr,
};
use vstd::prelude::*;
use vstd::slice::slice_subrange;
use vstd::utf8::{decode_utf8, valid_utf8};

verus! {

/// The kind of file descriptor that is a socket.
pub const FD_TYPE_SOCKET: u32 = 2;

/// The address family of IPv4.
pub const AF_INET: i32 = 2;

/// The address family of IPv6.
pub const AF_INET6: i32 = 30;

/// The IP protocol number of TCP.
pub const IPPROT_TCP: i32 = 6;

/// The IP protocol number of UDP.
pub const IPPROT_UDP: i32 = 17;

/// The size in bytes of one entry of a listing of file descriptors.
pub const PROC_FD_INFO_SIZE: usize = 8;

/// The size of the buffer into which a name or a path is read.
pub const PROC_PID_PATH_INFO_MAXSIZE: usize = 4096;

/// One entry of a listing of file descriptors.
#[derive(Debug, Clone, Copy, PartialEq, Eq, Hash, Default, Structural)]
pub struct CProcFdInfo {
    pub proc_fd: i32,
    pub proc_fd_type: u32,
}

impl CProcFdInfo {
    /// The number of the descriptor.
    pub fn fd(&self) -> (r: i32)
        ensures
            r == self.proc_fd,
    {
        self.proc_fd
    }

    /// The kind of the descriptor.
    pub fn fd_type(&self) -> (r: u32)
        ensures
            r == self.proc_fd_type,
    {
        self.proc_fd_type
    }
}

/// A PID as libproc gives it.
#[derive(Debug, Clone, Copy, PartialEq, Eq, Hash, Structural)]
pub struct ProcPid(pub i32);

/// The entries of a listing of PIDs that are above zero, in order.
pub open spec fn live_pids(listing: Seq<i32>) -> Seq<ProcPid>
    decreases listing.len(),
{
    if listing.len() == 0 {
        Seq::empty()
    } else if listing.last() > 0 {
        live_pids(listing.drop_last()).push(ProcPid(listing.last()))
    } else {
        live_pids(listing.drop_last())
    }
}

impl ProcPid {
    /// The PID `n`.
    pub fn new(n: i32) -> (r: ProcPid)
        ensures
            r == ProcPid(n),
    {
        ProcPid(n)
    }

    /// The PID as libproc takes it.
    pub fn as_c_int(self) -> (r: i32)
        ensures
            r == self.0,
    {
        self.0
    }

    /// The PID as a number without sign, if it is not negative.
    pub fn as_u_32(self) -> (r: Option<u32>)
        ensures
            r == (if self.0 >= 0 {
                Some(self.0 as u32)
            } else {
                None
            }),
    {
        if self.0 >= 0 {
            Some(self.0 as u32)
        } else {
            None
        }
    }

    /// The PIDs of a listing, without the places that hold no PID.
    pub fn get_all(listing: &[i32]) -> (r: Vec<ProcPid>)
        ensures
            r@ == live_pids(listing@),
    {
        let mut out: Vec<ProcPid> = Vec::new();
        let mut i: usize = 0;
        assert(listing@.take(0) =~= Seq::<i32>::empty());
        while i < listing.len()
            invariant
                i <= listing@.len(),
                out@ == live_pids(listing@.take(i as int)),
            decreases listing@.len() - i,
        {
            proof {
                assert(listing@.take(i + 1).drop_last() =~= listing@.take(i as int));
                assert(listing@.take(i + 1).last() == listing@[i as int]);
            }
            if listing[i] > 0 {
                out.push(ProcPid::new(listing[i]));
            }
            i += 1;
        }
        assert(listing@.take(i as int) =~= listing@);
        out
    }
}

/// A file descriptor that is a socket.
#[derive(Debug, Clone, Copy, PartialEq, Eq, Hash, Structural)]
pub struct SocketFd {
    pub fd: i32,
}

/// The descriptors of a listing that are sockets, in order.
pub open spec fn socket_fds(listing: Seq<CProcFdInfo>) -> Seq<SocketFd>
    decreases listing.len(),
{
    if listing.len() == 0 {
        Seq::empty()
    } else if listing.last().proc_fd_type == FD_TYPE_SOCKET {
        socket_fds(listing.drop_last()).push(SocketFd { fd: listing.last().proc_fd })
    } else {
        socket_fds(listing.drop_last())
    }
}

impl SocketFd {
    /// The socket descriptor with number `fd`.
    pub fn new(fd: i32) -> (r: SocketFd)
        ensures
            r == (SocketFd { fd }),
    {
        SocketFd { fd }
    }

    /// The number of the descriptor.
    pub fn fd(&self) -> (r: i32)
        ensures
            r == self.fd,
    {
        self.fd
    }

    /// How many entries a listing of `buffer_size` bytes holds.
    pub fn count_in(buffer_size: i32) -> (r: usize)
        ensures
            r == (if buffer_size > 0 {
                buffer_size as int / 8
            } else {
                0
            }),
    {
        if buffer_size > 0 {
            buffer_size as usize / PROC_FD_INFO_SIZE
        } else {
            0
        }
    }

    /// The socket descriptors of a listing of the descriptors of a process.
    pub fn get_all_of_pid(listing: &[CProcFdInfo]) -> (r: Vec<SocketFd>)
        ensures
            r@ == socket_fds(listing@),
    {
        let mut out: Vec<SocketFd> = Vec::new();
        let mut i: usize = 0;
        assert(listing@.take(0) =~= Seq::<CProcFdInfo>::empty());
        while i < listing.len()
            invariant
                i <= listing@.len(),
                out@ == socket_fds(listing@.take(i as int)),
            decreases listing@.len() - i,
        {
            proof {
                assert(listing@.take(i + 1).drop_last() =~= listing@.take(i as int));
                assert(listing@.take(i + 1).last() == listing@[i as int]);
            }
            if listing[i].fd_type() == FD_TYPE_SOCKET {
                out.push(SocketFd::new(listing[i].fd()));
            }
            i += 1;
        }
        assert(listing@.take(i as int) =~= listing@);
        out
    }
}

/// What the record of a socket descriptor says of the socket, as far as it
/// is read here.
#[derive(Debug, Clone, Copy, PartialEq, Eq, Hash)]
pub struct CSocketFdInfo {
    /// The address family, `soi_family`.
    pub family: i32,
    /// The IP protocol, `soi_protocol`.
    pub ip_protocol: i32,
    /// The state of a TCP socket, `tcpsi_state`.
    pub state: i32,
    /// The local port, `insi_lport`: in its low half, in network order.
    pub lport: i32,
    /// The local address, `insi_laddr`, as it lies in memory: an IPv6
    /// address in all sixteen bytes, an IPv4 address in the last four.
    pub laddr: [u8; 16],
}

/// A socket as its record gives it: local address and protocol.
#[derive(Debug, Clone, Copy, PartialEq, Eq, Hash, Structural)]
pub struct ProtoListener {
    pub local_addr: SocketAddr,
    pub protocol: Protocol,
}

/// The port that a 32-bit field holds in its low half in network order: the
/// lowest byte is the high byte of the port.
pub open spec fn port_of(lport: i32) -> u16 {
    big_endian_u16((lport as int % 0x100) as u8, (lport as int / 0x100 % 0x100) as u8)
}

/// The local address of a socket of the given family.
pub open spec fn local_addr_of(family: i32, laddr: Seq<u8>) -> Option<IpAddr> {
    if family == AF_INET {
        Some(IpAddr::V4(Ipv4Addr { a: laddr[12], b: laddr[13], c: laddr[14], d: laddr[15] }))
    } else if family == AF_INET6 {
        Some(
            IpAddr::V6(
                Ipv6Addr {
                    s0: big_endian_u16(laddr[0], laddr[1]),
                    s1: big_endian_u16(laddr[2], laddr[3]),
                    s2: big_endian_u16(laddr[4], laddr[5]),
                    s3: big_endian_u16(laddr[6], laddr[7]),
                    s4: big_endian_u16(laddr[8], laddr[9]),
                    s5: big_endian_u16(laddr[10], laddr[11]),
                    s6: big_endian_u16(laddr[12], laddr[13]),
                    s7: big_endian_u16(laddr[14], laddr[15]),
                },
            ),
        )
    } else {
        None
    }
}

/// The protocol of a socket of the given family and IP protocol.
pub open spec fn protocol_of(family: i32, ip_protocol: i32) -> Option<Protocol> {
    if family == AF_INET || family == AF_INET6 {
        if ip_protocol == IPPROT_TCP {
            Some(Protocol::TCP)
        } else if ip_protocol == IPPROT_UDP {
            Some(Protocol::UDP)
        } else {
            None
        }
    } else {
        None
    }
}

/// What a record says, if the socket is an IPv4 or IPv6 socket under TCP or
/// UDP. The state of the socket plays no part.
pub open spec fn proto_listener_of(info: CSocketFdInfo) -> Option<ProtoListener> {
    match (local_addr_of(info.family, info.laddr@), protocol_of(info.family, info.ip_protocol)) {
        (Some(ip), Some(protocol)) => Some(
            ProtoListener { local_addr: SocketAddr { ip, port: port_of(info.lport) }, protocol },
        ),
        _ => None,
    }
}

/// Byte-order correctness of the port: a field whose two lowest bytes are
/// those of `port` in network order, the high byte first, is read as
/// `port`, whatever its two highest bytes hold.
pub proof fn lemma_port_round_trip(lport: i32, port: u16)
    requires
        lport as int % 0x100 == port / 0x100,
        lport as int / 0x100 % 0x100 == port % 0x100,
    ensures
        port_of(lport) == port,
{
}

impl CSocketFdInfo {
    /// The local address of a socket of the given family.
    pub fn get_local_addr(family: i32, laddr: &[u8; 16]) -> (r: Option<IpAddr>)
        ensures
            r == local_addr_of(family, laddr@),
    {
        if family == AF_INET {
            Some(IpAddr::V4(Ipv4Addr::new(laddr[12], laddr[13], laddr[14], laddr[15])))
        } else if family == AF_INET6 {
            let s = read_u16_into(laddr.as_slice());
            Some(IpAddr::V6(Ipv6Addr::new(s[0], s[1], s[2], s[3], s[4], s[5], s[6], s[7])))
        } else {
            None
        }
    }

    /// The protocol of a socket of the given family and IP protocol.
    pub fn get_protocol(family: i32, ip_protocol: i32) -> (r: Option<Protocol>)
        ensures
            r == protocol_of(family, ip_protocol),
    {
        if family == AF_INET || family == AF_INET6 {
            if ip_protocol == IPPROT_TCP {
                Some(Protocol::TCP)
            } else if ip_protocol == IPPROT_UDP {
                Some(Protocol::UDP)
            } else {
                None
            }
        } else {
            None
        }
    }

    /// The port in the low half of `lport`.
    pub fn get_local_port(lport: i32) -> (r: u16)
        ensures
            r == port_of(lport),
    {
        let unsigned: i64 = lport as i64 + 0x1_0000_0000;
        let b0: u8 = (unsigned % 0x100) as u8;
        let b1: u8 = (unsigned / 0x100 % 0x100) as u8;
        let lport_bytes: [u8; 2] = [b0, b1];
        read_u16(lport_bytes.as_slice())
    }

    /// What the record says of the socket.
    pub fn to_tcp_listener(&self) -> (r: Option<ProtoListener>)
        ensures
            r == proto_listener_of(*self),
    {
        let local_address = match CSocketFdInfo::get_local_addr(self.family, &self.laddr) {
            Some(a) => a,
            None => {
                return None;
            },
        };
        let protocol = match CSocketFdInfo::get_protocol(self.family, self.ip_protocol) {
            Some(p) => p,
            None => {
                return None;
            },
        };
        Some(
            ProtoListener {
                local_addr: SocketAddr::new(
                    local_address,
                    CSocketFdInfo::get_local_port(self.lport),
                ),
                protocol,
            },
        )
    }
}

impl ProtoListener {
    /// A socket from its parts.
    pub fn new(addr: IpAddr, port: u16, protocol: Protocol) -> (r: ProtoListener)
        ensures
            r == (ProtoListener { local_addr: SocketAddr { ip: addr, port }, protocol }),
    {
        ProtoListener { local_addr: SocketAddr::new(addr, port), protocol }
    }

    /// The local address.
    pub fn socket_addr(&self) -> (r: SocketAddr)
        ensures
            r == self.local_addr,
    {
        self.local_addr
    }

    /// The protocol.
    pub fn protocol(&self) -> (r: Protocol)
        ensures
            r == self.protocol,
    {
        self.protocol
    }
}

/// The bytes that a call wrote into `buffer` when it returned `len`: the
/// first `len` bytes, if `len` is above zero and the buffer is that long.
pub open spec fn written(buffer: Seq<u8>, len: i32) -> Option<Seq<u8>> {
    if 0 < len <= buffer.len() {
        Some(buffer.subrange(0, len as int))
    } else {
        None
    }
}

/// The text that a call wrote into `buffer` when it returned `len`, if it
/// wrote any and it is well-formed UTF-8.
pub open spec fn written_text(buffer: Seq<u8>, len: i32) -> Option<Seq<char>> {
    match written(buffer, len) {
        Some(bytes) => if valid_utf8(bytes) {
            Some(decode_utf8(bytes))
        } else {
            None
        },
        None => None,
    }
}

/// The text that a call wrote into `buffer` when it returned `len`.
pub fn text_written(buffer: &[u8], len: i32) -> (r: Option<String>)
    ensures
        match r {
            Some(s) => written_text(buffer@, len) == Some(s@),
            None => written_text(buffer@, len) is None,
        },
{
    if len <= 0 || len as usize > buffer.len() {
        return None;
    }
    string_from_utf8(slice_subrange(buffer, 0, len as usize))
}

/// The name of a process.
#[derive(Debug, Clone, PartialEq, Eq, Hash, Default)]
pub struct ProcName(pub String);

impl ProcName {
    /// The name `name`.
    pub fn new(name: String) -> (r: ProcName)
        ensures
            r.0@ == name@,
    {
        ProcName(name)
    }

    /// The name that `proc_name` wrote into `buffer` when it returned
    /// `len`; nothing if it failed or what it wrote is no text.
    pub fn from_pid(buffer: &[u8], len: i32) -> (r: Option<ProcName>)
        ensures
            match r {
                Some(n) => written_text(buffer@, len) == Some(n.0@),
                None => written_text(buffer@, len) is None,
            },
    {
        match text_written(buffer, len) {
            Some(name) => Some(ProcName::new(name)),
            None => None,
        }
    }
}

/// The path of the executable of a process.
#[derive(Debug, Clone, PartialEq, Eq, Hash, Default)]
pub struct ProcPath(pub String);

/// The path that was written, or the empty path.
pub open spec fn written_path(buffer: Seq<u8>, len: i32) -> Seq<char> {
    match written_text(buffer, len) {
        Some(path) => path,
        None => Seq::empty(),
    }
}

impl ProcPath {
    /// The path `path`.
    pub fn new(path: String) -> (r: ProcPath)
        ensures
            r.0@ == path@,
    {
        ProcPath(path)
    }

    /// The path that `proc_pidpath` wrote into `buffer` when it returned
    /// `len`; the empty path if it failed or what it wrote is no text.
    pub fn from_pid(buffer: &[u8], len: i32) -> (r: ProcPath)
        ensures
            r.0@ == written_path(buffer@, len),
    {
        match text_written(buffer, len) {
            Some(path) => ProcPath::new(path),
            None => ProcPath(String::new()),
        }
    }
}

/// What libproc said of one process.
#[derive(Debug, Clone, PartialEq, Eq, Hash)]
pub struct LibprocProcess {
    /// The PID.
    pub pid: ProcPid,
    /// The buffer that `proc_name` wrote the name into.
    pub name_buffer: Vec<u8>,
    /// What `proc_name` returned.
    pub name_len: i32,
    /// The buffer that `proc_pidpath` wrote the path into.
    pub path_buffer: Vec<u8>,
    /// What `proc_pidpath` returned.
    pub path_len: i32,
    /// The record of each socket descriptor that could be read.
    pub sockets: Vec<CSocketFdInfo>,
}

/// What libproc said when it was asked. `None` if the PIDs could not be
/// listed.
#[derive(Debug, Clone, PartialEq, Eq, Hash)]
pub struct LibprocSnapshot {
    pub processes: Option<Vec<LibprocProcess>>,
}

/// The endpoint that a socket of process `pid` stands for.
pub open spec fn endpoint_of(l: ProtoListener, pid: u32) -> Endpoint {
    Endpoint {
        local_addr: l.local_addr.ip,
        local_port: l.local_addr.port,
        protocol: l.protocol,
        key: CorrelationKey::Pid(pid),
    }
}

/// The endpoints among the socket records of process `pid`, in order.
pub open spec fn socket_endpoints(sockets: Seq<CSocketFdInfo>, pid: u32) -> Seq<Endpoint>
    decreases sockets.len(),
{
    if sockets.len() == 0 {
        Seq::empty()
    } else {
        let before = socket_endpoints(sockets.drop_last(), pid);
        match proto_listener_of(sockets.last()) {
            Some(l) => before.push(endpoint_of(l, pid)),
            None => before,
        }
    }
}

/// The endpoints of one process; none if its PID is negative.
pub open spec fn process_endpoints(p: LibprocProcess) -> Seq<Endpoint> {
    if p.pid.0 >= 0 {
        socket_endpoints(p.sockets@, p.pid.0 as u32)
    } else {
        Seq::empty()
    }
}

/// The endpoints of the processes, in order.
pub open spec fn all_endpoints(ps: Seq<LibprocProcess>) -> Seq<Endpoint>
    decreases ps.len(),
{
    if ps.len() == 0 {
        Seq::empty()
    } else {
        all_endpoints(ps.drop_last()) + process_endpoints(ps.last())
    }
}

/// What is known of one process: its name and path, or that it has no name
/// that could be read.
pub open spec fn resolution_of(p: LibprocProcess) -> Resolution {
    match written_text(p.name_buffer@, p.name_len) {
        Some(name) => Some((name, written_path(p.path_buffer@, p.path_len))),
        None => None,
    }
}

/// The name and path of each PID, going by the processes in order.
pub open spec fn process_table(ps: Seq<LibprocProcess>) -> Map<u32, Resolution>
    decreases ps.len(),
{
    if ps.len() == 0 {
        Map::empty()
    } else {
        let before = process_table(ps.drop_last());
        if ps.last().pid.0 >= 0 {
            remember(before, ps.last().pid.0 as u32, resolution_of(ps.last()))
        } else {
            before
        }
    }
}

impl LibprocSnapshot {
    /// Whether the PIDs could be listed.
    pub open spec fn complete(&self) -> bool {
        self.processes is Some
    }

    /// The processes that were listed.
    pub open spec fn entries(&self) -> Seq<LibprocProcess> {
        match self.processes {
            Some(p) => p@,
            None => Seq::empty(),
        }
    }

    /// The endpoints of all processes, keyed by PID.
    pub open spec fn endpoints(&self) -> Seq<Endpoint> {
        all_endpoints(self.entries())
    }

    /// A PID is its own owner: nothing to correlate.
    pub open spec fn correlation(&self) -> Correlation {
        no_correlation()
    }

    /// The name and path of each PID.
    pub open spec fn processes(&self) -> Map<u32, Resolution> {
        process_table(self.entries())
    }

    /// The listeners that the snapshot holds.
    pub open spec fn listeners(&self) -> Seq<ListenerView> {
        enumerate(self.endpoints(), self.correlation(), self.processes())
    }

    /// The process that a lookup of `port` under `protocol` finds.
    pub open spec fn process_on(&self, port: u16, protocol: Protocol) -> Option<ProcessView> {
        find_process(self.endpoints(), self.correlation(), self.processes(), port, protocol)
    }
}

/// Adds the endpoints among the socket records of process `pid` to `out`.
fn push_socket_endpoints(sockets: &Vec<CSocketFdInfo>, pid: u32, out: &mut Vec<Endpoint>)
    ensures
        final(out)@ == old(out)@ + socket_endpoints(sockets@, pid),
{
    let mut i: usize = 0;
    assert(sockets@.take(0) =~= Seq::<CSocketFdInfo>::empty());
    assert(out@ =~= old(out)@ + Seq::<Endpoint>::empty());
    while i < sockets.len()
        invariant
            i <= sockets@.len(),
            out@ == old(out)@ + socket_endpoints(sockets@.take(i as int), pid),
        decreases sockets@.len() - i,
    {
        proof {
            assert(sockets@.take(i + 1).drop_last() =~= sockets@.take(i as int));
            assert(sockets@.take(i + 1).last() == sockets@[i as int]);
        }
        let ghost before = socket_endpoints(sockets@.take(i as int), pid);
        match sockets[i].to_tcp_listener() {
            Some(l) => {
                out.push(
                    Endpoint {
                        local_addr: l.local_addr.ip,
                        local_port: l.local_addr.port,
                        protocol: l.protocol,
                        key: CorrelationKey::Pid(pid),
                    },
                );
                assert(out@ =~= old(out)@ + before.push(endpoint_of(l, pid)));
            },
            None => {},
        }
        i += 1;
    }
    assert(sockets@.take(i as int) =~= sockets@);
}

/// The endpoints and the names and paths that the processes give.
fn gather(ps: &Vec<LibprocProcess>) -> (r: (Vec<Endpoint>, ProcNamesPathsCache))
    ensures
        r.0@ == all_endpoints(ps@),
        r.1@ == process_table(ps@),
{
    let mut endpoints: Vec<Endpoint> = Vec::new();
    let mut cache = ProcNamesPathsCache::new();
    let mut i: usize = 0;
    assert(ps@.take(0) =~= Seq::<LibprocProcess>::empty());
    while i < ps.len()
        invariant
            i <= ps@.len(),
            endpoints@ == all_endpoints(ps@.take(i as int)),
            cache@ == process_table(ps@.take(i as int)),
        decreases ps@.len() - i,
    {
        proof {
            assert(ps@.take(i + 1).drop_last() =~= ps@.take(i as int));
            assert(ps@.take(i + 1).last() == ps@[i as int]);
        }
        let p = &ps[i];
        match p.pid.as_u_32() {
            Some(pid) => {
                push_socket_endpoints(&p.sockets, pid, &mut endpoints);
                let resolution = match ProcName::from_pid(p.name_buffer.as_slice(), p.name_len) {
                    Some(name) => {
                        let path = ProcPath::from_pid(p.path_buffer.as_slice(), p.path_len);
                        Some((name.0, path.0))
                    },
                    None => None,
                };
                cache.insert(pid, resolution);
            },
            None => {
                assert(endpoints@ + Seq::<Endpoint>::empty() =~= endpoints@);
            },
        }
        i += 1;
    }
    assert(ps@.take(i as int) =~= ps@);
    (endpoints, cache)
}

/// Every listener that the snapshot holds, each once.
///
/// Fails only if the PIDs could not be listed. A socket that is neither
/// IPv4 nor IPv6, neither TCP nor UDP, and a process without a name that
/// can be read are passed over.
pub fn get_all(snapshot: &LibprocSnapshot) -> (r: Result<Vec<Listener>, Error>)
    ensures
        match r {
            Ok(v) => snapshot.complete() && listener_views(v@) == snapshot.listeners(),
            Err(e) => !snapshot.complete() && e == Error::SourceUnavailable,
        },
{
    match &snapshot.processes {
        Some(ps) => {
            let (endpoints, cache) = gather(ps);
            let corr = CorrelationMap::new();
            Ok(collect_listeners(&endpoints, &corr, &cache))
        },
        None => Err(Error::SourceUnavailable),
    }
}

/// The process that owns the first socket bound to `port` under `protocol`
/// whose owner has a name.
pub fn get_process_by_port(snapshot: &LibprocSnapshot, port: u16, protocol: Protocol) -> (r: Result<
    Process,
    Error,
>)
    ensures
        match r {
            Ok(p) => snapshot.complete() && snapshot.process_on(port, protocol) == Some(p@),
            Err(e) => if snapshot.complete() {
                e == Error::NotFound && snapshot.process_on(port, protocol) is None
            } else {
                e == Error::SourceUnavailable
            },
        },
{
    match &snapshot.processes {
        Some(ps) => {
            let (endpoints, cache) = gather(ps);
            let corr = CorrelationMap::new();
            match first_process_on(&endpoints, &corr, &cache, port, protocol) {
                Some(p) => Ok(p),
                None => Err(Error::NotFound),
            }
        },
        None => Err(Error::SourceUnavailable),
    }
}

} // verus!
