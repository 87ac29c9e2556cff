//! The uniform records: [`Process`], [`Listener`], [`Protocol`], and the
//! socket address they carry.

use vstd::prelude::*;

verus! {

/// The protocol used by the listener.
#[derive(Debug, Clone, Copy, PartialEq, Eq, Hash, Structural)]
pub enum Protocol {
    /// Transmission Control Protocol.
    TCP,
    /// User Datagram Protocol.
    UDP,
}

/// An IPv4 address, held as its four octets in network order.
#[derive(Debug, Clone, Copy, PartialEq, Eq, Hash, Structural)]
pub struct Ipv4Addr {
    pub a: u8,
    pub b: u8,
    pub c: u8,
    pub d: u8,
}

/// An IPv6 address, held as its eight 16-bit segments in network order.
#[derive(Debug, Clone, Copy, PartialEq, Eq, Hash, Structural)]
pub struct Ipv6Addr {
    pub s0: u16,
    pub s1: u16,
    pub s2: u16,
    pub s3: u16,
    pub s4: u16,
    pub s5: u16,
    pub s6: u16,
    pub s7: u16,
}

/// An IP address of either family.
#[derive(Debug, Clone, Copy, PartialEq, Eq, Hash, Structural)]
pub enum IpAddr {
    V4(Ipv4Addr),
    V6(Ipv6Addr),
}

/// An IP address together with a 16-bit port.
#[derive(Debug, Clone, Copy, PartialEq, Eq, Hash, Structural)]
pub struct SocketAddr {
    pub ip: IpAddr,
    pub port: u16,
}

impl Ipv4Addr {
    /// The address `a.b.c.d`.
    pub fn new(a: u8, b: u8, c: u8, d: u8) -> (r: Ipv4Addr)
        ensures
            r == (Ipv4Addr { a, b, c, d }),
    {
        Ipv4Addr { a, b, c, d }
    }

    /// The four octets, first to last.
    pub open spec fn octets_seq(self) -> Seq<u8> {
        seq![self.a, self.b, self.c, self.d]
    }
}

impl Ipv6Addr {
    /// The address whose segments are the eight arguments, first to last.
    pub fn new(s0: u16, s1: u16, s2: u16, s3: u16, s4: u16, s5: u16, s6: u16, s7: u16) -> (r:
        Ipv6Addr)
        ensures
            r == (Ipv6Addr { s0, s1, s2, s3, s4, s5, s6, s7 }),
    {
        Ipv6Addr { s0, s1, s2, s3, s4, s5, s6, s7 }
    }

    /// The eight segments, first to last.
    pub open spec fn segments_seq(self) -> Seq<u16> {
        seq![self.s0, self.s1, self.s2, self.s3, self.s4, self.s5, self.s6, self.s7]
    }
}

impl SocketAddr {
    /// The socket address `ip:port`.
    pub fn new(ip: IpAddr, port: u16) -> (r: SocketAddr)
        ensures
            r == (SocketAddr { ip, port }),
    {
        SocketAddr { ip, port }
    }

    /// The port of this address.
    pub fn port(&self) -> (p: u16)
        ensures
            p == self.port,
    {
        self.port
    }

    /// The IP address of this socket address.
    pub fn ip(&self) -> (ip: IpAddr)
        ensures
            ip == self.ip,
    {
        self.ip
    }

    /// Whether two socket addresses are the same address and port.
    pub fn same(&self, other: &SocketAddr) -> (b: bool)
        ensures
            b == (*self == *other),
    {
        *self == *other
    }
}

/// A process, characterized by its PID, name and path.
#[derive(Debug, Clone, PartialEq, Eq, Hash)]
pub struct Process {
    /// Process ID.
    pub pid: u32,
    /// Process name.
    pub name: String,
    /// Process path.
    pub path: String,
}

/// What a [`Process`] is: its PID and the characters of its name and path.
pub struct ProcessView {
    pub pid: u32,
    pub name: Seq<char>,
    pub path: Seq<char>,
}

impl View for Process {
    type V = ProcessView;

    open spec fn view(&self) -> ProcessView {
        ProcessView { pid: self.pid, name: self.name@, path: self.path@ }
    }
}

/// A process listening on a socket.
#[derive(Debug, Clone, PartialEq, Eq, Hash)]
pub struct Listener {
    /// The listening process.
    pub process: Process,
    /// The socket this listener is listening on.
    pub socket: SocketAddr,
    /// The protocol used.
    pub protocol: Protocol,
}

/// What a [`Listener`] is: the view of its process, its socket and protocol.
pub struct ListenerView {
    pub process: ProcessView,
    pub socket: SocketAddr,
    pub protocol: Protocol,
}

impl View for Listener {
    type V = ListenerView;

    open spec fn view(&self) -> ListenerView {
        ListenerView { process: self.process@, socket: self.socket, protocol: self.protocol }
    }
}

impl Process {
    /// A process record from its parts.
    pub fn new(pid: u32, name: String, path: String) -> (p: Process)
        ensures
            p@ == (ProcessView { pid, name: name@, path: path@ }),
    {
        Process { pid, name, path }
    }

    /// Whether two records describe the same process: equal PID, name and path.
    pub fn same(&self, other: &Process) -> (b: bool)
        ensures
            b == (self@ == other@),
    {
        let b = self.pid == other.pid && self.name == other.name && self.path == other.path;
        proof {
            if self@ == other@ {
                assert(self.name@ == other.name@);
            }
        }
        b
    }

    /// A copy of this record.
    pub fn duplicate(&self) -> (p: Process)
        ensures
            p@ == self@,
    {
        Process { pid: self.pid, name: self.name.clone(), path: self.path.clone() }
    }
}

impl Listener {
    /// A listener record from its parts.
    pub fn new(pid: u32, name: String, path: String, socket: SocketAddr, protocol: Protocol) -> (l:
        Listener)
        ensures
            l@ == (ListenerView {
                process: ProcessView { pid, name: name@, path: path@ },
                socket,
                protocol,
            }),
    {
        let process = Process::new(pid, name, path);
        Listener { process, socket, protocol }
    }

    /// Whether two records are equal in every field.
    pub fn same(&self, other: &Listener) -> (b: bool)
        ensures
            b == (self@ == other@),
    {
        self.process.same(&other.process) && self.socket == other.socket && self.protocol
            == other.protocol
    }

    /// A copy of this record.
    pub fn duplicate(&self) -> (l: Listener)
        ensures
            l@ == self@,
    {
        Listener { process: self.process.duplicate(), socket: self.socket, protocol: self.protocol }
    }
}

/// Why an enumeration or a lookup failed.
#[derive(Debug, Clone, Copy, PartialEq, Eq, Hash, Structural)]
pub enum Error {
    /// No adapter exists for the operating system that the snapshot is of.
    Unsupported,
    /// A source that the operation needs could not be read at all.
    SourceUnavailable,
    /// No endpoint matches the port and protocol that were asked for.
    NotFound,
}

} // verus!
