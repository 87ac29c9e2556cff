//! Rows of `/proc/net/tcp`, `tcp6`, `udp` and `udp6`.
//!
//! A row is a line of blank-separated fields. Field 1 is the local address,
//! `address:port` in hexadecimal; field 3 is the state, which must be there
//! but is not looked at; field 9 is the inode, in decimal. The address is
//! printed as the kernel holds it in memory, in 32-bit words of the host's
//! byte order, so reading it back depends on that order.

use crate::engine::{CorrelationKey, Endpoint};
use crate::model::{IpAddr, Ipv4Addr, Ipv6Addr, Protocol, SocketAddr};
use crate::number::{parse_unsigned, parse_unsigned_bytes};
use crate::text::{field, find_byte_from, find_from, nth_field, split_map};
use vstd::prelude::*;
use vstd::slice::slice_subrange;

verus! {

/// A socket as a table row gives it: local address, inode and protocol.
#[derive(Debug, Clone, Copy, PartialEq, Eq, Hash, Structural)]
pub struct ProtoListener {
    pub local_addr: SocketAddr,
    pub inode: u64,
    pub protocol: Protocol,
}

/// The byte `:`.
pub const COLON: u8 = 0x3a;

/// The byte that ends a line.
pub const LINE_FEED: u8 = 0x0a;

/// `piece` read as a hexadecimal number of at most 32 bits.
pub open spec fn hex_word(piece: Seq<u8>) -> Option<u32> {
    match parse_unsigned(piece, 16, 0xffff_ffff) {
        Some(v) => Some(v as u32),
        None => None,
    }
}

/// The hexadecimal numbers among the `:`-separated pieces of `s`, in order.
/// A piece that is no such number is passed over.
pub open spec fn hex_words(s: Seq<u8>) -> Seq<u32> {
    split_map(s, COLON, 0, |piece: Seq<u8>| hex_word(piece))
}

/// The IPv4 address whose four bytes in memory are those of `word` on a host
/// of the given byte order.
pub open spec fn ipv4_from_word(word: u32, little_endian: bool) -> Ipv4Addr {
    let b0 = (word % 0x100) as u8;
    let b1 = ((word / 0x100) % 0x100) as u8;
    let b2 = ((word / 0x1_0000) % 0x100) as u8;
    let b3 = (word / 0x100_0000) as u8;
    if little_endian {
        Ipv4Addr { a: b0, b: b1, c: b2, d: b3 }
    } else {
        Ipv4Addr { a: b3, b: b2, c: b1, d: b0 }
    }
}

/// The local address of an IPv4 row: among its `:`-separated pieces at
/// least two hexadecimal numbers, of which the first is the address as a
/// word of the host and the second, which must fit sixteen bits, the port.
pub open spec fn v4_local(local: Seq<u8>, little_endian: bool) -> Option<SocketAddr> {
    let words = hex_words(local);
    if words.len() >= 2 && words[1] <= 0xffff {
        Some(
            SocketAddr {
                ip: IpAddr::V4(ipv4_from_word(words[0], little_endian)),
                port: words[1] as u16,
            },
        )
    } else {
        None
    }
}

/// What a row of an IPv4 table says, if it is well formed: at least ten
/// fields, a local address and a decimal inode.
pub open spec fn v4_entry(line: Seq<u8>, protocol: Protocol, little_endian: bool) -> Option<
    ProtoListener,
> {
    match (field(line, 1), field(line, 3), field(line, 9)) {
        (Some(local), Some(_), Some(inode_text)) => {
            match (v4_local(local, little_endian), parse_unsigned(inode_text, 10, u64::MAX as nat)) {
                (Some(local_addr), Some(inode)) => Some(
                    ProtoListener { local_addr, inode: inode as u64, protocol },
                ),
                _ => None,
            }
        },
        _ => None,
    }
}

/// The bytes that the two-digit groups of `s` spell in hexadecimal, from
/// position `i` on. A group that is no number is passed over.
pub open spec fn hex_pairs_from(s: Seq<u8>, i: int) -> Seq<u8>
    decreases s.len() - i,
{
    if 0 <= i && i + 2 <= s.len() {
        let head = match parse_unsigned(s.subrange(i, i + 2), 16, 0xff) {
            Some(v) => seq![v as u8],
            None => Seq::empty(),
        };
        head + hex_pairs_from(s, i + 2)
    } else {
        Seq::empty()
    }
}

/// The 16-bit segment with high byte `hi` and low byte `lo`.
pub open spec fn segment(hi: u8, lo: u8) -> u16 {
    (hi * 0x100 + lo) as u16
}

/// The IPv6 address that the sixteen bytes `b` stand for, read as four
/// 32-bit words of the host's byte order: on a little-endian host the bytes
/// of each word come reversed.
pub open spec fn ipv6_from_bytes(b: Seq<u8>, little_endian: bool) -> Ipv6Addr {
    if little_endian {
        Ipv6Addr {
            s0: segment(b[3], b[2]),
            s1: segment(b[1], b[0]),
            s2: segment(b[7], b[6]),
            s3: segment(b[5], b[4]),
            s4: segment(b[11], b[10]),
            s5: segment(b[9], b[8]),
            s6: segment(b[15], b[14]),
            s7: segment(b[13], b[12]),
        }
    } else {
        Ipv6Addr {
            s0: segment(b[0], b[1]),
            s1: segment(b[2], b[3]),
            s2: segment(b[4], b[5]),
            s3: segment(b[6], b[7]),
            s4: segment(b[8], b[9]),
            s5: segment(b[10], b[11]),
            s6: segment(b[12], b[13]),
            s7: segment(b[14], b[15]),
        }
    }
}

/// The local address of an IPv6 row: before the first `:` an even number of
/// characters holding at least sixteen hexadecimal bytes, of which the first
/// sixteen count; after it, up to the next `:` or the end, a hexadecimal
/// port.
pub open spec fn v6_local(local: Seq<u8>, little_endian: bool) -> Option<SocketAddr> {
    let c = find_from(local, COLON, 0);
    if 0 <= c < local.len() {
        let ip_text = local.subrange(0, c);
        let port_text = local.subrange(c + 1, find_from(local, COLON, c + 1));
        let bytes = hex_pairs_from(ip_text, 0);
        if ip_text.len() % 2 == 0 && bytes.len() >= 16 {
            match parse_unsigned(port_text, 16, 0xffff) {
                Some(port) => Some(
                    SocketAddr {
                        ip: IpAddr::V6(ipv6_from_bytes(bytes, little_endian)),
                        port: port as u16,
                    },
                ),
                None => None,
            }
        } else {
            None
        }
    } else {
        None
    }
}

/// What a row of an IPv6 table says, if it is well formed.
pub open spec fn v6_entry(line: Seq<u8>, protocol: Protocol, little_endian: bool) -> Option<
    ProtoListener,
> {
    match (field(line, 1), field(line, 3), field(line, 9)) {
        (Some(local), Some(_), Some(inode_text)) => {
            match (v6_local(local, little_endian), parse_unsigned(inode_text, 10, u64::MAX as nat)) {
                (Some(local_addr), Some(inode)) => Some(
                    ProtoListener { local_addr, inode: inode as u64, protocol },
                ),
                _ => None,
            }
        },
        _ => None,
    }
}

/// What a row says, in a table of the given family.
pub open spec fn table_entry(line: Seq<u8>, protocol: Protocol, v6: bool, little_endian: bool) -> Option<
    ProtoListener,
> {
    if v6 {
        v6_entry(line, protocol, little_endian)
    } else {
        v4_entry(line, protocol, little_endian)
    }
}

/// The well-formed rows of a table, in order. Every state counts; the
/// heading and any other line that is no row are passed over.
pub open spec fn table_entries(table: Seq<u8>, protocol: Protocol, v6: bool, little_endian: bool) -> Seq<
    ProtoListener,
> {
    split_map(
        table,
        LINE_FEED,
        0,
        |line: Seq<u8>| table_entry(line, protocol, v6, little_endian),
    )
}

/// The endpoint that a row stands for: its correlation key is the inode.
pub open spec fn endpoint_of(l: ProtoListener) -> Endpoint {
    Endpoint {
        local_addr: l.local_addr.ip,
        local_port: l.local_addr.port,
        protocol: l.protocol,
        key: CorrelationKey::Inode(l.inode),
    }
}

/// The hexadecimal numbers among the `:`-separated pieces of `text`.
fn hex_words_of(text: &[u8]) -> (r: Vec<u32>)
    ensures
        r@ == hex_words(text@),
{
    let ghost f = |piece: Seq<u8>| hex_word(piece);
    let mut out: Vec<u32> = Vec::new();
    let mut i: usize = 0;
    let mut done = false;
    while !done
        invariant
            i <= text@.len(),
            f == (|piece: Seq<u8>| hex_word(piece)),
            !done ==> out@ + split_map(text@, COLON, i as int, f) == hex_words(text@),
            done ==> out@ == hex_words(text@),
        decreases text@.len() - i + (if done { 0int } else { 1int }),
    {
        let e = find_byte_from(text, COLON, i);
        let piece = slice_subrange(text, i, e);
        let ghost before = out@;
        let ghost head = match hex_word(piece@) {
            Some(v) => seq![v],
            None => Seq::<u32>::empty(),
        };
        match parse_unsigned_bytes(piece, 16, 0xffff_ffff) {
            Some(v) => {
                out.push(v as u32);
            },
            None => {},
        }
        assert(out@ =~= before + head);
        if e < text.len() {
            assert(before + (head + split_map(text@, COLON, e + 1, f)) =~= out@ + split_map(
                text@,
                COLON,
                e + 1,
                f,
            ));
            i = e + 1;
        } else {
            assert(before + head =~= out@);
            done = true;
        }
    }
    out
}

/// The bytes that the two-digit groups of `text` spell in hexadecimal.
fn hex_pairs_of(text: &[u8]) -> (r: Vec<u8>)
    ensures
        r@ == hex_pairs_from(text@, 0),
{
    let mut out: Vec<u8> = Vec::new();
    let mut i: usize = 0;
    while text.len() - i >= 2
        invariant
            i <= text@.len(),
            out@ + hex_pairs_from(text@, i as int) == hex_pairs_from(text@, 0),
        decreases text@.len() - i,
    {
        let piece = slice_subrange(text, i, i + 2);
        let ghost before = out@;
        let ghost head = match parse_unsigned(piece@, 16, 0xff) {
            Some(v) => seq![v as u8],
            None => Seq::<u8>::empty(),
        };
        match parse_unsigned_bytes(piece, 16, 0xff) {
            Some(v) => {
                out.push(v as u8);
            },
            None => {},
        }
        assert(out@ =~= before + head);
        assert(before + (head + hex_pairs_from(text@, i + 2)) =~= out@ + hex_pairs_from(
            text@,
            i + 2,
        ));
        i += 2;
    }
    assert(out@ + hex_pairs_from(text@, i as int) =~= out@);
    out
}

/// The IPv4 address whose bytes in memory are those of `word`.
fn ipv4_of_word(word: u32, little_endian: bool) -> (r: Ipv4Addr)
    ensures
        r == ipv4_from_word(word, little_endian),
{
    let b0: u8 = (word % 0x100) as u8;
    let b1: u8 = ((word / 0x100) % 0x100) as u8;
    let b2: u8 = ((word / 0x1_0000) % 0x100) as u8;
    let b3: u8 = (word / 0x100_0000) as u8;
    if little_endian {
        Ipv4Addr::new(b0, b1, b2, b3)
    } else {
        Ipv4Addr::new(b3, b2, b1, b0)
    }
}

/// The 16-bit segment with high byte `hi` and low byte `lo`.
fn segment_of(hi: u8, lo: u8) -> (r: u16)
    ensures
        r == segment(hi, lo),
{
    (hi as u16) * 0x100 + (lo as u16)
}

/// The IPv6 address that the first sixteen bytes of `b` stand for.
fn ipv6_of_bytes(b: &Vec<u8>, little_endian: bool) -> (r: Ipv6Addr)
    requires
        b@.len() >= 16,
    ensures
        r == ipv6_from_bytes(b@, little_endian),
{
    if little_endian {
        Ipv6Addr::new(
            segment_of(b[3], b[2]),
            segment_of(b[1], b[0]),
            segment_of(b[7], b[6]),
            segment_of(b[5], b[4]),
            segment_of(b[11], b[10]),
            segment_of(b[9], b[8]),
            segment_of(b[15], b[14]),
            segment_of(b[13], b[12]),
        )
    } else {
        Ipv6Addr::new(
            segment_of(b[0], b[1]),
            segment_of(b[2], b[3]),
            segment_of(b[4], b[5]),
            segment_of(b[6], b[7]),
            segment_of(b[8], b[9]),
            segment_of(b[10], b[11]),
            segment_of(b[12], b[13]),
            segment_of(b[14], b[15]),
        )
    }
}

/// The local address of an IPv6 row.
fn v6_local_of(local: &[u8], little_endian: bool) -> (r: Option<SocketAddr>)
    ensures
        r == v6_local(local@, little_endian),
{
    let c = find_byte_from(local, COLON, 0);
    if c >= local.len() {
        return None;
    }
    let ip_text = slice_subrange(local, 0, c);
    let e = find_byte_from(local, COLON, c + 1);
    let port_text = slice_subrange(local, c + 1, e);
    if ip_text.len() % 2 != 0 {
        return None;
    }
    let bytes = hex_pairs_of(ip_text);
    if bytes.len() < 16 {
        return None;
    }
    match parse_unsigned_bytes(port_text, 16, 0xffff) {
        Some(port) => Some(
            SocketAddr::new(IpAddr::V6(ipv6_of_bytes(&bytes, little_endian)), port as u16),
        ),
        None => None,
    }
}

impl ProtoListener {
    /// The local address of the socket.
    pub fn local_addr(&self) -> (r: SocketAddr)
        ensures
            r == self.local_addr,
    {
        self.local_addr
    }

    /// The inode of the socket.
    pub fn inode(&self) -> (r: u64)
        ensures
            r == self.inode,
    {
        self.inode
    }

    /// The protocol of the table that the row stood in.
    pub fn protocol(&self) -> (r: Protocol)
        ensures
            r == self.protocol,
    {
        self.protocol
    }

    /// The endpoint that the row stands for.
    pub fn endpoint(&self) -> (r: Endpoint)
        ensures
            r == endpoint_of(*self),
    {
        Endpoint {
            local_addr: self.local_addr.ip,
            local_port: self.local_addr.port,
            protocol: self.protocol,
            key: CorrelationKey::Inode(self.inode),
        }
    }

    /// Reads a row of `/proc/net/tcp` or `/proc/net/udp`.
    pub fn from_protocol_table_entry(line: &[u8], protocol: Protocol, little_endian: bool) -> (r:
        Option<ProtoListener>)
        ensures
            r == v4_entry(line@, protocol, little_endian),
    {
        let local = match nth_field(line, 1) {
            Some(f) => f,
            None => {
                return None;
            },
        };
        if nth_field(line, 3).is_none() {
            return None;
        }
        let words = hex_words_of(local);
        if words.len() < 2 {
            return None;
        }
        let ip_n: u32 = words[0];
        let port_n: u32 = words[1];
        if port_n > 0xffff {
            return None;
        }
        let inode_text = match nth_field(line, 9) {
            Some(f) => f,
            None => {
                return None;
            },
        };
        let inode: u64 = match parse_unsigned_bytes(inode_text, 10, u64::MAX) {
            Some(v) => v,
            None => {
                return None;
            },
        };
        Some(
            ProtoListener {
                local_addr: SocketAddr::new(
                    IpAddr::V4(ipv4_of_word(ip_n, little_endian)),
                    port_n as u16,
                ),
                inode,
                protocol,
            },
        )
    }

    /// Reads a row of `/proc/net/tcp6` or `/proc/net/udp6`.
    pub fn from_protocolv6_table_entry(line: &[u8], protocol: Protocol, little_endian: bool) -> (r:
        Option<ProtoListener>)
        ensures
            r == v6_entry(line@, protocol, little_endian),
    {
        let local = match nth_field(line, 1) {
            Some(f) => f,
            None => {
                return None;
            },
        };
        if nth_field(line, 3).is_none() {
            return None;
        }
        let local_addr = match v6_local_of(local, little_endian) {
            Some(a) => a,
            None => {
                return None;
            },
        };
        let inode_text = match nth_field(line, 9) {
            Some(f) => f,
            None => {
                return None;
            },
        };
        let inode: u64 = match parse_unsigned_bytes(inode_text, 10, u64::MAX) {
            Some(v) => v,
            None => {
                return None;
            },
        };
        Some(ProtoListener { local_addr, inode, protocol })
    }

    /// Reads every row of a table and adds what it finds to `out`.
    pub fn read_table(
        table: &[u8],
        protocol: Protocol,
        v6: bool,
        little_endian: bool,
        out: &mut Vec<ProtoListener>,
    )
        ensures
            final(out)@ == old(out)@ + table_entries(table@, protocol, v6, little_endian),
    {
        let ghost f = |line: Seq<u8>| table_entry(line, protocol, v6, little_endian);
        let ghost start = out@;
        let ghost all = table_entries(table@, protocol, v6, little_endian);
        let mut i: usize = 0;
        let mut done = false;
        assert(start + all =~= out@ + split_map(table@, LINE_FEED, 0, f));
        while !done
            invariant
                i <= table@.len(),
                f == (|line: Seq<u8>| table_entry(line, protocol, v6, little_endian)),
                all == table_entries(table@, protocol, v6, little_endian),
                !done ==> out@ + split_map(table@, LINE_FEED, i as int, f) == start + all,
                done ==> out@ == start + all,
            decreases table@.len() - i + (if done { 0int } else { 1int }),
        {
            let e = find_byte_from(table, LINE_FEED, i);
            let line = slice_subrange(table, i, e);
            let ghost before = out@;
            let ghost head = match table_entry(line@, protocol, v6, little_endian) {
                Some(v) => seq![v],
                None => Seq::<ProtoListener>::empty(),
            };
            let entry = if v6 {
                ProtoListener::from_protocolv6_table_entry(line, protocol, little_endian)
            } else {
                ProtoListener::from_protocol_table_entry(line, protocol, little_endian)
            };
            match entry {
                Some(l) => {
                    out.push(l);
                },
                None => {},
            }
            assert(out@ =~= before + head);
            if e < table.len() {
                assert(before + (head + split_map(table@, LINE_FEED, e + 1, f)) =~= out@
                    + split_map(table@, LINE_FEED, e + 1, f));
                i = e + 1;
            } else {
                done = true;
            }
        }
    }
}

} // verus!
