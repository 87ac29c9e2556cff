//! The Windows adapter: listeners out of the tables of the IP helper.
//!
//! The four tables (TCP and UDP, each for IPv4 and IPv6) come as raw
//! buffers: a 32-bit count of rows, then the rows, each of a fixed size, all
//! numbers in the byte order of the host, which is little-endian. Every row
//! names the PID of its owner. The local port stands in network order in
//! the low half of a 32-bit field; the address stands as it goes over the
//! wire. Names come from a listing of all processes, paths from a query per
//! process.

use crate::byte_order::{big_endian_u16, read_u16, read_u16_into, string_from_utf8};
use crate::engine::{
    collect_listeners, enumerate, find_process, first_process_on, listener_views, no_correlation,
    remember, Correlation, CorrelationKey, CorrelationMap, Endpoint, ProcNamesPathsCache,
    Resolution,
};
use crate::model::{
    Error, IpAddr, Ipv4Addr, Ipv6Addr, Listener, ListenerView, Process, ProcessView, Protocol,
};
use crate::text::{find_byte_from, find_from};
use vstd::prelude::*;
use vstd::slice::slice_subrange;
use vstd::utf8::{decode_utf8, valid_utf8};

verus! {

/// The class of table that lists every TCP socket with its owner.
pub const TCP_TABLE_OWNER_PID_ALL: u32 = 5;

/// The class of table that lists every UDP socket with its owner.
pub const UDP_TABLE_OWNER_PID: u32 = 1;

/// The error code for a buffer that is too small.
pub const ERROR_INSUFFICIENT_BUFFER: u32 = 0x7A;

/// The error code for success.
pub const NO_ERROR: u32 = 0;

/// The address family of IPv4.
pub const AF_INET: u32 = 2;

/// The address family of IPv6.
pub const AF_INET6: u32 = 23;

/// How many times a table may be asked for with a buffer.
pub const MAX_ATTEMPTS: u32 = 100;

/// What to do next while fetching a table.
#[derive(Debug, Clone, Copy, PartialEq, Eq, Hash, Structural)]
pub enum FetchStep {
    /// Allocate a buffer of the size that the last call asked for and call
    /// again.
    Retry,
    /// The buffer of the last call holds the table.
    Done,
    /// Give up: the table cannot be had.
    Failed,
}

/// What to do after a call that returned `err_code`, when `attempts` calls
/// have been made with a buffer: give up once more than the allowed number
/// were made, whatever the last returned; else call again if the buffer was
/// too small, finish on success, and give up on any other error.
pub open spec fn fetch_step(attempts: u32, err_code: u32) -> FetchStep {
    if attempts > MAX_ATTEMPTS {
        FetchStep::Failed
    } else if err_code == ERROR_INSUFFICIENT_BUFFER {
        FetchStep::Retry
    } else if err_code == NO_ERROR {
        FetchStep::Done
    } else {
        FetchStep::Failed
    }
}

/// What to do after a call that returned `err_code`, when `attempts` calls
/// have been made with a buffer. The first call, which only asks for the
/// size, counts as none.
pub fn next_fetch_step(attempts: u32, err_code: u32) -> (r: FetchStep)
    ensures
        r == fetch_step(attempts, err_code),
        r == FetchStep::Retry ==> attempts <= MAX_ATTEMPTS,
{
    if attempts > MAX_ATTEMPTS {
        FetchStep::Failed
    } else if err_code == ERROR_INSUFFICIENT_BUFFER {
        FetchStep::Retry
    } else if err_code == NO_ERROR {
        FetchStep::Done
    } else {
        FetchStep::Failed
    }
}

/// Which of the four tables a buffer holds.
#[derive(Debug, Clone, Copy, PartialEq, Eq, Hash, Structural)]
pub enum TableKind {
    Tcp,
    Tcp6,
    Udp,
    Udp6,
}

impl TableKind {
    /// The size of a row in bytes.
    pub open spec fn row_size(self) -> int {
        match self {
            TableKind::Tcp => 24,
            TableKind::Tcp6 => 56,
            TableKind::Udp => 12,
            TableKind::Udp6 => 28,
        }
    }

    /// Where in a row the local address stands.
    pub open spec fn addr_offset(self) -> int {
        match self {
            TableKind::Tcp => 4,
            TableKind::Tcp6 => 0,
            TableKind::Udp => 0,
            TableKind::Udp6 => 0,
        }
    }

    /// Where in a row the local port stands.
    pub open spec fn port_offset(self) -> int {
        match self {
            TableKind::Tcp => 8,
            TableKind::Tcp6 => 20,
            TableKind::Udp => 4,
            TableKind::Udp6 => 20,
        }
    }

    /// Where in a row the PID of the owner stands.
    pub open spec fn pid_offset(self) -> int {
        match self {
            TableKind::Tcp => 20,
            TableKind::Tcp6 => 52,
            TableKind::Udp => 8,
            TableKind::Udp6 => 24,
        }
    }

    /// Whether the addresses of the table are IPv6 addresses.
    pub open spec fn is_v6(self) -> bool {
        self == TableKind::Tcp6 || self == TableKind::Udp6
    }

    /// The protocol of the sockets of the table.
    pub open spec fn protocol(self) -> Protocol {
        match self {
            TableKind::Tcp => Protocol::TCP,
            TableKind::Tcp6 => Protocol::TCP,
            TableKind::Udp => Protocol::UDP,
            TableKind::Udp6 => Protocol::UDP,
        }
    }

    /// The layout of a row: its size and where the address, the port and
    /// the PID stand.
    pub fn layout(self) -> (r: (usize, usize, usize, usize))
        ensures
            r.0 == self.row_size(),
            r.1 == self.addr_offset(),
            r.2 == self.port_offset(),
            r.3 == self.pid_offset(),
    {
        match self {
            TableKind::Tcp => (24, 4, 8, 20),
            TableKind::Tcp6 => (56, 0, 20, 52),
            TableKind::Udp => (12, 0, 4, 8),
            TableKind::Udp6 => (28, 0, 20, 24),
        }
    }

    /// Whether the addresses of the table are IPv6 addresses.
    pub fn has_v6_addresses(self) -> (r: bool)
        ensures
            r == self.is_v6(),
    {
        match self {
            TableKind::Tcp => false,
            TableKind::Tcp6 => true,
            TableKind::Udp => false,
            TableKind::Udp6 => true,
        }
    }

    /// The protocol of the sockets of the table.
    pub fn get_protocol(self) -> (r: Protocol)
        ensures
            r == self.protocol(),
    {
        match self {
            TableKind::Tcp => Protocol::TCP,
            TableKind::Tcp6 => Protocol::TCP,
            TableKind::Udp => Protocol::UDP,
            TableKind::Udp6 => Protocol::UDP,
        }
    }
}

/// The 32-bit number whose four bytes stand at `at` in `b`, lowest first.
pub open spec fn le_u32(b: Seq<u8>, at: int) -> u32 {
    (b[at] + b[at + 1] * 0x100 + b[at + 2] * 0x1_0000 + b[at + 3] * 0x100_0000) as u32
}

/// The number of rows that a table says it has; zero if the buffer is too
/// short to say.
pub open spec fn rows_count(table: Seq<u8>) -> u32 {
    if table.len() >= 4 {
        le_u32(table, 0)
    } else {
        0
    }
}

/// A socket as a row gives it.
#[derive(Debug, Clone, Copy, PartialEq, Eq, Hash, Structural)]
pub struct ProtoListener {
    pub local_addr: IpAddr,
    pub local_port: u16,
    pub pid: u32,
    pub protocol: Protocol,
}

/// The address that stands at `at` in `b` as it goes over the wire.
pub open spec fn addr_at(b: Seq<u8>, at: int, v6: bool) -> IpAddr {
    if v6 {
        IpAddr::V6(
            Ipv6Addr {
                s0: big_endian_u16(b[at], b[at + 1]),
                s1: big_endian_u16(b[at + 2], b[at + 3]),
                s2: big_endian_u16(b[at + 4], b[at + 5]),
                s3: big_endian_u16(b[at + 6], b[at + 7]),
                s4: big_endian_u16(b[at + 8], b[at + 9]),
                s5: big_endian_u16(b[at + 10], b[at + 11]),
                s6: big_endian_u16(b[at + 12], b[at + 13]),
                s7: big_endian_u16(b[at + 14], b[at + 15]),
            },
        )
    } else {
        IpAddr::V4(Ipv4Addr { a: b[at], b: b[at + 1], c: b[at + 2], d: b[at + 3] })
    }
}

/// What row `index` of a table of the given kind says, if the table has
/// that many rows and the buffer holds the whole row. The port is the low
/// half of its field, read in network order.
pub open spec fn row_at(table: Seq<u8>, kind: TableKind, index: int) -> Option<ProtoListener> {
    let at = 4 + index * kind.row_size();
    if 0 <= index < rows_count(table) && at + kind.row_size() <= table.len() {
        Some(
            ProtoListener {
                local_addr: addr_at(table, at + kind.addr_offset(), kind.is_v6()),
                local_port: big_endian_u16(
                    table[at + kind.port_offset()],
                    table[at + kind.port_offset() + 1],
                ),
                pid: le_u32(table, at + kind.pid_offset()),
                protocol: kind.protocol(),
            },
        )
    } else {
        None
    }
}

/// The rows among the first `n` that the buffer holds, in order.
pub open spec fn rows_up_to(table: Seq<u8>, kind: TableKind, n: int) -> Seq<ProtoListener>
    decreases n,
{
    if n <= 0 {
        Seq::empty()
    } else {
        let before = rows_up_to(table, kind, n - 1);
        match row_at(table, kind, n - 1) {
            Some(l) => before.push(l),
            None => before,
        }
    }
}

/// The rows of a table.
pub open spec fn table_rows(table: Seq<u8>, kind: TableKind) -> Seq<ProtoListener> {
    rows_up_to(table, kind, rows_count(table) as int)
}

/// The 32-bit number at `at` in `b`.
fn read_le_u32(b: &[u8], at: usize) -> (r: u32)
    requires
        at + 4 <= b@.len(),
    ensures
        r == le_u32(b@, at as int),
{
    (b[at] as u32) + (b[at + 1] as u32) * 0x100 + (b[at + 2] as u32) * 0x1_0000 + (b[at + 3] as u32)
        * 0x100_0000
}

/// The number of rows that a table says it has.
pub fn get_rows_count(table: &[u8]) -> (r: usize)
    ensures
        r == rows_count(table@),
{
    if table.len() >= 4 {
        read_le_u32(table, 0) as usize
    } else {
        0
    }
}

/// The address at `at` in `b`.
fn read_addr(b: &[u8], at: usize, v6: bool) -> (r: IpAddr)
    requires
        at + (if v6 { 16int } else { 4int }) <= b@.len(),
    ensures
        r == addr_at(b@, at as int, v6),
{
    let len: usize = b.len();
    if v6 {
        assert(at + 16 <= len);
        let s = read_u16_into(slice_subrange(b, at, at + 16));
        assert(forall|i: int|
            0 <= i < 16 ==> #[trigger] b@.subrange(at as int, at + 16)[i] == b@[at + i]);
        IpAddr::V6(Ipv6Addr::new(s[0], s[1], s[2], s[3], s[4], s[5], s[6], s[7]))
    } else {
        IpAddr::V4(Ipv4Addr::new(b[at], b[at + 1], b[at + 2], b[at + 3]))
    }
}

/// What row `index` of a table of the given kind says.
pub fn get_proto_listener(table: &[u8], kind: TableKind, index: usize) -> (r: Option<ProtoListener>)
    ensures
        r == row_at(table@, kind, index as int),
{
    let (size, addr_offset, port_offset, pid_offset) = kind.layout();
    if index >= get_rows_count(table) {
        return None;
    }
    if table.len() < 4 || index > (table.len() - 4) / size {
        assert(4 + index * kind.row_size() + kind.row_size() > table@.len()) by (nonlinear_arith)
            requires
                table@.len() < 4 || index > (table@.len() - 4) / kind.row_size(),
                kind.row_size() >= 12,
                index >= 0,
        ;
        return None;
    }
    assert(index * size <= table@.len() - 4) by (nonlinear_arith)
        requires
            index <= (table@.len() - 4) / (size as int),
            size >= 12,
            table@.len() >= 4,
    ;
    let at: usize = 4 + index * size;
    if table.len() - at < size {
        return None;
    }
    let port_field = slice_subrange(table, at + port_offset, at + port_offset + 2);
    Some(
        ProtoListener {
            local_addr: read_addr(table, at + addr_offset, kind.has_v6_addresses()),
            local_port: read_u16(port_field),
            pid: read_le_u32(table, at + pid_offset),
            protocol: kind.get_protocol(),
        },
    )
}

/// The rows of a table, added to `out`.
pub fn table_entries(table: &[u8], kind: TableKind, out: &mut Vec<ProtoListener>)
    ensures
        final(out)@ == old(out)@ + table_rows(table@, kind),
{
    let n = get_rows_count(table);
    let mut i: usize = 0;
    assert(out@ =~= old(out)@ + Seq::<ProtoListener>::empty());
    while i < n
        invariant
            i <= n,
            n == rows_count(table@),
            out@ == old(out)@ + rows_up_to(table@, kind, i as int),
        decreases n - i,
    {
        let ghost before = rows_up_to(table@, kind, i as int);
        match get_proto_listener(table, kind, i) {
            Some(l) => {
                out.push(l);
                assert(out@ =~= old(out)@ + before.push(l));
            },
            None => {},
        }
        i += 1;
    }
}

/// A row of the TCP table for IPv6, field by field.
#[derive(Debug, Clone, Copy, PartialEq, Eq, Hash)]
pub struct Tcp6Row {
    /// The local address as it goes over the wire.
    pub local_addr: [u8; 16],
    pub local_scope_id: u32,
    /// The local port: in its low half, in network order.
    pub local_port: u32,
    /// The remote address as it goes over the wire.
    pub remote_addr: [u8; 16],
    pub remote_scope_id: u32,
    /// The remote port: in its low half, in network order.
    pub remote_port: u32,
    pub state: u32,
    pub owning_pid: u32,
}

/// The TCP table for IPv6: the number of rows that it says it has, and the
/// rows that its buffer holds.
#[derive(Debug, Clone, PartialEq, Eq, Hash)]
pub struct Tcp6Table {
    pub rows_count: u32,
    pub rows: Vec<Tcp6Row>,
}

/// Whether `row` is what stands at `at` in `table`, field by field.
pub open spec fn is_tcp6_row_at(row: Tcp6Row, table: Seq<u8>, at: int) -> bool {
    &&& row.local_addr@ == table.subrange(at, at + 16)
    &&& row.local_scope_id == le_u32(table, at + 16)
    &&& row.local_port == le_u32(table, at + 20)
    &&& row.remote_addr@ == table.subrange(at + 24, at + 40)
    &&& row.remote_scope_id == le_u32(table, at + 40)
    &&& row.remote_port == le_u32(table, at + 44)
    &&& row.state == le_u32(table, at + 48)
    &&& row.owning_pid == le_u32(table, at + 52)
}

/// Whether the buffer holds row `index` of a table of the given kind in
/// full and the table says that it has that many rows.
pub open spec fn holds_row(table: Seq<u8>, kind: TableKind, index: int) -> bool {
    0 <= index < rows_count(table) && 4 + index * kind.row_size() + kind.row_size() <= table.len()
}

/// Whether `rows` are the first rows of the table in `table`, in order.
pub open spec fn are_first_tcp6_rows(rows: Seq<Tcp6Row>, table: Seq<u8>) -> bool {
    forall|i: int|
        0 <= i < rows.len() ==> holds_row(table, TableKind::Tcp6, i) && is_tcp6_row_at(
            #[trigger] rows[i],
            table,
            4 + i * 56,
        )
}

/// The socket that a row of the TCP table for IPv6 stands for.
pub open spec fn tcp6_listener(row: Tcp6Row) -> ProtoListener {
    ProtoListener {
        local_addr: addr_at(row.local_addr@, 0, true),
        local_port: big_endian_u16(
            (row.local_port % 0x100) as u8,
            (row.local_port / 0x100 % 0x100) as u8,
        ),
        pid: row.owning_pid,
        protocol: Protocol::TCP,
    }
}

/// The sixteen bytes at `at` in `b`.
fn read_16(b: &[u8], at: usize) -> (r: [u8; 16])
    requires
        at + 16 <= b@.len(),
    ensures
        r@ == b@.subrange(at as int, at + 16),
{
    let len: usize = b.len();
    assert(at + 16 <= len);
    let r: [u8; 16] = [
        b[at],
        b[at + 1],
        b[at + 2],
        b[at + 3],
        b[at + 4],
        b[at + 5],
        b[at + 6],
        b[at + 7],
        b[at + 8],
        b[at + 9],
        b[at + 10],
        b[at + 11],
        b[at + 12],
        b[at + 13],
        b[at + 14],
        b[at + 15],
    ];
    assert(r@ =~= b@.subrange(at as int, at + 16));
    r
}

impl Tcp6Row {
    /// The socket that the row stands for: its local address, the low half
    /// of its local port read in network order, and its owner.
    pub fn to_proto_listener(&self) -> (r: ProtoListener)
        ensures
            r == tcp6_listener(*self),
    {
        let port_field: [u8; 2] = [
            (self.local_port % 0x100) as u8,
            (self.local_port / 0x100 % 0x100) as u8,
        ];
        ProtoListener {
            local_addr: read_addr(self.local_addr.as_slice(), 0, true),
            local_port: read_u16(port_field.as_slice()),
            pid: self.owning_pid,
            protocol: Protocol::TCP,
        }
    }
}

impl Tcp6Table {
    /// Row `index` of the table in `table`, if the table has that many rows
    /// and the buffer holds the whole row.
    pub fn get_row(table: &[u8], index: usize) -> (r: Option<Tcp6Row>)
        ensures
            match r {
                Some(row) => holds_row(table@, TableKind::Tcp6, index as int) && is_tcp6_row_at(
                    row,
                    table@,
                    4 + index * 56,
                ),
                None => !holds_row(table@, TableKind::Tcp6, index as int),
            },
    {
        if index >= get_rows_count(table) {
            return None;
        }
        if table.len() < 4 || index > (table.len() - 4) / 56 {
            return None;
        }
        let at: usize = 4 + index * 56;
        if table.len() - at < 56 {
            return None;
        }
        Some(
            Tcp6Row {
                local_addr: read_16(table, at),
                local_scope_id: read_le_u32(table, at + 16),
                local_port: read_le_u32(table, at + 20),
                remote_addr: read_16(table, at + 24),
                remote_scope_id: read_le_u32(table, at + 40),
                remote_port: read_le_u32(table, at + 44),
                state: read_le_u32(table, at + 48),
                owning_pid: read_le_u32(table, at + 52),
            },
        )
    }

    /// The table in `table`: its count of rows and, in order, the rows that
    /// the buffer holds, up to the first that it does not hold.
    pub fn decode(table: &[u8]) -> (r: Tcp6Table)
        ensures
            r.rows_count == rows_count(table@),
            are_first_tcp6_rows(r.rows@, table@),
            r.rows@.len() == rows_count(table@) || !holds_row(
                table@,
                TableKind::Tcp6,
                r.rows@.len() as int,
            ),
    {
        let n = get_rows_count(table);
        let mut rows: Vec<Tcp6Row> = Vec::new();
        let mut i: usize = 0;
        let mut complete = true;
        while complete && i < n
            invariant
                i <= n,
                n == rows_count(table@),
                rows@.len() == i || !complete,
                are_first_tcp6_rows(rows@, table@),
                !complete ==> !holds_row(table@, TableKind::Tcp6, rows@.len() as int),
            decreases n - i + (if complete { 1int } else { 0int }),
        {
            match Tcp6Table::get_row(table, i) {
                Some(row) => {
                    rows.push(row);
                    i += 1;
                },
                None => {
                    complete = false;
                },
            }
        }
        Tcp6Table { rows_count: n as u32, rows }
    }
}

/// A row of the TCP table for IPv6 read field by field stands for the same
/// socket as the row read in place.
pub proof fn lemma_tcp6_row_agrees(table: Seq<u8>, index: int, row: Tcp6Row)
    requires
        holds_row(table, TableKind::Tcp6, index),
        is_tcp6_row_at(row, table, 4 + index * 56),
    ensures
        row_at(table, TableKind::Tcp6, index) == Some(tcp6_listener(row)),
{
    let at = 4 + index * 56;
    lemma_le_u32_bytes(table, at + 20);
    assert forall|i: int| 0 <= i < 16 implies #[trigger] row.local_addr@[i] == table[at + i] by {
        assert(row.local_addr@[i] == table.subrange(at, at + 16)[i]);
    }
}

/// The two lowest bytes of a 32-bit number that stands in a buffer are the
/// first two bytes of its place.
pub proof fn lemma_le_u32_bytes(b: Seq<u8>, at: int)
    ensures
        le_u32(b, at) % 0x100 == b[at],
        le_u32(b, at) / 0x100 % 0x100 == b[at + 1],
{
}

/// One process of the listing of all processes.
#[derive(Debug, Clone, PartialEq, Eq, Hash)]
pub struct ProcessEntry {
    /// The PID, `th32ProcessID`.
    pub process_id: u32,
    /// The name of the executable file, `szExeFile`: text that a zero byte
    /// ends.
    pub exe_file: Vec<u8>,
}

/// Where the query for the executable of one process led.
#[derive(Debug, Clone, PartialEq, Eq, Hash)]
pub struct ImagePath {
    /// The PID that was asked about.
    pub pid: u32,
    /// The full path; empty if the query failed.
    pub path: String,
}

/// The text in front of the first zero byte of `buffer`, if there is a zero
/// byte and the text is well-formed UTF-8.
pub open spec fn c_text(buffer: Seq<u8>) -> Option<Seq<char>> {
    let end = find_from(buffer, 0, 0);
    if 0 <= end < buffer.len() && valid_utf8(buffer.subrange(0, end)) {
        Some(decode_utf8(buffer.subrange(0, end)))
    } else {
        None
    }
}

/// Whether entry `k` has PID `pid` and no earlier entry has.
pub open spec fn first_with_pid(entries: Seq<ProcessEntry>, pid: u32, k: int) -> bool {
    0 <= k < entries.len() && entries[k].process_id == pid && forall|j: int|
        0 <= j < k ==> (#[trigger] entries[j]).process_id != pid
}

/// The name of the process with PID `pid`: that of the first entry of the
/// listing with that PID, if its name can be read.
pub open spec fn name_of(entries: Seq<ProcessEntry>, pid: u32) -> Option<Seq<char>> {
    if exists|k: int| first_with_pid(entries, pid, k) {
        c_text(entries[choose|k: int| first_with_pid(entries, pid, k)].exe_file@)
    } else {
        None
    }
}

/// The path of the process with PID `pid`: that of the first answer for
/// that PID among the first `n`, or the empty path.
pub open spec fn path_among(paths: Seq<ImagePath>, pid: u32, n: int) -> Seq<char>
    decreases n,
{
    if n <= 0 || n > paths.len() {
        Seq::empty()
    } else if exists|j: int| 0 <= j < n - 1 && (#[trigger] paths[j]).pid == pid {
        path_among(paths, pid, n - 1)
    } else if paths[n - 1].pid == pid {
        paths[n - 1].path@
    } else {
        Seq::empty()
    }
}

/// The path of the process with PID `pid`.
pub open spec fn path_of(paths: Seq<ImagePath>, pid: u32) -> Seq<char> {
    path_among(paths, pid, paths.len() as int)
}

/// What is known of `pid`: its name and path, or that it has no name.
pub open spec fn resolution_of(entries: Seq<ProcessEntry>, paths: Seq<ImagePath>, pid: u32) -> Resolution {
    match name_of(entries, pid) {
        Some(name) => Some((name, path_of(paths, pid))),
        None => None,
    }
}

/// The text in front of the first zero byte of `buffer`.
pub fn c_text_of(buffer: &[u8]) -> (r: Option<String>)
    ensures
        match r {
            Some(s) => c_text(buffer@) == Some(s@),
            None => c_text(buffer@) is None,
        },
{
    let end = find_byte_from(buffer, 0, 0);
    if end >= buffer.len() {
        return None;
    }
    string_from_utf8(slice_subrange(buffer, 0, end))
}

/// The name of the process with PID `pid`.
pub fn pname(entries: &Vec<ProcessEntry>, pid: u32) -> (r: Option<String>)
    ensures
        match r {
            Some(s) => name_of(entries@, pid) == Some(s@),
            None => name_of(entries@, pid) is None,
        },
{
    let mut i: usize = 0;
    while i < entries.len()
        invariant
            i <= entries@.len(),
            forall|j: int| 0 <= j < i ==> (#[trigger] entries@[j]).process_id != pid,
        decreases entries@.len() - i,
    {
        if entries[i].process_id == pid {
            proof {
                assert(first_with_pid(entries@, pid, i as int));
                let k = choose|k: int| first_with_pid(entries@, pid, k);
                assert(k == i) by {
                    if k < i {
                        assert(entries@[k].process_id != pid);
                    }
                    if i < k {
                        assert(entries@[i as int].process_id != pid);
                    }
                }
            }
            return c_text_of(entries[i].exe_file.as_slice());
        }
        i += 1;
    }
    proof {
        assert forall|k: int| !first_with_pid(entries@, pid, k) by {
            if 0 <= k < entries@.len() {
                assert(entries@[k].process_id != pid);
            }
        }
    }
    None
}

/// The path of the process with PID `pid`.
pub fn ppath(paths: &Vec<ImagePath>, pid: u32) -> (r: String)
    ensures
        r@ == path_of(paths@, pid),
{
    let mut i: usize = 0;
    while i < paths.len()
        invariant
            i <= paths@.len(),
            forall|j: int| 0 <= j < i ==> (#[trigger] paths@[j]).pid != pid,
        decreases paths@.len() - i,
    {
        if paths[i].pid == pid {
            proof {
                lemma_path_among(paths@, pid, i as int, paths@.len() as int);
            }
            return paths[i].path.clone();
        }
        i += 1;
    }
    proof {
        lemma_path_absent(paths@, pid, paths@.len() as int);
    }
    String::new()
}

/// The first answer for a PID is its path, however many answers follow.
pub proof fn lemma_path_among(paths: Seq<ImagePath>, pid: u32, k: int, n: int)
    requires
        0 <= k < n <= paths.len(),
        paths[k].pid == pid,
        forall|j: int| 0 <= j < k ==> (#[trigger] paths[j]).pid != pid,
    ensures
        path_among(paths, pid, n) == paths[k].path@,
    decreases n,
{
    if n - 1 > k {
        assert(paths[k].pid == pid);
        lemma_path_among(paths, pid, k, n - 1);
    } else {
        assert(!exists|j: int| 0 <= j < n - 1 && (#[trigger] paths[j]).pid == pid);
    }
}

/// A PID that no answer is for has the empty path.
pub proof fn lemma_path_absent(paths: Seq<ImagePath>, pid: u32, n: int)
    requires
        0 <= n <= paths.len(),
        forall|j: int| 0 <= j < n ==> (#[trigger] paths[j]).pid != pid,
    ensures
        path_among(paths, pid, n) == Seq::<char>::empty(),
{
    if n > 0 {
        assert(!exists|j: int| 0 <= j < n - 1 && (#[trigger] paths[j]).pid == pid);
    }
}

/// What the IP helper and the process listing said when they were asked. A
/// table that could not be fetched is `None`.
#[derive(Debug, Clone, PartialEq, Eq, Hash)]
pub struct IpHelperSnapshot {
    /// The TCP table for IPv4.
    pub tcp: Option<Vec<u8>>,
    /// The TCP table for IPv6.
    pub tcp6: Option<Vec<u8>>,
    /// The UDP table for IPv4.
    pub udp: Option<Vec<u8>>,
    /// The UDP table for IPv6.
    pub udp6: Option<Vec<u8>>,
    /// The listing of all processes; empty if it could not be made.
    pub processes: Vec<ProcessEntry>,
    /// The answers to the queries for executables.
    pub image_paths: Vec<ImagePath>,
}

/// The rows of a table that was fetched, none of a table that was not.
pub open spec fn rows_of(table: Option<Vec<u8>>, kind: TableKind) -> Seq<ProtoListener> {
    match table {
        Some(t) => table_rows(t@, kind),
        None => Seq::empty(),
    }
}

/// The endpoint that a row stands for: its correlation key is the PID.
pub open spec fn endpoint_of(l: ProtoListener) -> Endpoint {
    Endpoint {
        local_addr: l.local_addr,
        local_port: l.local_port,
        protocol: l.protocol,
        key: CorrelationKey::Pid(l.pid),
    }
}

/// The name and path of the owner of each of the rows, resolved in order.
pub open spec fn process_table(
    rows: Seq<ProtoListener>,
    entries: Seq<ProcessEntry>,
    paths: Seq<ImagePath>,
) -> Map<u32, Resolution>
    decreases rows.len(),
{
    if rows.len() == 0 {
        Map::empty()
    } else {
        remember(
            process_table(rows.drop_last(), entries, paths),
            rows.last().pid,
            resolution_of(entries, paths, rows.last().pid),
        )
    }
}

impl IpHelperSnapshot {
    /// Whether all four tables were fetched.
    pub open spec fn complete(&self) -> bool {
        self.tcp is Some && self.tcp6 is Some && self.udp is Some && self.udp6 is Some
    }

    /// The rows of all four tables: TCP, TCP6, UDP, UDP6.
    pub open spec fn rows(&self) -> Seq<ProtoListener> {
        rows_of(self.tcp, TableKind::Tcp) + rows_of(self.tcp6, TableKind::Tcp6) + rows_of(
            self.udp,
            TableKind::Udp,
        ) + rows_of(self.udp6, TableKind::Udp6)
    }

    /// The endpoints of all four tables, keyed by PID.
    pub open spec fn endpoints(&self) -> Seq<Endpoint> {
        self.rows().map_values(|l: ProtoListener| endpoint_of(l))
    }

    /// A PID is its own owner: nothing to correlate.
    pub open spec fn correlation(&self) -> Correlation {
        no_correlation()
    }

    /// The name and path of the owner of each row.
    pub open spec fn processes(&self) -> Map<u32, Resolution> {
        process_table(self.rows(), self.processes@, self.image_paths@)
    }

    /// The listeners that the snapshot holds.
    pub open spec fn listeners(&self) -> Seq<ListenerView> {
        enumerate(self.endpoints(), self.correlation(), self.processes())
    }

    /// The process that a lookup of `port` under `protocol` finds.
    pub open spec fn process_on(&self, port: u16, protocol: Protocol) -> Option<ProcessView> {
        find_process(self.endpoints(), self.correlation(), self.processes(), port, protocol)
    }
}

/// Adds the rows of a table to `out`, if the table was fetched.
fn read_rows(table: &Option<Vec<u8>>, kind: TableKind, out: &mut Vec<ProtoListener>)
    ensures
        final(out)@ == old(out)@ + rows_of(*table, kind),
{
    match table {
        Some(t) => {
            table_entries(t.as_slice(), kind, out);
        },
        None => {
            assert(out@ + Seq::<ProtoListener>::empty() =~= out@);
        },
    }
}

/// The endpoints of the rows and the names and paths of their owners.
fn gather(snapshot: &IpHelperSnapshot) -> (r: (Vec<Endpoint>, ProcNamesPathsCache))
    ensures
        r.0@ == snapshot.endpoints(),
        r.1@ == snapshot.processes(),
{
    let mut rows: Vec<ProtoListener> = Vec::new();
    read_rows(&snapshot.tcp, TableKind::Tcp, &mut rows);
    read_rows(&snapshot.tcp6, TableKind::Tcp6, &mut rows);
    read_rows(&snapshot.udp, TableKind::Udp, &mut rows);
    read_rows(&snapshot.udp6, TableKind::Udp6, &mut rows);
    assert(rows@ =~= snapshot.rows());
    let mut endpoints: Vec<Endpoint> = Vec::new();
    let mut cache = ProcNamesPathsCache::new();
    let mut i: usize = 0;
    assert(rows@.take(0) =~= Seq::<ProtoListener>::empty());
    while i < rows.len()
        invariant
            i <= rows@.len(),
            endpoints@ == rows@.take(i as int).map_values(|l: ProtoListener| endpoint_of(l)),
            cache@ == process_table(rows@.take(i as int), snapshot.processes@, snapshot.image_paths@),
        decreases rows@.len() - i,
    {
        proof {
            assert(rows@.take(i + 1).drop_last() =~= rows@.take(i as int));
            assert(rows@.take(i + 1).last() == rows@[i as int]);
        }
        let l = &rows[i];
        endpoints.push(
            Endpoint {
                local_addr: l.local_addr,
                local_port: l.local_port,
                protocol: l.protocol,
                key: CorrelationKey::Pid(l.pid),
            },
        );
        assert(endpoints@ =~= rows@.take(i + 1).map_values(|l: ProtoListener| endpoint_of(l)));
        if !cache.contains(l.pid) {
            let resolution = match pname(&snapshot.processes, l.pid) {
                Some(name) => Some((name, ppath(&snapshot.image_paths, l.pid))),
                None => None,
            };
            cache.insert(l.pid, resolution);
        }
        i += 1;
    }
    assert(rows@.take(i as int) =~= rows@);
    (endpoints, cache)
}

/// Every listener that the snapshot holds, each once.
///
/// Fails only if a table could not be fetched. A row that the buffer does
/// not hold in full and a socket whose owner has no name that can be read
/// are passed over.
pub fn get_all(snapshot: &IpHelperSnapshot) -> (r: Result<Vec<Listener>, Error>)
    ensures
        match r {
            Ok(v) => snapshot.complete() && listener_views(v@) == snapshot.listeners(),
            Err(e) => !snapshot.complete() && e == Error::SourceUnavailable,
        },
{
    if snapshot.tcp.is_none() || snapshot.tcp6.is_none() || snapshot.udp.is_none()
        || snapshot.udp6.is_none() {
        return Err(Error::SourceUnavailable);
    }
    let (endpoints, cache) = gather(snapshot);
    let corr = CorrelationMap::new();
    Ok(collect_listeners(&endpoints, &corr, &cache))
}

/// The process that owns the first socket bound to `port` under `protocol`
/// whose owner has a name.
pub fn get_process_by_port(snapshot: &IpHelperSnapshot, port: u16, protocol: Protocol) -> (r: Result<
    Process,
    Error,
>)
    ensures
        match r {
            Ok(p) => snapshot.complete() && snapshot.process_on(port, protocol) == Some(p@),
            Err(e) => if snapshot.complete() {
                e == Error::NotFound && snapshot.process_on(port, protocol) is None
            } else {
                e == Error::SourceUnavailable
            },
        },
{
    if snapshot.tcp.is_none() || snapshot.tcp6.is_none() || snapshot.udp.is_none()
        || snapshot.udp6.is_none() {
        return Err(Error::SourceUnavailable);
    }
    let (endpoints, cache) = gather(snapshot);
    let corr = CorrelationMap::new();
    match first_process_on(&endpoints, &corr, &cache, port, protocol) {
        Some(p) => Ok(p),
        None => Err(Error::NotFound),
    }
}

} // verus!
