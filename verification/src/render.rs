//! The textual rendering of the records.
//!
//! A process reads `PID: <pid> Process name: <name>`, the PID filled with
//! blanks to ten characters. A listener reads the process, filled to 55
//! characters, then ` Socket: <address>`, the address filled to 30, then
//! ` Protocol: TCP` or `UDP`. An IPv4 socket is `a.b.c.d:port`; an IPv6
//! socket is `[address]:port`, the address in its canonical short form.
//! Text that is longer than its width is never cut.

use crate::model::{IpAddr, Ipv4Addr, Ipv6Addr, Listener, ListenerView, Process, ProcessView, Protocol, SocketAddr};
use vstd::prelude::*;
use vstd::string::{StrSliceExecFns, StringExecFns};

verus! {

/// The character that stands for the digit `d`, in lower case from ten on.
pub open spec fn digit_char(d: nat) -> char {
    if d == 0 {
        '0'
    } else if d == 1 {
        '1'
    } else if d == 2 {
        '2'
    } else if d == 3 {
        '3'
    } else if d == 4 {
        '4'
    } else if d == 5 {
        '5'
    } else if d == 6 {
        '6'
    } else if d == 7 {
        '7'
    } else if d == 8 {
        '8'
    } else if d == 9 {
        '9'
    } else if d == 10 {
        'a'
    } else if d == 11 {
        'b'
    } else if d == 12 {
        'c'
    } else if d == 13 {
        'd'
    } else if d == 14 {
        'e'
    } else {
        'f'
    }
}

/// `n` written in decimal, without leading zeros.
pub open spec fn decimal(n: nat) -> Seq<char>
    decreases n,
{
    if n < 10 {
        seq![digit_char(n)]
    } else {
        decimal(n / 10) + seq![digit_char(n % 10)]
    }
}

/// `n` written in hexadecimal, in lower case and without leading zeros.
pub open spec fn hexadecimal(n: nat) -> Seq<char>
    decreases n,
{
    if n < 16 {
        seq![digit_char(n)]
    } else {
        hexadecimal(n / 16) + seq![digit_char(n % 16)]
    }
}

/// `count` blanks.
pub open spec fn blanks(count: nat) -> Seq<char> {
    Seq::new(count, |i: int| ' ')
}

/// `s` filled with blanks at its end up to `width` characters; `s` itself
/// if it is that long already.
pub open spec fn pad_right(s: Seq<char>, width: nat) -> Seq<char> {
    if s.len() >= width {
        s
    } else {
        s + blanks((width - s.len()) as nat)
    }
}

/// `TCP` or `UDP`.
pub open spec fn render_protocol(p: Protocol) -> Seq<char> {
    match p {
        Protocol::TCP => "TCP"@,
        Protocol::UDP => "UDP"@,
    }
}

/// The dotted quad of an IPv4 address.
pub open spec fn render_ipv4(a: Ipv4Addr) -> Seq<char> {
    decimal(a.a as nat) + "."@ + decimal(a.b as nat) + "."@ + decimal(a.c as nat) + "."@ + decimal(
        a.d as nat,
    )
}

/// The number of zero segments that end just before position `i`.
pub open spec fn zeros_before(segs: Seq<u16>, i: int) -> int
    decreases i,
{
    if 0 < i <= segs.len() && segs[i - 1] == 0 {
        zeros_before(segs, i - 1) + 1
    } else {
        0
    }
}

/// Where the longest run of zero segments among the first `i` starts and
/// how long it is; of several longest runs, the first.
pub open spec fn longest_zero_run(segs: Seq<u16>, i: int) -> (int, int)
    decreases i,
{
    if i <= 0 {
        (0, 0)
    } else {
        let before = longest_zero_run(segs, i - 1);
        let current = zeros_before(segs, i);
        if current > before.1 {
            (i - current, current)
        } else {
            before
        }
    }
}

/// Whether the `len` segments from `start` on exist and are all zero.
pub open spec fn is_zero_run(segs: Seq<u16>, start: int, len: int) -> bool {
    0 <= start && 0 <= len && start + len <= segs.len() && forall|k: int|
        start <= k < start + len ==> segs[k] == 0
}

/// The zero segments before `i` are a run of zeros that ends at `i`, and no
/// longer run ends there.
pub proof fn lemma_zeros_before(segs: Seq<u16>, i: int)
    requires
        0 <= i <= segs.len(),
    ensures
        0 <= zeros_before(segs, i) <= i,
        is_zero_run(segs, i - zeros_before(segs, i), zeros_before(segs, i)),
        forall|s: int, l: int| is_zero_run(segs, s, l) && s + l == i ==> l <= zeros_before(segs, i),
    decreases i,
{
    if 0 < i && segs[i - 1] == 0 {
        lemma_zeros_before(segs, i - 1);
        assert forall|s: int, l: int| is_zero_run(segs, s, l) && s + l == i implies l
            <= zeros_before(segs, i) by {
            if l > 0 {
                assert(is_zero_run(segs, s, l - 1));
            }
        }
    } else {
        assert forall|s: int, l: int| is_zero_run(segs, s, l) && s + l == i implies l
            <= zeros_before(segs, i) by {
            if l > 0 {
                assert(segs[i - 1] == 0);
            }
        }
    }
}

/// What `longest_zero_run` names is a run of zeros; no run of zeros among
/// the first `i` segments is longer, and none as long starts earlier.
pub proof fn lemma_longest_zero_run(segs: Seq<u16>, i: int)
    requires
        0 <= i <= segs.len(),
    ensures
        ({
            let (start, len) = longest_zero_run(segs, i);
            &&& is_zero_run(segs, start, len)
            &&& start + len <= i
            &&& forall|s: int, l: int| is_zero_run(segs, s, l) && s + l <= i ==> l <= len
            &&& forall|s: int, l: int|
                is_zero_run(segs, s, l) && s + l <= i && l == len && l > 0 ==> start <= s
        }),
    decreases i,
{
    if i > 0 {
        lemma_longest_zero_run(segs, i - 1);
        lemma_zeros_before(segs, i);
        let before = longest_zero_run(segs, i - 1);
        let current = zeros_before(segs, i);
        let (start, len) = longest_zero_run(segs, i);
        assert forall|s: int, l: int| is_zero_run(segs, s, l) && s + l <= i implies l <= len by {
            if s + l == i {
            } else {
                assert(s + l <= i - 1);
            }
        }
        assert forall|s: int, l: int|
            is_zero_run(segs, s, l) && s + l <= i && l == len && l > 0 implies start <= s by {
            if current > before.1 {
                if s + l < i {
                    assert(s + l <= i - 1);
                }
            } else {
                if s + l == i {
                    // a run as long as the best that ends here: the best
                    // ends earlier, so it starts earlier
                    assert(l <= current);
                    assert(before.0 + before.1 <= i - 1);
                } else {
                    assert(s + l <= i - 1);
                }
            }
        }
    }
}

/// Segments written in hexadecimal with `:` between them.
pub open spec fn render_segments(segs: Seq<u16>) -> Seq<char>
    decreases segs.len(),
{
    if segs.len() == 0 {
        Seq::empty()
    } else if segs.len() == 1 {
        hexadecimal(segs[0] as nat)
    } else {
        render_segments(segs.drop_last()) + ":"@ + hexadecimal(segs.last() as nat)
    }
}

/// Whether the address is an IPv4 address mapped into IPv6, `::ffff:a.b.c.d`.
pub open spec fn is_ipv4_mapped(a: Ipv6Addr) -> bool {
    a.s0 == 0 && a.s1 == 0 && a.s2 == 0 && a.s3 == 0 && a.s4 == 0 && a.s5 == 0xffff
}

/// The IPv4 address that the last two segments hold.
pub open spec fn mapped_ipv4(a: Ipv6Addr) -> Ipv4Addr {
    Ipv4Addr {
        a: (a.s6 / 0x100) as u8,
        b: (a.s6 % 0x100) as u8,
        c: (a.s7 / 0x100) as u8,
        d: (a.s7 % 0x100) as u8,
    }
}

/// The canonical short form of an IPv6 address: a mapped IPv4 address as
/// `::ffff:a.b.c.d`; otherwise the segments in hexadecimal, with the first
/// longest run of two or more zero segments replaced by `::`.
pub open spec fn render_ipv6(a: Ipv6Addr) -> Seq<char> {
    let segs = a.segments_seq();
    if is_ipv4_mapped(a) {
        "::ffff:"@ + render_ipv4(mapped_ipv4(a))
    } else {
        let (start, len) = longest_zero_run(segs, 8);
        if len > 1 {
            render_segments(segs.subrange(0, start)) + "::"@ + render_segments(
                segs.subrange(start + len, 8),
            )
        } else {
            render_segments(segs)
        }
    }
}

/// `a.b.c.d:port` or `[address]:port`.
pub open spec fn render_socket(s: SocketAddr) -> Seq<char> {
    match s.ip {
        IpAddr::V4(a) => render_ipv4(a) + ":"@ + decimal(s.port as nat),
        IpAddr::V6(a) => "["@ + render_ipv6(a) + "]:"@ + decimal(s.port as nat),
    }
}

/// `PID: <pid> Process name: <name>`, the PID filled to ten characters.
pub open spec fn render_process(p: ProcessView) -> Seq<char> {
    "PID: "@ + pad_right(decimal(p.pid as nat), 10) + " Process name: "@ + p.name
}

/// The process filled to 55 characters, the socket filled to 30, and the
/// protocol.
pub open spec fn render_listener(l: ListenerView) -> Seq<char> {
    pad_right(render_process(l.process), 55) + " Socket: "@ + pad_right(
        render_socket(l.socket),
        30,
    ) + " Protocol: "@ + render_protocol(l.protocol)
}

/// The text of one digit.
fn digit_str(d: u8) -> (r: &'static str)
    requires
        d < 16,
    ensures
        r@ == seq![digit_char(d as nat)],
{
    proof {
        reveal_strlit("0");
        reveal_strlit("1");
        reveal_strlit("2");
        reveal_strlit("3");
        reveal_strlit("4");
        reveal_strlit("5");
        reveal_strlit("6");
        reveal_strlit("7");
        reveal_strlit("8");
        reveal_strlit("9");
        reveal_strlit("a");
        reveal_strlit("b");
        reveal_strlit("c");
        reveal_strlit("d");
        reveal_strlit("e");
        reveal_strlit("f");
    }
    let r = if d == 0 {
        "0"
    } else if d == 1 {
        "1"
    } else if d == 2 {
        "2"
    } else if d == 3 {
        "3"
    } else if d == 4 {
        "4"
    } else if d == 5 {
        "5"
    } else if d == 6 {
        "6"
    } else if d == 7 {
        "7"
    } else if d == 8 {
        "8"
    } else if d == 9 {
        "9"
    } else if d == 10 {
        "a"
    } else if d == 11 {
        "b"
    } else if d == 12 {
        "c"
    } else if d == 13 {
        "d"
    } else if d == 14 {
        "e"
    } else {
        "f"
    };
    assert(r@ =~= seq![digit_char(d as nat)]);
    r
}

/// Appends `n` in decimal.
fn push_decimal(out: &mut String, n: u32)
    ensures
        final(out)@ == old(out)@ + decimal(n as nat),
    decreases n,
{
    if n >= 10 {
        push_decimal(out, n / 10);
    }
    out.append(digit_str((n % 10) as u8));
    assert(out@ =~= old(out)@ + decimal(n as nat));
}

/// Appends `n` in hexadecimal.
fn push_hexadecimal(out: &mut String, n: u16)
    ensures
        final(out)@ == old(out)@ + hexadecimal(n as nat),
    decreases n,
{
    if n >= 16 {
        push_hexadecimal(out, n / 16);
    }
    out.append(digit_str((n % 16) as u8));
    assert(out@ =~= old(out)@ + hexadecimal(n as nat));
}

/// Appends `text`, filled with blanks up to `width` characters.
fn push_padded(out: &mut String, text: &str, width: usize)
    ensures
        final(out)@ == old(out)@ + pad_right(text@, width as nat),
{
    out.append(text);
    let len = text.unicode_len();
    let mut i: usize = len;
    assert(out@ =~= old(out)@ + text@ + blanks(0));
    while i < width
        invariant
            len == text@.len(),
            len <= i,
            i <= width || i == len,
            out@ == old(out)@ + text@ + blanks((i - len) as nat),
        decreases width - i,
    {
        proof {
            reveal_strlit(" ");
        }
        out.append(" ");
        assert(out@ =~= old(out)@ + text@ + blanks((i + 1 - len) as nat));
        i += 1;
    }
    assert(out@ =~= old(out)@ + pad_right(text@, width as nat));
}

/// Appends the dotted quad of `a`.
fn push_ipv4(out: &mut String, a: &Ipv4Addr)
    ensures
        final(out)@ == old(out)@ + render_ipv4(*a),
{
    push_decimal(out, a.a as u32);
    out.append(".");
    push_decimal(out, a.b as u32);
    out.append(".");
    push_decimal(out, a.c as u32);
    out.append(".");
    push_decimal(out, a.d as u32);
    assert(out@ =~= old(out)@ + render_ipv4(*a));
}

/// Appends the segments from `from` up to `to`, with `:` between them.
fn push_segments(out: &mut String, segs: &[u16; 8], from: usize, to: usize)
    requires
        from <= to <= 8,
    ensures
        final(out)@ == old(out)@ + render_segments(segs@.subrange(from as int, to as int)),
{
    let mut i: usize = from;
    assert(segs@.subrange(from as int, from as int) =~= Seq::<u16>::empty());
    assert(out@ =~= old(out)@ + Seq::<char>::empty());
    while i < to
        invariant
            from <= i <= to <= 8,
            out@ == old(out)@ + render_segments(segs@.subrange(from as int, i as int)),
        decreases to - i,
    {
        let ghost so_far = segs@.subrange(from as int, i as int);
        let ghost next = segs@.subrange(from as int, i + 1);
        proof {
            assert(next.drop_last() =~= so_far);
            assert(next.last() == segs@[i as int]);
        }
        let ghost before = out@;
        if i > from {
            out.append(":");
        }
        push_hexadecimal(out, segs[i]);
        proof {
            if i > from {
                assert(out@ =~= before + ":"@ + hexadecimal(segs@[i as int] as nat));
                assert(out@ =~= old(out)@ + (render_segments(so_far) + ":"@ + hexadecimal(
                    segs@[i as int] as nat,
                )));
            } else {
                assert(so_far.len() == 0);
                assert(out@ =~= old(out)@ + hexadecimal(segs@[i as int] as nat));
            }
        }
        i += 1;
    }
}

/// Where the first longest run of zero segments starts and how long it is.
fn find_longest_zero_run(segs: &[u16; 8]) -> (r: (usize, usize))
    ensures
        (r.0 as int, r.1 as int) == longest_zero_run(segs@, 8),
        r.0 + r.1 <= 8,
{
    let mut best_start: usize = 0;
    let mut best_len: usize = 0;
    let mut current: usize = 0;
    let mut i: usize = 0;
    while i < 8
        invariant
            i <= 8,
            segs@.len() == 8,
            current == zeros_before(segs@, i as int),
            current <= i,
            (best_start as int, best_len as int) == longest_zero_run(segs@, i as int),
            best_start + best_len <= i,
        decreases 8 - i,
    {
        if segs[i] == 0 {
            current += 1;
        } else {
            current = 0;
        }
        i += 1;
        if current > best_len {
            best_start = i - current;
            best_len = current;
        }
    }
    (best_start, best_len)
}

/// Appends the canonical short form of `a`.
fn push_ipv6(out: &mut String, a: &Ipv6Addr)
    ensures
        final(out)@ == old(out)@ + render_ipv6(*a),
{
    if a.s0 == 0 && a.s1 == 0 && a.s2 == 0 && a.s3 == 0 && a.s4 == 0 && a.s5 == 0xffff {
        let v4 = Ipv4Addr::new(
            (a.s6 / 0x100) as u8,
            (a.s6 % 0x100) as u8,
            (a.s7 / 0x100) as u8,
            (a.s7 % 0x100) as u8,
        );
        out.append("::ffff:");
        push_ipv4(out, &v4);
        assert(out@ =~= old(out)@ + render_ipv6(*a));
    } else {
        let segs: [u16; 8] = [a.s0, a.s1, a.s2, a.s3, a.s4, a.s5, a.s6, a.s7];
        assert(segs@ =~= a.segments_seq());
        let (start, len) = find_longest_zero_run(&segs);
        if len > 1 {
            push_segments(out, &segs, 0, start);
            out.append("::");
            push_segments(out, &segs, start + len, 8);
            assert(out@ =~= old(out)@ + render_ipv6(*a));
        } else {
            push_segments(out, &segs, 0, 8);
            assert(segs@.subrange(0, 8) =~= segs@);
        }
    }
}

/// Appends `a.b.c.d:port` or `[address]:port`.
fn push_socket(out: &mut String, s: &SocketAddr)
    ensures
        final(out)@ == old(out)@ + render_socket(*s),
{
    match &s.ip {
        IpAddr::V4(a) => {
            push_ipv4(out, a);
            out.append(":");
            push_decimal(out, s.port as u32);
            assert(out@ =~= old(out)@ + render_socket(*s));
        },
        IpAddr::V6(a) => {
            out.append("[");
            push_ipv6(out, a);
            out.append("]:");
            push_decimal(out, s.port as u32);
            assert(out@ =~= old(out)@ + render_socket(*s));
        },
    }
}

impl Protocol {
    /// `TCP` or `UDP`.
    pub fn to_string(&self) -> (r: String)
        ensures
            r@ == render_protocol(*self),
    {
        match self {
            Protocol::TCP => String::from_str("TCP"),
            Protocol::UDP => String::from_str("UDP"),
        }
    }
}

impl Ipv4Addr {
    /// The dotted quad.
    pub fn to_string(&self) -> (r: String)
        ensures
            r@ == render_ipv4(*self),
    {
        let mut out = String::new();
        push_ipv4(&mut out, self);
        assert(out@ =~= render_ipv4(*self));
        out
    }
}

impl Ipv6Addr {
    /// The canonical short form.
    pub fn to_string(&self) -> (r: String)
        ensures
            r@ == render_ipv6(*self),
    {
        let mut out = String::new();
        push_ipv6(&mut out, self);
        assert(out@ =~= render_ipv6(*self));
        out
    }
}

impl SocketAddr {
    /// `a.b.c.d:port` or `[address]:port`.
    pub fn to_string(&self) -> (r: String)
        ensures
            r@ == render_socket(*self),
    {
        let mut out = String::new();
        push_socket(&mut out, self);
        assert(out@ =~= render_socket(*self));
        out
    }
}

impl Process {
    /// `PID: <pid> Process name: <name>`.
    pub fn to_string(&self) -> (r: String)
        ensures
            r@ == render_process(self@),
    {
        let mut pid = String::new();
        push_decimal(&mut pid, self.pid);
        assert(pid@ =~= decimal(self.pid as nat));
        let mut out = String::from_str("PID: ");
        push_padded(&mut out, pid.as_str(), 10);
        out.append(" Process name: ");
        out.append(self.name.as_str());
        out
    }
}

impl Listener {
    /// The process, the socket and the protocol on one line.
    pub fn to_string(&self) -> (r: String)
        ensures
            r@ == render_listener(self@),
    {
        let process = self.process.to_string();
        let socket = self.socket.to_string();
        let mut out = String::new();
        push_padded(&mut out, process.as_str(), 55);
        out.append(" Socket: ");
        push_padded(&mut out, socket.as_str(), 30);
        out.append(" Protocol: ");
        out.append(self.protocol.to_string().as_str());
        assert(out@ =~= render_listener(self@));
        out
    }
}

} // verus!
