//! How the kernel writes a local address into a socket table, and that
//! reading it back gives the address and the port that were written.
//!
//! The kernel holds an address in network order and prints it word by word,
//! each 32-bit word as the host reads it, in eight upper-case hexadecimal
//! digits; the port follows a `:` in four digits. On a little-endian host
//! the bytes of each word therefore come out reversed.

use crate::linux::proto_listener::{
    hex_pairs_from, hex_word, hex_words, ipv4_from_word, ipv6_from_bytes, v4_local, v6_local,
    COLON,
};
use crate::model::{IpAddr, Ipv4Addr, Ipv6Addr, SocketAddr};
use crate::number::{digit_raw, digits_value, is_digit, parse_unsigned, strip_plus};
use crate::text::{find_from, lemma_find_from, split_map};
use vstd::prelude::*;

verus! {

/// The upper-case hexadecimal digit for `d`.
pub open spec fn hex_upper(d: nat) -> u8 {
    if d < 10 {
        (0x30 + d) as u8
    } else {
        (0x41 + d - 10) as u8
    }
}

/// `n` in exactly `width` upper-case hexadecimal digits, most significant
/// first.
pub open spec fn hex_fixed(n: nat, width: nat) -> Seq<u8>
    decreases width,
{
    if width == 0 {
        Seq::empty()
    } else {
        hex_fixed(n / 16, (width - 1) as nat).push(hex_upper(n % 16))
    }
}

/// Sixteen to the power `k`.
pub open spec fn pow16(k: nat) -> nat
    decreases k,
{
    if k == 0 {
        1
    } else {
        16 * pow16((k - 1) as nat)
    }
}

/// A number that fits `width` hexadecimal digits is written in digits only
/// and is read back as itself.
pub proof fn lemma_hex_fixed(n: nat, width: nat)
    requires
        n < pow16(width),
    ensures
        hex_fixed(n, width).len() == width,
        forall|i: int|
            0 <= i < width ==> is_digit(#[trigger] hex_fixed(n, width)[i], 16) && hex_fixed(
                n,
                width,
            )[i] != COLON && hex_fixed(n, width)[i] != 0x2b,
        digits_value(hex_fixed(n, width), 16) == n,
    decreases width,
{
    if width > 0 {
        lemma_hex_fixed(n / 16, (width - 1) as nat);
        let s = hex_fixed(n / 16, (width - 1) as nat);
        let t = hex_fixed(n, width);
        assert(t.drop_last() =~= s);
        assert(t.last() == hex_upper(n % 16));
        assert(digit_raw(hex_upper(n % 16)) == n % 16);
        assert forall|i: int| 0 <= i < width implies is_digit(#[trigger] t[i], 16) && t[i] != COLON
            && t[i] != 0x2b by {
            if i < width - 1 {
                assert(t[i] == s[i]);
            }
        }
    }
}

/// A number written in `width` digits, `width` above zero, parses as
/// itself under any limit that it is within.
pub proof fn lemma_hex_fixed_parses(n: nat, width: nat, max: nat)
    requires
        width > 0,
        n < pow16(width),
        n <= max,
    ensures
        parse_unsigned(hex_fixed(n, width), 16, max) == Some(n),
{
    lemma_hex_fixed(n, width);
    let t = hex_fixed(n, width);
    assert(t[0] != 0x2b);
    assert(strip_plus(t) == t);
}

/// The word that holds the IPv4 address `a` on a host of the given byte
/// order.
pub open spec fn word_of(a: Ipv4Addr, little_endian: bool) -> u32 {
    if little_endian {
        (a.a + a.b * 0x100 + a.c * 0x1_0000 + a.d * 0x100_0000) as u32
    } else {
        (a.d + a.c * 0x100 + a.b * 0x1_0000 + a.a * 0x100_0000) as u32
    }
}

/// The local address field of an IPv4 row as the kernel prints it.
pub open spec fn printed_v4_local(a: Ipv4Addr, port: u16, little_endian: bool) -> Seq<u8> {
    hex_fixed(word_of(a, little_endian) as nat, 8) + seq![COLON] + hex_fixed(port as nat, 4)
}

/// Where a search for `b` from `i` stops, given that `b` is not met before
/// `k` and is met at `k` or `k` is the end.
pub proof fn lemma_find_from_is(s: Seq<u8>, b: u8, i: int, k: int)
    requires
        0 <= i <= k <= s.len(),
        forall|j: int| i <= j < k ==> #[trigger] s[j] != b,
        k < s.len() ==> s[k] == b,
    ensures
        find_from(s, b, i) == k,
{
    lemma_find_from(s, b, i);
    let r = find_from(s, b, i);
    if r < k {
        assert(s[r] != b);
    }
    if r > k {
        assert(s[k] != b);
    }
}

/// The four bytes of the word `x0 + x1 * 2^8 + x2 * 2^16 + x3 * 2^24`.
pub proof fn lemma_word_bytes(x0: u8, x1: u8, x2: u8, x3: u8)
    ensures
        ({
            let w = x0 + x1 * 0x100 + x2 * 0x1_0000 + x3 * 0x100_0000;
            &&& 0 <= w <= 0xffff_ffff
            &&& w % 0x100 == x0
            &&& w / 0x100 % 0x100 == x1
            &&& w / 0x1_0000 % 0x100 == x2
            &&& w / 0x100_0000 == x3
        }),
{
}

/// The address that a host reads out of the word that holds an address is
/// that address.
pub proof fn lemma_word_round_trip(a: Ipv4Addr, little_endian: bool)
    ensures
        ipv4_from_word(word_of(a, little_endian), little_endian) == a,
{
    if little_endian {
        lemma_word_bytes(a.a, a.b, a.c, a.d);
    } else {
        lemma_word_bytes(a.d, a.c, a.b, a.a);
    }
}

/// Two numbers printed in eight and in four digits with a `:` between them
/// are read back as those two numbers.
pub proof fn lemma_printed_words_are_read(w: u32, port: u16)
    ensures
        hex_words(hex_fixed(w as nat, 8) + seq![COLON] + hex_fixed(port as nat, 4)) == seq![
            w,
            port as u32,
        ],
{
    let first = hex_fixed(w as nat, 8);
    let second = hex_fixed(port as nat, 4);
    let text = first + seq![COLON] + second;
    let f = |piece: Seq<u8>| hex_word(piece);
    assert(pow16(8) == 0x1_0000_0000 && pow16(4) == 0x1_0000) by {
        reveal_with_fuel(pow16, 9);
    }
    lemma_hex_fixed(w as nat, 8);
    lemma_hex_fixed(port as nat, 4);
    lemma_hex_fixed_parses(w as nat, 8, 0xffff_ffff);
    lemma_hex_fixed_parses(port as nat, 4, 0xffff_ffff);
    assert(text.len() == 13);
    assert forall|j: int| 0 <= j < 8 implies #[trigger] text[j] != COLON by {
        assert(text[j] == first[j]);
    }
    assert(text[8] == COLON);
    assert forall|j: int| 9 <= j < 13 implies #[trigger] text[j] != COLON by {
        assert(text[j] == second[j - 9]);
    }
    lemma_find_from_is(text, COLON, 0, 8);
    lemma_find_from_is(text, COLON, 9, 13);
    assert(text.subrange(0, 8) =~= first);
    assert(text.subrange(9, 13) =~= second);
    assert(f(second) == Some(port as u32));
    assert(f(first) == Some(w));
    assert(split_map(text, COLON, 9, f) =~= seq![port as u32]);
    assert(split_map(text, COLON, 0, f) =~= seq![w] + split_map(text, COLON, 9, f));
    assert(hex_words(text) =~= seq![w, port as u32]);
}

/// Byte-order correctness for IPv4: the local address that the kernel
/// prints for an address and a port is read back as that address and that
/// port, on a host of either byte order.
pub proof fn lemma_v4_local_round_trip(a: Ipv4Addr, port: u16, little_endian: bool)
    ensures
        v4_local(printed_v4_local(a, port, little_endian), little_endian) == Some(
            SocketAddr { ip: IpAddr::V4(a), port },
        ),
{
    lemma_printed_words_are_read(word_of(a, little_endian), port);
    lemma_word_round_trip(a, little_endian);
}

/// The bytes `bytes`, each in two upper-case hexadecimal digits.
pub open spec fn hex_bytes(bytes: Seq<u8>) -> Seq<u8>
    decreases bytes.len(),
{
    if bytes.len() == 0 {
        Seq::empty()
    } else {
        hex_fixed(bytes[0] as nat, 2) + hex_bytes(bytes.drop_first())
    }
}

/// Bytes written in two digits each take two places each and no `:`.
pub proof fn lemma_hex_bytes(bytes: Seq<u8>)
    ensures
        hex_bytes(bytes).len() == 2 * bytes.len(),
        forall|i: int| 0 <= i < 2 * bytes.len() ==> #[trigger] hex_bytes(bytes)[i] != COLON,
    decreases bytes.len(),
{
    if bytes.len() > 0 {
        assert(pow16(2) == 0x100) by {
            reveal_with_fuel(pow16, 3);
        }
        lemma_hex_fixed(bytes[0] as nat, 2);
        lemma_hex_bytes(bytes.drop_first());
        let head = hex_fixed(bytes[0] as nat, 2);
        let rest = hex_bytes(bytes.drop_first());
        assert forall|i: int| 0 <= i < 2 * bytes.len() implies #[trigger] hex_bytes(bytes)[i]
            != COLON by {
            if i < 2 {
                assert(hex_bytes(bytes)[i] == head[i]);
            } else {
                assert(hex_bytes(bytes)[i] == rest[i - 2]);
            }
        }
    }
}

/// Bytes written in two digits each are read back pair by pair, whatever
/// stands in front of them.
pub proof fn lemma_hex_pairs_of_hex_bytes(front: Seq<u8>, bytes: Seq<u8>)
    ensures
        hex_pairs_from(front + hex_bytes(bytes), front.len() as int) == bytes,
    decreases bytes.len(),
{
    let s = front + hex_bytes(bytes);
    lemma_hex_bytes(bytes);
    if bytes.len() == 0 {
        assert(hex_pairs_from(s, front.len() as int) =~= bytes);
    } else {
        assert(pow16(2) == 0x100) by {
            reveal_with_fuel(pow16, 3);
        }
        let head = hex_fixed(bytes[0] as nat, 2);
        let rest = bytes.drop_first();
        lemma_hex_fixed(bytes[0] as nat, 2);
        lemma_hex_fixed_parses(bytes[0] as nat, 2, 0xff);
        lemma_hex_pairs_of_hex_bytes(front + head, rest);
        assert(s =~= (front + head) + hex_bytes(rest));
        assert(s.subrange(front.len() as int, front.len() as int + 2) =~= head);
        assert(hex_pairs_from(s, front.len() as int) =~= seq![bytes[0]] + hex_pairs_from(
            s,
            front.len() as int + 2,
        ));
        assert(seq![bytes[0]] + rest =~= bytes);
    }
}

/// Two more digits in front: the digits of `n` are those of `n / 256`
/// followed by the two digits of `n % 256`.
pub proof fn lemma_hex_fixed_split(n: nat, width: nat)
    ensures
        hex_fixed(n, width + 2) == hex_fixed(n / 0x100, width) + hex_fixed(n % 0x100, 2),
{
    assert(n / 16 / 16 == n / 0x100);
    assert(n % 0x100 / 16 % 16 == n / 16 % 16);
    assert(n % 0x100 % 16 == n % 16);
    let high = hex_fixed(n / 0x100, width);
    assert(hex_fixed(n / 16, width + 1) == high.push(hex_upper(n / 16 % 16)));
    assert(hex_fixed(n, width + 2) == high.push(hex_upper(n / 16 % 16)).push(hex_upper(n % 16)));
    assert(hex_fixed(n % 0x100 / 16 / 16, 0) =~= Seq::<u8>::empty());
    assert(hex_fixed(n % 0x100 / 16, 1) =~= seq![hex_upper(n / 16 % 16)]);
    assert(hex_fixed(n % 0x100, 2) =~= seq![hex_upper(n / 16 % 16), hex_upper(n % 16)]);
    assert(hex_fixed(n, width + 2) =~= high + hex_fixed(n % 0x100, 2));
}

/// One byte in two digits.
pub proof fn lemma_hex_bytes_single(b: u8)
    ensures
        hex_bytes(seq![b]) == hex_fixed(b as nat, 2),
{
    assert(seq![b].drop_first() =~= Seq::<u8>::empty());
    assert(hex_bytes(seq![b].drop_first()) =~= Seq::<u8>::empty());
    assert(hex_bytes(seq![b]) =~= hex_fixed(b as nat, 2));
}

/// A word in eight digits is its four bytes in two digits each, the most
/// significant first.
pub proof fn lemma_hex_word_is_bytes(b0: u8, b1: u8, b2: u8, b3: u8)
    ensures
        hex_fixed((b3 + b2 * 0x100 + b1 * 0x1_0000 + b0 * 0x100_0000) as nat, 8) == hex_bytes(
            seq![b0, b1, b2, b3],
        ),
{
    let w = (b3 + b2 * 0x100 + b1 * 0x1_0000 + b0 * 0x100_0000) as nat;
    lemma_word_bytes(b3, b2, b1, b0);
    let r1 = w / 0x100;
    let r2 = r1 / 0x100;
    let r3 = r2 / 0x100;
    assert(w % 0x100 == b3);
    assert(r1 % 0x100 == b2);
    assert(r2 == w / 0x1_0000);
    assert(r2 % 0x100 == b1);
    assert(r3 == w / 0x100_0000);
    assert(r3 == b0);
    lemma_hex_fixed_split(w, 6);
    lemma_hex_fixed_split(r1, 4);
    lemma_hex_fixed_split(r2, 2);
    lemma_hex_fixed_split(r3, 0);
    assert(r3 / 0x100 == 0 && r3 % 0x100 == b0);
    assert(hex_fixed(0, 0) =~= Seq::<u8>::empty());
    assert(hex_fixed(r3, 2) =~= hex_fixed(b0 as nat, 2));
    lemma_hex_bytes_single(b0);
    lemma_hex_bytes_single(b1);
    lemma_hex_bytes_single(b2);
    lemma_hex_bytes_single(b3);
    lemma_hex_bytes_append(seq![b0], seq![b1]);
    lemma_hex_bytes_append(seq![b0] + seq![b1], seq![b2]);
    lemma_hex_bytes_append(seq![b0] + seq![b1] + seq![b2], seq![b3]);
    assert(seq![b0] + seq![b1] + seq![b2] + seq![b3] =~= seq![b0, b1, b2, b3]);
}

/// The sixteen bytes of an IPv6 address in network order.
pub open spec fn network_bytes(a: Ipv6Addr) -> Seq<u8> {
    seq![
        (a.s0 / 0x100) as u8,
        (a.s0 % 0x100) as u8,
        (a.s1 / 0x100) as u8,
        (a.s1 % 0x100) as u8,
        (a.s2 / 0x100) as u8,
        (a.s2 % 0x100) as u8,
        (a.s3 / 0x100) as u8,
        (a.s3 % 0x100) as u8,
        (a.s4 / 0x100) as u8,
        (a.s4 % 0x100) as u8,
        (a.s5 / 0x100) as u8,
        (a.s5 % 0x100) as u8,
        (a.s6 / 0x100) as u8,
        (a.s6 % 0x100) as u8,
        (a.s7 / 0x100) as u8,
        (a.s7 % 0x100) as u8,
    ]
}

/// Word number `k` of the bytes `n`, as a host of the given byte order
/// reads the four bytes from `4 * k` on.
pub open spec fn host_word(n: Seq<u8>, k: int, little_endian: bool) -> u32 {
    if little_endian {
        (n[4 * k] + n[4 * k + 1] * 0x100 + n[4 * k + 2] * 0x1_0000 + n[4 * k + 3] * 0x100_0000) as u32
    } else {
        (n[4 * k + 3] + n[4 * k + 2] * 0x100 + n[4 * k + 1] * 0x1_0000 + n[4 * k] * 0x100_0000) as u32
    }
}

/// The local address field of an IPv6 row as the kernel prints it.
pub open spec fn printed_v6_local(a: Ipv6Addr, port: u16, little_endian: bool) -> Seq<u8> {
    let n = network_bytes(a);
    hex_fixed(host_word(n, 0, little_endian) as nat, 8) + hex_fixed(
        host_word(n, 1, little_endian) as nat,
        8,
    ) + hex_fixed(host_word(n, 2, little_endian) as nat, 8) + hex_fixed(
        host_word(n, 3, little_endian) as nat,
        8,
    ) + seq![COLON] + hex_fixed(port as nat, 4)
}

/// The bytes that the digits of the printed words spell, in the order in
/// which they are printed.
pub open spec fn printed_bytes(a: Ipv6Addr, little_endian: bool) -> Seq<u8> {
    let n = network_bytes(a);
    if little_endian {
        seq![
            n[3], n[2], n[1], n[0], n[7], n[6], n[5], n[4], n[11], n[10], n[9], n[8], n[15], n[14],
            n[13], n[12],
        ]
    } else {
        n
    }
}

/// The digits of one printed word are those of its four bytes in the
/// order in which they are printed.
pub proof fn lemma_printed_word(a: Ipv6Addr, k: int, little_endian: bool)
    requires
        0 <= k < 4,
    ensures
        hex_fixed(host_word(network_bytes(a), k, little_endian) as nat, 8) == hex_bytes(
            printed_bytes(a, little_endian).subrange(4 * k, 4 * k + 4),
        ),
{
    let n = network_bytes(a);
    let p = printed_bytes(a, little_endian).subrange(4 * k, 4 * k + 4);
    assert(p =~= seq![p[0], p[1], p[2], p[3]]);
    lemma_hex_word_is_bytes(p[0], p[1], p[2], p[3]);
}

/// The digits of the four printed words are those of the printed bytes.
pub proof fn lemma_printed_words_are_bytes(a: Ipv6Addr, little_endian: bool)
    ensures
        ({
            let n = network_bytes(a);
            hex_fixed(host_word(n, 0, little_endian) as nat, 8) + hex_fixed(
                host_word(n, 1, little_endian) as nat,
                8,
            ) + hex_fixed(host_word(n, 2, little_endian) as nat, 8) + hex_fixed(
                host_word(n, 3, little_endian) as nat,
                8,
            ) == hex_bytes(printed_bytes(a, little_endian))
        }),
{
    let p = printed_bytes(a, little_endian);
    lemma_printed_word(a, 0, little_endian);
    lemma_printed_word(a, 1, little_endian);
    lemma_printed_word(a, 2, little_endian);
    lemma_printed_word(a, 3, little_endian);
    lemma_hex_bytes_append(p.subrange(0, 4), p.subrange(4, 8));
    assert(p.subrange(0, 4) + p.subrange(4, 8) =~= p.subrange(0, 8));
    lemma_hex_bytes_append(p.subrange(0, 8), p.subrange(8, 12));
    assert(p.subrange(0, 8) + p.subrange(8, 12) =~= p.subrange(0, 12));
    lemma_hex_bytes_append(p.subrange(0, 12), p.subrange(12, 16));
    assert(p.subrange(0, 12) + p.subrange(12, 16) =~= p);
}

/// The digits of two runs of bytes, one after the other, are the digits of
/// the first followed by those of the second.
pub proof fn lemma_hex_bytes_append(x: Seq<u8>, y: Seq<u8>)
    ensures
        hex_bytes(x + y) == hex_bytes(x) + hex_bytes(y),
    decreases x.len(),
{
    if x.len() == 0 {
        assert(x + y =~= y);
        assert(hex_bytes(x) + hex_bytes(y) =~= hex_bytes(y));
    } else {
        lemma_hex_bytes_append(x.drop_first(), y);
        assert((x + y).drop_first() =~= x.drop_first() + y);
        assert((x + y)[0] == x[0]);
        assert(hex_bytes(x + y) =~= hex_bytes(x) + hex_bytes(y));
    }
}

/// Byte-order correctness for IPv6: the local address that the kernel
/// prints for an address and a port is read back as that address and that
/// port, on a host of either byte order.
pub proof fn lemma_v6_local_round_trip(a: Ipv6Addr, port: u16, little_endian: bool)
    ensures
        v6_local(printed_v6_local(a, port, little_endian), little_endian) == Some(
            SocketAddr { ip: IpAddr::V6(a), port },
        ),
{
    let text = printed_v6_local(a, port, little_endian);
    let p = printed_bytes(a, little_endian);
    let digits = hex_bytes(p);
    let tail = hex_fixed(port as nat, 4);
    lemma_printed_words_are_bytes(a, little_endian);
    lemma_hex_bytes(p);
    assert(pow16(4) == 0x1_0000) by {
        reveal_with_fuel(pow16, 5);
    }
    lemma_hex_fixed(port as nat, 4);
    lemma_hex_fixed_parses(port as nat, 4, 0xffff);
    assert(text =~= digits + seq![COLON] + tail);
    assert(text.len() == 37);
    assert forall|j: int| 0 <= j < 32 implies #[trigger] text[j] != COLON by {
        assert(text[j] == digits[j]);
    }
    assert(text[32] == COLON);
    assert forall|j: int| 33 <= j < 37 implies #[trigger] text[j] != COLON by {
        assert(text[j] == tail[j - 33]);
    }
    lemma_find_from_is(text, COLON, 0, 32);
    lemma_find_from_is(text, COLON, 33, 37);
    assert(text.subrange(0, 32) =~= digits);
    assert(text.subrange(33, 37) =~= tail);
    lemma_hex_pairs_of_hex_bytes(Seq::<u8>::empty(), p);
    assert(Seq::<u8>::empty() + digits =~= digits);
    assert(hex_pairs_from(digits, 0) == p);
    assert(ipv6_from_bytes(p, little_endian) == a);
}

} // verus!
