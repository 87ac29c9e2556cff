//! Numbers and text out of bytes as other code reads them: big-endian
//! integers by way of the `byteorder` crate, strict UTF-8 by way of std.

use byteorder::{ByteOrder, NetworkEndian};
use vstd::prelude::*;

verus! {

/// The 16-bit number whose high byte is `hi` and whose low byte is `lo`.
pub open spec fn big_endian_u16(hi: u8, lo: u8) -> u16 {
    (hi * 0x100 + lo) as u16
}

/// `byteorder::NetworkEndian::read_u16`: the first two bytes of `buf` as a
/// big-endian number. The crate panics on a shorter buffer, which the
/// precondition leaves out.
#[verifier::external_body]
pub(crate) fn read_u16(buf: &[u8]) -> (r: u16)
    requires
        buf@.len() >= 2,
    ensures
        r == big_endian_u16(buf@[0], buf@[1]),
{
    NetworkEndian::read_u16(buf)
}

/// `byteorder::NetworkEndian::read_u16_into` on sixteen bytes: each pair of
/// bytes as a big-endian number, in order. The crate panics unless the
/// source is twice as long as the destination, which here has eight places.
#[verifier::external_body]
pub(crate) fn read_u16_into(src: &[u8]) -> (r: [u16; 8])
    requires
        src@.len() == 16,
    ensures
        forall|i: int| 0 <= i < 8 ==> #[trigger] r@[i] == big_endian_u16(src@[2 * i], src@[2 * i + 1]),
{
    let mut dst = [0u16; 8];
    NetworkEndian::read_u16_into(src, &mut dst);
    dst
}

/// `String::from_utf8` of std on a copy of `bytes`: the text that the bytes
/// encode, if they are well-formed UTF-8, and nothing otherwise.
#[verifier::external_body]
pub(crate) fn string_from_utf8(bytes: &[u8]) -> (r: Option<String>)
    ensures
        match r {
            Some(s) => vstd::utf8::valid_utf8(bytes@) && s@ == vstd::utf8::decode_utf8(bytes@),
            None => !vstd::utf8::valid_utf8(bytes@),
        },
{
    String::from_utf8(bytes.to_vec()).ok()
}

} // verus!
