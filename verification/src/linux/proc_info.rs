//! What `/proc/<pid>/stat` says of a process: its PID and its name.
//!
//! The file is one line, `pid (comm) state ...`. The name stands between the
//! first `(` and the last `)`, for it may itself hold parentheses and
//! blanks. The PID is what stands before the byte that precedes the `(`.

use crate::number::{parse_signed_32, parse_i32_bytes, parse_unsigned, parse_unsigned_bytes};
use crate::text::{
    find_byte_from, find_from, lemma_rfind_before, lossy_text, rfind_before,
    rfind_byte, string_from_utf8_lossy, trim, trim_bytes,
};
use vstd::prelude::*;
use vstd::slice::slice_subrange;

verus! {

/// The byte `(`.
pub const OPEN_PAREN: u8 = 0x28;

/// The byte `)`.
pub const CLOSE_PAREN: u8 = 0x29;

/// A process as procfs describes it.
#[derive(Debug, Clone, PartialEq, Eq, Hash)]
pub struct ProcInfo {
    pub pid: u32,
    pub name: String,
    pub path: String,
}

/// The PID and the bytes of the name in the contents of a `stat` file, if
/// it has an opening parenthesis that is not its first byte, a closing one
/// after it, and a decimal PID of at most 32 bits in front.
pub open spec fn stat_fields(stat: Seq<u8>) -> Option<(u32, Seq<u8>)> {
    let buf = trim(stat);
    let start = find_from(buf, OPEN_PAREN, 0);
    let end = rfind_before(buf, CLOSE_PAREN, buf.len() as int);
    if 1 <= start < buf.len() && start + 1 <= end {
        match parse_unsigned(buf.subrange(0, start - 1), 10, 0xffff_ffff) {
            Some(pid) => Some((pid as u32, buf.subrange(start + 1, end))),
            None => None,
        }
    } else {
        None
    }
}

/// Whether the name of a directory entry is a decimal number of 32 bits
/// with an optional sign, as the names of process directories and of file
/// descriptors are.
pub open spec fn is_number_name(name: Seq<u8>) -> bool {
    parse_signed_32(name) is Some
}

impl ProcInfo {
    /// A process record from its parts.
    pub fn new(pid: u32, name: String, path: String) -> (r: ProcInfo)
        ensures
            r.pid == pid,
            r.name@ == name@,
            r.path@ == path@,
    {
        ProcInfo { pid, name, path }
    }

    /// The PID.
    pub fn pid(&self) -> (r: u32)
        ensures
            r == self.pid,
    {
        self.pid
    }

    /// The name.
    pub fn name(&self) -> (r: String)
        ensures
            r@ == self.name@,
    {
        self.name.clone()
    }

    /// The path of the executable.
    pub fn path(&self) -> (r: String)
        ensures
            r@ == self.path@,
    {
        self.path.clone()
    }

    /// Reads the contents of a `stat` file. `path` is where the `exe` link
    /// of the same process points, or empty if that cannot be told.
    pub fn from_stat(stat: &[u8], path: String) -> (r: Option<ProcInfo>)
        ensures
            match r {
                Some(info) => stat_fields(stat@) matches Some((pid, name)) && info.pid == pid
                    && info.name@ == lossy_text(name) && info.path@ == path@,
                None => stat_fields(stat@) is None,
            },
    {
        let buf = trim_bytes(stat);
        let start = find_byte_from(buf, OPEN_PAREN, 0);
        let end = match rfind_byte(buf, CLOSE_PAREN) {
            Some(e) => e,
            None => {
                return None;
            },
        };
        if start < 1 || start >= buf.len() || start + 1 > end {
            return None;
        }
        proof {
            lemma_rfind_before(buf@, CLOSE_PAREN, buf@.len() as int);
        }
        let pid: u64 = match parse_unsigned_bytes(slice_subrange(buf, 0, start - 1), 10, 0xffff_ffff) {
            Some(v) => v,
            None => {
                return None;
            },
        };
        let name = string_from_utf8_lossy(slice_subrange(buf, start + 1, end));
        Some(ProcInfo { pid: pid as u32, name, path })
    }
}

/// Whether the name of a directory entry is a decimal number of 32 bits.
pub fn is_number_entry(name: &[u8]) -> (b: bool)
    ensures
        b == is_number_name(name@),
{
    parse_i32_bytes(name).is_some()
}

} // verus!
