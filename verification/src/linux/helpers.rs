//! From the `fd` links of the processes to the map from socket inode to
//! owner.

use crate::engine::{
    learn, no_correlation, remember, Correlation, CorrelationKey, CorrelationMap,
    ProcNamesPathsCache, Resolution,
};
use crate::linux::proc_info::{stat_fields, ProcInfo};
use crate::number::{parse_unsigned, parse_unsigned_bytes};
use crate::text::{bytes_equal, find_byte_from, find_from, lossy_text};
use vstd::prelude::*;
use vstd::slice::slice_subrange;

verus! {

/// The byte `:`.
pub const COLON: u8 = 0x3a;

/// The byte `/`.
pub const SLASH: u8 = 0x2f;

/// The byte `[`.
pub const OPEN_BRACKET: u8 = 0x5b;

/// The byte `]`.
pub const CLOSE_BRACKET: u8 = 0x5d;

/// The bytes of the word `socket`.
pub open spec fn socket_word() -> Seq<u8> {
    seq![0x73u8, 0x6f, 0x63, 0x6b, 0x65, 0x74]
}

/// The inode that the target of an `fd` link names, if the link is to a
/// socket: the target does not start with `/`, reads `socket` up to its
/// first `:`, and then, up to the next `:` or the end, a decimal number of
/// at most 64 bits in square brackets.
pub open spec fn socket_inode(link: Seq<u8>) -> Option<u64> {
    let c = find_from(link, COLON, 0);
    if 0 <= c < link.len() && link[0] != SLASH && link.subrange(0, c) == socket_word() {
        let e = find_from(link, COLON, c + 1);
        if c + 3 <= e && link[c + 1] == OPEN_BRACKET && link[e - 1] == CLOSE_BRACKET {
            match parse_unsigned(link.subrange(c + 2, e - 1), 10, u64::MAX as nat) {
                Some(inode) => Some(inode as u64),
                None => None,
            }
        } else {
            None
        }
    } else {
        None
    }
}

/// What a process directory holds, as far as it could be read.
#[derive(Debug, Clone, PartialEq, Eq, Hash)]
pub struct ProcEntry {
    /// The contents of `stat`; empty if it could not be read.
    pub stat: Vec<u8>,
    /// Where the `exe` link points; empty if it could not be read.
    pub exe: String,
    /// Where each link under `fd` points that could be read.
    pub fd_links: Vec<Vec<u8>>,
}

/// `corr` after learning that `pid` holds the sockets among `links`.
pub open spec fn learn_links(corr: Correlation, links: Seq<Vec<u8>>, pid: u32) -> Correlation
    decreases links.len(),
{
    if links.len() == 0 {
        corr
    } else {
        let before = learn_links(corr, links.drop_last(), pid);
        match socket_inode(links.last()@) {
            Some(inode) => learn(before, CorrelationKey::Inode(inode), pid),
            None => before,
        }
    }
}

/// Who owns which inode, going by the processes in order. A process whose
/// `stat` cannot be read teaches nothing; of two processes that hold one
/// inode the later is its owner.
pub open spec fn inode_owners(entries: Seq<ProcEntry>) -> Correlation
    decreases entries.len(),
{
    if entries.len() == 0 {
        no_correlation()
    } else {
        let before = inode_owners(entries.drop_last());
        match stat_fields(entries.last().stat@) {
            Some((pid, _)) => learn_links(before, entries.last().fd_links@, pid),
            None => before,
        }
    }
}

/// The name and path of each PID, going by the processes in order. What the
/// first process of a PID says of it stays.
pub open spec fn process_table(entries: Seq<ProcEntry>) -> Map<u32, Resolution>
    decreases entries.len(),
{
    if entries.len() == 0 {
        Map::empty()
    } else {
        let before = process_table(entries.drop_last());
        match stat_fields(entries.last().stat@) {
            Some((pid, name)) => remember(
                before,
                pid,
                Some((lossy_text(name), entries.last().exe@)),
            ),
            None => before,
        }
    }
}

/// The inode that the target of an `fd` link names, if the link is to a
/// socket.
pub fn get_socket_inode(link: &[u8]) -> (r: Option<u64>)
    ensures
        r == socket_inode(link@),
{
    let c = find_byte_from(link, COLON, 0);
    if c >= link.len() || link[0] == SLASH {
        return None;
    }
    let word: [u8; 6] = [0x73, 0x6f, 0x63, 0x6b, 0x65, 0x74];
    assert(word@ =~= socket_word());
    if !bytes_equal(slice_subrange(link, 0, c), word.as_slice()) {
        return None;
    }
    let e = find_byte_from(link, COLON, c + 1);
    if e - c < 3 || link[c + 1] != OPEN_BRACKET || link[e - 1] != CLOSE_BRACKET {
        return None;
    }
    parse_unsigned_bytes(slice_subrange(link, c + 2, e - 1), 10, u64::MAX)
}

/// Records in `corr` that `pid` holds the sockets among `links`.
pub fn record_links(corr: &mut CorrelationMap, links: &Vec<Vec<u8>>, pid: u32)
    ensures
        final(corr)@ == learn_links(old(corr)@, links@, pid),
{
    let mut i: usize = 0;
    assert(links@.take(0) =~= Seq::<Vec<u8>>::empty());
    while i < links.len()
        invariant
            i <= links@.len(),
            corr@ == learn_links(old(corr)@, links@.take(i as int), pid),
        decreases links@.len() - i,
    {
        proof {
            assert(links@.take(i + 1).drop_last() =~= links@.take(i as int));
            assert(links@.take(i + 1).last() == links@[i as int]);
        }
        match get_socket_inode(links[i].as_slice()) {
            Some(inode) => {
                corr.insert(CorrelationKey::Inode(inode), pid);
            },
            None => {},
        }
        i += 1;
    }
    assert(links@.take(i as int) =~= links@);
}

/// The map from socket inode to owner and the names and paths of the
/// owners, from what the process directories hold.
pub fn build_inode_proc_map(entries: &Vec<ProcEntry>) -> (r: (CorrelationMap, ProcNamesPathsCache))
    ensures
        r.0@ == inode_owners(entries@),
        r.1@ == process_table(entries@),
{
    let mut corr = CorrelationMap::new();
    let mut cache = ProcNamesPathsCache::new();
    let mut i: usize = 0;
    assert(entries@.take(0) =~= Seq::<ProcEntry>::empty());
    while i < entries.len()
        invariant
            i <= entries@.len(),
            corr@ == inode_owners(entries@.take(i as int)),
            cache@ == process_table(entries@.take(i as int)),
        decreases entries@.len() - i,
    {
        proof {
            assert(entries@.take(i + 1).drop_last() =~= entries@.take(i as int));
            assert(entries@.take(i + 1).last() == entries@[i as int]);
        }
        let entry = &entries[i];
        match ProcInfo::from_stat(entry.stat.as_slice(), entry.exe.clone()) {
            Some(info) => {
                record_links(&mut corr, &entry.fd_links, info.pid);
                cache.insert(info.pid, Some((info.name, info.path)));
            },
            None => {},
        }
        i += 1;
    }
    assert(entries@.take(i as int) =~= entries@);
    (corr, cache)
}

} // verus!
