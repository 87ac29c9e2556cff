//! Where the executable of a process may lie, going by its name and the
//! search path.

use crate::byte_order::string_from_utf8;
use crate::text::{find_byte_from, split_map};
use vstd::prelude::*;
use vstd::slice::slice_subrange;
use vstd::utf8::{decode_utf8, valid_utf8};

verus! {

/// The byte `:`.
pub const COLON: u8 = 0x3a;

/// The byte `/`.
pub const SLASH: u8 = 0x2f;

/// The byte `.`.
pub const DOT: u8 = 0x2e;

/// How many bytes of `s` are left when the slashes at its end are taken
/// away, counted among its first `n` bytes.
pub open spec fn without_slashes(s: Seq<u8>, n: int) -> int
    decreases n,
{
    if 0 < n <= s.len() && s[n - 1] == SLASH {
        without_slashes(s, n - 1)
    } else {
        n
    }
}

/// The directory that an entry of the search path names: the current
/// directory for an empty entry, and the entry without the slashes at its
/// end otherwise.
pub open spec fn directory(entry: Seq<u8>) -> Seq<u8> {
    if entry.len() == 0 {
        seq![DOT]
    } else {
        entry.subrange(0, without_slashes(entry, entry.len() as int))
    }
}

/// The path of `name` under `dir`: `name` alone if it starts at the root or
/// `dir` is empty, else `dir`, a slash unless `dir` ends in one, and `name`.
pub open spec fn join(dir: Seq<u8>, name: Seq<u8>) -> Seq<u8> {
    if (name.len() > 0 && name[0] == SLASH) || dir.len() == 0 {
        name
    } else if dir.last() == SLASH {
        dir + name
    } else {
        dir + seq![SLASH] + name
    }
}

/// Where the executable named `name` would lie under each entry of the
/// search path, in the order of the entries.
pub open spec fn candidates(path_env: Seq<u8>, name: Seq<u8>) -> Seq<Seq<u8>> {
    split_map(path_env, COLON, 0, |entry: Seq<u8>| Some(join(directory(entry), name)))
}

/// The views of a sequence of byte strings.
pub open spec fn byte_views(v: Seq<Vec<u8>>) -> Seq<Seq<u8>> {
    v.map_values(|b: Vec<u8>| b@)
}

/// The first candidate for which `executable` says yes, if there is one.
/// A candidate without a flag counts as no.
pub open spec fn first_executable(candidates: Seq<Seq<u8>>, executable: Seq<bool>, i: int) -> Option<
    Seq<u8>,
>
    decreases candidates.len() - i,
{
    if 0 <= i < candidates.len() {
        if i < executable.len() && executable[i] {
            Some(candidates[i])
        } else {
            first_executable(candidates, executable, i + 1)
        }
    } else {
        None
    }
}

/// Appends the bytes of `s` to `out`.
fn push_all(out: &mut Vec<u8>, s: &[u8])
    ensures
        final(out)@ == old(out)@ + s@,
{
    let mut i: usize = 0;
    assert(out@ =~= old(out)@ + s@.take(0));
    while i < s.len()
        invariant
            i <= s@.len(),
            out@ == old(out)@ + s@.take(i as int),
        decreases s@.len() - i,
    {
        out.push(s[i]);
        assert(out@ =~= old(out)@ + s@.take(i + 1));
        i += 1;
    }
    assert(s@.take(i as int) =~= s@);
}

/// The path of `name` under the directory that `entry` names.
fn candidate(entry: &[u8], name: &[u8]) -> (r: Vec<u8>)
    ensures
        r@ == join(directory(entry@), name@),
{
    let mut out: Vec<u8> = Vec::new();
    if name.len() > 0 && name[0] == SLASH {
        push_all(&mut out, name);
        assert(out@ =~= name@);
        return out;
    }
    if entry.len() == 0 {
        out.push(DOT);
        out.push(SLASH);
        push_all(&mut out, name);
        assert(out@ =~= seq![DOT] + seq![SLASH] + name@);
        return out;
    }
    let mut n: usize = entry.len();
    while n > 0 && entry[n - 1] == SLASH
        invariant
            n <= entry@.len(),
            without_slashes(entry@, n as int) == without_slashes(entry@, entry@.len() as int),
        decreases n,
    {
        n -= 1;
    }
    let dir = slice_subrange(entry, 0, n);
    if n > 0 {
        push_all(&mut out, dir);
        out.push(SLASH);
        assert(out@ =~= dir@ + seq![SLASH]);
    }
    push_all(&mut out, name);
    assert(out@ =~= join(dir@, name@));
    out
}

/// Where the executable named `process_name` would lie under each entry of
/// the search path `path_env`, in the order of the entries.
pub fn search_path(process_name: &[u8], path_env: &[u8]) -> (r: Vec<Vec<u8>>)
    ensures
        byte_views(r@) == candidates(path_env@, process_name@),
{
    let ghost f = |entry: Seq<u8>| Some(join(directory(entry), process_name@));
    let mut out: Vec<Vec<u8>> = Vec::new();
    let mut i: usize = 0;
    let mut done = false;
    assert(byte_views(out@) =~= Seq::<Seq<u8>>::empty());
    assert(Seq::<Seq<u8>>::empty() + split_map(path_env@, COLON, 0, f) =~= candidates(
        path_env@,
        process_name@,
    ));
    while !done
        invariant
            i <= path_env@.len(),
            f == (|entry: Seq<u8>| Some(join(directory(entry), process_name@))),
            !done ==> byte_views(out@) + split_map(path_env@, COLON, i as int, f) == candidates(
                path_env@,
                process_name@,
            ),
            done ==> byte_views(out@) == candidates(path_env@, process_name@),
        decreases path_env@.len() - i + (if done { 0int } else { 1int }),
    {
        let e = find_byte_from(path_env, COLON, i);
        let entry = slice_subrange(path_env, i, e);
        let ghost before = byte_views(out@);
        let c = candidate(entry, process_name);
        let ghost head = seq![c@];
        out.push(c);
        assert(byte_views(out@) =~= before + head);
        if e < path_env.len() {
            assert(before + (head + split_map(path_env@, COLON, e + 1, f)) =~= byte_views(out@)
                + split_map(path_env@, COLON, e + 1, f));
            i = e + 1;
        } else {
            done = true;
        }
    }
    out
}

/// The first of the candidates that is an executable file, going by
/// `executable`, which says of each candidate in order whether it is one.
pub fn locate_process(candidates: &Vec<Vec<u8>>, executable: &Vec<bool>) -> (r: Option<Vec<u8>>)
    ensures
        match r {
            Some(p) => first_executable(byte_views(candidates@), executable@, 0) == Some(p@),
            None => first_executable(byte_views(candidates@), executable@, 0) is None,
        },
{
    let mut i: usize = 0;
    while i < candidates.len()
        invariant
            i <= candidates@.len(),
            first_executable(byte_views(candidates@), executable@, 0) == first_executable(
                byte_views(candidates@),
                executable@,
                i as int,
            ),
        decreases candidates@.len() - i,
    {
        if i < executable.len() && executable[i] {
            let found = candidates[i].clone();
            assert(found@ == candidates@[i as int]@);
            return Some(found);
        }
        i += 1;
    }
    None
}

/// The characters of a command name that are above zero, as bytes, in
/// order: the zero bytes that fill the field and whatever is negative as a
/// signed character are left out.
pub open spec fn comm_bytes(comm: Seq<i8>) -> Seq<u8>
    decreases comm.len(),
{
    if comm.len() == 0 {
        Seq::empty()
    } else if comm.last() > 0 {
        comm_bytes(comm.drop_last()).push(comm.last() as u8)
    } else {
        comm_bytes(comm.drop_last())
    }
}

/// The command name that the field `comm` of a process record of the
/// kernel holds, if what it holds is text.
pub fn comm_name(comm: &[i8]) -> (r: Option<String>)
    ensures
        match r {
            Some(name) => valid_utf8(comm_bytes(comm@)) && name@ == decode_utf8(comm_bytes(comm@)),
            None => !valid_utf8(comm_bytes(comm@)),
        },
{
    let mut bytes: Vec<u8> = Vec::new();
    let mut i: usize = 0;
    assert(comm@.take(0) =~= Seq::<i8>::empty());
    while i < comm.len()
        invariant
            i <= comm@.len(),
            bytes@ == comm_bytes(comm@.take(i as int)),
        decreases comm@.len() - i,
    {
        proof {
            assert(comm@.take(i + 1).drop_last() =~= comm@.take(i as int));
            assert(comm@.take(i + 1).last() == comm@[i as int]);
        }
        if comm[i] > 0 {
            bytes.push(comm[i] as u8);
        }
        i += 1;
    }
    assert(comm@.take(i as int) =~= comm@);
    string_from_utf8(bytes.as_slice())
}

} // verus!
