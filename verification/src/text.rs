//! Reading text out of bytes: blank-separated fields, delimiters, trimming and
//! unsigned numbers in a given radix.
//!
//! Everything here works on raw bytes. A blank is one of the six ASCII
//! white-space bytes; a field is a maximal run of bytes that are not blanks.

use vstd::prelude::*;
use vstd::slice::slice_subrange;

verus! {

/// Whether `b` is ASCII white space: space, tab, line feed, vertical tab,
/// form feed or carriage return.
pub open spec fn is_space(b: u8) -> bool {
    b == 0x20 || (0x09 <= b && b <= 0x0d)
}

/// Executable form of [`is_space`].
pub fn is_space_byte(b: u8) -> (r: bool)
    ensures
        r == is_space(b),
{
    b == 0x20 || (0x09 <= b && b <= 0x0d)
}

/// The first position at or after `i` that holds no blank, or the length of
/// `s` if only blanks follow.
pub open spec fn skip_spaces(s: Seq<u8>, i: int) -> int
    decreases s.len() - i,
{
    if 0 <= i < s.len() && is_space(s[i]) {
        skip_spaces(s, i + 1)
    } else {
        i
    }
}

/// The first position at or after `i` that holds a blank, or the length of
/// `s` if no blank follows.
pub open spec fn skip_word(s: Seq<u8>, i: int) -> int
    decreases s.len() - i,
{
    if 0 <= i < s.len() && !is_space(s[i]) {
        skip_word(s, i + 1)
    } else {
        i
    }
}

/// `skip_spaces` stops inside the text, passes only blanks, and stops at a
/// byte that is no blank unless it reaches the end.
pub proof fn lemma_skip_spaces(s: Seq<u8>, i: int)
    requires
        0 <= i <= s.len(),
    ensures
        i <= skip_spaces(s, i) <= s.len(),
        forall|k: int| i <= k < skip_spaces(s, i) ==> is_space(#[trigger] s[k]),
        skip_spaces(s, i) < s.len() ==> !is_space(s[skip_spaces(s, i)]),
    decreases s.len() - i,
{
    if i < s.len() && is_space(s[i]) {
        lemma_skip_spaces(s, i + 1);
    }
}

/// `skip_word` stops inside the text, passes no blank, and stops at a blank
/// unless it reaches the end.
pub proof fn lemma_skip_word(s: Seq<u8>, i: int)
    requires
        0 <= i <= s.len(),
    ensures
        i <= skip_word(s, i) <= s.len(),
        forall|k: int| i <= k < skip_word(s, i) ==> !is_space(#[trigger] s[k]),
        skip_word(s, i) < s.len() ==> is_space(s[skip_word(s, i)]),
    decreases s.len() - i,
{
    if i < s.len() && !is_space(s[i]) {
        lemma_skip_word(s, i + 1);
    }
}

/// Where field number `n` (counted from zero) starts, or the length of `s`
/// if the text has no such field.
pub open spec fn field_start(s: Seq<u8>, n: nat) -> int
    decreases n,
{
    if n == 0 {
        skip_spaces(s, 0)
    } else {
        skip_spaces(s, skip_word(s, field_start(s, (n - 1) as nat)))
    }
}

/// Field number `n` of `s`, counted from zero: the `n`-th maximal run of
/// bytes that are not blanks. `None` if the text has fewer fields.
pub open spec fn field(s: Seq<u8>, n: nat) -> Option<Seq<u8>> {
    let a = field_start(s, n);
    if 0 <= a < s.len() {
        Some(s.subrange(a, skip_word(s, a)))
    } else {
        None
    }
}

/// A field start lies inside the text or at its end.
pub proof fn lemma_field_start_bounds(s: Seq<u8>, n: nat)
    ensures
        0 <= field_start(s, n) <= s.len(),
    decreases n,
{
    if n == 0 {
        lemma_skip_spaces(s, 0);
    } else {
        lemma_field_start_bounds(s, (n - 1) as nat);
        lemma_skip_word(s, field_start(s, (n - 1) as nat));
        lemma_skip_spaces(s, skip_word(s, field_start(s, (n - 1) as nat)));
    }
}

/// A field is never empty and holds no blank.
pub proof fn lemma_field_is_word(s: Seq<u8>, n: nat)
    ensures
        field(s, n) matches Some(f) ==> f.len() > 0 && forall|k: int|
            0 <= k < f.len() ==> !is_space(#[trigger] f[k]),
{
    lemma_field_start_bounds(s, n);
    let a = field_start(s, n);
    lemma_skip_word(s, a);
    if n == 0 {
        lemma_skip_spaces(s, 0);
    } else {
        let w = skip_word(s, field_start(s, (n - 1) as nat));
        lemma_field_start_bounds(s, (n - 1) as nat);
        lemma_skip_word(s, field_start(s, (n - 1) as nat));
        lemma_skip_spaces(s, w);
    }
}

/// The first position at or after `i` that holds no blank.
pub fn skip_spaces_from(s: &[u8], i: usize) -> (j: usize)
    requires
        i <= s@.len(),
    ensures
        j == skip_spaces(s@, i as int),
        i <= j <= s@.len(),
{
    let mut j: usize = i;
    while j < s.len() && is_space_byte(s[j])
        invariant
            i <= j <= s@.len(),
            skip_spaces(s@, j as int) == skip_spaces(s@, i as int),
        decreases s@.len() - j,
    {
        j += 1;
    }
    j
}

/// The first position at or after `i` that holds a blank.
pub fn skip_word_from(s: &[u8], i: usize) -> (j: usize)
    requires
        i <= s@.len(),
    ensures
        j == skip_word(s@, i as int),
        i <= j <= s@.len(),
{
    let mut j: usize = i;
    while j < s.len() && !is_space_byte(s[j])
        invariant
            i <= j <= s@.len(),
            skip_word(s@, j as int) == skip_word(s@, i as int),
        decreases s@.len() - j,
    {
        j += 1;
    }
    j
}

/// Field number `n` of `line`, counted from zero.
pub fn nth_field(line: &[u8], n: usize) -> (r: Option<&[u8]>)
    ensures
        match r {
            Some(f) => field(line@, n as nat) == Some(f@),
            None => field(line@, n as nat) is None,
        },
{
    let mut start: usize = skip_spaces_from(line, 0);
    let mut k: usize = 0;
    while k < n
        invariant
            k <= n,
            start <= line@.len(),
            start == field_start(line@, k as nat),
        decreases n - k,
    {
        let w = skip_word_from(line, start);
        start = skip_spaces_from(line, w);
        k += 1;
    }
    if start < line.len() {
        let end = skip_word_from(line, start);
        Some(slice_subrange(line, start, end))
    } else {
        None
    }
}

/// The position of the first `b` in `s` at or after `i`, or the length of
/// `s` if there is none.
pub open spec fn find_from(s: Seq<u8>, b: u8, i: int) -> int
    decreases s.len() - i,
{
    if 0 <= i < s.len() && s[i] != b {
        find_from(s, b, i + 1)
    } else {
        i
    }
}

/// `find_from` stops inside the text, passes no `b`, and stops at a `b`
/// unless it reaches the end.
pub proof fn lemma_find_from(s: Seq<u8>, b: u8, i: int)
    requires
        0 <= i <= s.len(),
    ensures
        i <= find_from(s, b, i) <= s.len(),
        forall|k: int| i <= k < find_from(s, b, i) ==> #[trigger] s[k] != b,
        find_from(s, b, i) < s.len() ==> s[find_from(s, b, i)] == b,
    decreases s.len() - i,
{
    if i < s.len() && s[i] != b {
        lemma_find_from(s, b, i + 1);
    }
}

/// The position of the first `b` in `s` at or after `i`.
pub fn find_byte_from(s: &[u8], b: u8, i: usize) -> (j: usize)
    requires
        i <= s@.len(),
    ensures
        j == find_from(s@, b, i as int),
        i <= j <= s@.len(),
{
    let mut j: usize = i;
    while j < s.len() && s[j] != b
        invariant
            i <= j <= s@.len(),
            find_from(s@, b, j as int) == find_from(s@, b, i as int),
        decreases s@.len() - j,
    {
        j += 1;
    }
    j
}

/// The position of the last `b` among the first `n` bytes of `s`, or `-1`
/// if there is none.
pub open spec fn rfind_before(s: Seq<u8>, b: u8, n: int) -> int
    decreases n,
{
    if 0 < n <= s.len() && s[n - 1] != b {
        rfind_before(s, b, n - 1)
    } else {
        n - 1
    }
}

/// `rfind_before` finds a `b` that no later `b` follows, or nothing.
pub proof fn lemma_rfind_before(s: Seq<u8>, b: u8, n: int)
    requires
        0 <= n <= s.len(),
    ensures
        -1 <= rfind_before(s, b, n) < n,
        forall|k: int| rfind_before(s, b, n) < k < n ==> #[trigger] s[k] != b,
        rfind_before(s, b, n) >= 0 ==> s[rfind_before(s, b, n)] == b,
    decreases n,
{
    if 0 < n && s[n - 1] != b {
        lemma_rfind_before(s, b, n - 1);
    }
}

/// The position of the last `b` in `s`.
pub fn rfind_byte(s: &[u8], b: u8) -> (r: Option<usize>)
    ensures
        match r {
            Some(j) => j == rfind_before(s@, b, s@.len() as int),
            None => rfind_before(s@, b, s@.len() as int) == -1,
        },
{
    let mut n: usize = s.len();
    while n > 0 && s[n - 1] != b
        invariant
            n <= s@.len(),
            rfind_before(s@, b, n as int) == rfind_before(s@, b, s@.len() as int),
        decreases n,
    {
        n -= 1;
    }
    if n == 0 {
        None
    } else {
        Some(n - 1)
    }
}

/// The number of blanks that `s` ends with, counted among its first `n` bytes.
pub open spec fn trim_end_at(s: Seq<u8>, n: int) -> int
    decreases n,
{
    if 0 < n <= s.len() && is_space(s[n - 1]) {
        trim_end_at(s, n - 1)
    } else {
        n
    }
}

/// `s` without the blanks at its start and at its end.
pub open spec fn trim(s: Seq<u8>) -> Seq<u8> {
    let a = skip_spaces(s, 0);
    let b = trim_end_at(s, s.len() as int);
    if a <= b {
        s.subrange(a, b)
    } else {
        Seq::empty()
    }
}

/// `trim_end_at` stops inside the text and passes only blanks.
pub proof fn lemma_trim_end_at(s: Seq<u8>, n: int)
    requires
        0 <= n <= s.len(),
    ensures
        0 <= trim_end_at(s, n) <= n,
        forall|k: int| trim_end_at(s, n) <= k < n ==> is_space(#[trigger] s[k]),
        trim_end_at(s, n) > 0 ==> !is_space(s[trim_end_at(s, n) - 1]),
    decreases n,
{
    if 0 < n && is_space(s[n - 1]) {
        lemma_trim_end_at(s, n - 1);
    }
}

/// `s` without the blanks at its start and at its end.
pub fn trim_bytes(s: &[u8]) -> (r: &[u8])
    ensures
        r@ == trim(s@),
{
    let a = skip_spaces_from(s, 0);
    let mut b: usize = s.len();
    while b > 0 && is_space_byte(s[b - 1])
        invariant
            b <= s@.len(),
            trim_end_at(s@, b as int) == trim_end_at(s@, s@.len() as int),
        decreases b,
    {
        b -= 1;
    }
    if a <= b {
        slice_subrange(s, a, b)
    } else {
        slice_subrange(s, 0, 0)
    }
}

/// The pieces of `s` from position `i` on, cut at each `delim`, each handed
/// to `f`; what `f` accepts is kept, in order. A text of `n` delimiters has
/// `n + 1` pieces, some of them possibly empty.
pub open spec fn split_map<T>(s: Seq<u8>, delim: u8, i: int, f: spec_fn(Seq<u8>) -> Option<T>) -> Seq<
    T,
>
    decreases s.len() - i,
{
    if 0 <= i <= s.len() {
        let e = find_from(s, delim, i);
        let head = match f(s.subrange(i, e)) {
            Some(v) => seq![v],
            None => Seq::empty(),
        };
        if i <= e < s.len() {
            head + split_map(s, delim, e + 1, f)
        } else {
            head
        }
    } else {
        Seq::empty()
    }
}

/// Whether `s` holds exactly the bytes of `t`.
pub fn bytes_equal(s: &[u8], t: &[u8]) -> (b: bool)
    ensures
        b == (s@ == t@),
{
    if s.len() != t.len() {
        return false;
    }
    let mut i: usize = 0;
    while i < s.len()
        invariant
            i <= s@.len(),
            s@.len() == t@.len(),
            forall|k: int| 0 <= k < i ==> s@[k] == t@[k],
        decreases s@.len() - i,
    {
        if s[i] != t[i] {
            return false;
        }
        i += 1;
    }
    assert(s@ =~= t@);
    true
}

/// The text that a lossy reading of `bytes` as UTF-8 gives: `bytes` decoded,
/// with each malformed sequence replaced by U+FFFD.
pub uninterp spec fn lossy_text(bytes: Seq<u8>) -> Seq<char>;

/// `String::from_utf8_lossy` of std, as an owned string. The contract names
/// the result, which depends on the bytes alone, and states what std
/// documents of well-formed input: it is decoded as it stands.
#[verifier::external_body]
pub(crate) fn string_from_utf8_lossy(bytes: &[u8]) -> (s: String)
    ensures
        s@ == lossy_text(bytes@),
        vstd::utf8::valid_utf8(bytes@) ==> s@ == vstd::utf8::decode_utf8(bytes@),
{
    String::from_utf8_lossy(bytes).into_owned()
}

/// Everything that `split_map` keeps is what `f` made of some piece.
pub proof fn lemma_split_map_each<T>(
    s: Seq<u8>,
    delim: u8,
    i: int,
    f: spec_fn(Seq<u8>) -> Option<T>,
    k: int,
)
    requires
        0 <= i <= s.len(),
        0 <= k < split_map(s, delim, i, f).len(),
    ensures
        exists|piece: Seq<u8>| #[trigger] f(piece) == Some(split_map(s, delim, i, f)[k]),
    decreases s.len() - i,
{
    let e = find_from(s, delim, i);
    lemma_find_from(s, delim, i);
    let piece = s.subrange(i, e);
    let head = match f(piece) {
        Some(v) => seq![v],
        None => Seq::empty(),
    };
    if k < head.len() {
        assert(f(piece) == Some(split_map(s, delim, i, f)[k]));
    } else {
        lemma_split_map_each(s, delim, e + 1, f, k - head.len());
    }
}

} // verus!
