//! Unsigned and signed numbers written in ASCII digits.
//!
//! A number is an optional sign followed by one or more digits of the radix;
//! letters stand for the digits from ten on, in either case. Nothing else is
//! accepted: no blanks, no prefix, no separator. A value that does not fit
//! the range asked for is refused.

use vstd::prelude::*;

verus! {

/// The value of `b` read as a digit or letter, or 36 if it is neither.
pub open spec fn digit_raw(b: u8) -> nat {
    if 0x30 <= b <= 0x39 {
        (b - 0x30) as nat
    } else if 0x61 <= b <= 0x7a {
        (b - 0x61 + 10) as nat
    } else if 0x41 <= b <= 0x5a {
        (b - 0x41 + 10) as nat
    } else {
        36
    }
}

/// Whether `b` is a digit of `radix`.
pub open spec fn is_digit(b: u8, radix: nat) -> bool {
    digit_raw(b) < radix
}

/// Whether `s` is one or more digits of `radix`.
pub open spec fn is_digits(s: Seq<u8>, radix: nat) -> bool {
    s.len() > 0 && forall|i: int| 0 <= i < s.len() ==> is_digit(#[trigger] s[i], radix)
}

/// The number that the digits `s` spell in `radix`, most significant first.
pub open spec fn digits_value(s: Seq<u8>, radix: nat) -> nat
    decreases s.len(),
{
    if s.len() == 0 {
        0
    } else {
        digits_value(s.drop_last(), radix) * radix + digit_raw(s.last())
    }
}

/// `s` without a leading plus sign.
pub open spec fn strip_plus(s: Seq<u8>) -> Seq<u8> {
    if s.len() > 0 && s[0] == 0x2b {
        s.subrange(1, s.len() as int)
    } else {
        s
    }
}

/// The unsigned number that `s` spells in `radix`, if it is one and is at
/// most `max`.
pub open spec fn parse_unsigned(s: Seq<u8>, radix: nat, max: nat) -> Option<nat> {
    let body = strip_plus(s);
    if is_digits(body, radix) && digits_value(body, radix) <= max {
        Some(digits_value(body, radix))
    } else {
        None
    }
}

/// The signed number that `s` spells in radix ten, if it is one and fits in
/// 32 bits.
pub open spec fn parse_signed_32(s: Seq<u8>) -> Option<int> {
    if s.len() > 0 && s[0] == 0x2d {
        let body = s.subrange(1, s.len() as int);
        if is_digits(body, 10) && digits_value(body, 10) <= 0x8000_0000 {
            Some(-(digits_value(body, 10) as int))
        } else {
            None
        }
    } else {
        match parse_unsigned(s, 10, 0x7fff_ffff) {
            Some(v) => Some(v as int),
            None => None,
        }
    }
}

/// Appending digits never makes the number smaller.
pub proof fn lemma_digits_value_prefix(s: Seq<u8>, k: int, radix: nat)
    requires
        0 <= k <= s.len(),
        radix >= 1,
    ensures
        digits_value(s.take(k), radix) <= digits_value(s, radix),
    decreases s.len(),
{
    if k == s.len() {
        assert(s.take(k) =~= s);
    } else {
        let init = s.drop_last();
        lemma_digits_value_prefix(init, k, radix);
        assert(init.take(k) =~= s.take(k));
        let v = digits_value(init, radix);
        assert(v * radix >= v) by (nonlinear_arith)
            requires
                radix >= 1,
                v >= 0,
        ;
    }
}

/// One more digit at the end multiplies by the radix and adds the digit.
pub proof fn lemma_digits_value_step(s: Seq<u8>, a: int, i: int, radix: nat)
    requires
        0 <= a <= i < s.len(),
    ensures
        digits_value(s.subrange(a, i + 1), radix) == digits_value(s.subrange(a, i), radix) * radix
            + digit_raw(s[i]),
{
    let t = s.subrange(a, i + 1);
    assert(t.drop_last() =~= s.subrange(a, i));
    assert(t.last() == s[i]);
}

/// The value of `b` as a digit of `radix`, if it is one.
pub fn digit_byte(b: u8, radix: u64) -> (r: Option<u64>)
    requires
        2 <= radix <= 36,
    ensures
        match r {
            Some(d) => is_digit(b, radix as nat) && d == digit_raw(b),
            None => !is_digit(b, radix as nat),
        },
{
    let v: u64 = if 0x30 <= b && b <= 0x39 {
        (b - 0x30) as u64
    } else if 0x61 <= b && b <= 0x7a {
        (b - 0x61) as u64 + 10
    } else if 0x41 <= b && b <= 0x5a {
        (b - 0x41) as u64 + 10
    } else {
        36
    };
    if v < radix {
        Some(v)
    } else {
        None
    }
}

/// The number spelled by the bytes of `text` from `start` on, which must be
/// one or more digits of `radix`, if it is at most `max`.
pub fn parse_digits(text: &[u8], start: usize, radix: u64, max: u64) -> (r: Option<u64>)
    requires
        2 <= radix <= 36,
        start <= text@.len(),
    ensures
        ({
            let body = text@.subrange(start as int, text@.len() as int);
            match r {
                Some(v) => is_digits(body, radix as nat) && v == digits_value(body, radix as nat)
                    && v <= max,
                None => !(is_digits(body, radix as nat) && digits_value(body, radix as nat)
                    <= max),
            }
        }),
{
    let ghost body = text@.subrange(start as int, text@.len() as int);
    if start == text.len() {
        return None;
    }
    let mut acc: u64 = 0;
    let mut i: usize = start;
    while i < text.len()
        invariant
            2 <= radix <= 36,
            start <= i <= text@.len(),
            body == text@.subrange(start as int, text@.len() as int),
            acc <= max,
            acc == digits_value(text@.subrange(start as int, i as int), radix as nat),
            forall|k: int| start <= k < i ==> is_digit(#[trigger] text@[k], radix as nat),
        decreases text@.len() - i,
    {
        proof {
            lemma_digits_value_step(text@, start as int, i as int, radix as nat);
            lemma_digits_value_prefix(body, i + 1 - start, radix as nat);
            assert(body.take(i + 1 - start) =~= text@.subrange(start as int, i + 1));
            assert(body[i - start] == text@[i as int]);
        }
        let next: u64 = match digit_byte(text[i], radix) {
            None => {
                return None;
            },
            Some(d) => match acc.checked_mul(radix) {
                None => {
                    return None;
                },
                Some(m) => match m.checked_add(d) {
                    None => {
                        return None;
                    },
                    Some(v) => v,
                },
            },
        };
        if next > max {
            return None;
        }
        acc = next;
        i += 1;
    }
    proof {
        assert(text@.subrange(start as int, i as int) =~= body);
        assert forall|k: int| 0 <= k < body.len() implies is_digit(
            #[trigger] body[k],
            radix as nat,
        ) by {
            assert(body[k] == text@[start + k]);
        }
    }
    Some(acc)
}

/// The unsigned number that `text` spells in `radix`, if it is at most `max`.
pub fn parse_unsigned_bytes(text: &[u8], radix: u64, max: u64) -> (r: Option<u64>)
    requires
        2 <= radix <= 36,
    ensures
        match r {
            Some(v) => parse_unsigned(text@, radix as nat, max as nat) == Some(v as nat),
            None => parse_unsigned(text@, radix as nat, max as nat) is None,
        },
{
    let start: usize = if text.len() > 0 && text[0] == 0x2b {
        1
    } else {
        0
    };
    proof {
        assert(strip_plus(text@) =~= text@.subrange(start as int, text@.len() as int));
    }
    parse_digits(text, start, radix, max)
}

/// The signed decimal number that `text` spells, if it fits in 32 bits.
pub fn parse_i32_bytes(text: &[u8]) -> (r: Option<i32>)
    ensures
        match r {
            Some(v) => parse_signed_32(text@) == Some(v as int),
            None => parse_signed_32(text@) is None,
        },
{
    if text.len() > 0 && text[0] == 0x2d {
        match parse_digits(text, 1, 10, 0x8000_0000) {
            Some(v) => {
                if v == 0x8000_0000 {
                    Some(i32::MIN)
                } else {
                    Some(-(v as i32))
                }
            },
            None => None,
        }
    } else {
        match parse_unsigned_bytes(text, 10, 0x7fff_ffff) {
            Some(v) => Some(v as i32),
            None => None,
        }
    }
}

} // verus!
