//! What the client decides about a server it starts over SSH.

use vstd::prelude::*;

verus! {

/// The port the remote server listens on.
pub const SERVER_PORT: u16 = 50051;

/// An ASCII decimal digit.
pub open spec fn is_digit(b: u8) -> bool {
    48 <= b <= 57
}

/// The number that the decimal digits `s` spell.
pub open spec fn digits_value(s: Seq<u8>) -> int
    decreases s.len(),
{
    if s.len() == 0 {
        0
    } else {
        digits_value(s.drop_last()) * 10 + (s.last() - 48)
    }
}

/// The digits of a number written with an optional leading `+`.
pub open spec fn unsigned_digits(s: Seq<u8>) -> Seq<u8> {
    if s.len() > 0 && s[0] == 43 {
        s.drop_first()
    } else {
        s
    }
}

/// What parsing the bytes as text into a `u32` gives: the number where the
/// text is an optional `+` and at least one decimal digit, and the number
/// fits.
pub open spec fn parsed_u32(s: Seq<u8>) -> Option<u32> {
    let d = unsigned_digits(s);
    if d.len() > 0 && (forall|i: int| 0 <= i < d.len() ==> is_digit(#[trigger] d[i]))
        && digits_value(d) <= u32::MAX {
        Some(digits_value(d) as u32)
    } else {
        None
    }
}

proof fn lemma_digits_value_grows(s: Seq<u8>, k: int)
    requires
        0 <= k <= s.len(),
        forall|i: int| 0 <= i < s.len() ==> is_digit(#[trigger] s[i]),
    ensures
        digits_value(s.take(k)) <= digits_value(s),
        0 <= digits_value(s.take(k)),
    decreases s.len(),
{
    if k == s.len() {
        assert(s.take(k) =~= s);
        if s.len() > 0 {
            lemma_digits_value_grows(s.drop_last(), s.len() - 1);
            assert(s.drop_last().take(s.len() - 1) =~= s.drop_last());
        }
    } else {
        lemma_digits_value_grows(s.drop_last(), k);
        assert(s.drop_last().take(k) =~= s.take(k));
        lemma_digits_value_grows(s.drop_last(), s.len() - 1);
        assert(s.drop_last().take(s.len() - 1) =~= s.drop_last());
    }
}

/// The ASCII digit for `d`, a number below ten.
pub open spec fn digit_byte(d: int) -> u8 {
    (48 + d) as u8
}

/// What the server prints for a process id below 100000 when it starts: its
/// decimal digits, padded with zeros to five.
pub open spec fn pid_announcement(pid: u32) -> Seq<u8> {
    seq![
        digit_byte((pid / 10000) as int),
        digit_byte(((pid / 1000) % 10) as int),
        digit_byte(((pid / 100) % 10) as int),
        digit_byte(((pid / 10) % 10) as int),
        digit_byte((pid % 10) as int),
    ]
}

/// The announcement read back: the five bytes the server prints for a
/// process id below 100000 parse to that id.
pub proof fn lemma_pid_announcement_roundtrip(pid: u32)
    requires
        pid < 100000,
    ensures
        parsed_u32(pid_announcement(pid)) == Some(pid),
{
    let s = pid_announcement(pid);
    let a = pid / 10000;
    let b = (pid / 1000) % 10;
    let c = (pid / 100) % 10;
    let d = (pid / 10) % 10;
    let e = pid % 10;
    let p = pid as int;
    assert(p / 10000 < 10);
    assert(p / 10 / 10 == p / 100);
    assert(p / 100 / 10 == p / 1000);
    assert(p / 1000 / 10 == p / 10000);
    assert(p == 10 * (p / 10) + p % 10);
    assert(p / 10 == 10 * (p / 100) + (p / 10) % 10);
    assert(p / 100 == 10 * (p / 1000) + (p / 100) % 10);
    assert(p / 1000 == 10 * (p / 10000) + (p / 1000) % 10);
    assert(pid == a * 10000 + b * 1000 + c * 100 + d * 10 + e);
    assert(s[0] == 48 + a && s[1] == 48 + b && s[2] == 48 + c && s[3] == 48 + d && s[4] == 48 + e);
    assert(unsigned_digits(s) == s);
    assert(digits_value(s.take(1)) == a) by {
        assert(s.take(1).drop_last() =~= Seq::<u8>::empty());
        assert(digits_value(Seq::<u8>::empty()) == 0);
        assert(s.take(1).last() == s[0]);
    }
    assert(digits_value(s.take(2)) == a * 10 + b) by {
        assert(s.take(2).drop_last() =~= s.take(1));
        assert(s.take(2).last() == s[1]);
    }
    assert(digits_value(s.take(3)) == (a * 10 + b) * 10 + c) by {
        assert(s.take(3).drop_last() =~= s.take(2));
        assert(s.take(3).last() == s[2]);
    }
    assert(digits_value(s.take(4)) == ((a * 10 + b) * 10 + c) * 10 + d) by {
        assert(s.take(4).drop_last() =~= s.take(3));
        assert(s.take(4).last() == s[3]);
    }
    assert(digits_value(s) == (((a * 10 + b) * 10 + c) * 10 + d) * 10 + e) by {
        assert(s.drop_last() =~= s.take(4));
        assert(s.last() == s[4]);
    }
}

/// The process id the remote server announces when it starts: the bytes
/// read as text and parsed as a `u32`, or `None` where they are not one.
pub fn parse_server_pid(ack: &[u8]) -> (pid: Option<u32>)
    ensures
        pid == parsed_u32(ack@),
{
    let mut start: usize = 0;
    if ack.len() > 0 && ack[0] == 43u8 {
        start = 1;
    }
    let ghost d = unsigned_digits(ack@);
    assert(d =~= ack@.skip(start as int));
    if start == ack.len() {
        return None;
    }
    let mut value: u64 = 0;
    let mut i: usize = start;
    while i < ack.len()
        invariant
            start <= i <= ack@.len(),
            start < ack@.len(),
            d == ack@.skip(start as int),
            d == unsigned_digits(ack@),
            forall|k: int| 0 <= k < i - start ==> is_digit(#[trigger] d[k]),
            value == digits_value(d.take(i - start)),
            value <= u32::MAX,
        decreases ack@.len() - i,
    {
        let b = ack[i];
        proof {
            assert(d.take(i - start + 1).drop_last() =~= d.take(i - start));
            assert(d[i - start] == b);
        }
        if b < 48u8 || b > 57u8 {
            assert(!is_digit(d[i - start]));
            return None;
        }
        let next: u64 = value * 10 + (b as u64 - 48);
        assert(next == digits_value(d.take(i - start + 1)));
        if next > 0xffff_ffffu64 {
            proof {
                assert forall|k: int| 0 <= k < i - start + 1 implies is_digit(#[trigger] d[k]) by {}
                if forall|k: int| 0 <= k < d.len() ==> is_digit(#[trigger] d[k]) {
                    lemma_digits_value_grows(d, i - start + 1);
                }
            }
            return None;
        }
        value = next;
        i = i + 1;
    }
    proof {
        assert(d.take(i - start) =~= d);
    }
    Some(value as u32)
}

} // verus!
