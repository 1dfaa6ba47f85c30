//! Identifiers for videos and peers: random bytes written as lowercase hex,
//! with a clock-derived fallback when no random bytes can be read.

use crate::clock::{now_nanos, now_secs};
use vstd::prelude::*;

verus! {

/// The lowercase hex digit of `n` (`0 <= n < 16`).
pub open spec fn hex_char(n: int) -> char {
    if n == 0 { '0' }
    else if n == 1 { '1' }
    else if n == 2 { '2' }
    else if n == 3 { '3' }
    else if n == 4 { '4' }
    else if n == 5 { '5' }
    else if n == 6 { '6' }
    else if n == 7 { '7' }
    else if n == 8 { '8' }
    else if n == 9 { '9' }
    else if n == 10 { 'a' }
    else if n == 11 { 'b' }
    else if n == 12 { 'c' }
    else if n == 13 { 'd' }
    else if n == 14 { 'e' }
    else { 'f' }
}

/// Each byte as two lowercase hex digits, high nibble first (`{:02x}`).
pub open spec fn hex_of(bytes: Seq<u8>) -> Seq<char> {
    Seq::new(
        2 * bytes.len(),
        |k: int|
            if k % 2 == 0 {
                hex_char((bytes[k / 2] / 16) as int)
            } else {
                hex_char((bytes[k / 2] % 16) as int)
            },
    )
}

/// The little-endian bytes of `x`, `n` of them.
pub open spec fn le_bytes(x: u128, n: nat) -> Seq<u8> {
    Seq::new(n, |k: int| ((x >> ((8 * k) as u128)) & 0xff) as u8)
}

/// The seed that a video id falls back to: the Unix seconds in the low 64
/// bits (sign-extended, as `as u128` does) and the process id xor-ed into
/// the high 64 bits.
pub open spec fn video_seed(now_secs: i64, pid: u32) -> u128 {
    (now_secs as u128) ^ ((pid as u128) << 64u128)
}

/// The id bytes that a peer falls back to: the clock's nanoseconds cut to
/// 64 bits, little-endian.
pub open spec fn peer_seed_bytes(nanos: u64) -> Seq<u8> {
    le_bytes(nanos as u128, 8)
}

/// Calls `String::push`: the string gets `c` appended.
#[verifier::external_body]
fn push_char(s: &mut String, c: char)
    ensures
        final(s)@ == old(s)@.push(c),
{
    s.push(c)
}

fn hex_digit(n: u8) -> (c: char)
    requires
        n < 16,
    ensures
        c == hex_char(n as int),
{
    match n {
        0 => '0',
        1 => '1',
        2 => '2',
        3 => '3',
        4 => '4',
        5 => '5',
        6 => '6',
        7 => '7',
        8 => '8',
        9 => '9',
        10 => 'a',
        11 => 'b',
        12 => 'c',
        13 => 'd',
        14 => 'e',
        _ => 'f',
    }
}

/// Writes `bytes` as lowercase hex, two digits per byte.
pub fn hex_lower(bytes: &[u8]) -> (s: String)
    ensures
        s@ == hex_of(bytes@),
{
    let mut s = String::new();
    let n = bytes.len();
    for i in 0..n
        invariant
            n == bytes@.len(),
            s@ =~= hex_of(bytes@.take(i as int)),
    {
        let b = bytes[i];
        let ghost before = s@;
        push_char(&mut s, hex_digit(b / 16));
        push_char(&mut s, hex_digit(b % 16));
        assert(s@ =~= hex_of(bytes@.take(i + 1))) by {
            let t = bytes@.take(i + 1);
            assert(t.len() == i + 1);
            assert forall|k: int| 0 <= k < 2 * (i + 1) implies #[trigger] s@[k] == hex_of(t)[k] by {
                if k < 2 * i {
                    assert(k / 2 < i);
                    assert(t[k / 2] == bytes@.take(i as int)[k / 2]);
                } else if k == 2 * i {
                    assert(k / 2 == i);
                    assert(k % 2 == 0);
                } else {
                    assert(k / 2 == i);
                    assert(k % 2 == 1);
                }
            }
        }
    }
    assert(bytes@.take(n as int) =~= bytes@);
    s
}

/// The little-endian bytes of `x`, `n` of them (at most 16).
fn le_bytes_of(x: u128, n: usize) -> (v: Vec<u8>)
    requires
        n <= 16,
    ensures
        v@ == le_bytes(x, n as nat),
{
    let mut v: Vec<u8> = Vec::new();
    for k in 0..n
        invariant
            n <= 16,
            v@ =~= le_bytes(x, k as nat),
    {
        let shift: u128 = 8 * (k as u128);
        v.push(((x >> shift) & 0xff) as u8);
    }
    v
}

/// The id bytes that a video falls back to when no random bytes can be read.
pub fn video_seed_bytes(now_secs: i64, pid: u32) -> (v: Vec<u8>)
    ensures
        v@ == le_bytes(video_seed(now_secs, pid), 16),
{
    let seed: u128 = (now_secs as u128) ^ ((pid as u128) << 64u128);
    le_bytes_of(seed, 16)
}

/// A fresh video id: 16 random bytes as 32 hex digits, or, when none could be
/// read, the clock and the process id as the seed.
pub fn new_id(random: Option<[u8; 16]>, pid: u32) -> (id: String)
    ensures
        random matches Some(b) ==> id@ == hex_of(b@),
        random is None ==> exists|t: i64| id@ == hex_of(le_bytes(video_seed(t, pid), 16)),
        id@.len() == 32,
{
    match random {
        Some(b) => hex_lower(&b),
        None => {
            let t = now_secs();
            let bytes = video_seed_bytes(t, pid);
            hex_lower(bytes.as_slice())
        },
    }
}

/// A fresh peer id: 8 random bytes as 16 hex digits, or, when none could be
/// read, the clock's nanoseconds cut to 64 bits.
pub fn new_peer_id(random: Option<[u8; 8]>) -> (id: String)
    ensures
        random matches Some(b) ==> id@ == hex_of(b@),
        random is None ==> exists|n: u64| id@ == hex_of(peer_seed_bytes(n)),
        id@.len() == 16,
{
    match random {
        Some(b) => hex_lower(&b),
        None => {
            let n = now_nanos();
            let cut = n as u64;
            let bytes = le_bytes_of(cut as u128, 8);
            let id = hex_lower(bytes.as_slice());
            assert(id@ == hex_of(peer_seed_bytes(cut)));
            id
        },
    }
}

} // verus!
