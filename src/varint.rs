//! Base-128 variable-length integers as used by the protocol-buffer wire format.

use vstd::prelude::*;

verus! {

/// Largest number of bytes a varint may occupy in this codec.
pub const MAX_VARINT_LEN: usize = 9;

/// `128^n`.
pub open spec fn pow128(n: nat) -> nat
    decreases n,
{
    if n == 0 {
        1
    } else {
        128 * pow128((n - 1) as nat)
    }
}

/// The bytes that encode `v`: seven bits per byte, least significant group
/// first, the high bit set on every byte but the last.
pub open spec fn varint_bytes(v: nat) -> Seq<u8>
    decreases v,
{
    if v < 128 {
        seq![v as u8]
    } else {
        seq![(v % 128 + 128) as u8] + varint_bytes(v / 128)
    }
}

/// Reads a varint of at most `fuel` bytes from `s` at position `i`; gives its
/// value and the position just past it.
pub open spec fn varint_at(s: Seq<u8>, i: int, fuel: nat) -> Option<(nat, int)>
    decreases fuel,
{
    if fuel == 0 || i < 0 || i >= s.len() {
        None
    } else if s[i] < 128 {
        Some((s[i] as nat, i + 1))
    } else {
        match varint_at(s, i + 1, (fuel - 1) as nat) {
            Some((v, e)) => Some((((s[i] - 128) + 128 * v) as nat, e)),
            None => None,
        }
    }
}

/// A varint of at most nine bytes at position `i`.
pub open spec fn read_varint(s: Seq<u8>, i: int) -> Option<(nat, int)> {
    varint_at(s, i, MAX_VARINT_LEN as nat)
}

pub proof fn lemma_pow128_9()
    ensures
        pow128(9) == 0x8000_0000_0000_0000,
{
    reveal_with_fuel(pow128, 10);
}

pub proof fn lemma_pow128_pos(n: nat)
    ensures
        pow128(n) >= 1,
    decreases n,
{
    if n > 0 {
        lemma_pow128_pos((n - 1) as nat);
    }
}

pub proof fn lemma_varint_at_bounds(s: Seq<u8>, i: int, fuel: nat)
    ensures
        varint_at(s, i, fuel) matches Some((v, e)) ==> v < pow128(fuel) && i < e <= s.len() && e
            <= i + fuel,
    decreases fuel,
{
    if fuel > 0 && 0 <= i < s.len() {
        lemma_pow128_pos((fuel - 1) as nat);
        assert(pow128(fuel) == 128 * pow128((fuel - 1) as nat));
        if s[i] >= 128 {
            lemma_varint_at_bounds(s, i + 1, (fuel - 1) as nat);
        }
    }
}

/// Reading back the encoding of `v`, wherever it stands, gives `v` and ends
/// just past the encoding.
pub proof fn lemma_varint_round_trip(v: nat, pre: Seq<u8>, rest: Seq<u8>, fuel: nat)
    requires
        v < pow128(fuel),
        fuel >= 1,
    ensures
        varint_at(pre + varint_bytes(v) + rest, pre.len() as int, fuel) == Some(
            (v, (pre.len() + varint_bytes(v).len()) as int),
        ),
    decreases v,
{
    let s = pre + varint_bytes(v) + rest;
    if v < 128 {
        assert(s[pre.len() as int] == v as u8);
    } else {
        let b = seq![(v % 128 + 128) as u8];
        assert(pow128(fuel) == 128 * pow128((fuel - 1) as nat));
        assert(v / 128 < pow128((fuel - 1) as nat));
        if fuel == 1 {
            assert(pow128(0) == 1);
        }
        lemma_varint_round_trip(v / 128, pre + b, rest, (fuel - 1) as nat);
        assert(pre + b + varint_bytes(v / 128) + rest =~= s);
        assert(s[pre.len() as int] == (v % 128 + 128) as u8);
    }
}

/// Appends the encoding of `v` to `out`.
pub fn push_varint(out: &mut Vec<u8>, v: u64)
    ensures
        final(out)@ == old(out)@ + varint_bytes(v as nat),
    decreases v,
{
    if v < 128 {
        out.push(v as u8);
        assert(final(out)@ =~= old(out)@ + varint_bytes(v as nat));
    } else {
        out.push((v % 128 + 128) as u8);
        let ghost mid = out@;
        push_varint(out, v / 128);
        assert(final(out)@ =~= old(out)@ + varint_bytes(v as nat));
    }
}

/// Reads a varint of at most `fuel` bytes from `s` at `i`.
pub fn decode_varint_at(s: &[u8], i: usize, fuel: usize) -> (r: Option<(u64, usize)>)
    requires
        fuel <= MAX_VARINT_LEN,
    ensures
        r matches Some((v, e)) ==> varint_at(s@, i as int, fuel as nat) == Some(
            (v as nat, e as int),
        ),
        r is None ==> varint_at(s@, i as int, fuel as nat) is None,
    decreases fuel,
{
    if fuel == 0 || i >= s.len() {
        None
    } else if s[i] < 128 {
        Some((s[i] as u64, i + 1))
    } else {
        match decode_varint_at(s, i + 1, fuel - 1) {
            Some((v, e)) => {
                proof {
                    lemma_varint_at_bounds(s@, i + 1, (fuel - 1) as nat);
                    lemma_pow128_9();
                    lemma_pow128_mono((fuel - 1) as nat, 8);
                    reveal_with_fuel(pow128, 2);
                }
                assert(v < 0x0100_0000_0000_0000);
                Some(((s[i] - 128) as u64 + 128 * v, e))
            },
            None => None,
        }
    }
}

pub proof fn lemma_pow128_mono(a: nat, b: nat)
    requires
        a <= b,
    ensures
        pow128(a) <= pow128(b),
    decreases b,
{
    if a < b {
        lemma_pow128_mono(a, (b - 1) as nat);
    }
}

/// Reads a varint of at most nine bytes from `s` at `i`.
pub fn decode_varint(s: &[u8], i: usize) -> (r: Option<(u64, usize)>)
    ensures
        r matches Some((v, e)) ==> read_varint(s@, i as int) == Some((v as nat, e as int)),
        r is None ==> read_varint(s@, i as int) is None,
{
    decode_varint_at(s, i, MAX_VARINT_LEN)
}

} // verus!
