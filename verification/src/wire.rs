//! Little-endian integers on the wire.
//!
//! Fields of a packet are packed and unaligned, so they are read through the
//! alignment-free little-endian types of `zerocopy`. The model is arithmetic: a
//! field of `w` bytes is the number whose base-256 digits, least significant
//! first, are those bytes.
use vstd::prelude::*;
use zerocopy::little_endian::{I32, I64, U16, U32, U64};
use zerocopy::FromBytes;

verus! {

/// The number whose base-256 digits, least significant first, are `b`.
pub open spec fn le_nat(b: Seq<u8>) -> nat
    decreases b.len(),
{
    if b.len() == 0 {
        0
    } else {
        b[0] as nat + 256 * le_nat(b.skip(1))
    }
}

/// The `width` low base-256 digits of `n`, least significant first.
pub open spec fn le_bytes(n: nat, width: nat) -> Seq<u8>
    decreases width,
{
    if width == 0 {
        Seq::empty()
    } else {
        seq![(n % 256) as u8] + le_bytes(n / 256, (width - 1) as nat)
    }
}

/// 256 to the power `width`.
pub open spec fn span(width: nat) -> nat
    decreases width,
{
    if width == 0 {
        1
    } else {
        256 * span((width - 1) as nat)
    }
}

/// The two's-complement reading of `n` in a field of `modulus` values.
pub open spec fn to_signed(n: nat, modulus: nat) -> int {
    if 2 * n < modulus {
        n as int
    } else {
        n - modulus
    }
}

/// The two's-complement code of `x` in a field of `modulus` values.
pub open spec fn from_signed(x: int, modulus: nat) -> nat {
    if x < 0 {
        (x + modulus) as nat
    } else {
        x as nat
    }
}

pub open spec fn span16() -> nat {
    0x1_0000
}

pub open spec fn span32() -> nat {
    0x1_0000_0000
}

pub open spec fn span64() -> nat {
    0x1_0000_0000_0000_0000
}

pub proof fn lemma_span_values()
    ensures
        span(2) == span16(),
        span(4) == span32(),
        span(8) == span64(),
{
    reveal_with_fuel(span, 9);
}

pub proof fn lemma_le_bytes_len(n: nat, width: nat)
    ensures
        le_bytes(n, width).len() == width,
    decreases width,
{
    if width > 0 {
        lemma_le_bytes_len(n / 256, (width - 1) as nat);
    }
}

/// Reading back what was written gives the number, for every number that fits.
pub proof fn le_round_trip(n: nat, width: nat)
    requires
        n < span(width),
    ensures
        le_nat(le_bytes(n, width)) == n,
        le_bytes(n, width).len() == width,
    decreases width,
{
    if width > 0 {
        let tail = le_bytes(n / 256, (width - 1) as nat);
        let all = le_bytes(n, width);
        assert(n / 256 < span((width - 1) as nat));
        le_round_trip(n / 256, (width - 1) as nat);
        assert(all.skip(1) =~= tail);
        assert(all[0] == (n % 256) as u8);
        assert(n == n % 256 + 256 * (n / 256));
    }
}

/// Writing what was read gives the bytes back, for every byte string.
pub proof fn le_round_trip_bytes(b: Seq<u8>)
    ensures
        le_bytes(le_nat(b), b.len()) == b,
        le_nat(b) < span(b.len()),
    decreases b.len(),
{
    if b.len() > 0 {
        let rest = le_nat(b.skip(1));
        le_round_trip_bytes(b.skip(1));
        assert(le_nat(b) == b[0] as nat + 256 * rest);
        assert(le_nat(b) % 256 == b[0] as nat);
        assert(le_nat(b) / 256 == rest);
        assert(le_bytes(le_nat(b), b.len()) =~= seq![b[0]] + b.skip(1));
        assert(seq![b[0]] + b.skip(1) =~= b);
    }
}

/// Two's complement loses nothing: coding a signed number and reading the code
/// gives it back.
pub proof fn signed_round_trip(x: int, modulus: nat)
    requires
        modulus % 2 == 0,
        -(modulus / 2) <= x < modulus / 2,
    ensures
        to_signed(from_signed(x, modulus), modulus) == x,
        from_signed(x, modulus) < modulus,
{
}

/// Numbers are written least significant byte first: the first byte is the
/// remainder by 256, and the rest is the quotient. Reading takes the bytes the
/// same way.
pub proof fn least_significant_byte_first(n: nat, width: nat, b: Seq<u8>)
    requires
        width > 0,
        b.len() > 0,
    ensures
        le_bytes(n, width).len() == width,
        le_bytes(n, width)[0] == n % 256,
        le_bytes(n, width).skip(1) == le_bytes(n / 256, (width - 1) as nat),
        le_nat(b) % 256 == b[0],
        le_nat(b) / 256 == le_nat(b.skip(1)),
{
    lemma_le_bytes_len(n, width);
    assert(le_bytes(n, width).skip(1) =~= le_bytes(n / 256, (width - 1) as nat));
}

/// Two's complement: codes below half the values are the numbers themselves,
/// the others are that many values too large.
pub proof fn upper_half_is_negative(n: nat, modulus: nat)
    requires
        n < modulus,
    ensures
        to_signed(n, modulus) == n || to_signed(n, modulus) == n - modulus,
        to_signed(n, modulus) < 0 <==> 2 * n >= modulus,
        from_signed(to_signed(n, modulus), modulus) == n,
{
}

/// Trusted: `U16::ref_from_prefix` of `zerocopy`, then `U16::get`. It takes the
/// first two bytes as a little-endian number and hands back the bytes after
/// them; it fails exactly when fewer than two bytes are there.
#[verifier::external_body]
pub(crate) fn read_u16(buf: &[u8]) -> (r: Option<(u16, &[u8])>)
    ensures
        r is Some <==> buf@.len() >= 2,
        r matches Some((v, rest)) ==> v as nat == le_nat(buf@.subrange(0, 2)) && rest@
            == buf@.subrange(2, buf@.len() as int),
{
    match U16::ref_from_prefix(buf) {
        Ok((v, rest)) => Some((v.get(), rest)),
        Err(_) => None,
    }
}

/// Trusted: `U32::ref_from_prefix` of `zerocopy`, then `U32::get`. As
/// [`read_u16`], with four bytes.
#[verifier::external_body]
pub(crate) fn read_u32(buf: &[u8]) -> (r: Option<(u32, &[u8])>)
    ensures
        r is Some <==> buf@.len() >= 4,
        r matches Some((v, rest)) ==> v as nat == le_nat(buf@.subrange(0, 4)) && rest@
            == buf@.subrange(4, buf@.len() as int),
{
    match U32::ref_from_prefix(buf) {
        Ok((v, rest)) => Some((v.get(), rest)),
        Err(_) => None,
    }
}

/// Trusted: `U64::ref_from_prefix` of `zerocopy`, then `U64::get`. As
/// [`read_u16`], with eight bytes.
#[verifier::external_body]
pub(crate) fn read_u64(buf: &[u8]) -> (r: Option<(u64, &[u8])>)
    ensures
        r is Some <==> buf@.len() >= 8,
        r matches Some((v, rest)) ==> v as nat == le_nat(buf@.subrange(0, 8)) && rest@
            == buf@.subrange(8, buf@.len() as int),
{
    match U64::ref_from_prefix(buf) {
        Ok((v, rest)) => Some((v.get(), rest)),
        Err(_) => None,
    }
}

/// Trusted: `I32::ref_from_prefix` of `zerocopy`, then `I32::get`. As
/// [`read_u32`], with the four bytes read in two's complement.
#[verifier::external_body]
pub(crate) fn read_i32(buf: &[u8]) -> (r: Option<(i32, &[u8])>)
    ensures
        r is Some <==> buf@.len() >= 4,
        r matches Some((v, rest)) ==> v as int == to_signed(
            le_nat(buf@.subrange(0, 4)),
            span32(),
        ) && rest@ == buf@.subrange(4, buf@.len() as int),
{
    match I32::ref_from_prefix(buf) {
        Ok((v, rest)) => Some((v.get(), rest)),
        Err(_) => None,
    }
}

/// Trusted: `I64::ref_from_prefix` of `zerocopy`, then `I64::get`. As
/// [`read_u64`], with the eight bytes read in two's complement.
#[verifier::external_body]
pub(crate) fn read_i64(buf: &[u8]) -> (r: Option<(i64, &[u8])>)
    ensures
        r is Some <==> buf@.len() >= 8,
        r matches Some((v, rest)) ==> v as int == to_signed(
            le_nat(buf@.subrange(0, 8)),
            span64(),
        ) && rest@ == buf@.subrange(8, buf@.len() as int),
{
    match I64::ref_from_prefix(buf) {
        Ok((v, rest)) => Some((v.get(), rest)),
        Err(_) => None,
    }
}

/// Trusted: `U16::new` of `zerocopy`, then `U16::to_bytes`: the two bytes of a
/// little-endian field that holds `v`.
#[verifier::external_body]
pub(crate) fn u16_field(v: u16) -> (b: [u8; 2])
    ensures
        b@ == le_bytes(v as nat, 2),
{
    U16::new(v).to_bytes()
}

/// Append the `width` low little-endian bytes of `v`.
fn push_le(out: &mut Vec<u8>, v: u64, width: usize)
    ensures
        final(out)@ == old(out)@ + le_bytes(v as nat, width as nat),
{
    let ghost start = out@;
    let mut rest: u64 = v;
    let mut left: usize = width;
    assert(start + le_bytes(v as nat, width as nat) == out@ + le_bytes(rest as nat, left as nat));
    while left > 0
        invariant
            start + le_bytes(v as nat, width as nat) == out@ + le_bytes(rest as nat, left as nat),
        decreases left,
    {
        let ghost before = out@;
        let digit: u8 = (rest % 256) as u8;
        out.push(digit);
        proof {
            let tail = le_bytes((rest / 256) as nat, (left - 1) as nat);
            assert(le_bytes(rest as nat, left as nat) == seq![digit] + tail);
            assert(before + (seq![digit] + tail) =~= before.push(digit) + tail);
        }
        rest = rest / 256;
        left = left - 1;
    }
    assert(out@ + le_bytes(rest as nat, 0) =~= out@);
}

/// Append an unsigned two-byte field.
pub(crate) fn push_u16(out: &mut Vec<u8>, v: u16)
    ensures
        final(out)@ == old(out)@ + le_bytes(v as nat, 2),
{
    push_le(out, v as u64, 2);
}

/// Append an unsigned four-byte field.
pub(crate) fn push_u32(out: &mut Vec<u8>, v: u32)
    ensures
        final(out)@ == old(out)@ + le_bytes(v as nat, 4),
{
    push_le(out, v as u64, 4);
}

/// Append an unsigned eight-byte field.
pub(crate) fn push_u64(out: &mut Vec<u8>, v: u64)
    ensures
        final(out)@ == old(out)@ + le_bytes(v as nat, 8),
{
    push_le(out, v, 8);
}

/// Append a two's-complement four-byte field.
pub(crate) fn push_i32(out: &mut Vec<u8>, v: i32)
    ensures
        final(out)@ == old(out)@ + le_bytes(from_signed(v as int, span32()), 4),
{
    let code: u32 = if v < 0 {
        u32::MAX - (-(v + 1)) as u32
    } else {
        v as u32
    };
    push_le(out, code as u64, 4);
}

/// Append a two's-complement eight-byte field.
pub(crate) fn push_i64(out: &mut Vec<u8>, v: i64)
    ensures
        final(out)@ == old(out)@ + le_bytes(from_signed(v as int, span64()), 8),
{
    let code: u64 = if v < 0 {
        u64::MAX - (-(v + 1)) as u64
    } else {
        v as u64
    };
    push_le(out, code, 8);
}

} // verus!
