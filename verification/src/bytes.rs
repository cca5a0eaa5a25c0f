use vstd::prelude::*;

verus! {

/// The number of bytes of an `i128`.
pub const I128_WIDTH: usize = 16;

/// 2 to the power of 127: the first unsigned value that stands for a negative `i128`.
pub const SIGN_BIT: u128 = 0x8000_0000_0000_0000_0000_0000_0000_0000;

/// 2 to the power of 128: the number of values of an `i128`.
pub open spec fn modulus() -> int {
    2 * SIGN_BIT
}

/// 256 to the power of `n`.
pub open spec fn pow256(n: nat) -> nat
    decreases n,
{
    if n == 0 {
        1
    } else {
        256 * pow256((n - 1) as nat)
    }
}

/// The last `width` base-256 digits of `value`, most significant first.
pub open spec fn be_bytes(value: nat, width: nat) -> Seq<u8>
    decreases width,
{
    if width == 0 {
        Seq::empty()
    } else {
        be_bytes(value / 256, (width - 1) as nat).push((value % 256) as u8)
    }
}

/// The number whose base-256 digits are `bytes`, most significant first.
pub open spec fn be_value(bytes: Seq<u8>) -> nat
    decreases bytes.len(),
{
    if bytes.len() == 0 {
        0
    } else {
        be_value(bytes.drop_last()) * 256 + bytes.last() as nat
    }
}

/// The two bytes of a length, most significant first.
pub open spec fn be16(n: nat) -> Seq<u8> {
    seq![(n / 256) as u8, (n % 256) as u8]
}

/// The length that two bytes stand for, most significant first.
pub open spec fn be16_value(high: u8, low: u8) -> nat {
    (high as nat) * 256 + low as nat
}

/// The unsigned number with the same 128 bits as `x` in two's complement.
pub open spec fn unsigned_of(x: i128) -> nat {
    if x >= 0 {
        x as nat
    } else {
        (x + modulus()) as nat
    }
}

/// The `i128` with the same 128 bits as `u` in two's complement.
pub open spec fn signed_of(u: nat) -> i128 {
    if u < SIGN_BIT {
        u as i128
    } else {
        (u - modulus()) as i128
    }
}

/// The sixteen bytes of an `i128`: two's complement, most significant byte first.
pub open spec fn i128_bytes(x: i128) -> Seq<u8> {
    be_bytes(unsigned_of(x), I128_WIDTH as nat)
}

/// The `i128` that sixteen bytes stand for: two's complement, most significant byte first.
pub open spec fn i128_value(bytes: Seq<u8>) -> i128 {
    signed_of(be_value(bytes))
}

pub proof fn lemma_pow256_16()
    ensures
        pow256(15) * 256 == modulus(),
        pow256(16) == modulus(),
{
    reveal_with_fuel(pow256, 17);
}

pub proof fn lemma_pow256_monotonic(a: nat, b: nat)
    requires
        a <= b,
    ensures
        0 < pow256(a) <= pow256(b),
    decreases b,
{
    if b == 0 {
    } else if a == b {
        lemma_pow256_monotonic((a - 1) as nat, (b - 1) as nat);
    } else {
        lemma_pow256_monotonic(a, (b - 1) as nat);
    }
}

/// Big-endian digits are as many as were asked for.
pub proof fn lemma_be_bytes_len(value: nat, width: nat)
    ensures
        be_bytes(value, width).len() == width,
    decreases width,
{
    if width > 0 {
        lemma_be_bytes_len(value / 256, (width - 1) as nat);
    }
}

/// A number made of `n` digits is below 256 to the power of `n`.
pub proof fn lemma_be_value_bound(bytes: Seq<u8>)
    ensures
        be_value(bytes) < pow256(bytes.len()),
    decreases bytes.len(),
{
    if bytes.len() > 0 {
        lemma_be_value_bound(bytes.drop_last());
    }
}

/// Reading the digits of a number that fits in `width` digits gives the number back.
pub proof fn lemma_be_round_trip(value: nat, width: nat)
    requires
        value < pow256(width),
    ensures
        be_value(be_bytes(value, width)) == value,
    decreases width,
{
    if width > 0 {
        let head = be_bytes(value / 256, (width - 1) as nat);
        let digits = be_bytes(value, width);
        lemma_be_bytes_len(value, width);
        lemma_be_round_trip(value / 256, (width - 1) as nat);
        assert(digits.drop_last() =~= head);
        assert(digits.last() == (value % 256) as u8);
    }
}

/// Decoding the bytes of an `i128` gives the number back.
pub proof fn lemma_i128_round_trip(x: i128)
    ensures
        i128_bytes(x).len() == I128_WIDTH,
        i128_value(i128_bytes(x)) == x,
{
    lemma_pow256_16();
    lemma_be_bytes_len(unsigned_of(x), I128_WIDTH as nat);
    lemma_be_round_trip(unsigned_of(x), I128_WIDTH as nat);
}

/// Decoding the two bytes of a length that fits in them gives the length back.
pub proof fn lemma_be16_round_trip(n: nat)
    requires
        n <= 65535,
    ensures
        be16(n).len() == 2,
        be16_value(be16(n)[0], be16(n)[1]) == n,
{
}

/// Appends the last `width` base-256 digits of `value`, most significant first.
fn push_be(out: &mut Vec<u8>, value: u128, width: u8)
    ensures
        final(out)@ == old(out)@ + be_bytes(value as nat, width as nat),
    decreases width,
{
    if width > 0 {
        push_be(out, value / 256, width - 1);
        out.push((value % 256) as u8);
        assert(out@ =~= old(out)@ + be_bytes(value as nat, width as nat));
    } else {
        assert(out@ =~= old(out)@ + be_bytes(value as nat, width as nat));
    }
}

/// The sixteen bytes of `x`, most significant first.
pub fn i128_to_be_bytes(x: i128) -> (bytes: Vec<u8>)
    ensures
        bytes@ == i128_bytes(x),
{
    let unsigned: u128 = if x >= 0 {
        x as u128
    } else {
        ((x - i128::MIN) as u128) + SIGN_BIT
    };
    let mut bytes: Vec<u8> = Vec::new();
    push_be(&mut bytes, unsigned, 16);
    bytes
}

/// The `i128` that the first sixteen bytes of `bytes` stand for.
pub fn i128_from_be_bytes(bytes: &[u8]) -> (x: i128)
    requires
        bytes@.len() >= I128_WIDTH,
    ensures
        x == i128_value(bytes@.take(I128_WIDTH as int)),
{
    let mut unsigned: u128 = 0;
    let mut i: usize = 0;
    while i < 16
        invariant
            i <= 16,
            bytes@.len() >= 16,
            unsigned == be_value(bytes@.take(i as int)),
        decreases 16 - i,
    {
        proof {
            let taken = bytes@.take(i as int);
            let next = bytes@.take(i as int + 1);
            lemma_be_value_bound(taken);
            lemma_pow256_monotonic(i as nat, 15);
            lemma_pow256_16();
            assert(next.drop_last() =~= taken);
            assert(next.last() == bytes@[i as int]);
        }
        unsigned = unsigned * 256 + bytes[i] as u128;
        i += 1;
    }
    if unsigned < SIGN_BIT {
        unsigned as i128
    } else {
        ((unsigned - SIGN_BIT) as i128) + i128::MIN
    }
}

} // verus!
