//! Mathematical model of fixed-width integer encodings in bytes.
//!
//! A sequence of bytes stands for a natural number either most significant
//! byte first (big endian) or least significant byte first (little endian).
//! Signed integers are stored as the two's complement of their width.
use vstd::prelude::*;
use vstd::arithmetic::div_mod::lemma_breakdown;
use vstd::arithmetic::div_mod::lemma_fundamental_div_mod_converse;
use vstd::arithmetic::div_mod::lemma_div_denominator;

verus! {

/// `256` raised to `width`: the number of values that `width` bytes can hold.
pub open spec fn pow256(width: nat) -> nat
    decreases width,
{
    if width == 0 {
        1
    } else {
        256 * pow256((width - 1) as nat)
    }
}

/// The number that `bytes` stand for, most significant byte first.
pub open spec fn be_to_nat(bytes: Seq<u8>) -> nat
    decreases bytes.len(),
{
    if bytes.len() == 0 {
        0
    } else {
        be_to_nat(bytes.drop_last()) * 256 + bytes.last() as nat
    }
}

/// The number that `bytes` stand for, least significant byte first.
pub open spec fn le_to_nat(bytes: Seq<u8>) -> nat
    decreases bytes.len(),
{
    if bytes.len() == 0 {
        0
    } else {
        bytes[0] as nat + 256 * le_to_nat(bytes.drop_first())
    }
}

/// The `width` low-order bytes of `n`, most significant byte first.
pub open spec fn nat_to_be(n: nat, width: nat) -> Seq<u8>
    decreases width,
{
    if width == 0 {
        Seq::empty()
    } else {
        nat_to_be(n / 256, (width - 1) as nat).push((n % 256) as u8)
    }
}

/// The `width` low-order bytes of `n`, least significant byte first.
pub open spec fn nat_to_le(n: nat, width: nat) -> Seq<u8>
    decreases width,
{
    if width == 0 {
        Seq::empty()
    } else {
        seq![(n % 256) as u8] + nat_to_le(n / 256, (width - 1) as nat)
    }
}

/// The signed value whose two's complement on `width` bytes is `u`.
pub open spec fn signed_of(u: nat, width: nat) -> int {
    if 2 * u < pow256(width) {
        u as int
    } else {
        u - pow256(width)
    }
}

/// The two's complement of `x` on `width` bytes, read as an unsigned number.
pub open spec fn unsigned_of(x: int, width: nat) -> nat {
    (x % (pow256(width) as int)) as nat
}

/// The values of `pow256` at the widths of the integer types.
pub proof fn lemma_pow256_values()
    ensures
        pow256(0) == 1,
        pow256(1) == 0x100,
        pow256(2) == 0x1_0000,
        pow256(3) == 0x100_0000,
        pow256(4) == 0x1_0000_0000,
        pow256(5) == 0x100_0000_0000,
        pow256(6) == 0x1_0000_0000_0000,
        pow256(7) == 0x100_0000_0000_0000,
        pow256(8) == 0x1_0000_0000_0000_0000,
{
    reveal_with_fuel(pow256, 9);
}

/// `pow256` is positive.
pub proof fn lemma_pow256_pos(width: nat)
    ensures
        pow256(width) > 0,
    decreases width,
{
    if width > 0 {
        lemma_pow256_pos((width - 1) as nat);
    }
}

/// Encoding `n` on `width` bytes gives `width` bytes, and reading them back
/// gives `n` modulo `pow256(width)`, in either byte order.
pub proof fn lemma_encode_decode(n: nat, width: nat)
    ensures
        nat_to_be(n, width).len() == width,
        nat_to_le(n, width).len() == width,
        be_to_nat(nat_to_be(n, width)) == n % pow256(width),
        le_to_nat(nat_to_le(n, width)) == n % pow256(width),
    decreases width,
{
    if width > 0 {
        let w1 = (width - 1) as nat;
        lemma_encode_decode(n / 256, w1);
        lemma_pow256_pos(w1);
        let be = nat_to_be(n, width);
        let le = nat_to_le(n, width);
        assert(be.drop_last() =~= nat_to_be(n / 256, w1));
        assert(le.drop_first() =~= nat_to_le(n / 256, w1));
        lemma_breakdown(n as int, 256, pow256(w1) as int);
    }
}

/// Two's complement on `width` bytes gives back every value in the signed range.
pub proof fn lemma_signed_unsigned(x: int, width: nat)
    requires
        -(pow256(width) as int) <= 2 * x < pow256(width),
    ensures
        unsigned_of(x, width) < pow256(width),
        signed_of(unsigned_of(x, width), width) == x,
{
    let p = pow256(width) as int;
    lemma_pow256_pos(width);
    if x >= 0 {
        lemma_fundamental_div_mod_converse(x, p, 0, x);
    } else {
        lemma_fundamental_div_mod_converse(x, p, -1, x + p);
    }
}

/// Byte `k` of the little-endian encoding of `n` is the `k`-th base-256
/// digit of `n`.
pub proof fn lemma_le_digit(n: nat, width: nat, k: nat)
    requires
        k < width,
    ensures
        nat_to_le(n, width)[k as int] == (n / pow256(k)) % 256,
    decreases k,
{
    let w1 = (width - 1) as nat;
    lemma_encode_decode(n / 256, w1);
    let rest = nat_to_le(n / 256, w1);
    assert(nat_to_le(n, width) == seq![(n % 256) as u8] + rest);
    if k == 0 {
        assert(pow256(0) == 1);
        assert(n / 1 == n) by (nonlinear_arith);
    } else {
        assert(nat_to_le(n, width)[k as int] == rest[k - 1]);
        lemma_le_digit(n / 256, w1, (k - 1) as nat);
        lemma_pow256_pos((k - 1) as nat);
        lemma_div_denominator(n as int, 256, pow256((k - 1) as nat) as int);
        assert(pow256(k) == 256 * pow256((k - 1) as nat));
    }
}

/// The big-endian encoding is the little-endian one in reverse.
pub proof fn lemma_be_reverses_le(n: nat, width: nat, k: nat)
    requires
        k < width,
    ensures
        nat_to_be(n, width)[k as int] == nat_to_le(n, width)[(width - 1 - k) as int],
    decreases width,
{
    let w1 = (width - 1) as nat;
    lemma_encode_decode(n / 256, w1);
    if k < w1 {
        lemma_be_reverses_le(n / 256, w1, k);
    }
}

/// Every byte sequence is the big-endian encoding, on its own length, of the
/// number it stands for, and that number fits its length.
pub proof fn lemma_be_decode_encode(bytes: Seq<u8>)
    ensures
        be_to_nat(bytes) < pow256(bytes.len()),
        nat_to_be(be_to_nat(bytes), bytes.len()) == bytes,
    decreases bytes.len(),
{
    if bytes.len() > 0 {
        let d = bytes.drop_last();
        lemma_be_decode_encode(d);
        let x = be_to_nat(bytes);
        lemma_fundamental_div_mod_converse(x as int, 256, be_to_nat(d) as int, bytes.last() as int);
        assert(nat_to_be(x, bytes.len()) =~= bytes);
    }
}

/// Every byte sequence is the little-endian encoding, on its own length, of
/// the number it stands for, and that number fits its length.
pub proof fn lemma_le_decode_encode(bytes: Seq<u8>)
    ensures
        le_to_nat(bytes) < pow256(bytes.len()),
        nat_to_le(le_to_nat(bytes), bytes.len()) == bytes,
    decreases bytes.len(),
{
    if bytes.len() > 0 {
        let r = bytes.drop_first();
        lemma_le_decode_encode(r);
        let x = le_to_nat(bytes);
        lemma_fundamental_div_mod_converse(x as int, 256, le_to_nat(r) as int, bytes[0] as int);
        assert(nat_to_le(x, bytes.len()) =~= bytes);
    }
}

} // verus!
