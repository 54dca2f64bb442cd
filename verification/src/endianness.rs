//! The mathematical model of byte-order encoding.
//!
//! A sequence of bytes denotes a natural number in little-endian order
//! ([`le_value`]: first byte least significant) or big-endian order
//! ([`be_value`]: first byte most significant).  Conversely, a natural
//! number has a canonical `k`-byte representation in either order
//! ([`le_bytes`], [`be_bytes`]).  Signed scalars are carried as their
//! two's-complement unsigned image ([`to_signed`], [`to_unsigned`]).
//!
//! The public proof functions state the laws of the model: a value
//! below `256^k` round-trips through its `k`-byte representation, a
//! byte sequence round-trips through its value, the two orders are
//! byte-for-byte reversals of one another, and the signed reading
//! inverts the unsigned image on the representable range.

use vstd::arithmetic::div_mod::lemma_div_denominator;
use vstd::arithmetic::div_mod::lemma_fundamental_div_mod;
use vstd::arithmetic::div_mod::lemma_fundamental_div_mod_converse;
use vstd::arithmetic::div_mod::lemma_mod_breakdown;
use vstd::prelude::*;

verus! {

/// `256^k`, the number of distinct values of a `k`-byte scalar.
pub open spec fn pow256(k: nat) -> nat
    decreases k,
{
    if k == 0 {
        1
    } else {
        256 * pow256((k - 1) as nat)
    }
}

/// The natural number denoted by `b` in little-endian order:
/// the first byte is the least significant.
pub open spec fn le_value(b: Seq<u8>) -> nat
    decreases b.len(),
{
    if b.len() == 0 {
        0
    } else {
        (b[0] + 256 * le_value(b.skip(1))) as nat
    }
}

/// The natural number denoted by `b` in big-endian order:
/// the last byte is the least significant.
pub open spec fn be_value(b: Seq<u8>) -> nat
    decreases b.len(),
{
    if b.len() == 0 {
        0
    } else {
        (256 * be_value(b.drop_last()) + b.last()) as nat
    }
}

/// The canonical `k`-byte little-endian representation of `n % 256^k`.
pub open spec fn le_bytes(n: nat, k: nat) -> Seq<u8>
    decreases k,
{
    if k == 0 {
        Seq::empty()
    } else {
        seq![(n % 256) as u8] + le_bytes(n / 256, (k - 1) as nat)
    }
}

/// The canonical `k`-byte big-endian representation of `n % 256^k`.
pub open spec fn be_bytes(n: nat, k: nat) -> Seq<u8>
    decreases k,
{
    if k == 0 {
        Seq::empty()
    } else {
        be_bytes(n / 256, (k - 1) as nat).push((n % 256) as u8)
    }
}

/// The signed reading of the unsigned `k`-byte value `n`:
/// two's complement, so values at or above `256^k / 2` wrap negative.
pub open spec fn to_signed(n: nat, k: nat) -> int {
    if n < pow256(k) / 2 {
        n as int
    } else {
        n - pow256(k)
    }
}

/// The unsigned `k`-byte image of the signed value `v`:
/// the inverse of [`to_signed`] on the representable range.
pub open spec fn to_unsigned(v: int, k: nat) -> nat {
    if v >= 0 {
        v as nat
    } else {
        (v + pow256(k)) as nat
    }
}

/// `256^k` is positive for every `k`.
pub proof fn lemma_pow256_pos(k: nat)
    ensures
        pow256(k) >= 1,
    decreases k,
{
    if k > 0 {
        lemma_pow256_pos((k - 1) as nat);
    }
}

/// The concrete powers used by the fixed scalar widths.
pub proof fn lemma_pow256_values()
    ensures
        pow256(0) == 1,
        pow256(1) == 0x100,
        pow256(2) == 0x10000,
        pow256(4) == 0x1_0000_0000,
        pow256(8) == 0x1_0000_0000_0000_0000,
        pow256(16) == 0x1_0000_0000_0000_0000_0000_0000_0000_0000,
{
    reveal_with_fuel(pow256, 17);
}

/// A `k`-byte sequence denotes a value below `256^k` in little-endian order.
pub proof fn lemma_le_value_bound(b: Seq<u8>)
    ensures
        le_value(b) < pow256(b.len()),
    decreases b.len(),
{
    if b.len() > 0 {
        lemma_le_value_bound(b.skip(1));
        assert(b.skip(1).len() == b.len() - 1);
        assert(256 * le_value(b.skip(1)) <= 256 * (pow256((b.len() - 1) as nat) - 1))
            by (nonlinear_arith)
            requires
                le_value(b.skip(1)) <= pow256((b.len() - 1) as nat) - 1,
        ;
    }
}

/// A `k`-byte sequence denotes a value below `256^k` in big-endian order.
pub proof fn lemma_be_value_bound(b: Seq<u8>)
    ensures
        be_value(b) < pow256(b.len()),
    decreases b.len(),
{
    if b.len() > 0 {
        lemma_be_value_bound(b.drop_last());
        assert(256 * be_value(b.drop_last()) <= 256 * (pow256((b.len() - 1) as nat) - 1))
            by (nonlinear_arith)
            requires
                be_value(b.drop_last()) <= pow256((b.len() - 1) as nat) - 1,
        ;
    }
}

/// The little-endian value of a sequence splits at any byte boundary:
/// the low `j` bytes contribute their value, the rest is scaled by `256^j`.
pub proof fn lemma_le_value_split(b: Seq<u8>, j: int)
    requires
        0 <= j <= b.len(),
    ensures
        le_value(b) == le_value(b.subrange(0, j)) + pow256(j as nat) * le_value(
            b.subrange(j, b.len() as int),
        ),
    decreases j,
{
    if j == 0 {
        assert(b.subrange(0, 0) =~= Seq::<u8>::empty());
        assert(b.subrange(0, b.len() as int) =~= b);
        assert(le_value(Seq::<u8>::empty()) == 0);
        assert(pow256(0) == 1);
        assert(j as nat == 0);
    } else {
        let rest = b.skip(1);
        lemma_le_value_split(rest, j - 1);
        assert(rest.subrange(0, j - 1) =~= b.subrange(1, j));
        assert(rest.subrange(j - 1, rest.len() as int) =~= b.subrange(j, b.len() as int));
        let low = b.subrange(0, j);
        assert(low.skip(1) =~= b.subrange(1, j));
        assert(le_value(low) == low[0] + 256 * le_value(low.skip(1)));
        let hi = le_value(b.subrange(j, b.len() as int));
        let mid = le_value(b.subrange(1, j));
        let p = pow256((j - 1) as nat);
        assert(le_value(b) == b[0] + 256 * le_value(rest));
        assert(le_value(rest) == mid + p * hi);
        assert(256 * (mid + p * hi) == 256 * mid + (256 * p) * hi) by (nonlinear_arith);
        assert(le_value(b) == (b[0] + 256 * mid) + (256 * p) * hi);
        assert(le_value(low) == b[0] + 256 * mid);
        assert(pow256(j as nat) == 256 * p);
        assert(pow256(j as nat) * hi == (256 * p) * hi);
    }
}

/// The big-endian value is the little-endian value of the reversed bytes.
pub proof fn lemma_be_is_reversed_le(b: Seq<u8>)
    ensures
        be_value(b) == le_value(b.reverse()),
    decreases b.len(),
{
    if b.len() > 0 {
        lemma_be_is_reversed_le(b.drop_last());
        assert(b.reverse().skip(1) =~= b.drop_last().reverse());
        assert(b.reverse()[0] == b.last());
        assert(le_value(b.reverse()) == b.last() + 256 * le_value(b.reverse().skip(1)));
    }
}

/// The big-endian representation is the reversed little-endian one.
pub proof fn lemma_be_bytes_is_reversed_le_bytes(n: nat, k: nat)
    ensures
        be_bytes(n, k) == le_bytes(n, k).reverse(),
    decreases k,
{
    if k > 0 {
        lemma_be_bytes_is_reversed_le_bytes(n / 256, (k - 1) as nat);
        assert(le_bytes(n, k).reverse() =~= le_bytes(n / 256, (k - 1) as nat).reverse().push(
            (n % 256) as u8,
        ));
    }
}

/// The big-endian value splits at any byte boundary: the leading `j`
/// bytes are scaled by `256^(len - j)`, the rest contribute their value.
pub proof fn lemma_be_value_split(b: Seq<u8>, j: int)
    requires
        0 <= j <= b.len(),
    ensures
        be_value(b) == be_value(b.subrange(0, j)) * pow256((b.len() - j) as nat) + be_value(
            b.subrange(j, b.len() as int),
        ),
{
    let r = b.reverse();
    let m = b.len() - j;
    lemma_be_is_reversed_le(b);
    lemma_le_value_split(r, m);
    assert(r.subrange(0, m) =~= b.subrange(j, b.len() as int).reverse());
    assert(r.subrange(m, r.len() as int) =~= b.subrange(0, j).reverse());
    lemma_be_is_reversed_le(b.subrange(j, b.len() as int));
    lemma_be_is_reversed_le(b.subrange(0, j));
    assert(pow256((b.len() - j) as nat) * be_value(b.subrange(0, j)) == be_value(
        b.subrange(0, j),
    ) * pow256((b.len() - j) as nat)) by (nonlinear_arith);
}

/// The `k`-byte little-endian representation has exactly `k` bytes.
pub proof fn lemma_le_bytes_len(n: nat, k: nat)
    ensures
        le_bytes(n, k).len() == k,
    decreases k,
{
    if k > 0 {
        lemma_le_bytes_len(n / 256, (k - 1) as nat);
    }
}

/// The `k`-byte big-endian representation has exactly `k` bytes.
pub proof fn lemma_be_bytes_len(n: nat, k: nat)
    ensures
        be_bytes(n, k).len() == k,
    decreases k,
{
    if k > 0 {
        lemma_be_bytes_len(n / 256, (k - 1) as nat);
    }
}

/// Round trip, value side, little-endian: a value below `256^k`
/// is recovered exactly from its `k`-byte representation.
pub proof fn lemma_le_round_trip(n: nat, k: nat)
    requires
        n < pow256(k),
    ensures
        le_value(le_bytes(n, k)) == n,
    decreases k,
{
    if k == 0 {
        assert(le_value(Seq::<u8>::empty()) == 0);
    } else {
        let rest = le_bytes(n / 256, (k - 1) as nat);
        assert(n / 256 < pow256((k - 1) as nat)) by (nonlinear_arith)
            requires
                n < 256 * pow256((k - 1) as nat),
        ;
        lemma_le_round_trip(n / 256, (k - 1) as nat);
        let whole = le_bytes(n, k);
        assert(whole.skip(1) =~= rest);
        assert(whole[0] == (n % 256) as u8);
        lemma_fundamental_div_mod(n as int, 256);
    }
}

/// Round trip, byte side, little-endian: a byte sequence is recovered
/// exactly from its little-endian value.
pub proof fn lemma_le_bytes_of_value(b: Seq<u8>)
    ensures
        le_bytes(le_value(b), b.len()) == b,
    decreases b.len(),
{
    if b.len() > 0 {
        let r = le_value(b.skip(1));
        let v = le_value(b);
        lemma_fundamental_div_mod_converse(v as int, 256, r as int, b[0] as int);
        lemma_le_bytes_of_value(b.skip(1));
        assert(le_bytes(v, b.len()) =~= b);
    }
}

/// Round trip, value side, big-endian.
pub proof fn lemma_be_round_trip(n: nat, k: nat)
    requires
        n < pow256(k),
    ensures
        be_value(be_bytes(n, k)) == n,
{
    lemma_be_bytes_is_reversed_le_bytes(n, k);
    lemma_be_is_reversed_le(be_bytes(n, k));
    assert(le_bytes(n, k).reverse().reverse() =~= le_bytes(n, k));
    lemma_le_round_trip(n, k);
}

/// Round trip, byte side, big-endian.
pub proof fn lemma_be_bytes_of_value(b: Seq<u8>)
    ensures
        be_bytes(be_value(b), b.len()) == b,
{
    lemma_be_is_reversed_le(b);
    lemma_le_bytes_of_value(b.reverse());
    lemma_be_bytes_is_reversed_le_bytes(le_value(b.reverse()), b.len());
    assert(b.reverse().reverse() =~= b);
}

/// The low `j` bytes of a `j + k`-byte little-endian representation
/// encode the value itself; the high `k` bytes encode `n / 256^j`.
pub proof fn lemma_le_bytes_split(n: nat, j: nat, k: nat)
    ensures
        le_bytes(n, j + k) == le_bytes(n, j) + le_bytes(n / pow256(j), k),
    decreases j,
{
    if j == 0 {
        assert(le_bytes(n, 0) =~= Seq::<u8>::empty());
        assert(le_bytes(n, k) + Seq::<u8>::empty() =~= le_bytes(n, k));
        assert(Seq::<u8>::empty() + le_bytes(n / 1, k) =~= le_bytes(n / 1, k));
    } else {
        lemma_le_bytes_split(n / 256, (j - 1) as nat, k);
        lemma_pow256_pos((j - 1) as nat);
        lemma_div_denominator(n as int, 256, pow256((j - 1) as nat) as int);
        assert(le_bytes(n, (j + k) as nat) =~= le_bytes(n, j) + le_bytes(n / pow256(j), k));
    }
}

/// The `k`-byte little-endian representation depends only on `n % 256^k`.
pub proof fn lemma_le_bytes_mod(n: nat, k: nat)
    ensures
        le_bytes(n % pow256(k), k) == le_bytes(n, k),
    decreases k,
{
    if k > 0 {
        let p = pow256((k - 1) as nat);
        let m = n % (256 * p);
        lemma_pow256_pos((k - 1) as nat);
        lemma_mod_breakdown(n as int, 256, p as int);
        assert(m == 256 * ((n / 256) % p) + n % 256);
        lemma_fundamental_div_mod_converse(
            m as int,
            256,
            ((n / 256) % p) as int,
            (n % 256) as int,
        );
        lemma_le_bytes_mod(n / 256, (k - 1) as nat);
        assert(le_bytes(m, k) =~= le_bytes(n, k));
    }
}

/// The leading `k` bytes of a `j + k`-byte big-endian representation
/// encode `n / 256^j`; the trailing `j` bytes encode the value itself.
pub proof fn lemma_be_bytes_split(n: nat, j: nat, k: nat)
    ensures
        be_bytes(n, (j + k) as nat) == be_bytes(n / pow256(j), k) + be_bytes(n, j),
{
    lemma_le_bytes_split(n, j, k);
    lemma_be_bytes_is_reversed_le_bytes(n, (j + k) as nat);
    lemma_be_bytes_is_reversed_le_bytes(n, j);
    lemma_be_bytes_is_reversed_le_bytes(n / pow256(j), k);
    lemma_le_bytes_len(n, j);
    lemma_le_bytes_len(n / pow256(j), k);
    lemma_le_bytes_len(n, (j + k) as nat);
    lemma_be_bytes_len(n, j);
    lemma_be_bytes_len(n / pow256(j), k);
    assert((le_bytes(n, j) + le_bytes(n / pow256(j), k)).reverse() =~= le_bytes(
        n / pow256(j),
        k,
    ).reverse() + le_bytes(n, j).reverse());
}

/// The `k`-byte big-endian representation depends only on `n % 256^k`.
pub proof fn lemma_be_bytes_mod(n: nat, k: nat)
    ensures
        be_bytes(n % pow256(k), k) == be_bytes(n, k),
{
    lemma_le_bytes_mod(n, k);
    lemma_be_bytes_is_reversed_le_bytes(n, k);
    lemma_be_bytes_is_reversed_le_bytes(n % pow256(k), k);
}

/// The unsigned image inverts the signed reading of any `k`-byte value.
pub proof fn lemma_unsigned_round_trip(n: nat, k: nat)
    requires
        n < pow256(k),
    ensures
        to_unsigned(to_signed(n, k), k) == n,
{
}

/// The signed reading inverts the unsigned image on the representable
/// range of a `k`-byte two's-complement scalar.
pub proof fn lemma_signed_round_trip(v: int, k: nat)
    requires
        k >= 1,
        -(pow256(k) / 2) <= v < pow256(k) / 2,
    ensures
        to_unsigned(v, k) < pow256(k),
        to_signed(to_unsigned(v, k), k) == v,
{
    lemma_pow256_pos((k - 1) as nat);
    assert(pow256(k) == 256 * pow256((k - 1) as nat));
    assert(pow256(k) % 2 == 0 && pow256(k) / 2 * 2 == pow256(k)) by (nonlinear_arith)
        requires
            pow256(k) == 256 * pow256((k - 1) as nat),
            pow256((k - 1) as nat) >= 1,
    ;
}

} // verus!
