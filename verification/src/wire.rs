//! The postcard wire format the checkpoint envelope and its seals use:
//! unsigned integers as little-endian base-128 varints, byte sequences as
//! their length varint followed by the bytes, fixed-size arrays as their
//! bytes alone, and an option as a one-byte tag followed by the value when
//! present.

use vstd::prelude::*;

verus! {

/// The varint of `n`: seven bits per byte, least significant first, the
/// high bit set on every byte but the last.
pub open spec fn varint(n: nat) -> Seq<u8>
    decreases n,
{
    if n < 128 {
        seq![n as u8]
    } else {
        seq![(n % 128 + 128) as u8] + varint(n / 128)
    }
}

/// A byte sequence: its length varint, then its bytes.
pub open spec fn byte_seq(s: Seq<u8>) -> Seq<u8> {
    varint(s.len()) + s
}

/// An optional byte sequence: tag 0 for none; tag 1, then the sequence.
pub open spec fn opt_byte_seq(s: Option<Seq<u8>>) -> Seq<u8> {
    match s {
        None => seq![0u8],
        Some(v) => seq![1u8] + byte_seq(v),
    }
}

/// `128` to the power `k`.
pub open spec fn pow128(k: nat) -> nat
    decreases k,
{
    if k == 0 {
        1
    } else {
        128 * pow128((k - 1) as nat)
    }
}

/// A value below `128^k` takes at most `k` varint bytes (and always one).
pub proof fn lemma_varint_len(n: nat, k: nat)
    requires
        k >= 1,
        n < pow128(k),
    ensures
        1 <= varint(n).len() <= k,
    decreases n,
{
    if n >= 128 {
        let j = (k - 1) as nat;
        if j == 0 {
            assert(pow128(1) == 128 * pow128(0));
        } else {
            let q = n / 128;
            assert(q < pow128(j)) by (nonlinear_arith)
                requires
                    n < 128 * pow128(j),
                    q == n / 128,
            ;
            lemma_varint_len(q, j);
        }
    }
}

/// A `u32` takes at most 5 varint bytes; a `u64` or a length at most 10.
pub proof fn lemma_varint_widths(n: nat)
    ensures
        n <= u32::MAX ==> varint(n).len() <= 5,
        n <= u64::MAX ==> varint(n).len() <= 10,
        varint(n).len() >= 1,
{
    assert(pow128(5) == 34359738368) by {
        reveal_with_fuel(pow128, 6);
    }
    assert(pow128(10) == 1180591620717411303424) by {
        reveal_with_fuel(pow128, 11);
    }
    if n <= u32::MAX {
        lemma_varint_len(n, 5);
    }
    if n <= u64::MAX {
        lemma_varint_len(n, 10);
    }
}

/// Varints read back unambiguously: a varint followed by anything fixes both
/// the value and what follows.
pub proof fn lemma_varint_prefix(a: nat, b: nat, ra: Seq<u8>, rb: Seq<u8>)
    requires
        varint(a) + ra == varint(b) + rb,
    ensures
        a == b,
        ra == rb,
    decreases a,
{
    let x = varint(a) + ra;
    let y = varint(b) + rb;
    assert(x[0] == varint(a)[0]);
    assert(y[0] == varint(b)[0]);
    if a < 128 {
        if b >= 128 {
            assert(varint(b)[0] == (b % 128 + 128) as u8);
            assert(false);
        }
        assert(ra =~= x.skip(1));
        assert(rb =~= y.skip(1));
    } else {
        if b < 128 {
            assert(varint(a)[0] == (a % 128 + 128) as u8);
            assert(false);
        }
        assert(a % 128 == b % 128);
        assert(varint(a / 128) + ra =~= x.skip(1));
        assert(varint(b / 128) + rb =~= y.skip(1));
        lemma_varint_prefix(a / 128, b / 128, ra, rb);
    }
}

} // verus!
