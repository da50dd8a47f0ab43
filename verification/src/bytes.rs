//! Big-endian byte serializations of the integer forms of job and resume
//! identifiers, used when building the signed resume payload.

use vstd::prelude::*;
use vstd::arithmetic::div_mod::{lemma_div_denominator, lemma_div_basics};
use vstd::arithmetic::power::{pow, lemma_pow_adds, lemma_pow_positive, lemma_pow0, lemma_pow1};

verus! {

/// `256^k`.
pub open spec fn pow256(k: nat) -> int {
    pow(256, k)
}

/// Byte `i` (0 = most significant) of the 16-byte big-endian form of `x`.
pub open spec fn be_byte16(x: u128, i: int) -> u8 {
    (((x as int) / pow256((15 - i) as nat)) % 256) as u8
}

/// The 16-byte big-endian form of `x`.
pub open spec fn u128_be_bytes(x: u128) -> Seq<u8> {
    Seq::new(16, |i: int| be_byte16(x, i))
}

/// Byte `i` (0 = most significant) of the 4-byte big-endian form of `x`.
pub open spec fn be_byte4(x: u32, i: int) -> u8 {
    (((x as int) / pow256((3 - i) as nat)) % 256) as u8
}

/// The 4-byte big-endian form of `x`.
pub open spec fn u32_be_bytes(x: u32) -> Seq<u8> {
    Seq::new(4, |i: int| be_byte4(x, i))
}

proof fn lemma_pow256_pos(k: nat)
    ensures
        pow256(k) > 0,
{
    lemma_pow_positive(256, k);
}

proof fn lemma_pow256_step(k: nat)
    ensures
        pow256(k) * 256 == pow256(k + 1),
{
    lemma_pow_adds(256, k, 1);
    lemma_pow1(256);
}

/// Dividing twice is dividing by the product: `(x / 256^k) / 256 == x / 256^(k+1)`.
proof fn lemma_shift_step(x: int, k: nat)
    requires
        x >= 0,
    ensures
        (x / pow256(k)) / 256 == x / pow256(k + 1),
{
    lemma_pow256_pos(k);
    lemma_div_denominator(x, pow256(k), 256);
    lemma_pow256_step(k);
}

/// Serialize `x` as 16 big-endian bytes.
pub fn u128_to_be_bytes(x: u128) -> (r: Vec<u8>)
    ensures
        r@ == u128_be_bytes(x),
{
    let mut out: Vec<u8> = vec![0u8; 16];
    let mut v: u128 = x;
    let mut i: usize = 0;
    proof {
        lemma_pow0(256);
        lemma_div_basics(x as int);
    }
    while i < 16
        invariant
            out@.len() == 16,
            0 <= i <= 16,
            v as int == (x as int) / pow256(i as nat),
            forall|j: int| 0 <= j < i ==> out@[15 - j] == (((x as int) / #[trigger] pow256(j as nat)) % 256) as u8,
        decreases 16 - i,
    {
        out[15 - i] = (v % 256) as u8;
        proof {
            lemma_shift_step(x as int, i as nat);
        }
        v = v / 256;
        i = i + 1;
    }
    proof {
        assert forall|i: int| 0 <= i < 16 implies out@[i] == be_byte16(x, i) by {
            let j = 15 - i;
            assert(out@[15 - j] == (((x as int) / pow256(j as nat)) % 256) as u8);
        }
        assert(out@ =~= u128_be_bytes(x));
    }
    out
}

/// Serialize `x` as 4 big-endian bytes.
pub fn u32_to_be_bytes(x: u32) -> (r: Vec<u8>)
    ensures
        r@ == u32_be_bytes(x),
{
    let mut out: Vec<u8> = vec![0u8; 4];
    let mut v: u32 = x;
    let mut i: usize = 0;
    proof {
        lemma_pow0(256);
        lemma_div_basics(x as int);
    }
    while i < 4
        invariant
            out@.len() == 4,
            0 <= i <= 4,
            v as int == (x as int) / pow256(i as nat),
            forall|j: int| 0 <= j < i ==> out@[3 - j] == (((x as int) / #[trigger] pow256(j as nat)) % 256) as u8,
        decreases 4 - i,
    {
        out[3 - i] = (v % 256) as u8;
        proof {
            lemma_shift_step(x as int, i as nat);
        }
        v = v / 256;
        i = i + 1;
    }
    proof {
        assert forall|i: int| 0 <= i < 4 implies out@[i] == be_byte4(x, i) by {
            let j = 3 - i;
            assert(out@[3 - j] == (((x as int) / pow256(j as nat)) % 256) as u8);
        }
        assert(out@ =~= u32_be_bytes(x));
    }
    out
}

} // verus!
