//! Rendering of identifiers and counters: decimal numbers and hyphenated
//! job ids, used when building user-visible messages and resume URLs.

use vstd::prelude::*;
use crate::bytes::u128_be_bytes;
use crate::hexcodec::spec_hex_encode;

verus! {

/// The ASCII byte of the decimal digit `d`.
pub open spec fn digit_byte(d: int) -> u8
    recommends
        0 <= d < 10,
{
    (48 + d) as u8
}

/// The ASCII bytes of the decimal form of `n`, most significant digit first.
pub open spec fn spec_decimal_bytes(n: nat) -> Seq<u8>
    decreases n,
{
    if n < 10 {
        seq![digit_byte(n as int)]
    } else {
        spec_decimal_bytes(n / 10).push(digit_byte((n % 10) as int))
    }
}

/// The decimal form of `n`, as characters.
pub open spec fn spec_decimal(n: nat) -> Seq<char> {
    spec_decimal_bytes(n).map_values(|b: u8| b as char)
}

/// Every byte of a decimal rendering is an ASCII digit.
pub proof fn lemma_decimal_bytes_ascii(n: nat)
    ensures
        forall|i: int| 0 <= i < spec_decimal_bytes(n).len() ==> 48 <= #[trigger] spec_decimal_bytes(n)[i] < 58,
    decreases n,
{
    if n < 10 {
        assert(spec_decimal_bytes(n) =~= seq![digit_byte(n as int)]);
    } else {
        lemma_decimal_bytes_ascii(n / 10);
        assert(spec_decimal_bytes(n) =~= spec_decimal_bytes(n / 10).push(
            digit_byte((n % 10) as int),
        ));
        assert forall|i: int| 0 <= i < spec_decimal_bytes(n).len() implies 48
            <= #[trigger] spec_decimal_bytes(n)[i] < 58 by {
            if i < spec_decimal_bytes(n / 10).len() {
                assert(spec_decimal_bytes(n)[i] == spec_decimal_bytes(n / 10)[i]);
            }
        }
    }
}

/// Relies on `String::from_utf8`: ASCII bytes are valid UTF-8 and decode to
/// one character per byte, each with the byte's code point.
#[verifier::external_body]
pub(crate) fn string_from_ascii(v: Vec<u8>) -> (r: String)
    requires
        forall|i: int| 0 <= i < v@.len() ==> v@[i] < 128,
    ensures
        r@ == v@.map_values(|b: u8| b as char),
{
    String::from_utf8(v).unwrap()
}

/// Compare two strings character by character.
pub fn str_eq(a: &str, b: &str) -> (r: bool)
    ensures
        r == (a@ == b@),
{
    let alen = a.unicode_len();
    let blen = b.unicode_len();
    if alen != blen {
        proof {
            assert(a@.len() != b@.len());
        }
        return false;
    }
    let mut i: usize = 0;
    while i < alen
        invariant
            0 <= i <= alen,
            alen == a@.len(),
            alen == b@.len(),
            forall|j: int| 0 <= j < i ==> a@[j] == b@[j],
        decreases alen - i,
    {
        if a.get_char(i) != b.get_char(i) {
            return false;
        }
        i = i + 1;
    }
    proof {
        assert(a@ =~= b@);
    }
    true
}

/// Whether `sub` occurs contiguously somewhere in `s`.
pub open spec fn seq_contains_sub(s: Seq<char>, sub: Seq<char>) -> bool {
    exists|k: int| 0 <= k && k + sub.len() <= s.len() && #[trigger] s.subrange(k, k + sub.len())
        == sub
}

/// Text that ends with `sub` contains it.
pub proof fn lemma_ends_with_contains(s: Seq<char>, sub: Seq<char>)
    requires
        s.len() >= sub.len(),
        s.subrange(s.len() - sub.len(), s.len() as int) == sub,
    ensures
        seq_contains_sub(s, sub),
{
    let k = s.len() - sub.len();
    assert(s.subrange(k, k + sub.len()) == sub);
}

/// The canonical hyphenated rendering of a job id: the 32 lowercase hex
/// digits of its 16 big-endian bytes, in groups of 8, 4, 4, 4 and 12.
pub open spec fn spec_uuid_hyphenated(id: u128) -> Seq<char> {
    let h = spec_hex_encode(u128_be_bytes(id));
    h.subrange(0, 8) + seq!['-'] + h.subrange(8, 12) + seq!['-'] + h.subrange(12, 16) + seq!['-']
        + h.subrange(16, 20) + seq!['-'] + h.subrange(20, 32)
}

/// Relies on uuid's `Uuid::from_u128` (big-endian byte order) and its
/// hyphenated formatting: lowercase hex digits in groups of 8-4-4-4-12.
#[verifier::external_body]
pub(crate) fn uuid_hyphenated(id: u128) -> (r: String)
    ensures
        r@ == spec_uuid_hyphenated(id),
{
    uuid::Uuid::from_u128(id).hyphenated().to_string()
}

fn push_decimal_bytes(v: u64, out: &mut Vec<u8>)
    ensures
        final(out)@ == old(out)@ + spec_decimal_bytes(v as nat),
    decreases v,
{
    if v < 10 {
        out.push(48 + (v as u8));
    } else {
        push_decimal_bytes(v / 10, out);
        out.push(48 + ((v % 10) as u8));
    }
}

/// Render `n` in decimal.
pub fn u64_to_decimal(n: u64) -> (r: String)
    ensures
        r@ == spec_decimal(n as nat),
{
    let mut out: Vec<u8> = Vec::new();
    push_decimal_bytes(n, &mut out);
    proof {
        lemma_decimal_bytes_ascii(n as nat);
        assert(out@ =~= spec_decimal_bytes(n as nat));
    }
    string_from_ascii(out)
}

} // verus!
