//! Laws that relate several operations of the library.

use vstd::prelude::*;
use vstd::utf8::encode_utf8;
use crate::hexcodec::{
    hex_digit_char, hex_val, is_hex_digit, spec_hex_decode, spec_hex_encode, valid_hex,
};
use crate::signature::{hmac_sha256_of, resume_message, signature_accepted, spec_signature};
use crate::store::Store;
use crate::suspend::resume_applied;

verus! {

/// The outstanding-approval countdown of every flow row of a well-formed
/// store is never negative: approvals arriving faster than the orchestrator
/// consumes them decrement it only while it is positive, and every operation
/// of the library keeps the store well-formed.
pub proof fn lemma_suspend_never_negative(s: Store)
    requires
        s.wf(),
    ensures
        forall|i: int| 0 <= i < s.queue@.len() ==> (#[trigger] s.queue@[i]).suspend >= 0,
{
}

/// Hexadecimal digits decode back to their value.
proof fn lemma_hex_digit_round_trip(d: int)
    requires
        0 <= d < 16,
    ensures
        is_hex_digit(hex_digit_char(d)),
        hex_val(hex_digit_char(d)) == d,
{
}

/// Hexadecimal encoding round-trips: the rendering of any byte string is
/// well-formed hex and decodes back to the same bytes.
pub proof fn lemma_hex_round_trip(b: Seq<u8>)
    ensures
        valid_hex(spec_hex_encode(b)),
        spec_hex_decode(spec_hex_encode(b)) == b,
{
    let h = spec_hex_encode(b);
    assert forall|i: int| 0 <= i < h.len() implies is_hex_digit(#[trigger] h[i]) by {
        if i % 2 == 0 {
            lemma_hex_digit_round_trip(b[i / 2] as int / 16);
        } else {
            lemma_hex_digit_round_trip(b[i / 2] as int % 16);
        }
    }
    assert forall|i: int| 0 <= i < b.len() implies #[trigger] spec_hex_decode(h)[i] == b[i] by {
        assert(h[2 * i] == hex_digit_char(b[i] as int / 16));
        assert(h[2 * i + 1] == hex_digit_char(b[i] as int % 16));
        lemma_hex_digit_round_trip(b[i] as int / 16);
        lemma_hex_digit_round_trip(b[i] as int % 16);
    }
    assert(spec_hex_decode(h) =~= b);
}

/// A capability round-trips: the canonical signature created for
/// `(job_id, resume_id, approver)` under a key is accepted by the verifier
/// for exactly those inputs.
pub proof fn lemma_signature_round_trip(
    key: Seq<char>,
    job_id: u128,
    resume_id: u32,
    approver: Option<Seq<char>>,
)
    ensures
        signature_accepted(
            key,
            job_id,
            resume_id,
            approver,
            spec_signature(key, job_id, resume_id, approver),
        ),
{
    lemma_hex_round_trip(
        hmac_sha256_of(encode_utf8(key), resume_message(job_id, resume_id, approver)),
    );
}

/// Approvals drain a suspension one step at a time: a flow waiting on two
/// approvals for a step's job holds a countdown of one after the first
/// applied approval and of zero after the second, and its module tree is
/// untouched until the orchestrator observes the drained countdown.
pub proof fn lemma_two_approvals_drain(
    s0: Store,
    s1: Store,
    s2: Store,
    fx: int,
    job: u128,
    rid1: u32,
    rid2: u32,
    approver1: Option<Seq<char>>,
    approver2: Option<Seq<char>>,
    value1: Seq<char>,
    value2: Seq<char>,
)
    requires
        0 <= fx < s0.queue@.len(),
        s0.queue@[fx].flow_status matches Some(st) && st.spec_waiting_on(job),
        s0.queue@[fx].suspend == 2,
        resume_applied(s0, s1, fx, job, rid1, approver1, true, value1),
        resume_applied(s1, s2, fx, job, rid2, approver2, true, value2),
    ensures
        s1.queue@[fx].suspend == 1,
        s2.queue@[fx].suspend == 0,
        s2.queue@[fx].flow_status == s0.queue@[fx].flow_status,
{
    assert(s1.queue@[fx].flow_status == s0.queue@[fx].flow_status);
}

} // verus!
