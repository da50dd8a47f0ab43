//! Resume capabilities.
//!
//! A flow step that waits on external approvals exposes capability URLs keyed
//! by `(job_id, resume_id)`. The capability is a keyed hash over
//! `job_id ‖ resume_id ‖ optional approver`, verified on use: tampering with
//! any of the three inputs changes the message the signature is checked
//! against, so a forged approver can only be accepted together with a valid
//! signature over that very approver.

use vstd::prelude::*;
use vstd::utf8::encode_utf8;
use crate::bytes::{u128_be_bytes, u128_to_be_bytes, u32_be_bytes, u32_to_be_bytes};
use crate::errors::ApiError;
use crate::hexcodec::{spec_hex_encode, spec_hex_decode, valid_hex, hex_encode, hex_decode};
use hmac::{Hmac, KeyInit, Mac};

verus! {

/// The HMAC-SHA-256 tag of `msg` under `key`.
pub uninterp spec fn hmac_sha256_of(key: Seq<u8>, msg: Seq<u8>) -> Seq<u8>;

/// Relies on hmac's `Hmac<Sha256>` (`KeyInit::new_from_slice`, `Mac::update`,
/// `Mac::finalize`): the tag is a function of the key and message bytes
/// alone, `new_from_slice` accepts keys of any length for HMAC, and the
/// SHA-256 output is 32 bytes.
#[verifier::external_body]
fn hmac_sha256(key: &[u8], msg: &[u8]) -> (r: Vec<u8>)
    ensures
        r@ == hmac_sha256_of(key@, msg@),
        r@.len() == 32,
{
    let mut mac = Hmac::<sha2::Sha256>::new_from_slice(key).expect("HMAC accepts keys of any length");
    mac.update(msg);
    mac.finalize().into_bytes().to_vec()
}

/// The view of an optional approver name.
pub open spec fn approver_view(approver: &Option<String>) -> Option<Seq<char>> {
    match approver {
        Some(a) => Some(a@),
        None => None,
    }
}

/// The byte message a resume capability signs:
/// `job_id ‖ resume_id ‖ optional approver`, each big-endian / UTF-8.
pub open spec fn resume_message(job_id: u128, resume_id: u32, approver: Option<Seq<char>>) -> Seq<u8> {
    u128_be_bytes(job_id) + u32_be_bytes(resume_id) + match approver {
        Some(a) => encode_utf8(a),
        None => Seq::empty(),
    }
}

/// The canonical signature of a resume capability: the lowercase hex form of
/// the keyed hash of [`resume_message`] under the workspace key's bytes.
pub open spec fn spec_signature(
    key: Seq<char>,
    job_id: u128,
    resume_id: u32,
    approver: Option<Seq<char>>,
) -> Seq<char> {
    spec_hex_encode(hmac_sha256_of(encode_utf8(key), resume_message(job_id, resume_id, approver)))
}

fn build_resume_message(job_id: u128, resume_id: u32, approver: &Option<String>) -> (r: Vec<u8>)
    ensures
        r@ == resume_message(job_id, resume_id, approver_view(approver)),
{
    let mut msg = u128_to_be_bytes(job_id);
    let mut rid = u32_to_be_bytes(resume_id);
    msg.append(&mut rid);
    match approver {
        Some(a) => {
            let mut ab = a.as_str().as_bytes_vec();
            msg.append(&mut ab);
        },
        None => {},
    }
    proof {
        assert(msg@ =~= resume_message(job_id, resume_id, approver_view(approver)));
    }
    msg
}

/// Create the signature a resume capability URL carries for
/// `(job_id, resume_id, approver)` under the workspace key `key`.
pub fn create_signature(key: &str, job_id: u128, resume_id: u32, approver: &Option<String>) -> (r:
    String)
    ensures
        r@ == spec_signature(key@, job_id, resume_id, approver_view(approver)),
{
    let msg = build_resume_message(job_id, resume_id, approver);
    let key_bytes = key.as_bytes_vec();
    let mac = hmac_sha256(key_bytes.as_slice(), msg.as_slice());
    hex_encode(mac.as_slice())
}

/// Whether `secret` is accepted for `(job_id, resume_id, approver)` under
/// `key`: it must be well-formed hex denoting exactly the keyed hash of the
/// message rebuilt from those three inputs.
pub open spec fn signature_accepted(
    key: Seq<char>,
    job_id: u128,
    resume_id: u32,
    approver: Option<Seq<char>>,
    secret: Seq<char>,
) -> bool {
    valid_hex(secret) && spec_hex_decode(secret) == hmac_sha256_of(
        encode_utf8(key),
        resume_message(job_id, resume_id, approver),
    )
}

/// Verify the signature carried by a resume or cancel capability.
///
/// The check is made against the approver supplied with the request: a
/// request that keeps a signature but alters the approver is only accepted if
/// the signature is also valid for the altered approver.
pub fn verify_suspended_secret(
    key: &str,
    job_id: u128,
    resume_id: u32,
    approver: &Option<String>,
    secret: &str,
) -> (r: Result<(), ApiError>)
    ensures
        r is Ok <==> signature_accepted(key@, job_id, resume_id, approver_view(approver), secret@),
        r is Err ==> (r matches Err(e) && e is BadRequest),
{
    let decoded = match hex_decode(secret) {
        Some(d) => d,
        None => {
            return Err(ApiError::BadRequest("invalid hex".to_owned()));
        },
    };
    let msg = build_resume_message(job_id, resume_id, approver);
    let key_bytes = key.as_bytes_vec();
    let mac = hmac_sha256(key_bytes.as_slice(), msg.as_slice());
    if eq_bytes(&decoded, &mac) {
        Ok(())
    } else {
        Err(ApiError::BadRequest("Invalid signature".to_owned()))
    }
}

fn eq_bytes(a: &Vec<u8>, b: &Vec<u8>) -> (r: bool)
    ensures
        r == (a@ == b@),
{
    if a.len() != b.len() {
        proof {
            assert(a@.len() != b@.len());
        }
        return false;
    }
    let mut i: usize = 0;
    while i < a.len()
        invariant
            0 <= i <= a@.len(),
            a@.len() == b@.len(),
            forall|j: int| 0 <= j < i ==> a@[j] == b@[j],
        decreases a@.len() - i,
    {
        if a[i] != b[i] {
            return false;
        }
        i = i + 1;
    }
    proof {
        assert(a@ =~= b@);
    }
    true
}

/// Two accepted requests for the same `(job_id, resume_id)` and secret carry
/// approvers whose signed messages hash identically: keeping a signature
/// while altering the approver is never a silent authorization bypass, since
/// acceptance pins the hash of the message rebuilt from the altered approver.
pub proof fn lemma_no_approver_bypass(
    key: Seq<char>,
    job_id: u128,
    resume_id: u32,
    approver_a: Option<Seq<char>>,
    approver_b: Option<Seq<char>>,
    secret: Seq<char>,
)
    requires
        signature_accepted(key, job_id, resume_id, approver_a, secret),
        signature_accepted(key, job_id, resume_id, approver_b, secret),
    ensures
        hmac_sha256_of(encode_utf8(key), resume_message(job_id, resume_id, approver_a))
            == hmac_sha256_of(encode_utf8(key), resume_message(job_id, resume_id, approver_b)),
{
}

/// The identity of a resume record, derived from the job id and the resume
/// counter: `job_id XOR resume_id`, collision-free per job without a
/// composite key.
pub open spec fn spec_resume_row_id(job_id: u128, resume_id: u32) -> u128 {
    job_id ^ (resume_id as u128)
}

/// Derive the identity of the resume record for `(job_id, resume_id)`.
pub fn resume_row_id(job_id: u128, resume_id: u32) -> (r: u128)
    ensures
        r == spec_resume_row_id(job_id, resume_id),
{
    job_id ^ (resume_id as u128)
}

/// The derivation is injective in `resume_id` for a fixed job: two distinct
/// resume counters never collide on one resume-record identity.
pub proof fn lemma_resume_row_id_injective(job_id: u128, a: u32, b: u32)
    requires
        a != b,
    ensures
        spec_resume_row_id(job_id, a) != spec_resume_row_id(job_id, b),
{
    assert(job_id ^ (a as u128) != job_id ^ (b as u128)) by (bit_vector)
        requires
            a != b,
    ;
}

} // verus!
