//! Resume capability URLs: the signed links a suspended step exposes for
//! approval, rejection, and its approval page.

use vstd::prelude::*;
use crate::signature::{approver_view, create_signature, spec_signature};
use crate::text::{spec_decimal, spec_uuid_hyphenated, u64_to_decimal, uuid_hyphenated};

verus! {

/// What `urlencoding::encode` returns on a string.
pub uninterp spec fn url_encoded(s: Seq<char>) -> Seq<char>;

/// Relies on `urlencoding::encode`: percent-encodes every byte except ASCII
/// alphanumerics and `-`, `_`, `.`, `~`; a function of the input alone, and
/// empty input stays empty.
#[verifier::external_body]
fn url_encode(s: &str) -> (r: String)
    ensures
        r@ == url_encoded(s@),
        s@.len() == 0 ==> r@.len() == 0,
{
    urlencoding::encode(s).into_owned()
}

/// The query suffix naming the approver, when one is named.
pub open spec fn spec_approver_suffix(approver: Option<Seq<char>>) -> Seq<char> {
    match approver {
        Some(a) => "?approver="@ + url_encoded(a),
        None => Seq::empty(),
    }
}

fn approver_suffix(approver: &Option<String>) -> (r: String)
    ensures
        r@ == spec_approver_suffix(approver_view(approver)),
{
    match approver {
        Some(a) => {
            let mut s = "?approver=".to_owned();
            let e = url_encode(a.as_str());
            s.append(e.as_str());
            s
        },
        None => String::new(),
    }
}

/// One action URL of a resume capability:
/// `<base>/api/w/<workspace>/jobs_u/<op>/<job>/<resume id>/<signature><suffix>`.
pub open spec fn spec_resume_url(
    op: Seq<char>,
    w_id: Seq<char>,
    job_id: u128,
    resume_id: u32,
    signature: Seq<char>,
    suffix: Seq<char>,
    base_url: Seq<char>,
) -> Seq<char> {
    base_url + "/api/w/"@ + w_id + "/jobs_u/"@ + op + "/"@ + spec_uuid_hyphenated(job_id) + "/"@
        + spec_decimal(resume_id as nat) + "/"@ + signature + suffix
}

fn build_resume_url(
    op: &str,
    w_id: &String,
    job_id: u128,
    resume_id: u32,
    signature: &String,
    suffix: &String,
    base_url: &String,
) -> (r: String)
    ensures
        r@ == spec_resume_url(op@, w_id@, job_id, resume_id, signature@, suffix@, base_url@),
{
    let mut s = base_url.clone();
    s.append("/api/w/");
    s.append(w_id.as_str());
    s.append("/jobs_u/");
    s.append(op);
    s.append("/");
    let u = uuid_hyphenated(job_id);
    s.append(u.as_str());
    s.append("/");
    let d = u64_to_decimal(resume_id as u64);
    s.append(d.as_str());
    s.append("/");
    s.append(signature.as_str());
    s.append(suffix.as_str());
    s
}

/// The approval page URL of a resume capability:
/// `<base>/approve/<workspace>/<job>/<resume id>/<signature><suffix>`.
pub open spec fn spec_approval_page_url(
    w_id: Seq<char>,
    job_id: u128,
    resume_id: u32,
    signature: Seq<char>,
    suffix: Seq<char>,
    base_url: Seq<char>,
) -> Seq<char> {
    base_url + "/approve/"@ + w_id + "/"@ + spec_uuid_hyphenated(job_id) + "/"@ + spec_decimal(
        resume_id as nat,
    ) + "/"@ + signature + suffix
}

/// The three URLs a suspended step exposes.
pub struct ResumeUrls {
    pub approval_page: String,
    pub cancel: String,
    pub resume: String,
}

/// Create the signature a capability URL carries; the workspace key is the
/// signing secret.
pub fn create_job_signature(
    key: &String,
    job_id: u128,
    resume_id: u32,
    approver: &Option<String>,
) -> (r: String)
    ensures
        r@ == spec_signature(key@, job_id, resume_id, approver_view(approver)),
{
    create_signature(key.as_str(), job_id, resume_id, approver)
}

/// Build the approval page, cancel and resume URLs for one capability, from
/// a signature over `(job_id, resume_id, approver)` under the workspace key.
pub fn get_resume_urls(
    key: &String,
    base_url: &String,
    w_id: &String,
    job_id: u128,
    resume_id: u32,
    approver: &Option<String>,
) -> (r: ResumeUrls)
    ensures
        ({
            let sig = spec_signature(key@, job_id, resume_id, approver_view(approver));
            let suffix = spec_approver_suffix(approver_view(approver));
            &&& r.approval_page@ == spec_approval_page_url(
                w_id@,
                job_id,
                resume_id,
                sig,
                suffix,
                base_url@,
            )
            &&& r.cancel@ == spec_resume_url(
                "cancel"@,
                w_id@,
                job_id,
                resume_id,
                sig,
                suffix,
                base_url@,
            )
            &&& r.resume@ == spec_resume_url(
                "resume"@,
                w_id@,
                job_id,
                resume_id,
                sig,
                suffix,
                base_url@,
            )
        }),
{
    let signature = create_signature(key.as_str(), job_id, resume_id, approver);
    let suffix = approver_suffix(approver);
    let mut page = base_url.clone();
    page.append("/approve/");
    page.append(w_id.as_str());
    page.append("/");
    let u = uuid_hyphenated(job_id);
    page.append(u.as_str());
    page.append("/");
    let d = u64_to_decimal(resume_id as u64);
    page.append(d.as_str());
    page.append("/");
    page.append(signature.as_str());
    page.append(suffix.as_str());
    let cancel = build_resume_url("cancel", w_id, job_id, resume_id, &signature, &suffix, base_url);
    let resume = build_resume_url("resume", w_id, job_id, resume_id, &signature, &suffix, base_url);
    ResumeUrls { approval_page: page, cancel, resume }
}

} // verus!
