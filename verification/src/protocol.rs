//! Classification of the export service's responses into typed results,
//! the client's error taxonomy, and the URLs the client calls.
//!
//! Classification is pure: it looks only at the status code and the bytes of
//! the response body that the caller hands in.

use vstd::prelude::*;

use crate::codec::{
    extract_download_href, extract_progress, extract_request_id, href_of, progress_of,
    request_id_of, DIGIT_ZERO,
};

verus! {

/// The one status code on which a submission succeeds.
pub const STATUS_ACCEPTED: u16 = 202;

/// The status code that says a job is still processing.
pub const STATUS_PROCESSING: u16 = 200;

/// The status code that says a job's archive is ready for download.
pub const STATUS_READY: u16 = 201;

/// The one status code on which a download fetch succeeds.
pub const STATUS_FETCH_OK: u16 = 200;

/// The fixed wait between two status polls.
pub const POLL_INTERVAL_MILLIS: u64 = 1000;

/// Bytes of `https://downloads.pdok.nl`.
pub open spec fn lit_service_root() -> Seq<u8> {
    seq![104u8, 116, 116, 112, 115, 58, 47, 47, 100, 111, 119, 110, 108, 111, 97, 100, 115, 46, 112, 100, 111, 107, 46, 110, 108]
}

/// Appends `https://downloads.pdok.nl` to `out`.
fn push_lit_service_root(out: &mut Vec<u8>)
    ensures
        final(out)@ == old(out)@ + lit_service_root(),
{
    let ghost orig = out@;
    out.push(104);
    out.push(116);
    out.push(116);
    out.push(112);
    out.push(115);
    out.push(58);
    out.push(47);
    out.push(47);
    out.push(100);
    out.push(111);
    out.push(119);
    out.push(110);
    out.push(108);
    out.push(111);
    out.push(97);
    out.push(100);
    out.push(115);
    out.push(46);
    out.push(112);
    out.push(100);
    out.push(111);
    out.push(107);
    out.push(46);
    out.push(110);
    out.push(108);
    proof {
        assert(out@ =~= orig + lit_service_root());
    }
}

/// Bytes of `/kadastralekaart/api/v4_0`.
pub open spec fn lit_api_path() -> Seq<u8> {
    seq![47u8, 107, 97, 100, 97, 115, 116, 114, 97, 108, 101, 107, 97, 97, 114, 116, 47, 97, 112, 105, 47, 118, 52, 95, 48]
}

/// Appends `/kadastralekaart/api/v4_0` to `out`.
fn push_lit_api_path(out: &mut Vec<u8>)
    ensures
        final(out)@ == old(out)@ + lit_api_path(),
{
    let ghost orig = out@;
    out.push(47);
    out.push(107);
    out.push(97);
    out.push(100);
    out.push(97);
    out.push(115);
    out.push(116);
    out.push(114);
    out.push(97);
    out.push(108);
    out.push(101);
    out.push(107);
    out.push(97);
    out.push(97);
    out.push(114);
    out.push(116);
    out.push(47);
    out.push(97);
    out.push(112);
    out.push(105);
    out.push(47);
    out.push(118);
    out.push(52);
    out.push(95);
    out.push(48);
    proof {
        assert(out@ =~= orig + lit_api_path());
    }
}

/// Bytes of `/full/custom`.
pub open spec fn lit_custom_path() -> Seq<u8> {
    seq![47u8, 102, 117, 108, 108, 47, 99, 117, 115, 116, 111, 109]
}

/// Appends `/full/custom` to `out`.
fn push_lit_custom_path(out: &mut Vec<u8>)
    ensures
        final(out)@ == old(out)@ + lit_custom_path(),
{
    let ghost orig = out@;
    out.push(47);
    out.push(102);
    out.push(117);
    out.push(108);
    out.push(108);
    out.push(47);
    out.push(99);
    out.push(117);
    out.push(115);
    out.push(116);
    out.push(111);
    out.push(109);
    proof {
        assert(out@ =~= orig + lit_custom_path());
    }
}

/// Bytes of `/full/custom/`.
pub open spec fn lit_custom_path_slash() -> Seq<u8> {
    seq![47u8, 102, 117, 108, 108, 47, 99, 117, 115, 116, 111, 109, 47]
}

/// Appends `/full/custom/` to `out`.
fn push_lit_custom_path_slash(out: &mut Vec<u8>)
    ensures
        final(out)@ == old(out)@ + lit_custom_path_slash(),
{
    let ghost orig = out@;
    out.push(47);
    out.push(102);
    out.push(117);
    out.push(108);
    out.push(108);
    out.push(47);
    out.push(99);
    out.push(117);
    out.push(115);
    out.push(116);
    out.push(111);
    out.push(109);
    out.push(47);
    proof {
        assert(out@ =~= orig + lit_custom_path_slash());
    }
}

/// Bytes of `/status`.
pub open spec fn lit_status_suffix() -> Seq<u8> {
    seq![47u8, 115, 116, 97, 116, 117, 115]
}

/// Appends `/status` to `out`.
fn push_lit_status_suffix(out: &mut Vec<u8>)
    ensures
        final(out)@ == old(out)@ + lit_status_suffix(),
{
    let ghost orig = out@;
    out.push(47);
    out.push(115);
    out.push(116);
    out.push(97);
    out.push(116);
    out.push(117);
    out.push(115);
    proof {
        assert(out@ =~= orig + lit_status_suffix());
    }
}

/// Bytes of `unexpected status code (`.
pub open spec fn lit_msg_status_head() -> Seq<u8> {
    seq![117u8, 110, 101, 120, 112, 101, 99, 116, 101, 100, 32, 115, 116, 97, 116, 117, 115, 32, 99, 111, 100, 101, 32, 40]
}

/// Appends `unexpected status code (` to `out`.
fn push_lit_msg_status_head(out: &mut Vec<u8>)
    ensures
        final(out)@ == old(out)@ + lit_msg_status_head(),
{
    let ghost orig = out@;
    out.push(117);
    out.push(110);
    out.push(101);
    out.push(120);
    out.push(112);
    out.push(101);
    out.push(99);
    out.push(116);
    out.push(101);
    out.push(100);
    out.push(32);
    out.push(115);
    out.push(116);
    out.push(97);
    out.push(116);
    out.push(117);
    out.push(115);
    out.push(32);
    out.push(99);
    out.push(111);
    out.push(100);
    out.push(101);
    out.push(32);
    out.push(40);
    proof {
        assert(out@ =~= orig + lit_msg_status_head());
    }
}

/// Bytes of `) in response to `.
pub open spec fn lit_msg_status_mid() -> Seq<u8> {
    seq![41u8, 32, 105, 110, 32, 114, 101, 115, 112, 111, 110, 115, 101, 32, 116, 111, 32]
}

/// Appends `) in response to ` to `out`.
fn push_lit_msg_status_mid(out: &mut Vec<u8>)
    ensures
        final(out)@ == old(out)@ + lit_msg_status_mid(),
{
    let ghost orig = out@;
    out.push(41);
    out.push(32);
    out.push(105);
    out.push(110);
    out.push(32);
    out.push(114);
    out.push(101);
    out.push(115);
    out.push(112);
    out.push(111);
    out.push(110);
    out.push(115);
    out.push(101);
    out.push(32);
    out.push(116);
    out.push(111);
    out.push(32);
    proof {
        assert(out@ =~= orig + lit_msg_status_mid());
    }
}

/// Bytes of `\nthe service said:\n`.
pub open spec fn lit_msg_body_prefix() -> Seq<u8> {
    seq![10u8, 116, 104, 101, 32, 115, 101, 114, 118, 105, 99, 101, 32, 115, 97, 105, 100, 58, 10]
}

/// Appends `\nthe service said:\n` to `out`.
fn push_lit_msg_body_prefix(out: &mut Vec<u8>)
    ensures
        final(out)@ == old(out)@ + lit_msg_body_prefix(),
{
    let ghost orig = out@;
    out.push(10);
    out.push(116);
    out.push(104);
    out.push(101);
    out.push(32);
    out.push(115);
    out.push(101);
    out.push(114);
    out.push(118);
    out.push(105);
    out.push(99);
    out.push(101);
    out.push(32);
    out.push(115);
    out.push(97);
    out.push(105);
    out.push(100);
    out.push(58);
    out.push(10);
    proof {
        assert(out@ =~= orig + lit_msg_body_prefix());
    }
}

/// Bytes of `a response with a success status lacked a required field`.
pub open spec fn lit_msg_malformed() -> Seq<u8> {
    seq![97u8, 32, 114, 101, 115, 112, 111, 110, 115, 101, 32, 119, 105, 116, 104, 32, 97, 32, 115, 117, 99, 99, 101, 115, 115, 32, 115, 116, 97, 116, 117, 115, 32, 108, 97, 99, 107, 101, 100, 32, 97, 32, 114, 101, 113, 117, 105, 114, 101, 100, 32, 102, 105, 101, 108, 100]
}

/// Appends `a response with a success status lacked a required field` to `out`.
fn push_lit_msg_malformed(out: &mut Vec<u8>)
    ensures
        final(out)@ == old(out)@ + lit_msg_malformed(),
{
    let ghost orig = out@;
    out.push(97);
    out.push(32);
    out.push(114);
    out.push(101);
    out.push(115);
    out.push(112);
    out.push(111);
    out.push(110);
    out.push(115);
    out.push(101);
    out.push(32);
    out.push(119);
    out.push(105);
    out.push(116);
    out.push(104);
    out.push(32);
    out.push(97);
    out.push(32);
    out.push(115);
    out.push(117);
    out.push(99);
    out.push(99);
    out.push(101);
    out.push(115);
    out.push(115);
    out.push(32);
    out.push(115);
    out.push(116);
    out.push(97);
    out.push(116);
    out.push(117);
    out.push(115);
    out.push(32);
    out.push(108);
    out.push(97);
    out.push(99);
    out.push(107);
    out.push(101);
    out.push(100);
    out.push(32);
    out.push(97);
    out.push(32);
    out.push(114);
    out.push(101);
    out.push(113);
    out.push(117);
    out.push(105);
    out.push(114);
    out.push(101);
    out.push(100);
    out.push(32);
    out.push(102);
    out.push(105);
    out.push(101);
    out.push(108);
    out.push(100);
    proof {
        assert(out@ =~= orig + lit_msg_malformed());
    }
}

/// Bytes of `transport failure: `.
pub open spec fn lit_msg_transport() -> Seq<u8> {
    seq![116u8, 114, 97, 110, 115, 112, 111, 114, 116, 32, 102, 97, 105, 108, 117, 114, 101, 58, 32]
}

/// Appends `transport failure: ` to `out`.
fn push_lit_msg_transport(out: &mut Vec<u8>)
    ensures
        final(out)@ == old(out)@ + lit_msg_transport(),
{
    let ghost orig = out@;
    out.push(116);
    out.push(114);
    out.push(97);
    out.push(110);
    out.push(115);
    out.push(112);
    out.push(111);
    out.push(114);
    out.push(116);
    out.push(32);
    out.push(102);
    out.push(97);
    out.push(105);
    out.push(108);
    out.push(117);
    out.push(114);
    out.push(101);
    out.push(58);
    out.push(32);
    proof {
        assert(out@ =~= orig + lit_msg_transport());
    }
}

/// Bytes of `POST`.
pub open spec fn lit_verb_post() -> Seq<u8> {
    seq![80u8, 79, 83, 84]
}

/// Appends `POST` to `out`.
fn push_lit_verb_post(out: &mut Vec<u8>)
    ensures
        final(out)@ == old(out)@ + lit_verb_post(),
{
    let ghost orig = out@;
    out.push(80);
    out.push(79);
    out.push(83);
    out.push(84);
    proof {
        assert(out@ =~= orig + lit_verb_post());
    }
}

/// Bytes of `GET`.
pub open spec fn lit_verb_get() -> Seq<u8> {
    seq![71u8, 69, 84]
}

/// Appends `GET` to `out`.
fn push_lit_verb_get(out: &mut Vec<u8>)
    ensures
        final(out)@ == old(out)@ + lit_verb_get(),
{
    let ghost orig = out@;
    out.push(71);
    out.push(69);
    out.push(84);
    proof {
        assert(out@ =~= orig + lit_verb_get());
    }
}

/// The HTTP verb a failed call was made with.
#[derive(Clone, Copy, PartialEq, Eq, Structural, Debug)]
pub enum Verb {
    Post,
    Get,
}

/// Why a remote interaction failed. Every error is terminal for the run.
#[derive(Debug)]
pub enum RemoteError {
    /// The service answered with a status code outside the single success
    /// code of the call, with the response body kept for diagnostics.
    UnexpectedStatus { code: u16, body: Option<Vec<u8>>, verb: Verb },
    /// A success status whose body lacked a required field.
    MalformedResponse,
    /// The transport itself failed before any status code arrived.
    Transport { detail: Vec<u8> },
}

/// The key to one submitted remote job.
#[derive(Debug)]
pub struct JobHandle {
    pub request_id: Vec<u8>,
}

/// What one status poll reported.
#[derive(Debug)]
pub enum JobStatus {
    /// Still working, with the progress percentage when the body carried one.
    Processing { progress: Option<u64> },
    /// Done; the archive waits at `location` (a path under the service root).
    Ready { location: Vec<u8> },
}

/// The view of an optional body as an optional byte sequence.
pub open spec fn opt_bytes_view(b: Option<Vec<u8>>) -> Option<Seq<u8>> {
    match b {
        Some(v) => Some(v@),
        None => None,
    }
}

/// The request id carried by an optional submission response body.
pub open spec fn spec_request_id(body: Option<Seq<u8>>) -> Option<Seq<u8>> {
    match body {
        Some(b) => request_id_of(b),
        None => None,
    }
}

/// The progress value reported for an optional processing body: the body's
/// progress field when present and it fits a `u64`, absent otherwise.
pub open spec fn spec_progress_report(body: Option<Seq<u8>>) -> Option<u64> {
    match body {
        Some(b) => match progress_of(b) {
            Some(v) => if 0 <= v <= u64::MAX {
                Some(v as u64)
            } else {
                None
            },
            None => None,
        },
        None => None,
    }
}

/// The download link carried by an optional ready response body.
pub open spec fn spec_href(body: Option<Seq<u8>>) -> Option<Seq<u8>> {
    match body {
        Some(b) => href_of(b),
        None => None,
    }
}

/// Classifies a submission response: only the accepted status succeeds, and
/// then only when the body carries a request id.
pub fn classify_submit(code: u16, body: Option<Vec<u8>>) -> (r: Result<JobHandle, RemoteError>)
    ensures
        code == STATUS_ACCEPTED ==> match spec_request_id(opt_bytes_view(body)) {
            Some(id) => r matches Ok(h) && h.request_id@ == id,
            None => r == Err::<JobHandle, RemoteError>(RemoteError::MalformedResponse),
        },
        code != STATUS_ACCEPTED ==> r == Err::<JobHandle, RemoteError>(
            (RemoteError::UnexpectedStatus { code, body, verb: Verb::Post }),
        ),
{
    if code != STATUS_ACCEPTED {
        return Err(RemoteError::UnexpectedStatus { code, body, verb: Verb::Post });
    }
    match body {
        Some(b) => match extract_request_id(b.as_slice()) {
            Some(id) => Ok(JobHandle { request_id: id }),
            None => Err(RemoteError::MalformedResponse),
        },
        None => Err(RemoteError::MalformedResponse),
    }
}

/// Classifies a status-poll response: processing tolerates any body and
/// reads an optional progress field; ready demands a download link; any
/// other status is the classified unexpected-status error.
pub fn classify_poll(code: u16, body: Option<Vec<u8>>) -> (r: Result<JobStatus, RemoteError>)
    ensures
        code == STATUS_PROCESSING ==> r == Ok::<JobStatus, RemoteError>(
            (JobStatus::Processing { progress: spec_progress_report(opt_bytes_view(body)) }),
        ),
        code == STATUS_READY ==> match spec_href(opt_bytes_view(body)) {
            Some(h) => r matches Ok(JobStatus::Ready { location }) && location@ == h,
            None => r == Err::<JobStatus, RemoteError>(RemoteError::MalformedResponse),
        },
        code != STATUS_PROCESSING && code != STATUS_READY ==> r == Err::<JobStatus, RemoteError>(
            (RemoteError::UnexpectedStatus { code, body, verb: Verb::Get }),
        ),
{
    if code == STATUS_PROCESSING {
        let progress: Option<u64> = match &body {
            Some(b) => extract_progress(b.as_slice()),
            None => None,
        };
        Ok(JobStatus::Processing { progress })
    } else if code == STATUS_READY {
        match body {
            Some(b) => match extract_download_href(b.as_slice()) {
                Some(h) => Ok(JobStatus::Ready { location: h }),
                None => Err(RemoteError::MalformedResponse),
            },
            None => Err(RemoteError::MalformedResponse),
        }
    } else {
        Err(RemoteError::UnexpectedStatus { code, body, verb: Verb::Get })
    }
}

/// Classifies a download-fetch response: only a plain success status lets
/// the stream be consumed.
pub fn classify_fetch(code: u16, body: Option<Vec<u8>>) -> (r: Result<(), RemoteError>)
    ensures
        code == STATUS_FETCH_OK ==> r == Ok::<(), RemoteError>(()),
        code != STATUS_FETCH_OK ==> r == Err::<(), RemoteError>(
            (RemoteError::UnexpectedStatus { code, body, verb: Verb::Get }),
        ),
{
    if code == STATUS_FETCH_OK {
        Ok(())
    } else {
        Err(RemoteError::UnexpectedStatus { code, body, verb: Verb::Get })
    }
}

/// Appends every byte of `s` to `out`.
pub fn push_all(out: &mut Vec<u8>, s: &[u8])
    ensures
        final(out)@ == old(out)@ + s@,
{
    let ghost orig = out@;
    let mut i: usize = 0;
    while i < s.len()
        invariant
            i <= s.len(),
            out@ == orig + s@.take(i as int),
        decreases s.len() - i,
    {
        out.push(s[i]);
        proof {
            assert(s@.take(i + 1 as int) =~= s@.take(i as int) + seq![s@[i as int]]);
            assert(out@ =~= orig + s@.take(i + 1 as int));
        }
        i = i + 1;
    }
    proof {
        assert(s@.take(s@.len() as int) =~= s@);
    }
}

/// The URL a submission is posted to.
pub open spec fn submit_url_bytes() -> Seq<u8> {
    lit_service_root() + lit_api_path() + lit_custom_path()
}

/// The URL a job's status is polled at.
pub open spec fn status_url_bytes(id: Seq<u8>) -> Seq<u8> {
    lit_service_root() + lit_api_path() + lit_custom_path_slash() + id + lit_status_suffix()
}

/// The URL an archive is downloaded from, given the link a ready status
/// reported.
pub open spec fn download_url_bytes(href: Seq<u8>) -> Seq<u8> {
    lit_service_root() + href
}

/// Builds the submission URL.
pub fn submit_url() -> (out: Vec<u8>)
    ensures
        out@ == submit_url_bytes(),
{
    let mut out: Vec<u8> = Vec::new();
    push_lit_service_root(&mut out);
    push_lit_api_path(&mut out);
    push_lit_custom_path(&mut out);
    proof {
        assert(out@ =~= submit_url_bytes());
    }
    out
}

/// Builds the status URL for the job `id` names.
pub fn status_url(id: &[u8]) -> (out: Vec<u8>)
    ensures
        out@ == status_url_bytes(id@),
{
    let mut out: Vec<u8> = Vec::new();
    push_lit_service_root(&mut out);
    push_lit_api_path(&mut out);
    push_lit_custom_path_slash(&mut out);
    push_all(&mut out, id);
    push_lit_status_suffix(&mut out);
    proof {
        assert(out@ =~= status_url_bytes(id@));
    }
    out
}

/// Builds the download URL for a reported link.
pub fn download_url(href: &[u8]) -> (out: Vec<u8>)
    ensures
        out@ == download_url_bytes(href@),
{
    let mut out: Vec<u8> = Vec::new();
    push_lit_service_root(&mut out);
    push_all(&mut out, href);
    proof {
        assert(out@ =~= download_url_bytes(href@));
    }
    out
}

/// The decimal digits of `n` (for non-negative `n`), most significant first.
pub open spec fn dec_rep(n: int) -> Seq<u8>
    decreases n,
{
    if n < 0 {
        Seq::empty()
    } else if n < 10 {
        seq![(DIGIT_ZERO + n) as u8]
    } else {
        dec_rep(n / 10) + seq![(DIGIT_ZERO + n % 10) as u8]
    }
}

/// Appends the decimal digits of `n` to `out`.
pub fn push_decimal(n: u64, out: &mut Vec<u8>)
    ensures
        final(out)@ == old(out)@ + dec_rep(n as int),
    decreases n,
{
    let ghost orig = out@;
    if n >= 10 {
        push_decimal(n / 10, out);
    }
    out.push(DIGIT_ZERO + (n % 10) as u8);
    proof {
        if n < 10 {
            assert(out@ =~= orig + dec_rep(n as int));
        } else {
            assert(out@ =~= orig + (dec_rep(n as int / 10) + seq![(DIGIT_ZERO + n as int % 10) as u8]));
        }
    }
}

/// The operator-readable description of an error, as message bytes.
pub open spec fn spec_describe(e: RemoteError) -> Seq<u8> {
    match e {
        RemoteError::UnexpectedStatus { code, body, verb } => lit_msg_status_head() + dec_rep(
            code as int,
        ) + lit_msg_status_mid() + (match verb {
            Verb::Post => lit_verb_post(),
            Verb::Get => lit_verb_get(),
        }) + (match body {
            Some(b) => lit_msg_body_prefix() + b@,
            None => Seq::empty(),
        }),
        RemoteError::MalformedResponse => lit_msg_malformed(),
        RemoteError::Transport { detail } => lit_msg_transport() + detail@,
    }
}

impl RemoteError {
    /// Renders the error for the operator: the status code and, when the
    /// service sent one, the body text are part of the message.
    pub fn describe(&self) -> (out: Vec<u8>)
        ensures
            out@ == spec_describe(*self),
    {
        let mut out: Vec<u8> = Vec::new();
        match self {
            RemoteError::UnexpectedStatus { code, body, verb } => {
                push_lit_msg_status_head(&mut out);
                push_decimal(*code as u64, &mut out);
                push_lit_msg_status_mid(&mut out);
                match verb {
                    Verb::Post => push_lit_verb_post(&mut out),
                    Verb::Get => push_lit_verb_get(&mut out),
                }
                match body {
                    Some(b) => {
                        push_lit_msg_body_prefix(&mut out);
                        push_all(&mut out, b.as_slice());
                    },
                    None => {},
                }
                proof {
                    assert(out@ =~= spec_describe(*self));
                }
            },
            RemoteError::MalformedResponse => {
                push_lit_msg_malformed(&mut out);
                proof {
                    assert(out@ =~= spec_describe(*self));
                }
            },
            RemoteError::Transport { detail } => {
                push_lit_msg_transport(&mut out);
                push_all(&mut out, detail.as_slice());
                proof {
                    assert(out@ =~= spec_describe(*self));
                }
            },
        }
        out
    }
}

} // verus!
