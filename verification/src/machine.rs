//! The lifecycle of one export run: submit, poll until ready, download.
//!
//! The machine is pure: the caller performs each HTTP call, sleep and sink
//! write, and feeds the outcome back in; the machine decides what happens
//! next and keeps the progress reporter current. Every transition is fixed
//! by the contracts below.

use vstd::prelude::*;

use crate::protocol::{
    classify_fetch, classify_poll, classify_submit, download_url, download_url_bytes, opt_bytes_view,
    spec_href, spec_progress_report, spec_request_id, status_url, status_url_bytes, JobHandle,
    JobStatus, RemoteError, Verb, POLL_INTERVAL_MILLIS, STATUS_ACCEPTED, STATUS_FETCH_OK,
    STATUS_PROCESSING, STATUS_READY,
};
use crate::report::ProgressReporter;

verus! {

/// Where the run stands.
#[derive(Debug)]
pub enum Phase {
    /// The submission has not been answered yet.
    Submitting,
    /// The job was accepted; its status is being polled.
    Polling { handle: JobHandle },
    /// The job is done remotely; the archive waits at `location`.
    Ready { location: Vec<u8> },
    /// The archive stream is being copied to the sink.
    Downloading,
    /// The archive arrived whole.
    Done,
    /// The run failed; every error is terminal.
    Failed { error: RemoteError },
}

/// What one HTTP call came back with: a status code with an optional body,
/// or no response at all.
#[derive(Debug)]
pub enum HttpOutcome {
    Response { code: u16, body: Option<Vec<u8>> },
    TransportFailure { detail: Vec<u8> },
}

/// What a fetch call came back with; a response carries the declared
/// content length when the service declared one.
#[derive(Debug)]
pub enum FetchOutcome {
    Response { code: u16, content_length: Option<u64>, body: Option<Vec<u8>> },
    TransportFailure { detail: Vec<u8> },
}

/// What the caller is to do next.
#[derive(Debug)]
pub enum Action {
    /// Wait `delay_millis`, then poll `url` and feed the outcome back.
    Poll { delay_millis: u64, url: Vec<u8> },
    /// Fetch `url` and feed the outcome back.
    Fetch { url: Vec<u8> },
    /// The run is over, well or badly; make no further call.
    Halt,
}

/// How the reporter changes on one processing poll: one liveness tick, then
/// the reported percentage when the body carried one.
pub open spec fn spec_poll_report(r: ProgressReporter, progress: Option<u64>) -> ProgressReporter {
    match progress {
        Some(v) => r.spec_on_tick().spec_on_progress_update(v),
        None => r.spec_on_tick(),
    }
}

/// One export run.
pub struct Session {
    pub phase: Phase,
    pub reporter: ProgressReporter,
}

/// The session after one poll that found the job still processing, with
/// `progress` as the reported percentage, if any: the reporter moves, the
/// phase does not.
pub open spec fn spec_processing_step(s: Session, progress: Option<u64>) -> Session {
    Session { phase: s.phase, reporter: spec_poll_report(s.reporter, progress) }
}

/// The session after a whole run of processing polls, first to last.
pub open spec fn spec_after_processing_polls(s: Session, ps: Seq<Option<u64>>) -> Session
    decreases ps.len(),
{
    if ps.len() == 0 {
        s
    } else {
        spec_after_processing_polls(spec_processing_step(s, ps[0]), ps.skip(1))
    }
}

/// Polling never ends on its own: however long the service keeps answering
/// "processing", and whatever progress values those answers carry, the run
/// is afterwards still polling the same job. It leaves polling only on a
/// ready answer, an unexpected status, or a transport failure, as the
/// contract of `on_poll_outcome` states.
pub proof fn lemma_processing_never_leaves_polling(s: Session, ps: Seq<Option<u64>>)
    requires
        s.phase matches Phase::Polling { .. },
    ensures
        spec_after_processing_polls(s, ps).phase == s.phase,
    decreases ps.len(),
{
    if ps.len() > 0 {
        lemma_processing_never_leaves_polling(spec_processing_step(s, ps[0]), ps.skip(1));
    }
}

impl Session {
    /// A fresh run, about to submit.
    pub fn new() -> (s: Session)
        ensures
            s.phase is Submitting,
            s.reporter == ProgressReporter::spec_new(),
    {
        Session { phase: Phase::Submitting, reporter: ProgressReporter::new() }
    }

    /// Feeds in the outcome of the submission call. The run moves to
    /// polling exactly when the service accepted the job and named it.
    pub fn on_submit_outcome(&mut self, outcome: HttpOutcome) -> (a: Action)
        requires
            old(self).phase is Submitting,
        ensures
            final(self).reporter == old(self).reporter,
            match outcome {
                HttpOutcome::Response { code, body } => {
                    &&& code == STATUS_ACCEPTED ==> match spec_request_id(opt_bytes_view(body)) {
                        Some(id) => {
                            &&& final(self).phase matches Phase::Polling { handle }
                                && handle.request_id@ == id
                            &&& a matches Action::Poll { delay_millis, url } && delay_millis == 0
                                && url@ == status_url_bytes(id)
                        },
                        None => final(self).phase matches Phase::Failed { error }
                            && error is MalformedResponse && a is Halt,
                    }
                    &&& code != STATUS_ACCEPTED ==> (final(self).phase matches Phase::Failed {
                        error,
                    } && error == (RemoteError::UnexpectedStatus { code, body, verb: Verb::Post })
                        && a is Halt)
                },
                HttpOutcome::TransportFailure { detail } => final(self).phase matches Phase::Failed {
                    error,
                } && error == (RemoteError::Transport { detail }) && a is Halt,
            },
    {
        match outcome {
            HttpOutcome::Response { code, body } => match classify_submit(code, body) {
                Ok(handle) => {
                    let url = status_url(handle.request_id.as_slice());
                    self.phase = Phase::Polling { handle };
                    Action::Poll { delay_millis: 0, url }
                },
                Err(error) => {
                    self.phase = Phase::Failed { error };
                    Action::Halt
                },
            },
            HttpOutcome::TransportFailure { detail } => {
                self.phase = Phase::Failed { error: RemoteError::Transport { detail } };
                Action::Halt
            },
        }
    }

    /// Feeds in the outcome of one status poll. While the service keeps
    /// answering "processing", the run stays in polling — it never leaves
    /// that state on its own — and the next action is another poll after
    /// the fixed interval; it leaves polling exactly on a ready answer, an
    /// unexpected status, or a transport failure.
    pub fn on_poll_outcome(&mut self, outcome: HttpOutcome) -> (a: Action)
        requires
            old(self).phase matches Phase::Polling { .. },
        ensures
            (final(self).phase matches Phase::Polling { .. }) <==> (outcome matches
                HttpOutcome::Response { code, .. } && code == STATUS_PROCESSING),
            match outcome {
                HttpOutcome::Response { code, body } => {
                    &&& code == STATUS_PROCESSING ==> {
                        &&& final(self).phase matches Phase::Polling { handle } && handle
                            == old(self).phase->Polling_handle
                        &&& a matches Action::Poll { delay_millis, url } && delay_millis
                            == POLL_INTERVAL_MILLIS && url@ == status_url_bytes(
                            old(self).phase->Polling_handle.request_id@,
                        )
                        &&& final(self).reporter == spec_poll_report(
                            old(self).reporter,
                            spec_progress_report(opt_bytes_view(body)),
                        )
                        &&& *final(self) == spec_processing_step(
                            *old(self),
                            spec_progress_report(opt_bytes_view(body)),
                        )
                    }
                    &&& code == STATUS_READY ==> final(self).reporter == old(self).reporter
                        && match spec_href(opt_bytes_view(body)) {
                        Some(h) => {
                            &&& final(self).phase matches Phase::Ready { location } && location@
                                == download_url_bytes(h)
                            &&& a matches Action::Fetch { url } && url@ == download_url_bytes(h)
                        },
                        None => final(self).phase matches Phase::Failed { error }
                            && error is MalformedResponse && a is Halt,
                    }
                    &&& code != STATUS_PROCESSING && code != STATUS_READY ==> {
                        &&& final(self).reporter == old(self).reporter
                        &&& final(self).phase matches Phase::Failed { error } && error == (
                        RemoteError::UnexpectedStatus { code, body, verb: Verb::Get }) && a is Halt
                    }
                },
                HttpOutcome::TransportFailure { detail } => {
                    &&& final(self).reporter == old(self).reporter
                    &&& final(self).phase matches Phase::Failed { error } && error == (
                    RemoteError::Transport { detail }) && a is Halt
                },
            },
    {
        match outcome {
            HttpOutcome::Response { code, body } => match classify_poll(code, body) {
                Ok(JobStatus::Processing { progress }) => {
                    self.reporter.on_tick();
                    match progress {
                        Some(v) => self.reporter.on_progress_update(v),
                        None => {},
                    }
                    let url = match &self.phase {
                        Phase::Polling { handle } => status_url(handle.request_id.as_slice()),
                        _ => Vec::new(),
                    };
                    Action::Poll { delay_millis: POLL_INTERVAL_MILLIS, url }
                },
                Ok(JobStatus::Ready { location }) => {
                    let url = download_url(location.as_slice());
                    let url2 = download_url(location.as_slice());
                    self.phase = Phase::Ready { location: url };
                    Action::Fetch { url: url2 }
                },
                Err(error) => {
                    self.phase = Phase::Failed { error };
                    Action::Halt
                },
            },
            HttpOutcome::TransportFailure { detail } => {
                self.phase = Phase::Failed { error: RemoteError::Transport { detail } };
                Action::Halt
            },
        }
    }

    /// Feeds in the outcome of the fetch call. On success the download
    /// display starts, with the declared total when one was declared.
    pub fn on_fetch_outcome(&mut self, outcome: FetchOutcome)
        requires
            old(self).phase matches Phase::Ready { .. },
        ensures
            match outcome {
                FetchOutcome::Response { code, content_length, body } => {
                    &&& code == STATUS_FETCH_OK ==> final(self).phase is Downloading && final(self).reporter == old(self).reporter.spec_on_download_start(content_length)
                    &&& code != STATUS_FETCH_OK ==> {
                        &&& final(self).reporter == old(self).reporter
                        &&& final(self).phase matches Phase::Failed { error } && error == (
                        RemoteError::UnexpectedStatus { code, body, verb: Verb::Get })
                    }
                },
                FetchOutcome::TransportFailure { detail } => {
                    &&& final(self).reporter == old(self).reporter
                    &&& final(self).phase matches Phase::Failed { error } && error == (
                    RemoteError::Transport { detail })
                },
            },
    {
        match outcome {
            FetchOutcome::Response { code, content_length, body } => match classify_fetch(
                code,
                body,
            ) {
                Ok(()) => {
                    self.reporter.on_download_start(content_length);
                    self.phase = Phase::Downloading;
                },
                Err(error) => {
                    self.phase = Phase::Failed { error };
                },
            },
            FetchOutcome::TransportFailure { detail } => {
                self.phase = Phase::Failed { error: RemoteError::Transport { detail } };
            },
        }
    }

    /// One chunk of the archive reached the sink.
    pub fn on_chunk(&mut self, n: u64)
        requires
            old(self).phase is Downloading,
        ensures
            final(self).phase is Downloading,
            final(self).reporter == old(self).reporter.spec_on_bytes(n),
    {
        self.reporter.on_bytes(n);
    }

    /// The archive stream ended cleanly: the run is done.
    pub fn on_stream_end(&mut self)
        requires
            old(self).phase is Downloading,
        ensures
            final(self).phase is Done,
            final(self).reporter == old(self).reporter.spec_on_complete(),
    {
        self.reporter.on_complete();
        self.phase = Phase::Done;
    }

    /// The archive stream broke off: the run failed.
    pub fn on_stream_failure(&mut self, detail: Vec<u8>)
        requires
            old(self).phase is Downloading,
        ensures
            final(self).reporter == old(self).reporter,
            final(self).phase matches Phase::Failed { error } && error == (RemoteError::Transport {
                detail,
            }),
    {
        self.phase = Phase::Failed { error: RemoteError::Transport { detail } };
    }
}

} // verus!
