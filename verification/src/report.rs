//! The progress reporter: a pure model of what the operator sees, fed by
//! the polling loop and the download stream. Rendering is left to the
//! caller; this module owns the numbers and their bookkeeping.

use vstd::prelude::*;

verus! {

/// Byte accounting of one download: how much has arrived, and the total
/// the service declared when it declared one.
#[derive(Clone, Copy, Debug)]
pub struct TransferProgress {
    pub bytes_transferred: u64,
    pub total_bytes: Option<u64>,
}

/// The display's state over the run.
#[derive(Clone, Copy, Debug)]
pub enum ReporterState {
    /// The job is still processing remotely: a liveness tick count and the
    /// percentage the service last reported, if it ever reported one.
    Working { ticks: u64, percent: Option<u64> },
    /// Archive bytes are streaming in.
    Transferring { transfer: TransferProgress },
    /// The run is over; the final byte count stays readable.
    Finished { transfer: TransferProgress },
}

/// The progress reporter. All methods are total: a call that does not fit
/// the current state leaves the reporter unchanged rather than failing,
/// since progress reporting is observability, not correctness.
#[derive(Clone, Copy, Debug)]
pub struct ProgressReporter {
    pub state: ReporterState,
}

impl ProgressReporter {
    pub open spec fn spec_new() -> ProgressReporter {
        ProgressReporter { state: ReporterState::Working { ticks: 0, percent: None } }
    }

    /// A fresh reporter: no ticks yet, no percentage known.
    pub fn new() -> (r: ProgressReporter)
        ensures
            r == Self::spec_new(),
    {
        ProgressReporter { state: ReporterState::Working { ticks: 0, percent: None } }
    }

    pub open spec fn spec_on_tick(self) -> ProgressReporter {
        match self.state {
            ReporterState::Working { ticks, percent } => ProgressReporter {
                state: ReporterState::Working {
                    ticks: if ticks < u64::MAX {
                        (ticks + 1) as u64
                    } else {
                        ticks
                    },
                    percent,
                },
            },
            _ => self,
        }
    }

    /// One poll happened while the job was processing: the liveness
    /// indicator advances even when no percentage is known.
    pub fn on_tick(&mut self)
        ensures
            *final(self) == old(self).spec_on_tick(),
            (old(self).state matches ReporterState::Working { .. } && old(self).state->Working_ticks < u64::MAX) ==> (final(self).state matches
                ReporterState::Working { .. } && final(self).state->Working_ticks == old(self).state->Working_ticks + 1),
    {
        match self.state {
            ReporterState::Working { ticks, percent } => {
                if ticks < u64::MAX {
                    self.state = ReporterState::Working { ticks: ticks + 1, percent };
                }
            },
            _ => {},
        }
    }

    pub open spec fn spec_on_progress_update(self, value: u64) -> ProgressReporter {
        match self.state {
            ReporterState::Working { ticks, percent } => ProgressReporter {
                state: ReporterState::Working { ticks, percent: Some(value) },
            },
            _ => self,
        }
    }

    /// The service reported a numeric progress value: display exactly that
    /// value. The service is the source of truth; a value that goes down,
    /// or one above one hundred, is shown as reported.
    pub fn on_progress_update(&mut self, value: u64)
        ensures
            *final(self) == old(self).spec_on_progress_update(value),
            old(self).state matches ReporterState::Working { .. } ==> (final(self).state matches
                ReporterState::Working { percent: p, .. } && p == Some(value)),
    {
        match self.state {
            ReporterState::Working { ticks, percent } => {
                self.state = ReporterState::Working { ticks, percent: Some(value) };
            },
            _ => {},
        }
    }

    pub open spec fn spec_on_download_start(self, total: Option<u64>) -> ProgressReporter {
        ProgressReporter {
            state: ReporterState::Transferring {
                transfer: TransferProgress { bytes_transferred: 0, total_bytes: total },
            },
        }
    }

    /// The download began: the display switches from a percentage to a byte
    /// count, open-ended when no total is known.
    pub fn on_download_start(&mut self, total: Option<u64>)
        ensures
            *final(self) == old(self).spec_on_download_start(total),
    {
        self.state = ReporterState::Transferring {
            transfer: TransferProgress { bytes_transferred: 0, total_bytes: total },
        };
    }

    pub open spec fn spec_on_bytes(self, n: u64) -> ProgressReporter {
        match self.state {
            ReporterState::Transferring { transfer } => ProgressReporter {
                state: ReporterState::Transferring {
                    transfer: TransferProgress {
                        bytes_transferred: if transfer.bytes_transferred + n <= u64::MAX {
                            (transfer.bytes_transferred + n) as u64
                        } else {
                            u64::MAX
                        },
                        total_bytes: transfer.total_bytes,
                    },
                },
            },
            _ => self,
        }
    }

    /// `n` more bytes reached the sink. The count never decreases; it
    /// saturates rather than wrapping if a transfer outgrows a `u64`.
    pub fn on_bytes(&mut self, n: u64)
        ensures
            *final(self) == old(self).spec_on_bytes(n),
            (old(self).state matches ReporterState::Transferring { .. } && old(self).state->Transferring_transfer.bytes_transferred + n <= u64::MAX) ==> (final(self).state matches ReporterState::Transferring { .. } && final(self).state->Transferring_transfer.bytes_transferred == old(self).state->Transferring_transfer.bytes_transferred + n),
    {
        match self.state {
            ReporterState::Transferring { transfer } => {
                let added = if n <= u64::MAX - transfer.bytes_transferred {
                    transfer.bytes_transferred + n
                } else {
                    u64::MAX
                };
                self.state = ReporterState::Transferring {
                    transfer: TransferProgress {
                        bytes_transferred: added,
                        total_bytes: transfer.total_bytes,
                    },
                };
            },
            _ => {},
        }
    }

    pub open spec fn spec_on_complete(self) -> ProgressReporter {
        match self.state {
            ReporterState::Transferring { transfer } => ProgressReporter {
                state: ReporterState::Finished { transfer },
            },
            _ => self,
        }
    }

    /// The stream ended: finalize the display, keeping the byte count.
    pub fn on_complete(&mut self)
        ensures
            *final(self) == old(self).spec_on_complete(),
    {
        match self.state {
            ReporterState::Transferring { transfer } => {
                self.state = ReporterState::Finished { transfer };
            },
            _ => {},
        }
    }

    pub open spec fn spec_displayed_percent(self) -> Option<u64> {
        match self.state {
            ReporterState::Working { percent, .. } => percent,
            _ => None,
        }
    }

    /// The percentage currently displayed, if the display shows one.
    pub fn displayed_percent(&self) -> (r: Option<u64>)
        ensures
            r == self.spec_displayed_percent(),
    {
        match self.state {
            ReporterState::Working { percent, .. } => percent,
            _ => None,
        }
    }

    pub open spec fn spec_tick_count(self) -> u64 {
        match self.state {
            ReporterState::Working { ticks, .. } => ticks,
            _ => 0,
        }
    }

    /// How often the liveness indicator has advanced.
    pub fn tick_count(&self) -> (r: u64)
        ensures
            r == self.spec_tick_count(),
    {
        match self.state {
            ReporterState::Working { ticks, .. } => ticks,
            _ => 0,
        }
    }

    pub open spec fn spec_bytes_transferred(self) -> u64 {
        match self.state {
            ReporterState::Transferring { transfer } => transfer.bytes_transferred,
            ReporterState::Finished { transfer } => transfer.bytes_transferred,
            _ => 0,
        }
    }

    /// The byte count the display shows, zero before the download begins.
    pub fn bytes_transferred(&self) -> (r: u64)
        ensures
            r == self.spec_bytes_transferred(),
    {
        match self.state {
            ReporterState::Transferring { transfer } => transfer.bytes_transferred,
            ReporterState::Finished { transfer } => transfer.bytes_transferred,
            _ => 0,
        }
    }

    pub open spec fn spec_total_bytes(self) -> Option<u64> {
        match self.state {
            ReporterState::Transferring { transfer } => transfer.total_bytes,
            ReporterState::Finished { transfer } => transfer.total_bytes,
            _ => None,
        }
    }

    /// The declared download total, when one is known.
    pub fn total_bytes(&self) -> (r: Option<u64>)
        ensures
            r == self.spec_total_bytes(),
    {
        match self.state {
            ReporterState::Transferring { transfer } => transfer.total_bytes,
            ReporterState::Finished { transfer } => transfer.total_bytes,
            _ => None,
        }
    }

    pub open spec fn spec_is_finished(self) -> bool {
        self.state matches ReporterState::Finished { .. }
    }

    /// Whether the display was finalized.
    pub fn is_finished(&self) -> (r: bool)
        ensures
            r == self.spec_is_finished(),
    {
        match self.state {
            ReporterState::Finished { .. } => true,
            _ => false,
        }
    }
}

/// The total size of a sequence of stream chunks.
pub open spec fn sum_chunks(cs: Seq<u64>) -> int
    decreases cs.len(),
{
    if cs.len() == 0 {
        0
    } else {
        cs[0] + sum_chunks(cs.skip(1))
    }
}

pub proof fn lemma_sum_chunks_nonneg(cs: Seq<u64>)
    ensures
        sum_chunks(cs) >= 0,
    decreases cs.len(),
{
    if cs.len() > 0 {
        lemma_sum_chunks_nonneg(cs.skip(1));
    }
}

/// The reporter after observing a whole sequence of chunks, first to last.
pub open spec fn spec_after_chunks(r: ProgressReporter, cs: Seq<u64>) -> ProgressReporter
    decreases cs.len(),
{
    if cs.len() == 0 {
        r
    } else {
        spec_after_chunks(r.spec_on_bytes(cs[0]), cs.skip(1))
    }
}

pub proof fn lemma_after_chunks_adds(r: ProgressReporter, cs: Seq<u64>)
    requires
        r.state matches ReporterState::Transferring { transfer } && transfer.bytes_transferred
            + sum_chunks(cs) <= u64::MAX,
    ensures
        spec_after_chunks(r, cs).state matches ReporterState::Transferring { transfer: t2 }
            && t2.bytes_transferred == r.state->Transferring_transfer.bytes_transferred
            + sum_chunks(cs) && t2.total_bytes == r.state->Transferring_transfer.total_bytes,
    decreases cs.len(),
{
    lemma_sum_chunks_nonneg(cs);
    if cs.len() > 0 {
        lemma_sum_chunks_nonneg(cs.skip(1));
        lemma_after_chunks_adds(r.spec_on_bytes(cs[0]), cs.skip(1));
    }
}

/// After a download that starts fresh, observes any sequence of chunks and
/// is then completed, the byte count the reporter shows equals the total
/// size of those chunks — that is, exactly what the sink received — for any
/// chunk sequence, the empty one included.
pub proof fn lemma_reported_count_equals_sink(r0: ProgressReporter, total: Option<u64>, cs: Seq<
    u64,
>)
    requires
        sum_chunks(cs) <= u64::MAX,
    ensures
        ({
            let done = spec_after_chunks(r0.spec_on_download_start(total), cs).spec_on_complete();
            done.spec_is_finished() && done.spec_bytes_transferred() == sum_chunks(cs)
                && done.spec_total_bytes() == total
        }),
{
    lemma_sum_chunks_nonneg(cs);
    lemma_after_chunks_adds(r0.spec_on_download_start(total), cs);
}

} // verus!
