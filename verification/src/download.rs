//! The per-file download flow as an explicit state machine, and the
//! planning rules of a snapshot: concurrency bound, substring
//! filters, and first-error collection.
//!
//! The machine decides; its driver performs the probes, requests and
//! writes the actions name, and feeds the outcome back as the next
//! event. Cancellation polls are events like any other, so the
//! contract shows exactly where a raised token stops the flow.

use vstd::prelude::*;
use crate::error::DownloadError;
use crate::xet_integration::ResponseHeaders;
use crate::xet_integration::XetFileData;
use crate::xet_integration::file_data_spec;
use crate::xet_integration::parse_xet_file_data_from_headers;
use crate::progress::sat_add_u64;

verus! {

/// Where the flow of one file stands.
#[derive(Debug)]
pub enum FileStep {
    /// Nothing has happened; the first cancellation poll is due.
    Start,
    /// The destination is being probed for a cached copy.
    AwaitCacheProbe,
    /// The redirect-disabled HEAD probe is in flight.
    AwaitHead,
    /// The dedup download is being attempted.
    AwaitXet,
    /// A cancellation poll is due before the plain GET.
    PollBeforeGet,
    /// The plain GET is in flight.
    AwaitGet,
    /// The body is streaming in.
    Streaming { downloaded: u64, expected_total: u64 },
    /// The file is on disk at the destination.
    Done,
    /// The flow failed with this error.
    Failed { error: DownloadError },
}

/// What the driver observed.
#[derive(Debug)]
pub enum FileEvent {
    /// A cancellation poll returned.
    CancelPolled { cancelled: bool },
    /// The destination was probed: whether it exists, and its size.
    CacheProbe { exists: bool, size: u64 },
    /// The HEAD probe finished.
    HeadDone { result: Result<ResponseHeaders, DownloadError> },
    /// The dedup attempt finished.
    XetDone { ok: bool },
    /// The plain GET finished; on success, the Content-Length header
    /// if the response carried one.
    GetDone { result: Result<Option<u64>, DownloadError> },
    /// One body chunk arrived, and the poll after it returned.
    Chunk { len: u64, cancelled: bool },
    /// The body ended.
    BodyEnd,
    /// The body stream or the local write failed.
    BodyFailed { error: DownloadError },
}

/// What the driver must do next.
#[derive(Debug)]
pub enum FileAction {
    /// Stat the destination.
    ProbeCache,
    /// Send the redirect-disabled HEAD probe with retry.
    SendHead,
    /// Attempt the dedup download with this metadata.
    TryXet { data: XetFileData },
    /// Poll the cancellation token.
    PollCancel,
    /// Send the plain GET with retry.
    SendGet,
    /// Read the first body chunk.
    ReadChunk,
    /// Append this chunk to the destination, report progress, and
    /// read the next chunk.
    StoreChunk { len: u64 },
    /// The file is complete.
    Finish,
    /// Surface the error held in the failed step.
    Fail,
}

/// The events each step takes.
pub open spec fn event_fits(step: FileStep, e: FileEvent) -> bool {
    match (step, e) {
        (FileStep::Start, FileEvent::CancelPolled { .. }) => true,
        (FileStep::AwaitCacheProbe, FileEvent::CacheProbe { .. }) => true,
        (FileStep::AwaitHead, FileEvent::HeadDone { .. }) => true,
        (FileStep::AwaitXet, FileEvent::XetDone { .. }) => true,
        (FileStep::PollBeforeGet, FileEvent::CancelPolled { .. }) => true,
        (FileStep::AwaitGet, FileEvent::GetDone { .. }) => true,
        (FileStep::Streaming { .. }, FileEvent::Chunk { .. }) => true,
        (FileStep::Streaming { .. }, FileEvent::BodyEnd) => true,
        (FileStep::Streaming { .. }, FileEvent::BodyFailed { .. }) => true,
        _ => false,
    }
}

/// The event observed a raised cancellation token.
pub open spec fn event_cancelled(e: FileEvent) -> bool {
    match e {
        FileEvent::CancelPolled { cancelled } => cancelled,
        FileEvent::Chunk { cancelled, .. } => cancelled,
        _ => false,
    }
}

/// One download task: the request data fixed at creation, and the
/// step the flow stands at.
pub struct FileDownloadTask {
    /// The repo-relative path, as progress reports name it.
    pub file_path: String,
    /// The size the listing promised.
    pub expected_size: u64,
    /// Where the file goes on disk.
    pub destination: String,
    /// The hub's resolve URL for this file.
    pub download_url: String,
    /// Whether the dedup path may be attempted.
    pub enable_dedup: bool,
    /// Where the flow stands.
    pub step: FileStep,
}

/// The transition relation of the flow. Reading it top to bottom
/// gives the whole story of one file:
/// a raised token fails the flow at every poll; a destination of the
/// expected size finishes without any request; dedup is attempted
/// only when the HEAD probe advertised it and it is enabled, and its
/// failure falls back silently to the plain GET; the expected total
/// prefers the Content-Length header over the listing's size; chunks
/// accumulate saturating; the body's end finishes the flow.
pub open spec fn transition(
    t: FileDownloadTask,
    e: FileEvent,
    post: FileStep,
    a: FileAction,
) -> bool {
    match (t.step, e) {
        (FileStep::Start, FileEvent::CancelPolled { cancelled }) => {
            if cancelled {
                post == (FileStep::Failed { error: DownloadError::Cancelled }) && a
                    == FileAction::Fail
            } else {
                post == FileStep::AwaitCacheProbe && a == FileAction::ProbeCache
            }
        },
        (FileStep::AwaitCacheProbe, FileEvent::CacheProbe { exists, size }) => {
            if exists && size == t.expected_size {
                post == FileStep::Done && a == FileAction::Finish
            } else {
                post == FileStep::AwaitHead && a == FileAction::SendHead
            }
        },
        (FileStep::AwaitHead, FileEvent::HeadDone { result }) => {
            match result {
                Ok(h) => {
                    if t.enable_dedup && file_data_spec(&h) is Some {
                        &&& post == FileStep::AwaitXet
                        &&& a matches FileAction::TryXet { data } && file_data_spec(&h) == Some(
                            (data.file_hash@, data.refresh_route@),
                        )
                    } else {
                        post == FileStep::PollBeforeGet && a == FileAction::PollCancel
                    }
                },
                Err(err) => post == (FileStep::Failed { error: err }) && a == FileAction::Fail,
            }
        },
        (FileStep::AwaitXet, FileEvent::XetDone { ok }) => {
            if ok {
                post == FileStep::Done && a == FileAction::Finish
            } else {
                post == FileStep::PollBeforeGet && a == FileAction::PollCancel
            }
        },
        (FileStep::PollBeforeGet, FileEvent::CancelPolled { cancelled }) => {
            if cancelled {
                post == (FileStep::Failed { error: DownloadError::Cancelled }) && a
                    == FileAction::Fail
            } else {
                post == FileStep::AwaitGet && a == FileAction::SendGet
            }
        },
        (FileStep::AwaitGet, FileEvent::GetDone { result }) => {
            match result {
                Ok(content_length) => {
                    let expected = match content_length {
                        Some(n) => n,
                        None => t.expected_size,
                    };
                    post == (FileStep::Streaming { downloaded: 0, expected_total: expected }) && a
                        == FileAction::ReadChunk
                },
                Err(err) => post == (FileStep::Failed { error: err }) && a == FileAction::Fail,
            }
        },
        (FileStep::Streaming { downloaded, expected_total }, FileEvent::Chunk { len, cancelled }) => {
            if cancelled {
                post == (FileStep::Failed { error: DownloadError::Cancelled }) && a
                    == FileAction::Fail
            } else {
                post == (FileStep::Streaming {
                    downloaded: sat_add_u64(downloaded as int, len as int),
                    expected_total,
                }) && a == (FileAction::StoreChunk { len })
            }
        },
        (FileStep::Streaming { .. }, FileEvent::BodyEnd) => post == FileStep::Done && a
            == FileAction::Finish,
        (FileStep::Streaming { .. }, FileEvent::BodyFailed { error }) => post == (FileStep::Failed {
            error,
        }) && a == FileAction::Fail,
        _ => false,
    }
}

impl FileDownloadTask {
    /// A task about to start its flow.
    pub fn new(
        file_path: String,
        expected_size: u64,
        destination: String,
        download_url: String,
        enable_dedup: bool,
    ) -> (r: Self)
        ensures
            r.file_path == file_path,
            r.expected_size == expected_size,
            r.destination == destination,
            r.download_url == download_url,
            r.enable_dedup == enable_dedup,
            r.step == FileStep::Start,
    {
        FileDownloadTask {
            file_path,
            expected_size,
            destination,
            download_url,
            enable_dedup,
            step: FileStep::Start,
        }
    }

    /// Feed one observation to the flow and learn what to do next.
    pub fn step(&mut self, e: FileEvent) -> (a: FileAction)
        requires
            event_fits(old(self).step, e),
        ensures
            transition(*old(self), e, final(self).step, a),
            final(self).file_path == old(self).file_path,
            final(self).expected_size == old(self).expected_size,
            final(self).destination == old(self).destination,
            final(self).download_url == old(self).download_url,
            final(self).enable_dedup == old(self).enable_dedup,
    {
        let mut current = FileStep::Start;
        core::mem::swap(&mut current, &mut self.step);
        match (current, e) {
            (FileStep::Start, FileEvent::CancelPolled { cancelled }) => {
                if cancelled {
                    self.step = FileStep::Failed { error: DownloadError::Cancelled };
                    FileAction::Fail
                } else {
                    self.step = FileStep::AwaitCacheProbe;
                    FileAction::ProbeCache
                }
            },
            (FileStep::AwaitCacheProbe, FileEvent::CacheProbe { exists, size }) => {
                if exists && size == self.expected_size {
                    self.step = FileStep::Done;
                    FileAction::Finish
                } else {
                    self.step = FileStep::AwaitHead;
                    FileAction::SendHead
                }
            },
            (FileStep::AwaitHead, FileEvent::HeadDone { result }) => {
                match result {
                    Ok(h) => {
                        if self.enable_dedup {
                            match parse_xet_file_data_from_headers(&h) {
                                Some(data) => {
                                    self.step = FileStep::AwaitXet;
                                    FileAction::TryXet { data }
                                },
                                None => {
                                    self.step = FileStep::PollBeforeGet;
                                    FileAction::PollCancel
                                },
                            }
                        } else {
                            self.step = FileStep::PollBeforeGet;
                            FileAction::PollCancel
                        }
                    },
                    Err(err) => {
                        self.step = FileStep::Failed { error: err };
                        FileAction::Fail
                    },
                }
            },
            (FileStep::AwaitXet, FileEvent::XetDone { ok }) => {
                if ok {
                    self.step = FileStep::Done;
                    FileAction::Finish
                } else {
                    self.step = FileStep::PollBeforeGet;
                    FileAction::PollCancel
                }
            },
            (FileStep::PollBeforeGet, FileEvent::CancelPolled { cancelled }) => {
                if cancelled {
                    self.step = FileStep::Failed { error: DownloadError::Cancelled };
                    FileAction::Fail
                } else {
                    self.step = FileStep::AwaitGet;
                    FileAction::SendGet
                }
            },
            (FileStep::AwaitGet, FileEvent::GetDone { result }) => {
                match result {
                    Ok(content_length) => {
                        let expected = match content_length {
                            Some(n) => n,
                            None => self.expected_size,
                        };
                        self.step = FileStep::Streaming { downloaded: 0, expected_total: expected };
                        FileAction::ReadChunk
                    },
                    Err(err) => {
                        self.step = FileStep::Failed { error: err };
                        FileAction::Fail
                    },
                }
            },
            (FileStep::Streaming { downloaded, expected_total }, FileEvent::Chunk {
                len,
                cancelled,
            }) => {
                if cancelled {
                    self.step = FileStep::Failed { error: DownloadError::Cancelled };
                    FileAction::Fail
                } else {
                    self.step = FileStep::Streaming {
                        downloaded: downloaded.saturating_add(len),
                        expected_total,
                    };
                    FileAction::StoreChunk { len }
                }
            },
            (FileStep::Streaming { .. }, FileEvent::BodyEnd) => {
                self.step = FileStep::Done;
                FileAction::Finish
            },
            (FileStep::Streaming { .. }, FileEvent::BodyFailed { error }) => {
                self.step = FileStep::Failed { error };
                FileAction::Fail
            },
            (other, _) => {
                // `event_fits` rules this pairing out.
                self.step = other;
                proof {
                    assert(false);
                }
                FileAction::Fail
            },
        }
    }
}

/// A destination that already holds a file of the expected size
/// finishes the flow at once: no probe, request or transfer follows.
pub proof fn lemma_cache_hit_short_circuit(
    t: FileDownloadTask,
    post: FileStep,
    a: FileAction,
    size: u64,
)
    requires
        t.step == FileStep::AwaitCacheProbe,
        size == t.expected_size,
        transition(t, FileEvent::CacheProbe { exists: true, size }, post, a),
    ensures
        post == FileStep::Done,
        a == FileAction::Finish,
{
}

/// A raised cancellation token ends the flow at the very next event
/// that carries it — a poll or a chunk boundary — with the
/// cancellation error and no further action.
pub proof fn lemma_cancellation_terminates(
    t: FileDownloadTask,
    e: FileEvent,
    post: FileStep,
    a: FileAction,
)
    requires
        transition(t, e, post, a),
        event_cancelled(e),
    ensures
        post == (FileStep::Failed { error: DownloadError::Cancelled }),
        a == FileAction::Fail,
{
}

/// A failed dedup attempt never fails the flow: it falls back to the
/// plain GET path.
pub proof fn lemma_dedup_failure_falls_back(
    t: FileDownloadTask,
    post: FileStep,
    a: FileAction,
)
    requires
        t.step == FileStep::AwaitXet,
        transition(t, FileEvent::XetDone { ok: false }, post, a),
    ensures
        post == FileStep::PollBeforeGet,
        a == FileAction::PollCancel,
{
}

/// At least one: the floor both operands of the permit count get.
pub open spec fn at_least_one(x: usize) -> int {
    if x > 1 {
        x as int
    } else {
        1
    }
}

/// The permit count of a snapshot: `min(max_concurrent, file_count)`
/// with both floored at one.
pub open spec fn permits_spec(max_concurrent: usize, n_files: usize) -> int {
    if at_least_one(max_concurrent) < at_least_one(n_files) {
        at_least_one(max_concurrent)
    } else {
        at_least_one(n_files)
    }
}

/// The number of semaphore permits a snapshot runs with:
/// `min(max_concurrent, file_count)`, never below one.
pub fn snapshot_permits(max_concurrent: usize, n_files: usize) -> (r: usize)
    ensures
        r == permits_spec(max_concurrent, n_files),
        1 <= r <= at_least_one(max_concurrent),
{
    let lo: usize = if max_concurrent > 1 {
        max_concurrent
    } else {
        1
    };
    let hi: usize = if n_files > 1 {
        n_files
    } else {
        1
    };
    if lo < hi {
        lo
    } else {
        hi
    }
}

/// `i` is the first failed result.
pub open spec fn is_first_err(results: Seq<Result<String, DownloadError>>, i: int) -> bool {
    0 <= i < results.len() && results[i] is Err && (forall|j: int| 0 <= j < i ==> results[j] is Ok)
}

impl DownloadError {
    /// A field-by-field copy, equal to the original.
    pub fn duplicate(&self) -> (r: DownloadError)
        ensures
            r == *self,
    {
        match self {
            DownloadError::InvalidConfig { message } => DownloadError::InvalidConfig {
                message: message.clone(),
            },
            DownloadError::NotFound { filename } => DownloadError::NotFound {
                filename: filename.clone(),
            },
            DownloadError::Cancelled => DownloadError::Cancelled,
            DownloadError::HttpStatus { description, attempts, status } => DownloadError::HttpStatus {
                description: description.clone(),
                attempts: *attempts,
                status: *status,
            },
            DownloadError::Transport { description, attempts, message } => DownloadError::Transport {
                description: description.clone(),
                attempts: *attempts,
                message: message.clone(),
            },
            DownloadError::Io { message } => DownloadError::Io { message: message.clone() },
            DownloadError::MissingXetHeaders => DownloadError::MissingXetHeaders,
        }
    }
}

/// Collect a snapshot's worker results: the first error, in
/// completion order, fails the snapshot; with no error it passes.
pub fn first_error(results: &Vec<Result<String, DownloadError>>) -> (r: Result<
    (),
    DownloadError,
>)
    ensures
        match r {
            Ok(()) => forall|j: int| 0 <= j < results@.len() ==> results@[j] is Ok,
            Err(e) => exists|i: int|
                #[trigger] is_first_err(results@, i) && results@[i] == Err::<
                    String,
                    DownloadError,
                >(e),
        },
{
    let mut i: usize = 0;
    while i < results.len()
        invariant
            i <= results@.len(),
            forall|j: int| 0 <= j < i ==> results@[j] is Ok,
        decreases results@.len() - i,
    {
        match &results[i] {
            Ok(_) => {},
            Err(e) => {
                let copy = e.duplicate();
                proof {
                    assert(is_first_err(results@, i as int));
                }
                return Err(copy);
            },
        }
        i += 1;
    }
    Ok(())
}

/// With exactly one failed worker, the snapshot surfaces exactly that
/// worker's error.
pub proof fn lemma_single_error_snapshot(results: Seq<Result<String, DownloadError>>, i: int)
    requires
        0 <= i < results.len(),
        results[i] is Err,
        forall|j: int| 0 <= j < results.len() && j != i ==> results[j] is Ok,
    ensures
        is_first_err(results, i),
        forall|k: int| is_first_err(results, k) ==> k == i,
{
    assert forall|k: int| is_first_err(results, k) implies k == i by {
        if k < i {
            assert(results[k] is Ok);
        } else if k > i {
            assert(results[i] is Ok);
        }
    }
}

} // verus!
