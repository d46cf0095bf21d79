//! A resumable download as a state machine. The machine decides; whoever
//! drives it performs each action it asks for (file system, network,
//! waiting, progress reports) and hands back the outcome as an event.
//!
//! The course of a download: an existing file is continued from its
//! length (or trimmed, or left alone when it is already complete), else a
//! new one is created; the free space is checked; a range probe may show
//! that nothing is left to fetch; with a bandwidth limit active a download
//! slot is awaited; then the response body is written in slices of at most
//! 8 KiB, each let through the rate limiter first, with a progress report
//! at most every 500 ms and one at the end.

use vstd::prelude::*;
use std::time::Instant;
use crate::clock::nanos_since;
use crate::error::{DownloadingError, ErrorView};
use crate::header::{range_reports_complete, range_complete_spec};
use crate::speed::{SpeedState, SpeedTracker, updated, counted, sat_sub, smoothing_gives, smoothing_total};
use crate::limiter::sat_add;

verus! {

/// Largest slice of a response chunk let through the limiter and written at
/// once (8 KiB).
pub const SLICE_SIZE: u64 = 8192;

/// Least time between two progress reports while streaming (500 ms, in
/// nanoseconds).
pub const REPORT_INTERVAL_NS: u128 = 500_000_000;

/// The HTTP status that says the requested range lies past the end of the
/// content (416 Range Not Satisfiable).
pub const RANGE_NOT_SATISFIABLE: u16 = 416;

/// Where a download stands: what the machine waits to hear about.
#[derive(PartialEq, Eq, Debug, Clone, Copy, Structural)]
pub enum Phase {
    /// Whether the output path exists.
    Start,
    /// Opening the existing file for reading and writing.
    OpeningExisting,
    /// Reading the existing file's length.
    ReadingMetadata,
    /// Trimming an over-long file to the given length.
    Trimming(u64),
    /// Seeking to the end of the existing file, of the given length.
    Seeking(u64),
    /// Creating the output's parent folder where it is missing.
    CreatingDir,
    /// Creating the output file.
    CreatingFile,
    /// Asking how much room the output's disk has.
    CheckingSpace,
    /// Asking the server, with a range request, whether anything is left.
    ProbingRange,
    /// Asking whether a bandwidth limit is active.
    CheckingLimit,
    /// Checking for cancellation before waiting for a download slot.
    SlotCancelCheck,
    /// Waiting (up to 100 ms) for a download slot.
    AcquiringSlot,
    /// Sending the ranged request for the rest of the content.
    Requesting,
    /// Checking for cancellation before waiting for the next chunk.
    StreamCancelCheck,
    /// Waiting (up to 250 ms) for the next chunk of the body.
    AwaitingChunk,
    /// Checking for cancellation before the next slice of the chunk.
    SliceCancelCheck,
    /// Waiting for the rate limiter to let the slice through.
    Consuming,
    /// Writing the slice to the file.
    Writing,
    /// A progress report while streaming is being delivered.
    Reporting,
    /// The report that the content was complete is being delivered.
    ReportingComplete,
    /// The final progress report is being delivered.
    FinalReporting,
    /// Flushing the file.
    Flushing,
    /// The download is over.
    Finished,
}

/// A progress report: bytes in the file, bytes expected, and the network
/// and disk speeds in bytes per second.
#[derive(PartialEq, Eq, Debug, Clone, Copy, Structural)]
pub struct Progress {
    pub current: u64,
    pub total: u64,
    pub net_speed: u64,
    pub disk_speed: u64,
}

/// What arrived for one `NextChunk`.
pub enum ChunkEvent {
    /// A chunk of this many bytes.
    Data(u64),
    /// The body ended.
    End,
    /// Nothing arrived within 250 ms.
    TimedOut,
    /// The body stream failed, with the error's text.
    Failed(String),
}

/// The outcome of an action, handed back to the machine.
pub enum DownloadEvent {
    /// Whether the output path exists.
    Begin(bool),
    /// Whether opening or creating the file succeeded.
    Opened(Result<(), String>),
    /// The file's length, or why it could not be read.
    Metadata(Result<u64, String>),
    /// Whether trimming the file succeeded.
    Trimmed(Result<(), String>),
    /// Whether seeking succeeded.
    Seeked(Result<(), String>),
    /// Whether the parent folder is there.
    ParentDir(Result<(), String>),
    /// The free bytes on the output's disk, or none when no disk holds it.
    FreeSpace(Option<u64>),
    /// The raw `Content-Range` value of the probe's response; none when the
    /// probe failed or the header was missing.
    RangeProbe(Option<Vec<u8>>),
    /// Whether a bandwidth limit is active.
    RateLimit(bool),
    /// Whether cancellation was requested.
    CancelState(bool),
    /// Whether a download slot was had within the wait.
    SlotAcquired(bool),
    /// The response status, or the request's error text.
    Response(Result<u16, String>),
    /// What arrived from the body.
    Chunk(ChunkEvent),
    /// Whether the limiter let the slice through (`false`: cancelled).
    TokensGranted(bool),
    /// Whether the slice was written.
    Written(Result<(), String>),
    /// A progress report was delivered.
    Ack,
    /// Whether flushing succeeded.
    Flushed(Result<(), String>),
}

/// What the machine asks for next.
pub enum DownloadAction {
    /// Tell whether the output path exists.
    CheckPath,
    /// Open the existing file for reading and writing.
    OpenExisting,
    /// Read the file's length.
    ReadMetadata,
    /// Trim the file to this length.
    Trim(u64),
    /// Seek the file to this position.
    Seek(u64),
    /// Create the output's parent folder if it is missing.
    CreateParentDir,
    /// Create the output file.
    CreateFile,
    /// Tell the free space on the output's disk.
    QueryFreeSpace,
    /// Send a HEAD request for the range from this position on.
    ProbeRange(u64),
    /// Tell whether a bandwidth limit is active.
    QueryRateLimit,
    /// Tell whether cancellation was requested.
    CheckCancel,
    /// Wait up to 100 ms for a download slot.
    AcquireSlot,
    /// Send a GET request for the range from this position on.
    SendRequest(u64),
    /// Wait up to 250 ms for the next chunk of the body.
    NextChunk,
    /// Let this many bytes through the rate limiter.
    ConsumeTokens(u64),
    /// Write `len` bytes of the current chunk, from `offset` on.
    WriteSlice { offset: u64, len: u64 },
    /// Deliver a progress report.
    Report(Progress),
    /// Flush the file.
    Flush,
    /// The download is over, with this outcome.
    Finish(Result<(), DownloadingError>),
}

/// A `ChunkEvent` with its text as characters.
pub enum ChunkView {
    Data(u64),
    End,
    TimedOut,
    Failed(Seq<char>),
}

/// A `DownloadEvent` with its texts as characters and its bytes as a sequence.
pub enum EventView {
    Begin(bool),
    Opened(Result<(), Seq<char>>),
    Metadata(Result<u64, Seq<char>>),
    Trimmed(Result<(), Seq<char>>),
    Seeked(Result<(), Seq<char>>),
    ParentDir(Result<(), Seq<char>>),
    FreeSpace(Option<u64>),
    RangeProbe(Option<Seq<u8>>),
    RateLimit(bool),
    CancelState(bool),
    SlotAcquired(bool),
    Response(Result<u16, Seq<char>>),
    Chunk(ChunkView),
    TokensGranted(bool),
    Written(Result<(), Seq<char>>),
    Ack,
    Flushed(Result<(), Seq<char>>),
}

/// A `DownloadAction` with its error as an `ErrorView`.
pub enum ActionView {
    CheckPath,
    OpenExisting,
    ReadMetadata,
    Trim(u64),
    Seek(u64),
    CreateParentDir,
    CreateFile,
    QueryFreeSpace,
    ProbeRange(u64),
    QueryRateLimit,
    CheckCancel,
    AcquireSlot,
    SendRequest(u64),
    NextChunk,
    ConsumeTokens(u64),
    WriteSlice { offset: u64, len: u64 },
    Report(Progress),
    Flush,
    Finish(Result<(), ErrorView>),
}

/// A text result as characters.
pub open spec fn text_result<T>(r: Result<T, String>) -> Result<T, Seq<char>> {
    match r {
        Ok(v) => Ok(v),
        Err(m) => Err(m@),
    }
}

/// An outcome with its error as an `ErrorView`.
pub open spec fn outcome_view(r: Result<(), DownloadingError>) -> Result<(), ErrorView> {
    match r {
        Ok(()) => Ok(()),
        Err(e) => Err(e@),
    }
}

impl View for ChunkEvent {
    type V = ChunkView;

    open spec fn view(&self) -> ChunkView {
        match self {
            ChunkEvent::Data(n) => ChunkView::Data(*n),
            ChunkEvent::End => ChunkView::End,
            ChunkEvent::TimedOut => ChunkView::TimedOut,
            ChunkEvent::Failed(m) => ChunkView::Failed(m@),
        }
    }
}

impl View for DownloadEvent {
    type V = EventView;

    open spec fn view(&self) -> EventView {
        match self {
            DownloadEvent::Begin(b) => EventView::Begin(*b),
            DownloadEvent::Opened(r) => EventView::Opened(text_result(*r)),
            DownloadEvent::Metadata(r) => EventView::Metadata(text_result(*r)),
            DownloadEvent::Trimmed(r) => EventView::Trimmed(text_result(*r)),
            DownloadEvent::Seeked(r) => EventView::Seeked(text_result(*r)),
            DownloadEvent::ParentDir(r) => EventView::ParentDir(text_result(*r)),
            DownloadEvent::FreeSpace(s) => EventView::FreeSpace(*s),
            DownloadEvent::RangeProbe(v) => EventView::RangeProbe(match v { Some(b) => Some(b@), None => None }),
            DownloadEvent::RateLimit(b) => EventView::RateLimit(*b),
            DownloadEvent::CancelState(b) => EventView::CancelState(*b),
            DownloadEvent::SlotAcquired(b) => EventView::SlotAcquired(*b),
            DownloadEvent::Response(r) => EventView::Response(text_result(*r)),
            DownloadEvent::Chunk(c) => EventView::Chunk(c@),
            DownloadEvent::TokensGranted(b) => EventView::TokensGranted(*b),
            DownloadEvent::Written(r) => EventView::Written(text_result(*r)),
            DownloadEvent::Ack => EventView::Ack,
            DownloadEvent::Flushed(r) => EventView::Flushed(text_result(*r)),
        }
    }
}

impl View for DownloadAction {
    type V = ActionView;

    open spec fn view(&self) -> ActionView {
        match self {
            DownloadAction::CheckPath => ActionView::CheckPath,
            DownloadAction::OpenExisting => ActionView::OpenExisting,
            DownloadAction::ReadMetadata => ActionView::ReadMetadata,
            DownloadAction::Trim(n) => ActionView::Trim(*n),
            DownloadAction::Seek(n) => ActionView::Seek(*n),
            DownloadAction::CreateParentDir => ActionView::CreateParentDir,
            DownloadAction::CreateFile => ActionView::CreateFile,
            DownloadAction::QueryFreeSpace => ActionView::QueryFreeSpace,
            DownloadAction::ProbeRange(n) => ActionView::ProbeRange(*n),
            DownloadAction::QueryRateLimit => ActionView::QueryRateLimit,
            DownloadAction::CheckCancel => ActionView::CheckCancel,
            DownloadAction::AcquireSlot => ActionView::AcquireSlot,
            DownloadAction::SendRequest(n) => ActionView::SendRequest(*n),
            DownloadAction::NextChunk => ActionView::NextChunk,
            DownloadAction::ConsumeTokens(n) => ActionView::ConsumeTokens(*n),
            DownloadAction::WriteSlice { offset, len } => ActionView::WriteSlice { offset: *offset, len: *len },
            DownloadAction::Report(p) => ActionView::Report(*p),
            DownloadAction::Flush => ActionView::Flush,
            DownloadAction::Finish(r) => ActionView::Finish(outcome_view(*r)),
        }
    }
}

/// The abstract state of a download.
pub struct SessionView {
    /// The output path, as text.
    pub path: Seq<char>,
    /// The content length the server announced, if any.
    pub length: Option<u64>,
    /// Whether an existing file is continued.
    pub continue_downloading: bool,
    /// Whether the free space is checked first.
    pub check_free_space: bool,
    /// Bytes already in the file before the request.
    pub downloaded: u64,
    /// Bytes in the file while streaming.
    pub written: u64,
    /// Why the output file could not be opened or created, if so.
    pub file_error: Option<Seq<char>>,
    pub phase: Phase,
    /// Bytes of the current chunk not yet handled, and where they start.
    pub chunk_left: u64,
    pub chunk_offset: u64,
    /// The size of the slice in hand.
    pub slice: u64,
    /// The network and disk speed trackers.
    pub net: SpeedState,
    pub disk: SpeedState,
    /// When the last report while streaming went out.
    pub last_report: u128,
    /// The report being delivered.
    pub report: Progress,
    /// How the download ended, once it has.
    pub outcome: Result<(), ErrorView>,
}

/// The size that reports give as expected: the announced length, else the
/// bytes in hand.
pub open spec fn expected_total(length: Option<u64>, bytes: u64) -> u64 {
    match length {
        Some(l) => l,
        None => bytes,
    }
}

/// What the machine asks for while it stands in state `s`.
pub open spec fn pending(s: SessionView) -> ActionView {
    match s.phase {
        Phase::Start => ActionView::CheckPath,
        Phase::OpeningExisting => ActionView::OpenExisting,
        Phase::ReadingMetadata => ActionView::ReadMetadata,
        Phase::Trimming(l) => ActionView::Trim(l),
        Phase::Seeking(l) => ActionView::Seek(l),
        Phase::CreatingDir => ActionView::CreateParentDir,
        Phase::CreatingFile => ActionView::CreateFile,
        Phase::CheckingSpace => ActionView::QueryFreeSpace,
        Phase::ProbingRange => ActionView::ProbeRange(s.downloaded),
        Phase::CheckingLimit => ActionView::QueryRateLimit,
        Phase::SlotCancelCheck => ActionView::CheckCancel,
        Phase::AcquiringSlot => ActionView::AcquireSlot,
        Phase::Requesting => ActionView::SendRequest(s.downloaded),
        Phase::StreamCancelCheck => ActionView::CheckCancel,
        Phase::AwaitingChunk => ActionView::NextChunk,
        Phase::SliceCancelCheck => ActionView::CheckCancel,
        Phase::Consuming => ActionView::ConsumeTokens(s.slice),
        Phase::Writing => ActionView::WriteSlice { offset: s.chunk_offset, len: s.slice },
        Phase::Reporting => ActionView::Report(s.report),
        Phase::ReportingComplete => ActionView::Report(s.report),
        Phase::FinalReporting => ActionView::Report(s.report),
        Phase::Flushing => ActionView::Flush,
        Phase::Finished => ActionView::Finish(s.outcome),
    }
}

/// Move to phase `p` and ask for what it waits on.
pub open spec fn go(s: SessionView, p: Phase) -> (SessionView, ActionView) {
    let t = SessionView { phase: p, ..s };
    (t, pending(t))
}

/// End the download with outcome `r`.
pub open spec fn finish(s: SessionView, r: Result<(), ErrorView>) -> (SessionView, ActionView) {
    go(SessionView { outcome: r, ..s }, Phase::Finished)
}

/// Deliver report `p`, standing in phase `ph` until it is acknowledged.
pub open spec fn report(s: SessionView, ph: Phase, p: Progress) -> (SessionView, ActionView) {
    go(SessionView { report: p, ..s }, ph)
}

/// Once the free space is known to suffice (or is not checked): fail if
/// the file could not be had, else probe the range.
pub open spec fn after_space(s: SessionView) -> (SessionView, ActionView) {
    match s.file_error {
        Some(m) => finish(s, Err(ErrorView::OutputFileError(s.path, m))),
        None => go(s, Phase::ProbingRange),
    }
}

/// Once the file is opened or created (or failed to be): check the free
/// space if asked to.
pub open spec fn after_open(s: SessionView) -> (SessionView, ActionView) {
    if s.check_free_space { go(s, Phase::CheckingSpace) } else { after_space(s) }
}

/// Go on with the rest of the chunk, or back to the next chunk.
pub open spec fn next_slice(s: SessionView) -> (SessionView, ActionView) {
    if s.chunk_left == 0 { go(s, Phase::StreamCancelCheck) } else { go(s, Phase::SliceCancelCheck) }
}

/// The report that everything is already there: the expected size as both
/// the current and the total size, with no speed.
pub open spec fn complete_report(s: SessionView) -> Progress {
    let l = expected_total(s.length, s.downloaded);
    Progress { current: l, total: l, net_speed: 0, disk_speed: 0 }
}

/// A report of `written` bytes with the trackers' speeds.
pub open spec fn streaming_report(s: SessionView) -> Progress {
    Progress { current: s.written, total: expected_total(s.length, s.written), net_speed: s.net.ema, disk_speed: s.disk.ema }
}

/// `a + b`, wrapping at 2^64.
pub open spec fn wrap_add(a: u64, b: u64) -> u64 {
    ((a + b) % 0x1_0000_0000_0000_0000) as u64
}

/// The machine's transition: the state and the next request after event
/// `e` in state `s`, at `now` nanoseconds on the download's clock, where
/// measuring the network and disk speeds gives `speeds` (see
/// `speeds_fit`). An event
/// that does not answer the pending request changes nothing, and the
/// request is repeated; a finished download stays finished.
pub open spec fn next(s: SessionView, e: EventView, now: u128, speeds: (u64, u64)) -> (SessionView, ActionView) {
    match (s.phase, e) {
        (Phase::Start, EventView::Begin(exists)) =>
            if exists && s.continue_downloading { go(s, Phase::OpeningExisting) } else { go(s, Phase::CreatingDir) },
        (Phase::OpeningExisting, EventView::Opened(r)) => match r {
            Ok(()) => go(s, Phase::ReadingMetadata),
            Err(m) => after_open(SessionView { file_error: Some(m), ..s }),
        },
        (Phase::ReadingMetadata, EventView::Metadata(r)) => match r {
            Ok(len) => match s.length {
                Some(l) => if len == l {
                    finish(s, Ok(()))
                } else if len > l {
                    go(s, Phase::Trimming(l))
                } else {
                    go(s, Phase::Seeking(len))
                },
                None => go(s, Phase::Seeking(len)),
            },
            Err(m) => finish(s, Err(ErrorView::OutputFileMetadataError(s.path, m))),
        },
        (Phase::Trimming(_), EventView::Trimmed(r)) => match r {
            Ok(()) => finish(s, Ok(())),
            Err(m) => finish(s, Err(ErrorView::OutputFileError(s.path, m))),
        },
        (Phase::Seeking(len), EventView::Seeked(r)) => match r {
            Ok(()) => after_open(SessionView { downloaded: len, ..s }),
            Err(m) => finish(s, Err(ErrorView::OutputFileError(s.path, m))),
        },
        (Phase::CreatingDir, EventView::ParentDir(r)) => match r {
            Ok(()) => go(s, Phase::CreatingFile),
            Err(m) => finish(s, Err(ErrorView::OutputFileError(s.path, m))),
        },
        (Phase::CreatingFile, EventView::Opened(r)) => match r {
            Ok(()) => after_open(s),
            Err(m) => after_open(SessionView { file_error: Some(m), ..s }),
        },
        (Phase::CheckingSpace, EventView::FreeSpace(space)) => match space {
            None => finish(s, Err(ErrorView::PathNotMounted(s.path))),
            Some(a) => match s.length {
                Some(l) => {
                    let required = sat_sub(l as int, s.downloaded as int) as u64;
                    if a < required {
                        finish(s, Err(ErrorView::NoSpaceAvailable(s.path, required, a)))
                    } else {
                        after_space(s)
                    }
                },
                None => after_space(s),
            },
        },
        (Phase::ProbingRange, EventView::RangeProbe(v)) =>
            if range_complete_spec(v) {
                report(s, Phase::ReportingComplete, complete_report(s))
            } else {
                go(s, Phase::CheckingLimit)
            },
        (Phase::CheckingLimit, EventView::RateLimit(active)) =>
            if active { go(s, Phase::SlotCancelCheck) } else { go(s, Phase::Requesting) },
        (Phase::SlotCancelCheck, EventView::CancelState(c)) =>
            if c { finish(s, Err(ErrorView::Cancelled)) } else { go(s, Phase::AcquiringSlot) },
        (Phase::AcquiringSlot, EventView::SlotAcquired(got)) =>
            if got { go(s, Phase::Requesting) } else { go(s, Phase::SlotCancelCheck) },
        (Phase::Requesting, EventView::Response(r)) => match r {
            Err(m) => finish(s, Err(ErrorView::Reqwest(m))),
            Ok(status) => if status == RANGE_NOT_SATISFIABLE {
                report(s, Phase::ReportingComplete, complete_report(s))
            } else {
                let fresh = SpeedState { total: 0, last_bytes: 0, last_update: now, ema: 0 };
                go(SessionView { net: fresh, disk: fresh, last_report: now, written: s.downloaded, ..s }, Phase::StreamCancelCheck)
            },
        },
        (Phase::StreamCancelCheck, EventView::CancelState(c)) =>
            if c { finish(s, Err(ErrorView::Cancelled)) } else { go(s, Phase::AwaitingChunk) },
        (Phase::AwaitingChunk, EventView::Chunk(c)) => match c {
            ChunkView::Data(n) => next_slice(SessionView { chunk_left: n, chunk_offset: 0, ..s }),
            ChunkView::End => {
                let t = SessionView { net: updated(s.net, now, speeds.0), disk: updated(s.disk, now, speeds.1), ..s };
                report(t, Phase::FinalReporting, streaming_report(t))
            },
            ChunkView::TimedOut => go(s, Phase::StreamCancelCheck),
            ChunkView::Failed(m) => finish(s, Err(ErrorView::Reqwest(m))),
        },
        (Phase::SliceCancelCheck, EventView::CancelState(c)) =>
            if c {
                finish(s, Err(ErrorView::Cancelled))
            } else {
                go(SessionView { slice: if s.chunk_left <= SLICE_SIZE { s.chunk_left } else { SLICE_SIZE }, ..s }, Phase::Consuming)
            },
        (Phase::Consuming, EventView::TokensGranted(ok)) =>
            if ok {
                go(SessionView { net: counted(s.net, s.slice), ..s }, Phase::Writing)
            } else {
                finish(s, Err(ErrorView::Cancelled))
            },
        (Phase::Writing, EventView::Written(r)) => match r {
            Err(m) => finish(s, Err(ErrorView::OutputFileError(s.path, m))),
            Ok(()) => {
                let t = SessionView {
                    written: wrap_add(s.written, s.slice),
                    disk: counted(s.disk, s.slice),
                    chunk_left: sat_sub(s.chunk_left as int, s.slice as int) as u64,
                    chunk_offset: sat_add(s.chunk_offset, s.slice),
                    ..s
                };
                if sat_sub(now as int, s.last_report as int) >= REPORT_INTERVAL_NS {
                    let u = SessionView { net: updated(t.net, now, speeds.0), disk: updated(t.disk, now, speeds.1), last_report: now, ..t };
                    report(u, Phase::Reporting, streaming_report(u))
                } else {
                    next_slice(t)
                }
            },
        },
        (Phase::Reporting, EventView::Ack) => next_slice(s),
        (Phase::ReportingComplete, EventView::Ack) => finish(s, Ok(())),
        (Phase::FinalReporting, EventView::Ack) => go(s, Phase::Flushing),
        (Phase::Flushing, EventView::Flushed(r)) => match r {
            Ok(()) => finish(s, Ok(())),
            Err(m) => finish(s, Err(ErrorView::OutputFileError(s.path, m))),
        },
        _ => (s, pending(s)),
    }
}

/// Whether the transition on `e` at `now` measures the speeds: when the
/// body ends, and after a write 500 ms or more after the last report.
pub open spec fn measures(s: SessionView, e: EventView, now: u128) -> bool {
    match (s.phase, e) {
        (Phase::AwaitingChunk, EventView::Chunk(ChunkView::End)) => true,
        (Phase::Writing, EventView::Written(Ok(_))) => sat_sub(now as int, s.last_report as int) >= REPORT_INTERVAL_NS,
        _ => false,
    }
}

/// The network and disk trackers as they stand when measured.
pub open spec fn measured_trackers(s: SessionView, e: EventView) -> (SpeedState, SpeedState) {
    match (s.phase, e) {
        (Phase::Writing, EventView::Written(Ok(_))) => (s.net, counted(s.disk, s.slice)),
        _ => (s.net, s.disk),
    }
}

/// Where the transition measures the speeds, `speeds` are what the
/// smoothing function `f` may give for the network and disk trackers.
pub open spec fn speeds_fit<F: Fn(u64, u64, u128) -> u64>(f: F, s: SessionView, e: EventView, now: u128, speeds: (u64, u64)) -> bool {
    measures(s, e, now) ==> {
        &&& smoothing_gives(f, measured_trackers(s, e).0, now, speeds.0)
        &&& smoothing_gives(f, measured_trackers(s, e).1, now, speeds.1)
    }
}

/// The machine's invariant: the slice in hand is not empty, at most 8 KiB
/// and within the rest of the chunk; slices are cut only from a chunk with
/// bytes left; the chunk's rest lies within it; the report being delivered
/// gives the announced length (else its current size) as
/// the total.
pub open spec fn session_wf(s: SessionView) -> bool {
    &&& (s.phase == Phase::Consuming || s.phase == Phase::Writing) ==> 0 < s.slice <= s.chunk_left && s.slice <= SLICE_SIZE
    &&& s.phase == Phase::SliceCancelCheck ==> s.chunk_left > 0
    &&& s.chunk_offset + s.chunk_left <= u64::MAX
    &&& (s.phase == Phase::Reporting || s.phase == Phase::ReportingComplete || s.phase == Phase::FinalReporting)
        ==> s.report.total == expected_total(s.length, s.report.current)
}

/// The state a download starts in.
pub open spec fn initial(path: Seq<char>, length: Option<u64>, continue_downloading: bool, check_free_space: bool) -> SessionView {
    let zero = SpeedState { total: 0, last_bytes: 0, last_update: 0, ema: 0 };
    SessionView {
        path,
        length,
        continue_downloading,
        check_free_space,
        downloaded: 0,
        written: 0,
        file_error: None,
        phase: Phase::Start,
        chunk_left: 0,
        chunk_offset: 0,
        slice: 0,
        net: zero,
        disk: zero,
        last_report: 0,
        report: Progress { current: 0, total: 0, net_speed: 0, disk_speed: 0 },
        outcome: Ok(()),
    }
}

/// A slice is written only after the rate limiter let it through (or
/// when the write is asked for again).
pub proof fn law_limit_before_write(s: SessionView, e: EventView, now: u128, speeds: (u64, u64))
    ensures
        next(s, e, now, speeds).1 is WriteSlice ==>
            (s.phase == Phase::Consuming && e == EventView::TokensGranted(true)) || s.phase == Phase::Writing,
{
}

/// The body is requested only once no limit is active, or once a download
/// slot was had (or when the request is asked for again).
pub proof fn law_slot_before_request(s: SessionView, e: EventView, now: u128, speeds: (u64, u64))
    ensures
        next(s, e, now, speeds).1 is SendRequest ==> {
            ||| (s.phase == Phase::CheckingLimit && e == EventView::RateLimit(false))
            ||| (s.phase == Phase::AcquiringSlot && e == EventView::SlotAcquired(true))
            ||| s.phase == Phase::Requesting
        },
{
}

/// When the body ends, a final report of every byte in the file goes out
/// before the file is flushed.
pub proof fn law_final_report(s: SessionView, now: u128, speeds: (u64, u64))
    requires
        s.phase == Phase::AwaitingChunk,
    ensures
        next(s, EventView::Chunk(ChunkView::End), now, speeds).1 matches ActionView::Report(p)
            && p.current == s.written && p.total == expected_total(s.length, s.written),
        next(s, EventView::Chunk(ChunkView::End), now, speeds).0.phase == Phase::FinalReporting,
        next(next(s, EventView::Chunk(ChunkView::End), now, speeds).0, EventView::Ack, now, speeds).1 == ActionView::Flush,
{
}

/// The bytes counted as already in the file change only when seeking to
/// the end of an existing file succeeds, and then become its length; every
/// range probed or requested starts there.
pub proof fn law_resume_point(s: SessionView, e: EventView, now: u128, speeds: (u64, u64))
    ensures
        (s.phase is Seeking && e matches EventView::Seeked(Ok(_)))
            ==> (s.phase matches Phase::Seeking(len) && next(s, e, now, speeds).0.downloaded == len),
        !(s.phase is Seeking && e matches EventView::Seeked(Ok(_))) ==> next(s, e, now, speeds).0.downloaded == s.downloaded,
        next(s, e, now, speeds).1 matches ActionView::ProbeRange(from) ==> from == next(s, e, now, speeds).0.downloaded,
        next(s, e, now, speeds).1 matches ActionView::SendRequest(from) ==> from == next(s, e, now, speeds).0.downloaded,
{
}

/// When the body request succeeds, the bytes counted as in the file start
/// at the bytes already there: a resumed download reports its progress
/// from the length of the existing file on.
pub proof fn law_streaming_starts_at_file_length(s: SessionView, status: u16, now: u128, speeds: (u64, u64))
    requires
        s.phase == Phase::Requesting,
        status != RANGE_NOT_SATISFIABLE,
    ensures
        next(s, EventView::Response(Ok(status)), now, speeds).0.written == s.downloaded,
        next(s, EventView::Response(Ok(status)), now, speeds).0.phase == Phase::StreamCancelCheck,
{
}

/// A download resumed from `downloaded` bytes that receives one chunk of
/// `n` bytes (at most one slice) and then the end of the body reports, in
/// its final report, the bytes already in the file plus the `n` bytes
/// streamed, against the announced length.
pub proof fn law_resumed_final_report(s0: SessionView, status: u16, n: u64, now: u128, speeds: (u64, u64))
    requires
        s0.phase == Phase::Requesting,
        status != RANGE_NOT_SATISFIABLE,
        0 < n <= SLICE_SIZE,
        s0.downloaded + n <= u64::MAX,
    ensures
        ({
            let s1 = next(s0, EventView::Response(Ok(status)), now, speeds).0;
            let s2 = next(s1, EventView::CancelState(false), now, speeds).0;
            let s3 = next(s2, EventView::Chunk(ChunkView::Data(n)), now, speeds).0;
            let s4 = next(s3, EventView::CancelState(false), now, speeds).0;
            let s5 = next(s4, EventView::TokensGranted(true), now, speeds).0;
            let s6 = next(s5, EventView::Written(Ok(())), now, speeds).0;
            let s7 = next(s6, EventView::CancelState(false), now, speeds).0;
            let a = next(s7, EventView::Chunk(ChunkView::End), now, speeds).1;
            a matches ActionView::Report(p) && p.current == s0.downloaded + n
                && p.total == expected_total(s0.length, (s0.downloaded + n) as u64)
        }),
{
    let s1 = next(s0, EventView::Response(Ok(status)), now, speeds).0;
    let s2 = next(s1, EventView::CancelState(false), now, speeds).0;
    let s3 = next(s2, EventView::Chunk(ChunkView::Data(n)), now, speeds).0;
    assert(s3.phase == Phase::SliceCancelCheck && s3.chunk_left == n);
    let s4 = next(s3, EventView::CancelState(false), now, speeds).0;
    assert(s4.phase == Phase::Consuming && s4.slice == n);
    let s5 = next(s4, EventView::TokensGranted(true), now, speeds).0;
    assert(s5.phase == Phase::Writing && s5.written == s0.downloaded);
    let s6 = next(s5, EventView::Written(Ok(())), now, speeds).0;
    assert(s6.written == s0.downloaded + n);
    assert(s6.phase == Phase::StreamCancelCheck);
    let s7 = next(s6, EventView::CancelState(false), now, speeds).0;
    assert(s7.phase == Phase::AwaitingChunk && s7.written == s0.downloaded + n);
}

/// A download starts in a state that keeps the machine's invariant.
pub proof fn law_initial_wf(path: Seq<char>, length: Option<u64>, continue_downloading: bool, check_free_space: bool)
    ensures
        session_wf(initial(path, length, continue_downloading, check_free_space)),
{
}

/// Every transition keeps the machine's invariant.
#[verifier::rlimit(40)]
pub proof fn law_step_keeps_wf(s: SessionView, e: EventView, now: u128, speeds: (u64, u64))
    requires
        session_wf(s),
    ensures
        session_wf(next(s, e, now, speeds).0),
{
    if s.phase == Phase::Writing {
        assert(s.slice <= s.chunk_left);
    }
}

/// A finished download stays finished and repeats its outcome, whatever
/// else happens.
pub proof fn law_finished_is_final(s: SessionView, e: EventView, now: u128, speeds: (u64, u64))
    requires
        s.phase == Phase::Finished,
    ensures
        next(s, e, now, speeds) == (s, ActionView::Finish(s.outcome)),
{
}

/// Whenever the machine asks about cancellation and hears that it was
/// requested, or the limiter refuses a slice, the download ends as
/// cancelled.
pub proof fn law_cancel_ends_download(s: SessionView, now: u128, speeds: (u64, u64))
    ensures
        (s.phase == Phase::SlotCancelCheck || s.phase == Phase::StreamCancelCheck || s.phase == Phase::SliceCancelCheck)
            ==> next(s, EventView::CancelState(true), now, speeds).1 == ActionView::Finish(Err(ErrorView::Cancelled)),
        s.phase == Phase::Consuming
            ==> next(s, EventView::TokensGranted(false), now, speeds).1 == ActionView::Finish(Err(ErrorView::Cancelled)),
{
}

/// An existing file that already has the announced length is left as it
/// is, and the download succeeds without a request.
pub proof fn law_complete_file_kept(s: SessionView, len: u64, now: u128, speeds: (u64, u64))
    requires
        s.phase == Phase::ReadingMetadata,
        s.length == Some(len),
    ensures
        next(s, EventView::Metadata(Ok(len)), now, speeds).1 == ActionView::Finish(Ok(())),
{
}

/// A download fails for want of room exactly when the disk has fewer free
/// bytes than the announced length exceeds the bytes already in the file.
pub proof fn law_no_space_exactly(s: SessionView, free: u64, now: u128, speeds: (u64, u64))
    requires
        s.phase == Phase::CheckingSpace,
    ensures
        (exists|required: u64| #[trigger] next(s, EventView::FreeSpace(Some(free)), now, speeds).1
            == ActionView::Finish(Err(ErrorView::NoSpaceAvailable(s.path, required, free))))
        <==> (s.length matches Some(l) && free < sat_sub(l as int, s.downloaded as int)),
{
    if let Some(l) = s.length {
        let required = sat_sub(l as int, s.downloaded as int) as u64;
        if free < required {
        assert(next(s, EventView::FreeSpace(Some(free)), now, speeds).1
            == ActionView::Finish(Err(ErrorView::NoSpaceAvailable(s.path, required, free))));
        }
    }
}

/// Writing a slice moves it from the chunk's rest to the bytes written, in
/// a state that keeps the invariant (and short of 2^64 bytes written).
pub proof fn law_write_accounts(s: SessionView, now: u128, speeds: (u64, u64))
    requires
        session_wf(s),
        s.phase == Phase::Writing,
        s.written + s.slice <= u64::MAX,
    ensures
        ({
            let t = next(s, EventView::Written(Ok(())), now, speeds).0;
            &&& t.written == s.written + s.slice
            &&& t.chunk_left == s.chunk_left - s.slice
            &&& t.chunk_offset == s.chunk_offset + s.slice
            &&& t.disk.total == (s.disk.total + s.slice) % 0x1_0000_0000_0000_0000
        }),
{
}

/// Every slice the machine lets through or writes is not empty, at most
/// 8 KiB, and lies within the chunk that arrived.
pub proof fn law_slices_bounded(s: SessionView, e: EventView, now: u128, speeds: (u64, u64))
    requires
        session_wf(s),
    ensures
        next(s, e, now, speeds).1 matches ActionView::WriteSlice { offset, len } ==> 0 < len <= SLICE_SIZE && offset + len <= u64::MAX,
        next(s, e, now, speeds).1 matches ActionView::ConsumeTokens(len) ==> 0 < len <= SLICE_SIZE,
{
    law_step_keeps_wf(s, e, now, speeds);
}

/// Every progress report gives the announced length as the total, and the
/// current size where no length was announced.
pub proof fn law_reports_consistent(s: SessionView, e: EventView, now: u128, speeds: (u64, u64))
    requires
        session_wf(s),
    ensures
        next(s, e, now, speeds).1 matches ActionView::Report(p) ==> p.total == expected_total(s.length, p.current),
{
    law_step_keeps_wf(s, e, now, speeds);
}

} // verus!

verus! {

/// A download in progress, driven by `step`.
pub struct DownloadSession {
    path: String,
    length: Option<u64>,
    continue_downloading: bool,
    check_free_space: bool,
    downloaded: u64,
    written: u64,
    file_error: Option<String>,
    phase: Phase,
    chunk_left: u64,
    chunk_offset: u64,
    slice: u64,
    net: SpeedTracker,
    disk: SpeedTracker,
    last_report_ns: u128,
    report: Progress,
    outcome: Result<(), DownloadingError>,
    origin: Instant,
}

impl View for DownloadSession {
    type V = SessionView;

    closed spec fn view(&self) -> SessionView {
        SessionView {
            path: self.path@,
            length: self.length,
            continue_downloading: self.continue_downloading,
            check_free_space: self.check_free_space,
            downloaded: self.downloaded,
            written: self.written,
            file_error: match self.file_error { Some(m) => Some(m@), None => None },
            phase: self.phase,
            chunk_left: self.chunk_left,
            chunk_offset: self.chunk_offset,
            slice: self.slice,
            net: self.net@,
            disk: self.disk@,
            last_report: self.last_report_ns,
            report: self.report,
            outcome: outcome_view(self.outcome),
        }
    }
}

/// A copy of an outcome.
fn copy_outcome(r: &Result<(), DownloadingError>) -> (c: Result<(), DownloadingError>)
    ensures
        outcome_view(c) == outcome_view(*r),
{
    match r {
        Ok(()) => Ok(()),
        Err(e) => Err(e.duplicate()),
    }
}

impl DownloadSession {
    /// A download of content of announced length `length` (if any) into the
    /// file at `path`, whose clock starts at `origin`.
    pub fn starting(origin: Instant, path: String, length: Option<u64>, continue_downloading: bool, check_free_space: bool) -> (s: DownloadSession)
        ensures
            s@ == initial(path@, length, continue_downloading, check_free_space),
    {
        DownloadSession {
            path,
            length,
            continue_downloading,
            check_free_space,
            downloaded: 0,
            written: 0,
            file_error: None,
            phase: Phase::Start,
            chunk_left: 0,
            chunk_offset: 0,
            slice: 0,
            net: SpeedTracker::starting_at(origin, 0),
            disk: SpeedTracker::starting_at(origin, 0),
            last_report_ns: 0,
            report: Progress { current: 0, total: 0, net_speed: 0, disk_speed: 0 },
            outcome: Ok(()),
            origin,
        }
    }

    /// Where the download stands.
    pub fn phase(&self) -> (p: Phase)
        ensures
            p == self@.phase,
    {
        self.phase
    }

    /// What the machine asks for in its current state.
    pub fn pending_action(&self) -> (a: DownloadAction)
        ensures
            a@ == pending(self@),
    {
        match self.phase {
            Phase::Start => DownloadAction::CheckPath,
            Phase::OpeningExisting => DownloadAction::OpenExisting,
            Phase::ReadingMetadata => DownloadAction::ReadMetadata,
            Phase::Trimming(l) => DownloadAction::Trim(l),
            Phase::Seeking(l) => DownloadAction::Seek(l),
            Phase::CreatingDir => DownloadAction::CreateParentDir,
            Phase::CreatingFile => DownloadAction::CreateFile,
            Phase::CheckingSpace => DownloadAction::QueryFreeSpace,
            Phase::ProbingRange => DownloadAction::ProbeRange(self.downloaded),
            Phase::CheckingLimit => DownloadAction::QueryRateLimit,
            Phase::SlotCancelCheck => DownloadAction::CheckCancel,
            Phase::AcquiringSlot => DownloadAction::AcquireSlot,
            Phase::Requesting => DownloadAction::SendRequest(self.downloaded),
            Phase::StreamCancelCheck => DownloadAction::CheckCancel,
            Phase::AwaitingChunk => DownloadAction::NextChunk,
            Phase::SliceCancelCheck => DownloadAction::CheckCancel,
            Phase::Consuming => DownloadAction::ConsumeTokens(self.slice),
            Phase::Writing => DownloadAction::WriteSlice { offset: self.chunk_offset, len: self.slice },
            Phase::Reporting => DownloadAction::Report(self.report),
            Phase::ReportingComplete => DownloadAction::Report(self.report),
            Phase::FinalReporting => DownloadAction::Report(self.report),
            Phase::Flushing => DownloadAction::Flush,
            Phase::Finished => DownloadAction::Finish(copy_outcome(&self.outcome)),
        }
    }

    fn enter(&mut self, p: Phase) -> (a: DownloadAction)
        ensures
            (final(self)@, a@) == go(old(self)@, p),
    {
        self.phase = p;
        self.pending_action()
    }

    fn end_with(&mut self, r: Result<(), DownloadingError>) -> (a: DownloadAction)
        ensures
            (final(self)@, a@) == finish(old(self)@, outcome_view(r)),
    {
        self.outcome = r;
        self.enter(Phase::Finished)
    }

    fn file_failure(&mut self, m: String) -> (a: DownloadAction)
        ensures
            (final(self)@, a@) == finish(old(self)@, Err(ErrorView::OutputFileError(old(self)@.path, m@))),
    {
        let p = self.path.clone();
        self.end_with(Err(DownloadingError::OutputFileError(p, m)))
    }

    fn deliver(&mut self, p: Phase, r: Progress) -> (a: DownloadAction)
        ensures
            (final(self)@, a@) == report(old(self)@, p, r),
    {
        self.report = r;
        self.enter(p)
    }

    fn continue_after_space(&mut self) -> (a: DownloadAction)
        ensures
            (final(self)@, a@) == after_space(old(self)@),
    {
        match self.file_error.take() {
            Some(m) => {
                self.file_error = Some(m.clone());
                self.file_failure(m)
            },
            None => self.enter(Phase::ProbingRange),
        }
    }

    fn continue_after_open(&mut self) -> (a: DownloadAction)
        ensures
            (final(self)@, a@) == after_open(old(self)@),
    {
        if self.check_free_space {
            self.enter(Phase::CheckingSpace)
        } else {
            self.continue_after_space()
        }
    }

    fn continue_slices(&mut self) -> (a: DownloadAction)
        ensures
            (final(self)@, a@) == next_slice(old(self)@),
    {
        if self.chunk_left == 0 {
            self.enter(Phase::StreamCancelCheck)
        } else {
            self.enter(Phase::SliceCancelCheck)
        }
    }

    fn complete_progress(&self) -> (p: Progress)
        ensures
            p == complete_report(self@),
    {
        let l = match self.length {
            Some(l) => l,
            None => self.downloaded,
        };
        Progress { current: l, total: l, net_speed: 0, disk_speed: 0 }
    }

    fn streaming_progress(&self) -> (p: Progress)
        ensures
            p == streaming_report(self@),
    {
        let total = match self.length {
            Some(l) => l,
            None => self.written,
        };
        Progress { current: self.written, total, net_speed: self.net.get_speed(), disk_speed: self.disk.get_speed() }
    }
}

} // verus!

verus! {

impl DownloadSession {
    /// Hands the outcome of the pending request to the machine, at `now`
    /// nanoseconds on the download's clock, and returns the next request.
    /// Where the transition measures the speeds, `smoothing` computes each
    /// new smoothed speed from the previous one, the bytes counted since
    /// the last measurement and the nanoseconds since it.
    pub fn step_at<F: Fn(u64, u64, u128) -> u64>(&mut self, e: DownloadEvent, now: u128, smoothing: &F) -> (a: DownloadAction)
        requires
            smoothing_total(*smoothing),
        ensures
            exists|speeds: (u64, u64)| #![trigger next(old(self)@, e@, now, speeds)]
                speeds_fit(*smoothing, old(self)@, e@, now, speeds) && (final(self)@, a@) == next(old(self)@, e@, now, speeds),
    {
        let ghost old_view = self@;
        let ghost event = e@;
        let ghost mut speeds: (u64, u64) = (0, 0);
        let a = match (self.phase, e) {
            (Phase::Start, DownloadEvent::Begin(exists)) => {
                if exists && self.continue_downloading {
                    self.enter(Phase::OpeningExisting)
                } else {
                    self.enter(Phase::CreatingDir)
                }
            },
            (Phase::OpeningExisting, DownloadEvent::Opened(r)) => match r {
                Ok(()) => self.enter(Phase::ReadingMetadata),
                Err(m) => {
                    self.file_error = Some(m);
                    self.continue_after_open()
                },
            },
            (Phase::ReadingMetadata, DownloadEvent::Metadata(r)) => match r {
                Ok(len) => match self.length {
                    Some(l) => {
                        if len == l {
                            self.end_with(Ok(()))
                        } else if len > l {
                            self.enter(Phase::Trimming(l))
                        } else {
                            self.enter(Phase::Seeking(len))
                        }
                    },
                    None => self.enter(Phase::Seeking(len)),
                },
                Err(m) => {
                    let p = self.path.clone();
                    self.end_with(Err(DownloadingError::OutputFileMetadataError(p, m)))
                },
            },
            (Phase::Trimming(_), DownloadEvent::Trimmed(r)) => match r {
                Ok(()) => self.end_with(Ok(())),
                Err(m) => self.file_failure(m),
            },
            (Phase::Seeking(len), DownloadEvent::Seeked(r)) => match r {
                Ok(()) => {
                    self.downloaded = len;
                    self.continue_after_open()
                },
                Err(m) => self.file_failure(m),
            },
            (Phase::CreatingDir, DownloadEvent::ParentDir(r)) => match r {
                Ok(()) => self.enter(Phase::CreatingFile),
                Err(m) => self.file_failure(m),
            },
            (Phase::CreatingFile, DownloadEvent::Opened(r)) => match r {
                Ok(()) => self.continue_after_open(),
                Err(m) => {
                    self.file_error = Some(m);
                    self.continue_after_open()
                },
            },
            (Phase::CheckingSpace, DownloadEvent::FreeSpace(space)) => match space {
                None => {
                    let p = self.path.clone();
                    self.end_with(Err(DownloadingError::PathNotMounted(p)))
                },
                Some(a) => match self.length {
                    Some(l) => {
                        let required = l.saturating_sub(self.downloaded);
                        if a < required {
                            let p = self.path.clone();
                            self.end_with(Err(DownloadingError::NoSpaceAvailable(p, required, a)))
                        } else {
                            self.continue_after_space()
                        }
                    },
                    None => self.continue_after_space(),
                },
            },
            (Phase::ProbingRange, DownloadEvent::RangeProbe(v)) => {
                let complete = match &v {
                    Some(b) => range_reports_complete(Some(b.as_slice())),
                    None => range_reports_complete(None),
                };
                if complete {
                    let r = self.complete_progress();
                    self.deliver(Phase::ReportingComplete, r)
                } else {
                    self.enter(Phase::CheckingLimit)
                }
            },
            (Phase::CheckingLimit, DownloadEvent::RateLimit(active)) => {
                if active {
                    self.enter(Phase::SlotCancelCheck)
                } else {
                    self.enter(Phase::Requesting)
                }
            },
            (Phase::SlotCancelCheck, DownloadEvent::CancelState(c)) => {
                if c {
                    self.end_with(Err(DownloadingError::Cancelled))
                } else {
                    self.enter(Phase::AcquiringSlot)
                }
            },
            (Phase::AcquiringSlot, DownloadEvent::SlotAcquired(got)) => {
                if got {
                    self.enter(Phase::Requesting)
                } else {
                    self.enter(Phase::SlotCancelCheck)
                }
            },
            (Phase::Requesting, DownloadEvent::Response(r)) => match r {
                Err(m) => self.end_with(Err(DownloadingError::Reqwest(m))),
                Ok(status) => {
                    if status == RANGE_NOT_SATISFIABLE {
                        let r = self.complete_progress();
                        self.deliver(Phase::ReportingComplete, r)
                    } else {
                        self.net = SpeedTracker::starting_at(self.origin, now);
                        self.disk = SpeedTracker::starting_at(self.origin, now);
                        self.last_report_ns = now;
                        self.written = self.downloaded;
                        self.enter(Phase::StreamCancelCheck)
                    }
                },
            },
            (Phase::StreamCancelCheck, DownloadEvent::CancelState(c)) => {
                if c {
                    self.end_with(Err(DownloadingError::Cancelled))
                } else {
                    self.enter(Phase::AwaitingChunk)
                }
            },
            (Phase::AwaitingChunk, DownloadEvent::Chunk(c)) => match c {
                ChunkEvent::Data(n) => {
                    self.chunk_left = n;
                    self.chunk_offset = 0;
                    self.continue_slices()
                },
                ChunkEvent::End => {
                    let n = self.net.update_at(now, smoothing);
                    let d = self.disk.update_at(now, smoothing);
                    proof {
                        speeds = (n, d);
                    }
                    let r = self.streaming_progress();
                    self.deliver(Phase::FinalReporting, r)
                },
                ChunkEvent::TimedOut => self.enter(Phase::StreamCancelCheck),
                ChunkEvent::Failed(m) => self.end_with(Err(DownloadingError::Reqwest(m))),
            },
            (Phase::SliceCancelCheck, DownloadEvent::CancelState(c)) => {
                if c {
                    self.end_with(Err(DownloadingError::Cancelled))
                } else {
                    self.slice = if self.chunk_left <= SLICE_SIZE { self.chunk_left } else { SLICE_SIZE };
                    self.enter(Phase::Consuming)
                }
            },
            (Phase::Consuming, DownloadEvent::TokensGranted(ok)) => {
                if ok {
                    self.net.add_bytes(self.slice);
                    self.enter(Phase::Writing)
                } else {
                    self.end_with(Err(DownloadingError::Cancelled))
                }
            },
            (Phase::Writing, DownloadEvent::Written(r)) => match r {
                Err(m) => self.file_failure(m),
                Ok(()) => {
                    let last = self.last_report_ns;
                    self.written = self.written.wrapping_add(self.slice);
                    self.disk.add_bytes(self.slice);
                    self.chunk_left = self.chunk_left.saturating_sub(self.slice);
                    self.chunk_offset = self.chunk_offset.saturating_add(self.slice);
                    let since: u128 = if now >= last { now - last } else { 0 };
                    if since >= REPORT_INTERVAL_NS {
                        let n = self.net.update_at(now, smoothing);
                        let d = self.disk.update_at(now, smoothing);
                        proof {
                            speeds = (n, d);
                        }
                        self.last_report_ns = now;
                        let r = self.streaming_progress();
                        self.deliver(Phase::Reporting, r)
                    } else {
                        self.continue_slices()
                    }
                },
            },
            (Phase::Reporting, DownloadEvent::Ack) => self.continue_slices(),
            (Phase::ReportingComplete, DownloadEvent::Ack) => self.end_with(Ok(())),
            (Phase::FinalReporting, DownloadEvent::Ack) => self.enter(Phase::Flushing),
            (Phase::Flushing, DownloadEvent::Flushed(r)) => match r {
                Ok(()) => self.end_with(Ok(())),
                Err(m) => self.file_failure(m),
            },
            _ => self.pending_action(),
        };
        assert(speeds_fit(*smoothing, old_view, event, now, speeds) && (self@, a@) == next(old_view, event, now, speeds));
        a
    }

    /// Hands the outcome of the pending request to the machine, as of the
    /// current time, and returns the next request. The clock reading is not
    /// known; whatever it was, the machine moved by one transition.
    pub fn step<F: Fn(u64, u64, u128) -> u64>(&mut self, e: DownloadEvent, smoothing: &F) -> (a: DownloadAction)
        requires
            smoothing_total(*smoothing),
        ensures
            exists|now: u128, speeds: (u64, u64)| #![trigger next(old(self)@, e@, now, speeds)]
                speeds_fit(*smoothing, old(self)@, e@, now, speeds) && (final(self)@, a@) == next(old(self)@, e@, now, speeds),
    {
        let now = nanos_since(&self.origin);
        self.step_at(e, now, smoothing)
    }
}

} // verus!
