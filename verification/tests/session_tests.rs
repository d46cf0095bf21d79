use fischl::error::DownloadingError;
use fischl::session::{ChunkEvent, DownloadAction, DownloadEvent, DownloadSession, Phase, Progress};
use std::time::Instant;

/// The launcher's smoothing step: the sample in bytes per second, taken as
/// it is at first and blended in with weight 1/4 afterwards.
fn smooth(prev: u64, diff: u64, elapsed_ns: u128) -> u64 {
    let secs = u64::try_from(elapsed_ns / 1_000_000_000).unwrap_or(u64::MAX);
    let nanos = u32::try_from(elapsed_ns % 1_000_000_000).unwrap_or(0);
    let elapsed_secs = std::time::Duration::new(secs, nanos).as_secs_f64();
    let instant_speed = if elapsed_secs > 0.0 { (diff as f64 / elapsed_secs) as u64 } else { 0 };
    if prev == 0 {
        instant_speed
    } else {
        ((0.25 * instant_speed as f64) + (0.75 * prev as f64)) as u64
    }
}

fn session(length: Option<u64>, cont: bool, check: bool) -> DownloadSession {
    DownloadSession::starting(Instant::now(), "/games/out.zip".to_string(), length, cont, check)
}

fn path() -> String {
    "/games/out.zip".to_string()
}

fn finish_of(a: DownloadAction) -> Result<(), DownloadingError> {
    match a {
        DownloadAction::Finish(r) => r,
        _ => panic!("not finished"),
    }
}

/// Drives a fresh file to the point where the body is streamed.
fn to_streaming(s: &mut DownloadSession) {
    assert!(matches!(s.step_at(DownloadEvent::Begin(false), 0, &smooth), DownloadAction::CreateParentDir));
    assert!(matches!(s.step_at(DownloadEvent::ParentDir(Ok(())), 0, &smooth), DownloadAction::CreateFile));
    assert!(matches!(s.step_at(DownloadEvent::Opened(Ok(())), 0, &smooth), DownloadAction::ProbeRange(0)));
    assert!(matches!(s.step_at(DownloadEvent::RangeProbe(None), 0, &smooth), DownloadAction::QueryRateLimit));
    assert!(matches!(s.step_at(DownloadEvent::RateLimit(false), 0, &smooth), DownloadAction::SendRequest(0)));
    assert!(matches!(s.step_at(DownloadEvent::Response(Ok(200)), 0, &smooth), DownloadAction::CheckCancel));
}

#[test]
fn fresh_download_streams_in_slices() {
    let mut s = session(None, true, false);
    to_streaming(&mut s);
    assert!(matches!(s.step_at(DownloadEvent::CancelState(false), 1, &smooth), DownloadAction::NextChunk));
    assert!(matches!(s.step_at(DownloadEvent::Chunk(ChunkEvent::Data(10000)), 1, &smooth), DownloadAction::CheckCancel));
    assert!(matches!(s.step_at(DownloadEvent::CancelState(false), 1, &smooth), DownloadAction::ConsumeTokens(8192)));
    assert!(matches!(s.step_at(DownloadEvent::TokensGranted(true), 1, &smooth), DownloadAction::WriteSlice { offset: 0, len: 8192 }));
    assert!(matches!(s.step_at(DownloadEvent::Written(Ok(())), 2, &smooth), DownloadAction::CheckCancel));
    assert!(matches!(s.step_at(DownloadEvent::CancelState(false), 2, &smooth), DownloadAction::ConsumeTokens(1808)));
    assert!(matches!(s.step_at(DownloadEvent::TokensGranted(true), 2, &smooth), DownloadAction::WriteSlice { offset: 8192, len: 1808 }));
    assert!(matches!(s.step_at(DownloadEvent::Written(Ok(())), 3, &smooth), DownloadAction::CheckCancel));
    assert_eq!(s.phase(), Phase::StreamCancelCheck);
    assert!(matches!(s.step_at(DownloadEvent::CancelState(false), 3, &smooth), DownloadAction::NextChunk));
    assert!(matches!(s.step_at(DownloadEvent::Chunk(ChunkEvent::TimedOut), 3, &smooth), DownloadAction::CheckCancel));
    assert!(matches!(s.step_at(DownloadEvent::CancelState(false), 3, &smooth), DownloadAction::NextChunk));
    match s.step_at(DownloadEvent::Chunk(ChunkEvent::End), 1_000_000_000, &smooth) {
        DownloadAction::Report(p) => {
            assert_eq!(p.current, 10000);
            assert_eq!(p.total, 10000);
            assert_eq!(p.net_speed, 10000);
            assert_eq!(p.disk_speed, 10000);
        },
        _ => panic!("expected the final report"),
    }
    assert!(matches!(s.step_at(DownloadEvent::Ack, 1_000_000_000, &smooth), DownloadAction::Flush));
    assert_eq!(finish_of(s.step_at(DownloadEvent::Flushed(Ok(())), 1_000_000_000, &smooth)), Ok(()));
    assert_eq!(s.phase(), Phase::Finished);
    // a finished download stays finished
    assert_eq!(finish_of(s.step_at(DownloadEvent::Ack, 2_000_000_000, &smooth)), Ok(()));
}

#[test]
fn periodic_report_after_500ms() {
    let mut s = session(Some(20000), true, false);
    to_streaming(&mut s);
    s.step_at(DownloadEvent::CancelState(false), 0, &smooth);
    s.step_at(DownloadEvent::Chunk(ChunkEvent::Data(100)), 0, &smooth);
    s.step_at(DownloadEvent::CancelState(false), 0, &smooth);
    assert!(matches!(s.step_at(DownloadEvent::TokensGranted(true), 0, &smooth), DownloadAction::WriteSlice { offset: 0, len: 100 }));
    match s.step_at(DownloadEvent::Written(Ok(())), 500_000_000, &smooth) {
        DownloadAction::Report(p) => assert_eq!(p, Progress { current: 100, total: 20000, net_speed: 200, disk_speed: 200 }),
        _ => panic!("expected a report"),
    }
    assert!(matches!(s.step_at(DownloadEvent::Ack, 500_000_000, &smooth), DownloadAction::CheckCancel));
    assert_eq!(s.phase(), Phase::StreamCancelCheck);
}

#[test]
fn existing_complete_file_is_kept() {
    let mut s = session(Some(100), true, true);
    assert!(matches!(s.step_at(DownloadEvent::Begin(true), 0, &smooth), DownloadAction::OpenExisting));
    assert!(matches!(s.step_at(DownloadEvent::Opened(Ok(())), 0, &smooth), DownloadAction::ReadMetadata));
    assert_eq!(finish_of(s.step_at(DownloadEvent::Metadata(Ok(100)), 0, &smooth)), Ok(()));
}

#[test]
fn overlong_file_is_trimmed() {
    let mut s = session(Some(100), true, true);
    s.step_at(DownloadEvent::Begin(true), 0, &smooth);
    s.step_at(DownloadEvent::Opened(Ok(())), 0, &smooth);
    assert!(matches!(s.step_at(DownloadEvent::Metadata(Ok(150)), 0, &smooth), DownloadAction::Trim(100)));
    assert_eq!(
        finish_of(s.step_at(DownloadEvent::Trimmed(Err("busy".to_string())), 0, &smooth)),
        Err(DownloadingError::OutputFileError(path(), "busy".to_string()))
    );
}

#[test]
fn partial_file_is_continued() {
    let mut s = session(Some(100), true, true);
    s.step_at(DownloadEvent::Begin(true), 0, &smooth);
    s.step_at(DownloadEvent::Opened(Ok(())), 0, &smooth);
    assert!(matches!(s.step_at(DownloadEvent::Metadata(Ok(40)), 0, &smooth), DownloadAction::Seek(40)));
    assert!(matches!(s.step_at(DownloadEvent::Seeked(Ok(())), 0, &smooth), DownloadAction::QueryFreeSpace));
    assert!(matches!(s.step_at(DownloadEvent::FreeSpace(Some(60)), 0, &smooth), DownloadAction::ProbeRange(40)));
    assert!(matches!(s.step_at(DownloadEvent::RangeProbe(Some(b"bytes 40-99/100".to_vec())), 0, &smooth), DownloadAction::QueryRateLimit));
    assert!(matches!(s.step_at(DownloadEvent::RateLimit(false), 0, &smooth), DownloadAction::SendRequest(40)));
}

#[test]
fn existing_file_not_continued_when_disabled() {
    let mut s = session(Some(100), false, false);
    assert!(matches!(s.step_at(DownloadEvent::Begin(true), 0, &smooth), DownloadAction::CreateParentDir));
}

#[test]
fn metadata_failure() {
    let mut s = session(None, true, false);
    s.step_at(DownloadEvent::Begin(true), 0, &smooth);
    s.step_at(DownloadEvent::Opened(Ok(())), 0, &smooth);
    assert_eq!(
        finish_of(s.step_at(DownloadEvent::Metadata(Err("denied".to_string())), 0, &smooth)),
        Err(DownloadingError::OutputFileMetadataError(path(), "denied".to_string()))
    );
}

#[test]
fn no_space_available() {
    let mut s = session(Some(1000), true, true);
    s.step_at(DownloadEvent::Begin(false), 0, &smooth);
    s.step_at(DownloadEvent::ParentDir(Ok(())), 0, &smooth);
    assert!(matches!(s.step_at(DownloadEvent::Opened(Ok(())), 0, &smooth), DownloadAction::QueryFreeSpace));
    assert_eq!(
        finish_of(s.step_at(DownloadEvent::FreeSpace(Some(10)), 0, &smooth)),
        Err(DownloadingError::NoSpaceAvailable(path(), 1000, 10))
    );
}

#[test]
fn path_not_mounted() {
    let mut s = session(Some(1000), true, true);
    s.step_at(DownloadEvent::Begin(false), 0, &smooth);
    s.step_at(DownloadEvent::ParentDir(Ok(())), 0, &smooth);
    s.step_at(DownloadEvent::Opened(Ok(())), 0, &smooth);
    assert_eq!(finish_of(s.step_at(DownloadEvent::FreeSpace(None), 0, &smooth)), Err(DownloadingError::PathNotMounted(path())));
}

#[test]
fn open_failure_reported_after_space_check() {
    let mut s = session(None, true, true);
    s.step_at(DownloadEvent::Begin(true), 0, &smooth);
    assert!(matches!(s.step_at(DownloadEvent::Opened(Err("locked".to_string())), 0, &smooth), DownloadAction::QueryFreeSpace));
    assert_eq!(
        finish_of(s.step_at(DownloadEvent::FreeSpace(Some(5)), 0, &smooth)),
        Err(DownloadingError::OutputFileError(path(), "locked".to_string()))
    );
    let mut t = session(None, true, false);
    t.step_at(DownloadEvent::Begin(false), 0, &smooth);
    assert_eq!(
        finish_of(t.step_at(DownloadEvent::ParentDir(Err("ro".to_string())), 0, &smooth)),
        Err(DownloadingError::OutputFileError(path(), "ro".to_string()))
    );
}

#[test]
fn probe_says_complete() {
    let mut s = session(Some(100), true, false);
    s.step_at(DownloadEvent::Begin(false), 0, &smooth);
    s.step_at(DownloadEvent::ParentDir(Ok(())), 0, &smooth);
    s.step_at(DownloadEvent::Opened(Ok(())), 0, &smooth);
    match s.step_at(DownloadEvent::RangeProbe(Some(b"bytes */100".to_vec())), 0, &smooth) {
        DownloadAction::Report(p) => assert_eq!(p, Progress { current: 100, total: 100, net_speed: 0, disk_speed: 0 }),
        _ => panic!("expected a report"),
    }
    assert_eq!(finish_of(s.step_at(DownloadEvent::Ack, 0, &smooth)), Ok(()));
}

#[test]
fn range_not_satisfiable_means_done() {
    let mut s = session(None, true, false);
    s.step_at(DownloadEvent::Begin(false), 0, &smooth);
    s.step_at(DownloadEvent::ParentDir(Ok(())), 0, &smooth);
    s.step_at(DownloadEvent::Opened(Ok(())), 0, &smooth);
    s.step_at(DownloadEvent::RangeProbe(None), 0, &smooth);
    s.step_at(DownloadEvent::RateLimit(false), 0, &smooth);
    match s.step_at(DownloadEvent::Response(Ok(416)), 0, &smooth) {
        DownloadAction::Report(p) => assert_eq!(p, Progress { current: 0, total: 0, net_speed: 0, disk_speed: 0 }),
        _ => panic!("expected a report"),
    }
    assert_eq!(finish_of(s.step_at(DownloadEvent::Ack, 0, &smooth)), Ok(()));
}

#[test]
fn request_failure() {
    let mut s = session(None, true, false);
    s.step_at(DownloadEvent::Begin(false), 0, &smooth);
    s.step_at(DownloadEvent::ParentDir(Ok(())), 0, &smooth);
    s.step_at(DownloadEvent::Opened(Ok(())), 0, &smooth);
    s.step_at(DownloadEvent::RangeProbe(None), 0, &smooth);
    s.step_at(DownloadEvent::RateLimit(false), 0, &smooth);
    assert_eq!(
        finish_of(s.step_at(DownloadEvent::Response(Err("timeout".to_string())), 0, &smooth)),
        Err(DownloadingError::Reqwest("timeout".to_string()))
    );
}

#[test]
fn slot_wait_and_cancel() {
    let mut s = session(None, true, false);
    s.step_at(DownloadEvent::Begin(false), 0, &smooth);
    s.step_at(DownloadEvent::ParentDir(Ok(())), 0, &smooth);
    s.step_at(DownloadEvent::Opened(Ok(())), 0, &smooth);
    s.step_at(DownloadEvent::RangeProbe(None), 0, &smooth);
    assert!(matches!(s.step_at(DownloadEvent::RateLimit(true), 0, &smooth), DownloadAction::CheckCancel));
    assert!(matches!(s.step_at(DownloadEvent::CancelState(false), 0, &smooth), DownloadAction::AcquireSlot));
    assert!(matches!(s.step_at(DownloadEvent::SlotAcquired(false), 0, &smooth), DownloadAction::CheckCancel));
    assert_eq!(finish_of(s.step_at(DownloadEvent::CancelState(true), 0, &smooth)), Err(DownloadingError::Cancelled));
}

#[test]
fn slot_acquired_sends_request() {
    let mut s = session(None, true, false);
    s.step_at(DownloadEvent::Begin(false), 0, &smooth);
    s.step_at(DownloadEvent::ParentDir(Ok(())), 0, &smooth);
    s.step_at(DownloadEvent::Opened(Ok(())), 0, &smooth);
    s.step_at(DownloadEvent::RangeProbe(None), 0, &smooth);
    s.step_at(DownloadEvent::RateLimit(true), 0, &smooth);
    s.step_at(DownloadEvent::CancelState(false), 0, &smooth);
    assert!(matches!(s.step_at(DownloadEvent::SlotAcquired(true), 0, &smooth), DownloadAction::SendRequest(0)));
}

#[test]
fn stream_errors() {
    let mut s = session(None, true, false);
    to_streaming(&mut s);
    s.step_at(DownloadEvent::CancelState(false), 0, &smooth);
    assert_eq!(
        finish_of(s.step_at(DownloadEvent::Chunk(ChunkEvent::Failed("reset".to_string())), 0, &smooth)),
        Err(DownloadingError::Reqwest("reset".to_string()))
    );
    let mut w = session(None, true, false);
    to_streaming(&mut w);
    w.step_at(DownloadEvent::CancelState(false), 0, &smooth);
    w.step_at(DownloadEvent::Chunk(ChunkEvent::Data(5)), 0, &smooth);
    w.step_at(DownloadEvent::CancelState(false), 0, &smooth);
    w.step_at(DownloadEvent::TokensGranted(true), 0, &smooth);
    assert_eq!(
        finish_of(w.step_at(DownloadEvent::Written(Err("full".to_string())), 0, &smooth)),
        Err(DownloadingError::OutputFileError(path(), "full".to_string()))
    );
}

#[test]
fn limiter_refusal_cancels() {
    let mut s = session(None, true, false);
    to_streaming(&mut s);
    s.step_at(DownloadEvent::CancelState(false), 0, &smooth);
    s.step_at(DownloadEvent::Chunk(ChunkEvent::Data(5)), 0, &smooth);
    s.step_at(DownloadEvent::CancelState(false), 0, &smooth);
    assert_eq!(finish_of(s.step_at(DownloadEvent::TokensGranted(false), 0, &smooth)), Err(DownloadingError::Cancelled));
}

#[test]
fn empty_chunk_goes_back_to_stream() {
    let mut s = session(None, true, false);
    to_streaming(&mut s);
    s.step_at(DownloadEvent::CancelState(false), 0, &smooth);
    assert!(matches!(s.step_at(DownloadEvent::Chunk(ChunkEvent::Data(0)), 0, &smooth), DownloadAction::CheckCancel));
    assert_eq!(s.phase(), Phase::StreamCancelCheck);
}

#[test]
fn unexpected_event_repeats_request() {
    let mut s = session(None, true, false);
    assert!(matches!(s.step_at(DownloadEvent::Ack, 0, &smooth), DownloadAction::CheckPath));
    assert_eq!(s.phase(), Phase::Start);
    s.step_at(DownloadEvent::Begin(false), 0, &smooth);
    assert!(matches!(s.step(DownloadEvent::Flushed(Ok(())), &smooth), DownloadAction::CreateParentDir));
}

#[test]
fn flush_failure() {
    let mut s = session(None, true, false);
    to_streaming(&mut s);
    s.step_at(DownloadEvent::CancelState(false), 0, &smooth);
    s.step_at(DownloadEvent::Chunk(ChunkEvent::End), 0, &smooth);
    s.step_at(DownloadEvent::Ack, 0, &smooth);
    assert_eq!(
        finish_of(s.step_at(DownloadEvent::Flushed(Err("eio".to_string())), 0, &smooth)),
        Err(DownloadingError::OutputFileError(path(), "eio".to_string()))
    );
}
