use fischl::downloader::{AsyncDownloader, DEFAULT_CHUNK_SIZE};
use fischl::error::DownloadingError;
use fischl::session::{DownloadAction, Phase};
use std::sync::atomic::{AtomicBool, Ordering};
use std::sync::Arc;

fn client() -> Arc<reqwest_middleware::ClientWithMiddleware> {
    Arc::new(reqwest_middleware::ClientBuilder::new(reqwest::Client::new()).build())
}

fn downloader(uri: &str) -> AsyncDownloader {
    AsyncDownloader::new(client(), uri.to_string(), Ok(Some(b"1024".to_vec()))).unwrap()
}

#[test]
fn new_reads_content_length() {
    let d = downloader("https://example.com/a.zip");
    assert_eq!(d.length(), Some(1024));
    assert_eq!(d.chunk_size, DEFAULT_CHUNK_SIZE);
    assert!(d.continue_downloading);
    assert!(d.check_free_space);
    assert!(d.cancel_token().is_none());
    assert_eq!(d.uri(), "https://example.com/a.zip");
    let none = AsyncDownloader::new(client(), "u".to_string(), Ok(None)).unwrap();
    assert_eq!(none.length(), None);
    let bad = AsyncDownloader::new(client(), "u".to_string(), Ok(Some(b"12x".to_vec()))).unwrap();
    assert_eq!(bad.length(), None);
}

#[test]
fn new_fails_without_connection() {
    let r = AsyncDownloader::new(client(), "u".to_string(), Err("refused".to_string()));
    assert_eq!(r.err(), Some(DownloadingError::ConnectionError("refused".to_string())));
}

#[test]
fn builders_set_one_setting_each() {
    let token = Arc::new(AtomicBool::new(false));
    let d = downloader("https://example.com/a.zip")
        .with_chunk_size(4096)
        .with_continue_downloading(false)
        .with_free_space_check(false)
        .with_cancel_token(Some(token.clone()));
    assert_eq!(d.chunk_size, 4096);
    assert!(!d.continue_downloading);
    assert!(!d.check_free_space);
    assert_eq!(d.length(), Some(1024));
    assert!(!d.is_cancelled());
    token.store(true, Ordering::Relaxed);
    assert!(d.is_cancelled());
    assert!(!downloader("x").is_cancelled());
}

#[test]
fn filenames() {
    assert_eq!(downloader("https://host/path/file.zip").get_filename(), "file.zip");
    assert_eq!(downloader("https://host/dir/").get_filename(), "index.html");
    assert_eq!(downloader("C:\\dir\\file.exe").get_filename(), "file.exe");
    assert_eq!(downloader("noseparator").get_filename(), "index.html");
    assert_eq!(downloader("a\\b/c").get_filename(), "c");
    assert_eq!(downloader("https://host/dir/ünïcode.bin").get_filename(), "ünïcode.bin");
    assert_eq!(downloader("").get_filename(), "index.html");
}

#[test]
fn session_starts_with_path_check() {
    let d = downloader("https://host/f");
    let s = d.session("/tmp/f".to_string());
    assert_eq!(s.phase(), Phase::Start);
    assert!(matches!(s.pending_action(), DownloadAction::CheckPath));
}
