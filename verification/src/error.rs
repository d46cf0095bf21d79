//! The errors a download ends with.

use vstd::prelude::*;

verus! {

/// Why a download failed. Paths are carried as text.
#[derive(Debug, PartialEq, Eq)]
pub enum DownloadingError {
    /// No mounted disk holds the path.
    PathNotMounted(String),
    /// The disk lacks room: the path, the bytes required, the bytes available.
    NoSpaceAvailable(String, u64, u64),
    /// The output file could not be created, written, trimmed or flushed.
    OutputFileError(String, String),
    /// The output file's metadata could not be read.
    OutputFileMetadataError(String, String),
    /// A request or the response stream failed.
    Reqwest(String),
    /// The server could not be reached.
    ConnectionError(String),
    /// The download was cancelled.
    Cancelled,
}

/// A `DownloadingError` with its texts as character sequences.
pub enum ErrorView {
    PathNotMounted(Seq<char>),
    NoSpaceAvailable(Seq<char>, u64, u64),
    OutputFileError(Seq<char>, Seq<char>),
    OutputFileMetadataError(Seq<char>, Seq<char>),
    Reqwest(Seq<char>),
    ConnectionError(Seq<char>),
    Cancelled,
}

impl View for DownloadingError {
    type V = ErrorView;

    open spec fn view(&self) -> ErrorView {
        match self {
            DownloadingError::PathNotMounted(p) => ErrorView::PathNotMounted(p@),
            DownloadingError::NoSpaceAvailable(p, r, a) => ErrorView::NoSpaceAvailable(p@, *r, *a),
            DownloadingError::OutputFileError(p, m) => ErrorView::OutputFileError(p@, m@),
            DownloadingError::OutputFileMetadataError(p, m) => ErrorView::OutputFileMetadataError(p@, m@),
            DownloadingError::Reqwest(m) => ErrorView::Reqwest(m@),
            DownloadingError::ConnectionError(m) => ErrorView::ConnectionError(m@),
            DownloadingError::Cancelled => ErrorView::Cancelled,
        }
    }
}

} // verus!

verus! {

impl DownloadingError {
    /// A copy of this error.
    pub fn duplicate(&self) -> (e: DownloadingError)
        ensures
            e@ == self@,
    {
        match self {
            DownloadingError::PathNotMounted(p) => DownloadingError::PathNotMounted(p.clone()),
            DownloadingError::NoSpaceAvailable(p, r, a) => DownloadingError::NoSpaceAvailable(p.clone(), *r, *a),
            DownloadingError::OutputFileError(p, m) => DownloadingError::OutputFileError(p.clone(), m.clone()),
            DownloadingError::OutputFileMetadataError(p, m) => DownloadingError::OutputFileMetadataError(p.clone(), m.clone()),
            DownloadingError::Reqwest(m) => DownloadingError::Reqwest(m.clone()),
            DownloadingError::ConnectionError(m) => DownloadingError::ConnectionError(m.clone()),
            DownloadingError::Cancelled => DownloadingError::Cancelled,
        }
    }
}

} // verus!
