//! A download of one URI: its settings, its file name, and the start of a
//! `DownloadSession` that performs it.

use vstd::prelude::*;
use std::sync::Arc;
use std::sync::atomic::AtomicBool;
use reqwest_middleware::ClientWithMiddleware;
use crate::clock::instant_now;
use crate::error::{DownloadingError, ErrorView};
use crate::header::{content_length_from_header, content_length_spec};
use crate::session::{DownloadSession, SessionView, initial};

verus! {

#[verifier::external_type_specification]
#[verifier::external_body]
pub struct ExClientWithMiddleware(ClientWithMiddleware);

/// The default chunk size (128 KiB).
pub const DEFAULT_CHUNK_SIZE: usize = 131072;

/// A download of one URI with the HTTP client that performs it.
pub struct AsyncDownloader {
    uri: String,
    length: Option<u64>,
    pub chunk_size: usize,
    pub continue_downloading: bool,
    pub check_free_space: bool,
    client: Arc<ClientWithMiddleware>,
    cancel_token: Option<Arc<AtomicBool>>,
}

/// A separator of path segments in a URI: `/` or `\`.
pub open spec fn is_separator(c: char) -> bool {
    c == '/' || c == '\\'
}

/// The last separator of `s` stands at `i`.
pub open spec fn last_separator_at(s: Seq<char>, i: int) -> bool {
    &&& 0 <= i < s.len()
    &&& is_separator(s[i])
    &&& forall|j: int| i < j < s.len() ==> !is_separator(#[trigger] s[j])
}

/// The file name of a URI: what follows its last separator, where that is
/// not empty; else `index.html`.
pub open spec fn filename_spec(s: Seq<char>) -> Seq<char> {
    if exists|i: int| #[trigger] last_separator_at(s, i) && i + 1 < s.len() {
        let i = choose|i: int| #[trigger] last_separator_at(s, i) && i + 1 < s.len();
        s.subrange(i + 1, s.len() as int)
    } else {
        "index.html"@
    }
}

impl AsyncDownloader {
    /// The URI downloaded.
    pub closed spec fn spec_uri(&self) -> Seq<char> {
        self.uri@
    }

    /// The content length the server announced, if any.
    pub closed spec fn spec_length(&self) -> Option<u64> {
        self.length
    }

    /// The chunk size.
    pub closed spec fn spec_chunk_size(&self) -> usize {
        self.chunk_size
    }

    /// Whether an existing file is continued.
    pub closed spec fn spec_continue(&self) -> bool {
        self.continue_downloading
    }

    /// Whether the free space is checked first.
    pub closed spec fn spec_check_space(&self) -> bool {
        self.check_free_space
    }

    /// The HTTP client.
    pub closed spec fn spec_client(&self) -> Arc<ClientWithMiddleware> {
        self.client
    }

    /// The token that cancels the download, if any.
    pub closed spec fn spec_cancel_token(&self) -> Option<Arc<AtomicBool>> {
        self.cancel_token
    }

    /// A download of `uri` with `client`, given the outcome of the HEAD
    /// request sent to it: the raw `Content-Length` value (none when the
    /// header was missing), or the text of the request's error, which fails
    /// with `ConnectionError`. The content length is read from the header;
    /// chunks of 128 KiB, continuing an existing file and checking the free
    /// space are the defaults, and there is no cancel token.
    pub fn new(client: Arc<ClientWithMiddleware>, uri: String, head: Result<Option<Vec<u8>>, String>) -> (r: Result<AsyncDownloader, DownloadingError>)
        ensures
            match head {
                Err(m) => r matches Err(e) && e@ == ErrorView::ConnectionError(m@),
                Ok(h) => r matches Ok(d) && {
                    &&& d.spec_uri() == uri@
                    &&& d.spec_length() == content_length_spec(match h { Some(v) => Some(v@), None => None })
                    &&& d.spec_chunk_size() == DEFAULT_CHUNK_SIZE
                    &&& d.spec_continue()
                    &&& d.spec_check_space()
                    &&& d.spec_client() == client
                    &&& d.spec_cancel_token() is None
                },
            },
    {
        match head {
            Err(m) => Err(DownloadingError::ConnectionError(m)),
            Ok(h) => {
                let length = match &h {
                    Some(v) => content_length_from_header(Some(v.as_slice())),
                    None => content_length_from_header(None),
                };
                Ok(AsyncDownloader {
                    uri,
                    length,
                    chunk_size: DEFAULT_CHUNK_SIZE,
                    continue_downloading: true,
                    check_free_space: true,
                    client,
                    cancel_token: None,
                })
            },
        }
    }

    /// This download with chunks of `chunk_size` bytes.
    pub fn with_chunk_size(self, chunk_size: usize) -> (d: AsyncDownloader)
        ensures
            d.spec_uri() == self.spec_uri(),
            d.spec_length() == self.spec_length(),
            d.spec_client() == self.spec_client(),
            d.spec_chunk_size() == chunk_size,
            d.spec_continue() == self.spec_continue(),
            d.spec_check_space() == self.spec_check_space(),
            d.spec_cancel_token() == self.spec_cancel_token(),
    {
        AsyncDownloader { chunk_size, ..self }
    }

    /// This download, continuing an existing file or not.
    pub fn with_continue_downloading(self, continue_downloading: bool) -> (d: AsyncDownloader)
        ensures
            d.spec_uri() == self.spec_uri(),
            d.spec_length() == self.spec_length(),
            d.spec_client() == self.spec_client(),
            d.spec_continue() == continue_downloading,
            d.spec_chunk_size() == self.spec_chunk_size(),
            d.spec_check_space() == self.spec_check_space(),
            d.spec_cancel_token() == self.spec_cancel_token(),
    {
        AsyncDownloader { continue_downloading, ..self }
    }

    /// This download, checking the free space first or not.
    pub fn with_free_space_check(self, check_free_space: bool) -> (d: AsyncDownloader)
        ensures
            d.spec_uri() == self.spec_uri(),
            d.spec_length() == self.spec_length(),
            d.spec_client() == self.spec_client(),
            d.spec_check_space() == check_free_space,
            d.spec_chunk_size() == self.spec_chunk_size(),
            d.spec_continue() == self.spec_continue(),
            d.spec_cancel_token() == self.spec_cancel_token(),
    {
        AsyncDownloader { check_free_space, ..self }
    }

    /// This download, cancelled when `cancel_token` is set.
    pub fn with_cancel_token(self, cancel_token: Option<Arc<AtomicBool>>) -> (d: AsyncDownloader)
        ensures
            d.spec_uri() == self.spec_uri(),
            d.spec_length() == self.spec_length(),
            d.spec_client() == self.spec_client(),
            d.spec_cancel_token() == cancel_token,
            d.spec_chunk_size() == self.spec_chunk_size(),
            d.spec_continue() == self.spec_continue(),
            d.spec_check_space() == self.spec_check_space(),
    {
        AsyncDownloader { cancel_token, ..self }
    }

    /// The content length the server announced, if any.
    pub fn length(&self) -> (l: Option<u64>)
        ensures
            l == self.spec_length(),
    {
        self.length
    }

    /// The URI downloaded.
    pub fn uri(&self) -> (u: &str)
        ensures
            u@ == self.spec_uri(),
    {
        self.uri.as_str()
    }

    /// The HTTP client.
    pub fn client(&self) -> (c: &Arc<ClientWithMiddleware>)
        ensures
            *c == self.spec_client(),
    {
        &self.client
    }

    /// The token that cancels the download, if any.
    pub fn cancel_token(&self) -> (t: &Option<Arc<AtomicBool>>)
        ensures
            *t == self.spec_cancel_token(),
    {
        &self.cancel_token
    }

    /// The name of the downloaded file: the last segment of the URI, or
    /// `index.html` when the URI ends with a separator or has none.
    pub fn get_filename(&self) -> (name: &str)
        ensures
            name@ == filename_spec(self.spec_uri()),
    {
        let s = self.uri.as_str();
        let n = s.unicode_len();
        let mut i: usize = n;
        while i > 0
            invariant
                i <= n,
                n == s@.len(),
                s@ == self.uri@,
                forall|j: int| i <= j < n ==> !is_separator(#[trigger] s@[j]),
            decreases i,
        {
            let c = s.get_char(i - 1);
            if c == '/' || c == '\\' {
                let p = i - 1;
                assert(last_separator_at(s@, p as int));
                if p + 1 < n {
                    return s.substring_char(p + 1, n);
                } else {
                    proof {
                        assert forall|k: int| #[trigger] last_separator_at(s@, k) implies k == p by {
                            if k < p {
                                assert(!is_separator(s@[p as int]));
                            }
                            if k > p {
                                assert(!is_separator(s@[k]));
                            }
                        }
                        reveal_strlit("index.html");
                    }
                    return "index.html";
                }
            }
            i = i - 1;
        }
        proof {
            assert forall|k: int| !#[trigger] last_separator_at(s@, k) by {}
            reveal_strlit("index.html");
        }
        "index.html"
    }

    /// Whether the download was asked to stop: its cancel token is set.
    pub fn is_cancelled(&self) -> (c: bool)
        ensures
            self.spec_cancel_token() is None ==> !c,
    {
        match &self.cancel_token {
            Some(t) => t.load(std::sync::atomic::Ordering::Relaxed),
            None => false,
        }
    }

    /// Starts downloading into the file at `path`, with this download's
    /// announced length and settings; the download's clock starts now.
    pub fn session(&self, path: String) -> (s: DownloadSession)
        ensures
            s@ == initial(path@, self.spec_length(), self.spec_continue(), self.spec_check_space()),
    {
        DownloadSession::starting(instant_now(), path, self.length, self.continue_downloading, self.check_free_space)
    }
}

/// The file name is `index.html`, or else a part of the URI that ends it,
/// is not empty and holds no separator.
pub proof fn law_filename_is_last_segment(s: Seq<char>)
    ensures
        ({
            let f = filename_spec(s);
            ||| f == "index.html"@
            ||| {
                &&& 0 < f.len() <= s.len()
                &&& f == s.subrange(s.len() - f.len(), s.len() as int)
                &&& forall|j: int| 0 <= j < f.len() ==> !is_separator(#[trigger] f[j])
            }
        }),
{
    if exists|i: int| #[trigger] last_separator_at(s, i) && i + 1 < s.len() {
        let i = choose|i: int| #[trigger] last_separator_at(s, i) && i + 1 < s.len();
        let f = s.subrange(i + 1, s.len() as int);
        assert forall|j: int| 0 <= j < f.len() implies !is_separator(#[trigger] f[j]) by {
            assert(f[j] == s[i + 1 + j]);
        }
        assert(f =~= s.subrange(s.len() - f.len(), s.len() as int));
    }
}

} // verus!
