//! Download bookkeeping for a game launcher: speed tracking, bandwidth
//! limiting, resumable HTTP downloads driven as a state machine, and the
//! choice of the disk that holds a path.

pub mod clock;
pub mod speed;
pub mod limiter;
pub mod error;
pub mod header;
pub mod free_space;
pub mod session;
pub mod downloader;
pub mod compat;
