//! Segment acquisition and reassembly for HLS playlists: the playlist rules,
//! the naming of segment URLs and scratch files, the retry policy of the
//! segment fetcher and the ordered concatenation of the downloaded segments.
pub mod download;
pub mod error;
pub mod fetch;
pub mod job;
pub mod naming;
pub mod playlist;
pub mod reassemble;
pub mod text;
