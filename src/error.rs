//! The ways a download job can fail.
use vstd::prelude::*;

verus! {

/// A fatal failure of one download job.
#[derive(Debug, Clone, Copy, PartialEq, Eq, Structural)]
pub enum PipelineError {
    /// The resolver or the playlist fetch failed.
    Resolution,
    /// The playlist is too short, or a URL lacks the playlist extension.
    ManifestFormat,
    /// A segment could not be fetched within the attempt budget.
    SegmentFetch,
    /// Reading a segment or writing the concatenated stream failed.
    Reassembly,
    /// The transcoding command failed or could not be started.
    Transcode,
}

} // verus!
