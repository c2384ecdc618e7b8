//! Partitioning of a media timeline (in milliseconds) into an ordered list of
//! segments, driven by a small declarative policy: desired segment count, an
//! optional minimum segment length, an optional selection window with its
//! anchor position, and an optional overlap between consecutive segments.
//!
//! The caller supplies the total media duration and the parameters; the
//! library resolves the selection window, splits it, and returns the segment
//! list. All of it is pure integer arithmetic, verified against the
//! specification functions in each module.

use vstd::prelude::*;

pub mod duration;
pub mod split_policy;
pub mod window;

use crate::duration::Duration;
use crate::duration::DurationPosition;

verus! {

/// Name of the output entry the caller files the segment list under, when
/// the parameters do not choose one.
pub fn default_output_parameter_name() -> (r: String)
    ensures
        r@ == "segments"@,
{
    "segments".to_owned()
}

/// Number of segments asked for when the parameters leave it out.
pub fn default_segments() -> (r: u64)
    ensures
        r == 1,
{
    1
}

/// The full parameter set for one splitting job: where the media lives,
/// where the result goes, how many segments to cut, and the optional
/// window, minimum-length and overlap constraints.
///
/// `entry_point` is carried but reserved: no part of the window or split
/// computation reads it.
#[derive(Clone, Debug)]
pub struct MediaSplitterParameters {
    pub source_path: String,
    pub output_parameter_name: String,
    /// Number of parts to split into.
    pub number_of_segments: u64,
    /// Floor on the duration of a segment; can lower the effective
    /// segment count below `number_of_segments`.
    pub min_segment_duration: Option<Duration>,
    /// Reserved: process only the part beginning after this entry point.
    pub entry_point: Option<Duration>,
    /// Duration of the content to process (the selection window).
    pub duration: Option<Duration>,
    /// Cap on `duration`; it can only shrink the window, never grow it.
    pub max_duration: Option<Duration>,
    /// Whether the window is reckoned from the start or the end of the
    /// media.
    pub duration_position: DurationPosition,
    /// Milliseconds by which each segment reaches back into the previous
    /// one, so that some content is processed twice.
    pub overlap: Option<Duration>,
}

impl Default for MediaSplitterParameters {
    /// Empty paths, no segments asked for, no constraints, window
    /// reckoned from the start.
    fn default() -> (r: MediaSplitterParameters)
        ensures
            r.source_path@ == Seq::<char>::empty(),
            r.output_parameter_name@ == Seq::<char>::empty(),
            r.number_of_segments == 0,
            r.min_segment_duration is None,
            r.entry_point is None,
            r.duration is None,
            r.max_duration is None,
            r.duration_position == DurationPosition::Start,
            r.overlap is None,
    {
        MediaSplitterParameters {
            source_path: String::new(),
            output_parameter_name: String::new(),
            number_of_segments: 0,
            min_segment_duration: None,
            entry_point: None,
            duration: None,
            max_duration: None,
            duration_position: DurationPosition::default(),
            overlap: None,
        }
    }
}

} // verus!
