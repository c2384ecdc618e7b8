//! Window computation: turn a raw media duration and a parameter set into
//! the final segment list.
//!
//! The optional `duration` selects how much of the timeline to process and
//! `max_duration` caps it; neither can push the window past the media's
//! end. The anchor position decides whether that window sits at the start
//! or at the end of the timeline, and the split policy then partitions it.

use vstd::prelude::*;
use vstd::math::min;

use crate::MediaSplitterParameters;
use crate::duration::DurationPosition;
use crate::duration::lemma_millis_fits_monotonic;
use crate::duration::lemma_to_millis_nonneg;
use crate::split_policy::Segment;
use crate::split_policy::SplitPolicy;
use crate::split_policy::min_duration_millis;
use crate::split_policy::seg_views;
use crate::split_policy::split_segments;

verus! {

/// The length of the selection window, in milliseconds: the requested
/// duration (or the whole media when none is given), clamped to the media
/// duration and then capped by `max_duration`. `max_duration` can only
/// shrink the window, never grow it.
pub open spec fn window_millis(parameters: MediaSplitterParameters, media_duration: int) -> int {
    let selected = match parameters.duration {
        Some(d) => min(d.to_millis_spec(media_duration), media_duration),
        None => media_duration,
    };
    match parameters.max_duration {
        Some(d) => min(d.to_millis_spec(media_duration), selected),
        None => selected,
    }
}

/// Where the selection window begins on the timeline: at 0 when anchored
/// at the start, and flush against the media's end otherwise, so that the
/// window never runs past the end of the timeline.
pub open spec fn window_start(parameters: MediaSplitterParameters, media_duration: int) -> int {
    match parameters.duration_position {
        DurationPosition::Start => 0,
        DurationPosition::End => media_duration - window_millis(parameters, media_duration),
    }
}

/// The overlap between consecutive segments, in milliseconds; absent means
/// none. A percent overlap is relative to the full media duration.
pub open spec fn overlap_millis(parameters: MediaSplitterParameters, media_duration: int) -> int {
    match parameters.overlap {
        Some(o) => o.to_millis_spec(media_duration),
        None => 0,
    }
}

/// The minimum segment duration in milliseconds, if one is set. A percent
/// minimum is relative to the window, not to the full media duration.
pub open spec fn min_segment_millis(
    parameters: MediaSplitterParameters,
    media_duration: int,
) -> Option<int> {
    match parameters.min_segment_duration {
        Some(d) => Some(d.to_millis_spec(window_millis(parameters, media_duration))),
        None => None,
    }
}

/// The segment list the whole computation produces: the split of the
/// selection window, shifted to where the window sits on the timeline.
pub open spec fn generate_segments_spec(
    parameters: MediaSplitterParameters,
    media_duration: int,
) -> Seq<(int, int)> {
    split_segments(
        parameters.number_of_segments as int,
        min_segment_millis(parameters, media_duration),
        window_millis(parameters, media_duration),
        window_start(parameters, media_duration),
        overlap_millis(parameters, media_duration),
    )
}

/// Whether every duration value among the parameters resolves against
/// `media_duration` without leaving `u64` range.
pub open spec fn parameters_resolvable(
    parameters: MediaSplitterParameters,
    media_duration: int,
) -> bool {
    &&& match parameters.duration {
        Some(d) => d.millis_fits(media_duration),
        None => true,
    }
    &&& match parameters.max_duration {
        Some(d) => d.millis_fits(media_duration),
        None => true,
    }
    &&& match parameters.overlap {
        Some(o) => o.millis_fits(media_duration),
        None => true,
    }
    &&& match parameters.min_segment_duration {
        Some(d) => d.millis_fits(media_duration),
        None => true,
    }
}

/// The selection window always fits the timeline: it is no longer than
/// the media, it starts at a valid offset, and where it starts plus its
/// length never runs past the media's end.
pub proof fn lemma_window_within_media(
    parameters: MediaSplitterParameters,
    media_duration: int,
)
    requires
        0 <= media_duration,
    ensures
        0 <= window_millis(parameters, media_duration) <= media_duration,
        0 <= window_start(parameters, media_duration),
        window_start(parameters, media_duration) + window_millis(parameters, media_duration)
            <= media_duration,
{
    match parameters.duration {
        Some(d) => lemma_to_millis_nonneg(d, media_duration),
        None => {},
    }
    match parameters.max_duration {
        Some(d) => lemma_to_millis_nonneg(d, media_duration),
        None => {},
    }
}

/// Resolve the selection window for a media of `media_duration`
/// milliseconds and split it: the ordered segment list for the whole
/// parameter set, with every boundary an absolute offset into the
/// original timeline.
pub fn generate_segments(
    parameters: &MediaSplitterParameters,
    media_duration: u64,
) -> (r: Vec<Segment>)
    requires
        parameters_resolvable(*parameters, media_duration as int),
    ensures
        seg_views(r@) == generate_segments_spec(*parameters, media_duration as int),
{
    let total_duration: u64 = match &parameters.duration {
        Some(duration) => {
            let selected = duration.to_millis(media_duration);
            if selected < media_duration {
                selected
            } else {
                media_duration
            }
        },
        None => media_duration,
    };

    let total_duration: u64 = match &parameters.max_duration {
        Some(max_duration) => {
            let limit = max_duration.to_millis(media_duration);
            if limit < total_duration {
                limit
            } else {
                total_duration
            }
        },
        None => total_duration,
    };

    proof {
        assert(total_duration as int == window_millis(*parameters, media_duration as int));
        match parameters.min_segment_duration {
            Some(d) => lemma_millis_fits_monotonic(
                d,
                media_duration as int,
                total_duration as int,
            ),
            None => {},
        }
    }

    let split_policy = SplitPolicy::new(parameters, total_duration);

    let segment_overlap: Option<u64> = match &parameters.overlap {
        Some(overlap) => Some(overlap.to_millis(media_duration)),
        None => None,
    };

    let start_offset: u64 = match parameters.duration_position {
        DurationPosition::Start => 0,
        DurationPosition::End => media_duration - total_duration,
    };

    let segments = split_policy.split(total_duration, start_offset, segment_overlap);

    proof {
        assert(min_duration_millis(split_policy.min_segment_duration) == min_segment_millis(
            *parameters,
            media_duration as int,
        ));
    }

    segments
}

} // verus!
