//! The split policy: how a window of the timeline, given as a millisecond
//! count, is cut into an ordered list of segments.
//!
//! The policy is a desired segment count together with an optional floor on
//! segment length. Splitting first resolves the effective count (the floor
//! and the window length can both lower it) and then walks the window,
//! giving each segment the floor of an equal share of what remains, so that
//! rounding error falls on earlier segments rather than the last one.
//! Consecutive non-overlapping segments share a boundary value: a segment's
//! `end` equals the next segment's `start`.

use vstd::prelude::*;
use vstd::math::min;

use crate::MediaSplitterParameters;

verus! {

/// One `[start, end]` millisecond range of the timeline, with
/// `start <= end`; both ends are absolute offsets into the original,
/// unwindowed timeline.
#[derive(Clone, Copy, Debug, PartialEq, Eq, Structural)]
pub struct Segment {
    pub start: u64,
    pub end: u64,
}

impl Segment {
    /// A segment from its two boundaries.
    pub fn new(start: u64, end: u64) -> (r: Segment)
        ensures
            r.start == start,
            r.end == end,
    {
        Segment { start, end }
    }
}

/// The mathematical shadow of a segment list: each segment as its
/// `(start, end)` pair of unbounded integers.
pub open spec fn seg_views(segments: Seq<Segment>) -> Seq<(int, int)> {
    segments.map_values(|segment: Segment| (segment.start as int, segment.end as int))
}

/// An optional overlap, defaulted: absent means no overlap.
pub open spec fn overlap_or_zero(overlap: Option<u64>) -> int {
    match overlap {
        Some(o) => o as int,
        None => 0,
    }
}

/// An optional minimum segment duration, widened to mathematical integers.
pub open spec fn min_duration_millis(min_segment_duration: Option<u64>) -> Option<int> {
    match min_segment_duration {
        Some(m) => Some(m as int),
        None => None,
    }
}

/// The number of segments actually emitted for a window of `total`
/// milliseconds: the requested count, lowered so that no segment is shorter
/// than the minimum (when one is set and positive), and lowered again so
/// that no segment is shorter than one millisecond.
///
/// The count can reach zero: when the minimum is longer than the whole
/// window, or the window is empty, or zero segments were requested,
/// nothing is emitted at all. Callers who want at least one segment must
/// guard against a window shorter than one minimum-length segment.
pub open spec fn effective_count(requested: int, min_segment: Option<int>, total: int) -> int {
    let limited = match min_segment {
        Some(m) => if m > 0 && total / m < requested {
            total / m
        } else {
            requested
        },
        None => requested,
    };
    if total < limited {
        total
    } else {
        limited
    }
}

/// The segments emitted by the split loop, from a cursor position.
///
/// `remaining` segments are still owed; the previous segment ended at
/// `next_end` and the next one will begin at `next_start` (both relative to
/// the window). Each step claims one millisecond when exactly one remains
/// per owed segment, and otherwise the floor of an equal share of what
/// remains; the cursor is clamped to the window and the walk stops early
/// once it reaches the window's end. Emitted pairs are shifted by `offset`
/// into the original timeline.
pub open spec fn split_segments_rec(
    total: int,
    remaining: int,
    next_start: int,
    next_end: int,
    overlap: int,
    offset: int,
) -> Seq<(int, int)>
    decreases remaining,
{
    if remaining <= 0 {
        Seq::empty()
    } else {
        let length = if total - next_end == remaining {
            1
        } else {
            (total - next_end) / remaining
        };
        let end = if next_end + length >= total {
            total
        } else {
            next_end + length
        };
        if end == total {
            seq![(next_start + offset, end + offset)]
        } else {
            seq![(next_start + offset, end + offset)] + split_segments_rec(
                total,
                remaining - 1,
                if end - overlap >= 0 {
                    end - overlap
                } else {
                    0
                },
                end,
                overlap,
                offset,
            )
        }
    }
}

/// The whole split: resolve the effective count, then walk the window from
/// its start.
pub open spec fn split_segments(
    requested: int,
    min_segment: Option<int>,
    total: int,
    offset: int,
    overlap: int,
) -> Seq<(int, int)> {
    split_segments_rec(total, effective_count(requested, min_segment, total), 0, 0, overlap, offset)
}

/// A fair share is at least one millisecond and leaves enough behind:
/// dividing `rem` milliseconds among `k` segments gives the first at least
/// 1 and at most `rem`, and when more than one segment is owed, what is
/// left still holds one millisecond per owed segment.
proof fn lemma_fair_share_bounds(rem: int, k: int)
    by (nonlinear_arith)
    requires
        1 <= k <= rem,
    ensures
        1 <= rem / k <= rem,
        k >= 2 ==> rem - rem / k >= k - 1,
        k == 1 ==> rem / k == rem,
{
}

/// How a window is to be split: the number of segments asked for, and an
/// optional floor on segment duration that can lower that number.
#[derive(Debug)]
pub struct SplitPolicy {
    pub number_of_segments: u64,
    pub min_segment_duration: Option<u64>,
}

impl Default for SplitPolicy {
    /// One segment covering the whole window, with no length floor.
    fn default() -> (r: SplitPolicy)
        ensures
            r.number_of_segments == 1,
            r.min_segment_duration is None,
    {
        SplitPolicy { number_of_segments: 1, min_segment_duration: None }
    }
}

impl SplitPolicy {
    /// The segment list [`SplitPolicy::split`] returns, as integer pairs.
    pub open spec fn split_spec(self, total: int, offset: int, overlap: int) -> Seq<(int, int)> {
        split_segments(
            self.number_of_segments as int,
            min_duration_millis(self.min_segment_duration),
            total,
            offset,
            overlap,
        )
    }

    /// Build the policy for one invocation: take the requested count as it
    /// stands and resolve the minimum segment duration, if any, against
    /// `media_duration` milliseconds.
    pub fn new(parameters: &MediaSplitterParameters, media_duration: u64) -> (r: SplitPolicy)
        requires
            match parameters.min_segment_duration {
                Some(d) => d.millis_fits(media_duration as int),
                None => true,
            },
        ensures
            r.number_of_segments == parameters.number_of_segments,
            min_duration_millis(r.min_segment_duration) == match parameters.min_segment_duration {
                Some(d) => Some(d.to_millis_spec(media_duration as int)),
                None => None::<int>,
            },
    {
        let min_segment_duration: Option<u64> = match &parameters.min_segment_duration {
            Some(duration) => Some(duration.to_millis(media_duration)),
            None => None,
        };

        SplitPolicy { number_of_segments: parameters.number_of_segments, min_segment_duration }
    }

    /// Split a window of `media_duration` milliseconds into the ordered
    /// segment list this policy calls for, consuming the policy.
    ///
    /// `start_offset` shifts every emitted boundary into the original
    /// timeline; `segment_overlap` pulls each segment's start that many
    /// milliseconds back into the previous segment, clamped at the
    /// window's start.
    pub fn split(
        self,
        media_duration: u64,
        start_offset: u64,
        segment_overlap: Option<u64>,
    ) -> (r: Vec<Segment>)
        requires
            media_duration + start_offset <= u64::MAX,
        ensures
            seg_views(r@) == self.split_spec(
                media_duration as int,
                start_offset as int,
                overlap_or_zero(segment_overlap),
            ),
    {
        let mut number_of_segments = self.number_of_segments;

        match self.min_segment_duration {
            Some(min_segment_duration) => {
                if min_segment_duration > 0 {
                    let max_number_of_segments = media_duration / min_segment_duration;
                    if max_number_of_segments < number_of_segments {
                        number_of_segments = max_number_of_segments;
                    }
                }
            },
            None => {},
        }

        if media_duration < number_of_segments {
            number_of_segments = media_duration;
        }

        assert(number_of_segments as int == effective_count(
            self.number_of_segments as int,
            min_duration_millis(self.min_segment_duration),
            media_duration as int,
        ));

        let overlap: u64 = match segment_overlap {
            Some(o) => o,
            None => 0,
        };

        let ghost goal = self.split_spec(
            media_duration as int,
            start_offset as int,
            overlap_or_zero(segment_overlap),
        );

        let mut segments: Vec<Segment> = Vec::new();
        let mut next_start: u64 = 0;
        let mut next_end: u64 = 0;
        let mut segment_index: u64 = 0;

        proof {
            assert(seg_views(segments@) =~= Seq::<(int, int)>::empty());
            assert(seg_views(segments@) + split_segments_rec(
                media_duration as int,
                number_of_segments as int,
                0,
                0,
                overlap as int,
                start_offset as int,
            ) =~= goal);
        }

        while segment_index < number_of_segments
            invariant_except_break
                segment_index <= number_of_segments,
                segment_index == 0 || segment_index < number_of_segments,
                next_start <= next_end <= media_duration,
                number_of_segments - segment_index <= media_duration - next_end,
                media_duration + start_offset <= u64::MAX,
                seg_views(segments@) + split_segments_rec(
                    media_duration as int,
                    number_of_segments - segment_index,
                    next_start as int,
                    next_end as int,
                    overlap as int,
                    start_offset as int,
                ) == goal,
                number_of_segments == 0 ==> seg_views(segments@) == goal,
            ensures
                seg_views(segments@) == goal,
            decreases number_of_segments - segment_index,
        {
            let ghost old_views = seg_views(segments@);
            let ghost k = number_of_segments - segment_index;
            let ghost old_end = next_end as int;
            let ghost old_start = next_start as int;

            let remaining_duration = media_duration - next_end;
            let remaining_segments = number_of_segments - segment_index;

            let next_segment_duration: u64 = if remaining_duration == remaining_segments {
                1
            } else {
                remaining_duration / remaining_segments
            };

            proof {
                lemma_fair_share_bounds(remaining_duration as int, remaining_segments as int);
            }

            next_end = next_end + next_segment_duration;
            if next_end >= media_duration {
                next_end = media_duration;
            }

            segments.push(Segment::new(next_start + start_offset, next_end + start_offset));

            proof {
                let pushed = ((next_start + start_offset) as int, (next_end + start_offset) as int);
                assert(seg_views(segments@) =~= old_views.push(pushed));
                assert(old_views.push(pushed) =~= old_views + seq![pushed]);
                let tail = split_segments_rec(
                    media_duration as int,
                    k - 1,
                    if next_end - overlap >= 0 {
                        next_end - overlap
                    } else {
                        0
                    },
                    next_end as int,
                    overlap as int,
                    start_offset as int,
                );
                if next_end < media_duration {
                    assert(split_segments_rec(
                        media_duration as int,
                        k,
                        old_start,
                        old_end,
                        overlap as int,
                        start_offset as int,
                    ) == seq![pushed] + tail);
                    assert((old_views + seq![pushed]) + tail =~= old_views + (seq![pushed] + tail));
                } else {
                    assert(split_segments_rec(
                        media_duration as int,
                        k,
                        old_start,
                        old_end,
                        overlap as int,
                        start_offset as int,
                    ) == seq![pushed]);
                }
            }

            if next_end >= media_duration {
                proof {
                    assert(seg_views(segments@) == goal);
                }
                break;
            }

            next_start = if next_end < overlap {
                0
            } else {
                next_end - overlap
            };
            segment_index = segment_index + 1;
        }

        segments
    }
}

/// The split loop emits one segment per owed count: from any cursor with
/// at least one millisecond left per owed segment, exactly `remaining`
/// segments come out.
proof fn lemma_split_rec_len(
    total: int,
    remaining: int,
    next_start: int,
    next_end: int,
    overlap: int,
    offset: int,
)
    requires
        0 <= remaining,
        0 <= next_end,
        remaining <= total - next_end,
    ensures
        split_segments_rec(total, remaining, next_start, next_end, overlap, offset).len()
            == remaining,
    decreases remaining,
{
    if remaining > 0 {
        let rem = total - next_end;
        lemma_fair_share_bounds(rem, remaining);
        let length = if rem == remaining {
            1
        } else {
            rem / remaining
        };
        let end = if next_end + length >= total {
            total
        } else {
            next_end + length
        };
        if end < total {
            lemma_split_rec_len(
                total,
                remaining - 1,
                if end - overlap >= 0 {
                    end - overlap
                } else {
                    0
                },
                end,
                overlap,
                offset,
            );
        }
    }
}

/// With no overlap, the split loop chains its segments: starting the walk
/// where the previous segment ended, each emitted segment begins exactly
/// where its predecessor ended, the first begins at the cursor, the last
/// ends at the window's end, and every segment is at least one millisecond
/// long.
proof fn lemma_split_rec_chain(total: int, remaining: int, next_end: int, offset: int)
    requires
        1 <= remaining,
        0 <= next_end,
        remaining <= total - next_end,
    ensures
        ({
            let s = split_segments_rec(total, remaining, next_end, next_end, 0, offset);
            &&& s.len() == remaining
            &&& s[0].0 == next_end + offset
            &&& s[remaining - 1].1 == total + offset
            &&& forall|i: int| 0 <= i < remaining ==> s[i].0 < s[i].1
            &&& forall|i: int| 0 <= i < remaining - 1 ==> s[i].1 == s[i + 1].0
        }),
    decreases remaining,
{
    let s = split_segments_rec(total, remaining, next_end, next_end, 0, offset);
    lemma_split_rec_len(total, remaining, next_end, next_end, 0, offset);
    let rem = total - next_end;
    lemma_fair_share_bounds(rem, remaining);
    let length = if rem == remaining {
        1
    } else {
        rem / remaining
    };
    let end = if next_end + length >= total {
        total
    } else {
        next_end + length
    };
    if end < total {
        let t = split_segments_rec(total, remaining - 1, end, end, 0, offset);
        lemma_split_rec_chain(total, remaining - 1, end, offset);
        assert(s == seq![(next_end + offset, end + offset)] + t);
        assert forall|i: int| 0 <= i < remaining implies s[i].0 < s[i].1 by {
            if i >= 1 {
                assert(s[i] == t[i - 1]);
            }
        }
        assert forall|i: int| 0 <= i < remaining - 1 implies s[i].1 == s[i + 1].0 by {
            if i >= 1 {
                assert(s[i] == t[i - 1]);
            }
            assert(s[i + 1] == t[i]);
        }
        assert(s[remaining - 1] == t[remaining - 2]);
    }
}

/// Segment count invariant: with no minimum-duration constraint and at
/// least one segment requested, the split of a window of `total`
/// milliseconds emits exactly `min(requested, total)` segments: the
/// requested count, capped only by the rule that a segment is at least one
/// millisecond long.
pub proof fn lemma_split_segment_count(requested: int, total: int, offset: int, overlap: int)
    requires
        1 <= requested,
        0 <= total,
    ensures
        split_segments(requested, None, total, offset, overlap).len() == min(requested, total),
{
    lemma_split_rec_len(total, min(requested, total), 0, 0, overlap, offset);
}

/// Exact cover: with no overlap and no minimum-duration constraint, the
/// segments of a window of `total > 0` milliseconds cover `[0, total]`
/// with no gap and no overlap beyond the shared-boundary convention: the
/// first segment starts at 0, the last ends at `total`, each segment ends
/// where the next begins, and every segment is at least one millisecond
/// long.
pub proof fn lemma_split_exact_cover(requested: int, total: int)
    requires
        1 <= requested,
        1 <= total,
    ensures
        ({
            let s = split_segments(requested, None, total, 0, 0);
            &&& s.len() == min(requested, total)
            &&& s[0].0 == 0
            &&& s[s.len() - 1].1 == total
            &&& forall|i: int| 0 <= i < s.len() ==> s[i].0 < s[i].1
            &&& forall|i: int| 0 <= i < s.len() - 1 ==> s[i].1 == s[i + 1].0
        }),
{
    lemma_split_rec_chain(total, min(requested, total), 0, 0);
}

/// Idempotence: splitting is a pure function of its inputs. Every run of
/// [`SplitPolicy::split`] ties its result to [`split_segments`] on the
/// same inputs, so two result lists obtained from identical inputs are
/// identical.
pub proof fn lemma_split_deterministic(
    requested: int,
    min_segment: Option<int>,
    total: int,
    offset: int,
    overlap: int,
    first: Seq<(int, int)>,
    second: Seq<(int, int)>,
)
    requires
        first == split_segments(requested, min_segment, total, offset, overlap),
        second == split_segments(requested, min_segment, total, offset, overlap),
    ensures
        first == second,
{
}

} // verus!
