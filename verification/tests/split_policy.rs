use media_splitter::split_policy::{Segment, SplitPolicy};

#[test]
pub fn empty_parameters() {
    let media_duration: u64 = 100;
    let split_policy = SplitPolicy::default();

    let segments = split_policy.split(media_duration, 0, None);

    assert_eq!(1, segments.len());
    assert_eq!(segments, vec![Segment { start: 0, end: 100 }]);
}

#[test]
pub fn segments() {
    let media_duration: u64 = 100;
    let split_policy = SplitPolicy {
        number_of_segments: 3,
        min_segment_duration: None,
    };

    let segments = split_policy.split(media_duration, 0, None);

    assert_eq!(3, segments.len());
    assert_eq!(
        segments,
        vec![
            Segment { start: 0, end: 33 },
            Segment { start: 33, end: 66 },
            Segment {
                start: 66,
                end: 100
            }
        ]
    );
}

#[test]
pub fn number_of_segments_upper_than_duration() {
    let media_duration: u64 = 10;
    let split_policy = SplitPolicy {
        number_of_segments: 100,
        min_segment_duration: None,
    };

    let segments = split_policy.split(media_duration, 0, None);

    assert_eq!(10, segments.len());
    assert_eq!(
        segments,
        vec![
            Segment { start: 0, end: 1 },
            Segment { start: 1, end: 2 },
            Segment { start: 2, end: 3 },
            Segment { start: 3, end: 4 },
            Segment { start: 4, end: 5 },
            Segment { start: 5, end: 6 },
            Segment { start: 6, end: 7 },
            Segment { start: 7, end: 8 },
            Segment { start: 8, end: 9 },
            Segment { start: 9, end: 10 },
        ]
    );

    let media_duration: u64 = 10;
    let split_policy = SplitPolicy {
        number_of_segments: 10,
        min_segment_duration: None,
    };

    let segments = split_policy.split(media_duration, 0, None);

    assert_eq!(10, segments.len());
    assert_eq!(
        segments,
        vec![
            Segment { start: 0, end: 1 },
            Segment { start: 1, end: 2 },
            Segment { start: 2, end: 3 },
            Segment { start: 3, end: 4 },
            Segment { start: 4, end: 5 },
            Segment { start: 5, end: 6 },
            Segment { start: 6, end: 7 },
            Segment { start: 7, end: 8 },
            Segment { start: 8, end: 9 },
            Segment { start: 9, end: 10 },
        ]
    );

    let media_duration: u64 = 11;
    let split_policy = SplitPolicy {
        number_of_segments: 6,
        min_segment_duration: None,
    };

    let segments = split_policy.split(media_duration, 0, None);

    assert_eq!(6, segments.len());
    assert_eq!(
        segments,
        vec![
            Segment { start: 0, end: 1 },
            Segment { start: 1, end: 3 },
            Segment { start: 3, end: 5 },
            Segment { start: 5, end: 7 },
            Segment { start: 7, end: 9 },
            Segment { start: 9, end: 11 },
        ]
    );
}

#[test]
fn min_segment_duration() {
    let media_duration: u64 = 100;
    let split_policy = SplitPolicy {
        number_of_segments: 1,
        min_segment_duration: Some(40),
    };

    let segments = split_policy.split(media_duration, 0, None);

    assert_eq!(1, segments.len());
    assert_eq!(segments, vec![Segment { start: 0, end: 100 }]);
}

#[test]
fn min_segment_duration_with_segments() {
    let media_duration: u64 = 100;
    let split_policy = SplitPolicy {
        number_of_segments: 5,
        min_segment_duration: Some(10),
    };

    let segments = split_policy.split(media_duration, 0, None);

    assert_eq!(5, segments.len());
    assert_eq!(
        segments,
        vec![
            Segment { start: 0, end: 20 },
            Segment { start: 20, end: 40 },
            Segment { start: 40, end: 60 },
            Segment { start: 60, end: 80 },
            Segment {
                start: 80,
                end: 100
            }
        ]
    );
}

#[test]
fn overlap() {
    let media_duration: u64 = 100;
    let split_policy = SplitPolicy {
        number_of_segments: 5,
        min_segment_duration: None,
    };

    let segments = split_policy.split(media_duration, 0, Some(5));

    assert_eq!(5, segments.len());
    assert_eq!(
        segments,
        vec![
            Segment { start: 0, end: 20 },
            Segment { start: 15, end: 40 },
            Segment { start: 35, end: 60 },
            Segment { start: 55, end: 80 },
            Segment {
                start: 75,
                end: 100
            }
        ]
    );
}

#[test]
fn offset() {
    let media_duration: u64 = 70;
    let split_policy = SplitPolicy {
        number_of_segments: 3,
        min_segment_duration: None,
    };

    let segments = split_policy.split(media_duration, 30, None);

    assert_eq!(3, segments.len());
    assert_eq!(
        segments,
        vec![
            Segment { start: 30, end: 53 },
            Segment { start: 53, end: 76 },
            Segment {
                start: 76,
                end: 100
            }
        ]
    );
}

#[test]
fn exact_cover_without_overlap() {
    // The segments of any window tile it: first at 0, last at the window's
    // end, and each boundary shared with the next segment.
    let split_policy = SplitPolicy {
        number_of_segments: 7,
        min_segment_duration: None,
    };

    let segments = split_policy.split(97, 0, None);

    assert_eq!(7, segments.len());
    assert_eq!(segments[0].start, 0);
    assert_eq!(segments[segments.len() - 1].end, 97);
    for i in 0..segments.len() {
        assert!(segments[i].start < segments[i].end);
        if i + 1 < segments.len() {
            assert_eq!(segments[i].end, segments[i + 1].start);
        }
    }
}

#[test]
fn split_is_deterministic() {
    let first = SplitPolicy {
        number_of_segments: 9,
        min_segment_duration: Some(3),
    }
    .split(500, 25, Some(4));
    let second = SplitPolicy {
        number_of_segments: 9,
        min_segment_duration: Some(3),
    }
    .split(500, 25, Some(4));

    assert_eq!(first, second);
}

#[test]
fn segment_count_is_min_of_count_and_duration() {
    let segments = SplitPolicy {
        number_of_segments: 12,
        min_segment_duration: None,
    }
    .split(7, 0, None);
    assert_eq!(7, segments.len());

    let segments = SplitPolicy {
        number_of_segments: 3,
        min_segment_duration: None,
    }
    .split(1000, 0, None);
    assert_eq!(3, segments.len());
}

#[test]
fn zero_duration_gives_no_segments() {
    let segments = SplitPolicy {
        number_of_segments: 4,
        min_segment_duration: None,
    }
    .split(0, 0, None);
    assert!(segments.is_empty());
}

#[test]
fn zero_segments_give_no_segments() {
    let segments = SplitPolicy {
        number_of_segments: 0,
        min_segment_duration: None,
    }
    .split(100, 0, None);
    assert!(segments.is_empty());
}

#[test]
fn one_millisecond_per_segment() {
    let segments = SplitPolicy {
        number_of_segments: 5,
        min_segment_duration: None,
    }
    .split(5, 0, None);
    assert_eq!(
        segments,
        vec![
            Segment { start: 0, end: 1 },
            Segment { start: 1, end: 2 },
            Segment { start: 2, end: 3 },
            Segment { start: 3, end: 4 },
            Segment { start: 4, end: 5 },
        ]
    );
}

#[test]
fn overlap_larger_than_segment_clamps_to_window_start() {
    let segments = SplitPolicy {
        number_of_segments: 2,
        min_segment_duration: None,
    }
    .split(10, 0, Some(50));
    assert_eq!(
        segments,
        vec![Segment { start: 0, end: 5 }, Segment { start: 0, end: 10 }]
    );
}

#[test]
fn min_segment_duration_larger_than_window() {
    // A minimum longer than the whole window drives the effective count
    // to zero: nothing is emitted.
    let segments = SplitPolicy {
        number_of_segments: 3,
        min_segment_duration: Some(200),
    }
    .split(100, 0, None);
    assert!(segments.is_empty());
}

#[test]
fn zero_min_segment_duration_is_ignored() {
    let segments = SplitPolicy {
        number_of_segments: 4,
        min_segment_duration: Some(0),
    }
    .split(100, 0, None);
    assert_eq!(4, segments.len());
}
