use twisty_beziers::track::segment_base;

#[test]
fn segment_base_rejects_negative() {
    assert_eq!(segment_base(-1, 5), None);
    assert_eq!(segment_base(i64::MIN, 5), None);
}

#[test]
fn segment_base_selects_adjacent_pairs() {
    assert_eq!(segment_base(0, 5), Some(0));
    assert_eq!(segment_base(3, 5), Some(3));
}

#[test]
fn segment_base_rejects_past_the_end() {
    // the last control point starts no segment
    assert_eq!(segment_base(4, 5), None);
    assert_eq!(segment_base(i64::MAX, 5), None);
}

#[test]
fn segment_base_needs_two_controls() {
    assert_eq!(segment_base(0, 0), None);
    assert_eq!(segment_base(0, 1), None);
    assert_eq!(segment_base(0, 2), Some(0));
}
