use rain::math::{grow_size, half, icbrt, shrink_size, SIZE_LIMIT};
use rain::spatial::SpatialIndex;

fn cube(x: i128) -> i128 {
    x * x * x
}

#[test]
fn icbrt_exact_values() {
    assert_eq!(icbrt(0), 0);
    assert_eq!(icbrt(1), 1);
    assert_eq!(icbrt(7), 1);
    assert_eq!(icbrt(8), 2);
    assert_eq!(icbrt(26), 2);
    assert_eq!(icbrt(27), 3);
    assert_eq!(icbrt(1_000_000_000_000_000_000_000_000_000 - 1), 999_999_999);
}

#[test]
fn half_floors() {
    assert_eq!(half(0), 0);
    assert_eq!(half(5), 2);
    assert_eq!(half(4000), 2000);
}

#[test]
fn merge_of_two_equal_droplets() {
    // two droplets of size 4.0 merge to cbrt(2 * 2.0^3) * 2, about 5.04
    assert_eq!(grow_size(4000, 4000), 5038);
}

#[test]
fn merge_conserves_volume_within_quantization() {
    let cases = [(4000i64, 4000i64), (5000, 3000), (999, 1), (123_456, 654_321)];
    for (w, l) in cases {
        let r = grow_size(w, l);
        let sum = cube((w / 2) as i128) + cube((l / 2) as i128);
        assert!(cube((r / 2) as i128) <= sum);
        assert!(sum < cube((r / 2 + 1) as i128));
    }
}

#[test]
fn merge_saturates_at_the_size_limit() {
    assert_eq!(grow_size(SIZE_LIMIT, SIZE_LIMIT), SIZE_LIMIT);
}

#[test]
fn shrink_conserves_volume_within_quantization() {
    assert_eq!(shrink_size(8000, 2000), 7958);
    let cases = [(8000i64, 2000i64), (6000, 1350), (100_000, 27_500)];
    for (p, t) in cases {
        let r = shrink_size(p, t);
        let rem = cube((p / 2) as i128) - cube((t / 2) as i128);
        assert!(cube((r / 2) as i128) <= rem);
        assert!(rem < cube((r / 2 + 1) as i128));
        assert!(r <= p);
    }
}

#[test]
fn shrink_saturates_at_one() {
    assert_eq!(shrink_size(4000, 9000), 1);
    assert_eq!(shrink_size(1, 1), 1);
}

#[test]
fn overlapping_footprints_raise_one_begin_event() {
    let mut index = SpatialIndex::with_capacity(3);
    index.insert(0, 0, 0, 2000);
    index.insert(1, 3000, 0, 2000);
    index.insert(2, 100_000, 0, 2000);
    index.update();
    let events = index.events();
    assert_eq!(events.len(), 1);
    assert_eq!(events[0].a, 0);
    assert_eq!(events[0].b, 1);
    // still overlapping: no new begin event
    index.update();
    assert_eq!(index.events().len(), 0);
}

#[test]
fn touching_counts_as_overlap() {
    let mut index = SpatialIndex::with_capacity(2);
    index.insert(0, 0, 0, 1000);
    index.insert(1, 2000, 0, 1000);
    index.update();
    assert_eq!(index.events().len(), 1);
}

#[test]
fn separating_and_meeting_again_raises_a_new_event() {
    let mut index = SpatialIndex::with_capacity(2);
    index.insert(0, 0, 0, 1000);
    index.insert(1, 1500, 0, 1000);
    index.update();
    assert_eq!(index.events().len(), 1);
    index.set_position(1, 50_000, 0);
    index.update();
    assert_eq!(index.events().len(), 0);
    index.set_position(1, 1500, 0);
    index.update();
    assert_eq!(index.events().len(), 1);
}

#[test]
fn removal_forgets_the_pair() {
    let mut index = SpatialIndex::with_capacity(2);
    index.insert(0, 0, 0, 1000);
    index.insert(1, 1500, 0, 1000);
    index.update();
    assert_eq!(index.events().len(), 1);
    index.remove(1);
    assert!(!index.is_present(1));
    index.update();
    assert_eq!(index.events().len(), 0);
    // a fresh entry at the same key overlaps anew
    index.insert(1, 1500, 0, 1000);
    index.update();
    assert_eq!(index.events().len(), 1);
}

#[test]
fn radius_growth_can_begin_an_overlap() {
    let mut index = SpatialIndex::with_capacity(2);
    index.insert(0, 0, 0, 1000);
    index.insert(1, 5000, 0, 1000);
    index.update();
    assert_eq!(index.events().len(), 0);
    index.set_radius(0, 4000);
    index.update();
    assert_eq!(index.events().len(), 1);
}
