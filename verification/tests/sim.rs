use rain::droplet::{Droplet, Vec2};
use rain::droplets::Droplets;
use rain::math::{grow_size, shrink_size};
use rain::merge::merge;
use rain::motion::gravity_non_linear;
use rain::rain::Rain;
use rain::rng::Rng;
use rain::spatial::SpatialIndex;
use rain::trail::trail;

fn place(
    pool: &mut Droplets,
    index: &mut SpatialIndex,
    x: i64,
    y: i64,
    size: i64,
    vy: i64,
    seed: i32,
) -> usize {
    let i = pool.checkout().expect("pool exhausted");
    let mut d = *pool.get(i);
    d.pos = Vec2 { x, y };
    d.size = size;
    d.speed = Vec2 { x: 0, y: vy };
    d.seed = seed;
    d.skipping = false;
    d.slowing = false;
    d.last_trail_y = None;
    pool.write(i, d);
    index.insert(i, x, y, size / 2);
    i
}

fn cube(x: i128) -> i128 {
    x * x * x
}

#[test]
fn small_droplet_never_moves() {
    // under the gravity threshold the droplet is skipped whole, even
    // with a stale velocity on its slot
    let mut pool = Droplets::with_capacity(1);
    let mut index = SpatialIndex::with_capacity(1);
    let mut rng = Rng::new(7);
    let i = place(&mut pool, &mut index, 1000, 2000, 3000, 1000, 5);
    gravity_non_linear(&mut pool, &mut index, &mut rng, 16);
    index.update();
    trail(&mut pool, &mut index, &mut rng, 16);
    let events = index.events();
    merge(&mut pool, &mut index, &events);
    let d = pool.get(i);
    assert!(!d.deleted);
    assert_eq!(d.pos.x, 1000);
    assert_eq!(d.pos.y, 2000);
    assert_eq!(d.size, 3000);
}

#[test]
fn falling_droplet_above_zero_survives() {
    // at y = 2.0 with size 6.0 and one tick of falling at 1.0 the
    // droplet stays above the cull line and lives on
    let mut pool = Droplets::with_capacity(1);
    let mut index = SpatialIndex::with_capacity(1);
    let mut rng = Rng::new(7);
    let i = place(&mut pool, &mut index, 0, 2000, 6000, 1000, 5);
    gravity_non_linear(&mut pool, &mut index, &mut rng, 0);
    let d = pool.get(i);
    assert!(!d.deleted);
    assert_eq!(d.pos.y, 1000);
    assert!(index.is_present(i));
    // the index footprint followed the droplet
    assert_eq!(index.get(i).y, 1000);
}

#[test]
fn droplet_below_view_is_freed_and_unindexed() {
    let mut pool = Droplets::with_capacity(1);
    let mut index = SpatialIndex::with_capacity(1);
    let mut rng = Rng::new(7);
    let i = place(&mut pool, &mut index, 0, -10_000, 6000, 0, 5);
    gravity_non_linear(&mut pool, &mut index, &mut rng, 0);
    assert!(pool.get(i).deleted);
    assert!(!index.is_present(i));
    assert_eq!(pool.used_count(), 0);
    assert_eq!(pool.free_len(), 1);
}

#[test]
fn settled_droplet_only_loses_a_count() {
    let mut pool = Droplets::with_capacity(1);
    let mut index = SpatialIndex::with_capacity(1);
    let mut rng = Rng::new(7);
    let i = place(&mut pool, &mut index, 500, 1000, 6000, 0, 5);
    gravity_non_linear(&mut pool, &mut index, &mut rng, 0);
    let d = pool.get(i);
    assert_eq!(d.seed, 4);
    assert_eq!(d.pos.y, 1000);
    assert_eq!(d.speed.y, 0);
    assert!(!d.skipping);
    assert!(!d.slowing);
}

#[test]
fn seed_recharge_toggles_skipping() {
    let seed_value = 99u64;
    // replay the deterministic source to learn the recharge draw
    let mut replay = Rng::new(seed_value);
    let u1 = replay.fraction();
    let mut pool = Droplets::with_capacity(1);
    let mut index = SpatialIndex::with_capacity(1);
    let mut rng = Rng::new(seed_value);
    let i = place(&mut pool, &mut index, 0, 100_000, 6000, 0, 0);
    gravity_non_linear(&mut pool, &mut index, &mut rng, 16);
    let d = pool.get(i);
    let expected_recharge = (6000u128 * u1 as u128 / (2 * 1_000_000 * 16)) as i32;
    assert_eq!(d.seed, expected_recharge - 1);
    assert!(d.skipping);
    assert!(d.slowing);
}

#[test]
fn trail_emits_a_volume_conserving_child() {
    let seed_value = 5u64;
    let mut replay = Rng::new(seed_value);
    let u_s = replay.fraction();
    let u_x = replay.fraction();
    let mut pool = Droplets::with_capacity(2);
    let mut index = SpatialIndex::with_capacity(2);
    let mut rng = Rng::new(seed_value);
    let parent = place(&mut pool, &mut index, 40_000, 50_000, 8000, 2000, 5);
    trail(&mut pool, &mut index, &mut rng, 16);
    assert_eq!(pool.used_count(), 2);
    let expected_ts = (((900_000 + u_s / 5) as u128 * 8000u128) / 4_000_000) as i64;
    let child = pool.get(1);
    assert!(!child.deleted);
    assert_eq!(child.size, expected_ts);
    let expected_ox = ((u_x * 2000) / 1_000_000) as i64 - 1000;
    assert_eq!(child.pos.x, 40_000 + expected_ox);
    assert_eq!(child.pos.y, 50_000 + 4000 + 2000 + expected_ts / 2);
    let p = pool.get(parent);
    assert_eq!(p.size, shrink_size(8000, expected_ts));
    assert_eq!(p.last_trail_y, Some(50_000));
    // symmetric conservation: what the parent kept plus the child
    // accounts for the parent's whole volume up to quantization
    let kept = cube((p.size / 2) as i128) + cube((expected_ts / 2) as i128);
    assert!(kept <= cube(4000));
    assert!(cube(4000) < kept + cube((p.size / 2 + 1) as i128) - cube((p.size / 2) as i128));
    // the parent's footprint shrank with it
    assert_eq!(index.get(parent).radius, p.size / 2);
    assert!(index.is_present(1));
}

#[test]
fn trail_skips_slow_and_small_droplets() {
    let mut pool = Droplets::with_capacity(4);
    let mut index = SpatialIndex::with_capacity(4);
    let mut rng = Rng::new(5);
    // falling slower than gravity for dt = 16 (gravity 4)
    let slow = place(&mut pool, &mut index, 0, 50_000, 8000, 4, 5);
    // under the trail size threshold though falling fast
    let small = place(&mut pool, &mut index, 100_000, 50_000, 5000, 2000, 5);
    trail(&mut pool, &mut index, &mut rng, 16);
    assert_eq!(pool.used_count(), 2);
    assert_eq!(pool.get(slow).size, 8000);
    assert_eq!(pool.get(slow).last_trail_y, None);
    assert_eq!(pool.get(small).size, 5000);
    assert_eq!(pool.get(small).last_trail_y, None);
}

#[test]
fn trail_backpressure_sheds_without_a_child() {
    let mut pool = Droplets::with_capacity(1);
    let mut index = SpatialIndex::with_capacity(1);
    let mut rng = Rng::new(5);
    let parent = place(&mut pool, &mut index, 0, 50_000, 8000, 2000, 5);
    trail(&mut pool, &mut index, &mut rng, 16);
    // the pool was exhausted: no child, yet the parent shed its share
    assert_eq!(pool.used_count(), 1);
    let p = pool.get(parent);
    assert!(p.size < 8000);
    assert_eq!(p.last_trail_y, Some(50_000));
}

#[test]
fn merge_equal_pair_is_deterministic() {
    // two droplets of size 4.0, equal Y, overlapping: the tie-break
    // always keeps the second of the event pair, merged to about 5.04
    let mut pool = Droplets::with_capacity(2);
    let mut index = SpatialIndex::with_capacity(2);
    let a = place(&mut pool, &mut index, 0, 10_000, 4000, 0, 5);
    let b = place(&mut pool, &mut index, 3000, 10_000, 4000, 0, 5);
    index.update();
    let events = index.events();
    assert_eq!(events.len(), 1);
    merge(&mut pool, &mut index, &events);
    assert!(pool.get(a).deleted);
    assert!(!pool.get(b).deleted);
    assert_eq!(pool.get(b).size, 5038);
    assert_eq!(index.get(b).radius, 2519);
    assert!(!index.is_present(a));
    assert_eq!(pool.used_count(), 1);
}

#[test]
fn merge_larger_radius_wins() {
    let mut pool = Droplets::with_capacity(2);
    let mut index = SpatialIndex::with_capacity(2);
    let big = place(&mut pool, &mut index, 0, 10_000, 6000, 0, 5);
    let small = place(&mut pool, &mut index, 4000, 10_000, 4000, 0, 5);
    index.update();
    let events = index.events();
    merge(&mut pool, &mut index, &events);
    assert!(!pool.get(big).deleted);
    assert!(pool.get(small).deleted);
    assert_eq!(pool.get(big).size, grow_size(6000, 4000));
    // the winner did not move
    assert_eq!(pool.get(big).pos.x, 0);
    assert_eq!(pool.get(big).pos.y, 10_000);
}

#[test]
fn merge_higher_droplet_wins_radius_tie() {
    let mut pool = Droplets::with_capacity(2);
    let mut index = SpatialIndex::with_capacity(2);
    let low = place(&mut pool, &mut index, 0, 8_000, 4000, 0, 5);
    let high = place(&mut pool, &mut index, 3000, 10_000, 4000, 0, 5);
    index.update();
    let events = index.events();
    merge(&mut pool, &mut index, &events);
    assert!(!pool.get(high).deleted);
    assert!(pool.get(low).deleted);
}

#[test]
fn simulation_spawns_within_capacity() {
    let mut rain = Rain::new(100, (3000, 8000), (800, 600), 42);
    assert_eq!(rain.used_count(), 0);
    assert_eq!(rain.droplets_accumulator(), 50);
    assert_eq!(rain.capacity(), 100);
    for _ in 0..300 {
        rain.update(16);
        let used = rain.used_count();
        assert!(used <= 100);
        let live = rain.live_droplets();
        assert_eq!(live.len(), used);
        for (_, _, size) in live {
            assert!(size > 0);
        }
    }
    assert!(rain.used_count() > 0);
}

#[test]
fn zero_length_ticks_spawn_nothing_at_start() {
    let mut rain = Rain::new(10, (3000, 8000), (800, 600), 9);
    for _ in 0..10 {
        rain.update(0);
        assert_eq!(rain.used_count(), 0);
        assert_eq!(rain.droplets_accumulator(), 50);
    }
}

#[test]
fn chained_merges_grow_before_deleting() {
    // three droplets in a row, each overlapping its neighbour: every
    // loser's growth is applied before any deletion, so the middle
    // droplet's gain is visible to the rightmost winner
    let mut pool = Droplets::with_capacity(3);
    let mut index = SpatialIndex::with_capacity(3);
    let left = place(&mut pool, &mut index, 0, 10_000, 4000, 0, 5);
    let mid = place(&mut pool, &mut index, 3000, 10_000, 4000, 0, 5);
    let right = place(&mut pool, &mut index, 6000, 10_000, 4000, 0, 5);
    index.update();
    let events = index.events();
    assert_eq!(events.len(), 2);
    merge(&mut pool, &mut index, &events);
    assert!(pool.get(left).deleted);
    assert!(pool.get(mid).deleted);
    assert!(!pool.get(right).deleted);
    let mid_grown = grow_size(4000, 4000);
    assert_eq!(mid_grown, 5038);
    assert_eq!(pool.get(right).size, grow_size(4000, mid_grown));
    assert_eq!(pool.used_count(), 1);
}

#[test]
fn zero_capacity_simulation_idles() {
    let mut rain = Rain::new(0, (3000, 8000), (800, 600), 3);
    for _ in 0..50 {
        rain.update(16);
        assert_eq!(rain.used_count(), 0);
        assert_eq!(rain.live_droplets().len(), 0);
    }
}

#[test]
fn trail_not_yet_due_is_skipped() {
    // a parent that has not fallen the 20-unit minimum since its last
    // emission never emits, whatever distance is drawn
    let mut pool = Droplets::with_capacity(2);
    let mut index = SpatialIndex::with_capacity(2);
    let mut rng = Rng::new(11);
    let parent = place(&mut pool, &mut index, 0, 50_000, 8000, 2000, 5);
    let mut d = *pool.get(parent);
    d.last_trail_y = Some(60_000);
    pool.write(parent, d);
    trail(&mut pool, &mut index, &mut rng, 16);
    assert_eq!(pool.used_count(), 1);
    assert_eq!(pool.get(parent).size, 8000);
    assert_eq!(pool.get(parent).last_trail_y, Some(60_000));
}

#[test]
fn trail_overdue_emits_again() {
    // fallen more than the largest drawable distance: emits for any draw
    let mut pool = Droplets::with_capacity(2);
    let mut index = SpatialIndex::with_capacity(2);
    let mut rng = Rng::new(11);
    let parent = place(&mut pool, &mut index, 0, 50_000, 8000, 2000, 5);
    let mut d = *pool.get(parent);
    d.last_trail_y = Some(300_000);
    pool.write(parent, d);
    trail(&mut pool, &mut index, &mut rng, 16);
    assert_eq!(pool.used_count(), 2);
    assert!(pool.get(parent).size < 8000);
    assert_eq!(pool.get(parent).last_trail_y, Some(50_000));
}
