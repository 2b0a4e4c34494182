use rain::droplets::Droplets;

#[test]
fn with_capacity_starts_all_free() {
    let pool = Droplets::with_capacity(3);
    assert_eq!(pool.len(), 3);
    assert_eq!(pool.free_len(), 3);
    assert_eq!(pool.used_count(), 0);
    for i in 0..3 {
        assert!(pool.get(i).deleted);
    }
}

#[test]
fn checkout_marks_live_in_fifo_order() {
    let mut pool = Droplets::with_capacity(3);
    assert_eq!(pool.checkout(), Some(0));
    assert_eq!(pool.checkout(), Some(1));
    assert_eq!(pool.checkout(), Some(2));
    assert_eq!(pool.checkout(), None);
    assert!(!pool.get(0).deleted);
    assert!(!pool.get(1).deleted);
    assert!(!pool.get(2).deleted);
    assert_eq!(pool.used_count(), 3);
    assert_eq!(pool.free_len(), 0);
}

#[test]
fn free_recycles_to_the_back() {
    let mut pool = Droplets::with_capacity(2);
    assert_eq!(pool.checkout(), Some(0));
    assert_eq!(pool.checkout(), Some(1));
    pool.free(0);
    assert!(pool.get(0).deleted);
    assert_eq!(pool.checkout(), Some(0));
    pool.free(1);
    pool.free(0);
    // freed in order 1 then 0: the queue hands them back in that order
    assert_eq!(pool.checkout(), Some(1));
    assert_eq!(pool.checkout(), Some(0));
}

#[test]
fn pool_capacity_one_second_checkout_backs_off() {
    // two spawn attempts against a one-slot pool: the second is refused
    // silently and the live count stays at one
    let mut pool = Droplets::with_capacity(1);
    assert_eq!(pool.checkout(), Some(0));
    assert_eq!(pool.checkout(), None);
    assert_eq!(pool.used_count(), 1);
}

#[test]
fn live_and_free_counts_always_sum_to_capacity() {
    let mut pool = Droplets::with_capacity(4);
    assert_eq!(pool.used_count() + pool.free_len(), 4);
    pool.checkout();
    assert_eq!(pool.used_count() + pool.free_len(), 4);
    pool.checkout();
    pool.checkout();
    assert_eq!(pool.used_count() + pool.free_len(), 4);
    pool.free(1);
    assert_eq!(pool.used_count() + pool.free_len(), 4);
    pool.checkout();
    pool.checkout();
    assert_eq!(pool.used_count() + pool.free_len(), 4);
}

#[test]
fn checkout_keeps_stale_fields() {
    let mut pool = Droplets::with_capacity(1);
    let i = pool.checkout().unwrap();
    let mut d = *pool.get(i);
    d.size = 7000;
    d.speed.y = 123;
    pool.write(i, d);
    pool.free(i);
    // the recycled slot still carries the previous occupant's values
    let j = pool.checkout().unwrap();
    assert_eq!(j, i);
    assert_eq!(pool.get(j).size, 7000);
    assert_eq!(pool.get(j).speed.y, 123);
    assert!(!pool.get(j).deleted);
}
