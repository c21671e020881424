use ledge::{FactorizationCache, FACTORIZATION_CACHE_CAPACITY};

#[test]
fn hits_move_to_front_without_building() {
    let mut cache = FactorizationCache::new(1, "one");
    assert_eq!(cache.ensure(2, || Ok::<_, ()>("two")), Ok(true));
    assert_eq!(*cache.current(), "two");
    let built = cache.ensure(1, || -> Result<&str, ()> { panic!("a hit must not build") });
    assert_eq!(built, Ok(false));
    assert_eq!(*cache.current(), "one");
    assert_eq!(cache.current_key(), 1);
    assert_eq!(cache.len(), 2);
}

#[test]
fn build_failures_leave_the_table_unchanged() {
    let mut cache = FactorizationCache::new(7, 70);
    assert_eq!(cache.ensure(8, || Err("singular")), Err("singular"));
    assert_eq!(cache.len(), 1);
    assert_eq!(*cache.current(), 70);
}

#[test]
fn least_recently_used_entry_is_evicted_beyond_capacity() {
    let mut cache = FactorizationCache::new(0, 0u64);
    for key in 1..=FACTORIZATION_CACHE_CAPACITY as u64 {
        assert_eq!(cache.ensure(key, || Ok::<_, ()>(key * 10)), Ok(true));
    }
    assert_eq!(cache.len(), FACTORIZATION_CACHE_CAPACITY);
    // Key 0 was the least recently used and is gone; key 1 survived.
    assert_eq!(cache.ensure(1, || Ok::<_, ()>(999)), Ok(false));
    assert_eq!(cache.ensure(0, || Ok::<_, ()>(5)), Ok(true));
    assert_eq!(*cache.current(), 5);
    assert_eq!(cache.len(), FACTORIZATION_CACHE_CAPACITY);
}
