use ledge::{perturbation_seed, SplitMix64};

#[test]
fn splitmix_matches_the_reference_stream() {
    let mut random = SplitMix64::new(0);
    assert_eq!(random.next_u64(), 0xe220_a839_7b1d_cdaf);
    assert_eq!(random.next_u64(), 0x6e78_9e6a_a1b9_65f4);
    assert_eq!(random.next_u64(), 0x06c4_5d18_8009_454f);
}

#[test]
fn equal_seeds_give_equal_streams() {
    let mut first = SplitMix64::new(42);
    let mut second = SplitMix64::new(42);
    for _ in 0..100 {
        assert_eq!(first.next_u64(), second.next_u64());
    }
    let mut third = SplitMix64::new(42);
    assert_eq!(third.next_u64(), 0xbdd7_3226_2feb_6e95);
    let mut other = SplitMix64::new(43);
    assert_ne!(other.next_u64(), 0xbdd7_3226_2feb_6e95);
}

#[test]
fn perturbation_streams_differ_per_step() {
    assert_eq!(perturbation_seed(42, 0), 42 ^ 0x9e37_79b9);
    assert_eq!(perturbation_seed(1, 2), 1 ^ 0x1_daa6_6d2b);
    assert_ne!(perturbation_seed(7, 0), perturbation_seed(7, 1));
}
