use sketchkit::random::Random;

#[test]
fn same_seed_same_sequence() {
    let mut a = Random::from_seed(12345);
    let mut b = Random::from_seed(12345);
    for k in 0..200 {
        let lo = -(k as i32);
        let hi = (k as i32) + 1;
        assert_eq!(a.integer(lo, hi), b.integer(lo, hi));
        assert_eq!(a.boolean(), b.boolean());
        assert_eq!(a.bits(), b.bits());
    }
}

#[test]
fn reseed_restarts_the_sequence() {
    let mut a = Random::from_seed(7);
    let first: Vec<i32> = (0..20).map(|_| a.integer(0, 1000)).collect();
    a.reseed(7);
    let again: Vec<i32> = (0..20).map(|_| a.integer(0, 1000)).collect();
    assert_eq!(first, again);
    let mut fresh = Random::from_seed(99);
    a.reseed(99);
    for _ in 0..20 {
        assert_eq!(a.bits(), fresh.bits());
    }
}

#[test]
fn different_seeds_differ() {
    let mut a = Random::from_seed(1);
    let mut b = Random::from_seed(2);
    let xs: Vec<u64> = (0..8).map(|_| a.bits()).collect();
    let ys: Vec<u64> = (0..8).map(|_| b.bits()).collect();
    assert_ne!(xs, ys);
}

#[test]
fn integers_stay_in_range() {
    let mut r = Random::new();
    let mut seen = [false; 5];
    for _ in 0..500 {
        let v = r.integer(-2, 3);
        assert!(-2 <= v && v < 3);
        seen[(v + 2) as usize] = true;
    }
    assert!(seen.iter().all(|s| *s));
    for _ in 0..50 {
        assert_eq!(r.integer(4, 5), 4);
    }
}

#[test]
fn coin_shows_both_faces() {
    let mut r = Random::from_seed(3);
    let heads = (0..400).filter(|_| r.boolean()).count();
    assert!(heads > 100 && heads < 300);
}

#[test]
fn coin_is_a_uniform_draw_against_one_half() {
    let mut a = Random::from_seed(21);
    let mut b = Random::from_seed(21);
    for _ in 0..200 {
        assert_eq!(a.boolean(), (b.bits() >> 11) < (1u64 << 52));
    }
}
