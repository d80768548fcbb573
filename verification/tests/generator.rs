use blend2d_bench::rng::BenchRandom;

#[test]
fn same_seed_same_sequences() {
    // two independently constructed generators with one seed produce
    // identical outputs for the same calls in the same order
    let mut a = BenchRandom::new(0x19AE0DDAE3FA7391);
    let mut b = BenchRandom::new(0x19AE0DDAE3FA7391);
    for _ in 0..100 {
        assert_eq!(a.next_color(), b.next_color());
        assert_eq!(a.next_i32(0, 512), b.next_i32(0, 512));
        assert_eq!(a.next_bool(), b.next_bool());
        assert_eq!(a.next_i32(-7, 9), b.next_i32(-7, 9));
    }
}

#[test]
fn different_seeds_diverge() {
    let mut a = BenchRandom::new(1);
    let mut b = BenchRandom::new(2);
    let mut same = true;
    for _ in 0..16 {
        if a.next_color() != b.next_color() {
            same = false;
        }
    }
    assert!(!same);
}

#[test]
fn rewind_replays_first_draws() {
    // rewind() followed by N draws reproduces exactly the first N draws
    // since construction
    let mut g = BenchRandom::new(0x94BD7A499AD10011);
    let mut first_words = Vec::new();
    let mut first_ints = Vec::new();
    let mut first_bools = Vec::new();
    for _ in 0..50 {
        first_words.push(g.next_color());
        first_ints.push(g.next_i32(0, 1000));
        first_bools.push(g.next_bool());
    }
    g.rewind();
    for k in 0..50 {
        assert_eq!(g.next_color(), first_words[k]);
        assert_eq!(g.next_i32(0, 1000), first_ints[k]);
        assert_eq!(g.next_bool(), first_bools[k]);
    }
    // rewinding mid-stream works too, for any number of draws
    g.rewind();
    for k in 0..7 {
        assert_eq!(g.next_color(), first_words[k]);
        assert_eq!(g.next_i32(0, 1000), first_ints[k]);
        assert_eq!(g.next_bool(), first_bools[k]);
    }
}

#[test]
fn bounded_draws_stay_in_range() {
    let mut g = BenchRandom::new(42);
    for _ in 0..200 {
        let v = g.next_i32(3, 9);
        assert!((3..9).contains(&v));
    }
}

#[test]
fn seed_is_kept() {
    let g = BenchRandom::new(77);
    assert_eq!(g.seed(), 77);
}
