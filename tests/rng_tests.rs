use ghosties::rng::{next_n, GameSeed, SoundIdSeed, SoundSeed};

#[test]
fn sound_seed_is_reproducible() {
    let mut a = SoundSeed(12345);
    let mut b = SoundSeed(12345);
    for _ in 0..5 {
        let va = a.next();
        let vb = b.next();
        assert_eq!(va, vb);
        assert_eq!(a, b);
    }
}

#[test]
fn sound_seed_moves_on() {
    let mut a = SoundSeed(7);
    let v = a.next();
    assert_ne!(v, 7);
    assert_eq!(a.0, v);
    let w = a.next();
    assert_ne!(w, v);
}

#[test]
fn sound_seed_next_us_matches_next() {
    let mut a = SoundSeed(99);
    let mut b = SoundSeed(99);
    assert_eq!(a.next_us(), b.next() as usize);
    assert_eq!(a, b);
}

#[test]
fn next_n_equals_repeated_next() {
    let mut a = SoundSeed(42);
    next_n(&mut a, 4);
    let mut b = SoundSeed(42);
    for _ in 0..4 {
        b.next();
    }
    assert_eq!(a, b);
    let mut c = SoundSeed(42);
    next_n(&mut c, 0);
    assert_eq!(c, SoundSeed(42));
}

#[test]
fn sound_id_seed_slots_are_independent() {
    let mut ids = SoundIdSeed((SoundSeed(1), SoundSeed(2)));
    let v0 = ids.next(0);
    assert_eq!(v0, (ids.0).0 .0);
    assert_eq!((ids.0).1, SoundSeed(2));
    let mut other = SoundSeed(1);
    assert_eq!(other.next(), v0);
    let v1 = ids.next_us(1);
    let mut second = SoundSeed(2);
    assert_eq!(second.next() as usize, v1);
}

#[test]
fn sound_id_seed_unknown_slot_draws_nothing() {
    let mut ids = SoundIdSeed((SoundSeed(1), SoundSeed(2)));
    assert_eq!(ids.next(2), 0);
    assert_eq!(ids, SoundIdSeed((SoundSeed(1), SoundSeed(2))));
}

#[test]
fn game_seed_advances_like_sound_seed() {
    let mut g = GameSeed(5);
    g.advance();
    let mut s = SoundSeed(5);
    assert_eq!(g.0, s.next());
    assert_ne!(g.0, 5);
}
