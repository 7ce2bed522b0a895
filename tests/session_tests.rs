use ghosties::rng::{GameSeed, SoundIdSeed, SoundSeed};
use ghosties::session::{match_seeds, session_hash, wait_for_players, LocalPlayerHandle};

#[test]
fn hash_is_the_same_on_both_peers() {
    let a: u128 = 0x0123_4567_89ab_cdef_fedc_ba98_7654_3210;
    let b: u128 = 0xdead_beef_0000_1111_2222_3333_4444_5555;
    assert_eq!(session_hash(a, &vec![b]), session_hash(b, &vec![a]));
}

#[test]
fn hash_ignores_peer_order() {
    let ids: [u128; 3] = [17, 0xffff_0000_ffff_0000, 1 << 100];
    let h = session_hash(ids[0], &vec![ids[1], ids[2]]);
    assert_eq!(h, session_hash(ids[0], &vec![ids[2], ids[1]]));
    assert_eq!(h, session_hash(ids[2], &vec![ids[0], ids[1]]));
}

#[test]
fn hash_folds_to_64_bits() {
    // all ones xor 0 is all ones: low 64 bits xor bits 8..72 is zero
    assert_eq!(session_hash(0, &vec![]), 0);
    // a single bit 0 cleared: the low half loses bit 0, the shifted half keeps it
    assert_eq!(session_hash(1, &vec![]), 1);
    assert_eq!(session_hash(1 << 8, &vec![]), (1u64 << 8) | 1);
}

#[test]
fn seeds_from_hash() {
    let (seed, sounds) = match_seeds(100);
    assert_eq!(seed, GameSeed(100));
    assert_eq!(sounds, SoundIdSeed((SoundSeed(101), SoundSeed(102))));
    let (_, wrapped) = match_seeds(u64::MAX);
    assert_eq!(wrapped, SoundIdSeed((SoundSeed(0), SoundSeed(1))));
}

#[test]
fn match_waits_for_two_players() {
    assert!(wait_for_players(5, &vec![], &vec![true]).is_none());
    assert!(wait_for_players(5, &vec![], &vec![]).is_none());
}

#[test]
fn match_start_assigns_local_slot() {
    let m = wait_for_players(5, &vec![9], &vec![false, true]).unwrap();
    assert_eq!(m.local_handle, Some(LocalPlayerHandle(1)));
    assert_eq!(m.session_hash, session_hash(5, &vec![9]));
    let (seed, sounds) = match_seeds(m.session_hash);
    assert_eq!(m.seed, seed);
    assert_eq!(m.sound_seeds, sounds);
    let m = wait_for_players(9, &vec![5], &vec![true, false]).unwrap();
    assert_eq!(m.local_handle, Some(LocalPlayerHandle(0)));
    assert_eq!(m.seed, seed);
    assert_eq!(wait_for_players(9, &vec![5], &vec![false, false]).unwrap().local_handle, None);
}
