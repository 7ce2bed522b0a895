use ghosties::audio::{ClipFrames, PlaybackStates, SoundClip};
use ghosties::input::{MoveDir, INPUT_DOWN, INPUT_FIRE, INPUT_LEFT, INPUT_RIGHT, INPUT_UP};
use ghosties::map::{generate_map, Pos};
use ghosties::player::{Bullet, MarkedForDeath, DEATH_FRAMES};
use ghosties::rollback::{handle_request, RollbackRequest, SessionError, SnapshotRing};
use ghosties::rng::GameSeed;
use ghosties::session::match_seeds;
use ghosties::sim::{increase_frame_system, GGFrameCount, RollbackState, Scores, SimState, ROUND_END_FRAMES};

fn clips() -> ClipFrames {
    ClipFrames { laser_shoot: Some(30), swoosh_death: Some(45) }
}

fn new_state(hash: u64) -> SimState {
    let (seed, sounds) = match_seeds(hash);
    SimState::new(seed, sounds)
}

/// A state two frames in: the map generated and the players spawned.
fn in_round(hash: u64) -> (SimState, PlaybackStates) {
    let mut s = new_state(hash);
    let mut pb = PlaybackStates::new();
    s.step(&mut pb, [0, 0], clips());
    s.step(&mut pb, [0, 0], clips());
    (s, pb)
}

fn scripted_inputs(n: usize) -> Vec<[u8; 2]> {
    let pattern = [
        [INPUT_UP, INPUT_LEFT],
        [INPUT_UP | INPUT_FIRE, INPUT_LEFT | INPUT_FIRE],
        [INPUT_RIGHT, INPUT_DOWN | INPUT_FIRE],
        [INPUT_RIGHT | INPUT_UP | INPUT_FIRE, 0],
        [INPUT_DOWN, INPUT_RIGHT | INPUT_FIRE],
        [0, INPUT_UP],
        [INPUT_LEFT | INPUT_FIRE, INPUT_UP | INPUT_RIGHT],
    ];
    (0..n).map(|i| pattern[(i * 5 + i / 3) % pattern.len()]).collect()
}

#[test]
fn frame_counter_wraps() {
    let mut f = GGFrameCount { frame: u32::MAX };
    increase_frame_system(&mut f);
    assert_eq!(f.frame, 0);
    increase_frame_system(&mut f);
    assert_eq!(f.frame, 1);
}

#[test]
fn round_lifecycle_start() {
    let mut s = new_state(7);
    let mut pb = PlaybackStates::new();
    assert_eq!(s.round, RollbackState::PreRound);
    s.step(&mut pb, [0, 0], clips());
    assert_eq!(s.round, RollbackState::PreRound);
    assert_eq!(s.next_round, Some(RollbackState::InRound));
    assert_eq!(s.map, generate_map());
    assert_eq!(s.frame.frame, 0);
    s.step(&mut pb, [0, 0], clips());
    assert_eq!(s.round, RollbackState::InRound);
    assert_eq!(s.players.len(), 2);
    assert_eq!(s.frame.frame, 1);
    let mut expected = GameSeed(7);
    expected.advance();
    assert_eq!(s.seed, expected);
}

#[test]
fn two_runs_are_identical() {
    let inputs = scripted_inputs(200);
    let (mut a, mut pa) = in_round(99);
    let (mut b, mut pbk) = in_round(99);
    a.run_frames(&mut pa, &inputs, clips());
    b.run_frames(&mut pbk, &inputs, clips());
    assert_eq!(a, b);
    let (mut c, mut pc) = in_round(99);
    for i in &inputs {
        c.step(&mut pc, *i, clips());
    }
    assert_eq!(a, c);
}

#[test]
fn rollback_and_replay_reaches_the_same_state() {
    let inputs = scripted_inputs(60);
    let (mut s, mut pb) = in_round(1234);
    let mut ring = SnapshotRing::new(8);
    let k = 50usize;
    for (i, inp) in inputs.iter().enumerate() {
        if i == k {
            handle_request(&mut s, &mut ring, &mut pb, RollbackRequest::SaveGameState { frame: k as i32 }, clips())
                .unwrap();
        }
        handle_request(&mut s, &mut ring, &mut pb, RollbackRequest::AdvanceFrame { inputs: *inp }, clips()).unwrap();
    }
    let reference = s.snapshot();
    // a misprediction: roll back to frame k and replay the same inputs
    handle_request(&mut s, &mut ring, &mut pb, RollbackRequest::LoadGameState { frame: k as i32 }, clips()).unwrap();
    assert_ne!(s, reference);
    for inp in &inputs[k..] {
        handle_request(&mut s, &mut ring, &mut pb, RollbackRequest::AdvanceFrame { inputs: *inp }, clips()).unwrap();
    }
    assert_eq!(s, reference);
}

#[test]
fn loading_an_unsaved_frame_fails() {
    let (mut s, mut pb) = in_round(3);
    let mut ring = SnapshotRing::new(4);
    let before = s.snapshot();
    let r = handle_request(&mut s, &mut ring, &mut pb, RollbackRequest::LoadGameState { frame: 2 }, clips());
    assert_eq!(r.unwrap_err(), SessionError::MissingSnapshot { frame: 2 });
    assert_eq!(s, before);
    handle_request(&mut s, &mut ring, &mut pb, RollbackRequest::SaveGameState { frame: 2 }, clips()).unwrap();
    // frame 6 shares the slot of frame 2 and overwrites it
    handle_request(&mut s, &mut ring, &mut pb, RollbackRequest::SaveGameState { frame: 6 }, clips()).unwrap();
    let r = handle_request(&mut s, &mut ring, &mut pb, RollbackRequest::LoadGameState { frame: 2 }, clips());
    assert_eq!(r.unwrap_err(), SessionError::MissingSnapshot { frame: 2 });
    let r = handle_request(&mut s, &mut ring, &mut pb, RollbackRequest::SaveGameState { frame: -1 }, clips());
    assert_eq!(r.unwrap_err(), SessionError::InvalidFrame { frame: -1 });
}

#[test]
fn ring_load_returns_saved_copy() {
    let (s, _) = in_round(11);
    let mut ring = SnapshotRing::new(3);
    ring.save(4, &s);
    assert_eq!(ring.load(4), Some(s.snapshot()));
    assert_eq!(ring.load(1), None);
    assert_eq!(ring.load(7), None);
}

#[test]
fn bullet_crossing_the_edge_is_removed_in_that_frame() {
    let (mut s, mut pb) = in_round(5);
    s.bullets.push(Bullet { pos: Pos { x: 20300, y: 0 }, move_dir: MoveDir { x: 1, y: 0 } });
    s.bullets.push(Bullet { pos: Pos { x: 0, y: -20200 }, move_dir: MoveDir { x: 0, y: -1 } });
    s.bullets.push(Bullet { pos: Pos { x: -20300, y: 20300 }, move_dir: MoveDir { x: -1, y: 1 } });
    s.step(&mut pb, [0, 0], clips());
    assert!(s.bullets.is_empty());
}

#[test]
fn bullet_inside_the_map_keeps_flying() {
    let (mut s, mut pb) = in_round(5);
    // row 0 holds no walls
    s.bullets.push(Bullet { pos: Pos { x: 0, y: -20000 }, move_dir: MoveDir { x: 1, y: 0 } });
    s.players[0].pos = Pos { x: -15000, y: 15000 };
    s.players[1].pos = Pos { x: 15000, y: 15000 };
    s.step(&mut pb, [0, 0], clips());
    assert_eq!(s.bullets.len(), 1);
    assert_eq!(s.bullets[0].pos, Pos { x: 350, y: -20000 });
}

#[test]
fn firing_in_a_round_starts_a_laser_sound() {
    let (mut s, mut pb) = in_round(21);
    let frame = s.frame.frame;
    let ev = s.step(&mut pb, [INPUT_FIRE, 0], clips());
    assert_eq!(ev.sound_starts.len(), 1);
    assert_eq!(ev.sound_starts[0].clip, SoundClip::LaserShoot);
    assert_eq!(s.sounds.len(), 1);
    assert_eq!(s.sounds[0].start_frame, frame);
    assert_eq!(s.bullets.len(), 1);
    // holding fire does not fire again; releasing reloads
    let ev = s.step(&mut pb, [INPUT_FIRE, 0], clips());
    assert!(ev.sound_starts.is_empty());
    s.step(&mut pb, [0, 0], clips());
    s.step(&mut pb, [INPUT_FIRE, 0], clips());
    assert_eq!(s.sounds.len(), 2);
}

#[test]
fn a_hit_ends_the_round_and_scores_the_opponent() {
    let (mut s, mut pb) = in_round(77);
    s.players[0].pos = Pos { x: 0, y: -20000 };
    s.players[1].pos = Pos { x: 15000, y: 15000 };
    s.bullets.push(Bullet { pos: Pos { x: -600, y: -20000 }, move_dir: MoveDir { x: 1, y: 0 } });
    let ev = s.step(&mut pb, [0, 0], clips());
    assert_eq!(ev.explosions, vec![Pos { x: -250, y: -20000 }]);
    assert_eq!(s.players[0].marked, Some(MarkedForDeath(1)));
    assert!(s.bullets.is_empty());
    assert_eq!(ev.sound_starts.len(), 1);
    assert_eq!(ev.sound_starts[0].clip, SoundClip::SwooshDeath);
    let death_key = (SoundClip::SwooshDeath, ev.sound_starts[0].sub_key);
    assert!(pb.is_playing(death_key));
    for _ in 1..DEATH_FRAMES {
        assert_eq!(s.next_round, None);
        s.step(&mut pb, [0, 0], clips());
    }
    assert_eq!(s.next_round, Some(RollbackState::RoundEnd));
    s.step(&mut pb, [0, 0], clips());
    assert_eq!(s.round, RollbackState::RoundEnd);
    assert_eq!(s.scores, Scores(0, 1));
    assert_eq!(s.players.len(), 1);
    assert_eq!(s.players[0].handle, 1);
    assert!(s.sounds.is_empty());
    for _ in 1..ROUND_END_FRAMES {
        assert_eq!(s.next_round, None);
        s.step(&mut pb, [0, 0], clips());
    }
    assert_eq!(s.next_round, Some(RollbackState::PreRound));
    assert_eq!(s.round_end_timer.0, 0);
    assert!(pb.is_playing(death_key));
    assert!(pb.is_playing(death_key));
    s.step(&mut pb, [0, 0], clips());
    assert_eq!(s.round, RollbackState::PreRound);
    // preparing the next round forgets the sounds started in the last one
    assert!(!pb.is_playing(death_key));
    // preparing the next round forgets the sounds started in the last one
    assert!(!pb.is_playing(death_key));
    s.step(&mut pb, [0, 0], clips());
    assert_eq!(s.round, RollbackState::InRound);
    assert_eq!(s.players.len(), 2);
    assert_eq!(s.scores, Scores(0, 1));
}

use ghosties::player::{Player, BulletReady};
use ghosties::sim::{player_position, round_end_timeout, RoundEndTimer};

#[test]
fn round_end_pause_repeats() {
    let mut t = RoundEndTimer(0);
    for _ in 1..ROUND_END_FRAMES {
        assert!(!round_end_timeout(&mut t));
    }
    assert_eq!(t, RoundEndTimer(ROUND_END_FRAMES - 1));
    assert!(round_end_timeout(&mut t));
    assert_eq!(t, RoundEndTimer(0));
}

#[test]
fn position_of_a_player_slot() {
    let p = |handle: usize, x: i64| Player {
        handle,
        pos: Pos { x, y: 7 },
        move_dir: MoveDir { x: 1, y: 0 },
        bullet_ready: BulletReady(true),
        marked: None,
    };
    let players = vec![p(1, 100), p(0, 200)];
    assert_eq!(player_position(&players, 0), Some(Pos { x: 200, y: 7 }));
    assert_eq!(player_position(&players, 1), Some(Pos { x: 100, y: 7 }));
    assert_eq!(player_position(&players[..1].to_vec(), 0), None);
}
