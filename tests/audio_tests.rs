use ghosties::audio::{
    clear_sounds, frames_to_play, sync_rollback_sounds, remove_finished_sounds, sync_decision, ClipFrames, PlaybackStates, RollbackSound,
    SoundClip, SoundStart, SoundSync, MAX_SOUND_DELAY,
};

fn laser(start_frame: u32, sub_key: usize) -> RollbackSound {
    RollbackSound { clip: SoundClip::LaserShoot, start_frame, sub_key }
}

#[test]
fn late_sound_at_threshold_starts() {
    assert_eq!(sync_decision(110, 100, false), SoundSync::Start { frames_late: MAX_SOUND_DELAY });
}

#[test]
fn late_sound_past_threshold_never_starts() {
    assert_eq!(sync_decision(111, 100, false), SoundSync::TooLate);
}

#[test]
fn on_time_and_started_sounds() {
    assert_eq!(sync_decision(100, 100, false), SoundSync::Start { frames_late: 0 });
    assert_eq!(sync_decision(100, 100, true), SoundSync::Playing);
    assert_eq!(sync_decision(500, 100, true), SoundSync::Playing);
}

#[test]
fn lateness_wraps_with_the_frame_counter() {
    assert_eq!(sync_decision(5, u32::MAX - 4, false), SoundSync::Start { frames_late: 10 });
    assert_eq!(sync_decision(6, u32::MAX - 4, false), SoundSync::TooLate);
    // a sound meant for a later frame is far too late on the wrapping counter
    assert_eq!(sync_decision(100, 101, false), SoundSync::TooLate);
}

#[test]
fn sync_starts_each_sound_once() {
    let mut playback = PlaybackStates::new();
    let sounds = vec![laser(100, 1), laser(95, 2), laser(80, 3)];
    let starts = sync_rollback_sounds(&mut playback, &sounds, 100);
    assert_eq!(
        starts,
        vec![
            SoundStart { clip: SoundClip::LaserShoot, sub_key: 1, frames_late: 0 },
            SoundStart { clip: SoundClip::LaserShoot, sub_key: 2, frames_late: 5 },
        ]
    );
    assert!(playback.is_playing((SoundClip::LaserShoot, 1)));
    assert!(!playback.is_playing((SoundClip::LaserShoot, 3)));
    // replaying the same frame after a rollback starts nothing again
    let again = sync_rollback_sounds(&mut playback, &sounds, 100);
    assert!(again.is_empty());
    let later = sync_rollback_sounds(&mut playback, &sounds, 101);
    assert!(later.is_empty());
    playback.clear();
    assert!(!playback.is_playing((SoundClip::LaserShoot, 1)));
}

#[test]
fn same_sub_key_other_clip_is_another_sound() {
    let mut playback = PlaybackStates::new();
    let sounds = vec![laser(10, 7), RollbackSound { clip: SoundClip::SwooshDeath, start_frame: 10, sub_key: 7 }];
    let starts = sync_rollback_sounds(&mut playback, &sounds, 10);
    assert_eq!(starts.len(), 2);
}

#[test]
fn key_is_clip_and_sub_key() {
    assert_eq!(laser(3, 9).key(), (SoundClip::LaserShoot, 9));
}

#[test]
fn clip_lengths_in_frames() {
    assert_eq!(frames_to_play(1_000_000_000), 60);
    assert_eq!(frames_to_play(500_000_000), 30);
    assert_eq!(frames_to_play(16_666_666), 0);
    assert_eq!(frames_to_play(16_666_667), 1);
    assert_eq!(frames_to_play(0), 0);
    assert_eq!(frames_to_play(u64::MAX), u32::MAX);
}

#[test]
fn finished_sounds_are_removed() {
    let clips = ClipFrames { laser_shoot: Some(20), swoosh_death: None };
    let mut sounds = vec![
        laser(100, 1),
        laser(80, 2),
        laser(81, 3),
        RollbackSound { clip: SoundClip::SwooshDeath, start_frame: 0, sub_key: 4 },
    ];
    remove_finished_sounds(&mut sounds, 100, clips);
    assert_eq!(
        sounds,
        vec![laser(100, 1), laser(81, 3), RollbackSound { clip: SoundClip::SwooshDeath, start_frame: 0, sub_key: 4 }]
    );
}

#[test]
fn clear_removes_every_sound() {
    let mut sounds = vec![laser(1, 1), laser(2, 2)];
    clear_sounds(&mut sounds);
    assert!(sounds.is_empty());
}
