//! Rollback-safe sound triggering.
//!
//! A sound is a replicated record of which clip to play, the frame it was meant to
//! start on and a sub-key that tells apart instances of the same clip. What has been
//! started is kept outside the replicated state, keyed by clip and sub-key, so that
//! replaying frames after a rollback never starts a sound twice.
use vstd::prelude::*;

verus! {

/// Simulation frames per second.
pub const ROLLBACK_FPS: u64 = 60;

/// A sound that would start more than this many frames late is dropped.
pub const MAX_SOUND_DELAY: u32 = 10;

/// The sound effects that the simulation triggers.
#[derive(Clone, Copy, Debug, PartialEq, Eq, Structural)]
pub enum SoundClip {
    LaserShoot,
    SwooshDeath,
}

/// A sound effect as part of the replicated state.
#[derive(Clone, Copy, Debug, PartialEq, Eq, Structural)]
pub struct RollbackSound {
    /// The sound effect to play.
    pub clip: SoundClip,
    /// The frame on which the sound should have started.
    pub start_frame: u32,
    /// Tells apart several instances of the same clip playing at once.
    pub sub_key: usize,
}

impl RollbackSound {
    pub open spec fn key_spec(self) -> (SoundClip, usize) {
        (self.clip, self.sub_key)
    }

    /// The key under which the sound's playback is tracked.
    pub fn key(&self) -> (r: (SoundClip, usize))
        ensures
            r == self.key_spec(),
    {
        (self.clip, self.sub_key)
    }
}

/// Frames elapsed from `start` to `frame` on the wrapping frame counter.
pub open spec fn frames_since(frame: u32, start: u32) -> u32 {
    frame.wrapping_sub(start)
}

/// What to do about a sound record on a frame.
#[derive(Clone, Copy, Debug, PartialEq, Eq, Structural)]
pub enum SoundSync {
    /// Start it now, this many frames after it should have started.
    Start { frames_late: u32 },
    /// Never start it: it is too late to matter.
    TooLate,
    /// It has been started already.
    Playing,
}

pub open spec fn sync_decision_spec(frame: u32, start_frame: u32, started: bool) -> SoundSync {
    if started {
        SoundSync::Playing
    } else if frames_since(frame, start_frame) <= MAX_SOUND_DELAY {
        SoundSync::Start { frames_late: frames_since(frame, start_frame) }
    } else {
        SoundSync::TooLate
    }
}

/// Decides, on frame `frame`, about a sound meant to start on `start_frame`:
/// a sound not yet started starts unless it is more than `MAX_SOUND_DELAY` frames late.
pub fn sync_decision(frame: u32, start_frame: u32, started: bool) -> (r: SoundSync)
    ensures
        r == sync_decision_spec(frame, start_frame, started),
{
    if started {
        SoundSync::Playing
    } else {
        let frames_late = frame.wrapping_sub(start_frame);
        if frames_late <= MAX_SOUND_DELAY {
            SoundSync::Start { frames_late }
        } else {
            SoundSync::TooLate
        }
    }
}

/// A request to the audio output to start a clip.
#[derive(Clone, Copy, Debug, PartialEq, Eq, Structural)]
pub struct SoundStart {
    pub clip: SoundClip,
    pub sub_key: usize,
    pub frames_late: u32,
}

/// The sounds started so far, by key. It is not part of the replicated state.
#[derive(Debug)]
pub struct PlaybackStates {
    playing: Vec<(SoundClip, usize)>,
}

/// Keys started and start requests after going through `sounds` on frame `frame`,
/// with `playing` started before.
pub open spec fn sync_spec(playing: Seq<(SoundClip, usize)>, sounds: Seq<RollbackSound>, frame: u32) -> (
    Seq<(SoundClip, usize)>,
    Seq<SoundStart>,
)
    decreases sounds.len(),
{
    if sounds.len() == 0 {
        (playing, Seq::empty())
    } else {
        let prev = sync_spec(playing, sounds.drop_last(), frame);
        let s = sounds.last();
        match sync_decision_spec(frame, s.start_frame, prev.0.contains(s.key_spec())) {
            SoundSync::Start { frames_late } => (
                prev.0.push(s.key_spec()),
                prev.1.push(SoundStart { clip: s.clip, sub_key: s.sub_key, frames_late }),
            ),
            _ => prev,
        }
    }
}

impl View for PlaybackStates {
    type V = Seq<(SoundClip, usize)>;

    closed spec fn view(&self) -> Seq<(SoundClip, usize)> {
        self.playing@
    }
}

impl PlaybackStates {
    /// Nothing started.
    pub fn new() -> (r: PlaybackStates)
        ensures
            r@ == Seq::<(SoundClip, usize)>::empty(),
    {
        PlaybackStates { playing: Vec::new() }
    }

    /// Whether the sound with key `key` has been started.
    pub fn is_playing(&self, key: (SoundClip, usize)) -> (r: bool)
        ensures
            r == self@.contains(key),
    {
        let mut i: usize = 0;
        while i < self.playing.len()
            invariant
                i <= self.playing@.len(),
                forall|k: int| 0 <= k < i ==> self.playing@[k] != key,
            decreases self.playing@.len() - i,
        {
            let k = self.playing[i];
            if k.0 == key.0 && k.1 == key.1 {
                return true;
            }
            i = i + 1;
        }
        false
    }

    /// Forgets every started sound.
    pub fn clear(&mut self)
        ensures
            final(self)@ == Seq::<(SoundClip, usize)>::empty(),
    {
        self.playing.clear();
    }
}

/// Goes through the live sound records on frame `frame` and returns the sounds to
/// start now: those never started and at most `MAX_SOUND_DELAY` frames late.
pub fn sync_rollback_sounds(current_state: &mut PlaybackStates, sounds: &Vec<RollbackSound>, frame: u32) -> (r: Vec<SoundStart>)
    ensures
        (final(current_state)@, r@) == sync_spec(old(current_state)@, sounds@, frame),
{
    let ghost start = current_state@;
    let mut starts: Vec<SoundStart> = Vec::new();
    let mut i: usize = 0;
    while i < sounds.len()
        invariant
            i <= sounds@.len(),
            (current_state@, starts@) == sync_spec(start, sounds@.take(i as int), frame),
        decreases sounds@.len() - i,
    {
        let s = sounds[i];
        let started = current_state.is_playing(s.key());
        proof {
            assert(sounds@.take(i + 1).drop_last() =~= sounds@.take(i as int));
        }
        match sync_decision(frame, s.start_frame, started) {
            SoundSync::Start { frames_late } => {
                current_state.playing.push(s.key());
                starts.push(SoundStart { clip: s.clip, sub_key: s.sub_key, frames_late });
            },
            _ => {},
        }
        i = i + 1;
    }
    assert(sounds@.take(sounds@.len() as int) =~= sounds@);
    starts
}

/// Frames a clip of `nanos` nanoseconds plays at the simulation rate, rounded down
/// and capped at `u32::MAX`.
pub open spec fn frames_to_play_spec(nanos: u64) -> u32 {
    let f = nanos * ROLLBACK_FPS / 1_000_000_000;
    if f > u32::MAX { u32::MAX } else { f as u32 }
}

/// Converts a clip's length into frames.
pub fn frames_to_play(nanos: u64) -> (r: u32)
    ensures
        r == frames_to_play_spec(nanos),
{
    let f: u128 = nanos as u128 * ROLLBACK_FPS as u128 / 1_000_000_000;
    if f > u32::MAX as u128 {
        u32::MAX
    } else {
        f as u32
    }
}

/// How many frames each clip plays, where the clip's length is known.
#[derive(Clone, Copy, Debug, PartialEq, Eq, Structural)]
pub struct ClipFrames {
    pub laser_shoot: Option<u32>,
    pub swoosh_death: Option<u32>,
}

pub open spec fn clip_length(clips: ClipFrames, clip: SoundClip) -> Option<u32> {
    match clip {
        SoundClip::LaserShoot => clips.laser_shoot,
        SoundClip::SwooshDeath => clips.swoosh_death,
    }
}

/// A sound has played out once its clip's length has passed since its start frame.
pub open spec fn finished(s: RollbackSound, frame: u32, clips: ClipFrames) -> bool {
    match clip_length(clips, s.clip) {
        Some(n) => frames_since(frame, s.start_frame) >= n,
        None => false,
    }
}

fn finished_exec(s: RollbackSound, frame: u32, clips: ClipFrames) -> (r: bool)
    ensures
        r == finished(s, frame, clips),
{
    let length = match s.clip {
        SoundClip::LaserShoot => clips.laser_shoot,
        SoundClip::SwooshDeath => clips.swoosh_death,
    };
    match length {
        Some(n) => frame.wrapping_sub(s.start_frame) >= n,
        None => false,
    }
}

/// Removes the sound records that have played out by frame `frame`.
pub fn remove_finished_sounds(sounds: &mut Vec<RollbackSound>, frame: u32, clips: ClipFrames)
    ensures
        final(sounds)@ == old(sounds)@.filter(|s: RollbackSound| !finished(s, frame, clips)),
{
    let ghost start = sounds@;
    let mut kept: Vec<RollbackSound> = Vec::new();
    let mut i: usize = 0;
    while i < sounds.len()
        invariant
            i <= sounds@.len(),
            sounds@ == start,
            kept@ == start.take(i as int).filter(|s: RollbackSound| !finished(s, frame, clips)),
        decreases sounds@.len() - i,
    {
        let s = sounds[i];
        proof {
            assert(start.take(i + 1) =~= start.take(i as int).push(s));
            start.take(i as int).lemma_filter_push(s, |s: RollbackSound| !finished(s, frame, clips));
        }
        if !finished_exec(s, frame, clips) {
            kept.push(s);
        }
        i = i + 1;
    }
    assert(start.take(start.len() as int) =~= start);
    *sounds = kept;
}

/// Removes every sound record.
pub fn clear_sounds(sounds: &mut Vec<RollbackSound>)
    ensures
        final(sounds)@ == Seq::<RollbackSound>::empty(),
{
    sounds.clear();
}

/// Whether every record of `sounds` has been started already, as `playing` shows, or
/// is too late to start on frame `frame`.
pub open spec fn all_settled(playing: Seq<(SoundClip, usize)>, sounds: Seq<RollbackSound>, frame: u32) -> bool {
    forall|i: int|
        0 <= i < sounds.len() ==> playing.contains(#[trigger] sounds[i].key_spec()) || frames_since(
            frame,
            sounds[i].start_frame,
        ) > MAX_SOUND_DELAY
}

proof fn lemma_sync_grows(playing: Seq<(SoundClip, usize)>, sounds: Seq<RollbackSound>, frame: u32, k: (SoundClip, usize))
    requires
        playing.contains(k),
    ensures
        sync_spec(playing, sounds, frame).0.contains(k),
    decreases sounds.len(),
{
    if sounds.len() > 0 {
        lemma_sync_grows(playing, sounds.drop_last(), frame, k);
        let prev = sync_spec(playing, sounds.drop_last(), frame).0;
        let i = choose|i: int| 0 <= i < prev.len() && prev[i] == k;
        assert(prev.push(sounds.last().key_spec())[i] == k);
    }
}

proof fn lemma_sync_settles(playing: Seq<(SoundClip, usize)>, sounds: Seq<RollbackSound>, frame: u32)
    ensures
        all_settled(sync_spec(playing, sounds, frame).0, sounds, frame),
    decreases sounds.len(),
{
    if sounds.len() > 0 {
        let rest = sounds.drop_last();
        lemma_sync_settles(playing, rest, frame);
        let prev = sync_spec(playing, rest, frame).0;
        let now = sync_spec(playing, sounds, frame).0;
        let last = sounds.last();
        assert forall|i: int| 0 <= i < sounds.len() implies now.contains(#[trigger] sounds[i].key_spec())
            || frames_since(frame, sounds[i].start_frame) > MAX_SOUND_DELAY by {
            if i < rest.len() {
                assert(rest[i] == sounds[i]);
                if prev.contains(sounds[i].key_spec()) {
                    let j = choose|j: int| 0 <= j < prev.len() && prev[j] == sounds[i].key_spec();
                    assert(prev.push(last.key_spec())[j] == sounds[i].key_spec());
                }
            } else {
                if !prev.contains(last.key_spec()) && frames_since(frame, last.start_frame) <= MAX_SOUND_DELAY {
                    assert(now[prev.len() as int] == last.key_spec());
                }
            }
        }
    }
}

proof fn lemma_settled_starts_nothing(playing: Seq<(SoundClip, usize)>, sounds: Seq<RollbackSound>, frame: u32)
    requires
        all_settled(playing, sounds, frame),
    ensures
        sync_spec(playing, sounds, frame) == (playing, Seq::<SoundStart>::empty()),
    decreases sounds.len(),
{
    if sounds.len() > 0 {
        let rest = sounds.drop_last();
        assert forall|i: int| 0 <= i < rest.len() implies playing.contains(#[trigger] rest[i].key_spec())
            || frames_since(frame, rest[i].start_frame) > MAX_SOUND_DELAY by {
            assert(rest[i] == sounds[i]);
        }
        lemma_settled_starts_nothing(playing, rest, frame);
        assert(playing.contains(sounds[sounds.len() - 1].key_spec()) || frames_since(frame, sounds.last().start_frame)
            > MAX_SOUND_DELAY);
    }
}

/// Replaying a frame starts no sound twice: a second sync of the same records on the
/// same frame starts nothing, and a sound once started stays recorded as started.
pub proof fn sync_is_idempotent(
    playing: Seq<(SoundClip, usize)>,
    sounds: Seq<RollbackSound>,
    frame: u32,
    k: (SoundClip, usize),
)
    ensures
        ({
            let first = sync_spec(playing, sounds, frame);
            sync_spec(first.0, sounds, frame) == (first.0, Seq::<SoundStart>::empty())
        }),
        playing.contains(k) ==> sync_spec(playing, sounds, frame).0.contains(k),
{
    lemma_sync_settles(playing, sounds, frame);
    lemma_settled_starts_nothing(sync_spec(playing, sounds, frame).0, sounds, frame);
    if playing.contains(k) {
        lemma_sync_grows(playing, sounds, frame, k);
    }
}

} // verus!
