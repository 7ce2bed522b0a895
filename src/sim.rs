//! The replicated game state and the per-frame step.
//!
//! A frame first applies a pending round transition, then runs the systems of the
//! current round state. In a round the order is fixed: movement, reload, fire,
//! bullet flight, hits, removal of spent bullets, death marks, expiry of sounds,
//! sound sync, frame counter.
use vstd::prelude::*;
use crate::audio::{
    finished, remove_finished_sounds, sync_rollback_sounds, sync_spec, SoundClip, ClipFrames, PlaybackStates, RollbackSound, SoundStart,
};
use crate::map::{generate_map, map_layout, CellType, GridMap, Pos, MAP_CELLS};
use crate::player::{
    all_bullets_wf, all_wf, bullet_stays, bullets_hit, count_points_and_despawn, fire_bullets, fire_spec,
    flush_bullets, input_of, kill_players, kill_spec, mark_runs_out, move_bullet_spec, move_bullets,
    move_player_spec, move_players, process_deaths, reload_bullet, reload_spec, score_spec, spawn_players,
    spawn_players_spec, tick_mark, Bullet, Player, slots_ok, same_slots, lemma_fire_keeps_slots,
    lemma_kill_keeps_slots, lemma_filter_keeps_slots, distinct_handles, is_dead, score_symmetry,
    lemma_fire_effect, lemma_kill_effect, BulletReady,
};
use crate::input::{flag_set, INPUT_FIRE};
use crate::rng::{seeded_u64, GameSeed, SoundIdSeed, SoundSeed};

verus! {

/// Frames that the round-end pause lasts.
pub const ROUND_END_FRAMES: u32 = 60;

/// Points of the two player slots.
#[derive(Clone, Copy, Debug, Default, PartialEq, Eq, Structural)]
pub struct Scores(pub u32, pub u32);

/// The round state machine.
#[derive(Clone, Copy, Debug, PartialEq, Eq, Structural)]
pub enum RollbackState {
    /// The map is being generated before the round starts.
    PreRound,
    /// The players are running and gunning.
    InRound,
    /// A player died; the next round comes after a pause.
    RoundEnd,
}

/// Frames counted in the round-end pause; it repeats every `ROUND_END_FRAMES`.
#[derive(Clone, Copy, Debug, Default, PartialEq, Eq, Structural)]
pub struct RoundEndTimer(pub u32);

/// The simulation frame counter, which wraps.
#[derive(Clone, Copy, Debug, Default, PartialEq, Eq, Structural)]
pub struct GGFrameCount {
    pub frame: u32,
}

/// Counts one more frame.
pub fn increase_frame_system(frame_count: &mut GGFrameCount)
    ensures
        final(frame_count).frame == old(frame_count).frame.wrapping_add(1),
{
    frame_count.frame = frame_count.frame.wrapping_add(1);
}

/// Ticks the round-end pause by one frame; returns whether it ran out, which starts
/// the next round. The pause repeats, so it starts over from zero.
pub fn round_end_timeout(timer: &mut RoundEndTimer) -> (r: bool)
    requires
        old(timer).0 < ROUND_END_FRAMES,
    ensures
        r == (old(timer).0 + 1 >= ROUND_END_FRAMES),
        final(timer).0 == if r { old(timer).0 + 1 - ROUND_END_FRAMES } else { old(timer).0 + 1 },
        final(timer).0 < ROUND_END_FRAMES,
{
    let t = timer.0 + 1;
    if t >= ROUND_END_FRAMES {
        timer.0 = t - ROUND_END_FRAMES;
        true
    } else {
        timer.0 = t;
        false
    }
}

/// Everything that rolling back restores.
#[derive(Debug, PartialEq, Eq)]
pub struct SimState {
    pub frame: GGFrameCount,
    pub round: RollbackState,
    /// A round transition that takes effect at the start of the next frame.
    pub next_round: Option<RollbackState>,
    pub round_end_timer: RoundEndTimer,
    pub scores: Scores,
    pub seed: GameSeed,
    pub sound_seeds: SoundIdSeed,
    pub map: GridMap,
    pub players: Vec<Player>,
    pub bullets: Vec<Bullet>,
    pub sounds: Vec<RollbackSound>,
}

/// The value of a `SimState`.
pub ghost struct SimModel {
    pub frame: u32,
    pub round: RollbackState,
    pub next_round: Option<RollbackState>,
    pub round_end_timer: u32,
    pub scores: Scores,
    pub seed: u64,
    pub sound_seeds: SoundIdSeed,
    pub map: Seq<CellType>,
    pub players: Seq<Player>,
    pub bullets: Seq<Bullet>,
    pub sounds: Seq<RollbackSound>,
}

impl View for SimState {
    type V = SimModel;

    open spec fn view(&self) -> SimModel {
        SimModel {
            frame: self.frame.frame,
            round: self.round,
            next_round: self.next_round,
            round_end_timer: self.round_end_timer.0,
            scores: self.scores,
            seed: self.seed.0,
            sound_seeds: self.sound_seeds,
            map: self.map@,
            players: self.players@,
            bullets: self.bullets@,
            sounds: self.sounds@,
        }
    }
}

impl SimModel {
    pub open spec fn wf(self) -> bool {
        &&& self.map.len() == MAP_CELLS
        &&& all_wf(self.players)
        &&& slots_ok(self.players)
        &&& all_bullets_wf(self.bullets)
        &&& self.round_end_timer < ROUND_END_FRAMES
    }
}

/// The state on leaving a round: marked players are scored to their opponents and
/// removed, and every sound record is cleared.
pub open spec fn exit_round(s: SimModel) -> SimModel {
    SimModel {
        scores: score_spec(s.scores, s.players),
        players: s.players.filter(|p: Player| p.marked.is_none()),
        sounds: Seq::empty(),
        ..s
    }
}

/// The state on entering a round: fresh players on the map, no bullets, and the
/// spawn seed moved on.
pub open spec fn enter_round(s: SimModel) -> SimModel {
    SimModel {
        players: spawn_players_spec(s.map, s.seed),
        bullets: Seq::empty(),
        seed: seeded_u64(s.seed),
        ..s
    }
}

/// The state once a pending round transition has been applied.
pub open spec fn begin_frame(s: SimModel) -> SimModel {
    match s.next_round {
        Some(n) => {
            let cleared = SimModel { next_round: None, ..s };
            if n == s.round {
                cleared
            } else {
                let left = if s.round == RollbackState::InRound { exit_round(cleared) } else { cleared };
                let moved = SimModel { round: n, ..left };
                if n == RollbackState::InRound { enter_round(moved) } else { moved }
            }
        },
        None => s,
    }
}

/// Players after moving and reloading.
pub open spec fn moved_players(s: SimModel, inputs: [u8; 2]) -> Seq<Player> {
    s.players.map_values(|p: Player| move_player_spec(s.map, p, input_of(inputs, p.handle))).map_values(
        |p: Player| reload_spec(p, input_of(inputs, p.handle)),
    )
}

/// Players, new bullets, new sounds and sound seeds after firing.
pub open spec fn fired(s: SimModel, inputs: [u8; 2]) -> (Seq<Player>, Seq<Bullet>, Seq<RollbackSound>, SoundIdSeed) {
    let ps = moved_players(s, inputs);
    fire_spec(ps, inputs, s.sound_seeds, s.frame, ps.len())
}

/// Bullets after flying for the frame.
pub open spec fn flown_bullets(s: SimModel) -> Seq<Bullet> {
    s.bullets.map_values(|b: Bullet| move_bullet_spec(b))
}

/// Players, new sounds, sound seeds and explosions after the hits of the frame.
pub open spec fn killed(s: SimModel, inputs: [u8; 2]) -> (Seq<Player>, Seq<RollbackSound>, SoundIdSeed, Seq<Pos>) {
    let f = fired(s, inputs);
    kill_spec(f.0, flown_bullets(s), f.3, s.frame, f.0.len())
}

/// One frame of a round.
pub open spec fn in_round_spec(s: SimModel, inputs: [u8; 2], clips: ClipFrames) -> SimModel {
    let f = fired(s, inputs);
    let k = killed(s, inputs);
    let ended = exists|i: int| 0 <= i < k.0.len() && #[trigger] mark_runs_out(k.0[i]);
    SimModel {
        frame: s.frame.wrapping_add(1),
        next_round: if ended { Some(RollbackState::RoundEnd) } else { s.next_round },
        sound_seeds: k.2,
        players: k.0.map_values(|p: Player| tick_mark(p)),
        bullets: flown_bullets(s).filter(|b: Bullet| bullet_stays(s.map, f.0, b)) + f.1,
        sounds: s.sounds.filter(|r: RollbackSound| !finished(r, s.frame, clips)) + f.2 + k.1,
        ..s
    }
}

/// The systems of the current round state, once transitions are applied.
pub open spec fn run_systems(s: SimModel, inputs: [u8; 2], clips: ClipFrames) -> SimModel {
    match s.round {
        RollbackState::PreRound => SimModel { map: map_layout(), next_round: Some(RollbackState::InRound), ..s },
        RollbackState::InRound => in_round_spec(s, inputs, clips),
        RollbackState::RoundEnd => {
            let t = s.round_end_timer + 1;
            if t >= ROUND_END_FRAMES {
                SimModel {
                    round_end_timer: (t - ROUND_END_FRAMES) as u32,
                    next_round: Some(RollbackState::PreRound),
                    ..s
                }
            } else {
                SimModel { round_end_timer: t as u32, ..s }
            }
        },
    }
}

/// One simulation frame with the inputs `inputs` of the two player slots.
pub open spec fn step_spec(s: SimModel, inputs: [u8; 2], clips: ClipFrames) -> SimModel {
    run_systems(begin_frame(s), inputs, clips)
}

/// The state after one frame per entry of `inputs`, in order.
pub open spec fn run(s: SimModel, inputs: Seq<[u8; 2]>, clips: ClipFrames) -> SimModel
    decreases inputs.len(),
{
    if inputs.len() == 0 {
        s
    } else {
        step_spec(run(s, inputs.drop_last(), clips), inputs.last(), clips)
    }
}

/// What a frame hands to the presentation: explosions to show and sounds to start.
#[derive(Debug)]
pub struct FrameEvents {
    pub explosions: Vec<Pos>,
    pub sound_starts: Vec<SoundStart>,
}

impl SimState {
    /// The state of a new match with the agreed seeds: before the first round, with an
    /// empty map.
    pub fn new(seed: GameSeed, sound_seeds: SoundIdSeed) -> (r: SimState)
        ensures
            r@.wf(),
            r@.frame == 0,
            r@.round == RollbackState::PreRound,
            r@.next_round.is_none(),
            r@.round_end_timer == 0,
            r@.scores == Scores(0, 0),
            r@.seed == seed.0,
            r@.sound_seeds == sound_seeds,
            forall|i: int| 0 <= i < MAP_CELLS ==> r@.map[i] == CellType::Empty,
            r@.players.len() == 0,
            r@.bullets.len() == 0,
            r@.sounds.len() == 0,
    {
        SimState {
            frame: GGFrameCount { frame: 0 },
            round: RollbackState::PreRound,
            next_round: None,
            round_end_timer: RoundEndTimer(0),
            scores: Scores(0, 0),
            seed,
            sound_seeds,
            map: GridMap::new(),
            players: Vec::new(),
            bullets: Vec::new(),
            sounds: Vec::new(),
        }
    }

    fn begin_frame_exec(&mut self)
        requires
            old(self)@.wf(),
        ensures
            final(self)@ == begin_frame(old(self)@),
            final(self)@.wf(),
    {
        match self.next_round {
            Some(n) => {
                self.next_round = None;
                if n != self.round {
                    if self.round == RollbackState::InRound {
                        proof {
                            lemma_filter_keeps_slots(self.players@, |p: Player| p.marked.is_none());
                        }
                        count_points_and_despawn(&mut self.players, &mut self.scores);
                        self.sounds.clear();
                    }
                    self.round = n;
                    if n == RollbackState::InRound {
                        spawn_players(&mut self.players, &mut self.bullets, &mut self.seed, &self.map);
                    }
                }
            },
            None => {},
        }
    }

    fn in_round_exec(&mut self, playback: &mut PlaybackStates, inputs: [u8; 2], clips: ClipFrames) -> (r: FrameEvents)
        requires
            old(self)@.wf(),
            old(self)@.round == RollbackState::InRound,
        ensures
            final(self)@ == in_round_spec(old(self)@, inputs, clips),
            final(self)@.wf(),
            r.explosions@ == killed(old(self)@, inputs).3,
            (final(playback)@, r.sound_starts@) == sync_spec(old(playback)@, final(self)@.sounds, old(self)@.frame),
    {
        let ghost s0 = self@;
        let frame = self.frame.frame;
        move_players(&mut self.players, inputs, &self.map);
        reload_bullet(&mut self.players, inputs);
        assert(self.players@ == moved_players(s0, inputs));
        let (fired_bullets, fired_sounds) = fire_bullets(&mut self.players, inputs, frame, &mut self.sound_seeds);
        move_bullets(&mut self.bullets);
        let ghost shooters = self.players@;
        let hit = bullets_hit(&self.players, &self.bullets);
        let (death_sounds, explosions) = kill_players(&mut self.players, &self.bullets, frame, &mut self.sound_seeds);
        proof {
            assert forall|j: int| 0 <= j < self.bullets@.len() implies (#[trigger] self.bullets@[j]).move_dir.wf()
                && !self.bullets@[j].move_dir.is_zero() by {
                assert(s0.bullets[j].wf());
            }
        }
        flush_bullets(&mut self.bullets, &hit, fired_bullets, &self.map, Ghost(shooters));
        let ended = process_deaths(&mut self.players);
        if ended {
            self.next_round = Some(RollbackState::RoundEnd);
        }
        remove_finished_sounds(&mut self.sounds, frame, clips);
        let mut fs = fired_sounds;
        let mut ds = death_sounds;
        self.sounds.append(&mut fs);
        self.sounds.append(&mut ds);
        let sound_starts = sync_rollback_sounds(playback, &self.sounds, frame);
        increase_frame_system(&mut self.frame);
        proof {
            assert(self@.players =~= in_round_spec(s0, inputs, clips).players);
            let ps = moved_players(s0, inputs);
            let f = fired(s0, inputs);
            lemma_fire_keeps_slots(ps, inputs, s0.sound_seeds, s0.frame, ps.len());
            lemma_kill_keeps_slots(f.0, flown_bullets(s0), f.3, s0.frame, f.0.len());
            assert(same_slots(ps, s0.players));
            assert(same_slots(self@.players, s0.players));
        }
        FrameEvents { explosions, sound_starts }
    }

    /// Runs one simulation frame with the inputs of the two player slots. Sound
    /// starts are decided against `playback`, which lives outside the rolled-back
    /// state and is emptied when a new round is prepared.
    pub fn step(&mut self, playback: &mut PlaybackStates, inputs: [u8; 2], clips: ClipFrames) -> (r: FrameEvents)
        requires
            old(self)@.wf(),
        ensures
            final(self)@ == step_spec(old(self)@, inputs, clips),
            final(self)@.wf(),
            begin_frame(old(self)@).round == RollbackState::InRound ==> {
                &&& r.explosions@ == killed(begin_frame(old(self)@), inputs).3
                &&& (final(playback)@, r.sound_starts@) == sync_spec(
                    old(playback)@,
                    final(self)@.sounds,
                    begin_frame(old(self)@).frame,
                )
            },
            begin_frame(old(self)@).round != RollbackState::InRound ==> {
                &&& r.explosions@.len() == 0
                &&& r.sound_starts@.len() == 0
            },
            begin_frame(old(self)@).round == RollbackState::PreRound ==> final(playback)@ == Seq::<
                (SoundClip, usize),
            >::empty(),
            begin_frame(old(self)@).round == RollbackState::RoundEnd ==> final(playback)@ == old(playback)@,
    {
        self.begin_frame_exec();
        match self.round {
            RollbackState::PreRound => {
                // The round-end pause outlasts any rollback, so no sound of the last
                // round can be replayed from here on.
                playback.clear();
                self.map = generate_map();
                self.next_round = Some(RollbackState::InRound);
                FrameEvents { explosions: Vec::new(), sound_starts: Vec::new() }
            },
            RollbackState::InRound => self.in_round_exec(playback, inputs, clips),
            RollbackState::RoundEnd => {
                if round_end_timeout(&mut self.round_end_timer) {
                    self.next_round = Some(RollbackState::PreRound);
                }
                FrameEvents { explosions: Vec::new(), sound_starts: Vec::new() }
            },
        }
    }
}

/// A copy of `v`, element by element.
pub fn copy_vec<T: Copy>(v: &Vec<T>) -> (r: Vec<T>)
    ensures
        r@ == v@,
{
    let mut out: Vec<T> = Vec::new();
    let mut i: usize = 0;
    while i < v.len()
        invariant
            i <= v@.len(),
            out@ == v@.take(i as int),
        decreases v@.len() - i,
    {
        out.push(v[i]);
        i = i + 1;
        assert(out@ =~= v@.take(i as int));
    }
    assert(v@.take(v@.len() as int) =~= v@);
    out
}

impl SimState {
    /// A copy of the whole state, as a snapshot for rolling back.
    pub fn snapshot(&self) -> (r: SimState)
        ensures
            r@ == self@,
    {
        SimState {
            frame: self.frame,
            round: self.round,
            next_round: self.next_round,
            round_end_timer: self.round_end_timer,
            scores: self.scores,
            seed: self.seed,
            sound_seeds: self.sound_seeds,
            map: GridMap { cells: copy_vec(&self.map.cells) },
            players: copy_vec(&self.players),
            bullets: copy_vec(&self.bullets),
            sounds: copy_vec(&self.sounds),
        }
    }

    /// Runs one frame per entry of `inputs`, in order.
    pub fn run_frames(&mut self, playback: &mut PlaybackStates, inputs: &Vec<[u8; 2]>, clips: ClipFrames)
        requires
            old(self)@.wf(),
        ensures
            final(self)@ == run(old(self)@, inputs@, clips),
            final(self)@.wf(),
    {
        let ghost s0 = self@;
        let mut i: usize = 0;
        while i < inputs.len()
            invariant
                i <= inputs@.len(),
                self@.wf(),
                self@ == run(s0, inputs@.take(i as int), clips),
            decreases inputs@.len() - i,
        {
            self.step(playback, inputs[i], clips);
            proof {
                assert(inputs@.take(i + 1).drop_last() =~= inputs@.take(i as int));
            }
            i = i + 1;
        }
        assert(inputs@.take(inputs@.len() as int) =~= inputs@);
    }
}

/// Two runs from the same state with the same inputs end in the same state:
/// positions, scores, map, seeds and frame counter alike.
pub proof fn determinism(s1: SimModel, s2: SimModel, inputs: Seq<[u8; 2]>, clips: ClipFrames)
    requires
        s1 == s2,
    ensures
        run(s1, inputs, clips) == run(s2, inputs, clips),
{
}

/// Running `a` and then `b` is running `a + b`.
pub proof fn lemma_run_append(s: SimModel, a: Seq<[u8; 2]>, b: Seq<[u8; 2]>, clips: ClipFrames)
    ensures
        run(run(s, a, clips), b, clips) == run(s, a + b, clips),
    decreases b.len(),
{
    if b.len() == 0 {
        assert(a + b =~= a);
    } else {
        lemma_run_append(s, a, b.drop_last(), clips);
        assert((a + b).drop_last() =~= a + b.drop_last());
        assert((a + b).last() == b.last());
    }
}

/// Rolling back from frame `n` to the state saved at frame `k` and replaying the
/// same inputs reaches again the state of frame `n`.
pub proof fn rollback_replay(s0: SimModel, inputs: Seq<[u8; 2]>, k: int, n: int, clips: ClipFrames)
    requires
        0 <= k <= n <= inputs.len(),
    ensures
        run(run(s0, inputs.take(k), clips), inputs.subrange(k, n), clips) == run(s0, inputs.take(n), clips),
{
    lemma_run_append(s0, inputs.take(k), inputs.subrange(k, n), clips);
    assert(inputs.take(k) + inputs.subrange(k, n) =~= inputs.take(n));
}

/// After a frame of a round, every bullet but those fired on that frame lies within
/// the map: a bullet that crosses the map's edge is gone in the same frame.
pub proof fn bullets_leave_at_edge(s: SimModel, inputs: [u8; 2], clips: ClipFrames)
    requires
        s.wf(),
        begin_frame(s).round == RollbackState::InRound,
    ensures
        ({
            let r = step_spec(s, inputs, clips);
            let kept = r.bullets.len() - fired(begin_frame(s), inputs).1.len();
            forall|j: int|
                0 <= j < kept ==> crate::player::abs(#[trigger] r.bullets[j].pos.x as int) <= crate::map::HALF_EXTENT
                    && crate::player::abs(r.bullets[j].pos.y as int) <= crate::map::HALF_EXTENT
        }),
{
    let b = begin_frame(s);
    let f = fired(b, inputs);
    let pred = |x: Bullet| bullet_stays(b.map, f.0, x);
    let kept = flown_bullets(b).filter(pred);
    let r = step_spec(s, inputs, clips);
    assert(r.bullets == kept + f.1);
    assert forall|j: int| 0 <= j < kept.len() implies crate::player::abs(#[trigger] r.bullets[j].pos.x as int)
        <= crate::map::HALF_EXTENT && crate::player::abs(r.bullets[j].pos.y as int) <= crate::map::HALF_EXTENT by {
        flown_bullets(b).lemma_filter_pred(pred, j);
        assert(r.bullets[j] == kept[j]);
    }
}

/// Position of the player in slot `handle`, the first one listed.
pub open spec fn player_position_spec(players: Seq<Player>, handle: usize) -> Option<Pos>
    decreases players.len(),
{
    if players.len() == 0 {
        None
    } else if players[0].handle == handle {
        Some(players[0].pos)
    } else {
        player_position_spec(players.drop_first(), handle)
    }
}

/// Where the player in slot `handle` stands, for the camera and the sound listener
/// to follow; `None` when that player is not in the game.
pub fn player_position(players: &Vec<Player>, handle: usize) -> (r: Option<Pos>)
    ensures
        r == player_position_spec(players@, handle),
{
    let mut i: usize = 0;
    assert(players@.subrange(0, players@.len() as int) =~= players@);
    while i < players.len()
        invariant
            i <= players@.len(),
            player_position_spec(players@, handle) == player_position_spec(players@.subrange(i as int, players@.len() as int), handle),
        decreases players@.len() - i,
    {
        let ghost rest = players@.subrange(i as int, players@.len() as int);
        if players[i].handle == handle {
            assert(rest[0] == players@[i as int]);
            return Some(players[i].pos);
        }
        assert(rest.drop_first() =~= players@.subrange(i + 1, players@.len() as int));
        i = i + 1;
    }
    assert(players@.subrange(i as int, players@.len() as int).len() == 0);
    None
}

/// Leaving a round scores each death to the opponent: a death of player 0 gives
/// player 1 exactly one point, a death of player 1 gives player 0 exactly one, and
/// when both died in the same frame both score.
pub proof fn round_end_scoring(s: SimModel)
    requires
        s.wf(),
    ensures
        exit_round(s).scores == Scores(
            if is_dead(s.players, 1) { s.scores.0.wrapping_add(1) } else { s.scores.0 },
            if is_dead(s.players, 0) { s.scores.1.wrapping_add(1) } else { s.scores.1 },
        ),
{
    assert(distinct_handles(s.players));
    score_symmetry(s.scores, s.players);
}

/// After a frame of a round, every player whose input did not hold fire is ready to
/// fire again: readiness stays cleared only while fire is held.
pub proof fn release_reloads(s: SimModel, inputs: [u8; 2], clips: ClipFrames)
    requires
        s.wf(),
        begin_frame(s).round == RollbackState::InRound,
    ensures
        ({
            let b = begin_frame(s);
            let r = step_spec(s, inputs, clips);
            &&& r.players.len() == b.players.len()
            &&& forall|i: int|
                0 <= i < r.players.len() && !flag_set(input_of(inputs, b.players[i].handle), INPUT_FIRE)
                    ==> (#[trigger] r.players[i]).bullet_ready == BulletReady(true)
        }),
{
    let b = begin_frame(s);
    let ps = moved_players(b, inputs);
    let f = fired(b, inputs);
    lemma_fire_effect(ps, inputs, b.sound_seeds, b.frame, ps.len());
    lemma_kill_effect(f.0, flown_bullets(b), f.3, b.frame, f.0.len());
    let r = step_spec(s, inputs, clips);
    assert forall|i: int|
        0 <= i < r.players.len() && !flag_set(input_of(inputs, b.players[i].handle), INPUT_FIRE) implies (
        #[trigger] r.players[i]).bullet_ready == BulletReady(true) by {
        assert(ps[i].handle == b.players[i].handle);
        assert(ps[i].bullet_ready == BulletReady(true));
        assert(f.0[i] == ps[i]);
        assert(killed(b, inputs).0[i].bullet_ready == f.0[i].bullet_ready);
    }
}

} // verus!
