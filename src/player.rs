//! Players and bullets: movement with wall collision, firing, reloading, bullet
//! flight, hits, death marks and scoring.
use vstd::prelude::*;
use crate::input::{
    direction, direction_spec, directional_sprite_spec, fire, flag_set, get_directional_sprite, MoveDir, INPUT_FIRE,
};
use crate::audio::{RollbackSound, SoundClip};
use crate::rng::{draw_u32_then_u64, draw_u64, seeded_u32, seeded_u64, seeded_u64_after_u32, GameSeed, SoundIdSeed};
use crate::sim::Scores;
use crate::map::{
    grid_to_world, grid_to_world_spec, world_to_grid, world_to_grid_spec, CellType, GridMap, Pos,
    cell_of, map_layout, pattern_cell, CELL, HALF_EXTENT, MAP_CELLS, MAP_SIZE,
};

verus! {

/// Furthest a player's centre may be from the origin on either axis.
pub const PLAYER_LIMIT: i64 = 20000;

/// Distance a player moves per frame along an axis.
pub const PLAYER_SPEED: i64 = 130;

/// Distance a player moving diagonally moves per frame along each axis.
pub const PLAYER_SPEED_DIAGONAL: i64 = 92;

/// Distance a bullet flies per frame along an axis.
pub const BULLET_SPEED: i64 = 350;

/// Distance a bullet flying diagonally moves per frame along each axis.
pub const BULLET_SPEED_DIAGONAL: i64 = 247;

pub const PLAYER_RADIUS: i64 = 500;

pub const BULLET_RADIUS: i64 = 25;

/// Distance from a player's centre at which its bullets appear: the two radii, so
/// that the bullet starts just clear of the player.
pub const MUZZLE_DISTANCE: i64 = PLAYER_RADIUS + BULLET_RADIUS;

/// `MUZZLE_DISTANCE` taken along each axis of a diagonal.
pub const MUZZLE_DISTANCE_DIAGONAL: i64 = 371;

/// A hit needs the centres closer than the sum of the radii.
pub const HIT_DISTANCE: i64 = PLAYER_RADIUS + BULLET_RADIUS;

/// Frames between a hit and the end of the round.
pub const DEATH_FRAMES: u32 = 30;

/// Furthest a bullet's centre can be from the origin on either axis between frames.
pub const BULLET_LIMIT: i64 = 21000;

/// Furthest a bullet's centre can be from the origin on either axis within a frame.
pub const MOVED_BULLET_LIMIT: i64 = 21350;

/// Whether a player may fire; cleared by firing, set again once fire is released.
#[derive(Clone, Copy, Debug, Default, PartialEq, Eq, Structural)]
pub struct BulletReady(pub bool);

/// A hit player: frames counted since the hit; the round ends when it reaches
/// `DEATH_FRAMES`.
#[derive(Clone, Copy, Debug, Default, PartialEq, Eq, Structural)]
pub struct MarkedForDeath(pub u32);

/// A player entity.
#[derive(Clone, Copy, Debug, PartialEq, Eq, Structural)]
pub struct Player {
    /// Slot of the player in the match, 0 or 1.
    pub handle: usize,
    pub pos: Pos,
    /// Last direction moved in, which is also the facing.
    pub move_dir: MoveDir,
    pub bullet_ready: BulletReady,
    pub marked: Option<MarkedForDeath>,
}

/// A bullet entity.
#[derive(Clone, Copy, Debug, PartialEq, Eq, Structural)]
pub struct Bullet {
    pub pos: Pos,
    pub move_dir: MoveDir,
}

pub open spec fn within(v: i64, limit: i64) -> bool {
    -limit <= v <= limit
}

impl Player {
    pub open spec fn wf(self) -> bool {
        &&& self.handle < 2
        &&& within(self.pos.x, PLAYER_LIMIT)
        &&& within(self.pos.y, PLAYER_LIMIT)
        &&& self.move_dir.wf()
        &&& !self.move_dir.is_zero()
        &&& (self.marked matches Some(m) ==> m.0 <= DEATH_FRAMES)
    }
}

impl Bullet {
    pub open spec fn wf(self) -> bool {
        &&& within(self.pos.x, BULLET_LIMIT)
        &&& within(self.pos.y, BULLET_LIMIT)
        &&& self.move_dir.wf()
        &&& !self.move_dir.is_zero()
    }
}

/// `d` scaled by `straight`, or by `diagonal` on each axis when `d` is diagonal.
pub open spec fn scaled(d: MoveDir, straight: i64, diagonal: i64) -> Pos {
    let s = if d.is_diagonal() { diagonal } else { straight };
    Pos { x: (d.x * s) as i64, y: (d.y * s) as i64 }
}

pub open spec fn pos_add(a: Pos, b: Pos) -> Pos {
    Pos { x: (a.x + b.x) as i64, y: (a.y + b.y) as i64 }
}

fn scaled_exec(d: MoveDir, straight: i64, diagonal: i64) -> (r: Pos)
    requires
        d.wf(),
        0 <= straight <= 1000,
        0 <= diagonal <= 1000,
    ensures
        r == scaled(d, straight, diagonal),
{
    let s = if d.x != 0 && d.y != 0 { diagonal } else { straight };
    let x = if d.x > 0 { s } else if d.x < 0 { -s } else { 0 };
    let y = if d.y > 0 { s } else if d.y < 0 { -s } else { 0 };
    assert(x == d.x * s && y == d.y * s) by (nonlinear_arith)
        requires
            -1 <= d.x <= 1,
            -1 <= d.y <= 1,
            d.x > 0 ==> x == s,
            d.x < 0 ==> x == -s,
            d.x == 0 ==> x == 0,
            d.y > 0 ==> y == s,
            d.y < 0 ==> y == -s,
            d.y == 0 ==> y == 0;
    Pos { x, y }
}

/// The direction of a probe along an axis: backwards only for a negative component.
pub open spec fn probe_sign(v: i64) -> int {
    if v >= 0 { 1 } else { -1 }
}

pub open spec fn abs(v: int) -> int {
    if v < 0 { -v } else { v }
}

/// Two cell-sized squares centred on `a` and `b` overlap.
pub open spec fn squares_overlap(a: Pos, b: Pos) -> bool {
    abs(a.x - b.x) < CELL && abs(a.y - b.y) < CELL
}

/// Checks whether two cell-sized squares centred on `player` and `wall` overlap.
pub fn wall_check(player: Pos, wall: Pos) -> (r: bool)
    ensures
        r == squares_overlap(player, wall),
{
    let dx = player.x as i128 - wall.x as i128;
    let dy = player.y as i128 - wall.y as i128;
    -(CELL as i128) < dx && dx < CELL as i128 && -(CELL as i128) < dy && dy < CELL as i128
}

/// Whether a player at `pos` runs into cell `cell` of `cells`: a wall whose square
/// overlaps the player's.
pub open spec fn collides(cells: Seq<CellType>, pos: Pos, cell: Option<(u32, u32)>) -> bool {
    match cell {
        Some(c) => crate::map::cell_of(cells, c.0 as int, c.1 as int) == CellType::WallBlock
            && squares_overlap(pos, grid_to_world_spec(c.0 as int, c.1 as int)),
        None => false,
    }
}

/// Checks whether a player at `player_pos` collides with a wall in `cell`.
pub fn cell_collide(map_data: &GridMap, player_pos: Pos, cell: Option<(u32, u32)>) -> (r: bool)
    requires
        map_data.wf(),
        cell matches Some(c) ==> c.0 < MAP_SIZE && c.1 < MAP_SIZE,
    ensures
        r == collides(map_data@, player_pos, cell),
{
    match cell {
        Some(c) => {
            match map_data.cell_at(c.0, c.1) {
                CellType::WallBlock => wall_check(player_pos, grid_to_world(c)),
                CellType::Empty => false,
            }
        },
        None => false,
    }
}

pub open spec fn offset(p: Pos, dx: int, dy: int) -> Pos {
    Pos { x: (p.x + dx) as i64, y: (p.y + dy) as i64 }
}

/// The move of a player at `old` heading `d` along each axis on its own, once walls
/// in the column and the row it heads for are taken into account.
///
/// The horizontal part is dropped when the player would run into a wall in the
/// column it heads for, on its own row or on the row behind it; the vertical part
/// likewise.
pub open spec fn axis_delta_spec(cells: Seq<CellType>, old: Pos, d: MoveDir) -> Pos {
    let sx = probe_sign(d.x) * CELL;
    let sy = probe_sign(d.y) * CELL;
    let step = scaled(d, PLAYER_SPEED, PLAYER_SPEED_DIAGONAL);
    let h = world_to_grid_spec(offset(old, sx, 0));
    let h2 = world_to_grid_spec(offset(old, sx, -sy));
    let v = world_to_grid_spec(offset(old, 0, sy));
    let v2 = world_to_grid_spec(offset(old, -sx, sy));
    let dx1 = if collides(cells, offset(old, step.x as int, 0), h) { 0 } else { step.x };
    let dx = if collides(cells, offset(old, dx1 as int, 0), h2) { 0 } else { dx1 };
    let dy1 = if collides(cells, offset(old, 0, step.y as int), v) { 0 } else { step.y };
    let dy = if collides(cells, offset(old, 0, dy1 as int), v2) { 0 } else { dy1 };
    Pos { x: dx, y: dy }
}

/// The move of a player at `old` heading `d` once walls are taken into account:
/// the move of `axis_delta_spec`, and when that runs into the cell diagonally
/// ahead, the player slides along the axis on which it is further from that cell's
/// centre.
pub open spec fn move_delta_spec(cells: Seq<CellType>, old: Pos, d: MoveDir) -> Pos {
    let a = axis_delta_spec(cells, old, d);
    let dx = a.x;
    let dy = a.y;
    let hv = world_to_grid_spec(offset(old, probe_sign(d.x) * CELL, probe_sign(d.y) * CELL));
    let pp = offset(old, dx as int, dy as int);
    if collides(cells, pp, hv) {
        let c = grid_to_world_spec(hv.unwrap().0 as int, hv.unwrap().1 as int);
        if abs(pp.y - c.y) > abs(pp.x - c.x) {
            Pos { x: 0, y: dy }
        } else {
            Pos { x: dx, y: 0 }
        }
    } else {
        Pos { x: dx, y: dy }
    }
}

pub open spec fn clamp(v: int, limit: int) -> i64 {
    (if v < -limit { -limit } else if v > limit { limit } else { v }) as i64
}

/// A player after the movement part of a frame with input `input`.
pub open spec fn move_player_spec(cells: Seq<CellType>, p: Player, input: u8) -> Player {
    let d = direction_spec(input);
    if d.is_zero() {
        p
    } else {
        let delta = move_delta_spec(cells, p.pos, d);
        Player {
            pos: Pos {
                x: clamp(p.pos.x + delta.x, PLAYER_LIMIT as int),
                y: clamp(p.pos.y + delta.y, PLAYER_LIMIT as int),
            },
            move_dir: d,
            ..p
        }
    }
}

fn probe_sign_exec(v: i64) -> (r: i64)
    ensures
        r == probe_sign(v),
{
    if v >= 0 { 1 } else { -1 }
}

fn abs_exec(v: i64) -> (r: i64)
    requires
        within(v, 1_000_000),
    ensures
        r == abs(v as int),
{
    if v < 0 { -v } else { v }
}

fn axis_delta(map_data: &GridMap, old: Pos, d: MoveDir) -> (r: Pos)
    requires
        map_data.wf(),
        within(old.x, PLAYER_LIMIT),
        within(old.y, PLAYER_LIMIT),
        d.wf(),
    ensures
        r == axis_delta_spec(map_data@, old, d),
        within(r.x, PLAYER_SPEED),
        within(r.y, PLAYER_SPEED),
{
    let sx = probe_sign_exec(d.x) * CELL;
    let sy = probe_sign_exec(d.y) * CELL;
    let step = scaled_exec(d, PLAYER_SPEED, PLAYER_SPEED_DIAGONAL);
    let h = world_to_grid(Pos { x: old.x + sx, y: old.y });
    let h2 = world_to_grid(Pos { x: old.x + sx, y: old.y - sy });
    let v = world_to_grid(Pos { x: old.x, y: old.y + sy });
    let v2 = world_to_grid(Pos { x: old.x - sx, y: old.y + sy });
    let mut dx = step.x;
    if cell_collide(map_data, Pos { x: old.x + dx, y: old.y }, h) {
        dx = 0;
    }
    if cell_collide(map_data, Pos { x: old.x + dx, y: old.y }, h2) {
        dx = 0;
    }
    let mut dy = step.y;
    if cell_collide(map_data, Pos { x: old.x, y: old.y + dy }, v) {
        dy = 0;
    }
    if cell_collide(map_data, Pos { x: old.x, y: old.y + dy }, v2) {
        dy = 0;
    }
    Pos { x: dx, y: dy }
}

fn move_delta(map_data: &GridMap, old: Pos, d: MoveDir) -> (r: Pos)
    requires
        map_data.wf(),
        within(old.x, PLAYER_LIMIT),
        within(old.y, PLAYER_LIMIT),
        d.wf(),
    ensures
        r == move_delta_spec(map_data@, old, d),
        within(r.x, PLAYER_SPEED),
        within(r.y, PLAYER_SPEED),
{
    let a = axis_delta(map_data, old, d);
    let dx = a.x;
    let dy = a.y;
    let hv = world_to_grid(Pos { x: old.x + probe_sign_exec(d.x) * CELL, y: old.y + probe_sign_exec(d.y) * CELL });
    let pp = Pos { x: old.x + dx, y: old.y + dy };
    if cell_collide(map_data, pp, hv) {
        let cell = hv.unwrap();
        let c = grid_to_world(cell);
        if abs_exec(pp.y - c.y) > abs_exec(pp.x - c.x) {
            Pos { x: 0, y: dy }
        } else {
            Pos { x: dx, y: 0 }
        }
    } else {
        Pos { x: dx, y: dy }
    }
}

fn clamp_exec(v: i64, limit: i64) -> (r: i64)
    requires
        limit >= 0,
    ensures
        r == clamp(v as int, limit as int),
        within(r, limit),
{
    if v < -limit {
        -limit
    } else if v > limit {
        limit
    } else {
        v
    }
}

/// Moves one player by its input for this frame.
pub fn move_player(map_data: &GridMap, p: Player, input: u8) -> (r: Player)
    requires
        map_data.wf(),
        p.wf(),
    ensures
        r == move_player_spec(map_data@, p, input),
        r.wf(),
{
    let d = direction(input);
    if d.x == 0 && d.y == 0 {
        return p;
    }
    let delta = move_delta(map_data, p.pos, d);
    Player {
        pos: Pos {
            x: clamp_exec(p.pos.x + delta.x, PLAYER_LIMIT),
            y: clamp_exec(p.pos.y + delta.y, PLAYER_LIMIT),
        },
        move_dir: d,
        ..p
    }
}

/// The input of the player in slot `handle`.
pub open spec fn input_of(inputs: [u8; 2], handle: usize) -> u8 {
    inputs@[handle as int]
}

pub open spec fn all_wf(players: Seq<Player>) -> bool {
    forall|i: int| 0 <= i < players.len() ==> #[trigger] players[i].wf()
}

pub open spec fn bullets_within(bullets: Seq<Bullet>, limit: i64) -> bool {
    forall|k: int|
        0 <= k < bullets.len() ==> within(#[trigger] bullets[k].pos.x, limit) && within(bullets[k].pos.y, limit)
}

pub open spec fn all_bullets_wf(bullets: Seq<Bullet>) -> bool {
    forall|i: int| 0 <= i < bullets.len() ==> #[trigger] bullets[i].wf()
}

/// Moves every player by its input for this frame.
pub fn move_players(players: &mut Vec<Player>, inputs: [u8; 2], map_data: &GridMap)
    requires
        map_data.wf(),
        all_wf(old(players)@),
    ensures
        final(players)@ == old(players)@.map_values(
            |p: Player| move_player_spec(map_data@, p, input_of(inputs, p.handle)),
        ),
        all_wf(final(players)@),
{
    let ghost start = players@;
    let mut i: usize = 0;
    while i < players.len()
        invariant
            map_data.wf(),
            players@.len() == start.len(),
            all_wf(start),
            all_wf(players@),
            forall|k: int| 0 <= k < i ==> #[trigger] players@[k] == move_player_spec(map_data@, start[k], input_of(inputs, start[k].handle)),
            forall|k: int| i <= k < players@.len() ==> #[trigger] players@[k] == start[k],
        decreases players@.len() - i,
    {
        let p = players[i];
        assert(p.wf());
        let np = move_player(map_data, p, inputs[p.handle]);
        players.set(i, np);
        i = i + 1;
    }
    assert(players@ =~= start.map_values(
        |p: Player| move_player_spec(map_data@, p, input_of(inputs, p.handle)),
    ));
}

/// A player after reloading: ready again on a frame without fire.
pub open spec fn reload_spec(p: Player, input: u8) -> Player {
    if !flag_set(input, INPUT_FIRE) {
        Player { bullet_ready: BulletReady(true), ..p }
    } else {
        p
    }
}

/// Makes every player who does not hold fire ready to fire again.
pub fn reload_bullet(players: &mut Vec<Player>, inputs: [u8; 2])
    requires
        all_wf(old(players)@),
    ensures
        final(players)@ == old(players)@.map_values(|p: Player| reload_spec(p, input_of(inputs, p.handle))),
        all_wf(final(players)@),
{
    let ghost start = players@;
    let mut i: usize = 0;
    while i < players.len()
        invariant
            players@.len() == start.len(),
            all_wf(start),
            all_wf(players@),
            forall|k: int| 0 <= k < i ==> #[trigger] players@[k] == reload_spec(start[k], input_of(inputs, start[k].handle)),
            forall|k: int| i <= k < players@.len() ==> #[trigger] players@[k] == start[k],
        decreases players@.len() - i,
    {
        let p = players[i];
        assert(p.wf());
        if !fire(inputs[p.handle]) {
            players.set(i, Player { bullet_ready: BulletReady(true), ..p });
        }
        assert(players@[i as int].wf());
        i = i + 1;
    }
    assert(players@ =~= start.map_values(|p: Player| reload_spec(p, input_of(inputs, p.handle))));
}

/// Whether player `p` fires this frame: not hit, asking to fire, and ready.
pub open spec fn fires(p: Player, input: u8) -> bool {
    p.marked.is_none() && flag_set(input, INPUT_FIRE) && p.bullet_ready.0
}

/// Where a bullet fired by `p` appears: `MUZZLE_DISTANCE` from the player along
/// its facing.
pub open spec fn muzzle(p: Player) -> Pos {
    pos_add(p.pos, scaled(p.move_dir, MUZZLE_DISTANCE, MUZZLE_DISTANCE_DIAGONAL))
}

/// Players, new bullets, new sounds and sound seeds once the first `n` players
/// have had their turn to fire on frame `frame`.
pub open spec fn fire_spec(players: Seq<Player>, inputs: [u8; 2], seeds: SoundIdSeed, frame: u32, n: nat) -> (
    Seq<Player>,
    Seq<Bullet>,
    Seq<RollbackSound>,
    SoundIdSeed,
)
    decreases n,
{
    if n == 0 {
        (players, Seq::empty(), Seq::empty(), seeds)
    } else {
        let prev = fire_spec(players, inputs, seeds, frame, (n - 1) as nat);
        let p = players[n - 1];
        if fires(p, input_of(inputs, p.handle)) {
            (
                prev.0.update(n - 1, Player { bullet_ready: BulletReady(false), ..p }),
                prev.1.push(Bullet { pos: muzzle(p), move_dir: p.move_dir }),
                prev.2.push(
                    RollbackSound {
                        clip: SoundClip::LaserShoot,
                        start_frame: frame,
                        sub_key: prev.3.drawn(p.handle) as usize,
                    },
                ),
                prev.3.advanced(p.handle),
            )
        } else {
            prev
        }
    }
}

/// Fires a bullet for every player who is not hit, asks to fire and is ready; each
/// shot clears the player's readiness and triggers a laser sound keyed by the next
/// value of the player's sound seed. Returns the new bullets and sounds.
pub fn fire_bullets(
    players: &mut Vec<Player>,
    inputs: [u8; 2],
    frame: u32,
    sound_id: &mut SoundIdSeed,
) -> (r: (Vec<Bullet>, Vec<RollbackSound>))
    requires
        all_wf(old(players)@),
    ensures
        (final(players)@, r.0@, r.1@, *final(sound_id)) == fire_spec(
            old(players)@,
            inputs,
            *old(sound_id),
            frame,
            old(players)@.len() as nat,
        ),
        all_wf(final(players)@),
        all_bullets_wf(r.0@),
{
    let ghost start = players@;
    let ghost seeds0 = *sound_id;
    let mut bullets: Vec<Bullet> = Vec::new();
    let mut sounds: Vec<RollbackSound> = Vec::new();
    let mut i: usize = 0;
    while i < players.len()
        invariant
            i <= players@.len(),
            players@.len() == start.len(),
            all_wf(start),
            all_wf(players@),
            all_bullets_wf(bullets@),
            (players@, bullets@, sounds@, *sound_id) == fire_spec(start, inputs, seeds0, frame, i as nat),
            forall|k: int| i <= k < players@.len() ==> #[trigger] players@[k] == start[k],
        decreases players@.len() - i,
    {
        let p = players[i];
        assert(p.wf());
        if p.marked.is_none() && fire(inputs[p.handle]) && p.bullet_ready.0 {
            let o = scaled_exec(p.move_dir, MUZZLE_DISTANCE, MUZZLE_DISTANCE_DIAGONAL);
            let pos = Pos { x: p.pos.x + o.x, y: p.pos.y + o.y };
            bullets.push(Bullet { pos, move_dir: p.move_dir });
            let snd = sound_id.next_us(p.handle);
            sounds.push(RollbackSound { clip: SoundClip::LaserShoot, start_frame: frame, sub_key: snd });
            players.set(i, Player { bullet_ready: BulletReady(false), ..p });
            assert(players@[i as int].wf());
        }
        i = i + 1;
    }
    (bullets, sounds)
}

/// A bullet after flying for one frame.
pub open spec fn move_bullet_spec(b: Bullet) -> Bullet {
    Bullet { pos: pos_add(b.pos, scaled(b.move_dir, BULLET_SPEED, BULLET_SPEED_DIAGONAL)), ..b }
}

/// Moves every bullet along its direction.
pub fn move_bullets(bullets: &mut Vec<Bullet>)
    requires
        all_bullets_wf(old(bullets)@),
    ensures
        final(bullets)@ == old(bullets)@.map_values(|b: Bullet| move_bullet_spec(b)),
        bullets_within(final(bullets)@, MOVED_BULLET_LIMIT),
{
    let ghost start = bullets@;
    let mut i: usize = 0;
    while i < bullets.len()
        invariant
            bullets@.len() == start.len(),
            all_bullets_wf(start),
            forall|k: int| 0 <= k < i ==> #[trigger] bullets@[k] == move_bullet_spec(start[k]),
            forall|k: int| 0 <= k < i ==> within(#[trigger] bullets@[k].pos.x, MOVED_BULLET_LIMIT) && within(bullets@[k].pos.y, MOVED_BULLET_LIMIT),
            forall|k: int| i <= k < bullets@.len() ==> #[trigger] bullets@[k] == start[k],
        decreases bullets@.len() - i,
    {
        let b = bullets[i];
        assert(b.wf());
        let d = scaled_exec(b.move_dir, BULLET_SPEED, BULLET_SPEED_DIAGONAL);
        bullets.set(i, Bullet { pos: Pos { x: b.pos.x + d.x, y: b.pos.y + d.y }, ..b });
        i = i + 1;
    }
    assert(bullets@ =~= start.map_values(|b: Bullet| move_bullet_spec(b)));
}

/// A bullet leaves the game once it is past the map's edge or inside a wall.
pub open spec fn bullet_spent_spec(cells: Seq<CellType>, b: Bullet) -> bool {
    abs(b.pos.x as int) > HALF_EXTENT || abs(b.pos.y as int) > HALF_EXTENT || match world_to_grid_spec(b.pos) {
        Some(c) => cell_of(cells, c.0 as int, c.1 as int) == CellType::WallBlock,
        None => false,
    }
}

/// Checks whether bullet `b` has left the map or flown into a wall.
pub fn bullet_spent(map_data: &GridMap, b: Bullet) -> (r: bool)
    requires
        map_data.wf(),
    ensures
        r == bullet_spent_spec(map_data@, b),
{
    if b.pos.x > HALF_EXTENT || b.pos.x < -HALF_EXTENT || b.pos.y > HALF_EXTENT || b.pos.y < -HALF_EXTENT {
        return true;
    }
    match world_to_grid(b.pos) {
        Some(c) => {
            match map_data.cell_at(c.0, c.1) {
                CellType::WallBlock => true,
                CellType::Empty => false,
            }
        },
        None => false,
    }
}

/// A bullet at `b` hits a player at `a`: the centres are closer than the sum of
/// the radii.
pub open spec fn in_range(a: Pos, b: Pos) -> bool {
    (a.x - b.x) * (a.x - b.x) + (a.y - b.y) * (a.y - b.y) < HIT_DISTANCE * HIT_DISTANCE
}

fn in_range_exec(a: Pos, b: Pos) -> (r: bool)
    requires
        within(a.x, 100_000),
        within(a.y, 100_000),
        within(b.x, 100_000),
        within(b.y, 100_000),
    ensures
        r == in_range(a, b),
{
    let dx = a.x - b.x;
    let dy = a.y - b.y;
    assert(0 <= dx * dx <= 200_000 * 200_000) by (nonlinear_arith)
        requires -200_000 <= dx <= 200_000;
    assert(0 <= dy * dy <= 200_000 * 200_000) by (nonlinear_arith)
        requires -200_000 <= dy <= 200_000;
    dx * dx + dy * dy < HIT_DISTANCE * HIT_DISTANCE
}

/// The bullets in `bullets` that hit player `p`, in order.
pub open spec fn hits(p: Player, bullets: Seq<Bullet>) -> Seq<Bullet> {
    bullets.filter(|b: Bullet| in_range(p.pos, b.pos))
}

/// Sound seeds after `n` draws for slot `handle`.
pub open spec fn advance_n(seeds: SoundIdSeed, handle: usize, n: nat) -> SoundIdSeed
    decreases n,
{
    if n == 0 {
        seeds
    } else {
        advance_n(seeds, handle, (n - 1) as nat).advanced(handle)
    }
}

/// The death sounds of `n` hits on the player in slot `handle` on frame `frame`.
pub open spec fn death_sounds(seeds: SoundIdSeed, handle: usize, n: nat, frame: u32) -> Seq<RollbackSound>
    decreases n,
{
    if n == 0 {
        Seq::empty()
    } else {
        death_sounds(seeds, handle, (n - 1) as nat, frame).push(
            RollbackSound {
                clip: SoundClip::SwooshDeath,
                start_frame: frame,
                sub_key: advance_n(seeds, handle, (n - 1) as nat).drawn(handle) as usize,
            },
        )
    }
}

/// Players, new sounds, sound seeds and explosion positions once the first `n`
/// players have been checked against `bullets` on frame `frame`. A player not yet
/// hit is marked by any bullet in range; each such bullet triggers a death sound
/// and an explosion.
pub open spec fn kill_spec(players: Seq<Player>, bullets: Seq<Bullet>, seeds: SoundIdSeed, frame: u32, n: nat) -> (
    Seq<Player>,
    Seq<RollbackSound>,
    SoundIdSeed,
    Seq<Pos>,
)
    decreases n,
{
    if n == 0 {
        (players, Seq::empty(), seeds, Seq::empty())
    } else {
        let prev = kill_spec(players, bullets, seeds, frame, (n - 1) as nat);
        let p = players[n - 1];
        if p.marked.is_some() {
            prev
        } else {
            let hs = hits(p, bullets);
            let marked = if hs.len() > 0 { Some(MarkedForDeath(0)) } else { p.marked };
            (
                prev.0.update(n - 1, Player { marked, ..p }),
                prev.1 + death_sounds(prev.2, p.handle, hs.len(), frame),
                advance_n(prev.2, p.handle, hs.len()),
                prev.3 + hs.map_values(|b: Bullet| b.pos),
            )
        }
    }
}

/// Checks every player not yet hit against every bullet. A hit marks the player for
/// death, triggers a death sound keyed by the player's next sound seed value, and
/// yields an explosion at the bullet. Returns the new sounds and the explosions;
/// the bullets that hit are removed afterwards, by `flush_bullets`.
pub fn kill_players(
    players: &mut Vec<Player>,
    bullets: &Vec<Bullet>,
    frame: u32,
    sound_id: &mut SoundIdSeed,
) -> (r: (Vec<RollbackSound>, Vec<Pos>))
    requires
        all_wf(old(players)@),
        bullets_within(bullets@, MOVED_BULLET_LIMIT),
    ensures
        (final(players)@, r.0@, *final(sound_id), r.1@) == kill_spec(
            old(players)@,
            bullets@,
            *old(sound_id),
            frame,
            old(players)@.len() as nat,
        ),
        all_wf(final(players)@),
{
    let ghost start = players@;
    let ghost seeds0 = *sound_id;
    let mut sounds: Vec<RollbackSound> = Vec::new();
    let mut explosions: Vec<Pos> = Vec::new();
    let mut i: usize = 0;
    while i < players.len()
        invariant
            i <= players@.len(),
            players@.len() == start.len(),
            all_wf(start),
            all_wf(players@),
            bullets_within(bullets@, MOVED_BULLET_LIMIT),
            (players@, sounds@, *sound_id, explosions@) == kill_spec(start, bullets@, seeds0, frame, i as nat),
            forall|k: int| i <= k < players@.len() ==> #[trigger] players@[k] == start[k],
        decreases players@.len() - i,
    {
        let p = players[i];
        assert(p.wf());
        if p.marked.is_none() {
            let ghost sounds_before = sounds@;
            let ghost seeds_before = *sound_id;
            let ghost expl_before = explosions@;
            let mut hit = false;
            let mut j: usize = 0;
            while j < bullets.len()
                invariant
                    j <= bullets@.len(),
                    p.wf(),
                    bullets_within(bullets@, MOVED_BULLET_LIMIT),
                    hit == (hits(p, bullets@.take(j as int)).len() > 0),
                    sounds@ == sounds_before + death_sounds(seeds_before, p.handle, hits(p, bullets@.take(j as int)).len(), frame),
                    *sound_id == advance_n(seeds_before, p.handle, hits(p, bullets@.take(j as int)).len()),
                    explosions@ == expl_before + hits(p, bullets@.take(j as int)).map_values(|b: Bullet| b.pos),
                decreases bullets@.len() - j,
            {
                let b = bullets[j];
                assert(within(b.pos.x, MOVED_BULLET_LIMIT) && within(b.pos.y, MOVED_BULLET_LIMIT));
                let ghost before = bullets@.take(j as int);
                proof {
                    assert(bullets@.take(j + 1) =~= before.push(b));
                    before.lemma_filter_push(b, |b: Bullet| in_range(p.pos, b.pos));
                }
                if in_range_exec(p.pos, b.pos) {
                    let snd = sound_id.next_us(p.handle);
                    sounds.push(RollbackSound { clip: SoundClip::SwooshDeath, start_frame: frame, sub_key: snd });
                    explosions.push(b.pos);
                    hit = true;
                    proof {
                        let hs = hits(p, before);
                        assert(hits(p, bullets@.take(j + 1)) == hs.push(b));
                        assert(hs.push(b).map_values(|b: Bullet| b.pos) =~= hs.map_values(|b: Bullet| b.pos).push(b.pos));
                        assert(sounds@ =~= sounds_before + death_sounds(seeds_before, p.handle, hs.len() + 1, frame));
                    }
                }
                j = j + 1;
            }
            assert(bullets@.take(bullets@.len() as int) =~= bullets@);
            if hit {
                players.set(i, Player { marked: Some(MarkedForDeath(0)), ..p });
            } else {
                assert(players@.update(i as int, p) =~= players@);
            }
            assert(players@[i as int].wf());
        }
        i = i + 1;
    }
    (sounds, explosions)
}

/// Whether bullet `b` is in range of a player of `players` not hit before.
pub open spec fn hit_by_any(players: Seq<Player>, b: Bullet) -> bool {
    exists|k: int| 0 <= k < players.len() && players[k].marked.is_none() && #[trigger] in_range(players[k].pos, b.pos)
}

/// For each bullet, whether it hits a player of `players` that was not hit before.
pub fn bullets_hit(players: &Vec<Player>, bullets: &Vec<Bullet>) -> (r: Vec<bool>)
    requires
        all_wf(players@),
        bullets_within(bullets@, MOVED_BULLET_LIMIT),
    ensures
        r@.len() == bullets@.len(),
        forall|j: int| 0 <= j < bullets@.len() ==> #[trigger] r@[j] == hit_by_any(players@, bullets@[j]),
{
    let mut flags: Vec<bool> = Vec::new();
    let mut j: usize = 0;
    while j < bullets.len()
        invariant
            j <= bullets@.len(),
            all_wf(players@),
            bullets_within(bullets@, MOVED_BULLET_LIMIT),
            flags@.len() == j,
            forall|q: int| 0 <= q < j ==> #[trigger] flags@[q] == hit_by_any(players@, bullets@[q]),
        decreases bullets@.len() - j,
    {
        let b = bullets[j];
        assert(within(b.pos.x, MOVED_BULLET_LIMIT) && within(b.pos.y, MOVED_BULLET_LIMIT));
        let mut hit = false;
        let mut k: usize = 0;
        while k < players.len()
            invariant
                k <= players@.len(),
                all_wf(players@),
                within(b.pos.x, MOVED_BULLET_LIMIT) && within(b.pos.y, MOVED_BULLET_LIMIT),
                b == bullets@[j as int],
                hit == exists|q: int| 0 <= q < k && players@[q].marked.is_none() && #[trigger] in_range(players@[q].pos, b.pos),
            decreases players@.len() - k,
        {
            let p = players[k];
            assert(p.wf());
            if p.marked.is_none() && in_range_exec(p.pos, b.pos) {
                hit = true;
            }
            k = k + 1;
        }
        flags.push(hit);
        j = j + 1;
    }
    flags
}

/// A bullet stays once it has neither left the map, nor flown into a wall, nor hit
/// a player of `shooters`.
pub open spec fn bullet_stays(cells: Seq<CellType>, shooters: Seq<Player>, b: Bullet) -> bool {
    !bullet_spent_spec(cells, b) && !hit_by_any(shooters, b)
}

/// Applies the frame's bullet changes: removes the bullets that left the map, flew
/// into a wall or hit a player of `shooters` (whose hits `hit` gives), then adds the
/// bullets fired this frame.
pub(crate) fn flush_bullets(
    bullets: &mut Vec<Bullet>,
    hit: &Vec<bool>,
    fired: Vec<Bullet>,
    map_data: &GridMap,
    shooters: Ghost<Seq<Player>>,
)
    requires
        map_data.wf(),
        bullets_within(old(bullets)@, MOVED_BULLET_LIMIT),
        hit@.len() == old(bullets)@.len(),
        forall|j: int| 0 <= j < old(bullets)@.len() ==> #[trigger] hit@[j] == hit_by_any(shooters@, old(bullets)@[j]),
        forall|j: int| 0 <= j < old(bullets)@.len() ==> (#[trigger] old(bullets)@[j]).move_dir.wf() && !old(bullets)@[j].move_dir.is_zero(),
        all_bullets_wf(fired@),
    ensures
        final(bullets)@ == old(bullets)@.filter(|b: Bullet| bullet_stays(map_data@, shooters@, b)) + fired@,
        all_bullets_wf(final(bullets)@),
{
    let ghost start = bullets@;
    let mut kept: Vec<Bullet> = Vec::new();
    let mut i: usize = 0;
    while i < bullets.len()
        invariant
            i <= bullets@.len(),
            bullets@ == start,
            map_data.wf(),
            bullets_within(start, MOVED_BULLET_LIMIT),
            hit@.len() == start.len(),
            forall|j: int| 0 <= j < start.len() ==> #[trigger] hit@[j] == hit_by_any(shooters@, start[j]),
            forall|j: int| 0 <= j < start.len() ==> (#[trigger] start[j]).move_dir.wf() && !start[j].move_dir.is_zero(),
            kept@ == start.take(i as int).filter(|b: Bullet| bullet_stays(map_data@, shooters@, b)),
            all_bullets_wf(kept@),
        decreases bullets@.len() - i,
    {
        let b = bullets[i];
        assert(within(b.pos.x, MOVED_BULLET_LIMIT) && within(b.pos.y, MOVED_BULLET_LIMIT));
        proof {
            assert(start.take(i + 1) =~= start.take(i as int).push(b));
            start.take(i as int).lemma_filter_push(b, |b: Bullet| bullet_stays(map_data@, shooters@, b));
        }
        if !bullet_spent(map_data, b) && !hit[i] {
            kept.push(b);
        }
        i = i + 1;
    }
    assert(start.take(start.len() as int) =~= start);
    let mut k: usize = 0;
    let ghost survivors = kept@;
    while k < fired.len()
        invariant
            k <= fired@.len(),
            all_bullets_wf(fired@),
            all_bullets_wf(kept@),
            kept@ == survivors + fired@.take(k as int),
        decreases fired@.len() - k,
    {
        kept.push(fired[k]);
        k = k + 1;
        assert(survivors + fired@.take(k as int) =~= (survivors + fired@.take(k - 1)).push(fired@[k - 1]));
    }
    assert(fired@.take(fired@.len() as int) =~= fired@);
    *bullets = kept;
}

/// A death mark after one more frame.
pub open spec fn tick_mark(p: Player) -> Player {
    match p.marked {
        Some(m) => if m.0 < DEATH_FRAMES {
            Player { marked: Some(MarkedForDeath((m.0 + 1) as u32)), ..p }
        } else {
            p
        },
        None => p,
    }
}

/// Whether the death mark of `p` runs out on this frame's tick.
pub open spec fn mark_runs_out(p: Player) -> bool {
    p.marked matches Some(m) && m.0 + 1 == DEATH_FRAMES
}

/// Ticks every death mark by one frame; returns whether one ran out, which ends the
/// round.
pub fn process_deaths(players: &mut Vec<Player>) -> (r: bool)
    requires
        all_wf(old(players)@),
    ensures
        final(players)@ == old(players)@.map_values(|p: Player| tick_mark(p)),
        r == exists|k: int| 0 <= k < old(players)@.len() && #[trigger] mark_runs_out(old(players)@[k]),
        all_wf(final(players)@),
{
    let ghost start = players@;
    let mut ended = false;
    let mut i: usize = 0;
    while i < players.len()
        invariant
            players@.len() == start.len(),
            i <= start.len(),
            all_wf(start),
            all_wf(players@),
            forall|k: int| 0 <= k < i ==> #[trigger] players@[k] == tick_mark(start[k]),
            forall|k: int| i <= k < players@.len() ==> #[trigger] players@[k] == start[k],
            ended == exists|k: int| 0 <= k < i && #[trigger] mark_runs_out(start[k]),
        decreases players@.len() - i,
    {
        let p = players[i];
        assert(p.wf());
        match p.marked {
            Some(m) => {
                if m.0 < DEATH_FRAMES {
                    players.set(i, Player { marked: Some(MarkedForDeath(m.0 + 1)), ..p });
                    if m.0 + 1 == DEATH_FRAMES {
                        ended = true;
                    }
                }
            },
            None => {},
        }
        assert(players@[i as int].wf());
        proof {
            if mark_runs_out(start[i as int]) {
                assert(ended);
            } else {
                assert forall|k: int| 0 <= k < i + 1 && #[trigger] mark_runs_out(start[k]) implies 0 <= k < i by {}
            }
        }
        i = i + 1;
    }
    assert(players@ =~= start.map_values(|p: Player| tick_mark(p)));
    ended
}

/// Scores after the marked players of `players` are counted: each marked player
/// gives its opponent a point.
pub open spec fn score_spec(scores: Scores, players: Seq<Player>) -> Scores
    decreases players.len(),
{
    if players.len() == 0 {
        scores
    } else {
        let prev = score_spec(scores, players.drop_last());
        let p = players.last();
        if p.marked.is_none() {
            prev
        } else if p.handle == 0 {
            Scores(prev.0, prev.1.wrapping_add(1))
        } else {
            Scores(prev.0.wrapping_add(1), prev.1)
        }
    }
}

/// Scores every player marked for death to its opponent and removes it, however
/// many were hit and whoever was hit first.
pub fn count_points_and_despawn(players: &mut Vec<Player>, scores: &mut Scores)
    requires
        all_wf(old(players)@),
    ensures
        *final(scores) == score_spec(*old(scores), old(players)@),
        final(players)@ == old(players)@.filter(|p: Player| p.marked.is_none()),
        all_wf(final(players)@),
{
    let ghost start = players@;
    let ghost scores0 = *scores;
    let mut alive: Vec<Player> = Vec::new();
    let mut i: usize = 0;
    while i < players.len()
        invariant
            i <= players@.len(),
            players@ == start,
            all_wf(start),
            all_wf(alive@),
            *scores == score_spec(scores0, start.take(i as int)),
            alive@ == start.take(i as int).filter(|p: Player| p.marked.is_none()),
        decreases players@.len() - i,
    {
        let p = players[i];
        assert(p.wf());
        proof {
            assert(start.take(i + 1) =~= start.take(i as int).push(p));
            assert(start.take(i + 1).drop_last() =~= start.take(i as int));
            start.take(i as int).lemma_filter_push(p, |p: Player| p.marked.is_none());
        }
        if p.marked.is_none() {
            alive.push(p);
        } else if p.handle == 0 {
            scores.1 = scores.1.wrapping_add(1);
        } else {
            scores.0 = scores.0.wrapping_add(1);
        }
        i = i + 1;
    }
    assert(start.take(start.len() as int) =~= start);
    *players = alive;
}

/// Draws for one spawn cell before the map is scanned for a free cell instead.
pub const MAX_SPAWN_ATTEMPTS: u32 = 10000;

/// A spawn candidate is blocked by a wall, or by sharing a row or a column with a
/// position already chosen.
pub open spec fn blocked(cells: Seq<CellType>, positions: Seq<(u32, u32)>, c: (u32, u32)) -> bool {
    cell_of(cells, c.0 as int, c.1 as int) == CellType::WallBlock || exists|i: int|
        0 <= i < positions.len() && ((#[trigger] positions[i]).0 == c.0 || positions[i].1 == c.1)
}

/// The cell drawn from seed `s`, and the seed after the draw: the column comes from
/// one generator and the row from the next in the chain.
pub open spec fn draw_cell_spec(s: u64) -> ((u32, u32), u64) {
    let s2 = seeded_u64_after_u32(s);
    (((seeded_u32(s) % 41) as u32, (seeded_u32(s2) % 41) as u32), seeded_u64_after_u32(s2))
}

/// Whether some cell of the map is neither a wall nor in the row or the column of
/// one of `positions`.
pub open spec fn has_free_cell(cells: Seq<CellType>, positions: Seq<(u32, u32)>) -> bool {
    exists|c: (u32, u32)| c.0 < MAP_SIZE && c.1 < MAP_SIZE && !#[trigger] blocked(cells, positions, c)
}

/// The cell at flat index `i`, column by column.
pub open spec fn cell_at_index(i: int) -> (u32, u32) {
    ((i / 41) as u32, (i % 41) as u32)
}

/// The first cell from flat index `i` on, column by column, that is not blocked.
pub open spec fn first_free(cells: Seq<CellType>, positions: Seq<(u32, u32)>, i: nat) -> Option<(u32, u32)>
    decreases MAP_CELLS - i,
{
    if i >= MAP_CELLS {
        None
    } else if !blocked(cells, positions, cell_at_index(i as int)) {
        Some(cell_at_index(i as int))
    } else {
        first_free(cells, positions, i + 1)
    }
}

/// Draws cells from `s` until one is not blocked. When `fuel` draws have all been
/// blocked, the first free cell of the map is taken, or the last drawn cell if the
/// map has none.
pub open spec fn search_spec(cells: Seq<CellType>, positions: Seq<(u32, u32)>, s: u64, fuel: nat) -> ((u32, u32), u64)
    decreases fuel,
{
    let d = draw_cell_spec(s);
    if !blocked(cells, positions, d.0) {
        d
    } else if fuel <= 1 {
        (
            match first_free(cells, positions, 0) {
                Some(c) => c,
                None => d.0,
            },
            d.1,
        )
    } else {
        search_spec(cells, positions, d.1, (fuel - 1) as nat)
    }
}

proof fn lemma_first_free_sound(cells: Seq<CellType>, positions: Seq<(u32, u32)>, i: nat)
    ensures
        first_free(cells, positions, i) matches Some(c) ==> c.0 < MAP_SIZE && c.1 < MAP_SIZE && !blocked(
            cells,
            positions,
            c,
        ),
    decreases MAP_CELLS - i,
{
    if i < MAP_CELLS {
        lemma_first_free_sound(cells, positions, i + 1);
        assert((i as int) / 41 < 41 && (i as int) % 41 < 41);
    }
}

proof fn lemma_first_free_finds(cells: Seq<CellType>, positions: Seq<(u32, u32)>, i: nat, c: (u32, u32))
    requires
        c.0 < MAP_SIZE,
        c.1 < MAP_SIZE,
        !blocked(cells, positions, c),
        i <= c.0 * 41 + c.1,
    ensures
        first_free(cells, positions, i).is_some(),
    decreases MAP_CELLS - i,
{
    assert(c.0 * 41 + c.1 < MAP_CELLS) by (nonlinear_arith)
        requires c.0 < 41, c.1 < 41;
    if i == c.0 * 41 + c.1 {
        assert(cell_at_index(i as int) == c) by (nonlinear_arith)
            requires i == c.0 * 41 + c.1, c.1 < 41, cell_at_index(i as int) == (((i as int) / 41) as u32, ((i as int) % 41) as u32);
    } else if blocked(cells, positions, cell_at_index(i as int)) {
        lemma_first_free_finds(cells, positions, i + 1, c);
    }
}

/// The searched cell lies on the map, and it is free whenever the map has a free cell.
proof fn lemma_search_free(cells: Seq<CellType>, positions: Seq<(u32, u32)>, s: u64, fuel: nat)
    ensures
        ({
            let r = search_spec(cells, positions, s, fuel).0;
            &&& r.0 < MAP_SIZE && r.1 < MAP_SIZE
            &&& has_free_cell(cells, positions) ==> !blocked(cells, positions, r)
        }),
    decreases fuel,
{
    let d = draw_cell_spec(s);
    lemma_first_free_sound(cells, positions, 0);
    if blocked(cells, positions, d.0) {
        if fuel <= 1 {
            if has_free_cell(cells, positions) {
                let c = choose|c: (u32, u32)| c.0 < MAP_SIZE && c.1 < MAP_SIZE && !#[trigger] blocked(cells, positions, c);
                lemma_first_free_finds(cells, positions, 0, c);
            }
        } else {
            lemma_search_free(cells, positions, d.1, (fuel - 1) as nat);
        }
    }
}

/// `count` spawn cells chosen one after the other from seed `s`, and the seed reached.
pub open spec fn spawn_cells(cells: Seq<CellType>, count: nat, s: u64) -> (Seq<(u32, u32)>, u64)
    decreases count,
{
    if count == 0 {
        (Seq::empty(), s)
    } else {
        let prev = spawn_cells(cells, (count - 1) as nat, s);
        let f = search_spec(cells, prev.0, prev.1, MAX_SPAWN_ATTEMPTS as nat);
        (prev.0.push(f.0), f.1)
    }
}

/// The `count` spawn cells lie on the map, and each is free of walls and of the rows
/// and columns of those before it whenever the map has such a cell.
pub proof fn lemma_spawn_cells(cells: Seq<CellType>, count: nat, s: u64)
    ensures
        ({
            let r = spawn_cells(cells, count, s).0;
            &&& r.len() == count
            &&& forall|k: int| 0 <= k < count ==> (#[trigger] r[k]).0 < MAP_SIZE && r[k].1 < MAP_SIZE
            &&& forall|k: int|
                0 <= k < count && has_free_cell(cells, r.take(k)) ==> !blocked(cells, r.take(k), #[trigger] r[k])
        }),
    decreases count,
{
    if count > 0 {
        let prev = spawn_cells(cells, (count - 1) as nat, s);
        lemma_spawn_cells(cells, (count - 1) as nat, s);
        lemma_search_free(cells, prev.0, prev.1, MAX_SPAWN_ATTEMPTS as nat);
        let r = spawn_cells(cells, count, s).0;
        assert forall|k: int| 0 <= k < count - 1 implies #[trigger] r.take(k) == prev.0.take(k) && r[k] == prev.0[k] by {
            assert(r.take(k) =~= prev.0.take(k));
        }
        assert(r.take(count - 1) =~= prev.0);
        assert forall|k: int|
            0 <= k < count && has_free_cell(cells, r.take(k)) implies !blocked(cells, r.take(k), #[trigger] r[k]) by {
            if k < count - 1 {
                assert(r.take(k) == prev.0.take(k));
            }
        }
    }
}

/// On the generated layout both spawn cells are free: neither is a wall, and the
/// two share neither a row nor a column.
pub proof fn spawn_on_layout_is_free(s: u64)
    ensures
        ({
            let r = spawn_cells(map_layout(), 2, s).0;
            &&& r.len() == 2
            &&& cell_of(map_layout(), r[0].0 as int, r[0].1 as int) == CellType::Empty
            &&& cell_of(map_layout(), r[1].0 as int, r[1].1 as int) == CellType::Empty
            &&& r[0].0 != r[1].0
            &&& r[0].1 != r[1].1
        }),
{
    let cells = map_layout();
    lemma_spawn_cells(cells, 2, s);
    let r = spawn_cells(cells, 2, s).0;
    // columns 0 and 1 hold no walls
    assert(cells[0] == pattern_cell(0, 0) && cells[1] == pattern_cell(0, 1));
    assert(cells[41] == pattern_cell(1, 0) && cells[42] == pattern_cell(1, 1));
    let none = Seq::<(u32, u32)>::empty();
    assert(r.take(0) =~= none);
    assert(!blocked(cells, none, (0u32, 0u32)));
    assert(has_free_cell(cells, r.take(0)));
    let p = r[0];
    let w = (if p.0 == 0 { 1u32 } else { 0u32 }, if p.1 == 0 { 1u32 } else { 0u32 });
    assert(r.take(1) =~= seq![p]);
    assert(cell_of(cells, w.0 as int, w.1 as int) == CellType::Empty);
    assert(!blocked(cells, seq![p], w));
    assert(has_free_cell(cells, r.take(1)));
    assert(!blocked(cells, r.take(1), r[1]));
    assert(r.take(1)[0] == p);
}

fn draw_cell(s: u64) -> (r: ((u32, u32), u64))
    ensures
        r == draw_cell_spec(s),
        r.0.0 < MAP_SIZE && r.0.1 < MAP_SIZE,
{
    let (x, s2) = draw_u32_then_u64(s);
    let (y, s3) = draw_u32_then_u64(s2);
    ((x % 41, y % 41), s3)
}

fn blocked_exec(map_data: &GridMap, positions: &Vec<(u32, u32)>, c: (u32, u32)) -> (r: bool)
    requires
        map_data.wf(),
        c.0 < MAP_SIZE,
        c.1 < MAP_SIZE,
    ensures
        r == blocked(map_data@, positions@, c),
{
    match map_data.cell_at(c.0, c.1) {
        CellType::WallBlock => {
            return true;
        },
        CellType::Empty => {},
    }
    let mut i: usize = 0;
    while i < positions.len()
        invariant
            i <= positions@.len(),
            forall|k: int| 0 <= k < i ==> !((#[trigger] positions@[k]).0 == c.0 || positions@[k].1 == c.1),
        decreases positions@.len() - i,
    {
        let pos = positions[i];
        if c.0 == pos.0 || c.1 == pos.1 {
            return true;
        }
        i = i + 1;
    }
    false
}

fn first_free_exec(map_data: &GridMap, positions: &Vec<(u32, u32)>) -> (r: Option<(u32, u32)>)
    requires
        map_data.wf(),
    ensures
        r == first_free(map_data@, positions@, 0),
{
    let mut i: usize = 0;
    while i < MAP_CELLS
        invariant
            i <= MAP_CELLS,
            map_data.wf(),
            first_free(map_data@, positions@, 0) == first_free(map_data@, positions@, i as nat),
        decreases MAP_CELLS - i,
    {
        let c = ((i / 41) as u32, (i % 41) as u32);
        assert(c == cell_at_index(i as int));
        if !blocked_exec(map_data, positions, c) {
            return Some(c);
        }
        i = i + 1;
    }
    None
}

fn search_cell(map_data: &GridMap, positions: &Vec<(u32, u32)>, seed: u64) -> (r: ((u32, u32), u64))
    requires
        map_data.wf(),
    ensures
        r == search_spec(map_data@, positions@, seed, MAX_SPAWN_ATTEMPTS as nat),
        r.0.0 < MAP_SIZE && r.0.1 < MAP_SIZE,
{
    let mut cur = seed;
    let mut fuel: u32 = MAX_SPAWN_ATTEMPTS;
    loop
        invariant
            map_data.wf(),
            1 <= fuel <= MAX_SPAWN_ATTEMPTS,
            search_spec(map_data@, positions@, seed, MAX_SPAWN_ATTEMPTS as nat) == search_spec(
                map_data@,
                positions@,
                cur,
                fuel as nat,
            ),
        decreases fuel,
    {
        let d = draw_cell(cur);
        if !blocked_exec(map_data, positions, d.0) {
            return d;
        }
        if fuel <= 1 {
            let found = first_free_exec(map_data, positions);
            let c = match found {
                Some(c) => {
                    proof {
                        lemma_first_free_sound(map_data@, positions@, 0);
                    }
                    c
                },
                None => d.0,
            };
            return (c, d.1);
        }
        cur = d.1;
        fuel = fuel - 1;
    }
}

/// Chooses `count` spawn cells from `base_seed`: each is drawn again while it is a
/// wall or shares a row or a column with one chosen before. After
/// `MAX_SPAWN_ATTEMPTS` such draws the first free cell of the map is taken, so a cell
/// is free whenever the map has one.
pub fn generate_random_positions(count: usize, base_seed: u64, map_data: &GridMap) -> (r: Vec<(u32, u32)>)
    requires
        map_data.wf(),
    ensures
        r@ == spawn_cells(map_data@, count as nat, seeded_u64(base_seed)).0,
        r@.len() == count,
        forall|k: int| 0 <= k < r@.len() ==> (#[trigger] r@[k]).0 < MAP_SIZE && r@[k].1 < MAP_SIZE,
        forall|k: int|
            0 <= k < r@.len() && has_free_cell(map_data@, r@.take(k)) ==> !blocked(map_data@, r@.take(k), #[trigger] r@[k]),
{
    let mut s = draw_u64(base_seed);
    let ghost s0 = s;
    let mut positions: Vec<(u32, u32)> = Vec::new();
    let mut k: usize = 0;
    while k < count
        invariant
            k <= count,
            map_data.wf(),
            (positions@, s) == spawn_cells(map_data@, k as nat, s0),
            forall|q: int| 0 <= q < positions@.len() ==> (#[trigger] positions@[q]).0 < MAP_SIZE && positions@[q].1 < MAP_SIZE,
        decreases count - k,
    {
        let found = search_cell(map_data, &positions, s);
        positions.push(found.0);
        s = found.1;
        k = k + 1;
    }
    proof {
        lemma_spawn_cells(map_data@, count as nat, s0);
    }
    positions
}

/// A freshly spawned player in slot `handle` at the centre of cell `cell`.
pub open spec fn spawned(handle: usize, cell: (u32, u32), facing: i64) -> Player {
    Player {
        handle,
        pos: grid_to_world_spec(cell.0 as int, cell.1 as int),
        move_dir: MoveDir { x: facing, y: 0 },
        bullet_ready: BulletReady(true),
        marked: None,
    }
}

/// The players of a new round on the map `cells`, with spawn seed `seed`.
pub open spec fn spawn_players_spec(cells: Seq<CellType>, seed: u64) -> Seq<Player> {
    let cs = spawn_cells(cells, 2, seeded_u64(seed)).0;
    seq![spawned(0, cs[0], -1i64), spawned(1, cs[1], 1i64)]
}

/// Starts a round: removes the last round's players and bullets, spawns player 0
/// facing left and player 1 facing right on free cells chosen from the spawn seed,
/// then moves the spawn seed on.
pub fn spawn_players(players: &mut Vec<Player>, bullets: &mut Vec<Bullet>, seed: &mut GameSeed, map_data: &GridMap)
    requires
        map_data.wf(),
    ensures
        final(players)@ == spawn_players_spec(map_data@, old(seed).0),
        final(bullets)@ == Seq::<Bullet>::empty(),
        final(seed).0 == seeded_u64(old(seed).0),
        all_wf(final(players)@),
{
    players.clear();
    bullets.clear();
    let positions = generate_random_positions(2, seed.0, map_data);
    seed.advance();
    assert(spawn_cells(map_data@, 2, seeded_u64(old(seed).0)).0.len() == 2) by {
        reveal_with_fuel(spawn_cells, 3);
    }
    let p0 = positions[0];
    let p1 = positions[1];
    assert(p0.0 < MAP_SIZE && p0.1 < MAP_SIZE);
    assert(p1.0 < MAP_SIZE && p1.1 < MAP_SIZE);
    players.push(Player {
        handle: 0,
        pos: grid_to_world(p0),
        move_dir: MoveDir { x: -1, y: 0 },
        bullet_ready: BulletReady(true),
        marked: None,
    });
    players.push(Player {
        handle: 1,
        pos: grid_to_world(p1),
        move_dir: MoveDir { x: 1, y: 0 },
        bullet_ready: BulletReady(true),
        marked: None,
    });
    assert(players@ =~= spawn_players_spec(map_data@, old(seed).0));
}

/// No two players of `players` share a slot.
pub open spec fn distinct_handles(players: Seq<Player>) -> bool {
    forall|i: int, j: int| 0 <= i < j < players.len() ==> #[trigger] players[i].handle != #[trigger] players[j].handle
}

/// Whether the player in slot `handle` is marked for death.
pub open spec fn is_dead(players: Seq<Player>, handle: usize) -> bool {
    exists|i: int| 0 <= i < players.len() && #[trigger] players[i].handle == handle && players[i].marked.is_some()
}

/// A death of player 0 gives player 1 exactly one point and a death of player 1
/// gives player 0 exactly one point; when both died, both score.
pub proof fn score_symmetry(scores: Scores, players: Seq<Player>)
    requires
        all_wf(players),
        distinct_handles(players),
    ensures
        score_spec(scores, players).0 == if is_dead(players, 1) { scores.0.wrapping_add(1) } else { scores.0 },
        score_spec(scores, players).1 == if is_dead(players, 0) { scores.1.wrapping_add(1) } else { scores.1 },
    decreases players.len(),
{
    if players.len() > 0 {
        let rest = players.drop_last();
        let p = players.last();
        assert(all_wf(rest)) by {
            assert forall|i: int| 0 <= i < rest.len() implies #[trigger] rest[i].wf() by {
                assert(players[i].wf());
            }
        }
        assert(distinct_handles(rest)) by {
            assert forall|i: int, j: int| 0 <= i < j < rest.len() implies #[trigger] rest[i].handle != #[trigger] rest[j].handle by {
                assert(players[i].handle != players[j].handle);
            }
        }
        score_symmetry(scores, rest);
        assert(players[players.len() - 1].wf());
        assert forall|h: usize| h < 2 implies is_dead(players, h) == (is_dead(rest, h) || (p.handle == h && p.marked.is_some())) by {
            if is_dead(players, h) {
                let i = choose|i: int| 0 <= i < players.len() && #[trigger] players[i].handle == h && players[i].marked.is_some();
                if i < rest.len() {
                    assert(rest[i] == players[i]);
                }
            }
            if is_dead(rest, h) {
                let i = choose|i: int| 0 <= i < rest.len() && #[trigger] rest[i].handle == h && rest[i].marked.is_some();
                assert(players[i] == rest[i]);
            }
        }
        assert forall|i: int| 0 <= i < rest.len() implies #[trigger] rest[i].handle != p.handle by {
            assert(players[i].handle != players[players.len() - 1].handle);
        }
        if p.marked.is_some() {
            assert(!is_dead(rest, p.handle));
        }
    }
}

/// When a diagonal move that the walls beside the player leave free on both axes
/// runs into the cell diagonally ahead, the player keeps moving on exactly the axis
/// on which it is further from that cell's centre, and stops on the other.
pub proof fn corner_slide(cells: Seq<CellType>, old: Pos, d: MoveDir)
    requires
        d.wf(),
        d.is_diagonal(),
        axis_delta_spec(cells, old, d).x != 0,
        axis_delta_spec(cells, old, d).y != 0,
        collides(
            cells,
            offset(old, axis_delta_spec(cells, old, d).x as int, axis_delta_spec(cells, old, d).y as int),
            world_to_grid_spec(offset(old, probe_sign(d.x) * CELL, probe_sign(d.y) * CELL)),
        ),
    ensures
        ({
            let a = axis_delta_spec(cells, old, d);
            let hv = world_to_grid_spec(offset(old, probe_sign(d.x) * CELL, probe_sign(d.y) * CELL)).unwrap();
            let c = grid_to_world_spec(hv.0 as int, hv.1 as int);
            let pp = offset(old, a.x as int, a.y as int);
            let r = move_delta_spec(cells, old, d);
            if abs(pp.y - c.y) > abs(pp.x - c.x) {
                r.x == 0 && r.y == a.y && r.y != 0
            } else {
                r.y == 0 && r.x == a.x && r.x != 0
            }
        }),
{
}

/// The eye sprite of each player, facing its last direction of movement.
pub fn player_look(players: &Vec<Player>) -> (r: Vec<usize>)
    ensures
        r@ == players@.map_values(|p: Player| directional_sprite_spec(p.move_dir)),
{
    let mut sprites: Vec<usize> = Vec::new();
    let mut i: usize = 0;
    while i < players.len()
        invariant
            i <= players@.len(),
            sprites@ == players@.take(i as int).map_values(|p: Player| directional_sprite_spec(p.move_dir)),
        decreases players@.len() - i,
    {
        sprites.push(get_directional_sprite(players[i].move_dir));
        i = i + 1;
        assert(sprites@ =~= players@.take(i as int).map_values(|p: Player| directional_sprite_spec(p.move_dir)));
    }
    assert(players@.take(players@.len() as int) =~= players@);
    sprites
}

/// At most two players, and when there are two they hold slots 0 and 1 in order.
pub open spec fn slots_ok(players: Seq<Player>) -> bool {
    &&& players.len() <= 2
    &&& players.len() == 2 ==> players[0].handle == 0 && players[1].handle == 1
}

/// `a` lists the players of `b` with the same slots, whatever else changed.
pub open spec fn same_slots(a: Seq<Player>, b: Seq<Player>) -> bool {
    a.len() == b.len() && forall|i: int| 0 <= i < a.len() ==> #[trigger] a[i].handle == b[i].handle
}

pub proof fn lemma_fire_keeps_slots(players: Seq<Player>, inputs: [u8; 2], seeds: SoundIdSeed, frame: u32, n: nat)
    requires
        n <= players.len(),
    ensures
        same_slots(fire_spec(players, inputs, seeds, frame, n).0, players),
    decreases n,
{
    if n > 0 {
        lemma_fire_keeps_slots(players, inputs, seeds, frame, (n - 1) as nat);
    }
}

pub proof fn lemma_kill_keeps_slots(players: Seq<Player>, bullets: Seq<Bullet>, seeds: SoundIdSeed, frame: u32, n: nat)
    requires
        n <= players.len(),
    ensures
        same_slots(kill_spec(players, bullets, seeds, frame, n).0, players),
    decreases n,
{
    if n > 0 {
        lemma_kill_keeps_slots(players, bullets, seeds, frame, (n - 1) as nat);
    }
}

/// Removing players keeps at most two, in slot order.
pub proof fn lemma_filter_keeps_slots(players: Seq<Player>, pred: spec_fn(Player) -> bool)
    requires
        slots_ok(players),
    ensures
        slots_ok(players.filter(pred)),
{
    reveal_with_fuel(Seq::filter, 3);
    players.lemma_filter_len(pred);
    if players.len() == 2 {
        assert(players.drop_last().drop_last() =~= Seq::<Player>::empty());
        assert(players.drop_last() =~= seq![players[0]]);
        if pred(players[0]) && pred(players[1]) {
            assert(players.filter(pred) =~= players);
        }
    }
}

/// Firing changes no more than the readiness of the players who fire.
pub proof fn lemma_fire_effect(players: Seq<Player>, inputs: [u8; 2], seeds: SoundIdSeed, frame: u32, n: nat)
    requires
        n <= players.len(),
    ensures
        fire_spec(players, inputs, seeds, frame, n).0.len() == players.len(),
        forall|i: int|
            0 <= i < players.len() ==> #[trigger] fire_spec(players, inputs, seeds, frame, n).0[i] == if i < n
                && fires(players[i], input_of(inputs, players[i].handle)) {
                Player { bullet_ready: BulletReady(false), ..players[i] }
            } else {
                players[i]
            },
    decreases n,
{
    if n > 0 {
        lemma_fire_effect(players, inputs, seeds, frame, (n - 1) as nat);
    }
}

/// Hits change no more than the death marks of the players.
pub proof fn lemma_kill_effect(players: Seq<Player>, bullets: Seq<Bullet>, seeds: SoundIdSeed, frame: u32, n: nat)
    requires
        n <= players.len(),
    ensures
        kill_spec(players, bullets, seeds, frame, n).0.len() == players.len(),
        forall|i: int|
            0 <= i < players.len() ==> (#[trigger] kill_spec(players, bullets, seeds, frame, n).0[i] == Player {
                marked: kill_spec(players, bullets, seeds, frame, n).0[i].marked,
                ..players[i]
            }),
    decreases n,
{
    if n > 0 {
        lemma_kill_effect(players, bullets, seeds, frame, (n - 1) as nat);
    }
}

} // verus!
