use ghosties::audio::SoundClip;
use ghosties::input::{MoveDir, INPUT_DOWN, INPUT_FIRE, INPUT_LEFT, INPUT_RIGHT, INPUT_UP};
use ghosties::map::{generate_map, grid_to_world, CellType, GridMap, Pos, MAP_SIZE};
use ghosties::player::{
    bullet_spent, bullets_hit, cell_collide, count_points_and_despawn, fire_bullets, generate_random_positions,
    kill_players, move_bullets, player_look, move_player, move_players, process_deaths, reload_bullet, spawn_players,
    wall_check, Bullet, BulletReady, MarkedForDeath, Player, DEATH_FRAMES,
};
use ghosties::rng::{GameSeed, SoundIdSeed, SoundSeed};
use ghosties::sim::Scores;

fn player(handle: usize, x: i64, y: i64) -> Player {
    Player {
        handle,
        pos: Pos { x, y },
        move_dir: MoveDir { x: if handle == 0 { -1 } else { 1 }, y: 0 },
        bullet_ready: BulletReady(true),
        marked: None,
    }
}

fn map_with_walls(walls: &[(usize, usize)]) -> GridMap {
    let mut m = GridMap::new();
    for &(x, y) in walls {
        m.cells[x * MAP_SIZE + y] = CellType::WallBlock;
    }
    m
}

#[test]
fn straight_and_diagonal_moves() {
    let m = GridMap::new();
    let p = player(0, 0, 0);
    let r = move_player(&m, p, INPUT_RIGHT);
    assert_eq!(r.pos, Pos { x: 130, y: 0 });
    assert_eq!(r.move_dir, MoveDir { x: 1, y: 0 });
    let r = move_player(&m, p, INPUT_UP | INPUT_LEFT);
    assert_eq!(r.pos, Pos { x: -92, y: 92 });
    assert_eq!(r.move_dir, MoveDir { x: -1, y: 1 });
}

#[test]
fn no_input_keeps_player_and_facing() {
    let m = GridMap::new();
    let p = player(1, 500, -300);
    assert_eq!(move_player(&m, p, 0), p);
    assert_eq!(move_player(&m, p, INPUT_UP | INPUT_DOWN | INPUT_FIRE), p);
}

#[test]
fn players_are_clamped_to_the_map() {
    let m = GridMap::new();
    let p = player(0, 19950, -19950);
    let r = move_player(&m, p, INPUT_RIGHT | INPUT_DOWN);
    assert_eq!(r.pos, Pos { x: 20000, y: -20000 });
}

#[test]
fn wall_blocks_horizontal_move() {
    // wall at cell (21, 20), centre (1000, 0); player flush against it
    let m = map_with_walls(&[(21, 20)]);
    let p = player(0, 0, 0);
    let r = move_player(&m, p, INPUT_RIGHT);
    assert_eq!(r.pos, Pos { x: 0, y: 0 });
    assert_eq!(r.move_dir, MoveDir { x: 1, y: 0 });
    let r = move_player(&m, p, INPUT_LEFT);
    assert_eq!(r.pos, Pos { x: -130, y: 0 });
}

#[test]
fn wall_blocks_one_axis_of_diagonal() {
    // wall straight above: the vertical part is dropped, the player slides sideways
    let m = map_with_walls(&[(20, 21)]);
    let p = player(0, 0, 0);
    let r = move_player(&m, p, INPUT_UP | INPUT_RIGHT);
    assert_eq!(r.pos, Pos { x: 92, y: 0 });
}

#[test]
fn corner_slide_keeps_axis_with_larger_offset() {
    // only the cell diagonally ahead, (21, 21) centred on (1000, 1000), is a wall;
    // after the move the player sits at (300, 50), offset (-700, -950) from it
    let m = map_with_walls(&[(21, 21)]);
    let p = player(0, 208, -42);
    let r = move_player(&m, p, INPUT_UP | INPUT_RIGHT);
    assert_eq!(r.pos, Pos { x: 208, y: 50 });
}

#[test]
fn corner_slide_other_axis() {
    // mirrored: offset (-950, -700) keeps the horizontal move
    let m = map_with_walls(&[(21, 21)]);
    let p = player(0, -42, 208);
    let r = move_player(&m, p, INPUT_UP | INPUT_RIGHT);
    assert_eq!(r.pos, Pos { x: 50, y: 208 });
}

#[test]
fn wall_check_overlap() {
    assert!(wall_check(Pos { x: 0, y: 0 }, Pos { x: 999, y: -999 }));
    assert!(!wall_check(Pos { x: 0, y: 0 }, Pos { x: 1000, y: 0 }));
    assert!(!wall_check(Pos { x: 0, y: 0 }, Pos { x: 0, y: -1000 }));
}

#[test]
fn cell_collide_needs_a_wall() {
    let m = map_with_walls(&[(21, 20)]);
    assert!(cell_collide(&m, Pos { x: 100, y: 0 }, Some((21, 20))));
    assert!(!cell_collide(&m, Pos { x: 100, y: 0 }, Some((20, 20))));
    assert!(!cell_collide(&m, Pos { x: -100, y: 0 }, Some((21, 20))));
    assert!(!cell_collide(&m, Pos { x: 100, y: 0 }, None));
}

#[test]
fn move_players_uses_each_slot_input() {
    let m = GridMap::new();
    let mut ps = vec![player(0, 0, 0), player(1, 5000, 5000)];
    move_players(&mut ps, [INPUT_LEFT, INPUT_DOWN], &m);
    assert_eq!(ps[0].pos, Pos { x: -130, y: 0 });
    assert_eq!(ps[1].pos, Pos { x: 5000, y: 4870 });
}

#[test]
fn reload_on_release() {
    let mut ps = vec![player(0, 0, 0), player(1, 0, 0)];
    ps[0].bullet_ready = BulletReady(false);
    ps[1].bullet_ready = BulletReady(false);
    reload_bullet(&mut ps, [0, INPUT_FIRE]);
    assert_eq!(ps[0].bullet_ready, BulletReady(true));
    assert_eq!(ps[1].bullet_ready, BulletReady(false));
}

#[test]
fn firing_spawns_bullet_and_sound() {
    let mut ps = vec![player(0, 1000, 2000), player(1, 0, 0)];
    let mut ids = SoundIdSeed((SoundSeed(10), SoundSeed(20)));
    let (bullets, sounds) = fire_bullets(&mut ps, [INPUT_FIRE, 0], 77, &mut ids);
    assert_eq!(bullets.len(), 1);
    // facing left: a player radius and a bullet radius ahead, on the facing line
    assert_eq!(bullets[0].pos, Pos { x: 1000 - 525, y: 2000 });
    assert_eq!(bullets[0].move_dir, MoveDir { x: -1, y: 0 });
    assert_eq!(sounds.len(), 1);
    assert_eq!(sounds[0].clip, SoundClip::LaserShoot);
    assert_eq!(sounds[0].start_frame, 77);
    let mut s0 = SoundSeed(10);
    assert_eq!(sounds[0].sub_key, s0.next() as usize);
    assert_eq!((ids.0).0, s0);
    assert_eq!((ids.0).1, SoundSeed(20));
    assert_eq!(ps[0].bullet_ready, BulletReady(false));
    assert_eq!(ps[1].bullet_ready, BulletReady(true));
}

#[test]
fn no_fire_while_held_or_marked() {
    let mut ps = vec![player(0, 0, 0), player(1, 0, 0)];
    ps[0].bullet_ready = BulletReady(false);
    ps[1].marked = Some(MarkedForDeath(3));
    let mut ids = SoundIdSeed((SoundSeed(10), SoundSeed(20)));
    let (bullets, sounds) = fire_bullets(&mut ps, [INPUT_FIRE, INPUT_FIRE], 1, &mut ids);
    assert!(bullets.is_empty());
    assert!(sounds.is_empty());
    assert_eq!(ids, SoundIdSeed((SoundSeed(10), SoundSeed(20))));
}

#[test]
fn diagonal_bullet_flight() {
    let mut bs = vec![
        Bullet { pos: Pos { x: 0, y: 0 }, move_dir: MoveDir { x: 1, y: -1 } },
        Bullet { pos: Pos { x: 100, y: 100 }, move_dir: MoveDir { x: 0, y: 1 } },
    ];
    move_bullets(&mut bs);
    assert_eq!(bs[0].pos, Pos { x: 247, y: -247 });
    assert_eq!(bs[1].pos, Pos { x: 100, y: 450 });
}

#[test]
fn bullets_spent_at_edge_or_wall() {
    let m = map_with_walls(&[(21, 20)]);
    let b = |x: i64, y: i64| Bullet { pos: Pos { x, y }, move_dir: MoveDir { x: 1, y: 0 } };
    assert!(bullet_spent(&m, b(20501, 0)));
    assert!(bullet_spent(&m, b(0, -20501)));
    assert!(!bullet_spent(&m, b(20500, 0)));
    assert!(bullet_spent(&m, b(1000, 0)));
    assert!(!bullet_spent(&m, b(0, 0)));
}

#[test]
fn hits_mark_and_make_sounds() {
    let mut ps = vec![player(0, 0, 0), player(1, 10000, 0)];
    let bs = vec![
        Bullet { pos: Pos { x: 524, y: 0 }, move_dir: MoveDir { x: 1, y: 0 } },
        Bullet { pos: Pos { x: 525, y: 0 }, move_dir: MoveDir { x: 1, y: 0 } },
        Bullet { pos: Pos { x: 0, y: -300 }, move_dir: MoveDir { x: 1, y: 0 } },
    ];
    let hit = bullets_hit(&ps, &bs);
    assert_eq!(hit, vec![true, false, true]);
    let mut ids = SoundIdSeed((SoundSeed(10), SoundSeed(20)));
    let (sounds, explosions) = kill_players(&mut ps, &bs, 9, &mut ids);
    assert_eq!(ps[0].marked, Some(MarkedForDeath(0)));
    assert_eq!(ps[1].marked, None);
    assert_eq!(explosions, vec![Pos { x: 524, y: 0 }, Pos { x: 0, y: -300 }]);
    assert_eq!(sounds.len(), 2);
    let mut s0 = SoundSeed(10);
    assert_eq!(sounds[0].sub_key, s0.next() as usize);
    assert_eq!(sounds[1].sub_key, s0.next() as usize);
    assert_eq!(sounds[1].clip, SoundClip::SwooshDeath);
    assert_eq!(sounds[1].start_frame, 9);
    assert_eq!((ids.0).0, s0);
}

#[test]
fn marked_player_is_not_hit_again() {
    let mut ps = vec![player(0, 0, 0)];
    ps[0].marked = Some(MarkedForDeath(4));
    let bs = vec![Bullet { pos: Pos { x: 0, y: 0 }, move_dir: MoveDir { x: 1, y: 0 } }];
    assert_eq!(bullets_hit(&ps, &bs), vec![false]);
    let mut ids = SoundIdSeed((SoundSeed(10), SoundSeed(20)));
    let (sounds, explosions) = kill_players(&mut ps, &bs, 9, &mut ids);
    assert!(sounds.is_empty());
    assert!(explosions.is_empty());
    assert_eq!(ps[0].marked, Some(MarkedForDeath(4)));
}

#[test]
fn death_mark_runs_out_after_thirty_frames() {
    let mut ps = vec![player(0, 0, 0), player(1, 0, 0)];
    ps[0].marked = Some(MarkedForDeath(0));
    for _ in 0..DEATH_FRAMES - 1 {
        assert!(!process_deaths(&mut ps));
    }
    assert!(process_deaths(&mut ps));
    assert_eq!(ps[0].marked, Some(MarkedForDeath(DEATH_FRAMES)));
    assert!(!process_deaths(&mut ps));
    assert_eq!(ps[0].marked, Some(MarkedForDeath(DEATH_FRAMES)));
    assert_eq!(ps[1].marked, None);
}

#[test]
fn death_of_player_zero_scores_player_one() {
    let mut ps = vec![player(0, 0, 0), player(1, 0, 0)];
    ps[0].marked = Some(MarkedForDeath(30));
    let mut scores = Scores(3, 4);
    count_points_and_despawn(&mut ps, &mut scores);
    assert_eq!(scores, Scores(3, 5));
    assert_eq!(ps.len(), 1);
    assert_eq!(ps[0].handle, 1);
}

#[test]
fn death_of_player_one_scores_player_zero() {
    let mut ps = vec![player(0, 0, 0), player(1, 0, 0)];
    ps[1].marked = Some(MarkedForDeath(30));
    let mut scores = Scores(0, 0);
    count_points_and_despawn(&mut ps, &mut scores);
    assert_eq!(scores, Scores(1, 0));
    assert_eq!(ps.len(), 1);
    assert_eq!(ps[0].handle, 0);
}

#[test]
fn simultaneous_deaths_score_both() {
    let mut ps = vec![player(0, 0, 0), player(1, 0, 0)];
    ps[0].marked = Some(MarkedForDeath(30));
    ps[1].marked = Some(MarkedForDeath(12));
    let mut scores = Scores(2, 2);
    count_points_and_despawn(&mut ps, &mut scores);
    assert_eq!(scores, Scores(3, 3));
    assert!(ps.is_empty());
}

#[test]
fn spawn_positions_are_free_and_apart() {
    let m = generate_map();
    for seed in [0u64, 1, 42, 0xdead_beef, u64::MAX] {
        let ps = generate_random_positions(2, seed, &m);
        assert_eq!(ps.len(), 2);
        assert_eq!(ps, generate_random_positions(2, seed, &m));
        for &(x, y) in &ps {
            assert!((x as usize) < MAP_SIZE && (y as usize) < MAP_SIZE);
            assert_eq!(m.cell_at(x, y), CellType::Empty);
        }
        assert_ne!(ps[0].0, ps[1].0);
        assert_ne!(ps[0].1, ps[1].1);
    }
}

#[test]
fn spawning_resets_players_and_bullets() {
    let m = generate_map();
    let mut ps = vec![player(0, 0, 0)];
    let mut bs = vec![Bullet { pos: Pos { x: 0, y: 0 }, move_dir: MoveDir { x: 1, y: 0 } }];
    let mut seed = GameSeed(1234);
    spawn_players(&mut ps, &mut bs, &mut seed, &m);
    assert!(bs.is_empty());
    assert_eq!(ps.len(), 2);
    let cells = generate_random_positions(2, 1234, &m);
    assert_eq!(ps[0].handle, 0);
    assert_eq!(ps[0].pos, grid_to_world(cells[0]));
    assert_eq!(ps[0].move_dir, MoveDir { x: -1, y: 0 });
    assert_eq!(ps[1].handle, 1);
    assert_eq!(ps[1].pos, grid_to_world(cells[1]));
    assert_eq!(ps[1].move_dir, MoveDir { x: 1, y: 0 });
    assert_eq!(ps[1].bullet_ready, BulletReady(true));
    let mut expected = GameSeed(1234);
    expected.advance();
    assert_eq!(seed, expected);
}

#[test]
fn eyes_follow_facing() {
    let mut ps = vec![player(0, 0, 0), player(1, 0, 0)];
    ps[1].move_dir = MoveDir { x: 1, y: 1 };
    assert_eq!(player_look(&ps), vec![3, 6]);
}

#[test]
fn diagonal_shot_starts_on_the_diagonal() {
    let mut ps = vec![player(0, 0, 0)];
    ps[0].move_dir = MoveDir { x: 1, y: -1 };
    let mut ids = SoundIdSeed((SoundSeed(1), SoundSeed(2)));
    let (bullets, _) = fire_bullets(&mut ps, [INPUT_FIRE, 0], 0, &mut ids);
    assert_eq!(bullets[0].pos, Pos { x: 371, y: -371 });
    assert_eq!(bullets[0].move_dir, MoveDir { x: 1, y: -1 });
}
