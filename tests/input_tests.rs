use ghosties::input::{
    direction, fire, get_directional_sprite, input_from_vec, MoveDir, INPUT_DOWN, INPUT_FIRE, INPUT_LEFT,
    INPUT_RIGHT, INPUT_UP,
};

#[test]
fn direction_from_flags() {
    assert_eq!(direction(0), MoveDir { x: 0, y: 0 });
    assert_eq!(direction(INPUT_UP), MoveDir { x: 0, y: 1 });
    assert_eq!(direction(INPUT_DOWN), MoveDir { x: 0, y: -1 });
    assert_eq!(direction(INPUT_LEFT), MoveDir { x: -1, y: 0 });
    assert_eq!(direction(INPUT_RIGHT | INPUT_UP), MoveDir { x: 1, y: 1 });
    assert_eq!(direction(INPUT_UP | INPUT_DOWN), MoveDir { x: 0, y: 0 });
    assert_eq!(direction(INPUT_LEFT | INPUT_RIGHT | INPUT_DOWN | INPUT_FIRE), MoveDir { x: 0, y: -1 });
}

#[test]
fn fire_flag() {
    assert!(fire(INPUT_FIRE));
    assert!(fire(INPUT_FIRE | INPUT_UP));
    assert!(!fire(INPUT_UP | INPUT_DOWN | INPUT_LEFT | INPUT_RIGHT));
}

#[test]
fn touch_vector_dead_zone() {
    assert_eq!(input_from_vec(0, 0), 0);
    assert_eq!(input_from_vec(15, 0), 0);
    assert_eq!(input_from_vec(9, 12), 0);
    assert_eq!(input_from_vec(16, 0), INPUT_LEFT);
}

#[test]
fn touch_vector_directions() {
    assert_eq!(input_from_vec(0, 100), INPUT_UP);
    assert_eq!(input_from_vec(0, -100), INPUT_DOWN);
    assert_eq!(input_from_vec(100, 0), INPUT_LEFT);
    assert_eq!(input_from_vec(-100, 0), INPUT_RIGHT);
    assert_eq!(input_from_vec(100, 100), INPUT_LEFT | INPUT_UP);
    assert_eq!(input_from_vec(100, -100), INPUT_LEFT | INPUT_DOWN);
    assert_eq!(input_from_vec(-100, 100), INPUT_RIGHT | INPUT_UP);
    assert_eq!(input_from_vec(-100, -100), INPUT_RIGHT | INPUT_DOWN);
}

#[test]
fn touch_vector_axis_priority() {
    // within the axis dead zone of the vertical
    assert_eq!(input_from_vec(30, 100), INPUT_UP);
    // nearer the diagonal than the vertical dead zone allows
    assert_eq!(input_from_vec(60, 100), INPUT_LEFT | INPUT_UP);
    // close to the horizontal
    assert_eq!(input_from_vec(100, 30), INPUT_LEFT);
    assert_eq!(input_from_vec(-100, -30), INPUT_RIGHT);
}

#[test]
fn touch_vector_extremes() {
    assert_eq!(input_from_vec(i32::MIN, i32::MIN), INPUT_RIGHT | INPUT_DOWN);
    assert_eq!(input_from_vec(i32::MAX, 0), INPUT_LEFT);
    assert_eq!(input_from_vec(0, i32::MIN), INPUT_DOWN);
}

#[test]
fn directional_sprites() {
    assert_eq!(get_directional_sprite(MoveDir { x: 1, y: -1 }), 0);
    assert_eq!(get_directional_sprite(MoveDir { x: 0, y: -1 }), 1);
    assert_eq!(get_directional_sprite(MoveDir { x: -1, y: -1 }), 2);
    assert_eq!(get_directional_sprite(MoveDir { x: -1, y: 0 }), 3);
    assert_eq!(get_directional_sprite(MoveDir { x: -1, y: 1 }), 4);
    assert_eq!(get_directional_sprite(MoveDir { x: 0, y: 1 }), 5);
    assert_eq!(get_directional_sprite(MoveDir { x: 1, y: 1 }), 6);
    assert_eq!(get_directional_sprite(MoveDir { x: 1, y: 0 }), 7);
    assert_eq!(get_directional_sprite(MoveDir { x: 0, y: 0 }), 0);
}

use ghosties::input::{input, keys_to_input, touch_input, HeldKeys, TouchMap, TouchPoint};

fn touch(id: u64, drag_x: i32, drag_y: i32, just_pressed: bool) -> TouchPoint {
    TouchPoint { id, drag_x, drag_y, just_pressed }
}

#[test]
fn keys_to_bits() {
    assert_eq!(keys_to_input(HeldKeys::default()), 0);
    let all = HeldKeys { up: true, down: true, left: true, right: true, fire: true };
    assert_eq!(keys_to_input(all), 0b1_1111);
    let some = HeldKeys { up: true, right: true, fire: true, ..HeldKeys::default() };
    assert_eq!(keys_to_input(some), INPUT_UP | INPUT_RIGHT | INPUT_FIRE);
}

#[test]
fn first_touch_becomes_steering_touch() {
    let mut map = TouchMap(None);
    let bits = touch_input(&mut map, &vec![touch(4, 100, 0, true)], &vec![]);
    assert_eq!(map, TouchMap(Some(4)));
    assert_eq!(bits, 0);
    let bits = touch_input(&mut map, &vec![touch(4, 100, 0, false)], &vec![]);
    assert_eq!(bits, INPUT_LEFT);
}

#[test]
fn second_touch_fires_on_tap() {
    let mut map = TouchMap(Some(4));
    let touches = vec![touch(4, 0, 100, false), touch(9, 0, 0, true)];
    assert_eq!(touch_input(&mut map, &touches, &vec![]), INPUT_UP | INPUT_FIRE);
    let touches = vec![touch(4, 0, 100, false), touch(9, 0, 0, false)];
    assert_eq!(touch_input(&mut map, &touches, &vec![]), INPUT_UP);
}

#[test]
fn steering_touch_released() {
    let mut map = TouchMap(Some(4));
    // released: the next finger listed takes over steering
    let touches = vec![touch(9, -100, 0, false), touch(4, 100, 0, false)];
    assert_eq!(touch_input(&mut map, &touches, &vec![4]), 0);
    assert_eq!(map, TouchMap(Some(9)));
    // no finger on the screen at all
    let mut map = TouchMap(Some(4));
    assert_eq!(touch_input(&mut map, &vec![], &vec![]), 0);
    assert_eq!(map, TouchMap(None));
}

#[test]
fn keys_and_touches_combine() {
    let mut map = TouchMap(Some(1));
    let keys = HeldKeys { fire: true, ..HeldKeys::default() };
    let r = input(keys, &mut map, &vec![touch(1, -100, -100, false)], &vec![]);
    assert_eq!(r, INPUT_FIRE | INPUT_RIGHT | INPUT_DOWN);
}
