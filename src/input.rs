//! The per-frame input byte: four direction flags and a fire flag.
use vstd::prelude::*;

verus! {

pub const INPUT_UP: u8 = 1;
pub const INPUT_DOWN: u8 = 2;
pub const INPUT_LEFT: u8 = 4;
pub const INPUT_RIGHT: u8 = 8;
pub const INPUT_FIRE: u8 = 16;

/// A touch gesture shorter than this many pixels gives no direction.
pub const DEADZONE: i128 = 15;

/// Direction of movement and facing: the sign of each axis, so that `(1, 1)` stands
/// for the unit diagonal.
#[derive(Clone, Copy, Debug, Default, PartialEq, Eq, Structural)]
pub struct MoveDir {
    pub x: i64,
    pub y: i64,
}

impl MoveDir {
    /// Each component is -1, 0 or 1.
    pub open spec fn wf(self) -> bool {
        -1 <= self.x <= 1 && -1 <= self.y <= 1
    }

    pub open spec fn is_zero(self) -> bool {
        self.x == 0 && self.y == 0
    }

    pub open spec fn is_diagonal(self) -> bool {
        self.x != 0 && self.y != 0
    }
}

/// Whether `flag` is set in `input`.
pub open spec fn flag_set(input: u8, flag: u8) -> bool {
    input & flag != 0
}

/// Contribution of a pair of opposite flags to one axis.
pub open spec fn axis_of(plus: bool, minus: bool) -> i64 {
    ((if plus { 1int } else { 0int }) - (if minus { 1int } else { 0int })) as i64
}

/// The direction that `input` asks for: up and right count +1, down and left -1.
pub open spec fn direction_spec(input: u8) -> MoveDir {
    MoveDir {
        x: axis_of(flag_set(input, INPUT_RIGHT), flag_set(input, INPUT_LEFT)),
        y: axis_of(flag_set(input, INPUT_UP), flag_set(input, INPUT_DOWN)),
    }
}

/// Decodes the direction flags of `input`; opposite flags cancel.
pub fn direction(input: u8) -> (r: MoveDir)
    ensures
        r == direction_spec(input),
        r.wf(),
{
    let mut x: i64 = 0;
    let mut y: i64 = 0;
    if input & INPUT_UP != 0 {
        y = y + 1;
    }
    if input & INPUT_DOWN != 0 {
        y = y - 1;
    }
    if input & INPUT_RIGHT != 0 {
        x = x + 1;
    }
    if input & INPUT_LEFT != 0 {
        x = x - 1;
    }
    MoveDir { x, y }
}

/// Whether `input` asks to fire.
pub fn fire(input: u8) -> (r: bool)
    ensures
        r == flag_set(input, INPUT_FIRE),
{
    input & INPUT_FIRE != 0
}

/// `a` exceeds `sqrt(2) * b`, for `b >= 0`.
pub open spec fn exceeds_sqrt2_times(a: int, b: int) -> bool {
    a > 0 && a * a > 2 * (b * b)
}

/// `a` exceeds nine tenths of the length `sqrt(m2)`.
pub open spec fn exceeds_nine_tenths(a: int, m2: int) -> bool {
    a > 0 && 100 * (a * a) > 81 * m2
}

/// The input byte for a drag vector `(x, y)`: nothing inside the dead zone, a
/// straight up or down when within the axis dead zone of the vertical, else the
/// nearest of the eight directions, with the straight direction winning when it is
/// within the axis dead zone. A drag towards `+x` reads as left, as the vector is
/// taken from the current touch point back to where the touch started.
pub open spec fn input_from_vec_spec(x: int, y: int) -> u8 {
    let m2 = x * x + y * y;
    if m2 <= DEADZONE * DEADZONE {
        0
    } else if exceeds_nine_tenths(y, m2) {
        INPUT_UP
    } else if exceeds_nine_tenths(-y, m2) {
        INPUT_DOWN
    } else if x > 0 {
        if exceeds_nine_tenths(x, m2) {
            INPUT_LEFT
        } else if exceeds_sqrt2_times(x + y, x) {
            INPUT_LEFT | INPUT_UP
        } else if exceeds_sqrt2_times(x - y, x) {
            INPUT_LEFT | INPUT_DOWN
        } else {
            0
        }
    } else {
        if exceeds_nine_tenths(-x, m2) {
            INPUT_RIGHT
        } else if exceeds_sqrt2_times(y - x, -x) {
            INPUT_RIGHT | INPUT_UP
        } else if exceeds_sqrt2_times(-x - y, -x) {
            INPUT_RIGHT | INPUT_DOWN
        } else {
            0
        }
    }
}

fn exceeds_sqrt2_times_exec(a: i128, b: i128) -> (r: bool)
    requires
        -0x1_0000_0000 <= a <= 0x1_0000_0000,
        -0x1_0000_0000 <= b <= 0x1_0000_0000,
    ensures
        r == exceeds_sqrt2_times(a as int, b as int),
{
    proof {
        assert(0 <= a * a <= 0x1_0000_0000 * 0x1_0000_0000) by (nonlinear_arith)
            requires -0x1_0000_0000 <= a <= 0x1_0000_0000;
        assert(0 <= b * b <= 0x1_0000_0000 * 0x1_0000_0000) by (nonlinear_arith)
            requires -0x1_0000_0000 <= b <= 0x1_0000_0000;
    }
    a > 0 && a * a > 2 * (b * b)
}

fn exceeds_nine_tenths_exec(a: i128, m2: i128) -> (r: bool)
    requires
        -0x1_0000_0000 <= a <= 0x1_0000_0000,
        0 <= m2 <= 0x1_0000_0000_0000_0000,
    ensures
        r == exceeds_nine_tenths(a as int, m2 as int),
{
    proof {
        assert(0 <= a * a <= 0x1_0000_0000 * 0x1_0000_0000) by (nonlinear_arith)
            requires -0x1_0000_0000 <= a <= 0x1_0000_0000;
    }
    a > 0 && 100 * (a * a) > 81 * m2
}

/// Turns a drag vector from a touch screen or stick, in whole pixels, into the
/// input byte.
pub fn input_from_vec(x: i32, y: i32) -> (r: u8)
    ensures
        r == input_from_vec_spec(x as int, y as int),
{
    let x = x as i128;
    let y = y as i128;
    proof {
        assert(0 <= x * x <= 0x8000_0000 * 0x8000_0000) by (nonlinear_arith)
            requires -0x8000_0000 <= x <= 0x8000_0000;
        assert(0 <= y * y <= 0x8000_0000 * 0x8000_0000) by (nonlinear_arith)
            requires -0x8000_0000 <= y <= 0x8000_0000;
    }
    let m2 = x * x + y * y;
    if m2 <= DEADZONE * DEADZONE {
        0
    } else if exceeds_nine_tenths_exec(y, m2) {
        INPUT_UP
    } else if exceeds_nine_tenths_exec(-y, m2) {
        INPUT_DOWN
    } else if x > 0 {
        if exceeds_nine_tenths_exec(x, m2) {
            INPUT_LEFT
        } else if exceeds_sqrt2_times_exec(x + y, x) {
            INPUT_LEFT | INPUT_UP
        } else if exceeds_sqrt2_times_exec(x - y, x) {
            INPUT_LEFT | INPUT_DOWN
        } else {
            0
        }
    } else {
        if exceeds_nine_tenths_exec(-x, m2) {
            INPUT_RIGHT
        } else if exceeds_sqrt2_times_exec(y - x, -x) {
            INPUT_RIGHT | INPUT_UP
        } else if exceeds_sqrt2_times_exec(-x - y, -x) {
            INPUT_RIGHT | INPUT_DOWN
        } else {
            0
        }
    }
}

/// Index of the eye sprite facing `dir`: 0 down-right, 1 down, 2 down-left, 3 left,
/// 4 up-left, 5 up, 6 up-right, 7 right; 0 for no direction.
pub open spec fn directional_sprite_spec(dir: MoveDir) -> usize {
    if dir.y < 0 && dir.x > 0 {
        0
    } else if dir.x == 0 && dir.y < 0 {
        1
    } else if dir.y < 0 && dir.x < 0 {
        2
    } else if dir.y == 0 && dir.x < 0 {
        3
    } else if dir.y > 0 && dir.x < 0 {
        4
    } else if dir.x == 0 && dir.y > 0 {
        5
    } else if dir.y > 0 && dir.x > 0 {
        6
    } else if dir.y == 0 && dir.x > 0 {
        7
    } else {
        0
    }
}

/// Picks the eye sprite for a facing direction.
pub fn get_directional_sprite(dir: MoveDir) -> (r: usize)
    ensures
        r == directional_sprite_spec(dir),
        r < 8,
{
    if dir.y < 0 && dir.x > 0 {
        0
    } else if dir.x == 0 && dir.y < 0 {
        1
    } else if dir.y < 0 && dir.x < 0 {
        2
    } else if dir.y == 0 && dir.x < 0 {
        3
    } else if dir.y > 0 && dir.x < 0 {
        4
    } else if dir.x == 0 && dir.y > 0 {
        5
    } else if dir.y > 0 && dir.x > 0 {
        6
    } else if dir.y == 0 && dir.x > 0 {
        7
    } else {
        0
    }
}

/// Which controls are held this frame: each is whether any key bound to it is down.
#[derive(Clone, Copy, Debug, Default, PartialEq, Eq, Structural)]
pub struct HeldKeys {
    pub up: bool,
    pub down: bool,
    pub left: bool,
    pub right: bool,
    pub fire: bool,
}

pub open spec fn flag_if(b: bool, flag: u8) -> u8 {
    if b { flag } else { 0 }
}

pub open spec fn keys_spec(keys: HeldKeys) -> u8 {
    flag_if(keys.up, INPUT_UP) | flag_if(keys.down, INPUT_DOWN) | flag_if(keys.left, INPUT_LEFT) | flag_if(
        keys.right,
        INPUT_RIGHT,
    ) | flag_if(keys.fire, INPUT_FIRE)
}

/// The input byte for the held keys.
pub fn keys_to_input(keys: HeldKeys) -> (r: u8)
    ensures
        r == keys_spec(keys),
{
    let up = if keys.up { INPUT_UP } else { 0 };
    let down = if keys.down { INPUT_DOWN } else { 0 };
    let left = if keys.left { INPUT_LEFT } else { 0 };
    let right = if keys.right { INPUT_RIGHT } else { 0 };
    let fire = if keys.fire { INPUT_FIRE } else { 0 };
    up | down | left | right | fire
}

/// The touch that steers, once one is down.
#[derive(Clone, Copy, Debug, Default, PartialEq, Eq, Structural)]
pub struct TouchMap(pub Option<u64>);

/// A finger on the screen this frame.
#[derive(Clone, Copy, Debug, PartialEq, Eq, Structural)]
pub struct TouchPoint {
    pub id: u64,
    /// Where the touch started minus where it is now, in whole pixels.
    pub drag_x: i32,
    pub drag_y: i32,
    /// Whether the touch began on this frame.
    pub just_pressed: bool,
}

/// The steering touch after the touches that ended this frame are taken into account:
/// it is dropped when it ended, or when no finger is on the screen.
pub open spec fn release_spec(map: Option<u64>, touch_count: nat, ended: Seq<u64>) -> Option<u64> {
    match map {
        Some(tm) => if ended.contains(tm) || touch_count == 0 { None } else { map },
        None => None,
    }
}

/// Steering touch and input bits after going through `touches` in order: the first
/// finger seen with no steering touch becomes the steering touch; the steering touch
/// steers by its drag; any other touch that just began fires.
pub open spec fn touch_fold(map: Option<u64>, touches: Seq<TouchPoint>) -> (Option<u64>, u8)
    decreases touches.len(),
{
    if touches.len() == 0 {
        (map, 0)
    } else {
        let prev = touch_fold(map, touches.drop_last());
        let f = touches.last();
        match prev.0 {
            None => (Some(f.id), prev.1),
            Some(tm) => if tm == f.id {
                (prev.0, prev.1 | input_from_vec_spec(f.drag_x as int, f.drag_y as int))
            } else if f.just_pressed {
                (prev.0, prev.1 | INPUT_FIRE)
            } else {
                prev
            },
        }
    }
}

/// Reads the touch screen: updates the steering touch and returns the input bits
/// that the touches give.
pub fn touch_input(touch_map: &mut TouchMap, touches: &Vec<TouchPoint>, ended: &Vec<u64>) -> (r: u8)
    ensures
        ({
            let m = release_spec(old(touch_map).0, touches@.len(), ended@);
            (final(touch_map).0, r) == touch_fold(m, touches@)
        }),
{
    match touch_map.0 {
        Some(tm) => {
            let mut found = false;
            let mut i: usize = 0;
            while i < ended.len()
                invariant
                    i <= ended@.len(),
                    found == exists|k: int| 0 <= k < i && ended@[k] == tm,
                decreases ended@.len() - i,
            {
                if ended[i] == tm {
                    found = true;
                }
                i = i + 1;
            }
            assert(found == ended@.contains(tm));
            if found || touches.len() == 0 {
                touch_map.0 = None;
            }
        },
        None => {},
    }
    let ghost m = touch_map.0;
    assert(m == release_spec(old(touch_map).0, touches@.len(), ended@));
    let mut input: u8 = 0;
    let mut j: usize = 0;
    while j < touches.len()
        invariant
            j <= touches@.len(),
            (touch_map.0, input) == touch_fold(m, touches@.take(j as int)),
        decreases touches@.len() - j,
    {
        let f = touches[j];
        proof {
            assert(touches@.take(j + 1).drop_last() =~= touches@.take(j as int));
        }
        match touch_map.0 {
            None => {
                touch_map.0 = Some(f.id);
            },
            Some(tm) => {
                if tm == f.id {
                    input = input | input_from_vec(f.drag_x, f.drag_y);
                } else if f.just_pressed {
                    input = input | INPUT_FIRE;
                }
            },
        }
        j = j + 1;
    }
    assert(touches@.take(touches@.len() as int) =~= touches@);
    input
}

/// The local input byte for this frame: held keys and touches together.
pub fn input(keys: HeldKeys, touch_map: &mut TouchMap, touches: &Vec<TouchPoint>, ended: &Vec<u64>) -> (r: u8)
    ensures
        ({
            let m = release_spec(old(touch_map).0, touches@.len(), ended@);
            &&& final(touch_map).0 == touch_fold(m, touches@).0
            &&& r == keys_spec(keys) | touch_fold(m, touches@).1
        }),
{
    let k = keys_to_input(keys);
    let t = touch_input(touch_map, touches, ended);
    k | t
}

} // verus!
