//! A single duck: its behaviour, flight, animation, fall and hit box.
use crate::timer::{tick_step, RepeatingTimer};
use vstd::prelude::*;

verus! {

/// Nanoseconds in one second.
pub const NANOS_PER_SEC: u64 = 1_000_000_000;

/// Micropixels in one pixel.
pub const MICROS_PER_PIXEL: i64 = 1_000_000;

/// A sine value of one, in parts per million.
pub const SINE_ONE: i64 = 1_000_000;

/// Horizontal distance from the centre at which a flying duck turns back, in micropixels.
pub const TURN_BOUND: i64 = 120_000_000;

/// Height at which new ducks appear, in micropixels.
pub const SPAWN_Y: i64 = -40_000_000;

/// Horizontal spawn offset for a sine of one, in pixels.
pub const SPAWN_X_PIXELS: i64 = 120;

/// Speed of a default duck, in micropixels per second.
pub const DEFAULT_SPEED: u64 = 20_000_000;

/// Slowest spawned speed, in micropixels per second.
pub const MIN_SPAWN_SPEED: u64 = 20_000_000;

/// Extra speed of a spawned duck at a sine of one, in pixels per second.
pub const SPAWN_SPEED_RANGE_PIXELS: i64 = 80;

/// Fastest spawned speed, in micropixels per second.
pub const MAX_SPAWN_SPEED: u64 = 100_000_000;

/// Speed at which a dying duck falls, in micropixels per second.
pub const FALL_SPEED: u64 = 80_000_000;

/// A dying duck below this height is dead, in micropixels.
pub const DEATH_Y: i64 = -240_000_000;

/// Half the side of a duck's square hit box, in micropixels.
pub const HALF_EXTENT: i64 = 16_000_000;

/// Time each animation frame is shown, in nanoseconds.
pub const FRAME_TIME_NS: u64 = 500_000_000;

/// Number of frames in the flying cycle.
pub const FLYING_FRAMES: usize = 3;

/// The splat frame shown when a duck starts dying.
pub const SPLAT_FRAME: usize = 3;

/// The last frame of the dying animation.
pub const LAST_FRAME: usize = 4;

/// What a duck is doing; flying ducks may turn round, but a dying duck never flies again.
#[derive(Clone, Copy, Debug, PartialEq, Eq, Structural)]
pub enum DuckBehaviour {
    FlyingLeft,
    FlyingRight,
    Dying,
}

/// One duck of the world.
pub struct Duck {
    /// Stable identifier, unique within a world.
    pub id: u64,
    pub behaviour: DuckBehaviour,
    /// Flying speed in micropixels per second.
    pub speed: u64,
    /// Horizontal position in micropixels; positive is right.
    pub x: i64,
    /// Vertical position in micropixels; positive is up.
    pub y: i64,
    pub animation_timer: RepeatingTimer,
    /// Index of the sprite frame shown.
    pub frame_index: usize,
    /// Whether the sprite is mirrored horizontally.
    pub flip_x: bool,
    /// Set once a dying duck has left the playfield; it is then only removed.
    pub dead: bool,
}

pub open spec fn is_flying(b: DuckBehaviour) -> bool {
    b != DuckBehaviour::Dying
}

pub open spec fn in_i64(v: int) -> bool {
    i64::MIN <= v <= i64::MAX
}

/// Distance covered at `speed` micropixels per second in `dt` nanoseconds,
/// rounded down to whole micropixels.
pub open spec fn travel(speed: nat, dt: nat) -> int {
    (speed * dt / (NANOS_PER_SEC as nat)) as int
}

/// Horizontal position of a flying duck after `dt`.
pub open spec fn flown_x(d: Duck, dt: nat) -> int {
    if d.behaviour == DuckBehaviour::FlyingRight {
        d.x + travel(d.speed as nat, dt)
    } else {
        d.x - travel(d.speed as nat, dt)
    }
}

/// Vertical position of a flying duck after `dt`: flying ducks also climb.
pub open spec fn flown_y(d: Duck, dt: nat) -> int {
    d.y + travel(d.speed as nat, dt)
}

/// Direction of a flying duck once it has reached horizontal position `x`.
pub open spec fn heading_at(b: DuckBehaviour, x: int) -> DuckBehaviour {
    if x > TURN_BOUND {
        DuckBehaviour::FlyingLeft
    } else if x < -TURN_BOUND {
        DuckBehaviour::FlyingRight
    } else {
        b
    }
}

/// Height of a falling duck after `dt`.
pub open spec fn fallen_y(d: Duck, dt: nat) -> int {
    d.y - travel(FALL_SPEED as nat, dt)
}

/// The positions reached by flying or falling for `dt` fit in `i64`.
pub open spec fn step_fits(d: Duck, dt: nat) -> bool {
    &&& in_i64(flown_x(d, dt))
    &&& in_i64(flown_y(d, dt))
    &&& in_i64(fallen_y(d, dt))
}

/// The animation timer's completion count for a tick of `dt` fits in `u32`.
pub open spec fn anim_tick_fits(d: Duck, dt: nat) -> bool {
    (d.animation_timer.elapsed() + dt) / d.animation_timer.duration() <= u32::MAX
}

/// Frame index and mirror flag after an animation step, given whether the
/// animation timer completed during it.
pub open spec fn animated(b: DuckBehaviour, frame: usize, flip: bool, finished: bool) -> (
    usize,
    bool,
) {
    match b {
        DuckBehaviour::FlyingLeft => (
            if finished {
                next_flying_frame(frame)
            } else {
                frame
            },
            true,
        ),
        DuckBehaviour::FlyingRight => (
            if finished {
                next_flying_frame(frame)
            } else {
                frame
            },
            false,
        ),
        DuckBehaviour::Dying => if frame < SPLAT_FRAME {
            (SPLAT_FRAME, flip)
        } else if finished {
            (if frame + 1 >= LAST_FRAME {
                LAST_FRAME
            } else {
                (frame + 1) as usize
            }, !flip)
        } else {
            (frame, flip)
        },
    }
}

pub open spec fn next_flying_frame(frame: usize) -> usize {
    if frame + 1 >= FLYING_FRAMES {
        0
    } else {
        (frame + 1) as usize
    }
}

/// Whether the point (`cx`, `cy`) lies in the square of half side `h`
/// centred on (`x`, `y`), edges included.
pub open spec fn box_contains(cx: int, cy: int, x: int, y: int, h: int) -> bool {
    &&& x - h <= cx <= x + h
    &&& y - h <= cy <= y + h
}

/// Speed of a duck spawned at sine `s` (parts per million):
/// twenty pixels per second plus eighty times the square of the sine.
pub open spec fn spawn_speed(s: int) -> int {
    s * s * (SPAWN_SPEED_RANGE_PIXELS as int) / (SINE_ONE as int) + (MIN_SPAWN_SPEED as int)
}

/// Direction of a duck spawned at sine `s`.
pub open spec fn spawn_heading(s: int) -> DuckBehaviour {
    if s < 0 {
        DuckBehaviour::FlyingRight
    } else {
        DuckBehaviour::FlyingLeft
    }
}

/// `b` is `a` after flying for `dt`: a live flying duck moves by its speed,
/// climbing, and turns round past the horizontal bounds; any other duck stays.
pub open spec fn duck_moved(a: Duck, b: Duck, dt: nat) -> bool {
    if a.dead || !is_flying(a.behaviour) {
        b == a
    } else {
        &&& b.x == flown_x(a, dt)
        &&& b.y == flown_y(a, dt)
        &&& b.behaviour == heading_at(a.behaviour, b.x as int)
        &&& b == (Duck { x: b.x, y: b.y, behaviour: b.behaviour, ..a })
    }
}

/// `b` is `a` after one animation step of `dt` (see `animate_duck`).
pub open spec fn duck_animated(a: Duck, b: Duck, dt: nat) -> bool {
    if a.dead {
        b == a
    } else {
        &&& (b.frame_index, b.flip_x) == animated(
            a.behaviour,
            a.frame_index,
            a.flip_x,
            a.animation_timer.elapsed() + dt >= a.animation_timer.duration(),
        )
        &&& b.animation_timer.elapsed() == if a.behaviour == DuckBehaviour::Dying && a.frame_index
            < SPLAT_FRAME {
            0
        } else {
            tick_step(a.animation_timer.elapsed(), a.animation_timer.duration(), dt).0
        }
        &&& b.animation_timer.duration() == a.animation_timer.duration()
        &&& b.id == a.id
        &&& b.behaviour == a.behaviour
        &&& b.speed == a.speed
        &&& b.x == a.x
        &&& b.y == a.y
        &&& b.dead == a.dead
    }
}

/// `b` is `a` after falling for `dt`: a live dying duck drops at the fall
/// speed and is dead once below the playfield; any other duck stays.
pub open spec fn duck_fell(a: Duck, b: Duck, dt: nat) -> bool {
    if a.dead || is_flying(a.behaviour) {
        b == a
    } else {
        &&& b.y == fallen_y(a, dt)
        &&& b.dead == (b.y < DEATH_Y)
        &&& b == (Duck { y: b.y, dead: b.dead, ..a })
    }
}

/// A shot at (`cx`, `cy`) hits the live duck `a` with hit box half side `h`.
pub open spec fn is_hit(a: Duck, cx: int, cy: int, h: int) -> bool {
    !a.dead && box_contains(cx, cy, a.x as int, a.y as int, h)
}

/// `b` is `a` after a shot at (`cx`, `cy`): a hit duck is dying, else it stays.
pub open spec fn duck_shot(a: Duck, b: Duck, cx: int, cy: int, h: int) -> bool {
    if is_hit(a, cx, cy, h) {
        b == (Duck { behaviour: DuckBehaviour::Dying, ..a })
    } else {
        b == a
    }
}

impl Duck {
    pub open spec fn wf(&self) -> bool {
        &&& self.animation_timer.wf()
        &&& self.animation_timer.duration() == FRAME_TIME_NS
        &&& self.frame_index <= LAST_FRAME
    }
}

impl Default for Duck {
    /// A duck at the origin flying left at the default speed.
    fn default() -> (r: Duck)
        ensures
            r.wf(),
            r.id == 0,
            r.behaviour == DuckBehaviour::FlyingLeft,
            r.speed == DEFAULT_SPEED,
            r.x == 0,
            r.y == 0,
            r.animation_timer.elapsed() == 0,
            r.frame_index == 0,
            !r.flip_x,
            !r.dead,
    {
        Duck {
            id: 0,
            behaviour: DuckBehaviour::FlyingLeft,
            speed: DEFAULT_SPEED,
            x: 0,
            y: 0,
            animation_timer: RepeatingTimer::new(FRAME_TIME_NS),
            frame_index: 0,
            flip_x: false,
            dead: false,
        }
    }
}

/// A new duck with identifier `id`, placed and set going by the sine `sine_ppm`
/// (in parts per million) of the time since the game started.
pub fn spawn_duck(id: u64, sine_ppm: i64) -> (r: Duck)
    requires
        -SINE_ONE <= sine_ppm <= SINE_ONE,
    ensures
        r.wf(),
        r.id == id,
        r.x == sine_ppm * SPAWN_X_PIXELS,
        r.y == SPAWN_Y,
        r.behaviour == spawn_heading(sine_ppm as int),
        r.speed == spawn_speed(sine_ppm as int),
        MIN_SPAWN_SPEED <= r.speed <= MAX_SPAWN_SPEED,
        r.animation_timer.elapsed() == 0,
        r.frame_index == 0,
        !r.flip_x,
        !r.dead,
{
    let s = sine_ppm;
    proof {
        assert(0 <= s * s <= SINE_ONE * SINE_ONE) by (nonlinear_arith)
            requires
                -SINE_ONE <= s <= SINE_ONE,
        ;
        assert(0 <= s * s * 80 / (SINE_ONE as int) <= 80_000_000) by (nonlinear_arith)
            requires
                0 <= s * s <= SINE_ONE * SINE_ONE,
        ;
    }
    let extra: i64 = s * s * SPAWN_SPEED_RANGE_PIXELS / SINE_ONE;
    let behaviour = if s < 0 {
        DuckBehaviour::FlyingRight
    } else {
        DuckBehaviour::FlyingLeft
    };
    Duck {
        id,
        behaviour,
        speed: extra as u64 + MIN_SPAWN_SPEED,
        x: s * SPAWN_X_PIXELS,
        y: SPAWN_Y,
        animation_timer: RepeatingTimer::new(FRAME_TIME_NS),
        frame_index: 0,
        flip_x: false,
        dead: false,
    }
}

/// `travel(speed, dt)` computed exactly.
pub(crate) fn travel_exec(speed: u64, dt: u64) -> (r: u128)
    ensures
        r as int == travel(speed as nat, dt as nat),
{
    proof {
        assert((speed as nat) * (dt as nat) <= u128::MAX) by (nonlinear_arith)
            requires
                speed <= u64::MAX,
                dt <= u64::MAX,
        ;
    }
    (speed as u128) * (dt as u128) / (NANOS_PER_SEC as u128)
}

/// Moves a live flying duck for `dt` nanoseconds and turns it round past
/// the horizontal bounds. Dying and dead ducks are left as they are.
pub fn move_duck(d: &mut Duck, dt: u64)
    requires
        step_fits(*old(d), dt as nat),
    ensures
        duck_moved(*old(d), *final(d), dt as nat),
        old(d).behaviour == DuckBehaviour::Dying ==> final(d).behaviour == DuckBehaviour::Dying,
        is_flying(old(d).behaviour) ==> is_flying(final(d).behaviour),
{
    if d.dead || d.behaviour == DuckBehaviour::Dying {
        return ;
    }
    let dist = travel_exec(d.speed, dt);
    let nx: i128 = if d.behaviour == DuckBehaviour::FlyingRight {
        d.x as i128 + dist as i128
    } else {
        d.x as i128 - dist as i128
    };
    let ny: i128 = d.y as i128 + dist as i128;
    d.x = nx as i64;
    d.y = ny as i64;
    if d.x > TURN_BOUND {
        d.behaviour = DuckBehaviour::FlyingLeft;
    }
    if d.x < -TURN_BOUND {
        d.behaviour = DuckBehaviour::FlyingRight;
    }
}

/// Advances a live duck's animation by `dt` nanoseconds. A flying duck
/// cycles through the flying frames each time its timer completes and faces
/// its direction of flight. A dying duck jumps to the splat frame once,
/// restarting its timer, then on each completion mirrors its sprite and
/// moves on to the last frame, where it stays. Dead ducks are left as they are.
pub fn animate_duck(d: &mut Duck, dt: u64)
    requires
        old(d).wf(),
        anim_tick_fits(*old(d), dt as nat),
    ensures
        final(d).wf(),
        duck_animated(*old(d), *final(d), dt as nat),
{
    if d.dead {
        return ;
    }
    let finished = d.animation_timer.tick(dt);
    match d.behaviour {
        DuckBehaviour::FlyingLeft => {
            d.flip_x = true;
            if finished {
                d.frame_index = next_frame(d.frame_index);
            }
        },
        DuckBehaviour::FlyingRight => {
            d.flip_x = false;
            if finished {
                d.frame_index = next_frame(d.frame_index);
            }
        },
        DuckBehaviour::Dying => {
            if d.frame_index < SPLAT_FRAME {
                d.frame_index = SPLAT_FRAME;
                d.animation_timer.reset();
            }
            if d.animation_timer.just_finished() {
                d.flip_x = !d.flip_x;
                d.frame_index = d.frame_index + 1;
                if d.frame_index >= LAST_FRAME {
                    d.frame_index = LAST_FRAME;
                }
            }
        },
    }
}

fn next_frame(frame: usize) -> (r: usize)
    requires
        frame <= LAST_FRAME,
    ensures
        r == next_flying_frame(frame),
{
    let next = frame + 1;
    if next >= FLYING_FRAMES {
        0
    } else {
        next
    }
}

/// Lets a live dying duck fall for `dt` nanoseconds at the fall speed, and
/// marks it dead once it is below the playfield. Other ducks are left as they are.
pub fn fall_duck(d: &mut Duck, dt: u64)
    requires
        in_i64(fallen_y(*old(d), dt as nat)),
    ensures
        duck_fell(*old(d), *final(d), dt as nat),
{
    if d.dead || d.behaviour != DuckBehaviour::Dying {
        return ;
    }
    let dist = travel_exec(FALL_SPEED, dt);
    let ny: i128 = d.y as i128 - dist as i128;
    d.y = ny as i64;
    if d.y < DEATH_Y {
        d.dead = true;
    }
}

/// Tests a shot at world position (`cx`, `cy`) against a live duck's hit box
/// of half side `half_extent`; a hit duck starts dying. Returns whether it was hit.
pub fn shoot_duck(d: &mut Duck, cx: i64, cy: i64, half_extent: i64) -> (hit: bool)
    requires
        half_extent >= 0,
    ensures
        hit == is_hit(*old(d), cx as int, cy as int, half_extent as int),
        duck_shot(*old(d), *final(d), cx as int, cy as int, half_extent as int),
{
    if d.dead {
        return false;
    }
    let h = half_extent as i128;
    let x = d.x as i128;
    let y = d.y as i128;
    let px = cx as i128;
    let py = cy as i128;
    if x - h <= px && px <= x + h && y - h <= py && py <= y + h {
        d.behaviour = DuckBehaviour::Dying;
        true
    } else {
        false
    }
}

/// Logical width of the playfield, in micropixels.
pub const SCREEN_WIDTH: i64 = 256_000_000;

/// Logical height of the playfield, in micropixels.
pub const SCREEN_HEIGHT: i64 = 240_000_000;

/// Turns a cursor position on the playfield (origin top left, y down) into a
/// world position (origin at the centre, y up), all in micropixels.
pub fn screen_to_world(sx: i64, sy: i64) -> (r: (i64, i64))
    requires
        in_i64(sx - SCREEN_WIDTH / 2),
        in_i64(SCREEN_HEIGHT / 2 - sy),
    ensures
        r.0 == sx - SCREEN_WIDTH / 2,
        r.1 == SCREEN_HEIGHT / 2 - sy,
{
    (sx - SCREEN_WIDTH / 2, SCREEN_HEIGHT / 2 - sy)
}

proof fn lemma_travel_small(speed: u64, dt: u64)
    ensures
        travel(speed as nat, dt as nat) < 0x8_0000_0000_0000_0000_0000_0000,
{
    let p: int = speed as int * dt as int;
    let q: int = NANOS_PER_SEC as int;
    assert(p <= u64::MAX as int * u64::MAX as int) by (nonlinear_arith)
        requires
            0 <= speed <= u64::MAX,
            0 <= dt <= u64::MAX,
            p == speed as int * dt as int,
    ;
    vstd::arithmetic::div_mod::lemma_fundamental_div_mod(p, q);
    vstd::arithmetic::div_mod::lemma_mod_bound(p, q);
    assert(p / q < 0x8_0000_0000_0000_0000_0000_0000) by (nonlinear_arith)
        requires
            p == q * (p / q) + p % q,
            0 <= p % q,
            q == 1_000_000_000,
            p <= u64::MAX as int * u64::MAX as int,
    ;
}

/// Whether `i64` holds `v`.
fn fits_i64(v: i128) -> (r: bool)
    ensures
        r == in_i64(v as int),
{
    i64::MIN as i128 <= v && v <= i64::MAX as i128
}

/// Whether the duck can fly, fall and be animated for `dt` nanoseconds.
pub fn can_step(d: &Duck, dt: u64) -> (r: bool)
    requires
        d.wf(),
    ensures
        r == (step_fits(*d, dt as nat) && anim_tick_fits(*d, dt as nat)),
{
    let dist = travel_exec(d.speed, dt);
    let fall = travel_exec(FALL_SPEED, dt);
    proof {
        lemma_travel_small(d.speed, dt);
        lemma_travel_small(FALL_SPEED, dt);
    }
    let x = d.x as i128;
    let y = d.y as i128;
    let fx: i128 = if d.behaviour == DuckBehaviour::FlyingRight {
        x + dist as i128
    } else {
        x - dist as i128
    };
    let fy: i128 = y + dist as i128;
    let gy: i128 = y - fall as i128;
    let elapsed = d.animation_timer.elapsed_ns();
    let duration = d.animation_timer.duration_ns();
    let periods: u128 = (elapsed as u128 + dt as u128) / duration as u128;
    fits_i64(fx) && fits_i64(fy) && fits_i64(gy) && periods <= u32::MAX as u128
}

} // verus!
