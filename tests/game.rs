use duck_hunt::duck::{
    animate_duck, fall_duck, move_duck, screen_to_world, shoot_duck, spawn_duck, Duck,
    DuckBehaviour, DEFAULT_SPEED, FRAME_TIME_NS, HALF_EXTENT, MAX_SPAWN_SPEED, MIN_SPAWN_SPEED,
    SINE_ONE, SPAWN_Y,
};
use duck_hunt::timer::RepeatingTimer;
use duck_hunt::world::{GameState, World, SPAWN_INTERVAL_NS};

const PX: i64 = 1_000_000;
const MS: u64 = 1_000_000;

fn duck_at(id: u64, x: i64, y: i64, behaviour: DuckBehaviour) -> Duck {
    let mut d = Duck::default();
    d.id = id;
    d.x = x;
    d.y = y;
    d.behaviour = behaviour;
    d
}

fn world_with(ducks: Vec<Duck>) -> World {
    let mut w = World::new(SPAWN_INTERVAL_NS);
    w.next_id = ducks.iter().map(|d| d.id + 1).max().unwrap_or(0);
    w.ducks = ducks;
    w
}

#[test]
fn timer_completes_once_per_duration() {
    let mut t = RepeatingTimer::new(1_000 * MS);
    assert!(!t.tick(500 * MS));
    assert!(!t.just_finished());
    assert_eq!(t.elapsed_ns(), 500 * MS);
    assert!(t.tick(500 * MS));
    assert!(t.just_finished());
    assert_eq!(t.times_finished_this_tick(), 1);
    assert_eq!(t.elapsed_ns(), 0);
    assert!(!t.tick(300 * MS));
    assert_eq!(t.times_finished_this_tick(), 0);
    assert!(t.tick(2_500 * MS));
    assert_eq!(t.times_finished_this_tick(), 2);
    assert_eq!(t.elapsed_ns(), 800 * MS);
    assert_eq!(t.duration_ns(), 1_000 * MS);
}

#[test]
fn timer_total_completions_match_total_time() {
    let mut t = RepeatingTimer::new(300 * MS);
    let deltas = [100u64, 250, 0, 700, 50, 900, 1];
    let mut completions: u64 = 0;
    let mut total: u64 = 0;
    for d in deltas {
        t.tick(d * MS);
        completions += t.times_finished_this_tick() as u64;
        total += d * MS;
    }
    assert_eq!(completions, total / (300 * MS));
    assert_eq!(t.elapsed_ns(), total % (300 * MS));
}

#[test]
fn timer_reset_zeroes_elapsed() {
    let mut t = RepeatingTimer::new(1_000 * MS);
    t.tick(1_700 * MS);
    assert!(t.just_finished());
    t.reset();
    assert!(!t.just_finished());
    assert_eq!(t.elapsed_ns(), 0);
    assert_eq!(t.duration_ns(), 1_000 * MS);
}

#[test]
fn default_duck() {
    let d = Duck::default();
    assert_eq!(d.behaviour, DuckBehaviour::FlyingLeft);
    assert_eq!(d.speed, DEFAULT_SPEED);
    assert_eq!(d.speed, 20_000_000);
    assert_eq!((d.x, d.y, d.frame_index), (0, 0, 0));
    assert!(!d.dead);
    assert_eq!(d.animation_timer.duration_ns(), FRAME_TIME_NS);
}

#[test]
fn game_state_starts_loading() {
    assert_eq!(GameState::default(), GameState::Loading);
}

#[test]
fn spawn_speed_stays_in_range() {
    for s in [-SINE_ONE, -999_999, -500_000, -1, 0, 1, 123_456, 841_471, SINE_ONE] {
        let d = spawn_duck(7, s);
        assert!(d.speed >= MIN_SPAWN_SPEED && d.speed <= MAX_SPAWN_SPEED);
    }
    assert_eq!(spawn_duck(0, 0).speed, 20_000_000);
    assert_eq!(spawn_duck(0, SINE_ONE).speed, 100_000_000);
    assert_eq!(spawn_duck(0, -SINE_ONE).speed, 100_000_000);
    assert_eq!(spawn_duck(0, 500_000).speed, 40_000_000);
}

#[test]
fn spawn_heading_follows_sign_of_sine() {
    assert_eq!(spawn_duck(0, -1).behaviour, DuckBehaviour::FlyingRight);
    assert_eq!(spawn_duck(0, -SINE_ONE).behaviour, DuckBehaviour::FlyingRight);
    assert_eq!(spawn_duck(0, 0).behaviour, DuckBehaviour::FlyingLeft);
    assert_eq!(spawn_duck(0, SINE_ONE).behaviour, DuckBehaviour::FlyingLeft);
    let d = spawn_duck(3, -250_000);
    assert_eq!((d.id, d.x, d.y), (3, -30 * PX, SPAWN_Y));
}

#[test]
fn first_duck_spawns_after_one_second() {
    let mut w = World::new(SPAWN_INTERVAL_NS);
    assert!(!w.update(400 * MS, 389_418, None));
    assert!(w.ducks.is_empty());
    assert!(w.update(600 * MS, 841_471, None));
    assert_eq!(w.ducks.len(), 1);
    let d = &w.ducks[0];
    assert_eq!(d.x, 100_976_520);
    assert_eq!(d.y, -40 * PX);
    assert_eq!(d.behaviour, DuckBehaviour::FlyingLeft);
    assert_eq!(d.id, 0);
    assert_eq!(w.next_id, 1);
}

#[test]
fn spawner_gives_new_identifiers() {
    let mut w = World::new(SPAWN_INTERVAL_NS);
    w.update(1_000 * MS, 841_471, None);
    w.update(1_000 * MS, 909_297, None);
    assert_eq!(w.ducks.len(), 2);
    assert_eq!(w.ducks[0].id, 0);
    assert_eq!(w.ducks[1].id, 1);
    assert_eq!(w.ducks[1].x, 109_115_640);
}

#[test]
fn duck_turns_round_past_right_bound() {
    let mut w = world_with(vec![duck_at(0, 125 * PX, 0, DuckBehaviour::FlyingRight)]);
    w.update(100 * MS, 0, None);
    let x1 = w.ducks[0].x;
    assert_eq!(x1, 127 * PX);
    assert_eq!(w.ducks[0].y, 2 * PX);
    assert_eq!(w.ducks[0].behaviour, DuckBehaviour::FlyingLeft);
    w.update(100 * MS, 0, None);
    assert_eq!(w.ducks[0].x, 125 * PX);
    assert!(w.ducks[0].x < x1);
    assert_eq!(w.ducks[0].behaviour, DuckBehaviour::FlyingLeft);
}

#[test]
fn duck_turns_round_past_left_bound() {
    let mut d = duck_at(0, -119 * PX, 0, DuckBehaviour::FlyingLeft);
    move_duck(&mut d, 100 * MS);
    assert_eq!(d.x, -121 * PX);
    assert_eq!(d.behaviour, DuckBehaviour::FlyingRight);
}

#[test]
fn dying_duck_does_not_fly() {
    let mut d = duck_at(0, 125 * PX, 10 * PX, DuckBehaviour::Dying);
    move_duck(&mut d, 500 * MS);
    assert_eq!((d.x, d.y), (125 * PX, 10 * PX));
    assert_eq!(d.behaviour, DuckBehaviour::Dying);
    let mut w = world_with(vec![duck_at(0, -130 * PX, 0, DuckBehaviour::Dying)]);
    for _ in 0..5 {
        w.update(100 * MS, 0, None);
        assert_eq!(w.ducks[0].behaviour, DuckBehaviour::Dying);
        assert_eq!(w.ducks[0].x, -130 * PX);
    }
    assert_eq!(w.ducks[0].y, -40 * PX);
}

#[test]
fn dead_duck_is_left_alone() {
    let mut d = duck_at(0, 0, 0, DuckBehaviour::FlyingRight);
    d.dead = true;
    move_duck(&mut d, 500 * MS);
    animate_duck(&mut d, 500 * MS);
    assert!(!shoot_duck(&mut d, 0, 0, HALF_EXTENT));
    assert_eq!((d.x, d.y, d.frame_index), (0, 0, 0));
    assert_eq!(d.behaviour, DuckBehaviour::FlyingRight);
}

#[test]
fn falling_duck_below_playfield_is_removed() {
    let mut w = world_with(vec![
        duck_at(0, 0, -239 * PX, DuckBehaviour::Dying),
        duck_at(1, 0, -239 * PX, DuckBehaviour::FlyingLeft),
    ]);
    w.update(100 * MS, 0, None);
    assert_eq!(w.ducks.len(), 1);
    assert_eq!(w.ducks[0].id, 1);
    for _ in 0..20 {
        w.update(100 * MS, 0, None);
        assert!(w.ducks.iter().all(|d| d.id != 0));
    }
}

#[test]
fn falling_duck_marked_dead_below_threshold() {
    let mut d = duck_at(0, 0, -230 * PX, DuckBehaviour::Dying);
    fall_duck(&mut d, 100 * MS);
    assert_eq!(d.y, -238 * PX);
    assert!(!d.dead);
    fall_duck(&mut d, 100 * MS);
    assert_eq!(d.y, -246 * PX);
    assert!(d.dead);
    fall_duck(&mut d, 100 * MS);
    assert_eq!(d.y, -246 * PX);
}

#[test]
fn dying_duck_exactly_at_threshold_stays() {
    let mut d = duck_at(0, 0, -232 * PX, DuckBehaviour::Dying);
    fall_duck(&mut d, 100 * MS);
    assert_eq!(d.y, -240 * PX);
    assert!(!d.dead);
}

#[test]
fn shot_inside_hit_box_kills() {
    let mut d = duck_at(0, 0, 0, DuckBehaviour::FlyingLeft);
    assert!(shoot_duck(&mut d, 15 * PX, 15 * PX, HALF_EXTENT));
    assert_eq!(d.behaviour, DuckBehaviour::Dying);
}

#[test]
fn shot_outside_hit_box_misses() {
    let mut d = duck_at(0, 0, 0, DuckBehaviour::FlyingLeft);
    assert!(!shoot_duck(&mut d, 17 * PX, 0, HALF_EXTENT));
    assert_eq!(d.behaviour, DuckBehaviour::FlyingLeft);
    assert!(shoot_duck(&mut d, 16 * PX, -16 * PX, HALF_EXTENT));
}

#[test]
fn one_shot_can_hit_overlapping_ducks() {
    let mut w = world_with(vec![
        duck_at(0, 0, 0, DuckBehaviour::FlyingLeft),
        duck_at(1, 10 * PX, 0, DuckBehaviour::FlyingRight),
        duck_at(2, 60 * PX, 0, DuckBehaviour::FlyingRight),
    ]);
    assert_eq!(w.shoot_ducks(5 * PX, 0), 2);
    assert_eq!(w.ducks[0].behaviour, DuckBehaviour::Dying);
    assert_eq!(w.ducks[1].behaviour, DuckBehaviour::Dying);
    assert_eq!(w.ducks[2].behaviour, DuckBehaviour::FlyingRight);
}

#[test]
fn shot_in_update_uses_world_position() {
    let mut w = world_with(vec![duck_at(0, 0, 0, DuckBehaviour::FlyingLeft)]);
    let (cx, cy) = screen_to_world(128 * PX, 120 * PX);
    w.update(0, 0, Some((cx, cy)));
    assert_eq!(w.ducks[0].behaviour, DuckBehaviour::Dying);
}

#[test]
fn screen_to_world_centres_and_flips() {
    assert_eq!(screen_to_world(0, 0), (-128 * PX, 120 * PX));
    assert_eq!(screen_to_world(256 * PX, 240 * PX), (128 * PX, -120 * PX));
    assert_eq!(screen_to_world(143 * PX, 105 * PX), (15 * PX, 15 * PX));
}

#[test]
fn flying_animation_cycles_three_frames() {
    let mut d = duck_at(0, 0, 0, DuckBehaviour::FlyingLeft);
    animate_duck(&mut d, 100 * MS);
    assert!(d.flip_x);
    assert_eq!(d.frame_index, 0);
    let mut frames = vec![];
    for _ in 0..4 {
        animate_duck(&mut d, 500 * MS);
        frames.push(d.frame_index);
    }
    assert_eq!(frames, vec![1, 2, 0, 1]);
    d.behaviour = DuckBehaviour::FlyingRight;
    animate_duck(&mut d, 10 * MS);
    assert!(!d.flip_x);
    assert_eq!(d.frame_index, 1);
}

#[test]
fn dying_animation_splats_then_settles() {
    let mut d = duck_at(0, 0, 0, DuckBehaviour::Dying);
    d.frame_index = 1;
    animate_duck(&mut d, 600 * MS);
    assert_eq!(d.frame_index, 3);
    assert_eq!(d.animation_timer.elapsed_ns(), 0);
    assert!(!d.flip_x);
    animate_duck(&mut d, 400 * MS);
    assert_eq!(d.frame_index, 3);
    animate_duck(&mut d, 100 * MS);
    assert_eq!(d.frame_index, 4);
    assert!(d.flip_x);
    animate_duck(&mut d, 500 * MS);
    assert_eq!(d.frame_index, 4);
    assert!(!d.flip_x);
}

#[test]
fn remove_dead_keeps_order() {
    let mut a = duck_at(0, 0, 0, DuckBehaviour::Dying);
    a.dead = true;
    let b = duck_at(1, 0, 0, DuckBehaviour::FlyingLeft);
    let mut c = duck_at(2, 0, 0, DuckBehaviour::Dying);
    c.dead = true;
    let d = duck_at(3, 0, 0, DuckBehaviour::FlyingRight);
    let mut w = world_with(vec![a, b, c, d]);
    w.remove_dead();
    let ids: Vec<u64> = w.ducks.iter().map(|d| d.id).collect();
    assert_eq!(ids, vec![1, 3]);
}

#[test]
fn empty_world_update_is_quiet() {
    let mut w = World::new(SPAWN_INTERVAL_NS);
    assert!(!w.update(0, 0, Some((0, 0))));
    assert!(w.ducks.is_empty());
    assert_eq!(w.next_id, 0);
}

#[test]
fn can_update_checks_ranges() {
    let mut w = World::new(SPAWN_INTERVAL_NS);
    assert!(w.can_update(16 * MS));
    assert!(w.can_update(u32::MAX as u64 * 1_000 * MS));
    assert!(!w.can_update((u32::MAX as u64 + 1) * 1_000 * MS));
    w.ducks.push(duck_at(0, 0, i64::MAX - PX, DuckBehaviour::FlyingLeft));
    w.next_id = 1;
    assert!(w.can_update(10 * MS));
    assert!(!w.can_update(100 * MS));
    let mut w2 = World::new(SPAWN_INTERVAL_NS);
    w2.next_id = u64::MAX;
    assert!(!w2.can_update(0));
}

#[test]
fn spawn_ducks_waits_for_timer() {
    let mut w = World::new(2_000 * MS);
    assert!(!w.spawn_ducks(1_500 * MS, -SINE_ONE));
    assert!(w.ducks.is_empty());
    assert!(w.spawn_ducks(600 * MS, -SINE_ONE));
    assert_eq!(w.ducks.len(), 1);
    assert_eq!(w.ducks[0].x, -120 * PX);
    assert_eq!(w.ducks[0].behaviour, DuckBehaviour::FlyingRight);
    assert_eq!(w.ducks[0].speed, 100 * PX as u64);
    assert_eq!(w.spawn_timer.elapsed_ns(), 100 * MS);
}

#[test]
fn world_stages_apply_to_every_duck() {
    let mut w = world_with(vec![
        duck_at(0, 0, 0, DuckBehaviour::FlyingLeft),
        duck_at(1, 0, 0, DuckBehaviour::FlyingRight),
        duck_at(2, 0, 0, DuckBehaviour::Dying),
    ]);
    w.move_ducks(500 * MS);
    assert_eq!((w.ducks[0].x, w.ducks[0].y), (-10 * PX, 10 * PX));
    assert_eq!((w.ducks[1].x, w.ducks[1].y), (10 * PX, 10 * PX));
    assert_eq!((w.ducks[2].x, w.ducks[2].y), (0, 0));
    w.animate_ducks(500 * MS);
    assert_eq!(w.ducks[0].frame_index, 1);
    assert_eq!(w.ducks[1].frame_index, 1);
    assert_eq!(w.ducks[2].frame_index, 3);
    w.fall_ducks(500 * MS);
    assert_eq!(w.ducks[2].y, -40 * PX);
    assert_eq!(w.ducks[0].y, 10 * PX);
}
