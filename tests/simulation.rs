use topdown_sim::frame::{DidFixedTimestepRunThisFrame, PressLatch};
use topdown_sim::geometry::{ceil_sqrt, lerp, mul_div, scale_to_length, Vec2i};
use topdown_sim::player::{
    fixed_update, get_rel_cursor, handle_dash_input, interpolate_rendered_transform, setup_player,
    ActiveDash, AimBasis, BlinkVector, HeldKeys, Player, PlayerConfig, StepError, StepInput,
};
use topdown_sim::timer::Timer;

const SIXTIETH: u64 = 16_666_667;

fn keys(up: bool, down: bool, left: bool, right: bool) -> HeldKeys {
    HeldKeys { up, down, left, right }
}

fn no_keys() -> HeldKeys {
    keys(false, false, false, false)
}

fn right() -> HeldKeys {
    keys(false, false, false, true)
}

fn input(keys: HeldKeys, dash: bool, blink: bool) -> StepInput {
    StepInput { keys, dash_pressed: dash, blink_pressed: blink, cursor_rel: Vec2i::zero() }
}

fn config(speed_units: u64) -> PlayerConfig {
    PlayerConfig {
        speed: speed_units * 1_000_000,
        dash_length: 500_000_000,
        dash_duration: 200_000_000,
        dash_cooldown: 2_000_000_000,
        blink_length: 500_000_000,
        blink_cooldown: 3_000_000_000,
        aim: AimBasis::Movement,
        cooldowns_start_ready: false,
    }
}

/// A player whose cooldowns are already over.
fn ready_player(cfg: &PlayerConfig) -> Player {
    let mut primed = *cfg;
    primed.cooldowns_start_ready = true;
    setup_player(primed)
}

fn step(p: &mut Player, i: &StepInput, cfg: &PlayerConfig, dt: u64) -> Option<BlinkVector> {
    fixed_update(p, i, cfg, dt).expect("step stays in range")
}

#[test]
fn rest_keeps_position_over_many_ticks() {
    let cfg = config(220);
    let mut p = setup_player(cfg);
    p.translation.0 = Vec2i::new(1_234_567, -7_654_321);
    let start = p.translation.0;
    for _ in 0..200 {
        step(&mut p, &input(no_keys(), false, false), &cfg, SIXTIETH);
        assert_eq!(p.translation.0, start);
        assert_eq!(p.previous.0, p.translation.0);
    }
}

#[test]
fn right_step_moves_by_speed_times_dt() {
    let cfg = config(220);
    let mut p = setup_player(cfg);
    // 1/64 s: 220 units/s * 0.015625 s = 3.4375 units exactly.
    step(&mut p, &input(right(), false, false), &cfg, 15_625_000);
    assert_eq!(p.translation.0, Vec2i::new(3_437_500, 0));
    assert_eq!(p.previous.0, Vec2i::zero());
    assert_eq!(p.velocity.0, Vec2i::new(220_000_000, 0));
}

#[test]
fn left_and_down_move_negatively() {
    let cfg = config(100);
    let mut p = setup_player(cfg);
    step(&mut p, &input(keys(false, true, false, false), false, false), &cfg, 500_000_000);
    assert_eq!(p.translation.0, Vec2i::new(0, -50_000_000));
    step(&mut p, &input(keys(false, false, true, false), false, false), &cfg, 500_000_000);
    assert_eq!(p.translation.0, Vec2i::new(-50_000_000, -50_000_000));
}

#[test]
fn opposite_keys_cancel() {
    let cfg = config(100);
    let mut p = setup_player(cfg);
    step(&mut p, &input(keys(true, true, true, true), false, false), &cfg, SIXTIETH);
    assert_eq!(p.accumulated.movement, Vec2i::zero());
    assert_eq!(p.velocity.0, Vec2i::zero());
    assert_eq!(p.translation.0, Vec2i::zero());
}

#[test]
fn diagonal_velocity_is_normalized() {
    let cfg = config(220);
    let mut p = setup_player(cfg);
    step(&mut p, &input(keys(true, false, false, true), false, false), &cfg, SIXTIETH);
    assert_eq!(p.accumulated.movement, Vec2i::new(1, 1));
    let v = p.velocity.0;
    assert_eq!(v.x, v.y);
    // 220 / sqrt(2) = 155.563491...
    assert!((v.x - 155_563_491).abs() <= 1, "{}", v.x);
    let len_sq = (v.x as i128) * (v.x as i128) + (v.y as i128) * (v.y as i128);
    assert!(len_sq <= (cfg.speed as i128) * (cfg.speed as i128));
}

#[test]
fn sixty_ticks_right_reach_speed() {
    let cfg = config(220);
    let mut p = setup_player(cfg);
    for _ in 0..60 {
        step(&mut p, &input(right(), false, false), &cfg, SIXTIETH);
    }
    let tolerance = 1_000; // a thousandth of a unit
    assert!((p.translation.0.x - 220_000_000).abs() <= tolerance, "{}", p.translation.0.x);
    assert!((p.previous.0.x - 216_333_333).abs() <= tolerance, "{}", p.previous.0.x);
    assert_eq!(p.translation.0.y, 0);
}

#[test]
fn interpolation_endpoints_and_monotone() {
    let cfg = config(220);
    let mut p = setup_player(cfg);
    step(&mut p, &input(right(), false, false), &cfg, SIXTIETH);
    step(&mut p, &input(right(), false, false), &cfg, SIXTIETH);
    let ts = SIXTIETH;
    assert_eq!(interpolate_rendered_transform(&p, 0, ts), p.previous.0);
    assert_eq!(interpolate_rendered_transform(&p, ts, ts), p.translation.0);
    let mut last = p.previous.0.x;
    for k in 0..=100u64 {
        let r = interpolate_rendered_transform(&p, ts * k / 100, ts);
        assert!(r.x >= last);
        assert!(r.x <= p.translation.0.x);
        assert_eq!(r.y, 0);
        last = r.x;
    }
    let half = interpolate_rendered_transform(&p, ts / 2, ts);
    assert!((half.x - (p.previous.0.x + p.translation.0.x) / 2).abs() <= 1);
}

#[test]
fn lerp_exact_values() {
    assert_eq!(lerp(0, 100, 1, 4), 25);
    assert_eq!(lerp(100, 0, 1, 4), 75);
    assert_eq!(lerp(-10, 10, 1, 2), 0);
    assert_eq!(lerp(0, -7, 1, 2), -3);
    assert_eq!(lerp(i64::MIN, i64::MAX, 1, 1), i64::MAX);
    assert_eq!(lerp(i64::MAX, i64::MIN, 0, 3), i64::MAX);
}

#[test]
fn dash_zero_basis_is_noop() {
    let cfg = config(220);
    let mut p = ready_player(&cfg);
    p.dash_cooldown.0.elapsed = cfg.dash_cooldown + 5;
    let before = p;
    handle_dash_input(&mut p, true, Vec2i::zero(), &cfg);
    assert_eq!(p, before);
    step(&mut p, &input(no_keys(), true, false), &cfg, SIXTIETH);
    assert!(p.active_dash.is_none());
    assert_eq!(p.dash_cooldown.0.elapsed, cfg.dash_cooldown + 5);
}

#[test]
fn dash_start_bounded_and_resets_cooldown() {
    let cfg = config(220);
    let mut p = ready_player(&cfg);
    handle_dash_input(&mut p, true, Vec2i::new(123_456_789, -987_654_321), &cfg);
    let a = p.active_dash.expect("dash started");
    let d = a.1;
    let len_sq = (d.x as i128) * (d.x as i128) + (d.y as i128) * (d.y as i128);
    let max = cfg.dash_length as i128;
    assert!(len_sq <= max * max);
    assert!(len_sq >= (max - 6) * (max - 6));
    assert!(d.x > 0 && d.y < 0);
    assert_eq!(a.0.elapsed, 0);
    assert_eq!(a.0.duration, cfg.dash_duration);
    assert_eq!(p.dash_cooldown.0.elapsed, 0);
}

#[test]
fn dash_needs_press_and_cooldown() {
    let cfg = config(220);
    let mut p = ready_player(&cfg);
    let before = p;
    handle_dash_input(&mut p, false, Vec2i::new(1, 0), &cfg);
    assert_eq!(p, before);
    let mut fresh = setup_player(cfg);
    let before = fresh;
    handle_dash_input(&mut fresh, true, Vec2i::new(1, 0), &cfg);
    assert_eq!(fresh, before);
}

#[test]
fn dash_rejected_while_active() {
    let cfg = config(220);
    let mut p = ready_player(&cfg);
    handle_dash_input(&mut p, true, Vec2i::new(1, 0), &cfg);
    let first = p.active_dash.expect("dash started");
    // Even with the cooldown over, a dash in flight blocks another one.
    p.dash_cooldown.0 = Timer::new_finished(cfg.dash_cooldown);
    let before = p;
    handle_dash_input(&mut p, true, Vec2i::new(0, 1), &cfg);
    assert_eq!(p, before);
    assert_eq!(p.active_dash, Some(first));
}

#[test]
fn dash_ends_after_duration_then_movement_resumes() {
    let cfg = config(220);
    let mut p = ready_player(&cfg);
    step(&mut p, &input(right(), true, false), &cfg, SIXTIETH);
    assert!(p.active_dash.is_some());
    assert_eq!(p.velocity.0, Vec2i::new(2_500_000_000, 0));
    // 0.2 s at 60 Hz is twelve steps; the first one is already taken.
    for _ in 0..10 {
        step(&mut p, &input(right(), false, false), &cfg, SIXTIETH);
        assert!(p.active_dash.is_some());
    }
    step(&mut p, &input(right(), false, false), &cfg, SIXTIETH);
    assert!(p.active_dash.is_none());
    step(&mut p, &input(right(), false, false), &cfg, SIXTIETH);
    assert_eq!(p.velocity.0, Vec2i::new(220_000_000, 0));
}

#[test]
fn dash_along_cursor_covers_its_vector() {
    let mut cfg = config(0);
    cfg.aim = AimBasis::Cursor;
    let mut p = ready_player(&cfg);
    let start = p.translation.0;
    let mut i = input(no_keys(), true, false);
    i.cursor_rel = Vec2i::new(300_000_000, 400_000_000);
    step(&mut p, &i, &cfg, SIXTIETH);
    assert_eq!(p.active_dash.map(|a| a.1), Some(Vec2i::new(300_000_000, 400_000_000)));
    let mut ticks = 1;
    while p.active_dash.is_some() {
        step(&mut p, &input(no_keys(), false, false), &cfg, SIXTIETH);
        ticks += 1;
    }
    assert_eq!(ticks, 12);
    let tolerance = 1_000;
    assert!((p.translation.0.x - start.x - 300_000_000).abs() <= tolerance, "{}", p.translation.0.x);
    assert!((p.translation.0.y - start.y - 400_000_000).abs() <= tolerance, "{}", p.translation.0.y);
}

#[test]
fn dash_along_velocity() {
    let mut cfg = config(220);
    cfg.aim = AimBasis::Velocity;
    let mut p = ready_player(&cfg);
    step(&mut p, &input(keys(true, false, false, false), true, false), &cfg, SIXTIETH);
    assert_eq!(p.active_dash.map(|a| a.1), Some(Vec2i::new(0, 500_000_000)));
    let mut q = ready_player(&cfg);
    step(&mut q, &input(no_keys(), true, false), &cfg, SIXTIETH);
    assert!(q.active_dash.is_none());
}

#[test]
fn blink_moves_once_by_its_length() {
    let cfg = config(0);
    let mut p = ready_player(&cfg);
    let x0 = p.translation.0.x;
    let applied = step(&mut p, &input(right(), false, true), &cfg, SIXTIETH);
    assert_eq!(applied, Some(BlinkVector(Vec2i::new(500_000_000, 0))));
    assert_eq!(p.translation.0.x, x0 + 500_000_000);
    assert!(p.blink.is_none());
    assert_eq!(p.blink_cooldown.0.elapsed, SIXTIETH);
    for _ in 0..30 {
        let again = step(&mut p, &input(right(), false, true), &cfg, SIXTIETH);
        assert_eq!(again, None);
        assert_eq!(p.translation.0.x, x0 + 500_000_000);
    }
}

#[test]
fn blink_adds_to_movement() {
    let cfg = config(220);
    let mut p = ready_player(&cfg);
    step(&mut p, &input(right(), false, true), &cfg, 15_625_000);
    assert_eq!(p.translation.0.x, 500_000_000 + 3_437_500);
    assert_eq!(p.previous.0.x, 0);
}

#[test]
fn blink_needs_direction_and_no_dash() {
    let cfg = config(220);
    let mut p = ready_player(&cfg);
    step(&mut p, &input(no_keys(), false, true), &cfg, SIXTIETH);
    assert_eq!(p.translation.0, Vec2i::zero());
    assert_eq!(p.blink_cooldown.0, Timer::new_finished(cfg.blink_cooldown));
    let mut q = ready_player(&cfg);
    q.active_dash = Some(ActiveDash(Timer::new(cfg.dash_duration), Vec2i::new(0, 1_000)));
    let applied = step(&mut q, &input(right(), false, true), &cfg, SIXTIETH);
    assert_eq!(applied, None);
    assert_eq!(q.blink_cooldown.0, Timer::new_finished(cfg.blink_cooldown));
}

#[test]
fn step_out_of_range_changes_nothing() {
    let cfg = config(220);
    let mut p = setup_player(cfg);
    p.translation.0 = Vec2i::new(i64::MAX - 10, 0);
    let before = p;
    assert_eq!(
        fixed_update(&mut p, &input(right(), false, false), &cfg, SIXTIETH),
        Err(StepError::OutOfRange)
    );
    assert_eq!(p, before);
}

#[test]
fn cooldown_becomes_ready_after_its_duration() {
    let cfg = config(220);
    let mut p = setup_player(cfg);
    for _ in 0..119 {
        step(&mut p, &input(right(), false, false), &cfg, SIXTIETH);
    }
    assert!(!p.dash_cooldown.0.is_finished());
    step(&mut p, &input(right(), false, false), &cfg, SIXTIETH);
    assert!(p.dash_cooldown.0.is_finished());
    assert_eq!(p.dash_cooldown.0.elapsed, cfg.dash_cooldown);
    step(&mut p, &input(right(), true, false), &cfg, SIXTIETH);
    assert!(p.active_dash.is_some());
}

#[test]
fn timer_saturates_and_resets() {
    let mut t = Timer::new(100);
    t.tick(30);
    assert_eq!(t.elapsed(), 30);
    assert!(!t.is_finished());
    t.tick(u64::MAX);
    assert_eq!(t.elapsed(), 100);
    assert!(t.is_finished());
    t.tick(5);
    assert_eq!(t.elapsed(), 100);
    t.reset();
    assert_eq!(t.elapsed(), 0);
    assert_eq!(t.duration(), 100);
    assert!(!t.is_finished());
}

#[test]
fn ceil_sqrt_values() {
    assert_eq!(ceil_sqrt(0), 0);
    assert_eq!(ceil_sqrt(1), 1);
    assert_eq!(ceil_sqrt(2), 2);
    assert_eq!(ceil_sqrt(16), 4);
    assert_eq!(ceil_sqrt(17), 5);
    assert_eq!(ceil_sqrt(u128::MAX), 1u128 << 64);
}

#[test]
fn mul_div_rounds_toward_zero() {
    assert_eq!(mul_div(7, 1, 2), 3);
    assert_eq!(mul_div(-7, 1, 2), -3);
    assert_eq!(mul_div(-1, 0, 5), 0);
    assert_eq!(mul_div(1 << 64, u64::MAX, u64::MAX), 1 << 64);
}

#[test]
fn scale_to_length_values() {
    assert_eq!(scale_to_length(Vec2i::new(3, 4), 10), Vec2i::new(6, 8));
    assert_eq!(scale_to_length(Vec2i::new(-3, 4), 5), Vec2i::new(-3, 4));
    assert_eq!(scale_to_length(Vec2i::zero(), 10), Vec2i::zero());
    assert_eq!(scale_to_length(Vec2i::new(0, -9), 4), Vec2i::new(0, -4));
    let big = scale_to_length(Vec2i::new(i64::MIN, i64::MIN), 1_000);
    assert_eq!(big.x, big.y);
    assert!(big.x <= -706 && big.x >= -708);
}

#[test]
fn rel_cursor_and_overflow() {
    assert_eq!(get_rel_cursor(Vec2i::new(10, 20), Vec2i::new(3, 30)), Some(Vec2i::new(7, -10)));
    assert_eq!(get_rel_cursor(Vec2i::new(i64::MAX, 0), Vec2i::new(-1, 0)), None);
}

#[test]
fn press_latch_holds_until_consumed() {
    let mut latch = PressLatch::new();
    latch.record(true, false);
    latch.record(false, false);
    latch.record(false, true);
    let i = latch.consume(right(), Vec2i::new(1, 2));
    assert!(i.dash_pressed && i.blink_pressed);
    assert_eq!(i.keys, right());
    assert_eq!(i.cursor_rel, Vec2i::new(1, 2));
    let j = latch.consume(right(), Vec2i::zero());
    assert!(!j.dash_pressed && !j.blink_pressed);
}

#[test]
fn fixed_timestep_flag() {
    let mut flag = DidFixedTimestepRunThisFrame(true);
    flag.clear_fixed_timestep_flag();
    assert!(!flag.did_fixed_timestep_run_this_frame());
    flag.set_fixed_time_step_flag();
    assert!(flag.did_fixed_timestep_run_this_frame());
}

#[test]
fn standard_config_values() {
    let cfg = PlayerConfig::standard();
    assert_eq!(cfg.speed, 370_000_000);
    assert_eq!(cfg.dash_length, 800_000_000);
    assert_eq!(cfg.aim, AimBasis::Movement);
    let p = setup_player(cfg);
    assert!(!p.dash_cooldown.0.is_finished());
    assert!(!p.blink_cooldown.0.is_finished());
}

#[test]
fn primed_cooldowns_allow_immediate_dash() {
    let mut cfg = config(220);
    cfg.cooldowns_start_ready = true;
    let mut p = setup_player(cfg);
    assert!(p.dash_cooldown.0.is_finished());
    assert!(p.blink_cooldown.0.is_finished());
    step(&mut p, &input(right(), true, false), &cfg, SIXTIETH);
    assert!(p.active_dash.is_some());
    assert_eq!(p.dash_cooldown.0.elapsed, SIXTIETH);
}

fn length_sq(v: Vec2i) -> i128 {
    (v.x as i128) * (v.x as i128) + (v.y as i128) * (v.y as i128)
}

#[test]
fn short_vectors_scale_to_full_length() {
    // 500 / sqrt(2) = 353.553390...
    let r = scale_to_length(Vec2i::new(1, 1), 500_000_000);
    assert_eq!(r.x, r.y);
    assert!((r.x - 353_553_390).abs() <= 1, "{}", r.x);
    let len: i128 = 500_000_000;
    for v in [Vec2i::new(1, 1), Vec2i::new(-1, 2), Vec2i::new(3, -7), Vec2i::new(0, 1)] {
        let r = scale_to_length(v, 500_000_000);
        assert!(length_sq(r) <= len * len);
        assert!(length_sq(r) >= (len - 6) * (len - 6), "{:?}", r);
        assert!(r.x.signum() == v.x.signum() && r.y.signum() == v.y.signum());
    }
}

#[test]
fn dash_toward_nearby_cursor_covers_full_length() {
    let mut cfg = config(0);
    cfg.aim = AimBasis::Cursor;
    let mut p = ready_player(&cfg);
    let mut i = input(no_keys(), true, false);
    // The cursor sits two millionths of a unit away, diagonally.
    i.cursor_rel = Vec2i::new(1, 1);
    step(&mut p, &i, &cfg, SIXTIETH);
    let d = p.active_dash.expect("dash started").1;
    let len = cfg.dash_length as i128;
    assert!(length_sq(d) <= len * len);
    assert!(length_sq(d) >= (len - 6) * (len - 6), "{:?}", d);
    assert_eq!(d.x, d.y);
}

#[test]
fn diagonal_blink_covers_full_length() {
    let cfg = config(0);
    let mut p = ready_player(&cfg);
    let applied = step(&mut p, &input(keys(true, false, false, true), false, true), &cfg, SIXTIETH)
        .expect("blink applied");
    let len = cfg.blink_length as i128;
    assert!(length_sq(applied.0) <= len * len);
    assert!(length_sq(applied.0) >= (len - 6) * (len - 6), "{:?}", applied.0);
    assert_eq!(p.translation.0, applied.0);
}
