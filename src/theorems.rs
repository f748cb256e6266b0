use vstd::prelude::*;
use vstd::arithmetic::div_mod::*;

use crate::geometry::{
    along, lemma_scaled_along_x, lemma_scaled_length_floor, lemma_scaled_components_bound, lemma_scaled_length_bound,
    wide_norm_sq, wide_x, wide_y, Vec2i,
};
use crate::player::{
    keys_movement, movement_velocity, run, BlinkVector, HeldKeys, Player, PlayerConfig, StepInput,
    DIRECTION_SCALE, NANOS_PER_SEC,
};

verus! {

pub open spec fn no_keys(k: HeldKeys) -> bool {
    !k.up && !k.down && !k.left && !k.right
}

pub open spec fn only_right(k: HeldKeys) -> bool {
    !k.up && !k.down && !k.left && k.right
}

/// A player at rest that receives no input stays where it is, however many
/// fixed steps run, and after each step its previous position equals its
/// current one.
pub proof fn lemma_rest_keeps_position(
    p: Player,
    input: StepInput,
    cfg: PlayerConfig,
    dt: u64,
    n: nat,
)
    requires
        cfg.wf(),
        p.wf(cfg),
        !p.dashing(),
        p.blink is None,
        no_keys(input.keys),
        !input.dash_pressed,
        !input.blink_pressed,
    ensures
        run(p, input, cfg, dt, n).translation == p.translation,
        n > 0 ==> run(p, input, cfg, dt, n).previous.0 == p.translation.0,
        !run(p, input, cfg, dt, n).dashing(),
        run(p, input, cfg, dt, n).blink is None,
    decreases n,
{
    if n > 0 {
        lemma_rest_keeps_position(p, input, cfg, dt, (n - 1) as nat);
        let q = run(p, input, cfg, dt, (n - 1) as nat);
        let m = keys_movement(input.keys);
        let d = crate::player::direction_of(m);
        assert(d == Vec2i { x: 0, y: 0 });
        assert(wide_x(d) == 0 && wide_y(d) == 0);
        assert(wide_norm_sq(d) == 0);
        let r = q.prepared(input, cfg);
        assert(r.velocity.0 == Vec2i { x: 0, y: 0 });
        assert(0 * (dt as int) == 0);
        assert(r.fits(dt));
    }
}

/// One fixed step with only "right" held moves a player at rest by exactly
/// `speed * dt` along x (in millionths of a unit, rounded down), and not at all
/// along y.
pub proof fn lemma_right_step(p: Player, input: StepInput, cfg: PlayerConfig, dt: u64)
    requires
        cfg.wf(),
        p.wf(cfg),
        !p.dashing(),
        p.blink is None,
        only_right(input.keys),
        !input.dash_pressed,
        !input.blink_pressed,
        i64::MIN <= p.translation.0.x + cfg.speed * dt / (NANOS_PER_SEC as int) <= i64::MAX,
    ensures
        p.stepped(input, cfg, dt).translation.0.x == p.translation.0.x + cfg.speed * dt / (
        NANOS_PER_SEC as int),
        p.stepped(input, cfg, dt).translation.0.y == p.translation.0.y,
        p.stepped(input, cfg, dt).previous.0 == p.translation.0,
{
    let d = crate::player::direction_of(keys_movement(input.keys));
    assert(d == Vec2i { x: DIRECTION_SCALE, y: 0 });
    lemma_scaled_along_x(d, cfg.speed as int);
    let r = p.prepared(input, cfg);
    assert(r.velocity.0 == Vec2i { x: cfg.speed as i64, y: 0 });
    assert(0 * (dt as int) == 0);
    assert(r.fits(dt));
}

/// A dash triggered along a zero vector does nothing: no dash starts and the
/// cooldown keeps its time.
pub proof fn lemma_dash_zero_basis(p: Player, pressed: bool, basis: Vec2i, cfg: PlayerConfig)
    requires
        basis.x == 0 && basis.y == 0,
    ensures
        p.after_dash_input(pressed, basis, cfg) == p,
{
}

/// A dash that starts points along its basis and covers the configured dash
/// length, rounded down by at most six millionths of a unit; its cooldown
/// restarts from zero at once, and is no longer over unless it lasts no time.
pub proof fn lemma_dash_start(p: Player, basis: Vec2i, cfg: PlayerConfig)
    requires
        cfg.wf(),
        p.dash_allowed(true, basis),
    ensures
        p.after_dash_input(true, basis, cfg).active_dash matches Some(a) && along(
            a.1,
            basis,
            cfg.dash_length as int,
        ) && a.0.elapsed == 0,
        p.after_dash_input(true, basis, cfg).dash_cooldown.0.elapsed == 0,
        p.after_dash_input(true, basis, cfg).dash_cooldown.0.duration == p.dash_cooldown.0.duration,
        p.dash_cooldown.0.duration > 0 ==> !p.after_dash_input(
            true,
            basis,
            cfg,
        ).dash_cooldown.0.finished_spec(),
{
    lemma_scaled_components_bound(basis, cfg.dash_length as int);
    lemma_scaled_length_bound(basis, cfg.dash_length as int);
    if cfg.dash_length >= 6 {
        lemma_scaled_length_floor(basis, cfg.dash_length as int);
    }
}

/// A blink that is readied points along its direction and covers the
/// configured blink length, rounded down by at most six millionths of a unit;
/// its cooldown restarts from zero at once.
pub proof fn lemma_blink_start(p: Player, direction: Vec2i, cfg: PlayerConfig)
    requires
        cfg.wf(),
        p.blink_allowed(true, direction),
    ensures
        p.after_blink_input(true, direction, cfg).blink matches Some(b) && along(
            b.0,
            direction,
            cfg.blink_length as int,
        ),
        p.after_blink_input(true, direction, cfg).blink_cooldown.0.elapsed == 0,
{
    lemma_scaled_components_bound(direction, cfg.blink_length as int);
    lemma_scaled_length_bound(direction, cfg.blink_length as int);
    if cfg.blink_length >= 6 {
        lemma_scaled_length_floor(direction, cfg.blink_length as int);
    }
}

/// While a dash is in flight, pressing the dash key again changes nothing.
pub proof fn lemma_dash_rejected_while_active(
    p: Player,
    pressed: bool,
    basis: Vec2i,
    cfg: PlayerConfig,
)
    requires
        p.dashing(),
    ensures
        p.after_dash_input(pressed, basis, cfg) == p,
{
}

/// Dash time accounting over the steps that follow a dash's start.
proof fn lemma_dash_clock(p: Player, input: StepInput, cfg: PlayerConfig, dt: u64, i: nat)
    requires
        cfg.wf(),
        p.wf(cfg),
        p.dashing(),
        !input.dash_pressed,
        forall|j: nat| j < i ==> #[trigger] run(p, input, cfg, dt, j).prepared(input, cfg).fits(dt),
    ensures
        run(p, input, cfg, dt, i).wf(cfg),
        run(p, input, cfg, dt, i).dashing() ==> {
            &&& run(p, input, cfg, dt, i).dash_timer().duration == p.dash_timer().duration
            &&& run(p, input, cfg, dt, i).dash_timer().elapsed == p.dash_timer().elapsed
                + i * dt
        },
    decreases i,
{
    if i > 0 {
        let k = (i - 1) as nat;
        lemma_dash_clock(p, input, cfg, dt, k);
        let q = run(p, input, cfg, dt, k);
        assert(q.prepared(input, cfg).fits(dt));
        assert(k * dt + dt == i * dt) by (nonlinear_arith)
            requires i == k + 1;
        let s = q.sampled(input, cfg);
        lemma_scaled_components_bound(s.aim(cfg), cfg.dash_length as int);
    }
}

/// Once a dash has been in flight for its whole duration it has ended, and on
/// the step after that the velocity is again the one the movement keys give.
pub proof fn lemma_dash_ends(p: Player, input: StepInput, cfg: PlayerConfig, dt: u64, k: nat)
    requires
        cfg.wf(),
        p.wf(cfg),
        p.dashing(),
        !input.dash_pressed,
        p.dash_timer().elapsed + k * dt >= p.dash_timer().duration,
        forall|j: nat| j <= k ==> #[trigger] run(p, input, cfg, dt, j).prepared(input, cfg).fits(dt),
    ensures
        !run(p, input, cfg, dt, k).dashing(),
        run(p, input, cfg, dt, k + 1).velocity.0 == movement_velocity(
            keys_movement(input.keys),
            cfg.speed,
        ),
{
    lemma_dash_clock(p, input, cfg, dt, k);
    let q = run(p, input, cfg, dt, k);
    assert(q.prepared(input, cfg).fits(dt));
    assert(run(p, input, cfg, dt, k + 1) == q.stepped(input, cfg, dt));
}

/// While a dash is in flight its cooldown is running. This holds of every new
/// player and every fixed step keeps it, when a dash lasts no longer than its
/// cooldown.
pub proof fn lemma_dash_within_cooldown(p: Player, input: StepInput, cfg: PlayerConfig, dt: u64)
    requires
        cfg.wf(),
        p.wf(cfg),
        cfg.dash_duration <= cfg.dash_cooldown,
        p.dash_cooldown.0.duration == cfg.dash_cooldown,
        p.dash_within_cooldown(),
    ensures
        p.dashing() ==> !p.dash_cooldown.0.finished_spec(),
        p.stepped(input, cfg, dt).dash_within_cooldown(),
        p.stepped(input, cfg, dt).dash_cooldown.0.duration == cfg.dash_cooldown,
{
    let q = p.prepared(input, cfg);
    if q.fits(dt) {
        let r = q.integrated(dt).blinked();
        assert(r.active_dash == q.active_dash);
        assert(r.dash_cooldown == q.dash_cooldown);
    }
}

/// A blink readied with only "right" held moves the player by exactly the
/// blink length on top of its movement, once: the step after it, with the key
/// still reported pressed, moves the player by its movement alone.
pub proof fn lemma_blink_once(p: Player, input: StepInput, cfg: PlayerConfig, dt: u64)
    requires
        cfg.wf(),
        p.wf(cfg),
        !p.dashing(),
        p.blink is None,
        only_right(input.keys),
        !input.dash_pressed,
        input.blink_pressed,
        p.blink_cooldown.0.finished_spec(),
        p.blink_cooldown.0.duration == cfg.blink_cooldown,
        dt < cfg.blink_cooldown,
        p.prepared(input, cfg).fits(dt),
        p.stepped(input, cfg, dt).prepared(input, cfg).fits(dt),
    ensures
        p.stepped(input, cfg, dt).translation.0.x == p.translation.0.x + cfg.speed * dt / (
        NANOS_PER_SEC as int) + cfg.blink_length,
        p.stepped(input, cfg, dt).translation.0.y == p.translation.0.y,
        p.stepped(input, cfg, dt).blink is None,
        p.stepped(input, cfg, dt).stepped(input, cfg, dt).translation.0.x == p.stepped(
            input,
            cfg,
            dt,
        ).translation.0.x + cfg.speed * dt / (NANOS_PER_SEC as int),
        p.stepped(input, cfg, dt).stepped(input, cfg, dt).translation.0.y == p.translation.0.y,
{
    let d = crate::player::direction_of(keys_movement(input.keys));
    assert(d == Vec2i { x: DIRECTION_SCALE, y: 0 });
    lemma_scaled_along_x(d, cfg.speed as int);
    lemma_scaled_along_x(d, cfg.blink_length as int);
    assert(0 * (dt as int) == 0);
    let q = p.prepared(input, cfg);
    assert(q.velocity.0 == Vec2i { x: cfg.speed as i64, y: 0 });
    assert(q.blink == Some(BlinkVector(Vec2i { x: cfg.blink_length as i64, y: 0 })));
    let r = p.stepped(input, cfg, dt);
    assert(!r.blink_cooldown.0.finished_spec());
    let q2 = r.prepared(input, cfg);
    assert(q2.velocity.0 == Vec2i { x: cfg.speed as i64, y: 0 });
    assert(q2.blink is None);
}

} // verus!
