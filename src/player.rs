use vstd::prelude::*;
use vstd::arithmetic::div_mod::*;

use crate::geometry::{
    abs, along, lemma_scaled_components_bound, lerp, lerp_spec, mul_div, mul_div_trunc, scale_to_length,
    scaled, Vec2i,
};
use crate::timer::Timer;

verus! {

/// Nanoseconds in one second.
pub const NANOS_PER_SEC: u64 = 1_000_000_000;

/// Magnitude given to each pressed axis of the movement direction before it is
/// rescaled; large so that rescaling a diagonal loses almost nothing.
pub const DIRECTION_SCALE: i64 = 1_073_741_824;

/// The directional keys held during the current fixed step.
#[derive(Clone, Copy, Debug, PartialEq, Eq, Structural)]
pub struct HeldKeys {
    pub up: bool,
    pub down: bool,
    pub left: bool,
    pub right: bool,
}

/// Which vector a dash is aimed along.
#[derive(Clone, Copy, Debug, PartialEq, Eq, Structural)]
pub enum AimBasis {
    /// The direction of the held movement keys.
    Movement,
    /// The player's velocity from normal movement.
    Velocity,
    /// The vector from the player to the cursor.
    Cursor,
}

/// Tuning of one player. Lengths are in millionths of a world unit, speeds in
/// millionths of a world unit per second, durations in nanoseconds.
#[derive(Clone, Copy, Debug, PartialEq, Eq, Structural)]
pub struct PlayerConfig {
    pub speed: u64,
    pub dash_length: u64,
    pub dash_duration: u64,
    pub dash_cooldown: u64,
    pub blink_length: u64,
    pub blink_cooldown: u64,
    pub aim: AimBasis,
    /// Whether a new player may use its abilities at once, rather than after
    /// a full cooldown.
    pub cooldowns_start_ready: bool,
}

/// Everything a fixed step reads from outside the simulation.
#[derive(Clone, Copy, Debug, PartialEq, Eq, Structural)]
pub struct StepInput {
    pub keys: HeldKeys,
    /// The dash key went down since the last step.
    pub dash_pressed: bool,
    /// The blink key went down since the last step.
    pub blink_pressed: bool,
    /// Vector from the player to the cursor, in world coordinates.
    pub cursor_rel: Vec2i,
}

/// Raw directional intent, each axis in -1, 0 or 1.
#[derive(Clone, Copy, Debug, PartialEq, Eq, Structural)]
pub struct AccumulatedInput {
    pub movement: Vec2i,
}

#[derive(Clone, Copy, Debug, PartialEq, Eq, Structural)]
pub struct Velocity(pub Vec2i);

#[derive(Clone, Copy, Debug, PartialEq, Eq, Structural)]
pub struct PhysicalTranslation(pub Vec2i);

#[derive(Clone, Copy, Debug, PartialEq, Eq, Structural)]
pub struct PreviousPhysicalTranslation(pub Vec2i);

#[derive(Clone, Copy, Debug, PartialEq, Eq, Structural)]
pub struct CursorRel(pub Vec2i);

#[derive(Clone, Copy, Debug, PartialEq, Eq, Structural)]
pub struct DashCooldown(pub Timer);

#[derive(Clone, Copy, Debug, PartialEq, Eq, Structural)]
pub struct BlinkCooldown(pub Timer);

/// A dash in flight: the time spent in it so far and the whole displacement it
/// covers.
#[derive(Clone, Copy, Debug, PartialEq, Eq, Structural)]
pub struct ActiveDash(pub Timer, pub Vec2i);

/// A blink displacement waiting for the next integration.
#[derive(Clone, Copy, Debug, PartialEq, Eq, Structural)]
pub struct BlinkVector(pub Vec2i);

/// The simulated state of one player. A present `active_dash` is the dash's
/// activity flag: the dash cannot be triggered again while it is there.
#[derive(Clone, Copy, Debug, PartialEq, Eq, Structural)]
pub struct Player {
    pub accumulated: AccumulatedInput,
    pub velocity: Velocity,
    pub translation: PhysicalTranslation,
    pub previous: PreviousPhysicalTranslation,
    pub cursor_rel: CursorRel,
    pub dash_cooldown: DashCooldown,
    pub active_dash: Option<ActiveDash>,
    pub blink_cooldown: BlinkCooldown,
    pub blink: Option<BlinkVector>,
}

/// Why a fixed step was not taken.
#[derive(Clone, Copy, Debug, PartialEq, Eq, Structural)]
pub enum StepError {
    /// The step would move the player beyond the representable coordinates.
    OutOfRange,
}

pub open spec fn in_i64(v: int) -> bool {
    i64::MIN <= v <= i64::MAX
}

impl PlayerConfig {
    /// The limits under which every quantity the simulation derives stays
    /// representable, and a dash takes time.
    pub open spec fn wf(self) -> bool {
        &&& self.speed <= i64::MAX
        &&& self.dash_length <= i64::MAX
        &&& self.blink_length <= i64::MAX
        &&& self.dash_duration > 0
        &&& self.dash_length * NANOS_PER_SEC / (self.dash_duration as int) <= i64::MAX
    }

    /// The tuning of the shipped game.
    pub fn standard() -> (r: PlayerConfig)
        ensures
            r.wf(),
            r.speed == 370_000_000,
            r.dash_length == 800_000_000,
            r.dash_duration == 400_000_000,
            r.dash_cooldown == 2_000_000_000,
            r.blink_length == 500_000_000,
            r.blink_cooldown == 3_000_000_000,
            r.aim == AimBasis::Movement,
            !r.cooldowns_start_ready,
    {
        PlayerConfig {
            speed: 370_000_000,
            dash_length: 800_000_000,
            dash_duration: 400_000_000,
            dash_cooldown: 2_000_000_000,
            blink_length: 500_000_000,
            blink_cooldown: 3_000_000_000,
            aim: AimBasis::Movement,
            cooldowns_start_ready: false,
        }
    }
}

/// The raw movement vector of the held keys: +y up, -y down, -x left, +x right.
pub open spec fn keys_movement(k: HeldKeys) -> Vec2i {
    Vec2i {
        x: if k.right && !k.left {
            1
        } else if k.left && !k.right {
            -1i64
        } else {
            0
        },
        y: if k.up && !k.down {
            1
        } else if k.down && !k.up {
            -1i64
        } else {
            0
        },
    }
}

pub open spec fn sign_scaled(c: i64) -> i64 {
    if c > 0 {
        DIRECTION_SCALE
    } else if c < 0 {
        (-DIRECTION_SCALE) as i64
    } else {
        0
    }
}

/// The movement vector as a direction with room for precise rescaling.
pub open spec fn direction_of(m: Vec2i) -> Vec2i {
    Vec2i { x: sign_scaled(m.x), y: sign_scaled(m.y) }
}

/// Velocity of normal movement: the movement direction at full `speed`, or zero.
pub open spec fn movement_velocity(m: Vec2i, speed: u64) -> Vec2i {
    scaled(direction_of(m), speed as int)
}

/// Constant velocity that covers `d` within `duration` nanoseconds.
pub open spec fn dash_velocity(d: Vec2i, duration: u64) -> Vec2i {
    Vec2i {
        x: mul_div_trunc(d.x as int, NANOS_PER_SEC as int, duration as int) as i64,
        y: mul_div_trunc(d.y as int, NANOS_PER_SEC as int, duration as int) as i64,
    }
}

/// Displacement of one axis at velocity `v` over `dt` nanoseconds.
pub open spec fn step_delta(v: i64, dt: u64) -> int {
    mul_div_trunc(v as int, dt as int, NANOS_PER_SEC as int)
}

impl Player {
    /// What holds of every player the simulation produces.
    pub open spec fn wf(self, cfg: PlayerConfig) -> bool {
        match self.active_dash {
            Some(a) => {
                &&& abs(a.1.x as int) <= cfg.dash_length
                &&& abs(a.1.y as int) <= cfg.dash_length
                &&& a.0.elapsed < a.0.duration
            },
            None => true,
        }
    }

    pub open spec fn dashing(self) -> bool {
        self.active_dash is Some
    }

    /// A dash in flight started together with the dash cooldown: the cooldown
    /// has run exactly as long as the dash and lasts at least as long.
    pub open spec fn dash_within_cooldown(self) -> bool {
        match self.active_dash {
            Some(a) => {
                &&& self.dash_cooldown.0.elapsed == a.0.elapsed
                &&& a.0.duration <= self.dash_cooldown.0.duration
            },
            None => true,
        }
    }

    /// The timer of the dash in flight.
    pub open spec fn dash_timer(self) -> Timer {
        match self.active_dash {
            Some(a) => a.0,
            None => Timer { duration: 0, elapsed: 0 },
        }
    }

    /// Samples the held keys and the cursor, and sets the movement velocity.
    pub open spec fn sampled(self, input: StepInput, cfg: PlayerConfig) -> Player {
        Player {
            accumulated: AccumulatedInput { movement: keys_movement(input.keys) },
            velocity: Velocity(movement_velocity(keys_movement(input.keys), cfg.speed)),
            cursor_rel: CursorRel(input.cursor_rel),
            ..self
        }
    }

    /// The vector the dash is aimed along, as `cfg` chooses.
    pub open spec fn aim(self, cfg: PlayerConfig) -> Vec2i {
        match cfg.aim {
            AimBasis::Movement => direction_of(self.accumulated.movement),
            AimBasis::Velocity => self.velocity.0,
            AimBasis::Cursor => self.cursor_rel.0,
        }
    }

    pub open spec fn dash_allowed(self, pressed: bool, basis: Vec2i) -> bool {
        &&& pressed
        &&& self.dash_cooldown.0.finished_spec()
        &&& !self.dashing()
        &&& !(basis.x == 0 && basis.y == 0)
    }

    /// The effect of the dash key: when allowed, a dash of full length along
    /// `basis` starts and the cooldown restarts; otherwise nothing changes.
    pub open spec fn after_dash_input(
        self,
        pressed: bool,
        basis: Vec2i,
        cfg: PlayerConfig,
    ) -> Player {
        if self.dash_allowed(pressed, basis) {
            Player {
                active_dash: Some(
                    ActiveDash(
                        Timer { duration: cfg.dash_duration, elapsed: 0 },
                        scaled(basis, cfg.dash_length as int),
                    ),
                ),
                dash_cooldown: DashCooldown(self.dash_cooldown.0.restarted()),
                ..self
            }
        } else {
            self
        }
    }

    pub open spec fn blink_allowed(self, pressed: bool, direction: Vec2i) -> bool {
        &&& pressed
        &&& self.blink_cooldown.0.finished_spec()
        &&& !self.dashing()
        &&& !(direction.x == 0 && direction.y == 0)
    }

    /// The effect of the blink key: when allowed, a blink of full length along
    /// `direction` waits for the next integration and the cooldown restarts.
    pub open spec fn after_blink_input(
        self,
        pressed: bool,
        direction: Vec2i,
        cfg: PlayerConfig,
    ) -> Player {
        if self.blink_allowed(pressed, direction) {
            Player {
                blink: Some(BlinkVector(scaled(direction, cfg.blink_length as int))),
                blink_cooldown: BlinkCooldown(self.blink_cooldown.0.restarted()),
                ..self
            }
        } else {
            self
        }
    }

    /// While a dash is in flight its velocity replaces the movement velocity.
    pub open spec fn with_dash_velocity(self, cfg: PlayerConfig) -> Player {
        match self.active_dash {
            Some(a) => Player { velocity: Velocity(dash_velocity(a.1, cfg.dash_duration)), ..self },
            None => self,
        }
    }

    /// Input sampling, then the dash and blink triggers, then the dash velocity:
    /// the state that integration starts from.
    pub open spec fn prepared(self, input: StepInput, cfg: PlayerConfig) -> Player {
        let s = self.sampled(input, cfg);
        let d = s.after_dash_input(input.dash_pressed, s.aim(cfg), cfg);
        let b = d.after_blink_input(input.blink_pressed, direction_of(d.accumulated.movement), cfg);
        b.with_dash_velocity(cfg)
    }

    /// Integration and a pending blink leave the player at representable
    /// coordinates.
    pub open spec fn fits(self, dt: u64) -> bool {
        let x = self.translation.0.x + step_delta(self.velocity.0.x, dt);
        let y = self.translation.0.y + step_delta(self.velocity.0.y, dt);
        &&& in_i64(x)
        &&& in_i64(y)
        &&& match self.blink {
            Some(b) => in_i64(x + b.0.x) && in_i64(y + b.0.y),
            None => true,
        }
    }

    /// One step of integration: the old position is kept as the previous one.
    pub open spec fn integrated(self, dt: u64) -> Player {
        Player {
            previous: PreviousPhysicalTranslation(self.translation.0),
            translation: PhysicalTranslation(
                Vec2i {
                    x: (self.translation.0.x + step_delta(self.velocity.0.x, dt)) as i64,
                    y: (self.translation.0.y + step_delta(self.velocity.0.y, dt)) as i64,
                },
            ),
            ..self
        }
    }

    /// A pending blink moves the player once and is gone.
    pub open spec fn blinked(self) -> Player {
        match self.blink {
            Some(b) => Player {
                translation: PhysicalTranslation(
                    Vec2i {
                        x: (self.translation.0.x + b.0.x) as i64,
                        y: (self.translation.0.y + b.0.y) as i64,
                    },
                ),
                blink: None,
                ..self
            },
            None => self,
        }
    }

    /// The dash in flight after `dt`; a dash whose time is up ends.
    pub open spec fn dash_timer_ticked(self, dt: u64) -> Player {
        Player {
            active_dash: match self.active_dash {
                Some(a) => if a.0.ticked(dt).finished_spec() {
                    None
                } else {
                    Some(ActiveDash(a.0.ticked(dt), a.1))
                },
                None => None,
            },
            ..self
        }
    }

    pub open spec fn dash_cooldown_ticked(self, dt: u64) -> Player {
        Player { dash_cooldown: DashCooldown(self.dash_cooldown.0.ticked(dt)), ..self }
    }

    pub open spec fn blink_cooldown_ticked(self, dt: u64) -> Player {
        Player { blink_cooldown: BlinkCooldown(self.blink_cooldown.0.ticked(dt)), ..self }
    }

    /// The dash timer and both cooldowns after `dt`.
    pub open spec fn timers_ticked(self, dt: u64) -> Player {
        self.dash_timer_ticked(dt).dash_cooldown_ticked(dt).blink_cooldown_ticked(dt)
    }

    /// One fixed step of `dt` nanoseconds; a step that would leave the
    /// representable coordinates is not taken.
    pub open spec fn stepped(self, input: StepInput, cfg: PlayerConfig, dt: u64) -> Player {
        let p = self.prepared(input, cfg);
        if p.fits(dt) {
            p.integrated(dt).blinked().timers_ticked(dt)
        } else {
            self
        }
    }
}

/// `n` fixed steps with the same input.
pub open spec fn run(p: Player, input: StepInput, cfg: PlayerConfig, dt: u64, n: nat) -> Player
    decreases n,
{
    if n == 0 {
        p
    } else {
        run(p, input, cfg, dt, (n - 1) as nat).stepped(input, cfg, dt)
    }
}

pub fn movement_from_keys(keys: HeldKeys) -> (r: Vec2i)
    ensures
        r == keys_movement(keys),
{
    let x: i64 = if keys.right && !keys.left {
        1
    } else if keys.left && !keys.right {
        -1
    } else {
        0
    };
    let y: i64 = if keys.up && !keys.down {
        1
    } else if keys.down && !keys.up {
        -1
    } else {
        0
    };
    Vec2i { x, y }
}

fn sign_scale(c: i64) -> (r: i64)
    ensures
        r == sign_scaled(c),
{
    if c > 0 {
        DIRECTION_SCALE
    } else if c < 0 {
        -DIRECTION_SCALE
    } else {
        0
    }
}

/// The direction of a movement vector, scaled for precise rescaling.
pub fn movement_direction(m: Vec2i) -> (r: Vec2i)
    ensures
        r == direction_of(m),
{
    Vec2i { x: sign_scale(m.x), y: sign_scale(m.y) }
}

/// A cooldown timer of a new player.
pub open spec fn fresh_cooldown(duration: u64, ready: bool) -> Timer {
    Timer { duration, elapsed: if ready { duration } else { 0 } }
}

fn new_cooldown(duration: u64, ready: bool) -> (r: Timer)
    ensures
        r == fresh_cooldown(duration, ready),
{
    if ready {
        Timer::new_finished(duration)
    } else {
        Timer::new(duration)
    }
}

/// A new player at the origin, at rest, with both cooldowns either over or
/// just begun, as `cfg` says.
pub fn setup_player(cfg: PlayerConfig) -> (r: Player)
    ensures
        r.translation.0 == (Vec2i { x: 0, y: 0 }),
        r.previous.0 == (Vec2i { x: 0, y: 0 }),
        r.velocity.0 == (Vec2i { x: 0, y: 0 }),
        r.accumulated.movement == (Vec2i { x: 0, y: 0 }),
        r.cursor_rel.0 == (Vec2i { x: 0, y: 0 }),
        r.dash_cooldown.0 == fresh_cooldown(cfg.dash_cooldown, cfg.cooldowns_start_ready),
        r.blink_cooldown.0 == fresh_cooldown(cfg.blink_cooldown, cfg.cooldowns_start_ready),
        r.active_dash is None,
        r.blink is None,
        r.wf(cfg),
        r.dash_within_cooldown(),
{
    Player {
        accumulated: AccumulatedInput { movement: Vec2i::zero() },
        velocity: Velocity(Vec2i::zero()),
        translation: PhysicalTranslation(Vec2i::zero()),
        previous: PreviousPhysicalTranslation(Vec2i::zero()),
        cursor_rel: CursorRel(Vec2i::zero()),
        dash_cooldown: DashCooldown(new_cooldown(cfg.dash_cooldown, cfg.cooldowns_start_ready)),
        active_dash: None,
        blink_cooldown: BlinkCooldown(new_cooldown(cfg.blink_cooldown, cfg.cooldowns_start_ready)),
        blink: None,
    }
}

/// Samples the step's input: the raw movement of the held keys is stored, the
/// velocity becomes the movement direction at full speed (zero when no
/// direction is held), and the cursor vector is taken over.
pub fn handle_movement_input(p: &mut Player, input: &StepInput, cfg: &PlayerConfig)
    requires
        cfg.wf(),
    ensures
        *final(p) == old(p).sampled(*input, *cfg),
{
    let m = movement_from_keys(input.keys);
    let v = scale_to_length(movement_direction(m), cfg.speed);
    p.accumulated = AccumulatedInput { movement: m };
    p.velocity = Velocity(v);
    p.cursor_rel = CursorRel(input.cursor_rel);
}

/// Forgets the sampled movement.
pub fn clear_input(p: &mut Player)
    ensures
        *final(p) == (Player {
            accumulated: AccumulatedInput { movement: Vec2i { x: 0, y: 0 } },
            ..*old(p)
        }),
{
    p.accumulated = AccumulatedInput { movement: Vec2i::zero() };
}

/// The vector a dash of `p` is aimed along.
pub fn aim_basis(p: &Player, cfg: &PlayerConfig) -> (r: Vec2i)
    ensures
        r == p.aim(*cfg),
{
    match cfg.aim {
        AimBasis::Movement => movement_direction(p.accumulated.movement),
        AimBasis::Velocity => p.velocity.0,
        AimBasis::Cursor => p.cursor_rel.0,
    }
}

/// Starts a dash along `basis` when the dash key was pressed, the cooldown is
/// over, no dash is in flight and `basis` is not zero: the dash covers the dash
/// length, rounded down by at most six millionths of a unit, and the cooldown
/// restarts. Otherwise nothing changes.
pub fn handle_dash_input(p: &mut Player, pressed: bool, basis: Vec2i, cfg: &PlayerConfig)
    requires
        cfg.wf(),
    ensures
        *final(p) == old(p).after_dash_input(pressed, basis, *cfg),
        old(p).dash_allowed(pressed, basis) ==> (final(p).active_dash matches Some(a) && along(
            a.1,
            basis,
            cfg.dash_length as int,
        )),
{
    if pressed && p.dash_cooldown.0.is_finished() && p.active_dash.is_none() && !basis.is_zero() {
        let d = scale_to_length(basis, cfg.dash_length);
        p.active_dash = Some(ActiveDash(Timer::new(cfg.dash_duration), d));
        p.dash_cooldown.0.reset();
    }
}

/// Readies a blink along `direction` when the blink key was pressed, the
/// cooldown is over, no dash is in flight and `direction` is not zero: the
/// blink covers the blink length, rounded down by at most six millionths of a
/// unit, and the cooldown restarts. Otherwise nothing changes.
pub fn handle_blink_input(p: &mut Player, pressed: bool, direction: Vec2i, cfg: &PlayerConfig)
    requires
        cfg.wf(),
    ensures
        *final(p) == old(p).after_blink_input(pressed, direction, *cfg),
        old(p).blink_allowed(pressed, direction) ==> (final(p).blink matches Some(b) && along(
            b.0,
            direction,
            cfg.blink_length as int,
        )),
{
    if pressed && p.blink_cooldown.0.is_finished() && p.active_dash.is_none()
        && !direction.is_zero() {
        let b = scale_to_length(direction, cfg.blink_length);
        p.blink = Some(BlinkVector(b));
        p.blink_cooldown.0.reset();
    }
}

fn dash_speed(c: i64, cfg: &PlayerConfig) -> (r: i64)
    requires
        cfg.wf(),
        abs(c as int) <= cfg.dash_length,
    ensures
        r as int == mul_div_trunc(c as int, NANOS_PER_SEC as int, cfg.dash_duration as int),
{
    let ghost m = abs(c as int);
    let ghost l = cfg.dash_length as int;
    let ghost dur = cfg.dash_duration as int;
    assert(0 <= m * NANOS_PER_SEC <= l * NANOS_PER_SEC) by (nonlinear_arith)
        requires 0 <= m <= l;
    proof {
        lemma_div_is_ordered(m * NANOS_PER_SEC, l * NANOS_PER_SEC, dur);
        lemma_div_pos_is_pos(m * NANOS_PER_SEC, dur);
    }
    let v = mul_div(c as i128, NANOS_PER_SEC, cfg.dash_duration);
    v as i64
}

/// While a dash is in flight, its constant velocity replaces the movement
/// velocity.
pub fn apply_dash_velocity(p: &mut Player, cfg: &PlayerConfig)
    requires
        cfg.wf(),
        old(p).wf(*cfg),
    ensures
        *final(p) == old(p).with_dash_velocity(*cfg),
{
    if let Some(a) = p.active_dash {
        let vx = dash_speed(a.1.x, cfg);
        let vy = dash_speed(a.1.y, cfg);
        p.velocity = Velocity(Vec2i { x: vx, y: vy });
    }
}

/// Displacement of one axis at velocity `v` over `dt` nanoseconds.
fn travel(v: i64, dt: u64) -> (r: i128)
    ensures
        r as int == step_delta(v, dt),
        abs(r as int) <= 0x4_0000_0000_0000_0000_0000_0000,
{
    let ghost m = abs(v as int);
    let ghost big = (0x4_0000_0000_0000_0000_0000_0000 * 1_000_000_000) as int;
    assert(0 <= m * dt <= 0x7fff_ffff_ffff_ffff_ffff_ffff_ffff_ffff) by (nonlinear_arith)
        requires 0 <= m <= 0x8000_0000_0000_0000, dt <= 0xffff_ffff_ffff_ffff;
    proof {
        lemma_div_nonincreasing(m * dt, NANOS_PER_SEC as int);
        lemma_div_pos_is_pos(m * dt, NANOS_PER_SEC as int);
        lemma_div_is_ordered(m * dt, big, NANOS_PER_SEC as int);
        lemma_div_by_multiple(0x4_0000_0000_0000_0000_0000_0000, NANOS_PER_SEC as int);
    }
    mul_div(v as i128, dt, NANOS_PER_SEC)
}

fn fits_i64(v: i128) -> (r: bool)
    ensures
        r == in_i64(v as int),
{
    -0x8000_0000_0000_0000i128 <= v && v <= 0x7fff_ffff_ffff_ffff
}

/// Whether integrating `p` over `dt` and applying its pending blink keeps it at
/// representable coordinates.
pub fn step_fits(p: &Player, dt: u64) -> (r: bool)
    ensures
        r == p.fits(dt),
{
    let x = p.translation.0.x as i128 + travel(p.velocity.0.x, dt);
    let y = p.translation.0.y as i128 + travel(p.velocity.0.y, dt);
    if !fits_i64(x) || !fits_i64(y) {
        return false;
    }
    match p.blink {
        Some(b) => fits_i64(x + b.0.x as i128) && fits_i64(y + b.0.y as i128),
        None => true,
    }
}

/// Moves the player by its velocity over `dt` nanoseconds, keeping the old
/// position as the previous one.
pub fn advance_player_physics(p: &mut Player, dt: u64)
    requires
        in_i64(old(p).translation.0.x + step_delta(old(p).velocity.0.x, dt)),
        in_i64(old(p).translation.0.y + step_delta(old(p).velocity.0.y, dt)),
    ensures
        *final(p) == old(p).integrated(dt),
{
    let x = p.translation.0.x as i128 + travel(p.velocity.0.x, dt);
    let y = p.translation.0.y as i128 + travel(p.velocity.0.y, dt);
    p.previous = PreviousPhysicalTranslation(p.translation.0);
    p.translation = PhysicalTranslation(Vec2i { x: x as i64, y: y as i64 });
}

/// Applies a pending blink to the position, once: it is removed and handed
/// back so that presentation can follow it.
pub fn apply_blink(p: &mut Player) -> (r: Option<BlinkVector>)
    requires
        match old(p).blink {
            Some(b) => in_i64(old(p).translation.0.x + b.0.x) && in_i64(
                old(p).translation.0.y + b.0.y,
            ),
            None => true,
        },
    ensures
        *final(p) == old(p).blinked(),
        r == old(p).blink,
{
    let pending = p.blink;
    if let Some(b) = pending {
        p.translation = PhysicalTranslation(
            Vec2i { x: p.translation.0.x + b.0.x, y: p.translation.0.y + b.0.y },
        );
        p.blink = None;
    }
    pending
}

/// Advances the dash in flight by `dt`, ending it when its time is up.
pub fn update_dash_timer(p: &mut Player, dt: u64)
    ensures
        *final(p) == old(p).dash_timer_ticked(dt),
{
    if let Some(a) = p.active_dash {
        let mut t = a.0;
        t.tick(dt);
        if t.is_finished() {
            p.active_dash = None;
        } else {
            p.active_dash = Some(ActiveDash(t, a.1));
        }
    }
}

pub fn update_dash_cooldown(p: &mut Player, dt: u64)
    ensures
        *final(p) == old(p).dash_cooldown_ticked(dt),
{
    p.dash_cooldown.0.tick(dt);
}

pub fn update_blink_cooldown(p: &mut Player, dt: u64)
    ensures
        *final(p) == old(p).blink_cooldown_ticked(dt),
{
    p.blink_cooldown.0.tick(dt);
}

/// One fixed step of `dt` nanoseconds, in this order: input sampling, the dash
/// trigger, the blink trigger, the dash velocity, integration, the pending
/// blink, then the dash timer and both cooldowns. Returns the blink that was
/// applied, if any. A step that would leave the representable coordinates is
/// refused and changes nothing.
pub fn fixed_update(p: &mut Player, input: &StepInput, cfg: &PlayerConfig, dt: u64) -> (r: Result<
    Option<BlinkVector>,
    StepError,
>)
    requires
        cfg.wf(),
        old(p).wf(*cfg),
    ensures
        *final(p) == old(p).stepped(*input, *cfg, dt),
        final(p).wf(*cfg),
        r is Ok <==> old(p).prepared(*input, *cfg).fits(dt),
        r is Ok ==> r->Ok_0 == old(p).prepared(*input, *cfg).blink,
{
    let mut next = *p;
    handle_movement_input(&mut next, input, cfg);
    let basis = aim_basis(&next, cfg);
    handle_dash_input(&mut next, input.dash_pressed, basis, cfg);
    proof {
        lemma_scaled_components_bound(basis, cfg.dash_length as int);
    }
    let direction = movement_direction(next.accumulated.movement);
    handle_blink_input(&mut next, input.blink_pressed, direction, cfg);
    apply_dash_velocity(&mut next, cfg);
    if !step_fits(&next, dt) {
        return Err(StepError::OutOfRange);
    }
    advance_player_physics(&mut next, dt);
    let blink = apply_blink(&mut next);
    update_dash_timer(&mut next, dt);
    update_dash_cooldown(&mut next, dt);
    update_blink_cooldown(&mut next, dt);
    *p = next;
    Ok(blink)
}

/// The position to draw: the blend from the previous to the current position
/// at the fraction `overstep / timestep` of a fixed step that has passed since
/// the last one.
pub fn interpolate_rendered_transform(p: &Player, overstep: u64, timestep: u64) -> (r: Vec2i)
    requires
        timestep > 0,
        overstep <= timestep,
    ensures
        r.x as int == lerp_spec(
            p.previous.0.x as int,
            p.translation.0.x as int,
            overstep as int,
            timestep as int,
        ),
        r.y as int == lerp_spec(
            p.previous.0.y as int,
            p.translation.0.y as int,
            overstep as int,
            timestep as int,
        ),
{
    Vec2i {
        x: lerp(p.previous.0.x, p.translation.0.x, overstep, timestep),
        y: lerp(p.previous.0.y, p.translation.0.y, overstep, timestep),
    }
}

/// The vector from the player at `player` to the cursor at `cursor`, when it is
/// representable.
pub fn get_rel_cursor(cursor: Vec2i, player: Vec2i) -> (r: Option<Vec2i>)
    ensures
        r is Some <==> in_i64(cursor.x - player.x) && in_i64(cursor.y - player.y),
        r is Some ==> r->0.x == cursor.x - player.x && r->0.y == cursor.y - player.y,
{
    let x = cursor.x as i128 - player.x as i128;
    let y = cursor.y as i128 - player.y as i128;
    if fits_i64(x) && fits_i64(y) {
        Some(Vec2i { x: x as i64, y: y as i64 })
    } else {
        None
    }
}

} // verus!
