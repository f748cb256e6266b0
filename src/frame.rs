use vstd::prelude::*;

use crate::geometry::Vec2i;
use crate::player::{HeldKeys, StepInput};

verus! {

/// Ability key presses seen by presentation frames and not yet handed to a
/// fixed step. A press lasts until exactly one step has consumed it, however
/// many frames pass without a step.
#[derive(Clone, Copy, Debug, PartialEq, Eq, Structural)]
pub struct PressLatch {
    pub dash: bool,
    pub blink: bool,
}

impl PressLatch {
    pub fn new() -> (r: PressLatch)
        ensures
            !r.dash && !r.blink,
    {
        PressLatch { dash: false, blink: false }
    }

    /// Notes this frame's just-pressed ability keys.
    pub fn record(&mut self, dash_just_pressed: bool, blink_just_pressed: bool)
        ensures
            final(self).dash == (old(self).dash || dash_just_pressed),
            final(self).blink == (old(self).blink || blink_just_pressed),
    {
        self.dash = self.dash || dash_just_pressed;
        self.blink = self.blink || blink_just_pressed;
    }

    /// The input of the next fixed step; the presses it carries are consumed.
    pub fn consume(&mut self, keys: HeldKeys, cursor_rel: Vec2i) -> (r: StepInput)
        ensures
            r == (StepInput {
                keys,
                dash_pressed: old(self).dash,
                blink_pressed: old(self).blink,
                cursor_rel,
            }),
            !final(self).dash && !final(self).blink,
    {
        let r = StepInput { keys, dash_pressed: self.dash, blink_pressed: self.blink, cursor_rel };
        self.dash = false;
        self.blink = false;
        r
    }
}

/// Whether at least one fixed step ran during the current presentation frame.
#[derive(Clone, Copy, Debug, PartialEq, Eq, Structural)]
pub struct DidFixedTimestepRunThisFrame(pub bool);

impl DidFixedTimestepRunThisFrame {
    /// Resets the flag at the start of a frame.
    pub fn clear_fixed_timestep_flag(&mut self)
        ensures
            !final(self).0,
    {
        self.0 = false;
    }

    /// Raises the flag when a fixed step runs.
    pub fn set_fixed_time_step_flag(&mut self)
        ensures
            final(self).0,
    {
        self.0 = true;
    }

    pub fn did_fixed_timestep_run_this_frame(&self) -> (r: bool)
        ensures
            r == self.0,
    {
        self.0
    }
}

} // verus!
