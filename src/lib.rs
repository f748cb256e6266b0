//! Movement and ability simulation of a top-down player: fixed-step
//! integration, render interpolation, and dash and blink abilities governed by
//! cooldowns. Positions are fixed-point integers and time is counted in
//! nanoseconds, so that every step is exact and proved.

pub mod frame;
pub mod geometry;
pub mod player;
pub mod theorems;
pub mod timer;
