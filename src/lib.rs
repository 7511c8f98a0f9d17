//! A mood-driven agent simulation: moods and their transitions, an action
//! state machine with a rage charge, flocking and boundary forces, and goal
//! zones that decide when a level is won.
//!
//! All quantities are integers. Positions are in steps of a thousandth of a
//! world unit, movement intents in thousandths of a unit of speed per axis,
//! strengths and factors in thousandths, and times in milliseconds.

pub mod ai;
pub mod chance;
pub mod forces;
pub mod level;
pub mod mood;
pub mod movement;
pub mod sim;
pub mod timer;
pub mod transitions;
pub mod vecmath;
pub mod world;
pub mod zone;
