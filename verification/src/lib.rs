//! A pushdown (stack-based) state machine for driving the screen/mode flow of
//! an interactive application: an ordered stack of mutually exclusive states,
//! where only the top state receives updates, input events and render calls,
//! and where the top state may request one stack mutation per call.
//!
//! The transition algebra — what happens to the stack, and in which order the
//! lifecycle hooks fire, for each of the five transition kinds — lives as pure
//! specification in [`model`], the machine itself in [`machine`], a scripted
//! state for driving a machine through chosen transitions in [`script`], and
//! the proved laws of the algebra in [`laws`].

pub mod laws;
pub mod machine;
pub mod model;
pub mod script;
