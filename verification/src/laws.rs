//! What the library promises as a whole, stated of what goes into an operation and
//! what comes out of it.

pub mod actions;
pub mod bindings;
pub mod commands;
pub mod git;
pub mod hosts;
pub mod lifecycle;
pub mod places;
pub mod popups;
pub mod showing;
pub mod steps;
pub mod texts;
pub mod typing;
pub mod usage;
