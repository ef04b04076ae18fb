//! A terminal stopwatch: elapsed whole seconds shown in place as `HH:MM:SS`,
//! with a cancellation protocol that leaves the final time on screen.
pub mod clock;
pub mod hms;
pub mod session;
pub mod terminal;
