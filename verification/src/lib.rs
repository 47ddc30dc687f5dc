//! A main loop that is written once and driven in two ways.
//!
//! A program hands the state of its loop to a driver as a [`MainLoop`]. The
//! driver calls `main_loop` on it again and again until a call reports
//! [`MainLoopEvent::Terminate`]. On a native target [`run`] does so in a loop
//! of its own and returns when the loop has ended. Where the host forbids a
//! blocking loop, the host calls [`Driver::iterate`] once per turn of its own
//! event loop instead.
pub mod driver;
pub mod event;
pub mod quit_flag;
pub mod stepper;
pub mod theorems;

pub use driver::{run, Driver};
pub use event::MainLoopEvent;
pub use quit_flag::QuitFlag;
pub use stepper::MainLoop;
