//! Verified core of a tool that takes input devices away from the system for a
//! while: the rules by which device listings are read, by which a grab on a
//! device is watched, lost, re-acquired and released, and the queue that lets a
//! polling consumer read lines without ever waiting for them.
//!
//! Nothing in this crate starts a process, reads a stream or looks at a clock.
//! The caller does that and reports what happened; every decision is taken here.

pub mod background_reader;
pub mod device;
pub mod diagnostic;
pub mod error;
pub mod supervisor;
pub mod text;

pub use background_reader::BackgroundLineReader;
pub use device::{list, select, Device};
pub use diagnostic::Diagnostic;
pub use error::CommandError;
pub use supervisor::{LockedDevice, SupervisorState, Verdict};
