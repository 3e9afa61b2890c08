//! The logic of a system cleaner and updater for Arch Linux.
//!
//! Everything that touches the system is asked for as a request or an event and answered from
//! outside: the modules here decide what is run, removed, logged and shown.
use vstd::prelude::*;

pub mod aur;
pub mod cleaner;
pub mod command;
pub mod disk_analyzer;
pub mod operation;
pub mod permissions;
pub mod scheduler;
pub mod session;
pub mod sweep;
pub mod system;
pub mod terminal;
pub mod text;
pub mod units;
pub mod updater;
pub mod walk;
pub mod window;

verus! {

} // verus!
