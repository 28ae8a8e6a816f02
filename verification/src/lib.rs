//! Engine of a status-line generator: every configured item runs a command
//! under its own policy, and the newest text of each item is merged, in the
//! declared order, into one line that is printed whenever it changes.
//!
//! The modules hold the decisions; running commands, sleeping and printing
//! are left to the program around the library.

pub mod text;
pub mod line;
pub mod runner;
pub mod config;
pub mod bootstrap;
pub mod notice;
pub mod locate;
