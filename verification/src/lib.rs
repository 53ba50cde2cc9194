//! An interactive to-do list, as a verified state machine.
//!
//! The crate holds the task list, the text handling and the dialogue that
//! drives them; reading lines, printing and storing the list are left to the
//! program around it.

pub mod laws;
pub mod list;
pub mod session;
pub mod task;
pub mod text;
