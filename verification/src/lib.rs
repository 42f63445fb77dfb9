//! Verified core of a small set of command-line utilities: a process
//! listing built from kernel text records, a directory listing filter and
//! the control decisions of a file copy.
//!
//! Every function here works on plain values. Reading directories and
//! files, and printing, belong to the program around this library.

pub mod cp;
pub mod cputime;
pub mod error;
pub mod guarantees;
pub mod ls;
pub mod pattern;
pub mod process;
pub mod stat;
pub mod status;
pub mod text;
