//! Decision logic of a gatekeeper that runs `cargo update` only when no
//! committed change to a `Cargo.lock` file is newer than a cutoff.
//!
//! The library parses the command line, decides which external command to
//! run next, and maps the outcome of each command to the next step and to the
//! program's exit status. Running the commands is left to the caller.
pub mod args;
pub mod outcome;
pub mod session;
