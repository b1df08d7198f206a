//! Core logic of a small desktop music player: a recursive music-library
//! scanner that derives catalog metadata from file names, and a supervisor
//! for the helper API server process.
//!
//! Filesystem enumeration and process spawning are performed by the host
//! application; this crate holds the decisions and the data, all verified.
use vstd::prelude::*;

pub mod music_library;
pub mod strutil;
pub mod supervisor;

verus! {

/// Builds the greeting shown by the shell's demo command.
pub fn greet(name: &str) -> (r: String)
    ensures
        r@ == "Hello, "@ + name@ + "! You've been greeted from Rust!"@,
{
    let mut r = "Hello, ".to_owned();
    r.append(name);
    r.append("! You've been greeted from Rust!");
    r
}

} // verus!
