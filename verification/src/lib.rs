//! Presence-session lifecycle manager and external process controller.
//!
//! The library decodes activity payloads into typed descriptors, guards the
//! single shared presence-session slot, drives the connect/disconnect state
//! machine, and computes the deterministic on-disk layout and process
//! commands for the fake game installation.  All decisions are made here,
//! over plain values; the host performs the I/O those decisions call for.

use vstd::prelude::*;

pub mod activity;
pub mod errors;
pub mod events;
pub mod json;
pub mod lifecycle;
pub mod placeholder;
pub mod process;
pub mod session;
pub mod text;

verus! {

/// Greets the named user, exactly as the UI command does.
pub fn greet(name: &str) -> (r: String)
    ensures
        r@ == "Hello, "@ + name@ + "! You've been greeted from Rust!"@,
{
    let mut s = String::from_str("Hello, ");
    s.append(name);
    s.append("! You've been greeted from Rust!");
    s
}

} // verus!
