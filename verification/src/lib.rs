//! Startup persistence core for a desktop pomodoro timer: an ordered,
//! idempotent schema migrator for the structured task store, a durable
//! key-value preference store, and the default seeder that fills required
//! preference keys on first run.

pub mod error;
pub mod migrate;
pub mod prefs;
pub mod seeder;

use vstd::prelude::*;

verus! {

/// The single illustrative command exposed to the user interface: builds a
/// greeting for the given name.
pub fn greet(name: &str) -> (r: String)
    ensures
        r@ == "Hello, "@ + name@ + "! You've been greeted from Rust!"@,
{
    let mut r = String::from_str("Hello, ");
    r.append(name);
    r.append("! You've been greeted from Rust!");
    r
}

} // verus!
