//! An incremental forum query engine.
//!
//! Clients submit small facts (create a post, like a post, change the viewed
//! page) and receive continuously updated query results: paginated post
//! listings, like counts and per-user aggregates. The engine keeps a log of
//! asserted and retracted facts and, after every transaction, recomputes the
//! derived views and emits to each session exactly the results that changed.
//!
//! `data` holds the facts, results and log entries with their mathematical
//! views; `model` defines every derived view as a spec function of the log;
//! `compute`, `pages` and `results` recompute those views executably, each
//! function proved equal to its definition; `consolidate` merges duplicate
//! entries into net multiplicities; `delta` derives the emitted batch of a
//! step and splits it per session; `engine` is the driver that owns the log
//! and applies one transaction at a time; `laws` states and proves the
//! properties the library promises.

pub mod compute;
pub mod consolidate;
pub mod data;
pub mod delta;
pub mod engine;
pub mod laws;
pub mod model;
pub mod pages;
pub mod results;

use vstd::prelude::*;

verus! {

/// Tells an add diff from a retract diff, for display purposes.
pub fn add_rm_str(val: &isize) -> (r: String)
    ensures
        *val == 1 ==> r@ == "add"@,
        *val != 1 ==> r@ == "rm"@,
{
    if *val == 1 {
        "add".to_owned()
    } else {
        "rm".to_owned()
    }
}

} // verus!
