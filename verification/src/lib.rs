//! Initiative-table tracker: a verified reconciliation engine.
//!
//! The library keeps an in-memory roster of combatants, diffs it against
//! fresh snapshots of an externally edited table, and produces the ordered
//! narrative messages that describe what changed.

pub mod combatant;
pub mod events;
pub mod laws;
pub mod state;
pub mod text;

use vstd::prelude::*;

verus! {

/// The marker token inside a combatant's tag string that hides it from
/// all narration and display.
pub open spec fn invisible_marker() -> Seq<char> {
    "invisible"@
}

} // verus!
