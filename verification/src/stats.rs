//! The kill counter of the run.
use vstd::prelude::*;

use crate::text::{decimal, decimal_string};

verus! {

/// Whether a death is counted: only while tracking is on, and only the death
/// of an enemy.
pub open spec fn counts_as_kill(tracking_enabled: bool, died_was_enemy: bool) -> bool {
    tracking_enabled && died_was_enemy
}

/// What the kill counter does when an entity dies.
///
/// Returns `None` when the death is not counted (tracking is off, or the entity
/// was not an enemy): the count and its label stay as they are. Otherwise the
/// count goes up by one and the result holds the new count and the label text
/// that shows it. The count is a `u32`; one more kill than it can hold is left
/// out by the precondition, as the increment would overflow.
pub fn record_death(tracking_enabled: bool, kill_count: u32, died_was_enemy: bool) -> (r: Option<
    (u32, String),
>)
    requires
        counts_as_kill(tracking_enabled, died_was_enemy) ==> kill_count < u32::MAX,
    ensures
        r is Some <==> counts_as_kill(tracking_enabled, died_was_enemy),
        r matches Some((count, label)) ==> count == kill_count + 1 && label@ == decimal(
            count as nat,
        ),
{
    if !tracking_enabled {
        return None;
    }
    if died_was_enemy {
        let count = kill_count + 1;
        Some((count, decimal_string(count)))
    } else {
        None
    }
}

} // verus!
