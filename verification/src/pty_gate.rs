//! Whether a run may skip the parts that need a live terminal.

use crate::text::same_text;
use vstd::prelude::*;

verus! {

/// Whether the value of the environment variable makes a live terminal
/// mandatory: only the literal `1` does.
pub fn env_arms_requirement(value: Option<&str>) -> (r: bool)
    ensures
        r == (value matches Some(v) && v@ == "1"@),
{
    match value {
        Some(v) => same_text(v, "1"),
        None => false,
    }
}

/// What a spawn probe means for a run: whether the terminal-backed body may
/// run. A failed spawn in a run that declared a live terminal mandatory is
/// outside this function's domain.
pub fn enforce(spawned: bool, required: bool) -> (r: bool)
    requires
        spawned || !required,
    ensures
        r == spawned,
{
    spawned
}

/// Whether a run must stop: a live terminal is mandatory and none spawned.
pub fn must_fail(spawned: bool, required: bool) -> (r: bool)
    ensures
        r == !(spawned || !required),
{
    required && !spawned
}

/// Whether a pane spawned, judged by its spawn error; `None` where the run
/// declared a live terminal mandatory and the pane has an error.
pub fn require_live_spawn(has_error: bool, required: bool) -> (r: Option<bool>)
    ensures
        r is None <==> required && has_error,
        r matches Some(live) ==> live == !has_error,
{
    if must_fail(!has_error, required) {
        None
    } else {
        Some(enforce(!has_error, required))
    }
}

/// Only the value `1` makes a live terminal mandatory; a run must stop where one
/// is mandatory and none spawned, and else runs as the spawn went.
pub proof fn a_mandatory_terminal_must_spawn(
    spawned: bool,
    required: bool,
    stop: bool,
    live: Option<bool>,
    unset: bool,
)
    requires
        call_ensures(must_fail, (spawned, required), stop),
        call_ensures(require_live_spawn, (!spawned, required), live),
        call_ensures(env_arms_requirement, (None::<&str>,), unset),
    ensures
        stop <==> required && !spawned,
        spawned ==> live == Some(true),
        !spawned && !required ==> live == Some(false),
        !spawned && required ==> live is None,
        !unset,
{
}

} // verus!
