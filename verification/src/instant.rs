//! Instants, in nanoseconds since the Unix epoch.

use vstd::prelude::*;

verus! {

/// The first instant a calendar date can name.
pub const FIRST_INSTANT: i128 = -8_334_601_228_800_000_000_000;

/// The last instant a calendar date can name.
pub const LAST_INSTANT: i128 = 8_210_266_876_799_999_999_999;

pub const NANOS_PER_MILLI: i128 = 1_000_000;

pub const NANOS_PER_SECOND: i128 = 1_000_000_000;

/// A calendar date can name this instant.
pub open spec fn is_named(t: int) -> bool {
    FIRST_INSTANT <= t <= LAST_INSTANT
}

/// The instant so much later, if it can be named.
pub fn later(t: i128, span: i128) -> (r: Option<i128>)
    ensures
        match r {
            Some(u) => u == t + span && is_named(t + span),
            None => !is_named(t + span),
        },
{
    match t.checked_add(span) {
        Some(u) => if FIRST_INSTANT <= u && u <= LAST_INSTANT {
            Some(u)
        } else {
            None
        },
        None => None,
    }
}

/// Whether at least so much time lies between two instants.
pub fn gone_by(then: i128, now: i128, span: i128) -> (r: bool)
    ensures
        r == (now - then >= span),
{
    match now.checked_sub(then) {
        Some(d) => d >= span,
        None => now > then,
    }
}

} // verus!
