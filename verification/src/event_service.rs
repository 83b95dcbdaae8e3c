//! The event service: which subscribers are due for events, and how the
//! stored events are asked for.
//!
//! Points in time are nanoseconds since the epoch.

use vstd::prelude::*;
use vstd::string::*;

verus! {

/// Whether a subscriber may have missed events: one that has seen none
/// always may, one that has seen some only if an event was pushed after the
/// last that it has seen, or if nothing is known of the last push.
pub open spec fn has_news(cursor: Option<u128>, last_pushed: Option<u128>) -> bool {
    match cursor {
        None => true,
        Some(seen) => match last_pushed {
            None => true,
            Some(pushed) => pushed > seen,
        },
    }
}

/// Decides whether the events of a subscriber have to be read.
pub fn needs_events(cursor: Option<u128>, last_pushed: Option<u128>) -> (yes: bool)
    ensures
        yes == has_news(cursor, last_pushed),
{
    match cursor {
        None => true,
        Some(seen) => match last_pushed {
            None => true,
            Some(pushed) => pushed > seen,
        },
    }
}

/// The query for the stored events in the order of their creation: all of
/// them, or those after the point in time that is its first parameter.
pub open spec fn events_query(since: bool) -> Seq<char> {
    if since {
        "SELECT data, created_timestamp FROM events"@ + " WHERE created_timestamp > $1"@
            + " ORDER BY created_timestamp ASC"@
    } else {
        "SELECT data, created_timestamp FROM events"@ + " ORDER BY created_timestamp ASC"@
    }
}

/// Writes the query for the events that a subscriber with the given cursor
/// has not seen.
pub fn read_events(since: Option<u128>) -> (query: String)
    ensures
        query@ == events_query(since is Some),
{
    let mut query = String::from_str("SELECT data, created_timestamp FROM events");
    if since.is_some() {
        query.append(" WHERE created_timestamp > $1");
    }
    query.append(" ORDER BY created_timestamp ASC");
    query
}

/// The cursor of a subscriber after the events with the given points in
/// time were sent to it, in order: that of the last one, or the cursor as
/// it was where none was sent.
pub open spec fn cursor_after(cursor: Option<u128>, sent: Seq<u128>) -> Option<u128> {
    if sent.len() == 0 {
        cursor
    } else {
        Some(sent.last())
    }
}

/// Moves the cursor of a subscriber behind the events that were sent to it.
pub fn advance(cursor: Option<u128>, sent: &[u128]) -> (moved: Option<u128>)
    ensures
        moved == cursor_after(cursor, sent@),
{
    if sent.len() == 0 {
        cursor
    } else {
        Some(sent[sent.len() - 1])
    }
}

} // verus!
