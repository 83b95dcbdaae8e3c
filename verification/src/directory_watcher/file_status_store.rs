//! What the store of file states answers when a file is synchronised.

use vstd::prelude::*;

verus! {

/// What synchronising a file with the store found.
#[derive(Debug, Copy, Clone, PartialEq, Eq, Structural)]
pub enum FileStatusSyncResult {
    /// The store did not know the file.
    Created,
    /// The store knew the file with another modification time.
    Modified,
    /// The store knew the file as it is.
    NotModified,
}

/// The modification times that count as the same: five seconds, in
/// nanoseconds.
pub const TOLERANCE_NANOSECONDS: u128 = 5_000_000_000;

/// The distance between two points in time.
pub open spec fn distance(a: int, b: int) -> int {
    if a >= b {
        a - b
    } else {
        b - a
    }
}

/// What the store answers for a file that it knows with the modification
/// time `stored`, or does not know, when the file was modified at
/// `modified_at`. Times are nanoseconds since the epoch.
pub open spec fn sync_result(stored: Option<i128>, modified_at: i128) -> FileStatusSyncResult {
    match stored {
        None => FileStatusSyncResult::Created,
        Some(known) => if distance(known as int, modified_at as int) > TOLERANCE_NANOSECONDS {
            FileStatusSyncResult::Modified
        } else {
            FileStatusSyncResult::NotModified
        },
    }
}

/// Whether the modification time of the store has to be written anew.
pub open spec fn writes_time(result: FileStatusSyncResult) -> bool {
    !(result is NotModified)
}

fn magnitude(value: i128) -> (size: u128)
    ensures
        size == if value >= 0 {
            value as int
        } else {
            -(value as int)
        },
{
    if value >= 0 {
        value as u128
    } else if value == i128::MIN {
        0x8000_0000_0000_0000_0000_0000_0000_0000u128
    } else {
        (-value) as u128
    }
}

/// Decides what synchronising a file finds.
pub fn sync(stored: Option<i128>, modified_at: i128) -> (result: FileStatusSyncResult)
    ensures
        result == sync_result(stored, modified_at),
{
    match stored {
        None => FileStatusSyncResult::Created,
        Some(known) => {
            let apart: u128 = if (known >= 0) == (modified_at >= 0) {
                if known >= modified_at {
                    (known - modified_at) as u128
                } else {
                    (modified_at - known) as u128
                }
            } else {
                magnitude(known) + magnitude(modified_at)
            };
            assert(apart == distance(known as int, modified_at as int));
            if apart > TOLERANCE_NANOSECONDS {
                FileStatusSyncResult::Modified
            } else {
                FileStatusSyncResult::NotModified
            }
        },
    }
}

} // verus!
