//! The answer of the event service to an event that was sent to it.

use vstd::prelude::*;

verus! {

/// Whether the service took the event.
#[derive(Debug, Clone, Copy, PartialEq, Eq, Structural)]
pub enum Status {
    Accepted,
    Failed,
}

/// The answer to one event.
#[derive(Debug, Clone, Copy, PartialEq, Eq, Structural)]
pub struct Response {
    pub status: Status,
}

/// Why an event was not sent.
#[derive(Debug, Clone, Copy, PartialEq, Eq, Structural)]
pub enum SendError {
    /// The service answered that it failed.
    ServerFailed,
}

/// What may be sent as an event.
pub trait Event {

}

/// What the answer of the service means for the sender: an event that the
/// service did not take is an error.
pub fn acknowledge(response: Response) -> (result: Result<(), SendError>)
    ensures
        result is Ok <==> response.status is Accepted,
        result is Err ==> result == Err::<(), SendError>(SendError::ServerFailed),
{
    match response.status {
        Status::Accepted => Ok(()),
        Status::Failed => Err(SendError::ServerFailed),
    }
}

} // verus!
