//! What the services share: mounts, secrets and the answer of the event
//! service.

pub mod events;
pub mod mounts;
pub mod secrets;
