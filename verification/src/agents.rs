//! The agents that run beside the services.

pub mod filesystem;
