//! The tools of the repository.

pub mod commit_verifier;
