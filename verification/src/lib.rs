//! A small RPC fabric for services that talk over one ordered byte stream.
//!
//! * [`rpc_support`] is the runtime: frames and their codec, the table of
//!   pending requests, the routing of inbound frames, the frame sequences
//!   that answer a request, and what holds of them for every sequence of
//!   frames. The line protocol with envelopes lives there too.
//! * [`message_compiler`] turns interface definitions into checked files:
//!   grammar, type checker and the spelling of types in generated Rust.
//! * [`event_compiler`] does the same for event definitions and writes the
//!   Rust source of a checked file.
//! * [`platform`], [`directory_watcher`], [`event_service`], [`events`],
//!   [`music`], [`agents`] and [`tools`] hold the rules of the services and tools around the
//!   runtime, as far as they are decisions on plain values.
//! * [`lexer`], [`graph`], [`paths`] and [`text`] are shared helpers.
//!
//! Nothing in the library reads or writes a byte stream, waits, or spawns a
//! task: the program around it moves the bytes and calls in for every
//! decision.

pub mod agents;
pub mod directory_watcher;
pub mod event_compiler;
pub mod event_service;
pub mod events;
pub mod graph;
pub mod lexer;
pub mod message_compiler;
pub mod music;
pub mod paths;
pub mod platform;
pub mod rpc_support;
pub mod text;
pub mod tools;
