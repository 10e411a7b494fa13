//! Supervised retry loop around an external command-line coding agent.
//!
//! The library holds the logic of the loop: exact substring detection of a
//! completion marker, the merged output buffer of the agent's two streams,
//! prompt assembly, configuration validation, the iteration state machine,
//! and the controller's messages. Spawning the agent, draining its pipes and
//! sleeping between attempts are left to the surrounding binary, which feeds
//! their results into the functions here.

pub mod buffer;
pub mod config;
pub mod controller;
pub mod messages;
pub mod prompt;
pub mod text;
