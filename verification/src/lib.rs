//! Verified core of a subprocess session manager.
//!
//! The library launches external commands as long-lived tool servers,
//! exchanges newline-delimited messages with them over their standard
//! streams, and exposes four operations to the embedding application:
//! start, send, stop and list.  Everything that decides — identifier
//! generation, the platform spawn policy, the registry of live sessions,
//! line framing and the classification of send outcomes — lives here and
//! is verified; the embedding shell only performs the operating-system
//! calls the contracts describe.

pub mod errors;
pub mod ids;
pub mod launcher;
pub mod lines;
pub mod pipes;
pub mod registry;
