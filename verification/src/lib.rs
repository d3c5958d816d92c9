//! Verified core of a small meme-upload service.
//!
//! The library holds the streaming multipart ingestion pipeline: locating the
//! configured form field, validating the declared media type, enforcing a byte
//! ceiling chunk by chunk, naming the stored file, and mapping every failure
//! to a distinct error. The surrounding HTTP server, filesystem and network
//! I/O live outside the library and drive it through the orchestrator's
//! state machine.

pub mod error;
pub mod gallery;
pub mod guard;
pub mod laws;
pub mod media;
pub mod meme;
pub mod naming;
pub mod orchestrator;
pub mod text;
