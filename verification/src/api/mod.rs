//! What the HTTP interface says: reading what a caller sends, deciding, and describing the result.
//! Routing, sockets and the encoding of bodies are not here.

pub mod busy;
pub mod decision_laws;
pub mod diagnostics;
pub mod doip;
pub mod emitter;
pub mod error;
pub mod events;
pub mod hardware;
pub mod input;
pub mod input_laws;
pub mod overrides;
pub mod reading_laws;
pub mod shown_laws;
pub mod simulation;
pub mod stream_laws;
pub mod topology;
pub mod traffic;
