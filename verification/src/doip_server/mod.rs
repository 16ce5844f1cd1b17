//! The DoIP entity: the simulated vehicle, on an Ethernet wire.
//!
//! `entity` decides: it holds the connection table and answers messages, with no sockets and no
//! clock of its own. `framing` finds the messages in a byte stream.

pub mod answer_laws;
pub mod entity;
pub mod framing;
pub mod observer;
pub mod settings;
pub mod settings_laws;
pub mod table;
pub mod tester_laws;
