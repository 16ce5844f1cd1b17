//! ISO-TP (ISO 15765-2): offline reassembly, live receive and live transmit.
//!
//! [`reassembly`] reads a finished exchange after the fact and never generates anything;
//! [`rx`] and [`tx`] are the two halves of a live conversation. [`laws`] relates the three, and
//! [`transfer_laws`] says what a whole transfer sends.

pub mod errors;
pub mod frame_laws;
pub mod laws;
pub mod params;
pub mod reassembly;
pub mod rx;
pub mod transfer_laws;
pub mod tx;
