//! Verified core of a diagnostic vehicle simulator.
//!
//! The crate holds everything the simulator decides and computes: the vehicle model, the CAN and
//! ISO-TP layers, the response scheduler, the DoIP entity, capture reading, and the rules behind
//! the HTTP surface. Sockets, serial ports, clocks, files and JSON stay outside it.
#![allow(non_snake_case, non_upper_case_globals)]

pub mod api;
pub mod application;
pub mod arguments_laws;
pub mod bridge;
pub mod bytes;
pub mod can;
pub mod cli;
pub mod clock;
pub mod clock_laws;
pub mod core_domain;
pub mod doip;
pub mod doip_server;
pub mod ecu;
pub mod isotp;
pub mod order;
pub mod pcap;
pub mod simulation;
pub mod slcan;
pub mod slcan_laws;
pub mod text;
pub mod text_laws;
