//! Core of the Cemuhook DSU (DualShock UDP) gamepad-motion protocol.
//!
//! The wire codec encodes and decodes every protocol message, with a
//! CRC-32 (IEEE) self-checksum, and the server and client engines keep
//! the subscription registry, slot caches and event queue that the
//! background I/O loops of an application drive.

pub mod client;
pub mod protocol;
pub mod server;

mod rng;
