//! A polled, programmed-I/O driver core for an ATA block device.
//!
//! The library holds every decision of the protocol: which register is
//! touched next, with which value, and what a value read back means. The
//! host performs the port accesses that a [`session::Session`] asks for and
//! hands the values read back to it.
//!
//! - [`registers`]: the registers of a channel and their port addresses.
//! - [`address`]: drive selection and the bytes of a 28-bit block address.
//! - [`status`]: the bits of the status register.
//! - [`words`]: data words and the bytes they carry.
//! - [`protocol`]: the protocol as a transition system.
//! - [`session`]: the executable operation, proved to follow the protocol.
//! - [`traces`]: what holds of every run of an operation.
//! - [`operations`]: identification, reading and writing from end to end.

pub mod address;
pub mod operations;
pub mod protocol;
pub mod registers;
pub mod session;
pub mod status;
pub mod traces;
pub mod words;
