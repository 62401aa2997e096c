//! Transfer orchestration for flashing firmware images onto an embedded
//! device over a two-phase channel: a serial bootloader handshake followed by
//! a fastboot-style block transport.
//!
//! The modules here hold the decision logic of that pipeline: splitting an
//! image into bounded upload parts, driving the chunked upload with
//! cooperative cancellation, sequencing hardware bring-up lines, polling for
//! device presence, and estimating commit progress. The I/O that surrounds
//! these decisions lives outside this crate.

pub mod args;
pub mod bringup;
pub mod discovery;
pub mod hex;
pub mod image;
pub mod interrupt;
pub mod plan;
pub mod progress;
pub mod upload;
