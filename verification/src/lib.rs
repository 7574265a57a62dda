//! A resilient request/response protocol engine for a half-duplex SPI link
//! between an initiator and a slower peer, with one out-of-band "ready" line.
//!
//! The engine frames typed payloads with a length and an additive checksum,
//! drives a chunked two-phase exchange sized to the peer's small receive
//! FIFO, repairs desynchronization by pulsing the select line, retries
//! recoverable failures under a bounded attempt budget, and layers a small
//! firmware-update sub-protocol plus an optional bulk-transfer diagnostic
//! mode on top of the retry engine.
//!
//! The physical bus is reached only through the [`transport::Transport`]
//! trait, whose contracts record every bus operation in a ghost event log;
//! all protocol logic above that boundary is verified.

pub mod engine;
pub mod frame;
pub mod msg;
pub mod reply;
pub mod sim;
pub mod transport;

use vstd::prelude::*;

verus! {

/// Bytes of a frame header: tag (1), payload length (2, little endian),
/// checksum (2, little endian).
pub const HEADER_SIZE: usize = 5;

/// Largest payload a write-block request carries: a 4-byte block number
/// followed by one block of at most `MAX_BLOCK_SIZE` bytes.
pub const MAX_PAYLOAD_SIZE: usize = 1028;

/// Largest block accepted by `write_one_block`.
pub const MAX_BLOCK_SIZE: usize = 1024;

/// Size of one frame buffer: header plus the largest payload.
pub const BUF_SIZE: usize = 1033;

/// Bytes the peer's receive FIFO can absorb in one burst.
pub const ROT_FIFO_SIZE: usize = 8;

/// Ticks to wait for the ready signal on quick operations.
pub const TIMEOUT_QUICK: u32 = 250;

/// Ticks to wait for the ready signal on arbitrary messages.
pub const TIMEOUT_MAX: u32 = 500;

/// Ticks to wait for the ready signal after sending one update block.
pub const TIMEOUT_WRITE_ONE_BLOCK: u32 = 500;

/// Ticks slept between two attempts of the retry engine.
pub const RETRY_TIMEOUT: u64 = 100;

/// Ticks slept between the FIFO-sized first part of a transfer and the
/// remainder, giving the peer time to drain its FIFO.
pub const PART2_DELAY: u64 = 2;

/// Attempt budget for one update block write.
pub const MAX_UPDATE_ATTEMPTS: u16 = 3;

/// Attempt budget for one bulk-transfer request.
pub const MAX_SINKREQ_ATTEMPTS: u16 = 3;

} // verus!
