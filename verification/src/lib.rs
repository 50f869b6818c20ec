//! Move synchronisation between two chess clients over a raw byte stream:
//! role negotiation, a fixed-size framed wire format, move and board
//! serialisation, and the turn-gated receive loop.
//!
//! The library decides and computes; it reads no socket and knows no rules
//! of chess. Its caller owns the byte stream and the rules engine, and hands
//! over what they give.

pub mod error;
pub mod moves;
pub mod status;
pub mod board;
pub mod frame;
pub mod inbox;
pub mod player;
pub mod sync;
