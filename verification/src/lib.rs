//! A shared, persistent pixel canvas: a fixed-size grid of single-byte color
//! cells that many concurrent clients read and mutate over a binary wire
//! protocol, with every successful mutation broadcast to all registered
//! listeners.
//!
//! The crate holds the canvas store (bounds-checked cell access, the listener
//! set, snapshot load/save), the wire codec for the framed protocol, and the
//! per-connection session state machine with its liveness-probe cycle.
//! Transport, file I/O and timers live outside; they hand this crate plain
//! bytes and values and carry its decisions out.

pub mod canvas;
pub mod codec;
pub mod config;
pub mod decimal;
pub mod errors;
pub mod session;

use vstd::prelude::*;

verus! {

/// A cell coordinate on either axis.
pub type Coord = u16;

/// The value of one cell: an opaque 8-bit color.
pub type Color = u8;

} // verus!
