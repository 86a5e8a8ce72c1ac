//! The named failures of the canvas core. Every store and codec operation
//! returns either a success value or one of these; none of them panics, and
//! none of them aborts a connection on its own.

use vstd::prelude::*;
use vstd::string::StringExecFns;

use crate::decimal::{append_dec, dec_chars};

verus! {

/// Which coordinate of a cell address broke its bound.
#[derive(Clone, Copy, PartialEq, Eq, Structural, Debug)]
pub enum Axis {
    X,
    Y,
}

/// The name of the coordinate on `a`, as it appears in messages.
pub open spec fn axis_chars(a: Axis) -> Seq<char> {
    match a {
        Axis::X => "x"@,
        Axis::Y => "y"@,
    }
}

/// The name of the bound on `a`, as it appears in messages.
pub open spec fn bound_chars(a: Axis) -> Seq<char> {
    match a {
        Axis::X => "width"@,
        Axis::Y => "height"@,
    }
}

/// A rejected cell address: `value` on `axis` was not below `limit`.
/// Recoverable; returned to the caller and never mutates the grid.
#[derive(Clone, Copy, PartialEq, Eq, Structural, Debug)]
pub struct OutOfBounds {
    pub axis: Axis,
    pub limit: u16,
    pub value: u16,
}

/// The message text of an [`OutOfBounds`] failure, e.g.
/// `x out of bounds: the width is 10 but the x is 10`.
pub open spec fn out_of_bounds_chars(axis: Axis, limit: u16, value: u16) -> Seq<char> {
    axis_chars(axis) + " out of bounds: the "@ + bound_chars(axis) + " is "@ + dec_chars(
        limit as nat,
    ) + " but the "@ + axis_chars(axis) + " is "@ + dec_chars(value as nat)
}

impl OutOfBounds {
    /// Renders the human-readable message sent back over the wire.
    pub fn message(&self) -> (m: String)
        ensures
            m@ == out_of_bounds_chars(self.axis, self.limit, self.value),
    {
        let mut m = String::new();
        match self.axis {
            Axis::X => m.append("x"),
            Axis::Y => m.append("y"),
        }
        m.append(" out of bounds: the ");
        match self.axis {
            Axis::X => m.append("width"),
            Axis::Y => m.append("height"),
        }
        m.append(" is ");
        append_dec(&mut m, self.limit as u64);
        m.append(" but the ");
        match self.axis {
            Axis::X => m.append("x"),
            Axis::Y => m.append("y"),
        }
        m.append(" is ");
        append_dec(&mut m, self.value as u64);
        proof {
            assert(m@ =~= out_of_bounds_chars(self.axis, self.limit, self.value));
        }
        m
    }
}

/// Why a received frame could not be decoded. Per-connection recoverable:
/// answered with an error frame, and the connection stays open.
#[derive(Clone, Copy, PartialEq, Eq, Structural, Debug)]
pub enum DecodeError {
    /// The frame ends before all fields of its variant are present.
    Truncated,
    /// The frame carries bytes beyond the end of its variant's fields.
    Trailing,
    /// The frame's discriminant names no known variant.
    UnknownTag { tag: u32 },
    /// The frame's string payload is not valid UTF-8.
    InvalidUtf8,
}

/// The message text of a [`DecodeError`].
pub open spec fn decode_error_chars(e: DecodeError) -> Seq<char> {
    match e {
        DecodeError::Truncated => "truncated frame"@,
        DecodeError::Trailing => "trailing bytes after frame"@,
        DecodeError::UnknownTag { tag } => "unknown frame tag: "@ + dec_chars(tag as nat),
        DecodeError::InvalidUtf8 => "invalid utf-8 in frame"@,
    }
}

impl DecodeError {
    /// Renders the human-readable message sent back over the wire.
    pub fn message(&self) -> (m: String)
        ensures
            m@ == decode_error_chars(*self),
    {
        match self {
            DecodeError::Truncated => {
                let mut m = String::new();
                m.append("truncated frame");
                proof {
                    assert(m@ =~= decode_error_chars(*self));
                }
                m
            },
            DecodeError::Trailing => {
                let mut m = String::new();
                m.append("trailing bytes after frame");
                proof {
                    assert(m@ =~= decode_error_chars(*self));
                }
                m
            },
            DecodeError::UnknownTag { tag } => {
                let mut m = String::new();
                m.append("unknown frame tag: ");
                append_dec(&mut m, *tag as u64);
                proof {
                    assert(m@ =~= decode_error_chars(*self));
                }
                m
            },
            DecodeError::InvalidUtf8 => {
                let mut m = String::new();
                m.append("invalid utf-8 in frame");
                proof {
                    assert(m@ =~= decode_error_chars(*self));
                }
                m
            },
        }
    }
}

/// A backing snapshot whose byte length does not match the configured grid.
/// Fatal at startup: the store cannot serve without a valid starting grid.
#[derive(Clone, Copy, PartialEq, Eq, Structural, Debug)]
pub struct SizeMismatch {
    pub expected: usize,
    pub actual: usize,
}

/// The message text of a [`SizeMismatch`], e.g.
/// `snapshot has 3 bytes but the canvas needs 100`.
pub open spec fn size_mismatch_chars(expected: usize, actual: usize) -> Seq<char> {
    "snapshot has "@ + dec_chars(actual as nat) + " bytes but the canvas needs "@ + dec_chars(
        expected as nat,
    )
}

impl SizeMismatch {
    /// Renders the human-readable message reported at startup.
    pub fn message(&self) -> (m: String)
        ensures
            m@ == size_mismatch_chars(self.expected, self.actual),
    {
        let mut m = String::new();
        m.append("snapshot has ");
        append_dec(&mut m, self.actual as u64);
        m.append(" bytes but the canvas needs ");
        append_dec(&mut m, self.expected as u64);
        proof {
            assert(m@ =~= size_mismatch_chars(self.expected, self.actual));
        }
        m
    }
}

} // verus!
