//! Configuration values the canvas core consumes. The surrounding layers own
//! the parsing of a configuration file; the core only receives the validated
//! values below.

use vstd::prelude::*;

verus! {

/// How and where the canvas is persisted.
#[derive(Debug, Clone)]
pub struct CanvasSaveConfig {
    /// Milliseconds between two periodic saves.
    pub interval: u64,
    /// Path of the backing snapshot file, for the layer doing the file I/O.
    pub path: String,
}

/// Dimensions and persistence settings of the canvas.
#[derive(Debug, Clone)]
pub struct CanvasConfig {
    pub width: u16,
    pub height: u16,
    pub save: CanvasSaveConfig,
}

impl CanvasConfig {
    /// Number of cells of a canvas with these dimensions, and therefore the
    /// exact byte length of a valid backing snapshot.
    pub open spec fn spec_size(&self) -> int {
        self.width * self.height
    }

    /// Computes `width * height` without overflow: both factors fit in 16
    /// bits, so the product fits in any `usize`.
    pub fn size(&self) -> (n: usize)
        ensures
            n == self.spec_size(),
    {
        proof {
            assert(self.width * self.height <= 65535 * 65535) by (nonlinear_arith)
                requires
                    self.width <= 65535,
                    self.height <= 65535,
            ;
        }
        (self.width as usize) * (self.height as usize)
    }
}

} // verus!
