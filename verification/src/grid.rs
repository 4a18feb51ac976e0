//! Grayscale pixel grids: the frame and marker images the matcher works on.
//!
//! A grid stores one byte per pixel in row-major order. Side lengths are
//! capped so that every correlation sum the matcher forms fits comfortably
//! in the machine integers it uses.

use vstd::prelude::*;

verus! {

/// Largest accepted side length of a grid (far beyond any real screen).
pub const DIM_MAX: usize = 0x8000;

/// A single-channel (grayscale) image: `width * height` pixel bytes in
/// row-major order.
#[derive(Clone, Debug)]
pub struct Grid {
    pub width: usize,
    pub height: usize,
    pub pixels: Vec<u8>,
}

/// The mathematical value of a grid: its dimensions and pixel sequence.
pub struct GridV {
    pub width: nat,
    pub height: nat,
    pub pixels: Seq<u8>,
}

impl View for Grid {
    type V = GridV;

    open spec fn view(&self) -> GridV {
        GridV { width: self.width as nat, height: self.height as nat, pixels: self.pixels@ }
    }
}

impl Grid {
    /// Shape invariant: the pixel buffer matches the stated dimensions and
    /// both sides are within the capacity cap.
    pub open spec fn wf(&self) -> bool {
        &&& self.width <= DIM_MAX
        &&& self.height <= DIM_MAX
        &&& self.pixels@.len() == self.width * self.height
    }

    /// Build a grid from raw row-major bytes. Returns `None` exactly when
    /// the buffer length does not match the dimensions or a side exceeds
    /// the capacity cap.
    pub fn new(width: usize, height: usize, pixels: Vec<u8>) -> (r: Option<Grid>)
        ensures
            r is Some <==> (width <= DIM_MAX && height <= DIM_MAX && pixels@.len()
                == width * height),
            r is Some ==> {
                &&& r->0.width == width
                &&& r->0.height == height
                &&& r->0.pixels@ == pixels@
                &&& r->0.wf()
            },
    {
        if width <= DIM_MAX && height <= DIM_MAX {
            proof {
                assert(width * height <= DIM_MAX * DIM_MAX) by (nonlinear_arith)
                    requires
                        width <= DIM_MAX,
                        height <= DIM_MAX,
                ;
            }
            let area: usize = width * height;
            if pixels.len() == area {
                return Some(Grid { width, height, pixels });
            }
        }
        None
    }
}

} // verus!
