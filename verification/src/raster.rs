//! Decoded images: rows of RGB pixels, one byte per channel.

use vstd::prelude::*;
use crate::limits::MAX_MOSAIC_SIZE;

verus! {

/// What a raster is: its size and its channel bytes, row after row, each
/// pixel as red, green, blue.
pub struct RasterView {
    pub width: u32,
    pub height: u32,
    pub data: Seq<u8>,
}

impl RasterView {
    /// The raster has pixels, three bytes for each of them, and is not too
    /// wide for this machine: a mosaic is made by way of a buffer that holds
    /// three bytes for each column of the raster and each row of the mosaic,
    /// and the length of the largest such buffer must be a `usize`.
    pub open spec fn wf(self) -> bool {
        &&& self.width >= 1
        &&& self.height >= 1
        &&& self.data.len() == 3 * self.width * self.height
        &&& 3 * self.width * MAX_MOSAIC_SIZE <= usize::MAX
    }
}

/// A decoded image. Every value of this type is well-formed: it has at
/// least one pixel, holds exactly three bytes per pixel, and a mosaic of any
/// size can be made of it.
#[derive(Debug)]
pub struct Raster {
    width: u32,
    height: u32,
    data: Vec<u8>,
}

impl View for Raster {
    type V = RasterView;

    closed spec fn view(&self) -> RasterView {
        RasterView { width: self.width, height: self.height, data: self.data@ }
    }
}

impl Raster {
    #[verifier::type_invariant]
    spec fn well_formed(self) -> bool {
        self@.wf()
    }

    /// The raster of the given size over `data`, where that is well-formed:
    /// there is at least one pixel and `data` holds three bytes for each.
    /// On a machine with addresses of 64 bits no width is too large.
    pub fn new(width: u32, height: u32, data: Vec<u8>) -> (raster: Option<Raster>)
        ensures
            match raster {
                Some(raster) => raster@ == (RasterView { width, height, data: data@ })
                    && raster@.wf(),
                None => !(RasterView { width, height, data: data@ }).wf(),
            },
    {
        if width == 0 || height == 0 {
            return None;
        }
        assert(width * height <= 0xffff_ffff * 0xffff_ffff) by (nonlinear_arith)
            requires
                0 <= width <= 0xffff_ffff,
                0 <= height <= 0xffff_ffff,
        ;
        assert(3 * (width * height) == 3 * width * height) by (nonlinear_arith);
        let needed: u128 = 3 * (width as u128 * height as u128);
        if data.len() as u128 != needed {
            return None;
        }
        let widest: u128 = 3 * width as u128 * MAX_MOSAIC_SIZE as u128;
        if widest > usize::MAX as u128 {
            return None;
        }
        Some(Raster { width, height, data })
    }

    /// The number of pixels in a row.
    pub fn width(&self) -> (width: u32)
        ensures
            width == self@.width,
            self@.wf(),
    {
        proof {
            use_type_invariant(self);
        }
        self.width
    }

    /// The number of rows.
    pub fn height(&self) -> (height: u32)
        ensures
            height == self@.height,
            self@.wf(),
    {
        proof {
            use_type_invariant(self);
        }
        self.height
    }

    /// The channel bytes, row after row.
    pub fn data(&self) -> (data: &Vec<u8>)
        ensures
            data@ == self@.data,
            self@.wf(),
    {
        proof {
            use_type_invariant(self);
        }
        &self.data
    }

    /// Takes the raster apart into width, height and channel bytes.
    pub fn into_parts(self) -> (parts: (u32, u32, Vec<u8>))
        ensures
            parts.0 == self@.width,
            parts.1 == self@.height,
            parts.2@ == self@.data,
            self@.wf(),
    {
        proof {
            use_type_invariant(&self);
        }
        (self.width, self.height, self.data)
    }
}

} // verus!
