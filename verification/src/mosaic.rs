//! Mosaics: small square rasters that stand for an image when images are
//! compared.
//!
//! A mosaic is made by resampling the whole image to a square of a few
//! pixels a side. Images of any shape are stretched to the square.

use vstd::prelude::*;
use image::imageops::FilterType;
use image::{DynamicImage, RgbImage};
use crate::limits::{MAX_MOSAIC_SIZE, MIN_MOSAIC_SIZE};
use crate::raster::Raster;

verus! {

/// What a mosaic is: its side length and its channel bytes, row after row,
/// each pixel as red, green, blue.
pub struct MosaicView {
    pub side: u32,
    pub data: Seq<u8>,
}

impl MosaicView {
    /// The side is within its bounds and there are three bytes per pixel.
    pub open spec fn wf(self) -> bool {
        &&& MIN_MOSAIC_SIZE <= self.side <= MAX_MOSAIC_SIZE
        &&& self.data.len() == 3 * self.side * self.side
    }

    /// How many pixels the mosaic has.
    pub open spec fn pixels(self) -> int {
        self.side * self.side
    }
}

/// The fingerprint of an image. Every value of this type has a side within
/// the bounds of the mosaic size and holds exactly three bytes per pixel.
#[derive(Debug)]
pub struct Mosaic {
    side: u32,
    data: Vec<u8>,
}

impl View for Mosaic {
    type V = MosaicView;

    closed spec fn view(&self) -> MosaicView {
        MosaicView { side: self.side, data: self.data@ }
    }
}

/// The channel bytes that `DynamicImage::resize_exact` with the Gaussian
/// filter computes for an RGB image of the given size and bytes, resized to a
/// square of `side` pixels a side.
pub uninterp spec fn gaussian_resize(width: u32, height: u32, data: Seq<u8>, side: u32) -> Seq<u8>;

/// `DynamicImage::resize_exact` with `FilterType::Gaussian` on an RGB image
/// built from `data`, read back with `DynamicImage::to_rgb8`. Nothing is
/// proved of this function. Its contract is taken on trust: it names the
/// resampled bytes and states their number, since the result is `side` pixels
/// wide and high. The crate resamples the columns first, into a buffer of
/// `3 * width * side` bytes that must fit in memory, and panics on an image
/// without pixels: the preconditions keep both away.
#[verifier::external_body]
fn resize_exact_gaussian(width: u32, height: u32, data: Vec<u8>, side: u32) -> (resized: Vec<u8>)
    requires
        width >= 1,
        height >= 1,
        data@.len() == 3 * width * height,
        MIN_MOSAIC_SIZE <= side <= MAX_MOSAIC_SIZE,
        3 * width * side <= usize::MAX,
    ensures
        resized@ == gaussian_resize(width, height, data@, side),
        resized@.len() == 3 * side * side,
{
    let source = DynamicImage::ImageRgb8(RgbImage::from_raw(width, height, data).unwrap());
    source.resize_exact(side, side, FilterType::Gaussian).to_rgb8().into_raw()
}

impl Mosaic {
    #[verifier::type_invariant]
    spec fn well_formed(self) -> bool {
        self@.wf()
    }

    /// The mosaic of the given side over `data`, where the side is within
    /// its bounds and `data` holds three bytes for each pixel.
    pub fn new(side: u32, data: Vec<u8>) -> (mosaic: Option<Mosaic>)
        ensures
            match mosaic {
                Some(mosaic) => mosaic@ == (MosaicView { side, data: data@ }) && mosaic@.wf(),
                None => !(MosaicView { side, data: data@ }).wf(),
            },
    {
        if side < MIN_MOSAIC_SIZE || side > MAX_MOSAIC_SIZE {
            return None;
        }
        assert(3 * side * side <= 3 * 12 * 12) by (nonlinear_arith)
            requires
                0 <= side <= 12,
        ;
        if data.len() != (3 * side * side) as usize {
            return None;
        }
        Some(Mosaic { side, data })
    }

    /// The number of pixels in a row and in a column.
    pub fn side(&self) -> (side: u32)
        ensures
            side == self@.side,
            self@.wf(),
    {
        proof {
            use_type_invariant(self);
        }
        self.side
    }

    /// The channel bytes, row after row.
    pub fn data(&self) -> (data: &Vec<u8>)
        ensures
            data@ == self@.data,
            self@.wf(),
    {
        proof {
            use_type_invariant(self);
        }
        &self.data
    }
}

/// What the mosaic of side `mosaic_size` of an image is.
pub open spec fn mosaic_of(image: crate::raster::RasterView, mosaic_size: u32) -> MosaicView {
    MosaicView {
        side: mosaic_size,
        data: gaussian_resize(image.width, image.height, image.data, mosaic_size),
    }
}

/// Makes the mosaic of `image`: the image resampled to a square of
/// `mosaic_size` pixels a side, each pixel a weighted mean of the image
/// around it. The same image and size give the same mosaic.
pub fn make_mosaic(image: Raster, mosaic_size: u32) -> (mosaic: Mosaic)
    requires
        MIN_MOSAIC_SIZE <= mosaic_size <= MAX_MOSAIC_SIZE,
    ensures
        mosaic@ == mosaic_of(image@, mosaic_size),
        mosaic@.wf(),
{
    let (width, height, data) = image.into_parts();
    assert(3 * width * mosaic_size <= 3 * width * MAX_MOSAIC_SIZE) by (nonlinear_arith)
        requires
            0 <= width,
            0 <= mosaic_size <= MAX_MOSAIC_SIZE,
    ;
    let resized = resize_exact_gaussian(width, height, data, mosaic_size);
    Mosaic { side: mosaic_size, data: resized }
}

} // verus!
