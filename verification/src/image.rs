//! The image value the transformations operate on: a flattened pixel
//! buffer together with its dimensions, stored pixel format and optional
//! provenance string.

use vstd::prelude::*;

use crate::transformations::crop;
use crate::transformations::crop_spec;
use crate::transformations::grayscale;
use crate::transformations::luma;
use crate::transformations::pixel_size_spec;
use crate::transformations::transpose;
use crate::transformations::Transformation;

verus! {

/// The layout of one pixel in the flattened buffer.
#[derive(Debug, Clone, Copy, PartialEq, Eq, Structural)]
pub enum PixelFormat {
    /// Plain three-channel color.
    RGB,
    /// Luminance and chroma, as decoded from a compressed photo.
    YCbCr,
    /// Single-channel intensity.
    Grayscale,
    /// Color with an alpha channel.
    RGBA,
    /// Intensity with an alpha channel.
    GrayscaleA,
}

/// Auxiliary image metadata; nothing is recorded yet.
#[derive(Debug, Clone)]
pub struct MetaData {}

/// An image: its flattened pixel buffer, dimensions, stored pixel format,
/// metadata, and the provenance string of a previous transformation, if
/// one accompanied the file.
#[derive(Debug, Clone)]
pub struct Image {
    pub buffer: Vec<u8>,
    pub width: u32,
    pub height: u32,
    pub color_type: PixelFormat,
    pub metadata: MetaData,
    pub prev_proof: Option<String>,
}

impl Image {
    /// Wraps a raw buffer as an image with no metadata and no provenance.
    pub fn raw_image(buffer: Vec<u8>, width: u32, height: u32, color_type: PixelFormat) -> (img:
        Self)
        ensures
            img.buffer@ == buffer@,
            img.width == width,
            img.height == height,
            img.color_type == color_type,
            img.prev_proof is None,
    {
        Self { buffer, width, height, color_type, metadata: MetaData {  }, prev_proof: None }
    }

    /// The inputs on which a transformation of this image is defined: the
    /// buffer must hold whole pixels for a grayscale conversion, and a
    /// crop window must be ordered and lie within the buffer.
    pub open spec fn can_apply(self, transformation: Transformation) -> bool {
        match transformation {
            Transformation::Grayscale => {
                &&& self.color_type is RGB ==> self.buffer@.len() % 3 == 0
                &&& self.color_type is RGBA ==> self.buffer@.len() % 4 == 0
            },
            Transformation::Crop(x0, y0, x1, y1) => {
                &&& x0 <= x1
                &&& y0 <= y1
                &&& x0 < x1 && y0 < y1 ==> (y1 as int) * (x1 as int) <= u32::MAX
                &&& x0 < x1 && y0 < y1 ==> (y1 as int) * (x1 as int) * pixel_size_spec(
                    self.color_type,
                ) <= self.buffer@.len()
            },
            Transformation::Transpose => true,
        }
    }

    /// Applies one transformation, producing a fresh image: a grayscale
    /// conversion keeps the dimensions and takes the converted format, a
    /// crop takes the window's dimensions, and a transposition keeps the
    /// buffer while swapping width and height. Any provenance string the
    /// source image carried is dropped: a transformed image starts a new
    /// proof chain.
    pub fn apply_transformation(&self, transformation: Transformation) -> (img: Image)
        requires
            self.can_apply(transformation),
        ensures
            img.prev_proof is None,
            match transformation {
                Transformation::Grayscale => {
                    &&& (img.buffer@, img.color_type) == grayscale_spec_of(
                        self.buffer@,
                        self.color_type,
                    )
                    &&& img.width == self.width
                    &&& img.height == self.height
                },
                Transformation::Crop(x0, y0, x1, y1) => {
                    &&& img.buffer@ == crop_spec(
                        self.buffer@,
                        self.color_type,
                        x0 as int,
                        y0 as int,
                        x1 as int,
                        y1 as int,
                    )
                    &&& img.width == x1 - x0
                    &&& img.height == y1 - y0
                    &&& img.color_type == self.color_type
                },
                Transformation::Transpose => {
                    &&& img.buffer@ == self.buffer@
                    &&& img.width == self.height
                    &&& img.height == self.width
                    &&& img.color_type == self.color_type
                },
            },
    {
        match transformation {
            Transformation::Grayscale => {
                let (new_buff, format) = grayscale(&self.buffer, self.color_type);
                Image::raw_image(new_buff, self.width, self.height, format)
            },
            Transformation::Crop(x0, y0, x1, y1) => {
                let new_buff = crop(&self.buffer, self.color_type, x0, y0, x1, y1);
                Image::raw_image(new_buff, x1 - x0, y1 - y0, self.color_type)
            },
            Transformation::Transpose => {
                let new_buff = transpose(&self.buffer);
                Image::raw_image(new_buff, self.height, self.width, self.color_type)
            },
        }
    }
}

/// What the grayscale conversion produces for each stored format; the
/// converted buffer is pinned pointwise by `grayscale`'s own contract.
pub open spec fn grayscale_spec_of(buf: Seq<u8>, pf: PixelFormat) -> (Seq<u8>, PixelFormat) {
    match pf {
        PixelFormat::RGB => (
            Seq::new((buf.len() / 3) as nat, |i: int| luma(buf[3 * i], buf[3 * i + 1], buf[3 * i + 2])),
            PixelFormat::Grayscale,
        ),
        PixelFormat::RGBA => (
            Seq::new(
                (buf.len() / 2) as nat,
                |j: int|
                    if j % 2 == 0 {
                        luma(buf[2 * j], buf[2 * j + 1], buf[2 * j + 2])
                    } else {
                        buf[2 * j + 1]
                    },
            ),
            PixelFormat::GrayscaleA,
        ),
        PixelFormat::Grayscale => (buf, PixelFormat::Grayscale),
        PixelFormat::GrayscaleA => (buf, PixelFormat::GrayscaleA),
        PixelFormat::YCbCr => (
            Seq::new(((buf.len() + 2) / 3) as nat, |i: int| buf[3 * i]),
            PixelFormat::Grayscale,
        ),
    }
}

} // verus!
