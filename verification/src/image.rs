//! Raster image payloads.

use vstd::prelude::*;

use crate::common::copy_bytes;

verus! {

/// Types of the color used in the paper doll model.
#[derive(Clone, Copy, Debug, PartialEq, Eq, Structural)]
pub enum ColorType {
    /// 8-bit red, green, blue and alpha channels, in that byte order.
    Rgba,
}

impl ColorType {
    /// The default color type.
    pub open spec fn spec_default() -> Self {
        ColorType::Rgba
    }
}

impl Default for ColorType {
    fn default() -> (r: Self)
        ensures
            r == ColorType::spec_default(),
    {
        ColorType::Rgba
    }
}

/// The data used in images.
#[derive(Debug)]
pub struct ImageData {
    /// The width of the image in pixels.
    pub width: u32,
    /// The height of the image in pixels.
    pub height: u32,
    /// Type of the color used in the image.
    pub color_type: ColorType,
    /// The actual pixel data of the image.
    pub pixels: Vec<u8>,
}

/// The mathematical content of an image payload.
#[verifier::ext_equal]
pub struct ImageModel {
    /// The declared width in pixels.
    pub width: u32,
    /// The declared height in pixels.
    pub height: u32,
    /// The color type.
    pub color_type: ColorType,
    /// The raw bytes of the payload.
    pub pixels: Seq<u8>,
}

impl View for ImageData {
    type V = ImageModel;

    open spec fn view(&self) -> ImageModel {
        ImageModel {
            width: self.width,
            height: self.height,
            color_type: self.color_type,
            pixels: self.pixels@,
        }
    }
}

impl ImageModel {
    /// The content of an image with no payload and zero extent.
    pub open spec fn spec_default() -> Self {
        ImageModel { width: 0, height: 0, color_type: ColorType::Rgba, pixels: Seq::empty() }
    }

    /// An image is empty when it carries no pixel bytes.
    pub open spec fn is_empty(self) -> bool {
        self.pixels.len() == 0
    }
}

impl ImageData {
    /// Is this an empty image?
    pub fn is_empty(&self) -> (r: bool)
        ensures
            r == self@.is_empty(),
    {
        self.pixels.len() == 0
    }
}

impl Default for ImageData {
    fn default() -> (r: Self)
        ensures
            r@ == ImageModel::spec_default(),
    {
        let r = ImageData { width: 0, height: 0, color_type: ColorType::Rgba, pixels: Vec::new() };
        proof {
            assert(r@.pixels =~= Seq::<u8>::empty());
        }
        r
    }
}

impl Clone for ImageData {
    fn clone(&self) -> (res: Self)
        ensures
            res@ == self@,
    {
        ImageData {
            width: self.width,
            height: self.height,
            color_type: self.color_type,
            pixels: copy_bytes(&self.pixels),
        }
    }
}

} // verus!
