//! The resolved, positioned, ordered description of everything to paint for
//! one render request.

use vstd::prelude::*;

use crate::common::Point;
use crate::image::{ImageData, ImageModel};

verus! {

/// Describes a unit of work for rendering textures: one placed image.
#[derive(Debug)]
pub struct RenderPiece {
    /// The id: the same as the id of the doll or the fragment it shows.
    pub id: u32,
    /// The top left position of this texture.
    /// The top left corner of the doll is the origin.
    pub position: Point,
    /// The image data of the texture.
    pub image: ImageData,
}

/// The mathematical content of a render piece.
#[verifier::ext_equal]
pub struct RenderPieceModel {
    /// The id of the doll or fragment shown.
    pub id: u32,
    /// The top left position on the canvas.
    pub position: Point,
    /// The image payload.
    pub image: ImageModel,
}

impl View for RenderPiece {
    type V = RenderPieceModel;

    open spec fn view(&self) -> RenderPieceModel {
        RenderPieceModel { id: self.id, position: self.position, image: self.image@ }
    }
}

/// An intermediate representation that describes the structure of a paper
/// doll: canvas size, an optional background piece, and the slot pieces in
/// back-to-front paint order.
#[derive(Debug)]
pub struct RenderMaterial {
    /// The width of the paper doll in pixels.
    pub width: u32,
    /// The height of the paper doll in pixels.
    pub height: u32,
    /// The piece for the doll's background image, if any.
    pub doll: Option<RenderPiece>,
    /// The pieces for all slots in this doll, back to front.
    pub slots: Vec<RenderPiece>,
}

/// The mathematical content of a render material.
#[verifier::ext_equal]
pub struct RenderMaterialModel {
    /// The canvas width in pixels.
    pub width: u32,
    /// The canvas height in pixels.
    pub height: u32,
    /// The background piece, if any.
    pub doll: Option<RenderPieceModel>,
    /// The slot pieces, back to front.
    pub slots: Seq<RenderPieceModel>,
}

impl View for RenderMaterial {
    type V = RenderMaterialModel;

    open spec fn view(&self) -> RenderMaterialModel {
        RenderMaterialModel {
            width: self.width,
            height: self.height,
            doll: match self.doll {
                Some(p) => Some(p@),
                None => None,
            },
            slots: self.slots@.map_values(|p: RenderPiece| p@),
        }
    }
}

} // verus!
