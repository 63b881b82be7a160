//! Dolls: the fundamental parts of the paper doll model.

use vstd::prelude::*;

use crate::common::{copy_ids, Point};
use crate::image::{ImageData, ImageModel};

verus! {

/// The fundamental part of the paper doll model.
///
/// A doll owns a canvas, an ordered list of slot ids, and an optional
/// background image.
#[derive(Debug)]
pub struct Doll {
    /// The id of this doll. Store operations never change it;
    /// it identifies the entity within its kind.
    pub id: u32,
    /// The description of the doll.
    pub desc: String,
    /// The width of the doll in pixels.
    pub width: u32,
    /// The height of the doll in pixels.
    pub height: u32,
    /// The offset of the background image of the doll.
    pub offset: Point,
    /// A list of id of [slots](crate::Slot) those can be used in the doll.
    pub slots: Vec<u32>,
    /// The path of the background image.
    ///
    /// Leave empty if no background.
    pub path: String,
    /// The data of the background image.
    pub image: ImageData,
}

/// The mathematical content of a doll.
#[verifier::ext_equal]
pub struct DollModel {
    /// The id of the doll.
    pub id: u32,
    /// The description.
    pub desc: Seq<char>,
    /// The canvas width in pixels.
    pub width: u32,
    /// The canvas height in pixels.
    pub height: u32,
    /// The offset of the background image.
    pub offset: Point,
    /// The ordered list of slot ids belonging to the doll.
    pub slots: Seq<u32>,
    /// The path of the background image.
    pub path: Seq<char>,
    /// The background image payload.
    pub image: ImageModel,
}

impl View for Doll {
    type V = DollModel;

    open spec fn view(&self) -> DollModel {
        DollModel {
            id: self.id,
            desc: self.desc@,
            width: self.width,
            height: self.height,
            offset: self.offset,
            slots: self.slots@,
            path: self.path@,
            image: self.image@,
        }
    }
}

impl DollModel {
    /// The content of a freshly created doll carrying the given id.
    pub open spec fn spec_new(id: u32) -> Self {
        DollModel {
            id,
            desc: Seq::empty(),
            width: 0,
            height: 0,
            offset: Point::spec_default(),
            slots: Seq::empty(),
            path: Seq::empty(),
            image: ImageModel::spec_default(),
        }
    }
}

impl Doll {
    /// Creates an empty doll carrying the given id.
    pub fn new(id: u32) -> (r: Self)
        ensures
            r@ == DollModel::spec_new(id),
    {
        let r = Doll {
            id,
            desc: String::new(),
            width: 0,
            height: 0,
            offset: Point::default(),
            slots: Vec::new(),
            path: String::new(),
            image: ImageData::default(),
        };
        proof {
            assert(r@.desc =~= Seq::<char>::empty());
            assert(r@.path =~= Seq::<char>::empty());
            assert(r@.slots =~= Seq::<u32>::empty());
        }
        r
    }

    /// The id of this doll.
    pub fn id(&self) -> (r: u32)
        ensures
            r == self@.id,
    {
        self.id
    }
}

impl Clone for Doll {
    fn clone(&self) -> (res: Self)
        ensures
            res@ == self@,
    {
        Doll {
            id: self.id,
            desc: self.desc.clone(),
            width: self.width,
            height: self.height,
            offset: self.offset,
            slots: copy_ids(&self.slots),
            path: self.path.clone(),
            image: self.image.clone(),
        }
    }
}

} // verus!
