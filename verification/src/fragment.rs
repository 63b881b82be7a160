//! Fragments: the image assets that can be put into a slot as candidates.

use vstd::prelude::*;

use crate::common::Point;
use crate::image::{ImageData, ImageModel};

verus! {

/// The image assets that you can put into a slot as candidates.
#[derive(Debug)]
pub struct Fragment {
    /// The id of this fragment. Store operations never change it;
    /// it identifies the entity within its kind.
    pub id: u32,
    /// The description of the fragment.
    pub desc: String,
    /// The coordinate of the pivot point.
    /// The top left corner of the fragment is the origin.
    ///
    /// Used in non-constrainted mode.
    pub pivot: Point,
    /// The path of the image.
    pub path: String,
    /// The data of the image.
    pub image: ImageData,
}

/// The mathematical content of a fragment.
#[verifier::ext_equal]
pub struct FragmentModel {
    /// The id of the fragment.
    pub id: u32,
    /// The description.
    pub desc: Seq<char>,
    /// The pivot point, relative to the fragment's top left corner.
    pub pivot: Point,
    /// The path of the image.
    pub path: Seq<char>,
    /// The image payload.
    pub image: ImageModel,
}

impl View for Fragment {
    type V = FragmentModel;

    open spec fn view(&self) -> FragmentModel {
        FragmentModel {
            id: self.id,
            desc: self.desc@,
            pivot: self.pivot,
            path: self.path@,
            image: self.image@,
        }
    }
}

impl FragmentModel {
    /// The content of a freshly created fragment carrying the given id.
    pub open spec fn spec_new(id: u32) -> Self {
        FragmentModel {
            id,
            desc: Seq::empty(),
            pivot: Point::spec_default(),
            path: Seq::empty(),
            image: ImageModel::spec_default(),
        }
    }
}

impl Fragment {
    /// Creates an empty fragment carrying the given id.
    pub fn new(id: u32) -> (r: Self)
        ensures
            r@ == FragmentModel::spec_new(id),
    {
        let r = Fragment {
            id,
            desc: String::new(),
            pivot: Point::default(),
            path: String::new(),
            image: ImageData::default(),
        };
        proof {
            assert(r@.desc =~= Seq::<char>::empty());
            assert(r@.path =~= Seq::<char>::empty());
        }
        r
    }

    /// The id of this fragment.
    pub fn id(&self) -> (r: u32)
        ensures
            r == self@.id,
    {
        self.id
    }
}

impl Clone for Fragment {
    fn clone(&self) -> (res: Self)
        ensures
            res@ == self@,
    {
        Fragment {
            id: self.id,
            desc: self.desc.clone(),
            pivot: self.pivot,
            path: self.path.clone(),
            image: self.image.clone(),
        }
    }
}

} // verus!
