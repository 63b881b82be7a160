//! Slots: areas where the paper doll can have alternative styles.

use vstd::prelude::*;

use crate::common::{copy_ids, copy_points, Point};

verus! {

/// Areas where the paper doll can have alternative styles.
#[derive(Debug)]
pub struct Slot {
    /// The id of this slot. Store operations never change it;
    /// it identifies the entity within its kind.
    pub id: u32,
    /// The description of the slot.
    pub desc: String,
    /// If false, this slot can be empty.
    pub required: bool,
    /// Whether to use constrainted mode for this slot.
    ///
    /// In constrainted mode the displayed fragment takes the slot's own box;
    /// otherwise the fragment keeps its native size and is aligned by the
    /// slot's anchor and the fragment's pivot.
    pub constrainted: bool,
    /// Slot's top left position in the [doll](crate::Doll).
    ///
    /// One slot can have multiple positions.
    pub positions: Vec<Point>,
    /// The width of the slot in pixels.
    pub width: u32,
    /// The height of the slot in pixels.
    pub height: u32,
    /// The coordinate of the anchor point.
    /// The top left corner of the slot is the origin.
    ///
    /// Used in non-constrainted mode.
    pub anchor: Point,
    /// A list of id of [fragments](crate::Fragment) those work as candidates in the slot.
    pub candidates: Vec<u32>,
}

/// The mathematical content of a slot.
#[verifier::ext_equal]
pub struct SlotModel {
    /// The id of the slot.
    pub id: u32,
    /// The description.
    pub desc: Seq<char>,
    /// Whether the slot must display a fragment.
    pub required: bool,
    /// Whether the slot is in constrainted mode.
    pub constrainted: bool,
    /// The declared positions of the slot.
    pub positions: Seq<Point>,
    /// The width of the slot's own box.
    pub width: u32,
    /// The height of the slot's own box.
    pub height: u32,
    /// The anchor point, relative to the slot's position.
    pub anchor: Point,
    /// The ordered candidate fragment ids.
    pub candidates: Seq<u32>,
}

impl View for Slot {
    type V = SlotModel;

    open spec fn view(&self) -> SlotModel {
        SlotModel {
            id: self.id,
            desc: self.desc@,
            required: self.required,
            constrainted: self.constrainted,
            positions: self.positions@,
            width: self.width,
            height: self.height,
            anchor: self.anchor,
            candidates: self.candidates@,
        }
    }
}

impl SlotModel {
    /// The content of a freshly created slot carrying the given id.
    pub open spec fn spec_new(id: u32) -> Self {
        SlotModel {
            id,
            desc: Seq::empty(),
            required: false,
            constrainted: false,
            positions: seq![Point::spec_default()],
            width: 0,
            height: 0,
            anchor: Point::spec_default(),
            candidates: Seq::empty(),
        }
    }
}

impl Slot {
    /// Creates an empty slot carrying the given id, placed once at the origin.
    pub fn new(id: u32) -> (r: Self)
        ensures
            r@ == SlotModel::spec_new(id),
    {
        let r = Slot {
            id,
            desc: String::new(),
            required: false,
            constrainted: false,
            positions: default_positions(),
            width: 0,
            height: 0,
            anchor: Point::default(),
            candidates: Vec::new(),
        };
        proof {
            assert(r@.desc =~= Seq::<char>::empty());
            assert(r@.candidates =~= Seq::<u32>::empty());
        }
        r
    }

    /// The id of this slot.
    pub fn id(&self) -> (r: u32)
        ensures
            r == self@.id,
    {
        self.id
    }
}

impl Clone for Slot {
    fn clone(&self) -> (res: Self)
        ensures
            res@ == self@,
    {
        Slot {
            id: self.id,
            desc: self.desc.clone(),
            required: self.required,
            constrainted: self.constrainted,
            positions: copy_points(&self.positions),
            width: self.width,
            height: self.height,
            anchor: self.anchor,
            candidates: copy_ids(&self.candidates),
        }
    }
}

/// A single position at the origin: the default placement of a slot.
fn default_positions() -> (r: Vec<Point>)
    ensures
        r@ == seq![Point::spec_default()],
{
    let mut r: Vec<Point> = Vec::new();
    r.push(Point::new(0, 0));
    proof {
        assert(r@ =~= seq![Point::spec_default()]);
    }
    r
}

} // verus!
