//! A paper doll: one doll together with a selection of fragments for its slots.

use std::collections::HashMap;

use vstd::prelude::*;

verus! {

/// A paper doll model: the doll to display and the fragment chosen for each
/// of its slots.
pub struct Paperdoll {
    /// The id of the [doll](crate::Doll) to use.
    pub doll: u32,
    /// A map with the id of a [slot](crate::Slot) as key and the id of the
    /// [fragment](crate::Fragment) used in that slot as value.
    pub slot_map: HashMap<u32, u32>,
}

/// The mathematical content of a paper doll.
#[verifier::ext_equal]
pub struct PaperdollModel {
    /// The id of the doll to use.
    pub doll: u32,
    /// The selection: slot id to fragment id.
    pub slot_map: Map<u32, u32>,
}

impl View for Paperdoll {
    type V = PaperdollModel;

    open spec fn view(&self) -> PaperdollModel {
        PaperdollModel { doll: self.doll, slot_map: self.slot_map@ }
    }
}

} // verus!
