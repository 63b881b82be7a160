//! A builder for constructing [`Paperdoll`] values against a factory.

use std::collections::HashMap;

use vstd::prelude::*;

use crate::factory::{spec_find_doll, spec_find_fragment, spec_find_slot, PaperdollFactory,
    StoreModel};
use crate::paperdoll::Paperdoll;

verus! {

broadcast use vstd::std_specs::hash::group_hash_axioms;

/// A builder for constructing [`Paperdoll`] values: a doll id and a
/// selection of fragments for its slots, each checked against the factory
/// it was created from.
pub struct PaperdollBuilder<'a> {
    doll: u32,
    slot_map: HashMap<u32, u32>,
    factory: &'a PaperdollFactory,
}

impl<'a> PaperdollBuilder<'a> {
    /// The doll id chosen so far.
    pub closed spec fn spec_doll(&self) -> u32 {
        self.doll
    }

    /// The selection built so far.
    pub closed spec fn spec_slot_map(&self) -> Map<u32, u32> {
        self.slot_map@
    }

    /// The store the builder validates against.
    pub closed spec fn spec_store(&self) -> StoreModel {
        self.factory@
    }

    /// Creates a new builder: doll id 0 and an empty selection.
    pub fn new(factory: &'a PaperdollFactory) -> (r: Self)
        ensures
            r.spec_doll() == 0,
            r.spec_slot_map() == Map::<u32, u32>::empty(),
            r.spec_store() == factory@,
    {
        PaperdollBuilder { doll: 0, slot_map: HashMap::new(), factory }
    }

    /// Sets the doll to be displayed. The id must name a doll of the
    /// factory.
    pub fn doll(self, id: u32) -> (r: Self)
        requires
            spec_find_doll(self.spec_store(), id) is Some,
        ensures
            r.spec_doll() == id,
            r.spec_slot_map() == self.spec_slot_map(),
            r.spec_store() == self.spec_store(),
    {
        let mut s = self;
        s.doll = id;
        s
    }

    /// Sets the fragment to be used in the given slot. Both ids must name
    /// entities of the factory.
    pub fn set_slot(self, slot_id: u32, fragment_id: u32) -> (r: Self)
        requires
            spec_find_slot(self.spec_store(), slot_id) is Some,
            spec_find_fragment(self.spec_store(), fragment_id) is Some,
        ensures
            r.spec_doll() == self.spec_doll(),
            r.spec_slot_map() == self.spec_slot_map().insert(slot_id, fragment_id),
            r.spec_store() == self.spec_store(),
    {
        let mut s = self;
        s.slot_map.insert(slot_id, fragment_id);
        s
    }

    /// Constructs the [`Paperdoll`].
    pub fn build(self) -> (r: Paperdoll)
        ensures
            r@.doll == self.spec_doll(),
            r@.slot_map == self.spec_slot_map(),
    {
        Paperdoll { doll: self.doll, slot_map: self.slot_map }
    }
}

impl PaperdollFactory {
    /// Returns a builder to construct [`Paperdoll`] values against this
    /// factory.
    pub fn builder(&self) -> (r: PaperdollBuilder<'_>)
        ensures
            r.spec_doll() == 0,
            r.spec_slot_map() == Map::<u32, u32>::empty(),
            r.spec_store() == self@,
    {
        PaperdollBuilder::new(self)
    }
}

} // verus!
