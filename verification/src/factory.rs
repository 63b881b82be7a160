//! The factory: owns every entity of a paper doll project, hands out ids,
//! enforces referential integrity on deletion, and resolves render requests.

use std::collections::HashMap;

use vstd::pervasive::unreached;
use vstd::prelude::*;

use crate::common::{copy_bytes, EntityKind, Error, Point};
use crate::doll::{Doll, DollModel};
use crate::fragment::{Fragment, FragmentModel};
use crate::id_factory::{
    model_wf, spec_next_id, step_cursor, IdFactory, IdFactoryModel, FULL_ID_SPACE,
};
use crate::image::{ColorType, ImageData, ImageModel};
use crate::manifest::Manifest;
use crate::meta::{Meta, MetaModel};
use crate::paperdoll::Paperdoll;
use crate::raster::{paint_piece, spec_paint};
use crate::render_material::{RenderMaterial, RenderMaterialModel, RenderPiece, RenderPieceModel};
use crate::slot::{Slot, SlotModel};

verus! {

broadcast use vstd::std_specs::hash::group_hash_axioms;

// ---------------------------------------------------------------------------
// Id sequences
// ---------------------------------------------------------------------------

/// The ids of a doll list, in list order.
pub open spec fn doll_ids(s: Seq<DollModel>) -> Seq<u32> {
    s.map_values(|d: DollModel| d.id)
}

/// The ids of a slot list, in list order.
pub open spec fn slot_ids(s: Seq<SlotModel>) -> Seq<u32> {
    s.map_values(|t: SlotModel| t.id)
}

/// The ids of a fragment list, in list order.
pub open spec fn fragment_ids(s: Seq<FragmentModel>) -> Seq<u32> {
    s.map_values(|f: FragmentModel| f.id)
}

/// Ids in strictly ascending order (which also makes them unique).
pub open spec fn strictly_sorted(ids: Seq<u32>) -> bool {
    forall|i: int, j: int| 0 <= i < j < ids.len() ==> ids[i] < ids[j]
}

/// The set of ids occurring in a list.
pub open spec fn id_set(ids: Seq<u32>) -> Set<u32> {
    Set::new(|x: u32| ids.contains(x))
}

/// Where a new id is inserted to keep a list sorted: just before the first
/// entry that is larger.
pub open spec fn insertion_point(ids: Seq<u32>, id: u32) -> int
    decreases ids.len(),
{
    if ids.len() == 0 {
        0
    } else if id < ids[0] {
        0
    } else {
        1 + insertion_point(ids.drop_first(), id)
    }
}

// ---------------------------------------------------------------------------
// The store model
// ---------------------------------------------------------------------------

/// The mathematical content of a whole factory: metadata, the three
/// allocators, and the three entity lists in ascending id order.
#[verifier::ext_equal]
pub struct StoreModel {
    /// The project metadata.
    pub meta: MetaModel,
    /// The allocator for doll ids.
    pub doll_alloc: IdFactoryModel,
    /// The allocator for slot ids.
    pub slot_alloc: IdFactoryModel,
    /// The allocator for fragment ids.
    pub fragment_alloc: IdFactoryModel,
    /// The dolls, in ascending id order.
    pub dolls: Seq<DollModel>,
    /// The slots, in ascending id order.
    pub slots: Seq<SlotModel>,
    /// The fragments, in ascending id order.
    pub fragments: Seq<FragmentModel>,
}

/// A sane store: each allocator covers the full 32-bit space, each entity
/// list is strictly sorted by id, and each allocator's in-use set is exactly
/// the set of ids present in the matching list.
pub open spec fn store_wf(m: StoreModel) -> bool {
    &&& model_wf(m.doll_alloc) && m.doll_alloc.space == FULL_ID_SPACE
    &&& model_wf(m.slot_alloc) && m.slot_alloc.space == FULL_ID_SPACE
    &&& model_wf(m.fragment_alloc) && m.fragment_alloc.space == FULL_ID_SPACE
    &&& strictly_sorted(doll_ids(m.dolls))
    &&& strictly_sorted(slot_ids(m.slots))
    &&& strictly_sorted(fragment_ids(m.fragments))
    &&& m.doll_alloc.used == id_set(doll_ids(m.dolls))
    &&& m.slot_alloc.used == id_set(slot_ids(m.slots))
    &&& m.fragment_alloc.used == id_set(fragment_ids(m.fragments))
}

/// The doll carrying the given id, if any.
pub open spec fn spec_find_doll(m: StoreModel, id: u32) -> Option<DollModel> {
    match doll_ids(m.dolls).index_of_first(id) {
        None => None,
        Some(k) => Some(m.dolls[k]),
    }
}

/// The slot carrying the given id, if any.
pub open spec fn spec_find_slot(m: StoreModel, id: u32) -> Option<SlotModel> {
    match slot_ids(m.slots).index_of_first(id) {
        None => None,
        Some(k) => Some(m.slots[k]),
    }
}

/// The fragment carrying the given id, if any.
pub open spec fn spec_find_fragment(m: StoreModel, id: u32) -> Option<FragmentModel> {
    match fragment_ids(m.fragments).index_of_first(id) {
        None => None,
        Some(k) => Some(m.fragments[k]),
    }
}

// ---------------------------------------------------------------------------
// Store transitions
// ---------------------------------------------------------------------------

/// The allocator after handing out `id`: the id is in use and the cursor has
/// moved just past it.
pub open spec fn alloc_insert(a: IdFactoryModel, id: u32) -> IdFactoryModel {
    IdFactoryModel {
        cursor: step_cursor(id as u64, a.space),
        space: a.space,
        used: a.used.insert(id),
    }
}

/// The allocator after freeing `id`; the cursor does not move.
pub open spec fn alloc_remove(a: IdFactoryModel, id: u32) -> IdFactoryModel {
    IdFactoryModel { cursor: a.cursor, space: a.space, used: a.used.remove(id) }
}

/// Creating a doll: a fresh id is allocated and a default doll carrying it
/// is inserted at its sorted position.
pub open spec fn spec_create_doll(m: StoreModel) -> Result<(StoreModel, u32), Error> {
    match spec_next_id(m.doll_alloc) {
        None => Err(Error::IdSpaceExhausted),
        Some(id) => Ok(
            (
                StoreModel {
                    doll_alloc: alloc_insert(m.doll_alloc, id),
                    dolls: m.dolls.insert(
                        insertion_point(doll_ids(m.dolls), id),
                        DollModel::spec_new(id),
                    ),
                    ..m
                },
                id,
            ),
        ),
    }
}

/// Creating a slot, as [`spec_create_doll`].
pub open spec fn spec_create_slot(m: StoreModel) -> Result<(StoreModel, u32), Error> {
    match spec_next_id(m.slot_alloc) {
        None => Err(Error::IdSpaceExhausted),
        Some(id) => Ok(
            (
                StoreModel {
                    slot_alloc: alloc_insert(m.slot_alloc, id),
                    slots: m.slots.insert(
                        insertion_point(slot_ids(m.slots), id),
                        SlotModel::spec_new(id),
                    ),
                    ..m
                },
                id,
            ),
        ),
    }
}

/// Creating a fragment, as [`spec_create_doll`].
pub open spec fn spec_create_fragment(m: StoreModel) -> Result<(StoreModel, u32), Error> {
    match spec_next_id(m.fragment_alloc) {
        None => Err(Error::IdSpaceExhausted),
        Some(id) => Ok(
            (
                StoreModel {
                    fragment_alloc: alloc_insert(m.fragment_alloc, id),
                    fragments: m.fragments.insert(
                        insertion_point(fragment_ids(m.fragments), id),
                        FragmentModel::spec_new(id),
                    ),
                    ..m
                },
                id,
            ),
        ),
    }
}

/// A doll with the first occurrence of `slot_id` scrubbed from its slot list.
pub open spec fn scrub_doll(d: DollModel, slot_id: u32) -> DollModel {
    DollModel { slots: d.slots.remove_value(slot_id), ..d }
}

/// A slot with the first occurrence of `fragment_id` scrubbed from its
/// candidate list.
pub open spec fn scrub_slot(s: SlotModel, fragment_id: u32) -> SlotModel {
    SlotModel { candidates: s.candidates.remove_value(fragment_id), ..s }
}

/// Removing a slot: the slot leaves the store, its id is freed, and the id
/// is scrubbed from every doll's slot list. A miss changes nothing.
pub open spec fn spec_remove_slot(m: StoreModel, id: u32) -> (StoreModel, Option<SlotModel>) {
    match slot_ids(m.slots).index_of_first(id) {
        None => (m, None),
        Some(k) => (
            StoreModel {
                slots: m.slots.remove(k),
                slot_alloc: alloc_remove(m.slot_alloc, id),
                dolls: m.dolls.map_values(|d: DollModel| scrub_doll(d, id)),
                ..m
            },
            Some(m.slots[k]),
        ),
    }
}

/// Removing a fragment: the fragment leaves the store, its id is freed, and
/// the id is scrubbed from every slot's candidate list. Dolls are untouched.
/// A miss changes nothing.
pub open spec fn spec_remove_fragment(m: StoreModel, id: u32) -> (
    StoreModel,
    Option<FragmentModel>,
) {
    match fragment_ids(m.fragments).index_of_first(id) {
        None => (m, None),
        Some(k) => (
            StoreModel {
                fragments: m.fragments.remove(k),
                fragment_alloc: alloc_remove(m.fragment_alloc, id),
                slots: m.slots.map_values(|s: SlotModel| scrub_slot(s, id)),
                ..m
            },
            Some(m.fragments[k]),
        ),
    }
}

/// Removing each listed slot in turn, cascading as [`spec_remove_slot`].
pub open spec fn spec_cascade_slots(m: StoreModel, ids: Seq<u32>) -> StoreModel
    decreases ids.len(),
{
    if ids.len() == 0 {
        m
    } else {
        spec_cascade_slots(spec_remove_slot(m, ids[0]).0, ids.drop_first())
    }
}

/// Removing a doll: the doll leaves the store, its id is freed, and every
/// slot in its slot list is removed in turn (each removal cascading as
/// [`spec_remove_slot`]). A miss changes nothing.
pub open spec fn spec_remove_doll(m: StoreModel, id: u32) -> (StoreModel, Option<DollModel>) {
    match doll_ids(m.dolls).index_of_first(id) {
        None => (m, None),
        Some(k) => {
            let d = m.dolls[k];
            let m1 = StoreModel {
                dolls: m.dolls.remove(k),
                doll_alloc: alloc_remove(m.doll_alloc, id),
                ..m
            };
            (spec_cascade_slots(m1, d.slots), Some(d))
        },
    }
}

// ---------------------------------------------------------------------------
// Construction
// ---------------------------------------------------------------------------

/// Reserving and sorted-inserting each supplied doll in turn; the first id
/// collision aborts the load.
pub open spec fn spec_load_dolls(acc: Seq<DollModel>, used: Set<u32>, input: Seq<DollModel>) -> Result<
    (Seq<DollModel>, Set<u32>),
    Error,
>
    decreases input.len(),
{
    if input.len() == 0 {
        Ok((acc, used))
    } else {
        let d = input[0];
        if used.contains(d.id) {
            Err(Error::DuplicateId { id: d.id })
        } else {
            spec_load_dolls(
                acc.insert(insertion_point(doll_ids(acc), d.id), d),
                used.insert(d.id),
                input.drop_first(),
            )
        }
    }
}

/// Reserving and sorted-inserting each supplied slot in turn.
pub open spec fn spec_load_slots(acc: Seq<SlotModel>, used: Set<u32>, input: Seq<SlotModel>) -> Result<
    (Seq<SlotModel>, Set<u32>),
    Error,
>
    decreases input.len(),
{
    if input.len() == 0 {
        Ok((acc, used))
    } else {
        let s = input[0];
        if used.contains(s.id) {
            Err(Error::DuplicateId { id: s.id })
        } else {
            spec_load_slots(
                acc.insert(insertion_point(slot_ids(acc), s.id), s),
                used.insert(s.id),
                input.drop_first(),
            )
        }
    }
}

/// Reserving and sorted-inserting each supplied fragment in turn.
pub open spec fn spec_load_fragments(
    acc: Seq<FragmentModel>,
    used: Set<u32>,
    input: Seq<FragmentModel>,
) -> Result<(Seq<FragmentModel>, Set<u32>), Error>
    decreases input.len(),
{
    if input.len() == 0 {
        Ok((acc, used))
    } else {
        let f = input[0];
        if used.contains(f.id) {
            Err(Error::DuplicateId { id: f.id })
        } else {
            spec_load_fragments(
                acc.insert(insertion_point(fragment_ids(acc), f.id), f),
                used.insert(f.id),
                input.drop_first(),
            )
        }
    }
}

/// Building a store from supplied entity lists: every id is reserved (dolls
/// first, then slots, then fragments; the first collision fails the whole
/// construction with [`Error::DuplicateId`]), and when no doll was supplied
/// one default doll with the first allocator-issued id is synthesized.
pub open spec fn spec_new_store(
    meta: MetaModel,
    dolls: Seq<DollModel>,
    slots: Seq<SlotModel>,
    fragments: Seq<FragmentModel>,
) -> Result<StoreModel, Error> {
    match spec_load_dolls(Seq::empty(), Set::empty(), dolls) {
        Err(e) => Err(e),
        Ok((ds, du)) => {
            let (ds2, du2, dcur) = if dolls.len() == 0 {
                (seq![DollModel::spec_new(0)], du.insert(0), step_cursor(0, FULL_ID_SPACE))
            } else {
                (ds, du, 0u64)
            };
            match spec_load_slots(Seq::empty(), Set::empty(), slots) {
                Err(e) => Err(e),
                Ok((ss, su)) => match spec_load_fragments(Seq::empty(), Set::empty(), fragments) {
                    Err(e) => Err(e),
                    Ok((fs, fu)) => Ok(
                        StoreModel {
                            meta,
                            doll_alloc: IdFactoryModel {
                                cursor: dcur,
                                space: FULL_ID_SPACE,
                                used: du2,
                            },
                            slot_alloc: IdFactoryModel {
                                cursor: 0,
                                space: FULL_ID_SPACE,
                                used: su,
                            },
                            fragment_alloc: IdFactoryModel {
                                cursor: 0,
                                space: FULL_ID_SPACE,
                                used: fu,
                            },
                            dolls: ds2,
                            slots: ss,
                            fragments: fs,
                        },
                    ),
                },
            }
        },
    }
}

// ---------------------------------------------------------------------------
// The factory
// ---------------------------------------------------------------------------

/// A factory that manages a whole paper doll project: it stores all the
/// dolls, slots and fragments, hands out ids, and resolves and renders
/// paper dolls.
pub struct PaperdollFactory {
    /// The meta data of the project.
    pub meta: Meta,
    doll_id_factory: IdFactory,
    slot_id_factory: IdFactory,
    fragment_id_factory: IdFactory,
    dolls: Vec<Doll>,
    slots: Vec<Slot>,
    fragments: Vec<Fragment>,
}

impl View for PaperdollFactory {
    type V = StoreModel;

    closed spec fn view(&self) -> StoreModel {
        StoreModel {
            meta: self.meta@,
            doll_alloc: self.doll_id_factory@,
            slot_alloc: self.slot_id_factory@,
            fragment_alloc: self.fragment_id_factory@,
            dolls: self.dolls@.map_values(|d: Doll| d@),
            slots: self.slots@.map_values(|s: Slot| s@),
            fragments: self.fragments@.map_values(|f: Fragment| f@),
        }
    }
}

impl PaperdollFactory {
    /// The factory's representation is sane and matches its abstract store.
    pub closed spec fn wf(&self) -> bool {
        &&& self.doll_id_factory.wf()
        &&& self.slot_id_factory.wf()
        &&& self.fragment_id_factory.wf()
        &&& store_wf(self@)
    }

    /// A well-formed factory has a well-formed abstract store.
    pub proof fn lemma_wf_store(&self)
        requires
            self.wf(),
        ensures
            store_wf(self@),
    {
    }
}

// ---------------------------------------------------------------------------
// Id sequence lemmas
// ---------------------------------------------------------------------------

/// Everything before the insertion point is at most the new id; the entry at
/// the insertion point, if any, is strictly larger.
proof fn lemma_insertion_point_bounds(ids: Seq<u32>, id: u32)
    ensures
        0 <= insertion_point(ids, id) <= ids.len(),
        forall|k: int| 0 <= k < insertion_point(ids, id) ==> ids[k] <= id,
        insertion_point(ids, id) < ids.len() ==> id < ids[insertion_point(ids, id)],
    decreases ids.len(),
{
    if ids.len() == 0 {
    } else if id < ids[0] {
    } else {
        let rest = ids.drop_first();
        lemma_insertion_point_bounds(rest, id);
        let p = insertion_point(ids, id);
        assert forall|k: int| 0 <= k < p implies ids[k] <= id by {
            if k > 0 {
                assert(rest[k - 1] == ids[k]);
            }
        }
        if p < ids.len() {
            assert(rest[p - 1] == ids[p]);
        }
    }
}

/// Inserting a fresh id at its insertion point keeps a sorted list sorted.
proof fn lemma_sorted_insert(ids: Seq<u32>, id: u32, p: int)
    requires
        strictly_sorted(ids),
        !ids.contains(id),
        p == insertion_point(ids, id),
    ensures
        strictly_sorted(ids.insert(p, id)),
{
    lemma_insertion_point_bounds(ids, id);
    ids.insert_ensures(p, id);
    let ins = ids.insert(p, id);
    assert forall|a: int, b: int| 0 <= a < b < ins.len() implies ins[a] < ins[b] by {
        if a < p && b < p {
        } else if a < p && b == p {
            assert(ins[a] == ids[a]);
            if ids[a] == id {
                assert(ids.contains(id));
            }
        } else if a < p && b > p {
            assert(ins[a] == ids[a]);
            assert(ins[b] == ids[b - 1]);
            if a == b - 1 {
                if ids[a] == id {
                    assert(ids.contains(id));
                }
            }
        } else if a == p {
            assert(ins[b] == ids[b - 1]);
            if b - 1 == p {
            } else {
                assert(ids[p] <= ids[b - 1]);
            }
        } else {
            assert(ins[a] == ids[a - 1]);
            assert(ins[b] == ids[b - 1]);
        }
    }
}

/// Inserting an id extends the id set by exactly it.
proof fn lemma_id_set_insert(ids: Seq<u32>, p: int, id: u32)
    requires
        0 <= p <= ids.len(),
    ensures
        id_set(ids.insert(p, id)) == id_set(ids).insert(id),
{
    ids.insert_ensures(p, id);
    let ins = ids.insert(p, id);
    assert forall|y: u32| ins.contains(y) implies (ids.contains(y) || y == id) by {
        let k = choose|k: int| 0 <= k < ins.len() && ins[k] == y;
        if k < p {
            assert(ids[k] == y);
        } else if k > p {
            assert(ids[k - 1] == y);
        }
    }
    assert forall|y: u32| ids.contains(y) implies ins.contains(y) by {
        let k = choose|k: int| 0 <= k < ids.len() && ids[k] == y;
        if k < p {
            assert(ins[k] == y);
        } else {
            assert(ins[k + 1] == y);
        }
    }
    assert(ins[p] == id);
    assert(ins.contains(id));
    assert(id_set(ins) =~= id_set(ids).insert(id));
}

/// Removing the entry at one index of a sorted list removes exactly its id
/// from the id set, and keeps the list sorted.
proof fn lemma_id_set_remove(ids: Seq<u32>, k: int)
    requires
        strictly_sorted(ids),
        0 <= k < ids.len(),
    ensures
        id_set(ids.remove(k)) == id_set(ids).remove(ids[k]),
        strictly_sorted(ids.remove(k)),
{
    ids.remove_ensures(k);
    let rem = ids.remove(k);
    let id = ids[k];
    assert forall|y: u32| rem.contains(y) implies (ids.contains(y) && y != id) by {
        let j = choose|j: int| 0 <= j < rem.len() && rem[j] == y;
        if j < k {
            assert(ids[j] == y);
        } else {
            assert(ids[j + 1] == y);
        }
    }
    assert forall|y: u32| ids.contains(y) && y != id implies rem.contains(y) by {
        let j = choose|j: int| 0 <= j < ids.len() && ids[j] == y;
        if j < k {
            assert(rem[j] == y);
        } else {
            assert(j != k);
            assert(rem[j - 1] == y);
        }
    }
    assert(id_set(rem) =~= id_set(ids).remove(id));
    assert forall|a: int, b: int| 0 <= a < b < rem.len() implies rem[a] < rem[b] by {
        let pa = if a < k {
            a
        } else {
            a + 1
        };
        let pb = if b < k {
            b
        } else {
            b + 1
        };
        assert(rem[a] == ids[pa]);
        assert(rem[b] == ids[pb]);
    }
}

// ---------------------------------------------------------------------------
// View glue: vector edits seen through the model
// ---------------------------------------------------------------------------

/// Inserting into a doll vector inserts its view into the model list.
proof fn lemma_doll_view_insert(s: Seq<Doll>, p: int, d: Doll)
    requires
        0 <= p <= s.len(),
    ensures
        s.insert(p, d).map_values(|x: Doll| x@) == s.map_values(|x: Doll| x@).insert(p, d@),
{
    s.insert_ensures(p, d);
    s.map_values(|x: Doll| x@).insert_ensures(p, d@);
    assert(s.insert(p, d).map_values(|x: Doll| x@) =~= s.map_values(|x: Doll| x@).insert(p, d@));
}

/// Inserting into a slot vector inserts its view into the model list.
proof fn lemma_slot_view_insert(s: Seq<Slot>, p: int, t: Slot)
    requires
        0 <= p <= s.len(),
    ensures
        s.insert(p, t).map_values(|x: Slot| x@) == s.map_values(|x: Slot| x@).insert(p, t@),
{
    s.insert_ensures(p, t);
    s.map_values(|x: Slot| x@).insert_ensures(p, t@);
    assert(s.insert(p, t).map_values(|x: Slot| x@) =~= s.map_values(|x: Slot| x@).insert(p, t@));
}

/// Inserting into a fragment vector inserts its view into the model list.
proof fn lemma_fragment_view_insert(s: Seq<Fragment>, p: int, f: Fragment)
    requires
        0 <= p <= s.len(),
    ensures
        s.insert(p, f).map_values(|x: Fragment| x@) == s.map_values(|x: Fragment| x@).insert(
            p,
            f@,
        ),
{
    s.insert_ensures(p, f);
    s.map_values(|x: Fragment| x@).insert_ensures(p, f@);
    assert(s.insert(p, f).map_values(|x: Fragment| x@) =~= s.map_values(|x: Fragment| x@).insert(
        p,
        f@,
    ));
}

/// Removing from a doll vector removes its view from the model list.
proof fn lemma_doll_view_remove(s: Seq<Doll>, p: int)
    requires
        0 <= p < s.len(),
    ensures
        s.remove(p).map_values(|x: Doll| x@) == s.map_values(|x: Doll| x@).remove(p),
{
    s.remove_ensures(p);
    s.map_values(|x: Doll| x@).remove_ensures(p);
    assert(s.remove(p).map_values(|x: Doll| x@) =~= s.map_values(|x: Doll| x@).remove(p));
}

/// Removing from a slot vector removes its view from the model list.
proof fn lemma_slot_view_remove(s: Seq<Slot>, p: int)
    requires
        0 <= p < s.len(),
    ensures
        s.remove(p).map_values(|x: Slot| x@) == s.map_values(|x: Slot| x@).remove(p),
{
    s.remove_ensures(p);
    s.map_values(|x: Slot| x@).remove_ensures(p);
    assert(s.remove(p).map_values(|x: Slot| x@) =~= s.map_values(|x: Slot| x@).remove(p));
}

/// Removing from a fragment vector removes its view from the model list.
proof fn lemma_fragment_view_remove(s: Seq<Fragment>, p: int)
    requires
        0 <= p < s.len(),
    ensures
        s.remove(p).map_values(|x: Fragment| x@) == s.map_values(|x: Fragment| x@).remove(p),
{
    s.remove_ensures(p);
    s.map_values(|x: Fragment| x@).remove_ensures(p);
    assert(s.remove(p).map_values(|x: Fragment| x@) =~= s.map_values(|x: Fragment| x@).remove(p));
}

/// Inserting a doll model inserts its id into the id list.
proof fn lemma_doll_ids_insert(s: Seq<DollModel>, p: int, d: DollModel)
    requires
        0 <= p <= s.len(),
    ensures
        doll_ids(s.insert(p, d)) == doll_ids(s).insert(p, d.id),
{
    s.insert_ensures(p, d);
    doll_ids(s).insert_ensures(p, d.id);
    assert(doll_ids(s.insert(p, d)) =~= doll_ids(s).insert(p, d.id));
}

/// Inserting a slot model inserts its id into the id list.
proof fn lemma_slot_ids_insert(s: Seq<SlotModel>, p: int, t: SlotModel)
    requires
        0 <= p <= s.len(),
    ensures
        slot_ids(s.insert(p, t)) == slot_ids(s).insert(p, t.id),
{
    s.insert_ensures(p, t);
    slot_ids(s).insert_ensures(p, t.id);
    assert(slot_ids(s.insert(p, t)) =~= slot_ids(s).insert(p, t.id));
}

/// Inserting a fragment model inserts its id into the id list.
proof fn lemma_fragment_ids_insert(s: Seq<FragmentModel>, p: int, f: FragmentModel)
    requires
        0 <= p <= s.len(),
    ensures
        fragment_ids(s.insert(p, f)) == fragment_ids(s).insert(p, f.id),
{
    s.insert_ensures(p, f);
    fragment_ids(s).insert_ensures(p, f.id);
    assert(fragment_ids(s.insert(p, f)) =~= fragment_ids(s).insert(p, f.id));
}

/// Removing a doll model removes its id from the id list.
proof fn lemma_doll_ids_remove(s: Seq<DollModel>, p: int)
    requires
        0 <= p < s.len(),
    ensures
        doll_ids(s.remove(p)) == doll_ids(s).remove(p),
{
    s.remove_ensures(p);
    doll_ids(s).remove_ensures(p);
    assert(doll_ids(s.remove(p)) =~= doll_ids(s).remove(p));
}

/// Removing a slot model removes its id from the id list.
proof fn lemma_slot_ids_remove(s: Seq<SlotModel>, p: int)
    requires
        0 <= p < s.len(),
    ensures
        slot_ids(s.remove(p)) == slot_ids(s).remove(p),
{
    s.remove_ensures(p);
    slot_ids(s).remove_ensures(p);
    assert(slot_ids(s.remove(p)) =~= slot_ids(s).remove(p));
}

/// Removing a fragment model removes its id from the id list.
proof fn lemma_fragment_ids_remove(s: Seq<FragmentModel>, p: int)
    requires
        0 <= p < s.len(),
    ensures
        fragment_ids(s.remove(p)) == fragment_ids(s).remove(p),
{
    s.remove_ensures(p);
    fragment_ids(s).remove_ensures(p);
    assert(fragment_ids(s.remove(p)) =~= fragment_ids(s).remove(p));
}

// ---------------------------------------------------------------------------
// Lookup and insertion-position helpers
// ---------------------------------------------------------------------------

/// The index of the doll carrying the given id, if any.
fn doll_pos(v: &Vec<Doll>, id: u32) -> (r: Option<usize>)
    ensures
        ({
            let ids = doll_ids(v@.map_values(|d: Doll| d@));
            match r {
                Some(p) => p < v@.len() && ids.index_of_first(id) == Some(p as int),
                None => ids.index_of_first(id) is None,
            }
        }),
{
    let ghost ids = doll_ids(v@.map_values(|d: Doll| d@));
    let mut i: usize = 0;
    while i < v.len()
        invariant
            i <= v@.len(),
            ids == doll_ids(v@.map_values(|d: Doll| d@)),
            ids.len() == v@.len(),
            forall|k: int| 0 <= k < i ==> ids[k] != id,
        decreases v@.len() - i,
    {
        if v[i].id == id {
            proof {
                assert(ids[i as int] == id);
                ids.index_of_first_ensures(id);
                assert(ids.contains(id));
            }
            return Some(i);
        }
        proof {
            assert(ids[i as int] == v@[i as int]@.id);
        }
        i = i + 1;
    }
    proof {
        ids.index_of_first_ensures(id);
        if ids.contains(id) {
            let k = choose|k: int| 0 <= k < ids.len() && ids[k] == id;
            assert(false);
        }
    }
    None
}

/// The index of the slot carrying the given id, if any.
fn slot_pos(v: &Vec<Slot>, id: u32) -> (r: Option<usize>)
    ensures
        ({
            let ids = slot_ids(v@.map_values(|s: Slot| s@));
            match r {
                Some(p) => p < v@.len() && ids.index_of_first(id) == Some(p as int),
                None => ids.index_of_first(id) is None,
            }
        }),
{
    let ghost ids = slot_ids(v@.map_values(|s: Slot| s@));
    let mut i: usize = 0;
    while i < v.len()
        invariant
            i <= v@.len(),
            ids == slot_ids(v@.map_values(|s: Slot| s@)),
            ids.len() == v@.len(),
            forall|k: int| 0 <= k < i ==> ids[k] != id,
        decreases v@.len() - i,
    {
        if v[i].id == id {
            proof {
                assert(ids[i as int] == id);
                ids.index_of_first_ensures(id);
                assert(ids.contains(id));
            }
            return Some(i);
        }
        proof {
            assert(ids[i as int] == v@[i as int]@.id);
        }
        i = i + 1;
    }
    proof {
        ids.index_of_first_ensures(id);
        if ids.contains(id) {
            let k = choose|k: int| 0 <= k < ids.len() && ids[k] == id;
            assert(false);
        }
    }
    None
}

/// The index of the fragment carrying the given id, if any.
fn fragment_pos(v: &Vec<Fragment>, id: u32) -> (r: Option<usize>)
    ensures
        ({
            let ids = fragment_ids(v@.map_values(|f: Fragment| f@));
            match r {
                Some(p) => p < v@.len() && ids.index_of_first(id) == Some(p as int),
                None => ids.index_of_first(id) is None,
            }
        }),
{
    let ghost ids = fragment_ids(v@.map_values(|f: Fragment| f@));
    let mut i: usize = 0;
    while i < v.len()
        invariant
            i <= v@.len(),
            ids == fragment_ids(v@.map_values(|f: Fragment| f@)),
            ids.len() == v@.len(),
            forall|k: int| 0 <= k < i ==> ids[k] != id,
        decreases v@.len() - i,
    {
        if v[i].id == id {
            proof {
                assert(ids[i as int] == id);
                ids.index_of_first_ensures(id);
                assert(ids.contains(id));
            }
            return Some(i);
        }
        proof {
            assert(ids[i as int] == v@[i as int]@.id);
        }
        i = i + 1;
    }
    proof {
        ids.index_of_first_ensures(id);
        if ids.contains(id) {
            let k = choose|k: int| 0 <= k < ids.len() && ids[k] == id;
            assert(false);
        }
    }
    None
}

/// The position at which a doll with the given id is inserted.
fn doll_insert_pos(v: &Vec<Doll>, id: u32) -> (pos: usize)
    ensures
        pos <= v@.len(),
        pos as int == insertion_point(doll_ids(v@.map_values(|d: Doll| d@)), id),
{
    let ghost ids = doll_ids(v@.map_values(|d: Doll| d@));
    let mut pos: usize = 0;
    proof {
        assert(ids.skip(0) =~= ids);
    }
    while pos < v.len() && v[pos].id <= id
        invariant
            0 <= pos <= v@.len(),
            ids == doll_ids(v@.map_values(|d: Doll| d@)),
            ids.len() == v@.len(),
            insertion_point(ids, id) == pos + insertion_point(ids.skip(pos as int), id),
        decreases v@.len() - pos,
    {
        proof {
            assert(ids.skip(pos as int)[0] == ids[pos as int]);
            assert(ids[pos as int] == v@[pos as int]@.id);
            assert(ids.skip(pos as int).drop_first() =~= ids.skip(pos as int + 1));
        }
        pos = pos + 1;
    }
    proof {
        if pos < v.len() {
            assert(ids.skip(pos as int)[0] == ids[pos as int]);
            assert(ids[pos as int] == v@[pos as int]@.id);
            assert(insertion_point(ids.skip(pos as int), id) == 0);
        } else {
            assert(ids.skip(pos as int).len() == 0);
        }
    }
    pos
}

/// The position at which a slot with the given id is inserted.
fn slot_insert_pos(v: &Vec<Slot>, id: u32) -> (pos: usize)
    ensures
        pos <= v@.len(),
        pos as int == insertion_point(slot_ids(v@.map_values(|s: Slot| s@)), id),
{
    let ghost ids = slot_ids(v@.map_values(|s: Slot| s@));
    let mut pos: usize = 0;
    proof {
        assert(ids.skip(0) =~= ids);
    }
    while pos < v.len() && v[pos].id <= id
        invariant
            0 <= pos <= v@.len(),
            ids == slot_ids(v@.map_values(|s: Slot| s@)),
            ids.len() == v@.len(),
            insertion_point(ids, id) == pos + insertion_point(ids.skip(pos as int), id),
        decreases v@.len() - pos,
    {
        proof {
            assert(ids.skip(pos as int)[0] == ids[pos as int]);
            assert(ids[pos as int] == v@[pos as int]@.id);
            assert(ids.skip(pos as int).drop_first() =~= ids.skip(pos as int + 1));
        }
        pos = pos + 1;
    }
    proof {
        if pos < v.len() {
            assert(ids.skip(pos as int)[0] == ids[pos as int]);
            assert(ids[pos as int] == v@[pos as int]@.id);
            assert(insertion_point(ids.skip(pos as int), id) == 0);
        } else {
            assert(ids.skip(pos as int).len() == 0);
        }
    }
    pos
}

/// The position at which a fragment with the given id is inserted.
fn fragment_insert_pos(v: &Vec<Fragment>, id: u32) -> (pos: usize)
    ensures
        pos <= v@.len(),
        pos as int == insertion_point(fragment_ids(v@.map_values(|f: Fragment| f@)), id),
{
    let ghost ids = fragment_ids(v@.map_values(|f: Fragment| f@));
    let mut pos: usize = 0;
    proof {
        assert(ids.skip(0) =~= ids);
    }
    while pos < v.len() && v[pos].id <= id
        invariant
            0 <= pos <= v@.len(),
            ids == fragment_ids(v@.map_values(|f: Fragment| f@)),
            ids.len() == v@.len(),
            insertion_point(ids, id) == pos + insertion_point(ids.skip(pos as int), id),
        decreases v@.len() - pos,
    {
        proof {
            assert(ids.skip(pos as int)[0] == ids[pos as int]);
            assert(ids[pos as int] == v@[pos as int]@.id);
            assert(ids.skip(pos as int).drop_first() =~= ids.skip(pos as int + 1));
        }
        pos = pos + 1;
    }
    proof {
        if pos < v.len() {
            assert(ids.skip(pos as int)[0] == ids[pos as int]);
            assert(ids[pos as int] == v@[pos as int]@.id);
            assert(insertion_point(ids.skip(pos as int), id) == 0);
        } else {
            assert(ids.skip(pos as int).len() == 0);
        }
    }
    pos
}

impl PaperdollFactory {
    /// Adds a new doll to the factory and returns its id.
    ///
    /// Fails with [`Error::IdSpaceExhausted`], leaving the factory untouched,
    /// exactly when the doll id space is full.
    pub fn add_doll(&mut self) -> (r: Result<u32, Error>)
        requires
            old(self).wf(),
        ensures
            final(self).wf(),
            match spec_create_doll(old(self)@) {
                Err(e) => r == Err::<u32, Error>(e) && final(self)@ == old(self)@,
                Ok((m2, id)) => r == Ok::<u32, Error>(id) && final(self)@ == m2,
            },
    {
        let id = match self.doll_id_factory.get_next() {
            Ok(id) => id,
            Err(e) => {
                proof {
                    assert(self@ =~~= old(self)@);
                }
                return Err(e);
            },
        };
        let doll = Doll::new(id);
        let pos = doll_insert_pos(&self.dolls, id);
        let ghost pre = self@;
        self.dolls.insert(pos, doll);
        proof {
            let ids = doll_ids(pre.dolls);
            lemma_doll_view_insert(old(self).dolls@, pos as int, doll);
            lemma_doll_ids_insert(pre.dolls, pos as int, DollModel::spec_new(id));
            lemma_id_set_insert(ids, pos as int, id);
            assert(!ids.contains(id)) by {
                if ids.contains(id) {
                    assert(old(self)@.doll_alloc.used.contains(id));
                }
            }
            lemma_sorted_insert(ids, id, pos as int);
            assert(spec_create_doll(old(self)@) matches Ok((m2, id2)) && id2 == id && self@
                =~~= m2);
        }
        Ok(id)
    }

    /// Adds a new slot to the factory and returns its id.
    ///
    /// Fails with [`Error::IdSpaceExhausted`], leaving the factory untouched,
    /// exactly when the slot id space is full.
    pub fn add_slot(&mut self) -> (r: Result<u32, Error>)
        requires
            old(self).wf(),
        ensures
            final(self).wf(),
            match spec_create_slot(old(self)@) {
                Err(e) => r == Err::<u32, Error>(e) && final(self)@ == old(self)@,
                Ok((m2, id)) => r == Ok::<u32, Error>(id) && final(self)@ == m2,
            },
    {
        let id = match self.slot_id_factory.get_next() {
            Ok(id) => id,
            Err(e) => {
                proof {
                    assert(self@ =~~= old(self)@);
                }
                return Err(e);
            },
        };
        let slot = Slot::new(id);
        let pos = slot_insert_pos(&self.slots, id);
        let ghost pre = self@;
        self.slots.insert(pos, slot);
        proof {
            let ids = slot_ids(pre.slots);
            lemma_slot_view_insert(old(self).slots@, pos as int, slot);
            lemma_slot_ids_insert(pre.slots, pos as int, SlotModel::spec_new(id));
            lemma_id_set_insert(ids, pos as int, id);
            assert(!ids.contains(id)) by {
                if ids.contains(id) {
                    assert(old(self)@.slot_alloc.used.contains(id));
                }
            }
            lemma_sorted_insert(ids, id, pos as int);
            assert(spec_create_slot(old(self)@) matches Ok((m2, id2)) && id2 == id && self@
                =~~= m2);
        }
        Ok(id)
    }

    /// Adds a new fragment to the factory and returns its id.
    ///
    /// Fails with [`Error::IdSpaceExhausted`], leaving the factory untouched,
    /// exactly when the fragment id space is full.
    pub fn add_fragment(&mut self) -> (r: Result<u32, Error>)
        requires
            old(self).wf(),
        ensures
            final(self).wf(),
            match spec_create_fragment(old(self)@) {
                Err(e) => r == Err::<u32, Error>(e) && final(self)@ == old(self)@,
                Ok((m2, id)) => r == Ok::<u32, Error>(id) && final(self)@ == m2,
            },
    {
        let id = match self.fragment_id_factory.get_next() {
            Ok(id) => id,
            Err(e) => {
                proof {
                    assert(self@ =~~= old(self)@);
                }
                return Err(e);
            },
        };
        let fragment = Fragment::new(id);
        let pos = fragment_insert_pos(&self.fragments, id);
        let ghost pre = self@;
        self.fragments.insert(pos, fragment);
        proof {
            let ids = fragment_ids(pre.fragments);
            lemma_fragment_view_insert(old(self).fragments@, pos as int, fragment);
            lemma_fragment_ids_insert(pre.fragments, pos as int, FragmentModel::spec_new(id));
            lemma_id_set_insert(ids, pos as int, id);
            assert(!ids.contains(id)) by {
                if ids.contains(id) {
                    assert(old(self)@.fragment_alloc.used.contains(id));
                }
            }
            lemma_sorted_insert(ids, id, pos as int);
            assert(spec_create_fragment(old(self)@) matches Ok((m2, id2)) && id2 == id && self@
                =~~= m2);
        }
        Ok(id)
    }

    /// Returns a reference to the doll with the given id.
    pub fn get_doll(&self, id: u32) -> (r: Option<&Doll>)
        ensures
            match r {
                Some(d) => spec_find_doll(self@, id) == Some(d@),
                None => spec_find_doll(self@, id) is None,
            },
    {
        match doll_pos(&self.dolls, id) {
            Some(p) => Some(&self.dolls[p]),
            None => None,
        }
    }

    /// Returns a reference to the slot with the given id.
    pub fn get_slot(&self, id: u32) -> (r: Option<&Slot>)
        ensures
            match r {
                Some(s) => spec_find_slot(self@, id) == Some(s@),
                None => spec_find_slot(self@, id) is None,
            },
    {
        match slot_pos(&self.slots, id) {
            Some(p) => Some(&self.slots[p]),
            None => None,
        }
    }

    /// Returns a reference to the fragment with the given id.
    pub fn get_fragment(&self, id: u32) -> (r: Option<&Fragment>)
        ensures
            match r {
                Some(f) => spec_find_fragment(self@, id) == Some(f@),
                None => spec_find_fragment(self@, id) is None,
            },
    {
        match fragment_pos(&self.fragments, id) {
            Some(p) => Some(&self.fragments[p]),
            None => None,
        }
    }

    /// Returns a mutable reference to the doll with the given id. The final
    /// store holds whatever the caller leaves behind the reference, in the
    /// doll's place.
    pub fn get_doll_mut(&mut self, id: u32) -> (r: Option<&mut Doll>)
        ensures
            match r {
                None => spec_find_doll(old(self)@, id) is None && final(self)@ == old(self)@,
                Some(d) => {
                    let k = doll_index(old(self)@, id);
                    &&& 0 <= k < old(self)@.dolls.len()
                    &&& spec_find_doll(old(self)@, id) == Some((*d)@)
                    &&& final(self)@ == (StoreModel {
                        dolls: old(self)@.dolls.update(k, final(d)@),
                        ..old(self)@
                    })
                },
            },
    {
        match doll_pos(&self.dolls, id) {
            Some(p) => Some(&mut self.dolls[p]),
            None => None,
        }
    }

    /// Returns a mutable reference to the slot with the given id. The final
    /// store holds whatever the caller leaves behind the reference, in the
    /// slot's place.
    pub fn get_slot_mut(&mut self, id: u32) -> (r: Option<&mut Slot>)
        ensures
            match r {
                None => spec_find_slot(old(self)@, id) is None && final(self)@ == old(self)@,
                Some(s) => {
                    let k = slot_index(old(self)@, id);
                    &&& 0 <= k < old(self)@.slots.len()
                    &&& spec_find_slot(old(self)@, id) == Some((*s)@)
                    &&& final(self)@ == (StoreModel {
                        slots: old(self)@.slots.update(k, final(s)@),
                        ..old(self)@
                    })
                },
            },
    {
        match slot_pos(&self.slots, id) {
            Some(p) => Some(&mut self.slots[p]),
            None => None,
        }
    }

    /// Returns a mutable reference to the fragment with the given id. The
    /// final store holds whatever the caller leaves behind the reference, in
    /// the fragment's place.
    pub fn get_fragment_mut(&mut self, id: u32) -> (r: Option<&mut Fragment>)
        ensures
            match r {
                None => spec_find_fragment(old(self)@, id) is None && final(self)@ == old(
                    self,
                )@,
                Some(f) => {
                    let k = fragment_index(old(self)@, id);
                    &&& 0 <= k < old(self)@.fragments.len()
                    &&& spec_find_fragment(old(self)@, id) == Some((*f)@)
                    &&& final(self)@ == (StoreModel {
                        fragments: old(self)@.fragments.update(k, final(f)@),
                        ..old(self)@
                    })
                },
            },
    {
        match fragment_pos(&self.fragments, id) {
            Some(p) => Some(&mut self.fragments[p]),
            None => None,
        }
    }

    /// All dolls of the project, in ascending id order.
    pub fn dolls(&self) -> (r: &Vec<Doll>)
        ensures
            r@.map_values(|d: Doll| d@) == self@.dolls,
    {
        &self.dolls
    }

    /// All slots of the project, in ascending id order.
    pub fn slots(&self) -> (r: &Vec<Slot>)
        ensures
            r@.map_values(|s: Slot| s@) == self@.slots,
    {
        &self.slots
    }

    /// All fragments of the project, in ascending id order.
    pub fn fragments(&self) -> (r: &Vec<Fragment>)
        ensures
            r@.map_values(|f: Fragment| f@) == self@.fragments,
    {
        &self.fragments
    }

    /// Creates a paper doll factory. Will create an empty doll if there is
    /// no doll in `doll_list`.
    ///
    /// Fails with [`Error::DuplicateId`] on the first id that occurs twice
    /// within one entity kind.
    pub fn new(
        meta: Meta,
        doll_list: Vec<Doll>,
        slot_list: Vec<Slot>,
        fragment_list: Vec<Fragment>,
    ) -> (r: Result<PaperdollFactory, Error>)
        ensures
            match spec_new_store(
                meta@,
                doll_list@.map_values(|d: Doll| d@),
                slot_list@.map_values(|s: Slot| s@),
                fragment_list@.map_values(|f: Fragment| f@),
            ) {
                Ok(m) => r matches Ok(f) && f.wf() && f@ == m,
                Err(e) => r == Err::<PaperdollFactory, Error>(e),
            },
    {
        let ghost input_d = doll_list@.map_values(|d: Doll| d@);
        let ghost input_s = slot_list@.map_values(|s: Slot| s@);
        let ghost input_f = fragment_list@.map_values(|f: Fragment| f@);

        let mut dolls: Vec<Doll> = Vec::new();
        let mut doll_id_factory = IdFactory::new();
        proof {
            assert(input_d.skip(0) =~= input_d);
            assert(dolls@.map_values(|d: Doll| d@) =~= Seq::<DollModel>::empty());
            assert(doll_id_factory@.used =~= id_set(
                doll_ids(dolls@.map_values(|d: Doll| d@)),
            ));
        }
        let mut i: usize = 0;
        while i < doll_list.len()
            invariant
                i <= doll_list@.len(),
                input_d == doll_list@.map_values(|d: Doll| d@),
                input_d.len() == doll_list@.len(),
                doll_id_factory.wf(),
                doll_id_factory@.space == FULL_ID_SPACE,
                doll_id_factory@.cursor == 0,
                dolls@.len() == i,
                strictly_sorted(doll_ids(dolls@.map_values(|d: Doll| d@))),
                doll_id_factory@.used == id_set(doll_ids(dolls@.map_values(|d: Doll| d@))),
                spec_load_dolls(Seq::empty(), Set::empty(), input_d) == spec_load_dolls(
                    dolls@.map_values(|d: Doll| d@),
                    doll_id_factory@.used,
                    input_d.skip(i as int),
                ),
            decreases doll_list@.len() - i,
        {
            let d = doll_list[i].clone();
            let id = d.id;
            proof {
                assert(input_d.skip(i as int)[0] == input_d[i as int]);
                assert(input_d[i as int] == doll_list@[i as int]@);
                assert(d@.id == id);
            }
            match doll_id_factory.take_up(id) {
                Err(e) => {
                    proof {
                        assert(spec_load_dolls(Seq::empty(), Set::empty(), input_d) == Err::<
                            (Seq<DollModel>, Set<u32>),
                            Error,
                        >(Error::DuplicateId { id }));
                    }
                    return Err(e);
                },
                Ok(()) => {},
            }
            let ghost acc_pre = dolls@.map_values(|dd: Doll| dd@);
            let pos = doll_insert_pos(&dolls, id);
            let ghost dolls_pre = dolls@;
            dolls.insert(pos, d);
            proof {
                lemma_doll_view_insert(dolls_pre, pos as int, d);
                lemma_doll_ids_insert(acc_pre, pos as int, d@);
                lemma_id_set_insert(doll_ids(acc_pre), pos as int, id);
                assert(!doll_ids(acc_pre).contains(id));
                lemma_sorted_insert(doll_ids(acc_pre), id, pos as int);
                assert(input_d.skip(i as int).drop_first() =~= input_d.skip(i as int + 1));
                assert(dolls@.map_values(|dd: Doll| dd@) =~= acc_pre.insert(pos as int, d@));
            }
            i = i + 1;
        }
        proof {
            assert(input_d.skip(i as int).len() == 0);
        }
        let ghost loaded_dolls = dolls@.map_values(|d: Doll| d@);
        let ghost loaded_doll_used = doll_id_factory@.used;
        if dolls.len() == 0 {
            proof {
                assert(input_d.len() == 0);
                assert(!doll_id_factory@.used.contains(0u32));
                assert(spec_next_id(doll_id_factory@) == Some(0u32));
            }
            let id = match doll_id_factory.get_next() {
                Ok(id) => id,
                Err(_) => {
                    proof {
                        assert(false);
                    }
                    unreached()
                },
            };
            let d = Doll::new(id);
            dolls.push(d);
            proof {
                assert(id == 0);
                let after = dolls@.map_values(|dd: Doll| dd@);
                assert(after =~= seq![DollModel::spec_new(0)]);
                assert(doll_ids(after).len() == 1);
                assert(doll_ids(after)[0] == 0u32);
                assert(doll_ids(after).contains(0u32));
                assert forall|y: u32| doll_ids(after).contains(y) implies y == 0u32 by {
                    let k = choose|k: int| 0 <= k < doll_ids(after).len() && doll_ids(after)[k] == y;
                }
                assert(doll_id_factory@.used =~= id_set(doll_ids(after)));
            }
        }

        let mut slots: Vec<Slot> = Vec::new();
        let mut slot_id_factory = IdFactory::new();
        proof {
            assert(input_s.skip(0) =~= input_s);
            assert(slots@.map_values(|s: Slot| s@) =~= Seq::<SlotModel>::empty());
            assert(slot_id_factory@.used =~= id_set(slot_ids(slots@.map_values(|s: Slot| s@))));
        }
        let mut i: usize = 0;
        while i < slot_list.len()
            invariant
                i <= slot_list@.len(),
                input_s == slot_list@.map_values(|s: Slot| s@),
                input_s.len() == slot_list@.len(),
                input_d == doll_list@.map_values(|d: Doll| d@),
                spec_load_dolls(Seq::empty(), Set::empty(), input_d) is Ok,
                slot_id_factory.wf(),
                slot_id_factory@.space == FULL_ID_SPACE,
                slot_id_factory@.cursor == 0,
                slots@.len() == i,
                strictly_sorted(slot_ids(slots@.map_values(|s: Slot| s@))),
                slot_id_factory@.used == id_set(slot_ids(slots@.map_values(|s: Slot| s@))),
                spec_load_slots(Seq::empty(), Set::empty(), input_s) == spec_load_slots(
                    slots@.map_values(|s: Slot| s@),
                    slot_id_factory@.used,
                    input_s.skip(i as int),
                ),
            decreases slot_list@.len() - i,
        {
            let s = slot_list[i].clone();
            let id = s.id;
            proof {
                assert(input_s.skip(i as int)[0] == input_s[i as int]);
                assert(input_s[i as int] == slot_list@[i as int]@);
                assert(s@.id == id);
            }
            match slot_id_factory.take_up(id) {
                Err(e) => {
                    proof {
                        assert(spec_load_slots(Seq::empty(), Set::empty(), input_s) == Err::<
                            (Seq<SlotModel>, Set<u32>),
                            Error,
                        >(Error::DuplicateId { id }));
                    }
                    return Err(e);
                },
                Ok(()) => {},
            }
            let ghost acc_pre = slots@.map_values(|ss: Slot| ss@);
            let pos = slot_insert_pos(&slots, id);
            let ghost slots_pre = slots@;
            slots.insert(pos, s);
            proof {
                lemma_slot_view_insert(slots_pre, pos as int, s);
                lemma_slot_ids_insert(acc_pre, pos as int, s@);
                lemma_id_set_insert(slot_ids(acc_pre), pos as int, id);
                assert(!slot_ids(acc_pre).contains(id));
                lemma_sorted_insert(slot_ids(acc_pre), id, pos as int);
                assert(input_s.skip(i as int).drop_first() =~= input_s.skip(i as int + 1));
                assert(slots@.map_values(|ss: Slot| ss@) =~= acc_pre.insert(pos as int, s@));
            }
            i = i + 1;
        }
        proof {
            assert(input_s.skip(i as int).len() == 0);
        }

        let mut fragments: Vec<Fragment> = Vec::new();
        let mut fragment_id_factory = IdFactory::new();
        proof {
            assert(input_f.skip(0) =~= input_f);
            assert(fragments@.map_values(|f: Fragment| f@) =~= Seq::<FragmentModel>::empty());
            assert(fragment_id_factory@.used =~= id_set(
                fragment_ids(fragments@.map_values(|f: Fragment| f@)),
            ));
        }
        let mut i: usize = 0;
        while i < fragment_list.len()
            invariant
                i <= fragment_list@.len(),
                input_f == fragment_list@.map_values(|f: Fragment| f@),
                input_f.len() == fragment_list@.len(),
                input_d == doll_list@.map_values(|d: Doll| d@),
                input_s == slot_list@.map_values(|s: Slot| s@),
                spec_load_dolls(Seq::empty(), Set::empty(), input_d) is Ok,
                spec_load_slots(Seq::empty(), Set::empty(), input_s) is Ok,
                fragment_id_factory.wf(),
                fragment_id_factory@.space == FULL_ID_SPACE,
                fragment_id_factory@.cursor == 0,
                fragments@.len() == i,
                strictly_sorted(fragment_ids(fragments@.map_values(|f: Fragment| f@))),
                fragment_id_factory@.used == id_set(
                    fragment_ids(fragments@.map_values(|f: Fragment| f@)),
                ),
                spec_load_fragments(Seq::empty(), Set::empty(), input_f) == spec_load_fragments(
                    fragments@.map_values(|f: Fragment| f@),
                    fragment_id_factory@.used,
                    input_f.skip(i as int),
                ),
            decreases fragment_list@.len() - i,
        {
            let f = fragment_list[i].clone();
            let id = f.id;
            proof {
                assert(input_f.skip(i as int)[0] == input_f[i as int]);
                assert(input_f[i as int] == fragment_list@[i as int]@);
                assert(f@.id == id);
            }
            match fragment_id_factory.take_up(id) {
                Err(e) => {
                    proof {
                        assert(spec_load_fragments(Seq::empty(), Set::empty(), input_f) == Err::<
                            (Seq<FragmentModel>, Set<u32>),
                            Error,
                        >(Error::DuplicateId { id }));
                    }
                    return Err(e);
                },
                Ok(()) => {},
            }
            let ghost acc_pre = fragments@.map_values(|ff: Fragment| ff@);
            let pos = fragment_insert_pos(&fragments, id);
            let ghost fragments_pre = fragments@;
            fragments.insert(pos, f);
            proof {
                lemma_fragment_view_insert(fragments_pre, pos as int, f);
                lemma_fragment_ids_insert(acc_pre, pos as int, f@);
                lemma_id_set_insert(fragment_ids(acc_pre), pos as int, id);
                assert(!fragment_ids(acc_pre).contains(id));
                lemma_sorted_insert(fragment_ids(acc_pre), id, pos as int);
                assert(input_f.skip(i as int).drop_first() =~= input_f.skip(i as int + 1));
                assert(fragments@.map_values(|ff: Fragment| ff@) =~= acc_pre.insert(
                    pos as int,
                    f@,
                ));
            }
            i = i + 1;
        }
        proof {
            assert(input_f.skip(i as int).len() == 0);
        }

        let factory = PaperdollFactory {
            meta,
            doll_id_factory,
            slot_id_factory,
            fragment_id_factory,
            dolls,
            slots,
            fragments,
        };
        proof {
            let m = spec_new_store(meta@, input_d, input_s, input_f);
            assert(m matches Ok(mm) && factory@ =~~= mm);
        }
        Ok(factory)
    }

    /// Creates a paper doll factory from the given manifest.
    ///
    /// Calls [`Self::new`] under the hood.
    pub fn from_manifest(manifest: Manifest) -> (r: Result<PaperdollFactory, Error>)
        ensures
            match spec_new_store(
                manifest@.meta,
                manifest@.dolls,
                manifest@.slots,
                manifest@.fragments,
            ) {
                Ok(m) => r matches Ok(f) && f.wf() && f@ == m,
                Err(e) => r == Err::<PaperdollFactory, Error>(e),
            },
    {
        PaperdollFactory::new(manifest.meta, manifest.dolls, manifest.slots, manifest.fragments)
    }

    /// Creates a manifest based on the data of this factory.
    pub fn to_manifest(&self) -> (r: Manifest)
        ensures
            r@.meta == self@.meta,
            r@.dolls == self@.dolls,
            r@.slots == self@.slots,
            r@.fragments == self@.fragments,
    {
        Manifest {
            meta: self.meta.clone(),
            dolls: clone_dolls(&self.dolls),
            slots: clone_slots(&self.slots),
            fragments: clone_fragments(&self.fragments),
        }
    }
}

/// The index of the first occurrence of an id in a plain id list, if any.
fn find_pos_u32(v: &Vec<u32>, x: u32) -> (r: Option<usize>)
    ensures
        match r {
            Some(p) => p < v@.len() && v@.index_of_first(x) == Some(p as int),
            None => v@.index_of_first(x) is None,
        },
{
    let mut i: usize = 0;
    while i < v.len()
        invariant
            i <= v@.len(),
            forall|k: int| 0 <= k < i ==> v@[k] != x,
        decreases v@.len() - i,
    {
        if v[i] == x {
            proof {
                v@.index_of_first_ensures(x);
                assert(v@.contains(x));
            }
            return Some(i);
        }
        i = i + 1;
    }
    proof {
        v@.index_of_first_ensures(x);
        if v@.contains(x) {
            let k = choose|k: int| 0 <= k < v@.len() && v@[k] == x;
            assert(false);
        }
    }
    None
}

/// Scrubs the first occurrence of a slot id from every doll's slot list.
fn scrub_dolls(v: &mut Vec<Doll>, id: u32)
    ensures
        final(v)@.map_values(|d: Doll| d@) == old(v)@.map_values(|d: Doll| d@).map_values(
            |d: DollModel| scrub_doll(d, id),
        ),
{
    let mut i: usize = 0;
    while i < v.len()
        invariant
            i <= v@.len(),
            v@.len() == old(v)@.len(),
            forall|k: int| 0 <= k < i ==> v@[k]@ == scrub_doll(old(v)@[k]@, id),
            forall|k: int| i <= k < v@.len() ==> v@[k]@ == old(v)@[k]@,
        decreases v@.len() - i,
    {
        let mut d = v[i].clone();
        match find_pos_u32(&d.slots, id) {
            Some(p) => {
                d.slots.remove(p);
            },
            None => {},
        }
        proof {
            assert(d@ =~~= scrub_doll(old(v)@[i as int]@, id));
        }
        v.set(i, d);
        i = i + 1;
    }
    proof {
        assert(v@.map_values(|d: Doll| d@) =~= old(v)@.map_values(|d: Doll| d@).map_values(
            |d: DollModel| scrub_doll(d, id),
        ));
    }
}

/// Scrubs the first occurrence of a fragment id from every slot's candidate
/// list.
fn scrub_slots(v: &mut Vec<Slot>, id: u32)
    ensures
        final(v)@.map_values(|s: Slot| s@) == old(v)@.map_values(|s: Slot| s@).map_values(
            |s: SlotModel| scrub_slot(s, id),
        ),
{
    let mut i: usize = 0;
    while i < v.len()
        invariant
            i <= v@.len(),
            v@.len() == old(v)@.len(),
            forall|k: int| 0 <= k < i ==> v@[k]@ == scrub_slot(old(v)@[k]@, id),
            forall|k: int| i <= k < v@.len() ==> v@[k]@ == old(v)@[k]@,
        decreases v@.len() - i,
    {
        let mut s = v[i].clone();
        match find_pos_u32(&s.candidates, id) {
            Some(p) => {
                s.candidates.remove(p);
            },
            None => {},
        }
        proof {
            assert(s@ =~~= scrub_slot(old(v)@[i as int]@, id));
        }
        v.set(i, s);
        i = i + 1;
    }
    proof {
        assert(v@.map_values(|s: Slot| s@) =~= old(v)@.map_values(|s: Slot| s@).map_values(
            |s: SlotModel| scrub_slot(s, id),
        ));
    }
}

impl PaperdollFactory {
    /// Removes the slot with the given id from the factory, frees the id,
    /// and scrubs the id from every doll's slot list.
    ///
    /// Returns the removed slot if it was previously in the factory,
    /// otherwise returns [`None`] and changes nothing.
    pub fn remove_slot(&mut self, id: u32) -> (r: Option<Slot>)
        requires
            old(self).wf(),
        ensures
            final(self).wf(),
            final(self)@ == spec_remove_slot(old(self)@, id).0,
            match (r, spec_remove_slot(old(self)@, id).1) {
                (Some(s), Some(sm)) => s@ == sm,
                (None, None) => true,
                _ => false,
            },
    {
        match slot_pos(&self.slots, id) {
            None => {
                proof {
                    assert(self@ =~~= spec_remove_slot(old(self)@, id).0);
                }
                None
            },
            Some(p) => {
                let ghost pre = old(self)@;
                let s = self.slots.remove(p);
                self.slot_id_factory.remove(id);
                scrub_dolls(&mut self.dolls, id);
                proof {
                    lemma_slot_view_remove(old(self).slots@, p as int);
                    lemma_slot_ids_remove(pre.slots, p as int);
                    slot_ids(pre.slots).index_of_first_ensures(id);
                    assert(slot_ids(pre.slots)[p as int] == id);
                    lemma_id_set_remove(slot_ids(pre.slots), p as int);
                    assert(self@.dolls == pre.dolls.map_values(
                        |d: DollModel| scrub_doll(d, id),
                    ));
                    assert(self@ =~~= spec_remove_slot(pre, id).0);
                    assert(doll_ids(self@.dolls) =~= doll_ids(pre.dolls));
                }
                Some(s)
            },
        }
    }

    /// Removes the fragment with the given id from the factory, frees the
    /// id, and scrubs the id from every slot's candidate list. Dolls are
    /// untouched.
    ///
    /// Returns the removed fragment if it was previously in the factory,
    /// otherwise returns [`None`] and changes nothing.
    pub fn remove_fragment(&mut self, id: u32) -> (r: Option<Fragment>)
        requires
            old(self).wf(),
        ensures
            final(self).wf(),
            final(self)@ == spec_remove_fragment(old(self)@, id).0,
            match (r, spec_remove_fragment(old(self)@, id).1) {
                (Some(f), Some(fm)) => f@ == fm,
                (None, None) => true,
                _ => false,
            },
    {
        match fragment_pos(&self.fragments, id) {
            None => {
                proof {
                    assert(self@ =~~= spec_remove_fragment(old(self)@, id).0);
                }
                None
            },
            Some(p) => {
                let ghost pre = old(self)@;
                let f = self.fragments.remove(p);
                self.fragment_id_factory.remove(id);
                scrub_slots(&mut self.slots, id);
                proof {
                    lemma_fragment_view_remove(old(self).fragments@, p as int);
                    lemma_fragment_ids_remove(pre.fragments, p as int);
                    fragment_ids(pre.fragments).index_of_first_ensures(id);
                    assert(fragment_ids(pre.fragments)[p as int] == id);
                    lemma_id_set_remove(fragment_ids(pre.fragments), p as int);
                    assert(self@.slots == pre.slots.map_values(
                        |s: SlotModel| scrub_slot(s, id),
                    ));
                    assert(self@ =~~= spec_remove_fragment(pre, id).0);
                    assert(slot_ids(self@.slots) =~= slot_ids(pre.slots));
                }
                Some(f)
            },
        }
    }

    /// Removes the doll with the given id from the factory, frees the id,
    /// and removes every slot in the doll's slot list in turn (each removal
    /// cascading as [`Self::remove_slot`]).
    ///
    /// Returns the removed doll if it was previously in the factory,
    /// otherwise returns [`None`] and changes nothing.
    pub fn remove_doll(&mut self, id: u32) -> (r: Option<Doll>)
        requires
            old(self).wf(),
        ensures
            final(self).wf(),
            final(self)@ == spec_remove_doll(old(self)@, id).0,
            match (r, spec_remove_doll(old(self)@, id).1) {
                (Some(d), Some(dm)) => d@ == dm,
                (None, None) => true,
                _ => false,
            },
    {
        match doll_pos(&self.dolls, id) {
            None => {
                proof {
                    assert(self@ =~~= spec_remove_doll(old(self)@, id).0);
                }
                None
            },
            Some(p) => {
                let ghost pre = old(self)@;
                let d = self.dolls.remove(p);
                self.doll_id_factory.remove(id);
                proof {
                    lemma_doll_view_remove(old(self).dolls@, p as int);
                    lemma_doll_ids_remove(pre.dolls, p as int);
                    doll_ids(pre.dolls).index_of_first_ensures(id);
                    assert(doll_ids(pre.dolls)[p as int] == id);
                    lemma_id_set_remove(doll_ids(pre.dolls), p as int);
                }
                let ghost m1 = self@;
                proof {
                    assert(self.wf());
                    assert(d@ == pre.dolls[p as int]);
                    assert(d@.slots.skip(0) =~= d@.slots);
                }
                let mut i: usize = 0;
                while i < d.slots.len()
                    invariant
                        self.wf(),
                        i <= d.slots@.len(),
                        spec_cascade_slots(m1, d@.slots) == spec_cascade_slots(
                            self@,
                            d@.slots.skip(i as int),
                        ),
                    decreases d.slots@.len() - i,
                {
                    let sid = d.slots[i];
                    proof {
                        assert(d@.slots.skip(i as int)[0] == d@.slots[i as int]);
                    }
                    let ghost before = self@;
                    let _ = self.remove_slot(sid);
                    proof {
                        assert(self@ == spec_remove_slot(before, sid).0);
                        assert(d@.slots.skip(i as int).drop_first() =~= d@.slots.skip(
                            i as int + 1,
                        ));
                    }
                    i = i + 1;
                }
                proof {
                    assert(d@.slots.skip(d.slots@.len() as int).len() == 0);
                    assert(spec_cascade_slots(m1, d@.slots) == self@);
                    assert(spec_remove_doll(pre, id).0 == spec_cascade_slots(m1, d@.slots)) by {
                        assert(m1 =~~= (StoreModel {
                            dolls: pre.dolls.remove(p as int),
                            doll_alloc: alloc_remove(pre.doll_alloc, id),
                            ..pre
                        }));
                    }
                }
                Some(d)
            },
        }
    }
}

/// The index of the doll carrying the given id, or -1 when absent.
pub open spec fn doll_index(m: StoreModel, id: u32) -> int {
    match doll_ids(m.dolls).index_of_first(id) {
        Some(k) => k,
        None => -1,
    }
}

/// The index of the slot carrying the given id, or -1 when absent.
pub open spec fn slot_index(m: StoreModel, id: u32) -> int {
    match slot_ids(m.slots).index_of_first(id) {
        Some(k) => k,
        None => -1,
    }
}

/// The index of the fragment carrying the given id, or -1 when absent.
pub open spec fn fragment_index(m: StoreModel, id: u32) -> int {
    match fragment_ids(m.fragments).index_of_first(id) {
        Some(k) => k,
        None => -1,
    }
}

/// Copies a doll list element by element.
fn clone_dolls(v: &Vec<Doll>) -> (r: Vec<Doll>)
    ensures
        r@.map_values(|d: Doll| d@) == v@.map_values(|d: Doll| d@),
{
    let mut r: Vec<Doll> = Vec::new();
    let mut i: usize = 0;
    while i < v.len()
        invariant
            i <= v@.len(),
            r@.len() == i,
            forall|k: int| 0 <= k < i ==> r@[k]@ == v@[k]@,
        decreases v@.len() - i,
    {
        r.push(v[i].clone());
        i = i + 1;
    }
    proof {
        assert(r@.map_values(|d: Doll| d@) =~= v@.map_values(|d: Doll| d@));
    }
    r
}

/// Copies a slot list element by element.
fn clone_slots(v: &Vec<Slot>) -> (r: Vec<Slot>)
    ensures
        r@.map_values(|s: Slot| s@) == v@.map_values(|s: Slot| s@),
{
    let mut r: Vec<Slot> = Vec::new();
    let mut i: usize = 0;
    while i < v.len()
        invariant
            i <= v@.len(),
            r@.len() == i,
            forall|k: int| 0 <= k < i ==> r@[k]@ == v@[k]@,
        decreases v@.len() - i,
    {
        r.push(v[i].clone());
        i = i + 1;
    }
    proof {
        assert(r@.map_values(|s: Slot| s@) =~= v@.map_values(|s: Slot| s@));
    }
    r
}

/// Copies a fragment list element by element.
fn clone_fragments(v: &Vec<Fragment>) -> (r: Vec<Fragment>)
    ensures
        r@.map_values(|f: Fragment| f@) == v@.map_values(|f: Fragment| f@),
{
    let mut r: Vec<Fragment> = Vec::new();
    let mut i: usize = 0;
    while i < v.len()
        invariant
            i <= v@.len(),
            r@.len() == i,
            forall|k: int| 0 <= k < i ==> r@[k]@ == v@[k]@,
        decreases v@.len() - i,
    {
        r.push(v[i].clone());
        i = i + 1;
    }
    proof {
        assert(r@.map_values(|f: Fragment| f@) =~= v@.map_values(|f: Fragment| f@));
    }
    r
}

// ---------------------------------------------------------------------------
// Analysis: resolving a doll and a selection into placed render pieces
// ---------------------------------------------------------------------------

/// An exact coordinate clamped into the 64-bit range. On every value a real
/// canvas can name, this is the identity.
pub open spec fn clamp_i64(v: int) -> i64 {
    if v > i64::MAX {
        i64::MAX
    } else if v < i64::MIN {
        i64::MIN
    } else {
        v as i64
    }
}

/// Anchor-mode placement, per axis: slot position plus slot anchor minus
/// fragment pivot, so the pivot lands exactly on the anchor.
pub open spec fn spec_place(pos: Point, anchor: Point, pivot: Point) -> Point {
    Point {
        x: clamp_i64(pos.x + anchor.x - pivot.x),
        y: clamp_i64(pos.y + anchor.y - pivot.y),
    }
}

/// The image a piece carries: the slot's own box in constrainted mode, the
/// fragment's native size otherwise; the pixel payload only when asked for.
pub open spec fn spec_piece_image(slot: SlotModel, frag: FragmentModel, only_id: bool) -> ImageModel {
    ImageModel {
        width: if slot.constrainted {
            slot.width
        } else {
            frag.image.width
        },
        height: if slot.constrainted {
            slot.height
        } else {
            frag.image.height
        },
        color_type: frag.image.color_type,
        pixels: if only_id {
            Seq::empty()
        } else {
            frag.image.pixels
        },
    }
}

/// One piece: the chosen fragment at one declared slot position. In
/// constrainted mode the piece sits at the position itself; otherwise it is
/// placed by anchor and pivot.
pub open spec fn spec_piece(slot: SlotModel, frag: FragmentModel, pos: Point, only_id: bool) -> RenderPieceModel {
    RenderPieceModel {
        id: frag.id,
        position: if slot.constrainted {
            pos
        } else {
            spec_place(pos, slot.anchor, frag.pivot)
        },
        image: spec_piece_image(slot, frag, only_id),
    }
}

/// All pieces of one slot: one per declared position, in position order.
pub open spec fn spec_slot_pieces(slot: SlotModel, frag: FragmentModel, only_id: bool) -> Seq<
    RenderPieceModel,
> {
    Seq::new(slot.positions.len(), |j: int| spec_piece(slot, frag, slot.positions[j], only_id))
}

/// The fragment a slot displays under a selection: the selected fragment if
/// the selection names the slot; else, for a required slot with at least one
/// candidate, its first declared candidate; else nothing.
pub open spec fn spec_chosen_fragment(slot: SlotModel, selection: Map<u32, u32>) -> Option<u32> {
    if selection.dom().contains(slot.id) {
        Some(selection[slot.id])
    } else if slot.required && slot.candidates.len() > 0 {
        Some(slot.candidates[0])
    } else {
        None
    }
}

/// The pieces contributed by a list of slot ids, resolved in list order.
/// A slot id that does not resolve is a data-integrity error; a fragment
/// that does not resolve, or resolves to an empty image, fails too.
pub open spec fn spec_resolve_slots(
    m: StoreModel,
    ids: Seq<u32>,
    selection: Map<u32, u32>,
    only_id: bool,
) -> Result<Seq<RenderPieceModel>, Error>
    decreases ids.len(),
{
    if ids.len() == 0 {
        Ok(Seq::empty())
    } else {
        let sid = ids[0];
        match spec_find_slot(m, sid) {
            None => Err(Error::EntityNotFound { kind: EntityKind::Slot, id: sid }),
            Some(slot) => match spec_chosen_fragment(slot, selection) {
                None => spec_resolve_slots(m, ids.drop_first(), selection, only_id),
                Some(fid) => match spec_find_fragment(m, fid) {
                    None => Err(Error::EntityNotFound { kind: EntityKind::Fragment, id: fid }),
                    Some(frag) => if frag.image.pixels.len() == 0 {
                        Err(Error::EmptyImageUsed { fragment_id: fid })
                    } else {
                        match spec_resolve_slots(m, ids.drop_first(), selection, only_id) {
                            Err(e) => Err(e),
                            Ok(rest) => Ok(spec_slot_pieces(slot, frag, only_id) + rest),
                        }
                    },
                },
            },
        }
    }
}

/// The background piece of a doll: present exactly when the doll carries a
/// non-empty background image, placed at the doll's offset.
pub open spec fn spec_doll_piece(d: DollModel, only_id: bool) -> Option<RenderPieceModel> {
    if d.image.pixels.len() == 0 {
        None
    } else {
        Some(
            RenderPieceModel {
                id: d.id,
                position: d.offset,
                image: ImageModel {
                    width: d.image.width,
                    height: d.image.height,
                    color_type: d.image.color_type,
                    pixels: if only_id {
                        Seq::empty()
                    } else {
                        d.image.pixels
                    },
                },
            },
        )
    }
}

/// Resolving one doll and one selection into a render material: canvas size
/// from the doll, the background piece if any, and the slot pieces in slot
/// list order, position order within a slot.
pub open spec fn spec_analyse(
    m: StoreModel,
    doll: u32,
    selection: Map<u32, u32>,
    only_id: bool,
) -> Result<RenderMaterialModel, Error> {
    match spec_find_doll(m, doll) {
        None => Err(Error::EntityNotFound { kind: EntityKind::Doll, id: doll }),
        Some(d) => match spec_resolve_slots(m, d.slots, selection, only_id) {
            Err(e) => Err(e),
            Ok(pieces) => Ok(
                RenderMaterialModel {
                    width: d.width,
                    height: d.height,
                    doll: spec_doll_piece(d, only_id),
                    slots: pieces,
                },
            ),
        },
    }
}

/// Law: analysis is deterministic. For one store state and one selection,
/// any two results that satisfy the analyser's contract are equal, byte for
/// byte.
pub proof fn lemma_analyse_deterministic(
    m: StoreModel,
    doll: u32,
    selection: Map<u32, u32>,
    only_id: bool,
    r1: Result<RenderMaterialModel, Error>,
    r2: Result<RenderMaterialModel, Error>,
)
    requires
        r1 == spec_analyse(m, doll, selection, only_id),
        r2 == spec_analyse(m, doll, selection, only_id),
    ensures
        r1 == r2,
{
}

/// Clamped placement arithmetic: exact inside the 64-bit range, saturating
/// at its ends.
fn clamp_add_sub(a: i64, b: i64, c: i64) -> (r: i64)
    ensures
        r == clamp_i64(a + b - c),
{
    let v: i128 = a as i128 + b as i128 - c as i128;
    if v > i64::MAX as i128 {
        i64::MAX
    } else if v < i64::MIN as i128 {
        i64::MIN
    } else {
        v as i64
    }
}

/// Builds the image payload one piece carries.
fn piece_image(slot: &Slot, frag: &Fragment, only_id: bool) -> (r: ImageData)
    ensures
        r@ == spec_piece_image(slot@, frag@, only_id),
{
    let width = if slot.constrainted {
        slot.width
    } else {
        frag.image.width
    };
    let height = if slot.constrainted {
        slot.height
    } else {
        frag.image.height
    };
    let pixels = if only_id {
        Vec::new()
    } else {
        copy_bytes(&frag.image.pixels)
    };
    let r = ImageData { width, height, color_type: frag.image.color_type, pixels };
    proof {
        if only_id {
            assert(r@.pixels =~= Seq::<u8>::empty());
        }
    }
    r
}

/// Appends the pieces of one slot, one per declared position, in order.
fn push_slot_pieces(out: &mut Vec<RenderPiece>, slot: &Slot, frag: &Fragment, only_id: bool)
    ensures
        final(out)@.map_values(|p: RenderPiece| p@) == old(out)@.map_values(|p: RenderPiece| p@)
            + spec_slot_pieces(slot@, frag@, only_id),
{
    let ghost pieces = spec_slot_pieces(slot@, frag@, only_id);
    let ghost base = old(out)@.len();
    let mut j: usize = 0;
    while j < slot.positions.len()
        invariant
            j <= slot.positions@.len(),
            pieces == spec_slot_pieces(slot@, frag@, only_id),
            pieces.len() == slot.positions@.len(),
            base == old(out)@.len(),
            out@.len() == base + j,
            forall|k: int| 0 <= k < base ==> out@[k] == old(out)@[k],
            forall|k: int| 0 <= k < j ==> out@[base + k]@ == pieces[k],
        decreases slot.positions@.len() - j,
    {
        let pos = slot.positions[j];
        let position = if slot.constrainted {
            pos
        } else {
            Point {
                x: clamp_add_sub(pos.x, slot.anchor.x, frag.pivot.x),
                y: clamp_add_sub(pos.y, slot.anchor.y, frag.pivot.y),
            }
        };
        let image = piece_image(slot, frag, only_id);
        let piece = RenderPiece { id: frag.id, position, image };
        proof {
            assert(piece@ == spec_piece(slot@, frag@, slot@.positions[j as int], only_id));
            assert(piece@ == pieces[j as int]);
        }
        out.push(piece);
        j = j + 1;
    }
    proof {
        assert(out@.map_values(|p: RenderPiece| p@) =~= old(out)@.map_values(|p: RenderPiece| p@)
            + pieces);
    }
}

/// A found doll carries the id it was looked up by.
pub proof fn lemma_find_doll_id(m: StoreModel, id: u32)
    ensures
        spec_find_doll(m, id) matches Some(d) ==> d.id == id,
{
    doll_ids(m.dolls).index_of_first_ensures(id);
}

/// A found slot carries the id it was looked up by.
pub proof fn lemma_find_slot_id(m: StoreModel, id: u32)
    ensures
        spec_find_slot(m, id) matches Some(s) ==> s.id == id,
{
    slot_ids(m.slots).index_of_first_ensures(id);
}

/// A found fragment carries the id it was looked up by.
pub proof fn lemma_find_fragment_id(m: StoreModel, id: u32)
    ensures
        spec_find_fragment(m, id) matches Some(f) ==> f.id == id,
{
    fragment_ids(m.fragments).index_of_first_ensures(id);
}

/// A piece prefix combined with the outcome of resolving the remaining
/// slots: an error passes through, pieces are appended.
pub open spec fn combine_pieces(
    prefix: Seq<RenderPieceModel>,
    rest: Result<Seq<RenderPieceModel>, Error>,
) -> Result<Seq<RenderPieceModel>, Error> {
    match rest {
        Err(e) => Err(e),
        Ok(r) => Ok(prefix + r),
    }
}

impl PaperdollFactory {
    /// Returns the structure of the paper doll: the canvas size, the
    /// background piece if any, and one placed piece per declared position
    /// of every slot that displays a fragment, in slot list order and
    /// position order — exactly [`spec_analyse`] of the store.
    ///
    /// # Arguments
    ///
    /// - `doll`: The id of the doll to be displayed.
    /// - `slot_map`: A map with the id of a slot as key and the id of the
    ///   fragment used in that slot as value.
    /// - `only_id`: When true the pieces carry only dimensions and format,
    ///   no pixel payload.
    pub fn analyse(&self, doll: u32, slot_map: &HashMap<u32, u32>, only_id: bool) -> (r: Result<
        RenderMaterial,
        Error,
    >)
        ensures
            match spec_analyse(self@, doll, slot_map@, only_id) {
                Ok(mm) => r matches Ok(mat) && mat@ == mm,
                Err(e) => r == Err::<RenderMaterial, Error>(e),
            },
    {
        let doll_ref = match self.get_doll(doll) {
            Some(d) => d,
            None => {
                return Err(Error::EntityNotFound { kind: EntityKind::Doll, id: doll });
            },
        };
        let ghost dm = doll_ref@;
        let ghost sel = slot_map@;
        let width = doll_ref.width;
        let height = doll_ref.height;
        let mut slots_out: Vec<RenderPiece> = Vec::new();
        proof {
            assert(dm.slots.skip(0) =~= dm.slots);
            assert(slots_out@.map_values(|p: RenderPiece| p@) =~= Seq::<RenderPieceModel>::empty());
            match spec_resolve_slots(self@, dm.slots, sel, only_id) {
                Ok(rr) => {
                    assert(Seq::<RenderPieceModel>::empty() + rr =~= rr);
                },
                Err(_) => {},
            }
        }
        let mut i: usize = 0;
        while i < doll_ref.slots.len()
            invariant
                i <= dm.slots.len(),
                doll_ref@ == dm,
                sel == slot_map@,
                spec_find_doll(self@, doll) == Some(dm),
                spec_resolve_slots(self@, dm.slots, sel, only_id) == combine_pieces(
                    slots_out@.map_values(|p: RenderPiece| p@),
                    spec_resolve_slots(self@, dm.slots.skip(i as int), sel, only_id),
                ),
            decreases dm.slots.len() - i,
        {
            let sid = doll_ref.slots[i];
            proof {
                assert(dm.slots.skip(i as int)[0] == dm.slots[i as int]);
            }
            let slot = match self.get_slot(sid) {
                Some(s) => s,
                None => {
                    return Err(Error::EntityNotFound { kind: EntityKind::Slot, id: sid });
                },
            };
            proof {
                lemma_find_slot_id(self@, sid);
                assert(slot@.id == sid);
            }
            let fid_opt: Option<u32> = match slot_map.get(&sid) {
                Some(f) => Some(*f),
                None => {
                    if slot.required && slot.candidates.len() > 0 {
                        Some(slot.candidates[0])
                    } else {
                        None
                    }
                },
            };
            proof {
                assert(fid_opt == spec_chosen_fragment(slot@, sel));
                assert(dm.slots.skip(i as int).drop_first() =~= dm.slots.skip(i as int + 1));
            }
            match fid_opt {
                None => {},
                Some(fid) => {
                    let frag = match self.get_fragment(fid) {
                        Some(f) => f,
                        None => {
                            return Err(
                                Error::EntityNotFound { kind: EntityKind::Fragment, id: fid },
                            );
                        },
                    };
                    if frag.image.pixels.len() == 0 {
                        return Err(Error::EmptyImageUsed { fragment_id: fid });
                    }
                    let ghost prefix = slots_out@.map_values(|p: RenderPiece| p@);
                    push_slot_pieces(&mut slots_out, slot, frag, only_id);
                    proof {
                        let pieces = spec_slot_pieces(slot@, frag@, only_id);
                        match spec_resolve_slots(self@, dm.slots.skip(i as int + 1), sel, only_id) {
                            Ok(rest) => {
                                assert(prefix + (pieces + rest) =~= (prefix + pieces) + rest);
                            },
                            Err(_) => {},
                        }
                    }
                },
            }
            i = i + 1;
        }
        proof {
            assert(dm.slots.skip(dm.slots.len() as int).len() == 0);
            let prefix = slots_out@.map_values(|p: RenderPiece| p@);
            assert(prefix + Seq::<RenderPieceModel>::empty() =~= prefix);
            assert(spec_resolve_slots(self@, dm.slots, sel, only_id) == Ok::<
                Seq<RenderPieceModel>,
                Error,
            >(prefix));
        }
        let doll_piece: Option<RenderPiece> = if doll_ref.image.pixels.len() == 0 {
            None
        } else {
            let pixels = if only_id {
                Vec::new()
            } else {
                copy_bytes(&doll_ref.image.pixels)
            };
            let image = ImageData {
                width: doll_ref.image.width,
                height: doll_ref.image.height,
                color_type: doll_ref.image.color_type,
                pixels,
            };
            proof {
                if only_id {
                    assert(image@.pixels =~= Seq::<u8>::empty());
                }
            }
            Some(RenderPiece { id: doll_ref.id, position: doll_ref.offset, image })
        };
        let material = RenderMaterial { width, height, doll: doll_piece, slots: slots_out };
        proof {
            assert(spec_analyse(self@, doll, sel, only_id) matches Ok(mm) && material@ =~~= mm);
        }
        Ok(material)
    }

    /// Returns the structure of the given paperdoll.
    ///
    /// Calls [`Self::analyse`] under the hood.
    pub fn analyse_paperdoll(&self, paperdoll: &Paperdoll, only_id: bool) -> (r: Result<
        RenderMaterial,
        Error,
    >)
        ensures
            match spec_analyse(self@, paperdoll@.doll, paperdoll@.slot_map, only_id) {
                Ok(mm) => r matches Ok(mat) && mat@ == mm,
                Err(e) => r == Err::<RenderMaterial, Error>(e),
            },
    {
        self.analyse(paperdoll.doll, &paperdoll.slot_map, only_id)
    }
}

// ---------------------------------------------------------------------------
// Rendering: painting an analysed material onto one pixel buffer
// ---------------------------------------------------------------------------

/// Painting a list of pieces onto a canvas, strictly back to front.
pub open spec fn spec_paint_all(
    buf: Seq<u8>,
    cw: int,
    ch: int,
    pieces: Seq<RenderPieceModel>,
) -> Seq<u8>
    decreases pieces.len(),
{
    if pieces.len() == 0 {
        buf
    } else {
        let p = pieces[0];
        spec_paint_all(
            spec_paint(
                buf,
                cw,
                ch,
                p.position.x as int,
                p.position.y as int,
                p.image.width as int,
                p.image.pixels,
            ),
            cw,
            ch,
            pieces.drop_first(),
        )
    }
}

/// A rendered paper doll: the canvas starts fully transparent black, the
/// background piece is painted first, then every slot piece in material
/// order.
pub open spec fn spec_render(m: StoreModel, doll: u32, selection: Map<u32, u32>) -> Result<
    ImageModel,
    Error,
> {
    match spec_analyse(m, doll, selection, false) {
        Err(e) => Err(e),
        Ok(mat) => {
            let cw = mat.width as int;
            let ch = mat.height as int;
            let base = Seq::new((cw * ch * 4) as nat, |i: int| 0u8);
            let with_doll = match mat.doll {
                None => base,
                Some(p) => spec_paint(
                    base,
                    cw,
                    ch,
                    p.position.x as int,
                    p.position.y as int,
                    p.image.width as int,
                    p.image.pixels,
                ),
            };
            Ok(
                ImageModel {
                    width: mat.width,
                    height: mat.height,
                    color_type: ColorType::Rgba,
                    pixels: spec_paint_all(with_doll, cw, ch, mat.slots),
                },
            )
        },
    }
}

/// A buffer of `n` zero bytes: a fully transparent black canvas.
fn zero_bytes(n: usize) -> (r: Vec<u8>)
    ensures
        r@ == Seq::new(n as nat, |i: int| 0u8),
{
    let mut r: Vec<u8> = Vec::new();
    let mut i: usize = 0;
    while i < n
        invariant
            i <= n,
            r@.len() == i,
            forall|k: int| 0 <= k < i ==> r@[k] == 0u8,
        decreases n - i,
    {
        r.push(0);
        i = i + 1;
    }
    proof {
        assert(r@ =~= Seq::new(n as nat, |i: int| 0u8));
    }
    r
}

impl PaperdollFactory {
    /// Returns the image data of the rendered paper doll: the analysed
    /// material painted back to front, with source-over alpha compositing,
    /// onto a transparent black canvas — exactly [`spec_render`] of the
    /// store.
    ///
    /// The canvas buffer of `width * height * 4` bytes must be addressable
    /// on this machine.
    ///
    /// # Arguments
    ///
    /// - `doll`: The id of the doll to be displayed.
    /// - `slot_map`: A map with the id of a slot as key and the id of the
    ///   fragment used in that slot as value.
    pub fn render(&self, doll: u32, slot_map: &HashMap<u32, u32>) -> (r: Result<ImageData, Error>)
        requires
            match spec_find_doll(self@, doll) {
                Some(d) => (d.width as int) * (d.height as int) * 4 <= usize::MAX,
                None => true,
            },
        ensures
            match spec_render(self@, doll, slot_map@) {
                Ok(img) => r matches Ok(x) && x@ == img,
                Err(e) => r == Err::<ImageData, Error>(e),
            },
    {
        let material = match self.analyse(doll, slot_map, false) {
            Ok(m) => m,
            Err(e) => {
                return Err(e);
            },
        };
        let ghost mm = material@;
        let ghost cw = material.width as int;
        let ghost ch = material.height as int;
        proof {
            assert(cw * ch * 4 <= usize::MAX);
        }
        let n64: u64 = material.width as u64 * material.height as u64 * 4;
        let n: usize = n64 as usize;
        let mut pixels: Vec<u8> = zero_bytes(n);
        let ghost base = Seq::new((cw * ch * 4) as nat, |i: int| 0u8);
        proof {
            assert(pixels@ =~= base);
        }
        match &material.doll {
            Some(p) => {
                paint_piece(
                    &mut pixels,
                    material.width,
                    material.height,
                    p.position.x,
                    p.position.y,
                    p.image.width,
                    &p.image.pixels,
                );
            },
            None => {},
        }
        let ghost with_doll = pixels@;
        proof {
            assert(mm.slots.skip(0) =~= mm.slots);
        }
        let mut i: usize = 0;
        while i < material.slots.len()
            invariant
                i <= material.slots@.len(),
                material@ == mm,
                cw == material.width as int,
                ch == material.height as int,
                mm.slots.len() == material.slots@.len(),
                pixels@.len() == cw * ch * 4,
                spec_paint_all(with_doll, cw, ch, mm.slots) == spec_paint_all(
                    pixels@,
                    cw,
                    ch,
                    mm.slots.skip(i as int),
                ),
            decreases material.slots@.len() - i,
        {
            let p = &material.slots[i];
            proof {
                assert(mm.slots.skip(i as int)[0] == mm.slots[i as int]);
                assert(mm.slots[i as int] == p@);
            }
            paint_piece(
                &mut pixels,
                material.width,
                material.height,
                p.position.x,
                p.position.y,
                p.image.width,
                &p.image.pixels,
            );
            proof {
                assert(mm.slots.skip(i as int).drop_first() =~= mm.slots.skip(i as int + 1));
            }
            i = i + 1;
        }
        proof {
            assert(mm.slots.skip(mm.slots.len() as int).len() == 0);
        }
        let image = ImageData {
            width: material.width,
            height: material.height,
            color_type: ColorType::Rgba,
            pixels,
        };
        proof {
            assert(spec_render(self@, doll, slot_map@) matches Ok(img) && image@ =~~= img);
        }
        Ok(image)
    }

    /// Returns the image data to render the given paperdoll.
    ///
    /// Calls [`Self::render`] under the hood.
    pub fn render_paperdoll(&self, paperdoll: &Paperdoll) -> (r: Result<ImageData, Error>)
        requires
            match spec_find_doll(self@, paperdoll@.doll) {
                Some(d) => (d.width as int) * (d.height as int) * 4 <= usize::MAX,
                None => true,
            },
        ensures
            match spec_render(self@, paperdoll@.doll, paperdoll@.slot_map) {
                Ok(img) => r matches Ok(x) && x@ == img,
                Err(e) => r == Err::<ImageData, Error>(e),
            },
    {
        self.render(paperdoll.doll, &paperdoll.slot_map)
    }
}

// ---------------------------------------------------------------------------
// Referential-integrity laws
// ---------------------------------------------------------------------------

/// An id list without duplicates.
pub open spec fn nodup(ids: Seq<u32>) -> bool {
    forall|i: int, j: int| 0 <= i < j < ids.len() ==> ids[i] != ids[j]
}

/// Removing the first occurrence of a value from a duplicate-free list
/// removes exactly that value's membership.
proof fn lemma_remove_value_props(s: Seq<u32>, x: u32)
    requires
        nodup(s),
    ensures
        !s.remove_value(x).contains(x),
        forall|y: u32| y != x ==> (s.remove_value(x).contains(y) <==> s.contains(y)),
        nodup(s.remove_value(x)),
{
    s.index_of_first_ensures(x);
    match s.index_of_first(x) {
        None => {
            if s.remove_value(x).contains(x) {
                assert(s.contains(x));
            }
        },
        Some(k) => {
            s.remove_ensures(k);
            let rem = s.remove(k);
            assert forall|y: u32| rem.contains(y) implies s.contains(y) && y != x by {
                let j = choose|j: int| 0 <= j < rem.len() && rem[j] == y;
                if j < k {
                    assert(s[j] == y);
                } else {
                    assert(s[j + 1] == y);
                }
            }
            assert forall|y: u32| s.contains(y) && y != x implies rem.contains(y) by {
                let j = choose|j: int| 0 <= j < s.len() && s[j] == y;
                if j < k {
                    assert(rem[j] == y);
                } else {
                    assert(j != k);
                    assert(rem[j - 1] == y);
                }
            }
            assert forall|a: int, b: int| 0 <= a < b < rem.len() implies rem[a] != rem[b] by {
                let pa = if a < k {
                    a
                } else {
                    a + 1
                };
                let pb = if b < k {
                    b
                } else {
                    b + 1
                };
                assert(rem[a] == s[pa]);
                assert(rem[b] == s[pb]);
            }
        },
    }
}

/// Removing a slot keeps the store well formed, never adds a slot, and takes
/// the removed id out of the store for good.
proof fn lemma_spec_remove_slot_wf(m: StoreModel, id: u32)
    requires
        store_wf(m),
    ensures
        store_wf(spec_remove_slot(m, id).0),
        !slot_ids(spec_remove_slot(m, id).0.slots).contains(id),
        forall|x: u32|
            slot_ids(spec_remove_slot(m, id).0.slots).contains(x) ==> slot_ids(
                m.slots,
            ).contains(x),
{
    slot_ids(m.slots).index_of_first_ensures(id);
    match slot_ids(m.slots).index_of_first(id) {
        None => {
            assert(spec_remove_slot(m, id).0 =~~= m);
        },
        Some(k) => {
            let after = spec_remove_slot(m, id).0;
            lemma_slot_ids_remove(m.slots, k);
            lemma_id_set_remove(slot_ids(m.slots), k);
            assert(after.slots == m.slots.remove(k));
            assert(doll_ids(after.dolls) =~= doll_ids(m.dolls));
            assert(!id_set(slot_ids(after.slots)).contains(id));
            assert forall|x: u32| slot_ids(after.slots).contains(x) implies slot_ids(
                m.slots,
            ).contains(x) by {
                assert(id_set(slot_ids(after.slots)).contains(x));
            }
        },
    }
}

/// Cascading slot removals keep the store well formed, never add a slot,
/// and take every listed id out of the store.
proof fn lemma_cascade_wf_and_gone(m: StoreModel, ids: Seq<u32>)
    requires
        store_wf(m),
    ensures
        store_wf(spec_cascade_slots(m, ids)),
        forall|x: u32|
            slot_ids(spec_cascade_slots(m, ids).slots).contains(x) ==> slot_ids(
                m.slots,
            ).contains(x),
        forall|i: int|
            0 <= i < ids.len() ==> !slot_ids(spec_cascade_slots(m, ids).slots).contains(ids[i]),
    decreases ids.len(),
{
    if ids.len() > 0 {
        let m1 = spec_remove_slot(m, ids[0]).0;
        lemma_spec_remove_slot_wf(m, ids[0]);
        lemma_cascade_wf_and_gone(m1, ids.drop_first());
        assert forall|i: int|
            0 <= i < ids.len() implies !slot_ids(spec_cascade_slots(m, ids).slots).contains(
            ids[i],
        ) by {
            if i > 0 {
                assert(ids.drop_first()[i - 1] == ids[i]);
            }
        }
    }
}

/// Law: removing a doll removes every slot it listed from the store, and
/// the store stays well formed.
pub proof fn lemma_remove_doll_removes_listed_slots(m: StoreModel, id: u32, d: DollModel)
    requires
        store_wf(m),
        spec_find_doll(m, id) == Some(d),
    ensures
        store_wf(spec_remove_doll(m, id).0),
        forall|sid: u32|
            d.slots.contains(sid) ==> spec_find_slot(spec_remove_doll(m, id).0, sid) is None,
{
    doll_ids(m.dolls).index_of_first_ensures(id);
    let k = doll_ids(m.dolls).index_of_first(id).unwrap();
    let m1 = StoreModel {
        dolls: m.dolls.remove(k),
        doll_alloc: alloc_remove(m.doll_alloc, id),
        ..m
    };
    lemma_doll_ids_remove(m.dolls, k);
    lemma_id_set_remove(doll_ids(m.dolls), k);
    assert(store_wf(m1));
    lemma_cascade_wf_and_gone(m1, d.slots);
    let after = spec_remove_doll(m, id).0;
    assert forall|sid: u32| d.slots.contains(sid) implies spec_find_slot(after, sid) is None by {
        let j = choose|j: int| 0 <= j < d.slots.len() && d.slots[j] == sid;
        assert(!slot_ids(after.slots).contains(sid));
        slot_ids(after.slots).index_of_first_ensures(sid);
    }
}

/// Law: removing a slot that exists scrubs its id from every doll's slot
/// list, provided no doll lists one slot twice; every other field of every
/// doll is untouched.
pub proof fn lemma_remove_slot_scrubs_dolls(m: StoreModel, id: u32)
    requires
        spec_find_slot(m, id) is Some,
        forall|i: int| 0 <= i < m.dolls.len() ==> nodup(#[trigger] m.dolls[i].slots),
    ensures
        spec_remove_slot(m, id).0.dolls.len() == m.dolls.len(),
        forall|i: int|
            0 <= i < m.dolls.len() ==> #[trigger] spec_remove_slot(m, id).0.dolls[i]
                == scrub_doll(m.dolls[i], id),
        forall|i: int|
            0 <= i < m.dolls.len() ==> !(#[trigger] spec_remove_slot(
                m,
                id,
            ).0.dolls[i]).slots.contains(id),
{
    slot_ids(m.slots).index_of_first_ensures(id);
    if slot_ids(m.slots).index_of_first(id) is None {
        assert(false);
    }
    assert forall|i: int| 0 <= i < m.dolls.len() implies !(#[trigger] spec_remove_slot(
        m,
        id,
    ).0.dolls[i]).slots.contains(id) by {
        lemma_remove_value_props(m.dolls[i].slots, id);
    }
}

/// Law: removing a fragment that exists scrubs its id from every slot's
/// candidate list, provided no slot lists one candidate twice; every other
/// field of every slot is untouched, and dolls are untouched entirely.
pub proof fn lemma_remove_fragment_scrubs_candidates(m: StoreModel, id: u32)
    requires
        spec_find_fragment(m, id) is Some,
        forall|i: int| 0 <= i < m.slots.len() ==> nodup(#[trigger] m.slots[i].candidates),
    ensures
        spec_remove_fragment(m, id).0.dolls == m.dolls,
        spec_remove_fragment(m, id).0.slots.len() == m.slots.len(),
        forall|i: int|
            0 <= i < m.slots.len() ==> #[trigger] spec_remove_fragment(m, id).0.slots[i]
                == scrub_slot(m.slots[i], id),
        forall|i: int|
            0 <= i < m.slots.len() ==> !(#[trigger] spec_remove_fragment(
                m,
                id,
            ).0.slots[i]).candidates.contains(id),
{
    fragment_ids(m.fragments).index_of_first_ensures(id);
    if fragment_ids(m.fragments).index_of_first(id) is None {
        assert(false);
    }
    assert forall|i: int| 0 <= i < m.slots.len() implies !(#[trigger] spec_remove_fragment(
        m,
        id,
    ).0.slots[i]).candidates.contains(id) by {
        lemma_remove_value_props(m.slots[i].candidates, id);
    }
}

impl Default for PaperdollFactory {
    /// An empty project: default metadata and one default doll with id 0.
    fn default() -> (r: Self)
        ensures
            r.wf(),
            Ok::<StoreModel, Error>(r@) == spec_new_store(
                MetaModel::spec_default(),
                Seq::empty(),
                Seq::empty(),
                Seq::empty(),
            ),
    {
        let dolls: Vec<Doll> = Vec::new();
        let slots: Vec<Slot> = Vec::new();
        let fragments: Vec<Fragment> = Vec::new();
        proof {
            assert(dolls@.map_values(|d: Doll| d@) =~= Seq::<DollModel>::empty());
            assert(slots@.map_values(|s: Slot| s@) =~= Seq::<SlotModel>::empty());
            assert(fragments@.map_values(|f: Fragment| f@) =~= Seq::<FragmentModel>::empty());
        }
        match PaperdollFactory::new(Meta::default(), dolls, slots, fragments) {
            Ok(f) => f,
            Err(_) => {
                proof {
                    assert(false);
                }
                unreached()
            },
        }
    }
}

} // verus!
