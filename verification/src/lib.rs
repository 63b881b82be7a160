//! 2D pixel-based stationary paper doll model.
//!
//! The model consists of three parts: dolls, slots, and fragments.
//! A doll owns an ordered list of slots; each slot names the fragments
//! (raster images) that may be displayed in it. A selection of fragments
//! for the slots of a doll is resolved into placed, ordered render pieces,
//! which are then painted back to front onto a single RGBA pixel buffer.

use vstd::prelude::*;

mod builder;
mod common;
mod doll;
mod factory;
mod fragment;
mod id_factory;
mod image;
mod manifest;
mod meta;
mod paperdoll;
mod raster;
mod render_material;
mod slot;

pub use builder::PaperdollBuilder;
pub use common::{is_false, is_zero, EntityKind, Error, Point};
pub use doll::{Doll, DollModel};
pub use factory::{
    alloc_insert, alloc_remove, clamp_i64, doll_ids, doll_index, fragment_ids, fragment_index,
    id_set, insertion_point, lemma_analyse_deterministic, lemma_find_doll_id,
    lemma_find_fragment_id, lemma_find_slot_id, lemma_remove_doll_removes_listed_slots,
    lemma_remove_fragment_scrubs_candidates, lemma_remove_slot_scrubs_dolls, nodup, scrub_doll,
    scrub_slot, slot_ids, slot_index, spec_analyse, spec_cascade_slots, spec_chosen_fragment,
    spec_create_doll, spec_create_fragment, spec_create_slot, spec_doll_piece, spec_find_doll,
    spec_find_fragment, spec_find_slot, spec_load_dolls, spec_load_fragments, spec_load_slots,
    spec_new_store, spec_paint_all, spec_piece, spec_piece_image, spec_place, spec_remove_doll,
    spec_remove_fragment, spec_remove_slot, spec_render, spec_resolve_slots, spec_slot_pieces,
    store_wf, strictly_sorted, PaperdollFactory, StoreModel,
};
pub use fragment::{Fragment, FragmentModel};
pub use id_factory::{
    allocates, lemma_allocated_ids_distinct, lemma_exhausted_iff_full, lemma_scan_free_fresh,
    model_wf, scan_free, spec_next_id, step_cursor, IdFactory, IdFactoryModel, FULL_ID_SPACE,
};
pub use image::{ColorType, ImageData, ImageModel};
pub use manifest::{Manifest, ManifestModel};
pub use meta::{Meta, MetaModel};
pub use paperdoll::{Paperdoll, PaperdollModel};
pub use raster::{
    blend_channel, blend_pixel, covered, lemma_paint_outside_unchanged, out_alpha, paint_piece,
    spec_paint, src_index,
};
pub use render_material::{RenderMaterial, RenderMaterialModel, RenderPiece, RenderPieceModel};
pub use slot::{Slot, SlotModel};

verus! {

/// The latest version of the paperdoll model format.
pub const VERSION: u32 = 1;

} // verus!
