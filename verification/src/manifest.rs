//! A manifest: the serializable snapshot of a whole paper doll project.

use vstd::prelude::*;

use crate::doll::{Doll, DollModel};
use crate::fragment::{Fragment, FragmentModel};
use crate::meta::{Meta, MetaModel};
use crate::slot::{Slot, SlotModel};

verus! {

/// A manifest for a paper doll project.
///
/// Serves as an entry point to everything used in the model, including
/// dolls, slots, and fragments. Image payloads are attached separately by
/// the caller, keyed by each entity's declared path.
#[derive(Debug)]
pub struct Manifest {
    /// The meta data of the project.
    pub meta: Meta,
    /// All the dolls in the project.
    pub dolls: Vec<Doll>,
    /// All the slots in the project.
    pub slots: Vec<Slot>,
    /// All the fragments in the project.
    pub fragments: Vec<Fragment>,
}

/// The mathematical content of a manifest.
#[verifier::ext_equal]
pub struct ManifestModel {
    /// The meta data.
    pub meta: MetaModel,
    /// The dolls, in ascending id order.
    pub dolls: Seq<DollModel>,
    /// The slots, in ascending id order.
    pub slots: Seq<SlotModel>,
    /// The fragments, in ascending id order.
    pub fragments: Seq<FragmentModel>,
}

impl View for Manifest {
    type V = ManifestModel;

    open spec fn view(&self) -> ManifestModel {
        ManifestModel {
            meta: self.meta@,
            dolls: self.dolls@.map_values(|d: Doll| d@),
            slots: self.slots@.map_values(|s: Slot| s@),
            fragments: self.fragments@.map_values(|f: Fragment| f@),
        }
    }
}

} // verus!
