//! Project metadata.

use vstd::prelude::*;

use crate::VERSION;

verus! {

/// The meta data used in a paper doll project.
#[derive(Debug)]
pub struct Meta {
    /// The name of the project.
    pub name: String,
    /// The version of the paperdoll model format.
    /// See [`crate::VERSION`].
    pub version: u32,
}

/// The mathematical content of the project metadata.
#[verifier::ext_equal]
pub struct MetaModel {
    /// The name of the project.
    pub name: Seq<char>,
    /// The format version.
    pub version: u32,
}

impl View for Meta {
    type V = MetaModel;

    open spec fn view(&self) -> MetaModel {
        MetaModel { name: self.name@, version: self.version }
    }
}

impl MetaModel {
    /// The default metadata: an empty name and the current format version.
    pub open spec fn spec_default() -> Self {
        MetaModel { name: Seq::empty(), version: VERSION }
    }
}

impl Default for Meta {
    fn default() -> (r: Self)
        ensures
            r@ == MetaModel::spec_default(),
    {
        let r = Meta { name: String::new(), version: VERSION };
        proof {
            assert(r@.name =~= Seq::<char>::empty());
        }
        r
    }
}

impl Clone for Meta {
    fn clone(&self) -> (res: Self)
        ensures
            res@ == self@,
    {
        Meta { name: self.name.clone(), version: self.version }
    }
}

} // verus!
