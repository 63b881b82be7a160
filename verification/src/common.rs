//! Shared primitive types: coordinates, entity kinds, and the error type.

use vstd::prelude::*;

verus! {

/// A coordinate used in the paper doll model.
///
/// The positive X-axis is rightward.
/// The positive Y-axis is downward.
#[derive(Clone, Copy, Debug, PartialEq, Eq, Structural)]
pub struct Point {
    /// The distance from the Y-axis.
    pub x: i64,
    /// The distance from the X-axis.
    pub y: i64,
}

impl Point {
    /// Builds a point from its two coordinates.
    pub fn new(x: i64, y: i64) -> (r: Self)
        ensures
            r.x == x,
            r.y == y,
    {
        Self { x, y }
    }

    /// Is this the origin?
    pub fn is_zero(&self) -> (r: bool)
        ensures
            r == (self.x == 0 && self.y == 0),
    {
        self.x == 0 && self.y == 0
    }

    /// The default point is the origin.
    pub open spec fn spec_default() -> Self {
        Point { x: 0, y: 0 }
    }
}

impl Default for Point {
    fn default() -> (r: Self)
        ensures
            r == Point::spec_default(),
    {
        Point { x: 0, y: 0 }
    }
}

/// Is this boolean false?
pub fn is_false(b: &bool) -> (r: bool)
    ensures
        r == !*b,
{
    !*b
}

/// Is this number zero?
pub fn is_zero(u: &u32) -> (r: bool)
    ensures
        r == (*u == 0),
{
    *u == 0
}

/// Copies a byte buffer element by element.
pub(crate) fn copy_bytes(v: &Vec<u8>) -> (r: Vec<u8>)
    ensures
        r@ == v@,
{
    let mut r: Vec<u8> = Vec::new();
    let mut i: usize = 0;
    while i < v.len()
        invariant
            i <= v.len(),
            r@ == v@.take(i as int),
        decreases v.len() - i,
    {
        r.push(v[i]);
        i = i + 1;
        proof {
            assert(r@ =~= v@.take(i as int));
        }
    }
    proof {
        assert(v@.take(v@.len() as int) =~= v@);
    }
    r
}

/// Copies a list of ids element by element.
pub(crate) fn copy_ids(v: &Vec<u32>) -> (r: Vec<u32>)
    ensures
        r@ == v@,
{
    let mut r: Vec<u32> = Vec::new();
    let mut i: usize = 0;
    while i < v.len()
        invariant
            i <= v.len(),
            r@ == v@.take(i as int),
        decreases v.len() - i,
    {
        r.push(v[i]);
        i = i + 1;
        proof {
            assert(r@ =~= v@.take(i as int));
        }
    }
    proof {
        assert(v@.take(v@.len() as int) =~= v@);
    }
    r
}

/// Copies a list of points element by element.
pub(crate) fn copy_points(v: &Vec<Point>) -> (r: Vec<Point>)
    ensures
        r@ == v@,
{
    let mut r: Vec<Point> = Vec::new();
    let mut i: usize = 0;
    while i < v.len()
        invariant
            i <= v.len(),
            r@ == v@.take(i as int),
        decreases v.len() - i,
    {
        r.push(v[i]);
        i = i + 1;
        proof {
            assert(r@ =~= v@.take(i as int));
        }
    }
    proof {
        assert(v@.take(v@.len() as int) =~= v@);
    }
    r
}

/// The three kinds of entities held by a store.
#[derive(Clone, Copy, Debug, PartialEq, Eq, Structural)]
pub enum EntityKind {
    /// A doll: the top-level composable object.
    Doll,
    /// A slot: a named layer position on a doll.
    Slot,
    /// A fragment: a reusable image asset.
    Fragment,
}

/// Everything that can go wrong in the paper doll model.
///
/// All failures are reported as values of this type; no operation panics.
#[derive(Clone, Copy, Debug, PartialEq, Eq, Structural)]
pub enum Error {
    /// An id was supplied for an entity kind in which that id already exists.
    DuplicateId {
        /// The id that was already occupied.
        id: u32,
    },
    /// The allocator's full id space is occupied.
    IdSpaceExhausted,
    /// A doll, slot or fragment reference could not be resolved.
    EntityNotFound {
        /// The kind of the entity that was looked up.
        kind: EntityKind,
        /// The id that could not be resolved.
        id: u32,
    },
    /// A fragment selected for drawing carries no pixel payload.
    EmptyImageUsed {
        /// The id of the offending fragment.
        fragment_id: u32,
    },
}

} // verus!
