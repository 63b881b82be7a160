//! Issues and reclaims unique 32-bit ids for one entity kind.
//!
//! The allocator keeps a forward-scanning cursor besides the set of ids in
//! use: a freed id is handed out again only after the cursor has wrapped
//! around the whole id space, which keeps recently deleted ids out of
//! circulation for as long as possible.

use vstd::prelude::*;

use crate::common::Error;

verus! {

/// The number of ids in the full 32-bit id space.
pub const FULL_ID_SPACE: u64 = 0x1_0000_0000;

/// The mathematical content of an id allocator.
#[verifier::ext_equal]
pub struct IdFactoryModel {
    /// The cursor: scanning for a free id starts here.
    pub cursor: u64,
    /// The number of ids managed: valid ids are `0 .. space`.
    pub space: u64,
    /// The ids currently in use.
    pub used: Set<u32>,
}

/// A sane allocator state: the cursor lies inside a non-empty id space of at
/// most 2^32 ids, and only ids inside the space are in use.
pub open spec fn model_wf(m: IdFactoryModel) -> bool {
    &&& 1 <= m.space <= FULL_ID_SPACE
    &&& m.cursor < m.space
    &&& forall|id: u32| m.used.contains(id) ==> (id as u64) < m.space
}

/// The cursor position after `c`, wrapping past the end of the space.
pub open spec fn step_cursor(c: u64, space: u64) -> u64 {
    if c + 1 == space {
        0
    } else {
        (c + 1) as u64
    }
}

/// Scans forward from `c` for at most `fuel` steps and returns the first id
/// that is not in use, or `None` if every visited id was occupied.
pub open spec fn scan_free(used: Set<u32>, space: u64, c: u64, fuel: nat) -> Option<u32>
    decreases fuel,
{
    if fuel == 0 {
        None
    } else if !used.contains(c as u32) {
        Some(c as u32)
    } else {
        scan_free(used, space, step_cursor(c, space), (fuel - 1) as nat)
    }
}

/// The id the allocator will hand out next, if any: the first free id found
/// scanning forward from the cursor, wrapping once around the space.
pub open spec fn spec_next_id(m: IdFactoryModel) -> Option<u32> {
    scan_free(m.used, m.space, m.cursor, m.space as nat)
}

/// One successful allocation step: `id` was handed out, turning state `pre`
/// into state `post`.
pub open spec fn allocates(pre: IdFactoryModel, post: IdFactoryModel, id: u32) -> bool {
    &&& spec_next_id(pre) == Some(id)
    &&& post.used == pre.used.insert(id)
    &&& post.space == pre.space
    &&& post.cursor == step_cursor(id as u64, pre.space)
}

/// Issues and reclaims unique ids for one entity kind.
pub struct IdFactory {
    cursor: u64,
    space: u64,
    set: Vec<u32>,
}

impl View for IdFactory {
    type V = IdFactoryModel;

    closed spec fn view(&self) -> IdFactoryModel {
        IdFactoryModel {
            cursor: self.cursor,
            space: self.space,
            used: Set::new(|id: u32| self.set@.contains(id)),
        }
    }
}

impl IdFactory {
    /// The allocator's representation keeps each used id exactly once, and
    /// its abstract state is sane.
    pub closed spec fn wf(&self) -> bool {
        &&& model_wf(self@)
        &&& forall|i: int, j: int| 0 <= i < j < self.set@.len() ==> self.set@[i] != self.set@[j]
    }

    /// Creates an allocator over the full 32-bit id space.
    pub fn new() -> (r: Self)
        ensures
            r.wf(),
            r@ == (IdFactoryModel { cursor: 0, space: FULL_ID_SPACE, used: Set::<u32>::empty() }),
    {
        let r = IdFactory { cursor: 0, space: FULL_ID_SPACE, set: Vec::new() };
        proof {
            assert(r@.used =~= Set::<u32>::empty());
        }
        r
    }

    /// Creates an allocator over the bounded id space `0 .. space`.
    pub fn with_space(space: u64) -> (r: Self)
        requires
            1 <= space <= FULL_ID_SPACE,
        ensures
            r.wf(),
            r@ == (IdFactoryModel { cursor: 0, space, used: Set::<u32>::empty() }),
    {
        let r = IdFactory { cursor: 0, space, set: Vec::new() };
        proof {
            assert(r@.used =~= Set::<u32>::empty());
        }
        r
    }

    /// Hands out the first free id at or after the cursor, wrapping once
    /// around the id space, and moves the cursor past it. Fails with
    /// [`Error::IdSpaceExhausted`], leaving the allocator untouched, exactly
    /// when the whole id space is occupied.
    pub fn get_next(&mut self) -> (r: Result<u32, Error>)
        requires
            old(self).wf(),
        ensures
            final(self).wf(),
            match spec_next_id(old(self)@) {
                Some(id) => {
                    &&& r == Ok::<u32, Error>(id)
                    &&& !old(self)@.used.contains(id)
                    &&& (id as u64) < old(self)@.space
                    &&& allocates(old(self)@, final(self)@, id)
                },
                None => {
                    &&& r == Err::<u32, Error>(Error::IdSpaceExhausted)
                    &&& final(self)@ == old(self)@
                },
            },
    {
        let start: u64 = self.cursor;
        let ghost orig = self@;
        let ghost mut j: int = 0;
        loop
            invariant
                self.wf(),
                orig == old(self)@,
                self.space == orig.space,
                self.set@ == old(self).set@,
                self@.used == orig.used,
                start == orig.cursor,
                start < self.space,
                self.cursor < self.space,
                0 <= j < self.space,
                start + j == if self.cursor >= start {
                    self.cursor as int
                } else {
                    self.cursor + self.space
                },
                spec_next_id(orig) == scan_free(
                    orig.used,
                    orig.space,
                    self.cursor,
                    (orig.space - j) as nat,
                ),
            decreases self.space - j,
        {
            if !contains_id(&self.set, self.cursor as u32) {
                let id: u32 = self.cursor as u32;
                proof {
                    assert(spec_next_id(orig) == Some(id));
                }
                self.set.push(id);
                self.cursor = if self.cursor + 1 == self.space {
                    0
                } else {
                    self.cursor + 1
                };
                proof {
                    lemma_push_contains(old(self).set@, self.set@, id);
                    assert(self@.used =~= orig.used.insert(id));
                    assert forall|a: int, b: int|
                        0 <= a < b < self.set@.len() implies self.set@[a] != self.set@[b] by {
                        if b + 1 == self.set@.len() {
                            assert(self.set@[b] == id);
                            assert(old(self).set@.contains(old(self).set@[a]));
                        }
                    }
                }
                return Ok(id);
            }
            proof {
                assert(scan_free(orig.used, orig.space, self.cursor, (orig.space - j) as nat)
                    == scan_free(
                    orig.used,
                    orig.space,
                    step_cursor(self.cursor, orig.space),
                    (orig.space - j - 1) as nat,
                ));
                j = j + 1;
            }
            self.cursor = if self.cursor + 1 == self.space {
                0
            } else {
                self.cursor + 1
            };
            if self.cursor == start {
                proof {
                    assert(j == self.space);
                    assert(spec_next_id(orig) == scan_free(orig.used, orig.space, start, 0));
                }
                return Err(Error::IdSpaceExhausted);
            }
        }
    }

    /// Frees an id for future reuse; returns whether it had been in use.
    /// The cursor does not move: a freed id is handed out again only after
    /// the cursor wraps around to it.
    pub fn remove(&mut self, id: u32) -> (r: bool)
        requires
            old(self).wf(),
        ensures
            final(self).wf(),
            r == old(self)@.used.contains(id),
            final(self)@.used == old(self)@.used.remove(id),
            final(self)@.cursor == old(self)@.cursor,
            final(self)@.space == old(self)@.space,
    {
        let mut i: usize = 0;
        while i < self.set.len()
            invariant
                self.wf(),
                self.cursor == old(self).cursor,
                self.space == old(self).space,
                self.set@ == old(self).set@,
                i <= self.set@.len(),
                forall|k: int| 0 <= k < i ==> self.set@[k] != id,
            decreases self.set@.len() - i,
        {
            if self.set[i] == id {
                let ghost pre = self.set@;
                self.set.remove(i);
                proof {
                    assert(pre.contains(id));
                    assert forall|y: u32| self.set@.contains(y) implies pre.contains(y) && y != id by {
                        let k = choose|k: int| 0 <= k < self.set@.len() && self.set@[k] == y;
                        if k < i {
                            assert(pre[k] == y);
                        } else {
                            assert(pre[k + 1] == y);
                        }
                    }
                    assert forall|y: u32| pre.contains(y) && y != id implies self.set@.contains(y) by {
                        let k = choose|k: int| 0 <= k < pre.len() && pre[k] == y;
                        if k < i {
                            assert(self.set@[k] == y);
                        } else {
                            assert(k != i);
                            assert(self.set@[k - 1] == y);
                        }
                    }
                    assert(self@.used =~= old(self)@.used.remove(id));
                    assert forall|a: int, b: int|
                        0 <= a < b < self.set@.len() implies self.set@[a] != self.set@[b] by {
                        let pa = if a < i {
                            a
                        } else {
                            a + 1
                        };
                        let pb = if b < i {
                            b
                        } else {
                            b + 1
                        };
                        assert(self.set@[a] == pre[pa]);
                        assert(self.set@[b] == pre[pb]);
                    }
                }
                return true;
            }
            i = i + 1;
        }
        proof {
            assert(!old(self)@.used.contains(id));
            assert(self@.used =~= old(self)@.used.remove(id));
        }
        false
    }

    /// Marks an explicit id as in use. Fails with [`Error::DuplicateId`],
    /// leaving the allocator untouched, exactly when the id is already
    /// occupied. The cursor does not move.
    pub fn take_up(&mut self, id: u32) -> (r: Result<(), Error>)
        requires
            old(self).wf(),
            (id as u64) < old(self)@.space,
        ensures
            final(self).wf(),
            final(self)@.cursor == old(self)@.cursor,
            final(self)@.space == old(self)@.space,
            if old(self)@.used.contains(id) {
                r == Err::<(), Error>(Error::DuplicateId { id }) && final(self)@ == old(self)@
            } else {
                r == Ok::<(), Error>(()) && final(self)@.used == old(self)@.used.insert(id)
            },
    {
        if contains_id(&self.set, id) {
            return Err(Error::DuplicateId { id });
        }
        self.set.push(id);
        proof {
            lemma_push_contains(old(self).set@, self.set@, id);
            assert(self@.used =~= old(self)@.used.insert(id));
            assert forall|a: int, b: int|
                0 <= a < b < self.set@.len() implies self.set@[a] != self.set@[b] by {
                if b + 1 == self.set@.len() {
                    assert(old(self).set@.contains(old(self).set@[a]));
                }
            }
        }
        Ok(())
    }
}

/// Pushing an element extends a sequence's membership by exactly it.
proof fn lemma_push_contains(pre: Seq<u32>, post: Seq<u32>, x: u32)
    requires
        post == pre.push(x),
    ensures
        forall|y: u32| post.contains(y) <==> (pre.contains(y) || y == x),
{
    assert forall|y: u32| post.contains(y) implies (pre.contains(y) || y == x) by {
        let k = choose|k: int| 0 <= k < post.len() && post[k] == y;
        if k < pre.len() {
            assert(pre[k] == y);
        }
    }
    assert forall|y: u32| pre.contains(y) implies post.contains(y) by {
        let k = choose|k: int| 0 <= k < pre.len() && pre[k] == y;
        assert(post[k] == y);
    }
    assert(post[pre.len() as int] == x);
}

/// Does the vector contain the given id?
fn contains_id(v: &Vec<u32>, x: u32) -> (r: bool)
    ensures
        r == v@.contains(x),
{
    let mut i: usize = 0;
    while i < v.len()
        invariant
            i <= v@.len(),
            forall|k: int| 0 <= k < i ==> v@[k] != x,
        decreases v@.len() - i,
    {
        if v[i] == x {
            return true;
        }
        i = i + 1;
    }
    false
}

/// Is the id visited when a scan starts at `c` and runs for `fuel` steps?
pub open spec fn scan_visits(space: u64, c: u64, fuel: nat, id: u32) -> bool {
    &&& (id as u64) < space
    &&& if (id as u64) >= c {
        id - c < fuel
    } else {
        space - c + id < fuel
    }
}

/// A scan comes back empty-handed exactly when every id it visits is in use.
proof fn lemma_scan_none_iff(used: Set<u32>, space: u64, c: u64, fuel: nat)
    requires
        c < space <= FULL_ID_SPACE,
        fuel <= space,
    ensures
        scan_free(used, space, c, fuel) is None <==> (forall|id: u32|
            scan_visits(space, c, fuel, id) ==> used.contains(id)),
    decreases fuel,
{
    if fuel == 0 {
    } else if !used.contains(c as u32) {
        assert((c as u32) as u64 == c);
        assert(scan_visits(space, c, fuel, c as u32));
    } else {
        let c2 = step_cursor(c, space);
        lemma_scan_none_iff(used, space, c2, (fuel - 1) as nat);
        assert forall|id: u32| scan_visits(space, c, fuel, id) && id != c as u32 implies
            scan_visits(space, c2, (fuel - 1) as nat, id) by {}
        assert forall|id: u32| scan_visits(space, c2, (fuel - 1) as nat, id) implies
            scan_visits(space, c, fuel, id) by {}
    }
}

/// The allocator is exhausted exactly when every id of its space is in use.
pub proof fn lemma_exhausted_iff_full(m: IdFactoryModel)
    requires
        model_wf(m),
    ensures
        spec_next_id(m) is None <==> (forall|id: u32|
            (id as u64) < m.space ==> m.used.contains(id)),
{
    lemma_scan_none_iff(m.used, m.space, m.cursor, m.space as nat);
    assert forall|id: u32| (id as u64) < m.space implies scan_visits(
        m.space,
        m.cursor,
        m.space as nat,
        id,
    ) by {}
}

/// A freshly scanned id is never one that was already in use.
pub proof fn lemma_scan_free_fresh(used: Set<u32>, space: u64, c: u64, fuel: nat)
    ensures
        scan_free(used, space, c, fuel) matches Some(id) ==> !used.contains(id),
    decreases fuel,
{
    if fuel > 0 && used.contains(c as u32) {
        lemma_scan_free_fresh(used, space, step_cursor(c, space), (fuel - 1) as nat);
    }
}

/// Ids handed out along any chain of successful allocations are pairwise
/// distinct: an allocation never returns an id that is in use, and every
/// allocated id stays in use for the rest of the chain.
pub proof fn lemma_allocated_ids_distinct(models: Seq<IdFactoryModel>, ids: Seq<u32>)
    requires
        models.len() == ids.len() + 1,
        forall|i: int|
            0 <= i < ids.len() ==> allocates(#[trigger] models[i], models[i + 1], ids[i]),
    ensures
        forall|i: int, j: int| 0 <= i < j < ids.len() ==> ids[i] != ids[j],
{
    assert forall|i: int, j: int| 0 <= i < j < ids.len() implies ids[i] != ids[j] by {
        lemma_id_stays_used(models, ids, i, j);
        lemma_scan_free_fresh(models[j].used, models[j].space, models[j].cursor,
            models[j].space as nat);
    }
}

/// Once allocated, an id is still in use at every later point of the chain.
proof fn lemma_id_stays_used(models: Seq<IdFactoryModel>, ids: Seq<u32>, i: int, j: int)
    requires
        models.len() == ids.len() + 1,
        forall|k: int|
            0 <= k < ids.len() ==> allocates(#[trigger] models[k], models[k + 1], ids[k]),
        0 <= i < j <= ids.len(),
    ensures
        models[j].used.contains(ids[i]),
    decreases j - i,
{
    if j == i + 1 {
        assert(models[i + 1].used == models[i].used.insert(ids[i]));
    } else {
        lemma_id_stays_used(models, ids, i, j - 1);
        assert(models[j].used == models[j - 1].used.insert(ids[j - 1]));
    }
}

} // verus!
