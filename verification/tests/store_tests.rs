use paperdoll::{
    Doll, EntityKind, Error, Fragment, IdFactory, Meta, PaperdollFactory, Point, Slot, VERSION,
};

fn empty_factory() -> PaperdollFactory {
    PaperdollFactory::new(Meta::default(), vec![], vec![], vec![]).unwrap()
}

#[test]
fn version_is_one() {
    assert_eq!(VERSION, 1);
}

#[test]
fn boolean_and_zero_helpers() {
    assert!(paperdoll::is_false(&false));
    assert!(!paperdoll::is_false(&true));
    assert!(paperdoll::is_zero(&0));
    assert!(!paperdoll::is_zero(&3));
}

#[test]
fn point_new_and_is_zero() {
    let p = Point::new(3, -4);
    assert_eq!(p.x, 3);
    assert_eq!(p.y, -4);
    assert!(!p.is_zero());
    assert!(Point::default().is_zero());
}

#[test]
fn allocator_hands_out_distinct_ids() {
    let mut alloc = IdFactory::new();
    let mut ids = vec![];
    for _ in 0..5 {
        ids.push(alloc.get_next().unwrap());
    }
    for i in 0..ids.len() {
        for j in 0..ids.len() {
            if i != j {
                assert_ne!(ids[i], ids[j]);
            }
        }
    }
    assert_eq!(ids, vec![0, 1, 2, 3, 4]);
}

#[test]
fn allocator_reuses_id_only_after_wrap() {
    let mut alloc = IdFactory::with_space(4);
    for expected in 0..4u32 {
        assert_eq!(alloc.get_next().unwrap(), expected);
    }
    // The cursor has wrapped past the end of the space back to 0.
    assert!(alloc.remove(2));
    // Ids 0 and 1 are still in use, so the scan lands on the freed id.
    assert_eq!(alloc.get_next().unwrap(), 2);
}

#[test]
fn allocator_exhaustion_leaves_pool_unchanged() {
    let mut alloc = IdFactory::with_space(3);
    for expected in 0..3u32 {
        assert_eq!(alloc.get_next().unwrap(), expected);
    }
    assert_eq!(alloc.get_next(), Err(Error::IdSpaceExhausted));
    // The failed attempt changed nothing: every id is still occupied.
    assert_eq!(alloc.take_up(0), Err(Error::DuplicateId { id: 0 }));
    assert_eq!(alloc.take_up(1), Err(Error::DuplicateId { id: 1 }));
    assert_eq!(alloc.take_up(2), Err(Error::DuplicateId { id: 2 }));
    // Freeing one id makes allocation succeed again.
    assert!(alloc.remove(0));
    assert_eq!(alloc.get_next().unwrap(), 0);
}

#[test]
fn allocator_take_up_marks_and_rejects() {
    let mut alloc = IdFactory::new();
    assert_eq!(alloc.take_up(7), Ok(()));
    assert_eq!(alloc.take_up(7), Err(Error::DuplicateId { id: 7 }));
    assert!(alloc.remove(7));
    assert!(!alloc.remove(7));
    assert_eq!(alloc.take_up(7), Ok(()));
}

#[test]
fn new_rejects_duplicate_ids() {
    let r = PaperdollFactory::new(
        Meta::default(),
        vec![Doll::new(1), Doll::new(1)],
        vec![],
        vec![],
    );
    assert_eq!(r.err().unwrap(), Error::DuplicateId { id: 1 });

    let r = PaperdollFactory::new(
        Meta::default(),
        vec![],
        vec![Slot::new(3), Slot::new(3)],
        vec![],
    );
    assert_eq!(r.err().unwrap(), Error::DuplicateId { id: 3 });

    let r = PaperdollFactory::new(
        Meta::default(),
        vec![],
        vec![],
        vec![Fragment::new(9), Fragment::new(9)],
    );
    assert_eq!(r.err().unwrap(), Error::DuplicateId { id: 9 });
}

#[test]
fn new_synthesizes_default_doll() {
    let factory = empty_factory();
    let doll = factory.get_doll(0).expect("default doll");
    assert_eq!(doll.id(), 0);
    assert_eq!(doll.width, 0);
    assert_eq!(doll.height, 0);
    assert!(doll.slots.is_empty());
}

#[test]
fn freed_id_is_not_reused_immediately() {
    let mut factory = empty_factory();
    let a = factory.add_doll().unwrap();
    assert_eq!(a, 1);
    assert!(factory.remove_doll(a).is_some());
    // The cursor moved past the freed id, so the next doll gets a new id.
    let b = factory.add_doll().unwrap();
    assert_eq!(b, 2);
}

#[test]
fn remove_doll_cascades_to_slots() {
    let mut factory = empty_factory();
    let doll_id = factory.add_doll().unwrap();
    let s1 = factory.add_slot().unwrap();
    let s2 = factory.add_slot().unwrap();
    let s3 = factory.add_slot().unwrap();
    {
        let doll = factory.get_doll_mut(doll_id).unwrap();
        doll.slots.push(s1);
        doll.slots.push(s2);
    }
    let removed = factory.remove_doll(doll_id).expect("doll removed");
    assert_eq!(removed.id(), doll_id);
    // Every slot the doll listed is gone from the store.
    assert!(factory.get_slot(s1).is_none());
    assert!(factory.get_slot(s2).is_none());
    // A slot the doll did not list survives.
    assert!(factory.get_slot(s3).is_some());
    // Removing a missing doll has no effect.
    assert!(factory.remove_doll(doll_id).is_none());
}

#[test]
fn remove_slot_scrubs_doll_lists() {
    let mut factory = empty_factory();
    let s1 = factory.add_slot().unwrap();
    let s2 = factory.add_slot().unwrap();
    {
        let doll = factory.get_doll_mut(0).unwrap();
        doll.slots.push(s1);
        doll.slots.push(s2);
    }
    let removed = factory.remove_slot(s1).expect("slot removed");
    assert_eq!(removed.id(), s1);
    let doll = factory.get_doll(0).unwrap();
    assert_eq!(doll.slots, vec![s2]);
    assert!(factory.get_slot(s1).is_none());
    assert!(factory.get_slot(s2).is_some());
}

#[test]
fn remove_fragment_scrubs_candidates_and_leaves_slots() {
    let mut factory = empty_factory();
    let f1 = factory.add_fragment().unwrap();
    let f2 = factory.add_fragment().unwrap();
    let slot_id = factory.add_slot().unwrap();
    {
        let slot = factory.get_slot_mut(slot_id).unwrap();
        slot.candidates.push(f1);
        slot.candidates.push(f2);
        slot.desc = String::from("eyes");
    }
    {
        let doll = factory.get_doll_mut(0).unwrap();
        doll.slots.push(slot_id);
    }
    let removed = factory.remove_fragment(f1).expect("fragment removed");
    assert_eq!(removed.id(), f1);
    // The slot itself and the dolls are untouched, only the candidate list
    // lost the removed id.
    let slot = factory.get_slot(slot_id).expect("slot survives");
    assert_eq!(slot.candidates, vec![f2]);
    assert_eq!(slot.desc, "eyes");
    let doll = factory.get_doll(0).unwrap();
    assert_eq!(doll.slots, vec![slot_id]);
    assert!(factory.get_fragment(f1).is_none());
    assert!(factory.get_fragment(f2).is_some());
}

#[test]
fn getters_return_none_for_absent_ids() {
    let mut factory = empty_factory();
    assert!(factory.get_doll(42).is_none());
    assert!(factory.get_slot(42).is_none());
    assert!(factory.get_fragment(42).is_none());
    assert!(factory.get_doll_mut(42).is_none());
    assert!(factory.get_slot_mut(42).is_none());
    assert!(factory.get_fragment_mut(42).is_none());
    assert!(factory.remove_slot(42).is_none());
    assert!(factory.remove_fragment(42).is_none());
}

#[test]
fn lists_are_sorted_by_id() {
    let factory = PaperdollFactory::new(
        Meta::default(),
        vec![Doll::new(5), Doll::new(2), Doll::new(9)],
        vec![Slot::new(7), Slot::new(1)],
        vec![Fragment::new(4), Fragment::new(3)],
    )
    .unwrap();
    let doll_ids: Vec<u32> = factory.dolls().iter().map(|d| d.id()).collect();
    assert_eq!(doll_ids, vec![2, 5, 9]);
    let slot_ids: Vec<u32> = factory.slots().iter().map(|s| s.id()).collect();
    assert_eq!(slot_ids, vec![1, 7]);
    let fragment_ids: Vec<u32> = factory.fragments().iter().map(|f| f.id()).collect();
    assert_eq!(fragment_ids, vec![3, 4]);
}

#[test]
fn to_manifest_round_trips() {
    let mut factory = empty_factory();
    factory.meta = Meta {
        name: String::from("demo"),
        version: VERSION,
    };
    let f = factory.add_fragment().unwrap();
    let s = factory.add_slot().unwrap();
    {
        let slot = factory.get_slot_mut(s).unwrap();
        slot.candidates.push(f);
        slot.anchor = Point::new(5, 5);
    }
    {
        let doll = factory.get_doll_mut(0).unwrap();
        doll.width = 16;
        doll.height = 16;
        doll.slots.push(s);
    }
    let manifest = factory.to_manifest();
    assert_eq!(manifest.meta.name, "demo");
    assert_eq!(manifest.dolls.len(), 1);
    assert_eq!(manifest.slots.len(), 1);
    assert_eq!(manifest.fragments.len(), 1);

    let rebuilt = PaperdollFactory::from_manifest(manifest).unwrap();
    assert_eq!(rebuilt.meta.name, "demo");
    let doll = rebuilt.get_doll(0).unwrap();
    assert_eq!(doll.width, 16);
    assert_eq!(doll.slots, vec![s]);
    let slot = rebuilt.get_slot(s).unwrap();
    assert_eq!(slot.candidates, vec![f]);
    assert_eq!(slot.anchor, Point::new(5, 5));
}

#[test]
fn analyse_missing_doll_fails() {
    let factory = empty_factory();
    let selection = std::collections::HashMap::new();
    let r = factory.analyse(42, &selection, false);
    assert_eq!(
        r.err().unwrap(),
        Error::EntityNotFound {
            kind: EntityKind::Doll,
            id: 42
        }
    );
}
