use std::collections::HashMap;

use paperdoll::{EntityKind, Error, Meta, PaperdollFactory, Point, RenderMaterial};

fn empty_factory() -> PaperdollFactory {
    PaperdollFactory::new(Meta::default(), vec![], vec![], vec![]).unwrap()
}

/// A factory whose default doll is `w` x `h` with one slot showing one
/// fragment; returns the factory with the slot and fragment ids.
fn one_slot_factory(w: u32, h: u32, pixels: Vec<u8>, fw: u32, fh: u32) -> (PaperdollFactory, u32, u32) {
    let mut factory = empty_factory();
    let fragment_id = factory.add_fragment().unwrap();
    {
        let fragment = factory.get_fragment_mut(fragment_id).unwrap();
        fragment.image.width = fw;
        fragment.image.height = fh;
        fragment.image.pixels = pixels;
    }
    let slot_id = factory.add_slot().unwrap();
    {
        let slot = factory.get_slot_mut(slot_id).unwrap();
        slot.candidates.push(fragment_id);
    }
    {
        let doll = factory.get_doll_mut(0).unwrap();
        doll.width = w;
        doll.height = h;
        doll.slots.push(slot_id);
    }
    (factory, slot_id, fragment_id)
}

fn materials_equal(a: &RenderMaterial, b: &RenderMaterial) -> bool {
    if a.width != b.width || a.height != b.height {
        return false;
    }
    let doll_eq = match (&a.doll, &b.doll) {
        (None, None) => true,
        (Some(x), Some(y)) => {
            x.id == y.id && x.position == y.position && x.image.width == y.image.width
                && x.image.height == y.image.height && x.image.pixels == y.image.pixels
        }
        _ => false,
    };
    if !doll_eq {
        return false;
    }
    if a.slots.len() != b.slots.len() {
        return false;
    }
    for i in 0..a.slots.len() {
        let x = &a.slots[i];
        let y = &b.slots[i];
        if x.id != y.id || x.position != y.position || x.image.width != y.image.width
            || x.image.height != y.image.height || x.image.pixels != y.image.pixels
        {
            return false;
        }
    }
    true
}

#[test]
fn analyse_is_deterministic() {
    let (factory, slot_id, fragment_id) = one_slot_factory(4, 4, vec![9, 8, 7, 255], 1, 1);
    let mut selection = HashMap::new();
    selection.insert(slot_id, fragment_id);
    let a = factory.analyse(0, &selection, false).unwrap();
    let b = factory.analyse(0, &selection, false).unwrap();
    assert!(materials_equal(&a, &b));
}

#[test]
fn anchor_and_pivot_place_the_piece() {
    // Slot position (10,10), anchor (5,5), fragment pivot (2,2):
    // the piece lands at (13,13).
    let (mut factory, slot_id, fragment_id) =
        one_slot_factory(100, 100, vec![1, 2, 3, 4], 1, 1);
    {
        let slot = factory.get_slot_mut(slot_id).unwrap();
        slot.positions = vec![Point::new(10, 10)];
        slot.anchor = Point::new(5, 5);
    }
    {
        let fragment = factory.get_fragment_mut(fragment_id).unwrap();
        fragment.pivot = Point::new(2, 2);
    }
    let mut selection = HashMap::new();
    selection.insert(slot_id, fragment_id);
    let material = factory.analyse(0, &selection, false).unwrap();
    assert_eq!(material.slots.len(), 1);
    assert_eq!(material.slots[0].position, Point::new(13, 13));
    assert_eq!(material.slots[0].id, fragment_id);
}

#[test]
fn constrainted_slot_overrides_dimensions() {
    let (mut factory, slot_id, fragment_id) =
        one_slot_factory(100, 100, vec![1, 2, 3, 4], 1, 1);
    {
        let slot = factory.get_slot_mut(slot_id).unwrap();
        slot.constrainted = true;
        slot.positions = vec![Point::new(3, 4)];
        slot.width = 5;
        slot.height = 7;
        slot.anchor = Point::new(9, 9);
    }
    let mut selection = HashMap::new();
    selection.insert(slot_id, fragment_id);
    let material = factory.analyse(0, &selection, false).unwrap();
    assert_eq!(material.slots.len(), 1);
    // The position is the slot position itself; anchor and pivot play no
    // role in constrainted mode, and the piece carries the slot's box.
    assert_eq!(material.slots[0].position, Point::new(3, 4));
    assert_eq!(material.slots[0].image.width, 5);
    assert_eq!(material.slots[0].image.height, 7);
    assert_eq!(material.slots[0].image.pixels, vec![1, 2, 3, 4]);
}

#[test]
fn slot_repeats_at_every_position() {
    let (mut factory, slot_id, fragment_id) =
        one_slot_factory(100, 100, vec![1, 2, 3, 4], 1, 1);
    {
        let slot = factory.get_slot_mut(slot_id).unwrap();
        slot.positions = vec![Point::new(1, 1), Point::new(2, 2), Point::new(3, 3)];
    }
    let mut selection = HashMap::new();
    selection.insert(slot_id, fragment_id);
    let material = factory.analyse(0, &selection, false).unwrap();
    assert_eq!(material.slots.len(), 3);
    assert_eq!(material.slots[0].position, Point::new(1, 1));
    assert_eq!(material.slots[1].position, Point::new(2, 2));
    assert_eq!(material.slots[2].position, Point::new(3, 3));
}

#[test]
fn required_slot_falls_back_to_first_candidate() {
    let (factory, _slot_id, fragment_id) = {
        let (mut f, s, frag) = one_slot_factory(8, 8, vec![5, 6, 7, 255], 1, 1);
        f.get_slot_mut(s).unwrap().required = true;
        (f, s, frag)
    };
    // No selection at all: the required slot still shows its first
    // candidate.
    let selection = HashMap::new();
    let material = factory.analyse(0, &selection, false).unwrap();
    assert_eq!(material.slots.len(), 1);
    assert_eq!(material.slots[0].id, fragment_id);
}

#[test]
fn optional_unselected_slot_contributes_nothing() {
    let (factory, _slot_id, _fragment_id) = one_slot_factory(8, 8, vec![5, 6, 7, 255], 1, 1);
    let selection = HashMap::new();
    let material = factory.analyse(0, &selection, false).unwrap();
    assert_eq!(material.slots.len(), 0);
}

#[test]
fn only_id_keeps_dimensions_but_no_pixels() {
    let (factory, slot_id, fragment_id) = one_slot_factory(8, 8, vec![5, 6, 7, 255], 1, 1);
    let mut selection = HashMap::new();
    selection.insert(slot_id, fragment_id);
    let material = factory.analyse(0, &selection, true).unwrap();
    assert_eq!(material.slots.len(), 1);
    assert_eq!(material.slots[0].image.width, 1);
    assert_eq!(material.slots[0].image.height, 1);
    assert!(material.slots[0].image.pixels.is_empty());
}

#[test]
fn analyse_missing_slot_reference_fails() {
    let mut factory = empty_factory();
    {
        let doll = factory.get_doll_mut(0).unwrap();
        doll.width = 4;
        doll.height = 4;
        doll.slots.push(99);
    }
    let selection = HashMap::new();
    let r = factory.analyse(0, &selection, false);
    assert_eq!(
        r.err().unwrap(),
        Error::EntityNotFound {
            kind: EntityKind::Slot,
            id: 99
        }
    );
    // Rendering fails the same way.
    let r = factory.render(0, &selection);
    assert_eq!(
        r.err().unwrap(),
        Error::EntityNotFound {
            kind: EntityKind::Slot,
            id: 99
        }
    );
}

#[test]
fn analyse_missing_fragment_fails() {
    let (factory, slot_id, _fragment_id) = one_slot_factory(8, 8, vec![5, 6, 7, 255], 1, 1);
    let mut selection = HashMap::new();
    selection.insert(slot_id, 77);
    let r = factory.analyse(0, &selection, false);
    assert_eq!(
        r.err().unwrap(),
        Error::EntityNotFound {
            kind: EntityKind::Fragment,
            id: 77
        }
    );
}

#[test]
fn analyse_empty_image_fails() {
    let (factory, slot_id, fragment_id) = one_slot_factory(8, 8, vec![], 0, 0);
    let mut selection = HashMap::new();
    selection.insert(slot_id, fragment_id);
    let r = factory.analyse(0, &selection, false);
    assert_eq!(
        r.err().unwrap(),
        Error::EmptyImageUsed {
            fragment_id
        }
    );
}

#[test]
fn opaque_red_over_opaque_blue_is_red() {
    // One 1x1 doll with two slots: blue painted first, red over it.
    let mut factory = empty_factory();
    let blue = factory.add_fragment().unwrap();
    {
        let fragment = factory.get_fragment_mut(blue).unwrap();
        fragment.image.width = 1;
        fragment.image.height = 1;
        fragment.image.pixels = vec![0, 0, 255, 255];
    }
    let red = factory.add_fragment().unwrap();
    {
        let fragment = factory.get_fragment_mut(red).unwrap();
        fragment.image.width = 1;
        fragment.image.height = 1;
        fragment.image.pixels = vec![255, 0, 0, 255];
    }
    let back = factory.add_slot().unwrap();
    let front = factory.add_slot().unwrap();
    {
        let doll = factory.get_doll_mut(0).unwrap();
        doll.width = 1;
        doll.height = 1;
        doll.slots.push(back);
        doll.slots.push(front);
    }
    let mut selection = HashMap::new();
    selection.insert(back, blue);
    selection.insert(front, red);
    let image = factory.render(0, &selection).unwrap();
    assert_eq!(image.width, 1);
    assert_eq!(image.height, 1);
    assert_eq!(image.pixels, vec![255, 0, 0, 255]);
}

#[test]
fn half_opaque_white_over_black_is_middle_gray() {
    let mut factory = empty_factory();
    let black = factory.add_fragment().unwrap();
    {
        let fragment = factory.get_fragment_mut(black).unwrap();
        fragment.image.width = 1;
        fragment.image.height = 1;
        fragment.image.pixels = vec![0, 0, 0, 255];
    }
    let white = factory.add_fragment().unwrap();
    {
        let fragment = factory.get_fragment_mut(white).unwrap();
        fragment.image.width = 1;
        fragment.image.height = 1;
        fragment.image.pixels = vec![255, 255, 255, 128];
    }
    let back = factory.add_slot().unwrap();
    let front = factory.add_slot().unwrap();
    {
        let doll = factory.get_doll_mut(0).unwrap();
        doll.width = 1;
        doll.height = 1;
        doll.slots.push(back);
        doll.slots.push(front);
    }
    let mut selection = HashMap::new();
    selection.insert(back, black);
    selection.insert(front, white);
    let image = factory.render(0, &selection).unwrap();
    let r = image.pixels[0] as i32;
    let g = image.pixels[1] as i32;
    let b = image.pixels[2] as i32;
    assert!((r - 128).abs() <= 1, "red was {}", r);
    assert!((g - 128).abs() <= 1, "green was {}", g);
    assert!((b - 128).abs() <= 1, "blue was {}", b);
    assert_eq!(image.pixels[3], 255);
}

#[test]
fn piece_fully_outside_canvas_leaves_it_unchanged() {
    // A 10x10 image placed at (-500,-500) on a 100x100 canvas.
    let (mut factory, slot_id, fragment_id) =
        one_slot_factory(100, 100, vec![255u8; 10 * 10 * 4], 10, 10);
    {
        let slot = factory.get_slot_mut(slot_id).unwrap();
        slot.positions = vec![Point::new(-500, -500)];
    }
    let mut selection = HashMap::new();
    selection.insert(slot_id, fragment_id);
    let image = factory.render(0, &selection).unwrap();
    assert_eq!(image.pixels.len(), 100 * 100 * 4);
    assert!(image.pixels.iter().all(|&b| b == 0));
}

#[test]
fn partially_clipped_piece_paints_the_overlap() {
    // A 2x2 opaque white image at (-1,-1) on a 2x2 canvas: only its bottom
    // right pixel lands on the canvas, at (0,0).
    let (mut factory, slot_id, fragment_id) =
        one_slot_factory(2, 2, vec![255u8; 2 * 2 * 4], 2, 2);
    {
        let slot = factory.get_slot_mut(slot_id).unwrap();
        slot.positions = vec![Point::new(-1, -1)];
    }
    let mut selection = HashMap::new();
    selection.insert(slot_id, fragment_id);
    let image = factory.render(0, &selection).unwrap();
    assert_eq!(&image.pixels[0..4], &[255, 255, 255, 255]);
    assert!(image.pixels[4..].iter().all(|&b| b == 0));
}

#[test]
fn doll_background_is_painted_first() {
    let (mut factory, slot_id, fragment_id) =
        one_slot_factory(1, 1, vec![255, 0, 0, 255], 1, 1);
    {
        let doll = factory.get_doll_mut(0).unwrap();
        doll.image.width = 1;
        doll.image.height = 1;
        doll.image.pixels = vec![0, 255, 0, 255];
    }
    let mut selection = HashMap::new();
    selection.insert(slot_id, fragment_id);
    let material = factory.analyse(0, &selection, false).unwrap();
    let background = material.doll.expect("background piece");
    assert_eq!(background.id, 0);
    assert_eq!(background.image.pixels, vec![0, 255, 0, 255]);
    // The slot piece paints over the background.
    let image = factory.render(0, &selection).unwrap();
    assert_eq!(image.pixels, vec![255, 0, 0, 255]);
}

#[test]
fn background_offset_moves_the_background() {
    // A 2x1 canvas with a 1x1 green background at offset (1,0): the left
    // pixel stays transparent, the right one is green.
    let mut factory = empty_factory();
    {
        let doll = factory.get_doll_mut(0).unwrap();
        doll.width = 2;
        doll.height = 1;
        doll.offset = Point::new(1, 0);
        doll.image.width = 1;
        doll.image.height = 1;
        doll.image.pixels = vec![0, 255, 0, 255];
    }
    let selection = HashMap::new();
    let image = factory.render(0, &selection).unwrap();
    assert_eq!(&image.pixels[0..4], &[0, 0, 0, 0]);
    assert_eq!(&image.pixels[4..8], &[0, 255, 0, 255]);
}

#[test]
fn builder_builds_a_renderable_paperdoll() {
    let (factory, slot_id, fragment_id) = one_slot_factory(1, 1, vec![7, 7, 7, 255], 1, 1);
    let paperdoll = factory
        .builder()
        .doll(0)
        .set_slot(slot_id, fragment_id)
        .build();
    assert_eq!(paperdoll.doll, 0);
    assert_eq!(paperdoll.slot_map.get(&slot_id), Some(&fragment_id));
    let material = factory.analyse_paperdoll(&paperdoll, false).unwrap();
    assert_eq!(material.slots.len(), 1);
    let image = factory.render_paperdoll(&paperdoll).unwrap();
    assert_eq!(image.pixels, vec![7, 7, 7, 255]);
}
