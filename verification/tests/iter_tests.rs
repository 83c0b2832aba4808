use std::collections::HashSet;

use hexisle::hex::CellId;
use hexisle::iters::HexIterator;
use hexisle::iters::HexRangeIterator;
use hexisle::iters::HexRingIterator;
use hexisle::iters::HexSpiralIterator;
use hexisle::iters::WithOffset;

fn collect<I: HexIterator>(mut it: I) -> Vec<CellId> {
    let mut out = Vec::new();
    while let Some(c) = it.next() {
        out.push(c);
    }
    out
}

#[test]
fn range_of_radius_one_in_raster_order() {
    let cells = collect(HexRangeIterator::new(1));
    let expected = vec![
        CellId::new(-1, 0),
        CellId::new(-1, 1),
        CellId::new(0, -1),
        CellId::new(0, 0),
        CellId::new(0, 1),
        CellId::new(1, -1),
        CellId::new(1, 0),
    ];
    assert_eq!(cells, expected);
}

#[test]
fn range_counts_match_formula() {
    for radius in 0u32..6 {
        let cells = collect(HexRangeIterator::new(radius));
        let r = radius as u64;
        assert_eq!(cells.len() as u64, 3 * r * r + 3 * r + 1);
        let distinct: HashSet<CellId> = cells.iter().cloned().collect();
        assert_eq!(distinct.len(), cells.len());
        let origin = CellId::new(0, 0);
        for c in cells {
            assert!(origin.distance(c) <= r);
        }
    }
}

#[test]
fn range_is_single_pass() {
    let mut it = HexRangeIterator::new(0);
    assert_eq!(it.next(), Some(CellId::new(0, 0)));
    assert_eq!(it.next(), None);
    assert_eq!(it.next(), None);
}

#[test]
fn ring_of_radius_zero_is_the_origin() {
    let cells = collect(HexRingIterator::new(0));
    assert_eq!(cells, vec![CellId::new(0, 0)]);
}

#[test]
fn ring_of_radius_two_walks_the_edges() {
    let cells = collect(HexRingIterator::new(2));
    assert_eq!(cells.len(), 12);
    let origin = CellId::new(0, 0);
    for &c in &cells {
        assert_eq!(origin.distance(c), 2);
    }
    let distinct: HashSet<CellId> = cells.iter().cloned().collect();
    assert_eq!(distinct.len(), 12);
    let expected = vec![
        CellId::new(-2, 0),
        CellId::new(-1, -1),
        CellId::new(0, -2),
        CellId::new(1, -2),
        CellId::new(2, -2),
        CellId::new(2, -1),
        CellId::new(2, 0),
        CellId::new(1, 1),
        CellId::new(0, 2),
        CellId::new(-1, 2),
        CellId::new(-2, 2),
        CellId::new(-2, 1),
    ];
    assert_eq!(cells, expected);
}

#[test]
fn ring_counts_match_formula() {
    for radius in 1u32..6 {
        let cells = collect(HexRingIterator::new(radius));
        assert_eq!(cells.len() as u64, 6 * radius as u64);
        let distinct: HashSet<CellId> = cells.iter().cloned().collect();
        assert_eq!(distinct.len(), cells.len());
        let origin = CellId::new(0, 0);
        for c in cells {
            assert_eq!(origin.distance(c), radius as u64);
        }
    }
}

#[test]
fn spiral_is_the_disk_in_distance_order() {
    for radius in 0u32..5 {
        let spiral = collect(HexSpiralIterator::new(radius));
        let disk = collect(HexRangeIterator::new(radius));
        assert_eq!(spiral.len(), disk.len());
        let spiral_set: HashSet<CellId> = spiral.iter().cloned().collect();
        let disk_set: HashSet<CellId> = disk.iter().cloned().collect();
        assert_eq!(spiral_set, disk_set);
        assert_eq!(spiral_set.len(), spiral.len());
        let origin = CellId::new(0, 0);
        let mut last = 0u64;
        for c in spiral {
            let d = origin.distance(c);
            assert!(d >= last);
            last = d;
        }
    }
}

#[test]
fn offset_shifts_every_cell_of_a_range() {
    let base = CellId::new(5, 5);
    let shifted = collect(HexRangeIterator::new(1).with_offset(base));
    let plain = collect(HexRangeIterator::new(1));
    assert_eq!(shifted.len(), 7);
    assert_eq!(shifted.len(), plain.len());
    for i in 0..plain.len() {
        assert_eq!(shifted[i], base.add(plain[i]));
    }
}

#[test]
fn offset_shifts_a_ring_anchored_on_a_cell() {
    let base = CellId::new(-3, 2);
    let shifted = collect(HexRingIterator::new(2).with_offset(base));
    assert_eq!(shifted.len(), 12);
    for c in shifted {
        assert_eq!(base.distance(c), 2);
    }
}
