use hexisle::hex::CellId;
use hexisle::hex::Hex;
use hexisle::iters::HexIterator;
use hexisle::iters::HexRangeIterator;
use hexisle::world::from_world;
use hexisle::world::QUARTER_SCALE;
use hexisle::world::WorldPos;

#[test]
fn forward_transform_exact_values() {
    let w = CellId::new(2, -1).xyz(0);
    assert_eq!(w.x, 0);
    assert_eq!(w.y, 0);
    assert_eq!(w.z, 6 * QUARTER_SCALE);
    let w = CellId::new(0, 3).xyz(7);
    assert_eq!(w.x, 6 * QUARTER_SCALE);
    assert_eq!(w.y, 7);
    assert_eq!(w.z, 0);
}

#[test]
fn round_trip_for_the_reference_cell() {
    let c = CellId::new(2, -1);
    assert_eq!(from_world(&c.xyz(0)), c);
}

#[test]
fn round_trip_across_a_disk_and_heights() {
    for y in [-65536i64, 0, 98304] {
        let mut it = HexRangeIterator::new(4);
        while let Some(c) = it.next() {
            assert_eq!(from_world(&c.xyz(y)), c);
        }
    }
    for c in [CellId::new(250, -80), CellId::new(-1000, 999)] {
        assert_eq!(from_world(&c.xyz(12345)), c);
    }
}

#[test]
fn nearby_points_resolve_to_the_same_cell() {
    let c = CellId::new(2, -1);
    let w = c.xyz(0);
    let nudged = WorldPos { x: w.x + 8000, y: w.y, z: w.z };
    assert_eq!(from_world(&nudged), c);
    let nudged = WorldPos { x: w.x - 8000, y: w.y + 5, z: w.z - 6000 };
    assert_eq!(from_world(&nudged), c);
}

#[test]
fn rounding_repairs_the_axis_that_moved_farthest() {
    // Fractional axial roughly (0.45, 0.30): q rounds to 0, r to 0, s to -1;
    // the q delta is strictly largest, so q is recomputed as -r - s == 1.
    let w = WorldPos { x: 17204, y: 0, z: 22119 };
    assert_eq!(from_world(&w), CellId::new(1, 0));
    // Mirrored (0.30, 0.45): now the r delta is strictly largest and r is
    // recomputed as -q - s == 1.
    let w = WorldPos { x: 19661, y: 0, z: 14746 };
    assert_eq!(from_world(&w), CellId::new(0, 1));
}

#[test]
fn rounded_cells_satisfy_the_cube_invariant() {
    for (x, z) in [(17204i64, 22119i64), (19661, 14746), (-50000, 33333), (123456, -98765)] {
        let c = from_world(&WorldPos { x, y: 0, z });
        assert_eq!(c.q() as i64 + c.r() as i64 + c.s() as i64, 0);
    }
}
