use hexisle::hex::CellId;
use hexisle::hex::Hex;
use hexisle::hex::HexNeighbour;

#[test]
fn neighbours_of_origin_in_canonical_order() {
    let ns = CellId::new(0, 0).neighbours();
    assert_eq!(ns[0], CellId::new(1, -1));
    assert_eq!(ns[1], CellId::new(1, 0));
    assert_eq!(ns[2], CellId::new(0, 1));
    assert_eq!(ns[3], CellId::new(-1, 1));
    assert_eq!(ns[4], CellId::new(-1, 0));
    assert_eq!(ns[5], CellId::new(0, -1));
}

#[test]
fn neighbour_matches_neighbours_table() {
    let c = CellId::new(4, -7);
    let ns = c.neighbours();
    let dirs = [
        HexNeighbour::One,
        HexNeighbour::Two,
        HexNeighbour::Three,
        HexNeighbour::For,
        HexNeighbour::Five,
        HexNeighbour::Six,
    ];
    for i in 0..6 {
        assert_eq!(ns[i], c.neighbour(dirs[i]));
    }
}

#[test]
fn cube_invariant_holds_for_produced_coordinates() {
    let mut produced = vec![CellId::new(0, 0), CellId::new(17, -9), CellId::new(-3, -5)];
    for n in CellId::new(2, 1).neighbours() {
        produced.push(n);
    }
    produced.push(CellId::new(3, 4).add(CellId::new(-7, 2)));
    produced.push(CellId::new(3, 4).sub(CellId::new(-7, 2)));
    produced.push(CellId::new(-2, 5).scale(3));
    for c in produced {
        assert_eq!(c.q() as i64 + c.r() as i64 + c.s() as i64, 0);
    }
}

#[test]
fn neighbours_are_at_distance_one() {
    let cells = [CellId::new(0, 0), CellId::new(5, 5), CellId::new(-11, 3)];
    let dirs = [
        HexNeighbour::One,
        HexNeighbour::Two,
        HexNeighbour::Three,
        HexNeighbour::For,
        HexNeighbour::Five,
        HexNeighbour::Six,
    ];
    for c in cells {
        for d in dirs {
            assert_eq!(c.distance(c.neighbour(d)), 1);
        }
    }
}

#[test]
fn distance_is_a_metric() {
    let a = CellId::new(0, 0);
    let b = CellId::new(2, -1);
    let c = CellId::new(-3, 4);
    assert_eq!(a.distance(a), 0);
    assert_eq!(b.distance(b), 0);
    assert_eq!(a.distance(b), b.distance(a));
    assert_eq!(a.distance(c), c.distance(a));
    assert!(a.distance(c) <= a.distance(b) + b.distance(c));
    assert!(b.distance(a) <= b.distance(c) + c.distance(a));
}

#[test]
fn distance_exact_values() {
    let origin = CellId::new(0, 0);
    assert_eq!(origin.distance(CellId::new(2, -1)), 2);
    assert_eq!(origin.distance(CellId::new(3, 0)), 3);
    assert_eq!(origin.distance(CellId::new(-2, -2)), 4);
    assert_eq!(CellId::new(1, 1).distance(CellId::new(-1, 2)), 2);
}

#[test]
fn arithmetic_and_accessors() {
    let c = CellId::new(3, -4);
    assert_eq!(c.q(), 3);
    assert_eq!(c.r(), -4);
    assert_eq!(c.s(), 1);
    assert_eq!(c.add(CellId::new(-1, 6)), CellId::new(2, 2));
    assert_eq!(c.sub(CellId::new(-1, 6)), CellId::new(4, -10));
    assert_eq!(c.scale(2), CellId::new(6, -8));
    assert_eq!(<CellId as Hex>::new(3, -4), c);
}
