//! Axial hex coordinates and their exact-integer algebra.
//!
//! A grid cell is addressed by two signed integers `(q, r)`; the third cube
//! coordinate `s = -q - r` is always derived, never stored, so the cube
//! invariant `q + r + s == 0` holds for every value this module can produce.

use vstd::prelude::*;

verus! {

/// The six hex neighbour directions, in the fixed canonical order that both
/// `neighbours` and the ring walk rely on.
#[derive(Clone, Copy, Debug, PartialEq, Eq, Structural)]
pub enum HexNeighbour {
    One,
    Two,
    Three,
    For,
    Five,
    Six,
}

/// Axial delta of one step in the given direction.
pub open spec fn hex_delta(n: HexNeighbour) -> (int, int) {
    match n {
        HexNeighbour::One => (1int, -1int),
        HexNeighbour::Two => (1int, 0int),
        HexNeighbour::Three => (0int, 1int),
        HexNeighbour::For => (-1int, 1int),
        HexNeighbour::Five => (-1int, 0int),
        HexNeighbour::Six => (0int, -1int),
    }
}

/// Component-wise sum of two axial coordinates.
pub open spec fn hex_add(a: (int, int), b: (int, int)) -> (int, int) {
    (a.0 + b.0, a.1 + b.1)
}

/// Component-wise difference of two axial coordinates.
pub open spec fn hex_sub(a: (int, int), b: (int, int)) -> (int, int) {
    (a.0 - b.0, a.1 - b.1)
}

/// The cell one step from `a` in direction `n`.
pub open spec fn hex_neighbour(a: (int, int), n: HexNeighbour) -> (int, int) {
    hex_add(a, hex_delta(n))
}

pub open spec fn abs_int(x: int) -> int {
    if x < 0 {
        -x
    } else {
        x
    }
}

pub open spec fn max_int(a: int, b: int) -> int {
    if a >= b {
        a
    } else {
        b
    }
}

/// The derived third cube coordinate of an axial pair.
pub open spec fn hex_s(a: (int, int)) -> int {
    -a.0 - a.1
}

/// Hex distance in cube coordinates: half the sum of the absolute
/// cube-coordinate differences. The difference of the derived `s`
/// coordinates is `-(dq + dr)`.
pub open spec fn hex_dist(a: (int, int), b: (int, int)) -> int {
    (abs_int(a.0 - b.0) + abs_int(a.1 - b.1) + abs_int((a.0 + a.1) - (b.0 + b.1))) / 2
}

/// The hex distance equals the largest absolute cube-coordinate
/// difference, and twice the distance equals their sum; the two facts
/// that make distance reasoning linear.
pub proof fn lemma_dist_is_max(a: (int, int), b: (int, int))
    ensures
        hex_dist(a, b) == max_int(
            max_int(abs_int(a.0 - b.0), abs_int(a.1 - b.1)),
            abs_int((a.0 + a.1) - (b.0 + b.1)),
        ),
        2 * hex_dist(a, b) == abs_int(a.0 - b.0) + abs_int(a.1 - b.1) + abs_int(
            (a.0 + a.1) - (b.0 + b.1),
        ),
{
    let x = a.0 - b.0;
    let y = a.1 - b.1;
    let m = max_int(max_int(abs_int(x), abs_int(y)), abs_int(x + y));
    assert(abs_int(x) + abs_int(y) + abs_int(x + y) == 2 * m);
    assert((2 * m) / 2 == m);
}

/// Law: every coordinate satisfies the cube invariant `q + r + s == 0`,
/// because the third cube coordinate is always derived as `s = -q - r`.
pub proof fn lemma_cube_invariant(c: CellId)
    ensures
        c@.0 + c@.1 + hex_s(c@) == 0,
{
}

/// Law: a cell and any of its six neighbours are at hex distance one.
pub proof fn lemma_neighbour_distance(a: (int, int), n: HexNeighbour)
    ensures
        hex_dist(a, hex_neighbour(a, n)) == 1,
{
    lemma_dist_is_max(a, hex_neighbour(a, n));
}

/// Law: hex distance is a metric; zero on the diagonal, symmetric, and
/// obeying the triangle inequality.
pub proof fn lemma_distance_metric(a: (int, int), b: (int, int), c: (int, int))
    ensures
        hex_dist(a, a) == 0,
        hex_dist(a, b) >= 0,
        hex_dist(a, b) == hex_dist(b, a),
        hex_dist(a, c) <= hex_dist(a, b) + hex_dist(b, c),
{
    lemma_dist_is_max(a, a);
    lemma_dist_is_max(a, b);
    lemma_dist_is_max(b, a);
    lemma_dist_is_max(a, c);
    lemma_dist_is_max(b, c);
}

/// The capability contract every coordinate representation offers:
/// accessors, construction, scaling and neighbour navigation, all pinned
/// to the ghost axial coordinates `hq`/`hr`.
pub trait Hex: Sized + Copy {
    /// Ghost q coordinate.
    spec fn hq(&self) -> int;

    /// Ghost r coordinate.
    spec fn hr(&self) -> int;

    fn q(&self) -> (v: i32)
        ensures
            v as int == self.hq(),
    ;

    fn r(&self) -> (v: i32)
        ensures
            v as int == self.hr(),
    ;

    fn new(q: i32, r: i32) -> (c: Self)
        ensures
            c.hq() == q as int,
            c.hr() == r as int,
    ;

    /// The derived third cube coordinate `s = -q - r`.
    fn s(&self) -> (v: i32)
        requires
            i32::MIN <= -self.hq() - self.hr() <= i32::MAX,
        ensures
            v as int == -self.hq() - self.hr(),
    ;

    /// Both components multiplied by a non-negative factor.
    fn scale(&self, factor: u32) -> (c: Self)
        requires
            i32::MIN <= self.hq() * factor <= i32::MAX,
            i32::MIN <= self.hr() * factor <= i32::MAX,
        ensures
            c.hq() == self.hq() * factor,
            c.hr() == self.hr() * factor,
    ;

    /// The adjacent cell one step in direction `n`.
    fn neighbour(&self, n: HexNeighbour) -> (c: Self)
        requires
            i32::MIN <= self.hq() + hex_delta(n).0 <= i32::MAX,
            i32::MIN <= self.hr() + hex_delta(n).1 <= i32::MAX,
        ensures
            (c.hq(), c.hr()) == hex_neighbour((self.hq(), self.hr()), n),
    ;

    /// All six adjacent cells, in canonical direction order.
    fn neighbours(&self) -> (arr: [Self; 6])
        requires
            i32::MIN < self.hq() < i32::MAX,
            i32::MIN < self.hr() < i32::MAX,
        ensures
            (arr@[0].hq(), arr@[0].hr()) == hex_neighbour(
                (self.hq(), self.hr()),
                HexNeighbour::One,
            ),
            (arr@[1].hq(), arr@[1].hr()) == hex_neighbour(
                (self.hq(), self.hr()),
                HexNeighbour::Two,
            ),
            (arr@[2].hq(), arr@[2].hr()) == hex_neighbour(
                (self.hq(), self.hr()),
                HexNeighbour::Three,
            ),
            (arr@[3].hq(), arr@[3].hr()) == hex_neighbour(
                (self.hq(), self.hr()),
                HexNeighbour::For,
            ),
            (arr@[4].hq(), arr@[4].hr()) == hex_neighbour(
                (self.hq(), self.hr()),
                HexNeighbour::Five,
            ),
            (arr@[5].hq(), arr@[5].hr()) == hex_neighbour(
                (self.hq(), self.hr()),
                HexNeighbour::Six,
            ),
    ;
}

/// A map cell address: an axial hex coordinate.
#[derive(Clone, Copy, Debug, PartialEq, Eq, Structural, Hash)]
pub struct CellId {
    pub q: i32,
    pub r: i32,
}

impl View for CellId {
    type V = (int, int);

    open spec fn view(&self) -> (int, int) {
        (self.q as int, self.r as int)
    }
}

impl CellId {
    pub fn new(q: i32, r: i32) -> (c: CellId)
        ensures
            c@ == (q as int, r as int),
    {
        CellId { q, r }
    }

    /// Component-wise sum, used by the offset decorator and the ring walk.
    pub fn add(self, rhs: CellId) -> (c: CellId)
        requires
            i32::MIN <= self@.0 + rhs@.0 <= i32::MAX,
            i32::MIN <= self@.1 + rhs@.1 <= i32::MAX,
        ensures
            c@ == hex_add(self@, rhs@),
    {
        CellId { q: self.q + rhs.q, r: self.r + rhs.r }
    }

    /// Component-wise difference.
    pub fn sub(self, rhs: CellId) -> (c: CellId)
        requires
            i32::MIN <= self@.0 - rhs@.0 <= i32::MAX,
            i32::MIN <= self@.1 - rhs@.1 <= i32::MAX,
        ensures
            c@ == hex_sub(self@, rhs@),
    {
        CellId { q: self.q - rhs.q, r: self.r - rhs.r }
    }

    /// Exact hex distance between two cells: the minimum number of
    /// neighbour steps from `self` to `other`.
    pub fn distance(&self, other: CellId) -> (d: u64)
        ensures
            d as int == hex_dist(self@, other@),
    {
        let dq: i64 = self.q as i64 - other.q as i64;
        let dr: i64 = self.r as i64 - other.r as i64;
        let ds: i64 = (self.q as i64 + self.r as i64) - (other.q as i64 + other.r as i64);
        let aq: i64 = if dq < 0 {
            -dq
        } else {
            dq
        };
        let ar: i64 = if dr < 0 {
            -dr
        } else {
            dr
        };
        let an: i64 = if ds < 0 {
            -ds
        } else {
            ds
        };
        ((aq + ar + an) / 2) as u64
    }
}

impl Hex for CellId {
    open spec fn hq(&self) -> int {
        self.q as int
    }

    open spec fn hr(&self) -> int {
        self.r as int
    }

    fn q(&self) -> i32 {
        self.q
    }

    fn r(&self) -> i32 {
        self.r
    }

    fn new(q: i32, r: i32) -> CellId {
        CellId::new(q, r)
    }

    fn s(&self) -> i32 {
        let v: i64 = -(self.q as i64) - (self.r as i64);
        v as i32
    }

    fn scale(&self, factor: u32) -> CellId {
        let q: i64 = self.q as i64 * factor as i64;
        let r: i64 = self.r as i64 * factor as i64;
        CellId { q: q as i32, r: r as i32 }
    }

    fn neighbour(&self, n: HexNeighbour) -> CellId {
        match n {
            HexNeighbour::One => CellId { q: self.q + 1, r: self.r - 1 },
            HexNeighbour::Two => CellId { q: self.q + 1, r: self.r },
            HexNeighbour::Three => CellId { q: self.q, r: self.r + 1 },
            HexNeighbour::For => CellId { q: self.q - 1, r: self.r + 1 },
            HexNeighbour::Five => CellId { q: self.q - 1, r: self.r },
            HexNeighbour::Six => CellId { q: self.q, r: self.r - 1 },
        }
    }

    fn neighbours(&self) -> [CellId; 6] {
        [
            CellId { q: self.q + 1, r: self.r - 1 },
            CellId { q: self.q + 1, r: self.r },
            CellId { q: self.q, r: self.r + 1 },
            CellId { q: self.q - 1, r: self.r + 1 },
            CellId { q: self.q - 1, r: self.r },
            CellId { q: self.q, r: self.r - 1 },
        ]
    }
}

} // verus!
