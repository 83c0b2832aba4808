//! Lazy enumeration of filled disks, hollow rings and growing spirals of
//! hex cells.
//!
//! Each iterator is a small explicit state machine whose contract is pinned
//! to a mathematical sequence: `range_seq` (raster order over the filled
//! disk), `ring_seq` (edge-walk order around a hollow ring) and
//! `spiral_seq` (rings chained in increasing radius order). `next` always
//! yields the head of `remaining()` and drops it.

use vstd::prelude::*;
use vstd::arithmetic::div_mod::lemma_fundamental_div_mod;
use vstd::arithmetic::div_mod::lemma_fundamental_div_mod_converse;
use vstd::arithmetic::div_mod::lemma_mod_bound;
use crate::hex::CellId;
use crate::hex::Hex;
use crate::hex::HexNeighbour;
use crate::hex::hex_add;
use crate::hex::hex_delta;
use crate::hex::hex_dist;
use crate::hex::lemma_dist_is_max;

verus! {

/// Largest radius the iterators accept; keeps every coordinate a walk can
/// touch, and every cursor, inside `i32`.
pub const MAX_RADIUS: u32 = 0x3FFF_FFFF;

/// First `r` of the raster row at column `q` of the disk of the given
/// radius: `max(-radius, -q - radius)`, the clipping that keeps
/// `|s| <= radius`.
pub open spec fn row_lo(radius: int, q: int) -> int {
    if -radius >= -q - radius {
        -radius
    } else {
        -q - radius
    }
}

/// Last `r` of the raster row at column `q`: `min(radius, -q + radius)`.
pub open spec fn row_hi(radius: int, q: int) -> int {
    if radius <= -q + radius {
        radius
    } else {
        -q + radius
    }
}

/// One raster row of the filled disk: all cells `(q, r)` with `r` running
/// from `row_lo` to `row_hi`.
pub open spec fn row_seq(radius: int, q: int) -> Seq<(int, int)> {
    Seq::new((row_hi(radius, q) - row_lo(radius, q) + 1) as nat, |j: int| (q, row_lo(radius, q) + j))
}

/// The raster rows of the filled disk from column `q` upward.
pub open spec fn rows_from(radius: int, q: int) -> Seq<(int, int)>
    decreases radius - q + 1,
{
    if q > radius {
        Seq::empty()
    } else {
        row_seq(radius, q) + rows_from(radius, q + 1)
    }
}

/// Every cell within distance `radius` of the origin, in raster order:
/// `q` sweeps `-radius ..= radius`, and for each `q` the row `r` sweeps its
/// clipped range.
pub open spec fn range_seq(radius: int) -> Seq<(int, int)> {
    rows_from(radius, -radius)
}

/// A single-pass producer of hex cells. `remaining()` is the exact
/// sequence of cells still to come: `next` yields its head.
pub trait HexIterator: Sized {
    spec fn wf(&self) -> bool;

    spec fn remaining(&self) -> Seq<(int, int)>;

    fn next(&mut self) -> (r: Option<CellId>)
        requires
            old(self).wf(),
        ensures
            final(self).wf(),
            match r {
                Some(c) => old(self).remaining().len() > 0 && c@ == old(self).remaining()[0]
                    && final(self).remaining() == old(self).remaining().skip(1),
                None => old(self).remaining().len() == 0 && final(self).remaining().len() == 0,
            },
    ;
}

/// Lazily produces every cell within a given hex distance of the origin,
/// each exactly once, in raster order.
pub struct HexRangeIterator {
    size: i32,
    q: i32,
    r: i32,
}

impl HexRangeIterator {
    pub fn new(range: u32) -> (it: HexRangeIterator)
        requires
            range <= MAX_RADIUS,
        ensures
            it.wf(),
            it.remaining() == range_seq(range as int),
    {
        let size = range as i32;
        let it = HexRangeIterator { size, q: -size, r: 0 };
        proof {
            assert(it.remaining() =~= range_seq(range as int));
        }
        it
    }
}

impl HexIterator for HexRangeIterator {
    closed spec fn wf(&self) -> bool {
        &&& 0 <= self.size <= MAX_RADIUS
        &&& if self.q > self.size {
            self.q == self.size + 1
        } else {
            -self.size <= self.q && row_lo(self.size as int, self.q as int) <= self.r as int
                <= row_hi(self.size as int, self.q as int)
        }
    }

    closed spec fn remaining(&self) -> Seq<(int, int)> {
        if self.q > self.size {
            Seq::empty()
        } else {
            Seq::new(
                (row_hi(self.size as int, self.q as int) - self.r as int + 1) as nat,
                |j: int| (self.q as int, self.r as int + j),
            ) + rows_from(self.size as int, self.q as int + 1)
        }
    }

    fn next(&mut self) -> (r: Option<CellId>) {
        if self.q > self.size {
            None
        } else {
            let c = CellId::new(self.q, self.r);
            let ghost old_rem = self.remaining();
            let t: i32 = -self.q + self.size;
            let hi: i32 = if self.size <= t {
                self.size
            } else {
                t
            };
            if self.r < hi {
                self.r = self.r + 1;
            } else {
                self.q = self.q + 1;
                if self.q <= self.size {
                    let u: i32 = -self.q - self.size;
                    self.r = if -self.size >= u {
                        -self.size
                    } else {
                        u
                    };
                }
            }
            proof {
                assert(old_rem[0] == c@);
                assert(self.remaining() =~= old_rem.skip(1));
            }
            Some(c)
        }
    }
}

/// Law: the filled disk of radius `radius` holds exactly
/// `3 * radius^2 + 3 * radius + 1` cells, no cell twice, and every one of
/// them lies within hex distance `radius` of the origin.
pub proof fn lemma_range_properties(radius: int)
    requires
        0 <= radius,
    ensures
        range_seq(radius).len() == 3 * radius * radius + 3 * radius + 1,
        range_seq(radius).no_duplicates(),
        forall|i: int|
            0 <= i < range_seq(radius).len() ==> hex_dist(
                (0int, 0int),
                #[trigger] range_seq(radius)[i],
            ) <= radius,
{
    lemma_range_len(radius);
    lemma_rows_from_no_dup(radius, -radius);
    lemma_rows_from_elems(radius, -radius);
    assert forall|i: int| 0 <= i < range_seq(radius).len() implies hex_dist(
        (0int, 0int),
        #[trigger] range_seq(radius)[i],
    ) <= radius by {
        lemma_dist_is_max((0int, 0int), range_seq(radius)[i]);
    }
}

/// Law: every cell within distance `radius` of the origin appears in the
/// filled disk of radius `radius`.
pub proof fn lemma_range_complete(radius: int, x: int, y: int)
    requires
        0 <= radius,
        hex_dist((0int, 0int), (x, y)) <= radius,
    ensures
        range_seq(radius).contains((x, y)),
{
    lemma_dist_is_max((0int, 0int), (x, y));
    lemma_rows_from_contains(radius, -radius, x, y);
}

/// Corner cell where edge `e` of the ring of the given radius starts.
pub open spec fn ring_corner(radius: int, e: int) -> (int, int) {
    if e == 0 {
        (-radius, 0int)
    } else if e == 1 {
        (0int, -radius)
    } else if e == 2 {
        (radius, -radius)
    } else if e == 3 {
        (radius, 0int)
    } else if e == 4 {
        (0int, radius)
    } else {
        (-radius, radius)
    }
}

/// Walk direction along edge `e` of a ring: the canonical direction order.
pub open spec fn edge_dir(e: int) -> HexNeighbour {
    if e == 0 {
        HexNeighbour::One
    } else if e == 1 {
        HexNeighbour::Two
    } else if e == 2 {
        HexNeighbour::Three
    } else if e == 3 {
        HexNeighbour::For
    } else if e == 4 {
        HexNeighbour::Five
    } else {
        HexNeighbour::Six
    }
}

/// The `k`-th cell of the edge walk around the ring of positive radius:
/// `k / radius` picks the edge, `k % radius` the step along it.
pub open spec fn ring_cell(radius: int, k: int) -> (int, int)
    recommends
        radius > 0,
        0 <= k < 6 * radius,
{
    let e = k / radius;
    let j = k % radius;
    (
        ring_corner(radius, e).0 + j * hex_delta(edge_dir(e)).0,
        ring_corner(radius, e).1 + j * hex_delta(edge_dir(e)).1,
    )
}

/// The hollow ring at exact distance `radius` from the origin, in edge-walk
/// order; radius zero is the origin alone.
pub open spec fn ring_seq(radius: int) -> Seq<(int, int)> {
    if radius == 0 {
        seq![(0int, 0int)]
    } else {
        Seq::new((6 * radius) as nat, |k: int| ring_cell(radius, k))
    }
}

proof fn lemma_ring_index(radius: int, k: int)
    requires
        radius > 0,
        0 <= k < 6 * radius,
    ensures
        0 <= k / radius < 6,
        0 <= k % radius < radius,
        k == (k / radius) * radius + k % radius,
{
    lemma_fundamental_div_mod(k, radius);
    lemma_mod_bound(k, radius);
    assert(0 <= k / radius < 6) by (nonlinear_arith)
        requires
            radius > 0,
            0 <= k < 6 * radius,
            k == radius * (k / radius) + k % radius,
            0 <= k % radius < radius,
    {
    }
    assert(k == (k / radius) * radius + k % radius) by (nonlinear_arith)
        requires
            k == radius * (k / radius) + k % radius,
    {
    }
}

/// The explicit coordinates of each walk cell, edge by edge.
proof fn lemma_ring_cell_form(radius: int, k: int)
    requires
        radius > 0,
        0 <= k < 6 * radius,
    ensures
        k / radius == 0 ==> ring_cell(radius, k) == (-radius + k % radius, -(k % radius)),
        k / radius == 1 ==> ring_cell(radius, k) == (k % radius, -radius),
        k / radius == 2 ==> ring_cell(radius, k) == (radius, -radius + k % radius),
        k / radius == 3 ==> ring_cell(radius, k) == (radius - k % radius, k % radius),
        k / radius == 4 ==> ring_cell(radius, k) == (-(k % radius), radius),
        k / radius == 5 ==> ring_cell(radius, k) == (-radius, radius - k % radius),
{
    lemma_ring_index(radius, k);
    let j = k % radius;
    assert(j * 1int == j) by (nonlinear_arith);
    assert(j * (-1int) == -j) by (nonlinear_arith);
    assert(j * 0int == 0) by (nonlinear_arith);
}

/// Every cell of a positive ring lies at hex distance exactly `radius`
/// from the origin, with both coordinates within `radius` in magnitude.
proof fn lemma_ring_cell_facts(radius: int, k: int)
    requires
        radius > 0,
        0 <= k < 6 * radius,
    ensures
        hex_dist((0int, 0int), ring_cell(radius, k)) == radius,
        -radius <= ring_cell(radius, k).0 <= radius,
        -radius <= ring_cell(radius, k).1 <= radius,
{
    lemma_ring_index(radius, k);
    lemma_dist_is_max((0int, 0int), ring_cell(radius, k));
}

/// Distinct walk positions give distinct ring cells.
proof fn lemma_ring_distinct_pair(radius: int, k1: int, k2: int)
    requires
        radius > 0,
        0 <= k1 < 6 * radius,
        0 <= k2 < 6 * radius,
        k1 != k2,
    ensures
        ring_cell(radius, k1) != ring_cell(radius, k2),
{
    lemma_ring_index(radius, k1);
    lemma_ring_index(radius, k2);
    lemma_ring_cell_form(radius, k1);
    lemma_ring_cell_form(radius, k2);
    let e1 = k1 / radius;
    let j1 = k1 % radius;
    let e2 = k2 / radius;
    let j2 = k2 % radius;
    assert(e1 != e2 || j1 != j2) by (nonlinear_arith)
        requires
            k1 == e1 * radius + j1,
            k2 == e2 * radius + j2,
            k1 != k2,
    {
    }
}

/// Consecutive walk positions are one neighbour step apart, in the walk
/// direction of the step's edge.
proof fn lemma_ring_step(radius: int, k: int)
    requires
        radius > 0,
        0 <= k,
        k + 1 < 6 * radius,
    ensures
        ring_cell(radius, k + 1) == hex_add(ring_cell(radius, k), hex_delta(edge_dir(k / radius))),
{
    lemma_ring_index(radius, k);
    lemma_ring_cell_form(radius, k);
    let e = k / radius;
    let j = k % radius;
    if j + 1 < radius {
        lemma_fundamental_div_mod_converse(k + 1, radius, e, j + 1);
    } else {
        assert(k + 1 == (e + 1) * radius + 0) by (nonlinear_arith)
            requires
                k == e * radius + j,
                j + 1 == radius,
        {
        }
        lemma_fundamental_div_mod_converse(k + 1, radius, e + 1, 0);
        lemma_ring_index(radius, k + 1);
    }
    lemma_ring_cell_form(radius, k + 1);
}

/// The walk starts at the first corner, `(-radius, 0)`.
proof fn lemma_ring_head(radius: int)
    requires
        radius > 0,
    ensures
        ring_cell(radius, 0) == (-radius, 0int),
{
    lemma_fundamental_div_mod_converse(0, radius, 0, 0);
}

fn edge_direction(e: i32) -> (n: HexNeighbour)
    requires
        0 <= e <= 5,
    ensures
        n == edge_dir(e as int),
{
    if e == 0 {
        HexNeighbour::One
    } else if e == 1 {
        HexNeighbour::Two
    } else if e == 2 {
        HexNeighbour::Three
    } else if e == 3 {
        HexNeighbour::For
    } else if e == 4 {
        HexNeighbour::Five
    } else {
        HexNeighbour::Six
    }
}

/// Lazily produces the cells at exact hex distance `radius` from the
/// origin, each exactly once, walking the six edges in canonical direction
/// order; radius zero yields the origin alone.
pub struct HexRingIterator {
    radius: i32,
    e: i32,
    j: i32,
    cur: CellId,
}

impl HexRingIterator {
    /// The ring radius this iterator was built with.
    pub closed spec fn radius_spec(&self) -> int {
        self.radius as int
    }

    spec fn pos(&self) -> int {
        self.e as int * self.radius as int + self.j as int
    }

    pub fn new(radius: u32) -> (it: HexRingIterator)
        requires
            radius <= MAX_RADIUS,
        ensures
            it.wf(),
            it.radius_spec() == radius as int,
            it.remaining() == ring_seq(radius as int),
    {
        let r = radius as i32;
        let it = HexRingIterator { radius: r, e: 0, j: 0, cur: CellId::new(-r, 0) };
        proof {
            if r > 0 {
                lemma_ring_head(r as int);
                assert(it.pos() == 0);
                assert(it.remaining() =~= ring_seq(radius as int));
            }
        }
        it
    }
}

impl HexIterator for HexRingIterator {
    closed spec fn wf(&self) -> bool {
        &&& 0 <= self.radius <= MAX_RADIUS
        &&& if self.radius == 0 {
            (self.e == 0 || self.e == 6) && self.j == 0
        } else {
            &&& 0 <= self.j < self.radius
            &&& 0 <= self.e <= 6
            &&& (self.e == 6 ==> self.j == 0)
            &&& (self.e < 6 ==> self.cur@ == ring_cell(self.radius as int, self.pos()))
        }
    }

    closed spec fn remaining(&self) -> Seq<(int, int)> {
        if self.radius == 0 {
            if self.e == 0 {
                seq![(0int, 0int)]
            } else {
                Seq::empty()
            }
        } else if self.e == 6 {
            Seq::empty()
        } else {
            Seq::new(
                (6 * self.radius as int - self.pos()) as nat,
                |i: int| ring_cell(self.radius as int, self.pos() + i),
            )
        }
    }

    fn next(&mut self) -> (r: Option<CellId>)
        ensures
            final(self).radius_spec() == old(self).radius_spec(),
    {
        if self.radius == 0 {
            if self.e == 0 {
                self.e = 6;
                Some(CellId::new(0, 0))
            } else {
                None
            }
        } else if self.e == 6 {
            None
        } else {
            let ghost radius = self.radius as int;
            let ghost k = self.pos();
            let ghost old_rem = self.remaining();
            let ghost oe = self.e as int;
            let ghost oj = self.j as int;
            proof {
                assert(0 <= self.e as int * radius <= 5 * radius) by (nonlinear_arith)
                    requires
                        0 <= self.e < 6,
                        radius > 0,
                {
                }
                lemma_ring_cell_facts(radius, k);
                assert(old_rem[0] == self.cur@);
            }
            let c = self.cur;
            let dir = edge_direction(self.e);
            self.cur = self.cur.neighbour(dir);
            self.j = self.j + 1;
            if self.j == self.radius {
                self.j = 0;
                self.e = self.e + 1;
            }
            proof {
                lemma_fundamental_div_mod_converse(k, radius, oe, oj);
                assert(self.pos() == k + 1) by (nonlinear_arith)
                    requires
                        k == oe * radius + oj,
                        radius == self.radius as int,
                        (self.e as int == oe && self.j as int == oj + 1 && oj + 1 < radius) || (
                        self.e as int == oe + 1 && self.j == 0 && oj + 1 == radius),
                {
                }
                if self.e < 6 {
                    lemma_ring_step(radius, k);
                    assert(self.cur@ == ring_cell(radius, k + 1));
                }
                assert(self.remaining() =~= old_rem.skip(1));
            }
            Some(c)
        }
    }
}

/// Law: the ring of radius zero is the origin alone; a positive ring holds
/// exactly `6 * radius` cells, no cell twice, every one at hex distance
/// exactly `radius` from the origin.
pub proof fn lemma_ring_properties(radius: int)
    requires
        0 <= radius,
    ensures
        radius == 0 ==> ring_seq(radius) == seq![(0int, 0int)],
        radius > 0 ==> ring_seq(radius).len() == 6 * radius,
        ring_seq(radius).no_duplicates(),
        forall|i: int|
            0 <= i < ring_seq(radius).len() ==> hex_dist(
                (0int, 0int),
                #[trigger] ring_seq(radius)[i],
            ) == radius,
{
    if radius == 0 {
    } else {
        assert forall|i: int| 0 <= i < ring_seq(radius).len() implies hex_dist(
            (0int, 0int),
            #[trigger] ring_seq(radius)[i],
        ) == radius by {
            lemma_ring_cell_facts(radius, i);
        }
        assert forall|i: int, j: int|
            0 <= i < ring_seq(radius).len() && 0 <= j < ring_seq(radius).len() && i
                != j implies ring_seq(radius)[i] != ring_seq(radius)[j] by {
            lemma_ring_distinct_pair(radius, i, j);
        }
    }
}

/// The rings from radius `r` through `max`, chained in increasing order.
pub open spec fn spiral_from(r: int, max: int) -> Seq<(int, int)>
    decreases max - r + 1,
{
    if r > max {
        Seq::empty()
    } else {
        ring_seq(r) + spiral_from(r + 1, max)
    }
}

/// The filled disk of radius `max` ordered by non-decreasing distance from
/// the origin: the rings of radius `0, 1, ..., max` chained.
pub open spec fn spiral_seq(max: int) -> Seq<(int, int)> {
    spiral_from(0, max)
}

proof fn lemma_spiral_from_len(r: int, max: int)
    requires
        1 <= r <= max + 1,
    ensures
        spiral_from(r, max).len() == 3 * max * (max + 1) - 3 * r * (r - 1),
    decreases max - r + 1,
{
    if r > max {
        assert(3 * max * (max + 1) - 3 * r * (r - 1) == 0) by (nonlinear_arith)
            requires
                r == max + 1,
        {
        }
    } else {
        lemma_spiral_from_len(r + 1, max);
        lemma_ring_properties(r);
        let total: int = spiral_from(r, max).len() as int;
        let tail_len: int = spiral_from(r + 1, max).len() as int;
        assert(total == 6 * r + tail_len);
        assert(6 * r + tail_len == 3 * max * (max + 1) - 3 * r * (r - 1)) by (nonlinear_arith)
            requires
                tail_len == 3 * max * (max + 1) - 3 * (r + 1) * r,
        {
        }
    }
}

/// Every cell the spiral tail from radius `r` produces sits at distance
/// between `r` and `max`; the tail is duplicate-free and its distances are
/// non-decreasing.
proof fn lemma_spiral_from_facts(r: int, max: int)
    requires
        0 <= r <= max + 1,
    ensures
        forall|i: int|
            0 <= i < spiral_from(r, max).len() ==> r <= hex_dist(
                (0int, 0int),
                #[trigger] spiral_from(r, max)[i],
            ) <= max,
        forall|i: int, j: int|
            0 <= i <= j < spiral_from(r, max).len() ==> hex_dist(
                (0int, 0int),
                #[trigger] spiral_from(r, max)[i],
            ) <= hex_dist((0int, 0int), #[trigger] spiral_from(r, max)[j]),
        spiral_from(r, max).no_duplicates(),
    decreases max - r + 1,
{
    if r > max {
    } else {
        lemma_spiral_from_facts(r + 1, max);
        lemma_ring_properties(r);
        let s = spiral_from(r, max);
        let head = ring_seq(r);
        let tail = spiral_from(r + 1, max);
        assert forall|i: int| 0 <= i < s.len() implies r <= hex_dist(
            (0int, 0int),
            #[trigger] s[i],
        ) <= max by {
            if i < head.len() {
                assert(s[i] == head[i]);
            } else {
                assert(s[i] == tail[i - head.len()]);
            }
        }
        assert forall|i: int, j: int| 0 <= i <= j < s.len() implies hex_dist(
            (0int, 0int),
            #[trigger] s[i],
        ) <= hex_dist((0int, 0int), #[trigger] s[j]) by {
            if i < head.len() {
                assert(s[i] == head[i]);
            } else {
                assert(s[i] == tail[i - head.len()]);
            }
            if j < head.len() {
                assert(s[j] == head[j]);
            } else {
                assert(s[j] == tail[j - head.len()]);
            }
        }
        assert forall|i: int, j: int| 0 <= i < s.len() && 0 <= j < s.len() && i != j implies s[i]
            != s[j] by {
            if i < head.len() && j < head.len() {
                assert(head[i] != head[j]);
            } else if i >= head.len() && j >= head.len() {
                assert(tail[i - head.len()] != tail[j - head.len()]);
            } else if i < head.len() {
                assert(hex_dist((0int, 0int), s[i]) == r);
                assert(s[j] == tail[j - head.len()]);
                assert(hex_dist((0int, 0int), s[j]) >= r + 1);
            } else {
                assert(hex_dist((0int, 0int), s[j]) == r);
                assert(s[i] == tail[i - head.len()]);
                assert(hex_dist((0int, 0int), s[i]) >= r + 1);
            }
        }
    }
}

/// Lazily produces the filled disk of radius `max_radius` ordered by
/// non-decreasing distance from the origin, by walking the rings of radius
/// `0, 1, ..., max_radius` in turn.
pub struct HexSpiralIterator {
    max_radius: i32,
    radius: i32,
    current_ring: HexRingIterator,
}

impl HexSpiralIterator {
    pub fn new(radius: u32) -> (it: HexSpiralIterator)
        requires
            radius <= MAX_RADIUS,
        ensures
            it.wf(),
            it.remaining() == spiral_seq(radius as int),
    {
        let it = HexSpiralIterator {
            max_radius: radius as i32,
            radius: 0,
            current_ring: HexRingIterator::new(0),
        };
        proof {
            assert(it.remaining() =~= spiral_seq(radius as int));
        }
        it
    }
}

impl HexIterator for HexSpiralIterator {
    closed spec fn wf(&self) -> bool {
        &&& 0 <= self.radius <= self.max_radius <= MAX_RADIUS
        &&& self.current_ring.wf()
        &&& self.current_ring.radius_spec() == self.radius as int
    }

    closed spec fn remaining(&self) -> Seq<(int, int)> {
        self.current_ring.remaining() + spiral_from(self.radius as int + 1, self.max_radius as int)
    }

    fn next(&mut self) -> (r: Option<CellId>) {
        let ghost old_rem = self.remaining();
        let first = self.current_ring.next();
        match first {
            Some(c) => {
                proof {
                    assert(self.remaining() =~= old_rem.skip(1));
                }
                Some(c)
            },
            None => {
                if self.radius >= self.max_radius {
                    None
                } else {
                    self.radius = self.radius + 1;
                    self.current_ring = HexRingIterator::new(self.radius as u32);
                    let ghost nr = self.radius as int;
                    proof {
                        lemma_ring_properties(nr);
                        assert(old_rem =~= ring_seq(nr) + spiral_from(
                            nr + 1,
                            self.max_radius as int,
                        ));
                        assert(old_rem.len() > 0);
                    }
                    let second = self.current_ring.next();
                    proof {
                        assert(old_rem[0] == ring_seq(nr)[0]);
                        assert(self.remaining() =~= old_rem.skip(1));
                    }
                    second
                }
            },
        }
    }
}

/// Wraps any cell producer, translating every produced cell by a fixed
/// base coordinate, so origin-relative patterns can be anchored anywhere.
pub struct OffsetIter<I: HexIterator> {
    offset: CellId,
    iter: I,
}

/// Shifting every cell of a sequence by a fixed base coordinate.
pub open spec fn shifted(s: Seq<(int, int)>, base: (int, int)) -> Seq<(int, int)> {
    s.map_values(|e: (int, int)| hex_add(e, base))
}

/// Whether every cell of a sequence, shifted by `base`, still fits in the
/// coordinate type.
pub open spec fn shift_fits(s: Seq<(int, int)>, base: (int, int)) -> bool {
    forall|i: int|
        0 <= i < s.len() ==> i32::MIN <= (#[trigger] s[i]).0 + base.0 <= i32::MAX && i32::MIN
            <= s[i].1 + base.1 <= i32::MAX
}

impl<I: HexIterator> HexIterator for OffsetIter<I> {
    closed spec fn wf(&self) -> bool {
        &&& self.iter.wf()
        &&& shift_fits(self.iter.remaining(), self.offset@)
    }

    closed spec fn remaining(&self) -> Seq<(int, int)> {
        shifted(self.iter.remaining(), self.offset@)
    }

    fn next(&mut self) -> (r: Option<CellId>) {
        let ghost old_inner = self.iter.remaining();
        match self.iter.next() {
            None => None,
            Some(c) => {
                proof {
                    assert(old_inner[0] == c@);
                    assert(self.iter.remaining() =~= old_inner.skip(1));
                    assert forall|i: int| 0 <= i < self.iter.remaining().len() implies i32::MIN <= (
                    #[trigger] self.iter.remaining()[i]).0 + self.offset@.0 <= i32::MAX && i32::MIN
                        <= self.iter.remaining()[i].1 + self.offset@.1 <= i32::MAX by {
                        assert(self.iter.remaining()[i] == old_inner[i + 1]);
                    }
                    assert(self.remaining() =~= shifted(old_inner, self.offset@).skip(1));
                }
                Some(self.offset.add(c))
            },
        }
    }
}

/// Decorates any cell producer with a fixed translation.
pub trait WithOffset: HexIterator {
    /// Wrap `self` so that every produced cell is `offset.add(cell)`.
    fn with_offset(self, offset: CellId) -> (it: OffsetIter<Self>)
        requires
            self.wf(),
            shift_fits(self.remaining(), offset@),
        ensures
            it.wf(),
            it.remaining() == shifted(self.remaining(), offset@),
    ;
}

impl<I: HexIterator> WithOffset for I {
    fn with_offset(self, offset: CellId) -> (it: OffsetIter<I>) {
        OffsetIter { offset, iter: self }
    }
}

/// Law: the spiral of radius `max` is a permutation of the filled disk of
/// radius `max` — the same cell count, no duplicates, the same cells as a
/// set — ordered by non-decreasing distance from the origin.
pub proof fn lemma_spiral_properties(max: int)
    requires
        0 <= max,
    ensures
        spiral_seq(max).len() == 3 * max * max + 3 * max + 1,
        spiral_seq(max).no_duplicates(),
        spiral_seq(max).to_set() == range_seq(max).to_set(),
        forall|i: int, j: int|
            0 <= i <= j < spiral_seq(max).len() ==> hex_dist(
                (0int, 0int),
                #[trigger] spiral_seq(max)[i],
            ) <= hex_dist((0int, 0int), #[trigger] spiral_seq(max)[j]),
{
    broadcast use vstd::seq_lib::seq_to_set_is_finite;

    let s = spiral_seq(max);
    let d = range_seq(max);
    lemma_spiral_from_len(1, max);
    lemma_ring_properties(0);
    let total: int = s.len() as int;
    let tail_len: int = spiral_from(1, max).len() as int;
    assert(total == 1 + tail_len);
    assert(1 + (3 * max * (max + 1) - 3 * 1 * 0) == 3 * max * max + 3 * max + 1)
        by (nonlinear_arith);
    lemma_spiral_from_facts(0, max);
    lemma_range_properties(max);
    assert forall|x: (int, int)| s.to_set().contains(x) implies d.to_set().contains(x) by {
        let i = choose|i: int| 0 <= i < s.len() && s[i] == x;
        assert(hex_dist((0int, 0int), x) <= max);
        lemma_range_complete(max, x.0, x.1);
    }
    assert(s.to_set().subset_of(d.to_set()));
    s.unique_seq_to_set();
    d.unique_seq_to_set();
    vstd::set_lib::lemma_subset_equality(s.to_set(), d.to_set());
}

proof fn lemma_rows_from_len_pos(radius: int, q: int)
    requires
        0 <= q <= radius + 1,
    ensures
        2 * rows_from(radius, q).len() == (radius - q + 1) * (3 * radius - q + 2),
    decreases radius - q + 1,
{
    if q > radius {
        assert((radius - q + 1) * (3 * radius - q + 2) == 0) by (nonlinear_arith)
            requires
                q == radius + 1,
        {
        }
    } else {
        lemma_rows_from_len_pos(radius, q + 1);
        assert(row_seq(radius, q).len() == 2 * radius + 1 - q);
        assert(2 * ((2 * radius + 1 - q) + rows_from(radius, q + 1).len()) == (radius - q + 1) * (
        3 * radius - q + 2)) by (nonlinear_arith)
            requires
                2 * rows_from(radius, q + 1).len() == (radius - q) * (3 * radius - q + 1),
        {
        }
    }
}

proof fn lemma_rows_from_len_neg(radius: int, q: int)
    requires
        radius >= 0,
        -radius <= q <= 0,
    ensures
        2 * rows_from(radius, q).len() == (radius + 1) * (3 * radius + 2) + (-q) * (4 * radius + 1
            + q),
    decreases -q,
{
    if q == 0 {
        lemma_rows_from_len_pos(radius, 0);
        assert((radius - 0 + 1) * (3 * radius - 0 + 2) == (radius + 1) * (3 * radius + 2));
    } else {
        lemma_rows_from_len_neg(radius, q + 1);
        let total: int = rows_from(radius, q).len() as int;
        let tail_len: int = rows_from(radius, q + 1).len() as int;
        assert(row_seq(radius, q).len() == 2 * radius + 1 + q);
        assert(total == (2 * radius + 1 + q) + tail_len);
        assert(2 * total == (radius + 1) * (3 * radius + 2) + (-q) * (4 * radius + 1 + q))
            by (nonlinear_arith)
            requires
                2 * tail_len == (radius + 1) * (3 * radius + 2) + (-(q + 1)) * (4 * radius + 1 + (q
                    + 1)),
                total == (2 * radius + 1 + q) + tail_len,
        {
        }
    }
}

proof fn lemma_range_len(radius: int)
    requires
        radius >= 0,
    ensures
        range_seq(radius).len() == 3 * radius * radius + 3 * radius + 1,
{
    lemma_rows_from_len_neg(radius, -radius);
    assert(2 * (3 * radius * radius + 3 * radius + 1) == (radius + 1) * (3 * radius + 2) + radius
        * (4 * radius + 1 - radius)) by (nonlinear_arith);
}

/// Every cell of `rows_from(radius, q)` lies in a valid raster row at or
/// beyond column `q`.
proof fn lemma_rows_from_elems(radius: int, q: int)
    requires
        radius >= 0,
        -radius <= q <= radius + 1,
    ensures
        forall|i: int|
            0 <= i < rows_from(radius, q).len() ==> q <= (#[trigger] rows_from(radius, q)[i]).0
                <= radius && row_lo(radius, rows_from(radius, q)[i].0) <= rows_from(radius, q)[i].1
                <= row_hi(radius, rows_from(radius, q)[i].0),
    decreases radius - q + 1,
{
    if q > radius {
    } else {
        lemma_rows_from_elems(radius, q + 1);
        let head = row_seq(radius, q);
        assert forall|i: int| 0 <= i < rows_from(radius, q).len() implies q <= (
        #[trigger] rows_from(radius, q)[i]).0 <= radius && row_lo(
            radius,
            rows_from(radius, q)[i].0,
        ) <= rows_from(radius, q)[i].1 <= row_hi(radius, rows_from(radius, q)[i].0) by {
            if i < head.len() {
                assert(rows_from(radius, q)[i] == head[i]);
            } else {
                assert(rows_from(radius, q)[i] == rows_from(radius, q + 1)[i - head.len()]);
            }
        }
    }
}

proof fn lemma_rows_from_no_dup(radius: int, q: int)
    requires
        radius >= 0,
        -radius <= q <= radius + 1,
    ensures
        rows_from(radius, q).no_duplicates(),
    decreases radius - q + 1,
{
    if q > radius {
    } else {
        lemma_rows_from_no_dup(radius, q + 1);
        lemma_rows_from_elems(radius, q + 1);
        let s = rows_from(radius, q);
        let head = row_seq(radius, q);
        let tail = rows_from(radius, q + 1);
        assert forall|i: int, j: int| 0 <= i < s.len() && 0 <= j < s.len() && i != j implies s[i]
            != s[j] by {
            if i < head.len() && j < head.len() {
                assert(s[i].1 != s[j].1);
            } else if i >= head.len() && j >= head.len() {
                assert(tail[i - head.len()] != tail[j - head.len()]);
            } else if i < head.len() {
                assert(s[i].0 == q);
                assert(s[j] == tail[j - head.len()]);
                assert(s[j].0 >= q + 1);
            } else {
                assert(s[j].0 == q);
                assert(s[i] == tail[i - head.len()]);
                assert(s[i].0 >= q + 1);
            }
        }
    }
}

proof fn lemma_rows_from_contains(radius: int, q: int, x: int, y: int)
    requires
        radius >= 0,
        -radius <= q,
        q <= x <= radius,
        row_lo(radius, x) <= y <= row_hi(radius, x),
    ensures
        rows_from(radius, q).contains((x, y)),
    decreases radius - q + 1,
{
    let s = rows_from(radius, q);
    let head = row_seq(radius, q);
    if x == q {
        let j = y - row_lo(radius, q);
        assert(s[j] == (x, y));
    } else {
        lemma_rows_from_contains(radius, q + 1, x, y);
        let tail = rows_from(radius, q + 1);
        let i = choose|i: int| 0 <= i < tail.len() && tail[i] == (x, y);
        assert(s[head.len() + i] == (x, y));
    }
}

} // verus!
