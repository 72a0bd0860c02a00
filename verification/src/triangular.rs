//! Triangular-grid geometry: cell orientation, cartesian centers and
//! vertices, point-in-triangle containment, and the boundary of a shape.
//!
//! Every cartesian coordinate that arises from a unit-side triangular grid
//! is an integer multiple of 1/2 horizontally and of sqrt(3)/12 vertically.
//! The crate therefore measures cartesian positions in those grid units
//! ([`Point`]: `x` in half side lengths, `y` in sqrt(3)/12 side lengths),
//! which makes every formula exact integer arithmetic.

use vstd::prelude::*;
use crate::model::{Shape, TriPos};

verus! {

/// A cartesian position in grid units: `x` counts half side lengths,
/// `y` counts sqrt(3)/12 side lengths.
#[derive(Debug, Clone, Copy, PartialEq, Eq, Structural)]
pub struct Point {
    pub x: i64,
    pub y: i64,
}

/// A positive rational scale factor `num / den` applied to a displayed
/// shape before hit-testing against it.
#[derive(Debug, Clone, Copy, PartialEq, Eq, Structural)]
pub struct Scale {
    pub num: i64,
    pub den: i64,
}

/// Largest cell coordinate accepted by the vertex formulas: keeps `6 * y`
/// comfortably inside `i64`.
pub const VERT_MAX: i64 = 0x2000_0000_0000;

/// Largest point coordinate accepted by the containment tests: keeps the
/// edge-sign products comfortably inside `i128`.
pub const SIGN_MAX: i64 = 0x4_0000_0000_0000;

/// Largest numerator/denominator of a [`Scale`].
pub const SCALE_MAX: i64 = 0x10_0000;

/// Whether the triangle at `p` points down: odd coordinate-sum parity.
pub open spec fn tri_upside_down(p: TriPos) -> bool {
    (p.x + p.y) % 2 != 0
}

/// Cartesian center of a cell, `x` coordinate (in grid units).
pub open spec fn cart_x(p: TriPos) -> int {
    p.x as int
}

/// Cartesian center of a cell, `y` coordinate (in grid units): the row
/// stride is sqrt(3)/2 = 6 units and the center sits sqrt(3)/12 = 1 unit
/// above or below the row line depending on orientation.
pub open spec fn cart_y(p: TriPos) -> int {
    6 * p.y + if tri_upside_down(p) { 1int } else { -1int }
}

/// `x` coordinate of vertex `k` (0, 1 or 2) of the cell's triangle.
/// For an upward cell the vertices are, in order, the lower-right corner,
/// the lower-left corner and the apex; a downward cell is the same
/// triangle rotated a half turn.
pub open spec fn vert_x(p: TriPos, k: int) -> int {
    let d = if k == 0 { 1int } else if k == 1 { -1int } else { 0int };
    cart_x(p) + if tri_upside_down(p) { -d } else { d }
}

/// `y` coordinate of vertex `k` (0, 1 or 2) of the cell's triangle.
pub open spec fn vert_y(p: TriPos, k: int) -> int {
    let d = if k == 2 { 4int } else { -2int };
    cart_y(p) + if tri_upside_down(p) { -d } else { d }
}

/// The sign value of point `(px, py)` against the directed edge from
/// `(ax, ay)` to `(bx, by)`: positive on one side, negative on the other,
/// zero on the line.
pub open spec fn edge_sign(px: int, py: int, ax: int, ay: int, bx: int, by: int) -> int {
    (px - bx) * (ay - by) - (ax - bx) * (py - by)
}

/// Point-in-triangle by the sign test: inside (or on the border) iff the
/// three edge signs do not take both strictly positive and strictly
/// negative values.
pub open spec fn in_tri(
    px: int, py: int,
    ax: int, ay: int,
    bx: int, by: int,
    cx: int, cy: int,
) -> bool {
    let d1 = edge_sign(px, py, ax, ay, bx, by);
    let d2 = edge_sign(px, py, bx, by, cx, cy);
    let d3 = edge_sign(px, py, cx, cy, ax, ay);
    let has_neg = d1 < 0 || d2 < 0 || d3 < 0;
    let has_pos = d1 > 0 || d2 > 0 || d3 > 0;
    !(has_neg && has_pos)
}

/// Whether the point lies in the triangle of cell `c`.
pub open spec fn cell_contains(c: TriPos, px: int, py: int) -> bool {
    in_tri(
        px, py,
        vert_x(c, 0), vert_y(c, 0),
        vert_x(c, 1), vert_y(c, 1),
        vert_x(c, 2), vert_y(c, 2),
    )
}

/// Whether the point lies in any cell of the shape.
pub open spec fn shape_contains(cells: Seq<TriPos>, px: int, py: int) -> bool {
    exists|i: int| 0 <= i < cells.len() && cell_contains(cells[i], px, py)
}

/// The sign test for point `q / (num/den)` against the edge of cell
/// vertices `a`, `b`: both sides multiplied by the positive `num` and
/// `den`, so it stays integer-exact.
pub open spec fn edge_sign_scaled(
    qx: int, qy: int, num: int, den: int,
    ax: int, ay: int, bx: int, by: int,
) -> int {
    (qx * den - num * bx) * (ay - by) - (ax - bx) * (qy * den - num * by)
}

/// Point-in-triangle for a point divided by the scale `num / den`.
pub open spec fn cell_contains_scaled(c: TriPos, qx: int, qy: int, num: int, den: int) -> bool {
    let d1 = edge_sign_scaled(qx, qy, num, den, vert_x(c, 0), vert_y(c, 0), vert_x(c, 1), vert_y(c, 1));
    let d2 = edge_sign_scaled(qx, qy, num, den, vert_x(c, 1), vert_y(c, 1), vert_x(c, 2), vert_y(c, 2));
    let d3 = edge_sign_scaled(qx, qy, num, den, vert_x(c, 2), vert_y(c, 2), vert_x(c, 0), vert_y(c, 0));
    let has_neg = d1 < 0 || d2 < 0 || d3 < 0;
    let has_pos = d1 > 0 || d2 > 0 || d3 > 0;
    !(has_neg && has_pos)
}

/// Whether the scaled-down point lies in any cell of the shape.
pub open spec fn shape_contains_scaled(
    cells: Seq<TriPos>, qx: int, qy: int, num: int, den: int,
) -> bool {
    exists|i: int| 0 <= i < cells.len() && cell_contains_scaled(cells[i], qx, qy, num, den)
}

/// Cell coordinates small enough for the vertex formulas.
pub open spec fn cell_in_range(c: TriPos) -> bool {
    -VERT_MAX <= c.x <= VERT_MAX && -VERT_MAX <= c.y <= VERT_MAX
}

/// All cells of a shape small enough for the vertex formulas.
pub open spec fn cells_in_range(cells: Seq<TriPos>) -> bool {
    forall|i: int| 0 <= i < cells.len() ==> cell_in_range(#[trigger] cells[i])
}

/// Point coordinates small enough for the containment tests.
pub open spec fn point_in_range(p: Point) -> bool {
    -SIGN_MAX <= p.x <= SIGN_MAX && -SIGN_MAX <= p.y <= SIGN_MAX
}

/// A well-formed scale: positive and small enough for the containment
/// tests.
pub open spec fn scale_in_range(s: Scale) -> bool {
    1 <= s.num <= SCALE_MAX && 1 <= s.den <= SCALE_MAX
}

impl TriPos {
    /// Whether a triangle in that position points down.
    pub fn is_upside_down(&self) -> (r: bool)
        ensures
            r == tri_upside_down(*self),
    {
        let xm: i64 = self.x % 2;
        let ym: i64 = self.y % 2;
        proof {
            lemma_parity_sum(self.x as int, self.y as int);
        }
        (xm != 0) != (ym != 0)
    }

    /// Cartesian center of the cell, in grid units.
    pub fn to_cartesian(&self) -> (r: Point)
        requires
            cell_in_range(*self),
        ensures
            r.x == cart_x(*self),
            r.y == cart_y(*self),
    {
        let s: i64 = if self.is_upside_down() { 1 } else { -1 };
        Point { x: self.x, y: 6 * self.y + s }
    }

    /// The three vertices of the cell's triangle, in grid units; the
    /// triangle is rotated a half turn when the cell points down.
    pub fn to_vertices(&self) -> (r: [Point; 3])
        requires
            cell_in_range(*self),
        ensures
            forall|k: int| 0 <= k < 3 ==> (#[trigger] r@[k]).x == vert_x(*self, k),
            forall|k: int| 0 <= k < 3 ==> (#[trigger] r@[k]).y == vert_y(*self, k),
    {
        let c = self.to_cartesian();
        let s: i64 = if self.is_upside_down() { -1 } else { 1 };
        let r = [
            Point { x: c.x + s, y: c.y - 2 * s },
            Point { x: c.x - s, y: c.y - 2 * s },
            Point { x: c.x, y: c.y + 4 * s },
        ];
        r
    }
}

/// The sum of the two coordinate parities equals the parity of the sum.
proof fn lemma_parity_sum(x: int, y: int)
    ensures
        ((x + y) % 2 != 0) == ((x % 2 == 1) != (y % 2 == 1)),
{
    vstd::arithmetic::div_mod::lemma_add_mod_noop(x, y, 2);
    vstd::arithmetic::div_mod::lemma_mod_bound(x, 2);
    vstd::arithmetic::div_mod::lemma_mod_bound(y, 2);
}

/// Centroid law: the three vertices of any cell sum, coordinate by
/// coordinate, to exactly three times the cell's cartesian center; that
/// is, the centroid of `to_vertices` equals `to_cartesian`, exactly in
/// grid units.
pub proof fn lemma_vertex_centroid(p: TriPos)
    ensures
        vert_x(p, 0) + vert_x(p, 1) + vert_x(p, 2) == 3 * cart_x(p),
        vert_y(p, 0) + vert_y(p, 1) + vert_y(p, 2) == 3 * cart_y(p),
{
}

/// `|a * b| <= m * n` whenever `|a| <= m` and `|b| <= n`.
proof fn lemma_mul_le(a: int, b: int, m: int, n: int)
    by (nonlinear_arith)
    requires
        -m <= a <= m,
        -n <= b <= n,
        0 <= m,
        0 <= n,
    ensures
        -(m * n) <= a * b <= m * n,
{
}

/// One edge-sign value, computed exactly in `i128`.
fn edge_sign_exec(px: i64, py: i64, a: Point, b: Point) -> (r: i128)
    requires
        -SIGN_MAX <= px <= SIGN_MAX,
        -SIGN_MAX <= py <= SIGN_MAX,
        point_in_range(a),
        point_in_range(b),
    ensures
        r == edge_sign(px as int, py as int, a.x as int, a.y as int, b.x as int, b.y as int),
{
    let dx1: i128 = px as i128 - b.x as i128;
    let dy1: i128 = a.y as i128 - b.y as i128;
    let dx2: i128 = a.x as i128 - b.x as i128;
    let dy2: i128 = py as i128 - b.y as i128;
    proof {
        lemma_mul_le(dx1 as int, dy1 as int, 2 * (SIGN_MAX as int), 2 * (SIGN_MAX as int));
        lemma_mul_le(dx2 as int, dy2 as int, 2 * (SIGN_MAX as int), 2 * (SIGN_MAX as int));
    }
    let t1: i128 = dx1 * dy1;
    let t2: i128 = dx2 * dy2;
    t1 - t2
}

/// Point-in-triangle test by edge signs: the point lies inside or on the
/// border iff the three signs do not take both strictly positive and
/// strictly negative values.
pub fn inside_triangle(pos: Point, tri: [Point; 3]) -> (r: bool)
    requires
        point_in_range(pos),
        forall|k: int| 0 <= k < 3 ==> point_in_range(#[trigger] tri@[k]),
    ensures
        r == in_tri(
            pos.x as int, pos.y as int,
            tri@[0].x as int, tri@[0].y as int,
            tri@[1].x as int, tri@[1].y as int,
            tri@[2].x as int, tri@[2].y as int,
        ),
{
    let d1 = edge_sign_exec(pos.x, pos.y, tri[0], tri[1]);
    let d2 = edge_sign_exec(pos.x, pos.y, tri[1], tri[2]);
    let d3 = edge_sign_exec(pos.x, pos.y, tri[2], tri[0]);
    let has_neg = d1 < 0 || d2 < 0 || d3 < 0;
    let has_pos = d1 > 0 || d2 > 0 || d3 > 0;
    !(has_neg && has_pos)
}

/// Vertices of an in-range cell are in range for the containment tests.
proof fn lemma_vertices_in_range(c: TriPos)
    requires
        cell_in_range(c),
    ensures
        forall|k: int| 0 <= k < 3 ==> -SIGN_MAX <= #[trigger] vert_x(c, k) <= SIGN_MAX,
        forall|k: int| 0 <= k < 3 ==> -SIGN_MAX <= #[trigger] vert_y(c, k) <= SIGN_MAX,
{
}

/// One scaled edge-sign value, computed exactly in `i128`.
fn edge_sign_scaled_exec(qx: i64, qy: i64, s: Scale, a: Point, b: Point) -> (r: i128)
    requires
        -SIGN_MAX <= qx <= SIGN_MAX,
        -SIGN_MAX <= qy <= SIGN_MAX,
        scale_in_range(s),
        point_in_range(a),
        point_in_range(b),
    ensures
        r == edge_sign_scaled(
            qx as int, qy as int, s.num as int, s.den as int,
            a.x as int, a.y as int, b.x as int, b.y as int,
        ),
{
    proof {
        lemma_mul_le(qx as int, s.den as int, SIGN_MAX as int, SCALE_MAX as int);
        lemma_mul_le(s.num as int, b.x as int, SCALE_MAX as int, SIGN_MAX as int);
        lemma_mul_le(qy as int, s.den as int, SIGN_MAX as int, SCALE_MAX as int);
        lemma_mul_le(s.num as int, b.y as int, SCALE_MAX as int, SIGN_MAX as int);
    }
    let u1: i128 = qx as i128 * s.den as i128 - s.num as i128 * b.x as i128;
    let u2: i128 = qy as i128 * s.den as i128 - s.num as i128 * b.y as i128;
    let dy1: i128 = a.y as i128 - b.y as i128;
    let dx2: i128 = a.x as i128 - b.x as i128;
    proof {
        let big = SIGN_MAX as int * SCALE_MAX as int;
        lemma_mul_le(u1 as int, dy1 as int, 2 * big, 2 * (SIGN_MAX as int));
        lemma_mul_le(dx2 as int, u2 as int, 2 * (SIGN_MAX as int), 2 * big);
    }
    let t1: i128 = u1 * dy1;
    let t2: i128 = dx2 * u2;
    t1 - t2
}

impl Shape {
    /// Whether the point lies inside any of the shape's cell triangles.
    pub fn contains(&self, pos: Point) -> (r: bool)
        requires
            point_in_range(pos),
            cells_in_range(self@),
        ensures
            r == shape_contains(self@, pos.x as int, pos.y as int),
    {
        let n = self.0.len();
        let mut i: usize = 0;
        while i < n
            invariant
                i <= n,
                n == self@.len(),
                point_in_range(pos),
                cells_in_range(self@),
                forall|j: int| 0 <= j < i ==> !cell_contains(self@[j], pos.x as int, pos.y as int),
            decreases n - i,
        {
            let c = self.0[i];
            proof {
                lemma_vertices_in_range(c);
            }
            if inside_triangle(pos, c.to_vertices()) {
                return true;
            }
            i = i + 1;
        }
        false
    }

    /// Whether the point, divided by the scale, lies inside any of the
    /// shape's cell triangles.
    pub fn contains_scaled(&self, pos: Point, scale: Scale) -> (r: bool)
        requires
            point_in_range(pos),
            scale_in_range(scale),
            cells_in_range(self@),
        ensures
            r == shape_contains_scaled(
                self@, pos.x as int, pos.y as int, scale.num as int, scale.den as int,
            ),
    {
        let n = self.0.len();
        let mut i: usize = 0;
        while i < n
            invariant
                i <= n,
                n == self@.len(),
                point_in_range(pos),
                scale_in_range(scale),
                cells_in_range(self@),
                forall|j: int| 0 <= j < i ==> !cell_contains_scaled(
                    self@[j], pos.x as int, pos.y as int, scale.num as int, scale.den as int,
                ),
            decreases n - i,
        {
            let c = self.0[i];
            proof {
                lemma_vertices_in_range(c);
            }
            let v = c.to_vertices();
            let d1 = edge_sign_scaled_exec(pos.x, pos.y, scale, v[0], v[1]);
            let d2 = edge_sign_scaled_exec(pos.x, pos.y, scale, v[1], v[2]);
            let d3 = edge_sign_scaled_exec(pos.x, pos.y, scale, v[2], v[0]);
            let has_neg = d1 < 0 || d2 < 0 || d3 < 0;
            let has_pos = d1 > 0 || d2 > 0 || d3 > 0;
            if !(has_neg && has_pos) {
                return true;
            }
            i = i + 1;
        }
        false
    }
}

/// Whether two cells share a full edge of the triangular tiling: the two
/// horizontal neighbours, plus the cell across the horizontal edge (below
/// an upward cell, above a downward one).
pub open spec fn tri_adjacent(a: TriPos, b: TriPos) -> bool {
    ||| (b.y == a.y && (b.x == a.x - 1 || b.x == a.x + 1))
    ||| (b.x == a.x && b.y == (if tri_upside_down(a) { a.y + 1 } else { a.y - 1 }))
}

/// A lattice membership predicate for the attachment rule: `q` borders the
/// shape iff it is free and edge-adjacent to some occupied cell.
pub open spec fn in_boundary(cells: Seq<TriPos>, q: TriPos) -> bool {
    !cells.contains(q) && exists|i: int| 0 <= i < cells.len() && tri_adjacent(#[trigger] cells[i], q)
}

/// The free neighbours of cell `c` that are representable in `i64`
/// coordinates, in a fixed order (left, right, across the horizontal
/// edge).  A neighbour whose coordinate would leave `i64` cannot be named
/// by any `TriPos`, so dropping it loses nothing.
pub open spec fn free_nbrs(cells: Seq<TriPos>, c: TriPos) -> Seq<TriPos> {
    let l = TriPos { x: (c.x - 1) as i64, y: c.y };
    let r = TriPos { x: (c.x + 1) as i64, y: c.y };
    let v = if tri_upside_down(c) {
        TriPos { x: c.x, y: (c.y + 1) as i64 }
    } else {
        TriPos { x: c.x, y: (c.y - 1) as i64 }
    };
    (if c.x > i64::MIN && !cells.contains(l) { seq![l] } else { Seq::empty() })
    + (if c.x < i64::MAX && !cells.contains(r) { seq![r] } else { Seq::empty() })
    + (if (if tri_upside_down(c) { c.y < i64::MAX } else { c.y > i64::MIN })
            && !cells.contains(v) { seq![v] } else { Seq::empty() })
}

/// The boundary contributed by the first `i` cells of the shape.
pub open spec fn boundary_upto(cells: Seq<TriPos>, i: int) -> Seq<TriPos>
    decreases i,
{
    if i <= 0 || i > cells.len() {
        Seq::empty()
    } else {
        boundary_upto(cells, i - 1) + free_nbrs(cells, cells[i - 1])
    }
}

/// The boundary of a shape: for each occupied cell in order, its free
/// neighbours in a fixed order (repeats are kept).
pub open spec fn spec_boundary(cells: Seq<TriPos>) -> Seq<TriPos> {
    boundary_upto(cells, cells.len() as int)
}

/// Membership in the free-neighbour list of one cell is exactly
/// edge-adjacency to that cell plus freeness.
proof fn lemma_free_nbrs_set(cells: Seq<TriPos>, c: TriPos, q: TriPos)
    ensures
        free_nbrs(cells, c).contains(q) == (!cells.contains(q) && tri_adjacent(c, q)),
{
    let s = free_nbrs(cells, c);
    if !cells.contains(q) && tri_adjacent(c, q) {
        if q.y == c.y && q.x == c.x - 1 {
            assert(s[0] == q);
        } else if q.y == c.y && q.x == c.x + 1 {
            let base: int = if c.x > i64::MIN && !cells.contains(TriPos { x: (c.x - 1) as i64, y: c.y }) { 1 } else { 0 };
            assert(s[base] == q);
        } else {
            assert(s[s.len() - 1] == q);
        }
    }
    if s.contains(q) {
        let k = choose|k: int| 0 <= k < s.len() && s[k] == q;
        assert(!cells.contains(q) && tri_adjacent(c, q));
    }
}

/// Membership in the boundary of the first `i` cells.
proof fn lemma_boundary_upto_set(cells: Seq<TriPos>, i: int, q: TriPos)
    requires
        0 <= i <= cells.len(),
    ensures
        boundary_upto(cells, i).contains(q) == (!cells.contains(q)
            && exists|j: int| 0 <= j < i && tri_adjacent(#[trigger] cells[j], q)),
    decreases i,
{
    if i > 0 {
        lemma_boundary_upto_set(cells, i - 1, q);
        lemma_free_nbrs_set(cells, cells[i - 1], q);
        let pre = boundary_upto(cells, i - 1);
        let here = free_nbrs(cells, cells[i - 1]);
        assert(boundary_upto(cells, i) == pre + here);
        if pre.contains(q) {
            let k = choose|k: int| 0 <= k < pre.len() && pre[k] == q;
            assert((pre + here)[k] == q);
        }
        if here.contains(q) {
            let k = choose|k: int| 0 <= k < here.len() && here[k] == q;
            assert((pre + here)[pre.len() + k] == q);
        }
        if (pre + here).contains(q) {
            let k = choose|k: int| 0 <= k < (pre + here).len() && (pre + here)[k] == q;
            if k < pre.len() {
                assert(pre[k] == q);
            } else {
                assert(here[k - pre.len()] == q);
            }
        }
    }
}

/// Boundary membership law: a cell position is listed by `spec_boundary`
/// iff it is unoccupied and edge-adjacent to some cell of the shape.
pub proof fn lemma_boundary_set(cells: Seq<TriPos>, q: TriPos)
    ensures
        spec_boundary(cells).contains(q) == in_boundary(cells, q),
{
    lemma_boundary_upto_set(cells, cells.len() as int, q);
}

/// Adding one to an integer flips the parity of its sum with anything.
proof fn lemma_parity_flip(n: int)
    ensures
        ((n + 1) % 2 != 0) == !(n % 2 != 0),
{
    vstd::arithmetic::div_mod::lemma_add_mod_noop(n, 1, 2);
    vstd::arithmetic::div_mod::lemma_mod_bound(n, 2);
    vstd::arithmetic::div_mod::lemma_mod_bound(n + 1, 2);
}

/// Edge-adjacent cells have opposite orientations.
pub proof fn lemma_adjacent_flips_orientation(a: TriPos, b: TriPos)
    requires
        tri_adjacent(a, b),
    ensures
        tri_upside_down(b) == !tri_upside_down(a),
{
    if b.y == a.y && b.x == a.x - 1 {
        lemma_parity_flip(b.x + b.y);
    } else if b.y == a.y && b.x == a.x + 1 {
        lemma_parity_flip(a.x + a.y);
    } else if tri_upside_down(a) {
        lemma_parity_flip(a.x + a.y);
    } else {
        lemma_parity_flip(b.x + b.y);
    }
}

/// Validation of the adjacency rule against the vertex formulas: two
/// edge-adjacent cells share two vertices, that is, a full triangle edge.
pub proof fn lemma_adjacent_cells_share_edge(a: TriPos, b: TriPos)
    requires
        tri_adjacent(a, b),
    ensures
        exists|i: int, j: int, k: int, l: int|
            0 <= i < 3 && 0 <= j < 3 && 0 <= k < 3 && 0 <= l < 3 && i != k
            && #[trigger] vert_x(a, i) == #[trigger] vert_x(b, j) && vert_y(a, i) == vert_y(b, j)
            && #[trigger] vert_x(a, k) == #[trigger] vert_x(b, l) && vert_y(a, k) == vert_y(b, l),
{
    lemma_adjacent_flips_orientation(a, b);
    if tri_upside_down(a) {
        if b.y == a.y && b.x == a.x - 1 {
            assert(vert_x(a, 0) == vert_x(b, 2) && vert_y(a, 0) == vert_y(b, 2));
            assert(vert_x(a, 2) == vert_x(b, 0) && vert_y(a, 2) == vert_y(b, 0));
        } else if b.y == a.y && b.x == a.x + 1 {
            assert(vert_x(a, 1) == vert_x(b, 2) && vert_y(a, 1) == vert_y(b, 2));
            assert(vert_x(a, 2) == vert_x(b, 1) && vert_y(a, 2) == vert_y(b, 1));
        } else {
            assert(vert_x(a, 0) == vert_x(b, 1) && vert_y(a, 0) == vert_y(b, 1));
            assert(vert_x(a, 1) == vert_x(b, 0) && vert_y(a, 1) == vert_y(b, 0));
        }
    } else {
        if b.y == a.y && b.x == a.x - 1 {
            assert(vert_x(a, 1) == vert_x(b, 2) && vert_y(a, 1) == vert_y(b, 2));
            assert(vert_x(a, 2) == vert_x(b, 1) && vert_y(a, 2) == vert_y(b, 1));
        } else if b.y == a.y && b.x == a.x + 1 {
            assert(vert_x(a, 0) == vert_x(b, 2) && vert_y(a, 0) == vert_y(b, 2));
            assert(vert_x(a, 2) == vert_x(b, 0) && vert_y(a, 2) == vert_y(b, 0));
        } else {
            assert(vert_x(a, 0) == vert_x(b, 1) && vert_y(a, 0) == vert_y(b, 1));
            assert(vert_x(a, 1) == vert_x(b, 0) && vert_y(a, 1) == vert_y(b, 0));
        }
    }
}

/// Whether the cell list holds the given position.
pub fn cells_contain(cells: &Vec<TriPos>, q: TriPos) -> (r: bool)
    ensures
        r == cells@.contains(q),
{
    let n = cells.len();
    let mut i: usize = 0;
    while i < n
        invariant
            i <= n,
            n == cells@.len(),
            forall|j: int| 0 <= j < i ==> cells@[j] != q,
        decreases n - i,
    {
        if cells[i].x == q.x && cells[i].y == q.y {
            return true;
        }
        i = i + 1;
    }
    false
}

impl Shape {
    /// The set of lattice-adjacent unoccupied positions bordering the
    /// shape, in cell order: the legal attachment positions.
    pub fn boundary(&self) -> (r: Vec<TriPos>)
        ensures
            r@ == spec_boundary(self@),
            forall|q: TriPos| r@.contains(q) == in_boundary(self@, q),
    {
        let n = self.0.len();
        let mut out: Vec<TriPos> = Vec::new();
        let mut i: usize = 0;
        while i < n
            invariant
                i <= n,
                n == self@.len(),
                out@ == boundary_upto(self@, i as int),
            decreases n - i,
        {
            let c = self.0[i];
            let ghost pre = out@;
            if c.x > i64::MIN {
                let q = TriPos { x: c.x - 1, y: c.y };
                if !cells_contain(&self.0, q) {
                    out.push(q);
                }
            }
            if c.x < i64::MAX {
                let q = TriPos { x: c.x + 1, y: c.y };
                if !cells_contain(&self.0, q) {
                    out.push(q);
                }
            }
            if c.is_upside_down() {
                if c.y < i64::MAX {
                    let q = TriPos { x: c.x, y: c.y + 1 };
                    if !cells_contain(&self.0, q) {
                        out.push(q);
                    }
                }
            } else {
                if c.y > i64::MIN {
                    let q = TriPos { x: c.x, y: c.y - 1 };
                    if !cells_contain(&self.0, q) {
                        out.push(q);
                    }
                }
            }
            proof {
                assert(out@ =~= pre + free_nbrs(self@, c));
                assert(boundary_upto(self@, i + 1) == boundary_upto(self@, i as int) + free_nbrs(self@, self@[i as int]));
            }
            i = i + 1;
        }
        proof {
            assert forall|q: TriPos| out@.contains(q) == in_boundary(self@, q) by {
                lemma_boundary_set(self@, q);
            }
        }
        out
    }

    /// Whether `q` is a legal attachment position on this shape.
    pub fn has_boundary(&self, q: TriPos) -> (r: bool)
        ensures
            r == in_boundary(self@, q),
    {
        let b = self.boundary();
        cells_contain(&b, q)
    }
}

/// With the unit scale the scaled containment test agrees with the plain
/// one.
pub proof fn lemma_scale_one(cells: Seq<TriPos>, px: int, py: int)
    ensures
        shape_contains_scaled(cells, px, py, 1, 1) == shape_contains(cells, px, py),
{
    assert forall|i: int| 0 <= i < cells.len() implies
        cell_contains_scaled(#[trigger] cells[i], px, py, 1, 1) == cell_contains(cells[i], px, py)
    by {
        let c = cells[i];
        assert forall|k: int, l: int| 0 <= k < 3 && 0 <= l < 3 implies
            #[trigger] edge_sign_scaled(px, py, 1, 1, vert_x(c, k), vert_y(c, k), vert_x(c, l), vert_y(c, l))
                == edge_sign(px, py, vert_x(c, k), vert_y(c, k), vert_x(c, l), vert_y(c, l))
        by {
            assert(px * 1 == px);
            assert(py * 1 == py);
            assert(1 * vert_x(c, l) == vert_x(c, l));
            assert(1 * vert_y(c, l) == vert_y(c, l));
        }
    }
}

} // verus!
