//! Triangle scan conversion by incremental half-space (edge-function)
//! tests, with top-left fill-rule tie-breaking and perspective-correct
//! attribute interpolation.
//!
//! Vertex positions are integers in sub-pixel units: `SUBPIX` units per
//! pixel, so the centre of pixel `(x, y)` sits at
//! `(x * SUBPIX + SUBPIX / 2, y * SUBPIX + SUBPIX / 2)`. All edge
//! functions and interpolation weights are exact integers, so coverage
//! and tie-breaking are deterministic and fully specified.

use vstd::prelude::*;

use crate::colour::Colour;
use crate::frame_buffer::{FrameBuffer, FrameBufferTrait};
use crate::linear_algebra::{in_range, lemma_mul_bound, vec3_in_range, Matrix44, Vec3, MAX_COORD};

verus! {

/// Sub-pixel units per pixel.
pub const SUBPIX: i64 = 16;

/// Half a pixel in sub-pixel units: the offset of a pixel centre.
pub const SUBPIX_HALF: i64 = 8;

/// Largest accepted inverse-depth value of a vertex.
pub const MAX_INV_Z: i64 = 0x10_0000;

/// Largest accepted pixel dimension of a sink handed to the rasterizer.
pub const MAX_DIM: usize = 0x100_0000;

/// Bound on the magnitude of an edge function evaluated on range-bounded
/// coordinates.
pub const EDGE_BOUND: i64 = 0x2000_0000_0000_0000;

/// The vertex order that makes a triangle front-facing.
#[derive(Clone, Copy, Debug, PartialEq, Eq, Structural)]
pub enum WindingOrder {
    CCW,
    CW,
}

/// The interpolable attributes carried by a vertex.
#[derive(Clone, Copy, Debug, PartialEq, Eq, Structural)]
pub struct VertexAttributes {
    pub colour: Colour,
}

impl VertexAttributes {
    /// Attributes holding the blank colour.
    pub fn new() -> (r: VertexAttributes)
        ensures
            r.colour == (Colour { red: 0, green: 0, blue: 0, alpha: 0 }),
    {
        VertexAttributes { colour: Colour::new() }
    }
}

/// A vertex: a position in sub-pixel raster coordinates (`x`, `y`) with
/// its camera-space depth (`z`, carried through unchanged), the inverse
/// of that depth in a caller-chosen fixed-point scale, and interpolable
/// attributes.
#[derive(Clone, Copy, Debug, PartialEq, Eq, Structural)]
pub struct Vertex {
    pub vertex: Vec3,
    pub inv_z: i64,
    pub attributes: VertexAttributes,
}

impl Vertex {
    /// Builds a vertex at unit inverse depth, so that a triangle built
    /// this way interpolates plain barycentrically.
    pub fn new(vertex: Vec3, attributes: VertexAttributes) -> (r: Vertex)
        ensures
            r == (Vertex { vertex, inv_z: 1, attributes }),
    {
        Vertex { vertex, inv_z: 1, attributes }
    }

    /// Builds a vertex carrying an explicit inverse depth for
    /// perspective-correct interpolation.
    pub fn with_inv_z(vertex: Vec3, inv_z: i64, attributes: VertexAttributes) -> (r: Vertex)
        ensures
            r == (Vertex { vertex, inv_z, attributes }),
    {
        Vertex { vertex, inv_z, attributes }
    }
}

/// A triangle: exactly three vertices in a fixed order; the order
/// combined with the winding setting determines front-facing orientation
/// and fill-rule tie-breaking.
#[derive(Clone, Copy, Debug, PartialEq, Eq, Structural)]
pub struct Triangle {
    pub v0: Vertex,
    pub v1: Vertex,
    pub v2: Vertex,
}

/// A closed interval of coordinates.
#[derive(Clone, Copy, Debug, PartialEq, Eq, Structural)]
pub struct Range {
    pub min: i64,
    pub max: i64,
}

/// An axis-aligned bounding box.
#[derive(Clone, Copy, Debug, PartialEq, Eq, Structural)]
pub struct BoundingBox {
    pub x: Range,
    pub y: Range,
}

impl Range {
    /// Folds three values into their minimum and maximum, starting the
    /// fold from the type's extreme values.
    fn find_min_max(array: [i64; 3], type_min: i64, type_max: i64) -> (r: Range)
        ensures
            r.min == min3(type_max as int, array[0] as int, array[1] as int, array[2] as int),
            r.max == max3(type_min as int, array[0] as int, array[1] as int, array[2] as int),
    {
        let mut min = type_max;
        let mut max = type_min;
        if array[0] > max {
            max = array[0];
        }
        if array[0] < min {
            min = array[0];
        }
        if array[1] > max {
            max = array[1];
        }
        if array[1] < min {
            min = array[1];
        }
        if array[2] > max {
            max = array[2];
        }
        if array[2] < min {
            min = array[2];
        }
        Range { min, max }
    }
}

/// The minimum of a start value and three others.
pub open spec fn min3(s: int, a: int, b: int, c: int) -> int {
    let m1 = if a < s {
        a
    } else {
        s
    };
    let m2 = if b < m1 {
        b
    } else {
        m1
    };
    if c < m2 {
        c
    } else {
        m2
    }
}

/// The maximum of a start value and three others.
pub open spec fn max3(s: int, a: int, b: int, c: int) -> int {
    let m1 = if a > s {
        a
    } else {
        s
    };
    let m2 = if b > m1 {
        b
    } else {
        m1
    };
    if c > m2 {
        c
    } else {
        m2
    }
}

/// The smallest x coordinate of a triangle's vertices.
pub open spec fn bb_min_x(t: Triangle) -> int {
    min3(i64::MAX as int, t.v0.vertex.x as int, t.v1.vertex.x as int, t.v2.vertex.x as int)
}

/// The largest x coordinate of a triangle's vertices.
pub open spec fn bb_max_x(t: Triangle) -> int {
    max3(i64::MIN as int, t.v0.vertex.x as int, t.v1.vertex.x as int, t.v2.vertex.x as int)
}

/// The smallest y coordinate of a triangle's vertices.
pub open spec fn bb_min_y(t: Triangle) -> int {
    min3(i64::MAX as int, t.v0.vertex.y as int, t.v1.vertex.y as int, t.v2.vertex.y as int)
}

/// The largest y coordinate of a triangle's vertices.
pub open spec fn bb_max_y(t: Triangle) -> int {
    max3(i64::MIN as int, t.v0.vertex.y as int, t.v1.vertex.y as int, t.v2.vertex.y as int)
}

impl Triangle {
    /// Are the vertex coordinates and inverse depths within the ranges
    /// the rasterizer accepts?
    pub open spec fn wf(&self) -> bool {
        &&& vec3_in_range(self.v0.vertex)
        &&& vec3_in_range(self.v1.vertex)
        &&& vec3_in_range(self.v2.vertex)
        &&& 1 <= self.v0.inv_z <= MAX_INV_Z
        &&& 1 <= self.v1.inv_z <= MAX_INV_Z
        &&& 1 <= self.v2.inv_z <= MAX_INV_Z
    }

    /// Applies the homogeneous transform to each vertex position in
    /// place, leaving attributes and inverse depths untouched.
    pub fn transform_this_triangle(&mut self, transformation_matrix: &Matrix44)
        requires
            old(self).wf(),
            transformation_matrix.in_range(),
            crate::linear_algebra::hom_w(old(self).v0.vertex, *transformation_matrix) != 0,
            crate::linear_algebra::hom_w(old(self).v1.vertex, *transformation_matrix) != 0,
            crate::linear_algebra::hom_w(old(self).v2.vertex, *transformation_matrix) != 0,
        ensures
            *final(self) == old(self).transform_spec(*transformation_matrix),
    {
        let transformed = self.transform_triangle(transformation_matrix);
        *self = transformed;
    }

    /// The triangle with each vertex position transformed, as a spec
    /// value.
    pub open spec fn transform_spec(&self, m: Matrix44) -> Triangle {
        Triangle {
            v0: Vertex { vertex: hom_transformed(self.v0.vertex, m), ..self.v0 },
            v1: Vertex { vertex: hom_transformed(self.v1.vertex, m), ..self.v1 },
            v2: Vertex { vertex: hom_transformed(self.v2.vertex, m), ..self.v2 },
        }
    }

    /// Returns a new triangle with each vertex position transformed by
    /// the homogeneous matrix, keeping attributes and inverse depths.
    pub fn transform_triangle(&self, transformation_matrix: &Matrix44) -> (r: Triangle)
        requires
            self.wf(),
            transformation_matrix.in_range(),
            crate::linear_algebra::hom_w(self.v0.vertex, *transformation_matrix) != 0,
            crate::linear_algebra::hom_w(self.v1.vertex, *transformation_matrix) != 0,
            crate::linear_algebra::hom_w(self.v2.vertex, *transformation_matrix) != 0,
        ensures
            r == self.transform_spec(*transformation_matrix),
    {
        Triangle {
            v0: Vertex {
                vertex: self.v0.vertex.homogeneous_mult_matrix(transformation_matrix),
                inv_z: self.v0.inv_z,
                attributes: self.v0.attributes,
            },
            v1: Vertex {
                vertex: self.v1.vertex.homogeneous_mult_matrix(transformation_matrix),
                inv_z: self.v1.inv_z,
                attributes: self.v1.attributes,
            },
            v2: Vertex {
                vertex: self.v2.vertex.homogeneous_mult_matrix(transformation_matrix),
                inv_z: self.v2.inv_z,
                attributes: self.v2.attributes,
            },
        }
    }

    /// The axis-aligned bounding box of the three vertex positions.
    pub fn get_bounding_box(&self) -> (r: BoundingBox)
        ensures
            r.x.min == min3(i64::MAX as int, self.v0.vertex.x as int, self.v1.vertex.x as int, self.v2.vertex.x as int),
            r.x.max == max3(i64::MIN as int, self.v0.vertex.x as int, self.v1.vertex.x as int, self.v2.vertex.x as int),
            r.y.min == min3(i64::MAX as int, self.v0.vertex.y as int, self.v1.vertex.y as int, self.v2.vertex.y as int),
            r.y.max == max3(i64::MIN as int, self.v0.vertex.y as int, self.v1.vertex.y as int, self.v2.vertex.y as int),
    {
        let vertices_x = [self.v0.vertex.x, self.v1.vertex.x, self.v2.vertex.x];
        let vertices_y = [self.v0.vertex.y, self.v1.vertex.y, self.v2.vertex.y];
        BoundingBox {
            x: Range::find_min_max(vertices_x, i64::MIN, i64::MAX),
            y: Range::find_min_max(vertices_y, i64::MIN, i64::MAX),
        }
    }
}

/// The position of `v` after the homogeneous transform by `m`, as a spec
/// value.
pub open spec fn hom_transformed(v: Vec3, m: Matrix44) -> Vec3 {
    Vec3 {
        x: (crate::linear_algebra::hom_x(v, m) / crate::linear_algebra::hom_w(v, m)) as i64,
        y: (crate::linear_algebra::hom_y(v, m) / crate::linear_algebra::hom_w(v, m)) as i64,
        z: (crate::linear_algebra::hom_z(v, m) / crate::linear_algebra::hom_w(v, m)) as i64,
    }
}

/// The edge function of the directed edge `(a -> b)` evaluated at point
/// `p`, negated under counter-clockwise winding so that "inside" is
/// `>= 0` for either winding.
pub open spec fn edge_val(
    ax: int,
    ay: int,
    bx: int,
    by: int,
    px: int,
    py: int,
    w: WindingOrder,
) -> int {
    let e = (px - ax) * (by - ay) - (py - ay) * (bx - ax);
    match w {
        WindingOrder::CCW => -e,
        WindingOrder::CW => e,
    }
}

/// Is the directed edge `(a -> b)` a top or left edge under the given
/// winding? Top: horizontal and directed against the x axis (with the
/// winding); left: directed downward (with the winding).
pub open spec fn is_top_left_spec(ax: int, ay: int, bx: int, by: int, w: WindingOrder) -> bool {
    match w {
        WindingOrder::CCW => (ay == by && ax > bx) || ay > by,
        WindingOrder::CW => (ay == by && ax < bx) || ay < by,
    }
}

/// The fill-rule bias of the directed edge `(a -> b)`: top and left
/// edges include pixels exactly on the edge (bias 0); all other edges
/// exclude them (bias -1).
pub open spec fn edge_bias(ax: int, ay: int, bx: int, by: int, w: WindingOrder) -> int {
    if is_top_left_spec(ax, ay, bx, by, w) {
        0
    } else {
        -1
    }
}

/// Does the biased edge function of `(a -> b)` accept point `p`?
pub open spec fn edge_accepts(
    ax: int,
    ay: int,
    bx: int,
    by: int,
    px: int,
    py: int,
    w: WindingOrder,
) -> bool {
    edge_val(ax, ay, bx, by, px, py, w) + edge_bias(ax, ay, bx, by, w) >= 0
}

/// The sub-pixel coordinate of the centre of pixel index `i`.
pub open spec fn pixel_centre(i: int) -> int {
    i * SUBPIX + SUBPIX_HALF
}

/// The edge function of the triangle's edge `v0 -> v1` at the centre of
/// pixel `(x, y)`.
pub open spec fn w0_at(t: Triangle, w: WindingOrder, x: int, y: int) -> int {
    edge_val(
        t.v0.vertex.x as int,
        t.v0.vertex.y as int,
        t.v1.vertex.x as int,
        t.v1.vertex.y as int,
        pixel_centre(x),
        pixel_centre(y),
        w,
    )
}

/// The edge function of the triangle's edge `v1 -> v2` at the centre of
/// pixel `(x, y)`.
pub open spec fn w1_at(t: Triangle, w: WindingOrder, x: int, y: int) -> int {
    edge_val(
        t.v1.vertex.x as int,
        t.v1.vertex.y as int,
        t.v2.vertex.x as int,
        t.v2.vertex.y as int,
        pixel_centre(x),
        pixel_centre(y),
        w,
    )
}

/// The edge function of the triangle's edge `v2 -> v0` at the centre of
/// pixel `(x, y)`.
pub open spec fn w2_at(t: Triangle, w: WindingOrder, x: int, y: int) -> int {
    edge_val(
        t.v2.vertex.x as int,
        t.v2.vertex.y as int,
        t.v0.vertex.x as int,
        t.v0.vertex.y as int,
        pixel_centre(x),
        pixel_centre(y),
        w,
    )
}

/// The fill-rule bias of the triangle's edge `v0 -> v1`.
pub open spec fn edge_bias0(t: Triangle, w: WindingOrder) -> int {
    edge_bias(t.v0.vertex.x as int, t.v0.vertex.y as int, t.v1.vertex.x as int, t.v1.vertex.y as int, w)
}

/// The fill-rule bias of the triangle's edge `v1 -> v2`.
pub open spec fn edge_bias1(t: Triangle, w: WindingOrder) -> int {
    edge_bias(t.v1.vertex.x as int, t.v1.vertex.y as int, t.v2.vertex.x as int, t.v2.vertex.y as int, w)
}

/// The fill-rule bias of the triangle's edge `v2 -> v0`.
pub open spec fn edge_bias2(t: Triangle, w: WindingOrder) -> int {
    edge_bias(t.v2.vertex.x as int, t.v2.vertex.y as int, t.v0.vertex.x as int, t.v0.vertex.y as int, w)
}

/// Twice the signed area of the triangle under the given winding: the
/// edge function of `v1 -> v2` evaluated at `v0`.
pub open spec fn double_area(t: Triangle, w: WindingOrder) -> int {
    edge_val(
        t.v1.vertex.x as int,
        t.v1.vertex.y as int,
        t.v2.vertex.x as int,
        t.v2.vertex.y as int,
        t.v0.vertex.x as int,
        t.v0.vertex.y as int,
        w,
    )
}

/// Is the centre of pixel `(x, y)` covered by the triangle? A pixel is
/// covered exactly when all three biased edge functions are
/// nonnegative: strictly inside every edge, or on a top/left edge.
pub open spec fn covered(t: Triangle, w: WindingOrder, x: int, y: int) -> bool {
    &&& w0_at(t, w, x, y) + edge_bias0(t, w) >= 0
    &&& w1_at(t, w, x, y) + edge_bias1(t, w) >= 0
    &&& w2_at(t, w, x, y) + edge_bias2(t, w) >= 0
}

/// Returns whether the directed edge `(v0 -> v1)` is a top or left edge
/// under the given winding.
pub fn is_top_left(v0: &Vec3, v1: &Vec3, winding: &WindingOrder) -> (r: bool)
    ensures
        r == is_top_left_spec(v0.x as int, v0.y as int, v1.x as int, v1.y as int, *winding),
{
    let (is_top_edge, is_left_edge) = match winding {
        WindingOrder::CCW => (v0.y == v1.y && v0.x > v1.x, v0.y > v1.y),
        WindingOrder::CW => (v0.y == v1.y && v0.x < v1.x, v0.y < v1.y),
    };
    is_top_edge || is_left_edge
}

/// Computes the edge function of the directed edge `(v0 -> v1)` at
/// point `p`, exactly.
pub fn edge_fn(v0: &Vec3, v1: &Vec3, p: &Vec3, winding: &WindingOrder) -> (r: i64)
    requires
        vec3_in_range(*v0),
        vec3_in_range(*v1),
        in_range(p.x),
        in_range(p.y),
    ensures
        r == edge_val(v0.x as int, v0.y as int, v1.x as int, v1.y as int, p.x as int, p.y as int, *winding),
        -EDGE_BOUND <= r <= EDGE_BOUND,
{
    proof {
        lemma_mul_bound(
            p.x - v0.x,
            v1.y - v0.y,
            0x4000_0000,
            0x4000_0000,
        );
        lemma_mul_bound(
            p.y - v0.y,
            v1.x - v0.x,
            0x4000_0000,
            0x4000_0000,
        );
        assert(0x4000_0000 * 0x4000_0000 == 0x1000_0000_0000_0000int);
    }
    let result = ((p.x - v0.x) * (v1.y - v0.y)) - ((p.y - v0.y) * (v1.x - v0.x));
    match winding {
        WindingOrder::CCW => -result,
        WindingOrder::CW => result,
    }
}

/// The sum of the three edge functions at any point equals twice the
/// triangle's signed area: with weights `l0 = w1 / area`,
/// `l1 = w2 / area`, `l2 = w0 / area`, the barycentric weights at every
/// point sum to exactly one.
pub proof fn lemma_barycentric_sum(t: Triangle, w: WindingOrder, px: int, py: int)
    ensures
        edge_val(t.v0.vertex.x as int, t.v0.vertex.y as int, t.v1.vertex.x as int, t.v1.vertex.y as int, px, py, w)
            + edge_val(t.v1.vertex.x as int, t.v1.vertex.y as int, t.v2.vertex.x as int, t.v2.vertex.y as int, px, py, w)
            + edge_val(t.v2.vertex.x as int, t.v2.vertex.y as int, t.v0.vertex.x as int, t.v0.vertex.y as int, px, py, w)
            == double_area(t, w),
{
    let x0 = t.v0.vertex.x as int;
    let y0 = t.v0.vertex.y as int;
    let x1 = t.v1.vertex.x as int;
    let y1 = t.v1.vertex.y as int;
    let x2 = t.v2.vertex.x as int;
    let y2 = t.v2.vertex.y as int;
    let e01 = (px - x0) * (y1 - y0) - (py - y0) * (x1 - x0);
    let e12 = (px - x1) * (y2 - y1) - (py - y1) * (x2 - x1);
    let e20 = (px - x2) * (y0 - y2) - (py - y2) * (x0 - x2);
    let ea = (x0 - x1) * (y2 - y1) - (y0 - y1) * (x2 - x1);
    let a = x0 - px;
    let b = y0 - py;
    let c = x1 - px;
    let d = y1 - py;
    let f = x2 - px;
    let g = y2 - py;
    assert(e01 == b * c - a * d) by (nonlinear_arith)
        requires
            e01 == (px - x0) * (y1 - y0) - (py - y0) * (x1 - x0),
            a == x0 - px,
            b == y0 - py,
            c == x1 - px,
            d == y1 - py,
    ;
    assert(e12 == d * f - c * g) by (nonlinear_arith)
        requires
            e12 == (px - x1) * (y2 - y1) - (py - y1) * (x2 - x1),
            c == x1 - px,
            d == y1 - py,
            f == x2 - px,
            g == y2 - py,
    ;
    assert(e20 == g * a - f * b) by (nonlinear_arith)
        requires
            e20 == (px - x2) * (y0 - y2) - (py - y2) * (x0 - x2),
            a == x0 - px,
            b == y0 - py,
            f == x2 - px,
            g == y2 - py,
    ;
    assert(ea == (a - c) * (g - d) - (b - d) * (f - c)) by (nonlinear_arith)
        requires
            ea == (x0 - x1) * (y2 - y1) - (y0 - y1) * (x2 - x1),
            a == x0 - px,
            b == y0 - py,
            c == x1 - px,
            d == y1 - py,
            f == x2 - px,
            g == y2 - py,
    ;
    assert((a - c) * (g - d) == a * g - a * d - c * g + c * d) by (nonlinear_arith);
    assert((b - d) * (f - c) == b * f - b * c - d * f + d * c) by (nonlinear_arith);
    assert(g * a == a * g && c * d == d * c) by (nonlinear_arith);
}

/// The top-left tie-break is exclusive on a shared edge: the reversed
/// edge has the negated edge function, exactly one direction of an edge
/// is top-left, and so a point exactly on the edge is accepted by the
/// biased test of exactly one of the two directions.
pub proof fn lemma_shared_edge_exclusive(
    ax: int,
    ay: int,
    bx: int,
    by: int,
    px: int,
    py: int,
    w: WindingOrder,
)
    requires
        ax != bx || ay != by,
    ensures
        edge_val(bx, by, ax, ay, px, py, w) == -edge_val(ax, ay, bx, by, px, py, w),
        is_top_left_spec(ax, ay, bx, by, w) != is_top_left_spec(bx, by, ax, ay, w),
        edge_val(ax, ay, bx, by, px, py, w) == 0 ==> (edge_accepts(ax, ay, bx, by, px, py, w)
            != edge_accepts(bx, by, ax, ay, px, py, w)),
{
    let e_ab = (px - ax) * (by - ay) - (py - ay) * (bx - ax);
    let e_ba = (px - bx) * (ay - by) - (py - by) * (ax - bx);
    assert(e_ba == -e_ab) by (nonlinear_arith)
        requires
            e_ab == (px - ax) * (by - ay) - (py - ay) * (bx - ax),
            e_ba == (px - bx) * (ay - by) - (py - by) * (ax - bx),
    ;
}

/// A pixel centre lying exactly on an edge shared by two triangles with
/// consistent winding is covered by at most one of them; and if it
/// passes the other two edge tests of both, it is covered by exactly
/// one. The shared edge is `v0 -> v1` of `t1` traversed as `v1 -> v0`
/// by `t2`; any other labelling reduces to this one by renaming
/// vertices, which only permutes the three edges.
pub proof fn lemma_top_left_rule_exclusive(
    t1: Triangle,
    t2: Triangle,
    w: WindingOrder,
    x: int,
    y: int,
)
    requires
        t2.v0.vertex.x == t1.v1.vertex.x,
        t2.v0.vertex.y == t1.v1.vertex.y,
        t2.v1.vertex.x == t1.v0.vertex.x,
        t2.v1.vertex.y == t1.v0.vertex.y,
        t1.v0.vertex.x != t1.v1.vertex.x || t1.v0.vertex.y != t1.v1.vertex.y,
        w0_at(t1, w, x, y) == 0,
    ensures
        !(covered(t1, w, x, y) && covered(t2, w, x, y)),
        (w1_at(t1, w, x, y) + edge_bias1(t1, w) >= 0 && w2_at(t1, w, x, y) + edge_bias2(t1, w) >= 0
            && w1_at(t2, w, x, y) + edge_bias1(t2, w) >= 0 && w2_at(t2, w, x, y) + edge_bias2(t2, w) >= 0)
            ==> (covered(t1, w, x, y) != covered(t2, w, x, y)),
{
    lemma_shared_edge_exclusive(
        t1.v0.vertex.x as int,
        t1.v0.vertex.y as int,
        t1.v1.vertex.x as int,
        t1.v1.vertex.y as int,
        pixel_centre(x),
        pixel_centre(y),
        w,
    );
}


/// The perspective-correct interpolated value of one attribute channel:
/// weight numerators `n0, n1, n2`, channel values `c0, c1, c2` and
/// inverse depths `z0, z1, z2` combine as
/// `(sum n_i * c_i * z_i) / (sum n_i * z_i)`, which is the exact
/// integer form of interpolating `c_i / depth_i` and `1 / depth_i`
/// barycentrically and dividing the former by the latter.
pub open spec fn persp_channel(
    n0: int,
    n1: int,
    n2: int,
    c0: int,
    c1: int,
    c2: int,
    z0: int,
    z1: int,
    z2: int,
) -> int {
    (n0 * c0 * z0 + n1 * c1 * z1 + n2 * c2 * z2) / (n0 * z0 + n1 * z1 + n2 * z2)
}

/// The plain (affine) barycentric interpolation of one attribute
/// channel.
pub open spec fn plain_channel(n0: int, n1: int, n2: int, c0: int, c1: int, c2: int) -> int {
    (n0 * c0 + n1 * c1 + n2 * c2) / (n0 + n1 + n2)
}

/// The colour the rasterizer writes at a covered pixel: each channel is
/// interpolated perspective-correctly with the edge function of the
/// opposite edge as each vertex's weight.
pub open spec fn colour_at(t: Triangle, w: WindingOrder, x: int, y: int) -> Colour {
    let n0 = w1_at(t, w, x, y);
    let n1 = w2_at(t, w, x, y);
    let n2 = w0_at(t, w, x, y);
    let z0 = t.v0.inv_z as int;
    let z1 = t.v1.inv_z as int;
    let z2 = t.v2.inv_z as int;
    let q0 = t.v0.attributes.colour;
    let q1 = t.v1.attributes.colour;
    let q2 = t.v2.attributes.colour;
    Colour {
        red: persp_channel(n0, n1, n2, q0.red as int, q1.red as int, q2.red as int, z0, z1, z2) as u8,
        green: persp_channel(n0, n1, n2, q0.green as int, q1.green as int, q2.green as int, z0, z1, z2) as u8,
        blue: persp_channel(n0, n1, n2, q0.blue as int, q1.blue as int, q2.blue as int, z0, z1, z2) as u8,
        alpha: persp_channel(n0, n1, n2, q0.alpha as int, q1.alpha as int, q2.alpha as int, z0, z1, z2) as u8,
    }
}

/// The change of an edge function per step along each axis.
pub open spec fn x_step(ax: int, ay: int, bx: int, by: int, w: WindingOrder) -> int {
    match w {
        WindingOrder::CCW => ay - by,
        WindingOrder::CW => by - ay,
    }
}

/// The change of an edge function per step along the y axis.
pub open spec fn y_step(ax: int, ay: int, bx: int, by: int, w: WindingOrder) -> int {
    match w {
        WindingOrder::CCW => bx - ax,
        WindingOrder::CW => ax - bx,
    }
}

/// An edge function is affine: moving the sample point by `s` along an
/// axis changes it by `s` times a constant that depends only on the
/// edge. This is what lets the scan evaluate each edge function once
/// and then only add deltas.
proof fn lemma_edge_step(
    ax: int,
    ay: int,
    bx: int,
    by: int,
    px: int,
    py: int,
    s: int,
    w: WindingOrder,
)
    ensures
        edge_val(ax, ay, bx, by, px + s, py, w) == edge_val(ax, ay, bx, by, px, py, w) + s
            * x_step(ax, ay, bx, by, w),
        edge_val(ax, ay, bx, by, px, py + s, w) == edge_val(ax, ay, bx, by, px, py, w) + s
            * y_step(ax, ay, bx, by, w),
{
    let e = (px - ax) * (by - ay) - (py - ay) * (bx - ax);
    let ex = (px + s - ax) * (by - ay) - (py - ay) * (bx - ax);
    let ey = (px - ax) * (by - ay) - (py + s - ay) * (bx - ax);
    assert(ex == e + s * (by - ay) && ey == e - s * (bx - ax)) by (nonlinear_arith)
        requires
            e == (px - ax) * (by - ay) - (py - ay) * (bx - ax),
            ex == (px + s - ax) * (by - ay) - (py - ay) * (bx - ax),
            ey == (px - ax) * (by - ay) - (py + s - ay) * (bx - ax),
    ;
    assert(s * (ay - by) == -(s * (by - ay)) && s * (ax - bx) == -(s * (bx - ax)))
        by (nonlinear_arith);
}

/// An edge function of range-bounded coordinates is bounded by
/// `EDGE_BOUND`.
proof fn lemma_edge_val_in_bound(
    ax: int,
    ay: int,
    bx: int,
    by: int,
    px: int,
    py: int,
    w: WindingOrder,
)
    requires
        -MAX_COORD <= ax <= MAX_COORD,
        -MAX_COORD <= ay <= MAX_COORD,
        -MAX_COORD <= bx <= MAX_COORD,
        -MAX_COORD <= by <= MAX_COORD,
        -MAX_COORD <= px <= MAX_COORD,
        -MAX_COORD <= py <= MAX_COORD,
    ensures
        -EDGE_BOUND <= edge_val(ax, ay, bx, by, px, py, w) <= EDGE_BOUND,
{
    lemma_mul_bound(px - ax, by - ay, 0x4000_0000, 0x4000_0000);
    lemma_mul_bound(py - ay, bx - ax, 0x4000_0000, 0x4000_0000);
    assert(0x4000_0000 * 0x4000_0000 == 0x1000_0000_0000_0000int);
}

/// A sub-pixel coordinate interval maps into pixel indices: a pixel
/// whose centre lies in `[lo, hi]` has its index between
/// `lo / SUBPIX` (inclusive) and `(hi + SUBPIX - 1) / SUBPIX`
/// (exclusive).
proof fn lemma_centre_to_pixel_range(lo: int, hi: int, x: int)
    requires
        lo <= pixel_centre(x) <= hi,
    ensures
        lo / (SUBPIX as int) <= x,
        x < (hi + SUBPIX - 1) / (SUBPIX as int),
{
    vstd::arithmetic::div_mod::lemma_fundamental_div_mod_converse(
        x * (SUBPIX as int) + (SUBPIX_HALF as int),
        SUBPIX as int,
        x,
        SUBPIX_HALF as int,
    );
    vstd::arithmetic::div_mod::lemma_div_is_ordered(lo, x * (SUBPIX as int) + (SUBPIX_HALF as int), SUBPIX as int);
    vstd::arithmetic::div_mod::lemma_fundamental_div_mod_converse(
        (x + 1) * (SUBPIX as int),
        SUBPIX as int,
        x + 1,
        0,
    );
    assert((x + 1) * (SUBPIX as int) == x * (SUBPIX as int) + SUBPIX) by (nonlinear_arith);
    vstd::arithmetic::div_mod::lemma_div_is_ordered(
        (x + 1) * (SUBPIX as int),
        hi + SUBPIX - 1,
        SUBPIX as int,
    );
}


/// One interpolation term against its denominator share: for a
/// nonnegative weight, positive inverse depth and byte channel,
/// `n <= n * z` and `0 <= n * c * z <= 255 * (n * z)`.
proof fn lemma_persp_term(n: int, c: int, z: int)
    requires
        n >= 0,
        1 <= z,
        0 <= c <= 255,
    ensures
        0 <= n * z,
        n <= n * z,
        0 <= n * c * z <= 255 * (n * z),
{
    vstd::arithmetic::mul::lemma_mul_nonnegative(n, z);
    vstd::arithmetic::mul::lemma_mul_inequality(1, z, n);
    vstd::arithmetic::mul::lemma_mul_is_commutative(z, n);
    vstd::arithmetic::mul::lemma_mul_is_commutative(1, n);
    vstd::arithmetic::mul::lemma_mul_nonnegative(n, c);
    vstd::arithmetic::mul::lemma_mul_nonnegative(n * c, z);
    vstd::arithmetic::mul::lemma_mul_inequality(c, 255, n);
    vstd::arithmetic::mul::lemma_mul_is_commutative(c, n);
    vstd::arithmetic::mul::lemma_mul_is_commutative(255, n);
    vstd::arithmetic::mul::lemma_mul_inequality(n * c, 255 * n, z);
    vstd::arithmetic::mul::lemma_mul_is_associative(255, n, z);
}
/// With nonnegative weights that do not all vanish, positive inverse
/// depths and byte channels, the interpolated channel is again a byte:
/// the numerator is between `0` and `255` times the denominator.
pub proof fn lemma_persp_channel_bounds(
    n0: int,
    n1: int,
    n2: int,
    c0: int,
    c1: int,
    c2: int,
    z0: int,
    z1: int,
    z2: int,
)
    requires
        n0 >= 0,
        n1 >= 0,
        n2 >= 0,
        1 <= z0,
        1 <= z1,
        1 <= z2,
        0 <= c0 <= 255,
        0 <= c1 <= 255,
        0 <= c2 <= 255,
        n0 + n1 + n2 >= 1,
    ensures
        n0 * z0 + n1 * z1 + n2 * z2 >= 1,
        0 <= persp_channel(n0, n1, n2, c0, c1, c2, z0, z1, z2) <= 255,
{
    let den = n0 * z0 + n1 * z1 + n2 * z2;
    let num = n0 * c0 * z0 + n1 * c1 * z1 + n2 * c2 * z2;
    lemma_persp_term(n0, c0, z0);
    lemma_persp_term(n1, c1, z1);
    lemma_persp_term(n2, c2, z2);
    vstd::arithmetic::div_mod::lemma_div_pos_is_pos(num, den);
    vstd::arithmetic::div_mod::lemma_div_is_ordered(num, 255 * den, den);
    vstd::arithmetic::div_mod::lemma_div_multiples_vanish(255, den);
    vstd::arithmetic::mul::lemma_mul_is_commutative(den, 255);
    vstd::arithmetic::mul::lemma_mul_is_distributive_add(255, n0 * z0, n1 * z1);
    vstd::arithmetic::mul::lemma_mul_is_distributive_add(255, n0 * z0 + n1 * z1, n2 * z2);
}
/// When all three vertices carry the same inverse depth, the
/// perspective correction cancels exactly: the common factor divides
/// out of numerator and denominator, so perspective-correct and plain
/// barycentric interpolation agree on every channel.
pub proof fn lemma_equal_depth_interpolation(
    n0: int,
    n1: int,
    n2: int,
    c0: int,
    c1: int,
    c2: int,
    z: int,
)
    requires
        n0 >= 0,
        n1 >= 0,
        n2 >= 0,
        0 <= c0,
        0 <= c1,
        0 <= c2,
        1 <= z,
        n0 + n1 + n2 >= 1,
    ensures
        persp_channel(n0, n1, n2, c0, c1, c2, z, z, z) == plain_channel(n0, n1, n2, c0, c1, c2),
{
    let p0 = n0 * c0;
    let p1 = n1 * c1;
    let p2 = n2 * c2;
    let num = p0 + p1 + p2;
    let den = n0 + n1 + n2;
    vstd::arithmetic::mul::lemma_mul_is_commutative(p0, z);
    vstd::arithmetic::mul::lemma_mul_is_commutative(p1, z);
    vstd::arithmetic::mul::lemma_mul_is_commutative(p2, z);
    vstd::arithmetic::mul::lemma_mul_is_commutative(n0, z);
    vstd::arithmetic::mul::lemma_mul_is_commutative(n1, z);
    vstd::arithmetic::mul::lemma_mul_is_commutative(n2, z);
    vstd::arithmetic::mul::lemma_mul_is_distributive_add(z, p0, p1);
    vstd::arithmetic::mul::lemma_mul_is_distributive_add(z, p0 + p1, p2);
    vstd::arithmetic::mul::lemma_mul_is_distributive_add(z, n0, n1);
    vstd::arithmetic::mul::lemma_mul_is_distributive_add(z, n0 + n1, n2);
    vstd::arithmetic::mul::lemma_mul_nonnegative(n0, c0);
    vstd::arithmetic::mul::lemma_mul_nonnegative(n1, c1);
    vstd::arithmetic::mul::lemma_mul_nonnegative(n2, c2);
    vstd::arithmetic::div_mod::lemma_div_multiples_vanish_quotient(z, num, den);
}
/// Bounds of one interpolation term, for overflow-freedom of the
/// 128-bit computation.
proof fn lemma_interp_term_bounds(n: int, c: int, z: int)
    requires
        0 <= n <= 0x2000_0000_0000_0001,
        0 <= c <= 255,
        1 <= z <= 0x10_0000,
    ensures
        0 <= n * c <= 0x2_0000_0000_0000_0000_0000,
        0 <= n * c * z <= 0x8_0000_0000_0000_0000_0000_0000,
        0 <= n * z <= 0x4_0000_0000_0000_0000_0000,
{
    vstd::arithmetic::mul::lemma_mul_nonnegative(n, c);
    vstd::arithmetic::mul::lemma_mul_nonnegative(n * c, z);
    vstd::arithmetic::mul::lemma_mul_nonnegative(n, z);
    vstd::arithmetic::mul::lemma_mul_upper_bound(n, 0x2000_0000_0000_0001, c, 255);
    vstd::arithmetic::mul::lemma_mul_upper_bound(n * c, 0x1fe0000000000000ff, z, 0x10_0000);
    assert(0x2000_0000_0000_0001int * 255 == 0x1fe0000000000000ff);
    vstd::arithmetic::mul::lemma_mul_upper_bound(n, 0x2000_0000_0000_0001, z, 0x10_0000);
}
/// Computes one perspective-correct interpolated channel, exactly.
fn interp_channel_exec(
    n0: i64,
    n1: i64,
    n2: i64,
    c0: u8,
    c1: u8,
    c2: u8,
    z0: i64,
    z1: i64,
    z2: i64,
) -> (r: u8)
    requires
        0 <= n0 <= EDGE_BOUND + 1,
        0 <= n1 <= EDGE_BOUND + 1,
        0 <= n2 <= EDGE_BOUND + 1,
        1 <= z0 <= MAX_INV_Z,
        1 <= z1 <= MAX_INV_Z,
        1 <= z2 <= MAX_INV_Z,
        n0 + n1 + n2 >= 1,
    ensures
        r == persp_channel(
            n0 as int,
            n1 as int,
            n2 as int,
            c0 as int,
            c1 as int,
            c2 as int,
            z0 as int,
            z1 as int,
            z2 as int,
        ),
{
    proof {
        lemma_persp_channel_bounds(
            n0 as int,
            n1 as int,
            n2 as int,
            c0 as int,
            c1 as int,
            c2 as int,
            z0 as int,
            z1 as int,
            z2 as int,
        );
        lemma_interp_term_bounds(n0 as int, c0 as int, z0 as int);
        lemma_interp_term_bounds(n1 as int, c1 as int, z1 as int);
        lemma_interp_term_bounds(n2 as int, c2 as int, z2 as int);
    }
    let num = (n0 as i128) * (c0 as i128) * (z0 as i128) + (n1 as i128) * (c1 as i128) * (z1
        as i128) + (n2 as i128) * (c2 as i128) * (z2 as i128);
    let den = (n0 as i128) * (z0 as i128) + (n1 as i128) * (z1 as i128) + (n2 as i128) * (z2
        as i128);
    match num.checked_div_euclid(den) {
        Some(q) => q as u8,
        None => {
            proof {
                assert(false);  // the quotient was proved to be a byte
            }
            0
        },
    }
}

/// Interpolates all four colour channels perspective-correctly.
fn interp_colour(
    n0: i64,
    n1: i64,
    n2: i64,
    a0: &VertexAttributes,
    a1: &VertexAttributes,
    a2: &VertexAttributes,
    z0: i64,
    z1: i64,
    z2: i64,
) -> (r: Colour)
    requires
        0 <= n0 <= EDGE_BOUND + 1,
        0 <= n1 <= EDGE_BOUND + 1,
        0 <= n2 <= EDGE_BOUND + 1,
        1 <= z0 <= MAX_INV_Z,
        1 <= z1 <= MAX_INV_Z,
        1 <= z2 <= MAX_INV_Z,
        n0 + n1 + n2 >= 1,
    ensures
        r.red == persp_channel(n0 as int, n1 as int, n2 as int, a0.colour.red as int, a1.colour.red as int, a2.colour.red as int, z0 as int, z1 as int, z2 as int),
        r.green == persp_channel(n0 as int, n1 as int, n2 as int, a0.colour.green as int, a1.colour.green as int, a2.colour.green as int, z0 as int, z1 as int, z2 as int),
        r.blue == persp_channel(n0 as int, n1 as int, n2 as int, a0.colour.blue as int, a1.colour.blue as int, a2.colour.blue as int, z0 as int, z1 as int, z2 as int),
        r.alpha == persp_channel(n0 as int, n1 as int, n2 as int, a0.colour.alpha as int, a1.colour.alpha as int, a2.colour.alpha as int, z0 as int, z1 as int, z2 as int),
{
    Colour {
        red: interp_channel_exec(n0, n1, n2, a0.colour.red, a1.colour.red, a2.colour.red, z0, z1, z2),
        green: interp_channel_exec(n0, n1, n2, a0.colour.green, a1.colour.green, a2.colour.green, z0, z1, z2),
        blue: interp_channel_exec(n0, n1, n2, a0.colour.blue, a1.colour.blue, a2.colour.blue, z0, z1, z2),
        alpha: interp_channel_exec(n0, n1, n2, a0.colour.alpha, a1.colour.alpha, a2.colour.alpha, z0, z1, z2),
    }
}

/// A covered pixel centre of a front-facing triangle lies within the
/// triangle's bounding box: the centre is a convex combination of the
/// vertices with the (nonnegative) barycentric weights.
#[verifier::rlimit(100)]
proof fn lemma_covered_within_bbox(t: Triangle, w: WindingOrder, x: int, y: int)
    requires
        covered(t, w, x, y),
        double_area(t, w) >= 1,
    ensures
        min3(i64::MAX as int, t.v0.vertex.x as int, t.v1.vertex.x as int, t.v2.vertex.x as int)
            <= pixel_centre(x) <= max3(i64::MIN as int, t.v0.vertex.x as int, t.v1.vertex.x as int, t.v2.vertex.x as int),
        min3(i64::MAX as int, t.v0.vertex.y as int, t.v1.vertex.y as int, t.v2.vertex.y as int)
            <= pixel_centre(y) <= max3(i64::MIN as int, t.v0.vertex.y as int, t.v1.vertex.y as int, t.v2.vertex.y as int),
{
    let x0 = t.v0.vertex.x as int;
    let y0 = t.v0.vertex.y as int;
    let x1 = t.v1.vertex.x as int;
    let y1 = t.v1.vertex.y as int;
    let x2 = t.v2.vertex.x as int;
    let y2 = t.v2.vertex.y as int;
    let px = pixel_centre(x);
    let py = pixel_centre(y);
    let w0 = w0_at(t, w, x, y);
    let w1 = w1_at(t, w, x, y);
    let w2 = w2_at(t, w, x, y);
    lemma_barycentric_sum(t, w, px, py);
    let s = w0 + w1 + w2;
    let e01 = (px - x0) * (y1 - y0) - (py - y0) * (x1 - x0);
    let e12 = (px - x1) * (y2 - y1) - (py - y1) * (x2 - x1);
    let e20 = (px - x2) * (y0 - y2) - (py - y2) * (x0 - x2);
    let a = x0 - px;
    let b = y0 - py;
    let c = x1 - px;
    let d = y1 - py;
    let f = x2 - px;
    let g = y2 - py;
    assert(e01 == b * c - a * d) by (nonlinear_arith)
        requires
            e01 == (px - x0) * (y1 - y0) - (py - y0) * (x1 - x0),
            a == x0 - px,
            b == y0 - py,
            c == x1 - px,
            d == y1 - py,
    ;
    assert(e12 == d * f - c * g) by (nonlinear_arith)
        requires
            e12 == (px - x1) * (y2 - y1) - (py - y1) * (x2 - x1),
            c == x1 - px,
            d == y1 - py,
            f == x2 - px,
            g == y2 - py,
    ;
    assert(e20 == g * a - f * b) by (nonlinear_arith)
        requires
            e20 == (px - x2) * (y0 - y2) - (py - y2) * (x0 - x2),
            a == x0 - px,
            b == y0 - py,
            f == x2 - px,
            g == y2 - py,
    ;
    assert((d * f - c * g) * a + (g * a - f * b) * c + (b * c - a * d) * f == 0)
        by (nonlinear_arith);
    assert((d * f - c * g) * b + (g * a - f * b) * d + (b * c - a * d) * g == 0)
        by (nonlinear_arith);
    vstd::arithmetic::mul::lemma_mul_is_distributive_add(e12, a, px);
    vstd::arithmetic::mul::lemma_mul_is_distributive_add(e20, c, px);
    vstd::arithmetic::mul::lemma_mul_is_distributive_add(e01, f, px);
    vstd::arithmetic::mul::lemma_mul_is_distributive_add(e12, b, py);
    vstd::arithmetic::mul::lemma_mul_is_distributive_add(e20, d, py);
    vstd::arithmetic::mul::lemma_mul_is_distributive_add(e01, g, py);
    assert(x0 == a + px && x1 == c + px && x2 == f + px);
    assert(y0 == b + py && y1 == d + py && y2 == g + py);
    vstd::arithmetic::mul::lemma_mul_is_distributive_add_other_way(px, e01, e12);
    vstd::arithmetic::mul::lemma_mul_is_distributive_add_other_way(px, e01 + e12, e20);
    vstd::arithmetic::mul::lemma_mul_is_distributive_add_other_way(py, e01, e12);
    vstd::arithmetic::mul::lemma_mul_is_distributive_add_other_way(py, e01 + e12, e20);
    assert(e12 * x0 + e20 * x1 + e01 * x2 == (e01 + e12 + e20) * px);
    assert(e12 * y0 + e20 * y1 + e01 * y2 == (e01 + e12 + e20) * py);
    match w {
        WindingOrder::CW => {
            assert(w0 == e01 && w1 == e12 && w2 == e20);
            assert(w1 * x0 + w2 * x1 + w0 * x2 == s * px && w1 * y0 + w2 * y1 + w0 * y2 == s * py)
                by (nonlinear_arith)
                requires
                    w0 == e01,
                    w1 == e12,
                    w2 == e20,
                    s == w0 + w1 + w2,
                    e12 * x0 + e20 * x1 + e01 * x2 == (e01 + e12 + e20) * px,
                    e12 * y0 + e20 * y1 + e01 * y2 == (e01 + e12 + e20) * py,
            ;
        },
        WindingOrder::CCW => {
            assert(w0 == -e01 && w1 == -e12 && w2 == -e20);
            assert(w1 * x0 + w2 * x1 + w0 * x2 == s * px && w1 * y0 + w2 * y1 + w0 * y2 == s * py)
                by (nonlinear_arith)
                requires
                    w0 == -e01,
                    w1 == -e12,
                    w2 == -e20,
                    s == w0 + w1 + w2,
                    e12 * x0 + e20 * x1 + e01 * x2 == (e01 + e12 + e20) * px,
                    e12 * y0 + e20 * y1 + e01 * y2 == (e01 + e12 + e20) * py,
            ;
        },
    }
    let minx = min3(i64::MAX as int, x0, x1, x2);
    let maxx = max3(i64::MIN as int, x0, x1, x2);
    let miny = min3(i64::MAX as int, y0, y1, y2);
    let maxy = max3(i64::MIN as int, y0, y1, y2);
    assert(minx <= px <= maxx) by (nonlinear_arith)
        requires
            w1 * x0 + w2 * x1 + w0 * x2 == s * px,
            s == w0 + w1 + w2,
            s >= 1,
            w0 >= 0,
            w1 >= 0,
            w2 >= 0,
            minx <= x0 <= maxx,
            minx <= x1 <= maxx,
            minx <= x2 <= maxx,
    ;
    assert(miny <= py <= maxy) by (nonlinear_arith)
        requires
            w1 * y0 + w2 * y1 + w0 * y2 == s * py,
            s == w0 + w1 + w2,
            s >= 1,
            w0 >= 0,
            w1 >= 0,
            w2 >= 0,
            miny <= y0 <= maxy,
            miny <= y1 <= maxy,
            miny <= y2 <= maxy,
    ;
}


/// Quotient of a sub-pixel coordinate by the sub-pixel scale, rounded
/// toward negative infinity.
fn div_floor_subpix(a: i64) -> (r: i64)
    requires
        in_range(a),
    ensures
        r == a as int / (SUBPIX as int),
{
    crate::linear_algebra::div_euclid_i64(a, SUBPIX)
}

/// Quotient of a sub-pixel coordinate by the sub-pixel scale, rounded
/// toward positive infinity.
fn div_ceil_subpix(a: i64) -> (r: i64)
    requires
        in_range(a),
    ensures
        r == (a + SUBPIX - 1) as int / (SUBPIX as int),
{
    crate::linear_algebra::div_euclid_i64(a + (SUBPIX - 1), SUBPIX)
}

/// The per-column and per-row deltas of the edge function of
/// `(v0 -> v1)`: what one whole-pixel step along x and along y adds.
fn edge_deltas(v0: &Vec3, v1: &Vec3, winding: &WindingOrder) -> (r: (i64, i64))
    requires
        vec3_in_range(*v0),
        vec3_in_range(*v1),
    ensures
        r.0 == SUBPIX * x_step(v0.x as int, v0.y as int, v1.x as int, v1.y as int, *winding),
        r.1 == SUBPIX * y_step(v0.x as int, v0.y as int, v1.x as int, v1.y as int, *winding),
{
    match winding {
        WindingOrder::CCW => (SUBPIX * (v0.y - v1.y), SUBPIX * (v1.x - v0.x)),
        WindingOrder::CW => (SUBPIX * (v1.y - v0.y), SUBPIX * (v0.x - v1.x)),
    }
}

/// A covered pixel of a front-facing triangle lies in the pixel range
/// that the scan visits.
proof fn lemma_covered_in_scan(t: Triangle, w: WindingOrder, i: int, j: int)
    requires
        covered(t, w, i, j),
        double_area(t, w) >= 1,
    ensures
        bb_min_x(t) / (SUBPIX as int) <= i < (bb_max_x(t) + SUBPIX - 1) / (SUBPIX as int),
        bb_min_y(t) / (SUBPIX as int) <= j < (bb_max_y(t) + SUBPIX - 1) / (SUBPIX as int),
{
    lemma_covered_within_bbox(t, w, i, j);
    lemma_centre_to_pixel_range(bb_min_x(t), bb_max_x(t), i);
    lemma_centre_to_pixel_range(bb_min_y(t), bb_max_y(t), j);
}

/// Draws a triangle into the frame buffer by an incremental edge-function
/// scan over the triangle's bounding box clamped to the sink: every pixel
/// of the sink whose centre passes all three biased edge tests receives
/// the perspective-correct interpolated colour, and every other pixel of
/// the sink keeps its colour. Triangles with non-positive double area
/// (degenerate or back-facing) write nothing.
pub fn rasterise_triangle<T: FrameBufferTrait>(
    triangle: &Triangle,
    frame_buffer: &mut FrameBuffer<T>,
    winding: &WindingOrder,
)
    requires
        triangle.wf(),
        old(frame_buffer).wf(),
        old(frame_buffer).width_px <= MAX_DIM,
        old(frame_buffer).height_px <= MAX_DIM,
    ensures
        final(frame_buffer).wf(),
        final(frame_buffer).width_px == old(frame_buffer).width_px,
        final(frame_buffer).height_px == old(frame_buffer).height_px,
        forall|i: int, j: int|
            0 <= i < old(frame_buffer).width_px && 0 <= j < old(frame_buffer).height_px
                ==> final(frame_buffer).pixel(i, j) == if (double_area(*triangle, *winding) >= 1
                && covered(
                *triangle,
                *winding,
                i,
                j,
            )) {
                colour_at(*triangle, *winding, i, j)
            } else {
                old(frame_buffer).pixel(i, j)
            },
{
    let ghost t = *triangle;
    let ghost wd = *winding;

    // Twice the signed area; degenerate and back-facing triangles are
    // rejected before any divide can see them.
    let double_triangle_area = edge_fn(
        &triangle.v1.vertex,
        &triangle.v2.vertex,
        &triangle.v0.vertex,
        winding,
    );
    if double_triangle_area <= 0 {
        return;
    }

    // Fill-rule biases, so that edges are classified once per triangle.
    let bias0 = if is_top_left(&triangle.v0.vertex, &triangle.v1.vertex, winding) {
        0i64
    } else {
        -1i64
    };
    let bias1 = if is_top_left(&triangle.v1.vertex, &triangle.v2.vertex, winding) {
        0i64
    } else {
        -1i64
    };
    let bias2 = if is_top_left(&triangle.v2.vertex, &triangle.v0.vertex, winding) {
        0i64
    } else {
        -1i64
    };

    // Each edge function changes by a constant along a row or a column.
    let (delta_w0_x, delta_w0_y) = edge_deltas(&triangle.v0.vertex, &triangle.v1.vertex, winding);
    let (delta_w1_x, delta_w1_y) = edge_deltas(&triangle.v1.vertex, &triangle.v2.vertex, winding);
    let (delta_w2_x, delta_w2_y) = edge_deltas(&triangle.v2.vertex, &triangle.v0.vertex, winding);

    // The pixel bounding box, clamped against the sink's bounds.
    let width_px = frame_buffer.width_px;
    let height_px = frame_buffer.height_px;
    let width_i = width_px as i64;
    let height_i = height_px as i64;
    let bounding_box = triangle.get_bounding_box();
    let fl_x = div_floor_subpix(bounding_box.x.min);
    let ce_x = div_ceil_subpix(bounding_box.x.max);
    let fl_y = div_floor_subpix(bounding_box.y.min);
    let ce_y = div_ceil_subpix(bounding_box.y.max);
    let x_lo = if fl_x < 0 {
        0
    } else {
        fl_x
    };
    let x_hi = if ce_x > width_i {
        width_i
    } else {
        ce_x
    };
    let y_lo = if fl_y < 0 {
        0
    } else {
        fl_y
    };
    let y_hi = if ce_y > height_i {
        height_i
    } else {
        ce_y
    };
    if x_lo >= x_hi || y_lo >= y_hi {
        proof {
            assert forall|i: int, j: int|
                0 <= i < old(frame_buffer).width_px && 0 <= j < old(frame_buffer).height_px
                    && covered(t, wd, i, j) implies false by {
                lemma_covered_in_scan(t, wd, i, j);
            }
        }
        return;
    }

    // The three biased edge functions at the first pixel centre of the
    // clamped box.
    let start_point = Vec3::new(x_lo * SUBPIX + SUBPIX_HALF, y_lo * SUBPIX + SUBPIX_HALF, 0);
    let mut col_w0 = edge_fn(&triangle.v0.vertex, &triangle.v1.vertex, &start_point, winding)
        + bias0;
    let mut col_w1 = edge_fn(&triangle.v1.vertex, &triangle.v2.vertex, &start_point, winding)
        + bias1;
    let mut col_w2 = edge_fn(&triangle.v2.vertex, &triangle.v0.vertex, &start_point, winding)
        + bias2;

    let mut x = x_lo;
    while x < x_hi
        invariant
            x_lo <= x <= x_hi,
            0 <= x_lo,
            x_hi <= width_i,
            0 <= y_lo < y_hi <= height_i,
            width_i == width_px as int,
            height_i == height_px as int,
            width_px <= MAX_DIM,
            height_px <= MAX_DIM,
            triangle.wf(),
            t == *triangle,
            wd == *winding,
            frame_buffer.wf(),
            frame_buffer.width_px == width_px,
            frame_buffer.height_px == height_px,
            old(frame_buffer).width_px == width_px,
            old(frame_buffer).height_px == height_px,
            double_triangle_area == double_area(t, wd),
            double_triangle_area >= 1,
            bias0 == edge_bias0(t, wd),
            bias1 == edge_bias1(t, wd),
            bias2 == edge_bias2(t, wd),
            delta_w0_x == SUBPIX * x_step(t.v0.vertex.x as int, t.v0.vertex.y as int, t.v1.vertex.x as int, t.v1.vertex.y as int, wd),
            delta_w0_y == SUBPIX * y_step(t.v0.vertex.x as int, t.v0.vertex.y as int, t.v1.vertex.x as int, t.v1.vertex.y as int, wd),
            delta_w1_x == SUBPIX * x_step(t.v1.vertex.x as int, t.v1.vertex.y as int, t.v2.vertex.x as int, t.v2.vertex.y as int, wd),
            delta_w1_y == SUBPIX * y_step(t.v1.vertex.x as int, t.v1.vertex.y as int, t.v2.vertex.x as int, t.v2.vertex.y as int, wd),
            delta_w2_x == SUBPIX * x_step(t.v2.vertex.x as int, t.v2.vertex.y as int, t.v0.vertex.x as int, t.v0.vertex.y as int, wd),
            delta_w2_y == SUBPIX * y_step(t.v2.vertex.x as int, t.v2.vertex.y as int, t.v0.vertex.x as int, t.v0.vertex.y as int, wd),
            fl_x == bb_min_x(t) / (SUBPIX as int),
            ce_x == (bb_max_x(t) + SUBPIX - 1) / (SUBPIX as int),
            fl_y == bb_min_y(t) / (SUBPIX as int),
            ce_y == (bb_max_y(t) + SUBPIX - 1) / (SUBPIX as int),
            x_lo == (if fl_x < 0 { 0int } else { fl_x as int }),
            x_hi == (if ce_x > width_i { width_i as int } else { ce_x as int }),
            y_lo == (if fl_y < 0 { 0int } else { fl_y as int }),
            y_hi == (if ce_y > height_i { height_i as int } else { ce_y as int }),
            col_w0 == w0_at(t, wd, x as int, y_lo as int) + edge_bias0(t, wd),
            col_w1 == w1_at(t, wd, x as int, y_lo as int) + edge_bias1(t, wd),
            col_w2 == w2_at(t, wd, x as int, y_lo as int) + edge_bias2(t, wd),
            forall|i: int, j: int| #![trigger frame_buffer.pixel(i, j)]
                0 <= i < width_px && 0 <= j < height_px ==> frame_buffer.pixel(i, j) == if (x_lo
                    <= i < x && y_lo <= j < y_hi && covered(t, wd, i, j)) {
                    colour_at(t, wd, i, j)
                } else {
                    old(frame_buffer).pixel(i, j)
                },
        decreases x_hi - x,
    {
        let mut w0 = col_w0;
        let mut w1 = col_w1;
        let mut w2 = col_w2;
        let mut y = y_lo;
        proof {
            assert forall|i: int, j: int|
                0 <= i < width_px && 0 <= j < height_px implies frame_buffer.pixel(i, j) == if ((
                x_lo <= i < x && y_lo <= j < y_hi && covered(t, wd, i, j)) || (i == x as int
                    && y_lo <= j < y && covered(t, wd, i, j))) {
                colour_at(t, wd, i, j)
            } else {
                old(frame_buffer).pixel(i, j)
            } by {
                assert(frame_buffer.pixel(i, j) == if (x_lo <= i < x && y_lo <= j < y_hi
                    && covered(t, wd, i, j)) {
                    colour_at(t, wd, i, j)
                } else {
                    old(frame_buffer).pixel(i, j)
                });
            }
        }
        while y < y_hi
            invariant
                x_lo <= x < x_hi,
                y_lo <= y <= y_hi,
                0 <= x_lo,
                x_hi <= width_i,
                0 <= y_lo < y_hi <= height_i,
                width_i == width_px as int,
                height_i == height_px as int,
                width_px <= MAX_DIM,
                height_px <= MAX_DIM,
                triangle.wf(),
                t == *triangle,
                wd == *winding,
                frame_buffer.wf(),
                frame_buffer.width_px == width_px,
                frame_buffer.height_px == height_px,
                old(frame_buffer).width_px == width_px,
                old(frame_buffer).height_px == height_px,
                double_triangle_area == double_area(t, wd),
                double_triangle_area >= 1,
                bias0 == edge_bias0(t, wd),
                bias1 == edge_bias1(t, wd),
                bias2 == edge_bias2(t, wd),
                delta_w0_y == SUBPIX * y_step(t.v0.vertex.x as int, t.v0.vertex.y as int, t.v1.vertex.x as int, t.v1.vertex.y as int, wd),
                delta_w1_y == SUBPIX * y_step(t.v1.vertex.x as int, t.v1.vertex.y as int, t.v2.vertex.x as int, t.v2.vertex.y as int, wd),
                delta_w2_y == SUBPIX * y_step(t.v2.vertex.x as int, t.v2.vertex.y as int, t.v0.vertex.x as int, t.v0.vertex.y as int, wd),
                w0 == w0_at(t, wd, x as int, y as int) + edge_bias0(t, wd),
                w1 == w1_at(t, wd, x as int, y as int) + edge_bias1(t, wd),
                w2 == w2_at(t, wd, x as int, y as int) + edge_bias2(t, wd),
                forall|i: int, j: int| #![trigger frame_buffer.pixel(i, j)]
                    0 <= i < width_px && 0 <= j < height_px ==> frame_buffer.pixel(i, j) == if ((
                    x_lo <= i < x && y_lo <= j < y_hi && covered(t, wd, i, j)) || (i == x as int
                        && y_lo <= j < y && covered(t, wd, i, j))) {
                        colour_at(t, wd, i, j)
                    } else {
                        old(frame_buffer).pixel(i, j)
                    },
            decreases y_hi - y,
        {
            let point_overlap = w0 >= 0 && w1 >= 0 && w2 >= 0;
            if point_overlap {
                proof {
                    lemma_barycentric_sum(t, wd, pixel_centre(x as int), pixel_centre(y as int));
                    lemma_edge_val_in_bound(
                        t.v0.vertex.x as int,
                        t.v0.vertex.y as int,
                        t.v1.vertex.x as int,
                        t.v1.vertex.y as int,
                        pixel_centre(x as int),
                        pixel_centre(y as int),
                        wd,
                    );
                    lemma_edge_val_in_bound(
                        t.v1.vertex.x as int,
                        t.v1.vertex.y as int,
                        t.v2.vertex.x as int,
                        t.v2.vertex.y as int,
                        pixel_centre(x as int),
                        pixel_centre(y as int),
                        wd,
                    );
                    lemma_edge_val_in_bound(
                        t.v2.vertex.x as int,
                        t.v2.vertex.y as int,
                        t.v0.vertex.x as int,
                        t.v0.vertex.y as int,
                        pixel_centre(x as int),
                        pixel_centre(y as int),
                        wd,
                    );
                }
                let u0 = w0 - bias0;
                let u1 = w1 - bias1;
                let u2 = w2 - bias2;
                let pixel_colour = interp_colour(
                    u1,
                    u2,
                    u0,
                    &triangle.v0.attributes,
                    &triangle.v1.attributes,
                    &triangle.v2.attributes,
                    triangle.v0.inv_z,
                    triangle.v1.inv_z,
                    triangle.v2.inv_z,
                );
                let ghost prev = *frame_buffer;
                let _ = frame_buffer.write_buf(x as usize, y as usize, &pixel_colour);
                proof {
                    assert(covered(t, wd, x as int, y as int));
                    assert(u1 == w1_at(t, wd, x as int, y as int));
                    assert(u2 == w2_at(t, wd, x as int, y as int));
                    assert(u0 == w0_at(t, wd, x as int, y as int));
                    assert(pixel_colour.red == colour_at(t, wd, x as int, y as int).red);
                    assert(pixel_colour.green == colour_at(t, wd, x as int, y as int).green);
                    assert(pixel_colour.blue == colour_at(t, wd, x as int, y as int).blue);
                    assert(pixel_colour.alpha == colour_at(t, wd, x as int, y as int).alpha);
                    assert(pixel_colour == colour_at(t, wd, x as int, y as int));
                    assert forall|i: int, j: int|
                        0 <= i < width_px && 0 <= j < height_px implies frame_buffer.pixel(i, j)
                        == if ((x_lo <= i < x && y_lo <= j < y_hi && covered(t, wd, i, j)) || (i
                        == x as int && y_lo <= j < y + 1 && covered(t, wd, i, j))) {
                        colour_at(t, wd, i, j)
                    } else {
                        old(frame_buffer).pixel(i, j)
                    } by {
                        assert(frame_buffer.pixel(i, j) == if i == x as int && j == y as int {
                            pixel_colour
                        } else {
                            prev.pixel(i, j)
                        });
                    }
                }
            }
            proof {
                lemma_edge_step(
                    t.v0.vertex.x as int,
                    t.v0.vertex.y as int,
                    t.v1.vertex.x as int,
                    t.v1.vertex.y as int,
                    pixel_centre(x as int),
                    pixel_centre(y as int),
                    SUBPIX as int,
                    wd,
                );
                lemma_edge_step(
                    t.v1.vertex.x as int,
                    t.v1.vertex.y as int,
                    t.v2.vertex.x as int,
                    t.v2.vertex.y as int,
                    pixel_centre(x as int),
                    pixel_centre(y as int),
                    SUBPIX as int,
                    wd,
                );
                lemma_edge_step(
                    t.v2.vertex.x as int,
                    t.v2.vertex.y as int,
                    t.v0.vertex.x as int,
                    t.v0.vertex.y as int,
                    pixel_centre(x as int),
                    pixel_centre(y as int),
                    SUBPIX as int,
                    wd,
                );
                lemma_edge_val_in_bound(
                    t.v0.vertex.x as int,
                    t.v0.vertex.y as int,
                    t.v1.vertex.x as int,
                    t.v1.vertex.y as int,
                    pixel_centre(x as int),
                    pixel_centre(y as int + 1),
                    wd,
                );
                lemma_edge_val_in_bound(
                    t.v1.vertex.x as int,
                    t.v1.vertex.y as int,
                    t.v2.vertex.x as int,
                    t.v2.vertex.y as int,
                    pixel_centre(x as int),
                    pixel_centre(y as int + 1),
                    wd,
                );
                lemma_edge_val_in_bound(
                    t.v2.vertex.x as int,
                    t.v2.vertex.y as int,
                    t.v0.vertex.x as int,
                    t.v0.vertex.y as int,
                    pixel_centre(x as int),
                    pixel_centre(y as int + 1),
                    wd,
                );
            }
            w0 = w0 + delta_w0_y;
            w1 = w1 + delta_w1_y;
            w2 = w2 + delta_w2_y;
            y = y + 1;
        }
        proof {
            assert forall|i: int, j: int|
                0 <= i < width_px && 0 <= j < height_px implies frame_buffer.pixel(i, j) == if (
            x_lo <= i < x + 1 && y_lo <= j < y_hi && covered(t, wd, i, j)) {
                colour_at(t, wd, i, j)
            } else {
                old(frame_buffer).pixel(i, j)
            } by {
                assert(frame_buffer.pixel(i, j) == if ((x_lo <= i < x && y_lo <= j < y_hi
                    && covered(t, wd, i, j)) || (i == x as int && y_lo <= j < y && covered(
                    t,
                    wd,
                    i,
                    j,
                ))) {
                    colour_at(t, wd, i, j)
                } else {
                    old(frame_buffer).pixel(i, j)
                });
            }
            lemma_edge_step(
                t.v0.vertex.x as int,
                t.v0.vertex.y as int,
                t.v1.vertex.x as int,
                t.v1.vertex.y as int,
                pixel_centre(x as int),
                pixel_centre(y_lo as int),
                SUBPIX as int,
                wd,
            );
            lemma_edge_step(
                t.v1.vertex.x as int,
                t.v1.vertex.y as int,
                t.v2.vertex.x as int,
                t.v2.vertex.y as int,
                pixel_centre(x as int),
                pixel_centre(y_lo as int),
                SUBPIX as int,
                wd,
            );
            lemma_edge_step(
                t.v2.vertex.x as int,
                t.v2.vertex.y as int,
                t.v0.vertex.x as int,
                t.v0.vertex.y as int,
                pixel_centre(x as int),
                pixel_centre(y_lo as int),
                SUBPIX as int,
                wd,
            );
            lemma_edge_val_in_bound(
                t.v0.vertex.x as int,
                t.v0.vertex.y as int,
                t.v1.vertex.x as int,
                t.v1.vertex.y as int,
                pixel_centre(x as int + 1),
                pixel_centre(y_lo as int),
                wd,
            );
            lemma_edge_val_in_bound(
                t.v1.vertex.x as int,
                t.v1.vertex.y as int,
                t.v2.vertex.x as int,
                t.v2.vertex.y as int,
                pixel_centre(x as int + 1),
                pixel_centre(y_lo as int),
                wd,
            );
            lemma_edge_val_in_bound(
                t.v2.vertex.x as int,
                t.v2.vertex.y as int,
                t.v0.vertex.x as int,
                t.v0.vertex.y as int,
                pixel_centre(x as int + 1),
                pixel_centre(y_lo as int),
                wd,
            );
        }
        col_w0 = col_w0 + delta_w0_x;
        col_w1 = col_w1 + delta_w1_x;
        col_w2 = col_w2 + delta_w2_x;
        x = x + 1;
    }
    proof {
        assert forall|i: int, j: int|
            0 <= i < old(frame_buffer).width_px && 0 <= j < old(frame_buffer).height_px implies
            frame_buffer.pixel(i, j) == if (double_area(t, wd) >= 1 && covered(t, wd, i, j)) {
            colour_at(t, wd, i, j)
        } else {
            old(frame_buffer).pixel(i, j)
        } by {
            if covered(t, wd, i, j) {
                lemma_covered_in_scan(t, wd, i, j);
            }
        }
    }
}

} // verus!
