//! Scan conversion of triangles.
//!
//! A triangle yields one fragment for every pixel whose centre lies inside
//! it or on one of its edges. The test is exact: edge functions are
//! computed in integers on the raw fixed-point coordinates.

use vstd::prelude::*;
use crate::fixed::{pixel_ceil, pixel_ceil_spec, pixel_floor, pixel_floor_spec};
use crate::fragment::{Fragment, Pixel};
use crate::interpolate::{interpolate_fragment, max3, min3, shade_point, Weights};
use crate::line::{line, line_fragments};
use crate::vector::Vec3;
use crate::vertex::Vertex;

verus! {

/// The edge function of the directed edge from `a` to `b` at the point `c`,
/// all in raw coordinates: twice the signed area of the triangle `a`, `b`,
/// `c`. Its sign tells on which side of the edge the point lies, and it is
/// zero on the line through `a` and `b`.
pub open spec fn edge_spec(ax: int, ay: int, bx: int, by: int, cx: int, cy: int) -> int {
    (cx - ax) * (by - ay) - (cy - ay) * (bx - ax)
}

/// The raw coordinate of the centre of pixel column or row `p`.
pub open spec fn centre(p: int) -> int {
    p * 65536 + 32768
}

/// Twice the signed area of the triangle `a`, `b`, `c` on the screen.
pub open spec fn area_of(a: Vec3, b: Vec3, c: Vec3) -> int {
    edge_spec(a.x as int, a.y as int, b.x as int, b.y as int, c.x as int, c.y as int)
}

/// The numerators of the barycentric weights of the centre of pixel
/// `(x, y)` in the triangle `a`, `b`, `c`: the weight of each corner is its
/// numerator divided by `area_of(a, b, c)`.
pub open spec fn weights_at(a: Vec3, b: Vec3, c: Vec3, x: int, y: int) -> (int, int, int) {
    (
        edge_spec(b.x as int, b.y as int, c.x as int, c.y as int, centre(x), centre(y)),
        edge_spec(c.x as int, c.y as int, a.x as int, a.y as int, centre(x), centre(y)),
        edge_spec(a.x as int, a.y as int, b.x as int, b.y as int, centre(x), centre(y)),
    )
}

/// Whether the fraction `n / d` lies in the closed interval from zero to
/// one.
pub open spec fn in_unit_interval(n: int, d: int) -> bool {
    (d > 0 && 0 <= n <= d) || (d < 0 && d <= n <= 0)
}

/// Whether the centre of pixel `(x, y)` lies inside the triangle `a`, `b`,
/// `c` or on one of its edges: each barycentric weight lies between zero
/// and one, both included. A triangle without area covers nothing.
pub open spec fn covers(a: Vec3, b: Vec3, c: Vec3, x: int, y: int) -> bool {
    let area = area_of(a, b, c);
    let (n1, n2, n3) = weights_at(a, b, c, x, y);
    in_unit_interval(n1, area) && in_unit_interval(n2, area) && in_unit_interval(n3, area)
}

/// The pixels a triangle can touch: columns `min_x` to `max_x` and rows
/// `min_y` to `max_y`, all four included.
pub open spec fn bounding_box_spec(a: Vec3, b: Vec3, c: Vec3) -> (int, int, int, int) {
    (
        pixel_floor_spec(min3(a.x as int, b.x as int, c.x as int)),
        pixel_floor_spec(min3(a.y as int, b.y as int, c.y as int)),
        pixel_ceil_spec(max3(a.x as int, b.x as int, c.x as int)),
        pixel_ceil_spec(max3(a.y as int, b.y as int, c.y as int)),
    )
}

/// Whether pixel `(x, y)` lies in the bounding box of the triangle `a`,
/// `b`, `c`.
pub open spec fn in_bounding_box(a: Vec3, b: Vec3, c: Vec3, x: int, y: int) -> bool {
    let (min_x, min_y, max_x, max_y) = bounding_box_spec(a, b, c);
    min_x <= x <= max_x && min_y <= y <= max_y
}

/// The fragment of the triangle `v1`, `v2`, `v3` at pixel `(x, y)`.
pub open spec fn fragment_at(v1: Vertex, v2: Vertex, v3: Vertex, x: int, y: int) -> Fragment {
    let a = v1.transformed_position;
    let b = v2.transformed_position;
    let c = v3.transformed_position;
    let area = area_of(a, b, c);
    let (n1, n2, n3) = weights_at(a, b, c, x, y);
    let p = Pixel { x: x as i32, y: y as i32 };
    if area > 0 {
        shade_point(v1, v2, v3, p, n1, n2, n3, area)
    } else {
        shade_point(v1, v2, v3, p, -n1, -n2, -n3, -area)
    }
}

/// What pixel `(x, y)` adds to the fragments of a triangle: its fragment
/// where the triangle covers its centre, and nothing elsewhere.
pub open spec fn pixel_fragments(v1: Vertex, v2: Vertex, v3: Vertex, x: int, y: int) -> Seq<
    Fragment,
> {
    if covers(v1.transformed_position, v2.transformed_position, v3.transformed_position, x, y) {
        seq![fragment_at(v1, v2, v3, x, y)]
    } else {
        Seq::empty()
    }
}

/// The fragments of row `y` from column `lo` up to, but without, column
/// `hi`, from left to right.
pub open spec fn row_fragments(v1: Vertex, v2: Vertex, v3: Vertex, y: int, lo: int, hi: int) -> Seq<
    Fragment,
>
    decreases hi - lo,
{
    if hi <= lo {
        Seq::empty()
    } else {
        row_fragments(v1, v2, v3, y, lo, hi - 1) + pixel_fragments(v1, v2, v3, hi - 1, y)
    }
}

/// The fragments of the rows from `y_lo` up to, but without, `y_hi`, each
/// from column `x_lo` up to, but without, `x_hi`, row after row.
pub open spec fn rows_fragments(
    v1: Vertex,
    v2: Vertex,
    v3: Vertex,
    x_lo: int,
    x_hi: int,
    y_lo: int,
    y_hi: int,
) -> Seq<Fragment>
    decreases y_hi - y_lo,
{
    if y_hi <= y_lo {
        Seq::empty()
    } else {
        rows_fragments(v1, v2, v3, x_lo, x_hi, y_lo, y_hi - 1) + row_fragments(
            v1,
            v2,
            v3,
            y_hi - 1,
            x_lo,
            x_hi,
        )
    }
}

/// The fragments of the triangle `v1`, `v2`, `v3`: one for each pixel of
/// its bounding box whose centre it covers, row after row and from left to
/// right within a row.
pub open spec fn triangle_fragments(v1: Vertex, v2: Vertex, v3: Vertex) -> Seq<Fragment> {
    let a = v1.transformed_position;
    let b = v2.transformed_position;
    let c = v3.transformed_position;
    let (min_x, min_y, max_x, max_y) = bounding_box_spec(a, b, c);
    if area_of(a, b, c) == 0 {
        Seq::empty()
    } else {
        rows_fragments(v1, v2, v3, min_x, max_x + 1, min_y, max_y + 1)
    }
}

/// The outline of the triangle `v1`, `v2`, `v3`: its three sides, each drawn
/// as a line, one after the other.
pub open spec fn outline_fragments(v1: Vertex, v2: Vertex, v3: Vertex) -> Seq<Fragment> {
    line_fragments(v1, v2) + line_fragments(v2, v3) + line_fragments(v3, v1)
}

/// The fragments along the three sides of a triangle.
pub fn _triangle(v1: &Vertex, v2: &Vertex, v3: &Vertex) -> (fragments: Vec<Fragment>)
    ensures
        fragments@ == outline_fragments(*v1, *v2, *v3),
{
    let mut fragments: Vec<Fragment> = Vec::new();
    let mut side: Vec<Fragment> = line(v1, v2);
    fragments.append(&mut side);
    let mut side: Vec<Fragment> = line(v2, v3);
    fragments.append(&mut side);
    let mut side: Vec<Fragment> = line(v3, v1);
    fragments.append(&mut side);
    assert(fragments@ =~= outline_fragments(*v1, *v2, *v3));
    fragments
}

/// Whether the fraction `n / d` lies in the closed interval from zero to
/// one.
fn within_unit_interval(n: i128, d: i128) -> (r: bool)
    ensures
        r == in_unit_interval(n as int, d as int),
{
    (d > 0 && 0 <= n && n <= d) || (d < 0 && d <= n && n <= 0)
}

/// The fragments of a triangle: one for each pixel whose centre lies
/// inside the triangle or on one of its edges, row after row and from left
/// to right within a row. A triangle without area yields none.
pub fn triangle(v1: &Vertex, v2: &Vertex, v3: &Vertex) -> (fragments: Vec<Fragment>)
    ensures
        fragments@ == triangle_fragments(*v1, *v2, *v3),
{
    let mut fragments: Vec<Fragment> = Vec::new();
    let a: Vec3 = v1.transformed_position;
    let b: Vec3 = v2.transformed_position;
    let c: Vec3 = v3.transformed_position;
    let (min_x, min_y, max_x, max_y) = calculate_bounding_box(&a, &b, &c);
    let triangle_area: i128 = edge_function(&a, &b, &c);
    if triangle_area == 0 {
        return fragments;
    }
    let mut y: i32 = min_y;
    while y <= max_y
        invariant
            a == v1.transformed_position,
            b == v2.transformed_position,
            c == v3.transformed_position,
            triangle_area == area_of(a, b, c),
            triangle_area != 0,
            -0x2_0000_0000_0000_0000 <= triangle_area <= 0x2_0000_0000_0000_0000,
            -32768 <= min_x <= max_x <= 32768,
            -32768 <= min_y <= y <= max_y + 1 <= 32769,
            fragments@ == rows_fragments(
                *v1,
                *v2,
                *v3,
                min_x as int,
                max_x + 1,
                min_y as int,
                y as int,
            ),
        decreases max_y - y + 1,
    {
        let ghost above: Seq<Fragment> = fragments@;
        let mut x: i32 = min_x;
        while x <= max_x
            invariant
                a == v1.transformed_position,
                b == v2.transformed_position,
                c == v3.transformed_position,
                triangle_area == area_of(a, b, c),
                triangle_area != 0,
                -0x2_0000_0000_0000_0000 <= triangle_area <= 0x2_0000_0000_0000_0000,
                -32768 <= min_x <= x <= max_x + 1 <= 32769,
                -32768 <= y <= 32768,
                fragments@ == above + row_fragments(*v1, *v2, *v3, y as int, min_x as int, x as int),
            decreases max_x - x + 1,
        {
            let p: Pixel = Pixel { x, y };
            let (w1, w2, w3) = barycentric_coordinates(&p, &a, &b, &c);
            let ghost row: Seq<Fragment> = row_fragments(
                *v1,
                *v2,
                *v3,
                y as int,
                min_x as int,
                x as int,
            );
            if within_unit_interval(w1, triangle_area) && within_unit_interval(w2, triangle_area)
                && within_unit_interval(w3, triangle_area) {
                let w: Weights = if triangle_area > 0 {
                    Weights { w1, w2, w3, total: triangle_area }
                } else {
                    Weights { w1: -w1, w2: -w2, w3: -w3, total: -triangle_area }
                };
                let fragment: Fragment = interpolate_fragment(v1, v2, v3, p, &w);
                fragments.push(fragment);
                assert(fragments@ =~= above + (row + seq![fragment]));
            } else {
                assert(fragments@ =~= above + (row + Seq::<Fragment>::empty()));
            }
            x = x + 1;
        }
        y = y + 1;
    }
    fragments
}

/// A difference of a pixel centre and a raw coordinate, times a difference
/// of two raw coordinates, stays far inside what an `i128` holds.
proof fn lemma_edge_term_bound(p: int, q: int, r: int, s: int)
    requires
        -0x8000_8000_0000 <= p <= 0x8000_8000_0000,
        -0x8000_0000 <= q <= 0x7fff_ffff,
        -0x8000_0000 <= r <= 0x7fff_ffff,
        -0x8000_0000 <= s <= 0x7fff_ffff,
    ensures
        -0x1_0000_0000_0000_0000_0000 <= (p - q) * (r - s) <= 0x1_0000_0000_0000_0000_0000,
{
    assert(-0x1_0000_0000_0000_0000_0000 <= (p - q) * (r - s) <= 0x1_0000_0000_0000_0000_0000)
        by (nonlinear_arith)
        requires
            -0x8001_0000_0000 <= p - q <= 0x8001_0000_0000,
            -0xffff_ffff <= r - s <= 0xffff_ffff,
    ;
}

fn edge_at(ax: i32, ay: i32, bx: i32, by: i32, cx: i64, cy: i64) -> (e: i128)
    requires
        -0x8000_8000_0000 <= cx <= 0x8000_8000_0000,
        -0x8000_8000_0000 <= cy <= 0x8000_8000_0000,
    ensures
        e == edge_spec(ax as int, ay as int, bx as int, by as int, cx as int, cy as int),
{
    proof {
        lemma_edge_term_bound(cx as int, ax as int, by as int, ay as int);
        lemma_edge_term_bound(cy as int, ay as int, bx as int, ax as int);
    }
    (cx as i128 - ax as i128) * (by as i128 - ay as i128) - (cy as i128 - ay as i128) * (bx as i128
        - ax as i128)
}

/// The edge function of the directed edge from `a` to `b` at the point
/// `c`: twice the signed area of the triangle `a`, `b`, `c`.
pub fn edge_function(a: &Vec3, b: &Vec3, c: &Vec3) -> (e: i128)
    ensures
        e == area_of(*a, *b, *c),
        -0x2_0000_0000_0000_0000 <= e <= 0x2_0000_0000_0000_0000,
{
    let e: i128 = edge_at(a.x, a.y, b.x, b.y, c.x as i64, c.y as i64);
    proof {
        let p: int = c.x - a.x;
        let q: int = b.y - a.y;
        let r: int = c.y - a.y;
        let s: int = b.x - a.x;
        assert(-0x1_0000_0000_0000_0000 <= p * q <= 0x1_0000_0000_0000_0000) by (nonlinear_arith)
            requires
                -0xffff_ffff <= p <= 0xffff_ffff,
                -0xffff_ffff <= q <= 0xffff_ffff,
        ;
        assert(-0x1_0000_0000_0000_0000 <= r * s <= 0x1_0000_0000_0000_0000) by (nonlinear_arith)
            requires
                -0xffff_ffff <= r <= 0xffff_ffff,
                -0xffff_ffff <= s <= 0xffff_ffff,
        ;
    }
    e
}

/// The numerators of the barycentric weights of the centre of pixel `p` in
/// the triangle `a`, `b`, `c`. The weight of a corner is its numerator
/// divided by the doubled signed area of the triangle, which is what
/// `edge_function` returns for `a`, `b` and `c`; the three numerators sum
/// to it.
pub fn barycentric_coordinates(p: &Pixel, a: &Vec3, b: &Vec3, c: &Vec3) -> (w: (i128, i128, i128))
    ensures
        w.0 == weights_at(*a, *b, *c, p.x as int, p.y as int).0,
        w.1 == weights_at(*a, *b, *c, p.x as int, p.y as int).1,
        w.2 == weights_at(*a, *b, *c, p.x as int, p.y as int).2,
        w.0 + w.1 + w.2 == area_of(*a, *b, *c),
{
    let px: i64 = p.x as i64 * 65536 + 32768;
    let py: i64 = p.y as i64 * 65536 + 32768;
    let w1: i128 = edge_at(b.x, b.y, c.x, c.y, px, py);
    let w2: i128 = edge_at(c.x, c.y, a.x, a.y, px, py);
    let w3: i128 = edge_at(a.x, a.y, b.x, b.y, px, py);
    proof {
        lemma_weights_sum(*a, *b, *c, p.x as int, p.y as int);
    }
    (w1, w2, w3)
}

/// The three numerators of any point sum to the doubled area of the
/// triangle: barycentric weights sum to one.
pub proof fn lemma_weights_sum(a: Vec3, b: Vec3, c: Vec3, x: int, y: int)
    ensures
        weights_at(a, b, c, x, y).0 + weights_at(a, b, c, x, y).1 + weights_at(a, b, c, x, y).2
            == area_of(a, b, c),
{
    lemma_edge_sum(
        a.x as int,
        a.y as int,
        b.x as int,
        b.y as int,
        c.x as int,
        c.y as int,
        centre(x),
        centre(y),
    );
}

/// The edge functions of the three edges at any point sum to the doubled
/// area.
pub proof fn lemma_edge_sum(ax: int, ay: int, bx: int, by: int, cx: int, cy: int, px: int, py: int)
    ensures
        edge_spec(bx, by, cx, cy, px, py) + edge_spec(cx, cy, ax, ay, px, py) + edge_spec(
            ax,
            ay,
            bx,
            by,
            px,
            py,
        ) == edge_spec(ax, ay, bx, by, cx, cy),
{
    lemma_edge_expanded(bx, by, cx, cy, px, py);
    lemma_edge_expanded(cx, cy, ax, ay, px, py);
    lemma_edge_expanded(ax, ay, bx, by, px, py);
    lemma_edge_expanded(ax, ay, bx, by, cx, cy);
}

/// The edge function written as a sum of products of two coordinates.
proof fn lemma_edge_expanded(ax: int, ay: int, bx: int, by: int, cx: int, cy: int)
    ensures
        edge_spec(ax, ay, bx, by, cx, cy) == (ay * bx - ax * by) + (by * cx - bx * cy) + (cy * ax
            - cx * ay),
{
    assert((cx - ax) * (by - ay) - (cy - ay) * (bx - ax) == (ay * bx - ax * by) + (by * cx - bx
        * cy) + (cy * ax - cx * ay)) by (nonlinear_arith);
}

/// The pixels that the triangle `v1`, `v2`, `v3` can touch, as
/// `(min_x, min_y, max_x, max_y)`: the smallest coordinates rounded down
/// and the largest rounded up.
pub fn calculate_bounding_box(v1: &Vec3, v2: &Vec3, v3: &Vec3) -> (bb: (i32, i32, i32, i32))
    ensures
        bb.0 == bounding_box_spec(*v1, *v2, *v3).0,
        bb.1 == bounding_box_spec(*v1, *v2, *v3).1,
        bb.2 == bounding_box_spec(*v1, *v2, *v3).2,
        bb.3 == bounding_box_spec(*v1, *v2, *v3).3,
        -32768 <= bb.0 <= bb.2 <= 32768,
        -32768 <= bb.1 <= bb.3 <= 32768,
{
    let min_x: i32 = pixel_floor(smallest(v1.x, v2.x, v3.x));
    let min_y: i32 = pixel_floor(smallest(v1.y, v2.y, v3.y));
    let max_x: i32 = pixel_ceil(largest(v1.x, v2.x, v3.x));
    let max_y: i32 = pixel_ceil(largest(v1.y, v2.y, v3.y));
    (min_x, min_y, max_x, max_y)
}

fn smallest(a: i32, b: i32, c: i32) -> (m: i32)
    ensures
        m == min3(a as int, b as int, c as int),
{
    if a <= b && a <= c {
        a
    } else if b <= c {
        b
    } else {
        c
    }
}

fn largest(a: i32, b: i32, c: i32) -> (m: i32)
    ensures
        m == max3(a as int, b as int, c as int),
{
    if a >= b && a >= c {
        a
    } else if b >= c {
        b
    } else {
        c
    }
}

} // verus!
