//! What the rasterizer covers: each pixel whose centre a triangle covers
//! gets exactly one fragment, and no other pixel gets any.

use vstd::prelude::*;
use crate::fragment::Fragment;
use crate::interpolate::{lemma_weighted_sum_between, max3, min3};
use crate::triangle::{
    area_of, bounding_box_spec, centre, covers, edge_spec, fragment_at, in_bounding_box,
    lemma_weights_sum, pixel_fragments, row_fragments, rows_fragments, triangle_fragments,
    weights_at,
};
use crate::vector::Vec3;
use crate::vertex::Vertex;

verus! {

/// The number of fragments in `s` that lie at pixel `(x, y)`.
pub open spec fn count_at(s: Seq<Fragment>, x: int, y: int) -> nat
    decreases s.len(),
{
    if s.len() == 0 {
        0
    } else {
        count_at(s.drop_last(), x, y) + if s.last().position.x == x && s.last().position.y == y {
            1nat
        } else {
            0nat
        }
    }
}

/// Counting in a concatenation is counting in both parts.
pub proof fn lemma_count_concat(s: Seq<Fragment>, t: Seq<Fragment>, x: int, y: int)
    ensures
        count_at(s + t, x, y) == count_at(s, x, y) + count_at(t, x, y),
    decreases t.len(),
{
    if t.len() == 0 {
        assert(s + t =~= s);
    } else {
        assert((s + t).drop_last() =~= s + t.drop_last());
        lemma_count_concat(s, t.drop_last(), x, y);
    }
}

/// The edge function at `p`, written with the corners seen from `p`.
proof fn lemma_edge_from_point(ax: int, ay: int, bx: int, by: int, px: int, py: int)
    ensures
        edge_spec(ax, ay, bx, by, px, py) == (ay - py) * (bx - px) - (ax - px) * (by - py),
{
    assert((px - ax) * (by - ay) - (py - ay) * (bx - ax) == (ay - py) * (bx - px) - (ax - px) * (by
        - py)) by (nonlinear_arith);
}

/// Seen from any point, the three corners weighted by the edge functions of
/// the opposite edges cancel.
proof fn lemma_weighted_corners_cancel(ax: int, ay: int, bx: int, by: int, cx: int, cy: int)
    ensures
        (by * cx - bx * cy) * ax + (cy * ax - cx * ay) * bx + (ay * bx - ax * by) * cx == 0,
        (by * cx - bx * cy) * ay + (cy * ax - cx * ay) * by + (ay * bx - ax * by) * cy == 0,
{
    assert((by * cx - bx * cy) * ax + (cy * ax - cx * ay) * bx + (ay * bx - ax * by) * cx == 0)
        by (nonlinear_arith);
    assert((by * cx - bx * cy) * ay + (cy * ax - cx * ay) * by + (ay * bx - ax * by) * cy == 0)
        by (nonlinear_arith);
}

/// Moving the origin by `p` adds `p` times the sum of the weights.
proof fn lemma_shift_weighted_sum(n1: int, n2: int, n3: int, a: int, b: int, c: int, p: int)
    ensures
        n1 * a + n2 * b + n3 * c == (n1 + n2 + n3) * p + (n1 * (a - p) + n2 * (b - p) + n3 * (c
            - p)),
{
    assert(n1 * a + n2 * b + n3 * c == (n1 + n2 + n3) * p + (n1 * (a - p) + n2 * (b - p) + n3 * (c
        - p))) by (nonlinear_arith);
}

/// The edge function at `p`, times a coordinate of the corner opposite the
/// edge, summed over the three edges, is the doubled area times that
/// coordinate of `p`: a point is the weighted sum of the corners.
pub proof fn lemma_point_is_weighted_sum(
    ax: int,
    ay: int,
    bx: int,
    by: int,
    cx: int,
    cy: int,
    px: int,
    py: int,
)
    ensures
        edge_spec(bx, by, cx, cy, px, py) * ax + edge_spec(cx, cy, ax, ay, px, py) * bx
            + edge_spec(ax, ay, bx, by, px, py) * cx == edge_spec(ax, ay, bx, by, cx, cy) * px,
        edge_spec(bx, by, cx, cy, px, py) * ay + edge_spec(cx, cy, ax, ay, px, py) * by
            + edge_spec(ax, ay, bx, by, px, py) * cy == edge_spec(ax, ay, bx, by, cx, cy) * py,
{
    let n1 = edge_spec(bx, by, cx, cy, px, py);
    let n2 = edge_spec(cx, cy, ax, ay, px, py);
    let n3 = edge_spec(ax, ay, bx, by, px, py);
    lemma_edge_from_point(bx, by, cx, cy, px, py);
    lemma_edge_from_point(cx, cy, ax, ay, px, py);
    lemma_edge_from_point(ax, ay, bx, by, px, py);
    lemma_weighted_corners_cancel(ax - px, ay - py, bx - px, by - py, cx - px, cy - py);
    lemma_shift_weighted_sum(n1, n2, n3, ax, bx, cx, px);
    lemma_shift_weighted_sum(n1, n2, n3, ay, by, cy, py);
    crate::triangle::lemma_edge_sum(ax, ay, bx, by, cx, cy, px, py);
}

/// A coordinate that is a weighted sum of three others, with weights that
/// are not negative, lies between the smallest and the largest of them.
proof fn lemma_between_corners(n1: int, n2: int, n3: int, total: int, a: int, b: int, c: int, p: int)
    requires
        n1 >= 0,
        n2 >= 0,
        n3 >= 0,
        n1 + n2 + n3 == total,
        total > 0,
        n1 * a + n2 * b + n3 * c == total * p,
    ensures
        min3(a, b, c) <= p <= max3(a, b, c),
{
    lemma_weighted_sum_between(a, b, c, n1, n2, n3, total);
    let lo = min3(a, b, c);
    let hi = max3(a, b, c);
    let s = a * n1 + b * n2 + c * n3;
    assert(s == n1 * a + n2 * b + n3 * c) by (nonlinear_arith)
        requires
            s == a * n1 + b * n2 + c * n3,
    ;
    assert(lo <= p) by (nonlinear_arith)
        requires
            lo * total <= total * p,
            total > 0,
    ;
    assert(p <= hi) by (nonlinear_arith)
        requires
            total * p <= hi * total,
            total > 0,
    ;
}

/// A pixel whose centre a triangle covers lies in the triangle's bounding
/// box.
pub proof fn lemma_covered_in_bounding_box(a: Vec3, b: Vec3, c: Vec3, x: int, y: int)
    requires
        covers(a, b, c, x, y),
    ensures
        bounding_box_spec(a, b, c).0 <= x <= bounding_box_spec(a, b, c).2,
        bounding_box_spec(a, b, c).1 <= y <= bounding_box_spec(a, b, c).3,
{
    let area = area_of(a, b, c);
    let (n1, n2, n3) = weights_at(a, b, c, x, y);
    let px = centre(x);
    let py = centre(y);
    lemma_weights_sum(a, b, c, x, y);
    lemma_point_is_weighted_sum(
        a.x as int,
        a.y as int,
        b.x as int,
        b.y as int,
        c.x as int,
        c.y as int,
        px,
        py,
    );
    if area > 0 {
        assert(area * px == px * area) by (nonlinear_arith);
        assert(area * py == py * area) by (nonlinear_arith);
        lemma_between_corners(n1, n2, n3, area, a.x as int, b.x as int, c.x as int, px);
        lemma_between_corners(n1, n2, n3, area, a.y as int, b.y as int, c.y as int, py);
    } else {
        lemma_negate_weighted_sum(n1, n2, n3, area, a.x as int, b.x as int, c.x as int, px);
        lemma_negate_weighted_sum(n1, n2, n3, area, a.y as int, b.y as int, c.y as int, py);
        lemma_between_corners(-n1, -n2, -n3, -area, a.x as int, b.x as int, c.x as int, px);
        lemma_between_corners(-n1, -n2, -n3, -area, a.y as int, b.y as int, c.y as int, py);
    }
}

proof fn lemma_negate_weighted_sum(
    n1: int,
    n2: int,
    n3: int,
    total: int,
    a: int,
    b: int,
    c: int,
    p: int,
)
    requires
        n1 * a + n2 * b + n3 * c == total * p,
    ensures
        (-n1) * a + (-n2) * b + (-n3) * c == (-total) * p,
{
    assert((-n1) * a == -(n1 * a)) by (nonlinear_arith);
    assert((-n2) * b == -(n2 * b)) by (nonlinear_arith);
    assert((-n3) * c == -(n3 * c)) by (nonlinear_arith);
    assert((-total) * p == -(total * p)) by (nonlinear_arith);
}

/// In a stretch of one row, a pixel has one fragment if it lies in the
/// stretch and the triangle covers its centre, and none otherwise.
pub proof fn lemma_count_in_row(
    v1: Vertex,
    v2: Vertex,
    v3: Vertex,
    row: int,
    lo: int,
    hi: int,
    x: int,
    y: int,
)
    requires
        i32::MIN <= lo,
        hi <= i32::MAX + 1,
        i32::MIN <= row <= i32::MAX,
    ensures
        count_at(row_fragments(v1, v2, v3, row, lo, hi), x, y) == if y == row && lo <= x < hi
            && covers(
            v1.transformed_position,
            v2.transformed_position,
            v3.transformed_position,
            x,
            y,
        ) {
            1nat
        } else {
            0nat
        },
    decreases hi - lo,
{
    if hi > lo {
        let before = row_fragments(v1, v2, v3, row, lo, hi - 1);
        let here = pixel_fragments(v1, v2, v3, hi - 1, row);
        lemma_count_in_row(v1, v2, v3, row, lo, hi - 1, x, y);
        lemma_count_concat(before, here, x, y);
        if covers(
            v1.transformed_position,
            v2.transformed_position,
            v3.transformed_position,
            hi - 1,
            row,
        ) {
            let f = fragment_at(v1, v2, v3, hi - 1, row);
            assert(here == seq![f]);
            assert(here.len() == 1);
            assert(here.last() == f);
            assert(f.position.x == hi - 1);
            assert(f.position.y == row);
            assert(here.drop_last().len() == 0);
            assert(count_at(here.drop_last(), x, y) == 0);
            assert(count_at(here, x, y) == if hi - 1 == x && row == y {
                1nat
            } else {
                0nat
            });
        } else {
            assert(here.len() == 0);
            assert(count_at(here, x, y) == 0);
        }
    }
}

/// In a block of rows, a pixel has one fragment if it lies in the block and
/// the triangle covers its centre, and none otherwise.
pub proof fn lemma_count_in_rows(
    v1: Vertex,
    v2: Vertex,
    v3: Vertex,
    x_lo: int,
    x_hi: int,
    y_lo: int,
    y_hi: int,
    x: int,
    y: int,
)
    requires
        i32::MIN <= x_lo,
        x_hi <= i32::MAX + 1,
        i32::MIN <= y_lo,
        y_hi <= i32::MAX + 1,
    ensures
        count_at(rows_fragments(v1, v2, v3, x_lo, x_hi, y_lo, y_hi), x, y) == if y_lo <= y < y_hi
            && x_lo <= x < x_hi && covers(
            v1.transformed_position,
            v2.transformed_position,
            v3.transformed_position,
            x,
            y,
        ) {
            1nat
        } else {
            0nat
        },
    decreases y_hi - y_lo,
{
    if y_hi > y_lo {
        let above = rows_fragments(v1, v2, v3, x_lo, x_hi, y_lo, y_hi - 1);
        let last = row_fragments(v1, v2, v3, y_hi - 1, x_lo, x_hi);
        lemma_count_in_rows(v1, v2, v3, x_lo, x_hi, y_lo, y_hi - 1, x, y);
        lemma_count_in_row(v1, v2, v3, y_hi - 1, x_lo, x_hi, x, y);
        lemma_count_concat(above, last, x, y);
    }
}

/// The rasterizer covers exactly the pixels whose centres lie in the
/// triangle: a pixel whose centre has all three barycentric weights between
/// zero and one gets exactly one fragment, and every other pixel gets none.
pub proof fn lemma_triangle_covers_exactly(v1: Vertex, v2: Vertex, v3: Vertex, x: int, y: int)
    ensures
        count_at(triangle_fragments(v1, v2, v3), x, y) == if covers(
            v1.transformed_position,
            v2.transformed_position,
            v3.transformed_position,
            x,
            y,
        ) {
            1nat
        } else {
            0nat
        },
{
    let a = v1.transformed_position;
    let b = v2.transformed_position;
    let c = v3.transformed_position;
    let (min_x, min_y, max_x, max_y) = bounding_box_spec(a, b, c);
    if area_of(a, b, c) != 0 {
        lemma_count_in_rows(v1, v2, v3, min_x, max_x + 1, min_y, max_y + 1, x, y);
        if covers(a, b, c, x, y) {
            lemma_covered_in_bounding_box(a, b, c, x, y);
        }
    }
}

/// Every fragment of a triangle lies at a pixel whose centre the triangle
/// covers, and carries the attributes interpolated at that pixel.
pub proof fn lemma_triangle_fragments_interpolated(v1: Vertex, v2: Vertex, v3: Vertex, i: int)
    requires
        0 <= i < triangle_fragments(v1, v2, v3).len(),
    ensures
        ({
            let f = triangle_fragments(v1, v2, v3)[i];
            &&& covers(
                v1.transformed_position,
                v2.transformed_position,
                v3.transformed_position,
                f.position.x as int,
                f.position.y as int,
            )
            &&& f == fragment_at(v1, v2, v3, f.position.x as int, f.position.y as int)
        }),
{
    let a = v1.transformed_position;
    let b = v2.transformed_position;
    let c = v3.transformed_position;
    let (min_x, min_y, max_x, max_y) = bounding_box_spec(a, b, c);
    lemma_rows_interpolated(v1, v2, v3, min_x, max_x + 1, min_y, max_y + 1, i);
}

/// Every fragment of a triangle lies in the triangle's bounding box.
pub proof fn lemma_fragment_in_bounding_box(v1: Vertex, v2: Vertex, v3: Vertex, i: int)
    requires
        0 <= i < triangle_fragments(v1, v2, v3).len(),
    ensures
        in_bounding_box(
            v1.transformed_position,
            v2.transformed_position,
            v3.transformed_position,
            triangle_fragments(v1, v2, v3)[i].position.x as int,
            triangle_fragments(v1, v2, v3)[i].position.y as int,
        ),
{
    let f = triangle_fragments(v1, v2, v3)[i];
    lemma_triangle_fragments_interpolated(v1, v2, v3, i);
    lemma_covered_in_bounding_box(
        v1.transformed_position,
        v2.transformed_position,
        v3.transformed_position,
        f.position.x as int,
        f.position.y as int,
    );
}

proof fn lemma_row_interpolated(
    v1: Vertex,
    v2: Vertex,
    v3: Vertex,
    row: int,
    lo: int,
    hi: int,
    i: int,
)
    requires
        i32::MIN <= lo,
        hi <= i32::MAX + 1,
        i32::MIN <= row <= i32::MAX,
        0 <= i < row_fragments(v1, v2, v3, row, lo, hi).len(),
    ensures
        ({
            let f = row_fragments(v1, v2, v3, row, lo, hi)[i];
            &&& covers(
                v1.transformed_position,
                v2.transformed_position,
                v3.transformed_position,
                f.position.x as int,
                f.position.y as int,
            )
            &&& f == fragment_at(v1, v2, v3, f.position.x as int, f.position.y as int)
        }),
    decreases hi - lo,
{
    if hi > lo {
        let before = row_fragments(v1, v2, v3, row, lo, hi - 1);
        if i < before.len() {
            lemma_row_interpolated(v1, v2, v3, row, lo, hi - 1, i);
        }
    }
}

proof fn lemma_rows_interpolated(
    v1: Vertex,
    v2: Vertex,
    v3: Vertex,
    x_lo: int,
    x_hi: int,
    y_lo: int,
    y_hi: int,
    i: int,
)
    requires
        i32::MIN <= x_lo,
        x_hi <= i32::MAX + 1,
        i32::MIN <= y_lo,
        y_hi <= i32::MAX + 1,
        0 <= i < rows_fragments(v1, v2, v3, x_lo, x_hi, y_lo, y_hi).len(),
    ensures
        ({
            let f = rows_fragments(v1, v2, v3, x_lo, x_hi, y_lo, y_hi)[i];
            &&& covers(
                v1.transformed_position,
                v2.transformed_position,
                v3.transformed_position,
                f.position.x as int,
                f.position.y as int,
            )
            &&& f == fragment_at(v1, v2, v3, f.position.x as int, f.position.y as int)
        }),
    decreases y_hi - y_lo,
{
    if y_hi > y_lo {
        let above = rows_fragments(v1, v2, v3, x_lo, x_hi, y_lo, y_hi - 1);
        if i < above.len() {
            lemma_rows_interpolated(v1, v2, v3, x_lo, x_hi, y_lo, y_hi - 1, i);
        } else {
            lemma_row_interpolated(v1, v2, v3, y_hi - 1, x_lo, x_hi, i - above.len());
        }
    }
}

} // verus!
