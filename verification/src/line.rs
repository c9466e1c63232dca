//! Lines between two vertices.
//!
//! A line runs from the pixel that holds its first end to the pixel that
//! holds its second end. It takes as many steps as the longer of its two
//! extents has pixels, and after each step it stands at the pixel nearest to
//! the ideal line.

use vstd::prelude::*;
use crate::fixed::{div_floor, pixel_floor, pixel_floor_spec};
use crate::fragment::{Fragment, Pixel};
use crate::interpolate::{interpolate_fragment, shade_point, Weights};
use crate::vertex::Vertex;

verus! {

/// The absolute value of `v`.
pub open spec fn abs_spec(v: int) -> int {
    if v < 0 {
        -v
    } else {
        v
    }
}

/// The quotient `n / d` rounded to the nearest integer, halves upwards.
pub open spec fn round_div(n: int, d: int) -> int {
    (2 * n + d) / (2 * d)
}

/// The column of the pixel that holds the vertex.
pub open spec fn column_of(v: Vertex) -> int {
    pixel_floor_spec(v.transformed_position.x as int)
}

/// The row of the pixel that holds the vertex.
pub open spec fn row_of(v: Vertex) -> int {
    pixel_floor_spec(v.transformed_position.y as int)
}

/// The number of steps from `a` to `b`: the larger of the two distances, in
/// columns and in rows.
pub open spec fn line_steps(a: Vertex, b: Vertex) -> int {
    let dx = abs_spec(column_of(b) - column_of(a));
    let dy = abs_spec(row_of(b) - row_of(a));
    if dx >= dy {
        dx
    } else {
        dy
    }
}

/// Where a line that covers the distance `d` in `n` steps stands after `k`
/// of them, counted from its start.
pub open spec fn line_offset(d: int, n: int, k: int) -> int {
    if n == 0 {
        0
    } else {
        round_div(k * d, n)
    }
}

/// The pixel of the line from `a` to `b` after `k` steps.
pub open spec fn line_pixel(a: Vertex, b: Vertex, k: int) -> Pixel {
    let n = line_steps(a, b);
    Pixel {
        x: (column_of(a) + line_offset(column_of(b) - column_of(a), n, k)) as i32,
        y: (row_of(a) + line_offset(row_of(b) - row_of(a), n, k)) as i32,
    }
}

/// The fragment of the line from `a` to `b` after `k` steps: the attributes
/// of `a` and `b`, weighted by the steps that remain and the steps taken.
pub open spec fn line_fragment(a: Vertex, b: Vertex, k: int) -> Fragment {
    let n = line_steps(a, b);
    if n == 0 {
        shade_point(a, b, b, line_pixel(a, b, k), 1, 0, 0, 1)
    } else {
        shade_point(a, b, b, line_pixel(a, b, k), n - k, k, 0, n)
    }
}

/// The fragments of the line from `a` to `b`, from `a` onwards: one for the
/// start and one after each step.
pub open spec fn line_fragments(a: Vertex, b: Vertex) -> Seq<Fragment> {
    Seq::new((line_steps(a, b) + 1) as nat, |k: int| line_fragment(a, b, k))
}

/// After `k` of `n` steps a line has covered a part of its distance `d`,
/// and never more than the whole.
pub proof fn lemma_offset_between(d: int, n: int, k: int)
    requires
        0 <= k <= n,
        abs_spec(d) <= n,
    ensures
        d >= 0 ==> 0 <= line_offset(d, n, k) <= d,
        d <= 0 ==> d <= line_offset(d, n, k) <= 0,
        line_offset(d, n, 0) == 0,
        line_offset(d, n, n) == d,
{
    if n > 0 {
        let m = 2 * n;
        assert(0 * d == 0);
        vstd::arithmetic::div_mod::lemma_fundamental_div_mod_converse(n, m, 0, n);
        assert(2 * (0 * d) + n == n);
        assert(2 * (n * d) + n == m * d + n) by (nonlinear_arith)
            requires
                m == 2 * n,
        ;
        vstd::arithmetic::div_mod::lemma_fundamental_div_mod_converse(m * d + n, m, d, n);
        let num = 2 * (k * d) + n;
        let q = num / m;
        vstd::arithmetic::div_mod::lemma_fundamental_div_mod(num, m);
        vstd::arithmetic::div_mod::lemma_mod_bound(num, m);
        if d >= 0 {
            assert(0 <= k * d <= n * d) by (nonlinear_arith)
                requires
                    0 <= k <= n,
                    d >= 0,
            ;
            assert(0 <= q <= d) by (nonlinear_arith)
                requires
                    num == m * q + num % m,
                    0 <= num % m < m,
                    n <= num <= m * d + n,
                    m == 2 * n,
                    n > 0,
                    d >= 0,
            ;
        }
        if d <= 0 {
            assert(n * d <= k * d <= 0) by (nonlinear_arith)
                requires
                    0 <= k <= n,
                    d <= 0,
            ;
            assert(d <= q <= 0) by (nonlinear_arith)
                requires
                    num == m * q + num % m,
                    0 <= num % m < m,
                    m * d + n <= num <= n,
                    m == 2 * n,
                    n > 0,
                    d <= 0,
            ;
        }
    }
}

/// One step moves a line by at most one pixel.
pub proof fn lemma_offset_step(d: int, n: int, k: int)
    requires
        0 <= k < n,
        abs_spec(d) <= n,
    ensures
        -1 <= line_offset(d, n, k + 1) - line_offset(d, n, k) <= 1,
{
    let m = 2 * n;
    let n0 = 2 * (k * d) + n;
    let n1 = 2 * ((k + 1) * d) + n;
    assert(n1 == n0 + 2 * d) by (nonlinear_arith)
        requires
            n0 == 2 * (k * d) + n,
            n1 == 2 * ((k + 1) * d) + n,
    ;
    let q0 = n0 / m;
    let q1 = n1 / m;
    vstd::arithmetic::div_mod::lemma_fundamental_div_mod(n0, m);
    vstd::arithmetic::div_mod::lemma_mod_bound(n0, m);
    vstd::arithmetic::div_mod::lemma_fundamental_div_mod(n1, m);
    vstd::arithmetic::div_mod::lemma_mod_bound(n1, m);
    assert(-1 <= q1 - q0 <= 1) by (nonlinear_arith)
        requires
            n0 == m * q0 + n0 % m,
            n1 == m * q1 + n1 % m,
            0 <= n0 % m < m,
            0 <= n1 % m < m,
            n1 == n0 + 2 * d,
            -m <= 2 * d <= m,
            m > 0,
    ;
}

/// A line starts at the pixel of its first end, ends at the pixel of its
/// second end, and moves by at most one column and one row in each step.
pub proof fn lemma_line_connected(a: Vertex, b: Vertex, k: int)
    requires
        0 <= k < line_steps(a, b),
    ensures
        line_pixel(a, b, 0).x == column_of(a),
        line_pixel(a, b, 0).y == row_of(a),
        line_pixel(a, b, line_steps(a, b)).x == column_of(b),
        line_pixel(a, b, line_steps(a, b)).y == row_of(b),
        -1 <= line_pixel(a, b, k + 1).x - line_pixel(a, b, k).x <= 1,
        -1 <= line_pixel(a, b, k + 1).y - line_pixel(a, b, k).y <= 1,
{
    let n = line_steps(a, b);
    let dx = column_of(b) - column_of(a);
    let dy = row_of(b) - row_of(a);
    lemma_offset_between(dx, n, 0);
    lemma_offset_between(dy, n, 0);
    lemma_offset_between(dx, n, n);
    lemma_offset_between(dy, n, n);
    lemma_offset_between(dx, n, k);
    lemma_offset_between(dy, n, k);
    lemma_offset_between(dx, n, k + 1);
    lemma_offset_between(dy, n, k + 1);
    lemma_offset_step(dx, n, k);
    lemma_offset_step(dy, n, k);
}

fn offset(d: i32, n: i32, k: i32) -> (r: i32)
    requires
        0 <= k <= n <= 65535,
        abs_spec(d as int) <= n,
    ensures
        r == line_offset(d as int, n as int, k as int),
        d >= 0 ==> 0 <= r <= d,
        d <= 0 ==> d <= r <= 0,
{
    proof {
        lemma_offset_between(d as int, n as int, k as int);
    }
    if n == 0 {
        0
    } else {
        assert(-65535 * 65535 <= k * d <= 65535 * 65535) by (nonlinear_arith)
            requires
                0 <= k <= 65535,
                -65535 <= d <= 65535,
        ;
        let num: i64 = 2 * (k as i64 * d as i64) + n as i64;
        let q: i128 = div_floor(num as i128, 2 * n as i128);
        q as i32
    }
}

/// The fragments of the line from `a` to `b`, from `a` onwards.
pub fn line(a: &Vertex, b: &Vertex) -> (fragments: Vec<Fragment>)
    ensures
        fragments@ == line_fragments(*a, *b),
{
    let x0: i32 = pixel_floor(a.transformed_position.x);
    let y0: i32 = pixel_floor(a.transformed_position.y);
    let x1: i32 = pixel_floor(b.transformed_position.x);
    let y1: i32 = pixel_floor(b.transformed_position.y);
    let dx: i32 = x1 - x0;
    let dy: i32 = y1 - y0;
    let ax: i32 = if dx < 0 {
        -dx
    } else {
        dx
    };
    let ay: i32 = if dy < 0 {
        -dy
    } else {
        dy
    };
    let n: i32 = if ax >= ay {
        ax
    } else {
        ay
    };
    let mut fragments: Vec<Fragment> = Vec::new();
    let mut k: i32 = 0;
    while k <= n
        invariant
            0 <= k <= n + 1,
            n == line_steps(*a, *b),
            0 <= n <= 65535,
            x0 == column_of(*a),
            y0 == row_of(*a),
            dx == column_of(*b) - column_of(*a),
            dy == row_of(*b) - row_of(*a),
            -32768 <= x0 <= 32767,
            -32768 <= y0 <= 32767,
            -32768 <= x0 + dx <= 32767,
            -32768 <= y0 + dy <= 32767,
            fragments@.len() == k,
            forall|j: int| 0 <= j < k ==> fragments@[j] == line_fragment(*a, *b, j),
        decreases n + 1 - k,
    {
        let p: Pixel = Pixel { x: x0 + offset(dx, n, k), y: y0 + offset(dy, n, k) };
        let w: Weights = if n == 0 {
            Weights { w1: 1, w2: 0, w3: 0, total: 1 }
        } else {
            Weights { w1: (n - k) as i128, w2: k as i128, w3: 0, total: n as i128 }
        };
        let fragment: Fragment = interpolate_fragment(a, b, b, p, &w);
        assert(p == line_pixel(*a, *b, k as int));
        fragments.push(fragment);
        k = k + 1;
    }
    assert(fragments@ =~= line_fragments(*a, *b));
    fragments
}

} // verus!
