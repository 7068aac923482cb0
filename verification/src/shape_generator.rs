//! Procedural shape generators.
//!
//! Each generator is a pure function from parameters to a vertex-position
//! stream and a triangle-index stream. Every contract pins the whole output:
//! the stream lengths, every index value, and the bit pattern of every
//! coordinate as a composition of the named scalar operations. Two shared
//! guarantees hold for every generator: the index stream's length is a
//! multiple of three, and every emitted index is below the vertex count.

use vstd::prelude::*;

use crate::fp::{
    add_bits, cos_bits, div_bits, f32_of_u32, lt_bits, mul_bits, neg_bits, real_add, real_bits,
    real_cos, real_div, real_lt, real_mul, real_neg, real_of_u32, real_pi, real_sin, real_sub,
    sin_bits, sub_bits, Real, PI_BITS,
};

verus! {

pub struct ShapeGenerator {}

/// Bit pattern of half the value with bit pattern `b`: the binary32 quotient
/// by two.
pub open spec fn half_bits(b: u32) -> u32 {
    div_bits(b, f32_of_u32(2))
}

/// The `k`-th triangular number.
pub open spec fn tri(k: nat) -> nat
    decreases k,
{
    if k == 0 {
        0
    } else {
        k + tri((k - 1) as nat)
    }
}

/// Triangular numbers are monotonic.
pub proof fn lemma_tri_mono(j: nat, k: nat)
    requires
        j <= k,
    ensures
        tri(j) <= tri(k),
    decreases k - j,
{
    if j < k {
        lemma_tri_mono(j, (k - 1) as nat);
    }
}

/// Closed form of the triangular numbers.
pub proof fn lemma_tri_closed(k: nat)
    ensures
        2 * tri(k) == k * (k + 1),
    decreases k,
{
    if k > 0 {
        let km1 = (k - 1) as nat;
        lemma_tri_closed(km1);
        assert(tri(k) == k + tri(km1));
        assert(2 * tri(k) == 2 * k + km1 * (km1 + 1));
        assert(2 * k + km1 * (km1 + 1) == k * (k + 1)) by (nonlinear_arith)
            requires
                km1 == k - 1,
                k >= 1,
        ;
    } else {
        assert(tri(k) == 0);
        assert(k * (k + 1) == 0) by (nonlinear_arith)
            requires
                k == 0,
        ;
    }
}

/// Every slot of a row before row `m` lies inside the first `tri(m)` slots.
pub proof fn lemma_tri_slot_all(m: nat)
    ensures
        forall|rr: int, v: int|
            0 <= rr < m && 0 <= v <= rr ==> 3 * #[trigger] grid_slot(rr, v) + 2 < 3 * tri(m),
{
    assert forall|rr: int, v: int| 0 <= rr < m && 0 <= v <= rr implies 3 * #[trigger] grid_slot(
        rr,
        v,
    ) + 2 < 3 * tri(m) by {
        lemma_tri_mono((rr + 1) as nat, m);
        assert(tri((rr + 1) as nat) == rr + 1 + tri(rr as nat));
    }
}

/// A triangular number is at least its argument.
pub proof fn lemma_tri_ge(k: nat)
    ensures
        tri(k) >= k,
    decreases k,
{
    if k > 0 {
        lemma_tri_ge((k - 1) as nat);
    }
}

/// Position of the grid vertex `v` of row `r` in the vertex stream.
pub open spec fn grid_slot(r: int, v: int) -> int {
    tri(r as nat) as int + v
}

/// Bit pattern of the grid's per-triangle edge width for a total width `w`
/// and `rows` subdivisions.
pub open spec fn grid_tw(w: u32, rows: u32) -> u32 {
    div_bits(w, f32_of_u32(rows))
}

/// Bit pattern of the y coordinate of grid row `r`: the top edge `h / 2`
/// lowered by `r` triangle heights.
pub open spec fn grid_row_y(h: u32, rows: u32, r: int) -> u32 {
    sub_bits(half_bits(h), mul_bits(f32_of_u32(r as u32), grid_tw(h, rows)))
}

/// Bit pattern of the x coordinate where grid row `r` starts: the row is
/// horizontally centered.
pub open spec fn grid_row_x0(w: u32, rows: u32, r: int) -> u32 {
    div_bits(mul_bits(neg_bits(grid_tw(w, rows)), f32_of_u32(r as u32)), f32_of_u32(2))
}

/// Bit pattern of the x coordinate of grid vertex `v` of row `r`.
pub open spec fn grid_x(w: u32, rows: u32, r: int, v: int) -> u32 {
    add_bits(grid_row_x0(w, rows, r), mul_bits(f32_of_u32(v as u32), grid_tw(w, rows)))
}

/// Three stream slots per vertex; serves as the quantifier anchor of the
/// per-vertex contract clauses.
pub open spec fn times3(p: int) -> int {
    3 * p
}

/// Six stream slots per stitched pair; serves as the quantifier anchor of the
/// per-segment contract clauses.
pub open spec fn times6(p: int) -> int {
    6 * p
}

/// Bit pattern of the angle of perimeter vertex `p` out of `n` on the circle:
/// the full turn split evenly, counter-clockwise from angle zero.
pub open spec fn circle_angle(p: int, n: u32) -> u32 {
    div_bits(mul_bits(mul_bits(f32_of_u32(p as u32), f32_of_u32(2)), PI_BITS), f32_of_u32(n))
}

/// Bit pattern of the angle of spiral sample `s` out of `n`: the samples
/// linearly span `windings` full turns.
pub open spec fn spiral_angle(s: int, n: u32, windings: u32) -> u32 {
    div_bits(
        mul_bits(mul_bits(mul_bits(f32_of_u32(s as u32), windings), f32_of_u32(2)), PI_BITS),
        f32_of_u32(n),
    )
}

/// Bit pattern of the outer radius at spiral sample `s`: interpolates
/// linearly from the inner radius by `delta = outer - inner` across the
/// samples.
pub open spec fn spiral_sample_rad(s: int, n: u32, inner: u32, delta: u32) -> u32 {
    add_bits(inner, div_bits(mul_bits(delta, f32_of_u32(s as u32)), f32_of_u32(n)))
}

/// Bit pattern of the y coordinate of sine curve sample `p`: the sine of the
/// sample's angle `p * rate`.
pub open spec fn sine_y(p: int, rate: u32) -> u32 {
    sin_bits(mul_bits(f32_of_u32(p as u32), rate))
}

/// Bit pattern of the x coordinate of sine curve sample `p` out of `n`: the
/// samples span the width from `-w / 2` upward.
pub open spec fn sine_x(p: int, n: u32, w: u32) -> u32 {
    add_bits(
        neg_bits(half_bits(w)),
        div_bits(mul_bits(w, f32_of_u32(p as u32)), sub_bits(f32_of_u32(n), f32_of_u32(1))),
    )
}

/// Bit pattern of the lowest y coordinate among sine curve samples
/// `0 ..= p`, folded left with the binary32 `<`.
pub open spec fn sine_lowest(p: int, rate: u32) -> u32
    decreases p,
{
    if p <= 0 {
        sine_y(0, rate)
    } else if lt_bits(sine_y(p, rate), sine_lowest(p - 1, rate)) {
        sine_y(p, rate)
    } else {
        sine_lowest(p - 1, rate)
    }
}

impl ShapeGenerator {
    /// A triangular grid with `n_triangle_rows` subdivisions per edge,
    /// horizontally centered, y decreasing linearly from `height / 2` across
    /// the rows. Row `r` holds `r + 1` vertices; each vertex of a non-final
    /// row spawns one upward triangle against the row below. With zero rows
    /// the result is the degenerate single top vertex and no triangles.
    pub fn generate_n_force(n_triangle_rows: usize, width: Real, height: Real) -> (r: (
        Vec<Real>,
        Vec<u32>,
    ))
        requires
            tri((n_triangle_rows + 1) as nat) <= 0xFFFF_FFFF,
        ensures
            r.0@.len() == 3 * tri((n_triangle_rows + 1) as nat),
            r.1@.len() == 3 * tri(n_triangle_rows as nat),
            2 * r.0@.len() == 3 * ((n_triangle_rows + 1) * (n_triangle_rows + 2)),
            2 * r.1@.len() == 3 * (n_triangle_rows * (n_triangle_rows + 1)),
            forall|rr: int, v: int|
                0 <= rr <= n_triangle_rows && 0 <= v <= rr ==> {
                    let base = 3 * #[trigger] grid_slot(rr, v);
                    &&& real_bits(r.0@[base]) == grid_x(
                        real_bits(width),
                        n_triangle_rows as u32,
                        rr,
                        v,
                    )
                    &&& real_bits(r.0@[base + 1]) == grid_row_y(
                        real_bits(height),
                        n_triangle_rows as u32,
                        rr,
                    )
                    &&& real_bits(r.0@[base + 2]) == f32_of_u32(0)
                },
            forall|rr: int, v: int|
                0 <= rr < n_triangle_rows && 0 <= v <= rr ==> {
                    let base = 3 * #[trigger] grid_slot(rr, v);
                    &&& r.1@[base] == grid_slot(rr, v) as u32
                    &&& r.1@[base + 1] == (grid_slot(rr, v) + rr + 1) as u32
                    &&& r.1@[base + 2] == (grid_slot(rr, v) + rr + 2) as u32
                },
            r.1@.len() % 3 == 0,
            forall|k: int| 0 <= k < r.1@.len() ==> (#[trigger] r.1@[k] as int) * 3 < r.0@.len(),
    {
        let ghost w: u32 = real_bits(width);
        let ghost h: u32 = real_bits(height);
        let n_triangle_rows_f = real_of_u32({
            proof {
                lemma_tri_ge((n_triangle_rows + 1) as nat);
            }
            n_triangle_rows as u32
        });
        let t_width = real_div(width, n_triangle_rows_f);
        let t_height = real_div(height, n_triangle_rows_f);
        let two = real_of_u32(2);
        let zero = real_of_u32(0);
        let vertex_row_start_y = real_div(height, two);

        let n_vertex_rows = n_triangle_rows + 1;
        let mut verticies: Vec<Real> = Vec::new();
        let mut indicies: Vec<u32> = Vec::new();

        let mut vertex_row_index: usize = 0;
        let mut vertex_row: usize = 0;
        while vertex_row < n_vertex_rows
            invariant
                n_vertex_rows == n_triangle_rows + 1,
                tri((n_triangle_rows + 1) as nat) <= 0xFFFF_FFFF,
                vertex_row <= n_vertex_rows,
                vertex_row_index == tri(vertex_row as nat),
                verticies@.len() == 3 * tri(vertex_row as nat),
                indicies@.len() == 3 * tri(
                    (if vertex_row <= n_triangle_rows {
                        vertex_row as int
                    } else {
                        n_triangle_rows as int
                    }) as nat,
                ),
                forall|rr: int, v: int|
                    0 <= rr < vertex_row && 0 <= v <= rr ==> {
                        let base = 3 * #[trigger] grid_slot(rr, v);
                        &&& real_bits(verticies@[base]) == grid_x(w, n_triangle_rows as u32, rr, v)
                        &&& real_bits(verticies@[base + 1]) == grid_row_y(
                            h,
                            n_triangle_rows as u32,
                            rr,
                        )
                        &&& real_bits(verticies@[base + 2]) == f32_of_u32(0)
                    },
                forall|rr: int, v: int|
                    0 <= rr < vertex_row && rr < n_triangle_rows && 0 <= v <= rr ==> {
                        let base = 3 * #[trigger] grid_slot(rr, v);
                        &&& indicies@[base] == grid_slot(rr, v) as u32
                        &&& indicies@[base + 1] == (grid_slot(rr, v) + rr + 1) as u32
                        &&& indicies@[base + 2] == (grid_slot(rr, v) + rr + 2) as u32
                    },
                forall|k: int|
                    0 <= k < indicies@.len() ==> (#[trigger] indicies@[k] as int) < tri(
                        (n_triangle_rows + 1) as nat,
                    ),
                real_bits(t_width) == grid_tw(w, n_triangle_rows as u32),
                real_bits(t_height) == grid_tw(h, n_triangle_rows as u32),
                real_bits(vertex_row_start_y) == half_bits(h),
                real_bits(two) == f32_of_u32(2),
                real_bits(zero) == f32_of_u32(0),
            decreases n_vertex_rows - vertex_row,
        {
            proof {
                lemma_tri_mono((vertex_row + 1) as nat, (n_triangle_rows + 1) as nat);
                lemma_tri_ge((n_triangle_rows + 1) as nat);
            }
            let vertex_row_f = real_of_u32(vertex_row as u32);
            let vertex_row_y = real_sub(vertex_row_start_y, real_mul(vertex_row_f, t_height));
            let vertex_row_start_x = real_div(real_mul(real_neg(t_width), vertex_row_f), two);

            let mut vertex: usize = 0;
            while vertex < vertex_row + 1
                invariant
                    n_vertex_rows == n_triangle_rows + 1,
                    tri((n_triangle_rows + 1) as nat) <= 0xFFFF_FFFF,
                    vertex_row < n_vertex_rows,
                    vertex <= vertex_row + 1,
                    vertex_row_index == tri(vertex_row as nat),
                    verticies@.len() == 3 * (tri(vertex_row as nat) + vertex),
                    indicies@.len() == 3 * (
                    if vertex_row < n_triangle_rows {
                        tri(vertex_row as nat) + vertex
                    } else {
                        tri(n_triangle_rows as nat) as int
                    }),
                    forall|rr: int, v: int|
                        0 <= rr < vertex_row && 0 <= v <= rr ==> {
                            let base = 3 * #[trigger] grid_slot(rr, v);
                            &&& real_bits(verticies@[base]) == grid_x(
                                w,
                                n_triangle_rows as u32,
                                rr,
                                v,
                            )
                            &&& real_bits(verticies@[base + 1]) == grid_row_y(
                                h,
                                n_triangle_rows as u32,
                                rr,
                            )
                            &&& real_bits(verticies@[base + 2]) == f32_of_u32(0)
                        },
                    forall|v: int|
                        0 <= v < vertex ==> {
                            let base = 3 * #[trigger] grid_slot(vertex_row as int, v);
                            &&& real_bits(verticies@[base]) == grid_x(
                                w,
                                n_triangle_rows as u32,
                                vertex_row as int,
                                v,
                            )
                            &&& real_bits(verticies@[base + 1]) == grid_row_y(
                                h,
                                n_triangle_rows as u32,
                                vertex_row as int,
                            )
                            &&& real_bits(verticies@[base + 2]) == f32_of_u32(0)
                        },
                    forall|rr: int, v: int|
                        0 <= rr < vertex_row && rr < n_triangle_rows && 0 <= v <= rr ==> {
                            let base = 3 * #[trigger] grid_slot(rr, v);
                            &&& indicies@[base] == grid_slot(rr, v) as u32
                            &&& indicies@[base + 1] == (grid_slot(rr, v) + rr + 1) as u32
                            &&& indicies@[base + 2] == (grid_slot(rr, v) + rr + 2) as u32
                        },
                    forall|v: int|
                        0 <= v < vertex && vertex_row < n_triangle_rows ==> {
                            let base = 3 * #[trigger] grid_slot(vertex_row as int, v);
                            &&& indicies@[base] == grid_slot(vertex_row as int, v) as u32
                            &&& indicies@[base + 1] == (grid_slot(vertex_row as int, v)
                                + vertex_row + 1) as u32
                            &&& indicies@[base + 2] == (grid_slot(vertex_row as int, v)
                                + vertex_row + 2) as u32
                        },
                    forall|k: int|
                        0 <= k < indicies@.len() ==> (#[trigger] indicies@[k] as int) < tri(
                            (n_triangle_rows + 1) as nat,
                        ),
                    real_bits(t_width) == grid_tw(w, n_triangle_rows as u32),
                    real_bits(t_height) == grid_tw(h, n_triangle_rows as u32),
                    real_bits(vertex_row_y) == grid_row_y(h, n_triangle_rows as u32, vertex_row as int),
                    real_bits(vertex_row_start_x) == grid_row_x0(
                        w,
                        n_triangle_rows as u32,
                        vertex_row as int,
                    ),
                    real_bits(zero) == f32_of_u32(0),
                decreases vertex_row + 1 - vertex,
            {
                proof {
                    lemma_tri_slot_all(vertex_row as nat);
                    lemma_tri_slot_all(n_triangle_rows as nat);
                    lemma_tri_mono((vertex_row + 1) as nat, (n_triangle_rows + 1) as nat);
                    assert(tri((vertex_row + 1) as nat) == vertex_row + 1 + tri(vertex_row as nat));
                }
                let vertex_f = real_of_u32(vertex as u32);
                let x = real_add(vertex_row_start_x, real_mul(vertex_f, t_width));
                verticies.push(x);
                verticies.push(vertex_row_y);
                verticies.push(zero);

                if vertex_row < n_triangle_rows {
                    proof {
                        lemma_tri_mono((vertex_row + 2) as nat, (n_triangle_rows + 1) as nat);
                        assert(tri((vertex_row + 2) as nat) == vertex_row + 2 + tri(
                            (vertex_row + 1) as nat,
                        ));
                    }
                    indicies.push((vertex_row_index + vertex) as u32);
                    indicies.push((vertex_row_index + vertex_row + 1 + vertex) as u32);
                    indicies.push((vertex_row_index + vertex_row + 1 + vertex + 1) as u32);
                }
                vertex += 1;
            }
            vertex_row_index += vertex_row + 1;
            vertex_row += 1;
        }
        proof {
            lemma_tri_closed((n_triangle_rows + 1) as nat);
            lemma_tri_closed(n_triangle_rows as nat);
        }
        (verticies, indicies)
    }

    /// A closed ribbon under one period-controlled sine curve: the top row of
    /// `n_points` vertices traces `y = sin(p * angle_rate)` across
    /// `x` spanning `[-width / 2, width / 2]`, the bottom row duplicates the
    /// x coordinates at the lowest sine value observed, and corresponding
    /// top/bottom pairs are stitched strip-wise. The index stream is padded
    /// to `6 * n_points` entries with degenerate zero triangles, matching
    /// the buffer size the renderer allocates for the shape.
    pub fn generate_sine(n_points: usize, width: Real, angle_rate: Real) -> (r: (
        Vec<Real>,
        Vec<u32>,
    ))
        requires
            2 * n_points <= 0xFFFF_FFFF,
        ensures
            r.0@.len() == 3 * (2 * n_points),
            r.1@.len() == 3 * (2 * n_points),
            forall|p: int|
                0 <= p < n_points ==> {
                    let base = #[trigger] times3(p);
                    &&& real_bits(r.0@[base]) == sine_x(p, n_points as u32, real_bits(width))
                    &&& real_bits(r.0@[base + 1]) == sine_y(p, real_bits(angle_rate))
                    &&& real_bits(r.0@[base + 2]) == f32_of_u32(0)
                },
            forall|p: int|
                0 <= p < n_points ==> {
                    let base = 3 * n_points + #[trigger] times3(p);
                    &&& real_bits(r.0@[base]) == sine_x(p, n_points as u32, real_bits(width))
                    &&& real_bits(r.0@[base + 1]) == sine_lowest(
                        n_points - 1,
                        real_bits(angle_rate),
                    )
                    &&& real_bits(r.0@[base + 2]) == f32_of_u32(0)
                },
            forall|p: int|
                0 <= p < n_points - 1 ==> {
                    let base = #[trigger] times6(p);
                    &&& r.1@[base] as int == 1 + p
                    &&& r.1@[base + 1] as int == p
                    &&& r.1@[base + 2] as int == p + n_points
                    &&& r.1@[base + 3] as int == p + n_points
                    &&& r.1@[base + 4] as int == 1 + p + n_points
                    &&& r.1@[base + 5] as int == 1 + p
                },
            forall|k: int|
                n_points >= 1 && 6 * (n_points - 1) <= k < 6 * n_points ==> r.1@[k] == 0u32,
            r.1@.len() % 3 == 0,
            forall|k: int| 0 <= k < r.1@.len() ==> (#[trigger] r.1@[k] as int) * 3 < r.0@.len(),
    {
        let n = n_points;
        let ghost wb: u32 = real_bits(width);
        let ghost ab: u32 = real_bits(angle_rate);
        let n_points_f = real_of_u32(n as u32);
        let one = real_of_u32(1);
        let two = real_of_u32(2);
        let zero = real_of_u32(0);
        let half_width = real_div(width, two);
        let neg_half_width = real_neg(half_width);
        let denom = real_sub(n_points_f, one);

        let mut verticies: Vec<Real> = Vec::new();
        let mut indicies: Vec<u32> = Vec::new();
        let mut xs: Vec<Real> = Vec::new();
        let mut lowest_point = zero;

        let mut point: usize = 0;
        while point < n
            invariant
                2 * n <= 0xFFFF_FFFF,
                point <= n,
                verticies@.len() == 3 * point,
                xs@.len() == point,
                indicies@.len() == 6 * (if n == 0 {
                    0int
                } else if point < n {
                    point as int
                } else {
                    n - 1
                }),
                point >= 1 ==> real_bits(lowest_point) == sine_lowest(point - 1, ab),
                forall|p: int|
                    0 <= p < point ==> {
                        let base = #[trigger] times3(p);
                        &&& real_bits(verticies@[base]) == sine_x(p, n as u32, wb)
                        &&& real_bits(verticies@[base + 1]) == sine_y(p, ab)
                        &&& real_bits(verticies@[base + 2]) == f32_of_u32(0)
                    },
                forall|p: int|
                    0 <= p < point ==> real_bits(#[trigger] xs@[p]) == sine_x(p, n as u32, wb),
                forall|p: int|
                    0 <= p < point && p < n - 1 ==> {
                        let base = #[trigger] times6(p);
                        &&& indicies@[base] as int == 1 + p
                        &&& indicies@[base + 1] as int == p
                        &&& indicies@[base + 2] as int == p + n
                        &&& indicies@[base + 3] as int == p + n
                        &&& indicies@[base + 4] as int == 1 + p + n
                        &&& indicies@[base + 5] as int == 1 + p
                    },
                forall|k: int|
                    0 <= k < indicies@.len() ==> (#[trigger] indicies@[k] as int) < 2 * n,
                wb == real_bits(width),
                ab == real_bits(angle_rate),
                real_bits(neg_half_width) == neg_bits(half_bits(wb)),
                real_bits(denom) == sub_bits(f32_of_u32(n as u32), f32_of_u32(1)),
                real_bits(zero) == f32_of_u32(0),
            decreases n - point,
        {
            let point_f = real_of_u32(point as u32);
            let angle = real_mul(point_f, angle_rate);
            let y = real_sin(angle);
            let x = real_add(neg_half_width, real_div(real_mul(width, point_f), denom));

            verticies.push(x);
            verticies.push(y);
            verticies.push(zero);
            xs.push(x);

            if point == 0 {
                lowest_point = y;
            } else if real_lt(y, lowest_point) {
                lowest_point = y;
            }

            if point + 1 < n {
                indicies.push((1 + point) as u32);
                indicies.push(point as u32);
                indicies.push((point + n) as u32);
                indicies.push((point + n) as u32);
                indicies.push((1 + point + n) as u32);
                indicies.push((1 + point) as u32);
            }
            point += 1;
        }

        if n >= 1 {
            let mut pad: usize = 0;
            while pad < 6
                invariant
                    n >= 1,
                    pad <= 6,
                    indicies@.len() == 6 * (n - 1) + pad,
                    forall|p: int|
                        0 <= p < n - 1 ==> {
                            let base = #[trigger] times6(p);
                            &&& indicies@[base] as int == 1 + p
                            &&& indicies@[base + 1] as int == p
                            &&& indicies@[base + 2] as int == p + n
                            &&& indicies@[base + 3] as int == p + n
                            &&& indicies@[base + 4] as int == 1 + p + n
                            &&& indicies@[base + 5] as int == 1 + p
                        },
                    forall|k: int| 6 * (n - 1) <= k < indicies@.len() ==> indicies@[k] == 0u32,
                    forall|k: int|
                        0 <= k < indicies@.len() ==> (#[trigger] indicies@[k] as int) < 2 * n,
                decreases 6 - pad,
            {
                indicies.push(0);
                pad += 1;
            }
        }

        let mut q: usize = 0;
        while q < n
            invariant
                2 * n <= 0xFFFF_FFFF,
                q <= n,
                xs@.len() == n,
                verticies@.len() == 3 * n + 3 * q,
                n >= 1 ==> real_bits(lowest_point) == sine_lowest(n - 1, ab),
                forall|p: int|
                    0 <= p < n ==> {
                        let base = #[trigger] times3(p);
                        &&& real_bits(verticies@[base]) == sine_x(p, n as u32, wb)
                        &&& real_bits(verticies@[base + 1]) == sine_y(p, ab)
                        &&& real_bits(verticies@[base + 2]) == f32_of_u32(0)
                    },
                forall|p: int|
                    0 <= p < n ==> real_bits(#[trigger] xs@[p]) == sine_x(p, n as u32, wb),
                forall|p: int|
                    0 <= p < q ==> {
                        let base = 3 * n + #[trigger] times3(p);
                        &&& real_bits(verticies@[base]) == sine_x(p, n as u32, wb)
                        &&& real_bits(verticies@[base + 1]) == sine_lowest(n - 1, ab)
                        &&& real_bits(verticies@[base + 2]) == f32_of_u32(0)
                    },
                wb == real_bits(width),
                ab == real_bits(angle_rate),
                real_bits(zero) == f32_of_u32(0),
            decreases n - q,
        {
            let x = xs[q];
            verticies.push(x);
            verticies.push(lowest_point);
            verticies.push(zero);
            q += 1;
        }
        (verticies, indicies)
    }

    /// A triangle fan over a circle of radius `rad` in the `z == 0` plane:
    /// vertex 0 is the center, vertices `1 ..= n` sit evenly spaced on the
    /// perimeter counter-clockwise from angle zero, and each of the `n`
    /// triangles fans from the center, the last wrapping back to vertex 1.
    /// With zero perimeter vertices the result is the lone center vertex and
    /// no triangles.
    pub fn generate_circle(n_perimeter_verticies: usize, rad: Real) -> (r: (Vec<Real>, Vec<u32>))
        requires
            n_perimeter_verticies < 0xFFFF_FFFF,
        ensures
            r.0@.len() == 3 * (n_perimeter_verticies + 1),
            r.1@.len() == 3 * n_perimeter_verticies,
            real_bits(r.0@[0]) == f32_of_u32(0) && real_bits(r.0@[1]) == f32_of_u32(0) && real_bits(
                r.0@[2],
            ) == f32_of_u32(0),
            forall|p: int|
                0 <= p < n_perimeter_verticies ==> {
                    let base = 3 + #[trigger] times3(p);
                    let angle = circle_angle(p, n_perimeter_verticies as u32);
                    &&& real_bits(r.0@[base]) == mul_bits(cos_bits(angle), real_bits(rad))
                    &&& real_bits(r.0@[base + 1]) == mul_bits(sin_bits(angle), real_bits(rad))
                    &&& real_bits(r.0@[base + 2]) == f32_of_u32(0)
                },
            forall|p: int|
                0 <= p < n_perimeter_verticies ==> {
                    let base = #[trigger] times3(p);
                    &&& r.1@[base] == 0u32
                    &&& r.1@[base + 1] as int == 1 + p
                    &&& r.1@[base + 2] as int == 1 + ((p + 1) % (n_perimeter_verticies as int))
                },
            r.1@.len() % 3 == 0,
            forall|k: int| 0 <= k < r.1@.len() ==> (#[trigger] r.1@[k] as int) * 3 < r.0@.len(),
    {
        let n = n_perimeter_verticies;
        let ghost rb: u32 = real_bits(rad);
        let n_perimeter_verticies_f = real_of_u32(n as u32);
        let two = real_of_u32(2);
        let zero = real_of_u32(0);
        let pi = real_pi();

        let mut verticies: Vec<Real> = Vec::new();
        verticies.push(zero);
        verticies.push(zero);
        verticies.push(zero);
        let mut indicies: Vec<u32> = Vec::new();

        let mut perimeter_vertex: usize = 0;
        while perimeter_vertex < n
            invariant
                n < 0xFFFF_FFFF,
                perimeter_vertex <= n,
                verticies@.len() == 3 + 3 * perimeter_vertex,
                indicies@.len() == 3 * perimeter_vertex,
                real_bits(verticies@[0]) == f32_of_u32(0),
                real_bits(verticies@[1]) == f32_of_u32(0),
                real_bits(verticies@[2]) == f32_of_u32(0),
                forall|p: int|
                    0 <= p < perimeter_vertex ==> {
                        let base = 3 + #[trigger] times3(p);
                        let angle = circle_angle(p, n as u32);
                        &&& real_bits(verticies@[base]) == mul_bits(cos_bits(angle), rb)
                        &&& real_bits(verticies@[base + 1]) == mul_bits(sin_bits(angle), rb)
                        &&& real_bits(verticies@[base + 2]) == f32_of_u32(0)
                    },
                forall|p: int|
                    0 <= p < perimeter_vertex ==> {
                        let base = #[trigger] times3(p);
                        &&& indicies@[base] == 0u32
                        &&& indicies@[base + 1] as int == 1 + p
                        &&& indicies@[base + 2] as int == 1 + ((p + 1) % (n as int))
                    },
                forall|k: int| 0 <= k < indicies@.len() ==> (#[trigger] indicies@[k] as int) <= n,
                rb == real_bits(rad),
                real_bits(two) == f32_of_u32(2),
                real_bits(zero) == f32_of_u32(0),
                real_bits(pi) == PI_BITS,
                real_bits(n_perimeter_verticies_f) == f32_of_u32(n as u32),
            decreases n - perimeter_vertex,
        {
            let perimeter_vertex_f = real_of_u32(perimeter_vertex as u32);
            let angle = real_div(
                real_mul(real_mul(perimeter_vertex_f, two), pi),
                n_perimeter_verticies_f,
            );
            let x = real_mul(real_cos(angle), rad);
            let y = real_mul(real_sin(angle), rad);
            verticies.push(x);
            verticies.push(y);
            verticies.push(zero);

            indicies.push(0);
            indicies.push((1 + perimeter_vertex) as u32);
            indicies.push((1 + (perimeter_vertex + 1) % n) as u32);
            perimeter_vertex += 1;
        }
        (verticies, indicies)
    }

    /// A twisted ribbon spiralling `windings` turns in the `z == 0` plane:
    /// each of the `n_segments + 1` angular samples emits an outer vertex,
    /// whose radius interpolates linearly from `spiral_inner_rad` towards
    /// `spiral_outer_rad`, and an inner vertex `thickness` closer to the
    /// center; adjacent samples are stitched with two triangles. With zero
    /// segments the result is one degenerate sample pair and no triangles.
    pub fn generate_spiral(
        n_segments: usize,
        thickness: Real,
        windings: Real,
        spiral_outer_rad: Real,
        spiral_inner_rad: Real,
    ) -> (r: (Vec<Real>, Vec<u32>))
        requires
            2 * n_segments + 3 <= 0xFFFF_FFFF,
        ensures
            r.0@.len() == 3 * (2 * n_segments + 2),
            r.1@.len() == 3 * (2 * n_segments),
            forall|s: int|
                0 <= s <= n_segments ==> {
                    let base = #[trigger] times6(s);
                    let angle = spiral_angle(s, n_segments as u32, real_bits(windings));
                    let outer = spiral_sample_rad(
                        s,
                        n_segments as u32,
                        real_bits(spiral_inner_rad),
                        sub_bits(real_bits(spiral_outer_rad), real_bits(spiral_inner_rad)),
                    );
                    let inner = sub_bits(outer, real_bits(thickness));
                    &&& real_bits(r.0@[base]) == mul_bits(cos_bits(angle), outer)
                    &&& real_bits(r.0@[base + 1]) == mul_bits(sin_bits(angle), outer)
                    &&& real_bits(r.0@[base + 2]) == f32_of_u32(0)
                    &&& real_bits(r.0@[base + 3]) == mul_bits(cos_bits(angle), inner)
                    &&& real_bits(r.0@[base + 4]) == mul_bits(sin_bits(angle), inner)
                    &&& real_bits(r.0@[base + 5]) == f32_of_u32(0)
                },
            forall|s: int|
                0 <= s < n_segments ==> {
                    let base = #[trigger] times6(s);
                    &&& r.1@[base] as int == 2 + s * 2
                    &&& r.1@[base + 1] as int == 1 + s * 2
                    &&& r.1@[base + 2] as int == s * 2
                    &&& r.1@[base + 3] as int == 1 + s * 2
                    &&& r.1@[base + 4] as int == 2 + s * 2
                    &&& r.1@[base + 5] as int == 3 + s * 2
                },
            r.1@.len() % 3 == 0,
            forall|k: int| 0 <= k < r.1@.len() ==> (#[trigger] r.1@[k] as int) * 3 < r.0@.len(),
    {
        let n = n_segments;
        let ghost wb: u32 = real_bits(windings);
        let ghost ib: u32 = real_bits(spiral_inner_rad);
        let ghost db: u32 = sub_bits(real_bits(spiral_outer_rad), real_bits(spiral_inner_rad));
        let ghost tb: u32 = real_bits(thickness);
        let n_segments_f = real_of_u32(n as u32);
        let two = real_of_u32(2);
        let zero = real_of_u32(0);
        let pi = real_pi();
        let spiral_delta_rad = real_sub(spiral_outer_rad, spiral_inner_rad);

        let mut verticies: Vec<Real> = Vec::new();
        let mut indicies: Vec<u32> = Vec::new();

        let mut segment: usize = 0;
        while segment < n + 1
            invariant
                2 * n + 3 <= 0xFFFF_FFFF,
                segment <= n + 1,
                verticies@.len() == 6 * segment,
                indicies@.len() == 6 * (if segment <= n {
                    segment as int
                } else {
                    n as int
                }),
                forall|s: int|
                    0 <= s < segment ==> {
                        let base = #[trigger] times6(s);
                        let angle = spiral_angle(s, n as u32, wb);
                        let outer = spiral_sample_rad(s, n as u32, ib, db);
                        let inner = sub_bits(outer, tb);
                        &&& real_bits(verticies@[base]) == mul_bits(cos_bits(angle), outer)
                        &&& real_bits(verticies@[base + 1]) == mul_bits(sin_bits(angle), outer)
                        &&& real_bits(verticies@[base + 2]) == f32_of_u32(0)
                        &&& real_bits(verticies@[base + 3]) == mul_bits(cos_bits(angle), inner)
                        &&& real_bits(verticies@[base + 4]) == mul_bits(sin_bits(angle), inner)
                        &&& real_bits(verticies@[base + 5]) == f32_of_u32(0)
                    },
                forall|s: int|
                    0 <= s < segment && s < n ==> {
                        let base = #[trigger] times6(s);
                        &&& indicies@[base] as int == 2 + s * 2
                        &&& indicies@[base + 1] as int == 1 + s * 2
                        &&& indicies@[base + 2] as int == s * 2
                        &&& indicies@[base + 3] as int == 1 + s * 2
                        &&& indicies@[base + 4] as int == 2 + s * 2
                        &&& indicies@[base + 5] as int == 3 + s * 2
                    },
                forall|k: int|
                    0 <= k < indicies@.len() ==> (#[trigger] indicies@[k] as int) < 2 * n + 2,
                wb == real_bits(windings),
                ib == real_bits(spiral_inner_rad),
                tb == real_bits(thickness),
                real_bits(spiral_delta_rad) == db,
                real_bits(two) == f32_of_u32(2),
                real_bits(zero) == f32_of_u32(0),
                real_bits(pi) == PI_BITS,
                real_bits(n_segments_f) == f32_of_u32(n as u32),
            decreases n + 1 - segment,
        {
            let segment_f = real_of_u32(segment as u32);
            let angle = real_div(
                real_mul(real_mul(real_mul(segment_f, windings), two), pi),
                n_segments_f,
            );
            let segment_outer_rad = real_add(
                spiral_inner_rad,
                real_div(real_mul(spiral_delta_rad, segment_f), n_segments_f),
            );
            let segment_inner_rad = real_sub(segment_outer_rad, thickness);

            verticies.push(real_mul(real_cos(angle), segment_outer_rad));
            verticies.push(real_mul(real_sin(angle), segment_outer_rad));
            verticies.push(zero);
            verticies.push(real_mul(real_cos(angle), segment_inner_rad));
            verticies.push(real_mul(real_sin(angle), segment_inner_rad));
            verticies.push(zero);

            if segment < n {
                indicies.push((2 + segment * 2) as u32);
                indicies.push((1 + segment * 2) as u32);
                indicies.push((segment * 2) as u32);
                indicies.push((1 + segment * 2) as u32);
                indicies.push((2 + segment * 2) as u32);
                indicies.push((3 + segment * 2) as u32);
            }
            segment += 1;
        }
        (verticies, indicies)
    }

    /// A side-`side_length` square in the `z == 0` plane, centered at the
    /// origin: four corner vertices, anti-clockwise from the top-right, and
    /// two triangles with a fixed winding that together cover all four
    /// corners.
    pub fn generate_square(side_length: Real) -> (r: (Vec<Real>, Vec<u32>))
        ensures
            ({
                let h = half_bits(real_bits(side_length));
                let n = neg_bits(h);
                let z = f32_of_u32(0);
                r.0@.map_values(|v: Real| real_bits(v)) == seq![
                    h, h, z,
                    n, h, z,
                    n, n, z,
                    h, n, z,
                ]
            }),
            r.1@ == seq![0u32, 1u32, 2u32, 2u32, 3u32, 0u32],
            r.1@.len() % 3 == 0,
            forall|k: int| 0 <= k < r.1@.len() ==> (#[trigger] r.1@[k] as int) * 3 < r.0@.len(),
    {
        let two = real_of_u32(2);
        let zero = real_of_u32(0);
        let half = real_div(side_length, two);
        let neg_half = real_neg(half);

        let mut verticies: Vec<Real> = Vec::new();
        verticies.push(half);
        verticies.push(half);
        verticies.push(zero);
        verticies.push(neg_half);
        verticies.push(half);
        verticies.push(zero);
        verticies.push(neg_half);
        verticies.push(neg_half);
        verticies.push(zero);
        verticies.push(half);
        verticies.push(neg_half);
        verticies.push(zero);

        let mut indicies: Vec<u32> = Vec::new();
        indicies.push(0);
        indicies.push(1);
        indicies.push(2);
        indicies.push(2);
        indicies.push(3);
        indicies.push(0);

        proof {
            assert(verticies@.map_values(|v: Real| real_bits(v)) =~= seq![
                half_bits(real_bits(side_length)),
                half_bits(real_bits(side_length)),
                f32_of_u32(0),
                neg_bits(half_bits(real_bits(side_length))),
                half_bits(real_bits(side_length)),
                f32_of_u32(0),
                neg_bits(half_bits(real_bits(side_length))),
                neg_bits(half_bits(real_bits(side_length))),
                f32_of_u32(0),
                half_bits(real_bits(side_length)),
                neg_bits(half_bits(real_bits(side_length))),
                f32_of_u32(0),
            ]);
            assert(indicies@ =~= seq![0u32, 1u32, 2u32, 2u32, 3u32, 0u32]);
        }
        (verticies, indicies)
    }
}

} // verus!
