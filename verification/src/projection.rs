//! The projection transform of the three-dimensional scenes: two axis
//! rotations composed into one matrix, applied after swapping the up
//! axis, plus the multiplicative zoom and the screen-space offsets.
//!
//! Depth ordering for the painter's algorithm is taken by sorting the
//! segments' z-sums ascending (`sorted_order_by_key`): under the
//! convention that the transformed z axis grows towards the viewer, the
//! farthest geometry is drawn first.

use vstd::prelude::*;
use vstd::arithmetic::div_mod::lemma_div_is_ordered;
use vstd::arithmetic::div_mod::lemma_div_pos_is_pos;
use vstd::arithmetic::div_mod::lemma_div_multiples_vanish;
use crate::units::MICRO;
use crate::units::muldiv;
use crate::units::mul_div;
use crate::units::iabs;
use crate::units::clamp_spec;
use crate::units::clamp;
use crate::trig::sin_at;
use crate::trig::cos_at;
use crate::trig::sin_fx;
use crate::trig::cos_fx;
use crate::geometry::Pos2;
use crate::geometry::Pos3;
use crate::geometry::MAX_DISTANCE;
use crate::geometry::valid_angle;
use crate::geometry::lemma_scale_within_unit;
use crate::colour::Colour;

verus! {

/// The zoom grows by this ratio (in millionths) at each quarter step of
/// the zoom coefficient; four steps make the ratio eleven tenths.
pub const ZOOM_STEP_RATIO: i64 = 1_024_114;

/// The zoom saturates here instead of leaving the fixed-point range.
pub const ZOOM_CAP: i64 = 1_000_000_000_000_000_000;

/// The widest zoom coefficient accepted, in quarter steps.
pub const MAX_ZOOM_COEFFICIENT: i64 = 10_000;

/// The zoom actually applied to screen points is capped here: a hundred
/// thousand pixels to the unit.
pub const MAX_SCREEN_ZOOM: i64 = 100_000_000_000;

/// Screen offsets and centres stay within a billion pixels.
pub const MAX_SCREEN_OFFSET: i64 = 1_000_000_000;

/// A rotation matrix in millionths, row by row.
#[derive(Clone, Copy, PartialEq, Eq, Structural, Debug)]
pub struct Mat3 {
    pub m00: i64,
    pub m01: i64,
    pub m02: i64,
    pub m10: i64,
    pub m11: i64,
    pub m12: i64,
    pub m20: i64,
    pub m21: i64,
    pub m22: i64,
}

/// A drawable line segment of a three-dimensional scene.
#[derive(Clone, Copy, PartialEq, Eq, Structural, Debug)]
pub struct Segment3 {
    pub a: Pos3,
    pub b: Pos3,
    pub colour: Colour,
}

/// The depth key a segment is ordered by: the z-sum of its endpoints.
pub open spec fn segment_depth(s: Segment3) -> int {
    s.a.z + s.b.z
}

/// The rotation about the x axis by `ax` composed with the rotation
/// about the y axis by `ay`, entry by entry in millionths.
pub open spec fn rotation_spec(ax: int, ay: int) -> Mat3 {
    let sx = sin_at(ax);
    let cx = cos_at(ax);
    let sy = sin_at(ay);
    let cy = cos_at(ay);
    Mat3 {
        m00: cy as i64,
        m01: 0i64,
        m02: sy as i64,
        m10: (-muldiv(sx, sy, MICRO as int)) as i64,
        m11: cx as i64,
        m12: muldiv(sx, cy, MICRO as int) as i64,
        m20: (-muldiv(cx, sy, MICRO as int)) as i64,
        m21: (-sx) as i64,
        m22: muldiv(cx, cy, MICRO as int) as i64,
    }
}

/// Every entry of a rotation matrix stays within one unit.
pub open spec fn matrix_within_unit(m: Mat3) -> bool {
    &&& -MICRO <= m.m00 <= MICRO
    &&& -MICRO <= m.m01 <= MICRO
    &&& -MICRO <= m.m02 <= MICRO
    &&& -MICRO <= m.m10 <= MICRO
    &&& -MICRO <= m.m11 <= MICRO
    &&& -MICRO <= m.m12 <= MICRO
    &&& -MICRO <= m.m20 <= MICRO
    &&& -MICRO <= m.m21 <= MICRO
    &&& -MICRO <= m.m22 <= MICRO
}

/// Build the combined rotation matrix of a scene's two rotation angles.
pub fn rotation_matrix(rotate_x: i64, rotate_y: i64) -> (m: Mat3)
    requires
        valid_angle(rotate_x as int),
        valid_angle(rotate_y as int),
    ensures
        m == rotation_spec(rotate_x as int, rotate_y as int),
        matrix_within_unit(m),
{
    let sx = sin_fx(rotate_x);
    let cx = cos_fx(rotate_x);
    let sy = sin_fx(rotate_y);
    let cy = cos_fx(rotate_y);
    proof {
        lemma_product_within(sx as int, sy as int);
        lemma_product_within(sx as int, cy as int);
        lemma_product_within(cx as int, sy as int);
        lemma_product_within(cx as int, cy as int);
    }
    let m10 = -mul_div(sx, sy, MICRO);
    let m12 = mul_div(sx, cy, MICRO);
    let m20 = -mul_div(cx, sy, MICRO);
    let m22 = mul_div(cx, cy, MICRO);
    Mat3 { m00: cy, m01: 0, m02: sy, m10, m11: cx, m12, m20, m21: -sx, m22 }
}

/// The product of two factors within one unit stays within one unit.
pub proof fn lemma_product_within(a: int, b: int)
    requires
        -MICRO <= a <= MICRO,
        -MICRO <= b <= MICRO,
    ensures
        -MICRO <= muldiv(a, b, MICRO as int) <= MICRO,
{
    if a >= 0 {
        lemma_scale_within_unit(a, b);
    } else {
        lemma_scale_within_unit(-a, b);
        crate::geometry::lemma_flip_muldiv(a, b);
    }
}

/// One coordinate of the projected point: the matrix row applied to the
/// point with its y and z swapped (the render up axis is the orbit
/// plane's normal).
pub open spec fn project_x_spec(m: Mat3, p: Pos3) -> int {
    muldiv(m.m00 as int, p.x as int, MICRO as int) + muldiv(m.m01 as int, p.z as int, MICRO as int)
        + muldiv(m.m02 as int, p.y as int, MICRO as int)
}

pub open spec fn project_y_spec(m: Mat3, p: Pos3) -> int {
    muldiv(m.m10 as int, p.x as int, MICRO as int) + muldiv(m.m11 as int, p.z as int, MICRO as int)
        + muldiv(m.m12 as int, p.y as int, MICRO as int)
}

pub open spec fn project_z_spec(m: Mat3, p: Pos3) -> int {
    muldiv(m.m20 as int, p.x as int, MICRO as int) + muldiv(m.m21 as int, p.z as int, MICRO as int)
        + muldiv(m.m22 as int, p.y as int, MICRO as int)
}

/// Rotate one scene point into render space.
pub fn project_point(m: &Mat3, p: Pos3) -> (r: Pos3)
    requires
        matrix_within_unit(*m),
        iabs(p.x as int) <= 4 * MAX_DISTANCE,
        iabs(p.y as int) <= 4 * MAX_DISTANCE,
        iabs(p.z as int) <= 4 * MAX_DISTANCE,
    ensures
        r.x as int == project_x_spec(*m, p),
        r.y as int == project_y_spec(*m, p),
        r.z as int == project_z_spec(*m, p),
        iabs(r.x as int) <= 12 * MAX_DISTANCE,
        iabs(r.y as int) <= 12 * MAX_DISTANCE,
        iabs(r.z as int) <= 12 * MAX_DISTANCE,
{
    proof {
        lemma_row_term_bounds(m.m00 as int, p.x as int);
        lemma_row_term_bounds(m.m01 as int, p.z as int);
        lemma_row_term_bounds(m.m02 as int, p.y as int);
        lemma_row_term_bounds(m.m10 as int, p.x as int);
        lemma_row_term_bounds(m.m11 as int, p.z as int);
        lemma_row_term_bounds(m.m12 as int, p.y as int);
        lemma_row_term_bounds(m.m20 as int, p.x as int);
        lemma_row_term_bounds(m.m21 as int, p.z as int);
        lemma_row_term_bounds(m.m22 as int, p.y as int);
    }
    let x = mul_div(m.m00, p.x, MICRO) + mul_div(m.m01, p.z, MICRO) + mul_div(m.m02, p.y, MICRO);
    let y = mul_div(m.m10, p.x, MICRO) + mul_div(m.m11, p.z, MICRO) + mul_div(m.m12, p.y, MICRO);
    let z = mul_div(m.m20, p.x, MICRO) + mul_div(m.m21, p.z, MICRO) + mul_div(m.m22, p.y, MICRO);
    Pos3 { x, y, z }
}

/// A matrix entry within one unit scales a coordinate by at most one.
proof fn lemma_row_term_bounds(entry: int, coord: int)
    requires
        -MICRO <= entry <= MICRO,
        iabs(coord) <= 4 * MAX_DISTANCE,
    ensures
        -(4 * MAX_DISTANCE) <= muldiv(entry, coord, MICRO as int) <= 4 * MAX_DISTANCE,
{
    if coord >= 0 {
        lemma_scale_within_unit(coord, entry);
        assert(muldiv(coord, entry, MICRO as int) == muldiv(entry, coord, MICRO as int)) by {
            assert(coord * entry == entry * coord);
        }
    } else {
        lemma_scale_within_unit(-coord, entry);
        crate::geometry::lemma_flip_muldiv(coord, entry);
        assert(muldiv(-coord, entry, MICRO as int) == muldiv(entry, -coord, MICRO as int)) by {
            assert((-coord) * entry == entry * (-coord));
        }
        crate::geometry::lemma_flip_muldiv(coord, entry);
        assert((-coord) * entry == -(coord * entry)) by (nonlinear_arith);
        assert(entry * coord == coord * entry);
    }
}

/// One multiplicative zoom step of the displayed scale, saturating at
/// the cap.
pub open spec fn zoom_grow(z: int) -> int {
    let w = muldiv(z, ZOOM_STEP_RATIO as int, MICRO as int);
    if w > ZOOM_CAP {
        ZOOM_CAP as int
    } else {
        w
    }
}

pub open spec fn zoom_shrink(z: int) -> int {
    muldiv(z, MICRO as int, ZOOM_STEP_RATIO as int)
}

/// The displayed zoom of a coefficient counted in quarter steps: the
/// step ratio raised to the coefficient, from one unit at zero.
pub open spec fn zoom_spec(c: int) -> int
    decreases iabs(c),
{
    if c == 0 {
        MICRO as int
    } else if c > 0 {
        zoom_grow(zoom_spec(c - 1))
    } else {
        zoom_shrink(zoom_spec(c + 1))
    }
}

pub proof fn lemma_zoom_step_bounds(z: int)
    requires
        0 <= z <= ZOOM_CAP,
    ensures
        0 <= zoom_grow(z) <= ZOOM_CAP,
        0 <= zoom_shrink(z) <= ZOOM_CAP,
        0 <= muldiv(z, ZOOM_STEP_RATIO as int, MICRO as int) <= 1_100_000_000_000_000_000,
{
    assert(0 <= z * (ZOOM_STEP_RATIO as int) <= 1_024_114_000_000_000_000_000_000int)
        by (nonlinear_arith)
        requires 0 <= z <= 1_000_000_000_000_000_000;
    lemma_div_is_ordered(
        z * (ZOOM_STEP_RATIO as int),
        1_024_114_000_000_000_000_000_000int,
        MICRO as int,
    );
    assert(1_024_114_000_000_000_000_000_000int / (MICRO as int)
        == 1_024_114_000_000_000_000int);
    lemma_div_pos_is_pos(z * (ZOOM_STEP_RATIO as int), MICRO as int);
    assert(0 <= z * (MICRO as int) <= z * (ZOOM_STEP_RATIO as int)) by (nonlinear_arith)
        requires 0 <= z;
    lemma_div_pos_is_pos(z * (MICRO as int), ZOOM_STEP_RATIO as int);
    lemma_div_is_ordered(
        z * (MICRO as int),
        z * (ZOOM_STEP_RATIO as int),
        ZOOM_STEP_RATIO as int,
    );
    lemma_div_multiples_vanish(z, ZOOM_STEP_RATIO as int);
    assert(z * (ZOOM_STEP_RATIO as int) == (ZOOM_STEP_RATIO as int) * z);
}

/// The displayed zoom of a scene's zoom coefficient.
pub fn zoom_factor(c: i64) -> (r: i64)
    requires
        -MAX_ZOOM_COEFFICIENT <= c <= MAX_ZOOM_COEFFICIENT,
    ensures
        r as int == zoom_spec(c as int),
        0 <= r <= ZOOM_CAP,
{
    let mut z: i64 = MICRO;
    let mut k: i64 = 0;
    if c >= 0 {
        while k < c
            invariant
                0 <= k <= c,
                z as int == zoom_spec(k as int),
                0 <= z <= ZOOM_CAP,
            decreases c - k,
        {
            proof {
                lemma_zoom_step_bounds(z as int);
            }
            let w = mul_div(z, ZOOM_STEP_RATIO, MICRO);
            z = if w > ZOOM_CAP {
                ZOOM_CAP
            } else {
                w
            };
            k = k + 1;
        }
    } else {
        while k > c
            invariant
                c <= k <= 0,
                z as int == zoom_spec(k as int),
                0 <= z <= ZOOM_CAP,
            decreases k - c,
        {
            proof {
                lemma_zoom_step_bounds(z as int);
            }
            z = mul_div(z, MICRO, ZOOM_STEP_RATIO);
            k = k - 1;
        }
    }
    z
}

/// Where a projected point lands on screen: zoomed multiplicatively
/// (the zoom capped at a million pixels per unit), then translated by
/// the pan offset from the viewport centre.
pub open spec fn screen_point_spec(
    p: Pos2,
    zoom: int,
    offset_x: int,
    offset_y: int,
    centre_x: int,
    centre_y: int,
) -> Pos2 {
    let z = clamp_spec(zoom, 0, MAX_SCREEN_ZOOM as int);
    Pos2 {
        x: (centre_x + offset_x + muldiv(p.x as int, z, MICRO as int)) as i64,
        y: (centre_y + offset_y + muldiv(p.y as int, z, MICRO as int)) as i64,
    }
}

pub fn to_screen(p: Pos2, zoom: i64, offset_x: i64, offset_y: i64, centre_x: i64, centre_y: i64) -> (r:
    Pos2)
    requires
        iabs(p.x as int) <= 12 * MAX_DISTANCE,
        iabs(p.y as int) <= 12 * MAX_DISTANCE,
        0 <= zoom <= ZOOM_CAP,
        -MAX_SCREEN_OFFSET <= offset_x <= MAX_SCREEN_OFFSET,
        -MAX_SCREEN_OFFSET <= offset_y <= MAX_SCREEN_OFFSET,
        -MAX_SCREEN_OFFSET <= centre_x <= MAX_SCREEN_OFFSET,
        -MAX_SCREEN_OFFSET <= centre_y <= MAX_SCREEN_OFFSET,
    ensures
        r == screen_point_spec(
            p,
            zoom as int,
            offset_x as int,
            offset_y as int,
            centre_x as int,
            centre_y as int,
        ),
{
    let z = clamp(zoom, 0, MAX_SCREEN_ZOOM);
    proof {
        lemma_screen_term_bounds(p.x as int, z as int);
        lemma_screen_term_bounds(p.y as int, z as int);
    }
    let sx = centre_x + offset_x + mul_div(p.x, z, MICRO);
    let sy = centre_y + offset_y + mul_div(p.y, z, MICRO);
    Pos2 { x: sx, y: sy }
}

proof fn lemma_screen_term_bounds(coord: int, z: int)
    requires
        iabs(coord) <= 12 * MAX_DISTANCE,
        0 <= z <= MAX_SCREEN_ZOOM,
    ensures
        iabs(muldiv(coord, z, MICRO as int)) <= 1_200_000_000_000_000_000,
{
    assert(iabs(coord * z) == iabs(coord) * z) by (nonlinear_arith)
        requires 0 <= z;
    assert(iabs(coord) * z <= (12 * (MAX_DISTANCE as int)) * (MAX_SCREEN_ZOOM as int))
        by (nonlinear_arith)
        requires
            0 <= iabs(coord) <= 12 * (MAX_DISTANCE as int),
            0 <= z <= MAX_SCREEN_ZOOM;
    lemma_div_is_ordered(
        iabs(coord * z),
        (12 * (MAX_DISTANCE as int)) * (MAX_SCREEN_ZOOM as int),
        MICRO as int,
    );
    lemma_div_pos_is_pos(iabs(coord * z), MICRO as int);
    assert((12 * (MAX_DISTANCE as int)) * (MAX_SCREEN_ZOOM as int) / (MICRO as int)
        == 1_200_000_000_000_000_000int);
    assert(iabs(muldiv(coord, z, MICRO as int)) == iabs(coord * z) / (MICRO as int));
}


/// The least x coordinate of a non-empty planar point set.
pub open spec fn path_min_x(s: Seq<Pos2>) -> int
    decreases s.len(),
{
    if s.len() <= 1 {
        s[0].x as int
    } else {
        let m = path_min_x(s.drop_last());
        if (s.last().x as int) < m {
            s.last().x as int
        } else {
            m
        }
    }
}

/// The greatest x coordinate of a non-empty planar point set.
pub open spec fn path_max_x(s: Seq<Pos2>) -> int
    decreases s.len(),
{
    if s.len() <= 1 {
        s[0].x as int
    } else {
        let m = path_max_x(s.drop_last());
        if (s.last().x as int) > m {
            s.last().x as int
        } else {
            m
        }
    }
}

/// The least y coordinate of a non-empty planar point set.
pub open spec fn path_min_y(s: Seq<Pos2>) -> int
    decreases s.len(),
{
    if s.len() <= 1 {
        s[0].y as int
    } else {
        let m = path_min_y(s.drop_last());
        if (s.last().y as int) < m {
            s.last().y as int
        } else {
            m
        }
    }
}

/// The greatest y coordinate of a non-empty planar point set.
pub open spec fn path_max_y(s: Seq<Pos2>) -> int
    decreases s.len(),
{
    if s.len() <= 1 {
        s[0].y as int
    } else {
        let m = path_max_y(s.drop_last());
        if (s.last().y as int) > m {
            s.last().y as int
        } else {
            m
        }
    }
}

/// The axis-aligned bounds of a non-empty planar point set: what the
/// zoom-to-fit reads.
pub fn bounds2(points: &Vec<Pos2>) -> (r: (i64, i64, i64, i64))
    requires
        points@.len() > 0,
    ensures
        r.0 as int == path_min_x(points@),
        r.1 as int == path_max_x(points@),
        r.2 as int == path_min_y(points@),
        r.3 as int == path_max_y(points@),
        forall|i: int|
            0 <= i < points@.len() ==> r.0 <= (#[trigger] points@[i]).x <= r.1 && r.2
                <= points@[i].y <= r.3,
        exists|i: int| 0 <= i < points@.len() && (#[trigger] points@[i]).x == r.0,
        exists|i: int| 0 <= i < points@.len() && (#[trigger] points@[i]).x == r.1,
        exists|i: int| 0 <= i < points@.len() && (#[trigger] points@[i]).y == r.2,
        exists|i: int| 0 <= i < points@.len() && (#[trigger] points@[i]).y == r.3,
{
    let first = points[0];
    let mut min_x = first.x;
    let mut max_x = first.x;
    let mut min_y = first.y;
    let mut max_y = first.y;
    let mut i: usize = 1;
    proof {
        assert(points@.take(1)[0] == points@[0]);
    }
    while i < points.len()
        invariant
            1 <= i <= points@.len(),
            min_x as int == path_min_x(points@.take(i as int)),
            max_x as int == path_max_x(points@.take(i as int)),
            min_y as int == path_min_y(points@.take(i as int)),
            max_y as int == path_max_y(points@.take(i as int)),
            forall|k: int|
                0 <= k < i ==> min_x <= (#[trigger] points@[k]).x <= max_x && min_y
                    <= points@[k].y <= max_y,
            exists|k: int| 0 <= k < i && (#[trigger] points@[k]).x == min_x,
            exists|k: int| 0 <= k < i && (#[trigger] points@[k]).x == max_x,
            exists|k: int| 0 <= k < i && (#[trigger] points@[k]).y == min_y,
            exists|k: int| 0 <= k < i && (#[trigger] points@[k]).y == max_y,
        decreases points@.len() - i,
    {
        proof {
            assert(points@.take(i as int + 1).drop_last() =~= points@.take(i as int));
            assert(points@.take(i as int + 1).last() == points@[i as int]);
        }
        let p = points[i];
        if p.x < min_x {
            min_x = p.x;
        }
        if p.x > max_x {
            max_x = p.x;
        }
        if p.y < min_y {
            min_y = p.y;
        }
        if p.y > max_y {
            max_y = p.y;
        }
        i = i + 1;
    }
    proof {
        assert(points@.take(points@.len() as int) =~= points@);
    }
    (min_x, max_x, min_y, max_y)
}

/// The magnitude a fit requirement reads off a clipped coordinate.
pub open spec fn clipped_abs_spec(v: int) -> int {
    if v == i64::MIN {
        i64::MAX as int
    } else {
        iabs(v)
    }
}

pub open spec fn max4_spec(a: int, b: int, c: int, d: int) -> int {
    let m1 = if a > b {
        a
    } else {
        b
    };
    let m2 = if c > d {
        c
    } else {
        d
    };
    if m1 > m2 {
        m1
    } else {
        m2
    }
}

/// The usable half extent of one screen axis: seven fifteenths of it, as
/// the layout leaves a margin.
pub open spec fn half_margin_spec(extent: int) -> int {
    crate::units::tdiv(extent * 7, 15)
}

/// The zoom one axis allows: its usable half extent (micro-pixels) per
/// unit of required reach, capped at the zoom range.
pub open spec fn fit_allowance_spec(half_extent: int, required: int) -> int {
    clamp_spec(muldiv(half_extent, MICRO as int, required), 0, ZOOM_CAP as int)
}

/// The horizontal reach two drawn orbits require of the viewport.
pub open spec fn fit_required_x(path1: Seq<Pos2>, path2: Seq<Pos2>) -> int {
    max4_spec(
        clipped_abs_spec(path_min_x(path1)),
        path_max_x(path1),
        clipped_abs_spec(path_min_x(path2)),
        path_max_x(path2),
    )
}

pub open spec fn fit_required_y(path1: Seq<Pos2>, path2: Seq<Pos2>) -> int {
    max4_spec(
        clipped_abs_spec(path_min_y(path1)),
        path_max_y(path1),
        clipped_abs_spec(path_min_y(path2)),
        path_max_y(path2),
    )
}

/// What a zoom coefficient fitted to two drawn orbits is: the largest
/// coefficient in the scan range whose zoom stays within the tighter of
/// the two axes' allowances; where either axis requires no reach at all,
/// the coefficient is left as it was.
pub open spec fn fitted_zoom_ok(
    z: int,
    path1: Seq<Pos2>,
    path2: Seq<Pos2>,
    screen_width: int,
    screen_height: int,
    previous: int,
) -> bool {
    let x_req = fit_required_x(path1, path2);
    let y_req = fit_required_y(path1, path2);
    if x_req > 0 && y_req > 0 {
        let rx = fit_allowance_spec(half_margin_spec(screen_width), x_req);
        let ry = fit_allowance_spec(half_margin_spec(screen_height), y_req);
        let ratio = if rx < ry {
            rx
        } else {
            ry
        };
        &&& -FIT_RANGE <= z <= FIT_RANGE
        &&& (z > -FIT_RANGE ==> zoom_spec(z) <= ratio)
        &&& (z < FIT_RANGE ==> ratio < zoom_spec(z + 1))
    } else {
        z == previous
    }
}

/// The narrowest zoom-fit scan range, in quarter steps.
pub const FIT_RANGE: i64 = 240;

/// The zoom coefficient that fits a scene whose tightest axis allows a
/// zoom of `ratio` (in millionths): the largest coefficient in the scan
/// range whose zoom does not exceed the allowance.
pub fn fit_zoom_coefficient(ratio: i64) -> (r: i64)
    requires
        0 <= ratio <= ZOOM_CAP,
    ensures
        -FIT_RANGE <= r <= FIT_RANGE,
        r > -FIT_RANGE ==> zoom_spec(r as int) <= ratio,
        r < FIT_RANGE ==> ratio < zoom_spec(r as int + 1),
{
    let mut c: i64 = -FIT_RANGE;
    let mut done = false;
    while !done && c < FIT_RANGE
        invariant
            -FIT_RANGE <= c <= FIT_RANGE,
            0 <= ratio <= ZOOM_CAP,
            c > -FIT_RANGE ==> zoom_spec(c as int) <= ratio,
            done ==> ratio < zoom_spec(c as int + 1),
        decreases (if done { 0int } else { 1int }) + FIT_RANGE - c,
    {
        let next = zoom_factor(c + 1);
        if next <= ratio {
            c = c + 1;
        } else {
            done = true;
        }
    }
    c
}

} // verus!
