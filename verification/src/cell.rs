//! The periodic simulation cell: minimum-image displacement, distance and
//! direction under periodic boundary conditions.

use vstd::prelude::*;
use vstd::arithmetic::div_mod::lemma_fundamental_div_mod;

use crate::COORD_LIMIT;
use crate::RIGHT_ANGLE;
use crate::SCALE;
use crate::fixed::abs_int;
use crate::fixed::is_sqrt_floor;
use crate::fixed::isqrt_u128;
use crate::fixed::lemma_sqrt_floor_le;
use crate::fixed::sqrt_floor;
use crate::fixed::tdiv;
use crate::fixed::tdiv_i128;
use crate::vector::Vector3;

verus! {

/// Floor division (the rounding of spec-level `/`) on wide integers.
pub fn floor_div_i128(a: i128, b: i128) -> (r: i128)
    requires
        a > i128::MIN,
        b > 0,
    ensures
        r == a as int / b as int,
{
    if a >= 0 {
        let q: u128 = (a as u128) / (b as u128);
        proof {
            assert(a as int / b as int <= a as int) by (nonlinear_arith)
                requires
                    a >= 0,
                    b >= 1,
            ;
            assert(a as int / b as int >= 0) by (nonlinear_arith)
                requires
                    a >= 0,
                    b >= 1,
            ;
        }
        q as i128
    } else {
        let na: u128 = (-a) as u128;
        let ub: u128 = b as u128;
        let q: u128 = (na + ub - 1) / ub;
        proof {
            let qi = q as int;
            let nai = na as int;
            let bi = b as int;
            lemma_fundamental_div_mod(nai + bi - 1, bi);
            // q * b <= na + b - 1  and  na + b - 1 < (q + 1) * b
            assert(qi * bi <= nai + bi - 1 && nai + bi - 1 < (qi + 1) * bi) by (nonlinear_arith)
                requires
                    bi > 0,
                    nai >= 1,
                    qi == (nai + bi - 1) / bi,
                    bi * qi + ((nai + bi - 1) % bi) == nai + bi - 1,
                    0 <= (nai + bi - 1) % bi < bi,
            ;
            assert(qi <= nai) by (nonlinear_arith)
                requires
                    bi >= 1,
                    nai >= 1,
                    qi >= 0,
                    qi * bi <= nai + bi - 1,
            ;
            lemma_fundamental_div_mod(a as int, bi);
            assert((a as int) / bi == -qi) by (nonlinear_arith)
                requires
                    bi > 0,
                    a as int == -nai,
                    qi * bi <= nai + bi - 1,
                    nai + bi - 1 < (qi + 1) * bi,
                    bi * ((a as int) / bi) + ((a as int) % bi) == a as int,
                    0 <= (a as int) % bi < bi,
            ;
        }
        -(q as i128)
    }
}

/// One coordinate of the minimum-image displacement: `d` shifted by the
/// multiple of the edge length `l` that lands it nearest to zero.
pub open spec fn wrap1(d: int, l: int) -> int {
    d - l * ((2 * d + l) / (2 * l))
}

/// The wrapped displacement lies within half an edge of zero and differs
/// from the unwrapped one by a multiple of the edge.
pub proof fn lemma_wrap1_bounds(d: int, l: int)
    requires
        l > 0,
    ensures
        -l <= 2 * wrap1(d, l) < l,
        abs_int(wrap1(d, l)) <= l / 2,
{
    let n = (2 * d + l) / (2 * l);
    lemma_fundamental_div_mod(2 * d + l, 2 * l);
    assert(-l <= 2 * (d - l * n) < l) by (nonlinear_arith)
        requires
            l > 0,
            n == (2 * d + l) / (2 * l),
            (2 * l) * n + ((2 * d + l) % (2 * l)) == 2 * d + l,
            0 <= (2 * d + l) % (2 * l) < 2 * l,
    ;
    let w = wrap1(d, l);
    lemma_fundamental_div_mod(l, 2);
    assert(abs_int(w) <= l / 2) by (nonlinear_arith)
        requires
            l > 0,
            -l <= 2 * w < l,
            2 * (l / 2) + l % 2 == l,
            0 <= l % 2 < 2,
    ;
}

/// Computes [`wrap1`] on narrow coordinates.
pub fn wrap_coord(d: i64, l: i64) -> (r: i64)
    requires
        0 < l,
    ensures
        r == wrap1(d as int, l as int),
        -l <= 2 * r < l,
        abs_int(r as int) <= l / 2,
{
    proof {
        lemma_wrap1_bounds(d as int, l as int);
    }
    let t: i128 = 2 * (d as i128) + (l as i128);
    let n: i128 = floor_div_i128(t, 2 * (l as i128));
    proof {
        let li = l as int;
        let ni = n as int;
        let di = d as int;
        // bound l * n so the product below cannot overflow
        lemma_fundamental_div_mod(2 * di + li, 2 * li);
        assert(di - li < li * ni <= di + li) by (nonlinear_arith)
            requires
                li > 0,
                ni == (2 * di + li) / (2 * li),
                (2 * li) * ni + ((2 * di + li) % (2 * li)) == 2 * di + li,
                0 <= (2 * di + li) % (2 * li) < 2 * li,
        ;
    }
    let w: i128 = (d as i128) - (l as i128) * n;
    w as i64
}

/// A periodic simulation cell: three edge lengths and three angles
/// (fixed-point raw values, angles in degrees).
///
/// This kernel computes minimum images for orthorhombic cells only:
/// every angle must be the right angle.  The angle fields are stored so
/// a cell carries its full shape, but a triclinic cell is outside this
/// kernel's capability; [`Cell::try_new`] rejects one visibly, and
/// [`Cell::new`] excludes one by precondition.
#[derive(Clone, Copy, Debug, PartialEq, Eq, Structural)]
pub struct Cell {
    pub a: i64,
    pub b: i64,
    pub c: i64,
    pub alpha: i64,
    pub beta: i64,
    pub gamma: i64,
}

impl Cell {
    /// The capability bound of this kernel's geometry: all three angles
    /// are right angles.
    pub open spec fn is_orthorhombic(self) -> bool {
        &&& self.alpha == RIGHT_ANGLE
        &&& self.beta == RIGHT_ANGLE
        &&& self.gamma == RIGHT_ANGLE
    }

    /// A well-formed cell has positive, bounded edges and is
    /// orthorhombic.
    pub open spec fn wf(self) -> bool {
        &&& 0 < self.a <= COORD_LIMIT
        &&& 0 < self.b <= COORD_LIMIT
        &&& 0 < self.c <= COORD_LIMIT
        &&& self.is_orthorhombic()
    }

    /// Builds a cell if this kernel supports it, and rejects it
    /// otherwise: degenerate or oversized edges, or angles other than
    /// right angles (a triclinic cell), give `None`.
    pub fn try_new(a: i64, b: i64, c: i64, alpha: i64, beta: i64, gamma: i64) -> (res: Option<
        Cell,
    >)
        ensures
            match res {
                Some(cell) => {
                    &&& cell == (Cell { a, b, c, alpha, beta, gamma })
                    &&& cell.wf()
                },
                None => !(Cell { a, b, c, alpha, beta, gamma }).wf(),
            },
    {
        if a <= 0 || a > COORD_LIMIT || b <= 0 || b > COORD_LIMIT || c <= 0 || c > COORD_LIMIT {
            return None;
        }
        if alpha != RIGHT_ANGLE || beta != RIGHT_ANGLE || gamma != RIGHT_ANGLE {
            return None;
        }
        Some(Cell { a, b, c, alpha, beta, gamma })
    }

    /// Builds a cell from edge lengths and angles.  A degenerate cell
    /// (non-positive volume) is a caller-side construction error and is
    /// excluded here, as is a triclinic cell, which this kernel's
    /// geometry does not cover.
    pub fn new(a: i64, b: i64, c: i64, alpha: i64, beta: i64, gamma: i64) -> (cell: Cell)
        requires
            0 < a <= COORD_LIMIT,
            0 < b <= COORD_LIMIT,
            0 < c <= COORD_LIMIT,
            alpha == RIGHT_ANGLE,
            beta == RIGHT_ANGLE,
            gamma == RIGHT_ANGLE,
        ensures
            cell == (Cell { a, b, c, alpha, beta, gamma }),
            cell.wf(),
    {
        Cell { a, b, c, alpha, beta, gamma }
    }

    /// Minimum-image displacement from `p2` to `p1`, one component each.
    pub open spec fn image_x(self, p1: Vector3, p2: Vector3) -> int {
        wrap1(p1.x - p2.x, self.a as int)
    }

    /// Minimum-image displacement from `p2` to `p1`, one component each.
    pub open spec fn image_y(self, p1: Vector3, p2: Vector3) -> int {
        wrap1(p1.y - p2.y, self.b as int)
    }

    /// Minimum-image displacement from `p2` to `p1`, one component each.
    pub open spec fn image_z(self, p1: Vector3, p2: Vector3) -> int {
        wrap1(p1.z - p2.z, self.c as int)
    }

    /// Squared length of the minimum-image displacement.
    pub open spec fn dist_sq(self, p1: Vector3, p2: Vector3) -> int {
        let dx = self.image_x(p1, p2);
        let dy = self.image_y(p1, p2);
        let dz = self.image_z(p1, p2);
        dx * dx + dy * dy + dz * dz
    }

    /// Minimum-image distance between two positions (fixed-point raw
    /// value; the floor square root of the squared displacement).
    pub open spec fn distance_spec(self, p1: Vector3, p2: Vector3) -> int {
        sqrt_floor(self.dist_sq(p1, p2))
    }

    /// The squared displacement is bounded by the squared edge bound, so
    /// the distance stays inside the coordinate bound.
    pub proof fn lemma_distance_bounds(self, p1: Vector3, p2: Vector3)
        requires
            self.wf(),
        ensures
            0 <= self.dist_sq(p1, p2) < (COORD_LIMIT as int) * (COORD_LIMIT as int),
            0 <= self.distance_spec(p1, p2) < COORD_LIMIT,
    {
        let dx = self.image_x(p1, p2);
        let dy = self.image_y(p1, p2);
        let dz = self.image_z(p1, p2);
        lemma_wrap1_bounds(p1.x - p2.x, self.a as int);
        lemma_wrap1_bounds(p1.y - p2.y, self.b as int);
        lemma_wrap1_bounds(p1.z - p2.z, self.c as int);
        let m = COORD_LIMIT as int;
        assert(0 <= dx * dx + dy * dy + dz * dz < m * m) by (nonlinear_arith)
            requires
                abs_int(dx) <= m / 2,
                abs_int(dy) <= m / 2,
                abs_int(dz) <= m / 2,
                m == COORD_LIMIT as int,
        ;
        lemma_sqrt_floor_le(self.dist_sq(p1, p2), m);
        crate::fixed::lemma_sqrt_floor_exists(self.dist_sq(p1, p2));
    }

    /// Minimum-image distance between two positions.
    pub fn distance(&self, p1: &Vector3, p2: &Vector3) -> (r: i64)
        requires
            self.wf(),
            p1.in_bounds(COORD_LIMIT as int),
            p2.in_bounds(COORD_LIMIT as int),
        ensures
            r == self.distance_spec(*p1, *p2),
            0 <= r < COORD_LIMIT,
    {
        proof {
            self.lemma_distance_bounds(*p1, *p2);
        }
        let dx: i64 = wrap_coord(p1.x - p2.x, self.a);
        let dy: i64 = wrap_coord(p1.y - p2.y, self.b);
        let dz: i64 = wrap_coord(p1.z - p2.z, self.c);
        proof {
            let m = COORD_LIMIT as int;
            assert((dx as int) * (dx as int) <= m * m && (dy as int) * (dy as int) <= m * m && (
            dz as int) * (dz as int) <= m * m) by (nonlinear_arith)
                requires
                    abs_int(dx as int) <= m,
                    abs_int(dy as int) <= m,
                    abs_int(dz as int) <= m,
            ;
        }
        let sq: i128 = (dx as i128) * (dx as i128) + (dy as i128) * (dy as i128) + (dz as i128)
            * (dz as i128);
        let r: u64 = isqrt_u128(sq as u128);
        r as i64
    }

    /// Unit vector (fixed-point, one unit is [`SCALE`] raw steps) along
    /// the minimum-image displacement from `p2` to `p1`.
    pub open spec fn direction_spec(self, p1: Vector3, p2: Vector3) -> (int, int, int) {
        let r = self.distance_spec(p1, p2);
        (
            tdiv(self.image_x(p1, p2) * SCALE, r),
            tdiv(self.image_y(p1, p2) * SCALE, r),
            tdiv(self.image_z(p1, p2) * SCALE, r),
        )
    }

    /// Unit vector along the minimum-image displacement from `p2` to
    /// `p1`; defined only at positive distance.
    pub fn direction(&self, p1: &Vector3, p2: &Vector3) -> (d: Vector3)
        requires
            self.wf(),
            p1.in_bounds(COORD_LIMIT as int),
            p2.in_bounds(COORD_LIMIT as int),
            self.distance_spec(*p1, *p2) > 0,
        ensures
            (d.x as int, d.y as int, d.z as int) == self.direction_spec(*p1, *p2),
            d.in_bounds(SCALE as int),
    {
        proof {
            self.lemma_distance_bounds(*p1, *p2);
        }
        let dx: i64 = wrap_coord(p1.x - p2.x, self.a);
        let dy: i64 = wrap_coord(p1.y - p2.y, self.b);
        let dz: i64 = wrap_coord(p1.z - p2.z, self.c);
        proof {
            let m = COORD_LIMIT as int;
            assert((dx as int) * (dx as int) <= m * m && (dy as int) * (dy as int) <= m * m && (
            dz as int) * (dz as int) <= m * m) by (nonlinear_arith)
                requires
                    abs_int(dx as int) <= m,
                    abs_int(dy as int) <= m,
                    abs_int(dz as int) <= m,
            ;
        }
        let sq: i128 = (dx as i128) * (dx as i128) + (dy as i128) * (dy as i128) + (dz as i128)
            * (dz as i128);
        let r: u64 = isqrt_u128(sq as u128);
        proof {
            let ri = r as int;
            // each component's square is at most the squared norm, so its
            // magnitude is at most the rounded-down root
            assert(abs_int(dx as int) <= ri && abs_int(dy as int) <= ri && abs_int(dz as int)
                <= ri) by (nonlinear_arith)
                requires
                    is_sqrt_floor(
                        (dx as int) * (dx as int) + (dy as int) * (dy as int) + (dz as int) * (
                        dz as int),
                        ri,
                    ),
            ;
            lemma_unit_component(dx as int, ri);
            lemma_unit_component(dy as int, ri);
            lemma_unit_component(dz as int, ri);
        }
        let ux: i128 = tdiv_i128((dx as i128) * (SCALE as i128), r as i128);
        let uy: i128 = tdiv_i128((dy as i128) * (SCALE as i128), r as i128);
        let uz: i128 = tdiv_i128((dz as i128) * (SCALE as i128), r as i128);
        Vector3 { x: ux as i64, y: uy as i64, z: uz as i64 }
    }
}

/// A component no longer than the norm divides into a unit-bounded ratio.
proof fn lemma_unit_component(d: int, r: int)
    requires
        r > 0,
        abs_int(d) <= r,
    ensures
        abs_int(tdiv(d * SCALE, r)) <= SCALE,
{
    let s = SCALE as int;
    assert(abs_int(d * s) == abs_int(d) * s) by (nonlinear_arith)
        requires
            s > 0,
    ;
    assert(abs_int(d) * s / r <= s) by (nonlinear_arith)
        requires
            r > 0,
            s > 0,
            abs_int(d) <= r,
    ;
    assert(abs_int(d) * s / r >= 0) by (nonlinear_arith)
        requires
            r > 0,
            s > 0,
            abs_int(d) >= 0,
    ;
}

} // verus!
