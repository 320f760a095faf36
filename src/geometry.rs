use vstd::prelude::*;

use vstd::math::abs;

use crate::fixed::{div_floor, is_floor_sqrt, isqrt, FIXED_ONE};

verus! {

/// The largest magnitude of a matrix entry: it keeps every product that the
/// transformation forms within 128 bits and every scale within 64.
pub const ENTRY_BOUND: i64 = 0x4000_0000_0000_0000;

/// A fixed-point product `a * b`, rounded down.
pub open spec fn fx_mul(a: int, b: int) -> int {
    (a * b) / (FIXED_ONE as int)
}

/// The fixed-point dot product of one row and one column, rounded down.
pub open spec fn fx_dot(a0: int, b0: int, a1: int, b1: int, a2: int, b2: int) -> int {
    (a0 * b0 + a1 * b1 + a2 * b2) / (FIXED_ONE as int)
}

/// The product `n * m` of two 3x3 matrices stored by rows.
pub open spec fn mat_mul(n: Seq<int>, m: Seq<int>) -> Seq<int> {
    seq![
        fx_dot(n[0], m[0], n[1], m[3], n[2], m[6]),
        fx_dot(n[0], m[1], n[1], m[4], n[2], m[7]),
        fx_dot(n[0], m[2], n[1], m[5], n[2], m[8]),
        fx_dot(n[3], m[0], n[4], m[3], n[5], m[6]),
        fx_dot(n[3], m[1], n[4], m[4], n[5], m[7]),
        fx_dot(n[3], m[2], n[4], m[5], n[5], m[8]),
        fx_dot(n[6], m[0], n[7], m[3], n[8], m[6]),
        fx_dot(n[6], m[1], n[7], m[4], n[8], m[7]),
        fx_dot(n[6], m[2], n[7], m[5], n[8], m[8]),
    ]
}

/// The identity matrix.
pub open spec fn identity() -> Seq<int> {
    seq![FIXED_ONE as int, 0, 0, 0, FIXED_ONE as int, 0, 0, 0, FIXED_ONE as int]
}

/// The matrix that scales by `sx` and `sy`.
pub open spec fn scaling(sx: int, sy: int) -> Seq<int> {
    seq![sx, 0, 0, 0, sy, 0, 0, 0, FIXED_ONE as int]
}

/// The matrix that moves by `dx` and `dy`.
pub open spec fn translation(dx: int, dy: int) -> Seq<int> {
    seq![FIXED_ONE as int, 0, dx, 0, FIXED_ONE as int, dy, 0, 0, FIXED_ONE as int]
}

/// An affine matrix whose entries stay within `ENTRY_BOUND`.
pub open spec fn affine_bounded(m: Seq<int>) -> bool {
    &&& m.len() == 9
    &&& m[6] == 0 && m[7] == 0 && m[8] == FIXED_ONE as int
    &&& forall|i: int| 0 <= i < 9 ==> -ENTRY_BOUND <= #[trigger] m[i] <= ENTRY_BOUND
}

/// The length of the image of the first basis vector.
pub open spec fn scale_x_of(m: Seq<int>, r: int) -> bool {
    is_floor_sqrt(m[0] * m[0] + m[3] * m[3], r)
}

/// The length of the image of the second basis vector.
pub open spec fn scale_y_of(m: Seq<int>, r: int) -> bool {
    is_floor_sqrt(m[1] * m[1] + m[4] * m[4], r)
}

/// One scale for both axes: their common scale where they agree, else their
/// quadratic mean.
pub open spec fn scale_of(sx: int, sy: int, r: int) -> bool {
    if sx == sy {
        r == sx
    } else {
        is_floor_sqrt((sx * sx + sy * sy) / 2, r)
    }
}

const PRODUCT_BOUND: i128 = 0x2000_0000_0000_0000_0000_0000_0000_0000;

proof fn lemma_product_bound(a: int, b: int)
    requires
        -ENTRY_BOUND <= a <= ENTRY_BOUND,
        i64::MIN <= b <= i64::MAX,
    ensures
        -PRODUCT_BOUND <= a * b <= PRODUCT_BOUND,
        -PRODUCT_BOUND <= b * a <= PRODUCT_BOUND,
{
    assert(-PRODUCT_BOUND <= a * b <= PRODUCT_BOUND) by (nonlinear_arith)
        requires
            -ENTRY_BOUND <= a <= ENTRY_BOUND,
            i64::MIN <= b <= i64::MAX,
            PRODUCT_BOUND == ENTRY_BOUND * 0x8000_0000_0000_0000;
    assert(a * b == b * a) by (nonlinear_arith);
}

fn dot(a0: i64, b0: i64, a1: i64, b1: i64, a2: i64, b2: i64) -> (r: i128)
    requires
        -PRODUCT_BOUND <= a0 * b0 <= PRODUCT_BOUND,
        -PRODUCT_BOUND <= a1 * b1 <= PRODUCT_BOUND,
        -PRODUCT_BOUND <= a2 * b2 <= PRODUCT_BOUND,
    ensures
        r == fx_dot(a0 as int, b0 as int, a1 as int, b1 as int, a2 as int, b2 as int),
{
    let s = (a0 as i128) * (b0 as i128) + (a1 as i128) * (b1 as i128) + (a2 as i128) * (b2 as i128);
    div_floor(s, FIXED_ONE as u128)
}

/// `a * a + b * b` for entries within the bound.
fn square_sum(a: i64, b: i64) -> (r: u128)
    requires
        -ENTRY_BOUND <= a <= ENTRY_BOUND,
        -ENTRY_BOUND <= b <= ENTRY_BOUND,
    ensures
        r == a * a + b * b,
        r <= 2 * ENTRY_BOUND * ENTRY_BOUND,
{
    let x: u128 = if a >= 0 { a as u128 } else { (-(a as i128)) as u128 };
    let y: u128 = if b >= 0 { b as u128 } else { (-(b as i128)) as u128 };
    assert(x * x == a * a && y * y == b * b && x * x <= ENTRY_BOUND * ENTRY_BOUND
        && y * y <= ENTRY_BOUND * ENTRY_BOUND) by (nonlinear_arith)
        requires
            x == a || x == -a,
            y == b || y == -b,
            0 <= x <= ENTRY_BOUND,
            0 <= y <= ENTRY_BOUND;
    x * x + y * y
}

/// The floor square root of a sum of two squares of bounded entries.
fn norm(a: i64, b: i64) -> (r: i64)
    requires
        -ENTRY_BOUND <= a <= ENTRY_BOUND,
        -ENTRY_BOUND <= b <= ENTRY_BOUND,
    ensures
        is_floor_sqrt(a * a + b * b, r as int),
        0 <= r < 0x8000_0000_0000_0000u128,
        r * r <= 2 * ENTRY_BOUND * ENTRY_BOUND,
{
    let v = square_sum(a, b);
    let r = isqrt(v);
    assert(r < 0x8000_0000_0000_0000u128) by (nonlinear_arith)
        requires r * r <= v, v <= 2 * ENTRY_BOUND * ENTRY_BOUND, r >= 0, ENTRY_BOUND == 0x4000_0000_0000_0000i64;
    r as i64
}

/// The representative scale of two axis scales.
fn mean_scale(sx: i64, sy: i64) -> (r: i64)
    requires
        0 <= sx,
        0 <= sy,
        sx * sx <= 2 * ENTRY_BOUND * ENTRY_BOUND,
        sy * sy <= 2 * ENTRY_BOUND * ENTRY_BOUND,
    ensures
        scale_of(sx as int, sy as int, r as int),
{
    if sx == sy {
        sx
    } else {
        let a = sx as u128;
        let b = sy as u128;
        let v = (a * a + b * b) / 2;
        let r = isqrt(v);
        assert(r < 0x8000_0000_0000_0000u128) by (nonlinear_arith)
            requires r * r <= v, v <= 2 * ENTRY_BOUND * ENTRY_BOUND, r >= 0, ENTRY_BOUND == 0x4000_0000_0000_0000i64;
        r as i64
    }
}

/// Where a matrix takes the abscissa of a point.
pub open spec fn point_image_x(m: Seq<int>, p: Point) -> int {
    fx_dot(m[0], p.x as int, m[1], p.y as int, m[2], FIXED_ONE as int)
}

/// Where a matrix takes the ordinate of a point.
pub open spec fn point_image_y(m: Seq<int>, p: Point) -> int {
    fx_dot(m[3], p.x as int, m[4], p.y as int, m[5], FIXED_ONE as int)
}

/// A size: a magnitude along each axis, with no position.
#[derive(Debug, Clone, Copy, PartialEq, Eq)]
pub struct Size {
    pub x: i64,
    pub y: i64,
}

impl Size {
    pub fn new(x: i64, y: i64) -> (r: Size)
        ensures
            r == (Size { x, y }),
    {
        Size { x, y }
    }
}

/// A location in the plane.
#[derive(Debug, Clone, Copy, PartialEq, Eq)]
pub struct Point {
    pub x: i64,
    pub y: i64,
}

impl Point {
    pub fn new(x: i64, y: i64) -> (r: Point)
        ensures
            r == (Point { x, y }),
    {
        Point { x, y }
    }

    /// The distance to `p`, rounded down.
    pub fn distance_to(&self, p: &Point) -> (r: i64)
        requires
            (p.x - self.x) * (p.x - self.x) + (p.y - self.y) * (p.y - self.y) <= i64::MAX * i64::MAX,
        ensures
            is_floor_sqrt((p.x - self.x) * (p.x - self.x) + (p.y - self.y) * (p.y - self.y), r as int),
    {
        let dx: i128 = p.x as i128 - self.x as i128;
        let dy: i128 = p.y as i128 - self.y as i128;
        let ax: u128 = if dx >= 0 { dx as u128 } else { (-dx) as u128 };
        let ay: u128 = if dy >= 0 { dy as u128 } else { (-dy) as u128 };
        assert(ax * ax == dx * dx && ay * ay == dy * dy) by (nonlinear_arith)
            requires ax == dx || ax == -dx, ay == dy || ay == -dy;
        assert(ax * ax <= i64::MAX * i64::MAX && ay * ay <= i64::MAX * i64::MAX) by (nonlinear_arith)
            requires ax * ax + ay * ay <= i64::MAX * i64::MAX;
        let r = isqrt(ax * ax + ay * ay);
        assert(r <= i64::MAX) by (nonlinear_arith)
            requires r * r <= ax * ax + ay * ay, ax * ax + ay * ay <= i64::MAX * i64::MAX, r >= 0;
        r as i64
    }
}

/// A composed affine map of the plane, held as a 3x3 fixed-point matrix.
/// `m` holds the matrix by rows; `scale_x` and `scale_y` are the lengths of
/// the images of the basis
/// vectors and `scale` one representative of both.
#[derive(Debug)]
pub struct Transformation {
    pub scale: i64,
    pub scale_x: i64,
    pub scale_y: i64,
    pub m: [i64; 9],
}

impl Transformation {
    /// The matrix, by rows.
    pub open spec fn matrix(&self) -> Seq<int> {
        self.m@.map_values(|v: i64| v as int)
    }

    /// The matrix is affine and bounded, and the scales are those of the matrix.
    pub open spec fn wf(&self) -> bool {
        &&& affine_bounded(self.matrix())
        &&& scale_x_of(self.matrix(), self.scale_x as int)
        &&& scale_y_of(self.matrix(), self.scale_y as int)
        &&& scale_of(self.scale_x as int, self.scale_y as int, self.scale as int)
    }

    /// The identity transformation.
    pub fn new() -> (r: Transformation)
        ensures
            r.wf(),
            r.matrix() == identity(),
            affine_bounded(r.matrix()),
            r.scale == FIXED_ONE && r.scale_x == FIXED_ONE && r.scale_y == FIXED_ONE,
    {
        let r = Transformation {
            m: [FIXED_ONE, 0, 0, 0, FIXED_ONE, 0, 0, 0, FIXED_ONE],
            scale: FIXED_ONE,
            scale_x: FIXED_ONE,
            scale_y: FIXED_ONE,
        };
        assert(r.matrix() =~= identity());
        assert(FIXED_ONE * FIXED_ONE + 0 * 0 == FIXED_ONE * FIXED_ONE);
        r
    }

    /// Adds a scaling by `sx` and `sy`, applied after the transformation so far.
    pub fn scale(&mut self, sx: i64, sy: i64)
        requires
            old(self).wf(),
            affine_bounded(mat_mul(scaling(sx as int, sy as int), old(self).matrix())),
        ensures
            final(self).wf(),
            final(self).matrix() == mat_mul(scaling(sx as int, sy as int), old(self).matrix()),
            scale_x_of(final(self).matrix(), final(self).scale_x as int),
            scale_y_of(final(self).matrix(), final(self).scale_y as int),
            scale_of(final(self).scale_x as int, final(self).scale_y as int, final(self).scale as int),
    {
        let s = [sx, 0, 0, 0, sy, 0, 0, 0, FIXED_ONE];
        assert(s@.map_values(|v: i64| v as int) =~= scaling(sx as int, sy as int));
        self.multiply(&s);
    }

    /// Adds a move by `dx` and `dy`, applied after the transformation so far.
    pub fn translate(&mut self, dx: i64, dy: i64)
        requires
            old(self).wf(),
            affine_bounded(mat_mul(translation(dx as int, dy as int), old(self).matrix())),
        ensures
            final(self).wf(),
            final(self).matrix() == mat_mul(translation(dx as int, dy as int), old(self).matrix()),
            scale_x_of(final(self).matrix(), final(self).scale_x as int),
            scale_y_of(final(self).matrix(), final(self).scale_y as int),
            scale_of(final(self).scale_x as int, final(self).scale_y as int, final(self).scale as int),
    {
        let t = [FIXED_ONE, 0, dx, 0, FIXED_ONE, dy, 0, 0, FIXED_ONE];
        assert(t@.map_values(|v: i64| v as int) =~= translation(dx as int, dy as int));
        self.multiply(&t);
    }

    fn multiply(&mut self, n: &[i64; 9])
        requires
            old(self).wf(),
            n[6] == 0 && n[7] == 0 && n[8] == FIXED_ONE,
            affine_bounded(mat_mul(n@.map_values(|v: i64| v as int), old(self).matrix())),
        ensures
            final(self).wf(),
            final(self).matrix() == mat_mul(n@.map_values(|v: i64| v as int), old(self).matrix()),
    {
        let ghost nm = n@.map_values(|v: i64| v as int);
        let ghost mm = self.matrix();
        let ghost pm = mat_mul(nm, mm);
        let m = self.m;
        proof {
            assert(forall|i: int| 0 <= i < 9 ==> mm[i] == m[i] as int);
            assert(forall|i: int| 0 <= i < 9 ==> nm[i] == n[i] as int);
            assert forall|i: int, j: int| 0 <= i < 9 && 0 <= j < 9 implies
                -PRODUCT_BOUND <= #[trigger] ((n[i] as int) * (m[j] as int)) <= PRODUCT_BOUND by {
                assert(-ENTRY_BOUND <= mm[j] <= ENTRY_BOUND);
                lemma_product_bound(m[j] as int, n[i] as int);
            }
        }
        let m00 = dot(n[0], m[0], n[1], m[3], n[2], m[6]);
        let m01 = dot(n[0], m[1], n[1], m[4], n[2], m[7]);
        let m02 = dot(n[0], m[2], n[1], m[5], n[2], m[8]);
        let m10 = dot(n[3], m[0], n[4], m[3], n[5], m[6]);
        let m11 = dot(n[3], m[1], n[4], m[4], n[5], m[7]);
        let m12 = dot(n[3], m[2], n[4], m[5], n[5], m[8]);
        let m20 = dot(n[6], m[0], n[7], m[3], n[8], m[6]);
        let m21 = dot(n[6], m[1], n[7], m[4], n[8], m[7]);
        let m22 = dot(n[6], m[2], n[7], m[5], n[8], m[8]);
        proof {
            assert(pm[0] == m00 && pm[1] == m01 && pm[2] == m02);
            assert(pm[3] == m10 && pm[4] == m11 && pm[5] == m12);
            assert(pm[6] == m20 && pm[7] == m21 && pm[8] == m22);
            assert(-ENTRY_BOUND <= pm[0] <= ENTRY_BOUND);
            assert(-ENTRY_BOUND <= pm[1] <= ENTRY_BOUND);
            assert(-ENTRY_BOUND <= pm[2] <= ENTRY_BOUND);
            assert(-ENTRY_BOUND <= pm[3] <= ENTRY_BOUND);
            assert(-ENTRY_BOUND <= pm[4] <= ENTRY_BOUND);
            assert(-ENTRY_BOUND <= pm[5] <= ENTRY_BOUND);
        }
        self.m = [
            m00 as i64,
            m01 as i64,
            m02 as i64,
            m10 as i64,
            m11 as i64,
            m12 as i64,
            m20 as i64,
            m21 as i64,
            m22 as i64,
        ];
        assert(self.matrix() =~= pm);
        self.scale_x = norm(self.m[0], self.m[3]);
        self.scale_y = norm(self.m[1], self.m[4]);
        self.scale = mean_scale(self.scale_x, self.scale_y);
    }

    /// Moves `p` to its image: the matrix applied to `(x, y, 1)`.
    pub fn transform_point(&self, p: &mut Point)
        requires
            self.wf(),
            i64::MIN <= point_image_x(self.matrix(), *old(p)) <= i64::MAX,
            i64::MIN <= point_image_y(self.matrix(), *old(p)) <= i64::MAX,
        ensures
            final(p).x == point_image_x(self.matrix(), *old(p)),
            final(p).y == point_image_y(self.matrix(), *old(p)),
    {
        let m = self.m;
        proof {
            let mm = self.matrix();
            assert(forall|i: int| 0 <= i < 9 ==> mm[i] == m[i] as int);
            assert(-ENTRY_BOUND <= mm[0] <= ENTRY_BOUND && -ENTRY_BOUND <= mm[1] <= ENTRY_BOUND);
            assert(-ENTRY_BOUND <= mm[2] <= ENTRY_BOUND && -ENTRY_BOUND <= mm[3] <= ENTRY_BOUND);
            assert(-ENTRY_BOUND <= mm[4] <= ENTRY_BOUND && -ENTRY_BOUND <= mm[5] <= ENTRY_BOUND);
            lemma_product_bound(m[0] as int, p.x as int);
            lemma_product_bound(m[1] as int, p.y as int);
            lemma_product_bound(m[2] as int, FIXED_ONE as int);
            lemma_product_bound(m[3] as int, p.x as int);
            lemma_product_bound(m[4] as int, p.y as int);
            lemma_product_bound(m[5] as int, FIXED_ONE as int);
        }
        let x = dot(m[0], p.x, m[1], p.y, m[2], FIXED_ONE);
        let y = dot(m[3], p.x, m[4], p.y, m[5], FIXED_ONE);
        p.x = x as i64;
        p.y = y as i64;
    }
}

/// The matrix that `Transformation::new` followed by `scale(sx, sy)` holds.
proof fn lemma_scaled_identity(sx: int, sy: int)
    requires
        -ENTRY_BOUND <= sx <= ENTRY_BOUND,
        -ENTRY_BOUND <= sy <= ENTRY_BOUND,
    ensures
        mat_mul(scaling(sx, sy), identity()) =~= scaling(sx, sy),
        affine_bounded(scaling(sx, sy)),
{
    let one = FIXED_ONE as int;
    vstd::arithmetic::div_mod::lemma_fundamental_div_mod_converse(sx * one, one, sx, 0);
    vstd::arithmetic::div_mod::lemma_fundamental_div_mod_converse(sy * one, one, sy, 0);
    vstd::arithmetic::div_mod::lemma_div_by_multiple(one, one);
    assert(sx * one + 0 * 0 + 0 * 0 == sx * one);
    assert(0 * one + sx * 0 + 0 * 0 == 0);
    assert(0 * 0 + sy * one + 0 * 0 == sy * one);
    assert(0 * 0 + 0 * 0 + one * one == one * one);
    assert(sx * 0 + 0 * one + 0 * 0 == 0);
    assert(sx * 0 + 0 * 0 + 0 * one == 0);
    assert(0 * one + sy * 0 + 0 * 0 == 0);
    assert(0 * 0 + sy * 0 + 0 * one == 0);
    assert(0 * one + 0 * 0 + one * 0 == 0);
    assert(0 * 0 + 0 * one + one * 0 == 0);
    let m = scaling(sx, sy);
    assert forall|i: int| 0 <= i < 9 implies -ENTRY_BOUND <= #[trigger] m[i] <= ENTRY_BOUND by {}
}

/// A transformation that scales by `sx` and `sy` alone.
fn scaler(sx: i64, sy: i64) -> (t: Transformation)
    requires
        -ENTRY_BOUND <= sx <= ENTRY_BOUND,
        -ENTRY_BOUND <= sy <= ENTRY_BOUND,
    ensures
        t.wf(),
        t.matrix() == scaling(sx as int, sy as int),
{
    let mut t = Transformation::new();
    proof {
        lemma_scaled_identity(sx as int, sy as int);
    }
    t.scale(sx, sy);
    t
}

/// Values that a transformation moves.
pub trait Transform: Sized {
    /// Whether `t` keeps this value within the fixed-point range.
    spec fn transformable(&self, t: &Transformation) -> bool;

    /// The value that `t` makes of this one.
    spec fn transformed(&self, t: &Transformation) -> Self;

    /// Whether a scaling by `sx` and `sy` keeps this value within range.
    spec fn scalable(&self, sx: int, sy: int) -> bool;

    /// The value that a scaling by `sx` and `sy` makes of this one.
    spec fn scaled(&self, sx: int, sy: int) -> Self;

    /// Applies `t`.
    fn transform(self, t: &Transformation) -> (r: Self)
        requires
            t.wf(),
            self.transformable(t),
        ensures
            r == self.transformed(t);

    /// Applies a scaling by `sx` and `sy`.
    fn scale(self, sx: i64, sy: i64) -> (r: Self)
        requires
            -ENTRY_BOUND <= sx <= ENTRY_BOUND,
            -ENTRY_BOUND <= sy <= ENTRY_BOUND,
            self.scalable(sx as int, sy as int),
        ensures
            r == self.scaled(sx as int, sy as int);
}

/// Whether an integer fits in 64 bits.
pub open spec fn fits64(v: int) -> bool {
    i64::MIN <= v <= i64::MAX
}

impl Transform for Point {
    /// The whole matrix moves a point.
    open spec fn transformable(&self, t: &Transformation) -> bool {
        fits64(point_image_x(t.matrix(), *self)) && fits64(point_image_y(t.matrix(), *self))
    }

    open spec fn transformed(&self, t: &Transformation) -> Point {
        Point {
            x: point_image_x(t.matrix(), *self) as i64,
            y: point_image_y(t.matrix(), *self) as i64,
        }
    }

    open spec fn scalable(&self, sx: int, sy: int) -> bool {
        self.transformable(&Transformation { scale: 0, scale_x: 0, scale_y: 0, m: [sx as i64, 0, 0, 0, sy as i64, 0, 0, 0, FIXED_ONE] })
    }

    open spec fn scaled(&self, sx: int, sy: int) -> Point {
        self.transformed(&Transformation { scale: 0, scale_x: 0, scale_y: 0, m: [sx as i64, 0, 0, 0, sy as i64, 0, 0, 0, FIXED_ONE] })
    }

    fn transform(self, t: &Transformation) -> (r: Point) {
        let mut p = self;
        t.transform_point(&mut p);
        p
    }

    fn scale(self, sx: i64, sy: i64) -> (r: Point) {
        let t = scaler(sx, sy);
        self.transform(&t)
    }
}

impl Transform for Size {
    /// Only the scales act on a size: it has no position to move.
    open spec fn transformable(&self, t: &Transformation) -> bool {
        fits64(fx_mul(self.x as int, t.scale_x as int)) && fits64(fx_mul(self.y as int, t.scale_y as int))
    }

    open spec fn transformed(&self, t: &Transformation) -> Size {
        Size {
            x: fx_mul(self.x as int, t.scale_x as int) as i64,
            y: fx_mul(self.y as int, t.scale_y as int) as i64,
        }
    }

    open spec fn scalable(&self, sx: int, sy: int) -> bool {
        fits64(fx_mul(self.x as int, abs(sx) as int)) && fits64(fx_mul(self.y as int, abs(sy) as int))
    }

    open spec fn scaled(&self, sx: int, sy: int) -> Size {
        Size { x: fx_mul(self.x as int, abs(sx) as int) as i64, y: fx_mul(self.y as int, abs(sy) as int) as i64 }
    }

    fn transform(self, t: &Transformation) -> (r: Size) {
        proof {
            lemma_wide_product(self.x as int, t.scale_x as int);
            lemma_wide_product(self.y as int, t.scale_y as int);
        }
        let x = div_floor(self.x as i128 * t.scale_x as i128, FIXED_ONE as u128);
        let y = div_floor(self.y as i128 * t.scale_y as i128, FIXED_ONE as u128);
        Size { x: x as i64, y: y as i64 }
    }

    fn scale(self, sx: i64, sy: i64) -> (r: Size) {
        let t = scaler(sx, sy);
        proof {
            lemma_sqrt_of_square(sx as int, t.scale_x as int);
            lemma_sqrt_of_square(sy as int, t.scale_y as int);
        }
        self.transform(&t)
    }
}

/// A product of two 64-bit integers fits in 127 bits.
proof fn lemma_wide_product(a: int, b: int)
    requires
        i64::MIN <= a <= i64::MAX,
        i64::MIN <= b <= i64::MAX,
    ensures
        -0x4000_0000_0000_0000_0000_0000_0000_0000 <= a * b <= 0x4000_0000_0000_0000_0000_0000_0000_0000,
{
    assert(-0x4000_0000_0000_0000_0000_0000_0000_0000 <= a * b <= 0x4000_0000_0000_0000_0000_0000_0000_0000)
        by (nonlinear_arith)
        requires
            i64::MIN <= a <= i64::MAX,
            i64::MIN <= b <= i64::MAX;
}

/// `(a + k * d) / d` is `a / d + k`.
proof fn lemma_div_shift(a: int, k: int, d: int)
    requires
        0 < d,
    ensures
        (a + k * d) / d == a / d + k,
{
    let q = a / d;
    let r = a % d;
    vstd::arithmetic::div_mod::lemma_fundamental_div_mod(a, d);
    assert(a + k * d == d * (q + k) + r) by (nonlinear_arith)
        requires a == d * q + r;
    vstd::arithmetic::div_mod::lemma_fundamental_div_mod_converse(a + k * d, d, q + k, r);
}

/// A translation added to a transformation moves the image of every point by
/// exactly its offset: operations added later apply after those before them.
pub proof fn lemma_translate_applies_last(m: Seq<int>, dx: int, dy: int, p: Point)
    requires
        m.len() == 9,
        m[6] == 0 && m[7] == 0 && m[8] == FIXED_ONE as int,
    ensures
        point_image_x(mat_mul(translation(dx, dy), m), p) == point_image_x(m, p) + dx,
        point_image_y(mat_mul(translation(dx, dy), m), p) == point_image_y(m, p) + dy,
{
    let one = FIXED_ONE as int;
    let n = mat_mul(translation(dx, dy), m);
    lemma_div_shift(0, m[0], one);
    lemma_div_shift(0, m[1], one);
    lemma_div_shift(0, m[3], one);
    lemma_div_shift(0, m[4], one);
    lemma_div_shift(0, m[2] + dx, one);
    lemma_div_shift(0, m[5] + dy, one);
    assert(one * m[0] + 0 * m[3] + dx * m[6] == 0 + m[0] * one) by (nonlinear_arith)
        requires m[6] == 0;
    assert(one * m[1] + 0 * m[4] + dx * m[7] == 0 + m[1] * one) by (nonlinear_arith)
        requires m[7] == 0;
    assert(one * m[2] + 0 * m[5] + dx * m[8] == 0 + (m[2] + dx) * one) by (nonlinear_arith)
        requires m[8] == one;
    assert(0 * m[0] + one * m[3] + dy * m[6] == 0 + m[3] * one) by (nonlinear_arith)
        requires m[6] == 0;
    assert(0 * m[1] + one * m[4] + dy * m[7] == 0 + m[4] * one) by (nonlinear_arith)
        requires m[7] == 0;
    assert(0 * m[2] + one * m[5] + dy * m[8] == 0 + (m[5] + dy) * one) by (nonlinear_arith)
        requires m[8] == one;
    assert(n[0] == m[0] && n[1] == m[1] && n[2] == m[2] + dx);
    assert(n[3] == m[3] && n[4] == m[4] && n[5] == m[5] + dy);
    let x = m[0] * p.x + m[1] * p.y + m[2] * one;
    let y = m[3] * p.x + m[4] * p.y + m[5] * one;
    assert(n[0] * p.x + n[1] * p.y + n[2] * one == x + dx * one) by (nonlinear_arith)
        requires n[0] == m[0], n[1] == m[1], n[2] == m[2] + dx, x == m[0] * p.x + m[1] * p.y + m[2] * one;
    assert(n[3] * p.x + n[4] * p.y + n[5] * one == y + dy * one) by (nonlinear_arith)
        requires n[3] == m[3], n[4] == m[4], n[5] == m[5] + dy, y == m[3] * p.x + m[4] * p.y + m[5] * one;
    lemma_div_shift(x, dx, one);
    lemma_div_shift(y, dy, one);
}

/// The floor square root of a square is the absolute value.
proof fn lemma_sqrt_of_square(a: int, r: int)
    requires
        is_floor_sqrt(a * a + 0 * 0, r),
    ensures
        r == abs(a),
{
    let b = abs(a);
    assert(b * b == a * a) by (nonlinear_arith)
        requires b == a || b == -a;
    if r < b {
        assert((r + 1) * (r + 1) <= b * b) by (nonlinear_arith)
            requires 0 <= r < b;
    } else if r > b {
        assert(r * r > b * b) by (nonlinear_arith)
            requires 0 <= b < r;
    }
}

} // verus!
