//! Integer plane geometry: squared distances, radius tests, integer square
//! roots and straight-line steps of a given length.

use vstd::prelude::*;

verus! {

/// A point or a displacement on the plane, in thousandths of a world unit.
#[derive(Clone, Copy, Debug, PartialEq, Eq, Structural)]
pub struct Vec2 {
    pub x: i32,
    pub y: i32,
}

/// `r` is the integer square root of `n`, rounded down.
pub open spec fn is_floor_sqrt(n: int, r: int) -> bool {
    0 <= r && r * r <= n && n < (r + 1) * (r + 1)
}

/// The integer square root of `n`, rounded down (for `n >= 0`).
pub open spec fn floor_sqrt(n: int) -> int {
    choose|r: int| is_floor_sqrt(n, r)
}

/// Squaring keeps the order of non-negative integers.
pub proof fn lemma_square_monotone(a: int, b: int)
    requires
        0 <= a <= b,
    ensures
        a * a <= b * b,
{
    assert(a * a <= b * b) by (nonlinear_arith)
        requires
            0 <= a <= b,
    ;
}

/// At most one integer is the rounded-down square root of `n`.
pub proof fn lemma_floor_sqrt_unique(n: int, r: int)
    requires
        is_floor_sqrt(n, r),
    ensures
        floor_sqrt(n) == r,
{
    let s = floor_sqrt(n);
    assert(is_floor_sqrt(n, s));
    if s < r {
        lemma_square_monotone(s + 1, r);
    } else if r < s {
        lemma_square_monotone(r + 1, s);
    }
}

/// Every number from zero on has a rounded-down square root.
pub proof fn lemma_floor_sqrt_exists(n: int)
    requires
        0 <= n,
    ensures
        is_floor_sqrt(n, floor_sqrt(n)),
    decreases n,
{
    if n == 0 {
        assert(is_floor_sqrt(0, 0));
    } else {
        lemma_floor_sqrt_exists(n - 1);
        let r = floor_sqrt(n - 1);
        if (r + 1) * (r + 1) <= n {
            assert((r + 2) * (r + 2) > (r + 1) * (r + 1)) by (nonlinear_arith)
                requires
                    r >= 0,
            ;
            assert(is_floor_sqrt(n, r + 1));
        } else {
            assert(is_floor_sqrt(n, r));
        }
    }
}

/// Integer square root, rounded down.
pub fn isqrt(n: u128) -> (r: u64)
    ensures
        is_floor_sqrt(n as int, r as int),
        r as int == floor_sqrt(n as int),
{
    let mut lo: u128 = 0;
    let mut hi: u128 = 0x1_0000_0000_0000_0000;
    while hi - lo > 1
        invariant
            lo < hi <= 0x1_0000_0000_0000_0000,
            lo * lo <= n,
            n < hi * hi,
        decreases hi - lo,
    {
        let mid: u128 = lo + (hi - lo) / 2;
        assert(mid * mid <= 0xffff_ffff_ffff_ffff * 0xffff_ffff_ffff_ffff) by (nonlinear_arith)
            requires
                0 <= mid <= 0xffff_ffff_ffff_ffff,
        ;
        if mid * mid <= n {
            lo = mid;
        } else {
            hi = mid;
        }
    }
    proof {
        lemma_floor_sqrt_unique(n as int, lo as int);
    }
    lo as u64
}

/// Magnitude of a signed value.
pub open spec fn magnitude(v: int) -> int {
    if v < 0 {
        -v
    } else {
        v
    }
}

/// `v` limited to the range of a coordinate.
pub open spec fn clamp_coord(v: int) -> int {
    if v < i32::MIN {
        i32::MIN as int
    } else if v > i32::MAX {
        i32::MAX as int
    } else {
        v
    }
}

/// Length covered in `delta_micros` microseconds at `speed` world units per
/// second, in thousandths of a unit, rounded down and limited to `u32::MAX`.
pub open spec fn step_length(speed: int, delta_micros: int) -> int {
    let exact = speed * delta_micros / 1000;
    if exact > u32::MAX {
        u32::MAX as int
    } else {
        exact
    }
}

/// One coordinate of the vector of length `len` that points along
/// `(c, o)`, rounded toward zero: `len * c / sqrt(c*c + o*o)`.
/// It is zero when `c` is zero, so the zero vector gives no motion.
pub open spec fn axis_shift(c: int, o: int, len: int) -> int {
    if c == 0 {
        0
    } else {
        let r = floor_sqrt((len * len) * (c * c) / (c * c + o * o));
        if c < 0 {
            -r
        } else {
            r
        }
    }
}

/// The point reached from `from` by a step of length `len` along `(dx, dy)`.
/// Coordinates stop at the ends of the coordinate range.
pub open spec fn displaced(from: Vec2, dx: int, dy: int, len: int) -> Vec2 {
    Vec2 {
        x: clamp_coord(from.x + axis_shift(dx, dy, len)) as i32,
        y: clamp_coord(from.y + axis_shift(dy, dx, len)) as i32,
    }
}

/// A step of length `len` is `len` long, up to rounding: it is no longer,
/// and one more thousandth along each axis would make it longer.
pub proof fn lemma_step_is_len_long(dx: int, dy: int, len: int)
    requires
        dx != 0 || dy != 0,
        0 <= len,
    ensures
        axis_shift(dx, dy, len) * axis_shift(dx, dy, len) + axis_shift(dy, dx, len) * axis_shift(
            dy,
            dx,
            len,
        ) <= len * len,
        len * len < (magnitude(axis_shift(dx, dy, len)) + 1) * (magnitude(axis_shift(dx, dy, len))
            + 1) + (magnitude(axis_shift(dy, dx, len)) + 1) * (magnitude(axis_shift(dy, dx, len))
            + 1),
{
    let all = dx * dx + dy * dy;
    let a = (len * len) * (dx * dx);
    let b = (len * len) * (dy * dy);
    assert(all > 0 && a >= 0 && b >= 0 && a + b == (len * len) * all && dy * dy + dx * dx == all)
        by (nonlinear_arith)
        requires
            dx != 0 || dy != 0,
            all == dx * dx + dy * dy,
            a == (len * len) * (dx * dx),
            b == (len * len) * (dy * dy),
    ;
    let qa = a / all;
    let qb = b / all;
    assert(0 <= qa && 0 <= qb && qa + qb <= len * len && len * len < qa + qb + 2)
        by (nonlinear_arith)
        requires
            all > 0,
            a >= 0,
            b >= 0,
            a + b == (len * len) * all,
            qa == a / all,
            qb == b / all,
    ;
    lemma_floor_sqrt_exists(qa);
    lemma_floor_sqrt_exists(qb);
    let ra = floor_sqrt(qa);
    let rb = floor_sqrt(qb);
    if dx == 0 {
        assert(a == 0) by (nonlinear_arith)
            requires
                dx == 0,
                a == (len * len) * (dx * dx),
        ;
        lemma_floor_sqrt_unique(0, 0);
    }
    if dy == 0 {
        assert(b == 0) by (nonlinear_arith)
            requires
                dy == 0,
                b == (len * len) * (dy * dy),
        ;
        lemma_floor_sqrt_unique(0, 0);
    }
    let sx = axis_shift(dx, dy, len);
    let sy = axis_shift(dy, dx, len);
    assert(magnitude(sx) == ra && magnitude(sy) == rb);
    assert(sx * sx == ra * ra && sy * sy == rb * rb) by (nonlinear_arith)
        requires
            magnitude(sx) == ra,
            magnitude(sy) == rb,
    ;
}

/// Computes [`step_length`].
pub fn step_len(speed: u32, delta_micros: u64) -> (len: u32)
    ensures
        len as int == step_length(speed as int, delta_micros as int),
{
    assert(speed * delta_micros <= 0xffff_ffff * 0xffff_ffff_ffff_ffff) by (nonlinear_arith)
        requires
            0 <= speed <= 0xffff_ffff,
            0 <= delta_micros <= 0xffff_ffff_ffff_ffff,
    ;
    let exact: u128 = (speed as u128) * (delta_micros as u128) / 1000;
    if exact > u32::MAX as u128 {
        u32::MAX
    } else {
        exact as u32
    }
}

fn abs_wide(v: i64) -> (a: u128)
    requires
        -0x4000_0000_0000_0000 < v < 0x4000_0000_0000_0000,
    ensures
        a as int == magnitude(v as int),
        a < 0x4000_0000_0000_0000,
{
    if v < 0 {
        (-v) as u128
    } else {
        v as u128
    }
}

fn shift_along(c: i64, o: i64, len: u32) -> (m: i64)
    requires
        -0x4000_0000_0000_0000 < c < 0x4000_0000_0000_0000,
        -0x4000_0000_0000_0000 < o < 0x4000_0000_0000_0000,
        magnitude(c as int) * len < 0x1_0000_0000_0000_0000,
    ensures
        m as int == axis_shift(c as int, o as int, len as int),
        -(len as int) <= m <= len as int,
{
    if c == 0 {
        return 0;
    }
    let ca: u128 = abs_wide(c);
    let oa: u128 = abs_wide(o);
    let l: u128 = len as u128;
    assert(ca * ca <= 0x3fff_ffff_ffff_ffff * 0x3fff_ffff_ffff_ffff && oa * oa
        <= 0x3fff_ffff_ffff_ffff * 0x3fff_ffff_ffff_ffff && ca * ca >= 1) by (nonlinear_arith)
        requires
            1 <= ca <= 0x3fff_ffff_ffff_ffff,
            0 <= oa <= 0x3fff_ffff_ffff_ffff,
    ;
    let cc: u128 = ca * ca;
    let den: u128 = cc + oa * oa;
    assert(l * ca == ca * l) by (nonlinear_arith);
    let reach: u128 = l * ca;
    assert(reach * reach <= 0xffff_ffff_ffff_ffff * 0xffff_ffff_ffff_ffff && reach * reach == (l
        * l) * (ca * ca)) by (nonlinear_arith)
        requires
            0 <= reach <= 0xffff_ffff_ffff_ffff,
            reach == l * ca,
    ;
    let q: u128 = reach * reach / den;
    let r: u64 = isqrt(q);
    proof {
        let ll = l * l;
        assert(cc == (c as int) * (c as int) && oa * oa == (o as int) * (o as int))
            by (nonlinear_arith)
            requires
                ca as int == magnitude(c as int),
                oa as int == magnitude(o as int),
                cc == ca * ca,
        ;
        assert(q <= ll) by (nonlinear_arith)
            requires
                q == ll * cc / (den as int),
                den >= cc,
                cc >= 1,
                ll >= 0,
        ;
        if r as int > l as int {
            lemma_square_monotone(l as int + 1, r as int);
            assert((l + 1) * (l + 1) > l * l) by (nonlinear_arith)
                requires
                    l >= 0,
            ;
        }
    }
    if c < 0 {
        -(r as i64)
    } else {
        r as i64
    }
}

fn clamp_to_coord(v: i64) -> (c: i32)
    ensures
        c as int == clamp_coord(v as int),
{
    if v < i32::MIN as i64 {
        i32::MIN
    } else if v > i32::MAX as i64 {
        i32::MAX
    } else {
        v as i32
    }
}

fn displace(from: Vec2, dx: i64, dy: i64, len: u32) -> (to: Vec2)
    requires
        -0x1_0000_0000 < dx < 0x1_0000_0000,
        -0x1_0000_0000 < dy < 0x1_0000_0000,
    ensures
        to == displaced(from, dx as int, dy as int, len as int),
{
    assert(magnitude(dx as int) * len < 0x1_0000_0000_0000_0000 && magnitude(dy as int) * len
        < 0x1_0000_0000_0000_0000) by (nonlinear_arith)
        requires
            0 <= magnitude(dx as int) <= 0xffff_ffff,
            0 <= magnitude(dy as int) <= 0xffff_ffff,
            0 <= len <= 0xffff_ffff,
    ;
    let sx: i64 = shift_along(dx, dy, len);
    let sy: i64 = shift_along(dy, dx, len);
    Vec2 { x: clamp_to_coord(from.x as i64 + sx), y: clamp_to_coord(from.y as i64 + sy) }
}

/// Length of a vector that stands for a direction: such a vector is a
/// million times as long as a unit vector.
pub const TRIG_SCALE: u32 = 1_000_000;

/// The cosine and the sine of an angle, in millionths.
#[derive(Clone, Copy, Debug, PartialEq, Eq, Structural)]
pub struct Turn {
    pub cos: i32,
    pub sin: i32,
}

/// The direction of `(dx, dy)`: the vector of length [`TRIG_SCALE`] that
/// points the same way, each coordinate rounded toward zero, and the zero
/// vector for the zero vector.
pub open spec fn unit_vector(dx: int, dy: int) -> Vec2 {
    Vec2 {
        x: axis_shift(dx, dy, TRIG_SCALE as int) as i32,
        y: axis_shift(dy, dx, TRIG_SCALE as int) as i32,
    }
}

/// Whether no coordinate of `v` is longer than [`TRIG_SCALE`], as it is
/// for every direction.
pub open spec fn is_direction(v: Vec2) -> bool {
    -(TRIG_SCALE as int) <= v.x <= TRIG_SCALE && -(TRIG_SCALE as int) <= v.y <= TRIG_SCALE
}

/// `value / TRIG_SCALE`, rounded toward zero.
pub open spec fn scaled_down(value: int) -> int {
    if value < 0 {
        -((-value) / (TRIG_SCALE as int))
    } else {
        value / (TRIG_SCALE as int)
    }
}

/// The point at distance `radius` from `center` in the direction of
/// `turn`: `center + radius * (cos, sin)`. Each coordinate of the way is
/// rounded toward zero, and the point stops at the ends of the coordinate
/// range.
pub open spec fn ring_point(center: Vec2, radius: u32, turn: Turn) -> Vec2 {
    Vec2 {
        x: clamp_coord(center.x + scaled_down(radius * turn.cos)) as i32,
        y: clamp_coord(center.y + scaled_down(radius * turn.sin)) as i32,
    }
}

impl Turn {
    /// Whether cosine and sine are those of an angle, as far as millionths
    /// can tell: the sum of their squares is that of a number within one
    /// millionth of one.
    pub open spec fn is_unit(self) -> bool {
        let sum = self.cos * self.cos + self.sin * self.sin;
        (TRIG_SCALE - 1) * (TRIG_SCALE - 1) <= sum <= (TRIG_SCALE + 1) * (TRIG_SCALE + 1)
    }

    /// The first coordinate of `v` turned by the angle, times
    /// [`TRIG_SCALE`].
    pub open spec fn turned_x(self, v: Vec2) -> int {
        v.x * self.cos - v.y * self.sin
    }

    /// The second coordinate of `v` turned by the angle, times
    /// [`TRIG_SCALE`].
    pub open spec fn turned_y(self, v: Vec2) -> int {
        v.x * self.sin + v.y * self.cos
    }

    /// The direction `v` turned counter-clockwise by the angle.
    pub open spec fn turned(self, v: Vec2) -> Vec2 {
        unit_vector(self.turned_x(v), self.turned_y(v))
    }

    /// Takes cosine and sine in millionths; `None` if they are not those
    /// of an angle (see [`Turn::is_unit`]).
    pub fn new(cos: i32, sin: i32) -> (turn: Option<Turn>)
        ensures
            turn is Some <==> (Turn { cos, sin }).is_unit(),
            turn is Some ==> turn.unwrap() == (Turn { cos, sin }),
    {
        let c: i128 = cos as i128;
        let s: i128 = sin as i128;
        assert(0 <= c * c <= 0x8000_0000 * 0x8000_0000 && 0 <= s * s <= 0x8000_0000 * 0x8000_0000)
            by (nonlinear_arith)
            requires
                -0x8000_0000 <= c <= 0x8000_0000,
                -0x8000_0000 <= s <= 0x8000_0000,
        ;
        let sum: i128 = c * c + s * s;
        if 999_998_000_001 <= sum && sum <= 1_000_002_000_001 {
            Some(Turn { cos, sin })
        } else {
            None
        }
    }

    /// Neither the cosine nor the sine of an angle is more than one
    /// millionth above one.
    pub proof fn lemma_unit_bounds(self)
        requires
            self.is_unit(),
        ensures
            -(TRIG_SCALE as int) - 1 <= self.cos <= TRIG_SCALE + 1,
            -(TRIG_SCALE as int) - 1 <= self.sin <= TRIG_SCALE + 1,
    {
        let c = self.cos as int;
        let s = self.sin as int;
        assert(-1_000_001 <= c <= 1_000_001 && -1_000_001 <= s <= 1_000_001) by (nonlinear_arith)
            requires
                c * c + s * s <= 1_000_002_000_001,
        ;
    }

    /// Computes [`Turn::turned`].
    pub fn turn(&self, v: &Vec2) -> (to: Vec2)
        requires
            self.is_unit(),
            is_direction(*v),
        ensures
            to == self.turned(*v),
            is_direction(to),
    {
        proof {
            self.lemma_unit_bounds();
        }
        let c: i64 = self.cos as i64;
        let s: i64 = self.sin as i64;
        let x: i64 = v.x as i64;
        let y: i64 = v.y as i64;
        assert(-1_000_001_000_000 <= x * c <= 1_000_001_000_000 && -1_000_001_000_000 <= y * s
            <= 1_000_001_000_000 && -1_000_001_000_000 <= x * s <= 1_000_001_000_000
            && -1_000_001_000_000 <= y * c <= 1_000_001_000_000) by (nonlinear_arith)
            requires
                -1_000_000 <= x <= 1_000_000,
                -1_000_000 <= y <= 1_000_000,
                -1_000_001 <= c <= 1_000_001,
                -1_000_001 <= s <= 1_000_001,
        ;
        unit(x * c - y * s, x * s + y * c)
    }
}

fn unit(dx: i64, dy: i64) -> (dir: Vec2)
    requires
        -0x1000_0000_0000 < dx < 0x1000_0000_0000,
        -0x1000_0000_0000 < dy < 0x1000_0000_0000,
    ensures
        dir == unit_vector(dx as int, dy as int),
        is_direction(dir),
{
    assert(magnitude(dx as int) * TRIG_SCALE < 0x1_0000_0000_0000_0000 && magnitude(dy as int)
        * TRIG_SCALE < 0x1_0000_0000_0000_0000) by (nonlinear_arith)
        requires
            0 <= magnitude(dx as int) < 0x1000_0000_0000,
            0 <= magnitude(dy as int) < 0x1000_0000_0000,
            TRIG_SCALE == 1_000_000,
    ;
    let x: i64 = shift_along(dx, dy, TRIG_SCALE);
    let y: i64 = shift_along(dy, dx, TRIG_SCALE);
    Vec2 { x: x as i32, y: y as i32 }
}

fn scale_down(value: i64) -> (scaled: i64)
    requires
        value > i64::MIN,
    ensures
        scaled as int == scaled_down(value as int),
{
    if value < 0 {
        -(((-value) as u64 / TRIG_SCALE as u64) as i64)
    } else {
        (value as u64 / TRIG_SCALE as u64) as i64
    }
}

/// Computes [`ring_point`].
pub fn point_on_ring(center: &Vec2, radius: u32, turn: &Turn) -> (at: Vec2)
    ensures
        at == ring_point(*center, radius, *turn),
{
    let r: i64 = radius as i64;
    let c: i64 = turn.cos as i64;
    let s: i64 = turn.sin as i64;
    assert(-0x8000_0000 * 0xffff_ffff <= r * c <= 0x8000_0000 * 0xffff_ffff && -0x8000_0000
        * 0xffff_ffff <= r * s <= 0x8000_0000 * 0xffff_ffff) by (nonlinear_arith)
        requires
            0 <= r <= 0xffff_ffff,
            -0x8000_0000 <= c <= 0x8000_0000,
            -0x8000_0000 <= s <= 0x8000_0000,
    ;
    let x: i64 = scale_down(r * c);
    let y: i64 = scale_down(r * s);
    Vec2 { x: clamp_to_coord(center.x as i64 + x), y: clamp_to_coord(center.y as i64 + y) }
}

/// The square of the rounded-down quotient against the square of what
/// was divided: `(S * (a / S))^2` lies between `a^2 - 2 * a * S` and `a^2`.
proof fn lemma_scaled_square(a: int, q: int)
    requires
        0 <= a,
        q == a / (TRIG_SCALE as int),
    ensures
        a * a - 2 * a * TRIG_SCALE <= (TRIG_SCALE * q) * (TRIG_SCALE * q) <= a * a,
{
    let u = TRIG_SCALE * q;
    assert(0 <= u <= a && a - TRIG_SCALE < u);
    lemma_square_monotone(u, a);
    if a >= TRIG_SCALE {
        lemma_square_monotone(a - TRIG_SCALE, u);
        assert((a - TRIG_SCALE) * (a - TRIG_SCALE) == a * a - 2 * a * TRIG_SCALE + TRIG_SCALE
            * TRIG_SCALE) by (nonlinear_arith);
    } else {
        assert(a * a - 2 * a * TRIG_SCALE <= 0) by (nonlinear_arith)
            requires
                0 <= a < TRIG_SCALE,
        ;
        assert(0 <= u * u) by (nonlinear_arith);
    }
}

/// A point put on a ring lies at the radius of the ring from its center,
/// up to what rounding takes away: no more than three thousandths of a unit
/// nearer, and no more than one farther. This holds for radii of up to a
/// thousand units, for the cosine and sine of an angle, and as long as the
/// point does not stop at an end of the coordinate range.
pub proof fn lemma_ring_point_distance(center: Vec2, radius: u32, turn: Turn)
    requires
        turn.is_unit(),
        9 <= radius <= TRIG_SCALE,
        i32::MIN <= center.x + scaled_down(radius * turn.cos) <= i32::MAX,
        i32::MIN <= center.y + scaled_down(radius * turn.sin) <= i32::MAX,
    ensures
        (radius - 3) * (radius - 3) <= center.dist_sq(ring_point(center, radius, turn)),
        center.dist_sq(ring_point(center, radius, turn)) <= (radius + 1) * (radius + 1),
{
    let big = TRIG_SCALE as int;
    let r = radius as int;
    let c = turn.cos as int;
    let s = turn.sin as int;
    let x = scaled_down(r * c);
    let y = scaled_down(r * s);
    let a = magnitude(r * c);
    let b = magnitude(r * s);
    let p = magnitude(x);
    let q = magnitude(y);
    turn.lemma_unit_bounds();
    assert(p == a / big && q == b / big);
    lemma_scaled_square(a, p);
    lemma_scaled_square(b, q);
    let at = ring_point(center, radius, turn);
    assert(at.x - center.x == x && at.y - center.y == y);
    assert(center.dist_sq(at) == p * p + q * q) by (nonlinear_arith)
        requires
            center.dist_sq(at) == (center.x - at.x) * (center.x - at.x) + (center.y - at.y) * (
            center.y - at.y),
            at.x - center.x == x,
            at.y - center.y == y,
            p == magnitude(x),
            q == magnitude(y),
    ;
    assert(a * a == (r * r) * (c * c) && b * b == (r * r) * (s * s)) by (nonlinear_arith)
        requires
            a == magnitude(r * c),
            b == magnitude(r * s),
    ;
    assert((big * p) * (big * p) + (big * q) * (big * q) == (big * big) * (p * p + q * q))
        by (nonlinear_arith);
    let sum = c * c + s * s;
    assert((r * r) * (c * c) + (r * r) * (s * s) == (r * r) * sum) by (nonlinear_arith)
        requires
            sum == c * c + s * s,
    ;
    // No farther than one more than the radius.
    assert((r * r) * sum <= (r * r) * ((big + 1) * (big + 1))) by (nonlinear_arith)
        requires
            sum <= (big + 1) * (big + 1),
    ;
    assert((r * r) * ((big + 1) * (big + 1)) <= (big * big) * ((r + 1) * (r + 1)))
        by (nonlinear_arith)
        requires
            0 <= r <= big,
            big == 1_000_000,
    ;
    assert(p * p + q * q <= (r + 1) * (r + 1)) by (nonlinear_arith)
        requires
            (big * big) * (p * p + q * q) <= (big * big) * ((r + 1) * (r + 1)),
            big == 1_000_000,
    ;
    // No nearer than three less than the radius.
    assert(magnitude(c) + magnitude(s) <= 1_500_000) by (nonlinear_arith)
        requires
            c * c + s * s <= 1_000_002_000_001,
    ;
    assert(a + b <= r * 1_500_000) by (nonlinear_arith)
        requires
            a == magnitude(r * c),
            b == magnitude(r * s),
            magnitude(c) + magnitude(s) <= 1_500_000,
            0 <= r,
    ;
    assert((r * r) * sum >= (r * r) * ((big - 1) * (big - 1))) by (nonlinear_arith)
        requires
            sum >= (big - 1) * (big - 1),
    ;
    assert((r * r) * ((big - 1) * (big - 1)) - 3 * big * big * r >= (big * big) * ((r - 3) * (r
        - 3))) by (nonlinear_arith)
        requires
            9 <= r <= big,
            big == 1_000_000,
    ;
    assert(2 * a * big + 2 * b * big <= 3 * big * big * r) by (nonlinear_arith)
        requires
            a + b <= r * 1_500_000,
            big == 1_000_000,
    ;
    assert(p * p + q * q >= (r - 3) * (r - 3)) by (nonlinear_arith)
        requires
            (big * big) * (p * p + q * q) >= (big * big) * ((r - 3) * (r - 3)),
            big == 1_000_000,
    ;
}

impl Vec2 {
    /// Squared distance between two points.
    pub open spec fn dist_sq(self, other: Vec2) -> int {
        (self.x - other.x) * (self.x - other.x) + (self.y - other.y) * (self.y - other.y)
    }

    /// Whether `other` lies strictly closer than `radius`.
    pub open spec fn within(self, other: Vec2, radius: int) -> bool {
        self.dist_sq(other) < radius * radius
    }

    /// The point one step of length `len` nearer to `target`; the step is
    /// taken in full even where it carries past the target, and a point
    /// that coincides with its target stays where it is.
    pub open spec fn stepped_toward(self, target: Vec2, len: int) -> Vec2 {
        displaced(self, target.x - self.x, target.y - self.y, len)
    }

    /// The point one step of length `len` along `heading`; a zero heading
    /// gives no motion.
    pub open spec fn stepped_along(self, heading: Vec2, len: int) -> Vec2 {
        displaced(self, heading.x as int, heading.y as int, len)
    }

    /// The direction from this point to `target` (see [`unit_vector`]).
    pub open spec fn direction_toward(self, target: Vec2) -> Vec2 {
        unit_vector(target.x - self.x, target.y - self.y)
    }

    /// Computes [`Vec2::direction_toward`].
    pub fn direction_to(&self, target: &Vec2) -> (dir: Vec2)
        ensures
            dir == self.direction_toward(*target),
            is_direction(dir),
    {
        unit(target.x as i64 - self.x as i64, target.y as i64 - self.y as i64)
    }

    /// Computes [`Vec2::dist_sq`].
    pub fn distance_squared(&self, other: &Vec2) -> (d: u128)
        ensures
            d as int == self.dist_sq(*other),
    {
        let dx: i128 = self.x as i128 - other.x as i128;
        let dy: i128 = self.y as i128 - other.y as i128;
        assert(0 <= dx * dx <= 0xffff_ffff * 0xffff_ffff && 0 <= dy * dy <= 0xffff_ffff
            * 0xffff_ffff) by (nonlinear_arith)
            requires
                -0xffff_ffff <= dx <= 0xffff_ffff,
                -0xffff_ffff <= dy <= 0xffff_ffff,
        ;
        (dx * dx + dy * dy) as u128
    }

    /// Computes [`Vec2::within`].
    pub fn is_within(&self, other: &Vec2, radius: u32) -> (b: bool)
        ensures
            b == self.within(*other, radius as int),
    {
        assert(radius * radius <= 0xffff_ffff * 0xffff_ffff) by (nonlinear_arith)
            requires
                0 <= radius <= 0xffff_ffff,
        ;
        self.distance_squared(other) < (radius as u128) * (radius as u128)
    }

    /// Computes [`Vec2::stepped_toward`].
    pub fn step_toward(&self, target: &Vec2, len: u32) -> (to: Vec2)
        ensures
            to == self.stepped_toward(*target, len as int),
    {
        displace(*self, target.x as i64 - self.x as i64, target.y as i64 - self.y as i64, len)
    }

    /// Computes [`Vec2::stepped_along`].
    pub fn step_along(&self, heading: &Vec2, len: u32) -> (to: Vec2)
        ensures
            to == self.stepped_along(*heading, len as int),
    {
        displace(*self, heading.x as i64, heading.y as i64, len)
    }
}

} // verus!
