use vstd::prelude::*;
use crate::aabb::{UNITS_PER_PIXEL, Vec2};

verus! {

/// `m` is the least non-negative integer whose square is at least `n`.
pub open spec fn is_ceil_sqrt(m: int, n: int) -> bool {
    &&& m >= 0
    &&& m * m >= n
    &&& (m == 0 || (m - 1) * (m - 1) < n)
}

/// The least non-negative integer whose square is at least `n`.
pub open spec fn ceil_sqrt(n: int) -> int {
    choose|m: int| is_ceil_sqrt(m, n)
}

pub open spec fn abs(v: int) -> int {
    if v >= 0 {
        v
    } else {
        -v
    }
}

pub open spec fn norm_sq(x: int, y: int) -> int {
    x * x + y * y
}

/// One component of a vector of squared length `n` scaled to length
/// `UNITS_PER_PIXEL`: the component's magnitude times `UNITS_PER_PIXEL`,
/// divided by the rounded-up length and rounded toward zero, sign kept.
pub open spec fn scaled_component(v: int, n: int) -> int {
    let q = abs(v) * UNITS_PER_PIXEL / ceil_sqrt(n);
    if v >= 0 {
        q
    } else {
        -q
    }
}

/// The capped vector: unchanged when its length is at most one pixel,
/// otherwise scaled down to length one pixel.
pub open spec fn capped(v: Vec2) -> Vec2 {
    let n = norm_sq(v.x as int, v.y as int);
    if n <= UNITS_PER_PIXEL * UNITS_PER_PIXEL {
        v
    } else {
        Vec2 { x: scaled_component(v.x as int, n) as i64, y: scaled_component(v.y as int, n) as i64 }
    }
}

proof fn lemma_ceil_sqrt_unique(m: int, k: int, n: int)
    requires
        is_ceil_sqrt(m, n),
        is_ceil_sqrt(k, n),
    ensures
        m == k,
{
    if m < k {
        assert((k - 1) * (k - 1) >= m * m) by (nonlinear_arith)
            requires
                0 <= m <= k - 1,
        ;
    } else if k < m {
        assert((m - 1) * (m - 1) >= k * k) by (nonlinear_arith)
            requires
                0 <= k <= m - 1,
        ;
    }
}

/// The least `m` with `m * m >= n`, for `n < 2^128`.
fn ceil_sqrt_u128(n: u128) -> (m: u128)
    ensures
        m as int == ceil_sqrt(n as int),
        is_ceil_sqrt(m as int, n as int),
        m <= 0x1_0000_0000_0000_0000u128,
{
    let mut lo: u128 = 0;
    let mut hi: u128 = 0x1_0000_0000_0000_0000u128;
    assert(hi * hi >= n) by (nonlinear_arith)
        requires
            hi == 0x1_0000_0000_0000_0000u128,
            n <= u128::MAX,
    ;
    while lo < hi
        invariant
            lo <= hi <= 0x1_0000_0000_0000_0000u128,
            hi * hi >= n,
            lo == 0 || (lo - 1) * (lo - 1) < n,
        decreases hi - lo,
    {
        let mid: u128 = lo + (hi - lo) / 2;
        assert(mid * mid <= u128::MAX) by (nonlinear_arith)
            requires
                mid < 0x1_0000_0000_0000_0000u128,
        ;
        if mid * mid >= n {
            hi = mid;
        } else {
            lo = mid + 1;
        }
    }
    proof {
        assert(is_ceil_sqrt(lo as int, n as int));
        lemma_ceil_sqrt_unique(lo as int, ceil_sqrt(n as int), n as int);
    }
    lo
}

proof fn lemma_scaled_fits(a: int, b: int, m: int)
    requires
        0 <= a,
        0 <= b,
        m > 0,
        a * a + b * b <= m * m,
    ensures
        a <= m,
        0 <= a * UNITS_PER_PIXEL / m <= UNITS_PER_PIXEL,
{
    assert(a <= m) by (nonlinear_arith)
        requires
            0 <= a,
            0 <= b,
            m > 0,
            a * a + b * b <= m * m,
    ;
    assert(a * UNITS_PER_PIXEL <= m * UNITS_PER_PIXEL) by (nonlinear_arith)
        requires
            a <= m,
    ;
    vstd::arithmetic::div_mod::lemma_div_is_ordered(a * UNITS_PER_PIXEL, m * UNITS_PER_PIXEL, m);
    vstd::arithmetic::div_mod::lemma_div_multiples_vanish(UNITS_PER_PIXEL as int, m);
    vstd::arithmetic::div_mod::lemma_div_pos_is_pos(a * UNITS_PER_PIXEL, m);
}

proof fn lemma_scaled_within_one(a: int, b: int, m: int)
    requires
        0 <= a,
        0 <= b,
        m > 0,
        a * a + b * b <= m * m,
    ensures
        (a * UNITS_PER_PIXEL / m) * (a * UNITS_PER_PIXEL / m) + (b * UNITS_PER_PIXEL / m) * (b
            * UNITS_PER_PIXEL / m) <= UNITS_PER_PIXEL * UNITS_PER_PIXEL,
{
    let u = UNITS_PER_PIXEL as int;
    let qa = a * u / m;
    let qb = b * u / m;
    lemma_scaled_fits(a, b, m);
    lemma_scaled_fits(b, a, m);
    vstd::arithmetic::div_mod::lemma_fundamental_div_mod(a * u, m);
    vstd::arithmetic::div_mod::lemma_fundamental_div_mod(b * u, m);
    vstd::arithmetic::div_mod::lemma_mod_pos_bound(a * u, m);
    vstd::arithmetic::div_mod::lemma_mod_pos_bound(b * u, m);
    assert(qa * m <= a * u);
    assert(qb * m <= b * u);
    assert((qa * qa + qb * qb) * (m * m) <= (a * a + b * b) * (u * u)) by (nonlinear_arith)
        requires
            0 <= qa,
            0 <= qb,
            m > 0,
            qa * m <= a * u,
            qb * m <= b * u,
    ;
    assert((qa * qa + qb * qb) * (m * m) <= (m * m) * (u * u)) by (nonlinear_arith)
        requires
            (qa * qa + qb * qb) * (m * m) <= (a * a + b * b) * (u * u),
            a * a + b * b <= m * m,
    ;
    assert(qa * qa + qb * qb <= u * u) by (nonlinear_arith)
        requires
            (qa * qa + qb * qb) * (m * m) <= (m * m) * (u * u),
            m > 0,
    ;
}

proof fn lemma_square_below(x: int, y: int)
    requires
        0 <= x < y,
    ensures
        x * x < y * y,
{
    assert(x * x < y * y) by (nonlinear_arith)
        requires
            0 <= x < y,
    ;
}

/// Scaling a vector longer than one pixel leaves it at least
/// `UNITS_PER_PIXEL - 4` units long: each component loses less than one unit
/// to rounding, and the rounded-up length `m` exceeds the true one by less
/// than one unit.
proof fn lemma_scaled_near_one(a: int, b: int, m: int)
    requires
        0 <= a,
        0 <= b,
        is_ceil_sqrt(m, a * a + b * b),
        a * a + b * b > UNITS_PER_PIXEL * UNITS_PER_PIXEL,
    ensures
        (a * UNITS_PER_PIXEL / m) * (a * UNITS_PER_PIXEL / m) + (b * UNITS_PER_PIXEL / m) * (b
            * UNITS_PER_PIXEL / m) >= (UNITS_PER_PIXEL - 4) * (UNITS_PER_PIXEL - 4),
{
    let u = UNITS_PER_PIXEL as int;
    let n = a * a + b * b;
    assert(m > u) by (nonlinear_arith)
        requires
            m >= 0,
            m * m >= n,
            n > u * u,
            u > 0,
    ;
    lemma_scaled_fits(a, b, m);
    lemma_scaled_fits(b, a, m);
    let qa = a * u / m;
    let qb = b * u / m;
    vstd::arithmetic::div_mod::lemma_fundamental_div_mod(a * u, m);
    vstd::arithmetic::div_mod::lemma_fundamental_div_mod(b * u, m);
    vstd::arithmetic::div_mod::lemma_mod_pos_bound(a * u, m);
    vstd::arithmetic::div_mod::lemma_mod_pos_bound(b * u, m);
    assert(a * u < (qa + 1) * m) by (nonlinear_arith)
        requires
            a * u == m * qa + (a * u) % m,
            (a * u) % m < m,
    ;
    assert(b * u < (qb + 1) * m) by (nonlinear_arith)
        requires
            b * u == m * qb + (b * u) % m,
            (b * u) % m < m,
    ;
    lemma_square_below(a * u, (qa + 1) * m);
    lemma_square_below(b * u, (qb + 1) * m);
    assert((a * u) * (a * u) == (a * a) * (u * u)) by (nonlinear_arith);
    assert((b * u) * (b * u) == (b * b) * (u * u)) by (nonlinear_arith);
    assert(((qa + 1) * m) * ((qa + 1) * m) == ((qa + 1) * (qa + 1)) * (m * m))
        by (nonlinear_arith);
    assert(((qb + 1) * m) * ((qb + 1) * m) == ((qb + 1) * (qb + 1)) * (m * m))
        by (nonlinear_arith);
    assert(n * (u * u) == (a * a) * (u * u) + (b * b) * (u * u)) by (nonlinear_arith)
        requires
            n == a * a + b * b,
    ;
    assert(((qa + 1) * (qa + 1) + (qb + 1) * (qb + 1)) * (m * m) == ((qa + 1) * (qa + 1)) * (m
        * m) + ((qb + 1) * (qb + 1)) * (m * m)) by (nonlinear_arith);
    assert(n * (u * u) >= (m - 1) * (m - 1) * (u * u)) by (nonlinear_arith)
        requires
            n > (m - 1) * (m - 1),
            u > 0,
    ;
    assert((m - 1) * (m - 1) * (u * u) > (u * u - 2 * u) * (m * m)) by (nonlinear_arith)
        requires
            m > u,
            u > 0,
    ;
    let t = (qa + 1) * (qa + 1) + (qb + 1) * (qb + 1);
    assert(t > u * u - 2 * u) by (nonlinear_arith)
        requires
            t * (m * m) > (u * u - 2 * u) * (m * m),
            m > 0,
    ;
    assert(qa * qa + qb * qb >= (u - 4) * (u - 4)) by (nonlinear_arith)
        requires
            t == (qa + 1) * (qa + 1) + (qb + 1) * (qb + 1),
            t > u * u - 2 * u,
            qa <= u,
            qb <= u,
            u > 9,
    ;
}

/// A direction named by a key or a directional pad button.
#[derive(Debug, Clone, Copy, PartialEq, Eq, Structural)]
pub enum Dir {
    Up,
    Down,
    Left,
    Right,
}

/// A decoded input event. Values are lengths in units, one pixel for a full
/// deflection or press. Stick values grow rightward and upward, as the
/// gamepad reports them; the stored vector's y grows downward, so `Up`
/// always means negative y.
#[derive(Debug, Clone, Copy, PartialEq, Eq, Structural)]
pub enum InputEvent {
    /// The left stick's horizontal axis moved to this value.
    StickX(i64),
    /// The left stick's vertical axis moved to this value (positive is up).
    StickY(i64),
    /// A directional pad button was pressed or repeated.
    PadPressed(Dir),
    /// A directional pad button's pressure changed to this value.
    PadChanged(Dir, i64),
    /// A directional pad button was released.
    PadReleased(Dir),
    /// An arrow key was pressed.
    KeyPressed(Dir),
    /// An arrow key was released.
    KeyReleased(Dir),
}

/// Whether every value the event carries can be negated in an `i64`.
pub open spec fn negatable(e: InputEvent) -> bool {
    match e {
        InputEvent::StickX(v) => v > i64::MIN,
        InputEvent::StickY(v) => v > i64::MIN,
        InputEvent::PadChanged(_, v) => v > i64::MIN,
        _ => true,
    }
}

/// The stored vector after the event: each event overwrites one axis.
pub open spec fn applied(v: Vec2, e: InputEvent) -> Vec2 {
    let one = UNITS_PER_PIXEL;
    match e {
        InputEvent::StickX(a) => Vec2 { x: a, y: v.y },
        InputEvent::StickY(a) => Vec2 { x: v.x, y: -a as i64 },
        InputEvent::PadPressed(d) => match d {
            Dir::Up => Vec2 { x: v.x, y: -one as i64 },
            Dir::Down => Vec2 { x: v.x, y: one },
            Dir::Left => Vec2 { x: -one as i64, y: v.y },
            Dir::Right => Vec2 { x: one, y: v.y },
        },
        InputEvent::PadChanged(d, a) => match d {
            Dir::Up => Vec2 { x: v.x, y: -a as i64 },
            Dir::Down => Vec2 { x: v.x, y: a },
            Dir::Left => Vec2 { x: -a as i64, y: v.y },
            Dir::Right => Vec2 { x: a, y: v.y },
        },
        InputEvent::PadReleased(d) | InputEvent::KeyReleased(d) => match d {
            Dir::Up | Dir::Down => Vec2 { x: v.x, y: 0 },
            Dir::Left | Dir::Right => Vec2 { x: 0, y: v.y },
        },
        InputEvent::KeyPressed(d) => match d {
            Dir::Up => Vec2 { x: v.x, y: -one as i64 },
            Dir::Down => Vec2 { x: v.x, y: one },
            Dir::Left => Vec2 { x: -one as i64, y: v.y },
            Dir::Right => Vec2 { x: one, y: v.y },
        },
    }
}

/// The combined movement intent of all input sources.
#[derive(Debug)]
pub struct InputModel {
    vec: Vec2,
}

impl Default for InputModel {
    fn default() -> (r: InputModel)
        ensures
            r.stored() == (Vec2 { x: 0, y: 0 }),
    {
        InputModel { vec: Vec2::new(0, 0) }
    }
}

impl InputModel {
    /// The vector as last written by `set_x` and `set_y`.
    pub closed spec fn stored(&self) -> Vec2 {
        self.vec
    }

    /// Overwrites the horizontal component.
    pub fn set_x(&mut self, value: i64)
        ensures
            final(self).stored() == (Vec2 { x: value, y: old(self).stored().y }),
    {
        self.vec.x = value;
    }

    /// Overwrites the vertical component.
    pub fn set_y(&mut self, value: i64)
        ensures
            final(self).stored() == (Vec2 { x: old(self).stored().x, y: value }),
    {
        self.vec.y = value;
    }

    /// Applies one decoded event; the last write to an axis wins.
    pub fn apply(&mut self, e: InputEvent)
        requires
            negatable(e),
        ensures
            final(self).stored() == applied(old(self).stored(), e),
    {
        let one = UNITS_PER_PIXEL;
        match e {
            InputEvent::StickX(a) => self.set_x(a),
            InputEvent::StickY(a) => self.set_y(-a),
            InputEvent::PadPressed(d) => match d {
                Dir::Up => self.set_y(-one),
                Dir::Down => self.set_y(one),
                Dir::Left => self.set_x(-one),
                Dir::Right => self.set_x(one),
            },
            InputEvent::PadChanged(d, a) => match d {
                Dir::Up => self.set_y(-a),
                Dir::Down => self.set_y(a),
                Dir::Left => self.set_x(-a),
                Dir::Right => self.set_x(a),
            },
            InputEvent::PadReleased(d) | InputEvent::KeyReleased(d) => match d {
                Dir::Up | Dir::Down => self.set_y(0),
                Dir::Left | Dir::Right => self.set_x(0),
            },
            InputEvent::KeyPressed(d) => match d {
                Dir::Up => self.set_y(-one),
                Dir::Down => self.set_y(one),
                Dir::Left => self.set_x(-one),
                Dir::Right => self.set_x(one),
            },
        }
    }

    /// The stored vector, scaled down to length one pixel when it is longer.
    pub fn vector(&self) -> (r: Vec2)
        ensures
            r == capped(self.stored()),
            norm_sq(r.x as int, r.y as int) <= UNITS_PER_PIXEL * UNITS_PER_PIXEL,
            norm_sq(self.stored().x as int, self.stored().y as int) > UNITS_PER_PIXEL
                * UNITS_PER_PIXEL ==> norm_sq(r.x as int, r.y as int) >= (UNITS_PER_PIXEL - 4) * (
            UNITS_PER_PIXEL - 4),
    {
        let x = self.vec.x;
        let y = self.vec.y;
        let ax: u128 = if x >= 0 { x as u128 } else { (-(x as i128)) as u128 };
        let ay: u128 = if y >= 0 { y as u128 } else { (-(y as i128)) as u128 };
        assert(ax * ax <= 0x4000_0000_0000_0000_0000_0000_0000_0000u128) by (nonlinear_arith)
            requires
                ax <= 0x8000_0000_0000_0000u128,
        ;
        assert(ay * ay <= 0x4000_0000_0000_0000_0000_0000_0000_0000u128) by (nonlinear_arith)
            requires
                ay <= 0x8000_0000_0000_0000u128,
        ;
        let n: u128 = ax * ax + ay * ay;
        assert(n == norm_sq(x as int, y as int)) by (nonlinear_arith)
            requires
                ax == abs(x as int),
                ay == abs(y as int),
                n == ax * ax + ay * ay,
        ;
        let one: u128 = UNITS_PER_PIXEL as u128;
        if n <= one * one {
            return self.vec;
        }
        let m = ceil_sqrt_u128(n);
        proof {
            assert(m > 0) by (nonlinear_arith)
                requires
                    m * m >= n,
                    n > 0,
            ;
            lemma_scaled_fits(ax as int, ay as int, m as int);
            lemma_scaled_fits(ay as int, ax as int, m as int);
            lemma_scaled_within_one(ax as int, ay as int, m as int);
            lemma_scaled_near_one(ax as int, ay as int, m as int);
        }
        assert(ax * one <= 0x80_0000_0000_0000_0000_0000u128 && ay * one
            <= 0x80_0000_0000_0000_0000_0000u128) by (nonlinear_arith)
            requires
                ax <= 0x8000_0000_0000_0000u128,
                ay <= 0x8000_0000_0000_0000u128,
                one == UNITS_PER_PIXEL,
        ;
        let qx = (ax * one / m) as i64;
        let qy = (ay * one / m) as i64;
        let rx: i64 = if x >= 0 { qx } else { -qx };
        let ry: i64 = if y >= 0 { qy } else { -qy };
        assert(rx * rx == qx * qx && ry * ry == qy * qy) by (nonlinear_arith)
            requires
                rx == qx || rx == -qx,
                ry == qy || ry == -qy,
        ;
        Vec2::new(rx, ry)
    }
}

} // verus!
