use vstd::prelude::*;
use vstd::arithmetic::div_mod::*;
use vstd::arithmetic::mul::*;

verus! {

/// Largest magnitude accepted as the first factor of `mul_div` (2^64).
pub const MUL_DIV_LIMIT: i128 = 0x1_0000_0000_0000_0000;

/// A 2D vector of fixed-point world coordinates: one unit of a component is one
/// millionth of a world unit (or of a world unit per second, for velocities).
#[derive(Clone, Copy, Debug, PartialEq, Eq, Structural)]
pub struct Vec2i {
    pub x: i64,
    pub y: i64,
}

/// `a * num / den`, rounded toward zero as Rust's integer division does.
pub open spec fn mul_div_trunc(a: int, num: int, den: int) -> int {
    if a >= 0 {
        (a * num) / den
    } else {
        -(((-a) * num) / den)
    }
}

pub open spec fn abs(a: int) -> int {
    if a >= 0 { a } else { -a }
}

pub open spec fn norm_sq(v: Vec2i) -> int {
    v.x * v.x + v.y * v.y
}

/// `s` is the smallest natural number whose square is at least `n`.
pub open spec fn is_ceil_sqrt(n: int, s: int) -> bool {
    &&& s >= 0
    &&& s * s >= n
    &&& (s == 0 || (s - 1) * (s - 1) < n)
}

/// The ceiling of the square root of `n`.
pub open spec fn ceil_sqrt_spec(n: int) -> int {
    choose|s: int| is_ceil_sqrt(n, s)
}

/// Component `c` of a vector whose squared length is `n`, rescaled so that the
/// vector gets length `len`: it is divided through the ceiling of the length
/// and rounded toward zero, so that the result never grows beyond `len`. A zero
/// vector stays zero.
pub open spec fn scale_axis(c: int, len: int, n: int) -> int {
    if n == 0 {
        0
    } else {
        mul_div_trunc(c, len, ceil_sqrt_spec(n))
    }
}

/// The power of two by which `m` is doubled until it exceeds 2^61; nothing
/// for zero, or for what already exceeds it.
pub open spec fn widen(m: int) -> int
    decreases 0x4000_0000_0000_0000 - m,
{
    if m <= 0 || 2 * m > 0x4000_0000_0000_0000 {
        1
    } else {
        2 * widen(2 * m)
    }
}

/// The magnitude of the longer component of `v`.
pub open spec fn max_abs(v: Vec2i) -> int {
    if abs(v.x as int) >= abs(v.y as int) {
        abs(v.x as int)
    } else {
        abs(v.y as int)
    }
}

/// `v` is widened by `widen(max_abs(v))` before it is rescaled, which keeps its
/// direction and makes the rounding of its length negligible.
pub open spec fn wide_x(v: Vec2i) -> int {
    v.x * widen(max_abs(v))
}

pub open spec fn wide_y(v: Vec2i) -> int {
    v.y * widen(max_abs(v))
}

pub open spec fn wide_norm_sq(v: Vec2i) -> int {
    wide_x(v) * wide_x(v) + wide_y(v) * wide_y(v)
}

pub open spec fn scaled_x(v: Vec2i, len: int) -> int {
    scale_axis(wide_x(v), len, wide_norm_sq(v))
}

pub open spec fn scaled_y(v: Vec2i, len: int) -> int {
    scale_axis(wide_y(v), len, wide_norm_sq(v))
}

/// The direction of `v` at length `len`, each component rounded toward zero:
/// at most `len` long, and for a non-zero `v` and `len >= 6` at least `len - 6`
/// long (see `lemma_scaled_length_bound` and `lemma_scaled_length_floor`).
pub open spec fn scaled(v: Vec2i, len: int) -> Vec2i {
    Vec2i { x: scaled_x(v, len) as i64, y: scaled_y(v, len) as i64 }
}

/// `r` points the way `v` does, component by component, and its length is at
/// most `len` and, when `len >= 6`, at least `len - 6`.
pub open spec fn along(r: Vec2i, v: Vec2i, len: int) -> bool {
    &&& r.x * r.x + r.y * r.y <= len * len
    &&& (len >= 6 ==> (len - 6) * (len - 6) <= r.x * r.x + r.y * r.y)
    &&& (v.x >= 0 ==> r.x >= 0)
    &&& (v.x <= 0 ==> r.x <= 0)
    &&& (v.y >= 0 ==> r.y >= 0)
    &&& (v.y <= 0 ==> r.y <= 0)
}

/// Linear blend from `a` to `b` at the fraction `num / den`.
pub open spec fn lerp_spec(a: int, b: int, num: int, den: int) -> int {
    a + mul_div_trunc(b - a, num, den)
}

impl Vec2i {
    pub fn zero() -> (r: Vec2i)
        ensures
            r.x == 0 && r.y == 0,
    {
        Vec2i { x: 0, y: 0 }
    }

    pub fn new(x: i64, y: i64) -> (r: Vec2i)
        ensures
            r.x == x && r.y == y,
    {
        Vec2i { x, y }
    }

    pub fn is_zero(&self) -> (r: bool)
        ensures
            r == (self.x == 0 && self.y == 0),
    {
        self.x == 0 && self.y == 0
    }
}

proof fn lemma_ceil_sqrt_unique(n: int, s1: int, s2: int)
    requires
        is_ceil_sqrt(n, s1),
        is_ceil_sqrt(n, s2),
    ensures
        s1 == s2,
{
    if s1 < s2 {
        assert(s1 * s1 <= (s2 - 1) * (s2 - 1)) by (nonlinear_arith)
            requires 0 <= s1 <= s2 - 1;
    } else if s2 < s1 {
        assert(s2 * s2 <= (s1 - 1) * (s1 - 1)) by (nonlinear_arith)
            requires 0 <= s2 <= s1 - 1;
    }
}

/// The exact value `ceil_sqrt_spec` stands for, once a witness is known.
pub proof fn lemma_ceil_sqrt_is(n: int, s: int)
    requires
        is_ceil_sqrt(n, s),
    ensures
        ceil_sqrt_spec(n) == s,
{
    let c = ceil_sqrt_spec(n);
    assert(is_ceil_sqrt(n, c));
    lemma_ceil_sqrt_unique(n, s, c);
}

/// The ceiling of the square root of `n`, by bisection.
pub fn ceil_sqrt(n: u128) -> (s: u128)
    ensures
        is_ceil_sqrt(n as int, s as int),
        s as int == ceil_sqrt_spec(n as int),
        s <= 0x1_0000_0000_0000_0000,
{
    if n == 0 {
        proof {
            lemma_ceil_sqrt_is(0, 0);
        }
        return 0;
    }
    let mut lo: u128 = 0;
    let mut hi: u128 = 0x1_0000_0000_0000_0000;
    assert(n as int <= hi as int * hi as int) by (nonlinear_arith)
        requires n as int <= 0xffff_ffff_ffff_ffff_ffff_ffff_ffff_ffff, hi == 0x1_0000_0000_0000_0000;
    while hi - lo > 1
        invariant
            lo < hi <= 0x1_0000_0000_0000_0000,
            (lo as int) * (lo as int) < n as int,
            n as int <= (hi as int) * (hi as int),
        decreases hi - lo,
    {
        let mid: u128 = lo + (hi - lo) / 2;
        assert(mid as int * mid as int <= 0xffff_ffff_ffff_ffff_ffff_ffff_ffff_ffff) by (nonlinear_arith)
            requires mid < 0x1_0000_0000_0000_0000;
        if mid * mid >= n {
            hi = mid;
        } else {
            lo = mid;
        }
    }
    proof {
        assert(hi as int - 1 == lo as int);
        lemma_ceil_sqrt_is(n as int, hi as int);
    }
    hi
}

/// `a * num / den`, rounded toward zero.
pub fn mul_div(a: i128, num: u64, den: u64) -> (r: i128)
    requires
        den > 0,
        -MUL_DIV_LIMIT <= a <= MUL_DIV_LIMIT,
        abs(a as int) * (num as int) / (den as int) <= i128::MAX,
    ensures
        r as int == mul_div_trunc(a as int, num as int, den as int),
{
    let mag: u128 = if a >= 0 { a as u128 } else { (-a) as u128 };
    assert(mag as int * num as int <= 0xffff_ffff_ffff_ffff_ffff_ffff_ffff_ffff) by (nonlinear_arith)
        requires mag <= 0x1_0000_0000_0000_0000, num <= 0xffff_ffff_ffff_ffff;
    let q: u128 = mag * (num as u128) / (den as u128);
    if a >= 0 {
        q as i128
    } else {
        -(q as i128)
    }
}

proof fn lemma_ceil_sqrt_exists(n: int)
    requires
        n >= 0,
    ensures
        is_ceil_sqrt(n, ceil_sqrt_spec(n)),
    decreases n,
{
    if n == 0 {
        assert(is_ceil_sqrt(0, 0));
    } else {
        lemma_ceil_sqrt_exists(n - 1);
        let p = ceil_sqrt_spec(n - 1);
        if p * p >= n {
            assert(is_ceil_sqrt(n, p));
        } else {
            assert(p * p == n - 1);
            assert((p + 1) * (p + 1) == p * p + 2 * p + 1) by (nonlinear_arith);
            assert(is_ceil_sqrt(n, p + 1));
        }
    }
}

/// A truncated fraction `num / den <= 1` of `a` lies between zero and `a`.
proof fn lemma_fraction_between(a: int, num: int, den: int)
    requires
        0 <= num <= den,
        0 < den,
    ensures
        a >= 0 ==> 0 <= mul_div_trunc(a, num, den) <= a,
        a < 0 ==> a <= mul_div_trunc(a, num, den) <= 0,
{
    let m = abs(a);
    assert(0 <= m * num <= m * den) by (nonlinear_arith)
        requires m >= 0, 0 <= num <= den;
    lemma_div_is_ordered(m * num, m * den, den);
    lemma_div_by_multiple(m, den);
    lemma_div_pos_is_pos(m * num, den);
}

/// `len` times one component of `v` divided by the ceiling of `v`'s length never
/// exceeds `len`.
proof fn lemma_axis_within(c: int, len: int, n: int)
    requires
        len >= 0,
        c * c <= n,
        n > 0,
    ensures
        0 <= abs(c) <= ceil_sqrt_spec(n),
        abs(scale_axis(c, len, n)) <= len,
        abs(scale_axis(c, len, n)) * ceil_sqrt_spec(n) <= abs(c) * len,
{
    lemma_ceil_sqrt_exists(n);
    let s = ceil_sqrt_spec(n);
    let m = abs(c);
    assert(m * m == c * c) by (nonlinear_arith)
        requires m == abs(c);
    assert(m <= s) by (nonlinear_arith)
        requires m >= 0, s >= 0, m * m <= s * s;
    assert(s > 0) by (nonlinear_arith)
        requires s >= 0, s * s >= n, n > 0;
    assert(0 <= m * len <= s * len) by (nonlinear_arith)
        requires 0 <= m <= s, len >= 0;
    lemma_div_is_ordered(m * len, s * len, s);
    lemma_div_by_multiple(len, s);
    lemma_div_pos_is_pos(m * len, s);
    lemma_fundamental_div_mod(m * len, s);
    lemma_mod_pos_bound(m * len, s);
    let q = (m * len) / s;
    assert(q * s <= m * len) by (nonlinear_arith)
        requires m * len == s * q + (m * len) % s, (m * len) % s >= 0;
}

/// Doubling `m` up to `widen(m)` times lands it above 2^61, and not above
/// 2^62 unless it started there.
proof fn lemma_widen(m: int)
    requires
        1 <= m,
    ensures
        widen(m) >= 1,
        m * widen(m) > 0x2000_0000_0000_0000,
        widen(m) == 1 || m * widen(m) <= 0x4000_0000_0000_0000,
        m > 0x2000_0000_0000_0000 ==> widen(m) == 1,
    decreases 0x4000_0000_0000_0000 - m,
{
    if 2 * m <= 0x4000_0000_0000_0000 {
        lemma_widen(2 * m);
        let w = widen(2 * m);
        assert(m * (2 * w) == (2 * m) * w) by (nonlinear_arith);
    }
}

/// The widened vector points the same way, has components of at most 2^63,
/// and its longer component exceeds 2^61 unless it is zero.
proof fn lemma_wide_bounds(v: Vec2i)
    ensures
        widen(max_abs(v)) >= 1,
        abs(wide_x(v)) <= 0x8000_0000_0000_0000,
        abs(wide_y(v)) <= 0x8000_0000_0000_0000,
        abs(wide_x(v)) == abs(v.x as int) * widen(max_abs(v)),
        abs(wide_y(v)) == abs(v.y as int) * widen(max_abs(v)),
        v.x >= 0 ==> wide_x(v) >= 0,
        v.x <= 0 ==> wide_x(v) <= 0,
        v.y >= 0 ==> wide_y(v) >= 0,
        v.y <= 0 ==> wide_y(v) <= 0,
        !(v.x == 0 && v.y == 0) ==> (abs(wide_x(v)) > 0x2000_0000_0000_0000 || abs(wide_y(v))
            > 0x2000_0000_0000_0000),
        wide_norm_sq(v) >= 0,
        wide_norm_sq(v) == 0 <==> (v.x == 0 && v.y == 0),
{
    let m = max_abs(v);
    let ax = abs(v.x as int);
    let ay = abs(v.y as int);
    if m == 0 {
        assert(widen(m) == 1);
    } else {
        lemma_widen(m);
    }
    let w = widen(m);
    assert(abs(wide_x(v)) == ax * w) by (nonlinear_arith)
        requires wide_x(v) == v.x * w, w >= 1, ax == abs(v.x as int);
    assert(abs(wide_y(v)) == ay * w) by (nonlinear_arith)
        requires wide_y(v) == v.y * w, w >= 1, ay == abs(v.y as int);
    assert(ax * w <= m * w && ay * w <= m * w) by (nonlinear_arith)
        requires 0 <= ax <= m, 0 <= ay <= m, w >= 1;
    assert(m * w <= 0x8000_0000_0000_0000) by (nonlinear_arith)
        requires w == 1 || m * w <= 0x4000_0000_0000_0000, m <= 0x8000_0000_0000_0000;
    assert(v.x >= 0 ==> wide_x(v) >= 0) by (nonlinear_arith)
        requires wide_x(v) == v.x * w, w >= 1;
    assert(v.x <= 0 ==> wide_x(v) <= 0) by (nonlinear_arith)
        requires wide_x(v) == v.x * w, w >= 1;
    assert(v.y >= 0 ==> wide_y(v) >= 0) by (nonlinear_arith)
        requires wide_y(v) == v.y * w, w >= 1;
    assert(v.y <= 0 ==> wide_y(v) <= 0) by (nonlinear_arith)
        requires wide_y(v) == v.y * w, w >= 1;
    let wx = wide_x(v);
    let wy = wide_y(v);
    assert(wx * wx >= 0 && wy * wy >= 0) by (nonlinear_arith);
    assert(wx * wx == 0 <==> wx == 0) by (nonlinear_arith);
    assert(wy * wy == 0 <==> wy == 0) by (nonlinear_arith);
    assert(wx == 0 <==> v.x == 0) by (nonlinear_arith)
        requires wx == v.x * w, w >= 1;
    assert(wy == 0 <==> v.y == 0) by (nonlinear_arith)
        requires wy == v.y * w, w >= 1;
}

/// Rescaling the pair `(x, y)` to length `len` gives components of at most
/// `len`, with the signs of `x` and `y`, and a vector at most `len` long.
proof fn lemma_pair_bound(x: int, y: int, len: int)
    requires
        len >= 0,
    ensures
        abs(scale_axis(x, len, x * x + y * y)) <= len,
        abs(scale_axis(y, len, x * x + y * y)) <= len,
        x >= 0 ==> scale_axis(x, len, x * x + y * y) >= 0,
        x <= 0 ==> scale_axis(x, len, x * x + y * y) <= 0,
        y >= 0 ==> scale_axis(y, len, x * x + y * y) >= 0,
        y <= 0 ==> scale_axis(y, len, x * x + y * y) <= 0,
        scale_axis(x, len, x * x + y * y) * scale_axis(x, len, x * x + y * y) + scale_axis(
            y,
            len,
            x * x + y * y,
        ) * scale_axis(y, len, x * x + y * y) <= len * len,
{
    let n = x * x + y * y;
    assert(x * x >= 0 && y * y >= 0) by (nonlinear_arith);
    if n > 0 {
        lemma_axis_within(x, len, n);
        lemma_axis_within(y, len, n);
        lemma_ceil_sqrt_exists(n);
        let s = ceil_sqrt_spec(n);
        let sx = scale_axis(x, len, n);
        let sy = scale_axis(y, len, n);
        let qx = abs(sx);
        let qy = abs(sy);
        let ax = abs(x);
        let ay = abs(y);
        assert(s > 0) by (nonlinear_arith)
            requires s >= 0, s * s >= n, n > 0;
        assert(ax * len >= 0 && ay * len >= 0) by (nonlinear_arith)
            requires ax >= 0, ay >= 0, len >= 0;
        lemma_div_pos_is_pos(ax * len, s);
        lemma_div_pos_is_pos(ay * len, s);
        assert(x >= 0 ==> x * len == ax * len);
        assert(y >= 0 ==> y * len == ay * len);
        assert(x < 0 ==> (-x) * len == ax * len);
        assert(y < 0 ==> (-y) * len == ay * len);
        lemma_div_by_multiple(0, s);
        assert(0 * s == 0 && 0 * len == 0);
        assert(ax * ax + ay * ay == n) by (nonlinear_arith)
            requires ax == abs(x), ay == abs(y), n == x * x + y * y;
        assert(qx * qx * (s * s) <= ax * ax * (len * len)) by (nonlinear_arith)
            requires 0 <= qx, 0 <= s, qx * s <= ax * len, ax >= 0, len >= 0;
        assert(qy * qy * (s * s) <= ay * ay * (len * len)) by (nonlinear_arith)
            requires 0 <= qy, 0 <= s, qy * s <= ay * len, ay >= 0, len >= 0;
        assert((qx * qx + qy * qy) * (s * s) <= (s * s) * (len * len)) by (nonlinear_arith)
            requires
                qx * qx * (s * s) <= ax * ax * (len * len),
                qy * qy * (s * s) <= ay * ay * (len * len),
                ax * ax + ay * ay == n,
                n <= s * s,
                len * len >= 0;
        assert(qx * qx + qy * qy <= len * len) by (nonlinear_arith)
            requires (qx * qx + qy * qy) * (s * s) <= (s * s) * (len * len), s > 0;
        assert(sx * sx == qx * qx) by (nonlinear_arith)
            requires qx == abs(sx);
        assert(sy * sy == qy * qy) by (nonlinear_arith)
            requires qy == abs(sy);
    } else {
        assert(len * len >= 0) by (nonlinear_arith);
    }
}

/// One component rescaled through the ceiling `s` of the length falls short of
/// the exact value by less than one: `s * (q + 1) > |c| * len`.
proof fn lemma_axis_floor(c: int, len: int, n: int)
    requires
        len >= 0,
        n > 0,
    ensures
        ceil_sqrt_spec(n) * (abs(scale_axis(c, len, n)) + 1) > abs(c) * len,
{
    lemma_ceil_sqrt_exists(n);
    let s = ceil_sqrt_spec(n);
    assert(s > 0) by (nonlinear_arith)
        requires s >= 0, s * s >= n, n > 0;
    let m = abs(c);
    assert(m * len >= 0) by (nonlinear_arith)
        requires m >= 0, len >= 0;
    lemma_fundamental_div_mod(m * len, s);
    lemma_mod_pos_bound(m * len, s);
    lemma_div_pos_is_pos(m * len, s);
    let q = (m * len) / s;
    assert(abs(scale_axis(c, len, n)) == q);
    assert(s * (q + 1) > m * len) by (nonlinear_arith)
        requires m * len == s * q + (m * len) % s, (m * len) % s < s;
}

/// A pair whose longer component exceeds 2^61, rescaled to a length `len` of at
/// most 2^63, is at least `len - 6` long.
proof fn lemma_pair_floor(x: int, y: int, len: int)
    requires
        6 <= len <= 0x8000_0000_0000_0000,
        abs(x) > 0x2000_0000_0000_0000 || abs(y) > 0x2000_0000_0000_0000,
    ensures
        (len - 6) * (len - 6) <= scale_axis(x, len, x * x + y * y) * scale_axis(
            x,
            len,
            x * x + y * y,
        ) + scale_axis(y, len, x * x + y * y) * scale_axis(y, len, x * x + y * y),
{
    let n = x * x + y * y;
    let ax = abs(x);
    let ay = abs(y);
    assert(ax * ax + ay * ay == n) by (nonlinear_arith)
        requires ax == abs(x), ay == abs(y), n == x * x + y * y;
    assert(ax * ax >= 0 && ay * ay >= 0) by (nonlinear_arith);
    if ax > 0x2000_0000_0000_0000 {
        assert(ax * ax > 0x400_0000_0000_0000_0000_0000_0000_0000) by (nonlinear_arith)
            requires ax > 0x2000_0000_0000_0000;
    } else {
        assert(ay * ay > 0x400_0000_0000_0000_0000_0000_0000_0000) by (nonlinear_arith)
            requires ay > 0x2000_0000_0000_0000;
    }
    lemma_ceil_sqrt_exists(n);
    let s = ceil_sqrt_spec(n);
    assert(s > 0x2000_0000_0000_0000) by (nonlinear_arith)
        requires s >= 0, s * s >= n, n > 0x400_0000_0000_0000_0000_0000_0000_0000;
    lemma_axis_floor(x, len, n);
    lemma_axis_floor(y, len, n);
    lemma_pair_bound(x, y, len);
    let qx = abs(scale_axis(x, len, n));
    let qy = abs(scale_axis(y, len, n));
    assert(s * s * ((qx + 1) * (qx + 1)) >= ax * ax * (len * len)) by (nonlinear_arith)
        requires s * (qx + 1) > ax * len, ax >= 0, len >= 0, qx >= 0, s > 0;
    assert(s * s * ((qy + 1) * (qy + 1)) >= ay * ay * (len * len)) by (nonlinear_arith)
        requires s * (qy + 1) > ay * len, ay >= 0, len >= 0, qy >= 0, s > 0;
    let t = (qx + 1) * (qx + 1) + (qy + 1) * (qy + 1);
    assert(s * s * t >= n * (len * len)) by (nonlinear_arith)
        requires
            s * s * ((qx + 1) * (qx + 1)) >= ax * ax * (len * len),
            s * s * ((qy + 1) * (qy + 1)) >= ay * ay * (len * len),
            ax * ax + ay * ay == n,
            t == (qx + 1) * (qx + 1) + (qy + 1) * (qy + 1);
    // The ceiling of the length exceeds the length by less than one.
    assert(n * (len * len) > (s - 1) * (s - 1) * (len * len)) by (nonlinear_arith)
        requires (s - 1) * (s - 1) < n, len >= 6;
    let w = len - 4;
    assert(w * s <= (s - 1) * len) by (nonlinear_arith)
        requires w == len - 4, 4 * s >= len;
    assert(w * w * (s * s) <= (s - 1) * (s - 1) * (len * len)) by (nonlinear_arith)
        requires w * s <= (s - 1) * len, w >= 2, s > 0;
    assert(w * w < t) by (nonlinear_arith)
        requires
            w * w * (s * s) <= (s - 1) * (s - 1) * (len * len),
            (s - 1) * (s - 1) * (len * len) < n * (len * len),
            n * (len * len) <= s * s * t,
            s > 0;
    // Dropping the two fractional parts shortens the vector by less than two.
    let d = len - 6;
    let q = qx * qx + qy * qy;
    assert(t == q + 2 * (qx + qy) + 2) by (nonlinear_arith)
        requires t == (qx + 1) * (qx + 1) + (qy + 1) * (qy + 1), q == qx * qx + qy * qy;
    assert((qx + qy) * (qx + qy) <= 2 * q) by (nonlinear_arith)
        requires q == qx * qx + qy * qy;
    if q < d * d {
        assert(2 * (qx + qy) < 3 * d) by (nonlinear_arith)
            requires (qx + qy) * (qx + qy) <= 2 * q, q < d * d, d >= 0, qx >= 0, qy >= 0;
        assert(t < w * w) by (nonlinear_arith)
            requires t == q + 2 * (qx + qy) + 2, q < d * d, 2 * (qx + qy) < 3 * d, d >= 0, w == d
                + 2;
    }
    let sx = scale_axis(x, len, n);
    let sy = scale_axis(y, len, n);
    assert(sx * sx == qx * qx) by (nonlinear_arith)
        requires qx == abs(sx);
    assert(sy * sy == qy * qy) by (nonlinear_arith)
        requires qy == abs(sy);
}

/// Each component of a vector rescaled to length `len` is at most `len` in
/// magnitude, and has the sign of the matching component of the vector.
pub proof fn lemma_scaled_components_bound(v: Vec2i, len: int)
    requires
        len >= 0,
    ensures
        abs(scaled_x(v, len)) <= len,
        abs(scaled_y(v, len)) <= len,
        v.x >= 0 ==> scaled_x(v, len) >= 0,
        v.x <= 0 ==> scaled_x(v, len) <= 0,
        v.y >= 0 ==> scaled_y(v, len) >= 0,
        v.y <= 0 ==> scaled_y(v, len) <= 0,
{
    lemma_wide_bounds(v);
    lemma_pair_bound(wide_x(v), wide_y(v), len);
}

/// A vector rescaled to length `len` is at most `len` long.
pub proof fn lemma_scaled_length_bound(v: Vec2i, len: int)
    requires
        len >= 0,
    ensures
        scaled_x(v, len) * scaled_x(v, len) + scaled_y(v, len) * scaled_y(v, len) <= len * len,
{
    lemma_pair_bound(wide_x(v), wide_y(v), len);
}

/// A non-zero vector rescaled to length `len` falls short of `len` by at most
/// six millionths of a unit.
pub proof fn lemma_scaled_length_floor(v: Vec2i, len: int)
    requires
        !(v.x == 0 && v.y == 0),
        6 <= len <= 0x8000_0000_0000_0000,
    ensures
        (len - 6) * (len - 6) <= scaled_x(v, len) * scaled_x(v, len) + scaled_y(v, len) * scaled_y(
            v,
            len,
        ),
{
    lemma_wide_bounds(v);
    lemma_pair_floor(wide_x(v), wide_y(v), len);
}

/// A vector along the positive x axis rescaled to length `len` is exactly
/// `(len, 0)`.
pub proof fn lemma_scaled_along_x(v: Vec2i, len: int)
    requires
        v.x > 0,
        v.y == 0,
        len >= 0,
    ensures
        scaled_x(v, len) == len,
        scaled_y(v, len) == 0,
{
    lemma_wide_bounds(v);
    let w = wide_x(v);
    assert(wide_y(v) == 0);
    assert(wide_norm_sq(v) == w * w);
    assert(w * w > 0 && (w - 1) * (w - 1) < w * w) by (nonlinear_arith)
        requires w > 0;
    lemma_ceil_sqrt_is(w * w, w);
    lemma_div_multiples_vanish(len, w);
    assert(w * len == len * w) by (nonlinear_arith);
    assert(0 * len == 0);
    lemma_div_by_multiple(0, w);
}

fn magnitude(c: i64) -> (r: u128)
    ensures
        r == abs(c as int),
{
    if c >= 0 {
        c as u128
    } else {
        (-(c as i128)) as u128
    }
}

/// `v` rescaled to length `len` (see `scaled`); a zero vector gives a zero
/// vector.
pub fn scale_to_length(v: Vec2i, len: u64) -> (r: Vec2i)
    requires
        len <= i64::MAX,
    ensures
        r == scaled(v, len as int),
        r.x == scaled_x(v, len as int),
        r.y == scaled_y(v, len as int),
        r.x * r.x + r.y * r.y <= len * len,
        !(v.x == 0 && v.y == 0) ==> along(r, v, len as int),
        v.x == 0 && v.y == 0 ==> r.x == 0 && r.y == 0,
{
    proof {
        lemma_wide_bounds(v);
        lemma_scaled_components_bound(v, len as int);
        lemma_scaled_length_bound(v, len as int);
        if !(v.x == 0 && v.y == 0) && len >= 6 {
            lemma_scaled_length_floor(v, len as int);
        }
    }
    let ax = magnitude(v.x);
    let ay = magnitude(v.y);
    let m0: u128 = if ax >= ay { ax } else { ay };
    assert(m0 == max_abs(v));
    if m0 == 0 {
        return Vec2i { x: 0, y: 0 };
    }
    let mut m: u128 = m0;
    let mut f: u128 = 1;
    while m <= 0x2000_0000_0000_0000
        invariant
            1 <= m0 <= m <= 0x8000_0000_0000_0000,
            m == m0 * f,
            1 <= f <= m,
            f * widen(m as int) == widen(m0 as int),
        decreases 0x8000_0000_0000_0000 - m,
    {
        assert(widen(m as int) == 2 * widen(2 * m as int));
        assert(f * (2 * widen(2 * m as int)) == (2 * f) * widen(2 * m as int)) by (nonlinear_arith);
        assert(2 * m == m0 * (2 * f)) by (nonlinear_arith)
            requires m == m0 * f;
        m = 2 * m;
        f = 2 * f;
    }
    assert(widen(m as int) == 1);
    assert(f == widen(max_abs(v)));
    assert(ax * f <= m && ay * f <= m) by (nonlinear_arith)
        requires ax <= m0, ay <= m0, m == m0 * f, f >= 1;
    let wx: u128 = ax * f;
    let wy: u128 = ay * f;
    assert(wx * wx <= 0x4000_0000_0000_0000_0000_0000_0000_0000) by (nonlinear_arith)
        requires wx <= 0x8000_0000_0000_0000;
    assert(wy * wy <= 0x4000_0000_0000_0000_0000_0000_0000_0000) by (nonlinear_arith)
        requires wy <= 0x8000_0000_0000_0000;
    let n: u128 = wx * wx + wy * wy;
    let sx: i128 = if v.x >= 0 { wx as i128 } else { -(wx as i128) };
    let sy: i128 = if v.y >= 0 { wy as i128 } else { -(wy as i128) };
    assert(sx == wide_x(v) && sy == wide_y(v));
    assert(n == wide_norm_sq(v)) by (nonlinear_arith)
        requires
            n == wx * wx + wy * wy,
            wx == abs(sx as int),
            wy == abs(sy as int),
            wide_norm_sq(v) == sx * sx + sy * sy;
    let s: u128 = ceil_sqrt(n);
    assert(s != 0) by (nonlinear_arith)
        requires (s as int) * (s as int) >= n as int, n > 0;
    assert(s < 0x1_0000_0000_0000_0000) by (nonlinear_arith)
        requires
            (s as int - 1) * (s as int - 1) < n as int,
            n as int <= 0x8000_0000_0000_0000_0000_0000_0000_0000,
            s >= 1;
    proof {
        assert(sx * sx <= n && sy * sy <= n) by (nonlinear_arith)
            requires n == sx * sx + sy * sy;
        lemma_axis_within(sx as int, len as int, n as int);
        lemma_axis_within(sy as int, len as int, n as int);
    }
    let rx: i128 = mul_div(sx, len, s as u64);
    let ry: i128 = mul_div(sy, len, s as u64);
    Vec2i { x: rx as i64, y: ry as i64 }
}

/// Linear blend from `a` to `b` at the fraction `num / den` of the way.
pub fn lerp(a: i64, b: i64, num: u64, den: u64) -> (r: i64)
    requires
        den > 0,
        num <= den,
    ensures
        r as int == lerp_spec(a as int, b as int, num as int, den as int),
{
    let d: i128 = (b as i128) - (a as i128);
    proof {
        lemma_fraction_between(d as int, num as int, den as int);
        lemma_fraction_between(abs(d as int), num as int, den as int);
    }
    let m: i128 = mul_div(d, num, den);
    ((a as i128) + m) as i64
}

/// Interpolation at the start of the interval gives its start, at the end its
/// end; in between it moves monotonically from one to the other.
pub proof fn lemma_lerp_endpoints_and_monotone(a: int, b: int, num1: int, num2: int, den: int)
    requires
        0 < den,
        0 <= num1 <= num2 <= den,
    ensures
        lerp_spec(a, b, 0, den) == a,
        lerp_spec(a, b, den, den) == b,
        a <= b ==> a <= lerp_spec(a, b, num1, den) <= lerp_spec(a, b, num2, den) <= b,
        b <= a ==> b <= lerp_spec(a, b, num2, den) <= lerp_spec(a, b, num1, den) <= a,
{
    let m = abs(b - a);
    assert(m * 0 == 0);
    lemma_div_by_multiple(m, den);
    assert(m * den == den * m) by (nonlinear_arith);
    assert(0 <= m * num1 <= m * num2) by (nonlinear_arith)
        requires m >= 0, 0 <= num1 <= num2;
    lemma_div_is_ordered(m * num1, m * num2, den);
    lemma_fraction_between(b - a, num1, den);
    lemma_fraction_between(b - a, num2, den);
}

} // verus!
