use vstd::prelude::*;

verus! {

/// Sub-pixel units in one screen pixel: every length and position is in these units.
pub const UNITS_PER_PIXEL: i64 = 1000;

/// Time is kept in microseconds.
pub const MICROS_PER_SECOND: i64 = 1_000_000;

/// Fixed-point one for directions and trigonometric values.
pub const UNIT: i64 = 1_000_000;

/// Largest screen width or height, in units.
pub const MAX_EXTENT: i64 = 100_000_000;

/// Largest coordinate magnitude an entity may hold.
pub const POS_LIMIT: i64 = 400_000_000;

/// Largest velocity component, in units per second.
pub const VEL_LIMIT: i64 = 10_000_000;

/// Longest time step one tick may advance, in microseconds.
pub const MAX_TICK_MICROS: u64 = 10_000_000;

/// Angles are measured in hundredths of a degree.
pub const TURN: u64 = 36_000;

pub const HALF_TURN: u64 = 18_000;

pub const QUARTER_TURN: u64 = 9_000;

/// Fixed-point cosine and sine of thirty degrees.
pub const COS_30: i64 = 866_025;

pub const SIN_30: i64 = 500_000;

#[derive(Clone, Copy, Debug, PartialEq, Eq, Structural)]
pub struct Vec2 {
    pub x: i64,
    pub y: i64,
}

/// The current screen size, in units.
#[derive(Clone, Copy, Debug, PartialEq, Eq, Structural)]
pub struct Viewport {
    pub width: i64,
    pub height: i64,
}

impl Viewport {
    pub open spec fn wf(&self) -> bool {
        0 < self.width <= MAX_EXTENT && 0 < self.height <= MAX_EXTENT
    }
}

pub open spec fn vec2(x: int, y: int) -> Vec2 {
    Vec2 { x: x as i64, y: y as i64 }
}

pub open spec fn bounded(v: Vec2, limit: int) -> bool {
    -limit <= v.x <= limit && -limit <= v.y <= limit
}

/// Truncating division (rounds toward zero), as Rust's `/` does on signed values.
pub open spec fn tdiv(a: int, b: int) -> int {
    if a >= 0 {
        a / b
    } else {
        -((-a) / b)
    }
}

pub proof fn lemma_tdiv_bound(a: int, b: int, m: int)
    requires
        b > 0,
        m >= 0,
        -m * b <= a <= m * b,
    ensures
        -m <= tdiv(a, b) <= m,
{
    assert(-m * b == -(m * b)) by (nonlinear_arith);
    if a >= 0 {
        vstd::arithmetic::div_mod::lemma_div_is_ordered(a, m * b, b);
        vstd::arithmetic::div_mod::lemma_div_by_multiple(m, b);
        vstd::arithmetic::div_mod::lemma_div_pos_is_pos(a, b);
    } else {
        vstd::arithmetic::div_mod::lemma_div_is_ordered(-a, m * b, b);
        vstd::arithmetic::div_mod::lemma_div_by_multiple(m, b);
        vstd::arithmetic::div_mod::lemma_div_pos_is_pos(-a, b);
    }
}

pub fn div_toward_zero(a: i64, b: i64) -> (r: i64)
    requires
        b > 0,
        a > i64::MIN,
    ensures
        r == tdiv(a as int, b as int),
{
    if a >= 0 {
        a / b
    } else {
        let q = (-a) / b;
        -q
    }
}

/// Toroidal wrap of one coordinate: leaving one side puts it on the opposite edge.
pub open spec fn wrap_coord(c: int, extent: int) -> int {
    if c < 0 {
        extent
    } else if c > extent {
        0
    } else {
        c
    }
}

/// Moves a position that left the screen to the opposite edge, one axis at a time.
pub fn wrap_screen(pos: &mut Vec2, vp: &Viewport)
    ensures
        final(pos).x == wrap_coord(old(pos).x as int, vp.width as int),
        final(pos).y == wrap_coord(old(pos).y as int, vp.height as int),
        0 <= old(pos).x <= vp.width ==> final(pos).x == old(pos).x,
        0 <= old(pos).y <= vp.height ==> final(pos).y == old(pos).y,
{
    if pos.x < 0 {
        pos.x = vp.width;
    } else if pos.x > vp.width {
        pos.x = 0;
    }
    if pos.y < 0 {
        pos.y = vp.height;
    } else if pos.y > vp.height {
        pos.y = 0;
    }
}

/// One coordinate after moving at velocity `v` (units per second) for `dt` microseconds.
pub open spec fn advance_coord(p: int, v: int, dt: int) -> int {
    p + tdiv(v * dt, MICROS_PER_SECOND as int)
}

pub open spec fn advanced(p: Vec2, v: Vec2, dt: int) -> Vec2 {
    vec2(advance_coord(p.x as int, v.x as int, dt), advance_coord(p.y as int, v.y as int, dt))
}

proof fn lemma_advance_coord_bound(p: int, v: int, dt: int)
    requires
        -POS_LIMIT <= p <= POS_LIMIT,
        -VEL_LIMIT <= v <= VEL_LIMIT,
        0 <= dt <= MAX_TICK_MICROS,
    ensures
        -VEL_LIMIT * MAX_TICK_MICROS <= v * dt <= VEL_LIMIT * MAX_TICK_MICROS,
        -POS_LIMIT - 100_000_000 <= advance_coord(p, v, dt) <= POS_LIMIT + 100_000_000,
{
    assert(-VEL_LIMIT * MAX_TICK_MICROS <= v * dt <= VEL_LIMIT * MAX_TICK_MICROS) by (nonlinear_arith)
        requires
            -VEL_LIMIT <= v <= VEL_LIMIT,
            0 <= dt <= MAX_TICK_MICROS,
    ;
    lemma_tdiv_bound(v * dt, MICROS_PER_SECOND as int, 100_000_000);
}

/// `p` moved along `v` for `dt` microseconds.
pub fn advance(p: &Vec2, v: &Vec2, dt: u64) -> (r: Vec2)
    requires
        bounded(*p, POS_LIMIT as int),
        bounded(*v, VEL_LIMIT as int),
        dt <= MAX_TICK_MICROS,
    ensures
        r == advanced(*p, *v, dt as int),
        bounded(r, POS_LIMIT + 100_000_000),
{
    proof {
        lemma_advance_coord_bound(p.x as int, v.x as int, dt as int);
        lemma_advance_coord_bound(p.y as int, v.y as int, dt as int);
    }
    let t = dt as i64;
    let dx = div_toward_zero(v.x * t, MICROS_PER_SECOND);
    let dy = div_toward_zero(v.y * t, MICROS_PER_SECOND);
    Vec2 { x: p.x + dx, y: p.y + dy }
}

/// The squared distance between two points.
pub open spec fn dist_sq(a: Vec2, b: Vec2) -> int {
    (a.x - b.x) * (a.x - b.x) + (a.y - b.y) * (a.y - b.y)
}

/// Two circles overlap when their centres are closer than the sum of their radii.
pub open spec fn circles_overlap(a: Vec2, ra: int, b: Vec2, rb: int) -> bool {
    dist_sq(a, b) < (ra + rb) * (ra + rb)
}

pub proof fn lemma_square_bound(d: int, m: int)
    requires
        0 <= m,
        -m <= d <= m,
    ensures
        0 <= d * d <= m * m,
{
    assert(0 <= d * d <= m * m) by (nonlinear_arith)
        requires
            0 <= m,
            -m <= d <= m,
    ;
}

pub fn squared_distance(a: &Vec2, b: &Vec2) -> (r: i64)
    requires
        bounded(*a, 1_000_000_000),
        bounded(*b, 1_000_000_000),
    ensures
        r == dist_sq(*a, *b),
{
    let dx = a.x - b.x;
    let dy = a.y - b.y;
    proof {
        lemma_square_bound(dx as int, 2_000_000_000);
        lemma_square_bound(dy as int, 2_000_000_000);
    }
    dx * dx + dy * dy
}

pub fn overlap(a: &Vec2, ra: i64, b: &Vec2, rb: i64) -> (r: bool)
    requires
        bounded(*a, 1_000_000_000),
        bounded(*b, 1_000_000_000),
        0 <= ra <= 1_000_000_000,
        0 <= rb <= 1_000_000_000,
    ensures
        r == circles_overlap(*a, ra as int, *b, rb as int),
{
    let d = squared_distance(a, b);
    let s = ra + rb;
    proof {
        lemma_square_bound(s as int, 2_000_000_000);
    }
    d < s * s
}

/// `r` is the integer square root of `n`.
pub open spec fn is_root(n: int, r: int) -> bool {
    0 <= r && r * r <= n < (r + 1) * (r + 1)
}

pub open spec fn isqrt(n: int) -> int {
    choose|r: int| is_root(n, r)
}

proof fn lemma_root_unique(n: int, r1: int, r2: int)
    requires
        is_root(n, r1),
        is_root(n, r2),
    ensures
        r1 == r2,
{
    if r1 < r2 {
        assert((r1 + 1) * (r1 + 1) <= r2 * r2) by (nonlinear_arith)
            requires
                0 <= r1 + 1 <= r2,
        ;
    } else if r2 < r1 {
        assert((r2 + 1) * (r2 + 1) <= r1 * r1) by (nonlinear_arith)
            requires
                0 <= r2 + 1 <= r1,
        ;
    }
}

/// A coordinate is no longer than the length of its vector.
pub proof fn lemma_root_dominates(n: int, r: int, d: int)
    requires
        is_root(n, r),
        d * d <= n,
    ensures
        -r <= d <= r,
{
    if d > r {
        assert((r + 1) * (r + 1) <= d * d) by (nonlinear_arith)
            requires
                0 <= r + 1 <= d,
        ;
    }
    if d < -r {
        assert((r + 1) * (r + 1) <= d * d) by (nonlinear_arith)
            requires
                0 <= r + 1 <= -d,
        ;
    }
}

/// The integer square root, by bisection.
pub fn int_sqrt(n: u64) -> (r: u64)
    requires
        n <= i64::MAX,
    ensures
        r == isqrt(n as int),
        is_root(n as int, r as int),
        r < 3_037_000_500,
{
    let mut lo: u64 = 0;
    let mut hi: u64 = 3_037_000_500;
    while hi - lo > 1
        invariant
            lo < hi <= 3_037_000_500,
            lo * lo <= n,
            n < hi * hi,
        decreases hi - lo,
    {
        let mid = lo + (hi - lo) / 2;
        proof {
            assert(mid * mid <= hi * hi) by (nonlinear_arith)
                requires
                    0 <= mid <= hi,
            ;
            assert(hi * hi <= 3_037_000_500 * 3_037_000_500) by (nonlinear_arith)
                requires
                    0 <= hi <= 3_037_000_500,
            ;
        }
        if mid * mid <= n {
            lo = mid;
        } else {
            hi = mid;
        }
    }
    proof {
        assert(is_root(n as int, lo as int));
        lemma_root_unique(n as int, lo as int, isqrt(n as int));
    }
    lo
}

/// Bhaskara's rational approximation of the sine on `[0, HALF_TURN]`, scaled by `UNIT`.
pub open spec fn half_sine(a: int) -> int {
    let x = a * (HALF_TURN - a);
    (16 * x * UNIT) / (5 * HALF_TURN * HALF_TURN - 4 * x)
}

/// The approximate sine of an angle in `[0, TURN)`, scaled by `UNIT`.
pub open spec fn sine(a: int) -> int {
    if a <= HALF_TURN {
        half_sine(a)
    } else {
        -half_sine(a - HALF_TURN)
    }
}

pub open spec fn cosine(a: int) -> int {
    sine((a + QUARTER_TURN) % (TURN as int))
}

/// The heading of a rotation on screen (y grows downward): `(sin, -cos)`.
pub open spec fn heading(rot: int) -> Vec2 {
    vec2(sine(rot), -cosine(rot))
}

/// The direction at an angle measured from the x axis: `(cos, sin)`.
pub open spec fn direction(a: int) -> Vec2 {
    vec2(cosine(a), sine(a))
}

proof fn lemma_half_sine(a: int)
    requires
        0 <= a <= HALF_TURN,
    ensures
        0 <= a * (HALF_TURN - a),
        4 * (a * (HALF_TURN - a)) <= HALF_TURN * HALF_TURN,
        0 <= half_sine(a) <= UNIT,
{
    let h = HALF_TURN as int;
    let x = a * (h - a);
    assert(0 <= x && 4 * x <= h * h) by (nonlinear_arith)
        requires
            0 <= a <= h,
            x == a * (h - a),
    ;
    let d = 5 * h * h - 4 * x;
    assert(16 * x * UNIT <= d * UNIT) by (nonlinear_arith)
        requires
            0 <= 4 * x <= h * h,
            d == 5 * h * h - 4 * x,
    ;
    vstd::arithmetic::div_mod::lemma_div_is_ordered(16 * x * UNIT, d * UNIT, d);
    vstd::arithmetic::div_mod::lemma_div_by_multiple(UNIT as int, d);
    assert(d * UNIT == UNIT * d) by (nonlinear_arith);
    vstd::arithmetic::div_mod::lemma_div_pos_is_pos(16 * x * UNIT, d);
}

fn half_sine_of(a: u64) -> (r: i64)
    requires
        a <= HALF_TURN,
    ensures
        r == half_sine(a as int),
        0 <= r <= UNIT,
{
    proof {
        lemma_half_sine(a as int);
    }
    let a = a as i64;
    let x = a * (HALF_TURN as i64 - a);
    let h = HALF_TURN as i64;
    (16 * x * UNIT) / (5 * h * h - 4 * x)
}

pub fn sine_of(a: u64) -> (r: i64)
    requires
        a < TURN,
    ensures
        r == sine(a as int),
        -UNIT <= r <= UNIT,
{
    if a <= HALF_TURN {
        half_sine_of(a)
    } else {
        -half_sine_of(a - HALF_TURN)
    }
}

pub fn cosine_of(a: u64) -> (r: i64)
    requires
        a < TURN,
    ensures
        r == cosine(a as int),
        -UNIT <= r <= UNIT,
{
    sine_of((a + QUARTER_TURN) % TURN)
}

pub fn heading_of(rot: u64) -> (r: Vec2)
    requires
        rot < TURN,
    ensures
        r == heading(rot as int),
        bounded(r, UNIT as int),
{
    let s = sine_of(rot);
    let c = cosine_of(rot);
    Vec2 { x: s, y: -c }
}

pub fn direction_of(a: u64) -> (r: Vec2)
    requires
        a < TURN,
    ensures
        r == direction(a as int),
        bounded(r, UNIT as int),
{
    Vec2 { x: cosine_of(a), y: sine_of(a) }
}

/// `v` scaled to length `UNIT`, or zero for the zero vector. The length is
/// taken at `UNIT` times the precision, so short vectors keep their direction.
pub open spec fn normalized(v: Vec2) -> Vec2 {
    let l = isqrt((v.x * v.x + v.y * v.y) * (UNIT * UNIT));
    if l == 0 {
        vec2(0, 0)
    } else {
        vec2(tdiv(v.x * UNIT * UNIT, l), tdiv(v.y * UNIT * UNIT, l))
    }
}

proof fn lemma_unit_component(n: int, l: int, c: int)
    requires
        is_root(n * (UNIT * UNIT), l),
        l > 0,
        c * c <= n,
    ensures
        -UNIT <= tdiv(c * UNIT * UNIT, l) <= UNIT,
{
    let u = UNIT as int;
    assert((c * u) * (c * u) <= n * (u * u)) by (nonlinear_arith)
        requires
            c * c <= n,
    ;
    lemma_root_dominates(n * (u * u), l, c * u);
    assert(-u * l <= c * u * u <= u * l) by (nonlinear_arith)
        requires
            -l <= c * u <= l,
            u > 0,
    ;
    lemma_tdiv_bound(c * u * u, l, u);
}

pub fn div_toward_zero_wide(a: i128, b: i128) -> (r: i128)
    requires
        b > 0,
        a > i128::MIN,
    ensures
        r == tdiv(a as int, b as int),
{
    if a >= 0 {
        a / b
    } else {
        let q = (-a) / b;
        -q
    }
}

/// The integer square root of a wide value, by bisection.
pub fn wide_sqrt(n: u128) -> (r: u128)
    requires
        n < 0x4000_0000_0000_0000_0000_0000_0000_0000,
    ensures
        r == isqrt(n as int),
        is_root(n as int, r as int),
        r < 0x8000_0000_0000_0000,
{
    let mut lo: u128 = 0;
    let mut hi: u128 = 0x8000_0000_0000_0000;
    while hi - lo > 1
        invariant
            lo < hi <= 0x8000_0000_0000_0000,
            lo * lo <= n,
            n < hi * hi,
        decreases hi - lo,
    {
        let mid = lo + (hi - lo) / 2;
        proof {
            assert(mid * mid <= hi * hi) by (nonlinear_arith)
                requires
                    0 <= mid <= hi,
            ;
            assert(hi * hi <= 0x8000_0000_0000_0000 * 0x8000_0000_0000_0000) by (nonlinear_arith)
                requires
                    0 <= hi <= 0x8000_0000_0000_0000,
            ;
        }
        if mid * mid <= n {
            lo = mid;
        } else {
            hi = mid;
        }
    }
    proof {
        assert(is_root(n as int, lo as int));
        lemma_root_unique(n as int, lo as int, isqrt(n as int));
    }
    lo
}

pub fn normalize(v: &Vec2) -> (r: Vec2)
    requires
        bounded(*v, 2_000_000_000),
    ensures
        r == normalized(*v),
        bounded(r, UNIT as int),
{
    proof {
        lemma_square_bound(v.x as int, 2_000_000_000);
        lemma_square_bound(v.y as int, 2_000_000_000);
    }
    let n = (v.x * v.x + v.y * v.y) as u128;
    let uu: u128 = (UNIT as u128) * (UNIT as u128);
    proof {
        assert(n * uu <= 8_000_000_000_000_000_000 * 1_000_000_000_000) by (nonlinear_arith)
            requires
                n <= 8_000_000_000_000_000_000,
                uu == 1_000_000_000_000,
        ;
    }
    let root = wide_sqrt(n * uu);
    if root == 0 {
        Vec2 { x: 0, y: 0 }
    } else {
        let l = root as i128;
        proof {
            assert(v.x * v.x <= n && v.y * v.y <= n) by (nonlinear_arith)
                requires
                    n == v.x * v.x + v.y * v.y,
            ;
            lemma_unit_component(n as int, l as int, v.x as int);
            lemma_unit_component(n as int, l as int, v.y as int);
        }
        let w = (UNIT as i128) * (UNIT as i128);
        let x = div_toward_zero_wide(v.x as i128 * w, l);
        let y = div_toward_zero_wide(v.y as i128 * w, l);
        Vec2 { x: x as i64, y: y as i64 }
    }
}

/// A direction `d` (in `UNIT`s) times a speed `s`.
pub open spec fn scaled(d: Vec2, s: int) -> Vec2 {
    vec2(tdiv(d.x * s, UNIT as int), tdiv(d.y * s, UNIT as int))
}

proof fn lemma_scaled_component(c: int, s: int)
    requires
        -2 * UNIT <= c <= 2 * UNIT,
        0 <= s <= VEL_LIMIT,
    ensures
        -2 * s <= tdiv(c * s, UNIT as int) <= 2 * s,
{
    assert(-(2 * s) * UNIT <= c * s <= (2 * s) * UNIT) by (nonlinear_arith)
        requires
            -2 * UNIT <= c <= 2 * UNIT,
            0 <= s,
    ;
    lemma_tdiv_bound(c * s, UNIT as int, 2 * s);
}

pub fn scale(d: &Vec2, s: i64) -> (r: Vec2)
    requires
        bounded(*d, 2 * UNIT),
        0 <= s <= VEL_LIMIT,
    ensures
        r == scaled(*d, s as int),
        bounded(r, 2 * s),
{
    proof {
        lemma_scaled_component(d.x as int, s as int);
        lemma_scaled_component(d.y as int, s as int);
    }
    Vec2 { x: div_toward_zero(d.x * s, UNIT), y: div_toward_zero(d.y * s, UNIT) }
}

/// A direction turned by thirty degrees toward positive angles.
pub open spec fn turned_positive(n: Vec2) -> Vec2 {
    vec2(
        tdiv(n.x * COS_30 - n.y * SIN_30, UNIT as int),
        tdiv(n.x * SIN_30 + n.y * COS_30, UNIT as int),
    )
}

/// A direction turned by thirty degrees toward negative angles.
pub open spec fn turned_negative(n: Vec2) -> Vec2 {
    vec2(
        tdiv(n.x * COS_30 + n.y * SIN_30, UNIT as int),
        tdiv(-n.x * SIN_30 + n.y * COS_30, UNIT as int),
    )
}

proof fn lemma_turn_component(x: int, y: int, cx: int, cy: int)
    requires
        -UNIT <= x <= UNIT,
        -UNIT <= y <= UNIT,
        -COS_30 <= cx <= COS_30,
        -COS_30 <= cy <= COS_30,
    ensures
        -2 * UNIT <= tdiv(x * cx + y * cy, UNIT as int) <= 2 * UNIT,
{
    assert(-(2 * UNIT) * UNIT <= x * cx + y * cy <= (2 * UNIT) * UNIT) by (nonlinear_arith)
        requires
            -UNIT <= x <= UNIT,
            -UNIT <= y <= UNIT,
            -COS_30 <= cx <= COS_30,
            -COS_30 <= cy <= COS_30,
    ;
    lemma_tdiv_bound(x * cx + y * cy, UNIT as int, 2 * UNIT);
}

pub fn turn_positive(n: &Vec2) -> (r: Vec2)
    requires
        bounded(*n, UNIT as int),
    ensures
        r == turned_positive(*n),
        bounded(r, 2 * UNIT),
{
    proof {
        lemma_turn_component(n.x as int, n.y as int, COS_30 as int, -SIN_30);
        lemma_turn_component(n.x as int, n.y as int, SIN_30 as int, COS_30 as int);
        assert(n.x * COS_30 + n.y * (-SIN_30) == n.x * COS_30 - n.y * SIN_30) by (nonlinear_arith);
    }
    Vec2 {
        x: div_toward_zero(n.x * COS_30 - n.y * SIN_30, UNIT),
        y: div_toward_zero(n.x * SIN_30 + n.y * COS_30, UNIT),
    }
}

pub fn turn_negative(n: &Vec2) -> (r: Vec2)
    requires
        bounded(*n, UNIT as int),
    ensures
        r == turned_negative(*n),
        bounded(r, 2 * UNIT),
{
    proof {
        lemma_turn_component(n.x as int, n.y as int, COS_30 as int, SIN_30 as int);
        lemma_turn_component(n.x as int, n.y as int, -SIN_30, COS_30 as int);
        assert(n.x * (-SIN_30) + n.y * COS_30 == -n.x * SIN_30 + n.y * COS_30) by (nonlinear_arith);
    }
    Vec2 {
        x: div_toward_zero(n.x * COS_30 + n.y * SIN_30, UNIT),
        y: div_toward_zero(-n.x * SIN_30 + n.y * COS_30, UNIT),
    }
}

} // verus!
