use vstd::prelude::*;

verus! {

/// Width of the playing field, in pixels.
pub const SCREEN_WIDTH: u32 = 1920;

/// Height of the playing field, in pixels.
pub const SCREEN_HEIGHT: u32 = 1080;

/// World coordinates are kept in thousandths of a pixel.
pub const SUBPIXELS: i64 = 1000;

/// Width of the playing field in world units.
pub const WORLD_WIDTH: i64 = 1920000;

/// Height of the playing field in world units.
pub const WORLD_HEIGHT: i64 = 1080000;

/// Headings are kept in thousandths of a degree; this is one full turn.
pub const FULL_TURN: i64 = 360000;

/// Sines and cosines are kept in thousandths.
pub const TRIG_SCALE: i64 = 1000;

/// Elapsed time is counted in microseconds.
pub const MICROS_PER_SECOND: i64 = 1000000;

/// Sine of 0, 1, ..., 90 whole degrees, in thousandths, rounded.
pub open spec fn quarter_sine() -> Seq<int> {
    seq![
        0, 17, 35, 52, 70, 87, 105, 122, 139, 156, 174, 191, 208, 225, 242, 259, 276, 292, 309,
        326, 342, 358, 375, 391, 407, 423, 438, 454, 469, 485, 500, 515, 530, 545, 559, 574, 588,
        602, 616, 629, 643, 656, 669, 682, 695, 707, 719, 731, 743, 755, 766, 777, 788, 799, 809,
        819, 829, 839, 848, 857, 866, 875, 883, 891, 899, 906, 914, 921, 927, 934, 940, 946, 951,
        956, 961, 966, 970, 974, 978, 982, 985, 988, 990, 993, 995, 996, 998, 999, 999, 1000, 1000,
    ]
}

/// Sine of a whole number of degrees in [0, 360), in thousandths.
pub open spec fn sine_deg(d: int) -> int
    recommends
        0 <= d < 360,
{
    if d <= 90 {
        quarter_sine()[d]
    } else if d <= 180 {
        quarter_sine()[180 - d]
    } else if d <= 270 {
        -quarter_sine()[d - 180]
    } else {
        -quarter_sine()[360 - d]
    }
}

/// The whole degrees of a heading (in thousandths of a degree), brought into [0, 360).
pub open spec fn whole_degrees(rot: int) -> int {
    (rot % (FULL_TURN as int)) / 1000
}

/// Sine of a heading, in thousandths.
pub open spec fn sine_of(rot: int) -> int {
    sine_deg(whole_degrees(rot))
}

/// Cosine of a heading, in thousandths.
pub open spec fn cosine_of(rot: int) -> int {
    sine_deg((whole_degrees(rot) + 90) % 360)
}

/// Every tabulated sine lies in [0, 1000].
proof fn lemma_quarter_sine_bounded()
    ensures
        forall|k: int| 0 <= k < 91 ==> 0 <= #[trigger] quarter_sine()[k] <= TRIG_SCALE,
{
}

/// Sines and cosines lie in [-1000, 1000].
pub proof fn lemma_trig_bounded(rot: int)
    ensures
        -TRIG_SCALE <= sine_of(rot) <= TRIG_SCALE,
        -TRIG_SCALE <= cosine_of(rot) <= TRIG_SCALE,
{
    lemma_quarter_sine_bounded();
    let d = whole_degrees(rot);
    assert(0 <= rot % (FULL_TURN as int) < FULL_TURN);
    assert(0 <= d < 360);
    assert(0 <= (d + 90) % 360 < 360);
}

fn sine_of_whole_degrees(d: i64) -> (r: i64)
    requires
        0 <= d < 360,
    ensures
        r == sine_deg(d as int),
{
    let table: [i64; 91] = [
        0, 17, 35, 52, 70, 87, 105, 122, 139, 156, 174, 191, 208, 225, 242, 259, 276, 292, 309,
        326, 342, 358, 375, 391, 407, 423, 438, 454, 469, 485, 500, 515, 530, 545, 559, 574, 588,
        602, 616, 629, 643, 656, 669, 682, 695, 707, 719, 731, 743, 755, 766, 777, 788, 799, 809,
        819, 829, 839, 848, 857, 866, 875, 883, 891, 899, 906, 914, 921, 927, 934, 940, 946, 951,
        956, 961, 966, 970, 974, 978, 982, 985, 988, 990, 993, 995, 996, 998, 999, 999, 1000, 1000,
    ];
    assert(table@.map_values(|v: i64| v as int) =~= quarter_sine());
    if d <= 90 {
        table[d as usize]
    } else if d <= 180 {
        table[(180 - d) as usize]
    } else if d <= 270 {
        -table[(d - 180) as usize]
    } else {
        -table[(360 - d) as usize]
    }
}

/// `v` brought into [0, m): the representative of `v` modulo `m`.
pub fn wrap_into(v: i128, m: i128) -> (r: i128)
    requires
        m > 0,
    ensures
        0 <= r < m,
        r == v % m,
{
    if v >= 0 {
        v % m
    } else {
        let k = (-(v + 1)) % m;
        let r = m - 1 - k;
        proof {
            let q: int = (-(v + 1)) as int / m as int;
            assert(-(v + 1) == q * m + k) by {
                vstd::arithmetic::div_mod::lemma_fundamental_div_mod(-(v + 1) as int, m as int);
            }
            assert(v == (-q - 1) * m + r) by (nonlinear_arith)
                requires
                    -(v + 1) == q * m + k,
                    r == m - 1 - k,
            ;
            vstd::arithmetic::div_mod::lemma_fundamental_div_mod_converse(
                v as int,
                m as int,
                -q - 1,
                r as int,
            );
        }
        r
    }
}

/// Wrapping lands in [0, m) whatever the value, and wrapping again changes nothing:
/// however often the wrap step runs, a coordinate stays on screen.
pub proof fn lemma_wrap_stable(v: int, m: int)
    requires
        m > 0,
    ensures
        0 <= v % m < m,
        (v % m) % m == v % m,
{
    vstd::arithmetic::div_mod::lemma_mod_bound(v, m);
    vstd::arithmetic::div_mod::lemma_small_mod((v % m) as nat, m as nat);
}

/// Sine of a heading (thousandths of a degree), in thousandths.
pub fn sine(rot: i64) -> (r: i64)
    ensures
        r == sine_of(rot as int),
{
    let d = (wrap_into(rot as i128, FULL_TURN as i128) / 1000) as i64;
    sine_of_whole_degrees(d)
}

/// Cosine of a heading (thousandths of a degree), in thousandths.
pub fn cosine(rot: i64) -> (r: i64)
    ensures
        r == cosine_of(rot as int),
{
    let d = (wrap_into(rot as i128, FULL_TURN as i128) / 1000) as i64;
    sine_of_whole_degrees((d + 90) % 360)
}

/// Absolute value.
pub open spec fn abs(v: int) -> int {
    if v >= 0 {
        v
    } else {
        -v
    }
}

/// `c * num / den`, rounded toward zero.
pub open spec fn scaled(c: int, num: int, den: int) -> int {
    if c * num >= 0 {
        c * num / den
    } else {
        -((-(c * num)) / den)
    }
}

/// `c * num / den`, rounded toward zero.
pub fn scale(c: i128, num: i128, den: i128) -> (r: i128)
    requires
        den > 0,
        -0x1_0000_0000_0000_0000_0000_0000 < c * num < 0x1_0000_0000_0000_0000_0000_0000,
    ensures
        r == scaled(c as int, num as int, den as int),
        -0x1_0000_0000_0000_0000_0000_0000 < r < 0x1_0000_0000_0000_0000_0000_0000,
{
    let p = c * num;
    if p >= 0 {
        proof {
            vstd::arithmetic::div_mod::lemma_div_pos_is_pos(p as int, den as int);
            vstd::arithmetic::div_mod::lemma_div_is_ordered_by_denominator(p as int, 1, den as int);
        }
        p / den
    } else {
        proof {
            vstd::arithmetic::div_mod::lemma_div_pos_is_pos(-p, den as int);
            vstd::arithmetic::div_mod::lemma_div_is_ordered_by_denominator(-p, 1, den as int);
        }
        -((-p) / den)
    }
}

/// `c * num / den`, rounded toward zero, has the sign of `c * num`, and its magnitude
/// times `den` is at most that of `c * num`.
pub proof fn lemma_scaled_bound(c: int, num: int, den: int)
    requires
        den > 0,
    ensures
        c * num >= 0 ==> scaled(c, num, den) >= 0,
        c * num <= 0 ==> scaled(c, num, den) <= 0,
        abs(scaled(c, num, den)) * den <= abs(c * num),
        scaled(c, num, den) == scaled(num, c, den),
{
    assert(c * num == num * c) by (nonlinear_arith);
    let m = abs(c * num);
    vstd::arithmetic::div_mod::lemma_fundamental_div_mod(m, den);
    vstd::arithmetic::div_mod::lemma_div_pos_is_pos(m, den);
    vstd::arithmetic::div_mod::lemma_mod_pos_bound(m, den);
    let q = m / den;
    assert(q * den <= m) by (nonlinear_arith)
        requires
            m == den * q + m % den,
            m % den >= 0,
    ;
    if c * num == 0 {
        assert(0int / den == 0);
    }
}

/// `v` held to the range of `i64`.
pub open spec fn clamp_i64(v: int) -> int {
    if v < i64::MIN {
        i64::MIN as int
    } else if v > i64::MAX {
        i64::MAX as int
    } else {
        v
    }
}

/// `v` held to the range of `i64`: a position that would leave it stays at its edge.
pub fn saturate(v: i128) -> (r: i64)
    ensures
        r == clamp_i64(v as int),
{
    if v < i64::MIN as i128 {
        i64::MIN
    } else if v > i64::MAX as i128 {
        i64::MAX
    } else {
        v as i64
    }
}

/// Distance travelled in `micros` microseconds at `rate` world units per second,
/// rounded toward zero.
pub open spec fn travel(rate: int, micros: int) -> int {
    scaled(rate, micros, MICROS_PER_SECOND as int)
}

/// Distance covered in `micros` microseconds at `rate` units per second, rounded
/// toward zero.
pub fn travel_of(rate: i32, micros: u32) -> (r: i128)
    ensures
        r == travel(rate as int, micros as int),
        -0x1_0000_0000_0000_0000 <= r <= 0x1_0000_0000_0000_0000,
{
    assert(-0x8000_0000 * 0x1_0000_0000 <= rate * micros <= 0x8000_0000 * 0x1_0000_0000)
        by (nonlinear_arith)
        requires
            -0x8000_0000 <= rate < 0x8000_0000,
            0 <= micros < 0x1_0000_0000,
    ;
    let d = scale(rate as i128, micros as i128, MICROS_PER_SECOND as i128);
    proof {
        lemma_scaled_bound(rate as int, micros as int, MICROS_PER_SECOND as int);
    }
    d
}

/// `c` times `keep` ten-thousandths, rounded toward zero; never larger than `c`.
pub fn damped(c: i32, keep: i32) -> (r: i128)
    requires
        0 <= keep <= 10000,
    ensures
        r == scaled(c as int, keep as int, 10000),
        abs(r as int) <= abs(c as int),
{
    assert(abs(c * keep) <= abs(c as int) * 10000 && -0x8000_0000 * 10000 <= c * keep
        <= 0x8000_0000 * 10000) by (nonlinear_arith)
        requires
            0 <= keep <= 10000,
            -0x8000_0000 <= c < 0x8000_0000,
    ;
    let r = scale(c as i128, keep as i128, 10000);
    proof {
        lemma_scaled_bound(c as int, keep as int, 10000);
    }
    r
}

/// The share of `speed` along a direction whose trigonometric factor is `factor`
/// (in thousandths), rounded toward zero.
pub open spec fn component(speed: int, factor: int) -> int {
    scaled(speed, factor, TRIG_SCALE as int)
}

/// One of the four equal screen regions split at the screen midpoints.
#[derive(Clone, Copy, Debug, PartialEq, Eq, Structural)]
pub enum Quadrant {
    TopLeft,
    TopRight,
    BottomLeft,
    BottomRight,
}

/// The quadrant that holds the world point (x, y).
pub open spec fn quadrant_of(x: int, y: int) -> Quadrant {
    if x < WORLD_WIDTH / 2 {
        if y < WORLD_HEIGHT / 2 {
            Quadrant::TopLeft
        } else {
            Quadrant::BottomLeft
        }
    } else {
        if y < WORLD_HEIGHT / 2 {
            Quadrant::TopRight
        } else {
            Quadrant::BottomRight
        }
    }
}

/// The quadrant that holds the world point (x, y).
pub fn quadrant_at(x: i64, y: i64) -> (r: Quadrant)
    ensures
        r == quadrant_of(x as int, y as int),
{
    if x < WORLD_WIDTH / 2 {
        if y < WORLD_HEIGHT / 2 {
            Quadrant::TopLeft
        } else {
            Quadrant::BottomLeft
        }
    } else {
        if y < WORLD_HEIGHT / 2 {
            Quadrant::TopRight
        } else {
            Quadrant::BottomRight
        }
    }
}

/// Heading after bouncing off a left or right edge.
pub open spec fn reflected_horizontally(rot: int) -> int {
    FULL_TURN - rot
}

/// Heading after bouncing off a top or bottom edge.
pub open spec fn reflected_vertically(rot: int) -> int {
    if rot > FULL_TURN / 2 {
        3 * FULL_TURN / 2 - rot
    } else {
        FULL_TURN / 2 - rot
    }
}

/// Heading after bouncing off a left or right edge.
pub fn reflect_horizontal(rot: i64) -> (r: i64)
    requires
        rot > i64::MIN + FULL_TURN,
    ensures
        r == reflected_horizontally(rot as int),
{
    FULL_TURN - rot
}

/// Heading after bouncing off a top or bottom edge.
pub fn reflect_vertical(rot: i64) -> (r: i64)
    requires
        rot > i64::MIN + FULL_TURN,
    ensures
        r == reflected_vertically(rot as int),
{
    if rot > FULL_TURN / 2 {
        3 * FULL_TURN / 2 - rot
    } else {
        FULL_TURN / 2 - rot
    }
}

/// Bouncing twice off the same kind of edge restores the heading: for the left and
/// right edges from every heading, for the top and bottom edges from every heading
/// in [0, 360) degrees (a heading of exactly 360 degrees comes back as 0).
pub proof fn lemma_reflection_involutive(rot: int)
    ensures
        reflected_horizontally(reflected_horizontally(rot)) == rot,
        0 <= rot < FULL_TURN ==> reflected_vertically(reflected_vertically(rot)) == rot,
{
}

/// Squared distance between (ax, ay) and (bx, by).
pub open spec fn distance_sq(ax: int, ay: int, bx: int, by: int) -> int {
    (ax - bx) * (ax - bx) + (ay - by) * (ay - by)
}

/// The centres (ax, ay) and (bx, by) are closer than half of `diameter` pixels.
pub open spec fn within_half(ax: int, ay: int, bx: int, by: int, diameter: int) -> bool {
    distance_sq(ax, ay, bx, by) < (diameter * (SUBPIXELS / 2)) * (diameter * (SUBPIXELS / 2))
}

/// Whether the centres (ax, ay) and (bx, by) are closer than half of `diameter` pixels.
pub fn closer_than_half(ax: i64, ay: i64, bx: i64, by: i64, diameter: u64) -> (r: bool)
    requires
        diameter <= u32::MAX as u64 * 2,
    ensures
        r == within_half(ax as int, ay as int, bx as int, by as int, diameter as int),
{
    let reach: i128 = diameter as i128 * (SUBPIXELS as i128 / 2);
    let dx: i128 = if ax >= bx { ax as i128 - bx as i128 } else { bx as i128 - ax as i128 };
    let dy: i128 = if ay >= by { ay as i128 - by as i128 } else { by as i128 - ay as i128 };
    proof {
        assert((ax - bx) * (ax - bx) == dx * dx) by (nonlinear_arith)
            requires
                dx == ax - bx || dx == bx - ax,
        ;
        assert((ay - by) * (ay - by) == dy * dy) by (nonlinear_arith)
            requires
                dy == ay - by || dy == by - ay,
        ;
    }
    if dx >= reach || dy >= reach {
        proof {
            assert(dx * dx + dy * dy >= reach * reach) by (nonlinear_arith)
                requires
                    dx >= 0,
                    dy >= 0,
                    reach >= 0,
                    dx >= reach || dy >= reach,
            ;
        }
        false
    } else {
        proof {
            assert(dx * dx < 0x100_0000_0000_0000_0000_0000) by (nonlinear_arith)
                requires
                    0 <= dx < reach,
                    reach <= 0x1_0000_0000 * 1000,
            ;
            assert(dy * dy < 0x100_0000_0000_0000_0000_0000) by (nonlinear_arith)
                requires
                    0 <= dy < reach,
                    reach <= 0x1_0000_0000 * 1000,
            ;
            assert(reach * reach < 0x100_0000_0000_0000_0000_0000) by (nonlinear_arith)
                requires
                    0 <= reach <= 0x1_0000_0000 * 1000,
            ;
        }
        dx * dx + dy * dy < reach * reach
    }
}

/// The overlap test does not depend on which of the two bodies comes first.
pub proof fn lemma_overlap_symmetric(ax: int, ay: int, bx: int, by: int, diameter: int)
    ensures
        within_half(ax, ay, bx, by, diameter) == within_half(bx, by, ax, ay, diameter),
{
    assert((ax - bx) * (ax - bx) == (bx - ax) * (bx - ax)) by (nonlinear_arith);
    assert((ay - by) * (ay - by) == (by - ay) * (by - ay)) by (nonlinear_arith);
}

/// `r` is the least natural number whose square is at least `n`.
pub open spec fn is_ceil_sqrt(n: int, r: int) -> bool {
    r >= 0 && r * r >= n && (r == 0 || (r - 1) * (r - 1) < n)
}

/// The least natural number whose square is at least `n`.
pub fn ceil_sqrt(n: u128) -> (r: u128)
    requires
        n <= 0x1_0000_0000_0000_0000_0000,
    ensures
        is_ceil_sqrt(n as int, r as int),
        r <= 0x100_0000_0000,
{
    if n == 0 {
        return 0;
    }
    let mut lo: u128 = 0;
    let mut hi: u128 = 0x100_0000_0000;
    assert(hi * hi == 0x1_0000_0000_0000_0000_0000) by (nonlinear_arith)
        requires
            hi == 0x100_0000_0000,
    ;
    while hi - lo > 1
        invariant
            lo < hi <= 0x100_0000_0000,
            lo * lo < n <= hi * hi,
        decreases hi - lo,
    {
        let mid = lo + (hi - lo) / 2;
        assert(mid * mid <= 0x1_0000_0000_0000_0000_0000) by (nonlinear_arith)
            requires
                mid <= 0x100_0000_0000,
        ;
        if mid * mid < n {
            lo = mid;
        } else {
            hi = mid;
        }
    }
    hi
}

/// Squared length of the vector (x, y).
pub open spec fn length_sq(x: int, y: int) -> int {
    x * x + y * y
}

/// The vector (x, y) shortened, keeping its direction, to at most `max` units.
pub open spec fn limited(x: int, y: int, max: int, len: int) -> (int, int) {
    if length_sq(x, y) > max * max {
        (scaled(x, max, len), scaled(y, max, len))
    } else {
        (x, y)
    }
}

/// Rescales (x, y) to length `max` when it is longer, keeping its direction; the
/// length used is rounded up, so the result is never longer than `max`.
pub fn limit_length(x: i128, y: i128, max: i128) -> (r: (i128, i128))
    requires
        0 <= max <= 0x1_0000_0000,
        -0x4_0000_0000 <= x <= 0x4_0000_0000,
        -0x4_0000_0000 <= y <= 0x4_0000_0000,
    ensures
        exists|len: int|
            is_ceil_sqrt(length_sq(x as int, y as int), len) && (r.0 as int, r.1 as int) == limited(
                x as int,
                y as int,
                max as int,
                len,
            ),
        length_sq(r.0 as int, r.1 as int) <= max * max,
        -max <= r.0 <= max,
        -max <= r.1 <= max,
{
    assert(0 <= x * x <= 0x10_0000_0000_0000_0000) by (nonlinear_arith)
        requires
            -0x4_0000_0000 <= x <= 0x4_0000_0000,
    ;
    assert(0 <= y * y <= 0x10_0000_0000_0000_0000) by (nonlinear_arith)
        requires
            -0x4_0000_0000 <= y <= 0x4_0000_0000,
    ;
    assert(max * max <= 0x1_0000_0000_0000_0000) by (nonlinear_arith)
        requires
            0 <= max <= 0x1_0000_0000,
    ;
    let sq = x * x + y * y;
    let len = ceil_sqrt(sq as u128) as i128;
    assert(is_ceil_sqrt(length_sq(x as int, y as int), len as int));
    if sq > max * max {
        assert(len > max) by (nonlinear_arith)
            requires
                len * len >= sq,
                sq > max * max,
                max >= 0,
                len >= 0,
        ;
        assert(x * max < 0x100_0000_0000_0000_0000 && x * max > -0x100_0000_0000_0000_0000)
            by (nonlinear_arith)
            requires
                -0x4_0000_0000 <= x <= 0x4_0000_0000,
                0 <= max <= 0x1_0000_0000,
        ;
        assert(y * max < 0x100_0000_0000_0000_0000 && y * max > -0x100_0000_0000_0000_0000)
            by (nonlinear_arith)
            requires
                -0x4_0000_0000 <= y <= 0x4_0000_0000,
                0 <= max <= 0x1_0000_0000,
        ;
        let rx = scale(x, max, len);
        let ry = scale(y, max, len);
        proof {
            lemma_scaled_bound(x as int, max as int, len as int);
            lemma_scaled_bound(y as int, max as int, len as int);
            let ax = abs(rx as int);
            let ay = abs(ry as int);
            let bx = abs(x as int);
            let by = abs(y as int);
            assert(abs(x * max) == bx * max) by (nonlinear_arith)
                requires
                    bx == abs(x as int),
                    max >= 0,
            ;
            assert(abs(y * max) == by * max) by (nonlinear_arith)
                requires
                    by == abs(y as int),
                    max >= 0,
            ;
            assert(rx * rx == ax * ax && x * x == bx * bx && ry * ry == ay * ay && y * y == by * by)
                by (nonlinear_arith)
                requires
                    ax == rx || ax == -rx,
                    ay == ry || ay == -ry,
                    bx == x || bx == -x,
                    by == y || by == -y,
            ;
            assert(ax * ax * (len * len) <= bx * bx * (max * max)) by (nonlinear_arith)
                requires
                    0 <= ax,
                    ax * len <= bx * max,
                    len > 0,
                    bx >= 0,
                    max >= 0,
            ;
            assert(ay * ay * (len * len) <= by * by * (max * max)) by (nonlinear_arith)
                requires
                    0 <= ay,
                    ay * len <= by * max,
                    len > 0,
                    by >= 0,
                    max >= 0,
            ;
            assert(ax * ax + ay * ay <= max * max) by (nonlinear_arith)
                requires
                    ax * ax * (len * len) <= bx * bx * (max * max),
                    ay * ay * (len * len) <= by * by * (max * max),
                    bx * bx + by * by <= len * len,
                    len > 0,
            ;
            assert(ax <= max) by (nonlinear_arith)
                requires
                    ax * ax + ay * ay <= max * max,
                    ax >= 0,
                    max >= 0,
            ;
            assert(ay <= max) by (nonlinear_arith)
                requires
                    ax * ax + ay * ay <= max * max,
                    ay >= 0,
                    max >= 0,
            ;
        }
        (rx, ry)
    } else {
        assert(x <= max && -max <= x && y <= max && -max <= y) by (nonlinear_arith)
            requires
                x * x + y * y <= max * max,
                max >= 0,
        ;
        (x, y)
    }
}

} // verus!
