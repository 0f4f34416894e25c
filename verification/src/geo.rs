//! Great-circle distance on integer coordinates.
//!
//! Coordinates are microdegrees; distances come out in metres. The
//! computation is the haversine formula with Earth radius 6371 km,
//! carried out in fixed-point integer arithmetic: the sine uses a
//! rational approximation and the arcsine a short power series, each
//! good to a few parts in a thousand, which is ample for a geofence.

use vstd::prelude::*;
use vstd::arithmetic::div_mod::lemma_div_is_ordered;
use crate::record::Position;
use crate::record::pos_wf;
use crate::text::all_digits;
use crate::text::digits_val;
use crate::text::eq_ci_upper;
use crate::text::digit_val;
use crate::text::is_digit;
use crate::text::lemma_digits_val_mono;
use crate::text::lemma_digits_val_nonneg;
use crate::text::str_eq_ci;

verus! {

/// The integer square root: the largest `r` with `r * r <= n` (zero for
/// a negative argument).
pub open spec fn isqrt_spec(n: int) -> int
    decreases n,
{
    if n <= 0 {
        0
    } else {
        let r = isqrt_spec(n - 1);
        if (r + 1) * (r + 1) <= n {
            r + 1
        } else {
            r
        }
    }
}

pub proof fn lemma_isqrt_bounds(n: int)
    requires
        n >= 0,
    ensures
        isqrt_spec(n) >= 0,
        isqrt_spec(n) * isqrt_spec(n) <= n,
        n < (isqrt_spec(n) + 1) * (isqrt_spec(n) + 1),
    decreases n,
{
    if n > 0 {
        lemma_isqrt_bounds(n - 1);
        let r = isqrt_spec(n - 1);
        if (r + 1) * (r + 1) <= n {
            assert((r + 1) * (r + 1) < (r + 2) * (r + 2)) by (nonlinear_arith)
                requires
                    r >= 0,
            ;
        }
    }
}

pub proof fn lemma_isqrt_unique(n: int, r: int)
    requires
        r >= 0,
        r * r <= n,
        n < (r + 1) * (r + 1),
    ensures
        r == isqrt_spec(n),
{
    lemma_isqrt_bounds(n);
    let q = isqrt_spec(n);
    if r < q {
        assert((r + 1) * (r + 1) <= q * q) by (nonlinear_arith)
            requires
                0 <= r + 1 <= q,
        ;
    }
    if q < r {
        assert((q + 1) * (q + 1) <= r * r) by (nonlinear_arith)
            requires
                0 <= q + 1 <= r,
        ;
    }
}

/// Binary-search integer square root.
pub fn isqrt64(n: u64) -> (r: u64)
    ensures
        r as int == isqrt_spec(n as int),
        r as int * r as int <= n as int,
        (n as int) < (r as int + 1) * (r as int + 1),
{
    let mut lo: u64 = 0;
    let mut hi: u64 = 4_294_967_296;
    proof {
        assert((4_294_967_296int) * (4_294_967_296int) > u64::MAX as int) by (nonlinear_arith);
    }
    while hi - lo > 1
        invariant
            lo < hi,
            hi <= 4_294_967_296,
            lo as int * lo as int <= n as int,
            (n as int) < (hi as int) * (hi as int),
        decreases hi - lo,
    {
        let mid: u64 = lo + (hi - lo) / 2;
        proof {
            assert((mid as int) * (mid as int) <= 18_446_744_065_119_617_025) by (nonlinear_arith)
                requires
                    0 <= mid as int <= 4_294_967_295,
            ;
        }
        if mid * mid <= n {
            lo = mid;
        } else {
            hi = mid;
        }
    }
    proof {
        lemma_isqrt_unique(n as int, lo as int);
    }
    lo
}

/// Fixed-point sine, scaled by one million, of an angle given in
/// microdegrees between zero and half a turn. Uses the classical
/// rational approximation `4 t (180 - t)` over `40500 - t (180 - t)`
/// (with `t` in degrees), clamped to the unit range.
pub open spec fn sin_q(x: int) -> int {
    let t = x * (180_000_000 - x);
    let q = (4_000_000 * t) / (40_500_000_000_000_000 - t);
    if q < 0 {
        0
    } else if q > 1_000_000 {
        1_000_000
    } else {
        q
    }
}

/// Fixed-point cosine of a latitude between minus and plus a quarter
/// turn, by reflection of the sine.
pub open spec fn cos_q(phi: int) -> int {
    sin_q(90_000_000 - phi)
}

/// Fixed-point haversine (the squared sine of half the angle), scaled by
/// one million.
pub open spec fn hav_q(d: int) -> int {
    let s = sin_q(d / 2);
    let h = (s * s) / 1_000_000;
    if h > 1_000_000 {
        1_000_000
    } else {
        h
    }
}

/// Fixed-point arcsine, scaled by one million, as a three-term power
/// series; accurate below about seven tenths, which the central-angle
/// computation guarantees by complementing larger arguments.
pub open spec fn asin_q(x: int) -> int {
    let x2 = x * x;
    let x3 = x2 * x;
    let x5 = x3 * x2;
    x + x3 / 6_000_000_000_000 + (3 * x5) / 40_000_000_000_000_000_000_000_000
}

/// The absolute difference of two integers.
pub open spec fn abs_diff(a: int, b: int) -> int {
    if a >= b {
        a - b
    } else {
        b - a
    }
}

/// The central angle, in radians scaled by one million, for a haversine
/// value `a_q` scaled by one million: `2 asin(sqrt(a))`, complementing
/// the arcsine argument when it would exceed the series' sweet spot.
pub open spec fn central_angle_q(a_q: int) -> int {
    if a_q <= 500_000 {
        2 * asin_q(isqrt_spec(a_q * 1_000_000))
    } else {
        3_141_593 - 2 * asin_q(isqrt_spec((1_000_000 - a_q) * 1_000_000))
    }
}

/// The haversine central angle between two positions, in radians scaled
/// by one million.
pub open spec fn central_angle(p1: Position, p2: Position) -> int {
    let hphi = hav_q(abs_diff(p1.lat as int, p2.lat as int));
    let hlam = hav_q(abs_diff(p1.lon as int, p2.lon as int));
    let a0 = hphi + (cos_q(p1.lat as int) * cos_q(p2.lat as int) * hlam) / 1_000_000_000_000;
    let a_q = if a0 > 1_000_000 {
        1_000_000
    } else {
        a0
    };
    central_angle_q(a_q)
}

/// The great-circle distance between two positions, in metres.
pub open spec fn distance_spec(p1: Position, p2: Position) -> int {
    (6_371_000 * central_angle(p1, p2)) / 1_000_000
}

fn sin_e(x: u64) -> (s: u64)
    requires
        x <= 180_000_000,
    ensures
        s as int == sin_q(x as int),
        s <= 1_000_000,
{
    let xi: u128 = x as u128;
    proof {
        assert(xi as int * (180_000_000 - xi as int) <= 8_100_000_000_000_000) by (nonlinear_arith)
            requires
                0 <= xi as int <= 180_000_000,
        ;
        assert(xi as int * (180_000_000 - xi as int) >= 0) by (nonlinear_arith)
            requires
                0 <= xi as int <= 180_000_000,
        ;
    }
    let t: u128 = xi * (180_000_000 - xi);
    let q: u128 = (4_000_000 * t) / (40_500_000_000_000_000 - t);
    if q > 1_000_000 {
        1_000_000
    } else {
        q as u64
    }
}

fn cos_e(phi: i64) -> (c: u64)
    requires
        -90_000_000 <= phi <= 90_000_000,
    ensures
        c as int == cos_q(phi as int),
        c <= 1_000_000,
{
    sin_e((90_000_000 - phi) as u64)
}

fn hav_e(d: u64) -> (h: u64)
    requires
        d <= 360_000_000,
    ensures
        h as int == hav_q(d as int),
        h <= 1_000_000,
{
    let s: u128 = sin_e(d / 2) as u128;
    proof {
        assert((s as int) * (s as int) <= 1_000_000_000_000) by (nonlinear_arith)
            requires
                0 <= s as int <= 1_000_000,
        ;
    }
    let h: u128 = (s * s) / 1_000_000;
    if h > 1_000_000 {
        1_000_000
    } else {
        h as u64
    }
}

fn asin_e(x: u64) -> (r: u64)
    requires
        x <= 1_000_000,
    ensures
        r as int == asin_q(x as int),
        r <= 1_300_000,
{
    let xi: u128 = x as u128;
    proof {
        assert((xi as int) * (xi as int) <= 1_000_000_000_000) by (nonlinear_arith)
            requires
                0 <= xi as int <= 1_000_000,
        ;
    }
    let x2: u128 = xi * xi;
    proof {
        assert((x2 as int) * (xi as int) <= 1_000_000_000_000_000_000) by (nonlinear_arith)
            requires
                0 <= x2 as int <= 1_000_000_000_000,
                0 <= xi as int <= 1_000_000,
        ;
    }
    let x3: u128 = x2 * xi;
    proof {
        assert((x3 as int) * (x2 as int) <= 1_000_000_000_000_000_000_000_000_000_000)
            by (nonlinear_arith)
            requires
                0 <= x3 as int <= 1_000_000_000_000_000_000,
                0 <= x2 as int <= 1_000_000_000_000,
        ;
    }
    let x5: u128 = x3 * x2;
    let t3: u128 = x3 / 6_000_000_000_000;
    let t5: u128 = (3 * x5) / 40_000_000_000_000_000_000_000_000;
    proof {
        lemma_div_is_ordered(x3 as int, 1_000_000_000_000_000_000, 6_000_000_000_000);
        lemma_div_is_ordered(
            3 * (x5 as int),
            3_000_000_000_000_000_000_000_000_000_000,
            40_000_000_000_000_000_000_000_000,
        );
    }
    (xi + t3 + t5) as u64
}

proof fn lemma_asin_small(x: int)
    requires
        0 <= x <= 710_000,
    ensures
        0 <= asin_q(x) <= 800_000,
{
    let x2 = x * x;
    let x3 = x2 * x;
    let x5 = x3 * x2;
    assert(0 <= x2 <= 504_100_000_000) by (nonlinear_arith)
        requires
            0 <= x <= 710_000,
            x2 == x * x,
    ;
    assert(0 <= x3 <= 357_911_000_000_000_000) by (nonlinear_arith)
        requires
            0 <= x <= 710_000,
            0 <= x2 <= 504_100_000_000,
            x3 == x2 * x,
    ;
    assert(0 <= x5 <= 180_436_000_000_000_000_000_000_000_000) by (nonlinear_arith)
        requires
            0 <= x3 <= 357_911_000_000_000_000,
            0 <= x2 <= 504_100_000_000,
            x5 == x3 * x2,
    ;
    lemma_div_is_ordered(x3, 357_911_000_000_000_000, 6_000_000_000_000);
    lemma_div_is_ordered(
        3 * x5,
        541_308_000_000_000_000_000_000_000_000,
        40_000_000_000_000_000_000_000_000,
    );
}

/// The arcsine of the square root of `v`, all scaled by one million; `v`
/// stays below half of one squared unit, the range where the series is
/// sharp.
fn asin_sqrt_e(v: u64) -> (a: u64)
    requires
        v <= 500_000_000_000,
    ensures
        a as int == asin_q(isqrt_spec(v as int)),
        a <= 800_000,
{
    let x = isqrt64(v);
    proof {
        assert(x <= 707_107) by (nonlinear_arith)
            requires
                (x as int) * (x as int) <= 500_000_000_000,
        ;
        lemma_asin_small(x as int);
    }
    asin_e(x)
}

fn central_e(a_q: u64) -> (c: u64)
    requires
        a_q <= 1_000_000,
    ensures
        c as int == central_angle_q(a_q as int),
        c <= 3_141_593,
{
    if a_q <= 500_000 {
        let a = asin_sqrt_e(a_q * 1_000_000);
        2 * a
    } else {
        let a = asin_sqrt_e((1_000_000 - a_q) * 1_000_000);
        3_141_593 - 2 * a
    }
}

/// The great-circle distance between two positions in metres, by the
/// fixed-point haversine formula.
pub fn distance(p1: Position, p2: Position) -> (d: u64)
    requires
        crate::record::pos_wf(p1),
        crate::record::pos_wf(p2),
    ensures
        d as int == distance_spec(p1, p2),
        d <= 20_015_089,
{
    let dlat: u64 = if p1.lat >= p2.lat {
        (p1.lat - p2.lat) as u64
    } else {
        (p2.lat - p1.lat) as u64
    };
    let dlon: u64 = if p1.lon >= p2.lon {
        (p1.lon - p2.lon) as u64
    } else {
        (p2.lon - p1.lon) as u64
    };
    let hphi = hav_e(dlat);
    let hlam = hav_e(dlon);
    let c1 = cos_e(p1.lat);
    let c2 = cos_e(p2.lat);
    proof {
        assert((c1 as int) * (c2 as int) <= 1_000_000_000_000) by (nonlinear_arith)
            requires
                0 <= c1 as int <= 1_000_000,
                0 <= c2 as int <= 1_000_000,
        ;
        assert((c1 as int) * (c2 as int) * (hlam as int) <= 1_000_000_000_000_000_000)
            by (nonlinear_arith)
            requires
                0 <= (c1 as int) * (c2 as int) <= 1_000_000_000_000,
                0 <= hlam as int <= 1_000_000,
        ;
    }
    let cross: u128 = (c1 as u128) * (c2 as u128) * (hlam as u128) / 1_000_000_000_000;
    let a0: u128 = (hphi as u128) + cross;
    let a_q: u64 = if a0 > 1_000_000 {
        1_000_000
    } else {
        a0 as u64
    };
    let c = central_e(a_q);
    proof {
        lemma_div_is_ordered(6_371_000 * (c as int), 20_015_089_003_000, 1_000_000);
    }
    let d: u64 = ((6_371_000u128 * (c as u128)) / 1_000_000) as u64;
    d
}

/// A point is at distance zero from itself.
pub proof fn lemma_distance_self(p: Position)
    ensures
        distance_spec(p, p) == 0,
{
    assert(sin_q(0) == 0);
    assert(hav_q(0) == 0);
    let c = cos_q(p.lat as int);
    assert(c * c * hav_q(0) == 0) by (nonlinear_arith)
        requires
            hav_q(0) == 0,
    ;
    assert(central_angle(p, p) == central_angle_q(0));
    assert(isqrt_spec(0) == 0);
    assert(asin_q(0) == 0);
    assert(central_angle_q(0) == 0);
}

/// Distance does not depend on the order of its endpoints.
pub proof fn lemma_distance_symmetric(a: Position, b: Position)
    ensures
        distance_spec(a, b) == distance_spec(b, a),
{
    assert(abs_diff(a.lat as int, b.lat as int) == abs_diff(b.lat as int, a.lat as int));
    assert(abs_diff(a.lon as int, b.lon as int) == abs_diff(b.lon as int, a.lon as int));
    assert(cos_q(a.lat as int) * cos_q(b.lat as int) == cos_q(b.lat as int) * cos_q(a.lat as int));
}

/// The built-in gazetteer, consulted before any external geocoding call:
/// the coordinates a place name resolves to, matched without regard to
/// case, or nothing when the name is not on the list.
pub open spec fn static_coords_spec(q: Seq<char>) -> Option<Position> {
    if eq_ci_upper(q, "LONDON"@) {
        Some(Position { lat: 51_507_400, lon: -127_800i64 })
    } else if eq_ci_upper(q, "MILDENHALL"@) {
        Some(Position { lat: 52_346_700, lon: 479_500 })
    } else if eq_ci_upper(q, "LAKENHEATH"@) {
        Some(Position { lat: 52_409_300, lon: 560_600 })
    } else if eq_ci_upper(q, "BERLIN"@) {
        Some(Position { lat: 52_520_000, lon: 13_405_000 })
    } else if eq_ci_upper(q, "RAMSTEIN"@) || eq_ci_upper(q, "RAMSTEIN AIR BASE"@) {
        Some(Position { lat: 49_436_500, lon: 7_600_300 })
    } else if eq_ci_upper(q, "SPANGDAHLEM"@) {
        Some(Position { lat: 49_974_500, lon: 6_692_300 })
    } else if eq_ci_upper(q, "GEILENKIRCHEN"@) {
        Some(Position { lat: 50_960_200, lon: 6_046_900 })
    } else if eq_ci_upper(q, "WASHINGTON"@) || eq_ci_upper(q, "DC"@) {
        Some(Position { lat: 38_907_200, lon: -77_036_900i64 })
    } else if eq_ci_upper(q, "GROOM LAKE"@) || eq_ci_upper(q, "AREA 51"@) {
        Some(Position { lat: 37_234_300, lon: -115_806_700i64 })
    } else if eq_ci_upper(q, "EDWARDS AFB"@) {
        Some(Position { lat: 34_905_600, lon: -117_883_700i64 })
    } else if eq_ci_upper(q, "NORFOLK"@) {
        Some(Position { lat: 36_850_800, lon: -76_285_900i64 })
    } else if eq_ci_upper(q, "KYIV"@) || eq_ci_upper(q, "KIEW"@) {
        Some(Position { lat: 50_450_100, lon: 30_523_400 })
    } else if eq_ci_upper(q, "TEL AVIV"@) {
        Some(Position { lat: 32_085_300, lon: 34_781_800 })
    } else if eq_ci_upper(q, "TAIPEI"@) {
        Some(Position { lat: 25_033_000, lon: 121_565_400 })
    } else if eq_ci_upper(q, "KALININGRAD"@) {
        Some(Position { lat: 54_710_400, lon: 20_452_200 })
    } else {
        None
    }
}

/// Looks a place name up in the built-in gazetteer, without regard to
/// case. A miss is not an error: the caller falls back to an external
/// geocoder.
pub fn get_static_coords(query: &str) -> (r: Option<Position>)
    ensures
        r == static_coords_spec(query@),
        match r {
            Some(p) => pos_wf(p),
            None => true,
        },
{
    if str_eq_ci(query, "LONDON") {
        Some(Position { lat: 51_507_400, lon: -127_800i64 })
    } else if str_eq_ci(query, "MILDENHALL") {
        Some(Position { lat: 52_346_700, lon: 479_500 })
    } else if str_eq_ci(query, "LAKENHEATH") {
        Some(Position { lat: 52_409_300, lon: 560_600 })
    } else if str_eq_ci(query, "BERLIN") {
        Some(Position { lat: 52_520_000, lon: 13_405_000 })
    } else if str_eq_ci(query, "RAMSTEIN") || str_eq_ci(query, "RAMSTEIN AIR BASE") {
        Some(Position { lat: 49_436_500, lon: 7_600_300 })
    } else if str_eq_ci(query, "SPANGDAHLEM") {
        Some(Position { lat: 49_974_500, lon: 6_692_300 })
    } else if str_eq_ci(query, "GEILENKIRCHEN") {
        Some(Position { lat: 50_960_200, lon: 6_046_900 })
    } else if str_eq_ci(query, "WASHINGTON") || str_eq_ci(query, "DC") {
        Some(Position { lat: 38_907_200, lon: -77_036_900i64 })
    } else if str_eq_ci(query, "GROOM LAKE") || str_eq_ci(query, "AREA 51") {
        Some(Position { lat: 37_234_300, lon: -115_806_700i64 })
    } else if str_eq_ci(query, "EDWARDS AFB") {
        Some(Position { lat: 34_905_600, lon: -117_883_700i64 })
    } else if str_eq_ci(query, "NORFOLK") {
        Some(Position { lat: 36_850_800, lon: -76_285_900i64 })
    } else if str_eq_ci(query, "KYIV") || str_eq_ci(query, "KIEW") {
        Some(Position { lat: 50_450_100, lon: 30_523_400 })
    } else if str_eq_ci(query, "TEL AVIV") {
        Some(Position { lat: 32_085_300, lon: 34_781_800 })
    } else if str_eq_ci(query, "TAIPEI") {
        Some(Position { lat: 25_033_000, lon: 121_565_400 })
    } else if str_eq_ci(query, "KALININGRAD") {
        Some(Position { lat: 54_710_400, lon: 20_452_200 })
    } else {
        None
    }
}

/// The index of the first point character, or minus one when there is
/// none.
pub open spec fn first_dot(s: Seq<char>) -> int
    decreases s.len(),
{
    if s.len() == 0 {
        -1
    } else if s[0] == '.' {
        0
    } else {
        let r = first_dot(s.drop_first());
        if r < 0 {
            -1
        } else {
            r + 1
        }
    }
}

proof fn lemma_first_dot_at(s: Seq<char>, d: int)
    requires
        0 <= d < s.len(),
        s[d] == '.',
        forall|j: int| 0 <= j < d ==> s[j] != '.',
    ensures
        first_dot(s) == d,
    decreases s.len(),
{
    if d > 0 {
        lemma_first_dot_at(s.drop_first(), d - 1);
    }
}

proof fn lemma_first_dot_none(s: Seq<char>)
    requires
        forall|j: int| 0 <= j < s.len() ==> s[j] != '.',
    ensures
        first_dot(s) == -1,
    decreases s.len(),
{
    if s.len() > 0 {
        lemma_first_dot_none(s.drop_first());
    }
}

/// Ten to the power `k` (one for a non-positive `k`).
pub open spec fn pow10(k: int) -> int
    decreases k,
{
    if k <= 0 {
        1
    } else {
        10 * pow10(k - 1)
    }
}

proof fn lemma_pow10_pos(k: int)
    ensures
        pow10(k) >= 1,
    decreases k,
{
    if k > 0 {
        lemma_pow10_pos(k - 1);
    }
}

proof fn lemma_digits_val_upper(s: Seq<char>)
    requires
        all_digits(s),
    ensures
        digits_val(s) < pow10(s.len() as int),
    decreases s.len(),
{
    if s.len() > 0 {
        assert(all_digits(s.drop_last()));
        lemma_digits_val_upper(s.drop_last());
        assert(is_digit(s.last()));
    }
}

/// The value, in millionths, of a fraction part: its first six digits,
/// padded on the right with zeros when there are fewer.
pub open spec fn frac_val6(f: Seq<char>) -> int {
    if f.len() >= 6 {
        digits_val(f.take(6))
    } else {
        digits_val(f) * pow10(6 - f.len())
    }
}

/// The magnitude, in microdegrees, that an unsigned decimal coordinate
/// literal denotes: digits with an optional point and at least one digit
/// on each side of it. Anything else denotes nothing.
pub open spec fn coord_micro(b: Seq<char>) -> Option<int> {
    let d = first_dot(b);
    if d < 0 {
        if b.len() > 0 && all_digits(b) {
            Some(digits_val(b) * 1_000_000)
        } else {
            None
        }
    } else {
        let ip = b.take(d);
        let fp = b.skip(d + 1);
        if d > 0 && fp.len() > 0 && all_digits(ip) && all_digits(fp) {
            Some(digits_val(ip) * 1_000_000 + frac_val6(fp))
        } else {
            None
        }
    }
}

/// Does the coordinate literal carry a leading minus sign?
pub open spec fn coord_neg(s: Seq<char>) -> bool {
    s.len() > 0 && s[0] == '-'
}

/// The coordinate literal without its sign.
pub open spec fn coord_body(s: Seq<char>) -> Seq<char> {
    if coord_neg(s) {
        s.drop_first()
    } else {
        s
    }
}

/// The microdegrees a signed decimal coordinate literal denotes, if it is
/// well formed and its magnitude stays within half a turn.
pub open spec fn spec_parse_coord(s: Seq<char>) -> Option<i64> {
    match coord_micro(coord_body(s)) {
        Some(m) => if 0 <= m <= 180_000_000 {
            if coord_neg(s) {
                Some((-m) as i64)
            } else {
                Some(m as i64)
            }
        } else {
            None
        },
        None => None,
    }
}

fn scan_digits(b: &str, from: usize, to: usize) -> (r: bool)
    requires
        from <= to <= b@.len(),
    ensures
        r == all_digits(b@.subrange(from as int, to as int)),
{
    let ghost sub = b@.subrange(from as int, to as int);
    let mut j: usize = from;
    while j < to
        invariant
            from <= j <= to <= b@.len(),
            sub == b@.subrange(from as int, to as int),
            forall|k: int| from <= k < j ==> is_digit(b@[k]),
        decreases to - j,
    {
        let c = b.get_char(j);
        if !('0' <= c && c <= '9') {
            proof {
                assert(sub[j - from] == b@[j as int]);
            }
            return false;
        }
        j = j + 1;
    }
    proof {
        assert forall|i: int| 0 <= i < sub.len() implies is_digit(sub[i]) by {
            assert(sub[i] == b@[from + i]);
        }
    }
    true
}

fn parse_digits(b: &str, from: usize, to: usize) -> (r: Option<u64>)
    requires
        from <= to <= b@.len(),
    ensures
        ({
            let sub = b@.subrange(from as int, to as int);
            match r {
                Some(v) => all_digits(sub) && v as int == digits_val(sub) && v
                    <= 1_000_000_000,
                None => !(all_digits(sub) && digits_val(sub) <= 1_000_000_000),
            }
        }),
{
    let ghost sub = b@.subrange(from as int, to as int);
    let mut acc: u64 = 0;
    let mut j: usize = from;
    while j < to
        invariant
            from <= j <= to <= b@.len(),
            sub == b@.subrange(from as int, to as int),
            all_digits(sub.take(j - from)),
            acc as int == digits_val(sub.take(j - from)),
            acc <= 1_000_000_000,
        decreases to - j,
    {
        let c = b.get_char(j);
        proof {
            assert(sub[j - from] == b@[j as int]);
        }
        if !('0' <= c && c <= '9') {
            proof {
                assert(!is_digit(sub[j - from]));
            }
            return None;
        }
        let d: u64 = ((c as u32) - 48) as u64;
        let acc0: u64 = 10 * acc + d;
        proof {
            let k = j - from;
            assert(sub.take(k + 1).drop_last() =~= sub.take(k));
            assert(sub.take(k + 1).last() == sub[k]);
            assert(digits_val(sub.take(k + 1)) == digits_val(sub.take(k)) * 10 + digit_val(
                sub[k],
            ));
            assert(all_digits(sub.take(k + 1)));
        }
        if acc0 > 1_000_000_000 {
            proof {
                if all_digits(sub) {
                    lemma_digits_val_mono(sub, j - from + 1);
                }
            }
            return None;
        }
        acc = acc0;
        j = j + 1;
    }
    proof {
        assert(sub.take(to - from) =~= sub);
    }
    Some(acc)
}

/// Reads a signed decimal coordinate literal (as an external geocoder
/// reports one) into microdegrees: an optional minus sign, digits, and
/// optionally a point followed by more digits, of which the first six
/// count. A malformed literal, or one beyond half a turn in magnitude,
/// yields nothing.
#[verifier::rlimit(100)]
pub fn parse_coord(s: &str) -> (r: Option<i64>)
    ensures
        r == spec_parse_coord(s@),
{
    let n = s.unicode_len();
    let neg = n > 0 && s.get_char(0) == '-';
    let start: usize = if neg {
        1
    } else {
        0
    };
    let ghost b = coord_body(s@);
    proof {
        assert(b =~= s@.subrange(start as int, n as int));
    }
    let mut j: usize = start;
    let mut dotpos: usize = n;
    while j < n
        invariant
            start <= j <= n,
            n == s@.len(),
            start <= dotpos <= n,
            dotpos == n ==> forall|k: int| start <= k < j ==> s@[k] != '.',
            dotpos < n ==> s@[dotpos as int] == '.' && (forall|k: int|
                start <= k < dotpos ==> s@[k] != '.') && j == n,
        decreases n - j,
    {
        let c = s.get_char(j);
        if c == '.' {
            dotpos = j;
            j = n;
        } else {
            j = j + 1;
        }
    }
    if dotpos == n {
        proof {
            assert forall|k: int| 0 <= k < b.len() implies b[k] != '.' by {
                assert(b[k] == s@[start + k]);
            }
            lemma_first_dot_none(b);
        }
        if n == start {
            return None;
        }
        match parse_digits(s, start, n) {
            Some(v) => {
                proof {
                    assert(b =~= s@.subrange(start as int, n as int));
                }
                let m: u64 = v * 1_000_000;
                if m > 180_000_000 {
                    return None;
                }
                if neg {
                    Some(-(m as i64))
                } else {
                    Some(m as i64)
                }
            },
            None => {
                proof {
                    if all_digits(b) {
                        lemma_digits_val_nonneg(b);
                    }
                }
                None
            },
        }
    } else {
        proof {
            let d = dotpos - start;
            assert(b[d] == s@[dotpos as int]);
            assert forall|k: int| 0 <= k < d implies b[k] != '.' by {
                assert(b[k] == s@[start + k]);
            }
            lemma_first_dot_at(b, d);
        }
        if dotpos == start {
            return None;
        }
        if dotpos + 1 >= n {
            proof {
                assert(b.skip(dotpos - start + 1).len() == 0);
            }
            return None;
        }
        let ghost ip = b.take(dotpos - start);
        let ghost fp = b.skip(dotpos - start + 1);
        proof {
            assert(ip =~= s@.subrange(start as int, dotpos as int));
            assert(fp =~= s@.subrange(dotpos + 1, n as int));
        }
        if !scan_digits(s, dotpos + 1, n) {
            return None;
        }
        let vi: u64 = match parse_digits(s, start, dotpos) {
            Some(v) => v,
            None => {
                proof {
                    if all_digits(ip) {
                        lemma_digits_val_nonneg(fp);
                        lemma_pow10_pos(6 - fp.len() as int);
                        if fp.len() >= 6 {
                            assert(all_digits(fp.take(6)));
                            lemma_digits_val_nonneg(fp.take(6));
                        } else {
                            assert(digits_val(fp) * pow10(6 - fp.len() as int) >= 0)
                                by (nonlinear_arith)
                                requires
                                    digits_val(fp) >= 0,
                                    pow10(6 - fp.len() as int) >= 1,
                            ;
                        }
                    }
                }
                return None;
            },
        };
        let flen: usize = n - dotpos - 1;
        let fl: usize = if flen >= 6 {
            6
        } else {
            flen
        };
        let vf0: u64 = match parse_digits(s, dotpos + 1, dotpos + 1 + fl) {
            Some(v) => v,
            None => {
                proof {
                    let ghost f6 = s@.subrange(dotpos + 1, dotpos + 1 + fl);
                    assert forall|k: int| 0 <= k < f6.len() implies is_digit(f6[k]) by {
                        assert(f6[k] == fp[k]);
                    }
                    lemma_digits_val_upper(f6);
                    lemma_pow10_pos(6 - f6.len() as int);
                    assert(pow10(0) == 1);
                    assert(pow10(1) == 10);
                    assert(pow10(2) == 100);
                    assert(pow10(3) == 1_000);
                    assert(pow10(4) == 10_000);
                    assert(pow10(5) == 100_000);
                    assert(pow10(6) == 1_000_000);
                    assert(digits_val(f6) < 1_000_000) by {
                        if f6.len() < 6 {
                            assert(pow10(f6.len() as int) <= pow10(6)) by {
                                lemma_pow10_mono(f6.len() as int, 6);
                            }
                        }
                    }
                    assert(false);
                }
                return None;
            },
        };
        proof {
            if fl == 6 {
                assert(s@.subrange(dotpos + 1, dotpos + 7) =~= fp.take(6));
            } else {
                assert(s@.subrange(dotpos + 1, dotpos + 1 + fl as int) =~= fp);
            }
        }
        let pad: u64 = if fl == 1 {
            100_000
        } else if fl == 2 {
            10_000
        } else if fl == 3 {
            1_000
        } else if fl == 4 {
            100
        } else if fl == 5 {
            10
        } else {
            1
        };
        proof {
            assert(pow10(0) == 1);
            assert(pow10(1) == 10);
            assert(pow10(2) == 100);
            assert(pow10(3) == 1_000);
            assert(pow10(4) == 10_000);
            assert(pow10(5) == 100_000);
        }
        let vf: u64 = vf0 * pad;
        proof {
            if fl < 6 {
                assert(vf as int == digits_val(fp) * pow10(6 - fp.len() as int));
            }
        }
        let m: u64 = vi * 1_000_000 + vf;
        if m > 180_000_000 {
            return None;
        }
        if neg {
            Some(-(m as i64))
        } else {
            Some(m as i64)
        }
    }
}

proof fn lemma_pow10_mono(a: int, b: int)
    requires
        a <= b,
    ensures
        pow10(a) <= pow10(b),
    decreases b - a,
{
    if a < b {
        lemma_pow10_mono(a, b - 1);
        lemma_pow10_pos(b - 1);
    }
}

} // verus!
