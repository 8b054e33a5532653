use vstd::prelude::*;
use vstd::arithmetic::div_mod::{
    lemma_fundamental_div_mod, lemma_mod_division_less_than_divisor, lemma_mod_multiples_vanish,
};

verus! {

/// Ping-pong ("reflect") remapping of a coordinate into `[0, max)`.
///
/// Reflecting at both edges (`i < 0` maps to `-i`, `i >= max` maps to
/// `2*(max-1) - i`, repeated until the coordinate lands inside the
/// raster) is periodic with period `2*(max-1)`, so the remapped value
/// has this closed form.
pub open spec fn mirror_spec(coord: int, max: int) -> int
    recommends
        max >= 1,
{
    if max == 1 {
        0
    } else {
        let m = 2 * (max - 1);
        let r = coord % m;
        if r < max {
            r
        } else {
            m - r
        }
    }
}

/// The remapped coordinate always lands inside `[0, max)`.
pub proof fn lemma_mirror_in_bounds(coord: int, max: int)
    requires
        max >= 1,
    ensures
        0 <= mirror_spec(coord, max) < max,
{
    if max > 1 {
        let m = 2 * (max - 1);
        lemma_mod_division_less_than_divisor(coord, m);
    }
}

/// A coordinate that is already inside the raster is left unchanged.
pub proof fn lemma_mirror_identity(coord: int, max: int)
    requires
        max >= 1,
        0 <= coord < max,
    ensures
        mirror_spec(coord, max) == coord,
{
    if max > 1 {
        let m = 2 * (max - 1);
        vstd::arithmetic::div_mod::lemma_small_mod(coord as nat, m as nat);
    }
}

/// The remapping is periodic: shifting the coordinate by the period
/// `2*(max-1)` does not change where it lands.
pub proof fn lemma_mirror_periodic(coord: int, max: int)
    requires
        max >= 2,
    ensures
        mirror_spec(coord + 2 * (max - 1), max) == mirror_spec(coord, max),
{
    let m = 2 * (max - 1);
    lemma_mod_multiples_vanish(1, coord, m);
    assert(m * 1 + coord == coord + m);
}

/// Reflection at the low edge: a coordinate below zero lands where its
/// negation lands.
pub proof fn lemma_mirror_reflect_low(coord: int, max: int)
    requires
        max >= 1,
    ensures
        mirror_spec(-coord, max) == mirror_spec(coord, max),
{
    if max > 1 {
        let m = 2 * (max - 1);
        lemma_mod_division_less_than_divisor(coord, m);
        lemma_fundamental_div_mod(coord, m);
        let q = coord / m;
        let r = coord % m;
        if r == 0 {
            assert(m * (-q) == -(m * q)) by (nonlinear_arith);
            assert(-coord == m * (-q) + 0);
            lemma_mod_multiples_vanish(-q, 0, m);
        } else {
            assert(m * (-q - 1) == -(m * q) - m) by (nonlinear_arith);
            assert(-coord == m * (-q - 1) + (m - r));
            lemma_mod_multiples_vanish(-q - 1, m - r, m);
            vstd::arithmetic::div_mod::lemma_small_mod((m - r) as nat, m as nat);
            assert((-coord) % m == m - r);
        }
    }
}

/// Reflection at the high edge: a coordinate at or beyond `max` lands
/// where `2*(max-1) - coord` lands.
pub proof fn lemma_mirror_reflect_high(coord: int, max: int)
    requires
        max >= 2,
    ensures
        mirror_spec(2 * (max - 1) - coord, max) == mirror_spec(coord, max),
{
    let m = 2 * (max - 1);
    lemma_mirror_reflect_low(coord, max);
    lemma_mirror_periodic(-coord, max);
    assert(-coord + m == m - coord);
}

/// Remaps a coordinate into `[0, max)` by ping-pong reflection at both
/// raster edges.
pub fn mirror_coordinate(coord: i64, max: i64) -> (r: u32)
    requires
        1 <= max <= u32::MAX,
    ensures
        r == mirror_spec(coord as int, max as int),
        r < max,
{
    proof {
        lemma_mirror_in_bounds(coord as int, max as int);
    }
    if max == 1 {
        return 0u32;
    }
    let m: i128 = 2 * ((max as i128) - 1);
    let mut c: i128 = coord as i128;
    while c < 0 || c >= (max as i128)
        invariant
            2 <= max <= u32::MAX,
            m == 2 * ((max as int) - 1),
            -0x8000_0000_0000_0000 <= c <= 0x8000_0000_0000_0000,
            mirror_spec(c as int, max as int) == mirror_spec(coord as int, max as int),
        decreases
            (if c >= 0 { c as int } else { -(c as int) }), (if c < 0 { 1int } else { 0int }),
    {
        if c < 0 {
            proof {
                lemma_mirror_reflect_low(c as int, max as int);
            }
            c = -c;
        } else {
            proof {
                lemma_mirror_reflect_high(c as int, max as int);
            }
            c = m - c;
        }
    }
    proof {
        lemma_mirror_identity(c as int, max as int);
    }
    c as u32
}

/// Number of tiles needed to cover a length of `len` pixels with tiles
/// of `t` pixels: the division rounded up.
pub open spec fn tiles_in(len: int, t: int) -> int
    recommends
        len >= 1,
        t >= 1,
{
    (len + t - 1) / t
}

/// Pixels of actual image content in tile `i`: a full `t` except for
/// the last tile of a length that is not a multiple of `t`.
pub open spec fn content_len(len: int, t: int, i: int) -> int
    recommends
        len >= 1,
        t >= 1,
        0 <= i < tiles_in(len, t),
{
    if len - i * t < t {
        len - i * t
    } else {
        t
    }
}

/// The tile count is at least one and never exceeds the length itself.
pub proof fn lemma_tiles_in_bounds(len: int, t: int)
    requires
        len >= 1,
        t >= 1,
    ensures
        1 <= tiles_in(len, t) <= len,
{
    lemma_fundamental_div_mod(len + t - 1, t);
    lemma_mod_division_less_than_divisor(len + t - 1, t);
    let n = tiles_in(len, t);
    assert(1 <= n <= len) by (nonlinear_arith)
        requires
            n == (len + t - 1) / t,
            len + t - 1 == t * n + (len + t - 1) % t,
            0 <= (len + t - 1) % t < t,
            t >= 1,
            len >= 1,
    ;
}

/// The tile grid covers the whole length: every tile index is valid,
/// holds at least one content pixel, and the last tile reaches `len`.
pub proof fn lemma_grid_covers(len: int, t: int, i: int)
    requires
        len >= 1,
        t >= 1,
        0 <= i < tiles_in(len, t),
    ensures
        1 <= content_len(len, t, i) <= t,
        i * t + content_len(len, t, i) <= len,
        i < tiles_in(len, t) - 1 ==> content_len(len, t, i) == t,
{
    lemma_fundamental_div_mod(len + t - 1, t);
    lemma_mod_division_less_than_divisor(len + t - 1, t);
    let n = tiles_in(len, t);
    assert(n * t >= len && (n - 1) * t < len) by (nonlinear_arith)
        requires
            n == (len + t - 1) / t,
            len + t - 1 == t * n + (len + t - 1) % t,
            0 <= (len + t - 1) % t < t,
            t >= 1,
    ;
    assert(i * t <= (n - 1) * t) by (nonlinear_arith)
        requires
            i <= n - 1,
            t >= 1,
    ;
    if i < n - 1 {
        assert((i + 1) * t <= (n - 1) * t && (i + 1) * t == i * t + t) by (nonlinear_arith)
            requires
                i + 1 <= n - 1,
                t >= 1,
        ;
    }
}

/// Each output coordinate `o` is owned by the tile `o / (t*s)`: it lies
/// inside that tile's scaled content region.
pub proof fn lemma_region_cover(len: int, t: int, s: int, o: int)
    requires
        len >= 1,
        t >= 1,
        s >= 1,
        0 <= o < len * s,
    ensures
        ({
            let i = o / (t * s);
            &&& 0 <= i < tiles_in(len, t)
            &&& i * t * s <= o < i * t * s + content_len(len, t, i) * s
        }),
{
    let ts = t * s;
    assert(ts >= 1) by (nonlinear_arith)
        requires
            ts == t * s,
            t >= 1,
            s >= 1,
    ;
    let i = o / ts;
    lemma_fundamental_div_mod(o, ts);
    lemma_mod_division_less_than_divisor(o, ts);
    assert(i * ts <= o < (i + 1) * ts) by (nonlinear_arith)
        requires
            o == ts * i + o % ts,
            0 <= o % ts < ts,
    ;
    vstd::arithmetic::div_mod::lemma_div_pos_is_pos(o, ts);
    // i * t < len: from i * t * s <= o < len * s
    assert(i * t < len) by (nonlinear_arith)
        requires
            i * (t * s) <= o,
            o < len * s,
            s >= 1,
            t >= 1,
            i >= 0,
    ;
    // i < tiles_in(len, t): tiles_in * t >= len > i * t
    lemma_fundamental_div_mod(len + t - 1, t);
    lemma_mod_division_less_than_divisor(len + t - 1, t);
    let n = tiles_in(len, t);
    assert(n * t >= len) by (nonlinear_arith)
        requires
            n == (len + t - 1) / t,
            len + t - 1 == t * n + (len + t - 1) % t,
            0 <= (len + t - 1) % t < t,
            t >= 1,
    ;
    assert(i < n) by (nonlinear_arith)
        requires
            i * t < len,
            n * t >= len,
            t >= 1,
    ;
    // upper bound inside the content region
    let cl = content_len(len, t, i);
    if len - i * t < t {
        assert(o < i * t * s + cl * s) by (nonlinear_arith)
            requires
                cl == len - i * t,
                o < len * s,
                s >= 1,
                t >= 1,
        ;
    } else {
        assert(o < i * t * s + cl * s) by (nonlinear_arith)
            requires
                cl == t,
                o < (i + 1) * (t * s),
                s >= 1,
                t >= 1,
    ;
    }
    assert(i * t * s == i * (t * s)) by (nonlinear_arith);
}

/// Scaled content regions of distinct tiles are disjoint: a coordinate
/// inside tile `i`'s region lies outside tile `j`'s region.
pub proof fn lemma_region_disjoint(len: int, t: int, s: int, i: int, j: int, o: int)
    requires
        len >= 1,
        t >= 1,
        s >= 1,
        0 <= i < tiles_in(len, t),
        0 <= j < tiles_in(len, t),
        i != j,
        i * t * s <= o < i * t * s + content_len(len, t, i) * s,
    ensures
        !(j * t * s <= o < j * t * s + content_len(len, t, j) * s),
{
    lemma_grid_covers(len, t, i);
    lemma_grid_covers(len, t, j);
    let ci = content_len(len, t, i);
    let cj = content_len(len, t, j);
    if j < i {
        assert(j * t * s + cj * s <= i * t * s) by (nonlinear_arith)
            requires
                j + 1 <= i,
                cj <= t,
                t >= 1,
                s >= 1,
        ;
    } else {
        assert(i * t * s + ci * s <= j * t * s) by (nonlinear_arith)
            requires
                i + 1 <= j,
                ci <= t,
                t >= 1,
                s >= 1,
        ;
    }
}

} // verus!
