use vstd::prelude::*;
use vstd::arithmetic::power::{pow, lemma_pow_increases, lemma_pow1};
use vstd::arithmetic::div_mod::lemma_div_denominator;
use crate::item::PushFloat;

verus! {

/// `extent_from(e, d, size)`: the first base from `e` on whose `d`-th power
/// reaches `size` (never past `size`).
pub open spec fn extent_from(e: nat, d: nat, size: nat) -> nat
    decreases size - e,
{
    if e >= size || pow(e as int, d) >= size {
        e
    } else {
        extent_from(e + 1, d, size)
    }
}

/// The side of the smallest `d`-dimensional hypercube that holds `size` positions.
pub open spec fn extent(size: nat, d: nat) -> nat {
    extent_from(1, d, size)
}

/// Squared Euclidean distance between positions `j` and `k` of a hypercube of
/// side `e` in `d` dimensions; coordinates are the base-`e` digits, least
/// significant first.
pub open spec fn dist2(j: nat, k: nat, e: nat, d: nat) -> nat
    decreases d,
{
    if d == 0 || e == 0 {
        0
    } else {
        let a = (j % e) as int;
        let b = (k % e) as int;
        ((a - b) * (a - b)) as nat + dist2(j / e, k / e, e, (d - 1) as nat)
    }
}

/// The positions below `n` within squared distance `bound` of `index`, ascending.
pub open spec fn near_below(n: nat, index: nat, e: nat, d: nat, bound: nat) -> Seq<nat>
    decreases n,
{
    if n == 0 {
        Seq::empty()
    } else {
        let rest = near_below((n - 1) as nat, index, e, d, bound);
        if dist2((n - 1) as nat, index, e, d) <= bound {
            rest.push((n - 1) as nat)
        } else {
            rest
        }
    }
}

/// `floor(r^2)` for a radius `r = mantissa / 10^scale`, negative radii counting as zero.
pub open spec fn radius_bound(radius: PushFloat) -> nat {
    let m = if radius.mantissa < 0 { 0 } else { radius.mantissa as int };
    ((m * m) / pow(10, 2 * radius.scale as nat)) as nat
}

/// The neighbours of `index` among `size` positions laid out in the smallest
/// `d`-dimensional hypercube, within Euclidean distance `radius`, ascending.
/// The position itself is included; nothing is found when `size` or `d` is 0.
pub open spec fn neighbors(size: nat, d: nat, index: nat, radius: PushFloat) -> Seq<nat> {
    if size == 0 || d == 0 {
        Seq::empty()
    } else {
        near_below(size, index, extent(size, d), d, radius_bound(radius))
    }
}

proof fn lemma_near_below_range(n: nat, index: nat, e: nat, d: nat, bound: nat)
    ensures
        forall|q: int| 0 <= q < near_below(n, index, e, d, bound).len()
            ==> #[trigger] near_below(n, index, e, d, bound)[q] < n,
    decreases n,
{
    if n > 0 {
        lemma_near_below_range((n - 1) as nat, index, e, d, bound);
        let rest = near_below((n - 1) as nat, index, e, d, bound);
        assert forall|q: int| 0 <= q < near_below(n, index, e, d, bound).len()
            implies #[trigger] near_below(n, index, e, d, bound)[q] < n by {
            if q < rest.len() {
                assert(rest[q] < n - 1);
            }
        }
    }
}

/// Every neighbour is a position below `size`.
pub proof fn lemma_neighbors_below(size: nat, d: nat, index: nat, radius: PushFloat)
    ensures
        forall|q: int| 0 <= q < neighbors(size, d, index, radius).len()
            ==> #[trigger] neighbors(size, d, index, radius)[q] < size,
{
    if size > 0 && d > 0 {
        lemma_near_below_range(size, index, extent(size, d), d, radius_bound(radius));
    }
}

/// `1 + e + ... + e^(d-1)`.
pub open spec fn span(e: nat, d: nat) -> nat
    decreases d,
{
    if d == 0 { 0 } else { 1 + e * span(e, (d - 1) as nat) }
}

proof fn lemma_span_grows(e: nat, i: nat, d: nat)
    requires
        i <= d,
    ensures
        span(e, i) <= span(e, d),
    decreases d,
{
    if i < d {
        lemma_span_grows(e, i, (d - 1) as nat);
        if d >= 2 {
            lemma_span_grows(e, (d - 2) as nat, (d - 1) as nat);
        }
        assert(span(e, (d - 1) as nat) <= span(e, d)) by (nonlinear_arith)
            requires
                d >= 1,
                span(e, d) == 1 + e * span(e, (d - 1) as nat),
                d >= 2 ==> span(e, (d - 1) as nat) == 1 + e * span(e, (d - 2) as nat),
                d >= 2 ==> span(e, (d - 2) as nat) <= span(e, (d - 1) as nat),
                d == 1 ==> span(e, (d - 1) as nat) == 0,
        ;
    }
}

/// Positions close in every coordinate are close as numbers: if each squared
/// coordinate difference within `bound` is at most `r` in size, positions
/// within squared distance `bound` differ by at most `r * span(e, d)`.
proof fn lemma_window(j: nat, k: nat, e: nat, d: nat, bound: nat, r: nat)
    requires
        e >= 1,
        j < pow(e as int, d),
        k < pow(e as int, d),
        dist2(j, k, e, d) <= bound,
        forall|x: int| #[trigger] (x * x) <= bound ==> -r <= x <= r,
    ensures
        -(r * span(e, d)) <= j - k <= r * span(e, d),
    decreases d,
{
    if d == 0 {
        vstd::arithmetic::power::lemma_pow0(e as int);
        assert(j == 0 && k == 0);
    } else {
        let p = pow(e as int, (d - 1) as nat);
        vstd::arithmetic::power::lemma_pow_adds(e as int, 1, (d - 1) as nat);
        vstd::arithmetic::power::lemma_pow1(e as int);
        assert(pow(e as int, d) == e * p);
        vstd::arithmetic::power::lemma_pow_positive(e as int, (d - 1) as nat);
        vstd::arithmetic::div_mod::lemma_multiply_divide_lt(j as int, e as int, p);
        vstd::arithmetic::div_mod::lemma_multiply_divide_lt(k as int, e as int, p);
        vstd::arithmetic::div_mod::lemma_fundamental_div_mod(j as int, e as int);
        vstd::arithmetic::div_mod::lemma_fundamental_div_mod(k as int, e as int);
        let a = (j % e) as int;
        let b = (k % e) as int;
        let x = a - b;
        assert(x * x >= 0) by (nonlinear_arith);
        assert(x * x <= bound);
        lemma_window(j / e, k / e, e, (d - 1) as nat, bound, r);
        let s = span(e, (d - 1) as nat);
        let q = (j / e) as int - (k / e) as int;
        assert(j - k == x + e * q) by (nonlinear_arith)
            requires j == e * (j / e) + a, k == e * (k / e) + b, x == a - b, q == (j / e) as int - (k / e) as int;
        assert(-(r * span(e, d)) <= j - k <= r * span(e, d)) by (nonlinear_arith)
            requires
                j - k == x + e * q,
                -r <= x <= r,
                -(r * s) <= q <= r * s,
                span(e, d) == 1 + e * s,
                e >= 1,
        ;
    }
}

proof fn lemma_skip(a: nat, n: nat, index: nat, e: nat, d: nat, bound: nat)
    requires
        a <= n,
        forall|j: nat| a <= j < n ==> #[trigger] dist2(j, index, e, d) > bound,
    ensures
        near_below(n, index, e, d, bound) == near_below(a, index, e, d, bound),
    decreases n,
{
    if a < n {
        lemma_skip(a, (n - 1) as nat, index, e, d, bound);
        assert(dist2((n - 1) as nat, index, e, d) > bound);
    }
}

proof fn lemma_extent_covers(e: nat, d: nat, size: nat)
    requires
        e >= 1,
        d >= 1,
    ensures
        pow(extent_from(e, d, size) as int, d) >= size,
        extent_from(e, d, size) >= 1,
    decreases size - e,
{
    if e >= size || pow(e as int, d) >= size {
        if pow(e as int, d) < size {
            vstd::arithmetic::power::lemma_pow_increases(e, 1, d);
            vstd::arithmetic::power::lemma_pow1(e as int);
        }
    } else {
        lemma_extent_covers(e + 1, d, size);
    }
}

/// The largest `r` with `r * r <= bound`.
fn isqrt(bound: u128) -> (r: u64)
    requires
        bound < 0x4000_0000_0000_0000_0000_0000_0000_0000,
    ensures
        (r as int) * (r as int) <= bound,
        ((r as int) + 1) * ((r as int) + 1) > bound,
{
    let mut lo: u64 = 0;
    let mut hi: u64 = 0x8000_0000_0000_0000;
    assert((hi as int) * (hi as int) > bound) by (nonlinear_arith)
        requires hi == 0x8000_0000_0000_0000u64, bound < 0x4000_0000_0000_0000_0000_0000_0000_0000;
    while hi - lo > 1
        invariant
            lo < hi <= 0x8000_0000_0000_0000u64,
            (lo as int) * (lo as int) <= bound,
            (hi as int) * (hi as int) > bound,
        decreases hi - lo,
    {
        let mid: u64 = lo + (hi - lo) / 2;
        assert((mid as int) * (mid as int) < 0x4000_0000_0000_0000_0000_0000_0000_0000) by (nonlinear_arith)
            requires mid < 0x8000_0000_0000_0000u64;
        let sq: u128 = (mid as u128) * (mid as u128);
        if sq <= bound {
            lo = mid;
        } else {
            hi = mid;
        }
    }
    lo
}

/// A number at least `r * span(e, d)`, or at least `size`.
fn window(r: u64, e: u64, d: u64, size: u64) -> (w: u128)
    requires
        1 <= e <= 0xFFFF_FFFF,
        size <= 0xFFFF_FFFF,
    ensures
        w >= r * span(e as nat, d as nat) || w >= size,
        w <= 0xFFFF_FFFF_FFFF_FFFF + 0xFFFF_FFFF * 0xFFFF_FFFF,
{
    if r == 0 {
        assert(0 * span(e as nat, d as nat) == 0);
        return 0;
    }
    let mut w: u128 = 0;
    let mut i: u64 = 0;
    assert(span(e as nat, 0) == 0);
    assert(r * span(e as nat, 0) == 0);
    while i < d && w < size as u128
        invariant
            i <= d,
            1 <= e <= 0xFFFF_FFFF,
            size <= 0xFFFF_FFFF,
            w == r * span(e as nat, i as nat),
            w <= 0xFFFF_FFFF_FFFF_FFFF + 0xFFFF_FFFF * 0xFFFF_FFFF,
        decreases d - i,
    {
        assert((e as int) * (w as int) <= 0xFFFF_FFFF * 0xFFFF_FFFF) by (nonlinear_arith)
            requires e <= 0xFFFF_FFFF, w < 0xFFFF_FFFF + 1;
        assert(r + e * w == r * span(e as nat, (i + 1) as nat)) by (nonlinear_arith)
            requires w == r * span(e as nat, i as nat), span(e as nat, (i + 1) as nat) == 1 + e * span(e as nat, i as nat);
        w = r as u128 + (e as u128) * w;
        i += 1;
    }
    if i < d {
        proof {
            lemma_span_grows(e as nat, i as nat, d as nat);
            assert(r * span(e as nat, i as nat) <= r * span(e as nat, d as nat)) by (nonlinear_arith)
                requires span(e as nat, i as nat) <= span(e as nat, d as nat);
        }
    }
    w
}

proof fn lemma_dist2_same(j: nat, e: nat, d: nat)
    ensures
        dist2(j, j, e, d) == 0,
    decreases d,
{
    if d > 0 && e > 0 {
        lemma_dist2_same(j / e, e, (d - 1) as nat);
    }
}

proof fn lemma_extent_line(e: nat, size: nat)
    requires
        1 <= e <= size,
    ensures
        extent_from(e, 1, size) == size,
    decreases size - e,
{
    lemma_pow1(e as int);
    if e < size {
        lemma_extent_line(e + 1, size);
    }
}

/// Whether `base^d` reaches `size`.
fn power_reaches(base: u64, d: u64, size: u64) -> (r: bool)
    requires
        1 <= base <= 0xFFFF_FFFF,
        size <= 0xFFFF_FFFF,
    ensures
        r == (pow(base as int, d as nat) >= size),
{
    let mut p: u64 = 1;
    let mut i: u64 = 0;
    proof {
        vstd::arithmetic::power::lemma_pow0(base as int);
    }
    while i < d
        invariant
            i <= d,
            1 <= base <= 0xFFFF_FFFF,
            size <= 0xFFFF_FFFF,
            p == pow(base as int, i as nat),
            p <= 0xFFFF_FFFE_0000_0001u64,
        decreases d - i,
    {
        if p >= size {
            proof {
                lemma_pow_increases(base as nat, i as nat, d as nat);
            }
            return true;
        }
        proof {
            vstd::arithmetic::power::lemma_pow_adds(base as int, i as nat, 1);
            vstd::arithmetic::power::lemma_pow1(base as int);
            assert(p * base <= 0xFFFF_FFFE_0000_0001u64) by (nonlinear_arith)
                requires p <= 0xFFFF_FFFFu64, base <= 0xFFFF_FFFFu64;
        }
        p = p * base;
        i += 1;
    }
    p >= size
}

/// The side of the smallest `d`-dimensional hypercube holding `size` positions.
fn hypercube_extent(size: u64, d: u64) -> (r: u64)
    requires
        1 <= size <= 0xFFFF_FFFF,
        d >= 1,
    ensures
        r == extent(size as nat, d as nat),
        1 <= r <= size,
{
    if d == 1 {
        proof {
            lemma_extent_line(1, size as nat);
        }
        return size;
    }
    if size == 1 {
        return 1;
    }
    proof {
        vstd::arithmetic::power::lemma1_pow(d as nat);
    }
    let mut e: u64 = 2;
    while e < size && !power_reaches(e, d, size)
        invariant
            1 <= e <= size <= 0xFFFF_FFFF,
            extent_from(e as nat, d as nat, size as nat) == extent(size as nat, d as nat),
        decreases size - e,
    {
        e += 1;
    }
    e
}

/// Squared distance of two positions, compared with `bound`.
fn within(j: u64, k: u64, e: u64, d: u64, bound: u128) -> (r: bool)
    requires
        1 <= e <= 0xFFFF_FFFF,
        j <= 0xFFFF_FFFF,
        k <= 0xFFFF_FFFF,
        bound < 0x4000_0000_0000_0000_0000_0000_0000_0000,
    ensures
        r == (dist2(j as nat, k as nat, e as nat, d as nat) <= bound),
{
    let mut a: u64 = j;
    let mut b: u64 = k;
    let mut acc: u128 = 0;
    let mut t: u64 = 0;
    while t < d
        invariant
            1 <= e <= 0xFFFF_FFFF,
            t <= d,
            a <= 0xFFFF_FFFF,
            b <= 0xFFFF_FFFF,
            acc <= bound,
            bound < 0x4000_0000_0000_0000_0000_0000_0000_0000,
            dist2(j as nat, k as nat, e as nat, d as nat)
                == acc + dist2(a as nat, b as nat, e as nat, (d - t) as nat),
        decreases d - t,
    {
        if a == b {
            proof {
                lemma_dist2_same(a as nat, e as nat, (d - t) as nat);
            }
            return true;
        }
        let x: u64 = a % e;
        let y: u64 = b % e;
        assert(x < e && y < e);
        let diff: u64 = if x >= y { x - y } else { y - x };
        assert((diff as int) * (diff as int) == ((x as int) - (y as int)) * ((x as int) - (y as int)))
            by (nonlinear_arith)
            requires diff as int == x - y || diff as int == y - x;
        assert((diff as int) * (diff as int) <= 0xFFFF_FFFF * 0xFFFF_FFFF) by (nonlinear_arith)
            requires diff <= 0xFFFF_FFFF;
        let sq: u128 = (diff as u128) * (diff as u128);
        acc = acc + sq;
        a = a / e;
        b = b / e;
        t += 1;
        if acc > bound {
            return false;
        }
    }
    acc <= bound
}

/// `floor(r^2)` for the radius, negative radii counting as zero.
fn squared_radius_floor(radius: PushFloat) -> (r: u128)
    ensures
        r == radius_bound(radius),
        r < 0x4000_0000_0000_0000_0000_0000_0000_0000,
{
    let m: u128 = if radius.mantissa < 0 { 0 } else { radius.mantissa as u128 };
    assert(m * m < 0x4000_0000_0000_0000_0000_0000_0000_0000) by (nonlinear_arith)
        requires m <= 0x7FFF_FFFF_FFFF_FFFF;
    let mut q: u128 = m * m;
    let steps: u64 = 2 * (radius.scale as u64);
    let mut i: u64 = 0;
    proof {
        vstd::arithmetic::power::lemma_pow0(10);
    }
    while i < steps
        invariant
            i <= steps,
            steps == 2 * radius.scale,
            q <= m * m,
            m * m < 0x4000_0000_0000_0000_0000_0000_0000_0000,
            q == (m * m) as int / pow(10, i as nat),
        decreases steps - i,
    {
        proof {
            vstd::arithmetic::power::lemma_pow_positive(10, i as nat);
            lemma_div_denominator((m * m) as int, pow(10, i as nat), 10);
            vstd::arithmetic::power::lemma_pow_adds(10, i as nat, 1);
            vstd::arithmetic::power::lemma_pow1(10);
            vstd::arithmetic::div_mod::lemma_div_is_ordered_by_denominator(q as int, 1, 10);
        }
        q = q / 10;
        i += 1;
    }
    q
}

/// The neighbour positions of `index`, ascending, as `neighbors` describes them.
pub fn find_neighbors(size: u32, dimensions: u32, index: u32, radius: PushFloat) -> (r: Vec<u32>)
    requires
        size == 0 || index < size,
    ensures
        r@.map_values(|x: u32| x as nat) == neighbors(
            size as nat,
            dimensions as nat,
            index as nat,
            radius,
        ),
{
    let mut out: Vec<u32> = Vec::new();
    if size == 0 || dimensions == 0 {
        assert(out@.map_values(|x: u32| x as nat) =~= Seq::<nat>::empty());
        return out;
    }
    let e = hypercube_extent(size as u64, dimensions as u64);
    let bound = squared_radius_floor(radius);
    let r = isqrt(bound);
    let w = window(r, e, dimensions as u64, size as u64);
    let lo: u32 = if w >= index as u128 { 0 } else { (index as u128 - w) as u32 };
    let hi: u32 = if index as u128 + w + 1 >= size as u128 { size } else { (index as u128 + w + 1) as u32 };
    proof {
        lemma_extent_covers(1, dimensions as nat, size as nat);
        assert forall|x: int| #[trigger] (x * x) <= bound implies -(r as int) <= x <= r as int by {
            if x > r {
                assert(x * x >= (r + 1) * (r + 1)) by (nonlinear_arith) requires x >= r + 1, r >= 0;
            }
            if x < -(r as int) {
                assert(x * x >= (r + 1) * (r + 1)) by (nonlinear_arith) requires -x >= r + 1, r >= 0;
            }
        }
        assert forall|j: nat| (0 <= j < lo || hi <= j < size) implies #[trigger] dist2(j, index as nat, e as nat, dimensions as nat) > bound by {
            if dist2(j, index as nat, e as nat, dimensions as nat) <= bound {
                lemma_window(j, index as nat, e as nat, dimensions as nat, bound as nat, r as nat);
            }
        }
        lemma_skip(0, lo as nat, index as nat, e as nat, dimensions as nat, bound as nat);
        lemma_skip(hi as nat, size as nat, index as nat, e as nat, dimensions as nat, bound as nat);
    }
    let mut j: u32 = lo;
    assert(out@.map_values(|x: u32| x as nat) =~= Seq::<nat>::empty());
    while j < hi
        invariant
            lo <= j <= hi <= size,
            1 <= e <= size,
            e == extent(size as nat, dimensions as nat),
            bound == radius_bound(radius),
            bound < 0x4000_0000_0000_0000_0000_0000_0000_0000,
            out@.map_values(|x: u32| x as nat) == near_below(
                j as nat,
                index as nat,
                e as nat,
                dimensions as nat,
                bound as nat,
            ),
        decreases hi - j,
    {
        let ghost before = out@;
        if within(j as u64, index as u64, e, dimensions as u64, bound) {
            out.push(j);
        }
        assert(out@.map_values(|x: u32| x as nat) =~= near_below(
            (j + 1) as nat,
            index as nat,
            e as nat,
            dimensions as nat,
            bound as nat,
        ));
        j += 1;
    }
    out
}

} // verus!
