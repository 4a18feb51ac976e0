//! Normalized cross-correlation over grayscale grids, in fixed-point
//! integer arithmetic.
//!
//! The score of a marker placed at a top-left alignment position inside a
//! frame is `dot / sqrt(sum_f2 * sum_t2)`, where `dot` is the sum of the
//! products of overlapping pixels and `sum_f2`, `sum_t2` are the sums of
//! squared pixels of the frame window and the marker. The score is scaled
//! by one million and rounded down, so identical pixel patterns score
//! exactly `SCORE_ONE`. A window whose normalizer is zero (an all-black
//! window or marker) scores zero.

use vstd::arithmetic::div_mod::{lemma_fundamental_div_mod, lemma_fundamental_div_mod_converse};
use vstd::prelude::*;

use crate::grid::Grid;

verus! {

/// Sum of pairwise products of two equally long integer sequences.
pub open spec fn dot(a: Seq<int>, b: Seq<int>) -> int
    decreases a.len(),
{
    if a.len() == 0 {
        0
    } else {
        dot(a.drop_last(), b.drop_last()) + a.last() * b.last()
    }
}

/// Sum of squares of an integer sequence.
pub open spec fn sumsq(a: Seq<int>) -> int {
    dot(a, a)
}

/// The pixel values of a byte sequence, as mathematical integers.
pub open spec fn vals(p: Seq<u8>) -> Seq<int> {
    Seq::new(p.len(), |k: int| p[k] as int)
}

/// Row-major index into a frame of width `fw` of the `k`-th cell of a
/// `tw`-wide window whose top-left corner is at `(ox, oy)`.
pub open spec fn win_idx(fw: int, ox: int, oy: int, tw: int, k: int) -> int {
    (oy + k / tw) * fw + ox + k % tw
}

/// The window of `tw * th` frame pixels under a marker placed at `(ox, oy)`,
/// flattened row-major.
pub open spec fn window(f: Seq<u8>, fw: int, ox: int, oy: int, tw: int, th: int) -> Seq<int> {
    Seq::new((tw * th) as nat, |k: int| f[win_idx(fw, ox, oy, tw, k)] as int)
}

/// Integer square root, rounded down.
pub open spec fn isqrt_spec(n: nat) -> nat
    decreases n,
{
    if n == 0 {
        0
    } else {
        let r = isqrt_spec((n - 1) as nat);
        if (r + 1) * (r + 1) <= n {
            r + 1
        } else {
            r
        }
    }
}

pub proof fn lemma_isqrt_bounds(n: nat)
    ensures
        isqrt_spec(n) * isqrt_spec(n) <= n,
        n < (isqrt_spec(n) + 1) * (isqrt_spec(n) + 1),
    decreases n,
{
    if n == 0 {
        let s = isqrt_spec(n);
        assert(s == 0);
        assert((s + 1) * (s + 1) == 1) by (nonlinear_arith)
            requires
                s == 0,
        ;
        assert(n < (isqrt_spec(n) + 1) * (isqrt_spec(n) + 1));
    } else {
        lemma_isqrt_bounds((n - 1) as nat);
        let r = isqrt_spec((n - 1) as nat);
        if (r + 1) * (r + 1) <= n {
            assert(isqrt_spec(n) == r + 1);
            assert(n <= (r + 1) * (r + 1));
            assert(n < ((r + 1) + 1) * ((r + 1) + 1)) by (nonlinear_arith)
                requires
                    n <= (r + 1) * (r + 1),
            ;
            assert(n < (isqrt_spec(n) + 1) * (isqrt_spec(n) + 1));
        } else {
            assert(isqrt_spec(n) == r);
            assert(n < (isqrt_spec(n) + 1) * (isqrt_spec(n) + 1));
        }
    }
}

/// The integer square root is the only value whose square brackets `n`.
pub proof fn lemma_isqrt_unique(n: nat, r: nat)
    requires
        r * r <= n,
        n < (r + 1) * (r + 1),
    ensures
        r == isqrt_spec(n),
{
    lemma_isqrt_bounds(n);
    let s = isqrt_spec(n);
    assert(r == s) by (nonlinear_arith)
        requires
            r * r <= n,
            n < (r + 1) * (r + 1),
            s * s <= n,
            n < (s + 1) * (s + 1),
    ;
}

/// The square root of a perfect square is its root.
pub proof fn lemma_isqrt_square(a: nat)
    ensures
        isqrt_spec(a * a) == a,
{
    assert(a * a < (a + 1) * (a + 1)) by (nonlinear_arith);
    lemma_isqrt_unique(a * a, a);
}

/// Fixed-point correlation score from the raw sums: the product sum over
/// the square root of the product of the two square sums, scaled by one
/// million, rounded down, and capped at one million.
pub open spec fn spec_score(num: int, den2: int) -> int
    recommends
        num >= 0,
        den2 >= 0,
{
    let den = isqrt_spec(den2 as nat) as int;
    if den == 0 {
        0
    } else {
        let q = num * 1_000_000 / den;
        if q > 1_000_000 {
            1_000_000
        } else {
            q
        }
    }
}

/// Score of the marker `t` (dimensions `tw * th`) placed at `(ox, oy)` in
/// the frame `f` of width `fw`.
pub open spec fn score_at(
    f: Seq<u8>,
    fw: int,
    t: Seq<u8>,
    tw: int,
    th: int,
    ox: int,
    oy: int,
) -> int {
    let w = window(f, fw, ox, oy, tw, th);
    spec_score(dot(w, vals(t)), sumsq(w) * sumsq(vals(t)))
}

proof fn lemma_dot_take_succ(a: Seq<int>, b: Seq<int>, k: int)
    requires
        0 <= k < a.len(),
        k < b.len(),
    ensures
        dot(a.take(k + 1), b.take(k + 1)) == dot(a.take(k), b.take(k)) + a[k] * b[k],
{
    assert(a.take(k + 1).drop_last() =~= a.take(k));
    assert(b.take(k + 1).drop_last() =~= b.take(k));
}

/// A dot product of sequences of pixel values is non-negative and at most
/// `255 * 255` per element.
proof fn lemma_dot_bound(a: Seq<int>, b: Seq<int>)
    requires
        a.len() == b.len(),
        forall|i: int| 0 <= i < a.len() ==> 0 <= #[trigger] a[i] <= 255,
        forall|i: int| 0 <= i < b.len() ==> 0 <= #[trigger] b[i] <= 255,
    ensures
        0 <= dot(a, b) <= a.len() * 65025,
    decreases a.len(),
{
    if a.len() == 0 {
    } else {
        lemma_dot_bound(a.drop_last(), b.drop_last());
        assert(0 <= a.last() * b.last() <= 65025) by (nonlinear_arith)
            requires
                0 <= a.last() <= 255,
                0 <= b.last() <= 255,
        ;
    }
}

/// Row-major split of a flat index: `j * tw + i` has row `j` and column `i`.
pub proof fn lemma_rm_index(tw: int, j: int, i: int)
    requires
        tw >= 1,
        0 <= i < tw,
        0 <= j,
    ensures
        (j * tw + i) / tw == j,
        (j * tw + i) % tw == i,
        j * tw + i >= 0,
{
    lemma_fundamental_div_mod_converse(j * tw + i, tw, j, i);
    assert(j * tw >= 0) by (nonlinear_arith)
        requires
            j >= 0,
            tw >= 1,
    ;
}

/// The window cell in row `j`, column `i` is the frame pixel at the
/// corresponding row-major index, which is in bounds.
proof fn lemma_window_elem(
    f: Seq<u8>,
    fw: int,
    fh: int,
    ox: int,
    oy: int,
    tw: int,
    th: int,
    j: int,
    i: int,
)
    requires
        tw >= 1,
        0 <= i < tw,
        0 <= j < th,
        0 <= ox,
        0 <= oy,
        ox + tw <= fw,
        oy + th <= fh,
        f.len() == fw * fh,
    ensures
        0 <= j * tw + i < tw * th,
        0 <= (oy + j) * fw + ox + i < f.len(),
        window(f, fw, ox, oy, tw, th)[j * tw + i] == f[(oy + j) * fw + ox + i] as int,
{
    lemma_rm_index(tw, j, i);
    assert(j * tw + i < tw * th) by (nonlinear_arith)
        requires
            0 <= i < tw,
            0 <= j < th,
    ;
    assert((oy + j) * fw + ox + i < fw * fh && (oy + j) * fw >= 0) by (nonlinear_arith)
        requires
            0 <= ox,
            0 <= oy,
            0 <= i,
            ox + i < fw,
            0 <= oy + j,
            oy + j < fh,
    ;
}

/// Every cell of a window over in-range offsets is a pixel value.
proof fn lemma_window_in_range(f: Seq<u8>, fw: int, fh: int, ox: int, oy: int, tw: int, th: int)
    requires
        tw >= 1,
        0 <= ox,
        0 <= oy,
        ox + tw <= fw,
        oy + th <= fh,
        f.len() == fw * fh,
    ensures
        forall|k: int|
            0 <= k < tw * th ==> 0 <= #[trigger] window(f, fw, ox, oy, tw, th)[k] <= 255,
{
    let w = window(f, fw, ox, oy, tw, th);
    assert forall|k: int| 0 <= k < tw * th implies 0 <= #[trigger] w[k] <= 255 by {
        lemma_fundamental_div_mod(k, tw);
        let j = k / tw;
        let i = k % tw;
        assert(j < th) by (nonlinear_arith)
            requires
                k == tw * j + i,
                0 <= i < tw,
                k < tw * th,
                0 <= j,
        ;
        lemma_window_elem(f, fw, fh, ox, oy, tw, th, j, i);
    }
}

/// Pixel value sequences hold values between 0 and 255.
proof fn lemma_vals_in_range(p: Seq<u8>)
    ensures
        forall|k: int| 0 <= k < p.len() ==> 0 <= #[trigger] vals(p)[k] <= 255,
{
}

/// Integer square root of a machine integer, rounded down.
pub fn isqrt(n: u128) -> (r: u128)
    ensures
        r as nat == isqrt_spec(n as nat),
        r * r <= n,
{
    let mut lo: u128 = 0;
    let mut hi: u128 = 0xFFFF_FFFF_FFFF_FFFF;
    proof {
        assert((hi + 1) * (hi + 1) > n) by (nonlinear_arith)
            requires
                hi == 0xFFFF_FFFF_FFFF_FFFFu128,
                n <= u128::MAX,
        ;
    }
    while lo < hi
        invariant
            lo <= hi,
            hi <= 0xFFFF_FFFF_FFFF_FFFF,
            lo * lo <= n,
            (hi + 1) * (hi + 1) > n,
        decreases hi - lo,
    {
        let mid: u128 = lo + (hi - lo + 1) / 2;
        proof {
            assert(mid * mid <= u128::MAX) by (nonlinear_arith)
                requires
                    mid <= 0xFFFF_FFFF_FFFF_FFFFu128,
            ;
        }
        if mid * mid <= n {
            lo = mid;
        } else {
            hi = mid - 1;
        }
    }
    proof {
        lemma_isqrt_unique(n as nat, lo as nat);
    }
    lo
}

/// Correlation sums of the frame window at `(ox, oy)` against the marker
/// `t`: the sum of pixel products and the sum of squared window pixels.
#[verifier::loop_isolation(false)]
fn window_sums(f: &Grid, t: &Grid, ox: usize, oy: usize) -> (r: (u64, u64))
    requires
        f.wf(),
        t.wf(),
        t.width >= 1,
        t.height >= 1,
        ox + t.width <= f.width,
        oy + t.height <= f.height,
    ensures
        ({
            let w = window(
                f.pixels@,
                f.width as int,
                ox as int,
                oy as int,
                t.width as int,
                t.height as int,
            );
            r.0 == dot(w, vals(t.pixels@)) && r.1 == sumsq(w)
        }),
{
    let fw = f.width;
    let tw = t.width;
    let th = t.height;
    let ghost w = window(f.pixels@, fw as int, ox as int, oy as int, tw as int, th as int);
    let ghost tv = vals(t.pixels@);
    proof {
        assert(tw * th == t.pixels@.len());
        assert(w.len() == tw * th);
        assert(f.width * f.height <= 0x4000_0000 && tw * th <= 0x4000_0000) by (nonlinear_arith)
            requires
                f.width <= 0x8000,
                f.height <= 0x8000,
                tw <= 0x8000,
                th <= 0x8000,
        ;
    }
    let mut dot_acc: u64 = 0;
    let mut sq_acc: u64 = 0;
    let mut j: usize = 0;
    while j < th
        invariant
            j <= th,
            dot_acc == dot(w.take((j * tw) as int), tv.take((j * tw) as int)),
            sq_acc == dot(w.take((j * tw) as int), w.take((j * tw) as int)),
            dot_acc <= (j * tw) * 65025,
            sq_acc <= (j * tw) * 65025,
        decreases th - j,
    {
        proof {
            assert(j * tw <= th * tw && (j + 1) * tw <= th * tw && (j + 1) * tw == j * tw + tw
                && th * tw == tw * th) by (nonlinear_arith)
                requires
                    j < th,
                    tw >= 1,
            ;
            assert((oy + j) * fw + ox + tw <= f.height * fw && (oy + j) * fw >= 0)
                by (nonlinear_arith)
                requires
                    0 <= oy,
                    0 <= ox,
                    oy + j + 1 <= f.height,
                    ox + tw <= fw,
            ;
            assert(f.height * fw == f.width * f.height) by (nonlinear_arith)
                requires
                    fw == f.width,
            ;
        }
        let row_f: usize = (oy + j) * fw + ox;
        let row_t: usize = j * tw;
        let mut i: usize = 0;
        while i < tw
            invariant
                i <= tw,
                row_f == (oy + j) * fw + ox,
                row_t == j * tw,
                j < th,
                dot_acc == dot(w.take((j * tw + i) as int), tv.take((j * tw + i) as int)),
                sq_acc == dot(w.take((j * tw + i) as int), w.take((j * tw + i) as int)),
                dot_acc <= (j * tw + i) * 65025,
                sq_acc <= (j * tw + i) * 65025,
            decreases tw - i,
        {
            let ghost k = (j * tw + i) as int;
            proof {
                lemma_window_elem(
                    f.pixels@,
                    fw as int,
                    f.height as int,
                    ox as int,
                    oy as int,
                    tw as int,
                    th as int,
                    j as int,
                    i as int,
                );
                assert(k * 65025 + 65025 == (k + 1) * 65025) by (nonlinear_arith);
                assert((k + 1) * 65025 <= (tw * th) * 65025) by (nonlinear_arith)
                    requires
                        k + 1 <= tw * th,
                ;
                assert((tw * th) * 65025 <= 0x4000_0000 * 65025) by (nonlinear_arith)
                    requires
                        tw <= 0x8000,
                        th <= 0x8000,
                ;
            }
            let fv: u64 = f.pixels[row_f + i] as u64;
            let tvv: u64 = t.pixels[row_t + i] as u64;
            proof {
                lemma_dot_take_succ(w, tv, k);
                lemma_dot_take_succ(w, w, k);
                assert(w[k] == fv as int);
                assert(tv[k] == tvv as int);
                assert(fv * tvv <= 65025 && fv * fv <= 65025) by (nonlinear_arith)
                    requires
                        fv <= 255,
                        tvv <= 255,
                ;
            }
            dot_acc = dot_acc + fv * tvv;
            sq_acc = sq_acc + fv * fv;
            i = i + 1;
        }
        j = j + 1;
    }
    proof {
        assert(w.take((th * tw) as int) =~= w);
        assert(tv.take((th * tw) as int) =~= tv);
    }
    (dot_acc, sq_acc)
}

/// Sum of squared pixels of a whole grid.
#[verifier::loop_isolation(false)]
fn grid_sumsq(t: &Grid) -> (r: u64)
    requires
        t.wf(),
    ensures
        r == sumsq(vals(t.pixels@)),
        r <= t.pixels@.len() * 65025,
{
    let ghost tv = vals(t.pixels@);
    let n = t.pixels.len();
    proof {
        assert(t.width * t.height <= 0x4000_0000) by (nonlinear_arith)
            requires
                t.width <= 0x8000,
                t.height <= 0x8000,
        ;
    }
    let mut acc: u64 = 0;
    let mut k: usize = 0;
    while k < n
        invariant
            k <= n,
            acc == dot(tv.take(k as int), tv.take(k as int)),
            acc <= k * 65025,
        decreases n - k,
    {
        let v: u64 = t.pixels[k] as u64;
        proof {
            lemma_dot_take_succ(tv, tv, k as int);
            assert(tv[k as int] == v as int);
            assert(v * v <= 65025) by (nonlinear_arith)
                requires
                    v <= 255,
            ;
            assert(k * 65025 + 65025 == (k + 1) * 65025) by (nonlinear_arith);
            assert((k + 1) * 65025 <= n * 65025) by (nonlinear_arith)
                requires
                    k + 1 <= n,
            ;
            assert(n * 65025 <= 0x4000_0000 * 65025) by (nonlinear_arith)
                requires
                    n <= 0x4000_0000,
            ;
        }
        acc = acc + v * v;
        k = k + 1;
    }
    proof {
        assert(tv.take(n as int) =~= tv);
    }
    acc
}

/// Fixed-point score from the raw sums, matching `spec_score`.
fn score_from_sums(d: u64, fsq: u64, tsq: u64) -> (s: i64)
    ensures
        s == spec_score(d as int, fsq as int * tsq as int),
        0 <= s <= 1_000_000,
{
    proof {
        assert((fsq as int) * (tsq as int) <= u128::MAX && (d as int) * 1_000_000 <= u128::MAX)
            by (nonlinear_arith)
            requires
                fsq <= u64::MAX,
                tsq <= u64::MAX,
                d <= u64::MAX,
        ;
    }
    let den2: u128 = (fsq as u128) * (tsq as u128);
    let den: u128 = isqrt(den2);
    proof {
        lemma_isqrt_bounds(den2 as nat);
    }
    if den == 0 {
        0
    } else {
        let q: u128 = ((d as u128) * 1_000_000) / den;
        if q > 1_000_000 {
            1_000_000
        } else {
            q as i64
        }
    }
}

/// Score of the marker `t` at frame position `(ox, oy)`: the executable
/// counterpart of `score_at`, given the marker's precomputed square sum.
pub fn score_at_pos(f: &Grid, t: &Grid, tsq: u64, ox: usize, oy: usize) -> (s: i64)
    requires
        f.wf(),
        t.wf(),
        t.width >= 1,
        t.height >= 1,
        ox + t.width <= f.width,
        oy + t.height <= f.height,
        tsq == sumsq(vals(t.pixels@)),
    ensures
        s == score_at(
            f.pixels@,
            f.width as int,
            t.pixels@,
            t.width as int,
            t.height as int,
            ox as int,
            oy as int,
        ),
        0 <= s <= 1_000_000,
{
    let (d, fsq) = window_sums(f, t, ox, oy);
    score_from_sums(d, fsq, tsq)
}

/// Best `(score, x, y)` among the first `k` alignment positions, taken in
/// row-major order over a surface `sw` positions wide; a later position
/// replaces an earlier one only with a strictly greater score. Starts from
/// a sentinel below every real score, so the first position always wins it.
pub open spec fn peak_upto(
    f: Seq<u8>,
    fw: int,
    t: Seq<u8>,
    tw: int,
    th: int,
    sw: int,
    k: int,
) -> (int, int, int)
    decreases k,
{
    if k <= 0 {
        (-1, 0, 0)
    } else {
        let p = peak_upto(f, fw, t, tw, th, sw, k - 1);
        let x = (k - 1) % sw;
        let y = (k - 1) / sw;
        let s = score_at(f, fw, t, tw, th, x, y);
        if s > p.0 {
            (s, x, y)
        } else {
            p
        }
    }
}

/// The peak of the whole response surface of marker `t` over frame `f`:
/// the maximum score over every alignment position, at the first position
/// in row-major order that attains it.
pub open spec fn spec_peak(f: Seq<u8>, fw: int, fh: int, t: Seq<u8>, tw: int, th: int) -> (
    int,
    int,
    int,
) {
    peak_upto(f, fw, t, tw, th, fw - tw + 1, (fw - tw + 1) * (fh - th + 1))
}

/// Scan every alignment position of `t` inside `f` and return the best
/// score with its position; ties keep the earliest position in row-major
/// order.
#[verifier::loop_isolation(false)]
pub fn best_in_window(f: &Grid, t: &Grid) -> (r: (i64, usize, usize))
    requires
        f.wf(),
        t.wf(),
        1 <= t.width <= f.width,
        1 <= t.height <= f.height,
    ensures
        (r.0 as int, r.1 as int, r.2 as int) == spec_peak(
            f.pixels@,
            f.width as int,
            f.height as int,
            t.pixels@,
            t.width as int,
            t.height as int,
        ),
        0 <= r.0 <= 1_000_000,
        r.1 + t.width <= f.width,
        r.2 + t.height <= f.height,
{
    let sw: usize = f.width - t.width + 1;
    let sh: usize = f.height - t.height + 1;
    let tsq: u64 = grid_sumsq(t);
    let ghost fp = f.pixels@;
    let ghost tp = t.pixels@;
    let ghost fw = f.width as int;
    let ghost fh = f.height as int;
    let ghost tw = t.width as int;
    let ghost th = t.height as int;
    let mut bs: i64 = -1;
    let mut bx: usize = 0;
    let mut by: usize = 0;
    let mut oy: usize = 0;
    proof {
        assert(sw * sh <= 0x4000_0000) by (nonlinear_arith)
            requires
                sw <= 0x8000,
                sh <= 0x8000,
        ;
    }
    while oy < sh
        invariant
            oy <= sh,
            (bs as int, bx as int, by as int) == peak_upto(
                fp,
                fw,
                tp,
                tw,
                th,
                sw as int,
                (oy * sw) as int,
            ),
            -1 <= bs <= 1_000_000,
            oy >= 1 ==> bs >= 0,
            bx < sw,
            by < sh,
        decreases sh - oy,
    {
        proof {
            assert(oy * sw <= sh * sw && (oy + 1) * sw <= sh * sw && (oy + 1) * sw == oy * sw
                + sw && sh * sw == sw * sh) by (nonlinear_arith)
                requires
                    oy < sh,
                    sw >= 1,
            ;
        }
        let mut ox: usize = 0;
        while ox < sw
            invariant
                ox <= sw,
                oy < sh,
                (bs as int, bx as int, by as int) == peak_upto(
                    fp,
                    fw,
                    tp,
                    tw,
                    th,
                    sw as int,
                    (oy * sw + ox) as int,
                ),
                -1 <= bs <= 1_000_000,
                oy >= 1 || ox >= 1 ==> bs >= 0,
                bx < sw,
                by < sh,
            decreases sw - ox,
        {
            let ghost k = (oy * sw + ox) as int;
            proof {
                lemma_rm_index(sw as int, oy as int, ox as int);
            }
            let s: i64 = score_at_pos(f, t, tsq, ox, oy);
            if s > bs {
                bs = s;
                bx = ox;
                by = oy;
            }
            ox = ox + 1;
        }
        oy = oy + 1;
    }
    proof {
        assert(sh * sw == sw * sh && sw * sh == (fw - tw + 1) * (fh - th + 1))
            by (nonlinear_arith)
            requires
                sw == fw - tw + 1,
                sh == fh - th + 1,
        ;
    }
    (bs, bx, by)
}

/// The sum of squares dominates each single squared element.
proof fn lemma_sumsq_elem(a: Seq<int>, i: int)
    requires
        0 <= i < a.len(),
        forall|k: int| 0 <= k < a.len() ==> 0 <= #[trigger] a[k] <= 255,
    ensures
        sumsq(a) >= a[i] * a[i],
    decreases a.len(),
{
    assert forall|k: int| 0 <= k < a.len() - 1 implies 0 <= #[trigger] a.drop_last()[k]
        <= 255 by {
        assert(a.drop_last()[k] == a[k]);
    }
    if i == a.len() - 1 {
        lemma_dot_bound(a.drop_last(), a.drop_last());
    } else {
        lemma_sumsq_elem(a.drop_last(), i);
        assert(a.last() * a.last() >= 0) by (nonlinear_arith);
    }
}

/// A score never exceeds one million.
pub proof fn lemma_spec_score_le_million(num: int, den2: int)
    ensures
        spec_score(num, den2) <= 1_000_000,
{
}

/// The peak over the first positions never decreases as more positions
/// are folded in, and stays at most one million.
proof fn lemma_peak_monotone(f: Seq<u8>, fw: int, t: Seq<u8>, tw: int, th: int, sw: int, k1: int, k2: int)
    requires
        0 <= k1 <= k2,
    ensures
        peak_upto(f, fw, t, tw, th, sw, k2).0 >= peak_upto(f, fw, t, tw, th, sw, k1).0,
        peak_upto(f, fw, t, tw, th, sw, k2).0 <= if k2 == 0 {
            -1int
        } else {
            1_000_000int
        },
    decreases k2,
{
    if k2 > 0 {
        if k1 == k2 {
            lemma_peak_monotone(f, fw, t, tw, th, sw, 0, k2 - 1);
        } else {
            lemma_peak_monotone(f, fw, t, tw, th, sw, k1, k2 - 1);
        }
        lemma_spec_score_le_million(
            dot(window(f, fw, (k2 - 1) % sw, (k2 - 1) / sw, tw, th), vals(t)),
            sumsq(window(f, fw, (k2 - 1) % sw, (k2 - 1) / sw, tw, th)) * sumsq(vals(t)),
        );
    }
}

/// The folded peak score lies between the sentinel and one million.
pub proof fn lemma_peak_bounds(f: Seq<u8>, fw: int, t: Seq<u8>, tw: int, th: int, sw: int, k: int)
    requires
        k >= 0,
    ensures
        peak_upto(f, fw, t, tw, th, sw, k).0 >= -1,
        k >= 1 ==> peak_upto(f, fw, t, tw, th, sw, k).0 <= 1_000_000,
{
    lemma_peak_monotone(f, fw, t, tw, th, sw, 0, k);
}

/// The peak score of the whole surface dominates the score at any single
/// in-range position, and never exceeds one million.
pub proof fn lemma_peak_ge(f: Seq<u8>, fw: int, fh: int, t: Seq<u8>, tw: int, th: int, ox: int, oy: int)
    requires
        1 <= tw <= fw,
        1 <= th <= fh,
        0 <= ox,
        ox + tw <= fw,
        0 <= oy,
        oy + th <= fh,
    ensures
        spec_peak(f, fw, fh, t, tw, th).0 >= score_at(f, fw, t, tw, th, ox, oy),
        spec_peak(f, fw, fh, t, tw, th).0 <= 1_000_000,
{
    let sw = fw - tw + 1;
    let sh = fh - th + 1;
    let k = oy * sw + ox;
    lemma_rm_index(sw, oy, ox);
    assert(k + 1 <= sw * sh) by (nonlinear_arith)
        requires
            0 <= ox <= sw - 1,
            0 <= oy <= sh - 1,
            k == oy * sw + ox,
            sw >= 1,
    ;
    lemma_peak_monotone(f, fw, t, tw, th, sw, k + 1, sw * sh);
    assert(peak_upto(f, fw, t, tw, th, sw, k + 1).0 >= score_at(f, fw, t, tw, th, ox, oy));
    assert(sw * sh == (fw - tw + 1) * (fh - th + 1)) by (nonlinear_arith)
        requires
            sw == fw - tw + 1,
            sh == fh - th + 1,
    ;
}

/// A window that reproduces the marker pixel for pixel scores exactly one
/// million, provided the marker has at least one non-black pixel.
pub proof fn lemma_perfect_score(
    f: Seq<u8>,
    fw: int,
    fh: int,
    t: Seq<u8>,
    tw: int,
    th: int,
    ox: int,
    oy: int,
    pi: int,
)
    requires
        1 <= tw,
        1 <= th,
        0 <= ox,
        0 <= oy,
        ox + tw <= fw,
        oy + th <= fh,
        f.len() == fw * fh,
        t.len() == tw * th,
        forall|j: int, i: int|
            0 <= j < th && 0 <= i < tw ==> f[(oy + j) * fw + ox + i] == t[#[trigger] (j * tw
                + i)],
        0 <= pi < t.len(),
        t[pi] != 0,
    ensures
        score_at(f, fw, t, tw, th, ox, oy) == 1_000_000,
{
    let w = window(f, fw, ox, oy, tw, th);
    let tv = vals(t);
    assert forall|k: int| 0 <= k < tw * th implies w[k] == tv[k] by {
        lemma_fundamental_div_mod(k, tw);
        let j = k / tw;
        let i = k % tw;
        assert(j < th) by (nonlinear_arith)
            requires
                k == tw * j + i,
                0 <= i < tw,
                k < tw * th,
                0 <= j,
        ;
        lemma_window_elem(f, fw, fh, ox, oy, tw, th, j, i);
        assert(f[(oy + j) * fw + ox + i] == t[j * tw + i]);
    }
    assert(w =~= tv);
    lemma_vals_in_range(t);
    lemma_sumsq_elem(tv, pi);
    let q = sumsq(tv);
    assert(tv[pi] * tv[pi] >= 1) by (nonlinear_arith)
        requires
            tv[pi] != 0,
            tv[pi] >= 0,
    ;
    assert((q * q) as nat == (q as nat) * (q as nat)) by (nonlinear_arith)
        requires
            q >= 1,
    ;
    lemma_isqrt_square(q as nat);
    vstd::arithmetic::div_mod::lemma_div_multiples_vanish(1_000_000, q);
    assert(q * 1_000_000 == dot(w, tv) * 1_000_000);
}

} // verus!
