//! The spline-based tone curve: ordered control points over the fixed-point
//! domain `[0, 100000] x [0, 100000]` (milli-units of `[0,100] x [0,100]`),
//! with a piecewise-cubic coefficient table rebuilt on every mutation.

use vstd::prelude::*;

use crate::num::{sat64, tdiv, tdiv128, tdiv64};

verus! {

/// Upper corner of the curve domain, in milli-units.
pub const CURVE_MAX: i64 = 100_000;

/// The two interpolation modes: shape-preserving monotone interpolation and
/// a smooth spline with zero first-derivative endpoints.
#[derive(Clone, Copy, Debug, PartialEq, Eq, Structural)]
pub enum CurveType {
    MONOTONE,
    SMOOTH,
}

/// A curve mutation failure.
#[derive(Debug)]
pub enum CurveError {
    OutOfRange(&'static str),
}

/// Coefficients of one cubic segment over `[x_i, x_{i+1}]`, `h = x_{i+1} -
/// x_i`: the value at `x_i + t` is `y0 + m*t/1000 + a*t^2/(1000*h) +
/// b*t^3/(1000*h^2)` with truncating division.
#[derive(Clone, Copy, Debug, PartialEq, Eq, Structural)]
pub struct SegCoeff {
    pub y0: i64,
    pub m: i64,
    pub a: i64,
    pub b: i64,
}

/// A well-formed point table: paired coordinates, at least two points,
/// strictly increasing `x`, everything inside the domain, and the first and
/// last points pinned to the domain corners.
pub open spec fn pts_wf(xs: Seq<i64>, ys: Seq<i64>) -> bool {
    &&& xs.len() == ys.len()
    &&& xs.len() >= 2
    &&& forall|i: int, j: int| 0 <= i < j < xs.len() ==> #[trigger] xs[i] < #[trigger] xs[j]
    &&& forall|i: int| 0 <= i < xs.len() ==> 0 <= #[trigger] xs[i] <= CURVE_MAX
    &&& forall|i: int| 0 <= i < ys.len() ==> 0 <= #[trigger] ys[i] <= CURVE_MAX
    &&& xs[0] == 0
    &&& xs[xs.len() - 1] == CURVE_MAX
    &&& ys[0] == 0
    &&& ys[ys.len() - 1] == CURVE_MAX
}

/// Slope of segment `i` in milli-units.
pub open spec fn delta(xs: Seq<i64>, ys: Seq<i64>, i: int) -> int {
    tdiv((ys[i + 1] - ys[i]) * 1000, xs[i + 1] - xs[i])
}

/// Tangent at point `i` for the chosen interpolation mode. The monotone
/// mode limits every interior tangent by the adjacent secant slopes and
/// zeroes it across a direction change; the smooth mode averages the
/// adjacent secants and pins the endpoint derivatives to zero.
pub open spec fn tangent(xs: Seq<i64>, ys: Seq<i64>, ct: CurveType, i: int) -> int {
    let n = xs.len() as int;
    if ct == CurveType::SMOOTH {
        if i == 0 || i == n - 1 {
            0
        } else {
            tdiv(delta(xs, ys, i - 1) + delta(xs, ys, i), 2)
        }
    } else {
        if i == 0 {
            delta(xs, ys, 0)
        } else if i == n - 1 {
            delta(xs, ys, n - 2)
        } else {
            let dl = delta(xs, ys, i - 1);
            let dr = delta(xs, ys, i);
            if (dl <= 0 && dr >= 0) || (dl >= 0 && dr <= 0) {
                0
            } else {
                let avg = tdiv(dl + dr, 2);
                let avga = if avg < 0 {
                    -avg
                } else {
                    avg
                };
                let dla = if dl < 0 {
                    -dl
                } else {
                    dl
                };
                let dra = if dr < 0 {
                    -dr
                } else {
                    dr
                };
                let lim = 3 * (if dla <= dra {
                    dla
                } else {
                    dra
                });
                let mag = if avga <= lim {
                    avga
                } else {
                    lim
                };
                if dl > 0 {
                    mag
                } else {
                    -mag
                }
            }
        }
    }
}

/// The cubic Hermite coefficients of segment `i`.
pub open spec fn seg_coeff(xs: Seq<i64>, ys: Seq<i64>, ct: CurveType, i: int) -> (
    int,
    int,
    int,
    int,
) {
    let d = delta(xs, ys, i);
    let m0 = tangent(xs, ys, ct, i);
    let m1 = tangent(xs, ys, ct, i + 1);
    (ys[i] as int, m0, 3 * d - 2 * m0 - m1, m0 + m1 - 2 * d)
}

/// Whether a coefficient table matches the point table.
pub open spec fn coeffs_ok(cs: Seq<SegCoeff>, xs: Seq<i64>, ys: Seq<i64>, ct: CurveType) -> bool {
    &&& cs.len() == xs.len() - 1
    &&& forall|i: int|
        0 <= i < cs.len() ==> ((#[trigger] cs[i]).y0 as int, cs[i].m as int, cs[i].a as int,
        cs[i].b as int) == seg_coeff(xs, ys, ct, i)
}

/// Index of the segment whose polynomial evaluates `v`: the last segment
/// start at or below `v`, clamped to the segment range (evaluation outside
/// the domain extrapolates the nearest segment).
pub open spec fn seg_scan(xs: Seq<i64>, v: int, i: int) -> int
    decreases i,
{
    if i <= 0 {
        0
    } else if xs[i] <= v {
        i
    } else {
        seg_scan(xs, v, i - 1)
    }
}

/// The segment index used for evaluation at `v`.
pub open spec fn seg_index(xs: Seq<i64>, v: int) -> int {
    seg_scan(xs, v, xs.len() - 2)
}

/// Value of one cubic segment at offset `t` from its left end.
pub open spec fn curve_eval(y0: int, m: int, a: int, b: int, h: int, t: int) -> int {
    y0 + tdiv(m * t, 1000) + tdiv(a * t * t, 1000 * h) + tdiv(b * t * t * t, 1000 * h * h)
}

/// The curve's value at `v`, before saturation to the machine range.
pub open spec fn spec_apply_curve(xs: Seq<i64>, ys: Seq<i64>, ct: CurveType, v: int) -> int {
    let i = seg_index(xs, v);
    let c = seg_coeff(xs, ys, ct, i);
    curve_eval(c.0, c.1, c.2, c.3, xs[i + 1] - xs[i], v - xs[i])
}

/// The `(x, y)` pairs of a point table.
pub open spec fn pt_pairs(xs: Seq<i64>, ys: Seq<i64>) -> Seq<(i64, i64)> {
    Seq::new(xs.len(), |i: int| (xs[i], ys[i]))
}

/// A caller-supplied table the curve accepts once sorted by `x`: paired
/// lengths, at least two points, coordinates inside the domain, pairwise
/// distinct `x`, and both domain corner points present.
pub open spec fn table_ok(xs: Seq<i64>, ys: Seq<i64>) -> bool {
    &&& xs.len() == ys.len()
    &&& xs.len() >= 2
    &&& forall|i: int, j: int| 0 <= i < j < xs.len() ==> #[trigger] xs[i] != #[trigger] xs[j]
    &&& forall|i: int| 0 <= i < xs.len() ==> 0 <= #[trigger] xs[i] <= CURVE_MAX
    &&& forall|i: int| 0 <= i < ys.len() ==> 0 <= #[trigger] ys[i] <= CURVE_MAX
    &&& exists|i: int| 0 <= i < xs.len() && xs[i] == 0 && #[trigger] ys[i] == 0
    &&& exists|i: int| 0 <= i < xs.len() && xs[i] == CURVE_MAX && #[trigger] ys[i] == CURVE_MAX
}

/// An element of one sequence occurs in any sequence with the same
/// multiset.
proof fn lemma_pair_transfers(a: Seq<(i64, i64)>, b: Seq<(i64, i64)>, i: int)
    requires
        a.to_multiset() == b.to_multiset(),
        0 <= i < a.len(),
    ensures
        exists|k: int| 0 <= k < b.len() && b[k] == a[i],
{
    broadcast use vstd::seq_lib::group_to_multiset_ensures;

    assert(a.contains(a[i]));
    assert(a.to_multiset().count(a[i]) > 0);
    assert(b.to_multiset().count(a[i]) > 0);
    assert(b.contains(a[i]));
}

/// Two positions with the same `x` survive any permutation: a sequence
/// with the same multiset of pairs also holds two positions with one `x`.
proof fn lemma_dup_x_transfers(a: Seq<(i64, i64)>, b: Seq<(i64, i64)>, i: int, j: int)
    requires
        a.to_multiset() == b.to_multiset(),
        0 <= i < j < a.len(),
        a[i].0 == a[j].0,
    ensures
        exists|k: int, l: int| 0 <= k < l < b.len() && #[trigger] b[k].0 == #[trigger] b[l].0,
{
    broadcast use vstd::seq_lib::group_to_multiset_ensures;
    broadcast use vstd::multiset::group_multiset_axioms;

    if a[i] == a[j] {
        let s0 = a.subrange(0, j);
        let s1 = a.subrange(j, a.len() as int);
        assert(a =~= s0 + s1);
        vstd::seq_lib::lemma_multiset_commutative(s0, s1);
        assert(s0.contains(a[i]));
        assert(s1[0] == a[j]);
        assert(s1.contains(a[j]));
        assert(b.to_multiset().count(a[i]) >= 2);
        if forall|k: int, l: int| 0 <= k < l < b.len() ==> #[trigger] b[k] != #[trigger] b[l] {
            assert(b.no_duplicates());
            b.lemma_multiset_has_no_duplicates();
            assert(b.to_multiset().contains(a[i]));
            assert(false);
        }
        let (k, l) = choose|k: int, l: int| 0 <= k < l < b.len() && #[trigger] b[k] == #[trigger] b[l];
        assert(b[k].0 == b[l].0);
    } else {
        lemma_pair_transfers(a, b, i);
        lemma_pair_transfers(a, b, j);
        let k = choose|k: int| 0 <= k < b.len() && b[k] == a[i];
        let l = choose|l: int| 0 <= l < b.len() && b[l] == a[j];
        assert(k != l);
        if k < l {
            assert(b[k].0 == b[l].0);
        } else {
            assert(b[l].0 == b[k].0);
        }
    }
}

/// A non-strictly sorted arrangement of a well-formed table is a
/// well-formed point table: distinctness makes the order strict, and the
/// corner points land on the ends.
#[verifier::rlimit(100)]
proof fn lemma_sorted_table_wf(xs: Seq<i64>, ys: Seq<i64>, sx: Seq<i64>, sy: Seq<i64>)
    requires
        table_ok(xs, ys),
        sx.len() == sy.len(),
        sx.len() == xs.len(),
        pt_pairs(sx, sy).to_multiset() == pt_pairs(xs, ys).to_multiset(),
        forall|k: int| 0 <= k < sx.len() - 1 ==> #[trigger] sx[k] <= sx[k + 1],
    ensures
        pts_wf(sx, sy),
{
    let pa = pt_pairs(sx, sy);
    let pb = pt_pairs(xs, ys);
    // strictness: two equal x values would transfer back to the input
    assert forall|k: int| 0 <= k < sx.len() - 1 implies #[trigger] sx[k] < sx[k + 1] by {
        if sx[k] == sx[k + 1] {
            lemma_dup_x_transfers(pa, pb, k, k + 1);
            let (u, v) = choose|u: int, v: int|
                0 <= u < v < pb.len() && #[trigger] pb[u].0 == #[trigger] pb[v].0;
            assert(xs[u] == xs[v]);
            assert(false);
        }
    }
    lemma_adjacent_sorted_pairwise(sx);
    // ranges: every sorted pair occurs in the input
    assert forall|k: int| 0 <= k < sx.len() implies 0 <= #[trigger] sx[k] <= CURVE_MAX by {
        lemma_pair_transfers(pa, pb, k);
        let u = choose|u: int| 0 <= u < pb.len() && pb[u] == pa[k];
        assert(xs[u] == sx[k] && ys[u] == sy[k]);
    }
    assert forall|k: int| 0 <= k < sy.len() implies 0 <= #[trigger] sy[k] <= CURVE_MAX by {
        lemma_pair_transfers(pa, pb, k);
        let u = choose|u: int| 0 <= u < pb.len() && pb[u] == pa[k];
        assert(xs[u] == sx[k] && ys[u] == sy[k]);
    }
    // the lower corner lands at position 0
    let i0 = choose|i: int| 0 <= i < xs.len() && xs[i] == 0 && #[trigger] ys[i] == 0;
    lemma_pair_transfers(pb, pa, i0);
    let k0 = choose|k: int| 0 <= k < pa.len() && pa[k] == pb[i0];
    assert(sx[k0] == 0 && sy[k0] == 0);
    assert(sx[0] == 0 && sy[0] == 0) by {
        if k0 > 0 {
            assert(sx[0] < sx[k0]);
            assert(false);
        }
    }
    // the upper corner lands at the last position
    let i1 = choose|i: int| 0 <= i < xs.len() && xs[i] == CURVE_MAX && #[trigger] ys[i] == CURVE_MAX;
    lemma_pair_transfers(pb, pa, i1);
    let k1 = choose|k: int| 0 <= k < pa.len() && pa[k] == pb[i1];
    assert(sx[k1] == CURVE_MAX && sy[k1] == CURVE_MAX);
    assert(sx[sx.len() - 1] == CURVE_MAX && sy[sy.len() - 1] == CURVE_MAX) by {
        if k1 < sx.len() - 1 {
            assert(sx[k1] < sx[sx.len() - 1]);
            assert(false);
        }
    }
}

/// A well-formed point table is a permutation of a table the curve
/// accepts.
proof fn lemma_wf_table_ok(xs: Seq<i64>, ys: Seq<i64>, sx: Seq<i64>, sy: Seq<i64>)
    requires
        pts_wf(sx, sy),
        xs.len() == ys.len(),
        sx.len() == sy.len(),
        sx.len() == xs.len(),
        pt_pairs(sx, sy).to_multiset() == pt_pairs(xs, ys).to_multiset(),
    ensures
        table_ok(xs, ys),
{
    let pa = pt_pairs(xs, ys);
    let pb = pt_pairs(sx, sy);
    assert forall|i: int, j: int| 0 <= i < j < xs.len() implies #[trigger] xs[i] != #[trigger] xs[j] by {
        if xs[i] == xs[j] {
            lemma_dup_x_transfers(pa, pb, i, j);
            let (u, v) = choose|u: int, v: int|
                0 <= u < v < pb.len() && #[trigger] pb[u].0 == #[trigger] pb[v].0;
            assert(sx[u] == sx[v]);
            assert(false);
        }
    }
    assert forall|i: int| 0 <= i < xs.len() implies 0 <= #[trigger] xs[i] <= CURVE_MAX by {
        lemma_pair_transfers(pa, pb, i);
        let u = choose|u: int| 0 <= u < pb.len() && pb[u] == pa[i];
        assert(sx[u] == xs[i] && sy[u] == ys[i]);
    }
    assert forall|i: int| 0 <= i < ys.len() implies 0 <= #[trigger] ys[i] <= CURVE_MAX by {
        lemma_pair_transfers(pa, pb, i);
        let u = choose|u: int| 0 <= u < pb.len() && pb[u] == pa[i];
        assert(sx[u] == xs[i] && sy[u] == ys[i]);
    }
    lemma_pair_transfers(pb, pa, 0);
    let u0 = choose|u: int| 0 <= u < pa.len() && pa[u] == pb[0];
    assert(0 <= u0 < xs.len() && xs[u0] == 0 && ys[u0] == 0);
    lemma_pair_transfers(pb, pa, sx.len() - 1);
    let u1 = choose|u: int| 0 <= u < pa.len() && pa[u] == pb[sx.len() - 1];
    assert(0 <= u1 < xs.len() && xs[u1] == CURVE_MAX && ys[u1] == CURVE_MAX);
    assert(xs.len() >= 2);
}

/// Sorts the point pairs by `x` ascending, keeping each `y` paired with
/// its `x`.
fn sort_pairs(xs: &Vec<i64>, ys: &Vec<i64>) -> (r: (Vec<i64>, Vec<i64>))
    requires
        xs@.len() == ys@.len(),
    ensures
        r.0@.len() == xs@.len(),
        r.1@.len() == xs@.len(),
        pt_pairs(r.0@, r.1@).to_multiset() == pt_pairs(xs@, ys@).to_multiset(),
        forall|k: int| 0 <= k < r.0@.len() - 1 ==> #[trigger] r.0@[k] <= r.0@[k + 1],
{
    let n = xs.len();
    let mut pv: Vec<(i64, i64)> = Vec::new();
    let mut i: usize = 0;
    while i < n
        invariant
            n == xs@.len(),
            n == ys@.len(),
            i <= n,
            pv@.len() == i as int,
            forall|k: int| 0 <= k < i as int ==> #[trigger] pv@[k] == (xs@[k], ys@[k]),
        decreases n - i,
    {
        pv.push((xs[i], ys[i]));
        i = i + 1;
    }
    assert(pv@ =~= pt_pairs(xs@, ys@));
    let ghost pairs0 = pv@;
    let mut i: usize = 1;
    while i < n
        invariant
            n == pv@.len(),
            1 <= i <= n || (n == 0 && i == 1),
            pv@.to_multiset() == pairs0.to_multiset(),
            forall|a: int, b: int| 0 <= a < b < i as int ==> (#[trigger] pv@[a]).0 <= (#[trigger] pv@[b]).0,
        decreases n - i,
    {
        let mut j: usize = i;
        while j > 0 && pv[j - 1].0 > pv[j].0
            invariant
                n == pv@.len(),
                1 <= i < n,
                j <= i,
                pv@.to_multiset() == pairs0.to_multiset(),
                forall|a: int, b: int|
                    0 <= a < b <= i as int && b != j as int ==> (#[trigger] pv@[a]).0
                        <= (#[trigger] pv@[b]).0,
                forall|b: int|
                    (j as int) < b <= i as int ==> (pv@[j as int]).0 <= (#[trigger] pv@[b]).0,
            decreases j,
        {
            let pa = pv[j - 1];
            let pb = pv[j];
            let ghost s0 = pv@;
            pv.set(j - 1, pb);
            pv.set(j, pa);
            proof {
                broadcast use vstd::seq_lib::group_to_multiset_ensures;
                broadcast use vstd::multiset::group_multiset_axioms;

                vstd::seq_lib::to_multiset_update(s0, j as int - 1, s0[j as int]);
                vstd::seq_lib::to_multiset_update(
                    s0.update(j as int - 1, s0[j as int]),
                    j as int,
                    s0[j as int - 1],
                );
                assert(s0.contains(s0[j as int - 1]));
                assert(s0.contains(s0[j as int]));
                assert(pv@.to_multiset() =~= s0.to_multiset());
            }
            j = j - 1;
        }
        i = i + 1;
    }
    let mut sx: Vec<i64> = Vec::new();
    let mut sy: Vec<i64> = Vec::new();
    let mut k: usize = 0;
    while k < n
        invariant
            n == pv@.len(),
            k <= n,
            sx@.len() == k as int,
            sy@.len() == k as int,
            forall|a: int| 0 <= a < k as int ==> #[trigger] sx@[a] == pv@[a].0,
            forall|a: int| 0 <= a < k as int ==> #[trigger] sy@[a] == pv@[a].1,
        decreases n - k,
    {
        let p = pv[k];
        sx.push(p.0);
        sy.push(p.1);
        k = k + 1;
    }
    assert(pt_pairs(sx@, sy@) =~= pv@);
    (sx, sy)
}

/// The spline-based tone curve.
#[derive(Debug)]
pub struct Curve {
    pub xs: Vec<i64>,
    pub ys: Vec<i64>,
    pub coefficients: Vec<SegCoeff>,
    pub curve_type: CurveType,
}

/// Strict order on any two positions follows from the pairwise invariant.
proof fn lemma_sorted_at(xs: Seq<i64>, ys: Seq<i64>, i: int, j: int)
    requires
        pts_wf(xs, ys),
        0 <= i < j < xs.len(),
    ensures
        xs[i] < xs[j],
{
}

/// Slope of segment `i`, bounded by the domain.
fn delta_x(xs: &Vec<i64>, ys: &Vec<i64>, i: usize) -> (d: i64)
    requires
        pts_wf(xs@, ys@),
        i < xs@.len() - 1,
    ensures
        d as int == delta(xs@, ys@, i as int),
        -100_000_000 <= d <= 100_000_000,
{
    let n = xs.len();
    assert(i + 1 < n);
    proof {
        assert(0 <= xs@[i as int] <= CURVE_MAX && 0 <= xs@[i as int + 1] <= CURVE_MAX);
        assert(0 <= ys@[i as int] <= CURVE_MAX && 0 <= ys@[i as int + 1] <= CURVE_MAX);
        assert(xs@[i as int] < xs@[i as int + 1]);
    }
    let h = xs[i + 1] - xs[i];
    assert(1 <= h <= 100_000);
    let num = (ys[i + 1] - ys[i]) * 1000;
    proof {
        crate::num::lemma_tdiv_bounds(num as int, h as int);
    }
    tdiv64(num, h)
}

/// Tangent at point `i`, bounded by the largest secant slope.
fn tangent_x(xs: &Vec<i64>, ys: &Vec<i64>, ct: CurveType, i: usize) -> (t: i64)
    requires
        pts_wf(xs@, ys@),
        i < xs@.len(),
    ensures
        t as int == tangent(xs@, ys@, ct, i as int),
        -100_000_000 <= t <= 100_000_000,
{
    let n = xs.len();
    if ct == CurveType::SMOOTH {
        if i == 0 || i == n - 1 {
            0
        } else {
            let dl = delta_x(xs, ys, i - 1);
            let dr = delta_x(xs, ys, i);
            proof {
                crate::num::lemma_tdiv_bounds(dl as int + dr as int, 2);
            }
            tdiv64(dl + dr, 2)
        }
    } else {
        if i == 0 {
            delta_x(xs, ys, 0)
        } else if i == n - 1 {
            delta_x(xs, ys, n - 2)
        } else {
            let dl = delta_x(xs, ys, i - 1);
            let dr = delta_x(xs, ys, i);
            if (dl <= 0 && dr >= 0) || (dl >= 0 && dr <= 0) {
                0
            } else {
                proof {
                    crate::num::lemma_tdiv_bounds(dl as int + dr as int, 2);
                }
                let avg = tdiv64(dl + dr, 2);
                let avga = if avg < 0 {
                    -avg
                } else {
                    avg
                };
                let dla = if dl < 0 {
                    -dl
                } else {
                    dl
                };
                let dra = if dr < 0 {
                    -dr
                } else {
                    dr
                };
                let lim = 3 * (if dla <= dra {
                    dla
                } else {
                    dra
                });
                let mag = if avga <= lim {
                    avga
                } else {
                    lim
                };
                if dl > 0 {
                    mag
                } else {
                    -mag
                }
            }
        }
    }
}

/// The full coefficient table for a point table.
fn build_coeffs(xs: &Vec<i64>, ys: &Vec<i64>, ct: CurveType) -> (cs: Vec<SegCoeff>)
    requires
        pts_wf(xs@, ys@),
    ensures
        coeffs_ok(cs@, xs@, ys@, ct),
{
    let n = xs.len();
    let mut cs: Vec<SegCoeff> = Vec::new();
    let mut i: usize = 0;
    while i < n - 1
        invariant
            pts_wf(xs@, ys@),
            n == xs@.len(),
            i <= n - 1,
            cs@.len() == i as int,
            forall|k: int|
                0 <= k < i as int ==> ((#[trigger] cs@[k]).y0 as int, cs@[k].m as int,
                cs@[k].a as int, cs@[k].b as int) == seg_coeff(xs@, ys@, ct, k),
        decreases n - 1 - i,
    {
        let d = delta_x(xs, ys, i);
        let m0 = tangent_x(xs, ys, ct, i);
        let m1 = tangent_x(xs, ys, ct, i + 1);
        let a = 3 * d - 2 * m0 - m1;
        let b = m0 + m1 - 2 * d;
        cs.push(SegCoeff { y0: ys[i], m: m0, a, b });
        i = i + 1;
    }
    cs
}

/// Saturating evaluation of one cubic segment at offset `t`.
fn eval_seg(y0: i64, m: i64, a: i64, b: i64, h: i64, t: i64) -> (r: i64)
    requires
        0 <= y0 <= 100_000,
        -100_000_000 <= m <= 100_000_000,
        -700_000_000 <= a <= 700_000_000,
        -700_000_000 <= b <= 700_000_000,
        1 <= h <= 100_000,
        -10_200_000 <= t <= 10_200_000,
    ensures
        r as int == sat64(curve_eval(y0 as int, m as int, a as int, b as int, h as int, t as int)),
{
    proof {
        crate::num::lemma_mul_abs_le(m as int, 100_000_000, t as int, 10_200_000);
        crate::num::lemma_tdiv_bounds(m as int * t as int, 1000);
        crate::num::lemma_mul_abs_le(a as int, 700_000_000, t as int, 10_200_000);
        crate::num::lemma_mul_abs_le(
            a as int * t as int,
            7_140_000_000_000_000,
            t as int,
            10_200_000,
        );
        crate::num::lemma_tdiv_bounds(a as int * t as int * t as int, 1000 * h as int);
        crate::num::lemma_mul_abs_le(b as int, 700_000_000, t as int, 10_200_000);
        crate::num::lemma_mul_abs_le(
            b as int * t as int,
            7_140_000_000_000_000,
            t as int,
            10_200_000,
        );
        crate::num::lemma_mul_abs_le(
            b as int * t as int * t as int,
            72_828_000_000_000_000_000_000,
            t as int,
            10_200_000,
        );
        assert(1 <= 1000 * (h as int) * (h as int) <= 10_000_000_000_000) by (nonlinear_arith)
            requires
                1 <= h as int <= 100_000,
        ;
        crate::num::lemma_tdiv_bounds(
            b as int * t as int * t as int * t as int,
            1000 * h as int * h as int,
        );
    }
    let t1: i128 = tdiv128(m as i128 * t as i128, 1000);
    let t2: i128 = tdiv128(a as i128 * t as i128 * t as i128, 1000 * h as i128);
    let t3: i128 = tdiv128(
        b as i128 * t as i128 * t as i128 * t as i128,
        1000 * h as i128 * h as i128,
    );
    let sum: i128 = y0 as i128 + t1 + t2 + t3;
    if sum > i64::MAX as i128 {
        i64::MAX
    } else if sum < i64::MIN as i128 {
        i64::MIN
    } else {
        sum as i64
    }
}

impl Curve {
    /// The curve invariant: a well-formed point table and a matching
    /// coefficient table.
    pub open spec fn wf(&self) -> bool {
        &&& pts_wf(self.xs@, self.ys@)
        &&& coeffs_ok(self.coefficients@, self.xs@, self.ys@, self.curve_type)
    }

    /// The default curve: the two domain corners.
    pub fn new(curve_type: CurveType) -> (c: Curve)
        ensures
            c.wf(),
            c.xs@ == seq![0i64, CURVE_MAX],
            c.ys@ == seq![0i64, CURVE_MAX],
            c.curve_type == curve_type,
    {
        let xs: Vec<i64> = vec![0, CURVE_MAX];
        let ys: Vec<i64> = vec![0, CURVE_MAX];
        assert(xs@ =~= seq![0i64, CURVE_MAX]);
        assert(ys@ =~= seq![0i64, CURVE_MAX]);
        let coefficients = build_coeffs(&xs, &ys, curve_type);
        Curve { xs, ys, coefficients, curve_type }
    }

    /// A curve over a caller-supplied point table. The pairs are sorted by
    /// `x` ascending with each `y` kept paired to its `x`. A table that
    /// cannot form a well-formed curve even when sorted — mismatched
    /// lengths, fewer than two points, a coordinate outside the domain, a
    /// duplicated `x`, or a missing domain corner point — is rejected with
    /// `OutOfRange`.
    pub fn from_points(xs: Vec<i64>, ys: Vec<i64>, curve_type: CurveType) -> (r: Result<
        Curve,
        CurveError,
    >)
        ensures
            r is Ok <==> table_ok(xs@, ys@),
            r matches Ok(c) ==> {
                &&& c.wf()
                &&& c.xs@.len() == xs@.len()
                &&& pt_pairs(c.xs@, c.ys@).to_multiset() == pt_pairs(xs@, ys@).to_multiset()
                &&& c.curve_type == curve_type
            },
    {
        if xs.len() != ys.len() {
            return Err(CurveError::OutOfRange("the point table is not a well-formed curve"));
        }
        let (sx, sy) = sort_pairs(&xs, &ys);
        if !points_ok(&sx, &sy) {
            proof {
                if table_ok(xs@, ys@) {
                    lemma_sorted_table_wf(xs@, ys@, sx@, sy@);
                }
            }
            return Err(CurveError::OutOfRange("the point table is not a well-formed curve"));
        }
        proof {
            lemma_wf_table_ok(xs@, ys@, sx@, sy@);
        }
        let coefficients = build_coeffs(&sx, &sy, curve_type);
        Ok(Curve { xs: sx, ys: sy, coefficients, curve_type })
    }

    /// Replaces the whole point set and rebuilds: the pairs are sorted by
    /// `x` ascending with each `y` kept paired to its `x`. A table that
    /// cannot form a well-formed curve even when sorted — mismatched
    /// lengths, fewer than two points, a coordinate outside the domain, a
    /// duplicated `x`, or a missing domain corner point — is rejected with
    /// `OutOfRange` and the curve is left unchanged.
    pub fn update_curve(&mut self, xs: Vec<i64>, ys: Vec<i64>) -> (r: Result<(), CurveError>)
        requires
            old(self).wf(),
        ensures
            final(self).wf(),
            r is Ok <==> table_ok(xs@, ys@),
            r is Ok ==> {
                &&& final(self).xs@.len() == xs@.len()
                &&& pt_pairs(final(self).xs@, final(self).ys@).to_multiset() == pt_pairs(
                    xs@,
                    ys@,
                ).to_multiset()
                &&& final(self).curve_type == old(self).curve_type
            },
            r is Err ==> *final(self) == *old(self),
    {
        if xs.len() != ys.len() {
            return Err(CurveError::OutOfRange("the point table is not a well-formed curve"));
        }
        let (sx, sy) = sort_pairs(&xs, &ys);
        if !points_ok(&sx, &sy) {
            proof {
                if table_ok(xs@, ys@) {
                    lemma_sorted_table_wf(xs@, ys@, sx@, sy@);
                }
            }
            return Err(CurveError::OutOfRange("the point table is not a well-formed curve"));
        }
        proof {
            lemma_wf_table_ok(xs@, ys@, sx@, sy@);
        }
        let coefficients = build_coeffs(&sx, &sy, self.curve_type);
        self.xs = sx;
        self.ys = sy;
        self.coefficients = coefficients;
        Ok(())
    }

    /// Adds a control point. A coordinate outside the domain is rejected
    /// with `OutOfRange`, as is an `x` already present (the strictly
    /// increasing `x` table and the pinned corner points admit no
    /// duplicate); otherwise the point is inserted in sorted order and the
    /// curve rebuilt, returning the insertion index.
    pub fn add_point(&mut self, point: [i64; 2]) -> (r: Result<usize, CurveError>)
        requires
            old(self).wf(),
        ensures
            final(self).wf(),
            r is Ok <==> (0 <= point[0] <= CURVE_MAX && 0 <= point[1] <= CURVE_MAX && (forall|
                i: int,
            | 0 <= i < old(self).xs@.len() ==> #[trigger] old(self).xs@[i] != point[0])),
            r matches Ok(idx) ==> {
                &&& 1 <= idx as int <= old(self).xs@.len() - 1
                &&& final(self).xs@ == old(self).xs@.insert(idx as int, point[0])
                &&& final(self).ys@ == old(self).ys@.insert(idx as int, point[1])
                &&& final(self).curve_type == old(self).curve_type
            },
            r is Err ==> *final(self) == *old(self),
    {
        let x = point[0];
        let y = point[1];
        if x < 0 || x > CURVE_MAX || y < 0 || y > CURVE_MAX {
            return Err(CurveError::OutOfRange("point coordinates out of range"));
        }
        let n = self.xs.len();
        let mut idx: usize = 0;
        while idx < n && self.xs[idx] < x
            invariant
                old(self).wf(),
                self == old(self),
                n == self.xs@.len(),
                idx <= n,
                forall|j: int| 0 <= j < idx as int ==> #[trigger] self.xs@[j] < x,
            decreases n - idx,
        {
            idx = idx + 1;
        }
        assert(idx < n) by {
            assert(self.xs@[n as int - 1] == CURVE_MAX);
        }
        if self.xs[idx] == x {
            return Err(CurveError::OutOfRange("a control point with this x already exists"));
        }
        assert(self.xs@[idx as int] > x);
        assert(idx >= 1) by {
            assert(self.xs@[0] == 0);
        }
        proof {
            assert forall|i: int| 0 <= i < self.xs@.len() implies #[trigger] self.xs@[i] != x by {
                if i > idx as int {
                    lemma_sorted_at(self.xs@, self.ys@, idx as int, i);
                }
            }
        }
        self.xs.insert(idx, x);
        self.ys.insert(idx, y);
        proof {
            lemma_insert_keeps_wf(old(self).xs@, old(self).ys@, idx as int, x, y);
        }
        let coefficients = build_coeffs(&self.xs, &self.ys, self.curve_type);
        self.coefficients = coefficients;
        Ok(idx)
    }

    /// Removes a control point by index. The first point, the last point,
    /// and any index out of bounds are rejected with `OutOfRange`;
    /// otherwise the point is removed and the curve rebuilt.
    pub fn remove_point(&mut self, index: usize) -> (r: Result<(), CurveError>)
        requires
            old(self).wf(),
        ensures
            final(self).wf(),
            r is Ok <==> (0 < index as int && (index as int) < old(self).xs@.len() - 1),
            r is Ok ==> {
                &&& final(self).xs@ == old(self).xs@.remove(index as int)
                &&& final(self).ys@ == old(self).ys@.remove(index as int)
                &&& final(self).curve_type == old(self).curve_type
            },
            r is Err ==> *final(self) == *old(self),
    {
        let n = self.xs.len();
        if index == 0 || index >= n - 1 {
            return Err(CurveError::OutOfRange("the index is out of range"));
        }
        self.xs.remove(index);
        self.ys.remove(index);
        proof {
            lemma_remove_keeps_wf(old(self).xs@, old(self).ys@, index as int);
        }
        let coefficients = build_coeffs(&self.xs, &self.ys, self.curve_type);
        self.coefficients = coefficients;
        Ok(())
    }

    /// Switches the interpolation mode and rebuilds.
    pub fn set_curve_type(&mut self, curve_type: CurveType)
        requires
            old(self).wf(),
        ensures
            final(self).wf(),
            final(self).xs@ == old(self).xs@,
            final(self).ys@ == old(self).ys@,
            final(self).curve_type == curve_type,
    {
        self.curve_type = curve_type;
        let coefficients = build_coeffs(&self.xs, &self.ys, self.curve_type);
        self.coefficients = coefficients;
    }

    /// The control points as `[x, y]` pairs.
    pub fn get_points(&self) -> (r: Vec<[i64; 2]>)
        requires
            self.wf(),
        ensures
            r@.len() == self.xs@.len(),
            forall|i: int|
                0 <= i < r@.len() ==> #[trigger] r@[i]@ == seq![self.xs@[i], self.ys@[i]],
    {
        let mut r: Vec<[i64; 2]> = Vec::new();
        let mut i: usize = 0;
        while i < self.xs.len()
            invariant
                self.wf(),
                i <= self.xs@.len(),
                r@.len() == i as int,
                forall|j: int|
                    0 <= j < i as int ==> #[trigger] r@[j]@ == seq![self.xs@[j], self.ys@[j]],
            decreases self.xs@.len() - i,
        {
            let p: [i64; 2] = [self.xs[i], self.ys[i]];
            proof {
                assert(p@ =~= seq![self.xs@[i as int], self.ys@[i as int]]);
            }
            r.push(p);
            i = i + 1;
        }
        r
    }

    /// Evaluates the piecewise polynomial at `v` using the segment located
    /// by the sorted `x` table; outside the domain the nearest segment's
    /// polynomial extrapolates. The result saturates at the machine range.
    pub fn apply_curve(&self, v: i64) -> (r: i64)
        requires
            self.wf(),
            -10_000_000 <= v <= 10_000_000,
        ensures
            r as int == sat64(spec_apply_curve(self.xs@, self.ys@, self.curve_type, v as int)),
    {
        let n = self.xs.len();
        let mut idx: usize = 0;
        let mut i: usize = 1;
        while i <= n - 2
            invariant
                self.wf(),
                n == self.xs@.len(),
                1 <= i <= n - 1,
                idx as int == seg_scan(self.xs@, v as int, i as int - 1),
            decreases n - i,
        {
            if self.xs[i] <= v {
                idx = i;
            }
            i = i + 1;
        }
        assert(idx as int == seg_index(self.xs@, v as int));
        assert(0 <= idx as int <= n - 2) by {
            lemma_seg_scan_range(self.xs@, v as int, n as int - 2);
        }
        let c = self.coefficients[idx];
        let h = self.xs[idx + 1] - self.xs[idx];
        let t = v - self.xs[idx];
        proof {
            let ghost sc = seg_coeff(self.xs@, self.ys@, self.curve_type, idx as int);
            assert(-100_000_000 <= sc.1 <= 100_000_000 && -700_000_000 <= sc.2 <= 700_000_000
                && -700_000_000 <= sc.3 <= 700_000_000) by {
                lemma_coeff_bounds(self.xs@, self.ys@, self.curve_type, idx as int);
            }
        }
        eval_seg(c.y0, c.m, c.a, c.b, h, t)
    }
}

/// The scan index stays within the segment range.
proof fn lemma_seg_scan_range(xs: Seq<i64>, v: int, i: int)
    requires
        i < xs.len(),
    ensures
        0 <= seg_scan(xs, v, i) <= (if i >= 0 {
            i
        } else {
            0
        }),
    decreases i,
{
    if i > 0 && xs[i] > v {
        lemma_seg_scan_range(xs, v, i - 1);
    }
}

/// Slopes and tangents stay within the secant bound, so segment
/// coefficients stay within the machine range used by the evaluator.
proof fn lemma_coeff_bounds(xs: Seq<i64>, ys: Seq<i64>, ct: CurveType, i: int)
    requires
        pts_wf(xs, ys),
        0 <= i < xs.len() - 1,
    ensures
        -100_000_000 <= seg_coeff(xs, ys, ct, i).1 <= 100_000_000,
        -700_000_000 <= seg_coeff(xs, ys, ct, i).2 <= 700_000_000,
        -700_000_000 <= seg_coeff(xs, ys, ct, i).3 <= 700_000_000,
{
    lemma_delta_bound(xs, ys, i);
    lemma_tangent_bound(xs, ys, ct, i);
    lemma_tangent_bound(xs, ys, ct, i + 1);
}

/// Every segment slope lies within the domain-wide bound.
proof fn lemma_delta_bound(xs: Seq<i64>, ys: Seq<i64>, i: int)
    requires
        pts_wf(xs, ys),
        0 <= i < xs.len() - 1,
    ensures
        -100_000_000 <= delta(xs, ys, i) <= 100_000_000,
{
    assert(1 <= xs[i + 1] - xs[i]);
    crate::num::lemma_tdiv_bounds((ys[i + 1] - ys[i]) * 1000, xs[i + 1] - xs[i]);
}

/// Every tangent lies within the domain-wide slope bound.
proof fn lemma_tangent_bound(xs: Seq<i64>, ys: Seq<i64>, ct: CurveType, i: int)
    requires
        pts_wf(xs, ys),
        0 <= i < xs.len(),
    ensures
        -100_000_000 <= tangent(xs, ys, ct, i) <= 100_000_000,
{
    let n = xs.len() as int;
    if i > 0 {
        lemma_delta_bound(xs, ys, i - 1);
    }
    if i < n - 1 {
        lemma_delta_bound(xs, ys, i);
    }
    if ct == CurveType::SMOOTH {
        if !(i == 0 || i == n - 1) {
            crate::num::lemma_tdiv_bounds(delta(xs, ys, i - 1) + delta(xs, ys, i), 2);
        }
    } else {
        if !(i == 0 || i == n - 1) {
            crate::num::lemma_tdiv_bounds(delta(xs, ys, i - 1) + delta(xs, ys, i), 2);
        }
    }
}

/// Inserting a point at its sorted position keeps the point table well
/// formed.
proof fn lemma_insert_keeps_wf(xs: Seq<i64>, ys: Seq<i64>, idx: int, x: i64, y: i64)
    requires
        pts_wf(xs, ys),
        1 <= idx <= xs.len() - 1,
        0 <= x <= CURVE_MAX,
        0 <= y <= CURVE_MAX,
        forall|j: int| 0 <= j < idx ==> #[trigger] xs[j] < x,
        xs[idx] > x,
    ensures
        pts_wf(xs.insert(idx, x), ys.insert(idx, y)),
{
    let nxs = xs.insert(idx, x);
    let nys = ys.insert(idx, y);
    assert(nxs.len() == xs.len() + 1);
    assert forall|i: int, j: int| 0 <= i < j < nxs.len() implies #[trigger] nxs[i] < #[trigger] nxs[j] by {
        if i < idx && j < idx {
        } else if i < idx && j == idx {
        } else if i < idx && j > idx {
        } else if i == idx {
        } else {
        }
    }
    assert(nxs[0] == xs[0]);
    assert(nxs[nxs.len() - 1] == xs[xs.len() - 1]);
    assert(nys[0] == ys[0]);
    assert(nys[nys.len() - 1] == ys[ys.len() - 1]);
}

/// Removing an interior point keeps the point table well formed.
proof fn lemma_remove_keeps_wf(xs: Seq<i64>, ys: Seq<i64>, idx: int)
    requires
        pts_wf(xs, ys),
        0 < idx < xs.len() - 1,
    ensures
        pts_wf(xs.remove(idx), ys.remove(idx)),
{
    let nxs = xs.remove(idx);
    let nys = ys.remove(idx);
    assert(nxs[0] == xs[0]);
    assert(nxs[nxs.len() - 1] == xs[xs.len() - 1]);
    assert(nys[0] == ys[0]);
    assert(nys[nys.len() - 1] == ys[ys.len() - 1]);
}

/// Law: the default two-point curve from `(0,0)` to the upper domain
/// corner, under monotone interpolation, is the identity map on the domain:
/// evaluating it at any `v` in `[0, 100000]` gives `v` back exactly.
pub proof fn lemma_default_curve_identity(v: int)
    requires
        0 <= v <= CURVE_MAX,
    ensures
        spec_apply_curve(seq![0i64, CURVE_MAX], seq![0i64, CURVE_MAX], CurveType::MONOTONE, v)
            == v,
{
    let xs: Seq<i64> = seq![0i64, CURVE_MAX];
    let ys: Seq<i64> = seq![0i64, CURVE_MAX];
    assert(seg_index(xs, v) == 0);
    assert(delta(xs, ys, 0) == 1000) by {
        assert(tdiv(100_000_000, 100_000) == 1000);
    }
    let c = seg_coeff(xs, ys, CurveType::MONOTONE, 0);
    assert(c.0 == 0 && c.1 == 1000 && c.2 == 0 && c.3 == 0);
    assert(tdiv(1000 * v, 1000) == v) by {
        vstd::arithmetic::div_mod::lemma_div_multiples_vanish(v, 1000);
    }
    assert(curve_eval(0, 1000, 0, 0, 100_000, v) == v) by {
        assert(tdiv(1000 * v, 1000) == v);
        assert(0 * v == 0) by (nonlinear_arith);
        assert(tdiv(0 * v * v, 100_000_000int) == 0);
        assert(tdiv(0 * v * v * v, 10_000_000_000_000int) == 0);
    }
}

/// Checks a caller-supplied point table against the curve invariant.
fn points_ok(xs: &Vec<i64>, ys: &Vec<i64>) -> (r: bool)
    ensures
        r == pts_wf(xs@, ys@),
{
    let n = xs.len();
    if ys.len() != n || n < 2 {
        return false;
    }
    if xs[0] != 0 || xs[n - 1] != CURVE_MAX || ys[0] != 0 || ys[n - 1] != CURVE_MAX {
        return false;
    }
    let mut i: usize = 0;
    while i < n
        invariant
            n == xs@.len(),
            n == ys@.len(),
            i <= n,
            forall|j: int| 0 <= j < i as int ==> 0 <= #[trigger] xs@[j] <= CURVE_MAX,
            forall|j: int| 0 <= j < i as int ==> 0 <= #[trigger] ys@[j] <= CURVE_MAX,
        decreases n - i,
    {
        if xs[i] < 0 || xs[i] > CURVE_MAX || ys[i] < 0 || ys[i] > CURVE_MAX {
            return false;
        }
        i = i + 1;
    }
    let mut i: usize = 0;
    while i < n - 1
        invariant
            n == xs@.len(),
            n == ys@.len(),
            n >= 2,
            i <= n - 1,
            forall|j: int| 0 <= j < i as int ==> #[trigger] xs@[j] < xs@[j + 1],
        decreases n - 1 - i,
    {
        if xs[i] >= xs[i + 1] {
            assert(!pts_wf(xs@, ys@));
            return false;
        }
        i = i + 1;
    }
    proof {
        lemma_adjacent_sorted_pairwise(xs@);
    }
    true
}

/// Adjacent strict increase gives strict increase at any two positions.
proof fn lemma_adjacent_sorted_pairwise(xs: Seq<i64>)
    requires
        forall|j: int| 0 <= j < xs.len() - 1 ==> #[trigger] xs[j] < xs[j + 1],
    ensures
        forall|i: int, j: int| 0 <= i < j < xs.len() ==> #[trigger] xs[i] < #[trigger] xs[j],
{
    assert forall|i: int, j: int| 0 <= i < j < xs.len() implies #[trigger] xs[i] < #[trigger] xs[j] by {
        lemma_sorted_between(xs, i, j);
    }
}

/// Strict order between two positions, by induction on their distance.
proof fn lemma_sorted_between(xs: Seq<i64>, i: int, j: int)
    requires
        forall|k: int| 0 <= k < xs.len() - 1 ==> #[trigger] xs[k] < xs[k + 1],
        0 <= i < j < xs.len(),
    ensures
        xs[i] < xs[j],
    decreases j - i,
{
    if i + 1 < j {
        lemma_sorted_between(xs, i, j - 1);
    }
}

} // verus!
