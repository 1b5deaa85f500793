//! Thinning of a polyline in pixel space: a point is kept only where it lies
//! farther than the tolerance from the last point kept, and the end point is
//! always kept.
use vstd::prelude::*;

verus! {

/// A point in canvas pixels.
pub type PixelPoint = (i64, i64);

/// The squared Euclidean distance between two points.
pub open spec fn sq_dist(a: PixelPoint, b: PixelPoint) -> int {
    (a.0 - b.0) * (a.0 - b.0) + (a.1 - b.1) * (a.1 - b.1)
}

/// `b` lies farther from `a` than the tolerance whose square is `tol_sq`.
pub open spec fn far(a: PixelPoint, b: PixelPoint, tol_sq: int) -> bool {
    sq_dist(a, b) > tol_sq
}

/// The points kept after the first `n` points of `pts` were examined: the
/// first point, then each point far from the last point kept.
pub open spec fn kept(pts: Seq<PixelPoint>, tol_sq: int, n: int) -> Seq<PixelPoint>
    decreases n,
{
    if n <= 1 {
        pts.take(1)
    } else {
        let k = kept(pts, tol_sq, n - 1);
        if far(k.last(), pts[n - 1], tol_sq) {
            k.push(pts[n - 1])
        } else {
            k
        }
    }
}

/// The thinned polyline: sequences of fewer than two points as they are;
/// otherwise the points kept among all but the last, then the last point.
pub open spec fn simplified(pts: Seq<PixelPoint>, tol_sq: int) -> Seq<PixelPoint> {
    if pts.len() < 2 {
        pts
    } else {
        kept(pts, tol_sq, pts.len() - 1).push(pts.last())
    }
}

/// Whether `b` lies farther from `a` than the tolerance whose square is
/// `tol_sq`, computed without overflow.
pub fn is_far(a: PixelPoint, b: PixelPoint, tol_sq: i64) -> (r: bool)
    ensures
        r == far(a, b, tol_sq as int),
{
    let dx: u128 = if a.0 >= b.0 { (a.0 as i128 - b.0 as i128) as u128 } else { (b.0 as i128 - a.0 as i128) as u128 };
    let dy: u128 = if a.1 >= b.1 { (a.1 as i128 - b.1 as i128) as u128 } else { (b.1 as i128 - a.1 as i128) as u128 };
    proof {
        assert(dx * dx <= 0xffff_ffff_ffff_ffffu128 * 0xffff_ffff_ffff_ffffu128) by (nonlinear_arith)
            requires dx <= 0xffff_ffff_ffff_ffffu128;
        assert(dy * dy <= 0xffff_ffff_ffff_ffffu128 * 0xffff_ffff_ffff_ffffu128) by (nonlinear_arith)
            requires dy <= 0xffff_ffff_ffff_ffffu128;
        assert(dx * dx == (a.0 - b.0) * (a.0 - b.0)) by (nonlinear_arith)
            requires dx == a.0 - b.0 || dx == b.0 - a.0;
        assert(dy * dy == (a.1 - b.1) * (a.1 - b.1)) by (nonlinear_arith)
            requires dy == a.1 - b.1 || dy == b.1 - a.1;
    }
    let dx2 = dx * dx;
    if tol_sq < 0 {
        return true;
    }
    if dx2 > tol_sq as u128 {
        proof {
            assert(dy * dy >= 0) by (nonlinear_arith);
        }
        return true;
    }
    let d2 = dx2 + dy * dy;
    d2 > tol_sq as u128
}

/// Thins a polyline given in canvas pixels: keeps the first point, then
/// each point whose squared distance to the last point kept exceeds
/// `tol_sq`, and always ends with the last point. Fewer than two points are
/// returned as they are.
pub fn simplify(points: Vec<PixelPoint>, tol_sq: i64) -> (r: Vec<PixelPoint>)
    ensures
        r@ == simplified(points@, tol_sq as int),
{
    let n = points.len();
    if n < 2 {
        return points;
    }
    let mut r: Vec<PixelPoint> = Vec::new();
    r.push(points[0]);
    proof {
        assert(r@ =~= kept(points@, tol_sq as int, 1));
    }
    let mut i: usize = 1;
    while i < n - 1
        invariant
            2 <= n == points.len(),
            1 <= i <= n - 1,
            r@ == kept(points@, tol_sq as int, i as int),
            r.len() >= 1,
        decreases n - i,
    {
        let last = r[r.len() - 1];
        if is_far(last, points[i], tol_sq) {
            r.push(points[i]);
        }
        i = i + 1;
        proof {
            lemma_kept_nonempty(points@, tol_sq as int, i as int);
        }
    }
    r.push(points[n - 1]);
    r
}

proof fn lemma_kept_nonempty(pts: Seq<PixelPoint>, tol_sq: int, n: int)
    requires
        pts.len() >= 1,
    ensures
        kept(pts, tol_sq, n).len() >= 1,
        kept(pts, tol_sq, n)[0] == pts[0],
    decreases n,
{
    if n > 1 {
        lemma_kept_nonempty(pts, tol_sq, n - 1);
    }
}

/// Each point of `s` after the first lies far from the one before it.
pub open spec fn spaced(s: Seq<PixelPoint>, tol_sq: int) -> bool {
    forall|i: int| 1 <= i < s.len() ==> far(s[i - 1], #[trigger] s[i], tol_sq)
}

proof fn lemma_kept_spaced(pts: Seq<PixelPoint>, tol_sq: int, n: int)
    requires
        pts.len() >= 1,
        n <= pts.len(),
    ensures
        spaced(kept(pts, tol_sq, n), tol_sq),
    decreases n,
{
    lemma_kept_nonempty(pts, tol_sq, n);
    if n > 1 {
        lemma_kept_spaced(pts, tol_sq, n - 1);
        lemma_kept_nonempty(pts, tol_sq, n - 1);
    }
}

/// Thinning an already thinned polyline with the same tolerance changes
/// nothing.
pub proof fn lemma_simplify_idempotent(pts: Seq<PixelPoint>, tol_sq: int)
    ensures
        simplified(simplified(pts, tol_sq), tol_sq) == simplified(pts, tol_sq),
{
    if pts.len() >= 2 {
        let k = kept(pts, tol_sq, pts.len() - 1);
        let q = k.push(pts.last());
        lemma_kept_spaced(pts, tol_sq, pts.len() - 1);
        lemma_kept_nonempty(pts, tol_sq, pts.len() - 1);
        assert(q.take(k.len() as int) =~= k);
        lemma_kept_prefix_agree(q, k, tol_sq, k.len() as int);
        assert(k.take(k.len() as int) =~= k);
    }
}

proof fn lemma_kept_prefix_agree(q: Seq<PixelPoint>, k: Seq<PixelPoint>, tol_sq: int, n: int)
    requires
        spaced(k, tol_sq),
        1 <= n <= k.len(),
        k.len() < q.len(),
        q.take(k.len() as int) == k,
    ensures
        kept(q, tol_sq, n) == k.take(n),
    decreases n,
{
    assert(q[0] == k[0]) by {
        assert(q.take(k.len() as int)[0] == q[0]);
    }
    if n == 1 {
        assert(q.take(1) =~= k.take(1));
    } else {
        lemma_kept_prefix_agree(q, k, tol_sq, n - 1);
        assert(q[n - 1] == k[n - 1]) by {
            assert(q.take(k.len() as int)[n - 1] == q[n - 1]);
        }
        assert(k.take(n - 1).last() == k[n - 2]);
        assert(far(k[n - 2], k[n - 1], tol_sq));
        assert(k.take(n - 1).push(k[n - 1]) =~= k.take(n));
    }
}

/// The thinned polyline begins with the first point and ends with the last
/// point of a non-empty input.
pub proof fn lemma_simplify_keeps_endpoints(pts: Seq<PixelPoint>, tol_sq: int)
    requires
        pts.len() >= 1,
    ensures
        simplified(pts, tol_sq).len() >= 1,
        simplified(pts, tol_sq)[0] == pts[0],
        simplified(pts, tol_sq).last() == pts.last(),
{
    if pts.len() >= 2 {
        lemma_kept_nonempty(pts, tol_sq, pts.len() - 1);
    }
}

} // verus!
