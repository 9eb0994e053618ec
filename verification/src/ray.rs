//! Exact ray casting against axis-aligned boxes.
//!
//! A ray starts at an origin and moves along a direction vector; the ray
//! parameter is a rational number carried as a numerator and a positive
//! denominator, so every comparison is exact. The cast reports the least
//! admissible parameter at which the ray meets the closed box, together
//! with the outward normal of the face it enters through; when the entry
//! point is shared by two or three faces, the hit is reported as diagonal
//! and the normal is opposite to the ray direction.

use crate::geom::{axis, vec_within, Aabb, Vec3, BOX_LIMIT, MAX_TOI, POS_LIMIT, VEL_LIMIT};
use vstd::prelude::*;

verus! {

/// `a / b <= c / d`, for positive denominators `b` and `d`.
pub open spec fn frac_le(a: int, b: int, c: int, d: int) -> bool {
    a * d <= c * b
}

/// `a / b < c / d`, for positive denominators `b` and `d`.
pub open spec fn frac_lt(a: int, b: int, c: int, d: int) -> bool {
    a * d < c * b
}

/// `a / b == c / d`, for positive denominators `b` and `d`.
pub open spec fn frac_eq(a: int, b: int, c: int, d: int) -> bool {
    a * d == c * b
}

/// Ordering of fractions is transitive, keeping strictness.
pub proof fn lemma_frac_trans(a: int, b: int, c: int, d: int, e: int, f: int)
    by (nonlinear_arith)
    requires
        b > 0,
        d > 0,
        f > 0,
    ensures
        frac_le(a, b, c, d) && frac_le(c, d, e, f) ==> frac_le(a, b, e, f),
        frac_lt(a, b, c, d) && frac_le(c, d, e, f) ==> frac_lt(a, b, e, f),
        frac_le(a, b, c, d) && frac_lt(c, d, e, f) ==> frac_lt(a, b, e, f),
{
}

/// The sign of a product with a positive factor is the sign of the other
/// factor.
pub proof fn lemma_sign(a: int, b: int)
    by (nonlinear_arith)
    requires
        b > 0,
    ensures
        a * b <= 0 ==> a <= 0,
        a * b >= 0 ==> a >= 0,
        a * b < 0 ==> a < 0,
        a >= 0 ==> a * b >= 0,
        a <= 0 ==> a * b <= 0,
        a > 0 ==> a * b > 0,
        a < 0 ==> a * b < 0,
{
}

/// Products of two values in the `i64` range stay inside `i128`.
pub proof fn lemma_i64_prod_in_i128(a: int, b: int)
    by (nonlinear_arith)
    requires
        i64::MIN <= a <= i64::MAX,
        i64::MIN <= b <= i64::MAX,
    ensures
        i128::MIN <= a * b <= i128::MAX,
{
}

/// Compares `a / b` with `c / d` exactly: yields a negative, zero or
/// positive number as the first fraction is less than, equal to or greater
/// than the second.
pub fn cmp_frac(a: i64, b: i64, c: i64, d: i64) -> (o: i8)
    requires
        b > 0,
        d > 0,
    ensures
        o == -1 ==> frac_lt(a as int, b as int, c as int, d as int),
        o == 0 ==> frac_eq(a as int, b as int, c as int, d as int),
        o == 1 ==> frac_le(c as int, d as int, a as int, b as int) && !frac_le(
            a as int,
            b as int,
            c as int,
            d as int,
        ),
        o == -1 || o == 0 || o == 1,
        frac_le(a as int, b as int, c as int, d as int) <==> o != 1,
        frac_lt(a as int, b as int, c as int, d as int) <==> o == -1,
{
    proof {
        lemma_i64_prod_in_i128(a as int, d as int);
        lemma_i64_prod_in_i128(c as int, b as int);
    }
    let lhs: i128 = (a as i128) * (d as i128);
    let rhs: i128 = (c as i128) * (b as i128);
    if lhs < rhs {
        -1
    } else if lhs == rhs {
        0
    } else {
        1
    }
}

/// At ray parameter `n / d`, the point of the ray from `origin` along
/// `dir` lies between the two faces of the box `b` on axis `i`.
pub open spec fn axis_ok(origin: Vec3, dir: Vec3, b: Aabb, n: int, d: int, i: int) -> bool {
    axis(b.min, i) * d <= axis(origin, i) * d + n * axis(dir, i) && axis(origin, i) * d + n * axis(
        dir,
        i,
    ) <= axis(b.max, i) * d
}

/// At ray parameter `n / d` the ray point lies in the closed box `b`.
pub open spec fn hits_at(origin: Vec3, dir: Vec3, b: Aabb, n: int, d: int) -> bool {
    forall|i: int| 0 <= i < 3 ==> #[trigger] axis_ok(origin, dir, b, n, d, i)
}

/// `n / d` is an admissible ray parameter: nonnegative and at most `max_toi`.
pub open spec fn is_param(n: int, d: int, max_toi: int) -> bool {
    d > 0 && 0 <= n && n <= max_toi * d
}

/// Some admissible ray parameter meets the box.
pub open spec fn ray_hits(origin: Vec3, dir: Vec3, b: Aabb, max_toi: int) -> bool {
    exists|n: int, d: int| is_param(n, d, max_toi) && #[trigger] hits_at(origin, dir, b, n, d)
}

/// `n / d` is the least admissible ray parameter at which the ray meets
/// the box: the time of impact.
pub open spec fn is_toi(origin: Vec3, dir: Vec3, b: Aabb, max_toi: int, n: int, d: int) -> bool {
    &&& is_param(n, d, max_toi)
    &&& hits_at(origin, dir, b, n, d)
    &&& forall|n2: int, d2: int|
        d2 > 0 && 0 <= n2 && frac_lt(n2, d2, n, d) ==> !#[trigger] hits_at(origin, dir, b, n2, d2)
}

/// At parameter `n / d` the ray point stands exactly on the face of axis
/// `i` through which the ray enters: the face at the minimum when the ray
/// moves up that axis, the face at the maximum when it moves down.
pub open spec fn entry_touch(origin: Vec3, dir: Vec3, b: Aabb, n: int, d: int, i: int) -> bool {
    axis(dir, i) != 0 && axis(origin, i) * d + n * axis(dir, i) == (if axis(dir, i) > 0 {
        axis(b.min, i) * d
    } else {
        axis(b.max, i) * d
    })
}

/// The outward normal of the surface a ray enters through.
#[derive(Clone, Copy, PartialEq, Eq, Structural, Debug)]
pub enum HitNormal {
    /// The ray enters through the face of one axis alone; the normal is the
    /// unit vector of that axis, negated when the ray moves up the axis.
    Axis { axis: usize, negative: bool },
    /// The entry point is shared by the entry faces of two or three axes;
    /// the normal points opposite to the ray direction.
    Diagonal,
}

/// `nrm` describes the entry surface of the ray at parameter `n / d`.
pub open spec fn normal_matches(
    origin: Vec3,
    dir: Vec3,
    b: Aabb,
    n: int,
    d: int,
    nrm: HitNormal,
) -> bool {
    match nrm {
        HitNormal::Axis { axis: j, negative } => {
            &&& j < 3
            &&& entry_touch(origin, dir, b, n, d, j as int)
            &&& forall|k: int|
                0 <= k < 3 && k != j ==> !#[trigger] entry_touch(origin, dir, b, n, d, k)
            &&& negative == (axis(dir, j as int) > 0)
        },
        HitNormal::Diagonal => exists|j: int, k: int|
            0 <= j < k < 3 && #[trigger] entry_touch(origin, dir, b, n, d, j) && #[trigger]
            entry_touch(origin, dir, b, n, d, k),
    }
}

/// The entry surface at parameter `n / d`, as a value: diagonal when two
/// or three entry faces share the point, else the single touched axis.
/// Meaningful whenever some entry face is touched, as it is at a time of
/// impact.
pub open spec fn normal_at(origin: Vec3, dir: Vec3, b: Aabb, n: int, d: int) -> HitNormal {
    if exists|j: int, k: int|
        0 <= j < k < 3 && #[trigger] entry_touch(origin, dir, b, n, d, j) && #[trigger] entry_touch(
            origin,
            dir,
            b,
            n,
            d,
            k,
        ) {
        HitNormal::Diagonal
    } else {
        let j = choose|j: int| 0 <= j < 3 && #[trigger] entry_touch(origin, dir, b, n, d, j);
        HitNormal::Axis { axis: j as usize, negative: axis(dir, j) > 0 }
    }
}

/// A time of impact is a witness that the ray meets the box.
pub proof fn lemma_toi_implies_ray_hits(
    origin: Vec3,
    dir: Vec3,
    b: Aabb,
    max_toi: int,
    n: int,
    d: int,
)
    requires
        is_toi(origin, dir, b, max_toi, n, d),
    ensures
        ray_hits(origin, dir, b, max_toi),
{
    assert(is_param(n, d, max_toi) && hits_at(origin, dir, b, n, d));
}

/// Two times of impact of one ray and box are the same fraction.
pub proof fn lemma_toi_unique(
    origin: Vec3,
    dir: Vec3,
    b: Aabb,
    max_toi: int,
    n: int,
    d: int,
    n2: int,
    d2: int,
)
    requires
        is_toi(origin, dir, b, max_toi, n, d),
        is_toi(origin, dir, b, max_toi, n2, d2),
    ensures
        frac_eq(n, d, n2, d2),
{
    if frac_lt(n, d, n2, d2) {
        assert(!hits_at(origin, dir, b, n, d));
        assert(false);
    }
    if frac_lt(n2, d2, n, d) {
        assert(!hits_at(origin, dir, b, n2, d2));
        assert(false);
    }
}

/// A normal that describes the entry surface at one representative of a
/// fraction describes it at every representative.
pub proof fn lemma_normal_matches_subst(
    origin: Vec3,
    dir: Vec3,
    b: Aabb,
    n: int,
    d: int,
    n2: int,
    d2: int,
    nrm: HitNormal,
)
    requires
        d > 0,
        d2 > 0,
        frac_eq(n, d, n2, d2),
        normal_matches(origin, dir, b, n, d, nrm),
    ensures
        normal_matches(origin, dir, b, n2, d2, nrm),
{
    assert forall|i: int| 0 <= i < 3 implies (entry_touch(origin, dir, b, n, d, i) <==> #[trigger]
    entry_touch(origin, dir, b, n2, d2, i)) by {
        if axis(dir, i) != 0 {
            lemma_slab_frac(origin, dir, b, i, n, d);
            lemma_slab_frac(origin, dir, b, i, n2, d2);
            lemma_frac_eq_subst(
                n,
                d,
                n2,
                d2,
                entry_num(origin, dir, b, i),
                slab_den(dir, i),
            );
        }
    }
    match nrm {
        HitNormal::Axis { axis: j, negative } => {
            assert(entry_touch(origin, dir, b, n2, d2, j as int));
        },
        HitNormal::Diagonal => {
            let (j, k) = choose|j: int, k: int|
                0 <= j < k < 3 && #[trigger] entry_touch(origin, dir, b, n, d, j) && #[trigger]
                entry_touch(origin, dir, b, n, d, k);
            assert(entry_touch(origin, dir, b, n2, d2, j) && entry_touch(
                origin,
                dir,
                b,
                n2,
                d2,
                k,
            ));
        },
    }
}

/// The entry surface of a ray is one value: whatever normal describes it
/// is `normal_at`.
pub proof fn lemma_normal_at_of_matches(
    origin: Vec3,
    dir: Vec3,
    b: Aabb,
    n: int,
    d: int,
    nrm: HitNormal,
)
    requires
        normal_matches(origin, dir, b, n, d, nrm),
    ensures
        normal_at(origin, dir, b, n, d) == nrm,
{
    match nrm {
        HitNormal::Axis { axis: j, negative } => {
            assert(entry_touch(origin, dir, b, n, d, j as int));
            if exists|j2: int, k2: int|
                0 <= j2 < k2 < 3 && #[trigger] entry_touch(origin, dir, b, n, d, j2)
                    && #[trigger] entry_touch(origin, dir, b, n, d, k2) {
                let (j2, k2) = choose|j2: int, k2: int|
                    0 <= j2 < k2 < 3 && #[trigger] entry_touch(origin, dir, b, n, d, j2)
                        && #[trigger] entry_touch(origin, dir, b, n, d, k2);
                assert(j2 != j as int || k2 != j as int);
                assert(false);
            }
            let j2 = choose|j2: int|
                0 <= j2 < 3 && #[trigger] entry_touch(origin, dir, b, n, d, j2);
            assert(j2 == j as int);
        },
        HitNormal::Diagonal => {},
    }
}

/// The entry-slab fraction numerator of axis `i`, for a direction that is
/// nonzero on `i`; the fraction's denominator is `slab_den`.
pub open spec fn entry_num(origin: Vec3, dir: Vec3, b: Aabb, i: int) -> int {
    if axis(dir, i) > 0 {
        axis(b.min, i) - axis(origin, i)
    } else {
        axis(origin, i) - axis(b.max, i)
    }
}

/// The exit-slab fraction numerator of axis `i`.
pub open spec fn exit_num(origin: Vec3, dir: Vec3, b: Aabb, i: int) -> int {
    if axis(dir, i) > 0 {
        axis(b.max, i) - axis(origin, i)
    } else {
        axis(origin, i) - axis(b.min, i)
    }
}

/// The positive slab denominator of axis `i`: the magnitude of the
/// direction component.
pub open spec fn slab_den(dir: Vec3, i: int) -> int {
    if axis(dir, i) > 0 {
        axis(dir, i)
    } else {
        -axis(dir, i)
    }
}

/// On an axis with nonzero direction, membership in the slab at parameter
/// `n / d` says exactly that the parameter lies between the entry and exit
/// fractions of that axis, and touching the entry face says exactly that
/// the parameter equals the entry fraction.
pub proof fn lemma_slab_frac(origin: Vec3, dir: Vec3, b: Aabb, i: int, n: int, d: int)
    requires
        d > 0,
        axis(dir, i) != 0,
    ensures
        axis_ok(origin, dir, b, n, d, i) <==> (frac_le(
            entry_num(origin, dir, b, i),
            slab_den(dir, i),
            n,
            d,
        ) && frac_le(n, d, exit_num(origin, dir, b, i), slab_den(dir, i))),
        entry_touch(origin, dir, b, n, d, i) <==> frac_eq(
            n,
            d,
            entry_num(origin, dir, b, i),
            slab_den(dir, i),
        ),
{
    let p = axis(origin, i);
    let v = axis(dir, i);
    let lo = axis(b.min, i);
    let hi = axis(b.max, i);
    if v > 0 {
        lemma_slab_frac_pos(p, v, lo, hi, n, d);
    } else {
        lemma_slab_frac_neg(p, v, lo, hi, n, d);
    }
}

proof fn lemma_slab_frac_pos(p: int, v: int, lo: int, hi: int, n: int, d: int)
    by (nonlinear_arith)
    requires
        d > 0,
        v > 0,
    ensures
        (lo * d <= p * d + n * v) <==> ((lo - p) * d <= n * v),
        (p * d + n * v <= hi * d) <==> (n * v <= (hi - p) * d),
        (p * d + n * v == lo * d) <==> (n * v == (lo - p) * d),
{
}

proof fn lemma_slab_frac_neg(p: int, v: int, lo: int, hi: int, n: int, d: int)
    by (nonlinear_arith)
    requires
        d > 0,
        v < 0,
    ensures
        (lo * d <= p * d + n * v) <==> (n * (-v) <= (p - lo) * d),
        (p * d + n * v <= hi * d) <==> ((p - hi) * d <= n * (-v)),
        (p * d + n * v == hi * d) <==> (n * (-v) == (p - hi) * d),
{
}

/// On an axis with zero direction, slab membership does not depend on the
/// parameter: it says that the origin lies between the two faces.
pub proof fn lemma_slab_zero(origin: Vec3, dir: Vec3, b: Aabb, i: int, n: int, d: int)
    by (nonlinear_arith)
    requires
        d > 0,
        axis(dir, i) == 0,
    ensures
        axis_ok(origin, dir, b, n, d, i) <==> (axis(b.min, i) <= axis(origin, i) <= axis(
            b.max,
            i,
        )),
{
}

/// A fraction equals itself under any representative with the same ratio:
/// equal ratios satisfy the same entry-face equations.
pub proof fn lemma_frac_eq_subst(a: int, b: int, c: int, d: int, x: int, y: int)
    by (nonlinear_arith)
    requires
        b > 0,
        d > 0,
        a * d == c * b,
    ensures
        (a * y == x * b) <==> (c * y == x * d),
{
}

/// The result of a successful ray cast.
#[derive(Clone, Copy, PartialEq, Eq, Structural, Debug)]
pub struct RayHit {
    /// Numerator of the time of impact.
    pub toi_num: i64,
    /// Denominator of the time of impact; always positive.
    pub toi_den: i64,
    /// Outward normal of the surface the ray enters through.
    pub normal: HitNormal,
}

/// Casts the ray from `origin` along `dir` against the closed box `b`,
/// bounded by the parameter `max_toi`.
///
/// The origin must lie outside the closed box; a point on or inside the
/// box counts as already overlapping and is the caller's case to handle.
/// Yields no value when no admissible parameter meets the box; otherwise
/// yields the least such parameter, which is then strictly positive, and
/// the entry normal.
#[verifier::loop_isolation(false)]
pub fn cast_ray(origin: &Vec3, dir: &Vec3, b: &Aabb, max_toi: i64) -> (r: Option<RayHit>)
    requires
        b.wf(),
        b.within(BOX_LIMIT as int),
        vec_within(*origin, POS_LIMIT as int),
        vec_within(*dir, VEL_LIMIT as int),
        0 < max_toi <= MAX_TOI,
        !b.contains_spec(*origin),
    ensures
        match r {
            None => !ray_hits(*origin, *dir, *b, max_toi as int),
            Some(h) => {
                &&& h.toi_den > 0
                &&& h.toi_num > 0
                &&& is_toi(*origin, *dir, *b, max_toi as int, h.toi_num as int, h.toi_den as int)
                &&& normal_matches(
                    *origin,
                    *dir,
                    *b,
                    h.toi_num as int,
                    h.toi_den as int,
                    h.normal,
                )
            },
        },
{
    // Best entry fraction so far: numerator, positive denominator, its
    // axis, and whether another axis ties with it.
    let mut entry: Option<(i64, i64, usize, bool)> = None;
    // Least exit fraction so far: numerator, positive denominator, its axis.
    let mut exit: Option<(i64, i64, usize)> = None;

    for i in 0..3usize
        invariant
            entry is Some <==> exit is Some,
            entry is None ==> forall|k: int|
                0 <= k < i ==> axis(*dir, k) == 0 && axis(b.min, k) <= axis(*origin, k) <= axis(
                    b.max,
                    k,
                ),
            forall|k: int|
                0 <= k < i && axis(*dir, k) == 0 ==> axis(b.min, k) <= axis(*origin, k) <= axis(
                    b.max,
                    k,
                ),
            entry matches Some((en, edn, ax, diag)) ==> {
                &&& (ax as int) < i
                &&& axis(*dir, ax as int) != 0
                &&& en == entry_num(*origin, *dir, *b, ax as int)
                &&& edn == slab_den(*dir, ax as int)
                &&& edn > 0
                &&& forall|k: int|
                    0 <= k < i && axis(*dir, k) != 0 ==> frac_le(
                        entry_num(*origin, *dir, *b, k),
                        slab_den(*dir, k),
                        en as int,
                        edn as int,
                    )
                &&& !diag ==> forall|k: int|
                    0 <= k < i && k != ax && axis(*dir, k) != 0 ==> frac_lt(
                        entry_num(*origin, *dir, *b, k),
                        slab_den(*dir, k),
                        en as int,
                        edn as int,
                    )
                &&& diag ==> exists|k: int|
                    0 <= k < i && k != ax && axis(*dir, k) != 0 && frac_eq(
                        #[trigger] entry_num(*origin, *dir, *b, k),
                        slab_den(*dir, k),
                        en as int,
                        edn as int,
                    )
            },
            exit matches Some((ex, xdn, xax)) ==> {
                &&& (xax as int) < i
                &&& axis(*dir, xax as int) != 0
                &&& ex == exit_num(*origin, *dir, *b, xax as int)
                &&& xdn == slab_den(*dir, xax as int)
                &&& xdn > 0
                &&& forall|k: int|
                    0 <= k < i && axis(*dir, k) != 0 ==> frac_le(
                        ex as int,
                        xdn as int,
                        exit_num(*origin, *dir, *b, k),
                        slab_den(*dir, k),
                    )
            },
    {
        let vi = dir.get_axis(i);
        let pi = origin.get_axis(i);
        let lo = b.min.get_axis(i);
        let hi = b.max.get_axis(i);
        if vi == 0 {
            if pi < lo || pi > hi {
                proof {
                    assert forall|n2: int, d2: int|
                        is_param(n2, d2, max_toi as int) implies !hits_at(
                        *origin,
                        *dir,
                        *b,
                        n2,
                        d2,
                    ) by {
                        lemma_slab_zero(*origin, *dir, *b, i as int, n2, d2);
                        assert(!axis_ok(*origin, *dir, *b, n2, d2, i as int));
                    }
                }
                return None;
            }
            proof {
                assert(axis(*dir, i as int) == 0);
                assert(axis(b.min, i as int) <= axis(*origin, i as int) <= axis(b.max, i as int));
            }
        } else {
            let den: i64 = if vi > 0 {
                vi
            } else {
                -vi
            };
            let en_i: i64 = if vi > 0 {
                lo - pi
            } else {
                pi - hi
            };
            let ex_i: i64 = if vi > 0 {
                hi - pi
            } else {
                pi - lo
            };
            proof {
                assert(den == slab_den(*dir, i as int));
                assert(en_i == entry_num(*origin, *dir, *b, i as int));
                assert(ex_i == exit_num(*origin, *dir, *b, i as int));
            }
            match entry {
                None => {
                    entry = Some((en_i, den, i, false));
                },
                Some((en, edn, ax, diag)) => {
                    let o = cmp_frac(en_i, den, en, edn);
                    if o == 1 {
                        // Strictly later entry: this axis is the new winner.
                        proof {
                            assert forall|k: int|
                                0 <= k < i + 1 && axis(*dir, k) != 0 implies frac_le(
                                entry_num(*origin, *dir, *b, k),
                                slab_den(*dir, k),
                                en_i as int,
                                den as int,
                            ) by {
                                if k < i {
                                    lemma_frac_trans(
                                        entry_num(*origin, *dir, *b, k),
                                        slab_den(*dir, k),
                                        en as int,
                                        edn as int,
                                        en_i as int,
                                        den as int,
                                    );
                                }
                            }
                            assert forall|k: int|
                                0 <= k < i + 1 && k != i && axis(*dir, k) != 0 implies frac_lt(
                                entry_num(*origin, *dir, *b, k),
                                slab_den(*dir, k),
                                en_i as int,
                                den as int,
                            ) by {
                                lemma_frac_trans(
                                    entry_num(*origin, *dir, *b, k),
                                    slab_den(*dir, k),
                                    en as int,
                                    edn as int,
                                    en_i as int,
                                    den as int,
                                );
                            }
                        }
                        entry = Some((en_i, den, i, false));
                    } else if o == 0 {
                        // The new axis ties with the winner: a diagonal entry.
                        entry = Some((en, edn, ax, true));
                    }
                },
            }
            match exit {
                None => {
                    exit = Some((ex_i, den, i));
                },
                Some((ex, xdn, xax)) => {
                    let o = cmp_frac(ex_i, den, ex, xdn);
                    if o == -1 {
                        proof {
                            assert forall|k: int|
                                0 <= k < i + 1 && axis(*dir, k) != 0 implies frac_le(
                                ex_i as int,
                                den as int,
                                exit_num(*origin, *dir, *b, k),
                                slab_den(*dir, k),
                            ) by {
                                if k < i {
                                    lemma_frac_trans(
                                        ex_i as int,
                                        den as int,
                                        ex as int,
                                        xdn as int,
                                        exit_num(*origin, *dir, *b, k),
                                        slab_den(*dir, k),
                                    );
                                }
                            }
                        }
                        exit = Some((ex_i, den, i));
                    }
                },
            }
        }
    }
    match (entry, exit) {
        (Some((en, edn, ax, diag)), Some((ex, xdn, xax))) => {
            if ex < 0 {
                // The ray moves away from the box on axis `xax`: no
                // nonnegative parameter stays inside that slab.
                proof {
                    assert forall|n2: int, d2: int|
                        is_param(n2, d2, max_toi as int) implies !hits_at(
                        *origin,
                        *dir,
                        *b,
                        n2,
                        d2,
                    ) by {
                        lemma_slab_frac(*origin, *dir, *b, xax as int, n2, d2);
                        lemma_sign(n2, slab_den(*dir, xax as int));
                        lemma_sign(ex as int, d2);
                        assert(!axis_ok(*origin, *dir, *b, n2, d2, xax as int));
                    }
                }
                return None;
            }
            // Were the entry fraction nonpositive, the origin would lie in
            // every slab at parameter zero, inside the box.
            proof {
                if en <= 0 {
                    assert forall|k: int|
                        0 <= k < 3 implies axis(b.min, k) <= #[trigger] axis(*origin, k) <= axis(
                        b.max,
                        k,
                    ) by {
                        if axis(*dir, k) != 0 {
                            lemma_sign(en as int, slab_den(*dir, k));
                            lemma_sign(entry_num(*origin, *dir, *b, k), edn as int);
                            lemma_sign(ex as int, slab_den(*dir, k));
                            lemma_sign(exit_num(*origin, *dir, *b, k), xdn as int);
                            assert(entry_num(*origin, *dir, *b, k) <= 0);
                            assert(exit_num(*origin, *dir, *b, k) >= 0);
                        }
                    }
                    assert(b.contains_spec(*origin));
                    assert(false);
                }
            }
            let oe = cmp_frac(en, edn, ex, xdn);
            if oe == 1 {
                // The entry fraction lies beyond the exit fraction: the
                // slabs share no parameter.
                proof {
                    assert forall|n2: int, d2: int|
                        is_param(n2, d2, max_toi as int) implies !hits_at(
                        *origin,
                        *dir,
                        *b,
                        n2,
                        d2,
                    ) by {
                        if hits_at(*origin, *dir, *b, n2, d2) {
                            lemma_slab_frac(*origin, *dir, *b, ax as int, n2, d2);
                            lemma_slab_frac(*origin, *dir, *b, xax as int, n2, d2);
                            assert(axis_ok(*origin, *dir, *b, n2, d2, ax as int));
                            assert(axis_ok(*origin, *dir, *b, n2, d2, xax as int));
                            lemma_frac_trans(
                                en as int,
                                edn as int,
                                n2,
                                d2,
                                ex as int,
                                xdn as int,
                            );
                        }
                    }
                }
                return None;
            }
            let toi_cap = cmp_frac(en, edn, max_toi, 1);
            if toi_cap == 1 {
                // The box is met only beyond the admissible bound.
                proof {
                    assert forall|n2: int, d2: int|
                        is_param(n2, d2, max_toi as int) implies !hits_at(
                        *origin,
                        *dir,
                        *b,
                        n2,
                        d2,
                    ) by {
                        if hits_at(*origin, *dir, *b, n2, d2) {
                            lemma_slab_frac(*origin, *dir, *b, ax as int, n2, d2);
                            lemma_frac_trans(
                                en as int,
                                edn as int,
                                n2,
                                d2,
                                max_toi as int,
                                1,
                            );
                        }
                    }
                }
                return None;
            }
            let negative = dir.get_axis(ax) > 0;
            let normal = if diag {
                HitNormal::Diagonal
            } else {
                HitNormal::Axis { axis: ax, negative }
            };
            proof {
                // The returned parameter meets every slab.
                assert forall|k: int| 0 <= k < 3 implies axis_ok(
                    *origin,
                    *dir,
                    *b,
                    en as int,
                    edn as int,
                    k,
                ) by {
                    if axis(*dir, k) == 0 {
                        lemma_slab_zero(*origin, *dir, *b, k, en as int, edn as int);
                    } else {
                        lemma_slab_frac(*origin, *dir, *b, k, en as int, edn as int);
                        lemma_frac_trans(
                            en as int,
                            edn as int,
                            ex as int,
                            xdn as int,
                            exit_num(*origin, *dir, *b, k),
                            slab_den(*dir, k),
                        );
                    }
                }
                assert(hits_at(*origin, *dir, *b, en as int, edn as int));
                // No admissible parameter below it meets the winning slab.
                assert forall|n2: int, d2: int|
                    d2 > 0 && 0 <= n2 && frac_lt(n2, d2, en as int, edn as int) implies !hits_at(
                    *origin,
                    *dir,
                    *b,
                    n2,
                    d2,
                ) by {
                    if hits_at(*origin, *dir, *b, n2, d2) {
                        lemma_slab_frac(*origin, *dir, *b, ax as int, n2, d2);
                    }
                }
                // The normal describes the entry surface.
                lemma_slab_frac(*origin, *dir, *b, ax as int, en as int, edn as int);
                assert(entry_touch(*origin, *dir, *b, en as int, edn as int, ax as int));
                if diag {
                    let k = choose|k: int|
                        0 <= k < 3 && k != ax && axis(*dir, k) != 0 && frac_eq(
                            #[trigger] entry_num(*origin, *dir, *b, k),
                            slab_den(*dir, k),
                            en as int,
                            edn as int,
                        );
                    lemma_slab_frac(*origin, *dir, *b, k, en as int, edn as int);
                    assert(entry_touch(*origin, *dir, *b, en as int, edn as int, k));
                    // Order the two touched axes to witness the shared
                    // entry point.
                    if k < ax {
                        assert(normal_matches(
                            *origin,
                            *dir,
                            *b,
                            en as int,
                            edn as int,
                            HitNormal::Diagonal,
                        ));
                    } else {
                        assert(normal_matches(
                            *origin,
                            *dir,
                            *b,
                            en as int,
                            edn as int,
                            HitNormal::Diagonal,
                        ));
                    }
                } else {
                    assert forall|k: int| 0 <= k < 3 && k != ax implies !entry_touch(
                        *origin,
                        *dir,
                        *b,
                        en as int,
                        edn as int,
                        k,
                    ) by {
                        if axis(*dir, k) != 0 {
                            lemma_slab_frac(*origin, *dir, *b, k, en as int, edn as int);
                        }
                    }
                }
            }
            Some(RayHit { toi_num: en, toi_den: edn, normal })
        },
        _ => {
            // Every direction component is zero and the origin lies in
            // every slab, so the origin would be inside the box.
            proof {
                assert forall|k: int|
                    0 <= k < 3 implies axis(b.min, k) <= #[trigger] axis(*origin, k) <= axis(
                    b.max,
                    k,
                ) by {
                    assert(axis(*dir, k) == 0);
                }
                assert(b.contains_spec(*origin));
                assert(false);
            }
            None
        },
    }
}

} // verus!
