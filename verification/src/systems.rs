//! The per-tick systems: kinematic integration, angle steering, and the
//! swept-collision resolver with wall sliding.
//!
//! The resolver works per entity. Every static box is paired with an
//! extended box, grown by the entity's half-extents on every axis, so the
//! entity can be treated as a point against the extended box. A pass casts
//! a ray from the entity's position along its velocity against every
//! extended box that passes two filters — the position does not already
//! lie in the extended box, and the box meets the swept box of the entity's
//! current and projected positions — and takes the earliest hit, the first
//! one winning ties. The velocity component along the hit normal is then
//! removed and the pass is run again, until a pass finds no hit; each hit
//! zeroes a velocity component that was not zero, so at most three passes
//! find one. A final probe with a small downward velocity from the
//! projected position sets the ground-contact flag.

use crate::components::{Acceleration, Angle2, Collider, Input, OnGround, Position, Velocity};
use crate::geom::{
    axis, lemma_axes, lemma_mul_bound, lemma_mul_bound_both, vec_within, Aabb, Vec3, BOX_LIMIT,
    ENTITY_POS_LIMIT, MAX_TOI, POS_LIMIT, STATIC_BOX_LIMIT, TICK_LIMIT, VEL_LIMIT,
};
use crate::mymath::{ChunkPos, Deg};
use crate::ray::{
    cast_ray, cmp_frac, frac_eq, frac_le, frac_lt, hits_at, is_param, is_toi, lemma_frac_trans,
    lemma_normal_at_of_matches, lemma_normal_matches_subst, lemma_slab_zero,
    lemma_toi_implies_ray_hits, lemma_toi_unique,
    normal_at, normal_matches, ray_hits, HitNormal,
};
use vstd::prelude::*;

verus! {

/// A static box together with its extension by the entity's half-extents.
#[derive(Clone, Copy, PartialEq, Eq, Structural, Debug)]
pub struct CandidatePair {
    pub aabb: Aabb,
    pub extended: Aabb,
}

/// The candidate boxes are well-formed and within the admitted coordinate
/// range.
pub open spec fn pair_wf(c: CandidatePair) -> bool {
    c.aabb.wf() && c.extended.wf() && c.aabb.within(BOX_LIMIT as int) && c.extended.within(
        BOX_LIMIT as int,
    )
}

pub open spec fn pairs_wf(pairs: Seq<CandidatePair>) -> bool {
    forall|i: int| 0 <= i < pairs.len() ==> #[trigger] pair_wf(pairs[i])
}

/// Component `i` of the entity's projected center after one tick.
pub open spec fn next_center(ep: Vec3, v: Vec3, dt: u32, i: int) -> int {
    axis(ep, i) + axis(v, i) * dt
}

/// Component `i` of the entity box's half-extents.
pub open spec fn ebox_half(ebox: Aabb, i: int) -> int {
    (axis(ebox.max, i) - axis(ebox.min, i)) / 2
}

/// Lower face `i` of the swept box: the union of the entity box and the
/// same box moved to the projected center.
pub open spec fn swept_lo(ebox: Aabb, ep: Vec3, v: Vec3, dt: u32, i: int) -> int {
    let moved = next_center(ep, v, dt, i) - ebox_half(ebox, i);
    if axis(ebox.min, i) <= moved {
        axis(ebox.min, i)
    } else {
        moved
    }
}

/// Upper face `i` of the swept box.
pub open spec fn swept_hi(ebox: Aabb, ep: Vec3, v: Vec3, dt: u32, i: int) -> int {
    let moved = next_center(ep, v, dt, i) + ebox_half(ebox, i);
    if axis(ebox.max, i) >= moved {
        axis(ebox.max, i)
    } else {
        moved
    }
}

/// The candidate takes part in a pass: the entity's position does not
/// already lie in its extended box, and its box meets the entity's swept
/// box.
pub open spec fn pair_relevant(
    c: CandidatePair,
    ep: Vec3,
    v: Vec3,
    dt: u32,
    ebox: Aabb,
) -> bool {
    &&& !c.extended.contains_spec(ep)
    &&& forall|i: int|
        0 <= i < 3 ==> #[trigger] axis(c.aabb.min, i) <= swept_hi(ebox, ep, v, dt, i) && swept_lo(
            ebox,
            ep,
            v,
            dt,
            i,
        ) <= axis(c.aabb.max, i)
}

/// Candidate `i` wins the pass with time of impact `n / d`: it takes part,
/// the ray meets its extended box first at `n / d`, and every other
/// participating candidate is met no earlier — strictly later when it
/// stands before `i`, so that among ties the first candidate wins.
pub open spec fn is_winner(
    pairs: Seq<CandidatePair>,
    ep: Vec3,
    v: Vec3,
    dt: u32,
    ebox: Aabb,
    i: int,
    n: int,
    d: int,
) -> bool {
    &&& 0 <= i < pairs.len()
    &&& pair_relevant(pairs[i], ep, v, dt, ebox)
    &&& is_toi(ep, v, pairs[i].extended, MAX_TOI as int, n, d)
    &&& forall|k: int, n2: int, d2: int|
        0 <= k < pairs.len() && k != i && pair_relevant(pairs[k], ep, v, dt, ebox) && #[trigger]
        is_toi(ep, v, pairs[k].extended, MAX_TOI as int, n2, d2) ==> frac_le(n, d, n2, d2) && (k
            < i ==> frac_lt(n, d, n2, d2))
}

pub open spec fn has_winner(
    pairs: Seq<CandidatePair>,
    ep: Vec3,
    v: Vec3,
    dt: u32,
    ebox: Aabb,
) -> bool {
    exists|i: int, n: int, d: int| #[trigger] is_winner(pairs, ep, v, dt, ebox, i, n, d)
}

/// The velocity after the wall-slide response against `nrm`: the component
/// along an axis normal is removed and the tangential components are kept
/// exactly; a diagonal normal is opposite to the velocity itself, so the
/// response removes the whole velocity.
pub open spec fn slide_spec(v: Vec3, nrm: HitNormal) -> Vec3 {
    match nrm {
        HitNormal::Axis { axis: j, negative } => Vec3 {
            x: if j == 0 {
                0i64
            } else {
                v.x
            },
            y: if j == 1 {
                0i64
            } else {
                v.y
            },
            z: if j == 2 {
                0i64
            } else {
                v.z
            },
        },
        HitNormal::Diagonal => Vec3 { x: 0i64, y: 0i64, z: 0i64 },
    }
}

/// The outcome of one resolver pass: the adjusted velocity of the winning
/// hit, or nothing when no candidate is hit.
pub open spec fn pass_spec(
    pairs: Seq<CandidatePair>,
    ep: Vec3,
    v: Vec3,
    dt: u32,
    ebox: Aabb,
) -> Option<Vec3> {
    if has_winner(pairs, ep, v, dt, ebox) {
        let (i, n, d) = choose|i: int, n: int, d: int|
            #[trigger] is_winner(pairs, ep, v, dt, ebox, i, n, d);
        Some(slide_spec(v, normal_at(ep, v, pairs[i].extended, n, d)))
    } else {
        None
    }
}

/// The velocity after at most `fuel` resolver passes, stopping at the
/// first pass without a hit.
pub open spec fn resolve_vel(
    pairs: Seq<CandidatePair>,
    ep: Vec3,
    v: Vec3,
    dt: u32,
    ebox: Aabb,
    fuel: nat,
) -> Vec3
    decreases fuel,
{
    if fuel == 0 {
        v
    } else {
        match pass_spec(pairs, ep, v, dt, ebox) {
            Some(v2) => resolve_vel(pairs, ep, v2, dt, ebox, (fuel - 1) as nat),
            None => v,
        }
    }
}

/// How many components of `v` are not zero.
pub open spec fn nonzero_count(v: Vec3) -> int {
    (if v.x != 0 {
        1int
    } else {
        0int
    }) + (if v.y != 0 {
        1int
    } else {
        0int
    }) + (if v.z != 0 {
        1int
    } else {
        0int
    })
}

/// A pass has one winner, and one time of impact up to the fraction's
/// representative.
pub proof fn lemma_winner_unique(
    pairs: Seq<CandidatePair>,
    ep: Vec3,
    v: Vec3,
    dt: u32,
    ebox: Aabb,
    i: int,
    n: int,
    d: int,
    i2: int,
    n2: int,
    d2: int,
)
    requires
        is_winner(pairs, ep, v, dt, ebox, i, n, d),
        is_winner(pairs, ep, v, dt, ebox, i2, n2, d2),
    ensures
        i == i2,
        frac_eq(n, d, n2, d2),
        d > 0,
        d2 > 0,
{
    if i != i2 {
        assert(is_toi(ep, v, pairs[i2].extended, MAX_TOI as int, n2, d2));
        assert(is_toi(ep, v, pairs[i].extended, MAX_TOI as int, n, d));
        assert(frac_le(n, d, n2, d2) && (i2 < i ==> frac_lt(n, d, n2, d2)));
        assert(frac_le(n2, d2, n, d) && (i < i2 ==> frac_lt(n2, d2, n, d)));
        assert(false);
    }
    lemma_toi_unique(ep, v, pairs[i].extended, MAX_TOI as int, n, d, n2, d2);
}

/// Resolves collisions for each entity and updates its velocity and
/// ground-contact flag.
pub struct CollisionHandler;

impl CollisionHandler {
    /// Resolves one pass against the candidate set: finds the earliest hit of
    /// the ray from the entity's position along its velocity, adjusts the
    /// velocity by the wall-slide response against the hit's normal, and says
    /// whether anything was hit. Each hit removes a velocity component that
    /// was not zero.
    #[verifier::loop_isolation(false)]
    pub fn get_adjusted_vel(
        pairs: &Vec<CandidatePair>,
        entity_pos: &Position,
        entity_vel: &mut Velocity,
        delta: u32,
        entity_aabb: &Aabb,
    ) -> (hit: bool)
        requires
            pairs_wf(pairs@),
            vec_within(entity_pos.0, POS_LIMIT as int),
            vec_within(old(entity_vel).0, VEL_LIMIT as int),
            delta <= TICK_LIMIT,
            entity_aabb.wf(),
            entity_aabb.even_extents(),
            entity_aabb.within(BOX_LIMIT as int),
        ensures
            hit == pass_spec(pairs@, entity_pos.0, old(entity_vel).0, delta, *entity_aabb) is Some,
            final(entity_vel).0 == (match pass_spec(
                pairs@,
                entity_pos.0,
                old(entity_vel).0,
                delta,
                *entity_aabb,
            ) {
                Some(v2) => v2,
                None => old(entity_vel).0,
            }),
            hit ==> nonzero_count(final(entity_vel).0) < nonzero_count(old(entity_vel).0),
            vec_within(final(entity_vel).0, VEL_LIMIT as int),
    {
        let v = entity_vel.0;
        let ghost ep = entity_pos.0;
        let ghost ebox = *entity_aabb;

        // The swept box of the entity's current and projected boxes.
        let he = entity_aabb.half_extents();
        let disp = v.scale_ticks(delta);
        proof {
            lemma_axes(v);
            lemma_axes(entity_pos.0);
            lemma_axes(ebox.min);
            lemma_axes(ebox.max);
            lemma_mul_bound(v.x as int, delta as int, VEL_LIMIT as int, TICK_LIMIT as int);
            lemma_mul_bound(v.y as int, delta as int, VEL_LIMIT as int, TICK_LIMIT as int);
            lemma_mul_bound(v.z as int, delta as int, VEL_LIMIT as int, TICK_LIMIT as int);
        }
        let center = entity_pos.0.add(&disp);
        let moved = Aabb { min: center.sub(&he), max: center.add(&he) };
        let swept = entity_aabb.merged(&moved);
        proof {
            assert forall|i: int| 0 <= i < 3 implies #[trigger] axis(swept.min, i) == swept_lo(
                ebox,
                ep,
                v,
                delta,
                i,
            ) && axis(swept.max, i) == swept_hi(ebox, ep, v, delta, i) by {
                assert(2 * ebox_half(ebox, i) == axis(ebox.max, i) - axis(ebox.min, i));
                if i == 0 {
                    assert(he.x == ebox_half(ebox, 0));
                } else if i == 1 {
                    assert(he.y == ebox_half(ebox, 1));
                } else {
                    assert(he.z == ebox_half(ebox, 2));
                }
            }
        }

        // The best hit so far: time of impact and normal, with the index of
        // its candidate kept for the proof.
        let mut best: Option<(i64, i64, HitNormal)> = None;
        let ghost mut best_idx: int = 0;

        let n_pairs = pairs.len();
        let mut idx: usize = 0;
        while idx < n_pairs
            invariant
                idx <= n_pairs,
                best is None ==> forall|k: int|
                    0 <= k < idx ==> !(#[trigger] pair_relevant(pairs@[k], ep, v, delta, ebox)
                        && ray_hits(ep, v, pairs@[k].extended, MAX_TOI as int)),
                best matches Some((n, d, nrm)) ==> {
                    &&& 0 <= best_idx < idx
                    &&& pair_relevant(pairs@[best_idx], ep, v, delta, ebox)
                    &&& is_toi(ep, v, pairs@[best_idx].extended, MAX_TOI as int, n as int, d as int)
                    &&& d > 0
                    &&& normal_matches(
                        ep,
                        v,
                        pairs@[best_idx].extended,
                        n as int,
                        d as int,
                        nrm,
                    )
                    &&& forall|k: int, n2: int, d2: int|
                        0 <= k < idx && k != best_idx && pair_relevant(pairs@[k], ep, v, delta, ebox)
                            && #[trigger] is_toi(ep, v, pairs@[k].extended, MAX_TOI as int, n2, d2)
                            ==> frac_le(n as int, d as int, n2, d2) && (k < best_idx ==> frac_lt(
                            n as int,
                            d as int,
                            n2,
                            d2,
                        ))
                },
            decreases n_pairs - idx,
        {
            let pair = pairs[idx];
            proof {
                assert(pair_wf(pairs@[idx as int]));
            }
            if pair.extended.contains_point(&entity_pos.0) {
                proof {
                    assert(!pair_relevant(pairs@[idx as int], ep, v, delta, ebox));
                }
                idx += 1;
                continue ;
            }
            if !swept.intersects(&pair.aabb) {
                proof {
                    assert(!pair_relevant(pairs@[idx as int], ep, v, delta, ebox)) by {
                        if pair_relevant(pairs@[idx as int], ep, v, delta, ebox) {
                            assert(exists|i: int|
                                0 <= i < 3 && !(#[trigger] axis(swept.min, i) <= axis(pair.aabb.max, i)
                                    && axis(pair.aabb.min, i) <= axis(swept.max, i)));
                            let i = choose|i: int|
                                0 <= i < 3 && !(#[trigger] axis(swept.min, i) <= axis(pair.aabb.max, i)
                                    && axis(pair.aabb.min, i) <= axis(swept.max, i));
                            assert(axis(pair.aabb.min, i) <= swept_hi(ebox, ep, v, delta, i));
                            assert(false);
                        }
                    }
                }
                idx += 1;
                continue ;
            }
            match cast_ray(&entity_pos.0, &v, &pair.extended, MAX_TOI) {
                None => {
                    proof {
                        assert forall|n2: int, d2: int| !#[trigger] is_toi(
                            ep,
                            v,
                            pairs@[idx as int].extended,
                            MAX_TOI as int,
                            n2,
                            d2,
                        ) by {
                            if is_toi(ep, v, pairs@[idx as int].extended, MAX_TOI as int, n2, d2) {
                                lemma_toi_implies_ray_hits(
                                    ep,
                                    v,
                                    pairs@[idx as int].extended,
                                    MAX_TOI as int,
                                    n2,
                                    d2,
                                );
                            }
                        }
                    }
                    idx += 1;
                },
                Some(h) => {
                    proof {
                        assert(hits_at(ep, v, pairs@[idx as int].extended, h.toi_num as int, h.toi_den as int));
                        assert(is_param(h.toi_num as int, h.toi_den as int, MAX_TOI as int));
                        assert forall|i: int| 0 <= i < 3 implies #[trigger] axis(pair.aabb.min, i)
                            <= swept_hi(ebox, ep, v, delta, i) && swept_lo(ebox, ep, v, delta, i)
                            <= axis(pair.aabb.max, i) by {
                            assert(axis(swept.min, i) == swept_lo(ebox, ep, v, delta, i));
                            assert(axis(swept.min, i) <= axis(pair.aabb.max, i) && axis(
                                pair.aabb.min,
                                i,
                            ) <= axis(swept.max, i));
                        }
                        assert(pair_relevant(pairs@[idx as int], ep, v, delta, ebox));
                    }
                    match best {
                        None => {
                            proof {
                                assert forall|k: int, n2: int, d2: int|
                                    0 <= k < idx && pair_relevant(pairs@[k], ep, v, delta, ebox)
                                        && #[trigger] is_toi(
                                        ep,
                                        v,
                                        pairs@[k].extended,
                                        MAX_TOI as int,
                                        n2,
                                        d2,
                                    ) implies false by {
                                    lemma_toi_implies_ray_hits(
                                        ep,
                                        v,
                                        pairs@[k].extended,
                                        MAX_TOI as int,
                                        n2,
                                        d2,
                                    );
                                }
                            }
                            best = Some((h.toi_num, h.toi_den, h.normal));
                            proof {
                                best_idx = idx as int;
                            }
                        },
                        Some((bn, bd, bnrm)) => {
                            let o = cmp_frac(h.toi_num, h.toi_den, bn, bd);
                            if o == -1 {
                                proof {
                                    assert forall|k: int, n2: int, d2: int|
                                        0 <= k < idx + 1 && k != idx as int && pair_relevant(
                                            pairs@[k],
                                            ep,
                                            v,
                                            delta,
                                            ebox,
                                        ) && #[trigger] is_toi(
                                            ep,
                                            v,
                                            pairs@[k].extended,
                                            MAX_TOI as int,
                                            n2,
                                            d2,
                                        ) implies frac_lt(
                                        h.toi_num as int,
                                        h.toi_den as int,
                                        n2,
                                        d2,
                                    ) by {
                                        if k == best_idx {
                                            lemma_toi_unique(
                                                ep,
                                                v,
                                                pairs@[k].extended,
                                                MAX_TOI as int,
                                                bn as int,
                                                bd as int,
                                                n2,
                                                d2,
                                            );
                                            lemma_frac_trans(
                                                h.toi_num as int,
                                                h.toi_den as int,
                                                bn as int,
                                                bd as int,
                                                n2,
                                                d2,
                                            );
                                        } else {
                                            lemma_frac_trans(
                                                h.toi_num as int,
                                                h.toi_den as int,
                                                bn as int,
                                                bd as int,
                                                n2,
                                                d2,
                                            );
                                        }
                                    }
                                }
                                best = Some((h.toi_num, h.toi_den, h.normal));
                                proof {
                                    best_idx = idx as int;
                                }
                            } else {
                                proof {
                                    assert(frac_le(bn as int, bd as int, h.toi_num as int, h.toi_den as int));
                                    assert forall|k: int, n2: int, d2: int|
                                        0 <= k < idx + 1 && k != best_idx && pair_relevant(
                                            pairs@[k],
                                            ep,
                                            v,
                                            delta,
                                            ebox,
                                        ) && #[trigger] is_toi(
                                            ep,
                                            v,
                                            pairs@[k].extended,
                                            MAX_TOI as int,
                                            n2,
                                            d2,
                                        ) implies frac_le(bn as int, bd as int, n2, d2) && (k
                                        < best_idx ==> frac_lt(bn as int, bd as int, n2, d2)) by {
                                        if k == idx as int {
                                            lemma_toi_unique(
                                                ep,
                                                v,
                                                pairs@[k].extended,
                                                MAX_TOI as int,
                                                h.toi_num as int,
                                                h.toi_den as int,
                                                n2,
                                                d2,
                                            );
                                            lemma_frac_trans(
                                                bn as int,
                                                bd as int,
                                                h.toi_num as int,
                                                h.toi_den as int,
                                                n2,
                                                d2,
                                            );
                                        }
                                    }
                                }
                            }
                        },
                    }
                    idx += 1;
                },
            }
        }
        match best {
            None => {
                proof {
                    if has_winner(pairs@, ep, v, delta, ebox) {
                        let (i, n, d) = choose|i: int, n: int, d: int|
                            #[trigger] is_winner(pairs@, ep, v, delta, ebox, i, n, d);
                        assert(hits_at(ep, v, pairs@[i].extended, n, d));
                        assert(ray_hits(ep, v, pairs@[i].extended, MAX_TOI as int));
                        assert(false);
                    }
                }
                false
            },
            Some((n, d, nrm)) => {
                proof {
                    assert(is_winner(pairs@, ep, v, delta, ebox, best_idx, n as int, d as int));
                    assert(has_winner(pairs@, ep, v, delta, ebox));
                    let (ci, cn, cd) = choose|ci: int, cn: int, cd: int|
                        #[trigger] is_winner(pairs@, ep, v, delta, ebox, ci, cn, cd);
                    lemma_winner_unique(
                        pairs@,
                        ep,
                        v,
                        delta,
                        ebox,
                        best_idx,
                        n as int,
                        d as int,
                        ci,
                        cn,
                        cd,
                    );
                    lemma_normal_matches_subst(
                        ep,
                        v,
                        pairs@[best_idx].extended,
                        n as int,
                        d as int,
                        cn,
                        cd,
                        nrm,
                    );
                    lemma_normal_at_of_matches(ep, v, pairs@[best_idx].extended, cn, cd, nrm);
                    // A hit always zeroes a component that was not zero.
                    match nrm {
                        HitNormal::Axis { axis: j, negative } => {
                            assert(axis(v, j as int) != 0);
                        },
                        HitNormal::Diagonal => {
                            let (j, k) = choose|j: int, k: int|
                                0 <= j < k < 3 && #[trigger] crate::ray::entry_touch(
                                    ep,
                                    v,
                                    pairs@[best_idx].extended,
                                    n as int,
                                    d as int,
                                    j,
                                ) && #[trigger] crate::ray::entry_touch(
                                    ep,
                                    v,
                                    pairs@[best_idx].extended,
                                    n as int,
                                    d as int,
                                    k,
                                );
                            assert(axis(v, j) != 0);
                        },
                    }
                }
                let nv = apply_slide(&v, nrm);
                entity_vel.0 = nv;
                true
            },
        }
    }
}

/// The box `a` grown by the half-extents `he` on every side.
pub open spec fn extend_box(a: Aabb, he: Vec3) -> Aabb {
    Aabb {
        min: Vec3 {
            x: (a.min.x - he.x) as i64,
            y: (a.min.y - he.y) as i64,
            z: (a.min.z - he.z) as i64,
        },
        max: Vec3 {
            x: (a.max.x + he.x) as i64,
            y: (a.max.y + he.y) as i64,
            z: (a.max.z + he.z) as i64,
        },
    }
}

/// Every static box paired with its extension by the entity's half-extents.
pub open spec fn make_pairs(aabbs: Seq<Aabb>, he: Vec3) -> Seq<CandidatePair> {
    aabbs.map_values(|a: Aabb| CandidatePair { aabb: a, extended: extend_box(a, he) })
}

/// The entity's own box: its half-extents around its position.
pub open spec fn entity_box(pos: Vec3, he: Vec3) -> Aabb {
    Aabb {
        min: Vec3 { x: (pos.x - he.x) as i64, y: (pos.y - he.y) as i64, z: (pos.z - he.z) as i64 },
        max: Vec3 { x: (pos.x + he.x) as i64, y: (pos.y + he.y) as i64, z: (pos.z + he.z) as i64 },
    }
}

/// The point reached from `pos` after one tick at velocity `v`.
pub open spec fn moved_point(pos: Vec3, v: Vec3, dt: u32) -> Vec3 {
    Vec3 {
        x: (pos.x + v.x * dt) as i64,
        y: (pos.y + v.y * dt) as i64,
        z: (pos.z + v.z * dt) as i64,
    }
}

/// The small downward velocity of the ground-contact probe.
pub open spec fn probe_velocity() -> Vec3 {
    Vec3 { x: 0i64, y: -1i64, z: 0i64 }
}

/// Updates each entity's position by its velocity over the tick.
pub struct PositionUpdater;

impl PositionUpdater {
    pub fn run(pos: &mut Position, vel: &Velocity, delta: u32)
        requires
            vec_within(vel.0, VEL_LIMIT as int),
            delta <= TICK_LIMIT,
            i64::MIN <= old(pos).0.x + vel.0.x * delta <= i64::MAX,
            i64::MIN <= old(pos).0.y + vel.0.y * delta <= i64::MAX,
            i64::MIN <= old(pos).0.z + vel.0.z * delta <= i64::MAX,
        ensures
            final(pos).0.x == old(pos).0.x + vel.0.x * delta,
            final(pos).0.y == old(pos).0.y + vel.0.y * delta,
            final(pos).0.z == old(pos).0.z + vel.0.z * delta,
    {
        let disp = vel.0.scale_ticks(delta);
        pos.0 = pos.0.add(&disp);
    }
}

/// Updates each entity's velocity by its acceleration over the tick.
pub struct VelocityUpdater;

impl VelocityUpdater {
    pub fn run(vel: &mut Velocity, acc: &Acceleration, delta: u32)
        requires
            vec_within(acc.0, VEL_LIMIT as int),
            delta <= TICK_LIMIT,
            i64::MIN <= old(vel).0.x + acc.0.x * delta <= i64::MAX,
            i64::MIN <= old(vel).0.y + acc.0.y * delta <= i64::MAX,
            i64::MIN <= old(vel).0.z + acc.0.z * delta <= i64::MAX,
        ensures
            final(vel).0.x == old(vel).0.x + acc.0.x * delta,
            final(vel).0.y == old(vel).0.y + acc.0.y * delta,
            final(vel).0.z == old(vel).0.z + acc.0.z * delta,
    {
        let dv = acc.0.scale_ticks(delta);
        vel.0 = vel.0.add(&dv);
    }
}

/// The pitch angle after one tick of mouse input: turned by the rotation
/// speed times the tick duration times the horizontal mouse movement, then
/// wrapped once into `[0, 360]` degrees when it left that band.
pub open spec fn steer_pitch(pitch: int, rotate_speed: int, delta: int, mouse_x: int) -> int {
    let p = pitch + rotate_speed * delta * mouse_x;
    if p < 0 {
        p + 360_000
    } else if p > 360_000 {
        p - 360_000
    } else {
        p
    }
}

/// The yaw angle after one tick of mouse input: turned by the rotation
/// speed times the tick duration times the vertical mouse movement, then
/// clamped to `[-90, 90]` degrees.
pub open spec fn steer_yaw(yaw: int, rotate_speed: int, delta: int, mouse_y: int) -> int {
    let y = yaw + rotate_speed * delta * mouse_y;
    if y < -90_000 {
        -90_000
    } else if y > 90_000 {
        90_000
    } else {
        y
    }
}

/// Largest admitted magnitude of an angle, thousandths of a degree.
pub const ANGLE_LIMIT: i64 = 1_000_000_000_000_000;

/// Largest admitted magnitude of the rotation speed, thousandths of a
/// degree per tick unit per mouse step.
pub const ROTATE_SPEED_LIMIT: i64 = 1_000;

/// Largest admitted magnitude of a mouse movement in one tick.
pub const MOUSE_LIMIT: i32 = 100_000;

/// Turns each entity's view angles by the tick's mouse movement, keeping
/// yaw within its clamp band and wrapping pitch.
pub struct AngleController;

impl AngleController {
    pub fn run(angle: &mut Angle2, input: &Input, delta: u32, rotate_speed: i64)
        requires
            delta <= TICK_LIMIT,
            -ROTATE_SPEED_LIMIT <= rotate_speed <= ROTATE_SPEED_LIMIT,
            -MOUSE_LIMIT <= input.mouse_delta_x <= MOUSE_LIMIT,
            -MOUSE_LIMIT <= input.mouse_delta_y <= MOUSE_LIMIT,
            -ANGLE_LIMIT <= old(angle).pitch().0 <= ANGLE_LIMIT,
            -ANGLE_LIMIT <= old(angle).yaw().0 <= ANGLE_LIMIT,
        ensures
            final(angle).pitch().0 == steer_pitch(
                old(angle).pitch().0 as int,
                rotate_speed as int,
                delta as int,
                input.mouse_delta_x as int,
            ),
            final(angle).yaw().0 == steer_yaw(
                old(angle).yaw().0 as int,
                rotate_speed as int,
                delta as int,
                input.mouse_delta_y as int,
            ),
    {
        proof {
            lemma_mul_bound(
                rotate_speed as int,
                delta as int,
                ROTATE_SPEED_LIMIT as int,
                TICK_LIMIT as int,
            );
        }
        let speed: i64 = rotate_speed * (delta as i64);
        proof {
            lemma_mul_bound_both(
                speed as int,
                input.mouse_delta_x as int,
                1_000_000_000,
                MOUSE_LIMIT as int,
            );
            lemma_mul_bound_both(
                speed as int,
                input.mouse_delta_y as int,
                1_000_000_000,
                MOUSE_LIMIT as int,
            );
        }
        let mut pitch: i64 = angle.pitch().0 + speed * (input.mouse_delta_x as i64);
        let mut yaw: i64 = angle.yaw().0 + speed * (input.mouse_delta_y as i64);

        if yaw < -90_000 {
            yaw = -90_000;
        }
        if yaw > 90_000 {
            yaw = 90_000;
        }
        if pitch < 0 {
            pitch = pitch + 360_000;
        } else if pitch > 360_000 {
            pitch = pitch - 360_000;
        }
        angle.set(Deg(pitch), Deg(yaw));
    }
}

/// Rewrites each entity's horizontal velocity from the tick's input; no
/// horizontal momentum persists between ticks, only the vertical component
/// carries over. The input-driven movement contribution is zero here, as
/// movement keys are not modeled.
pub struct VelocityController;

impl VelocityController {
    pub fn run(vel: &mut Velocity)
        ensures
            final(vel).0.x == 0,
            final(vel).0.y == old(vel).0.y,
            final(vel).0.z == 0,
    {
        vel.0 = Vec3 { x: 0, y: vel.0.y, z: 0 };
    }
}

impl CollisionHandler {
    /// Resolves one entity against the given static boxes: runs resolver
    /// passes until one finds no hit, then probes for ground contact with a
    /// small downward velocity from the entity's projected position.
    #[verifier::loop_isolation(false)]
    pub fn resolve(
        aabbs: &Vec<Aabb>,
        collider: &Collider,
        pos: &Position,
        vel: &mut Velocity,
        is_on_ground: &mut OnGround,
        delta: u32,
    )
        requires
            forall|i: int|
                0 <= i < aabbs@.len() ==> (#[trigger] aabbs@[i]).wf() && aabbs@[i].within(
                    STATIC_BOX_LIMIT as int,
                ),
            vec_within(pos.0, ENTITY_POS_LIMIT as int),
            vec_within(old(vel).0, VEL_LIMIT as int),
            delta <= TICK_LIMIT,
            vec_within(collider.0, ENTITY_POS_LIMIT as int),
            forall|i: int| 0 <= i < 3 ==> #[trigger] axis(collider.0, i) >= 0,
        ensures
            ({
                let pairs = make_pairs(aabbs@, collider.0);
                let ebox = entity_box(pos.0, collider.0);
                &&& final(vel).0 == resolve_vel(pairs, pos.0, old(vel).0, delta, ebox, 4)
                &&& pass_spec(pairs, pos.0, final(vel).0, delta, ebox) is None
                &&& final(is_on_ground).0 == (pass_spec(
                    pairs,
                    moved_point(pos.0, final(vel).0, delta),
                    probe_velocity(),
                    delta,
                    ebox,
                ) is Some)
                &&& vec_within(final(vel).0, VEL_LIMIT as int)
            }),
    {
        let he = collider.0;
        proof {
            lemma_axes(he);
            lemma_axes(pos.0);
        }
        let ebox = Aabb { min: pos.0.sub(&he), max: pos.0.add(&he) };
        proof {
            assert(ebox == entity_box(pos.0, he));
            assert forall|i: int| 0 <= i < 3 implies #[trigger] axis(ebox.min, i) <= axis(
                ebox.max,
                i,
            ) && -(BOX_LIMIT as int) <= axis(ebox.min, i) <= BOX_LIMIT as int && -(BOX_LIMIT
                as int) <= axis(ebox.max, i) <= BOX_LIMIT as int && (axis(ebox.max, i) - axis(
                ebox.min,
                i,
            )) % 2 == 0 by {
                lemma_axes(ebox.min);
                lemma_axes(ebox.max);
                assert(axis(ebox.min, i) == axis(pos.0, i) - axis(he, i));
                assert(axis(ebox.max, i) == axis(pos.0, i) + axis(he, i));
            }
            assert(ebox.wf());
            assert(ebox.even_extents());
            assert(ebox.within(BOX_LIMIT as int));
        }

        let mut pairs: Vec<CandidatePair> = Vec::new();
        let n_boxes = aabbs.len();
        let mut i: usize = 0;
        while i < n_boxes
            invariant
                i <= n_boxes,
                n_boxes == aabbs@.len(),
                pairs@.len() == i,
                forall|k: int|
                    0 <= k < i ==> pairs@[k] == (CandidatePair {
                        aabb: aabbs@[k],
                        extended: extend_box(aabbs@[k], he),
                    }),
                forall|k: int| 0 <= k < i ==> pair_wf(#[trigger] pairs@[k]),
            decreases n_boxes - i,
        {
            let a = aabbs[i];
            proof {
                lemma_axes(a.min);
                lemma_axes(a.max);
                assert(a.wf() && a.within(STATIC_BOX_LIMIT as int));
            }
            let ext = a.extended_by(&he);
            proof {
                assert(ext == extend_box(a, he));
                assert forall|k: int| 0 <= k < 3 implies #[trigger] axis(ext.min, k) <= axis(
                    ext.max,
                    k,
                ) && -(BOX_LIMIT as int) <= axis(ext.min, k) <= BOX_LIMIT as int && -(BOX_LIMIT
                    as int) <= axis(ext.max, k) <= BOX_LIMIT as int by {
                    lemma_axes(ext.min);
                    lemma_axes(ext.max);
                    assert(axis(ext.min, k) == axis(a.min, k) - axis(he, k));
                    assert(axis(ext.max, k) == axis(a.max, k) + axis(he, k));
                }
                assert(pair_wf(CandidatePair { aabb: a, extended: ext }));
            }
            pairs.push(CandidatePair { aabb: a, extended: ext });
            i += 1;
        }
        proof {
            assert(pairs@ =~= make_pairs(aabbs@, he));
            assert(pairs_wf(pairs@));
        }

        let ghost pairs_s = pairs@;
        let ghost v0 = vel.0;
        let ghost mut fuel: nat = 4;

        let mut done = false;
        while !done
            invariant
                vec_within(vel.0, VEL_LIMIT as int),
                fuel >= 1 + nonzero_count(vel.0),
                resolve_vel(pairs_s, pos.0, v0, delta, ebox, 4) == resolve_vel(
                    pairs_s,
                    pos.0,
                    vel.0,
                    delta,
                    ebox,
                    fuel,
                ),
                done ==> vel.0 == resolve_vel(pairs_s, pos.0, v0, delta, ebox, 4) && pass_spec(
                    pairs_s,
                    pos.0,
                    vel.0,
                    delta,
                    ebox,
                ) is None,
            decreases fuel, (if done { 0int } else { 1int }),
        {
            let ghost v_before = vel.0;
            let hit = CollisionHandler::get_adjusted_vel(&pairs, pos, vel, delta, &ebox);
            if !hit {
                proof {
                    assert(resolve_vel(pairs_s, pos.0, v_before, delta, ebox, fuel) == v_before);
                }
                done = true;
            } else {
                proof {
                    assert(fuel >= 1);
                    assert(resolve_vel(pairs_s, pos.0, v_before, delta, ebox, fuel)
                        == resolve_vel(pairs_s, pos.0, vel.0, delta, ebox, (fuel - 1) as nat));
                    fuel = (fuel - 1) as nat;
                }
            }
        }

        // Ground contact: one probe with a small downward velocity from the
        // projected position.
        proof {
            lemma_axes(vel.0);
            lemma_mul_bound(vel.0.x as int, delta as int, VEL_LIMIT as int, TICK_LIMIT as int);
            lemma_mul_bound(vel.0.y as int, delta as int, VEL_LIMIT as int, TICK_LIMIT as int);
            lemma_mul_bound(vel.0.z as int, delta as int, VEL_LIMIT as int, TICK_LIMIT as int);
        }
        let disp = vel.0.scale_ticks(delta);
        let next = Position(pos.0.add(&disp));
        proof {
            assert(next.0 == moved_point(pos.0, vel.0, delta));
            assert forall|k: int|
                0 <= k < 3 implies -(POS_LIMIT as int) <= #[trigger] axis(next.0, k) <= POS_LIMIT
                as int by {
                lemma_axes(next.0);
                lemma_axes(disp);
            }
            assert(vec_within(probe_velocity(), VEL_LIMIT as int)) by {
                lemma_axes(probe_velocity());
            }
        }
        let mut test_vel = Velocity(Vec3 { x: 0, y: -1, z: 0 });
        let ground = CollisionHandler::get_adjusted_vel(&pairs, &next, &mut test_vel, delta, &ebox);
        is_on_ground.0 = ground;
    }

    /// Resolves one entity against the world and updates its velocity and
    /// ground-contact flag. The candidate set is the collision geometry of
    /// the chunk at the origin of the chunk lattice, which must be
    /// registered; a broad-phase choice of nearby chunks is outside this
    /// design's scope.
    pub fn run(
        world: &crate::world::World,
        collider: &Collider,
        pos: &Position,
        vel: &mut Velocity,
        is_on_ground: &mut OnGround,
        delta: u32,
    )
        requires
            world.wf(),
            crate::world::contains_pos(world.chunks_spec(), (ChunkPos { x: 0, y: 0, z: 0 })),
            vec_within(pos.0, ENTITY_POS_LIMIT as int),
            vec_within(old(vel).0, VEL_LIMIT as int),
            delta <= TICK_LIMIT,
            vec_within(collider.0, ENTITY_POS_LIMIT as int),
            forall|i: int| 0 <= i < 3 ==> #[trigger] axis(collider.0, i) >= 0,
        ensures
            ({
                let chunk = crate::world::chunk_at(
                    world.chunks_spec(),
                    (ChunkPos { x: 0, y: 0, z: 0 }),
                );
                let pairs = make_pairs(
                    crate::chunk::chunk_aabbs_upto(chunk.blocks_spec(), chunk.pos_spec(), 4096),
                    collider.0,
                );
                let ebox = entity_box(pos.0, collider.0);
                &&& final(vel).0 == resolve_vel(pairs, pos.0, old(vel).0, delta, ebox, 4)
                &&& pass_spec(pairs, pos.0, final(vel).0, delta, ebox) is None
                &&& final(is_on_ground).0 == (pass_spec(
                    pairs,
                    moved_point(pos.0, final(vel).0, delta),
                    probe_velocity(),
                    delta,
                    ebox,
                ) is Some)
                &&& vec_within(final(vel).0, VEL_LIMIT as int)
            }),
    {
        let origin = ChunkPos::new(0, 0, 0);
        let chunk = world.get_chunk(&origin).unwrap();
        let aabbs = chunk.aabbs_for_collision();
        CollisionHandler::resolve(&aabbs, collider, pos, vel, is_on_ground, delta);
    }
}

/// Law: an entity with zero velocity is never adjusted. No resolver pass
/// finds a hit, whatever the candidate set, since a ray of zero length
/// reaches no box it does not already stand in, and standing in a box is
/// grounds for skipping it; so the velocity comes back unchanged however
/// many passes run.
pub proof fn lemma_zero_velocity_unchanged(
    pairs: Seq<CandidatePair>,
    ep: Vec3,
    dt: u32,
    ebox: Aabb,
    fuel: nat,
)
    ensures
        pass_spec(pairs, ep, (Vec3 { x: 0i64, y: 0i64, z: 0i64 }), dt, ebox) is None,
        resolve_vel(pairs, ep, (Vec3 { x: 0i64, y: 0i64, z: 0i64 }), dt, ebox, fuel) == (Vec3 {
            x: 0i64,
            y: 0i64,
            z: 0i64,
        }),
{
    let zero = Vec3 { x: 0i64, y: 0i64, z: 0i64 };
    if has_winner(pairs, ep, zero, dt, ebox) {
        let (i, n, d) = choose|i: int, n: int, d: int|
            #[trigger] is_winner(pairs, ep, zero, dt, ebox, i, n, d);
        assert(hits_at(ep, zero, pairs[i].extended, n, d));
        assert forall|k: int|
            0 <= k < 3 implies axis(pairs[i].extended.min, k) <= #[trigger] axis(ep, k) <= axis(
            pairs[i].extended.max,
            k,
        ) by {
            assert(crate::ray::axis_ok(ep, zero, pairs[i].extended, n, d, k));
            lemma_slab_zero(ep, zero, pairs[i].extended, k, n, d);
        }
        assert(pairs[i].extended.contains_spec(ep));
        assert(false);
    }
}

/// Law: the wall-slide response against the normal of axis `j` removes the
/// velocity component along that axis and keeps the other two exactly.
pub proof fn lemma_wall_slide(v: Vec3, j: usize, negative: bool)
    requires
        j < 3,
    ensures
        axis(slide_spec(v, HitNormal::Axis { axis: j, negative }), j as int) == 0,
        forall|k: int|
            0 <= k < 3 && k != j ==> axis(slide_spec(v, HitNormal::Axis { axis: j, negative }), k)
                == axis(v, k),
{
}

/// Removes from `v` its component along the hit normal, keeping the
/// tangential components exactly.
pub fn apply_slide(v: &Vec3, nrm: HitNormal) -> (r: Vec3)
    ensures
        r == slide_spec(*v, nrm),
{
    match nrm {
        HitNormal::Axis { axis: j, negative } => {
            let _ = negative;
            Vec3 {
                x: if j == 0 {
                    0
                } else {
                    v.x
                },
                y: if j == 1 {
                    0
                } else {
                    v.y
                },
                z: if j == 2 {
                    0
                } else {
                    v.z
                },
            }
        },
        HitNormal::Diagonal => Vec3 { x: 0, y: 0, z: 0 },
    }
}

} // verus!
