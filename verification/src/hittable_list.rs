//! The scene: a list of spheres, searched for the nearest hit.

use vstd::prelude::*;
use crate::hittable::within;
use crate::hittable::HitRecord;
use crate::hittable::Roots;
use crate::scalar::Scalar;
use crate::sphere::Sphere;

verus! {

/// The spheres of a scene, in the order in which they are searched.
#[derive(Debug)]
pub struct HittableList {
    pub list: Vec<Sphere>,
}

/// The bound that a search works under once it holds `best`: the parameter
/// of that hit, and `t_max` while there is none.
pub open spec fn bound_after(best: Option<HitRecord>, t_max: Scalar) -> Scalar {
    match best {
        Some(h) => h.t,
        None => t_max,
    }
}

/// The hit that a search through `spheres` in order reports: each sphere
/// is tried under the bound left by those before it, and replaces their
/// hit when it is hit itself.
pub open spec fn closest(spheres: Seq<Sphere>, roots: Seq<Roots>, t_min: Scalar, t_max: Scalar)
    -> Option<HitRecord>
    recommends
        roots.len() == spheres.len(),
    decreases spheres.len(),
{
    if spheres.len() == 0 {
        None
    } else {
        let before = closest(spheres.drop_last(), roots.drop_last(), t_min, t_max);
        match spheres.last().hit_spec(roots.last(), t_min, bound_after(before, t_max)) {
            Some(h) => Some(h),
            None => before,
        }
    }
}

/// The hit of sphere `i` when it is tried alone.
pub open spec fn alone(
    spheres: Seq<Sphere>,
    roots: Seq<Roots>,
    t_min: Scalar,
    t_max: Scalar,
    i: int,
) -> Option<HitRecord> {
    spheres[i].hit_spec(roots[i], t_min, t_max)
}

/// `h` is the hit of sphere `k` alone, strictly nearer than the hit of
/// every sphere before `k` and no farther than the hit of any sphere
/// after it.
pub open spec fn first_nearest(
    spheres: Seq<Sphere>,
    roots: Seq<Roots>,
    t_min: Scalar,
    t_max: Scalar,
    k: int,
    h: HitRecord,
) -> bool {
    &&& 0 <= k < spheres.len()
    &&& alone(spheres, roots, t_min, t_max, k) == Some(h)
    &&& forall|i: int|
        0 <= i < k ==> (#[trigger] alone(spheres, roots, t_min, t_max, i) matches Some(g)
            ==> h.t.lt_spec(g.t))
    &&& forall|i: int|
        k < i < spheres.len() ==> (#[trigger] alone(spheres, roots, t_min, t_max, i) matches Some(
            g,
        ) ==> !g.t.lt_spec(h.t))
}

/// Every pair of roots comes in increasing order.
pub open spec fn all_ordered(roots: Seq<Roots>) -> bool {
    forall|i: int| 0 <= i < roots.len() ==> (#[trigger] roots[i]).ordered()
}

impl HittableList {
    pub open spec fn view(&self) -> Seq<Sphere> {
        self.list@
    }

    pub fn new(list: Vec<Sphere>) -> (r: HittableList)
        ensures
            r@ == list@,
    {
        HittableList { list }
    }

    pub fn len(&self) -> (r: usize)
        ensures
            r == self@.len(),
    {
        self.list.len()
    }

    /// The sphere at place `i` of the search order.
    pub fn sphere(&self, i: usize) -> (r: &Sphere)
        requires
            i < self@.len(),
        ensures
            *r == self@[i as int],
    {
        &self.list[i]
    }

    /// Searches the scene for the nearest hit within `(t_min, t_max)`,
    /// where `roots[i]` holds the crossings of the ray with sphere `i`.
    /// No sphere is hit nearer than the reported hit; none is reported
    /// exactly when every sphere alone is missed.
    pub fn hit(&self, roots: &Vec<Roots>, t_min: Scalar, t_max: Scalar) -> (r: Option<HitRecord>)
        requires
            roots@.len() == self@.len(),
        ensures
            r == closest(self@, roots@, t_min, t_max),
            r is None <==> forall|i: int|
                0 <= i < self@.len() ==> #[trigger] alone(self@, roots@, t_min, t_max, i) is None,
            r is Some ==> within(r->Some_0.t, t_min, t_max),
            r is Some ==> forall|i: int|
                0 <= i < self@.len() ==> (#[trigger] alone(self@, roots@, t_min, t_max, i)
                    matches Some(g) ==> !g.t.lt_spec(r->Some_0.t)),
            r is Some && all_ordered(roots@) ==> exists|k: int|
                first_nearest(self@, roots@, t_min, t_max, k, r->Some_0),
    {
        let mut best: Option<HitRecord> = None;
        let mut closest_so_far = t_max;
        let n: usize = self.list.len();
        let mut i: usize = 0;
        while i < n
            invariant
                i <= n,
                n == self@.len(),
                n == roots@.len(),
                best == closest(self@.take(i as int), roots@.take(i as int), t_min, t_max),
                closest_so_far == bound_after(best, t_max),
            decreases n - i,
        {
            proof {
                assert(self@.take(i + 1).drop_last() =~= self@.take(i as int));
                assert(roots@.take(i + 1).drop_last() =~= roots@.take(i as int));
            }
            if let Some(h) = self.list[i].hit(&roots[i], t_min, closest_so_far) {
                closest_so_far = h.t;
                best = Some(h);
            }
            i = i + 1;
        }
        proof {
            assert(self@.take(n as int) =~= self@);
            assert(roots@.take(n as int) =~= roots@);
            lemma_closest_is_nearest(self@, roots@, t_min, t_max);
            if best is Some && all_ordered(roots@) {
                let k = lemma_closest_is_first_nearest(self@, roots@, t_min, t_max);
                assert(first_nearest(self@, roots@, t_min, t_max, k, best->Some_0));
            }
        }
        best
    }
}

/// A search reports no hit exactly when every sphere alone is missed, and
/// otherwise a hit inside the interval than which no sphere alone is hit
/// nearer.
pub proof fn lemma_closest_is_nearest(
    spheres: Seq<Sphere>,
    roots: Seq<Roots>,
    t_min: Scalar,
    t_max: Scalar,
)
    requires
        roots.len() == spheres.len(),
    ensures
        closest(spheres, roots, t_min, t_max) is None <==> forall|i: int|
            0 <= i < spheres.len() ==> #[trigger] alone(spheres, roots, t_min, t_max, i) is None,
        closest(spheres, roots, t_min, t_max) matches Some(h) ==> within(h.t, t_min, t_max)
            && forall|i: int|
            0 <= i < spheres.len() ==> (#[trigger] alone(spheres, roots, t_min, t_max, i)
                matches Some(g) ==> !g.t.lt_spec(h.t)),
    decreases spheres.len(),
{
    if spheres.len() > 0 {
        let front = spheres.drop_last();
        let front_roots = roots.drop_last();
        let last = spheres.len() - 1;
        lemma_closest_is_nearest(front, front_roots, t_min, t_max);
        assert forall|i: int| 0 <= i < last implies alone(front, front_roots, t_min, t_max, i)
            == alone(spheres, roots, t_min, t_max, i) by {}
        let before = closest(front, front_roots, t_min, t_max);
        let found = closest(spheres, roots, t_min, t_max);
        assert(alone(spheres, roots, t_min, t_max, last) == spheres.last().hit_spec(
            roots.last(),
            t_min,
            t_max,
        ));
        if found is None {
            assert forall|i: int| 0 <= i < spheres.len() implies #[trigger] alone(
                spheres,
                roots,
                t_min,
                t_max,
                i,
            ) is None by {
                if i < last {
                    assert(alone(front, front_roots, t_min, t_max, i) is None);
                }
            }
        } else {
            let h = found->Some_0;
            assert forall|i: int| 0 <= i < spheres.len() implies (#[trigger] alone(
                spheres,
                roots,
                t_min,
                t_max,
                i,
            ) matches Some(g) ==> !g.t.lt_spec(h.t)) by {
                if i < last {
                    assert(alone(front, front_roots, t_min, t_max, i) == alone(
                        spheres,
                        roots,
                        t_min,
                        t_max,
                        i,
                    ));
                }
            }
            assert(alone(spheres, roots, t_min, t_max, last) is Some || before is Some);
        }
    }
}

/// Where every pair of roots comes in increasing order, the reported hit
/// is the hit of one sphere alone: of the first, in search order, among
/// those hit nearest. The place of that sphere is returned.
pub proof fn lemma_closest_is_first_nearest(
    spheres: Seq<Sphere>,
    roots: Seq<Roots>,
    t_min: Scalar,
    t_max: Scalar,
) -> (k: int)
    requires
        roots.len() == spheres.len(),
        all_ordered(roots),
        closest(spheres, roots, t_min, t_max) is Some,
    ensures
        first_nearest(spheres, roots, t_min, t_max, k, closest(spheres, roots, t_min, t_max)->Some_0),
    decreases spheres.len(),
{
    let front = spheres.drop_last();
    let front_roots = roots.drop_last();
    let last = spheres.len() - 1;
    let before = closest(front, front_roots, t_min, t_max);
    let h = closest(spheres, roots, t_min, t_max)->Some_0;
    lemma_closest_is_nearest(front, front_roots, t_min, t_max);
    lemma_closest_is_nearest(spheres, roots, t_min, t_max);
    assert forall|i: int| 0 <= i < last implies alone(front, front_roots, t_min, t_max, i) == alone(
        spheres,
        roots,
        t_min,
        t_max,
        i,
    ) by {}
    assert(roots.last().ordered());
    if spheres.last().hit_spec(roots.last(), t_min, bound_after(before, t_max)) is Some {
        assert(alone(spheres, roots, t_min, t_max, last) == Some(h));
        assert forall|i: int| 0 <= i < last implies (#[trigger] alone(
            spheres,
            roots,
            t_min,
            t_max,
            i,
        ) matches Some(g) ==> h.t.lt_spec(g.t)) by {
            assert(alone(front, front_roots, t_min, t_max, i) == alone(
                spheres,
                roots,
                t_min,
                t_max,
                i,
            ));
        }
        last
    } else {
        assert(all_ordered(front_roots)) by {
            assert forall|i: int| 0 <= i < front_roots.len() implies (
            #[trigger] front_roots[i]).ordered() by {
                assert(roots[i].ordered());
            }
        }
        let k = lemma_closest_is_first_nearest(front, front_roots, t_min, t_max);
        assert(alone(front, front_roots, t_min, t_max, k) == alone(spheres, roots, t_min, t_max, k));
        assert forall|i: int| 0 <= i < k implies (#[trigger] alone(spheres, roots, t_min, t_max, i)
            matches Some(g) ==> h.t.lt_spec(g.t)) by {
            assert(alone(front, front_roots, t_min, t_max, i) == alone(
                spheres,
                roots,
                t_min,
                t_max,
                i,
            ));
        }
        k
    }
}

/// Sphere `i` of a scene together with its roots.
pub open spec fn entry(spheres: Seq<Sphere>, roots: Seq<Roots>, i: int) -> (Sphere, Roots) {
    (spheres[i], roots[i])
}

/// Whether a sphere with these roots stands somewhere in the scene.
pub open spec fn occurs(spheres: Seq<Sphere>, roots: Seq<Roots>, e: (Sphere, Roots)) -> bool {
    exists|j: int| 0 <= j < spheres.len() && #[trigger] entry(spheres, roots, j) == e
}

/// Whether every sphere of the first scene stands, with its roots, in the
/// second.
pub open spec fn included(
    spheres: Seq<Sphere>,
    roots: Seq<Roots>,
    others: Seq<Sphere>,
    other_roots: Seq<Roots>,
) -> bool {
    forall|i: int|
        0 <= i < spheres.len() ==> occurs(others, other_roots, #[trigger] entry(spheres, roots, i))
}

/// No two spheres of the scene are hit equally near.
pub open spec fn no_ties(spheres: Seq<Sphere>, roots: Seq<Roots>, t_min: Scalar, t_max: Scalar)
    -> bool {
    forall|i: int, j: int|
        0 <= i < j < spheres.len() ==> (#[trigger] alone(spheres, roots, t_min, t_max, i)
            matches Some(g) ==> (#[trigger] alone(spheres, roots, t_min, t_max, j) matches Some(h)
            ==> g.t.lt_spec(h.t) || h.t.lt_spec(g.t)))
}

/// The order of the spheres does not matter: two scenes of the same
/// spheres give the same hit, unless two spheres are hit equally near.
pub proof fn lemma_order_does_not_matter(
    spheres: Seq<Sphere>,
    roots: Seq<Roots>,
    others: Seq<Sphere>,
    other_roots: Seq<Roots>,
    t_min: Scalar,
    t_max: Scalar,
)
    requires
        roots.len() == spheres.len(),
        other_roots.len() == others.len(),
        all_ordered(roots),
        all_ordered(other_roots),
        included(spheres, roots, others, other_roots),
        included(others, other_roots, spheres, roots),
        no_ties(spheres, roots, t_min, t_max),
    ensures
        closest(others, other_roots, t_min, t_max) == closest(spheres, roots, t_min, t_max),
{
    let here = closest(spheres, roots, t_min, t_max);
    let there = closest(others, other_roots, t_min, t_max);
    lemma_closest_is_nearest(spheres, roots, t_min, t_max);
    lemma_closest_is_nearest(others, other_roots, t_min, t_max);
    if there is Some {
        let k2 = lemma_closest_is_first_nearest(others, other_roots, t_min, t_max);
        let e2 = entry(others, other_roots, k2);
        assert(occurs(spheres, roots, e2));
        let i = choose|i: int| 0 <= i < spheres.len() && #[trigger] entry(spheres, roots, i) == e2;
        assert(alone(spheres, roots, t_min, t_max, i) == alone(others, other_roots, t_min, t_max, k2));
        assert(here is Some);
        let k = lemma_closest_is_first_nearest(spheres, roots, t_min, t_max);
        let e = entry(spheres, roots, k);
        assert(occurs(others, other_roots, e));
        let j = choose|j: int| 0 <= j < others.len() && #[trigger] entry(others, other_roots, j) == e;
        assert(alone(others, other_roots, t_min, t_max, j) == alone(spheres, roots, t_min, t_max, k));
        if i != k {
            let g = alone(spheres, roots, t_min, t_max, i)->Some_0;
            let h = alone(spheres, roots, t_min, t_max, k)->Some_0;
            assert(g.t.lt_spec(h.t) || h.t.lt_spec(g.t));
            assert(!g.t.lt_spec(h.t));
            assert(!h.t.lt_spec(g.t));
        }
    } else {
        if here is Some {
            let k = lemma_closest_is_first_nearest(spheres, roots, t_min, t_max);
            let e = entry(spheres, roots, k);
            assert(occurs(others, other_roots, e));
            let j = choose|j: int| 0 <= j < others.len() && #[trigger] entry(others, other_roots, j) == e;
            assert(alone(others, other_roots, t_min, t_max, j) == alone(spheres, roots, t_min, t_max, k));
        }
    }
}

} // verus!
