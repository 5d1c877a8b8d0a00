//! The path integrator's decisions: what becomes of a ray after the scene
//! has been searched along it, and after its surface has scattered it.

use vstd::prelude::*;
use rand::rngs::StdRng;
use crate::hittable::within;
use crate::hittable::HitRecord;
use crate::hittable::Roots;
use crate::hittable_list::alone;
use crate::hittable_list::closest;
use crate::hittable_list::HittableList;
use crate::material::scatter;
use crate::material::scatter_spec;
use crate::material::Scattering;
use crate::ray::Ray;
use crate::scalar::lemma_infinities_bound;
use crate::scalar::Scalar;
use crate::vec3::Vec3;

verus! {

/// The number of bounces after which a path carries no more light.
pub const MAX_DEPTH: i32 = 50;

/// The encoding of 0.001, the least ray parameter at which a hit counts:
/// a ray must not hit again the surface that it just left.
pub const T_MIN: u32 = 0x3a83_126f;

/// The encoding of positive infinity, the bound of an open search: every
/// finite ray parameter lies below it.
pub const T_MAX: u32 = 0x7f80_0000;

/// What becomes of a ray once the scene has been searched along it.
#[derive(Clone, Copy, Debug)]
pub enum Arrival {
    /// Nothing was hit: the ray takes the colour of the sky in its direction.
    Sky,
    /// The path settles with this colour.
    Settled(Vec3),
    /// The surface hit is asked to scatter the ray.
    Surface(HitRecord),
}

/// What becomes of a ray once the surface has been asked to scatter it.
#[derive(Clone, Copy, Debug)]
pub enum Departure {
    /// The path settles with this colour.
    Settled(Vec3),
    /// The path goes on along `ray` at `depth`, and what it gathers there
    /// is multiplied channel by channel with `attenuation`.
    Onward { attenuation: Vec3, ray: Ray, depth: i32 },
}

/// A miss shows the sky; a hit is scattered while the path is shallower
/// than `MAX_DEPTH`, and black from then on.
pub open spec fn arrive_spec(hit: Option<HitRecord>, depth: int) -> Arrival {
    match hit {
        None => Arrival::Sky,
        Some(rec) => if depth < MAX_DEPTH {
            Arrival::Surface(rec)
        } else {
            Arrival::Settled(Vec3::zero_spec())
        },
    }
}

/// An absorbed ray is black; a scattered one goes on, one bounce deeper.
pub open spec fn depart_spec(scattered: Option<(Vec3, Ray)>, depth: int) -> Departure {
    match scattered {
        None => Departure::Settled(Vec3::zero_spec()),
        Some(s) => Departure::Onward { attenuation: s.0, ray: s.1, depth: (depth + 1) as i32 },
    }
}

/// Decides what becomes of a ray at `depth`, given what the search of the
/// scene along it found.
pub fn arrive(hit: Option<HitRecord>, depth: i32) -> (r: Arrival)
    ensures
        r == arrive_spec(hit, depth as int),
        hit is None ==> r is Sky,
        hit is Some && depth >= MAX_DEPTH ==> r == Arrival::Settled(Vec3::zero_spec()),
        r is Surface ==> depth < MAX_DEPTH && hit == Some(r->Surface_0),
{
    match hit {
        None => Arrival::Sky,
        Some(rec) => if depth < MAX_DEPTH {
            Arrival::Surface(rec)
        } else {
            Arrival::Settled(Vec3::zero())
        },
    }
}

/// Scatters the ray that made the hit `rec` and decides what becomes of
/// it: black where the surface absorbs it, and otherwise onward, one
/// bounce deeper.
pub fn depart(rec: &HitRecord, terms: &Scattering, depth: i32, rng: &mut StdRng) -> (r: Departure)
    requires
        terms.fits_spec(rec.material),
        depth < MAX_DEPTH,
    ensures
        exists|draw: Scalar|
            draw.is_unit() && r == depart_spec(
                scatter_spec(rec.material, *rec, *terms, draw),
                depth as int,
            ),
        !(rec.material is Dielectric) ==> forall|draw: Scalar|
            r == depart_spec(scatter_spec(rec.material, *rec, *terms, draw), depth as int),
        r is Onward ==> r->depth == depth + 1 && r->depth <= MAX_DEPTH && r->ray.a == rec.p,
{
    let scattered = scatter(&rec.material, rec, terms, rng);
    proof {
        let draw = choose|draw: Scalar|
            draw.is_unit() && scattered == scatter_spec(rec.material, *rec, *terms, draw);
        assert(draw.is_unit() && depart_spec(scattered, depth as int) == depart_spec(
            scatter_spec(rec.material, *rec, *terms, draw),
            depth as int,
        ));
    }
    match scattered {
        None => Departure::Settled(Vec3::zero()),
        Some(s) => Departure::Onward { attenuation: s.0, ray: s.1, depth: depth + 1 },
    }
}

/// Searches the scene along a ray, from just off its origin outwards
/// without end, and decides what becomes of the ray at `depth`: the sky
/// where no sphere is hit, black where one is hit at `MAX_DEPTH` or
/// deeper, and otherwise the nearest hit, to be scattered.
pub fn trace(world: &HittableList, roots: &Vec<Roots>, depth: i32) -> (r: Arrival)
    requires
        roots@.len() == world@.len(),
    ensures
        r == arrive_spec(
            closest(world@, roots@, Scalar::encoded(T_MIN), Scalar::encoded(T_MAX)),
            depth as int,
        ),
        world@.len() == 0 ==> r is Sky,
        r is Sky <==> forall|i: int|
            0 <= i < world@.len() ==> #[trigger] alone(
                world@,
                roots@,
                Scalar::encoded(T_MIN),
                Scalar::encoded(T_MAX),
                i,
            ) is None,
        depth >= MAX_DEPTH && !(r is Sky) ==> r == Arrival::Settled(Vec3::zero_spec()),
        r is Surface ==> depth < MAX_DEPTH && in_reach(r->Surface_0.t),
        r is Surface ==> forall|i: int|
            0 <= i < world@.len() ==> (#[trigger] alone(
                world@,
                roots@,
                Scalar::encoded(T_MIN),
                Scalar::encoded(T_MAX),
                i,
            ) matches Some(g) ==> !g.t.lt_spec(r->Surface_0.t)),
{
    let hit = world.hit(roots, Scalar::from_bits(T_MIN), Scalar::from_bits(T_MAX));
    arrive(hit, depth)
}

/// Whether a hit at parameter `t` counts in a search along a ray.
pub open spec fn in_reach(t: Scalar) -> bool {
    within(t, Scalar::encoded(T_MIN), Scalar::encoded(T_MAX))
}

/// A search along a ray is open ahead: every finite parameter above
/// `T_MIN` is in reach, and nothing else is.
pub proof fn lemma_search_is_open_ahead(t: Scalar)
    ensures
        in_reach(t) <==> t.is_finite() && t.gt_spec(Scalar::encoded(T_MIN)),
{
    if t.is_finite() {
        lemma_infinities_bound(t);
    }
}

/// The bounces that a path at `depth` may still take.
pub open spec fn bounces_left(depth: int) -> nat {
    if depth < MAX_DEPTH {
        (MAX_DEPTH - depth) as nat
    } else {
        0
    }
}

/// Every bounce uses up one of the bounces left: a ray is scattered only
/// while some are left, and goes on with one fewer. So a path that starts
/// at depth 0 settles within `MAX_DEPTH` bounces, whatever it hits.
pub proof fn lemma_bounce_uses_one_up(
    hit: Option<HitRecord>,
    scattered: Option<(Vec3, Ray)>,
    depth: int,
)
    requires
        i32::MIN <= depth <= i32::MAX,
        arrive_spec(hit, depth) is Surface,
        depart_spec(scattered, depth) is Onward,
    ensures
        bounces_left(depth) > 0,
        bounces_left(depart_spec(scattered, depth)->depth as int) == bounces_left(depth) - 1,
{
}

/// In a scene without spheres every ray shows the sky, at any depth.
pub proof fn lemma_empty_scene_shows_sky(t_min: Scalar, t_max: Scalar, depth: int)
    ensures
        arrive_spec(closest(Seq::empty(), Seq::empty(), t_min, t_max), depth) is Sky,
{
}

} // verus!
