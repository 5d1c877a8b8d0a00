//! Surface materials and the scattering law of each.

use vstd::prelude::*;
use rand::rngs::StdRng;
use crate::hittable::HitRecord;
use crate::ray::Ray;
use crate::sampling::draw_unit;
use crate::scalar::Scalar;
use crate::vec3::Vec3;

verus! {

#[derive(Copy, Clone, Debug)]
pub enum Material {
    /// A diffuse surface that tints by `albedo`.
    Lambertian { albedo: Vec3 },
    /// A mirror that tints by `albedo`, roughened by `fuzz`.
    Metal { albedo: Vec3, fuzz: Scalar },
    /// A clear refracting medium of refractive index `ref_idx`.
    Dielectric { ref_idx: Scalar },
}

impl Default for Material {
    /// A black diffuse surface.
    fn default() -> (r: Material)
        ensures
            r == (Material::Lambertian { albedo: Vec3::zero_spec() }),
    {
        Material::Lambertian { albedo: Vec3::zero() }
    }
}

/// Snell's law evaluated for a ray meeting the surface from one side: with
/// `dt` the cosine between the unit direction and the normal of that side,
/// `discriminant` is `1 - ratio^2 (1 - dt^2)`, `direction` the refracted
/// direction it gives, and `reflectance` Schlick's approximation for that
/// side's cosine.
#[derive(Copy, Clone, Debug)]
pub struct Refraction {
    pub discriminant: Scalar,
    pub direction: Vec3,
    pub reflectance: Scalar,
}

/// The numbers of one scattering event, evaluated for the material hit.
#[derive(Copy, Clone, Debug)]
pub enum Scattering {
    /// `direction`: the normal plus a random point of the unit ball.
    Lambertian { direction: Vec3 },
    /// `direction`: the mirrored unit direction plus the fuzz extent times
    /// a random point of the unit ball; `facing`: its dot product with the
    /// normal.
    Metal { direction: Vec3, facing: Scalar },
    /// `facing`: the dot product of the incoming direction with the
    /// normal; `reflected`: the mirrored incoming direction; `leaving` and
    /// `entering`: refraction out of the medium (against the flipped normal,
    /// ratio `ref_idx`) and into it (ratio `1 / ref_idx`).
    Dielectric { facing: Scalar, reflected: Vec3, leaving: Refraction, entering: Refraction },
}

impl Scattering {
    /// Whether these are the numbers that the material's law reads.
    pub open spec fn fits_spec(self, material: Material) -> bool {
        match material {
            Material::Lambertian { .. } => self is Lambertian,
            Material::Metal { .. } => self is Metal,
            Material::Dielectric { .. } => self is Dielectric,
        }
    }

    /// The side of a dielectric surface that the ray meets: it leaves the
    /// medium when it runs along the normal, and enters it otherwise.
    pub open spec fn side(self) -> Refraction
        recommends
            self is Dielectric,
    {
        if self->Dielectric_facing.gt_spec(Scalar::zero_spec()) {
            self->leaving
        } else {
            self->entering
        }
    }

    pub fn fits(&self, material: &Material) -> (r: bool)
        ensures
            r == self.fits_spec(*material),
    {
        match material {
            Material::Lambertian { .. } => matches!(self, Scattering::Lambertian { .. }),
            Material::Metal { .. } => matches!(self, Scattering::Metal { .. }),
            Material::Dielectric { .. } => matches!(self, Scattering::Dielectric { .. }),
        }
    }
}

/// The fuzz that a metal scatters with: `fuzz` kept to `[0, 1]`, and 1
/// where `fuzz` is no number.
pub open spec fn fuzz_extent_spec(fuzz: Scalar) -> Scalar {
    if fuzz.lt_spec(Scalar::one_spec()) {
        if fuzz.lt_spec(Scalar::zero_spec()) {
            Scalar::zero_spec()
        } else {
            fuzz
        }
    } else {
        Scalar::one_spec()
    }
}

#[verifier::when_used_as_spec(fuzz_extent_spec)]
pub fn fuzz_extent(fuzz: Scalar) -> (r: Scalar)
    ensures
        r == fuzz_extent_spec(fuzz),
        !r.is_nan_spec(),
        !r.lt_spec(Scalar::zero_spec()),
        !r.gt_spec(Scalar::one_spec()),
{
    if fuzz.lt(Scalar::one()) {
        if fuzz.lt(Scalar::zero()) {
            Scalar::zero()
        } else {
            fuzz
        }
    } else {
        Scalar::one()
    }
}

/// The refracted direction, which exists exactly when the discriminant is
/// positive; otherwise the surface reflects totally.
pub open spec fn refract_spec(attempt: Refraction) -> Option<Vec3> {
    if attempt.discriminant.gt_spec(Scalar::zero_spec()) {
        Some(attempt.direction)
    } else {
        None
    }
}

pub fn refract(attempt: &Refraction) -> (r: Option<Vec3>)
    ensures
        r == refract_spec(*attempt),
{
    if attempt.discriminant.gt(Scalar::zero()) {
        Some(attempt.direction)
    } else {
        None
    }
}


/// The probability with which a dielectric reflects: Schlick's reflectance
/// where refraction is possible, and 1 where it is not.
pub open spec fn reflect_prob(side: Refraction) -> Scalar {
    if refract_spec(side) is Some {
        side.reflectance
    } else {
        Scalar::one_spec()
    }
}

/// The attenuation and the scattered ray, or `None` where the surface
/// absorbs the ray, for a uniform `draw` from `[0, 1)`.
pub open spec fn scatter_spec(
    material: Material,
    rec: HitRecord,
    terms: Scattering,
    draw: Scalar,
) -> Option<(Vec3, Ray)> {
    match (material, terms) {
        (Material::Lambertian { albedo }, Scattering::Lambertian { direction }) => Some(
            (albedo, Ray { a: rec.p, b: direction }),
        ),
        (Material::Metal { albedo, fuzz }, Scattering::Metal { direction, facing }) => {
            if facing.gt_spec(Scalar::zero_spec()) {
                Some((albedo, Ray { a: rec.p, b: direction }))
            } else {
                None
            }
        },
        (
            Material::Dielectric { ref_idx },
            Scattering::Dielectric { facing, reflected, leaving, entering },
        ) => {
            let side = terms.side();
            if draw.lt_spec(reflect_prob(side)) {
                Some((Vec3::ones_spec(), Ray { a: rec.p, b: reflected }))
            } else {
                match refract_spec(side) {
                    Some(refracted) => Some((Vec3::ones_spec(), Ray { a: rec.p, b: refracted })),
                    None => Some((Vec3::ones_spec(), Ray { a: rec.p, b: Vec3::zero_spec() })),
                }
            }
        },
        _ => None,
    }
}

/// Scatters with a given draw from the random source.
pub fn scatter_drawn(material: &Material, rec: &HitRecord, terms: &Scattering, draw: Scalar) -> (r:
    Option<(Vec3, Ray)>)
    requires
        terms.fits_spec(*material),
    ensures
        r == scatter_spec(*material, *rec, *terms, draw),
        material is Lambertian ==> r is Some && r->Some_0.0 == material->Lambertian_albedo,
        material is Metal && !terms->Metal_facing.gt_spec(Scalar::zero_spec()) ==> r is None,
        material is Dielectric ==> r is Some && r->Some_0.0 == Vec3::ones_spec(),
        r is Some ==> r->Some_0.1.a == rec.p,
{
    match (material, terms) {
        (Material::Lambertian { albedo }, Scattering::Lambertian { direction }) => Some(
            (*albedo, Ray::new(rec.p, *direction)),
        ),
        (Material::Metal { albedo, fuzz }, Scattering::Metal { direction, facing }) => {
            if facing.gt(Scalar::zero()) {
                Some((*albedo, Ray::new(rec.p, *direction)))
            } else {
                None
            }
        },
        (
            Material::Dielectric { ref_idx },
            Scattering::Dielectric { facing, reflected, leaving, entering },
        ) => {
            let side = if facing.gt(Scalar::zero()) {
                leaving
            } else {
                entering
            };
            let mut refracted = Vec3::zero();
            let mut prob = Scalar::one();
            if let Some(direction) = refract(side) {
                refracted = direction;
                prob = side.reflectance;
            }
            if draw.lt(prob) {
                Some((Vec3::ones(), Ray::new(rec.p, *reflected)))
            } else {
                Some((Vec3::ones(), Ray::new(rec.p, refracted)))
            }
        },
        _ => None,
    }
}

/// Scatters the ray that made the hit `rec`. A dielectric takes one draw
/// from `rng` to choose between reflection and refraction; the other
/// materials leave `rng` alone.
pub fn scatter(material: &Material, rec: &HitRecord, terms: &Scattering, rng: &mut StdRng) -> (r:
    Option<(Vec3, Ray)>)
    requires
        terms.fits_spec(*material),
    ensures
        exists|draw: Scalar| draw.is_unit() && r == scatter_spec(*material, *rec, *terms, draw),
        !(material is Dielectric) ==> forall|draw: Scalar|
            r == scatter_spec(*material, *rec, *terms, draw),
        material is Lambertian ==> r is Some && r->Some_0.0 == material->Lambertian_albedo,
        material is Metal && !terms->Metal_facing.gt_spec(Scalar::zero_spec()) ==> r is None,
        material is Dielectric ==> r is Some && r->Some_0.0 == Vec3::ones_spec(),
        material is Dielectric && refract_spec(terms.side()) is None ==> r is Some && r->Some_0.1
            == (Ray { a: rec.p, b: terms->reflected }),
        r is Some ==> r->Some_0.1.a == rec.p,
{
    match material {
        Material::Dielectric { .. } => {
            let draw = draw_unit(rng);
            let r = scatter_drawn(material, rec, terms, draw);
            assert(draw.is_unit() && r == scatter_spec(*material, *rec, *terms, draw));
            r
        },
        _ => {
            let r = scatter_drawn(material, rec, terms, Scalar::zero());
            assert(Scalar::zero_spec().is_unit() && r == scatter_spec(
                *material,
                *rec,
                *terms,
                Scalar::zero_spec(),
            ));
            r
        },
    }
}

} // verus!
