use vstd::prelude::*;
use crate::geometry::{
    COORD_LIMIT, IntVec, Ray, Vector3, lemma_unit_axis, lemma_unit_projection, vdot, vsub,
};
use crate::math::{
    isqrt, lemma_mul_bound, lemma_sqrt_floor_exists, lemma_sqrt_floor_unique, sqrt_floor,
};

verus! {

/// An analytic sphere: a center and a strictly positive radius.
#[derive(Clone, Copy, PartialEq, Eq, Structural, Debug)]
pub struct Sphere {
    pub center: Vector3,
    pub radius: i64,
}

impl Sphere {
    /// The center is bounded and the radius is positive and bounded.
    pub open spec fn wf(self) -> bool {
        self.center.wf() && 0 < self.radius <= COORD_LIMIT
    }

    /// Signed projection of the origin-to-center vector onto the ray
    /// direction: the ray parameter of the point of the ray's line nearest
    /// the center.
    pub open spec fn proj_model(self, origin: IntVec, dir: IntVec) -> int {
        vdot(vsub(self.center@, origin), dir)
    }

    /// Squared distance from the center to the ray's infinite line.
    pub open spec fn perp_sq_model(self, origin: IntVec, dir: IntVec) -> int {
        let l = vsub(self.center@, origin);
        vdot(l, l) - self.proj_model(origin, dir) * self.proj_model(origin, dir)
    }

    /// A ray from `origin` along `dir` hits the sphere: the center does not
    /// lie behind the origin, and the ray's line passes within `radius` of
    /// the center. The boundary is inclusive, so a tangent ray hits.
    pub open spec fn hit_model(self, origin: IntVec, dir: IntVec) -> bool {
        &&& self.proj_model(origin, dir) >= 0
        &&& self.perp_sq_model(origin, dir) <= (self.radius as int) * (self.radius as int)
    }

    /// The ray parameter reported for a hit: the near intersection, with the
    /// half-chord length rounded down to an integer.
    pub open spec fn hit_distance_model(self, origin: IntVec, dir: IntVec) -> int {
        self.proj_model(origin, dir) - sqrt_floor(
            (self.radius as int) * (self.radius as int) - self.perp_sq_model(origin, dir),
        )
    }

    /// Returns the ray parameter at which the ray first touches or enters
    /// the sphere, or `None` when it misses.
    ///
    /// A sphere whose center lies behind the ray origin (negative
    /// projection) is reported as a miss outright, and a tangent ray
    /// (perpendicular distance exactly `radius`) as a hit. The returned
    /// parameter may be negative when the origin lies inside the sphere.
    pub fn intersect(&self, ray: &Ray) -> (r: Option<i64>)
        requires
            self.wf(),
            ray.wf(),
        ensures
            r is Some <==> self.hit_model(ray.origin@, ray.direction@),
            r matches Some(t) ==> t == self.hit_distance_model(ray.origin@, ray.direction@),
    {
        // distance vector between the center of the sphere and the ray origin
        let center_dir = self.center.sub(&ray.origin);
        proof {
            lemma_unit_axis(ray.direction@);
            lemma_unit_projection(center_dir@, ray.direction@, 2 * COORD_LIMIT as int);
        }

        // project the distance vector onto the ray direction
        let ray_to_center = center_dir.dot(&ray.direction);

        // a negative projection means the center lies behind the ray origin
        if ray_to_center < 0 {
            return None;
        }

        // squared distance between the ray's line and the center
        proof {
            lemma_mul_bound(ray_to_center as int, ray_to_center as int, 0x4000_0000);
        }
        let proj_dist2 = center_dir.dot(&center_dir) - ray_to_center * ray_to_center;
        proof {
            lemma_mul_bound(self.radius as int, self.radius as int, COORD_LIMIT as int);
        }
        let radius2 = self.radius * self.radius;

        // the line passes farther from the center than the radius: a miss
        if proj_dist2 > radius2 {
            return None;
        }

        // half the chord the line cuts out of the sphere, rounded down
        let diff = radius2 - proj_dist2;
        proof {
            lemma_sqrt_floor_exists(diff as int);
        }
        let half_chord_u = isqrt(diff as u64);
        proof {
            assert(half_chord_u as int <= 0x8000_0000) by (nonlinear_arith)
                requires
                    (half_chord_u as int) * (half_chord_u as int) <= diff as int,
                    half_chord_u as int >= 0,
                    (diff as int) < 0x4000_0000_0000_0000;
            lemma_sqrt_floor_unique(diff as int, half_chord_u as int, sqrt_floor(diff as int));
        }
        let penetration_halfway = half_chord_u as i64;

        // the ray enters at `hit_in` and leaves at `hit_out`
        let hit_in = ray_to_center - penetration_halfway;
        let hit_out = ray_to_center + penetration_halfway;

        // a sphere entirely behind the origin would put both parameters
        // below zero; with a non-negative projection this cannot happen
        if hit_in < 0 && hit_out < 0 {
            return None;
        }

        // return the closest intersection
        Some(if hit_in < hit_out { hit_in } else { hit_out })
    }
}

} // verus!
