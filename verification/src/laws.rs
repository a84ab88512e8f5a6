use vstd::prelude::*;
use crate::canvas::Canvas;
use crate::geometry::{IntVec, vdot, vsub};
use crate::math::{lemma_sqrt_floor_exists, sqrt_floor};
use crate::render::{camera_dir, pixel_ray_origin, scene_hits};
use crate::scene::{Renderable, Scene};
use crate::sphere::Sphere;

verus! {

/// The silhouette law: for a sphere whose center lies in the canvas plane
/// (`z == 0`), the orthographic camera ray of pixel `(x, y)` hits it exactly
/// when `(x - cx)^2 + (y - cy)^2 <= r^2`. Together with
/// [`crate::render::Raytracer::render`]'s contract, the set of painted
/// pixels is exactly the disk of the sphere's silhouette.
pub proof fn lemma_sphere_silhouette(s: Sphere, x: int, y: int)
    requires
        s.wf(),
        s.center@.z == 0,
    ensures
        s.hit_model(pixel_ray_origin(x, y), camera_dir()) <==> (x - s.center@.x) * (x
            - s.center@.x) + (y - s.center@.y) * (y - s.center@.y) <= (s.radius as int) * (
        s.radius as int),
{
    let o = pixel_ray_origin(x, y);
    let d = camera_dir();
    let l = vsub(s.center@, o);
    assert(l.z == 0);
    assert(vdot(l, d) == 0);
    assert(vdot(l, l) == l.x * l.x + l.y * l.y);
    assert(l.x * l.x == (x - s.center@.x) * (x - s.center@.x)) by (nonlinear_arith)
        requires l.x == s.center@.x - x;
    assert(l.y * l.y == (y - s.center@.y) * (y - s.center@.y)) by (nonlinear_arith)
        requires l.y == s.center@.y - y;
}

/// The silhouette law lifted to a scene holding one sphere centered in the
/// canvas plane: the scene is hit at pixel `(x, y)` exactly on the disk
/// `(x - cx)^2 + (y - cy)^2 <= r^2`.
pub proof fn lemma_scene_silhouette(scene: Scene, s: Sphere, x: int, y: int)
    requires
        scene.renderables@.len() == 1,
        scene.renderables@[0] == Renderable::Sphere(s),
        s.wf(),
        s.center@.z == 0,
    ensures
        scene_hits(scene, x, y) <==> (x - s.center@.x) * (x - s.center@.x) + (y - s.center@.y) * (
        y - s.center@.y) <= (s.radius as int) * (s.radius as int),
{
    lemma_sphere_silhouette(s, x, y);
    if s.hit_model(pixel_ray_origin(x, y), camera_dir()) {
        assert((scene.renderables@[0]).hit_model(pixel_ray_origin(x, y), camera_dir()));
    }
}

/// Tangent rays hit: a ray whose line passes at squared distance exactly
/// `radius^2` from the center is classified as a hit — the boundary
/// comparison is inclusive — provided the center does not lie behind the
/// ray origin (a negative projection is an outright miss, tangent or not).
pub proof fn lemma_tangent_hits(s: Sphere, origin: IntVec, dir: IntVec)
    requires
        s.proj_model(origin, dir) >= 0,
        s.perp_sq_model(origin, dir) == (s.radius as int) * (s.radius as int),
    ensures
        s.hit_model(origin, dir),
{
}

/// Wide rays miss: a ray whose line passes farther than `radius` from the
/// center reports no intersection.
pub proof fn lemma_wide_ray_misses(s: Sphere, origin: IntVec, dir: IntVec)
    requires
        s.perp_sq_model(origin, dir) > (s.radius as int) * (s.radius as int),
    ensures
        !s.hit_model(origin, dir),
{
}

/// A sphere entirely behind the ray origin is missed: when even the far
/// intersection parameter — the projection plus the half-chord — is
/// negative, the ray reports no intersection.
pub proof fn lemma_behind_origin_misses(s: Sphere, origin: IntVec, dir: IntVec)
    requires
        s.perp_sq_model(origin, dir) <= (s.radius as int) * (s.radius as int),
        s.proj_model(origin, dir) + sqrt_floor(
            (s.radius as int) * (s.radius as int) - s.perp_sq_model(origin, dir),
        ) < 0,
    ensures
        !s.hit_model(origin, dir),
{
    lemma_sqrt_floor_exists(
        (s.radius as int) * (s.radius as int) - s.perp_sq_model(origin, dir),
    );
}

/// Dimension round trip: a canvas built with width `w` and height `h` —
/// what [`Canvas::new`] ensures of its result — reports exactly `(w, h)`,
/// which is what [`Canvas::get_dimensions`] returns.
pub proof fn lemma_dimensions_round_trip(c: Canvas, w: u32, h: u32)
    requires
        c.width == w,
        c.height == h,
    ensures
        (c.width, c.height) == (w, h),
{
}

} // verus!
