use vstd::prelude::*;
use crate::geometry::{IntVec, Ray};
use crate::sphere::Sphere;

verus! {

/// A shape that a ray can be tested against: a closed set of variants
/// dispatched by matching. The only shape of this renderer is the sphere.
#[derive(Clone, Copy, PartialEq, Eq, Structural, Debug)]
pub enum Renderable {
    Sphere(Sphere),
}

impl Renderable {
    pub open spec fn wf(self) -> bool {
        match self {
            Renderable::Sphere(s) => s.wf(),
        }
    }

    /// A ray from `origin` along `dir` hits the shape.
    pub open spec fn hit_model(self, origin: IntVec, dir: IntVec) -> bool {
        match self {
            Renderable::Sphere(s) => s.hit_model(origin, dir),
        }
    }

    /// The ray parameter reported for a hit.
    pub open spec fn hit_distance_model(self, origin: IntVec, dir: IntVec) -> int {
        match self {
            Renderable::Sphere(s) => s.hit_distance_model(origin, dir),
        }
    }

    /// Returns the ray parameter at which the ray first touches or enters
    /// the shape, or `None` when it misses.
    pub fn intersect(&self, ray: &Ray) -> (r: Option<i64>)
        requires
            self.wf(),
            ray.wf(),
        ensures
            r is Some <==> self.hit_model(ray.origin@, ray.direction@),
            r matches Some(t) ==> t == self.hit_distance_model(ray.origin@, ray.direction@),
    {
        match self {
            Renderable::Sphere(s) => s.intersect(ray),
        }
    }
}

/// An ordered collection of renderable objects; insertion order is kept and
/// is the order every render pass tests them in.
#[derive(Debug)]
pub struct Scene {
    pub renderables: Vec<Renderable>,
}

impl Scene {
    /// Every object of the scene is well-formed.
    pub open spec fn wf(self) -> bool {
        forall|i: int|
            0 <= i < self.renderables@.len() ==> (#[trigger] self.renderables@[i]).wf()
    }

    /// An empty scene.
    pub fn new() -> (s: Scene)
        ensures
            s.renderables@.len() == 0,
    {
        Scene { renderables: Vec::new() }
    }

    /// Appends `renderable` at the end; everything already present keeps its
    /// place.
    pub fn add(&mut self, renderable: Renderable)
        ensures
            final(self).renderables@ == old(self).renderables@.push(renderable),
    {
        self.renderables.push(renderable);
    }
}

impl Default for Scene {
    /// An empty scene.
    fn default() -> (s: Scene)
        ensures
            s.renderables@.len() == 0,
    {
        Scene::new()
    }
}

} // verus!
