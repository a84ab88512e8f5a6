use vstd::prelude::*;
use crate::canvas::{Canvas, lemma_row_major};
use crate::color::{Color, Rgba, color_rgba};
use crate::geometry::{COORD_LIMIT, IntVec, Ray, Vector3};
use crate::scene::Scene;

verus! {

/// The single flat color every hit pixel is painted with.
pub open spec fn hit_color() -> Color {
    Color { red: 0, green: 255, blue: 0 }
}

/// Origin of the orthographic camera ray through pixel `(x, y)`.
pub open spec fn pixel_ray_origin(x: int, y: int) -> IntVec {
    IntVec { x: x, y: y, z: 0 }
}

/// Direction of every camera ray: the positive z axis.
pub open spec fn camera_dir() -> IntVec {
    IntVec { x: 0, y: 0, z: 1 }
}

/// Some object of the scene is hit by the camera ray through pixel `(x, y)`.
pub open spec fn scene_hits(scene: Scene, x: int, y: int) -> bool {
    exists|i: int|
        0 <= i < scene.renderables@.len() && (#[trigger] scene.renderables@[i]).hit_model(
            pixel_ray_origin(x, y),
            camera_dir(),
        )
}

/// What a render pass leaves at pixel `(x, y)` of a canvas that held `c0`:
/// the hit color where some object covers the pixel, the old content
/// everywhere else.
pub open spec fn rendered_pixel(c0: Canvas, scene: Scene, x: int, y: int) -> Rgba {
    if scene_hits(scene, x, y) {
        color_rgba(hit_color())
    } else {
        c0.pixel_at(x, y)
    }
}

/// Wraps a scene and rasterizes it into a canvas, one orthographic ray per
/// pixel.
#[derive(Debug)]
pub struct Raytracer {
    pub scene: Scene,
}

impl Default for Raytracer {
    /// A raytracer over an empty scene.
    fn default() -> (r: Raytracer)
        ensures
            r.scene.renderables@.len() == 0,
    {
        Raytracer { scene: Scene::default() }
    }
}

impl Raytracer {
    pub fn new(scene: Scene) -> (r: Raytracer)
        ensures
            r.scene == scene,
    {
        Raytracer { scene }
    }

    /// Casts the camera ray of every pixel against every object of the
    /// scene, in insertion order. A pixel some object covers is painted with
    /// the fixed hit color — any hit counts, no nearest-surface comparison
    /// is made — and every other pixel keeps its previous content.
    #[verifier::loop_isolation(false)]
    pub fn render(self, canvas: &mut Canvas)
        requires
            old(canvas).wf(),
            old(canvas).width <= COORD_LIMIT,
            old(canvas).height <= COORD_LIMIT,
            self.scene.wf(),
        ensures
            final(canvas).wf(),
            final(canvas).width == old(canvas).width,
            final(canvas).height == old(canvas).height,
            forall|px: int, py: int|
                old(canvas).in_bounds(px, py) ==> #[trigger] final(canvas).pixel_at(px, py)
                    == rendered_pixel(*old(canvas), self.scene, px, py),
    {
        let color = Color::new(0, 255, 0);
        let (width, height) = canvas.get_dimensions();
        let mut x: u32 = 0;
        while x < width
            invariant
                x <= width,
                canvas.wf(),
                canvas.width == width,
                canvas.height == height,
                forall|px: int, py: int|
                    old(canvas).in_bounds(px, py) ==> #[trigger] canvas.pixel_at(px, py) == (
                    if px < x {
                        rendered_pixel(*old(canvas), self.scene, px, py)
                    } else {
                        old(canvas).pixel_at(px, py)
                    }),
            decreases width - x,
        {
            let mut y: u32 = 0;
            while y < height
                invariant
                    y <= height,
                    canvas.wf(),
                    canvas.width == width,
                    canvas.height == height,
                    forall|px: int, py: int|
                        old(canvas).in_bounds(px, py) ==> #[trigger] canvas.pixel_at(px, py) == (
                        if px < x || (px == x && py < y) {
                            rendered_pixel(*old(canvas), self.scene, px, py)
                        } else {
                            old(canvas).pixel_at(px, py)
                        }),
                decreases height - y,
            {
                let n: usize = self.scene.renderables.len();
                let mut k: usize = 0;
                while k < n
                    invariant
                        k <= n,
                        canvas.wf(),
                        canvas.width == width,
                        canvas.height == height,
                        forall|px: int, py: int|
                            old(canvas).in_bounds(px, py) && !(px == x && py == y)
                                ==> #[trigger] canvas.pixel_at(px, py) == (
                            if px < x || (px == x && py < y) {
                                rendered_pixel(*old(canvas), self.scene, px, py)
                            } else {
                                old(canvas).pixel_at(px, py)
                            }),
                        canvas.pixel_at(x as int, y as int) == (
                        if exists|i: int|
                            0 <= i < k && (#[trigger] self.scene.renderables@[i]).hit_model(
                                pixel_ray_origin(x as int, y as int),
                                camera_dir(),
                            ) {
                            color_rgba(hit_color())
                        } else {
                            old(canvas).pixel_at(x as int, y as int)
                        }),
                    decreases n - k,
                {
                    let object = &self.scene.renderables[k];
                    proof {
                        assert((self.scene.renderables@[k as int]).wf());
                    }
                    let ray = Ray::new(
                        Vector3::new(x as i64, y as i64, 0),
                        Vector3::new(0, 0, 1),
                    );
                    let ghost prev = *canvas;
                    if let Some(_t) = object.intersect(&ray) {
                        let _drawn = canvas.draw(x, y, color);
                        proof {
                            assert(ray.origin@ == pixel_ray_origin(x as int, y as int));
                            assert(ray.direction@ == camera_dir());
                            lemma_row_major(
                                width as int,
                                height as int,
                                x as int,
                                y as int,
                                x as int,
                                y as int,
                            );
                            assert(canvas.pixel_at(x as int, y as int) == color_rgba(hit_color()));
                            assert(exists|i: int|
                                0 <= i < k + 1 && (#[trigger] self.scene.renderables@[i]).hit_model(
                                    pixel_ray_origin(x as int, y as int),
                                    camera_dir(),
                                ));
                            assert forall|px: int, py: int|
                                old(canvas).in_bounds(px, py) && !(px == x && py
                                    == y) implies #[trigger] canvas.pixel_at(px, py) == (
                            if px < x || (px == x && py < y) {
                                rendered_pixel(*old(canvas), self.scene, px, py)
                            } else {
                                old(canvas).pixel_at(px, py)
                            }) by {
                                lemma_row_major(
                                    width as int,
                                    height as int,
                                    px,
                                    py,
                                    x as int,
                                    y as int,
                                );
                                assert(canvas.pixel_at(px, py) == prev.pixel_at(px, py));
                            }
                        }
                    } else {
                        proof {
                            assert(!(self.scene.renderables@[k as int]).hit_model(
                                pixel_ray_origin(x as int, y as int),
                                camera_dir(),
                            ));
                            assert((exists|i: int|
                                0 <= i < k + 1 && (#[trigger] self.scene.renderables@[i]).hit_model(
                                    pixel_ray_origin(x as int, y as int),
                                    camera_dir(),
                                )) == (exists|i: int|
                                0 <= i < k && (#[trigger] self.scene.renderables@[i]).hit_model(
                                    pixel_ray_origin(x as int, y as int),
                                    camera_dir(),
                                )));
                        }
                    }
                    k = k + 1;
                }
                proof {
                    assert(canvas.pixel_at(x as int, y as int) == rendered_pixel(
                        *old(canvas),
                        self.scene,
                        x as int,
                        y as int,
                    ));
                }
                y = y + 1;
            }
            x = x + 1;
        }
    }
}

} // verus!
