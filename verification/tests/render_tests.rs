use raytracer::backdrop::backdrop_colors;
use raytracer::canvas::Canvas;
use raytracer::color::Rgba;
use raytracer::geometry::Vector3;
use raytracer::render::Raytracer;
use raytracer::scene::{Renderable, Scene};
use raytracer::sphere::Sphere;

fn green() -> Rgba {
    Rgba { r: 0, g: 255, b: 0, a: 0 }
}

#[test]
fn silhouette_matches_disk() {
    // every pixel of a small canvas: painted exactly when
    // (x - cx)^2 + (y - cy)^2 <= r^2
    let mut scene = Scene::new();
    scene.add(Renderable::Sphere(Sphere { center: Vector3::new(5, 5, 0), radius: 3 }));
    let mut canvas = Canvas::new(12, 12);
    Raytracer::new(scene).render(&mut canvas);
    for x in 0i64..12 {
        for y in 0i64..12 {
            let inside = (x - 5) * (x - 5) + (y - 5) * (y - 5) <= 9;
            let pixel = canvas.get_pixel(x as u32, y as u32);
            if inside {
                assert_eq!(pixel, green(), "pixel ({}, {}) should be painted", x, y);
            } else {
                assert_eq!(
                    pixel,
                    Rgba { r: 0, g: 0, b: 0, a: 0 },
                    "pixel ({}, {}) should be untouched",
                    x,
                    y
                );
            }
        }
    }
}

#[test]
fn any_object_paints_the_pixel() {
    // two spheres; a pixel covered by only the second is still painted
    let mut scene = Scene::new();
    scene.add(Renderable::Sphere(Sphere { center: Vector3::new(1, 1, 0), radius: 1 }));
    scene.add(Renderable::Sphere(Sphere { center: Vector3::new(6, 6, 0), radius: 1 }));
    let mut canvas = Canvas::new(8, 8);
    Raytracer::new(scene).render(&mut canvas);
    assert_eq!(canvas.get_pixel(1, 1), green());
    assert_eq!(canvas.get_pixel(6, 6), green());
    assert_eq!(canvas.get_pixel(4, 4), Rgba { r: 0, g: 0, b: 0, a: 0 });
}

#[test]
fn end_to_end_scene() {
    // an 800 by 600 canvas with the backdrop gradient, then one sphere of
    // radius 100 centered at (150, 150, 0)
    let mut canvas = Canvas::new(800, 600);
    let backdrop = backdrop_colors(800, 600);
    canvas.draw_area(0, 0, 800, &backdrop).unwrap();

    let mut scene = Scene::new();
    scene.add(Renderable::Sphere(Sphere { center: Vector3::new(150, 150, 0), radius: 100 }));
    Raytracer::new(scene).render(&mut canvas);

    // the center of the silhouette is painted with the fixed hit color
    assert_eq!(canvas.get_pixel(150, 150), green());
    // the corner lies outside the silhouette and keeps the backdrop color
    // of row 0: (122, 170, 255)
    assert_eq!(canvas.get_pixel(0, 0), Rgba { r: 122, g: 170, b: 255, a: 0 });
    // a pixel exactly on the silhouette boundary is a tangent hit
    assert_eq!(canvas.get_pixel(250, 150), green());
    // one pixel farther out it keeps the backdrop color of row 150
    let row_150 = Rgba {
        r: ((122 * 450 + 220 * 150) / 600) as u8,
        g: ((170 * 450 + 220 * 150) / 600) as u8,
        b: ((255 * 450 + 230 * 150) / 600) as u8,
    a: 0,
    };
    assert_eq!(canvas.get_pixel(251, 150), row_150);
}

#[test]
fn render_on_empty_scene_changes_nothing() {
    let mut canvas = Canvas::new(4, 4);
    Raytracer::new(Scene::new()).render(&mut canvas);
    for x in 0..4 {
        for y in 0..4 {
            assert_eq!(canvas.get_pixel(x, y), Rgba { r: 0, g: 0, b: 0, a: 0 });
        }
    }
}

#[test]
fn scene_keeps_insertion_order() {
    let mut scene = Scene::new();
    let first = Sphere { center: Vector3::new(1, 1, 0), radius: 1 };
    let second = Sphere { center: Vector3::new(2, 2, 0), radius: 2 };
    scene.add(Renderable::Sphere(first));
    scene.add(Renderable::Sphere(second));
    assert_eq!(scene.renderables.len(), 2);
    assert_eq!(scene.renderables[0], Renderable::Sphere(first));
    assert_eq!(scene.renderables[1], Renderable::Sphere(second));
}

#[test]
fn raytracer_wraps_scene() {
    let mut scene = Scene::new();
    scene.add(Renderable::Sphere(Sphere { center: Vector3::new(0, 0, 0), radius: 1 }));
    let raytracer = Raytracer::new(scene);
    assert_eq!(raytracer.scene.renderables.len(), 1);
}

#[test]
fn default_scene_is_empty() {
    let scene = Scene::default();
    assert_eq!(scene.renderables.len(), 0);
}

#[test]
fn default_raytracer_has_empty_scene() {
    let raytracer = Raytracer::default();
    assert_eq!(raytracer.scene.renderables.len(), 0);
}
