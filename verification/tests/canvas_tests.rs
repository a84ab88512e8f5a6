use raytracer::canvas::{Canvas, CanvasError};
use raytracer::color::{Color, Rgba};

fn black() -> Rgba {
    Rgba { r: 0, g: 0, b: 0, a: 0 }
}

#[test]
fn dimensions_round_trip() {
    let canvas = Canvas::new(7, 11);
    assert_eq!(canvas.get_dimensions(), (7, 11));
}

#[test]
fn default_canvas_is_800_by_600() {
    let canvas = Canvas::default();
    assert_eq!(canvas.get_dimensions(), (800, 600));
}

#[test]
fn new_canvas_is_black_and_transparent() {
    let canvas = Canvas::new(3, 2);
    for x in 0..3 {
        for y in 0..2 {
            assert_eq!(canvas.get_pixel(x, y), black());
        }
    }
}

#[test]
fn draw_at_last_cell_succeeds() {
    let mut canvas = Canvas::new(4, 3);
    let result = canvas.draw(3, 2, Color::new(10, 20, 30));
    assert_eq!(result, Ok(()));
    assert_eq!(canvas.get_pixel(3, 2), Rgba { r: 10, g: 20, b: 30, a: 0 });
}

#[test]
fn draw_beyond_width_is_refused() {
    let mut canvas = Canvas::new(4, 3);
    let result = canvas.draw(4, 0, Color::new(1, 2, 3));
    assert_eq!(
        result,
        Err(CanvasError::OutOfBounds { x: 4, y: 0, width: 4, height: 3 })
    );
    // the canvas is untouched
    assert_eq!(canvas.get_pixel(3, 0), black());
}

#[test]
fn draw_beyond_height_is_refused() {
    let mut canvas = Canvas::new(4, 3);
    let result = canvas.draw(0, 3, Color::new(1, 2, 3));
    assert_eq!(
        result,
        Err(CanvasError::OutOfBounds { x: 0, y: 3, width: 4, height: 3 })
    );
}

#[test]
fn draw_forces_alpha_to_zero() {
    let mut canvas = Canvas::new(2, 2);
    canvas.draw(1, 1, Color::new(255, 255, 255)).unwrap();
    assert_eq!(canvas.get_pixel(1, 1), Rgba { r: 255, g: 255, b: 255, a: 0 });
}

#[test]
fn to_rgba_forces_alpha_to_zero() {
    let pixel = Color::new(9, 8, 7).to_rgba();
    assert_eq!(pixel, Rgba { r: 9, g: 8, b: 7, a: 0 });
}

#[test]
fn draw_area_places_elements_row_major() {
    // a 2-by-2 block against a 4-element sequence: element i goes to
    // (x + i % 2, y + i / 2)
    let mut canvas = Canvas::new(4, 4);
    let colors = [
        Color::new(1, 0, 0),
        Color::new(2, 0, 0),
        Color::new(3, 0, 0),
        Color::new(4, 0, 0),
    ];
    let result = canvas.draw_area(1, 1, 2, &colors);
    assert_eq!(result, Ok(()));
    assert_eq!(canvas.get_pixel(1, 1), Rgba { r: 1, g: 0, b: 0, a: 0 });
    assert_eq!(canvas.get_pixel(2, 1), Rgba { r: 2, g: 0, b: 0, a: 0 });
    assert_eq!(canvas.get_pixel(1, 2), Rgba { r: 3, g: 0, b: 0, a: 0 });
    assert_eq!(canvas.get_pixel(2, 2), Rgba { r: 4, g: 0, b: 0, a: 0 });
    // cells outside the block keep their content
    assert_eq!(canvas.get_pixel(0, 0), black());
    assert_eq!(canvas.get_pixel(3, 3), black());
    assert_eq!(canvas.get_pixel(3, 1), black());
}

#[test]
fn draw_area_past_right_edge_is_refused() {
    let mut canvas = Canvas::new(4, 4);
    let colors = [Color::new(1, 1, 1); 4];
    let result = canvas.draw_area(3, 0, 2, &colors);
    assert_eq!(
        result,
        Err(CanvasError::OutOfBounds { x: 3, y: 0, width: 4, height: 4 })
    );
    assert_eq!(canvas.get_pixel(3, 0), black());
}

#[test]
fn draw_area_past_bottom_edge_is_refused() {
    let mut canvas = Canvas::new(4, 4);
    let colors = [Color::new(1, 1, 1); 4];
    let result = canvas.draw_area(0, 3, 2, &colors);
    assert_eq!(
        result,
        Err(CanvasError::OutOfBounds { x: 0, y: 3, width: 4, height: 4 })
    );
}

#[test]
fn draw_area_ragged_last_row_needs_its_own_row() {
    let mut canvas = Canvas::new(4, 4);
    let colors = [Color::new(1, 1, 1); 3];
    // three elements in two columns need two rows: starting at y = 3 the
    // third element would land at y = 4
    let refused = canvas.draw_area(0, 3, 2, &colors);
    assert_eq!(
        refused,
        Err(CanvasError::OutOfBounds { x: 0, y: 3, width: 4, height: 4 })
    );
    // one row higher the same block fits
    let accepted = canvas.draw_area(0, 2, 2, &colors);
    assert_eq!(accepted, Ok(()));
    assert_eq!(canvas.get_pixel(0, 3), Rgba { r: 1, g: 1, b: 1, a: 0 });
    assert_eq!(canvas.get_pixel(1, 3), black());
}

#[test]
fn draw_area_full_canvas() {
    let mut canvas = Canvas::new(2, 2);
    let colors = [
        Color::new(1, 0, 0),
        Color::new(2, 0, 0),
        Color::new(3, 0, 0),
        Color::new(4, 0, 0),
    ];
    assert_eq!(canvas.draw_area(0, 0, 2, &colors), Ok(()));
    assert_eq!(canvas.get_pixel(0, 0), Rgba { r: 1, g: 0, b: 0, a: 0 });
    assert_eq!(canvas.get_pixel(1, 1), Rgba { r: 4, g: 0, b: 0, a: 0 });
}

#[test]
fn into_pixels_is_row_major() {
    let mut canvas = Canvas::new(2, 2);
    canvas.draw(1, 0, Color::new(5, 6, 7)).unwrap();
    let pixels = canvas.into_pixels();
    assert_eq!(pixels.len(), 4);
    assert_eq!(pixels[0], black());
    assert_eq!(pixels[1], Rgba { r: 5, g: 6, b: 7, a: 0 });
    assert_eq!(pixels[2], black());
    assert_eq!(pixels[3], black());
}
