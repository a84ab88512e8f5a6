use raytracer::backdrop::{backdrop_color, backdrop_colors};
use raytracer::color::Color;

#[test]
fn top_row_is_the_first_endpoint() {
    assert_eq!(backdrop_color(0, 600), Color::new(122, 170, 255));
}

#[test]
fn middle_row_is_the_truncated_average() {
    // t = 300 / 600 = 1/2: channels (171, 195, 242.5) truncated
    assert_eq!(backdrop_color(300, 600), Color::new(171, 195, 242));
}

#[test]
fn bottom_row_approaches_the_second_endpoint() {
    // t = 599 / 600: (219.83.., 219.91.., 230.04..) truncated
    assert_eq!(backdrop_color(599, 600), Color::new(219, 219, 230));
}

#[test]
fn two_row_gradient() {
    assert_eq!(backdrop_color(0, 2), Color::new(122, 170, 255));
    assert_eq!(backdrop_color(1, 2), Color::new(171, 195, 242));
}

#[test]
fn backdrop_buffer_is_row_major() {
    let colors = backdrop_colors(4, 3);
    assert_eq!(colors.len(), 12);
    for i in 0..12 {
        let row = (i / 4) as u32;
        assert_eq!(colors[i], backdrop_color(row, 3), "element {}", i);
    }
    // all cells of one row share a color, rows differ
    assert_eq!(colors[0], colors[3]);
    assert_ne!(colors[0], colors[4]);
}
