use pathtracer::canvas::Canvas;
use pathtracer::color::Color;

#[test]
fn a_new_canvas_is_black() {
    let canvas = Canvas::new(4, 3);
    assert_eq!(canvas.width(), 4);
    assert_eq!(canvas.height(), 3);
    for y in 0..3 {
        for x in 0..4 {
            assert_eq!(canvas.get(x, y), Color::black());
        }
    }
}

#[test]
fn a_canvas_may_have_no_pixels() {
    let canvas = Canvas::new(0, 7);
    assert_eq!(canvas.width(), 0);
    assert_eq!(canvas.height(), 7);
    let canvas = Canvas::new(5, 0);
    assert_eq!(canvas.width(), 5);
    assert_eq!(canvas.height(), 0);
}

#[test]
fn set_writes_one_pixel_and_no_other() {
    let mut canvas = Canvas::new(3, 2);
    let red = Color::new(1.0_f64.to_bits(), 0, 0);
    canvas.set(2, 1, red);
    assert_eq!(canvas.width(), 3);
    assert_eq!(canvas.height(), 2);
    for y in 0..2 {
        for x in 0..3 {
            let expected = if (x, y) == (2, 1) { red } else { Color::black() };
            assert_eq!(canvas.get(x, y), expected);
        }
    }
}

#[test]
fn every_coordinate_has_a_pixel_of_its_own() {
    let (width, height) = (7, 5);
    let mut canvas = Canvas::new(width, height);
    for y in 0..height {
        for x in 0..width {
            canvas.set(x, y, Color::new(x as u64, y as u64, 1));
        }
    }
    for y in 0..height {
        for x in 0..width {
            assert_eq!(canvas.get(x, y), Color::new(x as u64, y as u64, 1));
        }
    }
}

#[test]
fn set_overwrites_what_was_there() {
    let mut canvas = Canvas::new(2, 2);
    canvas.set(0, 1, Color::white());
    canvas.set(0, 1, Color::new(5, 6, 7));
    assert_eq!(canvas.get(0, 1), Color::new(5, 6, 7));
    assert_eq!(canvas.get(1, 0), Color::black());
}
