use pixel_canvas::color::Color;
use pixel_canvas::point::Point;
use pixel_canvas::segment::Segment;
use pixel_canvas::tool::line::put;

const INK: Color = Color { r: 9, g: 8, b: 7, a: 255 };

fn blank(width: u32, height: u32) -> Vec<Color> {
    vec![Color::white(); (width * height) as usize]
}

fn painted(pixels: &Vec<Color>, width: u32) -> Vec<(i32, i32)> {
    let mut points = vec![];
    for (index, pixel) in pixels.iter().enumerate() {
        if *pixel == INK {
            points.push(((index as u32 % width) as i32, (index as u32 / width) as i32));
        } else {
            assert_eq!(*pixel, Color::white());
        }
    }
    points
}

fn stroke(width: u32, height: u32, a: (i32, i32), b: (i32, i32)) -> Vec<(i32, i32)> {
    let mut pixels = blank(width, height);
    let segment = Segment::new(Point::new(a.0, a.1), Point::new(b.0, b.1));
    put(&mut pixels, &width, &segment, &INK);
    painted(&pixels, width)
}

/// The error-driven walk from `a` to `b`, one pixel per step.
fn walk(a: (i32, i32), b: (i32, i32)) -> Vec<(i32, i32)> {
    let kx = if a.0 <= b.0 { 1 } else { -1 };
    let ky = if a.1 <= b.1 { 1 } else { -1 };
    let dx = (a.0 - b.0).abs();
    let dy = -(a.1 - b.1).abs();
    let mut e = dx + dy;
    let mut point = a;
    let mut points = vec![];
    loop {
        points.push(point);
        if point == b {
            break;
        }
        let e2 = 2 * e;
        if e2 >= dy {
            e += dy;
            point.0 += kx;
        }
        if e2 <= dx {
            e += dx;
            point.1 += ky;
        }
    }
    points
}

/// The pixel of step `k`: one pixel further along the longer axis per step,
/// and along the shorter axis its share rounded to the nearest, halves upwards.
fn rounded(a: (i32, i32), b: (i32, i32), k: i32) -> (i32, i32) {
    let run = (a.0 - b.0).abs();
    let rise = (a.1 - b.1).abs();
    let kx = if a.0 <= b.0 { 1 } else { -1 };
    let ky = if a.1 <= b.1 { 1 } else { -1 };
    if run >= rise {
        let share = if run > 0 { (2 * k * rise + run) / (2 * run) } else { 0 };
        (a.0 + kx * k, a.1 + ky * share)
    } else {
        let share = (2 * k * run + rise) / (2 * rise);
        (a.0 + kx * share, a.1 + ky * k)
    }
}

#[test]
fn stroke_from_a_pixel_to_itself_paints_that_pixel() {
    assert_eq!(stroke(5, 4, (3, 2), (3, 2)), vec![(3, 2)]);
    assert_eq!(stroke(5, 4, (0, 0), (0, 0)), vec![(0, 0)]);
    assert_eq!(stroke(5, 4, (4, 3), (4, 3)), vec![(4, 3)]);
}

#[test]
fn horizontal_stroke_paints_every_pixel_between_its_ends() {
    assert_eq!(stroke(5, 3, (0, 0), (4, 0)), vec![(0, 0), (1, 0), (2, 0), (3, 0), (4, 0)]);
    assert_eq!(stroke(5, 3, (4, 1), (1, 1)), vec![(1, 1), (2, 1), (3, 1), (4, 1)]);
}

#[test]
fn vertical_stroke_paints_every_pixel_between_its_ends() {
    assert_eq!(stroke(3, 5, (2, 0), (2, 4)), vec![(2, 0), (2, 1), (2, 2), (2, 3), (2, 4)]);
    assert_eq!(stroke(3, 5, (1, 3), (1, 1)), vec![(1, 1), (1, 2), (1, 3)]);
}

#[test]
fn oblique_stroke_is_the_reference_path() {
    assert_eq!(stroke(4, 3, (0, 0), (3, 2)), vec![(0, 0), (1, 1), (2, 1), (3, 2)]);
    assert_eq!(walk((0, 0), (3, 2)), vec![(0, 0), (1, 1), (2, 1), (3, 2)]);
}

#[test]
fn oblique_stroke_is_connected_and_one_pixel_wide() {
    let path = walk((0, 0), (3, 2));
    for pair in path.windows(2) {
        let dx = (pair[1].0 - pair[0].0).abs();
        let dy = (pair[1].1 - pair[0].1).abs();
        assert!(dx <= 1 && dy <= 1 && dx + dy >= 1);
        assert_eq!(pair[1].0 - pair[0].0, 1);
    }
    assert_eq!(stroke(4, 3, (0, 0), (3, 2)).len(), 4);
}

#[test]
fn halves_round_away_from_the_first_endpoint() {
    assert_eq!(stroke(3, 2, (0, 0), (2, 1)), vec![(0, 0), (1, 1), (2, 1)]);
    assert_eq!(stroke(3, 2, (2, 1), (0, 0)), vec![(0, 0), (1, 0), (2, 1)]);
    assert_eq!(stroke(2, 3, (0, 0), (1, 2)), vec![(0, 0), (1, 1), (1, 2)]);
}

#[test]
fn diagonal_stroke_advances_along_both_axes() {
    assert_eq!(stroke(4, 4, (0, 0), (3, 3)), vec![(0, 0), (1, 1), (2, 2), (3, 3)]);
    assert_eq!(stroke(4, 4, (3, 0), (0, 3)), vec![(3, 0), (2, 1), (1, 2), (0, 3)]);
}

#[test]
fn stroke_leaves_other_colors_alone() {
    let other = Color::new(1, 2, 3, 4);
    let mut pixels = vec![other; 12];
    let segment = Segment::new(Point::new(1, 1), Point::new(2, 2));
    put(&mut pixels, &4, &segment, &INK);
    for (index, pixel) in pixels.iter().enumerate() {
        if index == 5 || index == 10 {
            assert_eq!(*pixel, INK);
        } else {
            assert_eq!(*pixel, other);
        }
    }
}

#[test]
fn every_stroke_on_a_small_canvas_is_the_walk_and_the_rounded_line() {
    let width = 7;
    let height = 6;
    for ax in 0..width {
        for ay in 0..height {
            for bx in 0..width {
                for by in 0..height {
                    let a = (ax as i32, ay as i32);
                    let b = (bx as i32, by as i32);
                    let mut expected = walk(a, b);
                    let steps = (a.0 - b.0).abs().max((a.1 - b.1).abs());
                    assert_eq!(expected.len() as i32, steps + 1);
                    for k in 0..=steps {
                        assert_eq!(expected[k as usize], rounded(a, b, k));
                    }
                    expected.sort_by_key(|p| (p.1, p.0));
                    assert_eq!(stroke(width, height, a, b), expected);
                }
            }
        }
    }
}

#[test]
fn long_stroke_ends_at_its_second_endpoint() {
    let width = 2000;
    let height = 3;
    let points = stroke(width, height, (1999, 2), (0, 0));
    assert_eq!(points.len(), 2000);
    assert!(points.contains(&(0, 0)));
    assert!(points.contains(&(1999, 2)));
    assert!(points.contains(&(1000, 1)));
}
