use pixel_canvas::canvas::{
    is_point_on_canvas, is_segment_on_canvas, point_on_canvas, point_relative_to_canvas,
    segment_on_canvas,
};
use pixel_canvas::color::Color;
use pixel_canvas::line::BorderCrossings;
use pixel_canvas::point::Point;
use pixel_canvas::segment::Segment;
use pixel_canvas::util::flat_idx;

fn no_crossings() -> BorderCrossings {
    BorderCrossings::new(0, 0, 0, 0)
}

#[test]
fn point_new_keeps_coordinates() {
    let p = Point::new(3, -4);
    assert_eq!(p.x, 3);
    assert_eq!(p.y, -4);
}

#[test]
fn point_add_is_componentwise() {
    let p = Point::new(3, -4).add(&Point::new(10, 20));
    assert_eq!(p, Point::new(13, 16));
}

#[test]
fn color_constructors() {
    assert_eq!(Color::new(1, 2, 3, 4), Color { r: 1, g: 2, b: 3, a: 4 });
    assert_eq!(Color::black(), Color { r: 0, g: 0, b: 0, a: 255 });
    assert_eq!(Color::white(), Color { r: 255, g: 255, b: 255, a: 255 });
}

#[test]
fn segment_new_keeps_direction() {
    let s = Segment::new(Point::new(5, 6), Point::new(1, 2));
    assert_eq!(s.a, Point::new(5, 6));
    assert_eq!(s.b, Point::new(1, 2));
}

#[test]
fn is_point_within_includes_the_borders() {
    let s = Segment::new(Point::new(5, 6), Point::new(1, 2));
    assert!(s.is_point_within(&Point::new(1, 2)));
    assert!(s.is_point_within(&Point::new(5, 6)));
    assert!(s.is_point_within(&Point::new(1, 6)));
    assert!(s.is_point_within(&Point::new(3, 4)));
    assert!(!s.is_point_within(&Point::new(0, 4)));
    assert!(!s.is_point_within(&Point::new(6, 4)));
    assert!(!s.is_point_within(&Point::new(3, 1)));
    assert!(!s.is_point_within(&Point::new(3, 7)));
}

#[test]
fn flat_idx_is_row_major() {
    assert_eq!(flat_idx(&Point::new(0, 0), &7), 0);
    assert_eq!(flat_idx(&Point::new(3, 2), &7), 17);
    assert_eq!(flat_idx(&Point::new(6, 9), &7), 69);
}

#[test]
fn pointer_position_is_relative_to_the_canvas_corner() {
    assert_eq!(point_on_canvas(100, 40, 130, 45), Point::new(30, 5));
    assert_eq!(point_on_canvas(100, 40, 90, 30), Point::new(-10, -10));
    assert_eq!(point_relative_to_canvas(100, 40, &Point::new(130, 45)), Point::new(30, 5));
}

#[test]
fn points_on_and_off_the_canvas() {
    assert!(is_point_on_canvas(10, 5, &Point::new(0, 0)));
    assert!(is_point_on_canvas(10, 5, &Point::new(9, 4)));
    assert!(!is_point_on_canvas(10, 5, &Point::new(10, 4)));
    assert!(!is_point_on_canvas(10, 5, &Point::new(9, 5)));
    assert!(!is_point_on_canvas(10, 5, &Point::new(-1, 0)));
    assert!(!is_point_on_canvas(10, 5, &Point::new(0, -1)));
    assert!(!is_point_on_canvas(0, 0, &Point::new(0, 0)));
    assert!(is_segment_on_canvas(10, 5, &Segment::new(Point::new(0, 0), Point::new(9, 4))));
    assert!(!is_segment_on_canvas(10, 5, &Segment::new(Point::new(0, 0), Point::new(9, 5))));
}

#[test]
fn stroke_inside_the_canvas_is_kept() {
    for (a, b) in [
        (Point::new(0, 0), Point::new(9, 9)),
        (Point::new(9, 0), Point::new(0, 9)),
        (Point::new(4, 4), Point::new(4, 4)),
        (Point::new(3, 7), Point::new(8, 1)),
    ] {
        let clipped = segment_on_canvas(10, 10, a, b, &BorderCrossings::new(77, -3, 12, 5));
        assert_eq!(clipped, Some(Segment::new(a, b)));
    }
}

#[test]
fn stroke_beside_the_canvas_is_dropped() {
    for (a, b) in [
        (Point::new(-5, 2), Point::new(-1, 8)),
        (Point::new(10, 2), Point::new(15, 8)),
        (Point::new(2, -7), Point::new(8, -1)),
        (Point::new(2, 10), Point::new(8, 12)),
        (Point::new(-3, -3), Point::new(-3, -3)),
    ] {
        let clipped = segment_on_canvas(10, 10, a, b, &BorderCrossings::new(5, 5, 5, 5));
        assert_eq!(clipped, None);
    }
}

#[test]
fn nothing_is_drawn_on_an_empty_canvas() {
    let a = Point::new(0, -3);
    let b = Point::new(0, 3);
    assert_eq!(segment_on_canvas(0, 0, a, b, &no_crossings()), None);
    assert_eq!(segment_on_canvas(5, 0, a, b, &no_crossings()), None);
    assert_eq!(segment_on_canvas(0, 5, a, b, &no_crossings()), None);
}

#[test]
fn vertical_stroke_is_clamped_to_the_rows() {
    let clipped = segment_on_canvas(10, 8, Point::new(3, -4), Point::new(3, 20), &no_crossings());
    assert_eq!(clipped, Some(Segment::new(Point::new(3, 0), Point::new(3, 7))));
    let upwards = segment_on_canvas(10, 8, Point::new(3, 20), Point::new(3, 2), &no_crossings());
    assert_eq!(upwards, Some(Segment::new(Point::new(3, 2), Point::new(3, 7))));
    let outside = segment_on_canvas(10, 8, Point::new(12, -4), Point::new(12, 20), &no_crossings());
    assert_eq!(outside, None);
}

#[test]
fn horizontal_stroke_is_clamped_to_the_columns() {
    let clipped = segment_on_canvas(10, 8, Point::new(-6, 5), Point::new(30, 5), &no_crossings());
    assert_eq!(clipped, Some(Segment::new(Point::new(0, 5), Point::new(9, 5))));
    let leftwards = segment_on_canvas(10, 8, Point::new(4, 5), Point::new(-9, 5), &no_crossings());
    assert_eq!(leftwards, Some(Segment::new(Point::new(0, 5), Point::new(4, 5))));
    let outside = segment_on_canvas(10, 8, Point::new(-6, 8), Point::new(30, 8), &no_crossings());
    assert_eq!(outside, None);
}

#[test]
fn oblique_stroke_leaving_the_canvas_ends_at_the_border() {
    // From (5,5) on the line y = x to (15,15): the line leaves a 10 by 10
    // canvas through its top right corner.
    let crossings = BorderCrossings::new(9, 9, 0, 0);
    let clipped = segment_on_canvas(10, 10, Point::new(5, 5), Point::new(15, 15), &crossings);
    assert_eq!(clipped, Some(Segment::new(Point::new(5, 5), Point::new(9, 9))));
}

#[test]
fn oblique_stroke_entering_the_canvas_starts_with_its_inner_endpoint() {
    // From (-4,2) on the line y = x + 6 to (2,8): only the second endpoint
    // is on the canvas, so it comes first, then the crossing with the left border.
    let crossings = BorderCrossings::new(3, 15, -6, 6);
    let clipped = segment_on_canvas(10, 10, Point::new(-4, 2), Point::new(2, 8), &crossings);
    assert_eq!(clipped, Some(Segment::new(Point::new(2, 8), Point::new(0, 6))));
}

#[test]
fn oblique_stroke_across_the_canvas_runs_between_two_crossings() {
    // From (-5,-3) on the line y = x + 2 to (15,17): top border at x = 7,
    // right border at y = 11 (off the canvas), bottom border at x = -2 (off
    // the canvas), left border at y = 2.
    let crossings = BorderCrossings::new(7, 11, -2, 2);
    let clipped = segment_on_canvas(10, 10, Point::new(-5, -3), Point::new(15, 17), &crossings);
    assert_eq!(clipped, Some(Segment::new(Point::new(7, 9), Point::new(0, 2))));
}

#[test]
fn oblique_stroke_stops_at_the_second_candidate() {
    // The diagonal of the canvas, prolonged: all four crossings qualify, the
    // first two in order of priority are kept.
    let crossings = BorderCrossings::new(9, 9, 0, 0);
    let clipped = segment_on_canvas(10, 10, Point::new(-5, -5), Point::new(15, 15), &crossings);
    assert_eq!(clipped, Some(Segment::new(Point::new(9, 9), Point::new(9, 9))));
}

#[test]
fn oblique_stroke_with_a_single_candidate_is_dropped() {
    // The bounding box overlaps the canvas but the line passes beside it.
    let crossings = BorderCrossings::new(30, -20, 12, 40);
    let clipped = segment_on_canvas(10, 10, Point::new(8, -3), Point::new(14, 2), &crossings);
    assert_eq!(clipped, None);
    // One endpoint on the canvas and no crossing within the stroke.
    let lonely = BorderCrossings::new(-50, -50, -50, -50);
    let clipped = segment_on_canvas(10, 10, Point::new(5, 5), Point::new(12, 7), &lonely);
    assert_eq!(clipped, None);
}

#[test]
fn crossing_outside_the_extent_of_the_stroke_does_not_count() {
    // The top crossing lies on the canvas but beyond the second endpoint.
    let crossings = BorderCrossings::new(3, 20, 20, 20);
    let clipped = segment_on_canvas(10, 10, Point::new(-2, 4), Point::new(2, 6), &crossings);
    assert_eq!(clipped, None);
}
