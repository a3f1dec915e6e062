use curve_editor::frame::{frame, DrawOutput};
use curve_editor::geom::Point;
use curve_editor::interact::{latest_pointer, FrameInput, PointerSample};
use curve_editor::spline::{
    tessellate_bezier, tessellate_bspline, tessellate_cardinal, tessellate_linestrip,
};
use curve_editor::store::{Color, ControlPointStore, DEFAULT_DISPLAY_RADIUS};

fn pt(x: i64, y: i64) -> Point {
    Point { x, y }
}

fn store_of(points: &[Point]) -> ControlPointStore {
    let mut store = ControlPointStore::new();
    for p in points {
        store.append(*p);
    }
    store
}

/// The four corners of scenario B, in milli-units: (0,0), (10,0), (10,10), (0,10).
fn square() -> Vec<Point> {
    vec![pt(0, 0), pt(10_000, 0), pt(10_000, 10_000), pt(0, 10_000)]
}

fn idle_input(pointer: PointerSample) -> FrameInput {
    FrameInput { pointer, left_held: false, right_just_pressed: false, remove_just_pressed: false }
}

fn selected_indices(store: &ControlPointStore) -> Vec<usize> {
    let mut out = Vec::new();
    for (i, cp) in store.points.iter().enumerate() {
        if cp.is_selected {
            out.push(i);
        }
    }
    out
}

// ---------------------------------------------------------------------------
// Tessellation counts and emptiness.
// ---------------------------------------------------------------------------

#[test]
fn short_inputs_give_empty_splines() {
    for points in [Vec::new(), vec![pt(3, 4)]] {
        assert_eq!(tessellate_bspline(&points).len(), 0);
        assert_eq!(tessellate_cardinal(&points).len(), 0);
    }
}

#[test]
fn bspline_needs_four_points() {
    let two = vec![pt(0, 0), pt(1_000, 0)];
    let three = vec![pt(0, 0), pt(1_000, 0), pt(2_000, 0)];
    assert_eq!(tessellate_bspline(&two).len(), 0);
    assert_eq!(tessellate_bspline(&three).len(), 0);
    assert_eq!(tessellate_bspline(&square()).len(), 101);
    let five = vec![pt(0, 0), pt(1_000, 0), pt(2_000, 0), pt(3_000, 0), pt(4_000, 0)];
    assert_eq!(tessellate_bspline(&five).len(), 201);
}

#[test]
fn bezier_only_at_exactly_four_points() {
    assert_eq!(tessellate_bezier(&square()).len(), 101);
    for n in [0usize, 1, 2, 3, 5, 6] {
        let points: Vec<Point> = (0..n).map(|i| pt(i as i64 * 1_000, 0)).collect();
        assert_eq!(tessellate_bezier(&points).len(), 0);
    }
}

#[test]
fn cardinal_sample_count_scales_with_segments() {
    let two = vec![pt(0, 0), pt(1_000, 0)];
    assert_eq!(tessellate_cardinal(&two).len(), 101);
    assert_eq!(tessellate_cardinal(&square()).len(), 301);
}

#[test]
fn linestrip_returns_the_points_themselves() {
    let points = square();
    assert_eq!(tessellate_linestrip(&points), points);
    let empty: Vec<Point> = Vec::new();
    assert_eq!(tessellate_linestrip(&empty).len(), 0);
}

// ---------------------------------------------------------------------------
// Exact sample values.
// ---------------------------------------------------------------------------

#[test]
fn bezier_endpoints_are_the_anchors() {
    let points = square();
    let samples = tessellate_bezier(&points);
    assert_eq!(samples[0], points[0]);
    assert_eq!(samples[100], points[3]);
}

#[test]
fn bezier_midpoint_value() {
    // At t = 1/2 the cubic Bezier is (p0 + 3 p1 + 3 p2 + p3) / 8.
    let points = vec![pt(0, 0), pt(8_000, 0), pt(16_000, 0), pt(24_000, 0)];
    let samples = tessellate_bezier(&points);
    assert_eq!(samples[50], pt(12_000, 0));
}

#[test]
fn bezier_rounds_toward_zero() {
    // At t = 1/2 the numerator is 125000 * (a + 3b + 3c + d); with d = -9
    // the exact value is -1.125, which rounds to -1 toward zero.
    let points = vec![pt(0, 0), pt(0, 0), pt(0, 0), pt(-9, 0)];
    let samples = tessellate_bezier(&points);
    assert_eq!(samples[50], pt(-1, 0));
    let nearer = vec![pt(0, 0), pt(0, 0), pt(0, 0), pt(-1, 0)];
    assert_eq!(tessellate_bezier(&nearer)[50], pt(0, 0));
}

#[test]
fn bspline_of_equal_points_is_constant() {
    let points = vec![pt(7_000, -3_000); 4];
    let samples = tessellate_bspline(&points);
    assert_eq!(samples.len(), 101);
    for s in samples {
        assert_eq!(s, pt(7_000, -3_000));
    }
}

#[test]
fn bspline_segment_ends_average_the_window() {
    // A uniform cubic B-spline starts a segment at (a + 4b + c) / 6 and
    // ends it at (b + 4c + d) / 6.
    let points = vec![pt(0, 0), pt(6_000, 0), pt(12_000, 0), pt(18_000, 0)];
    let samples = tessellate_bspline(&points);
    assert_eq!(samples[0], pt(6_000, 0));
    assert_eq!(samples[100], pt(12_000, 0));
}

#[test]
fn cardinal_interpolates_the_control_points() {
    let points = square();
    let samples = tessellate_cardinal(&points);
    for (k, p) in points.iter().enumerate() {
        assert_eq!(samples[100 * k], *p);
    }
}

#[test]
fn cardinal_midpoint_of_two_points_is_halfway() {
    // With both boundary neighbours mirrored, two points give the straight
    // segment between them; at t = 1/2 that is the arithmetic middle.
    let points = vec![pt(0, 0), pt(16_000, 0)];
    let samples = tessellate_cardinal(&points);
    assert_eq!(samples[50], pt(8_000, 0));
}

#[test]
fn tessellation_is_idempotent() {
    let points = square();
    assert_eq!(tessellate_linestrip(&points), tessellate_linestrip(&points));
    assert_eq!(tessellate_bspline(&points), tessellate_bspline(&points));
    assert_eq!(tessellate_cardinal(&points), tessellate_cardinal(&points));
    assert_eq!(tessellate_bezier(&points), tessellate_bezier(&points));
}

// ---------------------------------------------------------------------------
// Store operations and the selection invariant.
// ---------------------------------------------------------------------------

#[test]
fn append_and_remove_affect_the_tail() {
    let mut store = store_of(&square());
    store.append(pt(5_000, 5_000));
    assert_eq!(store.points.len(), 5);
    assert_eq!(store.points[4].position, pt(5_000, 5_000));
    assert!(!store.points[4].is_selected);
    store.remove_last();
    assert_eq!(store.points.len(), 4);
    assert_eq!(store.points[3].position, pt(0, 10_000));
}

#[test]
fn remove_last_on_empty_store_is_a_no_op() {
    let mut store = ControlPointStore::new();
    store.remove_last();
    assert_eq!(store.points.len(), 0);
}

#[test]
fn selection_stays_mutually_exclusive() {
    let mut store = store_of(&square());
    store.select(2);
    assert_eq!(selected_indices(&store), vec![2]);
    store.clear_selection();
    assert_eq!(selected_indices(&store), Vec::<usize>::new());
    store.select(0);
    store.move_selected_to(pt(1_234, -5_678));
    store.append(pt(9_000, 9_000));
    store.remove_last();
    assert!(selected_indices(&store).len() <= 1);
    assert_eq!(store.points[0].position, pt(1_234, -5_678));
}

#[test]
fn move_selected_without_selection_changes_nothing() {
    let mut store = store_of(&square());
    let before: Vec<Point> = store.points.iter().map(|cp| cp.position).collect();
    store.move_selected_to(pt(99_000, 99_000));
    let after: Vec<Point> = store.points.iter().map(|cp| cp.position).collect();
    assert_eq!(before, after);
}

#[test]
fn find_within_radius_takes_the_first_match_in_store_order() {
    // Both points overlap the probe; the earlier appended one wins even
    // though the later one is nearer.
    let mut store = ControlPointStore::new();
    store.append(pt(6_000, 0));
    store.append(pt(1_000, 0));
    assert_eq!(store.find_within_radius(pt(0, 0)), Some(0));
    assert_eq!(store.find_within_radius(pt(50_000, 0)), None);
}

#[test]
fn hit_test_is_strictly_inside_the_selected_radius() {
    let mut store = ControlPointStore::new();
    store.append(pt(0, 0));
    // Exactly on the rim: distance equals the selected radius, no hit.
    assert_eq!(store.find_within_radius(pt(10_000, 0)), None);
    assert_eq!(store.find_within_radius(pt(9_999, 0)), Some(0));
}

#[test]
fn find_selected_returns_the_selected_index() {
    let mut store = store_of(&square());
    assert_eq!(store.find_selected(), None);
    store.select(3);
    assert_eq!(store.find_selected(), Some(3));
}

// ---------------------------------------------------------------------------
// Frame scenarios.
// ---------------------------------------------------------------------------

#[test]
fn unknown_pointer_clears_selection_and_draws_only_circles() {
    // Scenario: a single stored point and no pointer sample yet.
    let mut store = ControlPointStore::new();
    store.append(pt(0, 0));
    store.select(0);
    let out: DrawOutput = frame(&mut store, idle_input(PointerSample::Unknown));
    assert_eq!(selected_indices(&store), Vec::<usize>::new());
    assert_eq!(out.polylines.len(), 0);
    assert_eq!(out.circles.len(), 1);
    assert_eq!(out.circles[0].center, pt(0, 0));
    assert_eq!(out.circles[0].radius, DEFAULT_DISPLAY_RADIUS);
    assert_eq!(out.circles[0].color, Color::Green);
}

#[test]
fn four_points_draw_all_four_curves() {
    let mut store = store_of(&square());
    let out = frame(&mut store, idle_input(PointerSample::NoProjection));
    assert_eq!(out.polylines.len(), 4);
    assert_eq!(out.polylines[0].color, Color::White);
    assert_eq!(out.polylines[0].points, square());
    assert_eq!(out.polylines[1].color, Color::Pink);
    assert_eq!(out.polylines[1].points.len(), 101);
    assert_eq!(out.polylines[2].color, Color::Yellow);
    assert_eq!(out.polylines[2].points.len(), 301);
    assert_eq!(out.polylines[3].color, Color::Green);
    assert_eq!(out.polylines[3].points.len(), 101);
    assert_eq!(out.circles.len(), 4);
}

#[test]
fn held_left_button_selects_first_point_within_radius() {
    // Scenario: pointer projects to (10, 0.5); the point at (10, 0) is the
    // first whose hit zone contains it.
    let mut store = store_of(&square());
    let input = FrameInput {
        pointer: PointerSample::World(pt(10_000, 500)),
        left_held: true,
        right_just_pressed: false,
        remove_just_pressed: false,
    };
    frame(&mut store, input);
    assert_eq!(selected_indices(&store), vec![1]);
}

#[test]
fn drag_moves_the_selected_point_without_reselecting() {
    // Scenario: the frame after a selection, with the pointer now far away
    // from every other point.
    let mut store = store_of(&square());
    let grab = FrameInput {
        pointer: PointerSample::World(pt(10_000, 500)),
        left_held: true,
        right_just_pressed: false,
        remove_just_pressed: false,
    };
    frame(&mut store, grab);
    let drag = FrameInput {
        pointer: PointerSample::World(pt(20_000, 20_000)),
        left_held: true,
        right_just_pressed: false,
        remove_just_pressed: false,
    };
    frame(&mut store, drag);
    assert_eq!(store.points[1].position, pt(20_000, 20_000));
    assert_eq!(selected_indices(&store), vec![1]);
    for (i, cp) in store.points.iter().enumerate() {
        if i != 1 {
            assert_eq!(cp.position, square()[i]);
        }
    }
}

#[test]
fn releasing_the_button_clears_the_selection() {
    let mut store = store_of(&square());
    let grab = FrameInput {
        pointer: PointerSample::World(pt(10_000, 500)),
        left_held: true,
        right_just_pressed: false,
        remove_just_pressed: false,
    };
    frame(&mut store, grab);
    frame(&mut store, idle_input(PointerSample::World(pt(10_000, 500))));
    assert_eq!(selected_indices(&store), Vec::<usize>::new());
}

#[test]
fn failed_projection_leaves_the_store_alone() {
    let mut store = store_of(&square());
    let grab = FrameInput {
        pointer: PointerSample::World(pt(10_000, 500)),
        left_held: true,
        right_just_pressed: false,
        remove_just_pressed: false,
    };
    frame(&mut store, grab);
    let blind = FrameInput {
        pointer: PointerSample::NoProjection,
        left_held: true,
        right_just_pressed: false,
        remove_just_pressed: false,
    };
    frame(&mut store, blind);
    assert_eq!(selected_indices(&store), vec![1]);
    assert_eq!(store.points[1].position, pt(10_000, 0));
}

#[test]
fn right_button_appends_a_point_at_the_projection() {
    // Scenario: right-button edge with a valid projection to (5, 5).
    let mut store = store_of(&square());
    let input = FrameInput {
        pointer: PointerSample::World(pt(5_000, 5_000)),
        left_held: false,
        right_just_pressed: true,
        remove_just_pressed: false,
    };
    frame(&mut store, input);
    assert_eq!(store.points.len(), 5);
    assert_eq!(store.points[4].position, pt(5_000, 5_000));
    assert!(!store.points[4].is_selected);
}

#[test]
fn right_button_without_projection_appends_nothing() {
    let mut store = store_of(&square());
    for pointer in [PointerSample::Unknown, PointerSample::NoProjection] {
        let input = FrameInput {
            pointer,
            left_held: false,
            right_just_pressed: true,
            remove_just_pressed: false,
        };
        frame(&mut store, input);
        assert_eq!(store.points.len(), 4);
    }
}

#[test]
fn remove_key_drops_the_most_recent_point() {
    // Scenario: the remove edge on a five-point store.
    let mut store = store_of(&square());
    store.append(pt(5_000, 5_000));
    let input = FrameInput {
        pointer: PointerSample::Unknown,
        left_held: false,
        right_just_pressed: false,
        remove_just_pressed: true,
    };
    frame(&mut store, input);
    assert_eq!(store.points.len(), 4);
    let positions: Vec<Point> = store.points.iter().map(|cp| cp.position).collect();
    assert_eq!(positions, square());
}

#[test]
fn selected_points_draw_with_selected_attributes() {
    let mut store = store_of(&square());
    store.select(2);
    let blind = FrameInput {
        pointer: PointerSample::NoProjection,
        left_held: true,
        right_just_pressed: false,
        remove_just_pressed: false,
    };
    let out = frame(&mut store, blind);
    assert_eq!(out.circles[2].color, Color::Red);
    assert_eq!(out.circles[2].radius, store.points[2].selected_radius);
    assert_eq!(out.circles[0].color, Color::Green);
    assert_eq!(out.circles[0].radius, store.points[0].display_radius);
}

// ---------------------------------------------------------------------------
// Pointer event coalescing.
// ---------------------------------------------------------------------------

#[test]
fn latest_pointer_keeps_only_the_most_recent_event() {
    let events = vec![pt(1, 1), pt(2, 2), pt(3, 3)];
    assert_eq!(latest_pointer(None, &events), Some(pt(3, 3)));
    assert_eq!(latest_pointer(Some(pt(9, 9)), &events), Some(pt(3, 3)));
}

#[test]
fn latest_pointer_without_events_keeps_the_previous_sample() {
    let none: Vec<Point> = Vec::new();
    assert_eq!(latest_pointer(Some(pt(9, 9)), &none), Some(pt(9, 9)));
    assert_eq!(latest_pointer(None, &none), None);
}
