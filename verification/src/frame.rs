//! The per-frame pipeline: apply the interaction rules to the store, then
//! tessellate the mutated store and emit draw data for the shell. Stage
//! order is fixed; tessellation always sees the same frame's mutations.

use vstd::prelude::*;
use crate::geom::Point;
use crate::interact::{
    creation_update, pointer_update, pointer_sample_wf, removal_update, spec_frame_update,
    FrameInput,
};
use crate::spline::{
    points_in_range, spec_tessellate_bezier, spec_tessellate_bspline, spec_tessellate_cardinal,
    spec_tessellate_linestrip, tessellate_bezier, tessellate_bspline, tessellate_cardinal,
    tessellate_linestrip,
};
use crate::store::{control_point_wf, Color, ControlPoint, ControlPointStore};

verus! {

/// A connected line strip with a draw color.
pub struct Polyline {
    pub points: Vec<Point>,
    pub color: Color,
}

/// A filled circle marking one control point.
#[derive(Clone, Copy, PartialEq, Eq, Structural, Debug)]
pub struct Circle {
    pub center: Point,
    pub radius: i64,
    pub color: Color,
}

/// Everything one frame asks the renderer to draw.
pub struct DrawOutput {
    pub polylines: Vec<Polyline>,
    pub circles: Vec<Circle>,
}

/// The positions of the stored points, in store order.
pub open spec fn positions(s: Seq<ControlPoint>) -> Seq<Point> {
    Seq::new(s.len(), |i: int| s[i].position)
}

/// The circle a control point is drawn as: its selected radius and color
/// while selected, its default ones otherwise.
pub open spec fn spec_circle(cp: ControlPoint) -> Circle {
    Circle {
        center: cp.position,
        radius: if cp.is_selected {
            cp.selected_radius
        } else {
            cp.display_radius
        },
        color: if cp.is_selected {
            cp.selected_color
        } else {
            cp.default_color
        },
    }
}

/// The polylines one frame emits, in order: the white control polygon, the
/// pink B-spline once it has a segment, the yellow cardinal spline, and the
/// green Bezier exactly at four points. Below two points nothing is drawn.
pub open spec fn spec_polylines(s: Seq<ControlPoint>) -> Seq<(Seq<Point>, Color)> {
    let p = positions(s);
    if s.len() < 2 {
        Seq::empty()
    } else {
        let with_strip = seq![(spec_tessellate_linestrip(p), Color::White)];
        let with_bspline = if s.len() >= 4 {
            with_strip.push((spec_tessellate_bspline(p), Color::Pink))
        } else {
            with_strip
        };
        let with_cardinal = with_bspline.push((spec_tessellate_cardinal(p), Color::Yellow));
        if s.len() == 4 {
            with_cardinal.push((spec_tessellate_bezier(p), Color::Green))
        } else {
            with_cardinal
        }
    }
}

fn positions_of(store: &ControlPointStore) -> (r: Vec<Point>)
    ensures
        r@ == positions(store@),
{
    let n = store.points.len();
    let mut out: Vec<Point> = Vec::new();
    let mut idx: usize = 0;
    while idx < n
        invariant
            n == store@.len(),
            idx <= n,
            out@.len() == idx,
            forall|i: int| 0 <= i < idx ==> out@[i] == #[trigger] positions(store@)[i],
        decreases n - idx,
    {
        out.push(store.points[idx].position);
        idx += 1;
    }
    proof {
        assert(out@ =~= positions(store@));
    }
    out
}

fn circles_of(store: &ControlPointStore) -> (r: Vec<Circle>)
    ensures
        r@.len() == store@.len(),
        forall|i: int| 0 <= i < store@.len() ==> r@[i] == spec_circle(#[trigger] store@[i]),
{
    let n = store.points.len();
    let mut out: Vec<Circle> = Vec::new();
    let mut idx: usize = 0;
    while idx < n
        invariant
            n == store@.len(),
            idx <= n,
            out@.len() == idx,
            forall|i: int| 0 <= i < idx ==> out@[i] == spec_circle(#[trigger] store@[i]),
        decreases n - idx,
    {
        let cp = store.points[idx];
        let circle = if cp.is_selected {
            Circle { center: cp.position, radius: cp.selected_radius, color: cp.selected_color }
        } else {
            Circle { center: cp.position, radius: cp.display_radius, color: cp.default_color }
        };
        out.push(circle);
        idx += 1;
    }
    out
}

/// Runs one frame: removal, selection and drag, creation, then
/// tessellation of the mutated store and draw emission, in that order.
pub fn frame(store: &mut ControlPointStore, input: FrameInput) -> (r: DrawOutput)
    requires
        old(store).wf(),
        pointer_sample_wf(input.pointer),
    ensures
        final(store)@ == spec_frame_update(old(store)@, input),
        final(store).wf(),
        r.circles@.len() == final(store)@.len(),
        forall|i: int|
            0 <= i < final(store)@.len() ==> r.circles@[i] == spec_circle(
                #[trigger] final(store)@[i],
            ),
        r.polylines@.len() == spec_polylines(final(store)@).len(),
        forall|i: int|
            0 <= i < r.polylines@.len() ==> (#[trigger] r.polylines@[i]).points@
                == spec_polylines(final(store)@)[i].0 && r.polylines@[i].color == spec_polylines(
                final(store)@,
            )[i].1,
{
    removal_update(store, input.remove_just_pressed);
    pointer_update(store, input.pointer, input.left_held);
    creation_update(store, input.pointer, input.right_just_pressed);

    let pts = positions_of(store);
    proof {
        assert forall|i: int| 0 <= i < pts@.len() implies crate::geom::point_in_range(
            #[trigger] pts@[i],
        ) by {
            assert(control_point_wf(store@[i]));
        }
        assert(points_in_range(pts@));
    }
    let mut polylines: Vec<Polyline> = Vec::new();
    if pts.len() >= 2 {
        polylines.push(Polyline { points: tessellate_linestrip(&pts), color: Color::White });
        if pts.len() >= 4 {
            polylines.push(Polyline { points: tessellate_bspline(&pts), color: Color::Pink });
        }
        polylines.push(Polyline { points: tessellate_cardinal(&pts), color: Color::Yellow });
        if pts.len() == 4 {
            polylines.push(Polyline { points: tessellate_bezier(&pts), color: Color::Green });
        }
    }
    let circles = circles_of(store);
    DrawOutput { polylines, circles }
}

} // verus!
