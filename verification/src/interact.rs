//! The per-frame interaction rules: pointer and key edges become store
//! mutations. The design is memoryless across frames; the selection flag in
//! the store is the only drag-session marker.

use vstd::prelude::*;
use crate::geom::{point_in_range, Point};
use crate::spline::MAX_POINTS;
use crate::store::{
    deselected, spec_find_selected, spec_find_within_radius, spec_new_control_point,
    ControlPoint, ControlPointStore,
};

verus! {

/// What the frame knows about the pointer, after the shell has tried to
/// project it into world coordinates.
#[derive(Clone, Copy, PartialEq, Eq, Structural, Debug)]
pub enum PointerSample {
    /// No motion event has arrived yet this session.
    Unknown,
    /// The pointer position is known but could not be projected to world
    /// coordinates (no active camera).
    NoProjection,
    /// The pointer projects to this world position.
    World(Point),
}

/// The input edges one frame consumes.
#[derive(Clone, Copy, PartialEq, Eq, Structural, Debug)]
pub struct FrameInput {
    pub pointer: PointerSample,
    pub left_held: bool,
    pub right_just_pressed: bool,
    pub remove_just_pressed: bool,
}

pub open spec fn pointer_sample_wf(p: PointerSample) -> bool {
    match p {
        PointerSample::World(w) => point_in_range(w),
        _ => true,
    }
}

/// The selection and drag rules of one frame, in precedence order: an
/// unknown pointer or a released left button clears the selection; a failed
/// projection leaves the store alone; otherwise a held drag moves the
/// selected point, and only when nothing is selected may the first point
/// within reach of the pointer become selected.
pub open spec fn spec_pointer_update(
    s: Seq<ControlPoint>,
    pointer: PointerSample,
    left_held: bool,
) -> Seq<ControlPoint> {
    if pointer is Unknown || !left_held {
        deselected(s)
    } else {
        match pointer {
            PointerSample::World(w) => match spec_find_selected(s) {
                Some(k) => s.update(k, ControlPoint { position: w, ..s[k] }),
                None => match spec_find_within_radius(s, w) {
                    Some(i) => s.update(i, ControlPoint { is_selected: true, ..s[i] }),
                    None => s,
                },
            },
            _ => s,
        }
    }
}

/// The creation rule of one frame: a right-button edge with a valid
/// projection appends a fresh unselected point there, if the store can
/// still grow; anything else changes nothing.
pub open spec fn spec_creation_update(
    s: Seq<ControlPoint>,
    pointer: PointerSample,
    right_just_pressed: bool,
) -> Seq<ControlPoint> {
    if right_just_pressed && s.len() < MAX_POINTS {
        match pointer {
            PointerSample::World(w) => s.push(spec_new_control_point(w)),
            _ => s,
        }
    } else {
        s
    }
}

/// The deletion rule of one frame: the remove-key edge drops the most
/// recently appended point; an empty store stays empty.
pub open spec fn spec_removal_update(
    s: Seq<ControlPoint>,
    remove_just_pressed: bool,
) -> Seq<ControlPoint> {
    if remove_just_pressed && s.len() > 0 {
        s.drop_last()
    } else {
        s
    }
}

/// The whole mutation of one frame, in the fixed order the orchestrator
/// runs: removal, then selection and drag, then creation.
pub open spec fn spec_frame_update(s: Seq<ControlPoint>, input: FrameInput) -> Seq<ControlPoint> {
    spec_creation_update(
        spec_pointer_update(
            spec_removal_update(s, input.remove_just_pressed),
            input.pointer,
            input.left_held,
        ),
        input.pointer,
        input.right_just_pressed,
    )
}

/// Applies the selection and drag rules for one frame.
pub fn pointer_update(store: &mut ControlPointStore, pointer: PointerSample, left_held: bool)
    requires
        old(store).wf(),
        pointer_sample_wf(pointer),
    ensures
        final(store)@ == spec_pointer_update(old(store)@, pointer, left_held),
        final(store).wf(),
{
    let clear = match pointer {
        PointerSample::Unknown => true,
        _ => !left_held,
    };
    if clear {
        store.clear_selection();
        return;
    }
    let w = match pointer {
        PointerSample::World(p) => p,
        _ => {
            return;
        },
    };
    match store.find_selected() {
        Some(_) => {
            store.move_selected_to(w);
        },
        None => {
            match store.find_within_radius(w) {
                Some(i) => {
                    proof {
                        crate::store::lemma_none_selected(store@);
                    }
                    store.select(i);
                },
                None => {},
            }
        },
    }
}

/// Applies the creation rule for one frame.
pub fn creation_update(
    store: &mut ControlPointStore,
    pointer: PointerSample,
    right_just_pressed: bool,
)
    requires
        old(store).wf(),
        pointer_sample_wf(pointer),
    ensures
        final(store)@ == spec_creation_update(old(store)@, pointer, right_just_pressed),
        final(store).wf(),
{
    if !right_just_pressed {
        return;
    }
    if store.points.len() >= MAX_POINTS {
        return;
    }
    match pointer {
        PointerSample::World(w) => {
            store.append(w);
        },
        _ => {},
    }
}

/// Applies the deletion rule for one frame.
pub fn removal_update(store: &mut ControlPointStore, remove_just_pressed: bool)
    requires
        old(store).wf(),
    ensures
        final(store)@ == spec_removal_update(old(store)@, remove_just_pressed),
        final(store).wf(),
{
    if remove_just_pressed {
        store.remove_last();
    }
}

/// Keeps only the most recent of the pointer positions that arrived this
/// frame; with none, the previous sample stands.
pub fn latest_pointer(previous: Option<Point>, events: &Vec<Point>) -> (r: Option<Point>)
    ensures
        r == if events@.len() > 0 {
            Some(events@.last())
        } else {
            previous
        },
{
    if events.len() > 0 {
        Some(events[events.len() - 1])
    } else {
        previous
    }
}

} // verus!
