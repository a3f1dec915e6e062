//! The control-point store: an ordered sequence of points with per-point
//! display attributes, of which at most one is selected at a time.

use vstd::prelude::*;
use crate::geom::{point_in_range, Point, MAX_COORD};
use crate::spline::MAX_POINTS;

verus! {

/// Display colors the editor distinguishes; they carry no behaviour.
#[derive(Clone, Copy, PartialEq, Eq, Structural, Debug)]
pub enum Color {
    White,
    Pink,
    Yellow,
    Green,
    Red,
}

/// Radius a point is drawn with when not selected.
pub const DEFAULT_DISPLAY_RADIUS: i64 = 5_000;

/// Radius a selected point is drawn with; doubles as the pointer
/// proximity threshold for selection.
pub const DEFAULT_SELECTED_RADIUS: i64 = 10_000;

/// One user-placed control point with its selection and display state.
#[derive(Clone, Copy, PartialEq, Eq, Structural, Debug)]
pub struct ControlPoint {
    pub position: Point,
    pub is_selected: bool,
    pub display_radius: i64,
    pub selected_radius: i64,
    pub default_color: Color,
    pub selected_color: Color,
}

pub open spec fn control_point_wf(cp: ControlPoint) -> bool {
    &&& point_in_range(cp.position)
    &&& cp.display_radius > 0
    &&& cp.selected_radius > 0
}

/// No two distinct indices are both selected.
pub open spec fn at_most_one_selected(s: Seq<ControlPoint>) -> bool {
    forall|i: int, j: int|
        0 <= i < s.len() && 0 <= j < s.len() && #[trigger] s[i].is_selected
            && #[trigger] s[j].is_selected ==> i == j
}

/// Store well-formedness: the selection invariant, in-range positions and
/// positive radii on every point, and a length the tessellators accept.
pub open spec fn store_wf(s: Seq<ControlPoint>) -> bool {
    &&& at_most_one_selected(s)
    &&& forall|i: int| 0 <= i < s.len() ==> control_point_wf(#[trigger] s[i])
    &&& s.len() <= MAX_POINTS
}

/// A fresh, unselected point at `position` with the default attributes.
pub open spec fn spec_new_control_point(position: Point) -> ControlPoint {
    ControlPoint {
        position,
        is_selected: false,
        display_radius: DEFAULT_DISPLAY_RADIUS,
        selected_radius: DEFAULT_SELECTED_RADIUS,
        default_color: Color::Green,
        selected_color: Color::Red,
    }
}

/// `s` with every point deselected and nothing else changed.
pub open spec fn deselected(s: Seq<ControlPoint>) -> Seq<ControlPoint> {
    Seq::new(s.len(), |i: int| ControlPoint { is_selected: false, ..s[i] })
}

/// The index of the selected point, if any: the first one found scanning
/// in store order (by the invariant there is at most one).
pub open spec fn spec_find_selected(s: Seq<ControlPoint>) -> Option<int>
    decreases s.len(),
{
    if s.len() == 0 {
        None
    } else if s[0].is_selected {
        Some(0)
    } else {
        match spec_find_selected(s.skip(1)) {
            Some(i) => Some(i + 1),
            None => None,
        }
    }
}

/// Whether the pointer at `q` falls strictly inside the hit zone of `cp`:
/// squared distance strictly below the squared selected radius.
pub open spec fn within_hit_zone(cp: ControlPoint, q: Point) -> bool {
    let dx = cp.position.x as int - q.x as int;
    let dy = cp.position.y as int - q.y as int;
    dx * dx + dy * dy < (cp.selected_radius as int) * (cp.selected_radius as int)
}

/// The first point in store order whose hit zone contains `q`, if any:
/// earliest appended wins among overlapping zones.
pub open spec fn spec_find_within_radius(s: Seq<ControlPoint>, q: Point) -> Option<int>
    decreases s.len(),
{
    if s.len() == 0 {
        None
    } else if within_hit_zone(s[0], q) {
        Some(0)
    } else {
        match spec_find_within_radius(s.skip(1), q) {
            Some(i) => Some(i + 1),
            None => None,
        }
    }
}

/// The ordered control-point sequence; order fixes the curve
/// parameterization and the adjacency of the control polygon.
pub struct ControlPointStore {
    pub points: Vec<ControlPoint>,
}

impl View for ControlPointStore {
    type V = Seq<ControlPoint>;

    open spec fn view(&self) -> Seq<ControlPoint> {
        self.points@
    }
}

impl ControlPointStore {
    pub open spec fn wf(&self) -> bool {
        store_wf(self@)
    }

    /// An empty store.
    pub fn new() -> (r: ControlPointStore)
        ensures
            r@ == Seq::<ControlPoint>::empty(),
            r.wf(),
    {
        let r = ControlPointStore { points: Vec::new() };
        proof {
            assert(r@ =~= Seq::<ControlPoint>::empty());
        }
        r
    }

    /// Appends a fresh unselected point with default attributes at the tail.
    pub fn append(&mut self, position: Point)
        requires
            old(self).wf(),
            point_in_range(position),
            old(self)@.len() < MAX_POINTS,
        ensures
            final(self)@ == old(self)@.push(spec_new_control_point(position)),
            final(self).wf(),
    {
        self.points.push(ControlPoint {
            position,
            is_selected: false,
            display_radius: DEFAULT_DISPLAY_RADIUS,
            selected_radius: DEFAULT_SELECTED_RADIUS,
            default_color: Color::Green,
            selected_color: Color::Red,
        });
    }

    /// Removes the most recently appended point; a no-op on an empty store.
    pub fn remove_last(&mut self)
        requires
            old(self).wf(),
        ensures
            final(self)@ == if old(self)@.len() > 0 {
                old(self)@.drop_last()
            } else {
                old(self)@
            },
            final(self).wf(),
    {
        if self.points.len() > 0 {
            self.points.pop();
            proof {
                assert(self@ =~= old(self)@.drop_last());
            }
        }
    }

    /// Deselects every point; positions and attributes are untouched.
    pub fn clear_selection(&mut self)
        requires
            old(self).wf(),
        ensures
            final(self)@ == deselected(old(self)@),
            final(self).wf(),
    {
        let n = self.points.len();
        let mut idx: usize = 0;
        while idx < n
            invariant
                n == self@.len(),
                n == old(self)@.len(),
                idx <= n,
                forall|i: int| 0 <= i < idx ==> self@[i] == #[trigger] deselected(old(self)@)[i],
                forall|i: int| idx <= i < n ==> self@[i] == #[trigger] old(self)@[i],
            decreases n - idx,
        {
            let cp = self.points[idx];
            self.points.set(idx, ControlPoint { is_selected: false, ..cp });
            idx += 1;
        }
        proof {
            assert(self@ =~= deselected(old(self)@));
        }
    }

    /// Marks the point at `index` selected. The caller must have cleared
    /// the previous selection: the store does not clear it itself.
    pub fn select(&mut self, index: usize)
        requires
            old(self).wf(),
            index < old(self)@.len(),
            forall|i: int| 0 <= i < old(self)@.len() ==> !(#[trigger] old(self)@[i]).is_selected,
        ensures
            final(self)@ == old(self)@.update(
                index as int,
                ControlPoint { is_selected: true, ..old(self)@[index as int] },
            ),
            final(self).wf(),
    {
        let cp = self.points[index];
        self.points.set(index, ControlPoint { is_selected: true, ..cp });
    }

    /// Moves the selected point, if any, to `position`; a no-op otherwise.
    pub fn move_selected_to(&mut self, position: Point)
        requires
            old(self).wf(),
            point_in_range(position),
        ensures
            final(self)@ == match spec_find_selected(old(self)@) {
                Some(k) => old(self)@.update(
                    k,
                    ControlPoint { position, ..old(self)@[k] },
                ),
                None => old(self)@,
            },
            final(self).wf(),
    {
        let found = self.find_selected();
        match found {
            Some(k) => {
                let cp = self.points[k];
                self.points.set(k, ControlPoint { position, ..cp });
            },
            None => {},
        }
    }

    /// The index of the selected point, if any.
    pub fn find_selected(&self) -> (r: Option<usize>)
        ensures
            r matches Some(k) ==> k < self@.len() && self@[k as int].is_selected
                && spec_find_selected(self@) == Some(k as int),
            r is None ==> spec_find_selected(self@) is None,
    {
        let n = self.points.len();
        proof {
            lemma_find_selected_bounds(self@);
        }
        let mut idx: usize = 0;
        while idx < n
            invariant
                n == self@.len(),
                idx <= n,
                forall|i: int| 0 <= i < idx ==> !(#[trigger] self@[i]).is_selected,
                spec_find_selected(self@) matches Some(k) ==> idx <= k,
            decreases n - idx,
        {
            if self.points[idx].is_selected {
                proof {
                    lemma_find_selected_at(self@, idx as int);
                }
                return Some(idx);
            }
            proof {
                lemma_find_selected_skips(self@, idx as int);
            }
            idx += 1;
        }
        proof {
            lemma_find_selected_none(self@);
        }
        None
    }

    /// The first point in store order whose hit zone strictly contains `q`.
    pub fn find_within_radius(&self, q: Point) -> (r: Option<usize>)
        requires
            self.wf(),
            point_in_range(q),
        ensures
            r matches Some(k) ==> k < self@.len() && within_hit_zone(self@[k as int], q)
                && spec_find_within_radius(self@, q) == Some(k as int),
            r is None ==> spec_find_within_radius(self@, q) is None,
    {
        let n = self.points.len();
        proof {
            lemma_find_within_bounds(self@, q);
        }
        let mut idx: usize = 0;
        while idx < n
            invariant
                self.wf(),
                point_in_range(q),
                n == self@.len(),
                idx <= n,
                forall|i: int| 0 <= i < idx ==> !within_hit_zone(#[trigger] self@[i], q),
                spec_find_within_radius(self@, q) matches Some(k) ==> idx <= k,
            decreases n - idx,
        {
            let cp = self.points[idx];
            let dx: i128 = cp.position.x as i128 - q.x as i128;
            let dy: i128 = cp.position.y as i128 - q.y as i128;
            let rr: i128 = cp.selected_radius as i128;
            proof {
                crate::geom::lemma_mul_bound(dx as int, dx as int, 2 * MAX_COORD as int, 2 * MAX_COORD as int);
                crate::geom::lemma_mul_bound(dy as int, dy as int, 2 * MAX_COORD as int, 2 * MAX_COORD as int);
                crate::geom::lemma_mul_bound(rr as int, rr as int, i64::MAX as int, i64::MAX as int);
            }
            if dx * dx + dy * dy < rr * rr {
                proof {
                    lemma_find_within_at(self@, q, idx as int);
                }
                return Some(idx);
            }
            proof {
                lemma_find_within_skips(self@, q, idx as int);
            }
            idx += 1;
        }
        proof {
            lemma_find_within_none(self@, q);
        }
        None
    }
}

/// If the points before `k` are unselected and `s[k]` is selected, the scan
/// stops at `k`.
proof fn lemma_find_selected_at(s: Seq<ControlPoint>, k: int)
    requires
        0 <= k < s.len(),
        s[k].is_selected,
        forall|i: int| 0 <= i < k ==> !(#[trigger] s[i]).is_selected,
    ensures
        spec_find_selected(s) == Some(k),
    decreases k,
{
    if k == 0 {
    } else {
        lemma_find_selected_at(s.skip(1), k - 1);
    }
}

/// A successful scan lands on a selected point inside the sequence.
proof fn lemma_find_selected_bounds(s: Seq<ControlPoint>)
    ensures
        spec_find_selected(s) matches Some(i) ==> 0 <= i < s.len() && s[i].is_selected,
    decreases s.len(),
{
    if s.len() > 0 && !s[0].is_selected {
        lemma_find_selected_bounds(s.skip(1));
        match spec_find_selected(s.skip(1)) {
            Some(i) => {
                assert(s.skip(1)[i] == s[i + 1]);
            },
            None => {},
        }
    }
}

/// While the prefix is unselected, a hit cannot lie inside it.
proof fn lemma_find_selected_skips(s: Seq<ControlPoint>, k: int)
    requires
        0 <= k < s.len(),
        forall|i: int| 0 <= i <= k ==> !(#[trigger] s[i]).is_selected,
    ensures
        spec_find_selected(s) matches Some(m) ==> m > k,
    decreases k,
{
    lemma_find_selected_bounds(s.skip(1));
    if k > 0 {
        assert forall|i: int| 0 <= i <= k - 1 implies !(#[trigger] s.skip(1)[i]).is_selected by {
            assert(s.skip(1)[i] == s[i + 1]);
        }
        lemma_find_selected_skips(s.skip(1), k - 1);
    }
}

proof fn lemma_find_selected_none(s: Seq<ControlPoint>)
    requires
        forall|i: int| 0 <= i < s.len() ==> !(#[trigger] s[i]).is_selected,
    ensures
        spec_find_selected(s) is None,
    decreases s.len(),
{
    if s.len() > 0 {
        lemma_find_selected_none(s.skip(1));
    }
}

/// When the scan finds nothing selected, nothing is.
pub proof fn lemma_none_selected(s: Seq<ControlPoint>)
    requires
        spec_find_selected(s) is None,
    ensures
        forall|i: int| 0 <= i < s.len() ==> !(#[trigger] s[i]).is_selected,
    decreases s.len(),
{
    if s.len() > 0 {
        lemma_none_selected(s.skip(1));
        assert forall|i: int| 0 <= i < s.len() implies !(#[trigger] s[i]).is_selected by {
            if i > 0 {
                assert(s.skip(1)[i - 1] == s[i]);
            }
        }
    }
}

proof fn lemma_find_within_at(s: Seq<ControlPoint>, q: Point, k: int)
    requires
        0 <= k < s.len(),
        within_hit_zone(s[k], q),
        forall|i: int| 0 <= i < k ==> !within_hit_zone(#[trigger] s[i], q),
    ensures
        spec_find_within_radius(s, q) == Some(k),
    decreases k,
{
    if k == 0 {
    } else {
        lemma_find_within_at(s.skip(1), q, k - 1);
    }
}

/// A successful scan lands on a point whose hit zone contains `q`.
proof fn lemma_find_within_bounds(s: Seq<ControlPoint>, q: Point)
    ensures
        spec_find_within_radius(s, q) matches Some(i) ==> 0 <= i < s.len() && within_hit_zone(
            s[i],
            q,
        ),
    decreases s.len(),
{
    if s.len() > 0 && !within_hit_zone(s[0], q) {
        lemma_find_within_bounds(s.skip(1), q);
        match spec_find_within_radius(s.skip(1), q) {
            Some(i) => {
                assert(s.skip(1)[i] == s[i + 1]);
            },
            None => {},
        }
    }
}

proof fn lemma_find_within_skips(s: Seq<ControlPoint>, q: Point, k: int)
    requires
        0 <= k < s.len(),
        forall|i: int| 0 <= i <= k ==> !within_hit_zone(#[trigger] s[i], q),
    ensures
        spec_find_within_radius(s, q) matches Some(m) ==> m > k,
    decreases k,
{
    lemma_find_within_bounds(s.skip(1), q);
    if k > 0 {
        assert forall|i: int| 0 <= i <= k - 1 implies !within_hit_zone(#[trigger] s.skip(1)[i], q) by {
            assert(s.skip(1)[i] == s[i + 1]);
        }
        lemma_find_within_skips(s.skip(1), q, k - 1);
    }
}

proof fn lemma_find_within_none(s: Seq<ControlPoint>, q: Point)
    requires
        forall|i: int| 0 <= i < s.len() ==> !within_hit_zone(#[trigger] s[i], q),
    ensures
        spec_find_within_radius(s, q) is None,
    decreases s.len(),
{
    if s.len() > 0 {
        lemma_find_within_none(s.skip(1), q);
    }
}

} // verus!
