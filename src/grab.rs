//! Pointer and touch grabs, and the pan gestures built from them.
//!
//! Motion of a grabbed press is coalesced: each motion sample only updates
//! the grab, and a single `PressMove` carrying the accumulated motion is
//! emitted when the grab is flushed.

use vstd::prelude::*;
use crate::event::{Event, MouseButton, PressSource};
use crate::geom::{fits_i32, Coord, Offset};
use crate::widget_id::WidgetId;

verus! {

/// Marks a grab that contributes to no pan gesture.
pub const NO_PAN: u16 = 65535;

/// Most touch points that one pan gesture takes into account.
pub const MAX_PAN_GRABS: usize = 2;

/// Reference from a press grab to the pan gesture it contributes to: the
/// gesture's slot (`NO_PAN` for none) and the point's index within it
#[derive(Copy, Clone, Debug, PartialEq, Eq, Structural)]
pub struct PanRef {
    pub slot: u16,
    pub index: u16,
}

/// One point of a pan gesture: where it started and where it is now
#[derive(Copy, Clone, Debug, PartialEq, Eq, Structural)]
pub struct PanPoint {
    pub start: Coord,
    pub cur: Coord,
}

/// Controls the types of events delivered for a grabbed press
#[derive(Copy, Clone, Debug, PartialEq, Eq, Structural)]
pub enum GrabMode {
    /// Deliver `PressMove` and `PressEnd` for each press
    Grab,
    /// Deliver pan events, with scaling and rotation
    PanFull,
    /// Deliver pan events, with scaling
    PanScale,
    /// Deliver pan events, with rotation
    PanRotate,
    /// Deliver pan events, without scaling or rotation
    PanOnly,
}

/// A grab of the mouse by the widget `start_id`
#[derive(Debug)]
pub struct MouseGrab {
    pub button: MouseButton,
    pub repetitions: u32,
    pub start_id: WidgetId,
    pub cur_id: Option<WidgetId>,
    pub depress: Option<WidgetId>,
    pub mode: GrabMode,
    pub pan_grab: PanRef,
    pub coord: Coord,
    /// Motion accumulated since the last flush
    pub delta: Offset,
}

/// A grab of one touch point by the widget `start_id`
#[derive(Debug)]
pub struct TouchGrab {
    pub id: u64,
    pub start_id: WidgetId,
    pub depress: Option<WidgetId>,
    pub cur_id: Option<WidgetId>,
    /// Position at the last flush
    pub last_move: Coord,
    pub coord: Coord,
    pub mode: GrabMode,
    pub pan_grab: PanRef,
}

/// A pan gesture on widget `id`, from up to two points: for each, the
/// `(start, current)` coordinates
#[derive(Debug)]
pub struct PanGrab {
    pub id: WidgetId,
    pub mode: GrabMode,
    pub source_is_touch: bool,
    /// Number of points contributing (may exceed the points recorded)
    pub n: u16,
    pub coords: [PanPoint; 2],
}

/// The mouse grab after one motion sample to `coord`, by `delta`, over
/// `cur_id`
pub open spec fn mouse_moved(g: MouseGrab, coord: Coord, delta: Offset, cur_id: Option<WidgetId>) -> MouseGrab {
    MouseGrab {
        coord,
        cur_id,
        delta: Offset((g.delta.0 + delta.0) as i32, (g.delta.1 + delta.1) as i32),
        ..g
    }
}

/// The event a flush of mouse grab `g` emits, if any
pub open spec fn mouse_flush_event(g: MouseGrab) -> Option<(WidgetId, Event)> {
    if g.delta != Offset(0, 0) {
        Some(
            (
                g.start_id,
                Event::PressMove {
                    source: PressSource::Mouse(g.button, g.repetitions),
                    cur_id: g.cur_id,
                    coord: g.coord,
                    delta: g.delta,
                },
            ),
        )
    } else {
        None
    }
}

impl MouseGrab {
    /// Record one motion sample: move to `coord` over `cur_id`, adding
    /// `delta` to the pending motion
    pub fn add_move(&mut self, coord: Coord, delta: Offset, cur_id: Option<WidgetId>)
        requires
            fits_i32(old(self).delta.0 + delta.0),
            fits_i32(old(self).delta.1 + delta.1),
        ensures
            *final(self) == mouse_moved(*old(self), coord, delta, cur_id),
    {
        self.delta = self.delta.add(delta);
        self.coord = coord;
        self.cur_id = cur_id;
    }

    /// Emit the pending motion as one `PressMove` event for `start_id`, if
    /// there is any, and clear it
    pub fn flush_move(&mut self) -> (r: Option<(WidgetId, Event)>)
        ensures
            r == mouse_flush_event(*old(self)),
            *final(self) == (MouseGrab { delta: Offset(0, 0), ..*old(self) }),
    {
        if self.delta != Offset(0, 0) {
            let event = Event::PressMove {
                source: PressSource::Mouse(self.button, self.repetitions),
                cur_id: clone_opt(&self.cur_id),
                coord: self.coord,
                delta: self.delta,
            };
            self.delta = Offset(0, 0);
            Some((self.start_id.clone(), event))
        } else {
            None
        }
    }
}

/// A copy of an optional identifier
pub fn clone_opt(id: &Option<WidgetId>) -> (r: Option<WidgetId>)
    ensures
        r == *id,
{
    match id {
        Some(i) => Some(i.clone()),
        None => None,
    }
}

/// The event a flush of touch grab `g` emits, if any
pub open spec fn touch_flush_event(g: TouchGrab) -> Option<(WidgetId, Event)> {
    if g.last_move != g.coord {
        Some(
            (
                g.start_id,
                Event::PressMove {
                    source: PressSource::Touch(g.id),
                    cur_id: g.cur_id,
                    coord: g.coord,
                    delta: Offset((g.coord.0 - g.last_move.0) as i32, (g.coord.1 - g.last_move.1) as i32),
                },
            ),
        )
    } else {
        None
    }
}

impl TouchGrab {
    /// Record one motion sample: move to `coord` over `cur_id`
    pub fn add_move(&mut self, coord: Coord, cur_id: Option<WidgetId>)
        ensures
            *final(self) == (TouchGrab { coord, cur_id, ..*old(self) }),
    {
        self.coord = coord;
        self.cur_id = cur_id;
    }

    /// Emit the motion since the last flush as one `PressMove` event for
    /// `start_id`, if the point moved
    pub fn flush_move(&mut self) -> (r: Option<(WidgetId, Event)>)
        requires
            fits_i32(old(self).coord.0 - old(self).last_move.0),
            fits_i32(old(self).coord.1 - old(self).last_move.1),
        ensures
            r == touch_flush_event(*old(self)),
            *final(self) == (TouchGrab { last_move: old(self).coord, ..*old(self) }),
    {
        if self.last_move != self.coord {
            let d = self.coord.sub(self.last_move);
            let event = Event::PressMove {
                source: PressSource::Touch(self.id),
                cur_id: clone_opt(&self.cur_id),
                coord: self.coord,
                delta: d,
            };
            self.last_move = self.coord;
            Some((self.start_id.clone(), event))
        } else {
            None
        }
    }
}

/// Sum of a sequence of motion deltas, on each axis
pub open spec fn sum_deltas(ds: Seq<Offset>) -> (int, int)
    decreases ds.len(),
{
    if ds.len() == 0 {
        (0, 0)
    } else {
        let s = sum_deltas(ds.drop_last());
        (s.0 + ds.last().0, s.1 + ds.last().1)
    }
}

/// The mouse grab after motion samples `ds` (each with its coordinate and
/// hovered widget in `coords` and `curs`)
pub open spec fn mouse_moved_all(
    g: MouseGrab,
    coords: Seq<Coord>,
    ds: Seq<Offset>,
    curs: Seq<Option<WidgetId>>,
) -> MouseGrab
    decreases ds.len(),
{
    if ds.len() == 0 {
        g
    } else {
        let n = ds.len() - 1;
        mouse_moved(
            mouse_moved_all(g, coords.take(n), ds.take(n), curs.take(n)),
            coords[n],
            ds[n],
            curs[n],
        )
    }
}

/// Motion coalescing: starting from a flushed mouse grab, any number `N > 0`
/// of motion samples followed by a flush emit exactly one `PressMove`, which
/// carries the sum of the samples' deltas (when that is non-zero) and the
/// last sample's position; a second flush emits nothing.
pub proof fn lemma_grab_coalescing(g: MouseGrab, coords: Seq<Coord>, ds: Seq<Offset>, curs: Seq<Option<WidgetId>>)
    requires
        g.delta == Offset(0, 0),
        ds.len() > 0,
        coords.len() == ds.len(),
        curs.len() == ds.len(),
        forall|k: int|
            0 <= k <= ds.len() ==> fits_i32(#[trigger] sum_deltas(ds.take(k)).0) && fits_i32(
                sum_deltas(ds.take(k)).1,
            ),
    ensures
        ({
            let moved = mouse_moved_all(g, coords, ds, curs);
            let total = sum_deltas(ds);
            &&& moved.delta.0 == total.0 && moved.delta.1 == total.1
            &&& (total.0 != 0 || total.1 != 0) ==> mouse_flush_event(moved) == Some(
                (
                    g.start_id,
                    Event::PressMove {
                        source: PressSource::Mouse(g.button, g.repetitions),
                        cur_id: curs.last(),
                        coord: coords.last(),
                        delta: moved.delta,
                    },
                ),
            )
            &&& mouse_flush_event(MouseGrab { delta: Offset(0, 0), ..moved }) is None
        }),
{
    lemma_moved_all(g, coords, ds, curs);
}

proof fn lemma_moved_all(g: MouseGrab, coords: Seq<Coord>, ds: Seq<Offset>, curs: Seq<Option<WidgetId>>)
    requires
        g.delta == Offset(0, 0),
        coords.len() == ds.len(),
        curs.len() == ds.len(),
        forall|k: int|
            0 <= k <= ds.len() ==> fits_i32(#[trigger] sum_deltas(ds.take(k)).0) && fits_i32(
                sum_deltas(ds.take(k)).1,
            ),
    ensures
        ({
            let moved = mouse_moved_all(g, coords, ds, curs);
            &&& moved.delta.0 == sum_deltas(ds).0 && moved.delta.1 == sum_deltas(ds).1
            &&& moved.start_id == g.start_id && moved.button == g.button
            &&& moved.repetitions == g.repetitions
            &&& ds.len() > 0 ==> moved.coord == coords.last() && moved.cur_id == curs.last()
        }),
    decreases ds.len(),
{
    if ds.len() > 0 {
        let n = ds.len() - 1;
        assert forall|k: int| 0 <= k <= n implies fits_i32(#[trigger] sum_deltas(ds.take(n).take(k)).0)
            && fits_i32(sum_deltas(ds.take(n).take(k)).1) by {
            assert(ds.take(n).take(k) =~= ds.take(k));
        }
        lemma_moved_all(g, coords.take(n), ds.take(n), curs.take(n));
        assert(ds.take(ds.len() as int) =~= ds);
        assert(ds.drop_last() =~= ds.take(n));
        assert(fits_i32(sum_deltas(ds.take(ds.len() as int)).0));
    } else {
        assert(sum_deltas(ds) == (0int, 0int));
    }
}

} // verus!
