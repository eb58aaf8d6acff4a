//! Window-scoped event state: focus, hover, grabs, pan gestures, pop-ups,
//! accelerator keys and deferred notifications.
//!
//! Focus changes never notify widgets directly: the notifications are
//! queued as [`Pending`] actions and delivered after the current dispatch.

use vstd::prelude::*;
use crate::config::{shortcut_of, Shortcuts};
use crate::event::{Command, Event, ModifiersState, MouseButton, PressSource, VirtualKeyCode, WindowId};
use crate::geom::Direction;
use crate::grab::{
    clone_opt, GrabMode, MouseGrab, PanGrab, PanPoint, PanRef, TouchGrab, MAX_PAN_GRABS, NO_PAN,
};
use crate::geom::{fits_i32, Coord, Offset};
use crate::slots::{
    depress_values, is_value, depress_insert, depress_map, depress_new, depress_remove, pan_get,
    pan_get_mut, pan_items, pan_len, pan_new, pan_push, pan_remove, pending_items, pending_new,
    pending_push, pending_take_all, popup_get, popup_items, popup_len, popup_new, popup_pop,
    popup_push, popup_remove, removed_items, removed_new, removed_push, removed_take_all, RemovedPopups, touch_get, touch_get_mut, touch_items, touch_len, touch_new,
    DepressMap, PanGrabs, PendingQueue, Popups, TouchGrabs,
};
use crate::widget_id::{holds, holds_id, WidgetId};

verus! {

/// A notification deferred until the current dispatch completes
#[derive(Debug)]
pub enum Pending {
    /// The widget lost character focus
    LostCharFocus(WidgetId),
    /// The widget lost selection focus
    LostSelFocus(WidgetId),
    /// The widget gained navigation focus (true when by key)
    SetNavFocus(WidgetId, bool),
}

/// A widget shown outside the normal layout of its parent
#[derive(Debug)]
pub struct Popup {
    pub id: WidgetId,
    pub parent: WidgetId,
    pub direction: Direction,
}

/// An open pop-up: its window, its descriptor, and the navigation focus to
/// restore when it closes
#[derive(Debug)]
pub struct PopupEntry {
    pub window: WindowId,
    pub popup: Popup,
    pub old_nav_focus: Option<WidgetId>,
}

/// A layer of accelerator keys, active while the widget `id` is the root or
/// the parent of an open pop-up
#[derive(Debug)]
pub struct AccelLayer {
    pub id: WidgetId,
    /// Active without Alt held
    pub alt_bypass: bool,
    /// Key bindings, the first match applying
    pub keys: Vec<(VirtualKeyCode, WidgetId)>,
}

/// Mouse cursor shapes
#[derive(Copy, Clone, Debug, PartialEq, Eq, Structural, Hash)]
pub enum CursorIcon {
    Default,
    Pointer,
    Text,
    Grab,
    Grabbing,
    Move,
}

/// Event state of one window
pub struct EventState {
    pub modifiers: ModifiersState,
    /// Whether `sel_focus` also receives character input
    pub char_focus: bool,
    pub sel_focus: Option<WidgetId>,
    pub nav_focus: Option<WidgetId>,
    pub nav_fallback: Option<WidgetId>,
    pub hover: Option<WidgetId>,
    pub hover_icon: CursorIcon,
    pub key_depress: DepressMap,
    pub mouse_grab: Option<MouseGrab>,
    pub touch_grab: TouchGrabs,
    pub pan_grab: PanGrabs,
    pub accel_layers: Vec<AccelLayer>,
    /// Open pop-ups, innermost last
    pub popups: Popups,
    pub pending: PendingQueue,
    pub shortcuts: Shortcuts,
    /// Requested timer wake-ups, in order of request
    pub timers: Vec<TimerRequest>,
    /// Pop-ups closed and not yet notified: parent and window
    pub popup_removed: RemovedPopups,
}

/// A request to wake widget `id` with `token` at or after `deadline`
/// (a time in milliseconds on the event loop's clock)
#[derive(Debug)]
pub struct TimerRequest {
    pub deadline: u64,
    pub id: WidgetId,
    pub token: u64,
}

/// `a` and `b` are both empty, or hold equal identifiers
pub open spec fn same_opt(a: Option<WidgetId>, b: Option<WidgetId>) -> bool {
    match (a, b) {
        (None, None) => true,
        (Some(x), Some(y)) => x@ == y@,
        _ => false,
    }
}

/// A grab's reference to a pan gesture is `NO_PAN` or a live slot
pub open spec fn pan_ref_ok(slot: u16, n: int) -> bool {
    slot == NO_PAN || slot < n
}

fn same_opt_id(a: &Option<WidgetId>, b: &Option<WidgetId>) -> (r: bool)
    ensures
        r == same_opt(*a, *b),
{
    match (a, b) {
        (None, None) => true,
        (Some(x), Some(y)) => x == y,
        _ => false,
    }
}

/// Notifications for the loss of selection focus by the holder `sel`, if
/// any: of character focus first where it had that too
pub open spec fn lost_focus(sel: Option<WidgetId>, char_focus: bool) -> Seq<Pending> {
    match sel {
        Some(id) => if char_focus {
            seq![Pending::LostCharFocus(id), Pending::LostSelFocus(id)]
        } else {
            seq![Pending::LostSelFocus(id)]
        },
        None => Seq::empty(),
    }
}

impl EventState {
    /// Validity: character focus implies selection focus, no two
    /// accelerator layers belong to equal widgets, and every grab's
    /// reference to a pan gesture names a live slot
    pub open spec fn wf(&self) -> bool {
        &&& self.char_focus ==> self.sel_focus is Some
        &&& layers_unique(self.accel_layers@)
        &&& pan_items(self.pan_grab).len() < NO_PAN
        &&& self.mouse_grab is Some ==> pan_ref_ok(
            self.mouse_grab.unwrap().pan_grab.slot,
            pan_items(self.pan_grab).len() as int,
        )
        &&& forall|i: int|
            0 <= i < touch_items(self.touch_grab).len() ==> pan_ref_ok(
                (#[trigger] touch_items(self.touch_grab)[i]).pan_grab.slot,
                pan_items(self.pan_grab).len() as int,
            )
    }

    /// Navigation focus after it is set to `id`: unchanged where `id`
    /// already has it
    pub open spec fn nav_after(self, id: WidgetId) -> Option<WidgetId> {
        if holds(self.nav_focus, id) { self.nav_focus } else { Some(id) }
    }

    /// Pending notifications after navigation focus is set to `id`: `id` is
    /// notified unless it already had it
    pub open spec fn pending_after_nav(self, id: WidgetId, key_focus: bool) -> Seq<Pending> {
        if holds(self.nav_focus, id) {
            pending_items(self.pending)
        } else {
            pending_items(self.pending).push(Pending::SetNavFocus(id, key_focus))
        }
    }

    /// `next` is this state after pan gesture slot `index` is removed: the
    /// slots after it move down by one, every grab's reference is renumbered
    /// to match ([`slot_after_removal`]), and nothing else changes
    pub open spec fn pan_removed(self, next: EventState, index: int) -> bool {
        &&& pan_items(next.pan_grab) == pan_items(self.pan_grab).remove(index)
        &&& self.mouse_grab is None ==> next.mouse_grab is None
        &&& self.mouse_grab is Some ==> {
            let a = self.mouse_grab.unwrap();
            next.mouse_grab == Some(
                MouseGrab { pan_grab: PanRef { slot: slot_after_removal(a.pan_grab.slot, index), ..a.pan_grab }, ..a },
            )
        }
        &&& touch_items(next.touch_grab).len() == touch_items(self.touch_grab).len()
        &&& forall|i: int|
            0 <= i < touch_items(self.touch_grab).len() ==> {
                let a = touch_items(self.touch_grab)[i];
                #[trigger] touch_items(next.touch_grab)[i] == (TouchGrab {
                    pan_grab: PanRef { slot: slot_after_removal(a.pan_grab.slot, index), ..a.pan_grab },
                    ..a
                })
            }
        &&& next.same_pan_context(self)
    }

    /// `next` is this state after point `g` of a pan gesture is released
    /// (see [`Self::remove_pan_grab`])
    pub open spec fn point_released_from(self, next: EventState, g: PanRef) -> bool {
        let items = pan_items(self.pan_grab);
        if g.slot == NO_PAN || g.slot >= items.len() {
            next == self
        } else if items[g.slot as int].n <= 1 {
            self.pan_removed(next, g.slot as int)
        } else {
            let before = items[g.slot as int];
            let after = pan_items(next.pan_grab);
            &&& after.len() == items.len()
            &&& after[g.slot as int].n == before.n - 1
            &&& after[g.slot as int].id == before.id
            &&& forall|j: int| 0 <= j < items.len() && j != g.slot ==> #[trigger] after[j] == items[j]
            &&& next.mouse_grab == self.mouse_grab
            &&& touch_items(next.touch_grab).len() == touch_items(self.touch_grab).len()
            &&& forall|j: int|
                0 <= j < touch_items(self.touch_grab).len() ==> #[trigger] touch_items(next.touch_grab)[j]
                    == point_released(touch_items(self.touch_grab)[j], g)
            &&& next.same_pan_context(self)
        }
    }

    /// All but the grab and pan fields are equal
    pub open spec fn same_pan_context(self, other: EventState) -> bool {
        &&& self.modifiers == other.modifiers
        &&& self.char_focus == other.char_focus
        &&& self.sel_focus == other.sel_focus
        &&& self.nav_focus == other.nav_focus
        &&& self.nav_fallback == other.nav_fallback
        &&& self.hover == other.hover
        &&& self.hover_icon == other.hover_icon
        &&& self.key_depress == other.key_depress
        &&& self.accel_layers@ == other.accel_layers@
        &&& popup_items(self.popups) == popup_items(other.popups)
        &&& pending_items(self.pending) == pending_items(other.pending)
        &&& self.shortcuts == other.shortcuts
        &&& self.timers@ == other.timers@
        &&& self.popup_removed == other.popup_removed
    }

    /// All but the focus fields and pending notifications are equal
    pub open spec fn same_but_focus(self, other: EventState) -> bool {
        &&& self.modifiers == other.modifiers
        &&& self.nav_fallback == other.nav_fallback
        &&& self.hover == other.hover
        &&& self.hover_icon == other.hover_icon
        &&& self.key_depress == other.key_depress
        &&& self.mouse_grab == other.mouse_grab
        &&& self.touch_grab == other.touch_grab
        &&& self.pan_grab == other.pan_grab
        &&& self.accel_layers@ == other.accel_layers@
        &&& popup_items(self.popups) == popup_items(other.popups)
        &&& self.shortcuts == other.shortcuts
        &&& self.timers@ == other.timers@
        &&& self.popup_removed == other.popup_removed
    }

    /// A fresh state: no focus, grab, pop-up or pending notification
    pub fn new(shortcuts: Shortcuts) -> (r: EventState)
        ensures
            r.wf(),
            !r.char_focus,
            r.sel_focus is None && r.nav_focus is None && r.nav_fallback is None,
            r.hover is None,
            r.mouse_grab is None,
            touch_items(r.touch_grab).len() == 0,
            pan_items(r.pan_grab).len() == 0,
            depress_map(r.key_depress).dom().len() == 0,
            r.accel_layers@.len() == 0,
            popup_items(r.popups).len() == 0,
            pending_items(r.pending).len() == 0,
            r.shortcuts == shortcuts,
            r.timers@.len() == 0,
            removed_items(r.popup_removed).len() == 0,
    {
        EventState {
            modifiers: ModifiersState::empty(),
            char_focus: false,
            sel_focus: None,
            nav_focus: None,
            nav_fallback: None,
            hover: None,
            hover_icon: CursorIcon::Default,
            key_depress: depress_new(),
            mouse_grab: None,
            touch_grab: touch_new(),
            pan_grab: pan_new(),
            accel_layers: Vec::new(),
            popups: popup_new(),
            pending: pending_new(),
            shortcuts,
            timers: Vec::new(),
            popup_removed: removed_new(),
        }
    }

    /// The widget with character focus, if any
    pub fn char_focus(&self) -> (r: Option<WidgetId>)
        ensures
            r == (if self.char_focus { self.sel_focus } else { None }),
    {
        if self.char_focus {
            clone_opt(&self.sel_focus)
        } else {
            None
        }
    }

    /// Set navigation focus to `id`, notifying it after the dispatch unless
    /// it already had it
    pub fn set_nav_focus(&mut self, id: WidgetId, key_focus: bool)
        ensures
            final(self).same_but_focus(*old(self)),
            final(self).char_focus == old(self).char_focus,
            final(self).sel_focus == old(self).sel_focus,
            final(self).nav_focus == old(self).nav_after(id),
            pending_items(final(self).pending) == old(self).pending_after_nav(id, key_focus),
            old(self).wf() ==> final(self).wf(),
            holds(final(self).nav_focus, id),
    {
        if !holds_id(&self.nav_focus, &id) {
            self.nav_focus = Some(id.clone());
            pending_push(&mut self.pending, Pending::SetNavFocus(id, key_focus));
        }
    }

    /// Set the widget that receives commands which nothing else used
    pub fn set_nav_fallback(&mut self, id: WidgetId)
        ensures
            final(self).nav_fallback == Some(id),
            final(self).modifiers == old(self).modifiers,
            final(self).char_focus == old(self).char_focus,
            final(self).sel_focus == old(self).sel_focus,
            final(self).nav_focus == old(self).nav_focus,
            pending_items(final(self).pending) == pending_items(old(self).pending),
            final(self).hover == old(self).hover,
            final(self).mouse_grab == old(self).mouse_grab,
            final(self).touch_grab == old(self).touch_grab,
            final(self).pan_grab == old(self).pan_grab,
            popup_items(final(self).popups) == popup_items(old(self).popups),
            final(self).accel_layers@ == old(self).accel_layers@,
            old(self).wf() ==> final(self).wf(),
    {
        self.nav_fallback = Some(id);
    }

    /// Remove character focus, queuing a notification to its holder
    pub fn clear_char_focus(&mut self)
        requires
            old(self).wf(),
        ensures
            final(self).wf(),
            !final(self).char_focus,
            final(self).same_but_focus(*old(self)),
            final(self).sel_focus == old(self).sel_focus,
            final(self).nav_focus == old(self).nav_focus,
            pending_items(final(self).pending) == (if old(self).char_focus {
                pending_items(old(self).pending).push(Pending::LostCharFocus(old(self).sel_focus.unwrap()))
            } else {
                pending_items(old(self).pending)
            }),
    {
        if let Some(id) = self.char_focus() {
            self.char_focus = false;
            pending_push(&mut self.pending, Pending::LostCharFocus(id));
        }
    }

    /// Set selection focus to `wid`, and character focus too if
    /// `char_focus`
    ///
    /// `wid` also receives navigation focus. Where `wid` already has
    /// selection focus, character focus is only ever added. Otherwise the
    /// previous holder loses character focus (if it had it) and selection
    /// focus, by notifications queued in that order.
    pub fn set_sel_focus(&mut self, wid: WidgetId, char_focus: bool)
        requires
            old(self).wf(),
        ensures
            final(self).wf(),
            holds(final(self).nav_focus, wid),
            holds(final(self).sel_focus, wid),
            final(self).same_but_focus(*old(self)),
            final(self).nav_focus == old(self).nav_after(wid),
            holds(old(self).sel_focus, wid) ==> {
                &&& final(self).char_focus == (old(self).char_focus || char_focus)
                &&& final(self).sel_focus == old(self).sel_focus
                &&& pending_items(final(self).pending) == old(self).pending_after_nav(wid, true)
            },
            !holds(old(self).sel_focus, wid) ==> {
                &&& final(self).char_focus == char_focus
                &&& final(self).sel_focus == Some(wid)
                &&& pending_items(final(self).pending) == old(self).pending_after_nav(wid, true) + lost_focus(
                    old(self).sel_focus,
                    old(self).char_focus,
                )
            },
    {
        self.set_nav_focus(wid.clone(), true);
        if holds_id(&self.sel_focus, &wid) {
            self.char_focus = self.char_focus || char_focus;
            return;
        }
        let ghost queued = pending_items(self.pending);
        if let Some(id) = clone_opt(&self.sel_focus) {
            if self.char_focus {
                pending_push(&mut self.pending, Pending::LostCharFocus(id.clone()));
            }
            pending_push(&mut self.pending, Pending::LostSelFocus(id));
        }
        self.char_focus = char_focus;
        self.sel_focus = Some(wid);
        proof {
            assert(pending_items(self.pending) =~= queued + lost_focus(old(self).sel_focus, old(self).char_focus));
        }
    }
}


/// A touch grab after point `g` of its pan gesture is released: points
/// after it in the same gesture move down by one
pub open spec fn point_released(t: TouchGrab, g: PanRef) -> TouchGrab {
    if t.pan_grab.slot == g.slot && t.pan_grab.index > g.index {
        TouchGrab { pan_grab: PanRef { index: (t.pan_grab.index - 1) as u16, ..t.pan_grab }, ..t }
    } else {
        t
    }
}

/// Index of the first pan gesture on a widget equal to `id`, from index
/// `i` on
pub open spec fn pan_index(items: Seq<PanGrab>, id: WidgetId, i: int) -> Option<int>
    decreases items.len() - i,
{
    if i < 0 || i >= items.len() {
        None
    } else if items[i].id@ == id@ {
        Some(i)
    } else {
        pan_index(items, id, i + 1)
    }
}

proof fn lemma_pan_index_range(items: Seq<PanGrab>, id: WidgetId, k: int)
    requires
        0 <= k,
    ensures
        match pan_index(items, id, k) {
            Some(i) => k <= i < items.len() && items[i].id@ == id@,
            None => true,
        },
    decreases items.len() - k,
{
    if k < items.len() {
        lemma_pan_index_range(items, id, k + 1);
    }
}

/// No two layers belong to equal widgets
pub open spec fn layers_unique(layers: Seq<AccelLayer>) -> bool {
    forall|i: int, j: int| 0 <= i < j < layers.len() ==> (#[trigger] layers[i]).id@ != (#[trigger] layers[j]).id@
}

/// A grab's pan slot after slot `index` is removed: later slots move down by
/// one, and a reference to the removed slot is dropped
pub open spec fn slot_after_removal(slot: u16, index: int) -> u16 {
    if slot == NO_PAN {
        NO_PAN
    } else if slot > index {
        (slot - 1) as u16
    } else if slot == index {
        NO_PAN
    } else {
        slot
    }
}

fn renumbered(slot: u16, index: usize) -> (r: u16)
    ensures
        r == slot_after_removal(slot, index as int),
{
    if slot == NO_PAN {
        NO_PAN
    } else if slot as usize > index {
        slot - 1
    } else if slot as usize == index {
        NO_PAN
    } else {
        slot
    }
}

impl EventState {
    /// Remove pan gesture slot `index`, renumbering every grab's reference
    /// to the slots after it, and dropping references to it
    pub fn remove_pan(&mut self, index: usize)
        requires
            old(self).wf(),
            index < pan_items(old(self).pan_grab).len(),
        ensures
            final(self).wf(),
            old(self).pan_removed(*final(self), index as int),
    {
        let _ = pan_remove(&mut self.pan_grab, index);
        if let Some(grab) = &mut self.mouse_grab {
            grab.pan_grab.slot = renumbered(grab.pan_grab.slot, index);
        }
        let n = touch_len(&self.touch_grab);
        let ghost old_touch = touch_items(self.touch_grab);
        let ghost mid_mouse = self.mouse_grab;
        let ghost mid_pan = self.pan_grab;
        let mut i: usize = 0;
        while i < n
            invariant
                self.mouse_grab == mid_mouse,
                self.pan_grab == mid_pan,
                pan_items(mid_pan) == pan_items(old(self).pan_grab).remove(index as int),
                self.same_pan_context(*old(self)),
                old_touch == touch_items(old(self).touch_grab),
                old(self).wf(),
                n == old_touch.len() == touch_items(self.touch_grab).len(),
                i <= n,
                index < pan_items(old(self).pan_grab).len(),
                pan_items(self.pan_grab).len() == pan_items(old(self).pan_grab).len() - 1,
                forall|j: int|
                    0 <= j < i ==> {
                        let (a, b) = (old_touch[j], #[trigger] touch_items(self.touch_grab)[j]);
                        b == (TouchGrab {
                            pan_grab: PanRef {
                                slot: slot_after_removal(a.pan_grab.slot, index as int),
                                ..a.pan_grab
                            },
                            ..a
                        })
                    },
                forall|j: int| i <= j < n ==> #[trigger] touch_items(self.touch_grab)[j] == old_touch[j],
            decreases n - i,
        {
            let grab = touch_get_mut(&mut self.touch_grab, i);
            grab.pan_grab.slot = renumbered(grab.pan_grab.slot, index);
            i = i + 1;
        }
    }
}


/// Removing a pan slot leaves no dangling reference: a grab that referenced
/// a surviving gesture references the same gesture afterwards, one slot
/// lower where it stood after the removed one; a grab that referenced the
/// removed gesture references none.
pub proof fn lemma_slot_renumbering(before: Seq<PanGrab>, index: int, slot: u16)
    requires
        0 <= index < before.len() < NO_PAN,
        pan_ref_ok(slot, before.len() as int),
    ensures
        ({
            let after = before.remove(index);
            let s2 = slot_after_removal(slot, index);
            &&& pan_ref_ok(s2, after.len() as int)
            &&& slot != NO_PAN && slot > index ==> s2 == slot - 1
            &&& slot != NO_PAN && slot < index ==> s2 == slot
            &&& slot != NO_PAN && slot != index ==> after[s2 as int] == before[slot as int]
            &&& slot == index ==> s2 == NO_PAN
        }),
{
}

impl EventState {
    /// Index of the first touch grab with touch identifier `touch_id`
    pub fn get_touch(&self, touch_id: u64) -> (r: Option<usize>)
        ensures
            match r {
                Some(i) => i < touch_items(self.touch_grab).len() && touch_items(self.touch_grab)[i as int].id
                    == touch_id && forall|j: int|
                    0 <= j < i ==> (#[trigger] touch_items(self.touch_grab)[j]).id != touch_id,
                None => forall|j: int|
                    0 <= j < touch_items(self.touch_grab).len() ==> (#[trigger] touch_items(
                        self.touch_grab,
                    )[j]).id != touch_id,
            },
    {
        let n = touch_len(&self.touch_grab);
        let mut i: usize = 0;
        while i < n
            invariant
                n == touch_items(self.touch_grab).len(),
                i <= n,
                forall|j: int| 0 <= j < i ==> (#[trigger] touch_items(self.touch_grab)[j]).id != touch_id,
            decreases n - i,
        {
            if touch_get(&self.touch_grab, i).id == touch_id {
                return Some(i);
            }
            i = i + 1;
        }
        None
    }

    /// Remove and return the first touch grab with identifier `touch_id`
    ///
    /// Its pan gesture, if any, is left for [`Self::remove_pan_grab`].
    pub fn remove_touch(&mut self, touch_id: u64) -> (r: Option<TouchGrab>)
        requires
            old(self).wf(),
        ensures
            final(self).wf(),
            final(self).same_pan_context(*old(self)),
            final(self).mouse_grab == old(self).mouse_grab,
            final(self).pan_grab == old(self).pan_grab,
            match r {
                Some(g) => exists|i: int|
                    0 <= i < touch_items(old(self).touch_grab).len() && touch_items(old(self).touch_grab)[i]
                        == g && g.id == touch_id && touch_items(final(self).touch_grab) == touch_items(
                        old(self).touch_grab,
                    ).remove(i),
                None => touch_items(final(self).touch_grab) == touch_items(old(self).touch_grab)
                    && forall|j: int|
                    0 <= j < touch_items(old(self).touch_grab).len() ==> (#[trigger] touch_items(
                        old(self).touch_grab,
                    )[j]).id != touch_id,
            },
    {
        match self.get_touch(touch_id) {
            Some(i) => {
                let g = crate::slots::touch_remove(&mut self.touch_grab, i);
                proof {
                    let before = touch_items(old(self).touch_grab);
                    assert forall|j: int| 0 <= j < touch_items(self.touch_grab).len() implies pan_ref_ok(
                        (#[trigger] touch_items(self.touch_grab)[j]).pan_grab.slot,
                        pan_items(self.pan_grab).len() as int,
                    ) by {
                        if j < i {
                            assert(touch_items(self.touch_grab)[j] == before[j]);
                        } else {
                            assert(touch_items(self.touch_grab)[j] == before[j + 1]);
                        }
                    }
                }
                Some(g)
            },
            None => None,
        }
    }

    /// Index of the first pan gesture on a widget equal to `id`, if any
    fn find_pan(&self, id: &WidgetId) -> (r: Option<usize>)
        ensures
            match r {
                Some(i) => i < pan_items(self.pan_grab).len() && pan_items(self.pan_grab)[i as int].id@
                    == id@,
                None => forall|j: int|
                    0 <= j < pan_items(self.pan_grab).len() ==> (#[trigger] pan_items(self.pan_grab)[j]).id@
                        != id@,
            },
            r == (match pan_index(pan_items(self.pan_grab), *id, 0) {
                Some(i) => Some(i as usize),
                None => None,
            }),
    {
        let n = pan_len(&self.pan_grab);
        let mut i: usize = 0;
        while i < n
            invariant
                n == pan_items(self.pan_grab).len(),
                i <= n,
                forall|j: int| 0 <= j < i ==> (#[trigger] pan_items(self.pan_grab)[j]).id@ != id@,
                pan_index(pan_items(self.pan_grab), *id, 0) == pan_index(pan_items(self.pan_grab), *id, i as int),
            decreases n - i,
        {
            if pan_get(&self.pan_grab, i).id == *id {
                return Some(i);
            }
            i = i + 1;
        }
        None
    }

    /// Add a point at `coord` to the pan gesture on `id`, starting one if
    /// there is none (or replacing one from the other kind of source)
    ///
    /// Returns the reference to store in the grab: the gesture's slot and
    /// the point's index in it. Where no slot is free the slot is `NO_PAN`.
    pub fn set_pan_on(&mut self, id: WidgetId, mode: GrabMode, source_is_touch: bool, coord: Coord) -> (r:
        PanRef)
        requires
            old(self).wf(),
        ensures
            final(self).wf(),
            final(self).same_pan_context(*old(self)),
            old(self).mouse_grab is None ==> final(self).mouse_grab is None,
            touch_items(final(self).touch_grab).len() == touch_items(old(self).touch_grab).len(),
            r.slot != NO_PAN ==> {
                &&& r.slot < pan_items(final(self).pan_grab).len()
                &&& pan_items(final(self).pan_grab)[r.slot as int].id@ == id@
                &&& pan_items(final(self).pan_grab)[r.slot as int].source_is_touch == source_is_touch
            },
            ({
                let before = pan_items(old(self).pan_grab);
                let after = pan_items(final(self).pan_grab);
                match pan_index(before, id, 0) {
                    Some(gi) if before[gi].source_is_touch == source_is_touch => {
                        &&& r == PanRef { slot: gi as u16, index: before[gi].n }
                        &&& after.len() == before.len()
                        &&& after[gi].n == if before[gi].n < NO_PAN - 1 { (before[gi].n + 1) as u16 } else { before[gi].n }
                        &&& before[gi].n < MAX_PAN_GRABS ==> after[gi].coords[before[gi].n as int] == PanPoint {
                            start: coord,
                            cur: coord,
                        }
                        &&& forall|x: int|
                            0 <= x < MAX_PAN_GRABS && x != before[gi].n ==> #[trigger] after[gi].coords[x]
                                == before[gi].coords[x]
                        &&& after[gi].id == before[gi].id
                        &&& after[gi].mode == before[gi].mode
                        &&& after[gi].source_is_touch == before[gi].source_is_touch
                        &&& forall|j: int| 0 <= j < before.len() && j != gi ==> #[trigger] after[j] == before[j]
                        &&& final(self).mouse_grab == old(self).mouse_grab
                        &&& final(self).touch_grab == old(self).touch_grab
                    },
                    _ => {
                        let kept = match pan_index(before, id, 0) {
                            Some(gi) => before.remove(gi),
                            None => before,
                        };
                        if kept.len() + 1 < NO_PAN {
                            &&& after.len() == kept.len() + 1
                            &&& after.drop_last() == kept
                            &&& r == PanRef { slot: kept.len() as u16, index: 0 }
                            &&& after.last().n == 1
                            &&& after.last().coords[0] == PanPoint { start: coord, cur: coord }
                            &&& after.last().source_is_touch == source_is_touch
                            &&& after.last().mode == mode
                            &&& after.last().id == id
                        } else {
                            after == kept && r.slot == NO_PAN
                        }
                    },
                }
            }),
    {
        proof {
            lemma_pan_index_range(pan_items(self.pan_grab), id, 0);
        }
        match self.find_pan(&id) {
            Some(gi) => {
                if pan_get(&self.pan_grab, gi).source_is_touch != source_is_touch {
                    self.remove_pan(gi);
                } else {
                    let grab = pan_get_mut(&mut self.pan_grab, gi);
                    let index = grab.n;
                    if (index as usize) < MAX_PAN_GRABS {
                        grab.coords[index as usize] = PanPoint { start: coord, cur: coord };
                    }
                    if index < NO_PAN - 1 {
                        grab.n = index + 1;
                    }
                    proof {
                        let before = pan_items(old(self).pan_grab);
                        let after = pan_items(self.pan_grab);
                        assert(pan_index(before, id, 0) == Some(gi as int));
                    }
                    return PanRef { slot: gi as u16, index };
                }
            },
            None => {},
        }
        let n = pan_len(&self.pan_grab);
        if n + 1 >= NO_PAN as usize {
            return PanRef { slot: NO_PAN, index: 0 };
        }
        let p = PanPoint { start: coord, cur: coord };
        let ghost kept = pan_items(self.pan_grab);
        pan_push(&mut self.pan_grab, PanGrab { id, mode, source_is_touch, n: 1, coords: [p, p] });
        proof {
            let before = pan_items(old(self).pan_grab);
            let after = pan_items(self.pan_grab);
            assert(after.drop_last() =~= kept);
            assert(kept == match pan_index(before, id, 0) {
                Some(gi) => before.remove(gi),
                None => before,
            });
        }
        PanRef { slot: n as u16, index: 0 }
    }
}


impl EventState {
    /// Release one point of a pan gesture
    ///
    /// A gesture left with no point is removed, as by [`Self::remove_pan`].
    /// Otherwise its count drops by one, recorded points after the released
    /// one move down, and touch grabs on later points are renumbered.
    pub fn remove_pan_grab(&mut self, g: PanRef)
        requires
            old(self).wf(),
        ensures
            final(self).wf(),
            old(self).point_released_from(*final(self), g),
    {
        let slot = g.slot as usize;
        if g.slot == NO_PAN || slot >= pan_len(&self.pan_grab) {
            return;
        }
        if pan_get(&self.pan_grab, slot).n <= 1 {
            self.remove_pan(slot);
            return;
        }
        let grab = pan_get_mut(&mut self.pan_grab, slot);
        grab.n = grab.n - 1;
        if g.index == 0 {
            grab.coords[0] = grab.coords[1];
        }
        let ghost mid_pan_len = pan_items(self.pan_grab).len();
        let ghost mid_slot = pan_items(self.pan_grab)[slot as int];
        let ghost old_touch = touch_items(old(self).touch_grab);
        let n = touch_len(&self.touch_grab);
        let mut i: usize = 0;
        while i < n
            invariant
                n == touch_items(self.touch_grab).len() == old_touch.len(),
                old_touch == touch_items(old(self).touch_grab),
                slot == g.slot,
                i <= n,
                forall|j: int| 0 <= j < i ==> #[trigger] touch_items(self.touch_grab)[j] == point_released(old_touch[j], g),
                forall|j: int| i <= j < n ==> #[trigger] touch_items(self.touch_grab)[j] == old_touch[j],
                forall|j: int|
                    0 <= j < mid_pan_len && j != slot ==> #[trigger] pan_items(self.pan_grab)[j] == pan_items(
                        old(self).pan_grab,
                    )[j],
                slot < pan_items(self.pan_grab).len() == mid_pan_len == pan_items(old(self).pan_grab).len(),
                pan_items(self.pan_grab)[slot as int].n == mid_slot.n,
                pan_items(self.pan_grab)[slot as int].id == mid_slot.id,
                mid_slot.n == pan_items(old(self).pan_grab)[slot as int].n - 1,
                mid_slot.id == pan_items(old(self).pan_grab)[slot as int].id,
                self.same_pan_context(*old(self)),
                self.mouse_grab == old(self).mouse_grab,
                old(self).wf(),
                self.wf(),
            decreases n - i,
        {
            let t = touch_get_mut(&mut self.touch_grab, i);
            if t.pan_grab.slot as usize == slot && t.pan_grab.index > g.index {
                t.pan_grab.index = t.pan_grab.index - 1;
                if t.pan_grab.index as usize == MAX_PAN_GRABS - 1 {
                    let v = t.coord;
                    let p = pan_get_mut(&mut self.pan_grab, slot);
                    p.coords[1] = PanPoint { start: v, cur: v };
                }
            }
            proof {
                assert forall|j: int| 0 <= j < touch_items(self.touch_grab).len() implies pan_ref_ok(
                    (#[trigger] touch_items(self.touch_grab)[j]).pan_grab.slot,
                    pan_items(self.pan_grab).len() as int,
                ) by {}
            }
            i = i + 1;
        }
    }

    /// Start a grab of press `source` by widget `id`
    ///
    /// Fails (returning false, changing nothing) where that mouse or touch
    /// point is already grabbed. For a pan `mode` the press joins the pan
    /// gesture on `id`.
    pub fn grab_press(&mut self, id: WidgetId, source: PressSource, coord: Coord, mode: GrabMode) -> (r: bool)
        requires
            old(self).wf(),
        ensures
            final(self).wf(),
            final(self).same_pan_context(*old(self)),
            r == match source {
                PressSource::Mouse(..) => old(self).mouse_grab is None,
                PressSource::Touch(t) => forall|j: int|
                    0 <= j < touch_items(old(self).touch_grab).len() ==> (#[trigger] touch_items(
                        old(self).touch_grab,
                    )[j]).id != t,
            },
            !r ==> *final(self) == *old(self),
            r ==> match source {
                PressSource::Mouse(button, repetitions) => {
                    let g = final(self).mouse_grab.unwrap();
                    &&& final(self).mouse_grab is Some
                    &&& g.button == button && g.repetitions == repetitions
                    &&& g.start_id == id && g.cur_id == Some(id) && g.depress == Some(id)
                    &&& g.mode == mode && g.coord == coord && g.delta == Offset(0, 0)
                    &&& mode == GrabMode::Grab ==> g.pan_grab.slot == NO_PAN
                    &&& mode == GrabMode::Grab ==> touch_items(final(self).touch_grab) == touch_items(old(self).touch_grab)
                    &&& g.pan_grab.slot != NO_PAN ==> {
                        &&& g.pan_grab.slot < pan_items(final(self).pan_grab).len()
                        &&& pan_items(final(self).pan_grab)[g.pan_grab.slot as int].id@ == id@
                        &&& !pan_items(final(self).pan_grab)[g.pan_grab.slot as int].source_is_touch
                    }
                },
                PressSource::Touch(t) => {
                    let k = touch_items(final(self).touch_grab).len() - 1;
                    let g = touch_items(final(self).touch_grab)[k];
                    &&& touch_items(final(self).touch_grab).len() == touch_items(old(self).touch_grab).len() + 1
                    &&& g.id == t && g.start_id == id && g.cur_id == Some(id) && g.depress == Some(id)
                    &&& g.mode == mode && g.coord == coord && g.last_move == coord
                    &&& mode == GrabMode::Grab ==> g.pan_grab.slot == NO_PAN
                    &&& (mode == GrabMode::Grab ==> final(self).mouse_grab == old(self).mouse_grab)
                    &&& g.pan_grab.slot != NO_PAN ==> {
                        &&& g.pan_grab.slot < pan_items(final(self).pan_grab).len()
                        &&& pan_items(final(self).pan_grab)[g.pan_grab.slot as int].id@ == id@
                        &&& pan_items(final(self).pan_grab)[g.pan_grab.slot as int].source_is_touch
                    }
                },
            },
    {
        match source {
            PressSource::Mouse(button, repetitions) => {
                if self.mouse_grab.is_some() {
                    return false;
                }
                let pan_grab = if mode != GrabMode::Grab {
                    self.set_pan_on(id.clone(), mode, false, coord)
                } else {
                    PanRef { slot: NO_PAN, index: 0 }
                };
                self.mouse_grab = Some(MouseGrab {
                    button,
                    repetitions,
                    start_id: id.clone(),
                    cur_id: Some(id.clone()),
                    depress: Some(id.clone()),
                    mode,
                    pan_grab,
                    coord,
                    delta: Offset(0, 0),
                });
                true
            },
            PressSource::Touch(touch_id) => {
                if self.get_touch(touch_id).is_some() {
                    return false;
                }
                let pan_grab = if mode != GrabMode::Grab {
                    self.set_pan_on(id.clone(), mode, true, coord)
                } else {
                    PanRef { slot: NO_PAN, index: 0 }
                };
                crate::slots::touch_push(
                    &mut self.touch_grab,
                    TouchGrab {
                        id: touch_id,
                        start_id: id.clone(),
                        depress: Some(id.clone()),
                        cur_id: Some(id.clone()),
                        last_move: coord,
                        coord,
                        mode,
                        pan_grab,
                    },
                );
                proof {
                    let items = touch_items(self.touch_grab);
                    assert forall|j: int| 0 <= j < items.len() implies pan_ref_ok(
                        (#[trigger] items[j]).pan_grab.slot,
                        pan_items(self.pan_grab).len() as int,
                    ) by {}
                }
                true
            },
        }
    }

    /// End the mouse grab if it is by `button`, releasing its pan point
    ///
    /// Returns the widget that held the grab.
    pub fn end_mouse_grab(&mut self, button: MouseButton) -> (r: Option<WidgetId>)
        requires
            old(self).wf(),
        ensures
            final(self).wf(),
            final(self).same_pan_context(*old(self)),
            final(self).mouse_grab is None || final(self).mouse_grab == old(self).mouse_grab,
            r == (if old(self).mouse_grab is Some && old(self).mouse_grab.unwrap().button == button {
                Some(old(self).mouse_grab.unwrap().start_id)
            } else {
                None
            }),
            r is Some ==> final(self).mouse_grab is None,
            r is Some ==> (EventState { mouse_grab: None, ..*old(self) }).point_released_from(
                *final(self),
                old(self).mouse_grab.unwrap().pan_grab,
            ),
            r is None ==> *final(self) == *old(self),
    {
        let matches = match &self.mouse_grab {
            Some(g) => g.button == button,
            None => false,
        };
        if !matches {
            return None;
        }
        match self.mouse_grab.take() {
            Some(grab) => {
                self.remove_pan_grab(grab.pan_grab);
                Some(grab.start_id)
            },
            None => None,
        }
    }

    /// Record motion of the mouse to `coord` by `delta`, over `cur_id`
    ///
    /// A plain grab accumulates the motion until [`Self::flush_mouse_move`];
    /// a pan grab moves its point of the pan gesture.
    pub fn mouse_motion(&mut self, coord: Coord, delta: Offset, cur_id: Option<WidgetId>)
        requires
            old(self).wf(),
            old(self).mouse_grab is Some ==> fits_i32(old(self).mouse_grab.unwrap().delta.0 + delta.0)
                && fits_i32(old(self).mouse_grab.unwrap().delta.1 + delta.1),
        ensures
            final(self).wf(),
            final(self).same_pan_context(*old(self)),
            old(self).mouse_grab is None ==> *final(self) == *old(self),
            old(self).mouse_grab is Some && old(self).mouse_grab.unwrap().mode == GrabMode::Grab
                ==> final(self).mouse_grab == Some(
                crate::grab::mouse_moved(old(self).mouse_grab.unwrap(), coord, delta, cur_id),
            ) && final(self).pan_grab == old(self).pan_grab,
            old(self).mouse_grab is Some && old(self).mouse_grab.unwrap().mode != GrabMode::Grab ==> {
                let g = old(self).mouse_grab.unwrap();
                let (ps, qs, k, x) = (
                    pan_items(old(self).pan_grab),
                    pan_items(final(self).pan_grab),
                    g.pan_grab.slot as int,
                    g.pan_grab.index as int,
                );
                &&& final(self).mouse_grab == old(self).mouse_grab
                &&& final(self).touch_grab == old(self).touch_grab
                &&& if g.pan_grab.slot != NO_PAN && g.pan_grab.index < MAX_PAN_GRABS {
                    &&& qs.len() == ps.len()
                    &&& forall|m: int| 0 <= m < ps.len() && m != k ==> #[trigger] qs[m] == ps[m]
                    &&& qs[k].coords[x] == PanPoint { start: ps[k].coords[x].start, cur: coord }
                    &&& forall|y: int| 0 <= y < MAX_PAN_GRABS && y != x ==> #[trigger] qs[k].coords[y] == ps[k].coords[y]
                    &&& qs[k].id == ps[k].id && qs[k].n == ps[k].n && qs[k].mode == ps[k].mode
                    &&& qs[k].source_is_touch == ps[k].source_is_touch
                } else {
                    final(self).pan_grab == old(self).pan_grab
                }
            },
    {
        let mut taken = self.mouse_grab.take();
        match &mut taken {
            Some(grab) => {
                if grab.mode == GrabMode::Grab {
                    grab.add_move(coord, delta, cur_id);
                } else {
                    let r = grab.pan_grab;
                    if r.slot != NO_PAN && (r.index as usize) < MAX_PAN_GRABS {
                        let p = pan_get_mut(&mut self.pan_grab, r.slot as usize);
                        p.coords[r.index as usize].cur = coord;
                    }
                }
            },
            None => {},
        }
        self.mouse_grab = taken;
    }

    /// Emit the mouse motion accumulated since the last flush, as at most
    /// one `PressMove` event (with its target)
    pub fn flush_mouse_move(&mut self) -> (r: Option<(WidgetId, Event)>)
        requires
            old(self).wf(),
        ensures
            final(self).wf(),
            final(self).same_pan_context(*old(self)),
            final(self).pan_grab == old(self).pan_grab,
            final(self).touch_grab == old(self).touch_grab,
            old(self).mouse_grab is None ==> r is None && final(self).mouse_grab is None,
            old(self).mouse_grab is Some ==> {
                &&& r == crate::grab::mouse_flush_event(old(self).mouse_grab.unwrap())
                &&& final(self).mouse_grab == Some(
                    MouseGrab { delta: Offset(0, 0), ..old(self).mouse_grab.unwrap() },
                )
            },
    {
        let mut taken = self.mouse_grab.take();
        let r = match &mut taken {
            Some(grab) => grab.flush_move(),
            None => None,
        };
        self.mouse_grab = taken;
        r
    }
}


/// `j` is the index of the first touch grab with identifier `touch_id`
pub open spec fn first_touch(items: Seq<TouchGrab>, touch_id: u64, j: int) -> bool {
    &&& 0 <= j < items.len()
    &&& items[j].id == touch_id
    &&& forall|k: int| 0 <= k < j ==> (#[trigger] items[k]).id != touch_id
}

/// Whether some held key shows a widget equal to `id` as pressed
fn depress_shows(m: &DepressMap, id: &WidgetId) -> (r: bool)
    ensures
        r == (exists|k: u32| #[trigger] depress_map(*m).contains_key(k) && depress_map(*m)[k]@ == id@),
{
    let held = depress_values(m);
    let mut i: usize = 0;
    while i < held.len()
        invariant
            i <= held.len(),
            forall|j: int| 0 <= j < i ==> (#[trigger] held@[j])@ != id@,
            forall|j: int| 0 <= j < held.len() ==> is_value(depress_map(*m), #[trigger] held@[j]),
        decreases held.len() - i,
    {
        if held[i] == *id {
            proof {
                assert(is_value(depress_map(*m), held@[i as int]));
            }
            return true;
        }
        i = i + 1;
    }
    proof {
        assert forall|k: u32| #[trigger] depress_map(*m).contains_key(k) implies depress_map(*m)[k]@ != id@ by {
            assert(held@.contains(depress_map(*m)[k]));
        }
    }
    false
}

/// Index of the first open pop-up in window `window`, from index `i` on
pub open spec fn popup_index(popups: Seq<PopupEntry>, window: WindowId, i: int) -> Option<int>
    decreases popups.len() - i,
{
    if i < 0 || i >= popups.len() {
        None
    } else if popups[i].window == window {
        Some(i)
    } else {
        popup_index(popups, window, i + 1)
    }
}

impl EventState {
    /// Show `id` as pressed by the key with `scancode`, unless some key
    /// already shows it so; returns whether it was added (and needs redraw)
    pub fn add_key_depress(&mut self, scancode: u32, id: WidgetId) -> (r: bool)
        requires
            old(self).wf(),
        ensures
            final(self).wf(),
            r == !(exists|k: u32| #[trigger] depress_map(old(self).key_depress).contains_key(k)
                && depress_map(old(self).key_depress)[k]@ == id@),
            r ==> depress_map(final(self).key_depress) == depress_map(old(self).key_depress).insert(
                scancode,
                id,
            ),
            !r ==> final(self).key_depress == old(self).key_depress,
            final(self).same_but_depress(*old(self)),
    {
        if depress_shows(&self.key_depress, &id) {
            return false;
        }
        depress_insert(&mut self.key_depress, scancode, id);
        true
    }

    /// Release of the key with `scancode`: the widget it showed as pressed,
    /// if any, no longer is (and needs redraw)
    pub fn end_key_event(&mut self, scancode: u32) -> (r: Option<WidgetId>)
        requires
            old(self).wf(),
        ensures
            final(self).wf(),
            r == (if depress_map(old(self).key_depress).contains_key(scancode) {
                Some(depress_map(old(self).key_depress)[scancode])
            } else {
                None
            }),
            depress_map(final(self).key_depress) == depress_map(old(self).key_depress).remove(scancode),
            final(self).same_but_depress(*old(self)),
    {
        depress_remove(&mut self.key_depress, scancode)
    }

    /// All but the map of held keys are equal
    pub open spec fn same_but_depress(self, other: EventState) -> bool {
        &&& self.same_pan_context_but_depress(other)
        &&& self.mouse_grab == other.mouse_grab
        &&& self.touch_grab == other.touch_grab
        &&& self.pan_grab == other.pan_grab
    }

    /// All but the grab, pan and held-key fields are equal
    pub open spec fn same_pan_context_but_depress(self, other: EventState) -> bool {
        &&& self.modifiers == other.modifiers
        &&& self.char_focus == other.char_focus
        &&& self.sel_focus == other.sel_focus
        &&& self.nav_focus == other.nav_focus
        &&& self.nav_fallback == other.nav_fallback
        &&& self.hover == other.hover
        &&& self.hover_icon == other.hover_icon
        &&& self.accel_layers@ == other.accel_layers@
        &&& popup_items(self.popups) == popup_items(other.popups)
        &&& pending_items(self.pending) == pending_items(other.pending)
        &&& self.shortcuts == other.shortcuts
        &&& self.timers@ == other.timers@
        &&& self.popup_removed == other.popup_removed
    }

    /// Open pop-up `popup` in window `window`, remembering the navigation
    /// focus to restore on closing
    pub fn add_popup(&mut self, window: WindowId, popup: Popup)
        requires
            old(self).wf(),
        ensures
            final(self).wf(),
            popup_items(final(self).popups) == popup_items(old(self).popups).push(
                PopupEntry { window, popup, old_nav_focus: old(self).nav_focus },
            ),
            final(self).same_but_popups(*old(self)),
    {
        let old_nav_focus = clone_opt(&self.nav_focus);
        popup_push(&mut self.popups, PopupEntry { window, popup, old_nav_focus });
    }

    /// All but the pop-up list are equal
    pub open spec fn same_but_popups(self, other: EventState) -> bool {
        &&& self.modifiers == other.modifiers
        &&& self.char_focus == other.char_focus
        &&& self.sel_focus == other.sel_focus
        &&& self.nav_focus == other.nav_focus
        &&& self.nav_fallback == other.nav_fallback
        &&& self.hover == other.hover
        &&& self.hover_icon == other.hover_icon
        &&& self.key_depress == other.key_depress
        &&& self.mouse_grab == other.mouse_grab
        &&& self.touch_grab == other.touch_grab
        &&& self.pan_grab == other.pan_grab
        &&& self.accel_layers@ == other.accel_layers@
        &&& pending_items(self.pending) == pending_items(other.pending)
        &&& self.shortcuts == other.shortcuts
        &&& self.timers@ == other.timers@
        &&& self.popup_removed == other.popup_removed
    }

    /// The innermost open pop-up's window and parent widget: where a press
    /// is offered first
    pub fn popup_first_target(&self) -> (r: Option<(WindowId, WidgetId)>)
        ensures
            r == (if popup_items(self.popups).len() > 0 {
                Some((popup_items(self.popups).last().window, popup_items(self.popups).last().popup.parent))
            } else {
                None
            }),
    {
        let n = popup_len(&self.popups);
        if n == 0 {
            None
        } else {
            let e = popup_get(&self.popups, n - 1);
            Some((e.window, e.popup.parent.clone()))
        }
    }

    /// Close the pop-up in window `window`, if open
    ///
    /// With `restore_focus`, navigation focus returns to where it was when
    /// the pop-up opened (if anywhere). Returns the closed pop-up's entry.
    pub fn close_window(&mut self, window: WindowId, restore_focus: bool) -> (r: Option<PopupEntry>)
        requires
            old(self).wf(),
        ensures
            final(self).wf(),
            match popup_index(popup_items(old(self).popups), window, 0) {
                None => r is None && popup_items(final(self).popups) == popup_items(old(self).popups) && final(self).nav_focus
                    == old(self).nav_focus && pending_items(final(self).pending) == pending_items(old(self).pending),
                Some(i) => {
                    let e = popup_items(old(self).popups)[i];
                    &&& r == Some(e)
                    &&& removed_items(final(self).popup_removed) == removed_items(old(self).popup_removed).push(
                        (e.popup.parent, e.window),
                    )
                    &&& popup_items(final(self).popups) == popup_items(old(self).popups).remove(i)
                    &&& if restore_focus && e.old_nav_focus is Some {
                        &&& final(self).nav_focus == old(self).nav_after(e.old_nav_focus.unwrap())
                        &&& pending_items(final(self).pending) == old(self).pending_after_nav(
                            e.old_nav_focus.unwrap(),
                            false,
                        )
                    } else {
                        final(self).nav_focus == old(self).nav_focus && pending_items(final(self).pending) == pending_items(old(self).pending)
                    }
                },
            },
            final(self).char_focus == old(self).char_focus,
            final(self).sel_focus == old(self).sel_focus,
            final(self).mouse_grab == old(self).mouse_grab,
            final(self).touch_grab == old(self).touch_grab,
            final(self).pan_grab == old(self).pan_grab,
            final(self).key_depress == old(self).key_depress,
            final(self).accel_layers@ == old(self).accel_layers@,
    {
        let n = popup_len(&self.popups);
        let mut i: usize = 0;
        while i < n
            invariant
                *self == *old(self),
                old(self).wf(),
                n == popup_items(self.popups).len(),
                i <= n,
                popup_index(popup_items(self.popups), window, 0) == popup_index(popup_items(self.popups), window, i as int),
            decreases n - i,
        {
            if popup_get(&self.popups, i).window == window {
                let entry = popup_remove(&mut self.popups, i);
                removed_push(&mut self.popup_removed, entry.popup.parent.clone(), entry.window);
                if restore_focus {
                    if let Some(id) = clone_opt(&entry.old_nav_focus) {
                        self.set_nav_focus(id, false);
                    }
                }
                return Some(entry);
            }
            i = i + 1;
        }
        None
    }
}


/// What the event loop does with a key press that no command handler used
#[derive(Debug)]
pub enum KeyAction {
    /// Accelerator key: the pop-ups in `closed` (innermost first) were
    /// closed; `target` is shown as pressed and is to be activated (and
    /// given navigation focus where it supports key navigation)
    Accel { target: WidgetId, closed: Vec<WindowId> },
    /// Move navigation focus to the next widget (previous when `reverse`)
    NavNext { reverse: bool },
    /// The innermost pop-up, in this window, was closed
    ClosePopup(WindowId),
    /// The widget with navigation focus is shown as pressed and is to be
    /// activated
    Activate(WidgetId),
    /// Nothing to do
    Unused,
}

/// `s` with `item` after it where `cond` holds
pub open spec fn push_if(s: Seq<WidgetId>, cond: bool, item: WidgetId) -> Seq<WidgetId> {
    if cond { s.push(item) } else { s }
}

proof fn lemma_binding_same(a: Seq<(VirtualKeyCode, WidgetId)>, b: Seq<(VirtualKeyCode, WidgetId)>, k: VirtualKeyCode, i: int)
    requires
        0 <= i,
        a.len() == b.len(),
        forall|j: int| 0 <= j < a.len() ==> a[j] == b[j] || (a[j].0 != k && b[j].0 != k),
    ensures
        key_binding(a, k, i) == key_binding(b, k, i),
    decreases a.len() - i,
{
    if i < a.len() {
        lemma_binding_same(a, b, k, i + 1);
    }
}

proof fn lemma_binding_push(s: Seq<(VirtualKeyCode, WidgetId)>, x: (VirtualKeyCode, WidgetId), k: VirtualKeyCode, i: int)
    requires
        0 <= i <= s.len(),
    ensures
        key_binding(s.push(x), k, i) == match key_binding(s, k, i) {
            Some(v) => Some(v),
            None => if x.0 == k { Some(x.1) } else { None },
        },
    decreases s.len() - i,
{
    if i < s.len() {
        lemma_binding_push(s, x, k, i + 1);
        assert(s.push(x)[i] == s[i]);
    } else {
        assert(s.push(x)[i] == x);
        assert(key_binding(s.push(x), k, i + 1) is None);
    }
}

/// Bind `vkey` to `target` in `keys`, replacing an earlier binding of it
fn bind_key(keys: &mut Vec<(VirtualKeyCode, WidgetId)>, vkey: VirtualKeyCode, target: WidgetId)
    ensures
        key_binding(final(keys)@, vkey, 0) == Some(target),
        forall|k: VirtualKeyCode| k != vkey ==> #[trigger] key_binding(final(keys)@, k, 0) == key_binding(old(keys)@, k, 0),
{
    let n = keys.len();
    let mut i: usize = 0;
    while i < n
        invariant
            *keys == *old(keys),
            n == keys@.len(),
            i <= n,
            forall|j: int| 0 <= j < i ==> (#[trigger] keys@[j]).0 != vkey,
            key_binding(keys@, vkey, 0) == key_binding(keys@, vkey, i as int),
        decreases n - i,
    {
        if keys[i].0 == vkey {
            keys.set(i, (vkey, target));
            proof {
                let (a, b) = (old(keys)@, keys@);
                assert forall|k: VirtualKeyCode| k != vkey implies #[trigger] key_binding(b, k, 0) == key_binding(a, k, 0) by {
                    lemma_binding_same(a, b, k, 0);
                }
                assert(key_binding(a, vkey, 0) == key_binding(a, vkey, i as int));
                lemma_first_binding(b, vkey, i as int);
            }
            return;
        }
        i = i + 1;
    }
    keys.push((vkey, target));
    proof {
        let a = old(keys)@;
        assert(key_binding(a, vkey, n as int) is None);
        lemma_binding_push(a, (vkey, target), vkey, 0);
        assert forall|k: VirtualKeyCode| k != vkey implies #[trigger] key_binding(keys@, k, 0) == key_binding(a, k, 0) by {
            lemma_binding_push(a, (vkey, target), k, 0);
        }
    }
}

proof fn lemma_first_binding(s: Seq<(VirtualKeyCode, WidgetId)>, k: VirtualKeyCode, i: int)
    requires
        0 <= i < s.len(),
        s[i].0 == k,
        forall|j: int| 0 <= j < i ==> (#[trigger] s[j]).0 != k,
    ensures
        key_binding(s, k, 0) == Some(s[i].1),
{
    lemma_first_binding_from(s, k, i, 0);
}

proof fn lemma_first_binding_from(s: Seq<(VirtualKeyCode, WidgetId)>, k: VirtualKeyCode, i: int, m: int)
    requires
        0 <= m <= i < s.len(),
        s[i].0 == k,
        forall|j: int| 0 <= j < i ==> (#[trigger] s[j]).0 != k,
    ensures
        key_binding(s, k, m) == Some(s[i].1),
    decreases i - m,
{
    if m < i {
        lemma_first_binding_from(s, k, i, m + 1);
    }
}

/// Index of the first accelerator layer for a widget equal to `id`, from
/// index `i` on
pub open spec fn layer_index(layers: Seq<AccelLayer>, id: WidgetId, i: int) -> Option<int>
    decreases layers.len() - i,
{
    if i < 0 || i >= layers.len() {
        None
    } else if layers[i].id@ == id@ {
        Some(i)
    } else {
        layer_index(layers, id, i + 1)
    }
}

/// The first binding of `vkey` in `keys`, from index `i` on
pub open spec fn key_binding(keys: Seq<(VirtualKeyCode, WidgetId)>, vkey: VirtualKeyCode, i: int) -> Option<
    WidgetId,
>
    decreases keys.len() - i,
{
    if i < 0 || i >= keys.len() {
        None
    } else if keys[i].0 == vkey {
        Some(keys[i].1)
    } else {
        key_binding(keys, vkey, i + 1)
    }
}

impl EventState {
    /// Widgets to offer command `cmd` to, in order, until one uses it:
    /// the selection focus where it has character focus; the navigation
    /// focus unless Alt is held; the parent of the innermost pop-up; the
    /// selection focus, where it differs from the navigation focus and the
    /// command suits it; the navigation fallback
    pub open spec fn spec_command_targets(self, cmd: Command) -> Seq<WidgetId> {
        let t1 = push_if(Seq::empty(), self.char_focus && self.sel_focus is Some, self.sel_focus.unwrap());
        let t2 = push_if(t1, !self.modifiers.alt && self.nav_focus is Some, self.nav_focus.unwrap());
        let t3 = push_if(t2, popup_items(self.popups).len() > 0, popup_items(self.popups).last().popup.parent);
        let t4 = push_if(
            t3,
            !same_opt(self.sel_focus, self.nav_focus) && cmd.spec_suitable_for_sel_focus()
                && self.sel_focus is Some,
            self.sel_focus.unwrap(),
        );
        push_if(t4, self.nav_fallback is Some, self.nav_fallback.unwrap())
    }

    /// The command for a press of `vkey` with the current modifiers, if any
    pub fn key_command(&self, vkey: VirtualKeyCode) -> (r: Option<Command>)
        ensures
            r == shortcut_of(self.shortcuts.entries@, self.modifiers, vkey),
    {
        self.shortcuts.get(self.modifiers, vkey)
    }

    /// Widgets to offer command `cmd` to, in order, until one uses it
    pub fn command_targets(&self, cmd: Command) -> (r: Vec<WidgetId>)
        ensures
            r@ == self.spec_command_targets(cmd),
    {
        let mut v: Vec<WidgetId> = Vec::new();
        if self.char_focus {
            if let Some(id) = &self.sel_focus {
                v.push(id.clone());
            }
        }
        if !self.modifiers.alt() {
            if let Some(id) = &self.nav_focus {
                v.push(id.clone());
            }
        }
        let n = popup_len(&self.popups);
        if n > 0 {
            v.push(popup_get(&self.popups, n - 1).popup.parent.clone());
        }
        if !same_opt_id(&self.sel_focus, &self.nav_focus) && cmd.suitable_for_sel_focus() {
            if let Some(id) = &self.sel_focus {
                v.push(id.clone());
            }
        }
        if let Some(id) = &self.nav_fallback {
            v.push(id.clone());
        }
        v
    }

    /// Give widget `id` an empty accelerator layer; with `alt_bypass` its
    /// keys work without Alt held
    ///
    /// A layer already held by a widget equal to `id` is replaced in place;
    /// otherwise the layer is added at the end.
    pub fn new_accel_layer(&mut self, id: WidgetId, alt_bypass: bool)
        ensures
            match layer_index(old(self).accel_layers@, id, 0) {
                Some(li) => {
                    &&& final(self).accel_layers@.len() == old(self).accel_layers@.len()
                    &&& forall|j: int|
                        0 <= j < old(self).accel_layers@.len() && j != li ==> #[trigger] final(self).accel_layers@[j]
                            == old(self).accel_layers@[j]
                    &&& final(self).accel_layers@[li].id == id
                    &&& final(self).accel_layers@[li].alt_bypass == alt_bypass
                    &&& final(self).accel_layers@[li].keys@.len() == 0
                },
                None => {
                    &&& final(self).accel_layers@.len() == old(self).accel_layers@.len() + 1
                    &&& final(self).accel_layers@.drop_last() == old(self).accel_layers@
                    &&& final(self).accel_layers@.last().id == id
                    &&& final(self).accel_layers@.last().alt_bypass == alt_bypass
                    &&& final(self).accel_layers@.last().keys@.len() == 0
                },
            },
            popup_items(final(self).popups) == popup_items(old(self).popups),
            final(self).nav_focus == old(self).nav_focus,
            final(self).sel_focus == old(self).sel_focus,
            final(self).char_focus == old(self).char_focus,
            pending_items(final(self).pending) == pending_items(old(self).pending),
            final(self).mouse_grab == old(self).mouse_grab,
            final(self).touch_grab == old(self).touch_grab,
            final(self).pan_grab == old(self).pan_grab,
            old(self).wf() ==> final(self).wf(),
    {
        let keys: Vec<(VirtualKeyCode, WidgetId)> = Vec::new();
        let n = self.accel_layers.len();
        let mut i: usize = 0;
        while i < n
            invariant
                *self == *old(self),
                keys@.len() == 0,
                n == self.accel_layers@.len(),
                i <= n,
                forall|j: int| 0 <= j < i ==> (#[trigger] self.accel_layers@[j]).id@ != id@,
                layer_index(self.accel_layers@, id, 0) == layer_index(self.accel_layers@, id, i as int),
            decreases n - i,
        {
            if self.accel_layers[i].id == id {
                proof {
                    assert(layer_index(self.accel_layers@, id, i as int) == Some(i as int));
                }
                self.accel_layers.set(i, AccelLayer { id, alt_bypass, keys });
                proof {
                    let l = self.accel_layers@;
                    assert forall|a: int, b: int| 0 <= a < b < l.len() && old(self).wf() implies (#[trigger] l[a]).id@
                        != (#[trigger] l[b]).id@ by {
                        let o = old(self).accel_layers@;
                        assert(o[a].id@ != o[b].id@ || !old(self).wf());
                        if a == i {
                            assert(o[b] == l[b]);
                        } else if b == i {
                            assert(o[a] == l[a]);
                        } else {
                            assert(o[a] == l[a] && o[b] == l[b]);
                        }
                    }
                }
                return;
            }
            i = i + 1;
        }
        self.accel_layers.push(AccelLayer { id, alt_bypass, keys });
        proof {
            let l = self.accel_layers@;
            let o = old(self).accel_layers@;
            assert forall|a: int, b: int| 0 <= a < b < l.len() && old(self).wf() implies (#[trigger] l[a]).id@ != (
            #[trigger] l[b]).id@ by {
                assert(l[a] == o[a]);
                if b < o.len() {
                    assert(l[b] == o[b]);
                }
            }
        }
    }
}


/// The accelerator search: the layers of the innermost pop-up's parent,
/// then outward, then of `root`, are tried from candidate `i` on. A layer
/// counts where Alt is held or it bypasses Alt. The result is the candidate
/// number (0 for the innermost pop-up) and the bound widget.
pub open spec fn accel_search(s: EventState, root: WidgetId, vkey: VirtualKeyCode, i: int) -> Option<(int, WidgetId)>
    decreases popup_items(s.popups).len() + 1 - i,
{
    let n = popup_items(s.popups).len() as int;
    if i < 0 || i > n {
        None
    } else {
        let cand = if i < n { popup_items(s.popups)[n - 1 - i].popup.parent } else { root };
        match layer_index(s.accel_layers@, cand, 0) {
            Some(li) => {
                let layer = s.accel_layers@[li];
                if (s.modifiers.alt || layer.alt_bypass) && key_binding(layer.keys@, vkey, 0) is Some {
                    Some((i, key_binding(layer.keys@, vkey, 0).unwrap()))
                } else {
                    accel_search(s, root, vkey, i + 1)
                }
            },
            None => accel_search(s, root, vkey, i + 1),
        }
    }
}

proof fn lemma_accel_range(s: EventState, root: WidgetId, vkey: VirtualKeyCode, i: int)
    requires
        0 <= i,
    ensures
        match accel_search(s, root, vkey, i) {
            Some((k, _)) => i <= k <= popup_items(s.popups).len(),
            None => true,
        },
    decreases popup_items(s.popups).len() + 1 - i,
{
    if i <= popup_items(s.popups).len() {
        lemma_accel_range(s, root, vkey, i + 1);
    }
}

/// Windows of the innermost `k` pop-ups, innermost first
pub open spec fn top_windows(popups: Seq<PopupEntry>, k: int) -> Seq<WindowId>
    decreases k,
{
    if k <= 0 || k > popups.len() {
        Seq::empty()
    } else {
        seq![popups.last().window] + top_windows(popups.drop_last(), k - 1)
    }
}

/// Whether `vkey` activates the widget with navigation focus
pub open spec fn is_activation_key(vkey: VirtualKeyCode) -> bool {
    vkey == VirtualKeyCode::Space || vkey == VirtualKeyCode::Return || vkey == VirtualKeyCode::NumpadEnter
}

impl EventState {
    /// Bind `vkey` in the accelerator layer of `layer` (the first such
    /// layer) to `target`; does nothing where there is no such layer
    pub fn add_accel_key(&mut self, layer: &WidgetId, vkey: VirtualKeyCode, target: WidgetId)
        ensures
            final(self).accel_layers@.len() == old(self).accel_layers@.len(),
            match layer_index(old(self).accel_layers@, *layer, 0) {
                None => final(self).accel_layers@ == old(self).accel_layers@,
                Some(li) => {
                    &&& forall|j: int|
                        0 <= j < old(self).accel_layers@.len() && j != li ==> #[trigger] final(self).accel_layers@[j]
                            == old(self).accel_layers@[j]
                    &&& final(self).accel_layers@[li].id == old(self).accel_layers@[li].id
                    &&& final(self).accel_layers@[li].alt_bypass == old(self).accel_layers@[li].alt_bypass
                    &&& key_binding(final(self).accel_layers@[li].keys@, vkey, 0) == Some(target)
                    &&& forall|k: VirtualKeyCode|
                        k != vkey ==> #[trigger] key_binding(final(self).accel_layers@[li].keys@, k, 0)
                            == key_binding(old(self).accel_layers@[li].keys@, k, 0)
                },
            },
            popup_items(final(self).popups) == popup_items(old(self).popups),
            final(self).nav_focus == old(self).nav_focus,
            final(self).sel_focus == old(self).sel_focus,
            final(self).char_focus == old(self).char_focus,
            pending_items(final(self).pending) == pending_items(old(self).pending),
            final(self).mouse_grab == old(self).mouse_grab,
            final(self).touch_grab == old(self).touch_grab,
            final(self).pan_grab == old(self).pan_grab,
            old(self).wf() ==> final(self).wf(),
    {
        let n = self.accel_layers.len();
        let mut i: usize = 0;
        while i < n
            invariant
                *self == *old(self),
                n == self.accel_layers@.len(),
                i <= n,
                layer_index(self.accel_layers@, *layer, 0) == layer_index(self.accel_layers@, *layer, i as int),
            decreases n - i,
        {
            if self.accel_layers[i].id == *layer {
                let mut l = self.accel_layers.remove(i);
                bind_key(&mut l.keys, vkey, target);
                self.accel_layers.insert(i, l);
                return;
            }
            i = i + 1;
        }
    }

    /// The first binding of `vkey` in the first layer for `id`, where that
    /// layer is active with the current modifiers
    fn accel_lookup(&self, id: &WidgetId, vkey: VirtualKeyCode) -> (r: Option<WidgetId>)
        ensures
            r == match layer_index(self.accel_layers@, *id, 0) {
                Some(li) => if self.modifiers.alt || self.accel_layers@[li].alt_bypass {
                    key_binding(self.accel_layers@[li].keys@, vkey, 0)
                } else {
                    None
                },
                None => None,
            },
    {
        let n = self.accel_layers.len();
        let mut i: usize = 0;
        while i < n
            invariant
                n == self.accel_layers@.len(),
                i <= n,
                layer_index(self.accel_layers@, *id, 0) == layer_index(self.accel_layers@, *id, i as int),
            decreases n - i,
        {
            let layer = &self.accel_layers[i];
            if layer.id == *id {
                if !(self.modifiers.alt() || layer.alt_bypass) {
                    return None;
                }
                let m = layer.keys.len();
                let mut j: usize = 0;
                while j < m
                    invariant
                        *layer == self.accel_layers@[i as int],
                        layer_index(self.accel_layers@, *id, 0) == Some(i as int),
                        self.modifiers.alt || layer.alt_bypass,
                        m == layer.keys@.len(),
                        j <= m,
                        key_binding(layer.keys@, vkey, 0) == key_binding(layer.keys@, vkey, j as int),
                    decreases m - j,
                {
                    if layer.keys[j].0 == vkey {
                        return Some(layer.keys[j].1.clone());
                    }
                    j = j + 1;
                }
                return None;
            }
            i = i + 1;
        }
        None
    }

    /// Search the accelerator layers for `vkey`, innermost pop-up first
    fn find_accel(&self, root: &WidgetId, vkey: VirtualKeyCode) -> (r: Option<(usize, WidgetId)>)
        ensures
            match accel_search(*self, *root, vkey, 0) {
                Some((k, t)) => r == Some((k as usize, t)) && 0 <= k <= popup_items(self.popups).len(),
                None => r is None,
            },
    {
        let n = popup_len(&self.popups);
        let mut i: usize = 0;
        proof {
            lemma_accel_range(*self, *root, vkey, 0);
        }
        while i < n
            invariant
                n == popup_items(self.popups).len(),
                i <= n,
                accel_search(*self, *root, vkey, 0) == accel_search(*self, *root, vkey, i as int),
            decreases n - i,
        {
            let cand = &popup_get(&self.popups, n - 1 - i).popup.parent;
            match self.accel_lookup(cand, vkey) {
                Some(t) => {
                    return Some((i, t));
                },
                None => {},
            }
            i = i + 1;
        }
        match self.accel_lookup(root, vkey) {
            Some(t) => Some((n, t)),
            None => {
                assert(accel_search(*self, *root, vkey, n as int + 1) is None);
                None
            },
        }
    }
}


proof fn lemma_top_windows_step(p: Seq<PopupEntry>, j: int)
    requires
        0 <= j < p.len(),
    ensures
        top_windows(p, j + 1) == top_windows(p, j).push(p[p.len() - 1 - j].window),
    decreases j,
{
    let q = p.drop_last();
    if j > 0 {
        lemma_top_windows_step(q, j - 1);
        assert(q[q.len() - 1 - (j - 1)] == p[p.len() - 1 - j]);
        assert(top_windows(p, j + 1) == seq![p.last().window] + top_windows(q, j));
        assert(top_windows(p, j) == seq![p.last().window] + top_windows(q, j - 1));
        assert(top_windows(p, j + 1) =~= top_windows(p, j).push(p[p.len() - 1 - j].window));
    } else {
        assert(top_windows(q, 0) == Seq::<WindowId>::empty());
        assert(top_windows(p, 0) == Seq::<WindowId>::empty());
        assert(top_windows(p, 1) =~= top_windows(p, 0).push(p[p.len() - 1].window));
    }
}

/// The held-key map after `id` is shown as pressed by key `scancode`: no
/// change where some key already shows it
pub open spec fn depress_after(m: Map<u32, WidgetId>, scancode: u32, id: WidgetId) -> Map<u32, WidgetId> {
    if exists|k: u32| #[trigger] m.contains_key(k) && m[k]@ == id@ {
        m
    } else {
        m.insert(scancode, id)
    }
}

impl EventState {
    /// Close the innermost pop-up, if any, returning its window
    ///
    /// With `restore_focus`, navigation focus returns to where it was when
    /// the pop-up opened (if anywhere).
    pub fn close_top_popup(&mut self, restore_focus: bool) -> (r: Option<WindowId>)
        requires
            old(self).wf(),
        ensures
            final(self).wf(),
            popup_items(old(self).popups).len() == 0 ==> {
                &&& r is None
                &&& popup_items(final(self).popups) == popup_items(old(self).popups)
                &&& final(self).nav_focus == old(self).nav_focus
                &&& pending_items(final(self).pending) == pending_items(old(self).pending)
            },
            popup_items(old(self).popups).len() > 0 ==> {
                let e = popup_items(old(self).popups).last();
                &&& r == Some(e.window)
                &&& removed_items(final(self).popup_removed) == removed_items(old(self).popup_removed).push(
                    (e.popup.parent, e.window),
                )
                &&& popup_items(final(self).popups) == popup_items(old(self).popups).drop_last()
                &&& if restore_focus && e.old_nav_focus is Some {
                    &&& final(self).nav_focus == old(self).nav_after(e.old_nav_focus.unwrap())
                    &&& pending_items(final(self).pending) == old(self).pending_after_nav(e.old_nav_focus.unwrap(), false)
                } else {
                    final(self).nav_focus == old(self).nav_focus && pending_items(final(self).pending) == pending_items(old(self).pending)
                }
            },
            final(self).char_focus == old(self).char_focus,
            final(self).sel_focus == old(self).sel_focus,
            final(self).mouse_grab == old(self).mouse_grab,
            final(self).touch_grab == old(self).touch_grab,
            final(self).pan_grab == old(self).pan_grab,
            final(self).key_depress == old(self).key_depress,
            final(self).accel_layers@ == old(self).accel_layers@,
    {
        match popup_pop(&mut self.popups) {
            Some(entry) => {
                removed_push(&mut self.popup_removed, entry.popup.parent.clone(), entry.window);
                if restore_focus {
                    if let Some(id) = clone_opt(&entry.old_nav_focus) {
                        self.set_nav_focus(id, false);
                    }
                }
                Some(entry.window)
            },
            None => None,
        }
    }

    /// Handle a press of `vkey` (with `scancode`) that no command handler
    /// used: accelerator keys first (see [`accel_search`]), closing the
    /// pop-ups above a matching layer; then Tab moves navigation focus
    /// (dropping character focus); Escape closes the innermost pop-up; and
    /// Space or Enter activates the widget with navigation focus, unless a
    /// widget has character focus
    pub fn key_fallback(&mut self, root: &WidgetId, vkey: VirtualKeyCode, scancode: u32) -> (r: KeyAction)
        requires
            old(self).wf(),
        ensures
            final(self).wf(),
            final(self).mouse_grab == old(self).mouse_grab,
            final(self).touch_grab == old(self).touch_grab,
            final(self).pan_grab == old(self).pan_grab,
            final(self).accel_layers@ == old(self).accel_layers@,
            final(self).sel_focus == old(self).sel_focus,
            match accel_search(*old(self), *root, vkey, 0) {
                Some((k, t)) => {
                    &&& match r {
                        KeyAction::Accel { target, closed } => target == t && closed@ == top_windows(
                            popup_items(old(self).popups),
                            k,
                        ),
                        _ => false,
                    }
                    &&& popup_items(final(self).popups) == popup_items(old(self).popups).take(popup_items(old(self).popups).len() - k)
                    &&& depress_map(final(self).key_depress) == depress_after(
                        depress_map(old(self).key_depress),
                        scancode,
                        t,
                    )
                    &&& final(self).nav_focus == old(self).nav_focus
                    &&& final(self).char_focus == old(self).char_focus
                    &&& pending_items(final(self).pending) == pending_items(old(self).pending)
                },
                None => if vkey == VirtualKeyCode::Tab {
                    &&& r == (KeyAction::NavNext { reverse: old(self).modifiers.shift })
                    &&& !final(self).char_focus
                    &&& pending_items(final(self).pending) == (if old(self).char_focus {
                        pending_items(old(self).pending).push(Pending::LostCharFocus(old(self).sel_focus.unwrap()))
                    } else {
                        pending_items(old(self).pending)
                    })
                    &&& popup_items(final(self).popups) == popup_items(old(self).popups)
                    &&& final(self).nav_focus == old(self).nav_focus
                    &&& final(self).key_depress == old(self).key_depress
                } else if vkey == VirtualKeyCode::Escape && popup_items(old(self).popups).len() > 0 {
                    let e = popup_items(old(self).popups).last();
                    &&& r == KeyAction::ClosePopup(e.window)
                    &&& popup_items(final(self).popups) == popup_items(old(self).popups).drop_last()
                    &&& final(self).char_focus == old(self).char_focus
                    &&& final(self).key_depress == old(self).key_depress
                    &&& if e.old_nav_focus is Some {
                        &&& final(self).nav_focus == old(self).nav_after(e.old_nav_focus.unwrap())
                        &&& pending_items(final(self).pending) == old(self).pending_after_nav(
                            e.old_nav_focus.unwrap(),
                            false,
                        )
                    } else {
                        final(self).nav_focus == old(self).nav_focus && pending_items(final(self).pending) == pending_items(old(self).pending)
                    }
                } else if vkey != VirtualKeyCode::Escape && !old(self).char_focus && old(self).nav_focus is Some
                    && is_activation_key(vkey) {
                    &&& r == KeyAction::Activate(old(self).nav_focus.unwrap())
                    &&& depress_map(final(self).key_depress) == depress_after(
                        depress_map(old(self).key_depress),
                        scancode,
                        old(self).nav_focus.unwrap(),
                    )
                    &&& popup_items(final(self).popups) == popup_items(old(self).popups)
                    &&& final(self).nav_focus == old(self).nav_focus
                    &&& final(self).char_focus == old(self).char_focus
                    &&& pending_items(final(self).pending) == pending_items(old(self).pending)
                } else {
                    &&& r is Unused
                    &&& popup_items(final(self).popups) == popup_items(old(self).popups)
                    &&& final(self).nav_focus == old(self).nav_focus
                    &&& final(self).char_focus == old(self).char_focus
                    &&& pending_items(final(self).pending) == pending_items(old(self).pending)
                    &&& final(self).key_depress == old(self).key_depress
                },
            },
    {
        let plen = popup_len(&self.popups);
        let found = self.find_accel(root, vkey);
        proof {
            lemma_accel_range(*old(self), *root, vkey, 0);
        }
        match found {
            Some((k, target)) => {
                assert(plen == popup_items(old(self).popups).len());
                let mut closed: Vec<WindowId> = Vec::new();
                let mut j: usize = 0;
                let ghost open_before = popup_items(self.popups);
                while j < k
                    invariant
                        0 <= k <= open_before.len(),
                        j <= k,
                        popup_items(self.popups) == open_before.take(open_before.len() - j),
                        closed@ == top_windows(open_before, j as int),
                        self.wf(),
                        self.char_focus == old(self).char_focus,
                        self.sel_focus == old(self).sel_focus,
                        self.nav_focus == old(self).nav_focus,
                        pending_items(self.pending) == pending_items(old(self).pending),
                        self.mouse_grab == old(self).mouse_grab,
                        self.touch_grab == old(self).touch_grab,
                        self.pan_grab == old(self).pan_grab,
                        self.key_depress == old(self).key_depress,
                        self.accel_layers@ == old(self).accel_layers@,
                    decreases k - j,
                {
                    proof {
                        lemma_top_windows_step(open_before, j as int);
                        assert(open_before.take(open_before.len() - j).last() == open_before[open_before.len() - 1 - j]);
                        assert(open_before.take(open_before.len() - j).drop_last() =~= open_before.take(open_before.len() - (j + 1)));
                    }
                    let w = self.close_top_popup(false);
                    match w {
                        Some(w) => closed.push(w),
                        None => {},
                    }
                    j = j + 1;
                }
                let _ = self.add_key_depress(scancode, target.clone());
                KeyAction::Accel { target, closed }
            },
            None => {
                if vkey == VirtualKeyCode::Tab {
                    self.clear_char_focus();
                    KeyAction::NavNext { reverse: self.modifiers.shift() }
                } else if vkey == VirtualKeyCode::Escape {
                    match self.close_top_popup(true) {
                        Some(w) => KeyAction::ClosePopup(w),
                        None => KeyAction::Unused,
                    }
                } else if !self.char_focus && is_activation(vkey) {
                    match clone_opt(&self.nav_focus) {
                        Some(id) => {
                            let _ = self.add_key_depress(scancode, id.clone());
                            KeyAction::Activate(id)
                        },
                        None => KeyAction::Unused,
                    }
                } else {
                    KeyAction::Unused
                }
            },
        }
    }
}

fn is_activation(vkey: VirtualKeyCode) -> (r: bool)
    ensures
        r == is_activation_key(vkey),
{
    vkey == VirtualKeyCode::Space || vkey == VirtualKeyCode::Return || vkey == VirtualKeyCode::NumpadEnter
}


/// Effects of a change of hovered widget for the event loop to carry out
#[derive(Debug)]
pub struct HoverChange {
    /// Widgets to redraw
    pub redraw: Vec<WidgetId>,
    /// New cursor icon to show, if it changed and no mouse grab controls it
    pub cursor: Option<CursorIcon>,
}

impl EventState {
    /// All but the hover fields are equal
    pub open spec fn same_but_hover(self, other: EventState) -> bool {
        &&& self.modifiers == other.modifiers
        &&& self.char_focus == other.char_focus
        &&& self.sel_focus == other.sel_focus
        &&& self.nav_focus == other.nav_focus
        &&& self.nav_fallback == other.nav_fallback
        &&& self.key_depress == other.key_depress
        &&& self.mouse_grab == other.mouse_grab
        &&& self.touch_grab == other.touch_grab
        &&& self.pan_grab == other.pan_grab
        &&& self.accel_layers@ == other.accel_layers@
        &&& popup_items(self.popups) == popup_items(other.popups)
        &&& pending_items(self.pending) == pending_items(other.pending)
        &&& self.shortcuts == other.shortcuts
        &&& self.timers@ == other.timers@
        &&& self.popup_removed == other.popup_removed
    }

    /// Set the hovered widget to `w_id`
    ///
    /// `old_highlight` tells whether the widget hovered so far highlights on
    /// hover; `new_highlight` and `new_icon` give the same and the cursor icon
    /// for `w_id`. Where the hovered widget changes, those that highlight are
    /// redrawn; the cursor icon changes only if it differs, and is shown only
    /// while no mouse grab controls it.
    pub fn set_hover(
        &mut self,
        w_id: Option<WidgetId>,
        old_highlight: bool,
        new_highlight: bool,
        new_icon: CursorIcon,
    ) -> (r: HoverChange)
        requires
            old(self).wf(),
        ensures
            final(self).wf(),
            final(self).same_but_hover(*old(self)),
            same_opt(old(self).hover, w_id) ==> {
                &&& r.redraw@.len() == 0
                &&& r.cursor is None
                &&& final(self).hover == old(self).hover
                &&& final(self).hover_icon == old(self).hover_icon
            },
            !same_opt(old(self).hover, w_id) ==> {
                let icon_changes = w_id is Some && new_icon != old(self).hover_icon;
                &&& final(self).hover == w_id
                &&& r.redraw@ == push_if(
                    push_if(
                        Seq::empty(),
                        old(self).hover is Some && old_highlight,
                        old(self).hover.unwrap(),
                    ),
                    w_id is Some && new_highlight,
                    w_id.unwrap(),
                )
                &&& final(self).hover_icon == (if icon_changes { new_icon } else { old(self).hover_icon })
                &&& r.cursor == (if icon_changes && old(self).mouse_grab is None {
                    Some(new_icon)
                } else {
                    None
                })
            },
    {
        let mut redraw: Vec<WidgetId> = Vec::new();
        if same_opt_id(&self.hover, &w_id) {
            return HoverChange { redraw, cursor: None };
        }
        if let Some(id) = self.hover.take() {
            if old_highlight {
                redraw.push(id);
            }
        }
        let mut cursor = None;
        if let Some(id) = &w_id {
            if new_highlight {
                redraw.push(id.clone());
            }
            if new_icon != self.hover_icon {
                self.hover_icon = new_icon;
                if self.mouse_grab.is_none() {
                    cursor = Some(new_icon);
                }
            }
        }
        self.hover = w_id;
        HoverChange { redraw, cursor }
    }

    /// Hand out the pending notifications, in order, leaving none
    pub fn take_pending(&mut self) -> (r: Vec<Pending>)
        requires
            old(self).wf(),
        ensures
            final(self).wf(),
            r@ == pending_items(old(self).pending),
            pending_items(final(self).pending).len() == 0,
            final(self).same_but_focus(*old(self)),
            final(self).char_focus == old(self).char_focus,
            final(self).sel_focus == old(self).sel_focus,
            final(self).nav_focus == old(self).nav_focus,
    {
        pending_take_all(&mut self.pending)
    }

    /// Record motion of touch point `touch_id` to `coord`, over `cur_id`
    ///
    /// A plain grab keeps the position until flushed; a pan grab moves its
    /// point of the pan gesture. Returns whether the touch point is grabbed.
    pub fn touch_motion(&mut self, touch_id: u64, coord: Coord, cur_id: Option<WidgetId>) -> (r: bool)
        requires
            old(self).wf(),
        ensures
            final(self).wf(),
            final(self).same_pan_context(*old(self)),
            final(self).mouse_grab == old(self).mouse_grab,
            touch_items(final(self).touch_grab).len() == touch_items(old(self).touch_grab).len(),
            r == exists|j: int|
                0 <= j < touch_items(old(self).touch_grab).len() && (#[trigger] touch_items(
                    old(self).touch_grab,
                )[j]).id == touch_id,
            !r ==> *final(self) == *old(self),
            forall|j: int|
                #[trigger] first_touch(touch_items(old(self).touch_grab), touch_id, j) ==> {
                    let (before, g) = (touch_items(old(self).touch_grab), touch_items(old(self).touch_grab)[j]);
                    if g.mode == GrabMode::Grab {
                        &&& touch_items(final(self).touch_grab) == before.update(j, TouchGrab { coord, cur_id, ..g })
                        &&& final(self).pan_grab == old(self).pan_grab
                    } else if g.pan_grab.slot != NO_PAN && g.pan_grab.index < MAX_PAN_GRABS {
                        let (ps, qs, k, x) = (
                            pan_items(old(self).pan_grab),
                            pan_items(final(self).pan_grab),
                            g.pan_grab.slot as int,
                            g.pan_grab.index as int,
                        );
                        &&& final(self).touch_grab == old(self).touch_grab
                        &&& qs.len() == ps.len()
                        &&& forall|m: int| 0 <= m < ps.len() && m != k ==> #[trigger] qs[m] == ps[m]
                        &&& qs[k].coords[x] == PanPoint { start: ps[k].coords[x].start, cur: coord }
                        &&& forall|y: int| 0 <= y < MAX_PAN_GRABS && y != x ==> #[trigger] qs[k].coords[y] == ps[k].coords[y]
                        &&& qs[k].id == ps[k].id && qs[k].n == ps[k].n && qs[k].mode == ps[k].mode
                        &&& qs[k].source_is_touch == ps[k].source_is_touch
                    } else {
                        *final(self) == *old(self)
                    }
                },
    {
        match self.get_touch(touch_id) {
            Some(i) => {
                let mode = touch_get(&self.touch_grab, i).mode;
                let pr = touch_get(&self.touch_grab, i).pan_grab;
                if mode == GrabMode::Grab {
                    let grab = touch_get_mut(&mut self.touch_grab, i);
                    grab.add_move(coord, cur_id);
                } else if pr.slot != NO_PAN && (pr.index as usize) < MAX_PAN_GRABS {
                    let p = pan_get_mut(&mut self.pan_grab, pr.slot as usize);
                    p.coords[pr.index as usize].cur = coord;
                }
                proof {
                    let items = touch_items(self.touch_grab);
                    assert forall|j: int| 0 <= j < items.len() implies pan_ref_ok(
                        (#[trigger] items[j]).pan_grab.slot,
                        pan_items(self.pan_grab).len() as int,
                    ) by {
                        if j != i {
                            assert(items[j] == touch_items(old(self).touch_grab)[j]);
                        }
                    }
                    assert forall|j: int| #[trigger] first_touch(touch_items(old(self).touch_grab), touch_id, j)
                        implies j == i by {
                        if j < i {
                            assert(touch_items(old(self).touch_grab)[j].id != touch_id);
                        } else if j > i {
                            assert(touch_items(old(self).touch_grab)[i as int].id != touch_id);
                        }
                    }
                }
                true
            },
            None => false,
        }
    }

    /// Emit the motion of touch grab `i` since its last flush, as at most
    /// one `PressMove` event (with its target)
    pub fn flush_touch_move(&mut self, i: usize) -> (r: Option<(WidgetId, Event)>)
        requires
            old(self).wf(),
            i < touch_items(old(self).touch_grab).len(),
            fits_i32(touch_items(old(self).touch_grab)[i as int].coord.0 - touch_items(
                old(self).touch_grab,
            )[i as int].last_move.0),
            fits_i32(touch_items(old(self).touch_grab)[i as int].coord.1 - touch_items(
                old(self).touch_grab,
            )[i as int].last_move.1),
        ensures
            final(self).wf(),
            final(self).same_pan_context(*old(self)),
            final(self).mouse_grab == old(self).mouse_grab,
            final(self).pan_grab == old(self).pan_grab,
            r == crate::grab::touch_flush_event(touch_items(old(self).touch_grab)[i as int]),
            touch_items(final(self).touch_grab) == touch_items(old(self).touch_grab).update(
                i as int,
                TouchGrab {
                    last_move: touch_items(old(self).touch_grab)[i as int].coord,
                    ..touch_items(old(self).touch_grab)[i as int]
                },
            ),
    {
        let grab = touch_get_mut(&mut self.touch_grab, i);
        let r = grab.flush_move();
        proof {
            let items = touch_items(self.touch_grab);
            assert forall|j: int| 0 <= j < items.len() implies pan_ref_ok(
                (#[trigger] items[j]).pan_grab.slot,
                pan_items(self.pan_grab).len() as int,
            ) by {
                if j != i {
                    assert(items[j] == touch_items(old(self).touch_grab)[j]);
                }
            }
        }
        r
    }
}


impl EventState {
    /// Number of touch grabs
    pub fn num_touch_grabs(&self) -> (r: usize)
        ensures
            r == touch_items(self.touch_grab).len(),
    {
        touch_len(&self.touch_grab)
    }

    /// Touch grab `i`
    pub fn touch_grab_at(&self, i: usize) -> (r: &TouchGrab)
        requires
            i < touch_items(self.touch_grab).len(),
        ensures
            *r == touch_items(self.touch_grab)[i as int],
    {
        touch_get(&self.touch_grab, i)
    }

    /// Number of open pop-ups
    pub fn num_popups(&self) -> (r: usize)
        ensures
            r == popup_items(self.popups).len(),
    {
        popup_len(&self.popups)
    }

    /// Open pop-up `i` (innermost last)
    pub fn popup_at(&self, i: usize) -> (r: &PopupEntry)
        requires
            i < popup_items(self.popups).len(),
        ensures
            *r == popup_items(self.popups)[i as int],
    {
        popup_get(&self.popups, i)
    }

    /// Number of pan gestures
    pub fn num_pan_grabs(&self) -> (r: usize)
        ensures
            r == pan_items(self.pan_grab).len(),
    {
        pan_len(&self.pan_grab)
    }

    /// Pan gesture `i`
    pub fn pan_grab_at(&self, i: usize) -> (r: &PanGrab)
        requires
            i < pan_items(self.pan_grab).len(),
        ensures
            *r == pan_items(self.pan_grab)[i as int],
    {
        pan_get(&self.pan_grab, i)
    }
}


impl EventState {
    /// Show the grab of press `source` as pressed on `target` (or on
    /// nothing); returns whether such a grab exists
    pub fn set_grab_depress(&mut self, source: PressSource, target: Option<WidgetId>) -> (r: bool)
        requires
            old(self).wf(),
        ensures
            final(self).wf(),
            final(self).same_pan_context(*old(self)),
            final(self).pan_grab == old(self).pan_grab,
            match source {
                PressSource::Mouse(..) => {
                    &&& r == old(self).mouse_grab is Some
                    &&& final(self).touch_grab == old(self).touch_grab
                    &&& r ==> final(self).mouse_grab == Some(
                        MouseGrab { depress: target, ..old(self).mouse_grab.unwrap() },
                    )
                    &&& !r ==> final(self).mouse_grab is None
                },
                PressSource::Touch(t) => {
                    &&& final(self).mouse_grab == old(self).mouse_grab
                    &&& touch_items(final(self).touch_grab).len() == touch_items(old(self).touch_grab).len()
                    &&& r == exists|j: int|
                        0 <= j < touch_items(old(self).touch_grab).len() && (#[trigger] touch_items(
                            old(self).touch_grab,
                        )[j]).id == t
                    &&& forall|j: int|
                        #[trigger] first_touch(touch_items(old(self).touch_grab), t, j) ==> touch_items(
                            final(self).touch_grab,
                        ) == touch_items(old(self).touch_grab).update(
                            j,
                            TouchGrab { depress: target, ..touch_items(old(self).touch_grab)[j] },
                        )
                },
            },
    {
        match source {
            PressSource::Mouse(..) => {
                let mut taken = self.mouse_grab.take();
                let found = match &mut taken {
                    Some(grab) => {
                        grab.depress = target;
                        true
                    },
                    None => false,
                };
                self.mouse_grab = taken;
                found
            },
            PressSource::Touch(t) => {
                match self.get_touch(t) {
                    Some(i) => {
                        let grab = touch_get_mut(&mut self.touch_grab, i);
                        grab.depress = target;
                        proof {
                            assert forall|j: int| #[trigger] first_touch(touch_items(old(self).touch_grab), t, j)
                                implies j == i by {
                                if j < i {
                                    assert(touch_items(old(self).touch_grab)[j].id != t);
                                } else if j > i {
                                    assert(touch_items(old(self).touch_grab)[i as int].id != t);
                                }
                            }
                            let items = touch_items(self.touch_grab);
                            assert forall|j: int| 0 <= j < items.len() implies pan_ref_ok(
                                (#[trigger] items[j]).pan_grab.slot,
                                pan_items(self.pan_grab).len() as int,
                            ) by {
                                if j != i {
                                    assert(items[j] == touch_items(old(self).touch_grab)[j]);
                                }
                            }
                        }
                        true
                    },
                    None => false,
                }
            },
        }
    }
}


impl EventState {
    /// One step of delivering a press to pop-ups first, after the parent of
    /// the innermost pop-up did not use it: that pop-up closes (focus not
    /// restored). Returns the closed window, if any, and where the press
    /// goes next: the parent of the next pop-up, or (`None`) the widget
    /// found by normal hit-testing.
    pub fn popup_press_unused(&mut self) -> (r: (Option<WindowId>, Option<WidgetId>))
        requires
            old(self).wf(),
        ensures
            final(self).wf(),
            ({
                let before = popup_items(old(self).popups);
                let after = popup_items(final(self).popups);
                if before.len() == 0 {
                    &&& r == (None::<WindowId>, None::<WidgetId>)
                    &&& after == before
                } else {
                    &&& r.0 == Some(before.last().window)
                    &&& after == before.drop_last()
                    &&& r.1 == (if after.len() > 0 { Some(after.last().popup.parent) } else { None })
                }
            }),
            final(self).nav_focus == old(self).nav_focus,
            pending_items(final(self).pending) == pending_items(old(self).pending),
            final(self).char_focus == old(self).char_focus,
            final(self).sel_focus == old(self).sel_focus,
            final(self).mouse_grab == old(self).mouse_grab,
            final(self).touch_grab == old(self).touch_grab,
            final(self).pan_grab == old(self).pan_grab,
            final(self).key_depress == old(self).key_depress,
    {
        let closed = self.close_top_popup(false);
        let next = match self.popup_first_target() {
            Some((_, parent)) => Some(parent),
            None => None,
        };
        (closed, next)
    }
}


/// Index of the first request for a widget equal to `id` with `token`, from
/// index `i` on
pub open spec fn timer_index(s: Seq<TimerRequest>, id: WidgetId, token: u64, i: int) -> Option<int>
    decreases s.len() - i,
{
    if i < 0 || i >= s.len() {
        None
    } else if s[i].id@ == id@ && s[i].token == token {
        Some(i)
    } else {
        timer_index(s, id, token, i + 1)
    }
}

/// The requests of `s` due at `now`, in order
pub open spec fn due_timers(s: Seq<TimerRequest>, now: u64) -> Seq<TimerRequest>
    decreases s.len(),
{
    if s.len() == 0 {
        s
    } else if s.last().deadline <= now {
        due_timers(s.drop_last(), now).push(s.last())
    } else {
        due_timers(s.drop_last(), now)
    }
}

/// The requests of `s` not yet due at `now`, in order
pub open spec fn later_timers(s: Seq<TimerRequest>, now: u64) -> Seq<TimerRequest>
    decreases s.len(),
{
    if s.len() == 0 {
        s
    } else if s.last().deadline > now {
        later_timers(s.drop_last(), now).push(s.last())
    } else {
        later_timers(s.drop_last(), now)
    }
}

impl EventState {
    /// Ask for widget `id` to be woken with `token` at `deadline`
    ///
    /// A request for an equal widget with the same token is kept once, with
    /// the earlier of the two deadlines.
    pub fn request_timer(&mut self, deadline: u64, id: WidgetId, token: u64)
        requires
            old(self).wf(),
        ensures
            final(self).wf(),
            final(self).same_but_timers(*old(self)),
            match timer_index(old(self).timers@, id, token, 0) {
                Some(i) => final(self).timers@ == old(self).timers@.update(
                    i,
                    TimerRequest {
                        deadline: if deadline < old(self).timers@[i].deadline {
                            deadline
                        } else {
                            old(self).timers@[i].deadline
                        },
                        ..old(self).timers@[i]
                    },
                ),
                None => final(self).timers@ == old(self).timers@.push(TimerRequest { deadline, id, token }),
            },
    {
        let n = self.timers.len();
        let mut i: usize = 0;
        while i < n
            invariant
                *self == *old(self),
                old(self).wf(),
                n == self.timers@.len(),
                i <= n,
                timer_index(self.timers@, id, token, 0) == timer_index(self.timers@, id, token, i as int),
            decreases n - i,
        {
            if self.timers[i].id == id && self.timers[i].token == token {
                if deadline < self.timers[i].deadline {
                    let mut r = self.timers.remove(i);
                    r.deadline = deadline;
                    self.timers.insert(i, r);
                    assert(self.timers@ =~= old(self).timers@.update(
                        i as int,
                        TimerRequest { deadline, ..old(self).timers@[i as int] },
                    ));
                } else {
                    assert(old(self).timers@ =~= old(self).timers@.update(
                        i as int,
                        TimerRequest { deadline: old(self).timers@[i as int].deadline, ..old(self).timers@[i as int] },
                    ));
                }
                return;
            }
            i = i + 1;
        }
        self.timers.push(TimerRequest { deadline, id, token });
    }

    /// The earliest requested deadline, if any
    pub fn next_timer(&self) -> (r: Option<u64>)
        ensures
            self.timers@.len() == 0 <==> r is None,
            r is Some ==> (exists|i: int| 0 <= i < self.timers@.len() && self.timers@[i].deadline == r.unwrap())
                && (forall|i: int| 0 <= i < self.timers@.len() ==> r.unwrap() <= #[trigger] self.timers@[i].deadline),
    {
        let n = self.timers.len();
        if n == 0 {
            return None;
        }
        let mut best = self.timers[0].deadline;
        let mut i: usize = 1;
        while i < n
            invariant
                0 < n == self.timers@.len(),
                1 <= i <= n,
                exists|j: int| 0 <= j < i && self.timers@[j].deadline == best,
                forall|j: int| 0 <= j < i ==> best <= #[trigger] self.timers@[j].deadline,
            decreases n - i,
        {
            if self.timers[i].deadline < best {
                best = self.timers[i].deadline;
            }
            i = i + 1;
        }
        Some(best)
    }

    /// Take the requests due at `now`, in order of request; the others stay
    pub fn take_due_timers(&mut self, now: u64) -> (r: Vec<TimerRequest>)
        requires
            old(self).wf(),
        ensures
            final(self).wf(),
            final(self).same_but_timers(*old(self)),
            r@ == due_timers(old(self).timers@, now),
            final(self).timers@ == later_timers(old(self).timers@, now),
    {
        let mut all: Vec<TimerRequest> = Vec::new();
        std::mem::swap(&mut all, &mut self.timers);
        let ghost s = all@;
        let mut due: Vec<TimerRequest> = Vec::new();
        let mut later: Vec<TimerRequest> = Vec::new();
        let mut rest = all;
        let ghost n = s.len();
        while rest.len() > 0
            invariant
                rest@.len() <= n,
                rest@ == s.subrange(n - rest@.len(), n as int),
                n == s.len(),
                due@ == due_timers(s.take(n - rest@.len()), now),
                later@ == later_timers(s.take(n - rest@.len()), now),
            decreases rest@.len(),
        {
            let ghost k = n - rest@.len();
            let t = rest.remove(0);
            proof {
                assert(t == s[k]);
                assert(s.take(k + 1).drop_last() =~= s.take(k));
                assert(s.take(k + 1).last() == s[k]);
            }
            if t.deadline <= now {
                due.push(t);
            } else {
                later.push(t);
            }
        }
        proof {
            assert(s.take(n as int) =~= s);
        }
        self.timers = later;
        due
    }

    /// All but the closed pop-ups awaiting notification are equal
    pub open spec fn same_but_removed(self, other: EventState) -> bool {
        &&& self.modifiers == other.modifiers
        &&& self.char_focus == other.char_focus
        &&& self.sel_focus == other.sel_focus
        &&& self.nav_focus == other.nav_focus
        &&& self.nav_fallback == other.nav_fallback
        &&& self.hover == other.hover
        &&& self.hover_icon == other.hover_icon
        &&& self.key_depress == other.key_depress
        &&& self.mouse_grab == other.mouse_grab
        &&& self.touch_grab == other.touch_grab
        &&& self.pan_grab == other.pan_grab
        &&& self.accel_layers@ == other.accel_layers@
        &&& self.popups == other.popups
        &&& self.pending == other.pending
        &&& self.shortcuts == other.shortcuts
        &&& self.timers@ == other.timers@
    }

    /// All but the timer requests are equal
    pub open spec fn same_but_timers(self, other: EventState) -> bool {
        &&& self.modifiers == other.modifiers
        &&& self.char_focus == other.char_focus
        &&& self.sel_focus == other.sel_focus
        &&& self.nav_focus == other.nav_focus
        &&& self.nav_fallback == other.nav_fallback
        &&& self.hover == other.hover
        &&& self.hover_icon == other.hover_icon
        &&& self.key_depress == other.key_depress
        &&& self.mouse_grab == other.mouse_grab
        &&& self.touch_grab == other.touch_grab
        &&& self.pan_grab == other.pan_grab
        &&& self.accel_layers@ == other.accel_layers@
        &&& self.popups == other.popups
        &&& self.pending == other.pending
        &&& self.shortcuts == other.shortcuts
        &&& self.popup_removed == other.popup_removed
    }
}


impl EventState {
    /// Hand out the pop-ups closed since the last call (parent and window),
    /// in order, for `PopupRemoved` notifications after the dispatch
    pub fn take_popup_removed(&mut self) -> (r: Vec<(WidgetId, WindowId)>)
        requires
            old(self).wf(),
        ensures
            final(self).wf(),
            r@ == removed_items(old(self).popup_removed),
            removed_items(final(self).popup_removed).len() == 0,
            final(self).same_but_removed(*old(self)),
    {
        removed_take_all(&mut self.popup_removed)
    }
}


impl EventState {
    /// The target of step `step` (0 to 4) of offering command `cmd`, read
    /// from the current state: the selection focus where it has character
    /// focus; the navigation focus unless Alt is held; the parent of the
    /// innermost pop-up; the selection focus where it differs from the
    /// navigation focus and the command suits it; the navigation fallback
    pub fn command_target_at(&self, cmd: Command, step: usize) -> (r: Option<WidgetId>)
        ensures
            r == (if step == 0 {
                if self.char_focus { self.sel_focus } else { None }
            } else if step == 1 {
                if !self.modifiers.alt { self.nav_focus } else { None }
            } else if step == 2 {
                if popup_items(self.popups).len() > 0 {
                    Some(popup_items(self.popups).last().popup.parent)
                } else {
                    None
                }
            } else if step == 3 {
                if !same_opt(self.sel_focus, self.nav_focus) && cmd.spec_suitable_for_sel_focus() {
                    self.sel_focus
                } else {
                    None
                }
            } else if step == 4 {
                self.nav_fallback
            } else {
                None
            }),
    {
        if step == 0 {
            if self.char_focus { clone_opt(&self.sel_focus) } else { None }
        } else if step == 1 {
            if !self.modifiers.alt() { clone_opt(&self.nav_focus) } else { None }
        } else if step == 2 {
            let n = popup_len(&self.popups);
            if n > 0 { Some(popup_get(&self.popups, n - 1).popup.parent.clone()) } else { None }
        } else if step == 3 {
            if !same_opt_id(&self.sel_focus, &self.nav_focus) && cmd.suitable_for_sel_focus() {
                clone_opt(&self.sel_focus)
            } else {
                None
            }
        } else if step == 4 {
            clone_opt(&self.nav_fallback)
        } else {
            None
        }
    }
}

} // verus!
