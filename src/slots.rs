//! Collections of outside crates that the event state keeps: small inline
//! vectors (`smallvec::SmallVec`) of grabs, pop-ups and pending
//! notifications, and the map of keys held down (`linear_map::LinearMap`).
//!
//! What each holds is named by a spec function, and each operation states
//! its effect on that sequence or map.

use vstd::prelude::*;
use crate::grab::{PanGrab, TouchGrab};
use crate::state::{Pending, PopupEntry};
use crate::event::WindowId;
use crate::widget_id::WidgetId;
use linear_map::LinearMap;

verus! {

/// The touch grabs of a window
#[verifier::external_body]
pub struct TouchGrabs {
    items: smallvec::SmallVec<[TouchGrab; 8]>,
}

/// The touch grabs held, in order
pub uninterp spec fn touch_items(v: TouchGrabs) -> Seq<TouchGrab>;

/// Relies on `SmallVec::new`: the new vector is empty.
#[verifier::external_body]
pub(crate) fn touch_new() -> (r: TouchGrabs)
    ensures
        touch_items(r) == Seq::<TouchGrab>::empty(),
{
    TouchGrabs { items: smallvec::SmallVec::new() }
}

/// Relies on `SmallVec::len`: the number of items held.
#[verifier::external_body]
pub(crate) fn touch_len(v: &TouchGrabs) -> (r: usize)
    ensures
        r == touch_items(*v).len(),
{
    v.items.len()
}

/// Relies on indexing a `SmallVec` (through `Deref` to a slice): item `i`.
#[verifier::external_body]
pub(crate) fn touch_get(v: &TouchGrabs, i: usize) -> (r: &TouchGrab)
    requires
        i < touch_items(*v).len(),
    ensures
        *r == touch_items(*v)[i as int],
{
    &v.items[i]
}

/// Relies on mutable indexing of a `SmallVec` (through `DerefMut` to a
/// slice): item `i`, which the caller may change in place.
#[verifier::external_body]
pub(crate) fn touch_get_mut(v: &mut TouchGrabs, i: usize) -> (r: &mut TouchGrab)
    requires
        i < touch_items(*old(v)).len(),
    ensures
        *r == touch_items(*old(v))[i as int],
        touch_items(*final(v)) == touch_items(*old(v)).update(i as int, *final(r)),
{
    &mut v.items[i]
}

/// Relies on `SmallVec::push`: `g` is added at the end.
#[verifier::external_body]
pub(crate) fn touch_push(v: &mut TouchGrabs, g: TouchGrab)
    ensures
        touch_items(*final(v)) == touch_items(*old(v)).push(g),
{
    v.items.push(g)
}

/// Relies on `SmallVec::remove`: item `i` is taken out and returned, the
/// later ones moving down by one.
#[verifier::external_body]
pub(crate) fn touch_remove(v: &mut TouchGrabs, i: usize) -> (r: TouchGrab)
    requires
        i < touch_items(*old(v)).len(),
    ensures
        r == touch_items(*old(v))[i as int],
        touch_items(*final(v)) == touch_items(*old(v)).remove(i as int),
{
    v.items.remove(i)
}

/// The pan gestures of a window
#[verifier::external_body]
pub struct PanGrabs {
    items: smallvec::SmallVec<[PanGrab; 4]>,
}

/// The pan gestures held, in order
pub uninterp spec fn pan_items(v: PanGrabs) -> Seq<PanGrab>;

/// Relies on `SmallVec::new`: the new vector is empty.
#[verifier::external_body]
pub(crate) fn pan_new() -> (r: PanGrabs)
    ensures
        pan_items(r) == Seq::<PanGrab>::empty(),
{
    PanGrabs { items: smallvec::SmallVec::new() }
}

/// Relies on `SmallVec::len`: the number of items held.
#[verifier::external_body]
pub(crate) fn pan_len(v: &PanGrabs) -> (r: usize)
    ensures
        r == pan_items(*v).len(),
{
    v.items.len()
}

/// Relies on indexing a `SmallVec` (through `Deref` to a slice): item `i`.
#[verifier::external_body]
pub(crate) fn pan_get(v: &PanGrabs, i: usize) -> (r: &PanGrab)
    requires
        i < pan_items(*v).len(),
    ensures
        *r == pan_items(*v)[i as int],
{
    &v.items[i]
}

/// Relies on mutable indexing of a `SmallVec` (through `DerefMut` to a
/// slice): item `i`, which the caller may change in place.
#[verifier::external_body]
pub(crate) fn pan_get_mut(v: &mut PanGrabs, i: usize) -> (r: &mut PanGrab)
    requires
        i < pan_items(*old(v)).len(),
    ensures
        *r == pan_items(*old(v))[i as int],
        pan_items(*final(v)) == pan_items(*old(v)).update(i as int, *final(r)),
{
    &mut v.items[i]
}

/// Relies on `SmallVec::push`: `g` is added at the end.
#[verifier::external_body]
pub(crate) fn pan_push(v: &mut PanGrabs, g: PanGrab)
    ensures
        pan_items(*final(v)) == pan_items(*old(v)).push(g),
{
    v.items.push(g)
}

/// Relies on `SmallVec::remove`: item `i` is taken out and returned, the
/// later ones moving down by one.
#[verifier::external_body]
pub(crate) fn pan_remove(v: &mut PanGrabs, i: usize) -> (r: PanGrab)
    requires
        i < pan_items(*old(v)).len(),
    ensures
        r == pan_items(*old(v))[i as int],
        pan_items(*final(v)) == pan_items(*old(v)).remove(i as int),
{
    v.items.remove(i)
}

/// The open pop-ups of a window, innermost last
#[verifier::external_body]
pub struct Popups {
    items: smallvec::SmallVec<[PopupEntry; 16]>,
}

/// The open pop-ups held, in order
pub uninterp spec fn popup_items(v: Popups) -> Seq<PopupEntry>;

/// Relies on `SmallVec::new`: the new vector is empty.
#[verifier::external_body]
pub(crate) fn popup_new() -> (r: Popups)
    ensures
        popup_items(r) == Seq::<PopupEntry>::empty(),
{
    Popups { items: smallvec::SmallVec::new() }
}

/// Relies on `SmallVec::len`: the number of items held.
#[verifier::external_body]
pub(crate) fn popup_len(v: &Popups) -> (r: usize)
    ensures
        r == popup_items(*v).len(),
{
    v.items.len()
}

/// Relies on indexing a `SmallVec` (through `Deref` to a slice): item `i`.
#[verifier::external_body]
pub(crate) fn popup_get(v: &Popups, i: usize) -> (r: &PopupEntry)
    requires
        i < popup_items(*v).len(),
    ensures
        *r == popup_items(*v)[i as int],
{
    &v.items[i]
}

/// Relies on `SmallVec::push`: `e` is added at the end.
#[verifier::external_body]
pub(crate) fn popup_push(v: &mut Popups, e: PopupEntry)
    ensures
        popup_items(*final(v)) == popup_items(*old(v)).push(e),
{
    v.items.push(e)
}

/// Relies on `SmallVec::remove`: item `i` is taken out and returned, the
/// later ones moving down by one.
#[verifier::external_body]
pub(crate) fn popup_remove(v: &mut Popups, i: usize) -> (r: PopupEntry)
    requires
        i < popup_items(*old(v)).len(),
    ensures
        r == popup_items(*old(v))[i as int],
        popup_items(*final(v)) == popup_items(*old(v)).remove(i as int),
{
    v.items.remove(i)
}

/// Relies on `SmallVec::pop`: the last item, if any, is taken out.
#[verifier::external_body]
pub(crate) fn popup_pop(v: &mut Popups) -> (r: Option<PopupEntry>)
    ensures
        popup_items(*old(v)).len() == 0 ==> r is None && popup_items(*final(v)) == popup_items(*old(v)),
        popup_items(*old(v)).len() > 0 ==> r == Some(popup_items(*old(v)).last()) && popup_items(
            *final(v),
        ) == popup_items(*old(v)).drop_last(),
{
    v.items.pop()
}

/// Notifications queued for delivery after the current dispatch, in order
#[verifier::external_body]
pub struct PendingQueue {
    items: smallvec::SmallVec<[Pending; 8]>,
}

/// The notifications queued, in order
pub uninterp spec fn pending_items(v: PendingQueue) -> Seq<Pending>;

/// Relies on `SmallVec::new`: the new vector is empty.
#[verifier::external_body]
pub(crate) fn pending_new() -> (r: PendingQueue)
    ensures
        pending_items(r) == Seq::<Pending>::empty(),
{
    PendingQueue { items: smallvec::SmallVec::new() }
}

/// Relies on `SmallVec::push`: `p` is added at the end.
#[verifier::external_body]
pub(crate) fn pending_push(v: &mut PendingQueue, p: Pending)
    ensures
        pending_items(*final(v)) == pending_items(*old(v)).push(p),
{
    v.items.push(p)
}

/// Relies on `SmallVec::drain` over the whole range: every item is taken
/// out, in order, leaving the vector empty.
#[verifier::external_body]
pub(crate) fn pending_take_all(v: &mut PendingQueue) -> (r: Vec<Pending>)
    ensures
        r@ == pending_items(*old(v)),
        pending_items(*final(v)) == Seq::<Pending>::empty(),
{
    v.items.drain(..).collect()
}

/// Pop-ups closed during the current dispatch: each one's parent and
/// window, for notification afterwards
#[verifier::external_body]
pub struct RemovedPopups {
    items: smallvec::SmallVec<[(WidgetId, WindowId); 16]>,
}

/// The closed pop-ups held, in order
pub uninterp spec fn removed_items(v: RemovedPopups) -> Seq<(WidgetId, WindowId)>;

/// Relies on `SmallVec::new`: the new vector is empty.
#[verifier::external_body]
pub(crate) fn removed_new() -> (r: RemovedPopups)
    ensures
        removed_items(r) == Seq::<(WidgetId, WindowId)>::empty(),
{
    RemovedPopups { items: smallvec::SmallVec::new() }
}

/// Relies on `SmallVec::push`: `(parent, window)` is added at the end.
#[verifier::external_body]
pub(crate) fn removed_push(v: &mut RemovedPopups, parent: WidgetId, window: WindowId)
    ensures
        removed_items(*final(v)) == removed_items(*old(v)).push((parent, window)),
{
    v.items.push((parent, window))
}

/// Relies on `SmallVec::drain` over the whole range: every item is taken
/// out, in order, leaving the vector empty.
#[verifier::external_body]
pub(crate) fn removed_take_all(v: &mut RemovedPopups) -> (r: Vec<(WidgetId, WindowId)>)
    ensures
        r@ == removed_items(*old(v)),
        removed_items(*final(v)) == Seq::<(WidgetId, WindowId)>::empty(),
{
    v.items.drain(..).collect()
}

#[verifier::external_type_specification]
#[verifier::external_body]
#[verifier::reject_recursive_types(K)]
#[verifier::reject_recursive_types(V)]
pub struct ExLinearMap<K, V>(LinearMap<K, V>);

/// Map from a held key's scancode to the widget it shows as pressed
pub type DepressMap = LinearMap<u32, WidgetId>;

/// The widgets shown as pressed by a held key, by the key's scancode
pub uninterp spec fn depress_map(m: DepressMap) -> Map<u32, WidgetId>;

/// Relies on `LinearMap::new`: the new map is empty.
#[verifier::external_body]
pub(crate) fn depress_new() -> (r: DepressMap)
    ensures
        depress_map(r).dom() == Set::<u32>::empty(),
{
    LinearMap::new()
}

/// Relies on `LinearMap::insert`: `key` maps to `id` afterwards, replacing
/// any earlier value; other keys are unchanged.
#[verifier::external_body]
pub(crate) fn depress_insert(m: &mut DepressMap, key: u32, id: WidgetId)
    ensures
        depress_map(*final(m)) == depress_map(*old(m)).insert(key, id),
{
    m.insert(key, id);
}

/// Relies on `LinearMap::remove`: the value of `key`, if any, is taken out
/// and returned; other keys are unchanged.
#[verifier::external_body]
pub(crate) fn depress_remove(m: &mut DepressMap, key: u32) -> (r: Option<WidgetId>)
    ensures
        r == (if depress_map(*old(m)).contains_key(key) {
            Some(depress_map(*old(m))[key])
        } else {
            None
        }),
        depress_map(*final(m)) == depress_map(*old(m)).remove(key),
{
    m.remove(&key)
}

/// `v` is the value of some key of `m`
pub open spec fn is_value(m: Map<u32, WidgetId>, v: WidgetId) -> bool {
    exists|k: u32| #[trigger] m.contains_key(k) && m[k] == v
}

/// Relies on `LinearMap::values`, which visits the value of every key once:
/// the values, copied out (in no stated order).
#[verifier::external_body]
pub(crate) fn depress_values(m: &DepressMap) -> (r: Vec<WidgetId>)
    ensures
        forall|i: int| 0 <= i < r.len() ==> is_value(depress_map(*m), #[trigger] r@[i]),
        forall|k: u32| #[trigger] depress_map(*m).contains_key(k) ==> r@.contains(depress_map(*m)[k]),
{
    m.values().cloned().collect()
}

} // verus!
