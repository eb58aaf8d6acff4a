use kas::config::{
    menu_delay_ms, mouse_nav_focus, mouse_pan, mouse_text_pan, scroll_flick_timeout_ms,
    touch_nav_focus, touch_select_delay_ms, MousePan, Shortcuts,
};
use kas::event::{
    Activation, Command, Event, ModifiersState, MouseButton, PressSource, VirtualKeyCode, WindowId,
};
use kas::geom::{Coord, Direction, Offset};
use kas::grab::{GrabMode, MouseGrab, PanPoint, PanRef, TouchGrab, NO_PAN};
use kas::state::{CursorIcon, EventState, KeyAction, Pending, Popup};
use kas::widget_id::WidgetId;

fn id(k: usize) -> WidgetId {
    WidgetId::root().make_child(k)
}

fn state() -> EventState {
    EventState::new(Shortcuts::new())
}

#[test]
fn command_from_key() {
    assert_eq!(Command::new(VirtualKeyCode::Escape), Some(Command::Escape));
    assert_eq!(Command::new(VirtualKeyCode::Back), Some(Command::DelBack));
    assert_eq!(Command::new(VirtualKeyCode::NumpadEnter), Some(Command::Return));
    assert_eq!(Command::new(VirtualKeyCode::Scroll), Some(Command::ScrollLock));
    assert_eq!(Command::new(VirtualKeyCode::A), None);
}

#[test]
fn command_classes() {
    assert!(Command::Activate.is_activate());
    assert!(Command::Space.is_activate());
    assert!(!Command::Escape.is_activate());
    assert!(Command::Copy.suitable_for_sel_focus());
    assert!(!Command::Paste.suitable_for_sel_focus());
    assert_eq!(Command::Up.as_direction(), Some(Direction::Up));
    assert_eq!(Command::Home.as_direction(), None);
}

#[test]
fn press_source_queries() {
    assert!(PressSource::Mouse(MouseButton::Left, 2).is_primary());
    assert!(!PressSource::Mouse(MouseButton::Right, 1).is_primary());
    assert!(PressSource::Touch(5).is_primary());
    assert!(PressSource::Touch(5).is_touch());
    assert_eq!(PressSource::Mouse(MouseButton::Left, 3).repetitions(), 3);
    assert_eq!(PressSource::Touch(5).repetitions(), 1);
}

#[test]
fn event_pass_when_disabled() {
    assert!(Event::LostCharFocus.pass_when_disabled());
    assert!(Event::TimerUpdate(1).pass_when_disabled());
    assert!(!Event::Command(Command::Copy, false).pass_when_disabled());
    assert!(!Event::NavFocus(true).pass_when_disabled());
}

#[test]
fn config_defaults() {
    assert_eq!(menu_delay_ms(), 250);
    assert_eq!(touch_select_delay_ms(), 1000);
    assert_eq!(scroll_flick_timeout_ms(), 25);
    assert_eq!(mouse_pan(), MousePan::Always);
    assert_eq!(mouse_text_pan(), MousePan::WithCtrl);
    assert!(mouse_nav_focus());
    assert!(touch_nav_focus());
}

#[test]
fn mouse_pan_modifiers() {
    let alt = ModifiersState { shift: false, ctrl: false, alt: true, logo: false };
    assert!(MousePan::WithAlt.is_enabled_with(alt));
    assert!(!MousePan::WithCtrl.is_enabled_with(alt));
    assert!(!MousePan::Never.is_enabled_with(alt));
    assert!(MousePan::Always.is_enabled_with(ModifiersState::empty()));
}

#[test]
fn shortcuts_lookup() {
    let mut s = Shortcuts::new();
    let ctrl = ModifiersState { shift: false, ctrl: true, alt: false, logo: false };
    s.insert(ctrl, VirtualKeyCode::C, Command::Copy);
    assert_eq!(s.get(ctrl, VirtualKeyCode::C), Some(Command::Copy));
    assert_eq!(s.get(ctrl, VirtualKeyCode::V), None);
    assert_eq!(s.get(ModifiersState::empty(), VirtualKeyCode::Tab), Some(Command::Tab));
}

fn mouse_grab() -> MouseGrab {
    MouseGrab {
        button: MouseButton::Left,
        repetitions: 1,
        start_id: id(0),
        cur_id: Some(id(0)),
        depress: Some(id(0)),
        mode: GrabMode::Grab,
        pan_grab: PanRef { slot: NO_PAN, index: 0 },
        coord: Coord(0, 0),
        delta: Offset(0, 0),
    }
}

#[test]
fn grab_motion_is_coalesced() {
    let mut g = mouse_grab();
    g.add_move(Coord(1, 0), Offset(1, 0), Some(id(0)));
    g.add_move(Coord(3, 1), Offset(2, 1), Some(id(1)));
    g.add_move(Coord(6, 5), Offset(3, 4), None);
    let (target, event) = g.flush_move().unwrap();
    assert_eq!(target, id(0));
    assert_eq!(
        event,
        Event::PressMove {
            source: PressSource::Mouse(MouseButton::Left, 1),
            cur_id: None,
            coord: Coord(6, 5),
            delta: Offset(6, 5),
        }
    );
    assert!(g.flush_move().is_none());
}

#[test]
fn touch_flush_reports_motion_once() {
    let mut t = TouchGrab {
        id: 4,
        start_id: id(2),
        depress: None,
        cur_id: None,
        last_move: Coord(10, 10),
        coord: Coord(10, 10),
        mode: GrabMode::Grab,
        pan_grab: PanRef { slot: NO_PAN, index: 0 },
    };
    assert!(t.flush_move().is_none());
    t.add_move(Coord(12, 15), None);
    t.add_move(Coord(13, 7), Some(id(3)));
    let (target, event) = t.flush_move().unwrap();
    assert_eq!(target, id(2));
    assert_eq!(
        event,
        Event::PressMove {
            source: PressSource::Touch(4),
            cur_id: Some(id(3)),
            coord: Coord(13, 7),
            delta: Offset(3, -3),
        }
    );
    assert!(t.flush_move().is_none());
}

#[test]
fn state_mouse_grab_flush() {
    let mut s = state();
    assert!(s.grab_press(id(1), PressSource::Mouse(MouseButton::Left, 1), Coord(5, 5), GrabMode::Grab));
    assert!(!s.grab_press(id(2), PressSource::Mouse(MouseButton::Right, 1), Coord(5, 5), GrabMode::Grab));
    s.mouse_motion(Coord(6, 5), Offset(1, 0), Some(id(1)));
    s.mouse_motion(Coord(8, 6), Offset(2, 1), Some(id(1)));
    let (t, e) = s.flush_mouse_move().unwrap();
    assert_eq!(t, id(1));
    assert!(matches!(e, Event::PressMove { delta: Offset(3, 1), coord: Coord(8, 6), .. }));
    assert!(s.flush_mouse_move().is_none());
    assert_eq!(s.end_mouse_grab(MouseButton::Right), None);
    assert_eq!(s.end_mouse_grab(MouseButton::Left), Some(id(1)));
    assert!(s.mouse_grab.is_none());
}

#[test]
fn sel_focus_change_queues_losses() {
    let mut s = state();
    let a = id(1);
    let b = id(2);
    s.set_sel_focus(a.clone(), true);
    assert!(s.char_focus);
    assert_eq!(s.char_focus(), Some(a.clone()));
    let _ = s.take_pending();
    s.set_sel_focus(b.clone(), false);
    assert_eq!(s.sel_focus, Some(b.clone()));
    assert_eq!(s.nav_focus, Some(b.clone()));
    assert!(!s.char_focus);
    let pending = s.take_pending();
    let lost_char = pending.iter().filter(|p| matches!(p, Pending::LostCharFocus(x) if *x == a)).count();
    let lost_sel = pending.iter().filter(|p| matches!(p, Pending::LostSelFocus(x) if *x == a)).count();
    assert_eq!(lost_char, 1);
    assert_eq!(lost_sel, 1);
    assert_eq!(pending.len(), 3);
    assert!(s.take_pending().is_empty());
}

#[test]
fn sel_focus_same_widget_only_adds_char_focus() {
    let mut s = state();
    s.set_sel_focus(id(1), false);
    let _ = s.take_pending();
    s.set_sel_focus(id(1), true);
    assert!(s.char_focus);
    assert!(s.take_pending().is_empty());
    s.set_sel_focus(id(1), false);
    assert!(s.char_focus);
}

#[test]
fn focus_invariant_over_operations() {
    let mut s = state();
    s.set_sel_focus(id(1), true);
    s.clear_char_focus();
    assert!(!s.char_focus);
    assert_eq!(s.sel_focus, Some(id(1)));
    s.set_nav_focus(id(2), true);
    assert_eq!(s.nav_focus, Some(id(2)));
    s.set_sel_focus(id(3), true);
    assert!(s.char_focus && s.sel_focus == Some(id(3)) && s.nav_focus == Some(id(3)));
    let p = s.take_pending();
    assert!(matches!(p.last(), Some(Pending::LostSelFocus(x)) if *x == id(1)));
}

#[test]
fn pan_slot_compaction() {
    let mut s = state();
    // three pan gestures, on three widgets
    assert!(s.grab_press(id(1), PressSource::Touch(1), Coord(0, 0), GrabMode::PanOnly));
    assert!(s.grab_press(id(2), PressSource::Touch(2), Coord(0, 0), GrabMode::PanFull));
    assert!(s.grab_press(id(3), PressSource::Touch(3), Coord(0, 0), GrabMode::PanScale));
    assert!(s.grab_press(id(2), PressSource::Touch(4), Coord(1, 1), GrabMode::PanFull));
    assert!(s.grab_press(id(8), PressSource::Mouse(MouseButton::Left, 1), Coord(0, 0), GrabMode::PanOnly));
    assert_eq!(s.num_pan_grabs(), 4);
    assert_eq!(s.touch_grab_at(3).pan_grab, PanRef { slot: 1, index: 1 });
    assert_eq!(s.pan_grab_at(1).n, 2);
    // the mouse pan replaced nothing: it is a gesture of its own kind
    assert_eq!(s.mouse_grab.as_ref().unwrap().pan_grab.slot, 3);

    s.remove_pan(0);
    assert_eq!(s.num_pan_grabs(), 3);
    assert_eq!(s.touch_grab_at(0).pan_grab.slot, NO_PAN);
    assert_eq!(s.touch_grab_at(1).pan_grab.slot, 0);
    assert_eq!(s.touch_grab_at(2).pan_grab.slot, 1);
    assert_eq!(s.touch_grab_at(3).pan_grab.slot, 0);
    assert_eq!(s.mouse_grab.as_ref().unwrap().pan_grab.slot, 2);
    assert_eq!(s.pan_grab_at(0).id, id(2));

    // releasing one point of a two-point gesture keeps it
    let t = s.remove_touch(2).unwrap();
    s.remove_pan_grab(t.pan_grab);
    assert_eq!(s.num_pan_grabs(), 3);
    assert_eq!(s.pan_grab_at(0).n, 1);
    assert_eq!(s.touch_grab_at(2).pan_grab, PanRef { slot: 0, index: 0 });
    // releasing the last point removes it and renumbers the rest
    let t = s.remove_touch(4).unwrap();
    s.remove_pan_grab(t.pan_grab);
    assert_eq!(s.num_pan_grabs(), 2);
    assert_eq!(s.touch_grab_at(1).pan_grab.slot, 0);
    assert_eq!(s.mouse_grab.as_ref().unwrap().pan_grab.slot, 1);
    for i in 0..s.num_touch_grabs() {
        let slot = s.touch_grab_at(i).pan_grab.slot;
        assert!(slot == NO_PAN || (slot as usize) < s.num_pan_grabs());
    }
}

#[test]
fn touch_grab_lookup() {
    let mut s = state();
    assert!(s.grab_press(id(1), PressSource::Touch(9), Coord(0, 0), GrabMode::Grab));
    assert!(!s.grab_press(id(2), PressSource::Touch(9), Coord(0, 0), GrabMode::Grab));
    assert_eq!(s.get_touch(9), Some(0));
    assert_eq!(s.get_touch(8), None);
    assert!(s.touch_motion(9, Coord(4, 4), None));
    assert!(!s.touch_motion(8, Coord(4, 4), None));
    let (t, e) = s.flush_touch_move(0).unwrap();
    assert_eq!(t, id(1));
    assert!(matches!(e, Event::PressMove { delta: Offset(4, 4), .. }));
    assert!(s.remove_touch(8).is_none());
    assert!(s.remove_touch(9).is_some());
    assert_eq!(s.num_touch_grabs(), 0);
}

fn popup(parent: WidgetId, own: WidgetId) -> Popup {
    Popup { id: own, parent, direction: Direction::Down }
}

#[test]
fn unused_press_closes_popup_then_goes_to_target() {
    let mut s = state();
    s.add_popup(WindowId(7), popup(id(1), id(5)));
    let press = Event::PressStart {
        source: PressSource::Mouse(MouseButton::Left, 1),
        start_id: Some(id(3)),
        coord: Coord(5, 5),
    };
    let mut delivered = Vec::new();
    let mut next = s.popup_first_target().map(|(_, parent)| parent);
    // the pop-up's owner does not use the press
    while let Some(parent) = next {
        delivered.push(parent);
        let (closed, after) = s.popup_press_unused();
        assert_eq!(closed, Some(WindowId(7)));
        next = after;
    }
    delivered.push(id(3));
    assert_eq!(delivered, vec![id(1), id(3)]);
    assert_eq!(s.take_popup_removed(), vec![(id(1), WindowId(7))]);
    assert!(s.take_popup_removed().is_empty());
    assert_eq!(s.num_popups(), 0);
    assert!(matches!(press, Event::PressStart { coord: Coord(5, 5), .. }));
}

#[test]
fn escape_closes_one_popup() {
    let mut s = state();
    s.set_nav_focus(id(1), true);
    s.add_popup(WindowId(3), popup(id(1), id(4)));
    let root = WidgetId::root();
    let targets = s.command_targets(Command::Escape);
    assert_eq!(targets, vec![id(1), id(1)]);
    let action = s.key_fallback(&root, VirtualKeyCode::Escape, 1);
    assert!(matches!(action, KeyAction::ClosePopup(WindowId(3))));
    assert_eq!(s.num_popups(), 0);
    assert_eq!(s.nav_focus, Some(id(1)));
    let again = s.key_fallback(&root, VirtualKeyCode::Escape, 1);
    assert!(matches!(again, KeyAction::Unused));
}

#[test]
fn command_target_priority() {
    let mut s = state();
    s.set_nav_fallback(id(9));
    s.set_sel_focus(id(1), true);
    s.set_nav_focus(id(2), false);
    assert_eq!(s.command_targets(Command::Copy), vec![id(1), id(2), id(1), id(9)]);
    assert_eq!(s.command_targets(Command::Paste), vec![id(1), id(2), id(9)]);
    s.modifiers.alt = true;
    assert_eq!(s.command_targets(Command::Paste), vec![id(1), id(9)]);
    assert_eq!(s.key_command(VirtualKeyCode::Return), None);
    s.modifiers.alt = false;
    assert_eq!(s.key_command(VirtualKeyCode::Return), Some(Command::Return));
}

#[test]
fn accelerator_below_top_layer_closes_popups() {
    let mut s = state();
    let root = WidgetId::root();
    s.new_accel_layer(root.clone(), false);
    s.add_accel_key(&root, VirtualKeyCode::F, id(6));
    s.new_accel_layer(id(1), true);
    s.add_accel_key(&id(1), VirtualKeyCode::G, id(7));
    s.add_popup(WindowId(1), popup(root.clone(), id(1)));
    s.add_popup(WindowId(2), popup(id(1), id(2)));
    // without Alt only the layer that bypasses it counts
    let none = s.key_fallback(&root, VirtualKeyCode::F, 11);
    assert!(matches!(none, KeyAction::Unused));
    let g = s.key_fallback(&root, VirtualKeyCode::G, 12);
    match g {
        KeyAction::Accel { target, closed } => {
            assert_eq!(target, id(7));
            assert!(closed.is_empty());
        }
        _ => panic!("expected an accelerator"),
    }
    assert_eq!(s.end_key_event(12), Some(id(7)));
    s.modifiers.alt = true;
    let f = s.key_fallback(&root, VirtualKeyCode::F, 13);
    match f {
        KeyAction::Accel { target, closed } => {
            assert_eq!(target, id(6));
            // the root's layer is that of the outer pop-up's parent: only the
            // inner pop-up closes
            assert_eq!(closed, vec![WindowId(2)]);
        }
        _ => panic!("expected an accelerator"),
    }
    assert_eq!(s.num_popups(), 1);
    assert_eq!(s.popup_at(0).window, WindowId(1));
}

#[test]
fn tab_and_activation_keys() {
    let mut s = state();
    let root = WidgetId::root();
    s.set_sel_focus(id(1), true);
    let tab = s.key_fallback(&root, VirtualKeyCode::Tab, 1);
    assert!(matches!(tab, KeyAction::NavNext { reverse: false }));
    assert!(!s.char_focus);
    let space = s.key_fallback(&root, VirtualKeyCode::Space, 2);
    match space {
        KeyAction::Activate(w) => assert_eq!(w, id(1)),
        _ => panic!("expected activation"),
    }
    // a widget shown as pressed is not added twice
    assert!(!s.add_key_depress(3, id(1)));
    assert_eq!(s.end_key_event(2), Some(id(1)));
    assert_eq!(s.end_key_event(2), None);
    assert!(s.add_key_depress(3, id(1)));
}

#[test]
fn hover_changes() {
    let mut s = state();
    let c = s.set_hover(Some(id(1)), false, true, CursorIcon::Text);
    assert_eq!(c.redraw, vec![id(1)]);
    assert_eq!(c.cursor, Some(CursorIcon::Text));
    let same = s.set_hover(Some(id(1)), true, true, CursorIcon::Pointer);
    assert!(same.redraw.is_empty() && same.cursor.is_none());
    let c2 = s.set_hover(Some(id(2)), true, false, CursorIcon::Text);
    assert_eq!(c2.redraw, vec![id(1)]);
    assert_eq!(c2.cursor, None);
    assert!(s.grab_press(id(2), PressSource::Mouse(MouseButton::Left, 1), Coord(0, 0), GrabMode::Grab));
    let c3 = s.set_hover(None, false, false, CursorIcon::Default);
    assert!(c3.redraw.is_empty());
    assert_eq!(s.hover, None);
    let c4 = s.set_hover(Some(id(3)), false, false, CursorIcon::Grab);
    assert_eq!(c4.cursor, None);
    assert_eq!(s.hover_icon, CursorIcon::Grab);
}

#[test]
fn on_activate_responses() {
    let me = id(1);
    let other = id(2);
    let primary = PressSource::Mouse(MouseButton::Left, 1);
    assert!(matches!(Event::Command(Command::Return, false).on_activate(&me), Activation::Activate));
    assert!(matches!(Event::Command(Command::Copy, false).on_activate(&me), Activation::Unused));
    let start = Event::PressStart { source: primary, start_id: Some(me.clone()), coord: Coord(1, 2) };
    assert!(matches!(start.on_activate(&me), Activation::GrabPress(_, Coord(1, 2))));
    let right = Event::PressStart {
        source: PressSource::Mouse(MouseButton::Right, 1),
        start_id: Some(me.clone()),
        coord: Coord(1, 2),
    };
    assert!(matches!(right.on_activate(&me), Activation::Unused));
    let over = Event::PressMove { source: primary, cur_id: Some(me.clone()), coord: Coord(0, 0), delta: Offset(1, 1) };
    match over.on_activate(&me) {
        Activation::SetDepress(_, t) => assert_eq!(t, Some(me.clone())),
        _ => panic!("expected depress"),
    }
    let off = Event::PressMove { source: primary, cur_id: Some(other.clone()), coord: Coord(0, 0), delta: Offset(1, 1) };
    match off.on_activate(&me) {
        Activation::SetDepress(_, t) => assert_eq!(t, None),
        _ => panic!("expected depress"),
    }
    let end = Event::PressEnd { source: primary, end_id: Some(me.clone()), coord: Coord(0, 0), success: true };
    assert!(matches!(end.on_activate(&me), Activation::Activate));
    let cancelled = Event::PressEnd { source: primary, end_id: Some(me.clone()), coord: Coord(0, 0), success: false };
    assert!(matches!(cancelled.on_activate(&me), Activation::Used));
    let elsewhere = Event::PressEnd { source: primary, end_id: Some(other), coord: Coord(0, 0), success: true };
    assert!(matches!(elsewhere.on_activate(&me), Activation::Used));
    assert!(matches!(Event::TimerUpdate(3).on_activate(&me), Activation::Unused));
}

#[test]
fn translate_press_events() {
    let mut e = Event::PressEnd {
        source: PressSource::Touch(1),
        end_id: None,
        coord: Coord(5, 6),
        success: true,
    };
    e.translate(Offset(10, -2));
    assert!(matches!(e, Event::PressEnd { coord: Coord(15, 4), .. }));
    let mut t = Event::TimerUpdate(4);
    t.translate(Offset(1, 1));
    assert_eq!(t, Event::TimerUpdate(4));
}

#[test]
fn grab_depress_follows_press() {
    let mut s = state();
    assert!(!s.set_grab_depress(PressSource::Touch(1), None));
    assert!(s.grab_press(id(1), PressSource::Touch(1), Coord(0, 0), GrabMode::Grab));
    assert!(s.set_grab_depress(PressSource::Touch(1), None));
    assert_eq!(s.touch_grab_at(0).depress, None);
    assert!(s.grab_press(id(2), PressSource::Mouse(MouseButton::Left, 1), Coord(0, 0), GrabMode::Grab));
    assert!(s.set_grab_depress(PressSource::Mouse(MouseButton::Left, 1), Some(id(3))));
    assert_eq!(s.mouse_grab.as_ref().unwrap().depress, Some(id(3)));
}

#[test]
fn command_steps_read_current_state() {
    let mut s = state();
    s.set_sel_focus(id(1), true);
    s.set_nav_focus(id(2), false);
    assert_eq!(s.command_target_at(Command::Copy, 0), Some(id(1)));
    assert_eq!(s.command_target_at(Command::Copy, 1), Some(id(2)));
    assert_eq!(s.command_target_at(Command::Copy, 2), None);
    assert_eq!(s.command_target_at(Command::Copy, 3), Some(id(1)));
    assert_eq!(s.command_target_at(Command::Paste, 3), None);
    assert_eq!(s.command_target_at(Command::Copy, 4), None);
    assert_eq!(s.command_target_at(Command::Copy, 5), None);
}

#[test]
fn timers_keep_earliest_and_come_due() {
    let mut s = state();
    assert_eq!(s.next_timer(), None);
    s.request_timer(100, id(1), 7);
    s.request_timer(50, id(2), 1);
    s.request_timer(80, id(1), 7);
    s.request_timer(90, id(1), 7);
    assert_eq!(s.timers.len(), 2);
    assert_eq!(s.next_timer(), Some(50));
    let due = s.take_due_timers(60);
    assert_eq!(due.len(), 1);
    assert_eq!((due[0].deadline, due[0].token), (50, 1));
    assert_eq!(s.timers.len(), 1);
    assert_eq!(s.timers[0].deadline, 80);
    assert_eq!(s.next_timer(), Some(80));
}

#[test]
fn accel_layer_is_replaced_not_doubled() {
    let mut s = state();
    let root = WidgetId::root();
    s.new_accel_layer(root.clone(), false);
    s.add_accel_key(&root, VirtualKeyCode::F, id(6));
    s.new_accel_layer(root.clone(), true);
    assert_eq!(s.accel_layers.len(), 1);
    assert!(s.accel_layers[0].alt_bypass);
    assert!(s.accel_layers[0].keys.is_empty());
}

#[test]
fn pan_points_are_recorded() {
    let mut s = state();
    assert!(s.grab_press(id(1), PressSource::Touch(1), Coord(3, 4), GrabMode::PanFull));
    assert!(s.grab_press(id(1), PressSource::Touch(2), Coord(7, 8), GrabMode::PanFull));
    let g = s.pan_grab_at(0);
    assert_eq!(g.n, 2);
    assert_eq!(g.coords[0], PanPoint { start: Coord(3, 4), cur: Coord(3, 4) });
    assert_eq!(g.coords[1], PanPoint { start: Coord(7, 8), cur: Coord(7, 8) });
    assert!(s.touch_motion(2, Coord(9, 9), None));
    assert_eq!(s.pan_grab_at(0).coords[1], PanPoint { start: Coord(7, 8), cur: Coord(9, 9) });
    assert_eq!(s.touch_grab_at(1).coord, Coord(7, 8));
    assert!(s.grab_press(id(4), PressSource::Mouse(MouseButton::Left, 1), Coord(1, 1), GrabMode::PanOnly));
    s.mouse_motion(Coord(2, 3), Offset(1, 2), None);
    assert_eq!(s.pan_grab_at(1).coords[0], PanPoint { start: Coord(1, 1), cur: Coord(2, 3) });
    assert_eq!(s.end_mouse_grab(MouseButton::Left), Some(id(4)));
    assert_eq!(s.num_pan_grabs(), 1);
}

#[test]
fn accel_key_rebinding_replaces() {
    let mut s = state();
    let root = WidgetId::root();
    s.new_accel_layer(root.clone(), true);
    s.add_accel_key(&root, VirtualKeyCode::F, id(6));
    s.add_accel_key(&root, VirtualKeyCode::F, id(7));
    assert_eq!(s.accel_layers[0].keys.len(), 1);
    match s.key_fallback(&root, VirtualKeyCode::F, 1) {
        KeyAction::Accel { target, .. } => assert_eq!(target, id(7)),
        _ => panic!("expected an accelerator"),
    }
}
