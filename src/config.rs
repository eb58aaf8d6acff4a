//! Event-handling configuration: defaults, mouse-pan policy and the
//! shortcut table that maps key presses to commands.

use vstd::prelude::*;
use crate::event::{command_of, Command, ModifiersState, VirtualKeyCode};

verus! {

/// When mouse-panning (click and drag to scroll) is enabled
#[derive(Copy, Clone, Debug, PartialEq, Eq, Structural, Hash)]
pub enum MousePan {
    /// Disable
    Never,
    /// Only enable when the Alt key is held
    WithAlt,
    /// Only enable when the Ctrl key is held
    WithCtrl,
    /// Always enabled
    Always,
}

impl MousePan {
    /// Is this enabled with the current modifiers?
    pub fn is_enabled_with(self, modifiers: ModifiersState) -> (r: bool)
        ensures
            r == match self {
                MousePan::Never => false,
                MousePan::WithAlt => modifiers.alt,
                MousePan::WithCtrl => modifiers.ctrl,
                MousePan::Always => true,
            },
    {
        match self {
            MousePan::Never => false,
            MousePan::WithAlt => modifiers.alt(),
            MousePan::WithCtrl => modifiers.ctrl(),
            MousePan::Always => true,
        }
    }
}

/// Default delay before opening a sub-menu on hover, in milliseconds
pub fn menu_delay_ms() -> (r: u32)
    ensures
        r == 250,
{
    250
}

/// Default delay before a held touch starts a selection, in milliseconds
pub fn touch_select_delay_ms() -> (r: u32)
    ensures
        r == 1000,
{
    1000
}

/// Default time after the last motion within which a release starts a
/// flick scroll, in milliseconds
pub fn scroll_flick_timeout_ms() -> (r: u32)
    ensures
        r == 25,
{
    25
}

/// Default mouse-pan policy for general widgets
pub fn mouse_pan() -> (r: MousePan)
    ensures
        r == MousePan::Always,
{
    MousePan::Always
}

/// Default mouse-pan policy for text widgets
pub fn mouse_text_pan() -> (r: MousePan)
    ensures
        r == MousePan::WithCtrl,
{
    MousePan::WithCtrl
}

/// Whether mouse input sets navigation focus, by default
pub fn mouse_nav_focus() -> (r: bool)
    ensures
        r,
{
    true
}

/// Whether touch input sets navigation focus, by default
pub fn touch_nav_focus() -> (r: bool)
    ensures
        r,
{
    true
}

/// A remappable table from key presses (with modifiers) to commands
#[derive(Debug)]
pub struct Shortcuts {
    pub entries: Vec<(ModifiersState, VirtualKeyCode, Command)>,
}

/// Where in `entries`, from index `i` on, the first binding of `vkey` with
/// modifiers `m` stands, if any
pub open spec fn find_binding(
    entries: Seq<(ModifiersState, VirtualKeyCode, Command)>,
    m: ModifiersState,
    vkey: VirtualKeyCode,
    i: int,
) -> Option<Command>
    decreases entries.len() - i,
{
    if i < 0 || i >= entries.len() {
        None
    } else if entries[i].0 == m && entries[i].1 == vkey {
        Some(entries[i].2)
    } else {
        find_binding(entries, m, vkey, i + 1)
    }
}

/// The command for `vkey` pressed with modifiers `m`: the first binding in
/// the table, else, with no modifier other than Shift held, the key's own
/// command
pub open spec fn shortcut_of(
    entries: Seq<(ModifiersState, VirtualKeyCode, Command)>,
    m: ModifiersState,
    vkey: VirtualKeyCode,
) -> Option<Command> {
    match find_binding(entries, m, vkey, 0) {
        Some(c) => Some(c),
        None => if !m.ctrl && !m.alt && !m.logo { command_of(vkey) } else { None },
    }
}

impl Shortcuts {
    /// An empty table: only keys' own commands apply
    pub fn new() -> (r: Shortcuts)
        ensures
            r.entries@ == Seq::<(ModifiersState, VirtualKeyCode, Command)>::empty(),
    {
        Shortcuts { entries: Vec::new() }
    }

    /// Bind `vkey` with modifiers `m` to `cmd`, ahead of earlier bindings
    pub fn insert(&mut self, m: ModifiersState, vkey: VirtualKeyCode, cmd: Command)
        ensures
            final(self).entries@ == seq![(m, vkey, cmd)] + old(self).entries@,
    {
        self.entries.insert(0, (m, vkey, cmd));
        assert(self.entries@ =~= seq![(m, vkey, cmd)] + old(self).entries@);
    }

    /// The command for `vkey` pressed with modifiers `m`, if any
    pub fn get(&self, m: ModifiersState, vkey: VirtualKeyCode) -> (r: Option<Command>)
        ensures
            r == shortcut_of(self.entries@, m, vkey),
    {
        let mut i: usize = 0;
        while i < self.entries.len()
            invariant
                i <= self.entries.len(),
                find_binding(self.entries@, m, vkey, 0) == find_binding(self.entries@, m, vkey, i as int),
            decreases self.entries.len() - i,
        {
            let e = self.entries[i];
            if e.0 == m && e.1 == vkey {
                return Some(e.2);
            }
            i = i + 1;
        }
        if !m.ctrl && !m.alt && !m.logo {
            Command::new(vkey)
        } else {
            None
        }
    }
}

} // verus!
