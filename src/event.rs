//! Input vocabulary: keys, mouse buttons, press sources, commands and the
//! events delivered to widgets.

use vstd::prelude::*;
use crate::geom::{Coord, Direction, Offset};
use crate::widget_id::{holds, holds_id, WidgetId};

verus! {

/// A key on the keyboard, by its meaning (not its position)
#[derive(Copy, Clone, Debug, PartialEq, Eq, Structural, Hash)]
pub enum VirtualKeyCode {
    Key1,
    Key2,
    Key3,
    Key4,
    Key5,
    Key6,
    Key7,
    Key8,
    Key9,
    Key0,
    A,
    B,
    C,
    D,
    E,
    F,
    G,
    H,
    I,
    J,
    K,
    L,
    M,
    N,
    O,
    P,
    Q,
    R,
    S,
    T,
    U,
    V,
    W,
    X,
    Y,
    Z,
    F1,
    F2,
    F3,
    F4,
    F5,
    F6,
    F7,
    F8,
    F9,
    F10,
    F11,
    F12,
    Escape,
    Snapshot,
    Scroll,
    Pause,
    Insert,
    Home,
    Delete,
    End,
    PageDown,
    PageUp,
    Left,
    Up,
    Right,
    Down,
    Back,
    Return,
    Space,
    NumpadEnter,
    Tab,
    NavigateForward,
    NavigateBackward,
    Cut,
    Copy,
    Paste,
    /// Any other key, by a backend-specific code
    Other(u32),
}

/// Platform-independent command input, derived from key presses
///
/// The exact command sent depends on the type of focus a widget has.
#[derive(Copy, Clone, Debug, PartialEq, Eq, Structural, Hash)]
pub enum Command {
    Escape,
    Activate,
    Return,
    Space,
    Tab,
    ViewUp,
    ViewDown,
    Left,
    Right,
    Up,
    Down,
    WordLeft,
    WordRight,
    Home,
    End,
    DocHome,
    DocEnd,
    PageUp,
    PageDown,
    Snapshot,
    ScrollLock,
    Pause,
    Insert,
    Delete,
    DelBack,
    DelWord,
    DelWordBack,
    Deselect,
    SelectAll,
    Find,
    FindReplace,
    FindNext,
    FindPrev,
    Bold,
    Italic,
    Underline,
    Link,
    Cut,
    Copy,
    Paste,
    Undo,
    Redo,
    New,
    Open,
    Save,
    Print,
    NavNext,
    NavPrev,
    NavParent,
    NavDown,
    TabNew,
    TabNext,
    TabPrev,
    Help,
    Rename,
    Refresh,
    Spelling,
    Menu,
    Fullscreen,
    Close,
    Exit,
}

/// The command a key maps to by default, if any
pub open spec fn command_of(vkey: VirtualKeyCode) -> Option<Command> {
    match vkey {
        VirtualKeyCode::Escape => Some(Command::Escape),
        VirtualKeyCode::Snapshot => Some(Command::Snapshot),
        VirtualKeyCode::Scroll => Some(Command::ScrollLock),
        VirtualKeyCode::Space => Some(Command::Space),
        VirtualKeyCode::Pause => Some(Command::Pause),
        VirtualKeyCode::Insert => Some(Command::Insert),
        VirtualKeyCode::Home => Some(Command::Home),
        VirtualKeyCode::Delete => Some(Command::Delete),
        VirtualKeyCode::End => Some(Command::End),
        VirtualKeyCode::PageDown => Some(Command::PageDown),
        VirtualKeyCode::PageUp => Some(Command::PageUp),
        VirtualKeyCode::Left => Some(Command::Left),
        VirtualKeyCode::Up => Some(Command::Up),
        VirtualKeyCode::Right => Some(Command::Right),
        VirtualKeyCode::Down => Some(Command::Down),
        VirtualKeyCode::Back => Some(Command::DelBack),
        VirtualKeyCode::Return => Some(Command::Return),
        VirtualKeyCode::NavigateForward => Some(Command::NavNext),
        VirtualKeyCode::NavigateBackward => Some(Command::NavPrev),
        VirtualKeyCode::NumpadEnter => Some(Command::Return),
        VirtualKeyCode::Tab => Some(Command::Tab),
        VirtualKeyCode::Cut => Some(Command::Cut),
        VirtualKeyCode::Copy => Some(Command::Copy),
        VirtualKeyCode::Paste => Some(Command::Paste),
        _ => None,
    }
}

impl Command {
    /// Try constructing from a [`VirtualKeyCode`]
    pub fn new(vkey: VirtualKeyCode) -> (r: Option<Command>)
        ensures
            r == command_of(vkey),
    {
        match vkey {
            VirtualKeyCode::Escape => Some(Command::Escape),
            VirtualKeyCode::Snapshot => Some(Command::Snapshot),
            VirtualKeyCode::Scroll => Some(Command::ScrollLock),
            VirtualKeyCode::Space => Some(Command::Space),
            VirtualKeyCode::Pause => Some(Command::Pause),
            VirtualKeyCode::Insert => Some(Command::Insert),
            VirtualKeyCode::Home => Some(Command::Home),
            VirtualKeyCode::Delete => Some(Command::Delete),
            VirtualKeyCode::End => Some(Command::End),
            VirtualKeyCode::PageDown => Some(Command::PageDown),
            VirtualKeyCode::PageUp => Some(Command::PageUp),
            VirtualKeyCode::Left => Some(Command::Left),
            VirtualKeyCode::Up => Some(Command::Up),
            VirtualKeyCode::Right => Some(Command::Right),
            VirtualKeyCode::Down => Some(Command::Down),
            VirtualKeyCode::Back => Some(Command::DelBack),
            VirtualKeyCode::Return => Some(Command::Return),
            VirtualKeyCode::NavigateForward => Some(Command::NavNext),
            VirtualKeyCode::NavigateBackward => Some(Command::NavPrev),
            VirtualKeyCode::NumpadEnter => Some(Command::Return),
            VirtualKeyCode::Tab => Some(Command::Tab),
            VirtualKeyCode::Cut => Some(Command::Cut),
            VirtualKeyCode::Copy => Some(Command::Copy),
            VirtualKeyCode::Paste => Some(Command::Paste),
            _ => None,
        }
    }

    /// True for "activation" commands: `Activate`, `Return` and `Space`
    pub open spec fn spec_is_activate(self) -> bool {
        self is Activate || self is Return || self is Space
    }

    /// True for "activation" commands: `Activate`, `Return` and `Space`
    pub fn is_activate(self) -> (r: bool)
        ensures
            r == self.spec_is_activate(),
    {
        matches!(self, Command::Activate | Command::Return | Command::Space)
    }

    /// True for the commands that may be sent to a widget with selection
    /// focus but not navigation focus: `Escape`, `Cut`, `Copy`, `Deselect`
    pub open spec fn spec_suitable_for_sel_focus(self) -> bool {
        self is Escape || self is Cut || self is Copy || self is Deselect
    }

    /// True for the commands that may be sent to a widget with selection
    /// focus but not navigation focus: `Escape`, `Cut`, `Copy`, `Deselect`
    pub fn suitable_for_sel_focus(self) -> (r: bool)
        ensures
            r == self.spec_suitable_for_sel_focus(),
    {
        matches!(self, Command::Escape | Command::Cut | Command::Copy | Command::Deselect)
    }

    /// Convert arrow keys to a direction
    pub fn as_direction(self) -> (r: Option<Direction>)
        ensures
            r == match self {
                Command::Left => Some(Direction::Left),
                Command::Right => Some(Direction::Right),
                Command::Up => Some(Direction::Up),
                Command::Down => Some(Direction::Down),
                _ => None,
            },
    {
        match self {
            Command::Left => Some(Direction::Left),
            Command::Right => Some(Direction::Right),
            Command::Up => Some(Direction::Up),
            Command::Down => Some(Direction::Down),
            _ => None,
        }
    }
}

/// A mouse button
#[derive(Copy, Clone, Debug, PartialEq, Eq, Structural, Hash)]
pub enum MouseButton {
    Left,
    Right,
    Middle,
    Other(u16),
}

/// Source of a press event
#[derive(Copy, Clone, Debug, PartialEq, Eq, Structural, Hash)]
pub enum PressSource {
    /// A mouse click: the button, and the number of repeated clicks (1 for
    /// a single click, 2 for a double click, ...)
    Mouse(MouseButton, u32),
    /// A touch event (with given touch identifier)
    Touch(u64),
}

impl PressSource {
    /// Returns true if this represents the left mouse button or a touch event
    pub fn is_primary(self) -> (r: bool)
        ensures
            r == match self {
                PressSource::Mouse(b, _) => b is Left,
                PressSource::Touch(_) => true,
            },
    {
        match self {
            PressSource::Mouse(button, _) => button == MouseButton::Left,
            PressSource::Touch(_) => true,
        }
    }

    /// Returns true if this represents a touch event
    pub fn is_touch(self) -> (r: bool)
        ensures
            r == self is Touch,
    {
        matches!(self, PressSource::Touch(_))
    }

    /// The number of repeated clicks; 1 for all touch events
    pub fn repetitions(self) -> (r: u32)
        ensures
            r == match self {
                PressSource::Mouse(_, n) => n,
                PressSource::Touch(_) => 1u32,
            },
    {
        match self {
            PressSource::Mouse(_, repetitions) => repetitions,
            PressSource::Touch(_) => 1,
        }
    }
}

/// State of the modifier keys
#[derive(Copy, Clone, Debug, Default, PartialEq, Eq, Structural, Hash)]
pub struct ModifiersState {
    pub shift: bool,
    pub ctrl: bool,
    pub alt: bool,
    pub logo: bool,
}

impl ModifiersState {
    /// No modifier held
    pub fn empty() -> (r: ModifiersState)
        ensures
            !r.shift && !r.ctrl && !r.alt && !r.logo,
    {
        ModifiersState { shift: false, ctrl: false, alt: false, logo: false }
    }

    /// Whether Shift is held
    pub fn shift(&self) -> (r: bool)
        ensures
            r == self.shift,
    {
        self.shift
    }

    /// Whether Ctrl is held
    pub fn ctrl(&self) -> (r: bool)
        ensures
            r == self.ctrl,
    {
        self.ctrl
    }

    /// Whether Alt is held
    pub fn alt(&self) -> (r: bool)
        ensures
            r == self.alt,
    {
        self.alt
    }
}

/// Identifier of a window (a pop-up is a window of its own)
#[derive(Copy, Clone, Debug, PartialEq, Eq, Structural, Hash)]
pub struct WindowId(pub u32);

/// Events addressed to a widget
#[derive(Clone, Debug, PartialEq)]
pub enum Event {
    /// No event
    NoEvent,
    /// Command input, with whether Shift is held
    Command(Command, bool),
    /// Programmatic activation
    Activate,
    /// Widget lost character (keyboard input) focus
    LostCharFocus,
    /// Widget lost selection focus
    LostSelFocus,
    /// Widget receives a character of text input
    ReceivedCharacter(char),
    /// Start of a press at `coord`, on the widget `start_id` if any
    PressStart { source: PressSource, start_id: Option<WidgetId>, coord: Coord },
    /// Motion of a grabbed press, by `delta` since the last such event
    PressMove { source: PressSource, cur_id: Option<WidgetId>, coord: Coord, delta: Offset },
    /// End of a grabbed press; `success` is false when it was cancelled
    PressEnd { source: PressSource, end_id: Option<WidgetId>, coord: Coord, success: bool },
    /// A timer requested with the given token expired
    TimerUpdate(u64),
    /// A pop-up window was closed
    PopupRemoved(WindowId),
    /// Widget gained navigation focus (true when by key)
    NavFocus(bool),
}

impl Event {
    /// Whether this event is still delivered to a disabled widget
    ///
    /// Disabled status disables input handling but not other notifications.
    pub open spec fn spec_pass_when_disabled(&self) -> bool {
        match self {
            Event::LostCharFocus | Event::LostSelFocus => true,
            Event::TimerUpdate(_) | Event::PopupRemoved(_) => true,
            _ => false,
        }
    }

    /// Whether this event is still delivered to a disabled widget
    ///
    /// Disabled status disables input handling but not other notifications.
    pub fn pass_when_disabled(&self) -> (r: bool)
        ensures
            r == self.spec_pass_when_disabled(),
    {
        match self {
            Event::NoEvent | Event::Command(..) | Event::Activate => false,
            Event::LostCharFocus | Event::LostSelFocus => true,
            Event::ReceivedCharacter(_) => false,
            Event::PressStart { .. } | Event::PressMove { .. } | Event::PressEnd { .. } => false,
            Event::TimerUpdate(_) | Event::PopupRemoved(_) => true,
            Event::NavFocus(_) => false,
        }
    }
}


/// What a widget that activates on click, touch or an activation command
/// does with an event
#[derive(Debug)]
pub enum Activation {
    /// Activate now
    Activate,
    /// Grab the press (a plain grab) from `coord`; the event is used
    GrabPress(PressSource, Coord),
    /// Show the grab as pressed on `target` (none when the press moved off
    /// the widget); the event is used
    SetDepress(PressSource, Option<WidgetId>),
    /// The event is used, with nothing more to do
    Used,
    /// The event is not used
    Unused,
}

impl Event {
    /// How widget `id`, which activates on click, touch and activation
    /// commands, responds to this event
    ///
    /// Activation is: an activation command; a primary press released over
    /// the widget it started on, without cancellation. A primary press is
    /// grabbed; motion of the grab shows the widget pressed while over it.
    pub fn on_activate(&self, id: &WidgetId) -> (r: Activation)
        ensures
            match *self {
                Event::Command(cmd, _) => if cmd.spec_is_activate() {
                    r is Activate
                } else {
                    r is Unused
                },
                Event::PressStart { source, coord, .. } => if match source {
                    PressSource::Mouse(b, _) => b is Left,
                    PressSource::Touch(_) => true,
                } {
                    r == Activation::GrabPress(source, coord)
                } else {
                    r is Unused
                },
                Event::PressMove { source, cur_id, .. } => r == Activation::SetDepress(
                    source,
                    if holds(cur_id, *id) { cur_id } else { None },
                ),
                Event::PressEnd { end_id, success, .. } => if success && holds(end_id, *id) {
                    r is Activate
                } else {
                    r is Used
                },
                _ => r is Unused,
            },
    {
        match self {
            Event::Command(cmd, _) => {
                if cmd.is_activate() {
                    Activation::Activate
                } else {
                    Activation::Unused
                }
            },
            Event::PressStart { source, coord, .. } => {
                if source.is_primary() {
                    Activation::GrabPress(*source, *coord)
                } else {
                    Activation::Unused
                }
            },
            Event::PressMove { source, cur_id, .. } => {
                let target = if holds_id(cur_id, id) {
                    crate::grab::clone_opt(cur_id)
                } else {
                    None
                };
                Activation::SetDepress(*source, target)
            },
            Event::PressEnd { end_id, success, .. } => {
                if *success && holds_id(end_id, id) {
                    Activation::Activate
                } else {
                    Activation::Used
                }
            },
            _ => Activation::Unused,
        }
    }

    /// Translate the coordinates of press events by `offset` (as when
    /// passing an event into a scrolled region); other events are unchanged
    pub fn translate(&mut self, offset: Offset)
        requires
            match *old(self) {
                Event::PressStart { coord, .. } | Event::PressMove { coord, .. } | Event::PressEnd {
                    coord,
                    ..
                } => crate::geom::fits_i32(coord.0 + offset.0) && crate::geom::fits_i32(coord.1 + offset.1),
                _ => true,
            },
        ensures
            match *old(self) {
                Event::PressStart { source, start_id, coord } => *final(self) == Event::PressStart {
                    source,
                    start_id,
                    coord: Coord((coord.0 + offset.0) as i32, (coord.1 + offset.1) as i32),
                },
                Event::PressMove { source, cur_id, coord, delta } => *final(self) == Event::PressMove {
                    source,
                    cur_id,
                    coord: Coord((coord.0 + offset.0) as i32, (coord.1 + offset.1) as i32),
                    delta,
                },
                Event::PressEnd { source, end_id, coord, success } => *final(self) == Event::PressEnd {
                    source,
                    end_id,
                    coord: Coord((coord.0 + offset.0) as i32, (coord.1 + offset.1) as i32),
                    success,
                },
                _ => *final(self) == *old(self),
            },
    {
        match self {
            Event::PressStart { coord, .. } => {
                *coord = coord.add_offset(offset);
            },
            Event::PressMove { coord, .. } => {
                *coord = coord.add_offset(offset);
            },
            Event::PressEnd { coord, .. } => {
                *coord = coord.add_offset(offset);
            },
            _ => {},
        }
    }
}

} // verus!
