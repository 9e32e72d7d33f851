//! How window input reaches the controller: which mouse buttons are
//! tracked, how presses are recorded for the script, and what keys do.
use vstd::prelude::*;

verus! {

/// The number of mouse buttons whose state is tracked.
pub const MOUSE_BUTTON_SLOTS: usize = 5;

/// A mouse button as the window system reports it.
#[derive(Debug, Clone, Copy, PartialEq, Eq, Structural)]
pub enum MouseButton {
    Left,
    Right,
    Middle,
    Back,
    Forward,
    Other(u16),
}

/// The slot in which a button's state is kept: left 0, right 1, middle 2,
/// and a numbered button in the slot of its number when that is below the
/// number of slots. Other buttons are not tracked.
pub open spec fn button_slot(button: MouseButton) -> Option<usize> {
    match button {
        MouseButton::Left => Some(0),
        MouseButton::Right => Some(1),
        MouseButton::Middle => Some(2),
        MouseButton::Other(i) => if i < MOUSE_BUTTON_SLOTS {
            Some(i as usize)
        } else {
            None
        },
        _ => None,
    }
}

/// The left, right and middle buttons are kept in slots 0, 1 and 2, a
/// numbered button below the number of slots in the slot of its number, and
/// the back and forward buttons are not tracked; every slot given is one of
/// the tracked slots.
pub proof fn lemma_button_slots(button: MouseButton)
    ensures
        button_slot(MouseButton::Left) == Some(0usize),
        button_slot(MouseButton::Right) == Some(1usize),
        button_slot(MouseButton::Middle) == Some(2usize),
        button_slot(MouseButton::Back) is None,
        button_slot(MouseButton::Forward) is None,
        button matches MouseButton::Other(i) ==> button_slot(button) == (if i < 5 {
            Some(i as usize)
        } else {
            None
        }),
        button_slot(button) matches Some(k) ==> k < MOUSE_BUTTON_SLOTS,
{
}

/// Computes `button_slot`.
pub fn mouse_button_slot(button: MouseButton) -> (r: Option<usize>)
    ensures
        r == button_slot(button),
{
    match button {
        MouseButton::Left => Some(0),
        MouseButton::Right => Some(1),
        MouseButton::Middle => Some(2),
        MouseButton::Other(i) => if (i as usize) < MOUSE_BUTTON_SLOTS {
            Some(i as usize)
        } else {
            None
        },
        _ => None,
    }
}

/// Which tracked buttons are held down, and which have been pressed since
/// the script last saw them.
#[derive(Debug, Clone, Copy, PartialEq, Eq)]
pub struct MouseButtons {
    pub down: [bool; 5],
    pub pressed: [bool; 5],
}

impl MouseButtons {
    /// No button down or pressed.
    pub fn new() -> (r: MouseButtons)
        ensures
            forall|i: int| 0 <= i < MOUSE_BUTTON_SLOTS ==> !r.down@[i] && !r.pressed@[i],
    {
        MouseButtons { down: [false; 5], pressed: [false; 5] }
    }

    /// Records that the button in `slot` went down (`is_pressed`) or up: it
    /// is held down exactly when it went down, and a press is remembered
    /// until `clear_pressed`.
    pub fn record(&mut self, slot: usize, is_pressed: bool)
        requires
            slot < MOUSE_BUTTON_SLOTS,
        ensures
            final(self).down@ == old(self).down@.update(slot as int, is_pressed),
            final(self).pressed@ == (if is_pressed {
                old(self).pressed@.update(slot as int, true)
            } else {
                old(self).pressed@
            }),
    {
        self.down.set(slot, is_pressed);
        if is_pressed {
            self.pressed.set(slot, true);
        }
    }

    /// Forgets the presses once the script has seen them.
    pub fn clear_pressed(&mut self)
        ensures
            final(self).down == old(self).down,
            forall|i: int| 0 <= i < MOUSE_BUTTON_SLOTS ==> !final(self).pressed@[i],
    {
        self.pressed = [false; 5];
    }
}

/// A key as far as the controller cares.
#[derive(Debug, Clone, Copy, PartialEq, Eq, Structural)]
pub enum Key {
    Escape,
    R,
    Other,
}

/// What a key event asks for.
#[derive(Debug, Clone, Copy, PartialEq, Eq, Structural)]
pub enum KeyAction {
    Exit,
    ReloadScript,
    Ignore,
}

/// Pressing Escape exits, pressing R reloads the UI script; releases and
/// other keys do nothing.
pub fn key_action(key: Key, is_pressed: bool) -> (r: KeyAction)
    ensures
        r == (if is_pressed && key == Key::Escape {
            KeyAction::Exit
        } else if is_pressed && key == Key::R {
            KeyAction::ReloadScript
        } else {
            KeyAction::Ignore
        }),
{
    if !is_pressed {
        return KeyAction::Ignore;
    }
    match key {
        Key::Escape => KeyAction::Exit,
        Key::R => KeyAction::ReloadScript,
        Key::Other => KeyAction::Ignore,
    }
}

/// Whether a window resize is applied: only to a size with both sides
/// positive.
pub fn should_resize(width: u32, height: u32) -> (r: bool)
    ensures
        r == (width > 0 && height > 0),
{
    width > 0 && height > 0
}

} // verus!
