//! The navigator's hotkey: a press and release of the left Super key,
//! with or without Caps Lock and Num Lock, toggles the navigator.

use vstd::prelude::*;

verus! {

/// The key code of the left Super key on most keyboards.
pub const SUPER_L_KEYCODE: u8 = 133;

/// The modifier states the key is grabbed with: none, Caps Lock, Num Lock
/// (the second modifier), and both.
pub fn grab_modifiers() -> (r: Vec<u16>)
    ensures
        r@ == seq![0u16, 2u16, 16u16, 18u16],
{
    vec![0u16, 2u16, 16u16, 18u16]
}

/// A key event of the X server, by key code.
pub enum KeyEvent {
    Press(u8),
    Release(u8),
}

/// Whether the Super key is held, as the key events tell it.
pub struct SuperKey {
    pub pressed: bool,
}

/// Whether the Super key is held after `ev`, when `pressed` told it before.
pub open spec fn key_held_after(pressed: bool, ev: KeyEvent) -> bool {
    match ev {
        KeyEvent::Press(k) => pressed || k == SUPER_L_KEYCODE,
        KeyEvent::Release(k) => pressed && k != SUPER_L_KEYCODE,
    }
}

/// Whether `ev` toggles the navigator, when `pressed` told before whether
/// the Super key was held: its release after its press does.
pub open spec fn key_toggles(pressed: bool, ev: KeyEvent) -> bool {
    match ev {
        KeyEvent::Press(_) => false,
        KeyEvent::Release(k) => pressed && k == SUPER_L_KEYCODE,
    }
}

impl SuperKey {
    /// Not held.
    pub fn new() -> (r: Self)
        ensures
            !r.pressed,
    {
        SuperKey { pressed: false }
    }

    /// Follows a key event; gives whether the navigator is to be toggled.
    pub fn on_key(&mut self, ev: KeyEvent) -> (toggle: bool)
        ensures
            final(self).pressed == key_held_after(old(self).pressed, ev),
            toggle == key_toggles(old(self).pressed, ev),
    {
        match ev {
            KeyEvent::Press(k) => {
                if k == SUPER_L_KEYCODE {
                    self.pressed = true;
                }
                false
            },
            KeyEvent::Release(k) => {
                if k == SUPER_L_KEYCODE && self.pressed {
                    self.pressed = false;
                    true
                } else {
                    false
                }
            },
        }
    }
}

/// A press of the Super key followed by its release toggles the navigator
/// once, whatever came before, and leaves the key released; the release
/// alone, with the key not held, toggles nothing.
pub proof fn lemma_press_release_toggles(pressed: bool)
    ensures
        !key_toggles(pressed, KeyEvent::Press(SUPER_L_KEYCODE)),
        key_toggles(key_held_after(pressed, KeyEvent::Press(SUPER_L_KEYCODE)), KeyEvent::Release(SUPER_L_KEYCODE)),
        !key_held_after(key_held_after(pressed, KeyEvent::Press(SUPER_L_KEYCODE)), KeyEvent::Release(SUPER_L_KEYCODE)),
        !key_toggles(false, KeyEvent::Release(SUPER_L_KEYCODE)),
{
}

/// Other keys never toggle the navigator and never change whether the
/// Super key is held.
pub proof fn lemma_other_keys_ignored(pressed: bool, k: u8)
    requires
        k != SUPER_L_KEYCODE,
    ensures
        !key_toggles(pressed, KeyEvent::Press(k)),
        !key_toggles(pressed, KeyEvent::Release(k)),
        key_held_after(pressed, KeyEvent::Press(k)) == pressed,
        key_held_after(pressed, KeyEvent::Release(k)) == pressed,
{
}

} // verus!
