//! Keyboard and mouse state: which keys and buttons are down, where the
//! mouse is and how far it moved.
use std::collections::HashSet;
use vstd::prelude::*;

verus! {

pub struct InputManager {
    /// Keys and buttons that are down, by their codes.
    pressed: HashSet<i32>,
    mouse_x: i32,
    mouse_y: i32,
    mouse_rel_x: i32,
    mouse_rel_y: i32,
}

impl InputManager {
    /// The codes of the keys and buttons that are down.
    pub closed spec fn spec_pressed(&self) -> Set<i32> {
        self.pressed@
    }

    /// The mouse position and its last movement.
    pub closed spec fn spec_mouse(&self) -> (i32, i32, i32, i32) {
        (self.mouse_x, self.mouse_y, self.mouse_rel_x, self.mouse_rel_y)
    }

    /// Nothing pressed, the mouse at the origin and still.
    pub fn new() -> (m: Self)
        ensures
            m.spec_pressed() == Set::<i32>::empty(),
            m.spec_mouse() == (0i32, 0i32, 0i32, 0i32),
    {
        Self { pressed: HashSet::new(), mouse_x: 0, mouse_y: 0, mouse_rel_x: 0, mouse_rel_y: 0 }
    }
}

/// Whether a key in state (repeat delay, milliseconds waited, held) fires:
/// a held single-shot key fires when it has not yet fired, a held repeating
/// key when a full delay has been waited.
pub open spec fn key_fires(st: (u16, u16, bool)) -> bool {
    let (d, w, p) = st;
    p && if d == 0 {
        w == 0
    } else {
        w >= d
    }
}

/// The state after asking whether the key fires: a single-shot key is
/// marked as fired, a repeating key has one delay taken off its wait.
pub open spec fn after_consume(st: (u16, u16, bool)) -> (u16, u16, bool) {
    let (d, w, p) = st;
    if !key_fires(st) {
        st
    } else if d == 0 {
        (d, 1u16, p)
    } else {
        (d, (w - d) as u16, p)
    }
}

/// The state after the key is pressed or released: a change restarts the wait.
pub open spec fn after_set_pressed(st: (u16, u16, bool), pressed: bool) -> (u16, u16, bool) {
    if st.2 != pressed {
        (st.0, 0u16, pressed)
    } else {
        st
    }
}

/// A single-shot key fires once per press: once it fired, asking again
/// gives nothing, and it fires again after it is released and pressed anew.
pub proof fn lemma_single_shot_once(st: (u16, u16, bool))
    requires
        st.0 == 0,
        key_fires(st),
    ensures
        !key_fires(after_consume(st)),
        key_fires(after_set_pressed(after_set_pressed(after_consume(st), false), true)),
{
}

/// A repeating key fires at most once per delay waited: each firing takes a
/// full delay off the wait, and the wait never exceeds what was added.
pub proof fn lemma_repeat_consumes_delay(st: (u16, u16, bool))
    requires
        st.0 > 0,
        key_fires(st),
    ensures
        after_consume(st).1 + st.0 == st.1,
        after_consume(st).1 < st.1,
{
}

/// Repeat and single-shot behaviour of one key or button, in milliseconds.
/// A key with no repeat delay fires once per press; one with a delay fires
/// each time that much time has been held.
pub struct KeyBtnTiming {
    repeat_delay: u16,
    waiting_ms: u16,
    is_pressed: bool,
}

impl KeyBtnTiming {
    /// The repeat delay, the milliseconds waited, and whether the key is down.
    pub closed spec fn spec_state(&self) -> (u16, u16, bool) {
        (self.repeat_delay, self.waiting_ms, self.is_pressed)
    }

    /// A released key with the given repeat delay (0 for single shot).
    pub fn new(repeat_delay: u16) -> (t: Self)
        ensures
            t.spec_state() == (repeat_delay, 0u16, false),
    {
        Self { repeat_delay, waiting_ms: 0, is_pressed: false }
    }

    /// Presses or releases the key; a change restarts the wait.
    pub fn set_pressed(&mut self, pressed: bool)
        ensures
            final(self).spec_state() == after_set_pressed(old(self).spec_state(), pressed),
    {
        if self.is_pressed != pressed {
            self.is_pressed = pressed;
            self.waiting_ms = 0;
        }
    }

    /// Time counts only while a repeating key is held.
    pub fn counts_time(&self) -> (b: bool)
        ensures
            b == (self.spec_state().2 && self.spec_state().0 > 0),
    {
        self.is_pressed && self.repeat_delay > 0
    }

    /// Adds whole milliseconds to the wait of a held repeating key.
    pub fn add_waiting_ms(&mut self, cnt_millis: u16)
        requires
            old(self).spec_state().2 && old(self).spec_state().0 > 0,
            old(self).spec_state().1 + cnt_millis <= u16::MAX,
        ensures
            final(self).spec_state() == (
                old(self).spec_state().0,
                (old(self).spec_state().1 + cnt_millis) as u16,
                true,
            ),
    {
        self.waiting_ms = self.waiting_ms + cnt_millis;
    }

    /// Whether the key fires now: a held single-shot key fires once per
    /// press; a held repeating key fires when a full delay has been waited,
    /// which is then taken off the wait.
    pub fn consume_pressed(&mut self) -> (fired: bool)
        ensures
            fired == key_fires(old(self).spec_state()),
            final(self).spec_state() == after_consume(old(self).spec_state()),
    {
        if !self.is_pressed {
            return false;
        }
        if self.repeat_delay == 0 {
            if self.waiting_ms == 0 {
                self.waiting_ms = 1;
                return true;
            }
        } else {
            if self.waiting_ms >= self.repeat_delay {
                self.waiting_ms = self.waiting_ms - self.repeat_delay;
                return true;
            }
        }
        false
    }
}

} // verus!
