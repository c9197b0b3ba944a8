//! The controls of the game: which keys are held, whether the automap is
//! shown, and which map is played.
use vstd::prelude::*;

verus! {

pub const KEY_TURN_LEFT: u32 = 0x001;
pub const KEY_TURN_RIGHT: u32 = 0x002;
pub const KEY_STRAFE_LEFT: u32 = 0x004;
pub const KEY_STRAFE_RIGHT: u32 = 0x008;
pub const KEY_MOVE_FWD: u32 = 0x010;
pub const KEY_MOVE_BACK: u32 = 0x020;
pub const KEY_AUTOMAP: u32 = 0x040;
pub const KEY_AUTOMAP_ACTED: u32 = 0x080;
pub const KEY_ZOOM_IN: u32 = 0x100;
pub const KEY_ZOOM_OUT: u32 = 0x200;
pub const KEY_USE: u32 = 0x400;
pub const KEY_SHOOT: u32 = 0x800;

/// The gameplay flag of the automap.
pub const FLAG_AUTOMAP: u32 = 0x001;

/// The keys the game reacts to.
#[derive(Clone, Copy, PartialEq, Eq, Debug, Structural)]
pub enum DoomKey {
    Tab,
    KpPlus,
    KpMinus,
    Left,
    Right,
    Up,
    W,
    Down,
    S,
    A,
    D,
    Space,
    E,
    RCtrl,
    LAlt,
    PageUp,
    PageDown,
    Other,
}

/// A key pressed or released; other events change nothing.
#[derive(Clone, Copy, PartialEq, Eq, Debug, Structural)]
pub enum DoomEvent {
    KeyDown(DoomKey),
    KeyUp(DoomKey),
    Other,
}

/// The flag a held key sets (0 for keys that set none).
pub open spec fn key_flag(k: DoomKey) -> u32 {
    match k {
        DoomKey::Tab => KEY_AUTOMAP,
        DoomKey::KpPlus => KEY_ZOOM_IN,
        DoomKey::KpMinus => KEY_ZOOM_OUT,
        DoomKey::Left => KEY_TURN_LEFT,
        DoomKey::Right => KEY_TURN_RIGHT,
        DoomKey::Up | DoomKey::W => KEY_MOVE_FWD,
        DoomKey::Down | DoomKey::S => KEY_MOVE_BACK,
        DoomKey::A => KEY_STRAFE_LEFT,
        DoomKey::D => KEY_STRAFE_RIGHT,
        DoomKey::Space | DoomKey::E => KEY_USE,
        DoomKey::RCtrl | DoomKey::LAlt => KEY_SHOOT,
        _ => 0,
    }
}

/// The key flags after a key is released: only its own flag is cleared (for
/// the automap key, also the flag that it acted); keys without a flag change
/// nothing.
pub open spec fn flags_after_release(flags: u32, k: DoomKey) -> u32 {
    match k {
        DoomKey::Tab => flags & !(KEY_AUTOMAP | KEY_AUTOMAP_ACTED),
        DoomKey::PageUp | DoomKey::PageDown | DoomKey::Other => flags,
        _ => flags & !key_flag(k),
    }
}

/// Releasing a key clears its own flag and keeps the flags of every other
/// key: a press and a release of one key leave the other keys as they were.
pub proof fn lemma_release_clears_only_its_key(flags: u32, k: DoomKey, other: DoomKey)
    requires
        key_flag(other) != key_flag(k),
    ensures
        flags_after_release(flags, k) & key_flag(k) == 0,
        flags_after_release(flags, k) & key_flag(other) == flags & key_flag(other),
{
    let a = key_flag(k);
    let b = key_flag(other);
    assert(b == 0 || b == 1 || b == 2 || b == 4 || b == 8 || b == 0x10 || b == 0x20 || b == 0x40 || b == 0x100
        || b == 0x200 || b == 0x400 || b == 0x800);
    if k == DoomKey::Tab {
        assert((flags & !0xc0u32) & 0x40u32 == 0 && (flags & !0xc0u32) & b == flags & b) by (bit_vector)
            requires
                b == 0 || b == 1 || b == 2 || b == 4 || b == 8 || b == 0x10 || b == 0x20 || b == 0x100 || b == 0x200
                    || b == 0x400 || b == 0x800,
        ;
        assert(KEY_AUTOMAP | KEY_AUTOMAP_ACTED == 0xc0u32) by (bit_vector);
    } else if a == 0 {
        assert(flags & 0u32 == 0) by (bit_vector);
    } else {
        assert((flags & !a) & a == 0 && (flags & !a) & b == flags & b) by (bit_vector)
            requires
                a == 1 || a == 2 || a == 4 || a == 8 || a == 0x10 || a == 0x20 || a == 0x100 || a == 0x200 || a == 0x400
                    || a == 0x800,
                b == 0 || b == 1 || b == 2 || b == 4 || b == 8 || b == 0x10 || b == 0x20 || b == 0x40 || b == 0x100
                    || b == 0x200 || b == 0x400 || b == 0x800,
                a != b,
        ;
    }
}

/// The direction in which the automap moves or zooms: -1, 0 or 1 on each axis.
#[derive(Clone, Copy, PartialEq, Eq, Debug, Structural)]
pub struct AutomapMove {
    pub dx: i32,
    pub dy: i32,
    pub zoom: i32,
}

/// Whether a flag is set.
pub open spec fn has(flags: u32, f: u32) -> bool {
    flags & f != 0
}

/// The automap's movement for the held keys: left (turn or strafe) and right
/// add up, forward and back add up, and zooming out wins over zooming in.
pub open spec fn automap_move(flags: u32) -> AutomapMove {
    AutomapMove {
        dx: (if has(flags, KEY_TURN_RIGHT | KEY_STRAFE_RIGHT) {
            1int
        } else {
            0
        } - if has(flags, KEY_TURN_LEFT | KEY_STRAFE_LEFT) {
            1int
        } else {
            0
        }) as i32,
        dy: (if has(flags, KEY_MOVE_FWD) {
            1int
        } else {
            0
        } - if has(flags, KEY_MOVE_BACK) {
            1int
        } else {
            0
        }) as i32,
        zoom: if has(flags, KEY_ZOOM_OUT) {
            -1i32
        } else if has(flags, KEY_ZOOM_IN) {
            1i32
        } else {
            0i32
        },
    }
}

/// The automap key is held and has not yet acted.
pub open spec fn automap_toggles(flags: u32) -> bool {
    flags & (KEY_AUTOMAP | KEY_AUTOMAP_ACTED) == KEY_AUTOMAP
}

/// The key flags after an update: a toggle of the automap marks its key as
/// having acted.
pub open spec fn keys_after_update(flags: u32) -> u32 {
    if automap_toggles(flags) {
        flags | KEY_AUTOMAP_ACTED
    } else {
        flags
    }
}

/// The gameplay flags after an update: the automap flag flips when the
/// automap key toggles.
pub open spec fn gameplay_after_update(flags: u32, gameplay: u32) -> u32 {
    if automap_toggles(flags) {
        gameplay ^ FLAG_AUTOMAP
    } else {
        gameplay
    }
}

/// The automap key toggles the automap once per press: the first update
/// after the press flips the automap, later updates (and repeated presses
/// while it is held) flip nothing, and after the key is released a new press
/// flips it again.
pub proof fn lemma_automap_once_per_press(flags: u32, gameplay: u32)
    requires
        flags & KEY_AUTOMAP_ACTED == 0,
    ensures
        ({
            let pressed = flags | key_flag(DoomKey::Tab);
            let after = keys_after_update(pressed);
            &&& gameplay_after_update(pressed, gameplay) == gameplay ^ FLAG_AUTOMAP
            &&& gameplay_after_update(after, gameplay) == gameplay
            &&& keys_after_update(after) == after
            &&& !automap_toggles(after | key_flag(DoomKey::Tab))
            &&& automap_toggles(flags_after_release(after, DoomKey::Tab) | key_flag(DoomKey::Tab))
        }),
{
    let f = flags;
    let p = f | KEY_AUTOMAP;
    let a = p | KEY_AUTOMAP_ACTED;
    let r = a & !(KEY_AUTOMAP | KEY_AUTOMAP_ACTED);
    assert(p & (KEY_AUTOMAP | KEY_AUTOMAP_ACTED) == KEY_AUTOMAP) by (bit_vector)
        requires
            p == f | KEY_AUTOMAP,
            f & KEY_AUTOMAP_ACTED == 0,
    ;
    assert(a & (KEY_AUTOMAP | KEY_AUTOMAP_ACTED) != KEY_AUTOMAP) by (bit_vector)
        requires
            a == (f | KEY_AUTOMAP) | KEY_AUTOMAP_ACTED,
    ;
    assert((a | KEY_AUTOMAP) & (KEY_AUTOMAP | KEY_AUTOMAP_ACTED) != KEY_AUTOMAP) by (bit_vector)
        requires
            a == (f | KEY_AUTOMAP) | KEY_AUTOMAP_ACTED,
    ;
    assert((r | KEY_AUTOMAP) & (KEY_AUTOMAP | KEY_AUTOMAP_ACTED) == KEY_AUTOMAP) by (bit_vector)
        requires
            r == a & !(KEY_AUTOMAP | KEY_AUTOMAP_ACTED),
    ;
}

pub struct DoomControls {
    map_idx: usize,
    key_flags: u32,
    gameplay_flags: u32,
}

impl DoomControls {
    pub closed spec fn spec_map_idx(&self) -> usize {
        self.map_idx
    }

    pub closed spec fn spec_key_flags(&self) -> u32 {
        self.key_flags
    }

    pub closed spec fn spec_gameplay_flags(&self) -> u32 {
        self.gameplay_flags
    }

    /// The first map, no key held, the automap shown.
    pub fn new() -> (c: Self)
        ensures
            c.spec_map_idx() == 0,
            c.spec_key_flags() == 0,
            c.spec_gameplay_flags() == FLAG_AUTOMAP,
    {
        DoomControls { map_idx: 0, key_flags: 0, gameplay_flags: FLAG_AUTOMAP }
    }

    pub fn map_idx(&self) -> (i: usize)
        ensures
            i == self.spec_map_idx(),
    {
        self.map_idx
    }

    /// The automap is shown.
    pub fn is_automap(&self) -> (b: bool)
        ensures
            b == has(self.spec_gameplay_flags(), FLAG_AUTOMAP),
    {
        self.gameplay_flags & FLAG_AUTOMAP != 0
    }

    /// Switches to map `idx` where it is another map among the `map_count`;
    /// answers whether the level must be rebuilt.
    pub fn load_map(&mut self, idx: usize, map_count: usize) -> (changed: bool)
        ensures
            changed == (old(self).spec_map_idx() != idx && idx < map_count),
            final(self).spec_map_idx() == if changed {
                idx
            } else {
                old(self).spec_map_idx()
            },
            final(self).spec_key_flags() == old(self).spec_key_flags(),
            final(self).spec_gameplay_flags() == old(self).spec_gameplay_flags(),
    {
        if self.map_idx != idx && idx < map_count {
            self.map_idx = idx;
            true
        } else {
            false
        }
    }

    /// Handles an event: a pressed key sets its flag, page up and page down
    /// switch to the previous and next map, a released key clears its flag.
    /// Answers the map to load, where the map changed.
    pub fn handle_event(&mut self, event: DoomEvent, map_count: usize) -> (load: Option<usize>)
        requires
            event == DoomEvent::KeyDown(DoomKey::PageDown) ==> map_count >= 1,
        ensures
            final(self).spec_gameplay_flags() == old(self).spec_gameplay_flags(),
            match event {
                DoomEvent::KeyDown(DoomKey::PageUp) => {
                    let want = old(self).spec_map_idx() > 0;
                    &&& final(self).spec_key_flags() == old(self).spec_key_flags()
                    &&& load == (if want && old(self).spec_map_idx() - 1 < map_count {
                        Some((old(self).spec_map_idx() - 1) as usize)
                    } else {
                        None
                    })
                },
                DoomEvent::KeyDown(DoomKey::PageDown) => {
                    let want = old(self).spec_map_idx() < map_count - 1;
                    &&& final(self).spec_key_flags() == old(self).spec_key_flags()
                    &&& load == (if want {
                        Some((old(self).spec_map_idx() + 1) as usize)
                    } else {
                        None
                    })
                },
                DoomEvent::KeyDown(k) => final(self).spec_key_flags() == old(self).spec_key_flags()
                    | key_flag(k) && load is None,
                DoomEvent::KeyUp(k) => final(self).spec_key_flags() == flags_after_release(
                    old(self).spec_key_flags(),
                    k,
                ) && load is None,
                DoomEvent::Other => final(self).spec_key_flags() == old(self).spec_key_flags()
                    && load is None,
            },
            load matches Some(i) ==> final(self).spec_map_idx() == i,
            load is None ==> final(self).spec_map_idx() == old(self).spec_map_idx(),
    {
        match event {
            DoomEvent::KeyDown(key) => {
                match key {
                    DoomKey::Tab => self.key_flags = self.key_flags | KEY_AUTOMAP,
                    DoomKey::KpPlus => self.key_flags = self.key_flags | KEY_ZOOM_IN,
                    DoomKey::KpMinus => self.key_flags = self.key_flags | KEY_ZOOM_OUT,
                    DoomKey::Left => self.key_flags = self.key_flags | KEY_TURN_LEFT,
                    DoomKey::Right => self.key_flags = self.key_flags | KEY_TURN_RIGHT,
                    DoomKey::Up | DoomKey::W => self.key_flags = self.key_flags | KEY_MOVE_FWD,
                    DoomKey::Down | DoomKey::S => self.key_flags = self.key_flags | KEY_MOVE_BACK,
                    DoomKey::A => self.key_flags = self.key_flags | KEY_STRAFE_LEFT,
                    DoomKey::D => self.key_flags = self.key_flags | KEY_STRAFE_RIGHT,
                    DoomKey::Space | DoomKey::E => self.key_flags = self.key_flags | KEY_USE,
                    DoomKey::RCtrl | DoomKey::LAlt => self.key_flags = self.key_flags | KEY_SHOOT,
                    DoomKey::PageUp => {
                        if self.map_idx > 0 {
                            let new_map_idx = self.map_idx - 1;
                            if self.load_map(new_map_idx, map_count) {
                                return Some(new_map_idx);
                            }
                        }
                    },
                    DoomKey::PageDown => {
                        if self.map_idx < map_count - 1 {
                            let new_map_idx = self.map_idx + 1;
                            if self.load_map(new_map_idx, map_count) {
                                return Some(new_map_idx);
                            }
                        }
                    },
                    DoomKey::Other => {
                        assert(self.key_flags | 0 == self.key_flags) by (bit_vector);
                    },
                }
            },
            DoomEvent::KeyUp(key) => match key {
                DoomKey::Tab => self.key_flags = self.key_flags & !(KEY_AUTOMAP | KEY_AUTOMAP_ACTED),
                DoomKey::KpPlus => self.key_flags = self.key_flags & !KEY_ZOOM_IN,
                DoomKey::KpMinus => self.key_flags = self.key_flags & !KEY_ZOOM_OUT,
                DoomKey::Left => self.key_flags = self.key_flags & !KEY_TURN_LEFT,
                DoomKey::Right => self.key_flags = self.key_flags & !KEY_TURN_RIGHT,
                DoomKey::Up | DoomKey::W => self.key_flags = self.key_flags & !KEY_MOVE_FWD,
                DoomKey::Down | DoomKey::S => self.key_flags = self.key_flags & !KEY_MOVE_BACK,
                DoomKey::A => self.key_flags = self.key_flags & !KEY_STRAFE_LEFT,
                DoomKey::D => self.key_flags = self.key_flags & !KEY_STRAFE_RIGHT,
                DoomKey::Space | DoomKey::E => self.key_flags = self.key_flags & !KEY_USE,
                DoomKey::RCtrl | DoomKey::LAlt => self.key_flags = self.key_flags & !KEY_SHOOT,
                _ => {},
            },
            DoomEvent::Other => {},
        }
        None
    }

    /// Toggles the automap when its key has been pressed and not yet acted
    /// on; then answers the automap's movement for the held keys, or `None`
    /// in the 3D view.
    pub fn update_state(&mut self) -> (m: Option<AutomapMove>)
        ensures
            final(self).spec_gameplay_flags() == gameplay_after_update(
                old(self).spec_key_flags(),
                old(self).spec_gameplay_flags(),
            ),
            final(self).spec_key_flags() == keys_after_update(old(self).spec_key_flags()),
            final(self).spec_map_idx() == old(self).spec_map_idx(),
            m == if has(final(self).spec_gameplay_flags(), FLAG_AUTOMAP) {
                Some(automap_move(final(self).spec_key_flags()))
            } else {
                None::<AutomapMove>
            },
    {
        if self.key_flags & (KEY_AUTOMAP | KEY_AUTOMAP_ACTED) == KEY_AUTOMAP {
            self.gameplay_flags = self.gameplay_flags ^ FLAG_AUTOMAP;
            self.key_flags = self.key_flags | KEY_AUTOMAP_ACTED;
        }
        if self.gameplay_flags & FLAG_AUTOMAP != 0 {
            let mut zoom: i32 = 0;
            if self.key_flags & KEY_ZOOM_IN != 0 {
                zoom = 1;
            }
            if self.key_flags & KEY_ZOOM_OUT != 0 {
                zoom = -1;
            }
            let mut dx: i32 = 0;
            let mut dy: i32 = 0;
            if self.key_flags & (KEY_TURN_LEFT | KEY_STRAFE_LEFT) != 0 {
                dx = dx - 1;
            }
            if self.key_flags & (KEY_TURN_RIGHT | KEY_STRAFE_RIGHT) != 0 {
                dx = dx + 1;
            }
            if self.key_flags & KEY_MOVE_FWD != 0 {
                dy = dy + 1;
            }
            if self.key_flags & KEY_MOVE_BACK != 0 {
                dy = dy - 1;
            }
            Some(AutomapMove { dx, dy, zoom })
        } else {
            None
        }
    }
}

} // verus!
