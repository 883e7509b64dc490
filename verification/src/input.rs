//! Key and mouse event payloads.
//!
//! On release the produced character may differ from the one on press (dead
//! keys, mismatched layouts), so the receiver needs a stable *physical*
//! identifier to know which key to release: the HID usage code.
use vstd::prelude::*;

verus! {

/// Every modifier bit that [`ModMask`] knows: shift, control, alt, meta,
/// super and AltGr (0x3f), Caps Lock (0x1000) and Num Lock (0x2000).
pub const MOD_BITS: u32 = 0x303f;

/// Active modifier keys, as a bitmask.
#[derive(Debug, Clone, Copy, PartialEq, Eq, Hash, Structural)]
pub struct ModMask {
    bits: u32,
}

impl ModMask {
    /// The raw bits of the mask.
    pub closed spec fn mask(self) -> u32 {
        self.bits
    }

    /// The mask with exactly the bits `bits`.
    pub closed spec fn of(bits: u32) -> ModMask {
        ModMask { bits }
    }

    pub proof fn lemma_mask_of(bits: u32, m: ModMask)
        ensures
            Self::of(bits).mask() == bits,
            Self::of(m.mask()) == m,
    {
    }

    pub fn shift() -> (m: ModMask)
        ensures
            m == Self::of(0x0001),
    {
        ModMask { bits: 0x0001 }
    }

    pub fn control() -> (m: ModMask)
        ensures
            m == Self::of(0x0002),
    {
        ModMask { bits: 0x0002 }
    }

    pub fn alt() -> (m: ModMask)
        ensures
            m == Self::of(0x0004),
    {
        ModMask { bits: 0x0004 }
    }

    pub fn meta() -> (m: ModMask)
        ensures
            m == Self::of(0x0008),
    {
        ModMask { bits: 0x0008 }
    }

    pub fn super_key() -> (m: ModMask)
        ensures
            m == Self::of(0x0010),
    {
        ModMask { bits: 0x0010 }
    }

    pub fn alt_gr() -> (m: ModMask)
        ensures
            m == Self::of(0x0020),
    {
        ModMask { bits: 0x0020 }
    }

    pub fn caps_lock() -> (m: ModMask)
        ensures
            m == Self::of(0x1000),
    {
        ModMask { bits: 0x1000 }
    }

    pub fn num_lock() -> (m: ModMask)
        ensures
            m == Self::of(0x2000),
    {
        ModMask { bits: 0x2000 }
    }

    pub fn empty() -> (m: ModMask)
        ensures
            m == Self::of(0),
    {
        ModMask { bits: 0 }
    }

    pub fn bits(self) -> (b: u32)
        ensures
            b == self.mask(),
    {
        self.bits
    }

    /// The mask with the known bits of `bits`; unknown bits are dropped.
    pub fn from_bits_truncate(bits: u32) -> (m: ModMask)
        ensures
            m == Self::of(bits & MOD_BITS),
    {
        ModMask { bits: bits & MOD_BITS }
    }

    /// The mask with exactly the bits `bits`, unknown ones included.
    pub fn from_bits_retain(bits: u32) -> (m: ModMask)
        ensures
            m == Self::of(bits),
    {
        ModMask { bits }
    }

    /// Every bit of `other` is set in `self`.
    pub fn contains(self, other: ModMask) -> (b: bool)
        ensures
            b == (self.mask() & other.mask() == other.mask()),
    {
        (self.bits & other.bits) == other.bits
    }

    pub fn insert(&mut self, other: ModMask)
        ensures
            final(self).mask() == old(self).mask() | other.mask(),
    {
        self.bits = self.bits | other.bits;
    }

    pub fn remove(&mut self, other: ModMask)
        ensures
            final(self).mask() == old(self).mask() & !other.mask(),
    {
        self.bits = self.bits & !other.bits;
    }

    pub fn set(&mut self, other: ModMask, on: bool)
        ensures
            final(self).mask() == if on {
                old(self).mask() | other.mask()
            } else {
                old(self).mask() & !other.mask()
            },
    {
        if on {
            self.insert(other)
        } else {
            self.remove(other)
        }
    }

    pub fn is_empty(self) -> (b: bool)
        ensures
            b == (self.mask() == 0),
    {
        self.bits == 0
    }
}

impl Default for ModMask {
    fn default() -> (m: ModMask)
        ensures
            m == ModMask::of(0),
    {
        ModMask { bits: 0 }
    }
}

impl core::ops::BitOr for ModMask {
    type Output = ModMask;

    fn bitor(self, rhs: ModMask) -> (m: ModMask) {
        ModMask { bits: self.bits | rhs.bits }
    }
}

impl vstd::std_specs::ops::BitOrSpecImpl for ModMask {
    open spec fn obeys_bitor_spec() -> bool {
        true
    }

    open spec fn bitor_req(self, rhs: ModMask) -> bool {
        true
    }

    open spec fn bitor_spec(self, rhs: ModMask) -> ModMask {
        ModMask::of(self.mask() | rhs.mask())
    }
}

impl core::ops::BitAnd for ModMask {
    type Output = ModMask;

    fn bitand(self, rhs: ModMask) -> (m: ModMask) {
        ModMask { bits: self.bits & rhs.bits }
    }
}

impl vstd::std_specs::ops::BitAndSpecImpl for ModMask {
    open spec fn obeys_bitand_spec() -> bool {
        true
    }

    open spec fn bitand_req(self, rhs: ModMask) -> bool {
        true
    }

    open spec fn bitand_spec(self, rhs: ModMask) -> ModMask {
        ModMask::of(self.mask() & rhs.mask())
    }
}

impl core::ops::BitOrAssign for ModMask {
    fn bitor_assign(&mut self, rhs: ModMask)
        ensures
            final(self).mask() == old(self).mask() | rhs.mask(),
    {
        self.bits = self.bits | rhs.bits;
    }
}

/// After inserting a mask it is contained; after removing a non-empty mask it
/// is not; and truncation keeps only known bits and is idempotent.
pub proof fn lemma_modmask_laws(m: u32, o: u32)
    ensures
        (m | o) & o == o,
        o != 0 ==> (m & !o) & o != o,
        (m & MOD_BITS) & !MOD_BITS == 0,
        (m & MOD_BITS) & MOD_BITS == m & MOD_BITS,
{
    assert((m | o) & o == o) by (bit_vector);
    assert(o != 0 ==> (m & !o) & o != o) by (bit_vector);
    assert((m & 0x303f) & !0x303fu32 == 0) by (bit_vector);
    assert((m & 0x303f) & 0x303f == m & 0x303f) by (bit_vector);
}

/// What happened to a key.
#[derive(Debug, Clone, Copy, PartialEq, Eq, Structural)]
pub enum KeyAction {
    Down,
    Up,
    /// Auto-repeat, carrying the repeat count since the last distinct event.
    Repeat(u16),
}

/// A single key event.
#[derive(Debug, PartialEq, Eq)]
pub struct KeyEvent {
    /// HID usage code (usage page 0x07 for the keyboard). Stable physical id.
    pub hid: u16,
    /// The character the server's layout produced, if any. Used as a fallback
    /// when the client's layout can't reach the same symbol from `hid`.
    pub ch: Option<char>,
    /// Modifier state at the time of the event.
    pub mods: ModMask,
    pub action: KeyAction,
}

impl Clone for KeyEvent {
    fn clone(&self) -> (e: KeyEvent)
        ensures
            e == *self,
    {
        KeyEvent { hid: self.hid, ch: self.ch, mods: self.mods, action: self.action }
    }
}

/// Mouse buttons. `Extra` carries a 1-based index for buttons beyond the named
/// five.
#[derive(Debug, Clone, Copy, PartialEq, Eq, Structural)]
pub enum Button {
    Left,
    Middle,
    Right,
    Back,
    Forward,
    Extra(u8),
}

/// A single mouse event. Absolute moves position the cursor on entry; relative
/// moves carry the rest of the session.
#[derive(Debug, Clone, Copy, PartialEq, Eq, Structural)]
pub enum MouseEvent {
    MoveAbs { x: i32, y: i32 },
    MoveRel { dx: i32, dy: i32 },
    Button { button: Button, down: bool },
    /// Wheel deltas in 120-per-notch units.
    Wheel { dx: i32, dy: i32 },
}

} // verus!
