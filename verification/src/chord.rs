//! Modifier sets and chords, and exact matching of chords against incoming
//! key events.

use vstd::prelude::*;
use crate::key::{Key, key_code};

verus! {

/// Flag for the shift modifier.
pub const MOD_SHIFT: u32 = 1;

/// Flag for the caps-lock modifier.
pub const MOD_LOCK: u32 = 2;

/// Flag for the control modifier.
pub const MOD_CONTROL: u32 = 4;

/// Flag for the first generic modifier slot (alt).
pub const MOD_1: u32 = 8;

/// Flag for the second generic modifier slot (num-lock).
pub const MOD_2: u32 = 16;

/// Flag for the third generic modifier slot.
pub const MOD_3: u32 = 32;

/// Flag for the fourth generic modifier slot (super).
pub const MOD_4: u32 = 64;

/// Flag for the fifth generic modifier slot.
pub const MOD_5: u32 = 128;

/// The mask of all modifier flags. An event's state field carries further,
/// non-modifier flags (pointer buttons) above this mask; they are discarded
/// before a chord is matched.
pub const MOD_ALL: u32 = 255;

/// A set of named modifier flags, kept as a bitmask for O(1) union and
/// equality. The empty set is valid and means "no modifier required".
#[derive(Debug, Copy, Clone, PartialEq, Eq, Structural)]
pub struct ModMask {
    pub bits: u32,
}

impl ModMask {
    /// The empty modifier set.
    pub fn empty() -> (r: ModMask)
        ensures
            r.bits == 0,
    {
        ModMask { bits: 0 }
    }

    /// The union of this set with further flags.
    pub fn with(self, flags: u32) -> (r: ModMask)
        ensures
            r.bits == self.bits | flags,
    {
        ModMask { bits: self.bits | flags }
    }
}

/// A combination of modifier keys and a single key. An incoming event matches
/// it exactly or not at all.
#[derive(Debug, Copy, Clone, PartialEq, Eq, Structural)]
pub struct Chord {
    /// The modifiers which need to be held down together with the key. Can be
    /// empty, which means just pressing down the key will trigger its event.
    pub modifiers: ModMask,
    pub key: Key,
}

/// Whether an incoming key-press event — raw state field and keycode — matches
/// a chord: the keycode equals the chord's key's code, and the event's state,
/// with non-modifier flags discarded, equals the chord's modifier set exactly.
pub open spec fn matches_event(c: Chord, state: u32, detail: u8) -> bool {
    detail == key_code(c.key) && (state & MOD_ALL) == c.modifiers.bits
}

/// Key events carry a state field which includes flags for the mouse buttons
/// in addition to the keyboard modifier flags. Discards everything but the
/// modifier flags.
pub fn state_to_mod_mask(state: u32) -> (r: ModMask)
    ensures
        r.bits == state & MOD_ALL,
{
    let m1: u32 = if state & MOD_SHIFT != 0 { MOD_SHIFT } else { 0 };
    let m2: u32 = if state & MOD_LOCK != 0 { MOD_LOCK } else { 0 };
    let m3: u32 = if state & MOD_CONTROL != 0 { MOD_CONTROL } else { 0 };
    let m4: u32 = if state & MOD_1 != 0 { MOD_1 } else { 0 };
    let m5: u32 = if state & MOD_2 != 0 { MOD_2 } else { 0 };
    let m6: u32 = if state & MOD_3 != 0 { MOD_3 } else { 0 };
    let m7: u32 = if state & MOD_4 != 0 { MOD_4 } else { 0 };
    let m8: u32 = if state & MOD_5 != 0 { MOD_5 } else { 0 };
    proof {
        assert(state & 1u32 == 0 || state & 1u32 == 1u32) by (bit_vector);
        assert(state & 2u32 == 0 || state & 2u32 == 2u32) by (bit_vector);
        assert(state & 4u32 == 0 || state & 4u32 == 4u32) by (bit_vector);
        assert(state & 8u32 == 0 || state & 8u32 == 8u32) by (bit_vector);
        assert(state & 16u32 == 0 || state & 16u32 == 16u32) by (bit_vector);
        assert(state & 32u32 == 0 || state & 32u32 == 32u32) by (bit_vector);
        assert(state & 64u32 == 0 || state & 64u32 == 64u32) by (bit_vector);
        assert(state & 128u32 == 0 || state & 128u32 == 128u32) by (bit_vector);
        assert((state & 1u32) | (state & 2u32) | (state & 4u32) | (state & 8u32)
            | (state & 16u32) | (state & 32u32) | (state & 64u32) | (state & 128u32)
            == state & 255u32) by (bit_vector);
    }
    ModMask { bits: m1 | m2 | m3 | m4 | m5 | m6 | m7 | m8 }
}

impl Chord {
    /// Match this chord against a key event's raw state field and keycode.
    pub fn matches(self, state: u32, detail: u8) -> (r: bool)
        ensures
            r == matches_event(self, state, detail),
    {
        detail == self.key.code() && state_to_mod_mask(state) == self.modifiers
    }
}

/// Round-trip matching: an event whose state carries exactly the chord's
/// modifier set — plus any combination of non-modifier flags — and the chord's
/// key's code matches the chord; an event whose masked modifier state differs
/// at all, in particular one with an additional modifier flag set, does not.
pub proof fn lemma_round_trip_matching(c: Chord, extra: u32, flag: u32, state: u32, detail: u8)
    requires
        c.modifiers.bits & MOD_ALL == c.modifiers.bits,
        extra & MOD_ALL == 0,
    ensures
        matches_event(c, c.modifiers.bits | extra, key_code(c.key)),
        state & MOD_ALL != c.modifiers.bits ==> !matches_event(c, state, detail),
        flag & MOD_ALL != 0 && c.modifiers.bits & flag == 0 ==> !matches_event(
            c,
            c.modifiers.bits | extra | flag,
            detail,
        ),
{
    let m = c.modifiers.bits;
    assert(m & 255u32 == m && extra & 255u32 == 0 ==> (m | extra) & 255u32 == m)
        by (bit_vector);
    assert(m & 255u32 == m && extra & 255u32 == 0 && flag & 255u32 != 0 && m & flag == 0
        ==> (m | extra | flag) & 255u32 != m) by (bit_vector);
}

} // verus!
