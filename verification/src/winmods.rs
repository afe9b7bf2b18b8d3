//! Modifier sampling and synthesis for the OS family whose keyboard state is
//! a 256-entry per-virtual-key byte array: a small bitset over
//! {Shift, Control, Alt, CapsLock}, derived from such an array and able to
//! fabricate one for probing the composition routine.

use vstd::prelude::*;

verus! {

/// Virtual-key indices into the 256-entry key state array.
pub const VK_SHIFT: usize = 0x10;
pub const VK_CONTROL: usize = 0x11;
pub const VK_MENU: usize = 0x12;
pub const VK_CAPITAL: usize = 0x14;
pub const VK_LSHIFT: usize = 0xA0;
pub const VK_RSHIFT: usize = 0xA1;
pub const VK_LCONTROL: usize = 0xA2;
pub const VK_RCONTROL: usize = 0xA3;
pub const VK_LMENU: usize = 0xA4;
pub const VK_RMENU: usize = 0xA5;

/// The length of a raw key state array: one byte per virtual key.
pub const KEY_STATE_LEN: usize = 256;

/// A snapshot of the four modifiers this OS family reports, as named flags.
/// The numeric encoding used to enumerate all combinations assigns
/// Shift bit 0, Control bit 1, Alt bit 2 and CapsLock bit 3.
#[derive(Clone, Copy, Debug, Eq, PartialEq, Structural)]
pub struct WindowsModifiers {
    pub shift: bool,
    pub control: bool,
    pub alt: bool,
    pub caps_lock: bool,
}

/// One past the largest numeric encoding of a modifier combination.
pub const FLAGS_END: u8 = 16;

/// The numeric encoding of a modifier combination.
pub open spec fn spec_bits(m: WindowsModifiers) -> int {
    (if m.shift { 1int } else { 0int })
        + (if m.control { 2int } else { 0int })
        + (if m.alt { 4int } else { 0int })
        + (if m.caps_lock { 8int } else { 0int })
}

/// The modifier combination with numeric encoding `bits`.
pub open spec fn spec_from_bits(bits: u8) -> WindowsModifiers {
    WindowsModifiers {
        shift: bits as int % 2 == 1,
        control: bits as int / 2 % 2 == 1,
        alt: bits as int / 4 % 2 == 1,
        caps_lock: bits as int / 8 % 2 == 1,
    }
}

/// Round trip between a combination and its numeric encoding.
pub proof fn lemma_bits_roundtrip(m: WindowsModifiers, bits: u8)
    ensures
        spec_from_bits((spec_bits(m)) as u8) == m,
        bits < FLAGS_END ==> spec_bits(spec_from_bits(bits)) == bits,
        0 <= spec_bits(m) < FLAGS_END,
{
}

/// The modifiers an OS key state array reports: for Shift, Control and Alt
/// the generic, left and right virtual keys are ORed on their "currently
/// down" bit (0x80); CapsLock is sampled on its toggle bit (0x01) instead.
pub open spec fn spec_active_modifiers(s: Seq<u8>) -> WindowsModifiers {
    WindowsModifiers {
        shift: s[VK_SHIFT as int] & 0x80 != 0 || s[VK_LSHIFT as int] & 0x80 != 0
            || s[VK_RSHIFT as int] & 0x80 != 0,
        control: s[VK_CONTROL as int] & 0x80 != 0 || s[VK_LCONTROL as int] & 0x80 != 0
            || s[VK_RCONTROL as int] & 0x80 != 0,
        alt: s[VK_MENU as int] & 0x80 != 0 || s[VK_LMENU as int] & 0x80 != 0
            || s[VK_RMENU as int] & 0x80 != 0,
        caps_lock: s[VK_CAPITAL as int] & 0x01 != 0,
    }
}

/// The key state array `s` rewritten so that exactly the modifiers in `m`
/// appear held: for each set flag the generic key's down bit is set, and for
/// each clear flag the generic, left and right keys' down bits are cleared.
/// CapsLock is written on the down bit, mirroring what the composition
/// probe expects, not on the toggle bit that sampling reads.
pub open spec fn spec_apply_to_kbd_state(m: WindowsModifiers, s: Seq<u8>) -> Seq<u8> {
    Seq::new(s.len(), |i: int| spec_applied_byte(m, s, i))
}

/// The byte at index `i` after `m` is applied to `s`.
pub open spec fn spec_applied_byte(m: WindowsModifiers, s: Seq<u8>, i: int) -> u8 {
    if i == VK_SHIFT as int {
        if m.shift { s[i] | 0x80 } else { s[i] & 0x7f }
    } else if i == VK_LSHIFT as int || i == VK_RSHIFT as int {
        if m.shift { s[i] } else { s[i] & 0x7f }
    } else if i == VK_CONTROL as int {
        if m.control { s[i] | 0x80 } else { s[i] & 0x7f }
    } else if i == VK_LCONTROL as int || i == VK_RCONTROL as int {
        if m.control { s[i] } else { s[i] & 0x7f }
    } else if i == VK_MENU as int {
        if m.alt { s[i] | 0x80 } else { s[i] & 0x7f }
    } else if i == VK_LMENU as int || i == VK_RMENU as int {
        if m.alt { s[i] } else { s[i] & 0x7f }
    } else if i == VK_CAPITAL as int {
        if m.caps_lock { s[i] | 0x80 } else { s[i] & 0x7f }
    } else {
        s[i]
    }
}

impl WindowsModifiers {
    /// The combination with no flag set.
    pub fn empty() -> (r: WindowsModifiers)
        ensures
            r == (WindowsModifiers { shift: false, control: false, alt: false, caps_lock: false }),
    {
        WindowsModifiers { shift: false, control: false, alt: false, caps_lock: false }
    }

    /// The numeric encoding of this combination.
    pub fn bits(self) -> (r: u8)
        ensures
            r as int == spec_bits(self),
    {
        (if self.shift { 1u8 } else { 0u8 })
            + (if self.control { 2u8 } else { 0u8 })
            + (if self.alt { 4u8 } else { 0u8 })
            + (if self.caps_lock { 8u8 } else { 0u8 })
    }

    /// The combination encoded by `bits`.
    pub fn from_bits(bits: u8) -> (r: WindowsModifiers)
        ensures
            r == spec_from_bits(bits),
    {
        proof {
            assert((bits & 1 != 0) == (bits % 2 == 1)) by (bit_vector);
            assert((bits & 2 != 0) == (bits / 2 % 2 == 1)) by (bit_vector);
            assert((bits & 4 != 0) == (bits / 4 % 2 == 1)) by (bit_vector);
            assert((bits & 8 != 0) == (bits / 8 % 2 == 1)) by (bit_vector);
        }
        WindowsModifiers {
            shift: bits & 1 != 0,
            control: bits & 2 != 0,
            alt: bits & 4 != 0,
            caps_lock: bits & 8 != 0,
        }
    }

    /// Samples the modifiers a raw key state array reports.
    pub fn active_modifiers(key_state: &Vec<u8>) -> (r: WindowsModifiers)
        requires
            key_state@.len() == KEY_STATE_LEN,
        ensures
            r == spec_active_modifiers(key_state@),
    {
        let shift = key_state[VK_SHIFT] & 0x80 != 0;
        let lshift = key_state[VK_LSHIFT] & 0x80 != 0;
        let rshift = key_state[VK_RSHIFT] & 0x80 != 0;

        let control = key_state[VK_CONTROL] & 0x80 != 0;
        let lcontrol = key_state[VK_LCONTROL] & 0x80 != 0;
        let rcontrol = key_state[VK_RCONTROL] & 0x80 != 0;

        let alt = key_state[VK_MENU] & 0x80 != 0;
        let lalt = key_state[VK_LMENU] & 0x80 != 0;
        let ralt = key_state[VK_RMENU] & 0x80 != 0;

        let caps = key_state[VK_CAPITAL] & 0x01 != 0;

        WindowsModifiers {
            shift: shift || lshift || rshift,
            control: control || lcontrol || rcontrol,
            alt: alt || lalt || ralt,
            caps_lock: caps,
        }
    }

    /// Rewrites a key state array so that exactly this combination appears
    /// held, fabricating the array handed to the composition probe.
    pub fn apply_to_kbd_state(self, key_state: &mut Vec<u8>)
        requires
            old(key_state)@.len() == KEY_STATE_LEN,
        ensures
            final(key_state)@ == spec_apply_to_kbd_state(self, old(key_state)@),
    {
        if self.shift {
            let v = key_state[VK_SHIFT] | 0x80;
            key_state.set(VK_SHIFT, v);
        } else {
            let v = key_state[VK_SHIFT] & 0x7f;
            key_state.set(VK_SHIFT, v);
            let v = key_state[VK_LSHIFT] & 0x7f;
            key_state.set(VK_LSHIFT, v);
            let v = key_state[VK_RSHIFT] & 0x7f;
            key_state.set(VK_RSHIFT, v);
        }
        if self.control {
            let v = key_state[VK_CONTROL] | 0x80;
            key_state.set(VK_CONTROL, v);
        } else {
            let v = key_state[VK_CONTROL] & 0x7f;
            key_state.set(VK_CONTROL, v);
            let v = key_state[VK_LCONTROL] & 0x7f;
            key_state.set(VK_LCONTROL, v);
            let v = key_state[VK_RCONTROL] & 0x7f;
            key_state.set(VK_RCONTROL, v);
        }
        if self.alt {
            let v = key_state[VK_MENU] | 0x80;
            key_state.set(VK_MENU, v);
        } else {
            let v = key_state[VK_MENU] & 0x7f;
            key_state.set(VK_MENU, v);
            let v = key_state[VK_LMENU] & 0x7f;
            key_state.set(VK_LMENU, v);
            let v = key_state[VK_RMENU] & 0x7f;
            key_state.set(VK_RMENU, v);
        }
        if self.caps_lock {
            let v = key_state[VK_CAPITAL] | 0x80;
            key_state.set(VK_CAPITAL, v);
        } else {
            let v = key_state[VK_CAPITAL] & 0x7f;
            key_state.set(VK_CAPITAL, v);
        }
        proof {
            assert(final(key_state)@ =~= spec_apply_to_kbd_state(self, old(key_state)@));
        }
    }

    /// Clears the Control flag unless Alt is also set.  The OS reports
    /// Control together with Alt for the AltGr chord, and consumers must not
    /// see a spurious Control unless Alt is genuinely held.
    pub fn remove_only_ctrl(self) -> (r: WindowsModifiers)
        ensures
            r == spec_remove_only_ctrl(self),
    {
        if !self.alt {
            WindowsModifiers { control: false, ..self }
        } else {
            self
        }
    }
}

/// `remove_only_ctrl`: with Alt clear, Control is cleared; with Alt set, the
/// combination is untouched.
pub open spec fn spec_remove_only_ctrl(m: WindowsModifiers) -> WindowsModifiers {
    if !m.alt {
        WindowsModifiers { control: false, ..m }
    } else {
        m
    }
}

/// For any combination with Alt clear the Control flag comes out cleared and
/// every other flag is preserved; for any combination with Alt set nothing
/// changes, Control included.
pub proof fn lemma_remove_only_ctrl(m: WindowsModifiers)
    ensures
        !m.alt ==> spec_remove_only_ctrl(m) == (WindowsModifiers { control: false, ..m }),
        m.alt ==> spec_remove_only_ctrl(m) == m,
{
}

/// The all-zero key state array: no key down, no toggle set.
pub open spec fn spec_zero_state() -> Seq<u8> {
    Seq::new(KEY_STATE_LEN as nat, |i: int| 0u8)
}

/// A fresh all-zero key state array, simulating no active modifier.
pub fn zero_kbd_state() -> (r: Vec<u8>)
    ensures
        r@ == spec_zero_state(),
{
    let mut v: Vec<u8> = Vec::new();
    let mut i: usize = 0;
    while i < KEY_STATE_LEN
        invariant
            i <= KEY_STATE_LEN,
            v@.len() == i,
            forall|j: int| 0 <= j < i ==> v@[j] == 0u8,
        decreases KEY_STATE_LEN - i,
    {
        v.push(0u8);
        i += 1;
    }
    proof {
        assert(v@ =~= spec_zero_state());
    }
    v
}

/// Sampling a synthesized key state reproduces the synthesized combination
/// exactly for Shift, Control and Alt; CapsLock is excluded from the
/// mirrored semantics, because synthesis marks its down bit while sampling
/// reads its toggle bit, so it always samples as clear from a zero base.
pub proof fn lemma_sample_synthesize(m: WindowsModifiers)
    ensures
        spec_active_modifiers(spec_apply_to_kbd_state(m, spec_zero_state()))
            == (WindowsModifiers { caps_lock: false, ..m }),
{
    let s = spec_apply_to_kbd_state(m, spec_zero_state());
    assert(0u8 & 0x7f == 0u8 && 0u8 | 0x80u8 == 0x80u8 && 0x80u8 & 0x80u8 == 0x80u8
        && 0u8 & 0x80u8 == 0u8 && 0x80u8 & 0x01u8 == 0u8 && 0u8 & 0x01u8 == 0u8) by (bit_vector);
    assert(spec_active_modifiers(s) == (WindowsModifiers { caps_lock: false, ..m }));
}

} // verus!
