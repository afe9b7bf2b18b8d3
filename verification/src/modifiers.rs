//! Modifier keymap and modifier state tracking for the OS family that reports
//! modifiers through a raw hardware table (8 fixed slots of keycodes) and
//! per-event modifier flags.

use vstd::prelude::*;
use std::collections::HashMap;

verus! {

broadcast use vstd::std_specs::hash::group_hash_axioms;

/// Offsets of the four tracked slots within the 8-slot hardware table.
/// The slot order is Shift, Lock, Control, Mod1 (Alt), Mod2, Mod3,
/// Mod4 (Logo), Mod5.
pub const SHIFT_OFFSET: usize = 0;
pub const CONTROL_OFFSET: usize = 2;
pub const ALT_OFFSET: usize = 3;
pub const LOGO_OFFSET: usize = 6;
pub const NUM_MODS: usize = 8;

/// One of the four modifier roles a physical key can be assigned to.
#[derive(Clone, Copy, Debug, Eq, PartialEq, Structural)]
pub enum Modifier {
    Alt,
    Ctrl,
    Shift,
    Logo,
}

/// A bitset of the currently pressed modifier categories.
#[derive(Clone, Copy, Debug, Eq, PartialEq, Structural)]
pub struct ModifiersState {
    pub shift: bool,
    pub ctrl: bool,
    pub alt: bool,
    pub logo: bool,
}

impl ModifiersState {
    /// The state with no modifier pressed.
    pub fn empty() -> (r: ModifiersState)
        ensures
            r == (ModifiersState { shift: false, ctrl: false, alt: false, logo: false }),
    {
        ModifiersState { shift: false, ctrl: false, alt: false, logo: false }
    }
}

/// Whether a key transition is a press or a release.
#[derive(Clone, Copy, Debug, Eq, PartialEq, Structural)]
pub enum ElementState {
    Pressed,
    Released,
}

/// The given state with the bit for `modifier` set to `value`.
pub open spec fn spec_set_modifier(state: ModifiersState, modifier: Modifier, value: bool) -> ModifiersState {
    match modifier {
        Modifier::Alt => ModifiersState { alt: value, ..state },
        Modifier::Ctrl => ModifiersState { ctrl: value, ..state },
        Modifier::Shift => ModifiersState { shift: value, ..state },
        Modifier::Logo => ModifiersState { logo: value, ..state },
    }
}

/// Sets or clears the bit for one modifier category.
pub fn set_modifier(state: &mut ModifiersState, modifier: Modifier, value: bool)
    ensures
        *final(state) == spec_set_modifier(*old(state), modifier, value),
{
    match modifier {
        Modifier::Alt => state.alt = value,
        Modifier::Ctrl => state.ctrl = value,
        Modifier::Shift => state.shift = value,
        Modifier::Logo => state.logo = value,
    }
}

/// Whether `kc` occurs among the `keys_per_mod` keycodes of the slot at
/// `offset` in the raw hardware table.
pub open spec fn in_slot(keys: Seq<u8>, keys_per_mod: int, offset: int, kc: u8) -> bool {
    exists|i: int| offset * keys_per_mod <= i < (offset + 1) * keys_per_mod && keys[i] == kc
}

/// The modifier assigned to keycode `kc` by the raw hardware table: the four
/// tracked slots are read in the order Shift, Control, Alt, Logo, and a later
/// slot wins when a keycode occurs in several of them.  Zero keycode entries
/// are padding and assign nothing.
pub open spec fn slot_lookup(keys: Seq<u8>, keys_per_mod: int, kc: u8) -> Option<Modifier> {
    if kc == 0 {
        None
    } else if in_slot(keys, keys_per_mod, LOGO_OFFSET as int, kc) {
        Some(Modifier::Logo)
    } else if in_slot(keys, keys_per_mod, ALT_OFFSET as int, kc) {
        Some(Modifier::Alt)
    } else if in_slot(keys, keys_per_mod, CONTROL_OFFSET as int, kc) {
        Some(Modifier::Ctrl)
    } else if in_slot(keys, keys_per_mod, SHIFT_OFFSET as int, kc) {
        Some(Modifier::Shift)
    } else {
        None
    }
}

/// The association `m` holds for keycode `kc`, as an optional modifier.
pub open spec fn map_lookup(m: Map<u8, Modifier>, kc: u8) -> Option<Modifier> {
    if m.contains_key(kc) {
        Some(m[kc])
    } else {
        None
    }
}

/// Maps physical keycodes to the modifier role the hardware table assigns
/// them.  Stateless beyond its map; rebuilt wholesale on demand.
pub struct ModifierKeymap {
    keys: HashMap<u8, Modifier>,
}

impl View for ModifierKeymap {
    type V = Map<u8, Modifier>;

    closed spec fn view(&self) -> Map<u8, Modifier> {
        self.keys@
    }
}

impl ModifierKeymap {
    /// An empty keymap: no keycode is assigned a modifier.
    pub fn new() -> (r: ModifierKeymap)
        ensures
            r@ == Map::<u8, Modifier>::empty(),
    {
        ModifierKeymap { keys: HashMap::new() }
    }

    /// The modifier assigned to `keycode`, if any.
    pub fn get_modifier(&self, keycode: u8) -> (r: Option<Modifier>)
        ensures
            r == map_lookup(self@, keycode),
    {
        match self.keys.get(&keycode) {
            Some(m) => Some(*m),
            None => None,
        }
    }

    /// Clears the map and repopulates it from a raw hardware table.
    ///
    /// `keys` is the flat table of `NUM_MODS * keys_per_mod` keycodes; only
    /// the Shift, Control, Alt and Logo slots are read, in that order, so a
    /// keycode listed in several slots ends up with the last-read role.
    pub fn reset_from_x_keymap(&mut self, keys: &Vec<u8>, keys_per_mod: usize)
        requires
            keys@.len() == NUM_MODS * keys_per_mod,
        ensures
            forall|kc: u8| map_lookup(final(self)@, kc) == slot_lookup(keys@, keys_per_mod as int, kc),
    {
        self.keys.clear();
        self.read_x_keys(keys, SHIFT_OFFSET, keys_per_mod, Modifier::Shift);
        self.read_x_keys(keys, CONTROL_OFFSET, keys_per_mod, Modifier::Ctrl);
        self.read_x_keys(keys, ALT_OFFSET, keys_per_mod, Modifier::Alt);
        self.read_x_keys(keys, LOGO_OFFSET, keys_per_mod, Modifier::Logo);
    }

    /// Records every non-zero keycode of one slot as `modifier`.
    fn read_x_keys(&mut self, keys: &Vec<u8>, offset: usize, keys_per_mod: usize, modifier: Modifier)
        requires
            (offset + 1) * keys_per_mod <= keys@.len(),
        ensures
            forall|kc: u8| map_lookup(final(self)@, kc)
                == if kc != 0 && in_slot(keys@, keys_per_mod as int, offset as int, kc) {
                    Some(modifier)
                } else {
                    map_lookup(old(self)@, kc)
                },
    {
        let n = keys.len();
        proof {
            assert((offset + 1) * keys_per_mod == offset * keys_per_mod + keys_per_mod) by (nonlinear_arith);
            assert(offset * keys_per_mod + keys_per_mod <= n);
        }
        let start = offset * keys_per_mod;
        let end = start + keys_per_mod;
        let mut i = start;
        while i < end
            invariant
                offset * keys_per_mod == start,
                start <= i <= end,
                end == start + keys_per_mod,
                end <= keys@.len(),
                forall|kc: u8| map_lookup(self@, kc)
                    == if kc != 0 && (exists|j: int| start <= j < i && keys@[j] == kc) {
                        Some(modifier)
                    } else {
                        map_lookup(old(self)@, kc)
                    },
            decreases end - i,
        {
            let keycode = keys[i];
            let ghost prev = self@;
            if keycode != 0 {
                self.keys.insert(keycode, modifier);
            }
            i += 1;
            proof {
                let i0 = i - 1;
                assert(keys@[i0] == keycode);
                if keycode != 0 {
                    assert(self@ == prev.insert(keycode, modifier));
                } else {
                    assert(self@ == prev);
                }
                assert forall|kc: u8| map_lookup(self@, kc)
                    == if kc != 0 && (exists|j: int| start <= j < i && keys@[j] == kc) {
                        Some(modifier)
                    } else {
                        map_lookup(old(self)@, kc)
                    } by {
                    if kc == keycode && kc != 0 {
                        assert(start <= i0 < i && keys@[i0] == kc);
                        assert(self@.contains_key(kc) && self@[kc] == modifier);
                    } else {
                        assert(map_lookup(self@, kc) == map_lookup(prev, kc));
                        if exists|j: int| start <= j < i && keys@[j] == kc {
                            let j = choose|j: int| start <= j < i && keys@[j] == kc;
                            if j != i0 {
                                assert(start <= j < i0 && keys@[j] == kc);
                            }
                        }
                    }
                }
            }
        }
        assert(forall|kc: u8| (exists|j: int| start <= j < end && keys@[j] == kc)
            == in_slot(keys@, keys_per_mod as int, offset as int, kc));
    }
}

/// A keycode that occurs in exactly one tracked slot of the table is assigned
/// exactly that slot's modifier, and a keycode absent from all four tracked
/// slots (or the zero padding keycode) is assigned nothing.
pub proof fn lemma_single_slot_lookup(keys: Seq<u8>, keys_per_mod: int, kc: u8)
    ensures
        kc != 0 && in_slot(keys, keys_per_mod, SHIFT_OFFSET as int, kc)
            && !in_slot(keys, keys_per_mod, CONTROL_OFFSET as int, kc)
            && !in_slot(keys, keys_per_mod, ALT_OFFSET as int, kc)
            && !in_slot(keys, keys_per_mod, LOGO_OFFSET as int, kc)
            ==> slot_lookup(keys, keys_per_mod, kc) == Some(Modifier::Shift),
        kc != 0 && !in_slot(keys, keys_per_mod, SHIFT_OFFSET as int, kc)
            && in_slot(keys, keys_per_mod, CONTROL_OFFSET as int, kc)
            && !in_slot(keys, keys_per_mod, ALT_OFFSET as int, kc)
            && !in_slot(keys, keys_per_mod, LOGO_OFFSET as int, kc)
            ==> slot_lookup(keys, keys_per_mod, kc) == Some(Modifier::Ctrl),
        kc != 0 && !in_slot(keys, keys_per_mod, SHIFT_OFFSET as int, kc)
            && !in_slot(keys, keys_per_mod, CONTROL_OFFSET as int, kc)
            && in_slot(keys, keys_per_mod, ALT_OFFSET as int, kc)
            && !in_slot(keys, keys_per_mod, LOGO_OFFSET as int, kc)
            ==> slot_lookup(keys, keys_per_mod, kc) == Some(Modifier::Alt),
        kc != 0 && !in_slot(keys, keys_per_mod, SHIFT_OFFSET as int, kc)
            && !in_slot(keys, keys_per_mod, CONTROL_OFFSET as int, kc)
            && !in_slot(keys, keys_per_mod, ALT_OFFSET as int, kc)
            && in_slot(keys, keys_per_mod, LOGO_OFFSET as int, kc)
            ==> slot_lookup(keys, keys_per_mod, kc) == Some(Modifier::Logo),
        !in_slot(keys, keys_per_mod, SHIFT_OFFSET as int, kc)
            && !in_slot(keys, keys_per_mod, CONTROL_OFFSET as int, kc)
            && !in_slot(keys, keys_per_mod, ALT_OFFSET as int, kc)
            && !in_slot(keys, keys_per_mod, LOGO_OFFSET as int, kc)
            ==> slot_lookup(keys, keys_per_mod, kc) is None,
{
}

/// The reconciled state: `external` adopted wholesale, except that for the
/// one excepted category the tracker's own bit is substituted.
pub open spec fn spec_reconciled(
    tracked_state: ModifiersState,
    external: ModifiersState,
    except: Option<Modifier>,
) -> ModifiersState {
    match except {
        Some(m) => spec_set_modifier(external, m, spec_get_modifier(tracked_state, m)),
        None => external,
    }
}

/// The bit held for one modifier category.
pub open spec fn spec_get_modifier(state: ModifiersState, modifier: Modifier) -> bool {
    match modifier {
        Modifier::Alt => state.alt,
        Modifier::Ctrl => state.ctrl,
        Modifier::Shift => state.shift,
        Modifier::Logo => state.logo,
    }
}

/// Owns the live modifier bitset for one input context and applies
/// press/release transitions and reconciliation against externally reported
/// state.
#[derive(Clone, Copy, Debug)]
pub struct ModifierKeyState {
    state: ModifiersState,
}

impl Default for ModifierKeyState {
    /// A tracker that starts with no modifier pressed.
    fn default() -> (r: ModifierKeyState)
        ensures
            r.spec_state() == (ModifiersState { shift: false, ctrl: false, alt: false, logo: false }),
    {
        ModifierKeyState { state: ModifiersState { shift: false, ctrl: false, alt: false, logo: false } }
    }
}

impl ModifierKeyState {
    /// The currently tracked modifier bitset.
    pub fn modifiers(&self) -> (r: ModifiersState)
        ensures
            r == self.spec_state(),
    {
        self.state
    }

    /// The tracked bitset, for contracts.
    pub closed spec fn spec_state(&self) -> ModifiersState {
        self.state
    }

    /// Adopts `state` wholesale, except that for the category in `except`
    /// the tracker's own previously held bit is substituted for the external
    /// value.  Returns the new state only if it differs from the previously
    /// tracked one; an idempotent no-op returns nothing.
    pub fn update_state(&mut self, state: &ModifiersState, except: Option<Modifier>) -> (r: Option<ModifiersState>)
        ensures
            final(self).spec_state() == spec_reconciled(old(self).spec_state(), *state, except),
            r is Some <==> spec_reconciled(old(self).spec_state(), *state, except) != old(self).spec_state(),
            r is Some ==> r == Some(final(self).spec_state()),
    {
        let mut new_state = *state;

        match except {
            Some(Modifier::Alt) => set_modifier(&mut new_state, Modifier::Alt, self.state.alt),
            Some(Modifier::Ctrl) => set_modifier(&mut new_state, Modifier::Ctrl, self.state.ctrl),
            Some(Modifier::Shift) => set_modifier(&mut new_state, Modifier::Shift, self.state.shift),
            Some(Modifier::Logo) => set_modifier(&mut new_state, Modifier::Logo, self.state.logo),
            None => (),
        }

        if self.state == new_state {
            None
        } else {
            self.state = new_state;
            Some(new_state)
        }
    }

    /// Applies one press or release transition for a modifier category.
    pub fn key_event(&mut self, state: ElementState, modifier: Modifier)
        ensures
            final(self).spec_state() == spec_set_modifier(old(self).spec_state(), modifier, state is Pressed),
    {
        match state {
            ElementState::Pressed => self.key_press(modifier),
            ElementState::Released => self.key_release(modifier),
        }
    }

    /// Sets the bit for `modifier`, unconditionally: there is no reference
    /// counting, so two physical keys mapped to one category share one bit.
    fn key_press(&mut self, modifier: Modifier)
        ensures
            final(self).spec_state() == spec_set_modifier(old(self).spec_state(), modifier, true),
    {
        set_modifier(&mut self.state, modifier, true);
    }

    /// Clears the bit for `modifier`, unconditionally: releasing either of
    /// two physical keys mapped to one category clears the shared bit even
    /// if the other key is still held.  This is a deliberate simplification.
    fn key_release(&mut self, modifier: Modifier)
        ensures
            final(self).spec_state() == spec_set_modifier(old(self).spec_state(), modifier, false),
    {
        set_modifier(&mut self.state, modifier, false);
    }
}

/// Pressing then releasing a modifier whose bit was clear returns the bitset
/// to its prior value, and a second press of an already pressed modifier is
/// idempotent: the bit simply stays set.  (Because releases are not
/// reference-counted, the round trip does not restore a state whose bit was
/// already set: the release clears it.)
pub proof fn lemma_press_release(state: ModifiersState, modifier: Modifier)
    ensures
        !spec_get_modifier(state, modifier)
            ==> spec_set_modifier(spec_set_modifier(state, modifier, true), modifier, false) == state,
        spec_set_modifier(spec_set_modifier(state, modifier, true), modifier, true)
            == spec_set_modifier(state, modifier, true),
{
}

/// Reconciling with `except` set to Shift never changes the Shift bit:
/// whatever the external state reports for Shift, the result keeps the
/// tracker's own Shift bit, and adopts the external value exactly for every
/// other category.
pub proof fn lemma_reconcile_shift(tracked_state: ModifiersState, external: ModifiersState)
    ensures
        spec_reconciled(tracked_state, external, Some(Modifier::Shift)).shift == tracked_state.shift,
        spec_reconciled(tracked_state, external, Some(Modifier::Shift)).ctrl == external.ctrl,
        spec_reconciled(tracked_state, external, Some(Modifier::Shift)).alt == external.alt,
        spec_reconciled(tracked_state, external, Some(Modifier::Shift)).logo == external.logo,
{
}

} // verus!
