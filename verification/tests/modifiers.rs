use keymap::modifiers::{
    ElementState, Modifier, ModifierKeyState, ModifierKeymap, ModifiersState, NUM_MODS,
};

fn state(shift: bool, ctrl: bool, alt: bool, logo: bool) -> ModifiersState {
    ModifiersState { shift, ctrl, alt, logo }
}

// An 8-slot hardware table with two keycodes per slot.
// Slot offsets: Shift 0, Control 2, Alt 3, Logo 6.
fn sample_table() -> Vec<u8> {
    let keys_per_mod = 2;
    let mut keys = vec![0u8; NUM_MODS * keys_per_mod];
    keys[0] = 10; // Shift slot
    keys[1] = 50; // Shift slot, also listed under Logo below
    keys[4] = 20; // Control slot
    keys[6] = 30; // Alt slot
    keys[12] = 40; // Logo slot
    keys[13] = 50; // Logo slot: later-processed slot wins for keycode 50
    keys
}

#[test]
fn keymap_single_slot_keycodes_resolve() {
    let mut km = ModifierKeymap::new();
    km.reset_from_x_keymap(&sample_table(), 2);
    assert_eq!(km.get_modifier(10), Some(Modifier::Shift));
    assert_eq!(km.get_modifier(20), Some(Modifier::Ctrl));
    assert_eq!(km.get_modifier(30), Some(Modifier::Alt));
    assert_eq!(km.get_modifier(40), Some(Modifier::Logo));
}

#[test]
fn keymap_absent_keycode_resolves_to_nothing() {
    let mut km = ModifierKeymap::new();
    km.reset_from_x_keymap(&sample_table(), 2);
    assert_eq!(km.get_modifier(99), None);
}

#[test]
fn keymap_zero_entries_are_padding() {
    let mut km = ModifierKeymap::new();
    km.reset_from_x_keymap(&sample_table(), 2);
    assert_eq!(km.get_modifier(0), None);
}

#[test]
fn keymap_later_slot_wins_for_duplicated_keycode() {
    let mut km = ModifierKeymap::new();
    km.reset_from_x_keymap(&sample_table(), 2);
    assert_eq!(km.get_modifier(50), Some(Modifier::Logo));
}

#[test]
fn keymap_rebuild_discards_previous_contents() {
    let mut km = ModifierKeymap::new();
    km.reset_from_x_keymap(&sample_table(), 2);
    assert_eq!(km.get_modifier(10), Some(Modifier::Shift));
    let empty = vec![0u8; NUM_MODS * 2];
    km.reset_from_x_keymap(&empty, 2);
    assert_eq!(km.get_modifier(10), None);
}

#[test]
fn keymap_new_is_empty() {
    let km = ModifierKeymap::new();
    assert_eq!(km.get_modifier(10), None);
}

#[test]
fn tracker_press_then_release_restores_prior_state() {
    let mut t = ModifierKeyState::default();
    let before = t.modifiers();
    t.key_event(ElementState::Pressed, Modifier::Ctrl);
    assert_eq!(t.modifiers(), state(false, true, false, false));
    t.key_event(ElementState::Released, Modifier::Ctrl);
    assert_eq!(t.modifiers(), before);
}

#[test]
fn tracker_double_press_is_idempotent() {
    let mut t = ModifierKeyState::default();
    t.key_event(ElementState::Pressed, Modifier::Shift);
    let once = t.modifiers();
    t.key_event(ElementState::Pressed, Modifier::Shift);
    assert_eq!(t.modifiers(), once);
    assert!(t.modifiers().shift);
}

#[test]
fn tracker_release_is_not_reference_counted() {
    // Two physical keys map to Shift; releasing either clears the bit.
    let mut t = ModifierKeyState::default();
    t.key_event(ElementState::Pressed, Modifier::Shift);
    t.key_event(ElementState::Pressed, Modifier::Shift);
    t.key_event(ElementState::Released, Modifier::Shift);
    assert!(!t.modifiers().shift);
}

#[test]
fn reconcile_keeps_excepted_shift_bit() {
    let mut t = ModifierKeyState::default();
    t.key_event(ElementState::Pressed, Modifier::Shift);
    let external = state(false, true, true, false);
    let r = t.update_state(&external, Some(Modifier::Shift));
    // Shift keeps the tracker's own bit; everything else follows external.
    assert_eq!(r, Some(state(true, true, true, false)));
    assert_eq!(t.modifiers(), state(true, true, true, false));
}

#[test]
fn reconcile_ignores_external_shift_even_when_set() {
    let mut t = ModifierKeyState::default();
    let external = state(true, false, false, true);
    let r = t.update_state(&external, Some(Modifier::Shift));
    assert_eq!(r, Some(state(false, false, false, true)));
}

#[test]
fn reconcile_without_exception_adopts_external_wholesale() {
    let mut t = ModifierKeyState::default();
    let external = state(true, true, false, true);
    let r = t.update_state(&external, None);
    assert_eq!(r, Some(external));
    assert_eq!(t.modifiers(), external);
}

#[test]
fn reconcile_no_change_returns_nothing() {
    let mut t = ModifierKeyState::default();
    t.key_event(ElementState::Pressed, Modifier::Alt);
    let external = state(false, false, true, false);
    let r = t.update_state(&external, None);
    assert_eq!(r, None);
    assert_eq!(t.modifiers(), external);
}

#[test]
fn modifiers_state_empty_has_no_bits() {
    assert_eq!(ModifiersState::empty(), state(false, false, false, false));
}
