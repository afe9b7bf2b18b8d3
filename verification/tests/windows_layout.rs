use keymap::cache::{get_or_insert_str, LayoutCache, RealModKeys, StringPool};
use keymap::compose::{to_unicode_string, utf16_to_string, Composition, CompositionCall, ToUnicodeResult};
use keymap::layout::{prepare_layout, KeyCode, KeyProbe, LayoutSource, ResolvedKey, NUM_VKEYS};
use keymap::winmods::{zero_kbd_state, WindowsModifiers, FLAGS_END, VK_CAPITAL, VK_RMENU, VK_SHIFT};

fn no_call() -> CompositionCall {
    CompositionCall { signal: 0, units: Vec::new() }
}

fn text_call(units: Vec<u16>) -> CompositionCall {
    CompositionCall { signal: units.len() as i32, units }
}

fn silent_probe() -> Composition {
    Composition { first: no_call(), second: no_call() }
}

fn silent_probes() -> Vec<Composition> {
    (0..FLAGS_END).map(|_| silent_probe()).collect()
}

fn absent_key() -> KeyProbe {
    KeyProbe {
        scancode: 0,
        key_code: KeyCode::Other(0),
        preliminary: ResolvedKey::Unidentified(0),
        compositions: silent_probes(),
    }
}

fn source_with(probes: Vec<(usize, KeyProbe)>) -> LayoutSource {
    let mut keys: Vec<KeyProbe> = (0..NUM_VKEYS).map(|_| absent_key()).collect();
    for (vk, p) in probes {
        keys[vk] = p;
    }
    LayoutSource { keys }
}

// A key that composes `text` under the empty combination and nothing else.
fn character_key(scancode: u32, code: u16, text: &str) -> KeyProbe {
    let mut compositions = silent_probes();
    compositions[0] = Composition {
        first: text_call(text.encode_utf16().collect()),
        second: no_call(),
    };
    KeyProbe {
        scancode,
        key_code: KeyCode::Other(code),
        preliminary: ResolvedKey::Unidentified(scancode as u16),
        compositions,
    }
}

#[test]
fn sample_of_synthesized_state_reproduces_bitset() {
    for bits in 0..FLAGS_END {
        let m = WindowsModifiers::from_bits(bits);
        let mut key_state = zero_kbd_state();
        m.apply_to_kbd_state(&mut key_state);
        let sampled = WindowsModifiers::active_modifiers(&key_state);
        // CapsLock is excluded from the mirrored semantics: synthesis marks
        // the down bit, sampling reads the toggle bit.
        let expected = WindowsModifiers { caps_lock: false, ..m };
        assert_eq!(sampled, expected);
    }
}

#[test]
fn caps_lock_samples_from_the_toggle_bit() {
    let mut key_state = zero_kbd_state();
    key_state[VK_CAPITAL] = 0x01;
    let sampled = WindowsModifiers::active_modifiers(&key_state);
    assert!(sampled.caps_lock);
    let mut key_state = zero_kbd_state();
    key_state[VK_CAPITAL] = 0x80;
    let sampled = WindowsModifiers::active_modifiers(&key_state);
    assert!(!sampled.caps_lock);
}

#[test]
fn shift_samples_from_any_variant() {
    let mut key_state = zero_kbd_state();
    key_state[VK_SHIFT] = 0x80;
    assert!(WindowsModifiers::active_modifiers(&key_state).shift);
}

#[test]
fn remove_only_ctrl_clears_control_without_alt() {
    let m = WindowsModifiers { shift: true, control: true, alt: false, caps_lock: true };
    let r = m.remove_only_ctrl();
    assert_eq!(r, WindowsModifiers { shift: true, control: false, alt: false, caps_lock: true });
}

#[test]
fn remove_only_ctrl_preserves_control_with_alt() {
    let m = WindowsModifiers { shift: false, control: true, alt: true, caps_lock: false };
    assert_eq!(m.remove_only_ctrl(), m);
}

#[test]
fn utf16_decoding_round_trips_text() {
    let units: Vec<u16> = "ab".encode_utf16().collect();
    let s = utf16_to_string(&units).unwrap();
    assert_eq!(s, "ab");
}

#[test]
fn utf16_decoding_handles_surrogate_pairs() {
    let units: Vec<u16> = "\u{1F600}".encode_utf16().collect();
    assert_eq!(units.len(), 2);
    let s = utf16_to_string(&units).unwrap();
    assert_eq!(s, "\u{1F600}");
}

#[test]
fn utf16_decoding_rejects_lone_surrogate() {
    let units: Vec<u16> = vec![0xD800];
    assert_eq!(utf16_to_string(&units), None);
    let units: Vec<u16> = vec![0xDC00, 0x61];
    assert_eq!(utf16_to_string(&units), None);
}

#[test]
fn composition_with_text_classifies_as_string() {
    let c = Composition { first: text_call(vec![0x61]), second: no_call() };
    match to_unicode_string(&c) {
        ToUnicodeResult::Str(s) => assert_eq!(s, "a"),
        other => panic!("expected text, got {:?}", other),
    }
}

#[test]
fn dead_key_takes_combining_char_from_second_call() {
    let c = Composition {
        first: CompositionCall { signal: -1, units: Vec::new() },
        second: text_call(vec![0x00B4]),
    };
    assert_eq!(to_unicode_string(&c), ToUnicodeResult::Dead(Some('\u{B4}')));
}

#[test]
fn dead_key_accent_comes_from_first_call_when_second_is_silent() {
    // The dead-key signal delivers the accent in the first call's buffer;
    // a silent second call must not lose it.
    let c = Composition {
        first: CompositionCall { signal: -1, units: vec![0x00B4] },
        second: no_call(),
    };
    assert_eq!(to_unicode_string(&c), ToUnicodeResult::Dead(Some('\u{B4}')));
}

#[test]
fn dead_key_with_no_character_from_either_call_carries_nothing() {
    let c = Composition {
        first: CompositionCall { signal: -1, units: Vec::new() },
        second: no_call(),
    };
    assert_eq!(to_unicode_string(&c), ToUnicodeResult::Dead(None));
}

#[test]
fn string_interning_reuses_existing_storage() {
    let mut pool = StringPool::new();
    let h1 = get_or_insert_str(&mut pool, String::from("abc"));
    let h2 = get_or_insert_str(&mut pool, String::from("xyz"));
    let h3 = get_or_insert_str(&mut pool, String::from("abc"));
    assert_eq!(h1, h3);
    assert_ne!(h1, h2);
    assert_eq!(pool.len(), 2);
    assert_eq!(pool.get_str(h1).as_str(), "abc");
}

#[test]
fn layout_resolves_composed_character() {
    let mut pool = StringPool::new();
    let source = source_with(vec![(30, character_key(30, 5, "a"))]);
    let layout = prepare_layout(&mut pool, &source);
    let key = layout.get_key(WindowsModifiers::empty(), 30, KeyCode::Other(5));
    match key {
        ResolvedKey::Character(h) => assert_eq!(pool.get_str(h).as_str(), "a"),
        other => panic!("expected a character, got {:?}", other),
    }
}

#[test]
fn layout_falls_back_to_unidentified() {
    let mut pool = StringPool::new();
    let source = source_with(vec![]);
    let layout = prepare_layout(&mut pool, &source);
    let key = layout.get_key(WindowsModifiers::empty(), 77, KeyCode::Other(9));
    assert_eq!(key, ResolvedKey::Unidentified(77));
}

#[test]
fn layout_stores_preliminary_non_printable_without_composing() {
    let mut pool = StringPool::new();
    let mut probe = character_key(40, 7, "q");
    probe.preliminary = ResolvedKey::Named(13);
    let source = source_with(vec![(40, probe)]);
    let layout = prepare_layout(&mut pool, &source);
    // The non-printable resolution takes priority over composition.
    let key = layout.get_key(WindowsModifiers::empty(), 40, KeyCode::Other(7));
    assert_eq!(key, ResolvedKey::Named(13));
    assert_eq!(pool.len(), 0);
}

#[test]
fn dead_key_probe_resolves_to_dead_key_in_layout() {
    let mut pool = StringPool::new();
    let mut compositions = silent_probes();
    compositions[0] = Composition {
        first: CompositionCall { signal: -1, units: Vec::new() },
        second: text_call(vec![0x00B4]),
    };
    let probe = KeyProbe {
        scancode: 26,
        key_code: KeyCode::Other(3),
        preliminary: ResolvedKey::Unidentified(26),
        compositions,
    };
    let source = source_with(vec![(26, probe)]);
    let layout = prepare_layout(&mut pool, &source);
    let key = layout.get_key(WindowsModifiers::empty(), 26, KeyCode::Other(3));
    assert_eq!(key, ResolvedKey::Dead(Some('\u{B4}')));
}

#[test]
fn dead_key_first_call_accent_reaches_the_layout() {
    let mut pool = StringPool::new();
    let mut compositions = silent_probes();
    compositions[0] = Composition {
        first: CompositionCall { signal: -1, units: vec![0x00B4] },
        second: no_call(),
    };
    let probe = KeyProbe {
        scancode: 27,
        key_code: KeyCode::Other(4),
        preliminary: ResolvedKey::Unidentified(27),
        compositions,
    };
    let layout = prepare_layout(&mut pool, &source_with(vec![(27, probe)]));
    let key = layout.get_key(WindowsModifiers::empty(), 27, KeyCode::Other(4));
    assert_eq!(key, ResolvedKey::Dead(Some('\u{B4}')));
}

#[test]
fn numpad_divide_workaround_assigns_slash() {
    let mut pool = StringPool::new();
    let probe = KeyProbe {
        scancode: 0x35,
        key_code: KeyCode::NumpadDivide,
        preliminary: ResolvedKey::Unidentified(0x35),
        compositions: silent_probes(),
    };
    let source = source_with(vec![(0x6F, probe)]);
    let layout = prepare_layout(&mut pool, &source);
    let key = layout.get_key(WindowsModifiers::empty(), 0x35, KeyCode::NumpadDivide);
    match key {
        ResolvedKey::Character(h) => assert_eq!(pool.get_str(h).as_str(), "/"),
        other => panic!("expected the slash character, got {:?}", other),
    }
    // With Control or Alt active the workaround does not apply.
    let ctrl = WindowsModifiers { shift: false, control: true, alt: false, caps_lock: false };
    assert_eq!(layout.get_key(ctrl, 0x35, KeyCode::NumpadDivide), ResolvedKey::Unidentified(0x35));
}

// A synthetic locale where one virtual key composes "a" plain and "b" under
// Control+Alt, plus a right Alt key occupying the AltRight slot.
fn altgr_source() -> LayoutSource {
    let mut compositions = silent_probes();
    compositions[0] = Composition { first: text_call(vec![0x61]), second: no_call() };
    compositions[6] = Composition { first: text_call(vec![0x62]), second: no_call() };
    let v_key = KeyProbe {
        scancode: 30,
        key_code: KeyCode::Other(5),
        preliminary: ResolvedKey::Unidentified(30),
        compositions,
    };
    let ralt = KeyProbe {
        scancode: 0xE038,
        key_code: KeyCode::AltRight,
        preliminary: ResolvedKey::Named(21),
        compositions: silent_probes(),
    };
    source_with(vec![(30, v_key), (0xA5, ralt)])
}

#[test]
fn altgr_is_detected_and_right_alt_becomes_altgraph() {
    let mut pool = StringPool::new();
    let layout = prepare_layout(&mut pool, &altgr_source());
    assert!(layout.has_alt_graph);
    // After the second pass the right-Alt slot resolves to AltGraph under
    // every modifier combination that has it at all.
    for bits in 0..FLAGS_END {
        let m = WindowsModifiers::from_bits(bits);
        assert_eq!(layout.get_key(m, 0xE038, KeyCode::AltRight), ResolvedKey::AltGraph);
    }
}

#[test]
fn identical_plain_and_ctrl_alt_characters_mean_no_altgr() {
    let mut pool = StringPool::new();
    let mut compositions = silent_probes();
    compositions[0] = Composition { first: text_call(vec![0x61]), second: no_call() };
    compositions[6] = Composition { first: text_call(vec![0x61]), second: no_call() };
    let probe = KeyProbe {
        scancode: 30,
        key_code: KeyCode::Other(5),
        preliminary: ResolvedKey::Unidentified(30),
        compositions,
    };
    let layout = prepare_layout(&mut pool, &source_with(vec![(30, probe)]));
    assert!(!layout.has_alt_graph);
}

#[test]
fn layout_construction_is_deterministic() {
    let mut pool1 = StringPool::new();
    let mut pool2 = StringPool::new();
    let l1 = prepare_layout(&mut pool1, &altgr_source());
    let l2 = prepare_layout(&mut pool2, &altgr_source());
    assert_eq!(l1.keys, l2.keys);
    assert_eq!(l1.has_alt_graph, l2.has_alt_graph);
    assert_eq!(pool1.len(), pool2.len());
}

#[test]
fn cache_builds_once_and_memoizes() {
    let mut cache = LayoutCache::new();
    let source = source_with(vec![(30, character_key(30, 5, "a"))]);
    assert!(!cache.get_current_layout(1, &source));
    assert!(cache.get_current_layout(1, &source));
    assert!(cache.get_layout(1).is_some());
    assert!(cache.get_layout(2).is_none());
}

#[test]
fn equal_labels_across_locales_share_storage() {
    let mut cache = LayoutCache::new();
    let source1 = source_with(vec![(30, character_key(30, 5, "a"))]);
    let source2 = source_with(vec![(44, character_key(44, 8, "a"))]);
    cache.get_current_layout(1, &source1);
    cache.get_current_layout(2, &source2);
    let h1 = match cache.get_layout(1).unwrap().get_key(WindowsModifiers::empty(), 30, KeyCode::Other(5)) {
        ResolvedKey::Character(h) => h,
        other => panic!("expected a character, got {:?}", other),
    };
    let h2 = match cache.get_layout(2).unwrap().get_key(WindowsModifiers::empty(), 44, KeyCode::Other(8)) {
        ResolvedKey::Character(h) => h,
        other => panic!("expected a character, got {:?}", other),
    };
    assert_eq!(h1, h2);
    assert_eq!(cache.pool().get_str(h1).as_str(), "a");
}

fn no_keys_down() -> RealModKeys {
    RealModKeys { shift: false, control: false, alt: false, right_alt: false, lwin: false, rwin: false }
}

#[test]
fn agnostic_mods_suppress_ctrl_alt_for_altgr_chord() {
    let mut cache = LayoutCache::new();
    cache.get_current_layout(1, &altgr_source());
    let keys = RealModKeys { control: true, alt: true, right_alt: true, ..no_keys_down() };
    let mods = cache.get_agnostic_mods(1, keys);
    assert!(!mods.ctrl);
    assert!(!mods.alt);
}

#[test]
fn agnostic_mods_pass_through_without_altgr() {
    let cache = LayoutCache::new();
    let keys = RealModKeys { shift: true, control: true, alt: true, right_alt: true, lwin: true, rwin: false };
    let mods = cache.get_agnostic_mods(1, keys);
    assert!(mods.shift && mods.ctrl && mods.alt && mods.logo);
}

// The RMENU index exists so a caller can synthesize states; reference it to
// mirror how the right Alt key participates in the AltGr chord.
#[test]
fn right_alt_down_alone_does_not_suppress_without_altgr_layout() {
    let mut cache = LayoutCache::new();
    let source = source_with(vec![(VK_RMENU, absent_key())]);
    cache.get_current_layout(3, &source);
    let keys = RealModKeys { control: true, alt: true, right_alt: true, ..no_keys_down() };
    let mods = cache.get_agnostic_mods(3, keys);
    assert!(mods.ctrl && mods.alt);
}

#[test]
fn later_virtual_key_wins_for_a_shared_key_code() {
    // Two virtual keys map to the same logical key code; the one processed
    // later supersedes the earlier one, as a map insert would.
    let mut pool = StringPool::new();
    let source = source_with(vec![
        (30, character_key(30, 5, "a")),
        (31, character_key(31, 5, "b")),
    ]);
    let layout = prepare_layout(&mut pool, &source);
    match layout.get_key(WindowsModifiers::empty(), 31, KeyCode::Other(5)) {
        ResolvedKey::Character(h) => assert_eq!(pool.get_str(h).as_str(), "b"),
        other => panic!("expected a character, got {:?}", other),
    }
}

#[test]
fn each_combination_reads_its_own_composition_slot() {
    let mut pool = StringPool::new();
    let mut compositions = silent_probes();
    compositions[0] = Composition { first: text_call(vec![0x61]), second: no_call() };
    compositions[1] = Composition { first: text_call(vec![0x41]), second: no_call() };
    let probe = KeyProbe {
        scancode: 30,
        key_code: KeyCode::Other(5),
        preliminary: ResolvedKey::Unidentified(30),
        compositions,
    };
    let layout = prepare_layout(&mut pool, &source_with(vec![(30, probe)]));
    let shift = WindowsModifiers { shift: true, control: false, alt: false, caps_lock: false };
    match layout.get_key(shift, 30, KeyCode::Other(5)) {
        ResolvedKey::Character(h) => assert_eq!(pool.get_str(h).as_str(), "A"),
        other => panic!("expected a character, got {:?}", other),
    }
    match layout.get_key(WindowsModifiers::empty(), 30, KeyCode::Other(5)) {
        ResolvedKey::Character(h) => assert_eq!(pool.get_str(h).as_str(), "a"),
        other => panic!("expected a character, got {:?}", other),
    }
}
