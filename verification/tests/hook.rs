use textswitch::config::ActivationKey;
use textswitch::hook::{
    activation_press_passthrough, is_activation, key_name_normalizable, modifier_alias_matches,
    normalize_key_name, paste_modifier_for_activation, trigger_char_for_key, HookState,
    ModifierState, BUFFER_CAP,
};
use textswitch::keys::{Key, KeyEvent};
use textswitch::trigger_map::TriggerMap;

#[test]
fn custom_activation_matches_captured_name() {
    assert!(is_activation(
        &ActivationKey::Custom("F10".into()),
        Key::F10
    ));
    assert!(is_activation(
        &ActivationKey::Custom("ControlRight".into()),
        Key::ControlRight
    ));
}

#[test]
fn custom_activation_tolerates_manual_name_variants() {
    assert!(is_activation(
        &ActivationKey::Custom("Control Right".into()),
        Key::ControlRight
    ));
    assert!(is_activation(
        &ActivationKey::Custom("Control".into()),
        Key::ControlLeft
    ));
    assert!(is_activation(
        &ActivationKey::Custom("Ctrl".into()),
        Key::ControlRight
    ));
    assert!(is_activation(
        &ActivationKey::Custom("key::f10".into()),
        Key::F10
    ));
    assert!(is_activation(&ActivationKey::Custom("a".into()), Key::KeyA));
    assert!(is_activation(&ActivationKey::Custom("1".into()), Key::Num1));
}

#[test]
fn non_modifier_activation_is_deferred_when_pressed_alone() {
    assert!(!activation_press_passthrough(
        Key::F10,
        ModifierState::default()
    ));
    assert!(!activation_press_passthrough(
        Key::Insert,
        ModifierState::default()
    ));
}

#[test]
fn modifier_activation_passes_through_for_shortcuts() {
    assert!(activation_press_passthrough(
        Key::ControlLeft,
        ModifierState::default()
    ));
    assert!(activation_press_passthrough(
        Key::ShiftLeft,
        ModifierState::default()
    ));
}

#[test]
fn non_modifier_activation_passes_through_when_chorded() {
    let mut modifiers = ModifierState::default();
    modifiers.set(Key::ControlLeft, true);
    assert!(activation_press_passthrough(Key::F9, modifiers));
}

#[test]
fn shifted_letters_still_record_trigger_chars() {
    let mut modifiers = ModifierState::default();
    modifiers.set(Key::ShiftLeft, true);
    assert_eq!(trigger_char_for_key(Key::KeyC, modifiers), Some('c'));
}

#[test]
fn shortcut_chords_do_not_record_trigger_chars() {
    let mut modifiers = ModifierState::default();
    modifiers.set(Key::ControlLeft, true);
    assert_eq!(trigger_char_for_key(Key::KeyC, modifiers), None);
}

#[test]
fn shifted_digits_do_not_record_as_digits() {
    let mut modifiers = ModifierState::default();
    modifiers.set(Key::ShiftLeft, true);
    assert_eq!(trigger_char_for_key(Key::Num1, modifiers), None);
}

#[test]
fn left_ctrl_activation_pastes_with_right_ctrl() {
    assert_eq!(
        paste_modifier_for_activation(&ActivationKey::Custom("ControlLeft".into())),
        Key::ControlRight
    );
    assert_eq!(
        paste_modifier_for_activation(&ActivationKey::RightCtrl),
        Key::ControlLeft
    );
}

#[test]
fn key_names_normalize() {
    assert_eq!(normalize_key_name("  Key::Control_Right "), "controlright");
    assert_eq!(normalize_key_name("KEY::F1"), "f1");
    assert_eq!(normalize_key_name("key:"), "key");
    assert_eq!(normalize_key_name("Unknown(42)"), "unknown42");
    assert_eq!(Key::Unknown(42).name(), "Unknown(42)");
    assert_eq!(Key::Unknown(0).name(), "Unknown(0)");
    assert_eq!(Key::KpMinus.name(), "KpMinus");
    assert!(is_activation(&ActivationKey::Custom("unknown 42".into()), Key::Unknown(42)));
    assert!(!is_activation(&ActivationKey::Custom("unknown 4".into()), Key::Unknown(42)));
}

#[test]
fn key_names_that_would_split_a_character_are_rejected() {
    assert!(key_name_normalizable("F10"));
    assert!(key_name_normalizable("é"));
    assert!(key_name_normalizable("abcé"));
    assert!(!key_name_normalizable("abcdé"));
    assert!(!key_name_normalizable("  abcdé  "));
    assert!(key_name_normalizable("abcdeé"));
}

#[test]
fn modifier_aliases() {
    assert!(modifier_alias_matches("win", Key::MetaLeft));
    assert!(modifier_alias_matches("windows", Key::MetaRight));
    assert!(modifier_alias_matches("alt", Key::AltGr));
    assert!(modifier_alias_matches("shift", Key::ShiftRight));
    assert!(!modifier_alias_matches("shift", Key::ControlLeft));
    assert!(!modifier_alias_matches("Ctrl", Key::ControlLeft));
}

#[test]
fn preset_activation_keys() {
    assert!(is_activation(&ActivationKey::RightCtrl, Key::ControlRight));
    assert!(!is_activation(&ActivationKey::RightCtrl, Key::ControlLeft));
    assert!(is_activation(&ActivationKey::Pause, Key::Pause));
    assert!(is_activation(&ActivationKey::F9, Key::F9));
    assert!(!is_activation(&ActivationKey::F9, Key::F10));
}

fn map_with(triggers: &[(&str, &str)]) -> TriggerMap {
    let mut map = TriggerMap::new();
    for (t, r) in triggers {
        map.insert(t.to_string(), r.to_string());
    }
    map
}

fn tap(state: &mut HookState, key: Key, act: &ActivationKey, map: &TriggerMap) {
    let d = state.handle(KeyEvent::Press(key), false, act, map);
    assert!(d.pass && d.expansion.is_none() && d.replay.is_none());
    let d = state.handle(KeyEvent::Release(key), false, act, map);
    assert!(d.pass && d.expansion.is_none() && d.replay.is_none());
}

#[test]
fn typing_a_trigger_then_tapping_right_ctrl_expands_it() {
    let map = map_with(&[("cli", "Act as a CLI engineer.")]);
    let act = ActivationKey::RightCtrl;
    let mut state = HookState::new();
    for k in [Key::KeyC, Key::KeyL, Key::KeyI] {
        tap(&mut state, k, &act, &map);
    }
    let d = state.handle(KeyEvent::Press(Key::ControlRight), false, &act, &map);
    assert!(d.pass && d.expansion.is_none());
    let d = state.handle(KeyEvent::Release(Key::ControlRight), false, &act, &map);
    assert!(d.pass);
    let e = d.expansion.expect("expansion");
    assert_eq!(e.trigger_len, 3);
    assert_eq!(e.text, "Act as a CLI engineer.");
    assert_eq!(e.paste_modifier, Key::ControlLeft);
    // the buffer is cleared: a second tap does nothing
    state.handle(KeyEvent::Press(Key::ControlRight), false, &act, &map);
    let d = state.handle(KeyEvent::Release(Key::ControlRight), false, &act, &map);
    assert!(d.expansion.is_none() && d.replay.is_none());
}

#[test]
fn unmatched_f9_tap_is_replayed() {
    let map = map_with(&[("cli", "X")]);
    let act = ActivationKey::F9;
    let mut state = HookState::new();
    tap(&mut state, Key::KeyX, &act, &map);
    let d = state.handle(KeyEvent::Press(Key::F9), false, &act, &map);
    assert!(!d.pass);
    let d = state.handle(KeyEvent::Release(Key::F9), false, &act, &map);
    assert!(!d.pass);
    assert!(d.expansion.is_none());
    assert_eq!(d.replay, Some(Key::F9));
}

#[test]
fn matched_f9_tap_is_swallowed_and_expands() {
    let map = map_with(&[("a1", "X")]);
    let act = ActivationKey::F9;
    let mut state = HookState::new();
    tap(&mut state, Key::KeyA, &act, &map);
    tap(&mut state, Key::Num1, &act, &map);
    assert!(!state.handle(KeyEvent::Press(Key::F9), false, &act, &map).pass);
    let d = state.handle(KeyEvent::Release(Key::F9), false, &act, &map);
    assert!(!d.pass);
    assert!(d.replay.is_none());
    assert_eq!(d.expansion.expect("expansion").trigger_len, 2);
}

#[test]
fn chorded_activation_does_not_expand() {
    let map = map_with(&[("cli", "X")]);
    let act = ActivationKey::RightCtrl;
    let mut state = HookState::new();
    for k in [Key::KeyC, Key::KeyL, Key::KeyI] {
        tap(&mut state, k, &act, &map);
    }
    // Right Ctrl + A (select all) must stay a shortcut
    assert!(state.handle(KeyEvent::Press(Key::ControlRight), false, &act, &map).pass);
    assert!(state.handle(KeyEvent::Press(Key::KeyA), false, &act, &map).pass);
    assert!(state.handle(KeyEvent::Release(Key::KeyA), false, &act, &map).pass);
    let d = state.handle(KeyEvent::Release(Key::ControlRight), false, &act, &map);
    assert!(d.pass && d.expansion.is_none() && d.replay.is_none());
}

#[test]
fn backspace_and_separators_edit_the_buffer() {
    let map = map_with(&[("cl", "X")]);
    let act = ActivationKey::RightCtrl;
    let mut state = HookState::new();
    for k in [Key::KeyC, Key::KeyL, Key::KeyI, Key::Backspace] {
        tap(&mut state, k, &act, &map);
    }
    state.handle(KeyEvent::Press(Key::ControlRight), false, &act, &map);
    let d = state.handle(KeyEvent::Release(Key::ControlRight), false, &act, &map);
    assert_eq!(d.expansion.expect("expansion").trigger_len, 2);

    for k in [Key::KeyC, Key::Space, Key::KeyL] {
        tap(&mut state, k, &act, &map);
    }
    state.handle(KeyEvent::Press(Key::ControlRight), false, &act, &map);
    let d = state.handle(KeyEvent::Release(Key::ControlRight), false, &act, &map);
    assert!(d.expansion.is_none());
    assert_eq!(BUFFER_CAP, 100);
}

#[test]
fn other_events_pass_through() {
    let map = map_with(&[("cli", "X")]);
    let act = ActivationKey::RightCtrl;
    let mut state = HookState::new();
    let d = state.handle(KeyEvent::Other, false, &act, &map);
    assert!(d.pass && d.expansion.is_none() && d.replay.is_none());
}

#[test]
fn modifier_activation_tap_passes_through() {
    let map = map_with(&[("zz", "X")]);
    let act = ActivationKey::RightShift;
    let mut state = HookState::new();
    let d = state.handle(KeyEvent::Press(Key::ShiftRight), false, &act, &map);
    assert!(d.pass);
    let d = state.handle(KeyEvent::Release(Key::ShiftRight), false, &act, &map);
    assert!(d.pass && d.replay.is_none() && d.expansion.is_none());
}

#[test]
fn shifted_letters_type_into_the_buffer() {
    let map = map_with(&[("ab", "X")]);
    let act = ActivationKey::F9;
    let mut state = HookState::new();
    state.handle(KeyEvent::Press(Key::ShiftLeft), false, &act, &map);
    tap(&mut state, Key::KeyA, &act, &map);
    state.handle(KeyEvent::Release(Key::ShiftLeft), false, &act, &map);
    tap(&mut state, Key::KeyB, &act, &map);
    state.handle(KeyEvent::Press(Key::F9), false, &act, &map);
    let d = state.handle(KeyEvent::Release(Key::F9), false, &act, &map);
    assert_eq!(d.expansion.expect("expansion").text, "X");
}

#[test]
fn key_names_are_the_debug_names() {
    for k in [Key::Alt, Key::F10, Key::KeyQ, Key::Num0, Key::KpDelete, Key::Function, Key::Unknown(7)] {
        assert_eq!(k.name(), format!("{:?}", k));
    }
}

#[test]
fn expander_keystrokes_pass_untouched() {
    let map = map_with(&[("cli", "X")]);
    let act = ActivationKey::RightCtrl;
    let mut state = HookState::new();
    tap(&mut state, Key::KeyC, &act, &map);
    tap(&mut state, Key::KeyL, &act, &map);
    // Keystrokes typed while an expansion is replaying leave the buffer alone.
    for ev in [
        KeyEvent::Press(Key::KeyX),
        KeyEvent::Release(Key::KeyX),
        KeyEvent::Press(Key::ControlRight),
        KeyEvent::Release(Key::ControlRight),
    ] {
        let d = state.handle(ev, true, &act, &map);
        assert!(d.pass && d.expansion.is_none() && d.replay.is_none());
    }
    tap(&mut state, Key::KeyI, &act, &map);
    state.handle(KeyEvent::Press(Key::ControlRight), false, &act, &map);
    let d = state.handle(KeyEvent::Release(Key::ControlRight), false, &act, &map);
    assert_eq!(d.expansion.expect("expansion").trigger_len, 3);
}

#[test]
fn captured_key_names_match_their_keys() {
    for k in [
        Key::Alt,
        Key::F10,
        Key::KeyQ,
        Key::Num0,
        Key::Insert,
        Key::KpDelete,
        Key::Function,
        Key::Unknown(0),
        Key::Unknown(4_294_967_295),
    ] {
        let name = k.name();
        assert!(key_name_normalizable(&name));
        assert!(is_activation(&ActivationKey::Custom(name), k));
    }
}

#[test]
fn presets_match_only_their_key() {
    let presets = [
        (ActivationKey::RightCtrl, Key::ControlRight),
        (ActivationKey::RightShift, Key::ShiftRight),
        (ActivationKey::Insert, Key::Insert),
        (ActivationKey::ScrollLock, Key::ScrollLock),
        (ActivationKey::Pause, Key::Pause),
        (ActivationKey::F9, Key::F9),
    ];
    let keys = [
        Key::ControlRight,
        Key::ControlLeft,
        Key::ShiftRight,
        Key::ShiftLeft,
        Key::Insert,
        Key::ScrollLock,
        Key::Pause,
        Key::F9,
        Key::F10,
        Key::KeyA,
    ];
    for (p, pk) in presets.iter() {
        for k in keys {
            assert_eq!(is_activation(p, k), k == *pk);
        }
    }
}
