use textswitch::config::{
    entries_to_config, ActivationKey, Config, FileData, MatchEntry, RawConfig, Theme,
};

fn entry(trigger: &str, replace: &str) -> MatchEntry {
    MatchEntry {
        trigger: trigger.to_string(),
        replace: replace.to_string(),
    }
}

#[test]
fn custom_id_is_namespaced_and_parses_back() {
    let custom = ActivationKey::Custom("ControlRight".to_string());
    assert_eq!(custom.id(), "custom:ControlRight");
    assert_eq!(
        ActivationKey::from_id("custom:ControlRight"),
        ActivationKey::Custom("ControlRight".to_string())
    );
}

#[test]
fn custom_label_splits_camel_case() {
    assert_eq!(
        ActivationKey::Custom("ScrollLock".into()).label(),
        "Scroll Lock"
    );
    assert_eq!(ActivationKey::Custom("F10".into()).label(), "F10");
    assert_eq!(
        ActivationKey::Custom("ControlRight".into()).label(),
        "Control Right"
    );
}

#[test]
fn entries_to_config_collapses_to_map() {
    let entries = vec![
        entry("a", "first"),
        entry("a", "second"),
        entry("  ", "skip"),
    ];
    let cfg = entries_to_config(&entries);
    assert_eq!(cfg.map.len(), 1);
    assert_eq!(cfg.map.get("a"), Some(&"second".to_string()));
}

#[test]
fn unknown_activation_id_defaults_to_right_ctrl() {
    assert_eq!(ActivationKey::from_id("bogus"), ActivationKey::RightCtrl);
    assert_eq!(ActivationKey::from_id(""), ActivationKey::RightCtrl);
    assert_eq!(ActivationKey::from_id("custom"), ActivationKey::RightCtrl);
    assert_eq!(ActivationKey::default(), ActivationKey::RightCtrl);
}

#[test]
fn preset_ids_and_labels() {
    let expected = [
        (ActivationKey::RightCtrl, "right_ctrl", "Right Ctrl"),
        (ActivationKey::RightShift, "right_shift", "Right Shift"),
        (ActivationKey::Insert, "insert", "Insert"),
        (ActivationKey::ScrollLock, "scroll_lock", "Scroll Lock"),
        (ActivationKey::Pause, "pause", "Pause / Break"),
        (ActivationKey::F9, "f9", "F9"),
    ];
    for (key, id, label) in expected.iter() {
        assert_eq!(key.id(), *id);
        assert_eq!(key.label(), *label);
        // law: an id written to the file resolves back to its key
        assert_eq!(ActivationKey::from_id(id), *key);
    }
    assert_eq!(ActivationKey::presets(), expected.iter().map(|e| e.0.clone()).collect::<Vec<_>>());
}

#[test]
fn custom_key_round_trips_through_its_id() {
    for name in ["F10", "", "custom:x", "Key::F1", "right_ctrl"] {
        let key = ActivationKey::Custom(name.to_string());
        assert_eq!(ActivationKey::from_id(&key.id()), key);
    }
}

#[test]
fn empty_custom_name_has_empty_label() {
    assert_eq!(ActivationKey::Custom(String::new()).label(), "");
    assert_eq!(ActivationKey::Custom("Ab".into()).label(), "Ab");
    assert_eq!(ActivationKey::Custom("aBC".into()).label(), "a B C");
}

#[test]
fn theme_ids_labels_and_toggle() {
    assert_eq!(Theme::Dark.id(), "dark");
    assert_eq!(Theme::Light.id(), "light");
    assert_eq!(Theme::Dark.label(), "Dark");
    assert_eq!(Theme::Light.label(), "Light");
    assert_eq!(Theme::Dark.toggled(), Theme::Light);
    assert_eq!(Theme::Light.toggled(), Theme::Dark);
    assert_eq!(Theme::from_id("light"), Theme::Light);
    assert_eq!(Theme::from_id("dark"), Theme::Dark);
    assert_eq!(Theme::from_id("Light"), Theme::Dark);
    assert_eq!(Theme::default(), Theme::Dark);
    for t in [Theme::Dark, Theme::Light] {
        assert_eq!(Theme::from_id(t.id()), t);
        assert_eq!(t.toggled().toggled(), t);
    }
}

#[test]
fn triggers_are_trimmed_of_unicode_white_space() {
    let entries = vec![
        entry(" cli\t", "a"),
        entry("\u{3000}x\u{00A0}", "b"),
        entry("\n\u{2029}", "skipped"),
    ];
    let cfg = entries_to_config(&entries);
    assert_eq!(cfg.map.len(), 2);
    assert_eq!(cfg.map.get("cli"), Some(&"a".to_string()));
    assert_eq!(cfg.map.get("x"), Some(&"b".to_string()));
    assert_eq!(cfg.activation, ActivationKey::RightCtrl);
    assert_eq!(cfg.theme, Theme::Dark);
}

#[test]
fn trimmed_duplicates_collapse_last_wins() {
    let entries = vec![entry("x", "first"), entry(" x ", "second"), entry("y", "third")];
    let cfg = entries_to_config(&entries);
    assert_eq!(cfg.map.len(), 2);
    assert_eq!(cfg.map.get("x"), Some(&"second".to_string()));
}

#[test]
fn empty_entries_give_empty_config() {
    let cfg = entries_to_config(&[]);
    assert!(cfg.map.is_empty());
    let d = Config::default();
    assert!(d.map.is_empty());
    assert_eq!(d.activation, ActivationKey::RightCtrl);
}

#[test]
fn raw_settings_resolve_with_defaults() {
    let fd = FileData::from_raw(RawConfig {
        activation: None,
        theme: None,
        matches: vec![entry("cli", "x")],
    });
    assert_eq!(fd.activation, ActivationKey::RightCtrl);
    assert_eq!(fd.theme, Theme::Dark);
    assert_eq!(fd.entries, vec![entry("cli", "x")]);

    let fd = FileData::from_raw(RawConfig {
        activation: Some("custom:F10".to_string()),
        theme: Some("light".to_string()),
        matches: vec![],
    });
    assert_eq!(fd.activation, ActivationKey::Custom("F10".to_string()));
    assert_eq!(fd.theme, Theme::Light);
}

#[test]
fn settings_round_trip_through_raw_file_data() {
    let entries = vec![entry("cli", "single line"), entry("fixbug", "line one\nline two")];
    for key in [ActivationKey::F9, ActivationKey::Custom("F10".into())] {
        let raw = RawConfig::from_settings(&key, Theme::Light, &entries);
        assert_eq!(raw.activation.as_deref(), Some(key.id().as_str()));
        assert_eq!(raw.theme.as_deref(), Some("light"));
        let fd = FileData::from_raw(raw);
        assert_eq!(fd.activation, key);
        assert_eq!(fd.theme, Theme::Light);
        assert_eq!(fd.entries, entries);
    }
}

#[test]
fn config_from_file_data_keeps_settings() {
    let fd = FileData {
        activation: ActivationKey::Insert,
        theme: Theme::Light,
        entries: vec![entry("a", "1"), entry("", "2")],
    };
    let cfg = Config::from_file_data(fd);
    assert_eq!(cfg.activation, ActivationKey::Insert);
    assert_eq!(cfg.theme, Theme::Light);
    assert_eq!(cfg.map.len(), 1);
    assert_eq!(cfg.map.get("a"), Some(&"1".to_string()));
}

#[test]
fn configs_clone_and_compare() {
    let cfg = entries_to_config(&[entry("a", "1"), entry("b", "2")]);
    let copy = cfg.clone();
    assert_eq!(copy, cfg);
    let mut other = cfg.clone();
    other.theme = other.theme.toggled();
    assert_ne!(other, cfg);
    let mut other = cfg.clone();
    other.activation = ActivationKey::Custom("F10".to_string());
    assert_ne!(other, cfg);
    let reordered = entries_to_config(&[entry("b", "2"), entry("a", "1")]);
    assert_eq!(reordered, cfg);
    assert_eq!(Config::default(), Config::default());
}
