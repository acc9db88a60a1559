use std::time::Instant;

use textswitch::config::{ActivationKey, CaptureResult, FileData, MatchEntry, Theme};
use textswitch::editor::{capture_key_from_windows, keyword_label, EditorApp, WINDOWS_CAPTURE_KEYS};

#[test]
fn windows_capture_keys_include_letters_and_tab() {
    assert!(WINDOWS_CAPTURE_KEYS.contains(&(0x41, "KeyA")));
    assert!(WINDOWS_CAPTURE_KEYS.contains(&(0x09, "Tab")));
}

#[test]
fn windows_capture_keys_include_modifier_and_toggle_keys() {
    assert!(WINDOWS_CAPTURE_KEYS.contains(&(0xA2, "ControlLeft")));
    assert!(WINDOWS_CAPTURE_KEYS.contains(&(0xA0, "ShiftLeft")));
    assert!(WINDOWS_CAPTURE_KEYS.contains(&(0x14, "CapsLock")));
}

fn entry(trigger: &str, replace: &str) -> MatchEntry {
    MatchEntry {
        trigger: trigger.to_string(),
        replace: replace.to_string(),
    }
}

fn app_with(triggers: &[&str]) -> EditorApp {
    let fd = FileData {
        activation: ActivationKey::RightCtrl,
        theme: Theme::Dark,
        entries: triggers.iter().map(|t| entry(t, "x")).collect(),
    };
    EditorApp::from_file_data(fd, Instant::now(), [false; 256])
}

#[test]
fn capture_picks_first_newly_pressed_key() {
    let mut previous = [false; 256];
    let mut current = [false; 256];
    current[0x79] = true; // F10
    current[0x41] = true; // KeyA, later in the table
    let r = capture_key_from_windows(&mut previous, current, true);
    assert_eq!(r, Some(CaptureResult::Key(ActivationKey::Custom("F10".to_string()))));
    assert_eq!(previous, current);
    // keys still held are not new
    assert_eq!(capture_key_from_windows(&mut previous, current, true), None);
}

#[test]
fn capture_escape_cancels_and_background_is_ignored() {
    let mut previous = [false; 256];
    let mut current = [false; 256];
    current[0x1B] = true;
    assert_eq!(capture_key_from_windows(&mut previous, current, false), None);
    assert_eq!(previous, current);
    let mut previous = [false; 256];
    assert_eq!(
        capture_key_from_windows(&mut previous, current, true),
        Some(CaptureResult::Cancelled)
    );
}

#[test]
fn new_editor_from_file() {
    let app = app_with(&["a", "b"]);
    assert!(app.is_well_formed());
    assert_eq!(app.entry_ids, vec![0, 1]);
    assert_eq!(app.next_entry_id, 2);
    assert_eq!(app.selected, None);
    assert!(app.sidebar_open);
    assert_eq!(app.status_text(), "No selection");
}

#[test]
fn add_then_delete_keywords() {
    let mut app = app_with(&["a", "b", "c"]);
    app.add_keyword();
    assert_eq!(app.entries.len(), 4);
    assert_eq!(app.selected, Some(3));
    assert_eq!(app.entry_ids, vec![0, 1, 2, 3]);
    assert_eq!(app.status, "Unsaved");
    assert_eq!(keyword_label(&app.entries[3]), "Untitled");

    app.selected = Some(2);
    app.delete_keyword(0);
    assert_eq!(app.selected, Some(1));
    assert_eq!(app.entry_ids, vec![1, 2, 3]);
    assert_eq!(app.deleting_rows.len(), 1);
    assert_eq!(app.deleting_rows[0].label, "a");
    assert!(!app.deleting_rows[0].selected);

    app.delete_keyword(1); // the selected one: selection stays at position 1
    assert_eq!(app.selected, Some(1));
    assert_eq!(app.entry_ids, vec![1, 3]);
    let rows: Vec<(usize, String, bool)> = app
        .deleting_rows
        .iter()
        .map(|r| (r.index, r.label.clone(), r.selected))
        .collect();
    assert_eq!(rows, vec![(0, "a".to_string(), false), (1, "c".to_string(), true)]);

    app.delete_keyword(1); // last one selected: selection moves up
    assert_eq!(app.selected, Some(0));
    app.delete_keyword(5); // past the end: nothing happens
    assert_eq!(app.entries.len(), 1);
    app.delete_keyword(0);
    assert_eq!(app.selected, None);
    assert!(app.entries.is_empty());
    assert!(app.is_well_formed());
    let indexes: Vec<usize> = app.deleting_rows.iter().map(|r| r.index).collect();
    assert_eq!(indexes, vec![0, 0, 0, 0]);
}

#[test]
fn delete_keeps_fading_rows_ordered() {
    let mut app = app_with(&["a", "b", "c", "d"]);
    app.delete_keyword(3);
    app.delete_keyword(0);
    // row "d" was at 3 and moves up to 2; the new row for "a" goes first
    let rows: Vec<(usize, String)> = app.deleting_rows.iter().map(|r| (r.index, r.label.clone())).collect();
    assert_eq!(rows, vec![(0, "a".to_string()), (2, "d".to_string())]);
    app.delete_keyword(0);
    let rows: Vec<(usize, String)> = app.deleting_rows.iter().map(|r| (r.index, r.label.clone())).collect();
    assert_eq!(rows, vec![(0, "a".to_string()), (0, "b".to_string()), (1, "d".to_string())]);
}

#[test]
fn sanitize_trigger_keeps_lowercase_letters_and_digits() {
    let mut app = app_with(&["Hello World-42!", "ok"]);
    app.sanitize_trigger(0);
    assert_eq!(app.entries[0].trigger, "helloworld42");
    assert_eq!(app.entries[0].replace, "x");
    app.sanitize_trigger(1);
    assert_eq!(app.entries[1].trigger, "ok");
}

#[test]
fn activation_changes_and_capture() {
    let mut app = app_with(&["a"]);
    assert!(!app.apply_activation(ActivationKey::RightCtrl, true));
    assert_eq!(app.status, "");
    assert!(app.apply_activation(ActivationKey::F9, true));
    assert_eq!(app.activation, ActivationKey::F9);
    assert_eq!(app.status, "Unsaved");

    let mut app = app_with(&["a"]);
    app.arm_capture([true; 256]);
    assert!(app.capturing);
    assert_eq!(app.capture_prev_keys, [true; 256]);
    assert!(app.take_capture(CaptureResult::Key(ActivationKey::Custom("F10".into()))));
    assert_eq!(app.captured, Some(ActivationKey::Custom("F10".into())));
    assert_eq!(app.status, "");
    app.close_capture();
    assert!(!app.capturing);
    assert_eq!(app.status, "Unsaved");

    app.arm_capture([false; 256]);
    assert!(!app.take_capture(CaptureResult::Cancelled));
    assert!(!app.capturing);
    assert_eq!(app.status, "Capture cancelled.");
    assert_eq!(app.activation, ActivationKey::Custom("F10".into()));
}

#[test]
fn shared_config_and_status_text() {
    let mut app = app_with(&["a", " a ", ""]);
    app.theme = Theme::Light;
    let cfg = app.shared_config();
    assert_eq!(cfg.map.len(), 1);
    assert_eq!(cfg.theme, Theme::Light);
    app.selected = Some(0);
    assert_eq!(app.status_text(), "Saved");
    app.status = "Unsaved".to_string();
    assert_eq!(app.status_text(), "Unsaved");
}

#[test]
fn save_status() {
    let mut app = app_with(&["a"]);
    app.save_finished(Ok(()));
    assert_eq!(app.status, "Saved");
    app.save_finished(Err("disk full".to_string()));
    assert_eq!(app.status, "Save failed: disk full");
}

#[test]
fn sanitizing_twice_changes_nothing_more() {
    let mut app = app_with(&["A-b_C 9é"]);
    app.sanitize_trigger(0);
    let once = app.entries[0].trigger.clone();
    assert_eq!(once, "abc9");
    app.sanitize_trigger(0);
    assert_eq!(app.entries[0].trigger, once);
}

#[test]
fn select_and_retain_fading_rows() {
    let mut app = app_with(&["a", "b", "c", "d"]);
    app.select(2);
    assert_eq!(app.selected, Some(2));
    app.delete_keyword(0);
    app.delete_keyword(2);
    app.delete_keyword(0);
    let positions: Vec<usize> = app.deleting_rows.iter().map(|r| r.index).collect();
    assert_eq!(positions, vec![0, 0, 1]);
    assert!(app.is_well_formed());
    // drop the middle row, which finished fading
    app.retain_rows(&vec![true, false, true]);
    let labels: Vec<&str> = app.deleting_rows.iter().map(|r| r.label.as_str()).collect();
    assert_eq!(labels, vec!["a", "d"]);
    assert!(app.is_well_formed());
    app.retain_rows(&vec![false, false]);
    assert!(app.deleting_rows.is_empty());
}

#[test]
fn fading_rows_past_the_list_are_ill_formed() {
    let mut app = app_with(&["a", "b"]);
    app.delete_keyword(1);
    assert_eq!(app.deleting_rows[0].index, 1);
    assert!(app.is_well_formed());
    app.deleting_rows[0].index = 2;
    assert!(!app.is_well_formed());
}

#[test]
fn capture_results_clone() {
    let r = CaptureResult::Key(ActivationKey::Custom("F10".to_string()));
    assert_eq!(r.clone(), r);
    assert_eq!(CaptureResult::Cancelled.clone(), CaptureResult::Cancelled);
}
