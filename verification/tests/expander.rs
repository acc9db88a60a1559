use textswitch::expander::expansion_keystrokes;
use textswitch::keys::{Key, KeyEvent};

#[test]
fn keystrokes_delete_then_paste() {
    let plan = expansion_keystrokes(2, Key::ControlLeft);
    assert_eq!(
        plan,
        vec![
            KeyEvent::Press(Key::Backspace),
            KeyEvent::Release(Key::Backspace),
            KeyEvent::Press(Key::Backspace),
            KeyEvent::Release(Key::Backspace),
            KeyEvent::Press(Key::ControlLeft),
            KeyEvent::Press(Key::KeyV),
            KeyEvent::Release(Key::KeyV),
            KeyEvent::Release(Key::ControlLeft),
        ]
    );
    assert_eq!(expansion_keystrokes(0, Key::ControlRight).len(), 4);
}
