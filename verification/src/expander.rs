//! The keystrokes that replace a just-typed trigger with its text.
use vstd::prelude::*;

use crate::keys::{Key, KeyEvent};

verus! {

/// Backspace tapped `n` times.
pub open spec fn backspaces(n: nat) -> Seq<KeyEvent>
    decreases n,
{
    if n == 0 {
        Seq::empty()
    } else {
        backspaces((n - 1) as nat).push(KeyEvent::Press(Key::Backspace)).push(
            KeyEvent::Release(Key::Backspace),
        )
    }
}

/// The paste chord: `modifier` down, V tapped, `modifier` up.
pub open spec fn paste_chord(modifier: Key) -> Seq<KeyEvent> {
    seq![
        KeyEvent::Press(modifier),
        KeyEvent::Press(Key::KeyV),
        KeyEvent::Release(Key::KeyV),
        KeyEvent::Release(modifier),
    ]
}

/// The keystrokes of an expansion: delete the trigger's `trigger_len`
/// characters with Backspace, then paste with `modifier` + V.
pub open spec fn expansion_plan(trigger_len: nat, modifier: Key) -> Seq<KeyEvent> {
    backspaces(trigger_len) + paste_chord(modifier)
}

/// The key event at position `j` of the Backspace taps.
pub open spec fn backspace_event(j: int) -> KeyEvent {
    if j % 2 == 0 {
        KeyEvent::Press(Key::Backspace)
    } else {
        KeyEvent::Release(Key::Backspace)
    }
}

proof fn lemma_backspaces_shape(n: nat)
    ensures
        backspaces(n).len() == 2 * n,
        forall|j: int| 0 <= j < 2 * n ==> #[trigger] backspaces(n)[j] == backspace_event(j),
    decreases n,
{
    if n > 0 {
        lemma_backspaces_shape((n - 1) as nat);
        let prev = backspaces((n - 1) as nat);
        assert forall|j: int| 0 <= j < 2 * n implies #[trigger] backspaces(n)[j] == backspace_event(j) by {
            if j < 2 * n - 2 {
                assert(backspaces(n)[j] == prev[j]);
            }
        }
    }
}

/// The keystrokes that replace a just-typed trigger of `trigger_len`
/// characters: Backspace tapped once per character, then `paste_modifier`
/// held while V is tapped. The text to paste is put on the clipboard first.
pub fn expansion_keystrokes(trigger_len: usize, paste_modifier: Key) -> (r: Vec<KeyEvent>)
    ensures
        r@ == expansion_plan(trigger_len as nat, paste_modifier),
        r@.len() == 2 * trigger_len + 4,
        forall|j: int| 0 <= j < 2 * trigger_len ==> #[trigger] r@[j] == backspace_event(j),
        r@.subrange(2 * trigger_len as int, r@.len() as int) == paste_chord(paste_modifier),
{
    let mut out: Vec<KeyEvent> = Vec::new();
    let mut i: usize = 0;
    while i < trigger_len
        invariant
            0 <= i <= trigger_len,
            out@ == backspaces(i as nat),
        decreases trigger_len - i,
    {
        out.push(KeyEvent::Press(Key::Backspace));
        out.push(KeyEvent::Release(Key::Backspace));
        i += 1;
    }
    out.push(KeyEvent::Press(paste_modifier));
    out.push(KeyEvent::Press(Key::KeyV));
    out.push(KeyEvent::Release(Key::KeyV));
    out.push(KeyEvent::Release(paste_modifier));
    proof {
        lemma_backspaces_shape(trigger_len as nat);
        let b = backspaces(trigger_len as nat);
        assert(out@ =~= b + paste_chord(paste_modifier));
        assert forall|j: int| 0 <= j < 2 * trigger_len implies #[trigger] out@[j] == backspace_event(j) by {
            assert(out@[j] == b[j]);
        }
        assert(out@.subrange(2 * trigger_len as int, out@.len() as int) =~= paste_chord(paste_modifier));
    }
    out
}

} // verus!
