# TextSwitch

A text expander: type a trigger word anywhere, tap the activation key (Right
Ctrl by default), and the word is replaced by its replacement text. Triggers
live in a TOML file (`[[match]]` tables with `trigger` and `replace`), edited in
a small keyword-manager window that lives in the tray.

## Layout

- `src/` — the library, verified with Verus:
  - `config.rs` — activation keys and themes (ids, labels, resolving ids read
    from the file), match entries, and their collapse into the engine's
    trigger table (whitespace-only triggers skipped, last definition wins).
  - `trigger_map.rs` — the trigger table: trigger -> replacement, each trigger
    at most once.
  - `matcher.rs` — the buffer of recently typed characters (capped) and the
    exact-equality trigger lookup.
  - `keys.rs` — keys and key events.
  - `hook.rs` — which keys are the activation key and which type trigger
    characters, and the engine's state machine from keyboard event to next
    state and action (pass on, expand, replay).
  - `expander.rs` — the keystrokes that replace a typed trigger.
  - `editor.rs` — the keyword editor's model: entries, selection, deletes,
    key capture, status line.
  - `launch.rs` — the background-launch flags.
  - `text.rs` — trimming, ASCII case folding, string building.
- `app/` — the program around it: the TOML file and its location, the global
  keyboard hook and clipboard, the single-instance guard, and the egui window.
- `tests/` — tests of the library.
