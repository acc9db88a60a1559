//! TextSwitch: a text expander. Type a trigger word anywhere, tap the
//! activation key, and the word is replaced by its text. This library holds
//! the verified logic: the triggers file's settings and entries, the typed
//! character buffer and its exact-match lookup, the keyboard engine's state
//! machine, the keystrokes of an expansion, and the keyword editor's model.
pub mod text;
pub mod trigger_map;
pub mod config;
pub mod matcher;
pub mod keys;
pub mod hook;
pub mod expander;
pub mod editor;
pub mod launch;
