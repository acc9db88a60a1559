//! The keyword editor's model: the ordered entries being edited, the
//! selection, the activation-key capture, and the bookkeeping of rows that
//! are fading out after a delete.
use vstd::prelude::*;

use crate::config::{
    collapse, entries_to_config, ActivationChoice, ActivationKey, CaptureResult, Config,
    FileData, MatchEntry, Theme,
};
use crate::text::{ascii_alnum, chars_of, lower_alnum, push_char, str_eq, to_ascii_lower};

verus! {

/// Virtual-key codes of the keys the editor can capture, with their key names.
pub const WINDOWS_CAPTURE_KEYS: [(usize, &'static str); 103] = [
    (0x08, "Backspace"),
    (0x09, "Tab"),
    (0x0D, "Return"),
    (0x13, "Pause"),
    (0x14, "CapsLock"),
    (0x1B, "Escape"),
    (0x20, "Space"),
    (0x21, "PageUp"),
    (0x22, "PageDown"),
    (0x23, "End"),
    (0x24, "Home"),
    (0x25, "LeftArrow"),
    (0x26, "UpArrow"),
    (0x27, "RightArrow"),
    (0x28, "DownArrow"),
    (0x2C, "PrintScreen"),
    (0x2D, "Insert"),
    (0x2E, "Delete"),
    (0x5B, "MetaLeft"),
    (0x5C, "MetaRight"),
    (0x60, "Kp0"),
    (0x61, "Kp1"),
    (0x62, "Kp2"),
    (0x63, "Kp3"),
    (0x64, "Kp4"),
    (0x65, "Kp5"),
    (0x66, "Kp6"),
    (0x67, "Kp7"),
    (0x68, "Kp8"),
    (0x69, "Kp9"),
    (0x6A, "KpMultiply"),
    (0x6B, "KpPlus"),
    (0x6D, "KpMinus"),
    (0x6E, "KpDelete"),
    (0x6F, "KpDivide"),
    (0x70, "F1"),
    (0x71, "F2"),
    (0x72, "F3"),
    (0x73, "F4"),
    (0x74, "F5"),
    (0x75, "F6"),
    (0x76, "F7"),
    (0x77, "F8"),
    (0x78, "F9"),
    (0x79, "F10"),
    (0x7A, "F11"),
    (0x7B, "F12"),
    (0x90, "NumLock"),
    (0x91, "ScrollLock"),
    (0xA0, "ShiftLeft"),
    (0xA1, "ShiftRight"),
    (0xA2, "ControlLeft"),
    (0xA3, "ControlRight"),
    (0xA4, "Alt"),
    (0xA5, "AltGr"),
    (0xBA, "SemiColon"),
    (0xBB, "Equal"),
    (0xBC, "Comma"),
    (0xBD, "Minus"),
    (0xBE, "Dot"),
    (0xBF, "Slash"),
    (0xC0, "BackQuote"),
    (0xDB, "LeftBracket"),
    (0xDC, "BackSlash"),
    (0xDD, "RightBracket"),
    (0xDE, "Quote"),
    (0xE2, "IntlBackslash"),
    (0x30, "Num0"),
    (0x31, "Num1"),
    (0x32, "Num2"),
    (0x33, "Num3"),
    (0x34, "Num4"),
    (0x35, "Num5"),
    (0x36, "Num6"),
    (0x37, "Num7"),
    (0x38, "Num8"),
    (0x39, "Num9"),
    (0x41, "KeyA"),
    (0x42, "KeyB"),
    (0x43, "KeyC"),
    (0x44, "KeyD"),
    (0x45, "KeyE"),
    (0x46, "KeyF"),
    (0x47, "KeyG"),
    (0x48, "KeyH"),
    (0x49, "KeyI"),
    (0x4A, "KeyJ"),
    (0x4B, "KeyK"),
    (0x4C, "KeyL"),
    (0x4D, "KeyM"),
    (0x4E, "KeyN"),
    (0x4F, "KeyO"),
    (0x50, "KeyP"),
    (0x51, "KeyQ"),
    (0x52, "KeyR"),
    (0x53, "KeyS"),
    (0x54, "KeyT"),
    (0x55, "KeyU"),
    (0x56, "KeyV"),
    (0x57, "KeyW"),
    (0x58, "KeyX"),
    (0x59, "KeyY"),
    (0x5A, "KeyZ"),
];

/// The number of keys in [`WINDOWS_CAPTURE_KEYS`].
pub open spec fn capture_key_count() -> int {
    103
}

/// Every capturable key has a virtual-key code below 256, so it indexes the
/// key-state snapshots.
pub proof fn lemma_capture_codes_fit_key_state()
    ensures
        WINDOWS_CAPTURE_KEYS@.len() == capture_key_count(),
        forall|i: int| 0 <= i < capture_key_count() ==> #[trigger] WINDOWS_CAPTURE_KEYS@[i].0 < 256,
{
}

#[verifier::external_type_specification]
#[verifier::external_body]
pub struct ExInstant(std::time::Instant);

/// Wrapper of `Instant::now`; nothing is known of the time it reads.
#[verifier::external_body]
fn instant_now() -> std::time::Instant {
    std::time::Instant::now()
}

/// Whether virtual key `vk` went down between the two key-state snapshots.
pub open spec fn newly_pressed(previous: Seq<bool>, current: Seq<bool>, vk: usize) -> bool {
    vk < 256 && current[vk as int] && !previous[vk as int]
}

/// Whether `c` is what capturing the key named `name` gives: Escape cancels,
/// any other key is bound as a custom activation key of that name.
pub open spec fn captures(c: CaptureResult, name: Seq<char>) -> bool {
    if name == "Escape"@ {
        c is Cancelled
    } else {
        c matches CaptureResult::Key(k) && k@ == ActivationChoice::Custom(name)
    }
}

/// One poll of the "press any key" capture, from the previous and current
/// key-state snapshots: while the editor window is not in the foreground
/// nothing is captured; otherwise the first key of
/// [`WINDOWS_CAPTURE_KEYS`] that went down is captured. The current snapshot
/// becomes the previous one.
pub fn capture_key_from_windows(
    previous: &mut [bool; 256],
    current: [bool; 256],
    foreground_is_ours: bool,
) -> (r: Option<CaptureResult>)
    ensures
        final(previous)@ == current@,
        !foreground_is_ours ==> r is None,
        foreground_is_ours ==> match r {
            None => forall|i: int|
                0 <= i < capture_key_count() ==> !newly_pressed(
                    old(previous)@,
                    current@,
                    #[trigger] WINDOWS_CAPTURE_KEYS@[i].0,
                ),
            Some(c) => exists|i: int|
                0 <= i < capture_key_count() && newly_pressed(
                    old(previous)@,
                    current@,
                    #[trigger] WINDOWS_CAPTURE_KEYS@[i].0,
                ) && (forall|j: int|
                    0 <= j < i ==> !newly_pressed(
                        old(previous)@,
                        current@,
                        #[trigger] WINDOWS_CAPTURE_KEYS@[j].0,
                    )) && captures(c, WINDOWS_CAPTURE_KEYS@[i].1@),
        },
{
    if !foreground_is_ours {
        *previous = current;
        return None;
    }
    let ghost prev = previous@;
    let mut i: usize = 0;
    while i < 103
        invariant
            0 <= i <= 103,
            foreground_is_ours,
            previous@ == prev,
            prev == old(previous)@,
            WINDOWS_CAPTURE_KEYS@.len() == 103,
            forall|j: int|
                0 <= j < i ==> !newly_pressed(prev, current@, #[trigger] WINDOWS_CAPTURE_KEYS@[j].0),
        decreases 103 - i,
    {
        let (vk, name) = WINDOWS_CAPTURE_KEYS[i];
        assert(WINDOWS_CAPTURE_KEYS@[i as int] == (vk, name));
        assert(vk < 256);
        if current[vk] && !previous[vk] {
            let result = if str_eq(name, "Escape") {
                CaptureResult::Cancelled
            } else {
                CaptureResult::Key(ActivationKey::Custom(String::from_str(name)))
            };
            assert(newly_pressed(prev, current@, WINDOWS_CAPTURE_KEYS@[i as int].0));
            *previous = current;
            return Some(result);
        }
        i += 1;
    }
    *previous = current;
    None
}

/// A keyword row that is fading out after a delete.
pub struct DeletingKeywordRow {
    /// Position in the list where the row was.
    pub index: usize,
    pub label: String,
    pub selected: bool,
    pub started: std::time::Instant,
}

/// Whether the rows are ordered by position.
pub open spec fn rows_sorted(rows: Seq<DeletingKeywordRow>) -> bool {
    forall|a: int, b: int| 0 <= a < b < rows.len() ==> rows[a].index <= rows[b].index
}

/// Whether every row's position is at most `len`.
pub open spec fn rows_within(rows: Seq<DeletingKeywordRow>, len: nat) -> bool {
    forall|j: int| 0 <= j < rows.len() ==> #[trigger] rows[j].index <= len
}

/// The rows whose flag in `keep` is set, in their order.
pub open spec fn rows_kept(rows: Seq<DeletingKeywordRow>, keep: Seq<bool>) -> Seq<
    DeletingKeywordRow,
>
    decreases rows.len(),
{
    if rows.len() == 0 || keep.len() == 0 {
        Seq::empty()
    } else {
        let front = rows_kept(rows.drop_last(), keep.drop_last());
        if keep.last() {
            front.push(rows.last())
        } else {
            front
        }
    }
}

/// A fading row after row `i` was deleted: rows below it move up one place.
pub open spec fn shifted_row(r: DeletingKeywordRow, i: usize) -> DeletingKeywordRow {
    DeletingKeywordRow { index: if r.index > i { (r.index - 1) as usize } else { r.index }, ..r }
}

/// The fading rows after row `i` (labelled `label`, selected or not) was
/// deleted: the earlier rows shifted (see [`shifted_row`]), with the row of
/// `i` placed after those now at or above `i` and before those below it.
pub open spec fn rows_after_delete(
    before: Seq<DeletingKeywordRow>,
    after: Seq<DeletingKeywordRow>,
    i: usize,
    label: Seq<char>,
    selected: bool,
) -> bool {
    &&& after.len() == before.len() + 1
    &&& exists|p: int|
        0 <= p <= before.len() && (forall|j: int|
            0 <= j < p ==> #[trigger] after[j] == shifted_row(before[j], i) && after[j].index <= i)
            && after[p].index == i && after[p].label@ == label && after[p].selected == selected && (
        forall|j: int|
            p < j <= before.len() ==> #[trigger] after[j] == shifted_row(before[j - 1], i)
                && after[j].index > i)
}

/// The label of a keyword row: its trigger, or "Untitled" when empty.
pub open spec fn row_label(trigger: Seq<char>) -> Seq<char> {
    if trigger.len() == 0 {
        "Untitled"@
    } else {
        trigger
    }
}

/// The label of a keyword row: its trigger, or "Untitled" when empty.
pub fn keyword_label(entry: &MatchEntry) -> (r: String)
    ensures
        r@ == row_label(entry.trigger@),
{
    if entry.trigger.as_str().is_empty() {
        String::from_str("Untitled")
    } else {
        entry.trigger.clone()
    }
}

/// The selection after deleting row `i`, leaving `len` rows: a deleted
/// selection moves to the row now at `i` (or the last row, or none when the
/// list is empty); a selection below moves up one place.
pub open spec fn selection_after_delete(selected: Option<usize>, i: usize, len: nat) -> Option<
    usize,
> {
    match selected {
        Some(s) => if s == i {
            if len == 0 {
                None
            } else if i < len {
                Some(i)
            } else {
                Some((len - 1) as usize)
            }
        } else if s > i {
            Some((s - 1) as usize)
        } else {
            Some(s)
        },
        None => None,
    }
}

/// Deleting a row other than the selected one keeps the same entry
/// selected, at its new place; deleting the selected row selects a row
/// that is still there, if any is left.
pub proof fn lemma_delete_keeps_selected_entry<A>(entries: Seq<A>, s: usize, i: usize)
    requires
        s < entries.len(),
        i < entries.len(),
    ensures
        ({
            let after = selection_after_delete(Some(s), i, (entries.len() - 1) as nat);
            &&& s != i ==> (after matches Some(t) && t < entries.len() - 1 && entries.remove(
                i as int,
            )[t as int] == entries[s as int])
            &&& s == i ==> (after is None <==> entries.len() == 1)
            &&& after matches Some(t) ==> t < entries.len() - 1
        }),
{
}

/// The in-app keyword manager's model: the editable list of entries with the
/// birth time and stable id of each row, the selection, the settings, the
/// key-capture state and the status line.
pub struct EditorApp {
    pub entries: Vec<MatchEntry>,
    pub entry_births: Vec<std::time::Instant>,
    pub entry_ids: Vec<u64>,
    pub next_entry_id: u64,
    pub deleting_rows: Vec<DeletingKeywordRow>,
    pub activation: ActivationKey,
    pub activation_anim_started: std::time::Instant,
    pub theme: Theme,
    pub selected: Option<usize>,
    pub sidebar_open: bool,
    /// Whether the key-capture popup is open.
    pub capturing: bool,
    /// The key captured so far, once one was pressed.
    pub captured: Option<ActivationKey>,
    pub capture_prev_keys: [bool; 256],
    pub status: String,
}

impl EditorApp {
    /// The row lists run in step, row ids are increasing and below the next
    /// id (so no two rows share one), the selection is a row, and the fading
    /// rows are ordered by position, each at most the number of rows.
    pub open spec fn wf(&self) -> bool {
        &&& self.entry_births@.len() == self.entries@.len()
        &&& self.entry_ids@.len() == self.entries@.len()
        &&& (forall|a: int, b: int|
            0 <= a < b < self.entry_ids@.len() ==> self.entry_ids@[a] < self.entry_ids@[b])
        &&& (forall|j: int| 0 <= j < self.entry_ids@.len() ==> self.entry_ids@[j] < self.next_entry_id)
        &&& (self.selected matches Some(s) ==> s < self.entries@.len())
        &&& rows_sorted(self.deleting_rows@)
        &&& rows_within(self.deleting_rows@, self.entries@.len())
    }

    /// Whether [`EditorApp::wf`] holds.
    pub fn is_well_formed(&self) -> (r: bool)
        ensures
            r == self.wf(),
    {
        if self.entry_births.len() != self.entries.len() || self.entry_ids.len()
            != self.entries.len() {
            return false;
        }
        if let Some(s) = self.selected {
            if s >= self.entries.len() {
                return false;
            }
        }
        let ids = &self.entry_ids;
        let mut j: usize = 0;
        while j < ids.len()
            invariant
                ids@ == self.entry_ids@,
                0 <= j <= ids@.len(),
                forall|a: int, b: int| 0 <= a < b < j ==> ids@[a] < ids@[b],
                forall|a: int| 0 <= a < j ==> ids@[a] < self.next_entry_id,
            decreases ids@.len() - j,
        {
            if ids[j] >= self.next_entry_id {
                return false;
            }
            if j > 0 && ids[j - 1] >= ids[j] {
                assert(!(forall|a: int, b: int|
                    0 <= a < b < ids@.len() ==> ids@[a] < ids@[b])) by {
                    assert(ids@[j - 1] >= ids@[j as int]);
                }
                return false;
            }
            proof {
                assert forall|a: int, b: int| 0 <= a < b < j + 1 implies ids@[a] < ids@[b] by {
                    if b == j && a < j - 1 {
                        assert(ids@[a] < ids@[j - 1]);
                    }
                }
            }
            j += 1;
        }
        let rows = &self.deleting_rows;
        let mut k: usize = 1;
        while k < rows.len()
            invariant
                rows@ == self.deleting_rows@,
                1 <= k <= rows@.len() || rows@.len() == 0,
                forall|a: int, b: int| 0 <= a < b < k && b < rows@.len() ==> rows@[a].index <= rows@[b].index,
            decreases rows@.len() - k,
        {
            if rows[k - 1].index > rows[k].index {
                assert(!rows_sorted(rows@)) by {
                    let a = (k - 1) as int;
                    let b = k as int;
                    assert(0 <= a < b < rows@.len() && rows@[a].index > rows@[b].index);
                }
                return false;
            }
            proof {
                assert forall|a: int, b: int| 0 <= a < b < k + 1 && b < rows@.len() implies rows@[a].index
                    <= rows@[b].index by {
                    if b == k && a < k - 1 {
                        assert(rows@[a].index <= rows@[k - 1].index);
                    }
                }
            }
            k += 1;
        }
        let len = self.entries.len();
        let mut m: usize = 0;
        while m < rows.len()
            invariant
                rows@ == self.deleting_rows@,
                len == self.entries@.len(),
                0 <= m <= rows@.len(),
                forall|j: int| 0 <= j < m ==> #[trigger] rows@[j].index <= len,
            decreases rows@.len() - m,
        {
            if rows[m].index > len {
                assert(!rows_within(rows@, len as nat)) by {
                    assert(rows@[m as int].index > len);
                }
                return false;
            }
            m += 1;
        }
        true
    }

    /// The editor for a loaded triggers file: its settings and entries, every
    /// row settled (born at `settled`), ids 0, 1, ... in order, nothing
    /// selected, the sidebar open, no capture, empty status.
    pub fn from_file_data(
        fd: FileData,
        settled: std::time::Instant,
        capture_keys: [bool; 256],
    ) -> (r: EditorApp)
        ensures
            r.wf(),
            r.entries == fd.entries,
            forall|j: int| 0 <= j < r.entries@.len() ==> r.entry_births@[j] == settled,
            forall|j: int| 0 <= j < r.entries@.len() ==> r.entry_ids@[j] == j,
            r.next_entry_id == fd.entries@.len(),
            r.deleting_rows@.len() == 0,
            r.activation == fd.activation,
            r.activation_anim_started == settled,
            r.theme == fd.theme,
            r.selected is None,
            r.sidebar_open,
            !r.capturing,
            r.captured is None,
            r.capture_prev_keys == capture_keys,
            r.status@.len() == 0,
    {
        let n = fd.entries.len();
        let mut births: Vec<std::time::Instant> = Vec::new();
        let mut ids: Vec<u64> = Vec::new();
        let mut j: usize = 0;
        while j < n
            invariant
                0 <= j <= n,
                births@.len() == j,
                ids@.len() == j,
                forall|k: int| 0 <= k < j ==> births@[k] == settled,
                forall|k: int| 0 <= k < j ==> ids@[k] == k,
            decreases n - j,
        {
            births.push(settled);
            ids.push(j as u64);
            j += 1;
        }
        EditorApp {
            entries: fd.entries,
            entry_births: births,
            entry_ids: ids,
            next_entry_id: n as u64,
            deleting_rows: Vec::new(),
            activation: fd.activation,
            activation_anim_started: settled,
            theme: fd.theme,
            selected: None,
            sidebar_open: true,
            capturing: false,
            captured: None,
            capture_prev_keys: capture_keys,
            status: String::new(),
        }
    }

    /// The live engine configuration for the entries and settings being
    /// edited.
    pub fn shared_config(&self) -> (r: Config)
        ensures
            r.map@ == collapse(self.entries@),
            r.activation == self.activation,
            r.theme == self.theme,
    {
        let mut cfg = entries_to_config(self.entries.as_slice());
        cfg.activation = self.activation.clone();
        cfg.theme = self.theme;
        cfg
    }

    /// Switch to activation key `key`, restarting its label animation, and
    /// mark the file unsaved when asked. Nothing happens when `key` is the
    /// current key. Returns whether the key changed.
    pub fn apply_activation(&mut self, key: ActivationKey, mark_unsaved: bool) -> (changed: bool)
        ensures
            old(self).wf() ==> final(self).wf(),
            changed == (old(self).activation@ != key@),
            changed ==> final(self).activation == key,
            !changed ==> final(self).activation == old(self).activation,
            final(self).status@ == (if changed && mark_unsaved {
                "Unsaved"@
            } else {
                old(self).status@
            }),
            !changed ==> final(self).activation_anim_started == old(self).activation_anim_started,
            final(self).entries == old(self).entries,
            final(self).entry_births == old(self).entry_births,
            final(self).entry_ids == old(self).entry_ids,
            final(self).next_entry_id == old(self).next_entry_id,
            final(self).deleting_rows == old(self).deleting_rows,
            final(self).theme == old(self).theme,
            final(self).selected == old(self).selected,
            final(self).sidebar_open == old(self).sidebar_open,
            final(self).capturing == old(self).capturing,
            final(self).captured == old(self).captured,
            final(self).capture_prev_keys == old(self).capture_prev_keys,
    {
        if self.activation.same_as(&key) {
            return false;
        }
        self.activation = key;
        self.activation_anim_started = instant_now();
        if mark_unsaved {
            self.status = String::from_str("Unsaved");
        }
        true
    }

    /// Append an empty keyword, born now with the next id, and select it.
    pub fn add_keyword(&mut self)
        requires
            old(self).wf(),
            old(self).next_entry_id < u64::MAX,
        ensures
            final(self).wf(),
            final(self).entries@ == old(self).entries@.push(
                MatchEntry { trigger: final(self).entries@.last().trigger, replace: final(self).entries@.last().replace },
            ),
            final(self).entries@.last().trigger@.len() == 0,
            final(self).entries@.last().replace@.len() == 0,
            final(self).entry_births@.drop_last() == old(self).entry_births@,
            final(self).entry_ids@ == old(self).entry_ids@.push(old(self).next_entry_id),
            final(self).next_entry_id == old(self).next_entry_id + 1,
            final(self).selected == Some((final(self).entries@.len() - 1) as usize),
            final(self).status@ == "Unsaved"@,
            final(self).deleting_rows == old(self).deleting_rows,
            final(self).activation == old(self).activation,
            final(self).activation_anim_started == old(self).activation_anim_started,
            final(self).theme == old(self).theme,
            final(self).sidebar_open == old(self).sidebar_open,
            final(self).capturing == old(self).capturing,
            final(self).captured == old(self).captured,
            final(self).capture_prev_keys == old(self).capture_prev_keys,
    {
        self.entries.push(MatchEntry { trigger: String::new(), replace: String::new() });
        self.entry_births.push(instant_now());
        self.entry_ids.push(self.next_entry_id);
        self.next_entry_id = self.next_entry_id + 1;
        self.selected = Some(self.entries.len() - 1);
        self.status = String::from_str("Unsaved");
    }

    /// Clean the trigger of entry `i` to lowercase ASCII letters and digits.
    pub fn sanitize_trigger(&mut self, i: usize)
        requires
            i < old(self).entries@.len(),
        ensures
            old(self).wf() ==> final(self).wf(),
            final(self).entries@ == old(self).entries@.update(
                i as int,
                MatchEntry { trigger: final(self).entries@[i as int].trigger, replace: old(self).entries@[i as int].replace },
            ),
            final(self).entries@[i as int].trigger@ == lower_alnum(old(self).entries@[i as int].trigger@),
            final(self).entry_births == old(self).entry_births,
            final(self).entry_ids == old(self).entry_ids,
            final(self).next_entry_id == old(self).next_entry_id,
            final(self).deleting_rows == old(self).deleting_rows,
            final(self).activation == old(self).activation,
            final(self).activation_anim_started == old(self).activation_anim_started,
            final(self).theme == old(self).theme,
            final(self).selected == old(self).selected,
            final(self).sidebar_open == old(self).sidebar_open,
            final(self).capturing == old(self).capturing,
            final(self).captured == old(self).captured,
            final(self).capture_prev_keys == old(self).capture_prev_keys,
            final(self).status == old(self).status,
    {
        let v = chars_of(self.entries[i].trigger.as_str());
        let mut clean = String::new();
        let mut k: usize = 0;
        while k < v.len()
            invariant
                0 <= k <= v@.len(),
                clean@ == lower_alnum(v@.take(k as int)),
            decreases v@.len() - k,
        {
            let c = to_ascii_lower(v[k]);
            proof {
                let t = v@.take(k + 1);
                assert(t.drop_last() =~= v@.take(k as int));
                assert(t.last() == v@[k as int]);
            }
            if ascii_alnum(c) {
                push_char(&mut clean, c);
            }
            k += 1;
        }
        assert(v@.take(v@.len() as int) =~= v@);
        if !(clean == self.entries[i].trigger) {
            let replace = self.entries[i].replace.clone();
            self.entries.set(i, MatchEntry { trigger: clean, replace });
        } else {
            assert(self.entries@ =~= old(self).entries@.update(
                i as int,
                MatchEntry { trigger: self.entries@[i as int].trigger, replace: old(self).entries@[i as int].replace },
            ));
        }
    }

    /// Delete keyword row `i` (nothing happens past the end): its entry,
    /// birth and id go, the selection follows (see
    /// [`selection_after_delete`]), the file is marked unsaved, and a fading
    /// row for it joins the fading rows, which stay ordered by position, rows
    /// below `i` moving up one place.
    pub fn delete_keyword(&mut self, i: usize)
        requires
            old(self).wf(),
        ensures
            final(self).wf(),
            i >= old(self).entries@.len() ==> *final(self) == *old(self),
            i < old(self).entries@.len() ==> {
                &&& final(self).entries@ == old(self).entries@.remove(i as int)
                &&& final(self).entry_births@ == old(self).entry_births@.remove(i as int)
                &&& final(self).entry_ids@ == old(self).entry_ids@.remove(i as int)
                &&& final(self).selected == selection_after_delete(
                    old(self).selected,
                    i,
                    (old(self).entries@.len() - 1) as nat,
                )
                &&& final(self).status@ == "Unsaved"@
                &&& (old(self).selected matches Some(s) ==> (s != i ==> (final(self).selected matches Some(
                    t,
                ) && final(self).entries@[t as int] == old(self).entries@[s as int])))
                &&& rows_after_delete(
                    old(self).deleting_rows@,
                    final(self).deleting_rows@,
                    i,
                    row_label(old(self).entries@[i as int].trigger@),
                    old(self).selected == Some(i),
                )
                &&& final(self).next_entry_id == old(self).next_entry_id
                &&& final(self).activation == old(self).activation
                &&& final(self).activation_anim_started == old(self).activation_anim_started
                &&& final(self).theme == old(self).theme
                &&& final(self).sidebar_open == old(self).sidebar_open
                &&& final(self).capturing == old(self).capturing
                &&& final(self).captured == old(self).captured
                &&& final(self).capture_prev_keys == old(self).capture_prev_keys
            },
    {
        if i >= self.entries.len() {
            return;
        }
        let label = keyword_label(&self.entries[i]);
        let was_selected = match self.selected {
            Some(s) => s == i,
            None => false,
        };
        let started = instant_now();
        let mut old_rows: Vec<DeletingKeywordRow> = Vec::new();
        std::mem::swap(&mut old_rows, &mut self.deleting_rows);
        let ghost before = old_rows@;
        let n = old_rows.len();
        let mut rows: Vec<DeletingKeywordRow> = Vec::new();
        let mut inserted = false;
        let ghost mut p: int = 0;
        let mut k: usize = 0;
        while k < n
            invariant
                n == old_rows@.len(),
                old_rows@ == before,
                rows_sorted(before),
                0 <= k <= n,
                !inserted ==> p == k && rows@.len() == k,
                inserted ==> 0 <= p < k && rows@.len() == k + 1,
                forall|j: int| 0 <= j < p ==> #[trigger] rows@[j] == shifted_row(before[j], i) && rows@[j].index <= i,
                inserted ==> rows@[p].index == i && rows@[p].label@ == label@ && rows@[p].selected == was_selected,
                forall|j: int| p < j <= k && inserted ==> #[trigger] rows@[j] == shifted_row(before[j - 1], i) && rows@[j].index > i,
            decreases n - k,
        {
            let ghost rows_at_start = rows@;
            let ghost p_at_start = p;
            let ghost inserted_at_start = inserted;
            let idx = if old_rows[k].index > i {
                old_rows[k].index - 1
            } else {
                old_rows[k].index
            };
            if !inserted && idx > i {
                rows.push(DeletingKeywordRow { index: i, label: label.clone(), selected: was_selected, started });
                inserted = true;
                proof {
                    p = k as int;
                }
            }
            let r = DeletingKeywordRow {
                index: idx,
                label: old_rows[k].label.clone(),
                selected: old_rows[k].selected,
                started: old_rows[k].started,
            };
            proof {
                assert(r == shifted_row(before[k as int], i));
                if inserted_at_start {
                    assert(rows_at_start[k as int] == shifted_row(before[k - 1], i));
                    assert(rows_at_start[k as int].index > i);
                    assert(before[k - 1].index <= before[k as int].index);
                }
                assert(inserted ==> idx > i);
            }
            rows.push(r);
            proof {
                if inserted {
                    assert forall|j: int| p < j <= k + 1 implies #[trigger] rows@[j] == shifted_row(
                        before[j - 1],
                        i,
                    ) && rows@[j].index > i by {
                        if j <= k && inserted_at_start {
                            assert(rows@[j] == rows_at_start[j]);
                        }
                    }
                }
            }
            k += 1;
            proof {
                if !inserted {
                    p = k as int;
                }
            }
        }
        let ghost rows_after_loop = rows@;
        if !inserted {
            rows.push(DeletingKeywordRow { index: i, label: label.clone(), selected: was_selected, started });
        }
        proof {
            assert forall|j: int| 0 <= j < p implies #[trigger] rows@[j] == shifted_row(before[j], i)
                && rows@[j].index <= i by {
                assert(rows@[j] == rows_after_loop[j]);
            }
            assert forall|j: int| p < j <= n implies #[trigger] rows@[j] == shifted_row(before[j - 1], i)
                && rows@[j].index > i by {
                assert(rows@[j] == rows_after_loop[j]);
            }
            assert(rows@[p].index == i && rows@[p].label@ == label@ && rows@[p].selected == was_selected);
            assert(rows@.len() == n + 1);
            assert forall|a: int, b: int| 0 <= a < b < rows@.len() implies rows@[a].index <= rows@[b].index by {
                if b < p {
                    assert(rows@[a] == shifted_row(before[a], i));
                    assert(rows@[b] == shifted_row(before[b], i));
                    assert(before[a].index <= before[b].index);
                } else if a > p {
                    assert(rows@[a] == shifted_row(before[a - 1], i));
                    assert(rows@[b] == shifted_row(before[b - 1], i));
                    assert(before[a - 1].index <= before[b - 1].index);
                } else if a < p && b > p {
                    assert(rows@[a].index <= i);
                    assert(rows@[b] == shifted_row(before[b - 1], i));
                } else if a == p {
                    assert(rows@[b] == shifted_row(before[b - 1], i));
                } else {
                    assert(rows@[a].index <= i);
                }
            }
            assert(was_selected == (old(self).selected == Some(i)));
            assert(rows_after_delete(before, rows@, i, label@, was_selected));
            assert(before == old(self).deleting_rows@);
            assert forall|j: int| 0 <= j < rows@.len() implies #[trigger] rows@[j].index
                <= old(self).entries@.len() - 1 by {
                if j < p {
                    assert(rows@[j] == shifted_row(before[j], i));
                } else if j > p {
                    assert(rows@[j] == shifted_row(before[j - 1], i));
                    assert(before[j - 1].index <= old(self).entries@.len());
                }
            }
        }
        self.deleting_rows = rows;
        self.entries.remove(i);
        self.entry_births.remove(i);
        self.entry_ids.remove(i);
        let len = self.entries.len();
        self.selected = match self.selected {
            Some(s) => if s == i {
                if len == 0 {
                    None
                } else if i < len {
                    Some(i)
                } else {
                    Some(len - 1)
                }
            } else if s > i {
                Some(s - 1)
            } else {
                Some(s)
            },
            None => None,
        };
        self.status = String::from_str("Unsaved");
        proof {
            if let Some(s) = old(self).selected {
                lemma_delete_keeps_selected_entry(old(self).entries@, s, i);
            }
        }
    }

    /// Select keyword row `i`.
    pub fn select(&mut self, i: usize)
        requires
            i < old(self).entries@.len(),
        ensures
            old(self).wf() ==> final(self).wf(),
            final(self).selected == Some(i),
            final(self).entries == old(self).entries,
            final(self).entry_births == old(self).entry_births,
            final(self).entry_ids == old(self).entry_ids,
            final(self).next_entry_id == old(self).next_entry_id,
            final(self).deleting_rows == old(self).deleting_rows,
            final(self).activation == old(self).activation,
            final(self).activation_anim_started == old(self).activation_anim_started,
            final(self).theme == old(self).theme,
            final(self).sidebar_open == old(self).sidebar_open,
            final(self).capturing == old(self).capturing,
            final(self).captured == old(self).captured,
            final(self).capture_prev_keys == old(self).capture_prev_keys,
            final(self).status == old(self).status,
    {
        self.selected = Some(i);
    }

    /// Keep the fading rows whose flag in `keep` is set (the others have
    /// finished fading), in their order.
    pub fn retain_rows(&mut self, keep: &Vec<bool>)
        requires
            keep@.len() == old(self).deleting_rows@.len(),
        ensures
            old(self).wf() ==> final(self).wf(),
            final(self).deleting_rows@ == rows_kept(old(self).deleting_rows@, keep@),
            final(self).entries == old(self).entries,
            final(self).entry_births == old(self).entry_births,
            final(self).entry_ids == old(self).entry_ids,
            final(self).next_entry_id == old(self).next_entry_id,
            final(self).activation == old(self).activation,
            final(self).activation_anim_started == old(self).activation_anim_started,
            final(self).theme == old(self).theme,
            final(self).selected == old(self).selected,
            final(self).sidebar_open == old(self).sidebar_open,
            final(self).capturing == old(self).capturing,
            final(self).captured == old(self).captured,
            final(self).capture_prev_keys == old(self).capture_prev_keys,
            final(self).status == old(self).status,
    {
        let mut rows: Vec<DeletingKeywordRow> = Vec::new();
        std::mem::swap(&mut rows, &mut self.deleting_rows);
        let ghost before = rows@;
        let ghost len = self.entries@.len();
        let ghost ok = old(self).wf();
        let mut out: Vec<DeletingKeywordRow> = Vec::new();
        let mut k: usize = 0;
        while k < rows.len()
            invariant
                rows@ == before,
                before == old(self).deleting_rows@,
                keep@.len() == before.len(),
                len == old(self).entries@.len(),
                ok == old(self).wf(),
                0 <= k <= before.len(),
                out@ == rows_kept(before.take(k as int), keep@.take(k as int)),
                ok ==> rows_sorted(out@) && rows_within(out@, len),
                ok ==> forall|a: int, b: int|
                    #![trigger out@[a], before[b]]
                    0 <= a < out@.len() && k <= b < before.len() ==> out@[a].index
                        <= before[b].index,
            decreases before.len() - k,
        {
            proof {
                assert(before.take(k + 1).drop_last() =~= before.take(k as int));
                assert(keep@.take(k + 1).drop_last() =~= keep@.take(k as int));
            }
            if keep[k] {
                let r = DeletingKeywordRow {
                    index: rows[k].index,
                    label: rows[k].label.clone(),
                    selected: rows[k].selected,
                    started: rows[k].started,
                };
                assert(r == before[k as int]);
                out.push(r);
            }
            proof {
                if ok {
                    assert forall|a: int, b: int|
                        #![trigger out@[a], before[b]]
                        0 <= a < out@.len() && k + 1 <= b < before.len() implies out@[a].index
                        <= before[b].index by {
                        assert(before[k as int].index <= before[b].index);
                    }
                    assert(rows_within(out@, len)) by {
                        assert(before[k as int].index <= len);
                    }
                }
            }
            k += 1;
        }
        assert(before.take(before.len() as int) =~= before);
        assert(keep@.take(keep@.len() as int) =~= keep@);
        self.deleting_rows = out;
    }

    /// Take the result of a key-capture poll: a captured key is applied at
    /// once (without marking the file unsaved) and shown in the popup;
    /// Escape closes the popup with "Capture cancelled.". Returns whether
    /// the activation key changed.
    pub fn take_capture(&mut self, result: CaptureResult) -> (changed: bool)
        ensures
            old(self).wf() ==> final(self).wf(),
            match result {
                CaptureResult::Key(key) => {
                    &&& changed == (old(self).activation@ != key@)
                    &&& final(self).activation@ == key@
                    &&& final(self).captured == Some(key)
                    &&& final(self).capturing == old(self).capturing
                    &&& final(self).status@ == old(self).status@
                },
                CaptureResult::Cancelled => {
                    &&& !changed
                    &&& !final(self).capturing
                    &&& final(self).status@ == "Capture cancelled."@
                    &&& final(self).activation == old(self).activation
                    &&& final(self).captured == old(self).captured
                },
            },
            final(self).entries == old(self).entries,
            final(self).entry_births == old(self).entry_births,
            final(self).entry_ids == old(self).entry_ids,
            final(self).next_entry_id == old(self).next_entry_id,
            final(self).deleting_rows == old(self).deleting_rows,
            final(self).theme == old(self).theme,
            final(self).selected == old(self).selected,
            final(self).sidebar_open == old(self).sidebar_open,
            final(self).capture_prev_keys == old(self).capture_prev_keys,
    {
        match result {
            CaptureResult::Key(key) => {
                let changed = self.apply_activation(key.clone(), false);
                self.captured = Some(key);
                changed
            },
            CaptureResult::Cancelled => {
                self.capturing = false;
                self.status = String::from_str("Capture cancelled.");
                false
            },
        }
    }

    /// Close the key-capture popup ("Done" or "Cancel"): a key applied
    /// during the capture leaves the file unsaved.
    pub fn close_capture(&mut self)
        ensures
            old(self).wf() ==> final(self).wf(),
            !final(self).capturing,
            final(self).status@ == (if old(self).captured is Some {
                "Unsaved"@
            } else {
                old(self).status@
            }),
            final(self).entries == old(self).entries,
            final(self).entry_births == old(self).entry_births,
            final(self).entry_ids == old(self).entry_ids,
            final(self).next_entry_id == old(self).next_entry_id,
            final(self).deleting_rows == old(self).deleting_rows,
            final(self).activation == old(self).activation,
            final(self).activation_anim_started == old(self).activation_anim_started,
            final(self).theme == old(self).theme,
            final(self).selected == old(self).selected,
            final(self).sidebar_open == old(self).sidebar_open,
            final(self).captured == old(self).captured,
            final(self).capture_prev_keys == old(self).capture_prev_keys,
    {
        self.capturing = false;
        if self.captured.is_some() {
            self.status = String::from_str("Unsaved");
        }
    }

    /// The footer's status line: the status message, or when there is none
    /// "Saved" with a selection and "No selection" without.
    pub fn status_text(&self) -> (r: String)
        ensures
            r@ == (if self.status@.len() == 0 {
                if self.selected is Some {
                    "Saved"@
                } else {
                    "No selection"@
                }
            } else {
                self.status@
            }),
    {
        if self.status.as_str().is_empty() {
            if self.selected.is_some() {
                String::from_str("Saved")
            } else {
                String::from_str("No selection")
            }
        } else {
            self.status.clone()
        }
    }

    /// Record how writing the triggers file went: "Saved", or "Save failed: "
    /// followed by the error.
    pub fn save_finished(&mut self, result: Result<(), String>)
        ensures
            old(self).wf() ==> final(self).wf(),
            final(self).status@ == (match result {
                Ok(()) => "Saved"@,
                Err(e) => "Save failed: "@ + e@,
            }),
            final(self).entries == old(self).entries,
            final(self).entry_births == old(self).entry_births,
            final(self).entry_ids == old(self).entry_ids,
            final(self).next_entry_id == old(self).next_entry_id,
            final(self).deleting_rows == old(self).deleting_rows,
            final(self).activation == old(self).activation,
            final(self).activation_anim_started == old(self).activation_anim_started,
            final(self).theme == old(self).theme,
            final(self).selected == old(self).selected,
            final(self).sidebar_open == old(self).sidebar_open,
            final(self).capturing == old(self).capturing,
            final(self).captured == old(self).captured,
            final(self).capture_prev_keys == old(self).capture_prev_keys,
    {
        match result {
            Ok(()) => {
                self.status = String::from_str("Saved");
            },
            Err(e) => {
                let mut s = String::from_str("Save failed: ");
                s.append(e.as_str());
                self.status = s;
            },
        }
    }

    /// Open the popup that captures the next key press; `key_state` is the
    /// current key-state snapshot.
    pub fn arm_capture(&mut self, key_state: [bool; 256])
        ensures
            old(self).wf() ==> final(self).wf(),
            final(self).capturing,
            final(self).captured is None,
            final(self).capture_prev_keys == key_state,
            final(self).entries == old(self).entries,
            final(self).entry_births == old(self).entry_births,
            final(self).entry_ids == old(self).entry_ids,
            final(self).next_entry_id == old(self).next_entry_id,
            final(self).deleting_rows == old(self).deleting_rows,
            final(self).activation == old(self).activation,
            final(self).activation_anim_started == old(self).activation_anim_started,
            final(self).theme == old(self).theme,
            final(self).selected == old(self).selected,
            final(self).sidebar_open == old(self).sidebar_open,
            final(self).status == old(self).status,
    {
        self.capturing = true;
        self.captured = None;
        self.capture_prev_keys = key_state;
    }
}

/// The editor's invariant reads only the number of rows, the row ids, the
/// next id, the selection and the fading rows' positions. So what a frame
/// does besides calling the editor's methods (each of which keeps the
/// invariant) keeps it too: typing into a keyword or its replacement,
/// toggling the theme or the sidebar, changing the status line, polling the
/// key state.
pub proof fn lemma_wf_ignores_contents(a: EditorApp, b: EditorApp)
    requires
        a.wf(),
        b.entries@.len() == a.entries@.len(),
        b.entry_births@.len() == a.entry_births@.len(),
        b.entry_ids@ == a.entry_ids@,
        b.next_entry_id == a.next_entry_id,
        b.selected == a.selected,
        b.deleting_rows@.len() == a.deleting_rows@.len(),
        forall|j: int|
            0 <= j < a.deleting_rows@.len() ==> #[trigger] b.deleting_rows@[j].index
                == a.deleting_rows@[j].index,
    ensures
        b.wf(),
{
}

} // verus!
