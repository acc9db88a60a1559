//! Settings and trigger entries: activation key, theme, and the collapse of
//! the ordered entries of the triggers file into the engine's trigger table.
use vstd::prelude::*;

use crate::text::{
    chars_of, char_is_uppercase, is_uppercase, push_char, str_eq, string_from_range, trim,
    trim_str,
};
use crate::trigger_map::TriggerMap;

verus! {

/// The key you tap (after typing a trigger) to expand it. The presets are
/// keys that are inert on their own; `Custom` holds the name of any key the
/// user captured.
#[derive(Debug, PartialEq, Eq)]
pub enum ActivationKey {
    RightCtrl,
    RightShift,
    Insert,
    ScrollLock,
    Pause,
    F9,
    /// A user-captured key, stored by its key name (e.g. "F10").
    Custom(String),
}

/// What an [`ActivationKey`] stands for, a custom key's name as characters.
pub enum ActivationChoice {
    RightCtrl,
    RightShift,
    Insert,
    ScrollLock,
    Pause,
    F9,
    Custom(Seq<char>),
}

impl View for ActivationKey {
    type V = ActivationChoice;

    open spec fn view(&self) -> ActivationChoice {
        match self {
            ActivationKey::RightCtrl => ActivationChoice::RightCtrl,
            ActivationKey::RightShift => ActivationChoice::RightShift,
            ActivationKey::Insert => ActivationChoice::Insert,
            ActivationKey::ScrollLock => ActivationChoice::ScrollLock,
            ActivationKey::Pause => ActivationChoice::Pause,
            ActivationKey::F9 => ActivationChoice::F9,
            ActivationKey::Custom(name) => ActivationChoice::Custom(name@),
        }
    }
}

/// The prefix that marks a custom key's id.
pub open spec fn custom_prefix() -> Seq<char> {
    "custom:"@
}

/// The stable id of a key, as written to the triggers file.
pub open spec fn activation_id(k: ActivationChoice) -> Seq<char> {
    match k {
        ActivationChoice::RightCtrl => "right_ctrl"@,
        ActivationChoice::RightShift => "right_shift"@,
        ActivationChoice::Insert => "insert"@,
        ActivationChoice::ScrollLock => "scroll_lock"@,
        ActivationChoice::Pause => "pause"@,
        ActivationChoice::F9 => "f9"@,
        ActivationChoice::Custom(name) => custom_prefix() + name,
    }
}

/// A key name split at its camel-case humps: a space before every upper-case
/// character but the first.
pub open spec fn pretty_name(name: Seq<char>) -> Seq<char>
    decreases name.len(),
{
    if name.len() == 0 {
        Seq::empty()
    } else {
        let c = name.last();
        let front = pretty_name(name.drop_last());
        if name.len() > 1 && is_uppercase(c) {
            front.push(' ').push(c)
        } else {
            front.push(c)
        }
    }
}

/// The label shown for a key in the editor.
pub open spec fn activation_label(k: ActivationChoice) -> Seq<char> {
    match k {
        ActivationChoice::RightCtrl => "Right Ctrl"@,
        ActivationChoice::RightShift => "Right Shift"@,
        ActivationChoice::Insert => "Insert"@,
        ActivationChoice::ScrollLock => "Scroll Lock"@,
        ActivationChoice::Pause => "Pause / Break"@,
        ActivationChoice::F9 => "F9"@,
        ActivationChoice::Custom(name) => pretty_name(name),
    }
}

/// Whether `s` starts with the custom-key prefix.
pub open spec fn has_custom_prefix(s: Seq<char>) -> bool {
    s.len() >= custom_prefix().len() && s.take(custom_prefix().len() as int) == custom_prefix()
}

/// The key an id from the file resolves to: a `custom:` id gives a custom key
/// of the rest of the id, a preset id gives that preset, anything else the
/// default, Right Ctrl.
pub open spec fn activation_from_id(s: Seq<char>) -> ActivationChoice {
    if has_custom_prefix(s) {
        ActivationChoice::Custom(s.skip(custom_prefix().len() as int))
    } else if s == "right_ctrl"@ {
        ActivationChoice::RightCtrl
    } else if s == "right_shift"@ {
        ActivationChoice::RightShift
    } else if s == "insert"@ {
        ActivationChoice::Insert
    } else if s == "scroll_lock"@ {
        ActivationChoice::ScrollLock
    } else if s == "pause"@ {
        ActivationChoice::Pause
    } else if s == "f9"@ {
        ActivationChoice::F9
    } else {
        ActivationChoice::RightCtrl
    }
}

fn literal(s: &str) -> (r: String)
    ensures
        r@ == s@,
{
    String::from_str(s)
}

/// `name` with a space before each upper-case character but the first.
pub fn pretty_key_name(name: &str) -> (r: String)
    ensures
        r@ == pretty_name(name@),
{
    let v = chars_of(name);
    let mut out = String::new();
    let mut i: usize = 0;
    while i < v.len()
        invariant
            v@ == name@,
            0 <= i <= v.len(),
            out@ == pretty_name(v@.take(i as int)),
        decreases v.len() - i,
    {
        let c = v[i];
        if i > 0 && char_is_uppercase(c) {
            push_char(&mut out, ' ');
        }
        push_char(&mut out, c);
        proof {
            let t = v@.take(i + 1);
            assert(t.drop_last() =~= v@.take(i as int));
            assert(t.last() == c);
        }
        i += 1;
    }
    assert(v@.take(v.len() as int) =~= name@);
    out
}

impl ActivationKey {
    /// The preset choices, in the order shown in the editor dropdown.
    pub fn presets() -> (r: Vec<ActivationKey>)
        ensures
            r@.len() == 6,
            r@[0]@ == ActivationChoice::RightCtrl,
            r@[1]@ == ActivationChoice::RightShift,
            r@[2]@ == ActivationChoice::Insert,
            r@[3]@ == ActivationChoice::ScrollLock,
            r@[4]@ == ActivationChoice::Pause,
            r@[5]@ == ActivationChoice::F9,
    {
        let mut v = Vec::new();
        v.push(ActivationKey::RightCtrl);
        v.push(ActivationKey::RightShift);
        v.push(ActivationKey::Insert);
        v.push(ActivationKey::ScrollLock);
        v.push(ActivationKey::Pause);
        v.push(ActivationKey::F9);
        v
    }

    /// Whether two keys stand for the same choice.
    pub fn same_as(&self, other: &ActivationKey) -> (r: bool)
        ensures
            r == (self@ == other@),
    {
        match self {
            ActivationKey::Custom(a) => match other {
                ActivationKey::Custom(b) => String::eq(a, b),
                _ => false,
            },
            ActivationKey::RightCtrl => matches!(other, ActivationKey::RightCtrl),
            ActivationKey::RightShift => matches!(other, ActivationKey::RightShift),
            ActivationKey::Insert => matches!(other, ActivationKey::Insert),
            ActivationKey::ScrollLock => matches!(other, ActivationKey::ScrollLock),
            ActivationKey::Pause => matches!(other, ActivationKey::Pause),
            ActivationKey::F9 => matches!(other, ActivationKey::F9),
        }
    }

    /// Stable id written to the triggers file. Custom keys are namespaced with
    /// a `custom:` prefix so they never collide with a preset id.
    pub fn id(&self) -> (r: String)
        ensures
            r@ == activation_id(self@),
    {
        match self {
            ActivationKey::RightCtrl => literal("right_ctrl"),
            ActivationKey::RightShift => literal("right_shift"),
            ActivationKey::Insert => literal("insert"),
            ActivationKey::ScrollLock => literal("scroll_lock"),
            ActivationKey::Pause => literal("pause"),
            ActivationKey::F9 => literal("f9"),
            ActivationKey::Custom(name) => {
                let mut s = literal("custom:");
                s.append(name.as_str());
                s
            },
        }
    }

    /// Human-friendly label for the editor dropdown.
    pub fn label(&self) -> (r: String)
        ensures
            r@ == activation_label(self@),
    {
        match self {
            ActivationKey::RightCtrl => literal("Right Ctrl"),
            ActivationKey::RightShift => literal("Right Shift"),
            ActivationKey::Insert => literal("Insert"),
            ActivationKey::ScrollLock => literal("Scroll Lock"),
            ActivationKey::Pause => literal("Pause / Break"),
            ActivationKey::F9 => literal("F9"),
            ActivationKey::Custom(name) => pretty_key_name(name.as_str()),
        }
    }

    /// Resolve an id from the file; unknown ids fall back to the default.
    pub fn from_id(s: &str) -> (r: ActivationKey)
        ensures
            r@ == activation_from_id(s@),
    {
        let v = chars_of(s);
        let prefix = chars_of("custom:");
        proof {
            reveal_strlit("custom:");
        }
        let n = prefix.len();
        if v.len() >= n {
            let mut i: usize = 0;
            let mut same = true;
            while i < n
                invariant
                    v@ == s@,
                    prefix@ == custom_prefix(),
                    n == prefix.len(),
                    n <= v.len(),
                    0 <= i <= n,
                    same == (forall|j: int| 0 <= j < i ==> v@[j] == prefix@[j]),
                decreases n - i,
            {
                if v[i] != prefix[i] {
                    same = false;
                }
                i += 1;
            }
            if same {
                assert(s@.take(n as int) =~= custom_prefix());
                let name = string_from_range(&v, n, v.len());
                assert(v@.subrange(n as int, v.len() as int) =~= s@.skip(n as int));
                return ActivationKey::Custom(name);
            } else {
                assert(!has_custom_prefix(s@)) by {
                    if has_custom_prefix(s@) {
                        let j = choose|j: int| 0 <= j < n && v@[j] != prefix@[j];
                        assert(s@.take(n as int)[j] == s@[j]);
                    }
                }
            }
        }
        if str_eq(s, "right_ctrl") {
            ActivationKey::RightCtrl
        } else if str_eq(s, "right_shift") {
            ActivationKey::RightShift
        } else if str_eq(s, "insert") {
            ActivationKey::Insert
        } else if str_eq(s, "scroll_lock") {
            ActivationKey::ScrollLock
        } else if str_eq(s, "pause") {
            ActivationKey::Pause
        } else if str_eq(s, "f9") {
            ActivationKey::F9
        } else {
            ActivationKey::RightCtrl
        }
    }
}

impl Clone for ActivationKey {
    fn clone(&self) -> (r: ActivationKey)
        ensures
            r == *self,
    {
        match self {
            ActivationKey::RightCtrl => ActivationKey::RightCtrl,
            ActivationKey::RightShift => ActivationKey::RightShift,
            ActivationKey::Insert => ActivationKey::Insert,
            ActivationKey::ScrollLock => ActivationKey::ScrollLock,
            ActivationKey::Pause => ActivationKey::Pause,
            ActivationKey::F9 => ActivationKey::F9,
            ActivationKey::Custom(name) => ActivationKey::Custom(name.clone()),
        }
    }
}

impl Default for ActivationKey {
    fn default() -> (r: ActivationKey)
        ensures
            r@ == ActivationChoice::RightCtrl,
    {
        ActivationKey::RightCtrl
    }
}

/// Result of an editor-initiated "press any key" capture.
#[derive(Debug, PartialEq, Eq)]
pub enum CaptureResult {
    /// The user pressed a key to bind as the activation key.
    Key(ActivationKey),
    /// The user pressed Escape to cancel capture.
    Cancelled,
}

impl Clone for CaptureResult {
    fn clone(&self) -> (r: CaptureResult)
        ensures
            r == *self,
    {
        match self {
            CaptureResult::Key(key) => CaptureResult::Key(key.clone()),
            CaptureResult::Cancelled => CaptureResult::Cancelled,
        }
    }
}

/// Editor color theme. Persisted so the choice survives restarts.
#[derive(Debug, Clone, Copy, PartialEq, Eq, Structural)]
pub enum Theme {
    Dark,
    Light,
}

/// The stable id of a theme, as written to the triggers file.
pub open spec fn theme_id(t: Theme) -> Seq<char> {
    match t {
        Theme::Dark => "dark"@,
        Theme::Light => "light"@,
    }
}

/// The other theme.
pub open spec fn theme_toggled(t: Theme) -> Theme {
    match t {
        Theme::Dark => Theme::Light,
        Theme::Light => Theme::Dark,
    }
}

/// The label of a theme.
pub open spec fn theme_label(t: Theme) -> Seq<char> {
    match t {
        Theme::Dark => "Dark"@,
        Theme::Light => "Light"@,
    }
}

/// The theme an id from the file resolves to: `light` is Light, anything
/// else the default, Dark.
pub open spec fn theme_from_id(s: Seq<char>) -> Theme {
    if s == "light"@ {
        Theme::Light
    } else {
        Theme::Dark
    }
}

impl Theme {
    /// Stable id written to the triggers file.
    pub fn id(self) -> (r: &'static str)
        ensures
            r@ == theme_id(self),
    {
        match self {
            Theme::Dark => "dark",
            Theme::Light => "light",
        }
    }

    /// The other theme (for a toggle button).
    pub fn toggled(self) -> (r: Theme)
        ensures
            r == theme_toggled(self),
    {
        match self {
            Theme::Dark => Theme::Light,
            Theme::Light => Theme::Dark,
        }
    }

    /// Human-friendly label.
    pub fn label(self) -> (r: &'static str)
        ensures
            r@ == theme_label(self),
    {
        match self {
            Theme::Dark => "Dark",
            Theme::Light => "Light",
        }
    }

    /// Resolve an id from the file; anything unknown falls back to the default.
    pub fn from_id(s: &str) -> (r: Theme)
        ensures
            r == theme_from_id(s@),
    {
        if str_eq(s, "light") {
            Theme::Light
        } else {
            Theme::Dark
        }
    }

}

impl Default for Theme {
    fn default() -> (r: Theme)
        ensures
            r == Theme::Dark,
    {
        Theme::Dark
    }
}

/// An ordered trigger/replacement pair, exactly as it appears in the file.
/// The editor works with these (order and duplicates preserved); the engine
/// collapses them into a [`Config`] table.
#[derive(Debug, PartialEq, Eq)]
pub struct MatchEntry {
    pub trigger: String,
    pub replace: String,
}

impl Clone for MatchEntry {
    fn clone(&self) -> (r: MatchEntry)
        ensures
            r == *self,
    {
        MatchEntry { trigger: self.trigger.clone(), replace: self.replace.clone() }
    }
}

/// Engine configuration: trigger word -> replacement text, plus user settings.
#[derive(Debug, PartialEq)]
pub struct Config {
    pub map: TriggerMap,
    pub activation: ActivationKey,
    pub theme: Theme,
}

impl Clone for Config {
    fn clone(&self) -> (r: Config)
        ensures
            r.map@ == self.map@,
            r.activation == self.activation,
            r.theme == self.theme,
    {
        Config { map: self.map.clone(), activation: self.activation.clone(), theme: self.theme }
    }
}

impl Default for Config {
    fn default() -> (r: Config)
        ensures
            r.map@ == Map::<Seq<char>, Seq<char>>::empty(),
            r.activation@ == ActivationChoice::RightCtrl,
            r.theme == Theme::Dark,
    {
        Config { map: TriggerMap::new(), activation: ActivationKey::RightCtrl, theme: Theme::Dark }
    }
}

/// The settings and entries of a triggers file as the TOML layer reads and
/// writes them: optional ids, and the `[[match]]` tables in file order.
#[derive(Debug)]
pub struct RawConfig {
    pub activation: Option<String>,
    pub theme: Option<String>,
    pub matches: Vec<MatchEntry>,
}

/// Everything the editor loads from the triggers file: settings + ordered entries.
#[derive(Debug)]
pub struct FileData {
    pub activation: ActivationKey,
    pub theme: Theme,
    pub entries: Vec<MatchEntry>,
}

impl Default for FileData {
    fn default() -> (r: FileData)
        ensures
            r.activation@ == ActivationChoice::RightCtrl,
            r.theme == Theme::Dark,
            r.entries@.len() == 0,
    {
        FileData { activation: ActivationKey::RightCtrl, theme: Theme::Dark, entries: Vec::new() }
    }
}

/// The trigger table that ordered entries collapse into: each entry binds
/// its trimmed trigger to its replacement, in order, so the last definition
/// of a trigger wins; entries whose trimmed trigger is empty are skipped.
pub open spec fn collapse(entries: Seq<MatchEntry>) -> Map<Seq<char>, Seq<char>>
    decreases entries.len(),
{
    if entries.len() == 0 {
        Map::empty()
    } else {
        let e = entries.last();
        let m = collapse(entries.drop_last());
        let t = trim(e.trigger@);
        if t.len() == 0 {
            m
        } else {
            m.insert(t, e.replace@)
        }
    }
}

/// Build the engine `Config` from ordered entries, with the default settings.
/// - Empty / whitespace-only triggers are skipped.
/// - On duplicate triggers, the last definition wins.
pub fn entries_to_config(entries: &[MatchEntry]) -> (r: Config)
    ensures
        r.map@ == collapse(entries@),
        r.activation@ == ActivationChoice::RightCtrl,
        r.theme == Theme::Dark,
{
    let mut map = TriggerMap::new();
    let mut i: usize = 0;
    while i < entries.len()
        invariant
            0 <= i <= entries@.len(),
            map@ == collapse(entries@.take(i as int)),
        decreases entries@.len() - i,
    {
        let e = &entries[i];
        let trigger = trim_str(e.trigger.as_str());
        proof {
            assert(entries@.take(i + 1).drop_last() =~= entries@.take(i as int));
            assert(entries@.take(i + 1).last() == entries@[i as int]);
        }
        if !trigger.as_str().is_empty() {
            map.insert(trigger, e.replace.clone());
        } else {
            assert(trigger@.len() == 0);
        }
        i += 1;
    }
    assert(entries@.take(entries@.len() as int) =~= entries@);
    Config { map, activation: ActivationKey::RightCtrl, theme: Theme::Dark }
}

fn clone_entries(entries: &[MatchEntry]) -> (r: Vec<MatchEntry>)
    ensures
        r@ == entries@,
{
    let mut out: Vec<MatchEntry> = Vec::new();
    let mut i: usize = 0;
    while i < entries.len()
        invariant
            0 <= i <= entries@.len(),
            out@ == entries@.take(i as int),
        decreases entries@.len() - i,
    {
        out.push(entries[i].clone());
        assert(entries@.take(i + 1) =~= entries@.take(i as int).push(entries@[i as int]));
        i += 1;
    }
    assert(entries@.take(entries@.len() as int) =~= entries@);
    out
}

impl FileData {
    /// The settings and ordered entries that a parsed triggers file stands
    /// for: a missing activation or theme id gives the default, an id is
    /// resolved as `ActivationKey::from_id` / `Theme::from_id` do, and the
    /// entries keep file order.
    pub fn from_raw(raw: RawConfig) -> (r: FileData)
        ensures
            r.activation@ == (match raw.activation {
                Some(id) => activation_from_id(id@),
                None => ActivationChoice::RightCtrl,
            }),
            r.theme == (match raw.theme {
                Some(id) => theme_from_id(id@),
                None => Theme::Dark,
            }),
            r.entries == raw.matches,
    {
        let activation = match &raw.activation {
            Some(id) => ActivationKey::from_id(id.as_str()),
            None => ActivationKey::RightCtrl,
        };
        let theme = match &raw.theme {
            Some(id) => Theme::from_id(id.as_str()),
            None => Theme::Dark,
        };
        FileData { activation, theme, entries: raw.matches }
    }
}

impl Config {
    /// The engine configuration of a loaded triggers file: its entries
    /// collapsed as `entries_to_config` does, with its settings.
    pub fn from_file_data(fd: FileData) -> (r: Config)
        ensures
            r.map@ == collapse(fd.entries@),
            r.activation == fd.activation,
            r.theme == fd.theme,
    {
        let mut cfg = entries_to_config(fd.entries.as_slice());
        cfg.activation = fd.activation;
        cfg.theme = fd.theme;
        cfg
    }
}

impl RawConfig {
    /// What is written back to disk for the given settings and entries: the
    /// ids of the settings and a copy of the entries, in order.
    pub fn from_settings(activation: &ActivationKey, theme: Theme, entries: &[MatchEntry]) -> (r:
        RawConfig)
        ensures
            r.activation matches Some(id) && id@ == activation_id(activation@),
            r.theme matches Some(id) && id@ == theme_id(theme),
            r.matches@ == entries@,
    {
        RawConfig {
            activation: Some(activation.id()),
            theme: Some(String::from_str(theme.id())),
            matches: clone_entries(entries),
        }
    }
}

/// Settings survive the triggers file: the id written for an activation key
/// resolves back to that key, and the id written for a theme resolves back
/// to that theme.
pub proof fn lemma_settings_round_trip(k: ActivationChoice, t: Theme)
    ensures
        activation_from_id(activation_id(k)) == k,
        theme_from_id(theme_id(t)) == t,
{
    reveal_strlit("custom:");
    reveal_strlit("right_ctrl");
    reveal_strlit("right_shift");
    reveal_strlit("insert");
    reveal_strlit("scroll_lock");
    reveal_strlit("pause");
    reveal_strlit("f9");
    reveal_strlit("light");
    reveal_strlit("dark");
    let p = custom_prefix();
    match k {
        ActivationChoice::Custom(name) => {
            assert((p + name).take(7) =~= p);
            assert((p + name).skip(7) =~= name);
        },
        ActivationChoice::RightCtrl => {
            assert(!has_custom_prefix("right_ctrl"@)) by {
                assert("right_ctrl"@.take(7)[0] != p[0]);
            }
        },
        ActivationChoice::RightShift => {
            assert(!has_custom_prefix("right_shift"@)) by {
                assert("right_shift"@.take(7)[0] != p[0]);
            }
            assert("right_shift"@ != "right_ctrl"@);
        },
        ActivationChoice::Insert => {
            assert("insert"@ != "right_ctrl"@);
            assert("insert"@ != "right_shift"@);
        },
        ActivationChoice::ScrollLock => {
            assert(!has_custom_prefix("scroll_lock"@)) by {
                assert("scroll_lock"@.take(7)[0] != p[0]);
            }
            assert("scroll_lock"@ != "right_ctrl"@);
            assert("scroll_lock"@[0] != "right_shift"@[0]);
            assert("scroll_lock"@ != "insert"@);
        },
        ActivationChoice::Pause => {
            assert("pause"@ != "right_ctrl"@);
            assert("pause"@ != "right_shift"@);
            assert("pause"@ != "insert"@);
            assert("pause"@ != "scroll_lock"@);
        },
        ActivationChoice::F9 => {
            assert("f9"@ != "right_ctrl"@);
            assert("f9"@ != "right_shift"@);
            assert("f9"@ != "insert"@);
            assert("f9"@ != "scroll_lock"@);
            assert("f9"@ != "pause"@);
        },
    }
    assert("dark"@[0] != "light"@[0]);
}

/// Toggling the theme twice gives it back, and toggling always changes it.
pub proof fn lemma_toggle_twice(t: Theme)
    ensures
        theme_toggled(theme_toggled(t)) == t,
        theme_toggled(t) != t,
{
}

/// Distinct keys have distinct ids, so a custom key never collides with a
/// preset in the file.
pub proof fn lemma_ids_distinct(a: ActivationChoice, b: ActivationChoice)
    requires
        a != b,
    ensures
        activation_id(a) != activation_id(b),
{
    lemma_settings_round_trip(a, Theme::Dark);
    lemma_settings_round_trip(b, Theme::Dark);
}

/// Whether entry `i` of `entries` defines trigger `k`.
pub open spec fn defines(entries: Seq<MatchEntry>, i: int, k: Seq<char>) -> bool {
    0 <= i < entries.len() && k.len() > 0 && trim(entries[i].trigger@) == k
}

/// What the collapse of entries into a trigger table keeps: `k` is a trigger
/// exactly when some entry's trimmed trigger is `k` and `k` is not empty, and
/// its replacement is that of the last entry that defines `k`.
pub proof fn lemma_collapse_last_wins(entries: Seq<MatchEntry>, k: Seq<char>)
    ensures
        collapse(entries).contains_key(k) <==> exists|i: int| defines(entries, i, k),
        collapse(entries).contains_key(k) ==> exists|i: int|
            #![trigger entries[i]]
            defines(entries, i, k) && collapse(entries)[k] == entries[i].replace@ && forall|j: int|
                i < j < entries.len() ==> !defines(entries, j, k),
    decreases entries.len(),
{
    if entries.len() > 0 {
        let front = entries.drop_last();
        let n = entries.len() - 1;
        lemma_collapse_last_wins(front, k);
        assert forall|i: int| defines(front, i, k) implies defines(entries, i, k) by {
            assert(front[i] == entries[i]);
        }
        assert forall|i: int| #[trigger] defines(entries, i, k) && i < n implies defines(front, i, k) by {
            assert(front[i] == entries[i]);
        }
        if defines(entries, n, k) {
            assert(entries[n] == entries.last());
        } else if collapse(front).contains_key(k) {
            let i = choose|i: int|
                #![trigger front[i]]
                defines(front, i, k) && collapse(front)[k] == front[i].replace@ && forall|j: int|
                    i < j < front.len() ==> !defines(front, j, k);
            assert(front[i] == entries[i]);
            assert(defines(entries, i, k));
            let t = trim(entries.last().trigger@);
            assert(t.len() == 0 || t != k);
            assert forall|j: int| i < j < entries.len() implies !defines(entries, j, k) by {
                if j < n {
                    assert(front[j] == entries[j]);
                    if defines(entries, j, k) {
                        assert(defines(front, j, k));
                    }
                }
            }
        } else {
            assert forall|i: int| !defines(entries, i, k) by {
                if defines(entries, i, k) && i < n {
                    assert(defines(front, i, k));
                }
            }
        }
    }
}

} // verus!
