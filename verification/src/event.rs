//! What happened, and what it carries.
//!
//! A [`Kind`] is what an item subscribes to: an event without its payload. An
//! [`Event`] is what a source reports. A [`Topic`] is the bare name of a
//! built-in, which both are built on.

use crate::json::{json_text, Json, JsonView};
use crate::measure::Measure;
use crate::project::{
    all_pairs, entry_pairs, entry_views, enum_pairs, law_active_variant_wins, law_every_name_is_set,
    lemma_mapped_concat, struct_pairs, upper_pairs, variant_pairs, variant_views, EnvFields, Entry,
    EntryView,
};
use crate::text::{
    chars_of, contains_control, decimal, decimal_text, has_control, has_no_capital, joined3,
    lemma_lowered_is_identity, lemma_lowered_twice, lower_char, lowercase, lowered, replace,
    replaced, same,
};
use crate::assoc::mapped;
use crate::vars::{in_order, law_order_is_canonical, Vars};
use vstd::prelude::*;

verus! {

// ---------------------------------------------------------------------------
// What payloads are made of

/// Where the machine is drawing power from, and what only that side of it can
/// say: a value that cannot exist cannot be spelled.
#[derive(Debug, Clone, Copy, PartialEq, Eq, Structural)]
pub enum PowerSource {
    /// On mains.
    Ac {
        /// What the adapter reports it can supply.
        adapter_watts: Option<u32>,
        /// Whether the battery is actually taking charge.
        charging: bool,
        /// Minutes to full, once the estimate has settled.
        time_to_full_minutes: Option<u32>,
    },
    /// On battery, and so discharging by definition.
    Battery {
        /// Minutes to empty, once the estimate has settled.
        time_to_empty_minutes: Option<u32>,
    },
    /// What a machine reports before anything has asked.
    Unknown,
}

/// The word a script matches a power source on.
pub open spec fn power_text(source: PowerSource) -> Seq<char> {
    match source {
        PowerSource::Ac { .. } => "AC"@,
        PowerSource::Battery { .. } => "BATTERY"@,
        PowerSource::Unknown => "UNKNOWN"@,
    }
}

impl PowerSource {
    /// The word a script matches this on.
    pub fn to_string(&self) -> (r: String)
        ensures
            r@ == power_text(*self),
    {
        match self {
            PowerSource::Ac { .. } => "AC".to_owned(),
            PowerSource::Battery { .. } => "BATTERY".to_owned(),
            PowerSource::Unknown => "UNKNOWN".to_owned(),
        }
    }
}

impl Default for PowerSource {
    fn default() -> (r: Self)
        ensures
            r == PowerSource::Unknown,
    {
        PowerSource::Unknown
    }
}

/// Which mouse button was used.
#[derive(Debug, Clone, Copy, PartialEq, Eq, Structural)]
pub enum MouseButton {
    Left,
    Right,
    Other,
}

/// The word a script reads a button as.
pub open spec fn button_text(button: MouseButton) -> Seq<char> {
    match button {
        MouseButton::Left => "left"@,
        MouseButton::Right => "right"@,
        MouseButton::Other => "other"@,
    }
}

impl MouseButton {
    /// The word a script reads this as.
    pub fn to_string(&self) -> (r: String)
        ensures
            r@ == button_text(*self),
    {
        match self {
            MouseButton::Left => "left".to_owned(),
            MouseButton::Right => "right".to_owned(),
            MouseButton::Other => "other".to_owned(),
        }
    }
}

impl Default for MouseButton {
    fn default() -> (r: Self)
        ensures
            r == MouseButton::Left,
    {
        MouseButton::Left
    }
}

/// The modifier keys held during a click or scroll.
#[derive(Debug, Clone, Copy, PartialEq, Eq, Structural)]
pub struct Modifiers {
    pub shift: bool,
    pub ctrl: bool,
    pub alt: bool,
    pub cmd: bool,
    pub func: bool,
}

/// No key held.
pub open spec fn no_modifiers() -> Modifiers {
    Modifiers { shift: false, ctrl: false, alt: false, cmd: false, func: false }
}

/// A list with one more word at its end, where the word is held.
pub open spec fn listed(list: Seq<char>, held: bool, word: Seq<char>) -> Seq<char> {
    if !held {
        list
    } else if list.len() == 0 {
        word
    } else {
        list + ","@ + word
    }
}

/// The keys held, by name and in order, with a comma between.
pub open spec fn held_list(m: Modifiers) -> Seq<char> {
    listed(
        listed(
            listed(
                listed(listed(Seq::empty(), m.shift, "shift"@), m.ctrl, "ctrl"@),
                m.alt,
                "alt"@,
            ),
            m.cmd,
            "cmd"@,
        ),
        m.func,
        "fn"@,
    )
}

/// The keys held as a script reads them: a list, or `none`.
pub open spec fn modifiers_text(m: Modifiers) -> Seq<char> {
    if m == no_modifiers() {
        "none"@
    } else {
        held_list(m)
    }
}

/// One bit of a set of keys.
pub open spec fn bit(held: bool, worth: int) -> int {
    if held {
        worth
    } else {
        0
    }
}

/// The number a set of keys travels as.
pub open spec fn modifier_bits(m: Modifiers) -> int {
    bit(m.shift, 1) + bit(m.ctrl, 2) + bit(m.alt, 4) + bit(m.cmd, 8) + bit(m.func, 16)
}

/// The keys of a number, whatever else it holds.
pub open spec fn modifiers_of(bits: int) -> Modifiers {
    Modifiers {
        shift: bits % 2 == 1,
        ctrl: (bits / 2) % 2 == 1,
        alt: (bits / 4) % 2 == 1,
        cmd: (bits / 8) % 2 == 1,
        func: (bits / 16) % 2 == 1,
    }
}

/// Adds a word to a list.
fn list(out: &mut String, held: bool, word: &str)
    ensures
        final(out)@ == listed(old(out)@, held, word@),
{
    if held {
        if out.as_str().unicode_len() > 0 {
            out.append(",");
        }
        out.append(word);
        proof {
            if old(out)@.len() == 0 {
                assert(old(out)@ + word@ =~= word@);
            }
        }
    }
}

impl Modifiers {
    /// No key held.
    pub fn empty() -> (r: Modifiers)
        ensures
            r == no_modifiers(),
    {
        Modifiers { shift: false, ctrl: false, alt: false, cmd: false, func: false }
    }

    /// Whether no key is held.
    pub fn is_empty(&self) -> (r: bool)
        ensures
            r == (*self == no_modifiers()),
    {
        !self.shift && !self.ctrl && !self.alt && !self.cmd && !self.func
    }

    /// The number this travels as.
    pub fn bits(&self) -> (r: u8)
        ensures
            r == modifier_bits(*self),
    {
        let shift: u8 = if self.shift { 1 } else { 0 };
        let ctrl: u8 = if self.ctrl { 2 } else { 0 };
        let alt: u8 = if self.alt { 4 } else { 0 };
        let cmd: u8 = if self.cmd { 8 } else { 0 };
        let func: u8 = if self.func { 16 } else { 0 };
        shift + ctrl + alt + cmd + func
    }

    /// The keys of a number. A bit that is none of them is a key nobody here
    /// models, not a corrupt message.
    pub fn from_bits_truncate(bits: u8) -> (r: Modifiers)
        ensures
            r == modifiers_of(bits as int),
    {
        Modifiers {
            shift: bits % 2 == 1,
            ctrl: (bits / 2) % 2 == 1,
            alt: (bits / 4) % 2 == 1,
            cmd: (bits / 8) % 2 == 1,
            func: (bits / 16) % 2 == 1,
        }
    }

    /// A comma-separated list, or `none`: a script comparing against nothing
    /// would be a trap.
    pub fn to_string(&self) -> (r: String)
        ensures
            r@ == modifiers_text(*self),
    {
        if self.is_empty() {
            return "none".to_owned();
        }
        let mut out = String::new();
        list(&mut out, self.shift, "shift");
        list(&mut out, self.ctrl, "ctrl");
        list(&mut out, self.alt, "alt");
        list(&mut out, self.cmd, "cmd");
        list(&mut out, self.func, "fn");
        out
    }
}

/// A set of keys survives the trip as a number.
pub proof fn law_modifiers_round_trip(m: Modifiers)
    ensures
        0 <= modifier_bits(m) < 32,
        modifiers_of(modifier_bits(m)) == m,
{
}

/// A boolean as a script reads one.
pub open spec fn truth_text(value: bool) -> Seq<char> {
    if value {
        "true"@
    } else {
        "false"@
    }
}

/// A boolean as a script reads one.
pub fn truth(value: bool) -> (r: String)
    ensures
        r@ == truth_text(value),
{
    if value {
        "true".to_owned()
    } else {
        "false".to_owned()
    }
}

/// A number that may be absent.
pub open spec fn option_u32(value: Option<u32>) -> Option<nat> {
    match value {
        Some(n) => Some(n as nat),
        None => None,
    }
}

/// A number that may be absent.
pub open spec fn option_u8(value: Option<u8>) -> Option<nat> {
    match value {
        Some(n) => Some(n as nat),
        None => None,
    }
}

/// An absent number is the empty text a shell already has for "unset".
pub open spec fn optional_text(value: Option<nat>) -> Seq<char> {
    match value {
        Some(n) => decimal_text(n),
        None => Seq::empty(),
    }
}

/// A number as a script reads one, or nothing.
pub fn optional_u32(value: Option<u32>) -> (r: String)
    ensures
        r@ == optional_text(option_u32(value)),
{
    match value {
        Some(n) => decimal(n as u64),
        None => String::new(),
    }
}

/// A number as a script reads one, or nothing.
pub fn optional_u8(value: Option<u8>) -> (r: String)
    ensures
        r@ == optional_text(option_u8(value)),
{
    match value {
        Some(n) => decimal(n as u64),
        None => String::new(),
    }
}

/// One field under its own name.
pub open spec fn leaf(name: Seq<char>, value: Seq<char>) -> EntryView {
    EntryView { name, value, nested: Seq::empty() }
}

/// One field under its own name.
fn field(name: &str, value: String) -> (r: Entry)
    ensures
        r@ == leaf(name@, value@),
{
    let r = Entry { name: name.to_owned(), value, nested: Vec::new() };
    assert(r@.nested =~= Seq::<(Seq<char>, Seq<char>)>::empty());
    r
}

/// Every name a power source may set, side by side.
pub open spec fn power_names() -> Seq<Seq<EntryView>> {
    let blank = Seq::<char>::empty();
    seq![
        seq![
            leaf("adapter_watts"@, blank),
            leaf("charging"@, blank),
            leaf("time_to_full_minutes"@, blank),
        ],
        seq![leaf("time_to_empty_minutes"@, blank), leaf("charging"@, blank)],
        Seq::<EntryView>::empty(),
    ]
}

/// What a power source sets of them.
pub open spec fn power_entries(source: PowerSource) -> Seq<EntryView> {
    match source {
        PowerSource::Ac { adapter_watts, charging, time_to_full_minutes } => seq![
            leaf("adapter_watts"@, optional_text(option_u32(adapter_watts))),
            leaf("charging"@, truth_text(charging)),
            leaf("time_to_full_minutes"@, optional_text(option_u32(time_to_full_minutes))),
        ],
        PowerSource::Battery { time_to_empty_minutes } => seq![
            leaf("time_to_empty_minutes"@, optional_text(option_u32(time_to_empty_minutes))),
            leaf("charging"@, truth_text(false)),
        ],
        PowerSource::Unknown => Seq::empty(),
    }
}

impl EnvFields for PowerSource {
    open spec fn sets(&self) -> Seq<(Seq<char>, Seq<char>)> {
        variant_pairs(power_names(), power_entries(*self))
    }

    fn pairs(&self) -> (r: Vec<(String, String)>) {
        let ac = vec![
            field("adapter_watts", String::new()),
            field("charging", String::new()),
            field("time_to_full_minutes", String::new()),
        ];
        let battery = vec![
            field("time_to_empty_minutes", String::new()),
            field("charging", String::new()),
        ];
        let unknown: Vec<Entry> = Vec::new();
        proof {
            assert(entry_views(ac@) =~= power_names()[0]);
            assert(entry_views(battery@) =~= power_names()[1]);
            assert(entry_views(unknown@) =~= power_names()[2]);
        }
        let names: Vec<Vec<Entry>> = vec![ac, battery, unknown];
        proof {
            assert(variant_views(names@) =~= power_names());
        }
        let active: Vec<Entry> = match self {
            PowerSource::Ac { adapter_watts, charging, time_to_full_minutes } => vec![
                field("adapter_watts", optional_u32(*adapter_watts)),
                field("charging", truth(*charging)),
                field("time_to_full_minutes", optional_u32(*time_to_full_minutes)),
            ],
            PowerSource::Battery { time_to_empty_minutes } => vec![
                field("time_to_empty_minutes", optional_u32(*time_to_empty_minutes)),
                field("charging", truth(false)),
            ],
            PowerSource::Unknown => Vec::new(),
        };
        proof {
            assert(entry_views(active@) =~= power_entries(*self));
        }
        enum_pairs(&names, &active)
    }
}

// ---------------------------------------------------------------------------
// Topics

/// The built-in events, by name alone.
#[derive(Debug, Clone, Copy, PartialEq, Eq, PartialOrd, Ord, Hash, Structural)]
pub enum Topic {
    Routine,
    Forced,
    FrontAppSwitched,
    AppLaunched,
    SpaceChanged,
    DisplayChanged,
    SystemWoke,
    SystemWillSleep,
    VolumeChanged,
    BrightnessChanged,
    PowerSourceChanged,
    WifiChanged,
    MediaChanged,
    SpaceWindowsChanged,
    ConfigReloaded,
    AccessibilityChanged,
    MouseEntered,
    MouseExited,
    MouseEnteredGlobal,
    MouseExitedGlobal,
    MouseClicked,
    MouseScrolled,
    MouseScrolledGlobal,
}

/// The name a config writes a topic by.
pub open spec fn topic_name(topic: Topic) -> Seq<char> {
    match topic {
        Topic::Routine => "routine"@,
        Topic::Forced => "forced"@,
        Topic::FrontAppSwitched => "front_app_switched"@,
        Topic::AppLaunched => "app_launched"@,
        Topic::SpaceChanged => "space_changed"@,
        Topic::DisplayChanged => "display_changed"@,
        Topic::SystemWoke => "system_woke"@,
        Topic::SystemWillSleep => "system_will_sleep"@,
        Topic::VolumeChanged => "volume_changed"@,
        Topic::BrightnessChanged => "brightness_changed"@,
        Topic::PowerSourceChanged => "power_source_changed"@,
        Topic::WifiChanged => "wifi_changed"@,
        Topic::MediaChanged => "media_changed"@,
        Topic::SpaceWindowsChanged => "space_windows_changed"@,
        Topic::ConfigReloaded => "config_reloaded"@,
        Topic::AccessibilityChanged => "accessibility_changed"@,
        Topic::MouseEntered => "mouse.entered"@,
        Topic::MouseExited => "mouse.exited"@,
        Topic::MouseEnteredGlobal => "mouse.entered.global"@,
        Topic::MouseExitedGlobal => "mouse.exited.global"@,
        Topic::MouseClicked => "mouse.clicked"@,
        Topic::MouseScrolled => "mouse.scrolled"@,
        Topic::MouseScrolledGlobal => "mouse.scrolled.global"@,
    }
}

/// Whether a topic happens to one item rather than to the bar.
pub open spec fn topic_scoped(topic: Topic) -> bool {
    match topic {
        Topic::MouseEntered => true,
        Topic::MouseExited => true,
        Topic::MouseClicked => true,
        Topic::MouseScrolled => true,
        _ => false,
    }
}

/// Every topic, in the order they are listed.
pub open spec fn all_topics() -> Seq<Topic> {
    seq![
        Topic::Routine,
        Topic::Forced,
        Topic::FrontAppSwitched,
        Topic::AppLaunched,
        Topic::SpaceChanged,
        Topic::DisplayChanged,
        Topic::SystemWoke,
        Topic::SystemWillSleep,
        Topic::VolumeChanged,
        Topic::BrightnessChanged,
        Topic::PowerSourceChanged,
        Topic::WifiChanged,
        Topic::MediaChanged,
        Topic::SpaceWindowsChanged,
        Topic::ConfigReloaded,
        Topic::AccessibilityChanged,
        Topic::MouseEntered,
        Topic::MouseExited,
        Topic::MouseEnteredGlobal,
        Topic::MouseExitedGlobal,
        Topic::MouseClicked,
        Topic::MouseScrolled,
        Topic::MouseScrolledGlobal,
    ]
}

/// The topic of a name.
pub open spec fn topic_named(name: Seq<char>) -> Option<Topic> {
    if name == "routine"@ {
        Some(Topic::Routine)
    } else if name == "forced"@ {
        Some(Topic::Forced)
    } else if name == "front_app_switched"@ {
        Some(Topic::FrontAppSwitched)
    } else if name == "app_launched"@ {
        Some(Topic::AppLaunched)
    } else if name == "space_changed"@ {
        Some(Topic::SpaceChanged)
    } else if name == "display_changed"@ {
        Some(Topic::DisplayChanged)
    } else if name == "system_woke"@ {
        Some(Topic::SystemWoke)
    } else if name == "system_will_sleep"@ {
        Some(Topic::SystemWillSleep)
    } else if name == "volume_changed"@ {
        Some(Topic::VolumeChanged)
    } else if name == "brightness_changed"@ {
        Some(Topic::BrightnessChanged)
    } else if name == "power_source_changed"@ {
        Some(Topic::PowerSourceChanged)
    } else if name == "wifi_changed"@ {
        Some(Topic::WifiChanged)
    } else if name == "media_changed"@ {
        Some(Topic::MediaChanged)
    } else if name == "space_windows_changed"@ {
        Some(Topic::SpaceWindowsChanged)
    } else if name == "config_reloaded"@ {
        Some(Topic::ConfigReloaded)
    } else if name == "accessibility_changed"@ {
        Some(Topic::AccessibilityChanged)
    } else if name == "mouse.entered"@ {
        Some(Topic::MouseEntered)
    } else if name == "mouse.exited"@ {
        Some(Topic::MouseExited)
    } else if name == "mouse.entered.global"@ {
        Some(Topic::MouseEnteredGlobal)
    } else if name == "mouse.exited.global"@ {
        Some(Topic::MouseExitedGlobal)
    } else if name == "mouse.clicked"@ {
        Some(Topic::MouseClicked)
    } else if name == "mouse.scrolled"@ {
        Some(Topic::MouseScrolled)
    } else if name == "mouse.scrolled.global"@ {
        Some(Topic::MouseScrolledGlobal)
    } else {
        None
    }
}

impl Topic {
    /// The name a config writes this by.
    pub fn name(self) -> (r: &'static str)
        ensures
            r@ == topic_name(self),
    {
        match self {
            Topic::Routine => "routine",
            Topic::Forced => "forced",
            Topic::FrontAppSwitched => "front_app_switched",
            Topic::AppLaunched => "app_launched",
            Topic::SpaceChanged => "space_changed",
            Topic::DisplayChanged => "display_changed",
            Topic::SystemWoke => "system_woke",
            Topic::SystemWillSleep => "system_will_sleep",
            Topic::VolumeChanged => "volume_changed",
            Topic::BrightnessChanged => "brightness_changed",
            Topic::PowerSourceChanged => "power_source_changed",
            Topic::WifiChanged => "wifi_changed",
            Topic::MediaChanged => "media_changed",
            Topic::SpaceWindowsChanged => "space_windows_changed",
            Topic::ConfigReloaded => "config_reloaded",
            Topic::AccessibilityChanged => "accessibility_changed",
            Topic::MouseEntered => "mouse.entered",
            Topic::MouseExited => "mouse.exited",
            Topic::MouseEnteredGlobal => "mouse.entered.global",
            Topic::MouseExitedGlobal => "mouse.exited.global",
            Topic::MouseClicked => "mouse.clicked",
            Topic::MouseScrolled => "mouse.scrolled",
            Topic::MouseScrolledGlobal => "mouse.scrolled.global",
        }
    }

    /// The topic of a name.
    pub fn named(name: &str) -> (r: Option<Topic>)
        ensures
            r == topic_named(name@),
    {
        if same(name, "routine") {
            Some(Topic::Routine)
        } else if same(name, "forced") {
            Some(Topic::Forced)
        } else if same(name, "front_app_switched") {
            Some(Topic::FrontAppSwitched)
        } else if same(name, "app_launched") {
            Some(Topic::AppLaunched)
        } else if same(name, "space_changed") {
            Some(Topic::SpaceChanged)
        } else if same(name, "display_changed") {
            Some(Topic::DisplayChanged)
        } else if same(name, "system_woke") {
            Some(Topic::SystemWoke)
        } else if same(name, "system_will_sleep") {
            Some(Topic::SystemWillSleep)
        } else if same(name, "volume_changed") {
            Some(Topic::VolumeChanged)
        } else if same(name, "brightness_changed") {
            Some(Topic::BrightnessChanged)
        } else if same(name, "power_source_changed") {
            Some(Topic::PowerSourceChanged)
        } else if same(name, "wifi_changed") {
            Some(Topic::WifiChanged)
        } else if same(name, "media_changed") {
            Some(Topic::MediaChanged)
        } else if same(name, "space_windows_changed") {
            Some(Topic::SpaceWindowsChanged)
        } else if same(name, "config_reloaded") {
            Some(Topic::ConfigReloaded)
        } else if same(name, "accessibility_changed") {
            Some(Topic::AccessibilityChanged)
        } else if same(name, "mouse.entered") {
            Some(Topic::MouseEntered)
        } else if same(name, "mouse.exited") {
            Some(Topic::MouseExited)
        } else if same(name, "mouse.entered.global") {
            Some(Topic::MouseEnteredGlobal)
        } else if same(name, "mouse.exited.global") {
            Some(Topic::MouseExitedGlobal)
        } else if same(name, "mouse.clicked") {
            Some(Topic::MouseClicked)
        } else if same(name, "mouse.scrolled") {
            Some(Topic::MouseScrolled)
        } else if same(name, "mouse.scrolled.global") {
            Some(Topic::MouseScrolledGlobal)
        } else {
            None
        }
    }
}

/// A character of a topic's name.
pub open spec fn plain_char(c: char) -> bool {
    ('a' <= c && c <= 'z') || c == '_' || c == '.'
}

/// Topics are written in small letters, underscores and dots.
proof fn lemma_topic_names_plain(topic: Topic)
    ensures
        topic_name(topic).len() > 0,
        forall|i: int| 0 <= i < topic_name(topic).len() ==> plain_char(#[trigger] topic_name(topic)[i]),
{
    match topic {
        Topic::Routine => {
            reveal_strlit("routine");
            assert("routine"@ =~= seq!['r', 'o', 'u', 't', 'i', 'n', 'e']);
        },
        Topic::Forced => {
            reveal_strlit("forced");
            assert("forced"@ =~= seq!['f', 'o', 'r', 'c', 'e', 'd']);
        },
        Topic::FrontAppSwitched => {
            reveal_strlit("front_app_switched");
            assert("front_app_switched"@ =~= seq!['f', 'r', 'o', 'n', 't', '_', 'a', 'p', 'p', '_', 's', 'w', 'i', 't', 'c', 'h', 'e', 'd']);
        },
        Topic::AppLaunched => {
            reveal_strlit("app_launched");
            assert("app_launched"@ =~= seq!['a', 'p', 'p', '_', 'l', 'a', 'u', 'n', 'c', 'h', 'e', 'd']);
        },
        Topic::SpaceChanged => {
            reveal_strlit("space_changed");
            assert("space_changed"@ =~= seq!['s', 'p', 'a', 'c', 'e', '_', 'c', 'h', 'a', 'n', 'g', 'e', 'd']);
        },
        Topic::DisplayChanged => {
            reveal_strlit("display_changed");
            assert("display_changed"@ =~= seq!['d', 'i', 's', 'p', 'l', 'a', 'y', '_', 'c', 'h', 'a', 'n', 'g', 'e', 'd']);
        },
        Topic::SystemWoke => {
            reveal_strlit("system_woke");
            assert("system_woke"@ =~= seq!['s', 'y', 's', 't', 'e', 'm', '_', 'w', 'o', 'k', 'e']);
        },
        Topic::SystemWillSleep => {
            reveal_strlit("system_will_sleep");
            assert("system_will_sleep"@ =~= seq!['s', 'y', 's', 't', 'e', 'm', '_', 'w', 'i', 'l', 'l', '_', 's', 'l', 'e', 'e', 'p']);
        },
        Topic::VolumeChanged => {
            reveal_strlit("volume_changed");
            assert("volume_changed"@ =~= seq!['v', 'o', 'l', 'u', 'm', 'e', '_', 'c', 'h', 'a', 'n', 'g', 'e', 'd']);
        },
        Topic::BrightnessChanged => {
            reveal_strlit("brightness_changed");
            assert("brightness_changed"@ =~= seq!['b', 'r', 'i', 'g', 'h', 't', 'n', 'e', 's', 's', '_', 'c', 'h', 'a', 'n', 'g', 'e', 'd']);
        },
        Topic::PowerSourceChanged => {
            reveal_strlit("power_source_changed");
            assert("power_source_changed"@ =~= seq!['p', 'o', 'w', 'e', 'r', '_', 's', 'o', 'u', 'r', 'c', 'e', '_', 'c', 'h', 'a', 'n', 'g', 'e', 'd']);
        },
        Topic::WifiChanged => {
            reveal_strlit("wifi_changed");
            assert("wifi_changed"@ =~= seq!['w', 'i', 'f', 'i', '_', 'c', 'h', 'a', 'n', 'g', 'e', 'd']);
        },
        Topic::MediaChanged => {
            reveal_strlit("media_changed");
            assert("media_changed"@ =~= seq!['m', 'e', 'd', 'i', 'a', '_', 'c', 'h', 'a', 'n', 'g', 'e', 'd']);
        },
        Topic::SpaceWindowsChanged => {
            reveal_strlit("space_windows_changed");
            assert("space_windows_changed"@ =~= seq!['s', 'p', 'a', 'c', 'e', '_', 'w', 'i', 'n', 'd', 'o', 'w', 's', '_', 'c', 'h', 'a', 'n', 'g', 'e', 'd']);
        },
        Topic::ConfigReloaded => {
            reveal_strlit("config_reloaded");
            assert("config_reloaded"@ =~= seq!['c', 'o', 'n', 'f', 'i', 'g', '_', 'r', 'e', 'l', 'o', 'a', 'd', 'e', 'd']);
        },
        Topic::AccessibilityChanged => {
            reveal_strlit("accessibility_changed");
            assert("accessibility_changed"@ =~= seq!['a', 'c', 'c', 'e', 's', 's', 'i', 'b', 'i', 'l', 'i', 't', 'y', '_', 'c', 'h', 'a', 'n', 'g', 'e', 'd']);
        },
        Topic::MouseEntered => {
            reveal_strlit("mouse.entered");
            assert("mouse.entered"@ =~= seq!['m', 'o', 'u', 's', 'e', '.', 'e', 'n', 't', 'e', 'r', 'e', 'd']);
        },
        Topic::MouseExited => {
            reveal_strlit("mouse.exited");
            assert("mouse.exited"@ =~= seq!['m', 'o', 'u', 's', 'e', '.', 'e', 'x', 'i', 't', 'e', 'd']);
        },
        Topic::MouseEnteredGlobal => {
            reveal_strlit("mouse.entered.global");
            assert("mouse.entered.global"@ =~= seq!['m', 'o', 'u', 's', 'e', '.', 'e', 'n', 't', 'e', 'r', 'e', 'd', '.', 'g', 'l', 'o', 'b', 'a', 'l']);
        },
        Topic::MouseExitedGlobal => {
            reveal_strlit("mouse.exited.global");
            assert("mouse.exited.global"@ =~= seq!['m', 'o', 'u', 's', 'e', '.', 'e', 'x', 'i', 't', 'e', 'd', '.', 'g', 'l', 'o', 'b', 'a', 'l']);
        },
        Topic::MouseClicked => {
            reveal_strlit("mouse.clicked");
            assert("mouse.clicked"@ =~= seq!['m', 'o', 'u', 's', 'e', '.', 'c', 'l', 'i', 'c', 'k', 'e', 'd']);
        },
        Topic::MouseScrolled => {
            reveal_strlit("mouse.scrolled");
            assert("mouse.scrolled"@ =~= seq!['m', 'o', 'u', 's', 'e', '.', 's', 'c', 'r', 'o', 'l', 'l', 'e', 'd']);
        },
        Topic::MouseScrolledGlobal => {
            reveal_strlit("mouse.scrolled.global");
            assert("mouse.scrolled.global"@ =~= seq!['m', 'o', 'u', 's', 'e', '.', 's', 'c', 'r', 'o', 'l', 'l', 'e', 'd', '.', 'g', 'l', 'o', 'b', 'a', 'l']);
        },
    }
}

/// A topic's name names it.
pub proof fn law_topic_names_round_trip(topic: Topic)
    ensures
        topic_named(topic_name(topic)) == Some(topic),
{
    reveal_strlit("routine");
    reveal_strlit("forced");
    reveal_strlit("front_app_switched");
    reveal_strlit("app_launched");
    reveal_strlit("space_changed");
    reveal_strlit("display_changed");
    reveal_strlit("system_woke");
    reveal_strlit("system_will_sleep");
    reveal_strlit("volume_changed");
    reveal_strlit("brightness_changed");
    reveal_strlit("power_source_changed");
    reveal_strlit("wifi_changed");
    reveal_strlit("media_changed");
    reveal_strlit("space_windows_changed");
    reveal_strlit("config_reloaded");
    reveal_strlit("accessibility_changed");
    reveal_strlit("mouse.entered");
    reveal_strlit("mouse.exited");
    reveal_strlit("mouse.entered.global");
    reveal_strlit("mouse.exited.global");
    reveal_strlit("mouse.clicked");
    reveal_strlit("mouse.scrolled");
    reveal_strlit("mouse.scrolled.global");
    assert("routine"@.len() == 7);
    assert("forced"@.len() == 6);
    assert("front_app_switched"@.len() == 18);
    assert("app_launched"@.len() == 12);
    assert("space_changed"@.len() == 13);
    assert("display_changed"@.len() == 15);
    assert("system_woke"@.len() == 11);
    assert("system_will_sleep"@.len() == 17);
    assert("volume_changed"@.len() == 14);
    assert("brightness_changed"@.len() == 18);
    assert("power_source_changed"@.len() == 20);
    assert("wifi_changed"@.len() == 12);
    assert("media_changed"@.len() == 13);
    assert("space_windows_changed"@.len() == 21);
    assert("config_reloaded"@.len() == 15);
    assert("accessibility_changed"@.len() == 21);
    assert("mouse.entered"@.len() == 13);
    assert("mouse.exited"@.len() == 12);
    assert("mouse.entered.global"@.len() == 20);
    assert("mouse.exited.global"@.len() == 19);
    assert("mouse.clicked"@.len() == 13);
    assert("mouse.scrolled"@.len() == 14);
    assert("mouse.scrolled.global"@.len() == 21);
    assert("front_app_switched"@[0] == 'f');
    assert("brightness_changed"@[0] == 'b');
    assert("app_launched"@[0] == 'a');
    assert("wifi_changed"@[0] == 'w');
    assert("mouse.exited"@[0] == 'm');
    assert("space_changed"@[0] == 's');
    assert("media_changed"@[0] == 'm');
    assert("mouse.entered"@[0] == 'm');
    assert("mouse.clicked"@[0] == 'm');
    assert("display_changed"@[0] == 'd');
    assert("config_reloaded"@[0] == 'c');
    assert("volume_changed"@[0] == 'v');
    assert("mouse.scrolled"@[0] == 'm');
    assert("power_source_changed"@[0] == 'p');
    assert("mouse.entered.global"@[0] == 'm');
    assert("media_changed"@[1] == 'e');
    assert("mouse.entered"@[1] == 'o');
    assert("mouse.clicked"@[1] == 'o');
    assert("space_windows_changed"@[0] == 's');
    assert("accessibility_changed"@[0] == 'a');
    assert("mouse.scrolled.global"@[0] == 'm');
    assert("mouse.entered"@[6] == 'e');
    assert("mouse.clicked"@[6] == 'c');
}

// ---------------------------------------------------------------------------
// Kinds

/// What an item subscribes to: an event without its payload.
///
/// Only the kinds that happen to one item rather than to the bar carry an
/// `Item`. A config writes a bare name, so there is no item to name in one;
/// whoever knows which item is meant calls [`Kind::map`].
#[derive(Debug, Clone, PartialEq, Eq, Hash, PartialOrd, Ord)]
pub enum Kind<Item = ()> {
    Routine,
    Forced,
    FrontAppSwitched,
    AppLaunched,
    SpaceChanged,
    DisplayChanged,
    SystemWoke,
    SystemWillSleep,
    VolumeChanged,
    BrightnessChanged,
    PowerSourceChanged,
    WifiChanged,
    MediaChanged,
    SpaceWindowsChanged,
    ConfigReloaded,
    AccessibilityChanged,
    MouseEntered(Item),
    MouseExited(Item),
    MouseEnteredGlobal,
    MouseExitedGlobal,
    MouseClicked(Item),
    MouseScrolled(Item),
    MouseScrolledGlobal,
    /// An event a config invented.
    Custom(String),
}

/// [`Kind`] over plain text.
pub enum KindView<Item> {
    Plain(Topic),
    Scoped(Topic, Item),
    Custom(Seq<char>),
}

impl<Item> View for Kind<Item> {
    type V = KindView<Item>;

    open spec fn view(&self) -> KindView<Item> {
        match self {
            Kind::Routine => KindView::Plain(Topic::Routine),
            Kind::Forced => KindView::Plain(Topic::Forced),
            Kind::FrontAppSwitched => KindView::Plain(Topic::FrontAppSwitched),
            Kind::AppLaunched => KindView::Plain(Topic::AppLaunched),
            Kind::SpaceChanged => KindView::Plain(Topic::SpaceChanged),
            Kind::DisplayChanged => KindView::Plain(Topic::DisplayChanged),
            Kind::SystemWoke => KindView::Plain(Topic::SystemWoke),
            Kind::SystemWillSleep => KindView::Plain(Topic::SystemWillSleep),
            Kind::VolumeChanged => KindView::Plain(Topic::VolumeChanged),
            Kind::BrightnessChanged => KindView::Plain(Topic::BrightnessChanged),
            Kind::PowerSourceChanged => KindView::Plain(Topic::PowerSourceChanged),
            Kind::WifiChanged => KindView::Plain(Topic::WifiChanged),
            Kind::MediaChanged => KindView::Plain(Topic::MediaChanged),
            Kind::SpaceWindowsChanged => KindView::Plain(Topic::SpaceWindowsChanged),
            Kind::ConfigReloaded => KindView::Plain(Topic::ConfigReloaded),
            Kind::AccessibilityChanged => KindView::Plain(Topic::AccessibilityChanged),
            Kind::MouseEntered(item) => KindView::Scoped(Topic::MouseEntered, *item),
            Kind::MouseExited(item) => KindView::Scoped(Topic::MouseExited, *item),
            Kind::MouseEnteredGlobal => KindView::Plain(Topic::MouseEnteredGlobal),
            Kind::MouseExitedGlobal => KindView::Plain(Topic::MouseExitedGlobal),
            Kind::MouseClicked(item) => KindView::Scoped(Topic::MouseClicked, *item),
            Kind::MouseScrolled(item) => KindView::Scoped(Topic::MouseScrolled, *item),
            Kind::MouseScrolledGlobal => KindView::Plain(Topic::MouseScrolledGlobal),
            Kind::Custom(name) => KindView::Custom(name@),
        }
    }
}

/// The kind a topic's bare name means.
pub open spec fn bare_kind(topic: Topic) -> KindView<()> {
    if topic_scoped(topic) {
        KindView::Scoped(topic, ())
    } else {
        KindView::Plain(topic)
    }
}

/// The name a config writes a kind by.
pub open spec fn kind_name<Item>(kind: KindView<Item>) -> Seq<char> {
    match kind {
        KindView::Plain(topic) => topic_name(topic),
        KindView::Scoped(topic, _) => topic_name(topic),
        KindView::Custom(name) => name,
    }
}

/// A name as it is compared: `-` is `_`, and case does not count.
pub open spec fn normalised(text: Seq<char>) -> Seq<char> {
    lowered(replaced(text, '-', '_'))
}

/// A character of an invented event's name.
pub open spec fn event_char(c: char) -> bool {
    ('a' <= c && c <= 'z') || ('A' <= c && c <= 'Z') || ('0' <= c && c <= '9') || c == '_' || c
        == '.'
}

/// What an invented event may be called.
pub open spec fn is_event_word(name: Seq<char>) -> bool {
    name.len() > 0 && forall|i: int| 0 <= i < name.len() ==> event_char(#[trigger] name[i])
}

/// The kind a text names: a built-in wherever it is one, and else one a config
/// invented.
pub open spec fn kind_read(text: Seq<char>) -> Option<KindView<()>> {
    match topic_named(normalised(text)) {
        Some(topic) => Some(bare_kind(topic)),
        None => if is_event_word(normalised(text)) {
            Some(KindView::Custom(normalised(text)))
        } else {
            None
        },
    }
}

/// A text that names no event.
#[derive(Debug, Clone, PartialEq, Eq)]
pub struct InvalidEvent(String);

impl View for InvalidEvent {
    type V = Seq<char>;

    /// The text as it was written.
    closed spec fn view(&self) -> Seq<char> {
        self.0@
    }
}

impl InvalidEvent {
    /// The sentence a config's author is shown.
    pub fn to_string(&self) -> (r: String)
        ensures
            r@ == "`"@ + self@ + "` is not an event name"@,
    {
        joined3("`", &self.0, "` is not an event name")
    }
}

impl<Item> Kind<Item> {
    /// Recasts the item this depends on, keeping everything else. A kind that
    /// carries no item has none to recast.
    pub fn map<Other, F: FnOnce(Item) -> Other>(self, f: F) -> (r: Kind<Other>)
        requires
            self@ matches KindView::Scoped(_, item) ==> call_requires(f, (item,)),
        ensures
            match self@ {
                KindView::Plain(topic) => r@ == KindView::<Other>::Plain(topic),
                KindView::Scoped(topic, item) => match r@ {
                    KindView::Scoped(other, out) => other == topic && call_ensures(f, (item,), out),
                    _ => false,
                },
                KindView::Custom(name) => r@ == KindView::<Other>::Custom(name),
            },
    {
        match self {
            Kind::Routine => Kind::Routine,
            Kind::Forced => Kind::Forced,
            Kind::FrontAppSwitched => Kind::FrontAppSwitched,
            Kind::AppLaunched => Kind::AppLaunched,
            Kind::SpaceChanged => Kind::SpaceChanged,
            Kind::DisplayChanged => Kind::DisplayChanged,
            Kind::SystemWoke => Kind::SystemWoke,
            Kind::SystemWillSleep => Kind::SystemWillSleep,
            Kind::VolumeChanged => Kind::VolumeChanged,
            Kind::BrightnessChanged => Kind::BrightnessChanged,
            Kind::PowerSourceChanged => Kind::PowerSourceChanged,
            Kind::WifiChanged => Kind::WifiChanged,
            Kind::MediaChanged => Kind::MediaChanged,
            Kind::SpaceWindowsChanged => Kind::SpaceWindowsChanged,
            Kind::ConfigReloaded => Kind::ConfigReloaded,
            Kind::AccessibilityChanged => Kind::AccessibilityChanged,
            Kind::MouseEntered(item) => Kind::MouseEntered(f(item)),
            Kind::MouseExited(item) => Kind::MouseExited(f(item)),
            Kind::MouseEnteredGlobal => Kind::MouseEnteredGlobal,
            Kind::MouseExitedGlobal => Kind::MouseExitedGlobal,
            Kind::MouseClicked(item) => Kind::MouseClicked(f(item)),
            Kind::MouseScrolled(item) => Kind::MouseScrolled(f(item)),
            Kind::MouseScrolledGlobal => Kind::MouseScrolledGlobal,
            Kind::Custom(name) => Kind::Custom(name),
        }
    }

    /// What this kind is bound to, for one that happens to one item.
    pub fn item(&self) -> (r: Option<&Item>)
        ensures
            match self@ {
                KindView::Scoped(_, item) => r == Some(&item),
                _ => r is None,
            },
    {
        match self {
            Kind::MouseEntered(item) => Some(item),
            Kind::MouseExited(item) => Some(item),
            Kind::MouseClicked(item) => Some(item),
            Kind::MouseScrolled(item) => Some(item),
            _ => None,
        }
    }

    /// The built-in this is a kind of, where it is one.
    pub fn topic(&self) -> (r: Option<Topic>)
        ensures
            r == match self@ {
                KindView::Plain(topic) => Some(topic),
                KindView::Scoped(topic, _) => Some(topic),
                KindView::Custom(_) => None,
            },
    {
        match self {
            Kind::Routine => Some(Topic::Routine),
            Kind::Forced => Some(Topic::Forced),
            Kind::FrontAppSwitched => Some(Topic::FrontAppSwitched),
            Kind::AppLaunched => Some(Topic::AppLaunched),
            Kind::SpaceChanged => Some(Topic::SpaceChanged),
            Kind::DisplayChanged => Some(Topic::DisplayChanged),
            Kind::SystemWoke => Some(Topic::SystemWoke),
            Kind::SystemWillSleep => Some(Topic::SystemWillSleep),
            Kind::VolumeChanged => Some(Topic::VolumeChanged),
            Kind::BrightnessChanged => Some(Topic::BrightnessChanged),
            Kind::PowerSourceChanged => Some(Topic::PowerSourceChanged),
            Kind::WifiChanged => Some(Topic::WifiChanged),
            Kind::MediaChanged => Some(Topic::MediaChanged),
            Kind::SpaceWindowsChanged => Some(Topic::SpaceWindowsChanged),
            Kind::ConfigReloaded => Some(Topic::ConfigReloaded),
            Kind::AccessibilityChanged => Some(Topic::AccessibilityChanged),
            Kind::MouseEntered(_) => Some(Topic::MouseEntered),
            Kind::MouseExited(_) => Some(Topic::MouseExited),
            Kind::MouseEnteredGlobal => Some(Topic::MouseEnteredGlobal),
            Kind::MouseExitedGlobal => Some(Topic::MouseExitedGlobal),
            Kind::MouseClicked(_) => Some(Topic::MouseClicked),
            Kind::MouseScrolled(_) => Some(Topic::MouseScrolled),
            Kind::MouseScrolledGlobal => Some(Topic::MouseScrolledGlobal),
            Kind::Custom(_) => None,
        }
    }
}

impl Kind<()> {
    /// The kind a topic's bare name means.
    pub fn of(topic: Topic) -> (r: Kind<()>)
        ensures
            r@ == bare_kind(topic),
    {
        match topic {
            Topic::Routine => Kind::Routine,
            Topic::Forced => Kind::Forced,
            Topic::FrontAppSwitched => Kind::FrontAppSwitched,
            Topic::AppLaunched => Kind::AppLaunched,
            Topic::SpaceChanged => Kind::SpaceChanged,
            Topic::DisplayChanged => Kind::DisplayChanged,
            Topic::SystemWoke => Kind::SystemWoke,
            Topic::SystemWillSleep => Kind::SystemWillSleep,
            Topic::VolumeChanged => Kind::VolumeChanged,
            Topic::BrightnessChanged => Kind::BrightnessChanged,
            Topic::PowerSourceChanged => Kind::PowerSourceChanged,
            Topic::WifiChanged => Kind::WifiChanged,
            Topic::MediaChanged => Kind::MediaChanged,
            Topic::SpaceWindowsChanged => Kind::SpaceWindowsChanged,
            Topic::ConfigReloaded => Kind::ConfigReloaded,
            Topic::AccessibilityChanged => Kind::AccessibilityChanged,
            Topic::MouseEntered => Kind::MouseEntered(()),
            Topic::MouseExited => Kind::MouseExited(()),
            Topic::MouseEnteredGlobal => Kind::MouseEnteredGlobal,
            Topic::MouseExitedGlobal => Kind::MouseExitedGlobal,
            Topic::MouseClicked => Kind::MouseClicked(()),
            Topic::MouseScrolled => Kind::MouseScrolled(()),
            Topic::MouseScrolledGlobal => Kind::MouseScrolledGlobal,
        }
    }

    /// The name a config writes, and a script reads.
    pub fn name(&self) -> (r: &str)
        ensures
            r@ == kind_name(self@),
    {
        match self {
            Kind::Custom(name) => name.as_str(),
            Kind::Routine => "routine",
            Kind::Forced => "forced",
            Kind::FrontAppSwitched => "front_app_switched",
            Kind::AppLaunched => "app_launched",
            Kind::SpaceChanged => "space_changed",
            Kind::DisplayChanged => "display_changed",
            Kind::SystemWoke => "system_woke",
            Kind::SystemWillSleep => "system_will_sleep",
            Kind::VolumeChanged => "volume_changed",
            Kind::BrightnessChanged => "brightness_changed",
            Kind::PowerSourceChanged => "power_source_changed",
            Kind::WifiChanged => "wifi_changed",
            Kind::MediaChanged => "media_changed",
            Kind::SpaceWindowsChanged => "space_windows_changed",
            Kind::ConfigReloaded => "config_reloaded",
            Kind::AccessibilityChanged => "accessibility_changed",
            Kind::MouseEntered(_) => "mouse.entered",
            Kind::MouseExited(_) => "mouse.exited",
            Kind::MouseEnteredGlobal => "mouse.entered.global",
            Kind::MouseExitedGlobal => "mouse.exited.global",
            Kind::MouseClicked(_) => "mouse.clicked",
            Kind::MouseScrolled(_) => "mouse.scrolled",
            Kind::MouseScrolledGlobal => "mouse.scrolled.global",
        }
    }

    /// The name as text of its own.
    pub fn to_string(&self) -> (r: String)
        ensures
            r@ == kind_name(self@),
    {
        self.name().to_owned()
    }

    /// The same kind again.
    pub fn copied(&self) -> (r: Kind<()>)
        ensures
            r@ == self@,
    {
        match self.topic() {
            Some(topic) => Kind::of(topic),
            None => match self {
                Kind::Custom(name) => Kind::Custom(name.clone()),
                _ => Kind::Routine,
            },
        }
    }

    /// Whether two kinds are one kind.
    pub fn same(&self, other: &Kind<()>) -> (r: bool)
        ensures
            r == (self@ == other@),
    {
        match (self, other) {
            (Kind::Custom(a), Kind::Custom(b)) => same(a, b),
            _ => match (self.topic(), other.topic()) {
                (Some(a), Some(b)) => a == b,
                _ => false,
            },
        }
    }

    /// Every built-in, in the order they are listed.
    pub fn built_in() -> (r: Vec<Kind<()>>)
        ensures
            r@.len() == all_topics().len(),
            forall|i: int| 0 <= i < r@.len() ==> (#[trigger] r@[i])@ == bare_kind(all_topics()[i]),
    {
        vec![
            Kind::Routine,
            Kind::Forced,
            Kind::FrontAppSwitched,
            Kind::AppLaunched,
            Kind::SpaceChanged,
            Kind::DisplayChanged,
            Kind::SystemWoke,
            Kind::SystemWillSleep,
            Kind::VolumeChanged,
            Kind::BrightnessChanged,
            Kind::PowerSourceChanged,
            Kind::WifiChanged,
            Kind::MediaChanged,
            Kind::SpaceWindowsChanged,
            Kind::ConfigReloaded,
            Kind::AccessibilityChanged,
            Kind::MouseEntered(()),
            Kind::MouseExited(()),
            Kind::MouseEnteredGlobal,
            Kind::MouseExitedGlobal,
            Kind::MouseClicked(()),
            Kind::MouseScrolled(()),
            Kind::MouseScrolledGlobal,
        ]
    }

    /// Reads a built-in's name, with `-` for `_` and in any case, and any other
    /// event name as one a config invented.
    pub fn parse(text: &str) -> (r: Result<Kind<()>, InvalidEvent>)
        ensures
            match r {
                Ok(kind) => kind_read(text@) == Some(kind@),
                Err(e) => kind_read(text@) is None && e@ == text@,
            },
    {
        let name = lowercase(&replace(text, '-', '_'));
        match Topic::named(&name) {
            Some(topic) => Ok(Kind::of(topic)),
            None => if event_word(&name) {
                Ok(Kind::Custom(name))
            } else {
                Err(InvalidEvent(text.to_owned()))
            },
        }
    }

    /// Whether `event` is one of these.
    pub fn matches(&self, event: &Event) -> (r: bool)
        ensures
            r == (self@ == event_kind(*event)),
    {
        match (self, event) {
            (Kind::Routine, Event::Routine(_)) => true,
            (Kind::Forced, Event::Forced(_)) => true,
            (Kind::FrontAppSwitched, Event::FrontAppSwitched(_)) => true,
            (Kind::AppLaunched, Event::AppLaunched(_)) => true,
            (Kind::SpaceChanged, Event::SpaceChanged(_)) => true,
            (Kind::DisplayChanged, Event::DisplayChanged(_)) => true,
            (Kind::SystemWoke, Event::SystemWoke(_)) => true,
            (Kind::SystemWillSleep, Event::SystemWillSleep(_)) => true,
            (Kind::VolumeChanged, Event::VolumeChanged(_)) => true,
            (Kind::BrightnessChanged, Event::BrightnessChanged(_)) => true,
            (Kind::PowerSourceChanged, Event::PowerSourceChanged(_)) => true,
            (Kind::WifiChanged, Event::WifiChanged(_)) => true,
            (Kind::MediaChanged, Event::MediaChanged(_)) => true,
            (Kind::SpaceWindowsChanged, Event::SpaceWindowsChanged(_)) => true,
            (Kind::ConfigReloaded, Event::ConfigReloaded(_)) => true,
            (Kind::AccessibilityChanged, Event::AccessibilityChanged(_)) => true,
            (Kind::MouseEntered(_), Event::MouseEntered(_)) => true,
            (Kind::MouseExited(_), Event::MouseExited(_)) => true,
            (Kind::MouseEnteredGlobal, Event::MouseEnteredGlobal(_)) => true,
            (Kind::MouseExitedGlobal, Event::MouseExitedGlobal(_)) => true,
            (Kind::MouseClicked(_), Event::MouseClicked(_)) => true,
            (Kind::MouseScrolled(_), Event::MouseScrolled(_)) => true,
            (Kind::MouseScrolledGlobal, Event::MouseScrolledGlobal(_)) => true,
            (Kind::Custom(name), Event::Custom(custom)) => same(name, &custom.name),
            _ => false,
        }
    }

    /// An event of this kind carrying nothing: whoever names an event knows its
    /// name, not the payload a source would have filled in.
    pub fn into_event(self) -> (r: Event)
        ensures
            event_kind(r) == self@,
            carries_nothing(r),
    {
        match self {
            Kind::Routine => Event::Routine(Routine::default()),
            Kind::Forced => Event::Forced(Forced::default()),
            Kind::FrontAppSwitched => Event::FrontAppSwitched(FrontApp::default()),
            Kind::AppLaunched => Event::AppLaunched(AppLaunch::default()),
            Kind::SpaceChanged => Event::SpaceChanged(SpaceChange::default()),
            Kind::DisplayChanged => Event::DisplayChanged(DisplayChange::default()),
            Kind::SystemWoke => Event::SystemWoke(SystemWoke::default()),
            Kind::SystemWillSleep => Event::SystemWillSleep(SystemWillSleep::default()),
            Kind::VolumeChanged => Event::VolumeChanged(VolumeChange::default()),
            Kind::BrightnessChanged => Event::BrightnessChanged(BrightnessChange::default()),
            Kind::PowerSourceChanged => Event::PowerSourceChanged(PowerChange::default()),
            Kind::WifiChanged => Event::WifiChanged(WifiChange::default()),
            Kind::MediaChanged => Event::MediaChanged(MediaChange::default()),
            Kind::SpaceWindowsChanged => Event::SpaceWindowsChanged(SpaceWindowsChange::default()),
            Kind::ConfigReloaded => Event::ConfigReloaded(ConfigReload::default()),
            Kind::AccessibilityChanged => Event::AccessibilityChanged(AccessibilityChange::default()),
            Kind::MouseEntered(_) => Event::MouseEntered(MouseEnter::default()),
            Kind::MouseExited(_) => Event::MouseExited(MouseExit::default()),
            Kind::MouseEnteredGlobal => Event::MouseEnteredGlobal(MouseEnterGlobal::default()),
            Kind::MouseExitedGlobal => Event::MouseExitedGlobal(MouseExitGlobal::default()),
            Kind::MouseClicked(_) => Event::MouseClicked(MouseClick::default()),
            Kind::MouseScrolled(_) => Event::MouseScrolled(Scroll::default()),
            Kind::MouseScrolledGlobal => Event::MouseScrolledGlobal(ScrollGlobal::default()),
            Kind::Custom(name) => Event::Custom(Custom { name, vars: Vars::new() }),
        }
    }
}

impl std::str::FromStr for Kind<()> {
    type Err = InvalidEvent;

    fn from_str(s: &str) -> (r: Result<Self, InvalidEvent>)
        ensures
            match r {
                Ok(kind) => kind_read(s@) == Some(kind@),
                Err(e) => kind_read(s@) is None && e@ == s@,
            },
    {
        Kind::parse(s)
    }
}

/// Whether a name is one an invented event may have.
fn event_word(name: &str) -> (r: bool)
    ensures
        r == is_event_word(name@),
{
    let chars = chars_of(name);
    if chars.len() == 0 {
        return false;
    }
    let mut i: usize = 0;
    while i < chars.len()
        invariant
            i <= chars@.len(),
            chars@ == name@,
            forall|j: int| 0 <= j < i ==> event_char(#[trigger] name@[j]),
        decreases chars@.len() - i,
    {
        let c: char = chars[i];
        if !(('a' <= c && c <= 'z') || ('A' <= c && c <= 'Z') || ('0' <= c && c <= '9') || c == '_'
            || c == '.') {
            assert(!event_char(name@[i as int]));
            return false;
        }
        i = i + 1;
    }
    true
}

/// A name that is already compared as it stands.
proof fn lemma_normal_form(name: Seq<char>)
    requires
        has_no_capital(name),
        forall|i: int| 0 <= i < name.len() ==> #[trigger] name[i] != '-',
    ensures
        normalised(name) == name,
{
    assert(replaced(name, '-', '_') =~= name);
    lemma_lowered_is_identity(name);
}

/// Normalising twice is normalising once.
pub proof fn lemma_normalised_twice(text: Seq<char>)
    ensures
        normalised(normalised(text)) == normalised(text),
{
    let once = normalised(text);
    lemma_lowered_twice(replaced(text, '-', '_'));
    assert forall|i: int| 0 <= i < once.len() implies #[trigger] once[i] != '-' by {
        assert(once[i] == lower_char(replaced(text, '-', '_')[i]));
    }
    lemma_normal_form(once);
}

/// Every built-in's name reads back as it.
pub proof fn law_built_in_names_round_trip(topic: Topic)
    ensures
        kind_read(kind_name(bare_kind(topic))) == Some(bare_kind(topic)),
{
    let name = topic_name(topic);
    lemma_topic_names_plain(topic);
    law_topic_names_round_trip(topic);
    assert forall|i: int| 0 <= i < name.len() implies #[trigger] name[i] != '-' && !('A' <= name[i]
        && name[i] <= 'Z') by {
        assert(plain_char(name[i]));
    }
    lemma_normal_form(name);
}

/// What a kind was read as, it reads as again by its own name.
pub proof fn law_kind_round_trip(text: Seq<char>)
    requires
        kind_read(text) is Some,
    ensures
        kind_read(kind_name(kind_read(text)->Some_0)) == kind_read(text),
{
    match topic_named(normalised(text)) {
        Some(topic) => {
            law_built_in_names_round_trip(topic);
        },
        None => {
            lemma_normalised_twice(text);
        },
    }
}

/// Dashes and case never decide what a name reads as.
pub proof fn law_kind_folding(text: Seq<char>)
    ensures
        kind_read(normalised(text)) == kind_read(text),
{
    lemma_normalised_twice(text);
}

/// Every topic is listed.
pub proof fn law_every_topic_is_listed(topic: Topic)
    ensures
        all_topics().contains(topic),
{
    let all = all_topics();
    match topic {
        Topic::Routine => assert(all[0] == topic),
        Topic::Forced => assert(all[1] == topic),
        Topic::FrontAppSwitched => assert(all[2] == topic),
        Topic::AppLaunched => assert(all[3] == topic),
        Topic::SpaceChanged => assert(all[4] == topic),
        Topic::DisplayChanged => assert(all[5] == topic),
        Topic::SystemWoke => assert(all[6] == topic),
        Topic::SystemWillSleep => assert(all[7] == topic),
        Topic::VolumeChanged => assert(all[8] == topic),
        Topic::BrightnessChanged => assert(all[9] == topic),
        Topic::PowerSourceChanged => assert(all[10] == topic),
        Topic::WifiChanged => assert(all[11] == topic),
        Topic::MediaChanged => assert(all[12] == topic),
        Topic::SpaceWindowsChanged => assert(all[13] == topic),
        Topic::ConfigReloaded => assert(all[14] == topic),
        Topic::AccessibilityChanged => assert(all[15] == topic),
        Topic::MouseEntered => assert(all[16] == topic),
        Topic::MouseExited => assert(all[17] == topic),
        Topic::MouseEnteredGlobal => assert(all[18] == topic),
        Topic::MouseExitedGlobal => assert(all[19] == topic),
        Topic::MouseClicked => assert(all[20] == topic),
        Topic::MouseScrolled => assert(all[21] == topic),
        Topic::MouseScrolledGlobal => assert(all[22] == topic),
    }
}

// ---------------------------------------------------------------------------
// Names of events and of notifications

/// The name of an event a config invented: an event name that is no built-in.
#[derive(Debug, PartialEq, Eq, PartialOrd, Ord, Hash)]
pub struct EventName {
    text: String,
}

impl View for EventName {
    type V = Seq<char>;

    closed spec fn view(&self) -> Seq<char> {
        self.text@
    }
}

/// What an invented event may be called: a normal event name that is no
/// built-in's.
pub open spec fn is_invented(name: Seq<char>) -> bool {
    is_event_word(name) && topic_named(name) is None && normalised(name) == name
}

impl EventName {
    #[verifier::type_invariant]
    spec fn inv(self) -> bool {
        is_invented(self.text@)
    }

    /// The name as text, which always is one an invented event may have.
    pub fn as_str(&self) -> (r: &str)
        ensures
            r@ == self@,
            is_invented(self@),
    {
        proof {
            use_type_invariant(self);
        }
        self.text.as_str()
    }

    /// The subscription this name means.
    pub fn kind(&self) -> (r: Kind<()>)
        ensures
            r@ == KindView::<()>::Custom(self@),
    {
        Kind::Custom(self.text.clone())
    }

    /// Takes a name no built-in has.
    pub fn parse(text: &str) -> (r: Result<EventName, InvalidEventName>)
        ensures
            match r {
                Ok(name) => kind_read(text@) == Some(KindView::<()>::Custom(name@)),
                Err(e) => match kind_read(text@) {
                    None => e@ == InvalidEventNameView::NotAName(text@),
                    Some(kind) => !(kind is Custom) && e@ == InvalidEventNameView::BuiltIn(
                        kind_name(kind),
                    ),
                },
            },
    {
        proof {
            lemma_normalised_twice(text@);
        }
        match Kind::parse(text) {
            Ok(Kind::Custom(name)) => Ok(EventName { text: name }),
            Ok(kind) => Err(InvalidEventName::BuiltIn(kind.to_string())),
            Err(e) => Err(InvalidEventName::NotAName(e)),
        }
    }

    /// The name as text of its own.
    pub fn to_string(&self) -> (r: String)
        ensures
            r@ == self@,
    {
        self.text.clone()
    }
}

impl Clone for EventName {
    fn clone(&self) -> (r: Self)
        ensures
            r@ == self@,
    {
        proof {
            use_type_invariant(self);
        }
        EventName { text: self.text.clone() }
    }
}

impl std::str::FromStr for EventName {
    type Err = InvalidEventName;

    fn from_str(s: &str) -> (r: Result<Self, InvalidEventName>)
        ensures
            match r {
                Ok(name) => kind_read(s@) == Some(KindView::<()>::Custom(name@)),
                Err(e) => match kind_read(s@) {
                    None => e@ == InvalidEventNameView::NotAName(s@),
                    Some(kind) => !(kind is Custom) && e@ == InvalidEventNameView::BuiltIn(
                        kind_name(kind),
                    ),
                },
            },
    {
        EventName::parse(s)
    }
}

/// Why a text is no name for a new event.
#[derive(Debug, Clone, PartialEq, Eq)]
pub enum InvalidEventName {
    NotAName(InvalidEvent),
    BuiltIn(String),
}

/// [`InvalidEventName`] over plain text.
pub enum InvalidEventNameView {
    NotAName(Seq<char>),
    BuiltIn(Seq<char>),
}

impl View for InvalidEventName {
    type V = InvalidEventNameView;

    open spec fn view(&self) -> InvalidEventNameView {
        match self {
            InvalidEventName::NotAName(e) => InvalidEventNameView::NotAName(e@),
            InvalidEventName::BuiltIn(name) => InvalidEventNameView::BuiltIn(name@),
        }
    }
}

impl InvalidEventName {
    /// The sentence a config's author is shown.
    pub fn to_string(&self) -> (r: String)
        ensures
            r@ == match self@ {
                InvalidEventNameView::NotAName(text) => "`"@ + text + "` is not an event name"@,
                InvalidEventNameView::BuiltIn(name) => "`"@ + name
                    + "` is a built-in event; only a name coolabah does not already define can be added"@,
            },
    {
        match self {
            InvalidEventName::NotAName(e) => e.to_string(),
            InvalidEventName::BuiltIn(name) => joined3(
                "`",
                name,
                "` is a built-in event; only a name coolabah does not already define can be added",
            ),
        }
    }
}

/// No built-in's name, however it is written, can be taken for a new event.
pub proof fn law_built_ins_cannot_be_added(topic: Topic, text: Seq<char>)
    requires
        normalised(text) == topic_name(topic),
    ensures
        kind_read(text) == Some(bare_kind(topic)),
        !(bare_kind(topic) is Custom),
{
    law_topic_names_round_trip(topic);
}

/// The name of a notification to bridge an event from. Another process chose
/// it, so it is only held to being usable.
#[derive(Debug, PartialEq, Eq, PartialOrd, Ord, Hash)]
pub struct NotificationName {
    text: String,
}

impl View for NotificationName {
    type V = Seq<char>;

    closed spec fn view(&self) -> Seq<char> {
        self.text@
    }
}

/// What a notification may be called: anything but nothing, and no control
/// character.
pub open spec fn is_notification_name(text: Seq<char>) -> bool {
    text.len() > 0 && !has_control(text)
}

impl NotificationName {
    #[verifier::type_invariant]
    spec fn inv(self) -> bool {
        is_notification_name(self.text@)
    }

    /// The name as text, which always is a usable one.
    pub fn as_str(&self) -> (r: &str)
        ensures
            r@ == self@,
            is_notification_name(self@),
    {
        proof {
            use_type_invariant(self);
        }
        self.text.as_str()
    }

    /// Takes a usable name.
    pub fn parse(text: &str) -> (r: Result<NotificationName, InvalidNotificationName>)
        ensures
            match r {
                Ok(name) => is_notification_name(text@) && name@ == text@,
                Err(e) => !is_notification_name(text@) && e@ == text@,
            },
    {
        if text.unicode_len() == 0 || contains_control(text) {
            Err(InvalidNotificationName(text.to_owned()))
        } else {
            Ok(NotificationName { text: text.to_owned() })
        }
    }

    /// The name as text of its own.
    pub fn to_string(&self) -> (r: String)
        ensures
            r@ == self@,
    {
        self.text.clone()
    }
}

impl Clone for NotificationName {
    fn clone(&self) -> (r: Self)
        ensures
            r@ == self@,
    {
        proof {
            use_type_invariant(self);
        }
        NotificationName { text: self.text.clone() }
    }
}

impl std::str::FromStr for NotificationName {
    type Err = InvalidNotificationName;

    fn from_str(s: &str) -> (r: Result<Self, InvalidNotificationName>)
        ensures
            match r {
                Ok(name) => is_notification_name(s@) && name@ == s@,
                Err(e) => !is_notification_name(s@) && e@ == s@,
            },
    {
        NotificationName::parse(s)
    }
}

/// A text that names no notification.
#[derive(Debug, Clone, PartialEq, Eq)]
pub struct InvalidNotificationName(String);

impl View for InvalidNotificationName {
    type V = Seq<char>;

    /// The text as it was written.
    closed spec fn view(&self) -> Seq<char> {
        self.0@
    }
}

impl InvalidNotificationName {
    /// The sentence a config's author is shown.
    pub fn to_string(&self) -> (r: String)
        ensures
            r@ == "`"@ + self@ + "` is not a notification name"@,
    {
        joined3("`", &self.0, "` is not a notification name")
    }
}

// ---------------------------------------------------------------------------
// Events


/// What `routine` carries, which is nothing.
#[derive(Debug, PartialEq)]
pub struct Routine {}

impl Default for Routine {
    fn default() -> (r: Self) {
        Routine {}
    }
}

/// What `forced` carries, which is nothing.
#[derive(Debug, PartialEq)]
pub struct Forced {}

impl Default for Forced {
    fn default() -> (r: Self) {
        Forced {}
    }
}

/// What `front_app_switched` carries.
#[derive(Debug, PartialEq)]
pub struct FrontApp {
    pub app: String,
}

impl Default for FrontApp {
    fn default() -> (r: Self)
        ensures
            r.app@ == Seq::<char>::empty(),
    {
        FrontApp { app: String::new() }
    }
}

impl FrontApp {
    /// The fields, one entry each.
    pub open spec fn entries(&self) -> Seq<EntryView> {
        seq![
            leaf("app"@, self.app@),
        ]
    }
}

impl EnvFields for FrontApp {
    open spec fn sets(&self) -> Seq<(Seq<char>, Seq<char>)> {
        all_pairs(self.entries())
    }

    fn pairs(&self) -> (r: Vec<(String, String)>) {
        let entries: Vec<Entry> = vec![
            field("app", self.app.clone()),
        ];
        proof {
            assert(entry_views(entries@) =~= self.entries());
        }
        struct_pairs(&entries)
    }
}

/// What `app_launched` carries.
#[derive(Debug, PartialEq)]
pub struct AppLaunch {
    pub app: String,
}

impl Default for AppLaunch {
    fn default() -> (r: Self)
        ensures
            r.app@ == Seq::<char>::empty(),
    {
        AppLaunch { app: String::new() }
    }
}

impl AppLaunch {
    /// The fields, one entry each.
    pub open spec fn entries(&self) -> Seq<EntryView> {
        seq![
            leaf("app"@, self.app@),
        ]
    }
}

impl EnvFields for AppLaunch {
    open spec fn sets(&self) -> Seq<(Seq<char>, Seq<char>)> {
        all_pairs(self.entries())
    }

    fn pairs(&self) -> (r: Vec<(String, String)>) {
        let entries: Vec<Entry> = vec![
            field("app", self.app.clone()),
        ];
        proof {
            assert(entry_views(entries@) =~= self.entries());
        }
        struct_pairs(&entries)
    }
}

/// What `space_changed` carries.
#[derive(Debug, PartialEq)]
pub struct SpaceChange {
    pub display: u32,
    pub space: u64,
}

impl Default for SpaceChange {
    fn default() -> (r: Self)
        ensures
            r.display == 0,
            r.space == 0,
    {
        SpaceChange { display: 0, space: 0 }
    }
}

impl SpaceChange {
    /// The fields, one entry each.
    pub open spec fn entries(&self) -> Seq<EntryView> {
        seq![
            leaf("display"@, decimal_text(self.display as nat)),
            leaf("space"@, decimal_text(self.space as nat)),
        ]
    }
}

impl EnvFields for SpaceChange {
    open spec fn sets(&self) -> Seq<(Seq<char>, Seq<char>)> {
        all_pairs(self.entries())
    }

    fn pairs(&self) -> (r: Vec<(String, String)>) {
        let entries: Vec<Entry> = vec![
            field("display", decimal(self.display as u64)),
            field("space", decimal(self.space)),
        ];
        proof {
            assert(entry_views(entries@) =~= self.entries());
        }
        struct_pairs(&entries)
    }
}

/// What `display_changed` carries, which is nothing.
#[derive(Debug, PartialEq)]
pub struct DisplayChange {}

impl Default for DisplayChange {
    fn default() -> (r: Self) {
        DisplayChange {}
    }
}

/// What `system_woke` carries, which is nothing.
#[derive(Debug, PartialEq)]
pub struct SystemWoke {}

impl Default for SystemWoke {
    fn default() -> (r: Self) {
        SystemWoke {}
    }
}

/// What `system_will_sleep` carries, which is nothing.
#[derive(Debug, PartialEq)]
pub struct SystemWillSleep {}

impl Default for SystemWillSleep {
    fn default() -> (r: Self) {
        SystemWillSleep {}
    }
}

/// What `volume_changed` carries.
#[derive(Debug, PartialEq)]
pub struct VolumeChange {
    pub volume: u8,
}

impl Default for VolumeChange {
    fn default() -> (r: Self)
        ensures
            r.volume == 0,
    {
        VolumeChange { volume: 0 }
    }
}

impl VolumeChange {
    /// The fields, one entry each.
    pub open spec fn entries(&self) -> Seq<EntryView> {
        seq![
            leaf("volume"@, decimal_text(self.volume as nat)),
        ]
    }
}

impl EnvFields for VolumeChange {
    open spec fn sets(&self) -> Seq<(Seq<char>, Seq<char>)> {
        all_pairs(self.entries())
    }

    fn pairs(&self) -> (r: Vec<(String, String)>) {
        let entries: Vec<Entry> = vec![
            field("volume", decimal(self.volume as u64)),
        ];
        proof {
            assert(entry_views(entries@) =~= self.entries());
        }
        struct_pairs(&entries)
    }
}

/// What `brightness_changed` carries.
#[derive(Debug, PartialEq)]
pub struct BrightnessChange {
    pub brightness: u8,
}

impl Default for BrightnessChange {
    fn default() -> (r: Self)
        ensures
            r.brightness == 0,
    {
        BrightnessChange { brightness: 0 }
    }
}

impl BrightnessChange {
    /// The fields, one entry each.
    pub open spec fn entries(&self) -> Seq<EntryView> {
        seq![
            leaf("brightness"@, decimal_text(self.brightness as nat)),
        ]
    }
}

impl EnvFields for BrightnessChange {
    open spec fn sets(&self) -> Seq<(Seq<char>, Seq<char>)> {
        all_pairs(self.entries())
    }

    fn pairs(&self) -> (r: Vec<(String, String)>) {
        let entries: Vec<Entry> = vec![
            field("brightness", decimal(self.brightness as u64)),
        ];
        proof {
            assert(entry_views(entries@) =~= self.entries());
        }
        struct_pairs(&entries)
    }
}

/// What `power_source_changed` carries.
#[derive(Debug, PartialEq)]
pub struct PowerChange {
    pub power_source: PowerSource,
    pub watts: Option<u32>,
    pub charge: Option<u8>,
}

impl Default for PowerChange {
    fn default() -> (r: Self)
        ensures
            r.power_source == PowerSource::Unknown,
            r.watts is None,
            r.charge is None,
    {
        PowerChange { power_source: PowerSource::default(), watts: None, charge: None }
    }
}

impl PowerChange {
    /// The fields, one entry each.
    pub open spec fn entries(&self) -> Seq<EntryView> {
        seq![
            EntryView { name: "power_source"@, value: power_text(self.power_source), nested: self.power_source.sets() },
            leaf("watts"@, optional_text(option_u32(self.watts))),
            leaf("charge"@, optional_text(option_u8(self.charge))),
        ]
    }
}

impl EnvFields for PowerChange {
    open spec fn sets(&self) -> Seq<(Seq<char>, Seq<char>)> {
        all_pairs(self.entries())
    }

    fn pairs(&self) -> (r: Vec<(String, String)>) {
        let entries: Vec<Entry> = vec![
            Entry { name: "power_source".to_owned(), value: self.power_source.to_string(), nested: self.power_source.pairs() },
            field("watts", optional_u32(self.watts)),
            field("charge", optional_u8(self.charge)),
        ];
        proof {
            assert(entry_views(entries@) =~= self.entries());
        }
        struct_pairs(&entries)
    }
}

/// What `wifi_changed` carries.
#[derive(Debug, PartialEq)]
pub struct WifiChange {
    pub ssid: String,
}

impl Default for WifiChange {
    fn default() -> (r: Self)
        ensures
            r.ssid@ == Seq::<char>::empty(),
    {
        WifiChange { ssid: String::new() }
    }
}

impl WifiChange {
    /// The fields, one entry each.
    pub open spec fn entries(&self) -> Seq<EntryView> {
        seq![
            leaf("ssid"@, self.ssid@),
        ]
    }
}

impl EnvFields for WifiChange {
    open spec fn sets(&self) -> Seq<(Seq<char>, Seq<char>)> {
        all_pairs(self.entries())
    }

    fn pairs(&self) -> (r: Vec<(String, String)>) {
        let entries: Vec<Entry> = vec![
            field("ssid", self.ssid.clone()),
        ];
        proof {
            assert(entry_views(entries@) =~= self.entries());
        }
        struct_pairs(&entries)
    }
}

/// What `media_changed` carries.
#[derive(Debug, PartialEq)]
pub struct MediaChange {
    pub media: Json,
}

impl Default for MediaChange {
    fn default() -> (r: Self)
        ensures
            r.media@ == JsonView::Null,
    {
        MediaChange { media: Json::default() }
    }
}

impl MediaChange {
    /// The fields, one entry each.
    pub open spec fn entries(&self) -> Seq<EntryView> {
        seq![
            leaf("media"@, json_text(self.media@)),
        ]
    }
}

impl EnvFields for MediaChange {
    open spec fn sets(&self) -> Seq<(Seq<char>, Seq<char>)> {
        all_pairs(self.entries())
    }

    fn pairs(&self) -> (r: Vec<(String, String)>) {
        let entries: Vec<Entry> = vec![
            field("media", self.media.to_string()),
        ];
        proof {
            assert(entry_views(entries@) =~= self.entries());
        }
        struct_pairs(&entries)
    }
}

/// What `space_windows_changed` carries.
#[derive(Debug, PartialEq)]
pub struct SpaceWindowsChange {
    pub space: u64,
}

impl Default for SpaceWindowsChange {
    fn default() -> (r: Self)
        ensures
            r.space == 0,
    {
        SpaceWindowsChange { space: 0 }
    }
}

impl SpaceWindowsChange {
    /// The fields, one entry each.
    pub open spec fn entries(&self) -> Seq<EntryView> {
        seq![
            leaf("space"@, decimal_text(self.space as nat)),
        ]
    }
}

impl EnvFields for SpaceWindowsChange {
    open spec fn sets(&self) -> Seq<(Seq<char>, Seq<char>)> {
        all_pairs(self.entries())
    }

    fn pairs(&self) -> (r: Vec<(String, String)>) {
        let entries: Vec<Entry> = vec![
            field("space", decimal(self.space)),
        ];
        proof {
            assert(entry_views(entries@) =~= self.entries());
        }
        struct_pairs(&entries)
    }
}

/// What `config_reloaded` carries, which is nothing.
#[derive(Debug, PartialEq)]
pub struct ConfigReload {}

impl Default for ConfigReload {
    fn default() -> (r: Self) {
        ConfigReload {}
    }
}

/// What `accessibility_changed` carries.
#[derive(Debug, PartialEq)]
pub struct AccessibilityChange {
    pub trusted: bool,
}

impl Default for AccessibilityChange {
    fn default() -> (r: Self)
        ensures
            !r.trusted,
    {
        AccessibilityChange { trusted: false }
    }
}

impl AccessibilityChange {
    /// The fields, one entry each.
    pub open spec fn entries(&self) -> Seq<EntryView> {
        seq![
            leaf("trusted"@, truth_text(self.trusted)),
        ]
    }
}

impl EnvFields for AccessibilityChange {
    open spec fn sets(&self) -> Seq<(Seq<char>, Seq<char>)> {
        all_pairs(self.entries())
    }

    fn pairs(&self) -> (r: Vec<(String, String)>) {
        let entries: Vec<Entry> = vec![
            field("trusted", truth(self.trusted)),
        ];
        proof {
            assert(entry_views(entries@) =~= self.entries());
        }
        struct_pairs(&entries)
    }
}

/// What `mouse.entered` carries, which is nothing.
#[derive(Debug, PartialEq)]
pub struct MouseEnter {}

impl Default for MouseEnter {
    fn default() -> (r: Self) {
        MouseEnter {}
    }
}

/// What `mouse.exited` carries, which is nothing.
#[derive(Debug, PartialEq)]
pub struct MouseExit {}

impl Default for MouseExit {
    fn default() -> (r: Self) {
        MouseExit {}
    }
}

/// What `mouse.entered.global` carries, which is nothing.
#[derive(Debug, PartialEq)]
pub struct MouseEnterGlobal {}

impl Default for MouseEnterGlobal {
    fn default() -> (r: Self) {
        MouseEnterGlobal {}
    }
}

/// What `mouse.exited.global` carries, which is nothing.
#[derive(Debug, PartialEq)]
pub struct MouseExitGlobal {}

impl Default for MouseExitGlobal {
    fn default() -> (r: Self) {
        MouseExitGlobal {}
    }
}

/// What `mouse.clicked` carries.
#[derive(Debug, PartialEq)]
pub struct MouseClick {
    pub button: MouseButton,
    pub modifiers: Modifiers,
    pub x: Measure,
    pub y: Measure,
}

impl Default for MouseClick {
    fn default() -> (r: Self)
        ensures
            r.button == MouseButton::Left,
            r.modifiers == no_modifiers(),
            r.x.bits == 0 && r.x.text@ == "0"@,
            r.y.bits == 0 && r.y.text@ == "0"@,
    {
        MouseClick { button: MouseButton::default(), modifiers: Modifiers::empty(), x: Measure::zero(), y: Measure::zero() }
    }
}

impl MouseClick {
    /// The fields, one entry each.
    pub open spec fn entries(&self) -> Seq<EntryView> {
        seq![
            leaf("button"@, button_text(self.button)),
            leaf("modifiers"@, modifiers_text(self.modifiers)),
            leaf("x"@, self.x.text@),
            leaf("y"@, self.y.text@),
        ]
    }
}

impl EnvFields for MouseClick {
    open spec fn sets(&self) -> Seq<(Seq<char>, Seq<char>)> {
        all_pairs(self.entries())
    }

    fn pairs(&self) -> (r: Vec<(String, String)>) {
        let entries: Vec<Entry> = vec![
            field("button", self.button.to_string()),
            field("modifiers", self.modifiers.to_string()),
            field("x", self.x.text.clone()),
            field("y", self.y.text.clone()),
        ];
        proof {
            assert(entry_views(entries@) =~= self.entries());
        }
        struct_pairs(&entries)
    }
}

/// What `mouse.scrolled` carries.
#[derive(Debug, PartialEq)]
pub struct Scroll {
    pub scroll_delta: Measure,
    pub modifiers: Modifiers,
    pub x: Measure,
    pub y: Measure,
}

impl Default for Scroll {
    fn default() -> (r: Self)
        ensures
            r.scroll_delta.bits == 0 && r.scroll_delta.text@ == "0"@,
            r.modifiers == no_modifiers(),
            r.x.bits == 0 && r.x.text@ == "0"@,
            r.y.bits == 0 && r.y.text@ == "0"@,
    {
        Scroll { scroll_delta: Measure::zero(), modifiers: Modifiers::empty(), x: Measure::zero(), y: Measure::zero() }
    }
}

impl Scroll {
    /// The fields, one entry each.
    pub open spec fn entries(&self) -> Seq<EntryView> {
        seq![
            leaf("scroll_delta"@, self.scroll_delta.text@),
            leaf("modifiers"@, modifiers_text(self.modifiers)),
            leaf("x"@, self.x.text@),
            leaf("y"@, self.y.text@),
        ]
    }
}

impl EnvFields for Scroll {
    open spec fn sets(&self) -> Seq<(Seq<char>, Seq<char>)> {
        all_pairs(self.entries())
    }

    fn pairs(&self) -> (r: Vec<(String, String)>) {
        let entries: Vec<Entry> = vec![
            field("scroll_delta", self.scroll_delta.text.clone()),
            field("modifiers", self.modifiers.to_string()),
            field("x", self.x.text.clone()),
            field("y", self.y.text.clone()),
        ];
        proof {
            assert(entry_views(entries@) =~= self.entries());
        }
        struct_pairs(&entries)
    }
}

/// What `mouse.scrolled.global` carries.
#[derive(Debug, PartialEq)]
pub struct ScrollGlobal {
    pub scroll_delta: Measure,
    pub modifiers: Modifiers,
    pub x: Measure,
    pub y: Measure,
}

impl Default for ScrollGlobal {
    fn default() -> (r: Self)
        ensures
            r.scroll_delta.bits == 0 && r.scroll_delta.text@ == "0"@,
            r.modifiers == no_modifiers(),
            r.x.bits == 0 && r.x.text@ == "0"@,
            r.y.bits == 0 && r.y.text@ == "0"@,
    {
        ScrollGlobal { scroll_delta: Measure::zero(), modifiers: Modifiers::empty(), x: Measure::zero(), y: Measure::zero() }
    }
}

impl ScrollGlobal {
    /// The fields, one entry each.
    pub open spec fn entries(&self) -> Seq<EntryView> {
        seq![
            leaf("scroll_delta"@, self.scroll_delta.text@),
            leaf("modifiers"@, modifiers_text(self.modifiers)),
            leaf("x"@, self.x.text@),
            leaf("y"@, self.y.text@),
        ]
    }
}

impl EnvFields for ScrollGlobal {
    open spec fn sets(&self) -> Seq<(Seq<char>, Seq<char>)> {
        all_pairs(self.entries())
    }

    fn pairs(&self) -> (r: Vec<(String, String)>) {
        let entries: Vec<Entry> = vec![
            field("scroll_delta", self.scroll_delta.text.clone()),
            field("modifiers", self.modifiers.to_string()),
            field("x", self.x.text.clone()),
            field("y", self.y.text.clone()),
        ];
        proof {
            assert(entry_views(entries@) =~= self.entries());
        }
        struct_pairs(&entries)
    }
}

/// An event a config invented, and whatever it was triggered with.
#[derive(Debug, PartialEq, Eq)]
pub struct Custom {
    pub name: String,
    pub vars: Vars,
}

impl Custom {
    /// Named after the event alone, carrying nothing.
    pub fn new(name: &str) -> (r: Custom)
        ensures
            r.name@ == name@,
            r.vars@ == Map::<Seq<char>, Seq<char>>::empty(),
    {
        Custom { name: name.to_owned(), vars: Vars::new() }
    }

    /// The variables it was triggered with, which are its fields.
    pub fn fields(&self) -> (r: Vars)
        ensures
            r@ == self.vars@,
    {
        self.vars.copied()
    }
}

impl Default for Custom {
    fn default() -> (r: Self)
        ensures
            r.name@ == Seq::<char>::empty(),
            r.vars@ == Map::<Seq<char>, Seq<char>>::empty(),
    {
        Custom { name: String::new(), vars: Vars::new() }
    }
}

/// What `str::to_uppercase` makes of a text, by the Unicode tables.
pub uninterp spec fn unicode_upper(text: Seq<char>) -> Seq<char>;

/// `str::to_uppercase` depends on the text alone.
pub assume_specification[ str::to_uppercase ](text: &str) -> (r: std::string::String)
    ensures
        r@ == unicode_upper(text@),
;

/// Something that happened, with what it carries.
#[derive(Debug, PartialEq)]
pub enum Event {
    Routine(Routine),
    Forced(Forced),
    FrontAppSwitched(FrontApp),
    /// An application finishing launch.
    AppLaunched(AppLaunch),
    SpaceChanged(SpaceChange),
    DisplayChanged(DisplayChange),
    SystemWoke(SystemWoke),
    SystemWillSleep(SystemWillSleep),
    VolumeChanged(VolumeChange),
    BrightnessChanged(BrightnessChange),
    /// Where power comes from, and how much of it.
    PowerSourceChanged(PowerChange),
    WifiChanged(WifiChange),
    MediaChanged(MediaChange),
    SpaceWindowsChanged(SpaceWindowsChange),
    ConfigReloaded(ConfigReload),
    /// The accessibility grant arriving, or being taken away again.
    AccessibilityChanged(AccessibilityChange),
    /// The pointer crossing into one item.
    MouseEntered(MouseEnter),
    MouseExited(MouseExit),
    /// The pointer crossing into the bar as a whole.
    MouseEnteredGlobal(MouseEnterGlobal),
    MouseExitedGlobal(MouseExitGlobal),
    MouseClicked(MouseClick),
    MouseScrolled(Scroll),
    MouseScrolledGlobal(ScrollGlobal),
    /// An event a config invented and triggers itself.
    Custom(Custom),
}

/// What an event is, for matching a subscription against.
pub open spec fn event_kind(event: Event) -> KindView<()> {
    match event {
        Event::Routine(_) => bare_kind(Topic::Routine),
        Event::Forced(_) => bare_kind(Topic::Forced),
        Event::FrontAppSwitched(_) => bare_kind(Topic::FrontAppSwitched),
        Event::AppLaunched(_) => bare_kind(Topic::AppLaunched),
        Event::SpaceChanged(_) => bare_kind(Topic::SpaceChanged),
        Event::DisplayChanged(_) => bare_kind(Topic::DisplayChanged),
        Event::SystemWoke(_) => bare_kind(Topic::SystemWoke),
        Event::SystemWillSleep(_) => bare_kind(Topic::SystemWillSleep),
        Event::VolumeChanged(_) => bare_kind(Topic::VolumeChanged),
        Event::BrightnessChanged(_) => bare_kind(Topic::BrightnessChanged),
        Event::PowerSourceChanged(_) => bare_kind(Topic::PowerSourceChanged),
        Event::WifiChanged(_) => bare_kind(Topic::WifiChanged),
        Event::MediaChanged(_) => bare_kind(Topic::MediaChanged),
        Event::SpaceWindowsChanged(_) => bare_kind(Topic::SpaceWindowsChanged),
        Event::ConfigReloaded(_) => bare_kind(Topic::ConfigReloaded),
        Event::AccessibilityChanged(_) => bare_kind(Topic::AccessibilityChanged),
        Event::MouseEntered(_) => bare_kind(Topic::MouseEntered),
        Event::MouseExited(_) => bare_kind(Topic::MouseExited),
        Event::MouseEnteredGlobal(_) => bare_kind(Topic::MouseEnteredGlobal),
        Event::MouseExitedGlobal(_) => bare_kind(Topic::MouseExitedGlobal),
        Event::MouseClicked(_) => bare_kind(Topic::MouseClicked),
        Event::MouseScrolled(_) => bare_kind(Topic::MouseScrolled),
        Event::MouseScrolledGlobal(_) => bare_kind(Topic::MouseScrolledGlobal),
        Event::Custom(custom) => KindView::Custom(custom.name@),
    }
}

/// What an event's payload sets, in turn.
pub open spec fn event_sets(event: Event) -> Seq<(Seq<char>, Seq<char>)> {
    match event {
        Event::FrontAppSwitched(data) => data.sets(),
        Event::AppLaunched(data) => data.sets(),
        Event::SpaceChanged(data) => data.sets(),
        Event::VolumeChanged(data) => data.sets(),
        Event::BrightnessChanged(data) => data.sets(),
        Event::PowerSourceChanged(data) => data.sets(),
        Event::WifiChanged(data) => data.sets(),
        Event::MediaChanged(data) => data.sets(),
        Event::SpaceWindowsChanged(data) => data.sets(),
        Event::AccessibilityChanged(data) => data.sets(),
        Event::MouseClicked(data) => data.sets(),
        Event::MouseScrolled(data) => data.sets(),
        Event::MouseScrolledGlobal(data) => data.sets(),
        Event::Custom(custom) => custom.vars.entries(),
        _ => Seq::empty(),
    }
}

/// The fields of an event, under the names they have.
pub open spec fn event_fields(event: Event) -> Map<Seq<char>, Seq<char>> {
    mapped(event_sets(event))
}

/// Names in Unicode upper case beside the same values.
pub open spec fn unicode_upper_pairs(pairs: Seq<(Seq<char>, Seq<char>)>) -> Seq<
    (Seq<char>, Seq<char>),
> {
    pairs.map_values(|p: (Seq<char>, Seq<char>)| (unicode_upper(p.0), p.1))
}

/// The fields of an event, under the names a script's environment uses. A
/// built-in's names are known here; an invented event's came from whoever
/// triggered it.
pub open spec fn event_env_fields(event: Event) -> Map<Seq<char>, Seq<char>> {
    match event {
        Event::Custom(custom) => mapped(unicode_upper_pairs(custom.vars.entries())),
        _ => mapped(upper_pairs(event_sets(event))),
    }
}

/// Fields in order of their names.
pub open spec fn ordered(fields: Map<Seq<char>, Seq<char>>) -> Seq<(Seq<char>, Seq<char>)> {
    choose|s: Seq<(Seq<char>, Seq<char>)>| in_order(s) && mapped(s) == fields
}

/// Fields as the strings of a JSON object.
pub open spec fn object_of(fields: Seq<(Seq<char>, Seq<char>)>) -> JsonView {
    JsonView::Object(
        fields.map_values(|f: (Seq<char>, Seq<char>)| (f.0, JsonView::String(f.1))),
    )
}

/// A payload as one value: nothing for none, the field itself for one, and a
/// JSON object for several.
pub open spec fn info_text(fields: Seq<(Seq<char>, Seq<char>)>) -> Seq<char> {
    if fields.len() == 0 {
        Seq::empty()
    } else if fields.len() == 1 {
        fields[0].1
    } else {
        json_text(object_of(fields))
    }
}

/// The environment a script is handed for an event.
pub open spec fn event_env(event: Event) -> Map<Seq<char>, Seq<char>> {
    Map::<Seq<char>, Seq<char>>::empty().insert("SENDER"@, kind_name(event_kind(event))).insert(
        "INFO"@,
        info_text(ordered(event_fields(event))),
    ).union_prefer_right(event_env_fields(event))
}

/// What an event of a topic sets when it carries nothing.
pub open spec fn nothing_sets(topic: Topic) -> Seq<(Seq<char>, Seq<char>)> {
    match topic {
        Topic::FrontAppSwitched => all_pairs(seq![
            leaf("app"@, Seq::<char>::empty()),
        ]),
        Topic::AppLaunched => all_pairs(seq![
            leaf("app"@, Seq::<char>::empty()),
        ]),
        Topic::SpaceChanged => all_pairs(seq![
            leaf("display"@, decimal_text(0)),
            leaf("space"@, decimal_text(0)),
        ]),
        Topic::VolumeChanged => all_pairs(seq![
            leaf("volume"@, decimal_text(0)),
        ]),
        Topic::BrightnessChanged => all_pairs(seq![
            leaf("brightness"@, decimal_text(0)),
        ]),
        Topic::PowerSourceChanged => all_pairs(seq![
            EntryView { name: "power_source"@, value: "UNKNOWN"@, nested: variant_pairs(power_names(), Seq::empty()) },
            leaf("watts"@, Seq::<char>::empty()),
            leaf("charge"@, Seq::<char>::empty()),
        ]),
        Topic::WifiChanged => all_pairs(seq![
            leaf("ssid"@, Seq::<char>::empty()),
        ]),
        Topic::MediaChanged => all_pairs(seq![
            leaf("media"@, Seq::<char>::empty()),
        ]),
        Topic::SpaceWindowsChanged => all_pairs(seq![
            leaf("space"@, decimal_text(0)),
        ]),
        Topic::AccessibilityChanged => all_pairs(seq![
            leaf("trusted"@, "false"@),
        ]),
        Topic::MouseClicked => all_pairs(seq![
            leaf("button"@, "left"@),
            leaf("modifiers"@, "none"@),
            leaf("x"@, "0"@),
            leaf("y"@, "0"@),
        ]),
        Topic::MouseScrolled => all_pairs(seq![
            leaf("scroll_delta"@, "0"@),
            leaf("modifiers"@, "none"@),
            leaf("x"@, "0"@),
            leaf("y"@, "0"@),
        ]),
        Topic::MouseScrolledGlobal => all_pairs(seq![
            leaf("scroll_delta"@, "0"@),
            leaf("modifiers"@, "none"@),
            leaf("x"@, "0"@),
            leaf("y"@, "0"@),
        ]),
        _ => Seq::empty(),
    }
}

/// Whether a measurement is nought.
pub open spec fn is_nought(measure: Measure) -> bool {
    measure.bits == 0 && measure.text@ == "0"@
}

/// Whether every field of an event is what it is when nobody says.
pub open spec fn holds_nothing(event: Event) -> bool {
    match event {
        Event::FrontAppSwitched(front) => front.app@.len() == 0,
        Event::AppLaunched(launch) => launch.app@.len() == 0,
        Event::SpaceChanged(change) => change.display == 0 && change.space == 0,
        Event::VolumeChanged(change) => change.volume == 0,
        Event::BrightnessChanged(change) => change.brightness == 0,
        Event::PowerSourceChanged(change) => change.power_source == PowerSource::Unknown
            && change.watts is None && change.charge is None,
        Event::WifiChanged(change) => change.ssid@.len() == 0,
        Event::MediaChanged(change) => change.media@ == JsonView::Null,
        Event::SpaceWindowsChanged(change) => change.space == 0,
        Event::AccessibilityChanged(change) => !change.trusted,
        Event::MouseClicked(click) => click.button == MouseButton::Left && click.modifiers
            == no_modifiers() && is_nought(click.x) && is_nought(click.y),
        Event::MouseScrolled(scroll) => is_nought(scroll.scroll_delta) && scroll.modifiers
            == no_modifiers() && is_nought(scroll.x) && is_nought(scroll.y),
        Event::MouseScrolledGlobal(scroll) => is_nought(scroll.scroll_delta) && scroll.modifiers
            == no_modifiers() && is_nought(scroll.x) && is_nought(scroll.y),
        Event::Custom(custom) => custom.vars@ == Map::<Seq<char>, Seq<char>>::empty(),
        _ => true,
    }
}

/// Whether an event carries nothing beyond its name, in what it holds and in
/// what it sets.
pub open spec fn carries_nothing(event: Event) -> bool {
    holds_nothing(event) && match event_kind(event) {
        KindView::Plain(topic) => event_sets(event) == nothing_sets(topic),
        KindView::Scoped(topic, _) => event_sets(event) == nothing_sets(topic),
        KindView::Custom(_) => event_fields(event) == Map::<Seq<char>, Seq<char>>::empty(),
    }
}

/// Fields under names in Unicode upper case.
fn upper_named(vars: &Vars) -> (r: Vars)
    ensures
        r@ == mapped(unicode_upper_pairs(vars.entries())),
{
    let ghost views = unicode_upper_pairs(vars.entries());
    let mut out = Vars::new();
    let mut i: usize = 0;
    proof {
        assert(views.take(0) =~= Seq::<(Seq<char>, Seq<char>)>::empty());
    }
    while i < vars.len()
        invariant
            i <= vars.entries().len(),
            views == unicode_upper_pairs(vars.entries()),
            out@ == mapped(views.take(i as int)),
        decreases vars.entries().len() - i,
    {
        proof {
            assert(views.take(i + 1).drop_last() =~= views.take(i as int));
            assert(views.take(i + 1).last() == views[i as int]);
        }
        out.insert(vars.name_at(i).to_uppercase(), vars.value_at(i).to_owned());
        i = i + 1;
    }
    proof {
        assert(views.take(views.len() as int) =~= views);
    }
    out
}

/// Fields as the strings of a JSON object.
fn object_from(vars: &Vars) -> (r: Json)
    ensures
        r@ == object_of(vars.entries()),
{
    let ghost views = vars.entries();
    let mut out: Vec<(String, Json)> = Vec::new();
    let mut i: usize = 0;
    let ghost wanted = views.map_values(
        |f: (Seq<char>, Seq<char>)| (f.0, JsonView::String(f.1)),
    );
    proof {
        assert(wanted.take(0) =~= crate::json::field_views(out@));
    }
    while i < vars.len()
        invariant
            i <= views.len(),
            views == vars.entries(),
            wanted == views.map_values(|f: (Seq<char>, Seq<char>)| (f.0, JsonView::String(f.1))),
            crate::json::field_views(out@) == wanted.take(i as int),
        decreases views.len() - i,
    {
        let ghost before = out@;
        out.push((vars.name_at(i).to_owned(), Json::String(vars.value_at(i).to_owned())));
        proof {
            assert(out@.drop_last() =~= before);
            assert(crate::json::json_view(out@.last().1) == wanted[i as int].1);
            assert(wanted.take(i + 1) =~= wanted.take(i as int).push(wanted[i as int]));
        }
        i = i + 1;
    }
    proof {
        assert(wanted.take(wanted.len() as int) =~= wanted);
    }
    Json::Object(out)
}

impl Event {
    /// What this is, for matching a subscription against. A payload never says
    /// which item it happened to, so this names none.
    pub fn kind(&self) -> (r: Kind<()>)
        ensures
            r@ == event_kind(*self),
    {
        match self {
            Event::Routine(_) => Kind::of(Topic::Routine),
            Event::Forced(_) => Kind::of(Topic::Forced),
            Event::FrontAppSwitched(_) => Kind::of(Topic::FrontAppSwitched),
            Event::AppLaunched(_) => Kind::of(Topic::AppLaunched),
            Event::SpaceChanged(_) => Kind::of(Topic::SpaceChanged),
            Event::DisplayChanged(_) => Kind::of(Topic::DisplayChanged),
            Event::SystemWoke(_) => Kind::of(Topic::SystemWoke),
            Event::SystemWillSleep(_) => Kind::of(Topic::SystemWillSleep),
            Event::VolumeChanged(_) => Kind::of(Topic::VolumeChanged),
            Event::BrightnessChanged(_) => Kind::of(Topic::BrightnessChanged),
            Event::PowerSourceChanged(_) => Kind::of(Topic::PowerSourceChanged),
            Event::WifiChanged(_) => Kind::of(Topic::WifiChanged),
            Event::MediaChanged(_) => Kind::of(Topic::MediaChanged),
            Event::SpaceWindowsChanged(_) => Kind::of(Topic::SpaceWindowsChanged),
            Event::ConfigReloaded(_) => Kind::of(Topic::ConfigReloaded),
            Event::AccessibilityChanged(_) => Kind::of(Topic::AccessibilityChanged),
            Event::MouseEntered(_) => Kind::of(Topic::MouseEntered),
            Event::MouseExited(_) => Kind::of(Topic::MouseExited),
            Event::MouseEnteredGlobal(_) => Kind::of(Topic::MouseEnteredGlobal),
            Event::MouseExitedGlobal(_) => Kind::of(Topic::MouseExitedGlobal),
            Event::MouseClicked(_) => Kind::of(Topic::MouseClicked),
            Event::MouseScrolled(_) => Kind::of(Topic::MouseScrolled),
            Event::MouseScrolledGlobal(_) => Kind::of(Topic::MouseScrolledGlobal),
            Event::Custom(custom) => Kind::Custom(custom.name.clone()),
        }
    }

    /// The payload's fields, as a script sees them.
    pub fn fields(&self) -> (r: Vars)
        ensures
            r@ == event_fields(*self),
    {
        match self {
            Event::FrontAppSwitched(data) => data.fields(),
            Event::AppLaunched(data) => data.fields(),
            Event::SpaceChanged(data) => data.fields(),
            Event::VolumeChanged(data) => data.fields(),
            Event::BrightnessChanged(data) => data.fields(),
            Event::PowerSourceChanged(data) => data.fields(),
            Event::WifiChanged(data) => data.fields(),
            Event::MediaChanged(data) => data.fields(),
            Event::SpaceWindowsChanged(data) => data.fields(),
            Event::AccessibilityChanged(data) => data.fields(),
            Event::MouseClicked(data) => data.fields(),
            Event::MouseScrolled(data) => data.fields(),
            Event::MouseScrolledGlobal(data) => data.fields(),
            Event::Custom(custom) => custom.fields(),
            _ => Vars::new(),
        }
    }

    /// The payload's fields, under the names a script's environment uses.
    pub fn env_fields(&self) -> (r: Vars)
        ensures
            r@ == event_env_fields(*self),
    {
        proof {
            assert(upper_pairs(Seq::empty()) =~= Seq::<(Seq<char>, Seq<char>)>::empty());
        }
        match self {
            Event::FrontAppSwitched(data) => data.env_fields(),
            Event::AppLaunched(data) => data.env_fields(),
            Event::SpaceChanged(data) => data.env_fields(),
            Event::VolumeChanged(data) => data.env_fields(),
            Event::BrightnessChanged(data) => data.env_fields(),
            Event::PowerSourceChanged(data) => data.env_fields(),
            Event::WifiChanged(data) => data.env_fields(),
            Event::MediaChanged(data) => data.env_fields(),
            Event::SpaceWindowsChanged(data) => data.env_fields(),
            Event::AccessibilityChanged(data) => data.env_fields(),
            Event::MouseClicked(data) => data.env_fields(),
            Event::MouseScrolled(data) => data.env_fields(),
            Event::MouseScrolledGlobal(data) => data.env_fields(),
            Event::Custom(custom) => upper_named(&custom.vars),
            _ => Vars::new(),
        }
    }

    /// The environment a script is handed.
    ///
    /// `SENDER` is the event's name and `INFO` the payload as one value. Every
    /// field also arrives under its own name.
    pub fn env(&self) -> (r: Vars)
        ensures
            r@ == event_env(*self),
    {
        let fields = self.fields();
        let count: usize = fields.len();
        proof {
            law_order_is_canonical(fields.entries(), ordered(event_fields(*self)));
        }
        let info = if count == 0 {
            String::new()
        } else if count == 1 {
            fields.value_at(0).to_owned()
        } else {
            object_from(&fields).to_string()
        };
        let mut env = Vars::new();
        env.insert("SENDER".to_owned(), self.kind().to_string());
        env.insert("INFO".to_owned(), info);
        env.extend(&self.env_fields());
        env
    }
}

/// A script always finds `SENDER` and `INFO`, and every field under its own
/// name.
pub proof fn law_env_is_never_short(event: Event, name: Seq<char>)
    requires
        name == "SENDER"@ || name == "INFO"@ || event_env_fields(event).contains_key(name),
    ensures
        event_env(event).contains_key(name),
        event_env_fields(event).contains_key(name) ==> event_env(event)[name]
            == event_env_fields(event)[name],
{
}

/// An event without fields leaves `INFO` set, and empty.
pub proof fn law_no_fields_no_info(event: Event)
    requires
        event_sets(event).len() == 0,
        !(event is Custom),
    ensures
        event_env(event) == Map::<Seq<char>, Seq<char>>::empty().insert(
            "SENDER"@,
            kind_name(event_kind(event)),
        ).insert("INFO"@, Seq::<char>::empty()),
{
    let none = Seq::<(Seq<char>, Seq<char>)>::empty();
    assert(event_sets(event) =~= none);
    assert(in_order(none) && mapped(none) == event_fields(event));
    law_order_is_canonical(none, ordered(event_fields(event)));
    assert(upper_pairs(event_sets(event)) =~= none);
    assert(event_env(event) =~= Map::<Seq<char>, Seq<char>>::empty().insert(
        "SENDER"@,
        kind_name(event_kind(event)),
    ).insert("INFO"@, Seq::<char>::empty()));
}

/// The names a power source sets are told apart.
proof fn lemma_power_names_are_apart()
    ensures
        "adapter_watts"@ != "charging"@,
        "adapter_watts"@ != "time_to_empty_minutes"@,
        "charging"@ != "time_to_full_minutes"@,
        "charging"@ != "time_to_empty_minutes"@,
        "time_to_full_minutes"@ != "time_to_empty_minutes"@,
        "adapter_watts"@ != "time_to_full_minutes"@,
{
    reveal_strlit("adapter_watts");
    reveal_strlit("charging");
    reveal_strlit("time_to_full_minutes");
    reveal_strlit("time_to_empty_minutes");
    assert("adapter_watts"@.len() == 13);
    assert("charging"@.len() == 8);
    assert("time_to_full_minutes"@.len() == 20);
    assert("time_to_empty_minutes"@.len() == 21);
}

/// Whichever side power comes from, every name a side may set is set: one that
/// says nothing of the side at hand is empty rather than absent, and a battery
/// says outright that it is not charging.
pub proof fn law_a_power_source_leaves_no_hole(source: PowerSource)
    ensures
        mapped(source.sets()).contains_key("adapter_watts"@),
        mapped(source.sets()).contains_key("charging"@),
        mapped(source.sets()).contains_key("time_to_full_minutes"@),
        mapped(source.sets()).contains_key("time_to_empty_minutes"@),
        source is Battery ==> mapped(source.sets())["charging"@] == "false"@,
        source is Unknown ==> mapped(source.sets())["charging"@] == Seq::<char>::empty(),
        !(source is Ac) ==> mapped(source.sets())["adapter_watts"@] == Seq::<char>::empty(),
        !(source is Ac) ==> mapped(source.sets())["time_to_full_minutes"@] == Seq::<char>::empty(),
        !(source is Battery) ==> mapped(source.sets())["time_to_empty_minutes"@] == Seq::<
            char,
        >::empty(),
{
    let names = power_names();
    let active = power_entries(source);
    lemma_power_names_are_apart();
    law_every_name_is_set(names, active, 0, 0);
    law_every_name_is_set(names, active, 0, 1);
    law_every_name_is_set(names, active, 0, 2);
    law_every_name_is_set(names, active, 1, 0);
    law_active_variant_wins(names, active, "adapter_watts"@);
    law_active_variant_wins(names, active, "charging"@);
    law_active_variant_wins(names, active, "time_to_full_minutes"@);
    law_active_variant_wins(names, active, "time_to_empty_minutes"@);
    match source {
        PowerSource::Ac { adapter_watts, charging, time_to_full_minutes } => {
            let pairs = seq![
                ("adapter_watts"@, optional_text(option_u32(adapter_watts))),
                ("charging"@, truth_text(charging)),
                ("time_to_full_minutes"@, optional_text(option_u32(time_to_full_minutes))),
            ];
            lemma_three(active[0], active[1], active[2]);
            assert(active =~= seq![active[0], active[1], active[2]]);
            assert(all_pairs(active) =~= pairs);
            crate::assoc::lemma_mapped_names(pairs, "time_to_empty_minutes"@);
        },
        PowerSource::Battery { time_to_empty_minutes } => {
            let pairs = seq![
                ("time_to_empty_minutes"@, optional_text(option_u32(time_to_empty_minutes))),
                ("charging"@, truth_text(false)),
            ];
            lemma_two(active[0], active[1]);
            assert(active =~= seq![active[0], active[1]]);
            assert(all_pairs(active) =~= pairs);
            crate::assoc::lemma_mapped_names(pairs, "adapter_watts"@);
            crate::assoc::lemma_mapped_names(pairs, "time_to_full_minutes"@);
            assert(pairs.last() == ("charging"@, "false"@));
            assert(mapped(pairs)["charging"@] == "false"@);
        },
        PowerSource::Unknown => {
            assert(all_pairs(active) =~= Seq::<(Seq<char>, Seq<char>)>::empty());
        },
    }
}

/// Two entries set what the one and then what the other sets.
proof fn lemma_two(a: EntryView, b: EntryView)
    ensures
        all_pairs(seq![a, b]) == entry_pairs(a) + entry_pairs(b),
{
    let both = seq![a, b];
    assert(both.drop_last() =~= seq![a]);
    assert(seq![a].drop_last() =~= Seq::<EntryView>::empty());
    assert(all_pairs(Seq::<EntryView>::empty()) =~= Seq::<(Seq<char>, Seq<char>)>::empty());
    assert(all_pairs(seq![a]) =~= entry_pairs(a));
}

/// Three entries set what each sets, in turn.
proof fn lemma_three(a: EntryView, b: EntryView, c: EntryView)
    ensures
        all_pairs(seq![a, b, c]) == entry_pairs(a) + entry_pairs(b) + entry_pairs(c),
{
    assert(seq![a, b, c].drop_last() =~= seq![a, b]);
    lemma_two(a, b);
}

/// The names of a power reading all reach a script, whatever was read.
pub proof fn law_a_power_reading_sets_every_name(change: PowerChange, name: Seq<char>)
    requires
        name == "power_source"@ || name == "adapter_watts"@ || name == "charging"@ || name
            == "time_to_full_minutes"@ || name == "time_to_empty_minutes"@ || name == "watts"@
            || name == "charge"@,
    ensures
        event_fields(Event::PowerSourceChanged(change)).contains_key(name),
{
    let entries = change.entries();
    lemma_three(entries[0], entries[1], entries[2]);
    assert(entries =~= seq![entries[0], entries[1], entries[2]]);
    law_a_power_source_leaves_no_hole(change.power_source);
    let first = entry_pairs(entries[0]);
    let nested = change.power_source.sets();
    lemma_mapped_concat(seq![("power_source"@, power_text(change.power_source))], nested, name);
    assert(first =~= seq![("power_source"@, power_text(change.power_source))] + nested);
    lemma_mapped_concat(first, entry_pairs(entries[1]), name);
    lemma_mapped_concat(first + entry_pairs(entries[1]), entry_pairs(entries[2]), name);
    crate::assoc::lemma_mapped_names(
        seq![("power_source"@, power_text(change.power_source))],
        "power_source"@,
    );
    assert(seq![("power_source"@, power_text(change.power_source))][0].0 == "power_source"@);
    crate::assoc::lemma_mapped_names(entry_pairs(entries[1]), "watts"@);
    assert(entry_pairs(entries[1])[0].0 == "watts"@);
    crate::assoc::lemma_mapped_names(entry_pairs(entries[2]), "charge"@);
    assert(entry_pairs(entries[2])[0].0 == "charge"@);
}

} // verus!
