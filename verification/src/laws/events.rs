//! What an event puts in front of a script, said of its payload field by field.

use crate::assoc::{lemma_mapped_names, mapped};
use crate::event::{
    bare_kind, event_env, event_env_fields, event_fields, event_kind, event_sets, held_list,
    kind_name, law_no_fields_no_info, leaf, modifier_bits, modifiers_of, modifiers_text,
    optional_text, option_u32, option_u8, ordered, power_entries, power_names, topic_name,
    unicode_upper, AccessibilityChange, AppLaunch, BrightnessChange, Custom, Event, FrontApp,
    KindView, MediaChange, Modifiers, MouseButton, MouseClick, PowerChange, PowerSource, Scroll,
    ScrollGlobal, SpaceChange, SpaceWindowsChange, Topic, VolumeChange, WifiChange,
};
use crate::json::{json_text, JsonView};
use crate::project::{
    all_pairs, calls, law_a_value_sets_what_any_variant_says,
    law_the_environment_is_the_fields_in_upper_case, lemma_mapped_concat, projects, upper_pairs,
    EntryView, EnvFields,
};
use crate::text::{decimal_text, uppered};
use crate::vars::{before, in_order, law_order_is_canonical};
use vstd::prelude::*;

verus! {

/// How a script reads what is or is not so.
pub open spec fn yes_or_no(value: bool) -> Seq<char> {
    if value {
        "true"@
    } else {
        "false"@
    }
}

/// How a script reads which button was pressed.
pub open spec fn which_button(button: MouseButton) -> Seq<char> {
    if button == MouseButton::Left {
        "left"@
    } else if button == MouseButton::Right {
        "right"@
    } else {
        "other"@
    }
}

/// How a script reads a number that may be missing.
pub open spec fn number_or_nothing(value: Option<u32>) -> Seq<char> {
    match value {
        Some(n) => decimal_text(n as nat),
        None => ""@,
    }
}

// ---------------------------------------------------------------------------
// Names

/// The names of the fields in upper case.
proof fn lemma_uppers()
    ensures
        uppered("app"@) == "APP"@,
        uppered("display"@) == "DISPLAY"@,
        uppered("space"@) == "SPACE"@,
        uppered("volume"@) == "VOLUME"@,
        uppered("brightness"@) == "BRIGHTNESS"@,
        uppered("ssid"@) == "SSID"@,
        uppered("media"@) == "MEDIA"@,
        uppered("trusted"@) == "TRUSTED"@,
        uppered("button"@) == "BUTTON"@,
        uppered("modifiers"@) == "MODIFIERS"@,
        uppered("x"@) == "X"@,
        uppered("y"@) == "Y"@,
        uppered("scroll_delta"@) == "SCROLL_DELTA"@,
        uppered("power_source"@) == "POWER_SOURCE"@,
        uppered("adapter_watts"@) == "ADAPTER_WATTS"@,
        uppered("charging"@) == "CHARGING"@,
        uppered("time_to_full_minutes"@) == "TIME_TO_FULL_MINUTES"@,
        uppered("time_to_empty_minutes"@) == "TIME_TO_EMPTY_MINUTES"@,
        uppered("watts"@) == "WATTS"@,
        uppered("charge"@) == "CHARGE"@,
{
    lemma_upper_app();
    lemma_upper_display();
    lemma_upper_space();
    lemma_upper_volume();
    lemma_upper_brightness();
    lemma_upper_ssid();
    lemma_upper_media();
    lemma_upper_trusted();
    lemma_upper_button();
    lemma_upper_modifiers();
    lemma_upper_x();
    lemma_upper_y();
    lemma_upper_scroll_delta();
    lemma_upper_power_source();
    lemma_upper_adapter_watts();
    lemma_upper_charging();
    lemma_upper_time_to_full_minutes();
    lemma_upper_time_to_empty_minutes();
    lemma_upper_watts();
    lemma_upper_charge();
}

/// One of them.
proof fn lemma_upper_app()
    ensures
        uppered("app"@) == "APP"@,
{
    reveal_strlit("app");
    reveal_strlit("APP");
    assert(uppered("app"@) =~= "APP"@);
}

/// One of them.
proof fn lemma_upper_display()
    ensures
        uppered("display"@) == "DISPLAY"@,
{
    reveal_strlit("display");
    reveal_strlit("DISPLAY");
    assert(uppered("display"@) =~= "DISPLAY"@);
}

/// One of them.
proof fn lemma_upper_space()
    ensures
        uppered("space"@) == "SPACE"@,
{
    reveal_strlit("space");
    reveal_strlit("SPACE");
    assert(uppered("space"@) =~= "SPACE"@);
}

/// One of them.
proof fn lemma_upper_volume()
    ensures
        uppered("volume"@) == "VOLUME"@,
{
    reveal_strlit("volume");
    reveal_strlit("VOLUME");
    assert(uppered("volume"@) =~= "VOLUME"@);
}

/// One of them.
proof fn lemma_upper_brightness()
    ensures
        uppered("brightness"@) == "BRIGHTNESS"@,
{
    reveal_strlit("brightness");
    reveal_strlit("BRIGHTNESS");
    assert(uppered("brightness"@) =~= "BRIGHTNESS"@);
}

/// One of them.
proof fn lemma_upper_ssid()
    ensures
        uppered("ssid"@) == "SSID"@,
{
    reveal_strlit("ssid");
    reveal_strlit("SSID");
    assert(uppered("ssid"@) =~= "SSID"@);
}

/// One of them.
proof fn lemma_upper_media()
    ensures
        uppered("media"@) == "MEDIA"@,
{
    reveal_strlit("media");
    reveal_strlit("MEDIA");
    assert(uppered("media"@) =~= "MEDIA"@);
}

/// One of them.
proof fn lemma_upper_trusted()
    ensures
        uppered("trusted"@) == "TRUSTED"@,
{
    reveal_strlit("trusted");
    reveal_strlit("TRUSTED");
    assert(uppered("trusted"@) =~= "TRUSTED"@);
}

/// One of them.
proof fn lemma_upper_button()
    ensures
        uppered("button"@) == "BUTTON"@,
{
    reveal_strlit("button");
    reveal_strlit("BUTTON");
    assert(uppered("button"@) =~= "BUTTON"@);
}

/// One of them.
proof fn lemma_upper_modifiers()
    ensures
        uppered("modifiers"@) == "MODIFIERS"@,
{
    reveal_strlit("modifiers");
    reveal_strlit("MODIFIERS");
    assert(uppered("modifiers"@) =~= "MODIFIERS"@);
}

/// One of them.
proof fn lemma_upper_x()
    ensures
        uppered("x"@) == "X"@,
{
    reveal_strlit("x");
    reveal_strlit("X");
    assert(uppered("x"@) =~= "X"@);
}

/// One of them.
proof fn lemma_upper_y()
    ensures
        uppered("y"@) == "Y"@,
{
    reveal_strlit("y");
    reveal_strlit("Y");
    assert(uppered("y"@) =~= "Y"@);
}

/// One of them.
proof fn lemma_upper_scroll_delta()
    ensures
        uppered("scroll_delta"@) == "SCROLL_DELTA"@,
{
    reveal_strlit("scroll_delta");
    reveal_strlit("SCROLL_DELTA");
    assert(uppered("scroll_delta"@) =~= "SCROLL_DELTA"@);
}

/// One of them.
proof fn lemma_upper_power_source()
    ensures
        uppered("power_source"@) == "POWER_SOURCE"@,
{
    reveal_strlit("power_source");
    reveal_strlit("POWER_SOURCE");
    assert(uppered("power_source"@) =~= "POWER_SOURCE"@);
}

/// One of them.
proof fn lemma_upper_adapter_watts()
    ensures
        uppered("adapter_watts"@) == "ADAPTER_WATTS"@,
{
    reveal_strlit("adapter_watts");
    reveal_strlit("ADAPTER_WATTS");
    assert(uppered("adapter_watts"@) =~= "ADAPTER_WATTS"@);
}

/// One of them.
proof fn lemma_upper_charging()
    ensures
        uppered("charging"@) == "CHARGING"@,
{
    reveal_strlit("charging");
    reveal_strlit("CHARGING");
    assert(uppered("charging"@) =~= "CHARGING"@);
}

/// One of them.
proof fn lemma_upper_time_to_full_minutes()
    ensures
        uppered("time_to_full_minutes"@) == "TIME_TO_FULL_MINUTES"@,
{
    reveal_strlit("time_to_full_minutes");
    reveal_strlit("TIME_TO_FULL_MINUTES");
    assert(uppered("time_to_full_minutes"@) =~= "TIME_TO_FULL_MINUTES"@);
}

/// One of them.
proof fn lemma_upper_time_to_empty_minutes()
    ensures
        uppered("time_to_empty_minutes"@) == "TIME_TO_EMPTY_MINUTES"@,
{
    reveal_strlit("time_to_empty_minutes");
    reveal_strlit("TIME_TO_EMPTY_MINUTES");
    assert(uppered("time_to_empty_minutes"@) =~= "TIME_TO_EMPTY_MINUTES"@);
}

/// One of them.
proof fn lemma_upper_watts()
    ensures
        uppered("watts"@) == "WATTS"@,
{
    reveal_strlit("watts");
    reveal_strlit("WATTS");
    assert(uppered("watts"@) =~= "WATTS"@);
}

/// One of them.
proof fn lemma_upper_charge()
    ensures
        uppered("charge"@) == "CHARGE"@,
{
    reveal_strlit("charge");
    reveal_strlit("CHARGE");
    assert(uppered("charge"@) =~= "CHARGE"@);
}

/// One field more sets one name more, as it is and in upper case.
proof fn lemma_one_field_more(entries: Seq<EntryView>, name: Seq<char>, value: Seq<char>)
    ensures
        mapped(all_pairs(entries.push(leaf(name, value)))) == mapped(all_pairs(entries)).insert(
            name,
            value,
        ),
        mapped(upper_pairs(all_pairs(entries.push(leaf(name, value))))) == mapped(
            upper_pairs(all_pairs(entries)),
        ).insert(uppered(name), value),
{
    let more = entries.push(leaf(name, value));
    let pairs = all_pairs(entries);
    assert(more.drop_last() =~= entries);
    assert(all_pairs(more) =~= pairs.push((name, value)));
    assert(pairs.push((name, value)).drop_last() =~= pairs);
    let upper = upper_pairs(pairs).push((uppered(name), value));
    assert(upper_pairs(pairs.push((name, value))) =~= upper);
    assert(upper.drop_last() =~= upper_pairs(pairs));
}

/// One pair more maps one name more.
proof fn lemma_one_pair_more(pairs: Seq<(Seq<char>, Seq<char>)>, name: Seq<char>, value: Seq<char>)
    ensures
        mapped(pairs.push((name, value))) == mapped(pairs).insert(name, value),
{
    assert(pairs.push((name, value)).drop_last() =~= pairs);
}

/// No fields set no names.
proof fn lemma_no_fields()
    ensures
        mapped(all_pairs(Seq::<EntryView>::empty())) == Map::<Seq<char>, Seq<char>>::empty(),
        mapped(upper_pairs(all_pairs(Seq::<EntryView>::empty()))) == Map::<
            Seq<char>,
            Seq<char>,
        >::empty(),
{
    let none = Seq::<(Seq<char>, Seq<char>)>::empty();
    assert(all_pairs(Seq::<EntryView>::empty()) =~= none);
    assert(upper_pairs(none) =~= none);
}

/// A text comes before another whose first character is greater.
proof fn lemma_first_decides(a: Seq<char>, b: Seq<char>)
    requires
        a.len() > 0,
        b.len() > 0,
        a[0] < b[0],
    ensures
        before(a, b),
        a != b,
{
}

/// Fields that are in order, and are those of an event, are what `INFO` is made of:
/// nothing of none, the value itself of one, and of several an object of their
/// values under their names.
pub proof fn law_info_is_the_fields_in_order(event: Event, fields: Seq<(Seq<char>, Seq<char>)>)
    requires
        in_order(fields),
        mapped(fields) == event_fields(event),
        !event_env_fields(event).contains_key("INFO"@),
    ensures
        fields.len() == 0 ==> event_env(event)["INFO"@] == ""@,
        fields.len() == 1 ==> event_env(event)["INFO"@] == fields[0].1,
        fields.len() > 1 ==> event_env(event)["INFO"@] == json_text(
            JsonView::Object(
                Seq::new(fields.len(), |i: int| (fields[i].0, JsonView::String(fields[i].1))),
            ),
        ),
{
    reveal_strlit("");
    reveal_strlit("SENDER");
    reveal_strlit("INFO");
    law_order_is_canonical(fields, ordered(event_fields(event)));
    assert(Seq::new(fields.len(), |i: int| (fields[i].0, JsonView::String(fields[i].1)))
        =~= fields.map_values(|f: (Seq<char>, Seq<char>)| (f.0, JsonView::String(f.1))));
    assert(""@ =~= Seq::<char>::empty());
}

// ---------------------------------------------------------------------------
// What each event carries

/// What `front_app_switched` carries reaches a script, each field under its own name and
/// with its own value.
pub proof fn law_front_app_switched_carries_its_fields(data: FrontApp)
    ensures
        event_fields(Event::FrontAppSwitched(data)) == map![
            "app"@ => data.app@,
        ],
        event_env(Event::FrontAppSwitched(data)) == map![
            "SENDER"@ => "front_app_switched"@,
            "INFO"@ => data.app@,
            "APP"@ => data.app@,
        ],
{
    let event = Event::FrontAppSwitched(data);
    lemma_no_fields();
    lemma_upper_app();
    lemma_one_field_more(Seq::<EntryView>::empty(), "app"@, data.app@);
    assert(data.entries() =~= Seq::<EntryView>::empty().push(leaf("app"@, data.app@)));
    reveal_strlit("app");
    let fields = Seq::<(Seq<char>, Seq<char>)>::empty().push(("app"@, data.app@));
    lemma_one_pair_more(Seq::<(Seq<char>, Seq<char>)>::empty(), "app"@, data.app@);
    assert(mapped(fields) =~= event_fields(event));
    law_order_is_canonical(fields, ordered(event_fields(event)));
    assert(event_kind(event) == bare_kind(Topic::FrontAppSwitched));
}

/// What `app_launched` carries reaches a script, each field under its own name and
/// with its own value.
pub proof fn law_app_launched_carries_its_fields(data: AppLaunch)
    ensures
        event_fields(Event::AppLaunched(data)) == map![
            "app"@ => data.app@,
        ],
        event_env(Event::AppLaunched(data)) == map![
            "SENDER"@ => "app_launched"@,
            "INFO"@ => data.app@,
            "APP"@ => data.app@,
        ],
{
    let event = Event::AppLaunched(data);
    lemma_no_fields();
    lemma_upper_app();
    lemma_one_field_more(Seq::<EntryView>::empty(), "app"@, data.app@);
    assert(data.entries() =~= Seq::<EntryView>::empty().push(leaf("app"@, data.app@)));
    reveal_strlit("app");
    let fields = Seq::<(Seq<char>, Seq<char>)>::empty().push(("app"@, data.app@));
    lemma_one_pair_more(Seq::<(Seq<char>, Seq<char>)>::empty(), "app"@, data.app@);
    assert(mapped(fields) =~= event_fields(event));
    law_order_is_canonical(fields, ordered(event_fields(event)));
    assert(event_kind(event) == bare_kind(Topic::AppLaunched));
}

/// What `space_changed` carries reaches a script, each field under its own name and
/// with its own value.
pub proof fn law_space_changed_carries_its_fields(data: SpaceChange)
    ensures
        event_fields(Event::SpaceChanged(data)) == map![
            "display"@ => decimal_text(data.display as nat),
            "space"@ => decimal_text(data.space as nat),
        ],
        event_env(Event::SpaceChanged(data)) == map![
            "SENDER"@ => "space_changed"@,
            "INFO"@ => json_text(
                JsonView::Object(
                    seq![
                        ("display"@, JsonView::String(decimal_text(data.display as nat))),
                        ("space"@, JsonView::String(decimal_text(data.space as nat))),
                    ],
                ),
            ),
            "DISPLAY"@ => decimal_text(data.display as nat),
            "SPACE"@ => decimal_text(data.space as nat),
        ],
{
    let event = Event::SpaceChanged(data);
    lemma_no_fields();
    lemma_upper_display();
    lemma_upper_space();
    lemma_one_field_more(Seq::<EntryView>::empty(), "display"@, decimal_text(data.display as nat));
    lemma_one_field_more(Seq::<EntryView>::empty().push(leaf("display"@, decimal_text(data.display as nat))), "space"@, decimal_text(data.space as nat));
    assert(data.entries() =~= Seq::<EntryView>::empty().push(leaf("display"@, decimal_text(data.display as nat))).push(leaf("space"@, decimal_text(data.space as nat))));
    reveal_strlit("display");
    reveal_strlit("space");
    let fields = Seq::<(Seq<char>, Seq<char>)>::empty().push(("display"@, decimal_text(data.display as nat))).push(("space"@, decimal_text(data.space as nat)));
    lemma_first_decides("display"@, "space"@);
    lemma_one_pair_more(Seq::<(Seq<char>, Seq<char>)>::empty(), "display"@, decimal_text(data.display as nat));
    lemma_one_pair_more(Seq::<(Seq<char>, Seq<char>)>::empty().push(("display"@, decimal_text(data.display as nat))), "space"@, decimal_text(data.space as nat));
    assert(mapped(fields) =~= event_fields(event));
    law_order_is_canonical(fields, ordered(event_fields(event)));
    assert(event_kind(event) == bare_kind(Topic::SpaceChanged));
    assert(fields.map_values(|f: (Seq<char>, Seq<char>)| (f.0, JsonView::String(f.1))) =~= seq![("display"@, JsonView::String(decimal_text(data.display as nat))), ("space"@, JsonView::String(decimal_text(data.space as nat)))]);
}

/// What `volume_changed` carries reaches a script, each field under its own name and
/// with its own value.
pub proof fn law_volume_changed_carries_its_fields(data: VolumeChange)
    ensures
        event_fields(Event::VolumeChanged(data)) == map![
            "volume"@ => decimal_text(data.volume as nat),
        ],
        event_env(Event::VolumeChanged(data)) == map![
            "SENDER"@ => "volume_changed"@,
            "INFO"@ => decimal_text(data.volume as nat),
            "VOLUME"@ => decimal_text(data.volume as nat),
        ],
{
    let event = Event::VolumeChanged(data);
    lemma_no_fields();
    lemma_upper_volume();
    lemma_one_field_more(Seq::<EntryView>::empty(), "volume"@, decimal_text(data.volume as nat));
    assert(data.entries() =~= Seq::<EntryView>::empty().push(leaf("volume"@, decimal_text(data.volume as nat))));
    reveal_strlit("volume");
    let fields = Seq::<(Seq<char>, Seq<char>)>::empty().push(("volume"@, decimal_text(data.volume as nat)));
    lemma_one_pair_more(Seq::<(Seq<char>, Seq<char>)>::empty(), "volume"@, decimal_text(data.volume as nat));
    assert(mapped(fields) =~= event_fields(event));
    law_order_is_canonical(fields, ordered(event_fields(event)));
    assert(event_kind(event) == bare_kind(Topic::VolumeChanged));
}

/// What `brightness_changed` carries reaches a script, each field under its own name and
/// with its own value.
pub proof fn law_brightness_changed_carries_its_fields(data: BrightnessChange)
    ensures
        event_fields(Event::BrightnessChanged(data)) == map![
            "brightness"@ => decimal_text(data.brightness as nat),
        ],
        event_env(Event::BrightnessChanged(data)) == map![
            "SENDER"@ => "brightness_changed"@,
            "INFO"@ => decimal_text(data.brightness as nat),
            "BRIGHTNESS"@ => decimal_text(data.brightness as nat),
        ],
{
    let event = Event::BrightnessChanged(data);
    lemma_no_fields();
    lemma_upper_brightness();
    lemma_one_field_more(Seq::<EntryView>::empty(), "brightness"@, decimal_text(data.brightness as nat));
    assert(data.entries() =~= Seq::<EntryView>::empty().push(leaf("brightness"@, decimal_text(data.brightness as nat))));
    reveal_strlit("brightness");
    let fields = Seq::<(Seq<char>, Seq<char>)>::empty().push(("brightness"@, decimal_text(data.brightness as nat)));
    lemma_one_pair_more(Seq::<(Seq<char>, Seq<char>)>::empty(), "brightness"@, decimal_text(data.brightness as nat));
    assert(mapped(fields) =~= event_fields(event));
    law_order_is_canonical(fields, ordered(event_fields(event)));
    assert(event_kind(event) == bare_kind(Topic::BrightnessChanged));
}

/// What `wifi_changed` carries reaches a script, each field under its own name and
/// with its own value.
pub proof fn law_wifi_changed_carries_its_fields(data: WifiChange)
    ensures
        event_fields(Event::WifiChanged(data)) == map![
            "ssid"@ => data.ssid@,
        ],
        event_env(Event::WifiChanged(data)) == map![
            "SENDER"@ => "wifi_changed"@,
            "INFO"@ => data.ssid@,
            "SSID"@ => data.ssid@,
        ],
{
    let event = Event::WifiChanged(data);
    lemma_no_fields();
    lemma_upper_ssid();
    lemma_one_field_more(Seq::<EntryView>::empty(), "ssid"@, data.ssid@);
    assert(data.entries() =~= Seq::<EntryView>::empty().push(leaf("ssid"@, data.ssid@)));
    reveal_strlit("ssid");
    let fields = Seq::<(Seq<char>, Seq<char>)>::empty().push(("ssid"@, data.ssid@));
    lemma_one_pair_more(Seq::<(Seq<char>, Seq<char>)>::empty(), "ssid"@, data.ssid@);
    assert(mapped(fields) =~= event_fields(event));
    law_order_is_canonical(fields, ordered(event_fields(event)));
    assert(event_kind(event) == bare_kind(Topic::WifiChanged));
}

/// What `media_changed` carries reaches a script, each field under its own name and
/// with its own value.
pub proof fn law_media_changed_carries_its_fields(data: MediaChange)
    ensures
        event_fields(Event::MediaChanged(data)) == map![
            "media"@ => json_text(data.media@),
        ],
        event_env(Event::MediaChanged(data)) == map![
            "SENDER"@ => "media_changed"@,
            "INFO"@ => json_text(data.media@),
            "MEDIA"@ => json_text(data.media@),
        ],
{
    let event = Event::MediaChanged(data);
    lemma_no_fields();
    lemma_upper_media();
    lemma_one_field_more(Seq::<EntryView>::empty(), "media"@, json_text(data.media@));
    assert(data.entries() =~= Seq::<EntryView>::empty().push(leaf("media"@, json_text(data.media@))));
    reveal_strlit("media");
    let fields = Seq::<(Seq<char>, Seq<char>)>::empty().push(("media"@, json_text(data.media@)));
    lemma_one_pair_more(Seq::<(Seq<char>, Seq<char>)>::empty(), "media"@, json_text(data.media@));
    assert(mapped(fields) =~= event_fields(event));
    law_order_is_canonical(fields, ordered(event_fields(event)));
    assert(event_kind(event) == bare_kind(Topic::MediaChanged));
}

/// What `space_windows_changed` carries reaches a script, each field under its own name and
/// with its own value.
pub proof fn law_space_windows_changed_carries_its_fields(data: SpaceWindowsChange)
    ensures
        event_fields(Event::SpaceWindowsChanged(data)) == map![
            "space"@ => decimal_text(data.space as nat),
        ],
        event_env(Event::SpaceWindowsChanged(data)) == map![
            "SENDER"@ => "space_windows_changed"@,
            "INFO"@ => decimal_text(data.space as nat),
            "SPACE"@ => decimal_text(data.space as nat),
        ],
{
    let event = Event::SpaceWindowsChanged(data);
    lemma_no_fields();
    lemma_upper_space();
    lemma_one_field_more(Seq::<EntryView>::empty(), "space"@, decimal_text(data.space as nat));
    assert(data.entries() =~= Seq::<EntryView>::empty().push(leaf("space"@, decimal_text(data.space as nat))));
    reveal_strlit("space");
    let fields = Seq::<(Seq<char>, Seq<char>)>::empty().push(("space"@, decimal_text(data.space as nat)));
    lemma_one_pair_more(Seq::<(Seq<char>, Seq<char>)>::empty(), "space"@, decimal_text(data.space as nat));
    assert(mapped(fields) =~= event_fields(event));
    law_order_is_canonical(fields, ordered(event_fields(event)));
    assert(event_kind(event) == bare_kind(Topic::SpaceWindowsChanged));
}

/// What `accessibility_changed` carries reaches a script, each field under its own name and
/// with its own value.
pub proof fn law_accessibility_changed_carries_its_fields(data: AccessibilityChange)
    ensures
        event_fields(Event::AccessibilityChanged(data)) == map![
            "trusted"@ => yes_or_no(data.trusted),
        ],
        event_env(Event::AccessibilityChanged(data)) == map![
            "SENDER"@ => "accessibility_changed"@,
            "INFO"@ => yes_or_no(data.trusted),
            "TRUSTED"@ => yes_or_no(data.trusted),
        ],
{
    let event = Event::AccessibilityChanged(data);
    lemma_no_fields();
    lemma_upper_trusted();
    lemma_one_field_more(Seq::<EntryView>::empty(), "trusted"@, yes_or_no(data.trusted));
    assert(data.entries() =~= Seq::<EntryView>::empty().push(leaf("trusted"@, yes_or_no(data.trusted))));
    reveal_strlit("trusted");
    let fields = Seq::<(Seq<char>, Seq<char>)>::empty().push(("trusted"@, yes_or_no(data.trusted)));
    lemma_one_pair_more(Seq::<(Seq<char>, Seq<char>)>::empty(), "trusted"@, yes_or_no(data.trusted));
    assert(mapped(fields) =~= event_fields(event));
    law_order_is_canonical(fields, ordered(event_fields(event)));
    assert(event_kind(event) == bare_kind(Topic::AccessibilityChanged));
}

/// What `mouse.clicked` carries reaches a script, each field under its own name and
/// with its own value.
pub proof fn law_mouse_clicked_carries_its_fields(data: MouseClick)
    ensures
        event_fields(Event::MouseClicked(data)) == map![
            "button"@ => which_button(data.button),
            "modifiers"@ => modifiers_text(data.modifiers),
            "x"@ => data.x.text@,
            "y"@ => data.y.text@,
        ],
        event_env(Event::MouseClicked(data)) == map![
            "SENDER"@ => "mouse.clicked"@,
            "INFO"@ => json_text(
                JsonView::Object(
                    seq![
                        ("button"@, JsonView::String(which_button(data.button))),
                        ("modifiers"@, JsonView::String(modifiers_text(data.modifiers))),
                        ("x"@, JsonView::String(data.x.text@)),
                        ("y"@, JsonView::String(data.y.text@)),
                    ],
                ),
            ),
            "BUTTON"@ => which_button(data.button),
            "MODIFIERS"@ => modifiers_text(data.modifiers),
            "X"@ => data.x.text@,
            "Y"@ => data.y.text@,
        ],
{
    let event = Event::MouseClicked(data);
    lemma_no_fields();
    lemma_upper_button();
    lemma_upper_modifiers();
    lemma_upper_x();
    lemma_upper_y();
    lemma_one_field_more(Seq::<EntryView>::empty(), "button"@, which_button(data.button));
    lemma_one_field_more(Seq::<EntryView>::empty().push(leaf("button"@, which_button(data.button))), "modifiers"@, modifiers_text(data.modifiers));
    lemma_one_field_more(Seq::<EntryView>::empty().push(leaf("button"@, which_button(data.button))).push(leaf("modifiers"@, modifiers_text(data.modifiers))), "x"@, data.x.text@);
    lemma_one_field_more(Seq::<EntryView>::empty().push(leaf("button"@, which_button(data.button))).push(leaf("modifiers"@, modifiers_text(data.modifiers))).push(leaf("x"@, data.x.text@)), "y"@, data.y.text@);
    assert(data.entries() =~= Seq::<EntryView>::empty().push(leaf("button"@, which_button(data.button))).push(leaf("modifiers"@, modifiers_text(data.modifiers))).push(leaf("x"@, data.x.text@)).push(leaf("y"@, data.y.text@)));
    reveal_strlit("button");
    reveal_strlit("modifiers");
    reveal_strlit("x");
    reveal_strlit("y");
    let fields = Seq::<(Seq<char>, Seq<char>)>::empty().push(("button"@, which_button(data.button))).push(("modifiers"@, modifiers_text(data.modifiers))).push(("x"@, data.x.text@)).push(("y"@, data.y.text@));
    lemma_first_decides("button"@, "modifiers"@);
    lemma_first_decides("button"@, "x"@);
    lemma_first_decides("button"@, "y"@);
    lemma_first_decides("modifiers"@, "x"@);
    lemma_first_decides("modifiers"@, "y"@);
    lemma_first_decides("x"@, "y"@);
    lemma_one_pair_more(Seq::<(Seq<char>, Seq<char>)>::empty(), "button"@, which_button(data.button));
    lemma_one_pair_more(Seq::<(Seq<char>, Seq<char>)>::empty().push(("button"@, which_button(data.button))), "modifiers"@, modifiers_text(data.modifiers));
    lemma_one_pair_more(Seq::<(Seq<char>, Seq<char>)>::empty().push(("button"@, which_button(data.button))).push(("modifiers"@, modifiers_text(data.modifiers))), "x"@, data.x.text@);
    lemma_one_pair_more(Seq::<(Seq<char>, Seq<char>)>::empty().push(("button"@, which_button(data.button))).push(("modifiers"@, modifiers_text(data.modifiers))).push(("x"@, data.x.text@)), "y"@, data.y.text@);
    assert(mapped(fields) =~= event_fields(event));
    law_order_is_canonical(fields, ordered(event_fields(event)));
    assert(event_kind(event) == bare_kind(Topic::MouseClicked));
    assert(fields.map_values(|f: (Seq<char>, Seq<char>)| (f.0, JsonView::String(f.1))) =~= seq![("button"@, JsonView::String(which_button(data.button))), ("modifiers"@, JsonView::String(modifiers_text(data.modifiers))), ("x"@, JsonView::String(data.x.text@)), ("y"@, JsonView::String(data.y.text@))]);
}

/// What `mouse.scrolled` carries reaches a script, each field under its own name and
/// with its own value.
pub proof fn law_mouse_scrolled_carries_its_fields(data: Scroll)
    ensures
        event_fields(Event::MouseScrolled(data)) == map![
            "scroll_delta"@ => data.scroll_delta.text@,
            "modifiers"@ => modifiers_text(data.modifiers),
            "x"@ => data.x.text@,
            "y"@ => data.y.text@,
        ],
        event_env(Event::MouseScrolled(data)) == map![
            "SENDER"@ => "mouse.scrolled"@,
            "INFO"@ => json_text(
                JsonView::Object(
                    seq![
                        ("modifiers"@, JsonView::String(modifiers_text(data.modifiers))),
                        ("scroll_delta"@, JsonView::String(data.scroll_delta.text@)),
                        ("x"@, JsonView::String(data.x.text@)),
                        ("y"@, JsonView::String(data.y.text@)),
                    ],
                ),
            ),
            "SCROLL_DELTA"@ => data.scroll_delta.text@,
            "MODIFIERS"@ => modifiers_text(data.modifiers),
            "X"@ => data.x.text@,
            "Y"@ => data.y.text@,
        ],
{
    let event = Event::MouseScrolled(data);
    lemma_no_fields();
    lemma_upper_scroll_delta();
    lemma_upper_modifiers();
    lemma_upper_x();
    lemma_upper_y();
    lemma_one_field_more(Seq::<EntryView>::empty(), "scroll_delta"@, data.scroll_delta.text@);
    lemma_one_field_more(Seq::<EntryView>::empty().push(leaf("scroll_delta"@, data.scroll_delta.text@)), "modifiers"@, modifiers_text(data.modifiers));
    lemma_one_field_more(Seq::<EntryView>::empty().push(leaf("scroll_delta"@, data.scroll_delta.text@)).push(leaf("modifiers"@, modifiers_text(data.modifiers))), "x"@, data.x.text@);
    lemma_one_field_more(Seq::<EntryView>::empty().push(leaf("scroll_delta"@, data.scroll_delta.text@)).push(leaf("modifiers"@, modifiers_text(data.modifiers))).push(leaf("x"@, data.x.text@)), "y"@, data.y.text@);
    assert(data.entries() =~= Seq::<EntryView>::empty().push(leaf("scroll_delta"@, data.scroll_delta.text@)).push(leaf("modifiers"@, modifiers_text(data.modifiers))).push(leaf("x"@, data.x.text@)).push(leaf("y"@, data.y.text@)));
    reveal_strlit("scroll_delta");
    reveal_strlit("modifiers");
    reveal_strlit("x");
    reveal_strlit("y");
    let fields = Seq::<(Seq<char>, Seq<char>)>::empty().push(("modifiers"@, modifiers_text(data.modifiers))).push(("scroll_delta"@, data.scroll_delta.text@)).push(("x"@, data.x.text@)).push(("y"@, data.y.text@));
    lemma_first_decides("modifiers"@, "scroll_delta"@);
    lemma_first_decides("modifiers"@, "x"@);
    lemma_first_decides("modifiers"@, "y"@);
    lemma_first_decides("scroll_delta"@, "x"@);
    lemma_first_decides("scroll_delta"@, "y"@);
    lemma_first_decides("x"@, "y"@);
    lemma_one_pair_more(Seq::<(Seq<char>, Seq<char>)>::empty(), "modifiers"@, modifiers_text(data.modifiers));
    lemma_one_pair_more(Seq::<(Seq<char>, Seq<char>)>::empty().push(("modifiers"@, modifiers_text(data.modifiers))), "scroll_delta"@, data.scroll_delta.text@);
    lemma_one_pair_more(Seq::<(Seq<char>, Seq<char>)>::empty().push(("modifiers"@, modifiers_text(data.modifiers))).push(("scroll_delta"@, data.scroll_delta.text@)), "x"@, data.x.text@);
    lemma_one_pair_more(Seq::<(Seq<char>, Seq<char>)>::empty().push(("modifiers"@, modifiers_text(data.modifiers))).push(("scroll_delta"@, data.scroll_delta.text@)).push(("x"@, data.x.text@)), "y"@, data.y.text@);
    assert(mapped(fields) =~= event_fields(event));
    law_order_is_canonical(fields, ordered(event_fields(event)));
    assert(event_kind(event) == bare_kind(Topic::MouseScrolled));
    assert(fields.map_values(|f: (Seq<char>, Seq<char>)| (f.0, JsonView::String(f.1))) =~= seq![("modifiers"@, JsonView::String(modifiers_text(data.modifiers))), ("scroll_delta"@, JsonView::String(data.scroll_delta.text@)), ("x"@, JsonView::String(data.x.text@)), ("y"@, JsonView::String(data.y.text@))]);
}

/// What `mouse.scrolled.global` carries reaches a script, each field under its own name and
/// with its own value.
pub proof fn law_mouse_scrolled_global_carries_its_fields(data: ScrollGlobal)
    ensures
        event_fields(Event::MouseScrolledGlobal(data)) == map![
            "scroll_delta"@ => data.scroll_delta.text@,
            "modifiers"@ => modifiers_text(data.modifiers),
            "x"@ => data.x.text@,
            "y"@ => data.y.text@,
        ],
        event_env(Event::MouseScrolledGlobal(data)) == map![
            "SENDER"@ => "mouse.scrolled.global"@,
            "INFO"@ => json_text(
                JsonView::Object(
                    seq![
                        ("modifiers"@, JsonView::String(modifiers_text(data.modifiers))),
                        ("scroll_delta"@, JsonView::String(data.scroll_delta.text@)),
                        ("x"@, JsonView::String(data.x.text@)),
                        ("y"@, JsonView::String(data.y.text@)),
                    ],
                ),
            ),
            "SCROLL_DELTA"@ => data.scroll_delta.text@,
            "MODIFIERS"@ => modifiers_text(data.modifiers),
            "X"@ => data.x.text@,
            "Y"@ => data.y.text@,
        ],
{
    let event = Event::MouseScrolledGlobal(data);
    lemma_no_fields();
    lemma_upper_scroll_delta();
    lemma_upper_modifiers();
    lemma_upper_x();
    lemma_upper_y();
    lemma_one_field_more(Seq::<EntryView>::empty(), "scroll_delta"@, data.scroll_delta.text@);
    lemma_one_field_more(Seq::<EntryView>::empty().push(leaf("scroll_delta"@, data.scroll_delta.text@)), "modifiers"@, modifiers_text(data.modifiers));
    lemma_one_field_more(Seq::<EntryView>::empty().push(leaf("scroll_delta"@, data.scroll_delta.text@)).push(leaf("modifiers"@, modifiers_text(data.modifiers))), "x"@, data.x.text@);
    lemma_one_field_more(Seq::<EntryView>::empty().push(leaf("scroll_delta"@, data.scroll_delta.text@)).push(leaf("modifiers"@, modifiers_text(data.modifiers))).push(leaf("x"@, data.x.text@)), "y"@, data.y.text@);
    assert(data.entries() =~= Seq::<EntryView>::empty().push(leaf("scroll_delta"@, data.scroll_delta.text@)).push(leaf("modifiers"@, modifiers_text(data.modifiers))).push(leaf("x"@, data.x.text@)).push(leaf("y"@, data.y.text@)));
    reveal_strlit("scroll_delta");
    reveal_strlit("modifiers");
    reveal_strlit("x");
    reveal_strlit("y");
    let fields = Seq::<(Seq<char>, Seq<char>)>::empty().push(("modifiers"@, modifiers_text(data.modifiers))).push(("scroll_delta"@, data.scroll_delta.text@)).push(("x"@, data.x.text@)).push(("y"@, data.y.text@));
    lemma_first_decides("modifiers"@, "scroll_delta"@);
    lemma_first_decides("modifiers"@, "x"@);
    lemma_first_decides("modifiers"@, "y"@);
    lemma_first_decides("scroll_delta"@, "x"@);
    lemma_first_decides("scroll_delta"@, "y"@);
    lemma_first_decides("x"@, "y"@);
    lemma_one_pair_more(Seq::<(Seq<char>, Seq<char>)>::empty(), "modifiers"@, modifiers_text(data.modifiers));
    lemma_one_pair_more(Seq::<(Seq<char>, Seq<char>)>::empty().push(("modifiers"@, modifiers_text(data.modifiers))), "scroll_delta"@, data.scroll_delta.text@);
    lemma_one_pair_more(Seq::<(Seq<char>, Seq<char>)>::empty().push(("modifiers"@, modifiers_text(data.modifiers))).push(("scroll_delta"@, data.scroll_delta.text@)), "x"@, data.x.text@);
    lemma_one_pair_more(Seq::<(Seq<char>, Seq<char>)>::empty().push(("modifiers"@, modifiers_text(data.modifiers))).push(("scroll_delta"@, data.scroll_delta.text@)).push(("x"@, data.x.text@)), "y"@, data.y.text@);
    assert(mapped(fields) =~= event_fields(event));
    law_order_is_canonical(fields, ordered(event_fields(event)));
    assert(event_kind(event) == bare_kind(Topic::MouseScrolledGlobal));
    assert(fields.map_values(|f: (Seq<char>, Seq<char>)| (f.0, JsonView::String(f.1))) =~= seq![("modifiers"@, JsonView::String(modifiers_text(data.modifiers))), ("scroll_delta"@, JsonView::String(data.scroll_delta.text@)), ("x"@, JsonView::String(data.x.text@)), ("y"@, JsonView::String(data.y.text@))]);
}

/// Events that carry nothing say which they are, and nothing else.
pub proof fn law_other_events_carry_nothing(event: Event)
    ensures
        event is Routine ==> event_env(event) == map!["SENDER"@ => "routine"@, "INFO"@ => ""@],
        event is Forced ==> event_env(event) == map!["SENDER"@ => "forced"@, "INFO"@ => ""@],
        event is DisplayChanged ==> event_env(event) == map!["SENDER"@ => "display_changed"@, "INFO"@ => ""@],
        event is SystemWoke ==> event_env(event) == map!["SENDER"@ => "system_woke"@, "INFO"@ => ""@],
        event is SystemWillSleep ==> event_env(event) == map!["SENDER"@ => "system_will_sleep"@, "INFO"@ => ""@],
        event is ConfigReloaded ==> event_env(event) == map!["SENDER"@ => "config_reloaded"@, "INFO"@ => ""@],
        event is MouseEntered ==> event_env(event) == map!["SENDER"@ => "mouse.entered"@, "INFO"@ => ""@],
        event is MouseExited ==> event_env(event) == map!["SENDER"@ => "mouse.exited"@, "INFO"@ => ""@],
        event is MouseEnteredGlobal ==> event_env(event) == map!["SENDER"@ => "mouse.entered.global"@, "INFO"@ => ""@],
        event is MouseExitedGlobal ==> event_env(event) == map!["SENDER"@ => "mouse.exited.global"@, "INFO"@ => ""@],
{
    reveal_strlit("");
    assert(""@ =~= Seq::<char>::empty());
    if event is Routine || event is Forced || event is DisplayChanged || event is SystemWoke || event is SystemWillSleep || event is ConfigReloaded || event is MouseEntered || event is MouseExited || event is MouseEnteredGlobal || event is MouseExitedGlobal {
        law_no_fields_no_info(event);
    }
}

/// What an invented event carries is what it was triggered with, and it goes by its
/// own name.
pub proof fn law_an_invented_event_carries_what_it_was_given(custom: Custom, i: int)
    ensures
        event_fields(Event::Custom(custom)) == mapped(custom.vars.entries()),
        event_kind(Event::Custom(custom)) == KindView::<()>::Custom(custom.name@),
        kind_name(event_kind(Event::Custom(custom))) == custom.name@,
        0 <= i < custom.vars.entries().len() ==> event_env(Event::Custom(custom)).contains_key(
            unicode_upper(custom.vars.entries()[i].0),
        ),
        0 <= i < custom.vars.entries().len() && (forall|j: int|
            i < j < custom.vars.entries().len() ==> unicode_upper(
                (#[trigger] custom.vars.entries()[j]).0,
            ) != unicode_upper(custom.vars.entries()[i].0)) ==> event_env(
            Event::Custom(custom),
        )[unicode_upper(custom.vars.entries()[i].0)] == custom.vars.entries()[i].1,
{
    if 0 <= i < custom.vars.entries().len() {
        let given = custom.vars.entries();
        let pairs = crate::event::unicode_upper_pairs(given);
        lemma_mapped_names(pairs, pairs[i].0);
        if forall|j: int|
            i < j < given.len() ==> unicode_upper((#[trigger] given[j]).0) != unicode_upper(
                given[i].0,
            ) {
            assert forall|j: int| i < j < pairs.len() implies (#[trigger] pairs[j]).0
                != pairs[i].0 by {
                assert(unicode_upper(given[j].0) != unicode_upper(given[i].0));
            }
            lemma_last_counts(pairs, i);
        }
    }
}

/// Of several pairs under one name the last counts.
proof fn lemma_last_counts(pairs: Seq<(Seq<char>, Seq<char>)>, i: int)
    requires
        0 <= i < pairs.len(),
        forall|j: int| i < j < pairs.len() ==> (#[trigger] pairs[j]).0 != pairs[i].0,
    ensures
        mapped(pairs).contains_key(pairs[i].0),
        mapped(pairs)[pairs[i].0] == pairs[i].1,
    decreases pairs.len(),
{
    if i < pairs.len() - 1 {
        let short = pairs.drop_last();
        assert forall|j: int| i < j < short.len() implies (#[trigger] short[j]).0 != short[i].0 by {
            assert(short[j] == pairs[j]);
        }
        lemma_last_counts(short, i);
        assert(pairs[pairs.len() - 1].0 != pairs[i].0);
    }
}

// ---------------------------------------------------------------------------
// Power

/// What a side of the power says under one of its names.
pub open spec fn side_says(source: PowerSource, name: Seq<char>) -> Seq<char> {
    match source {
        PowerSource::Ac { adapter_watts, charging, time_to_full_minutes } => if name
            == "adapter_watts"@ {
            number_or_nothing(adapter_watts)
        } else if name == "charging"@ {
            yes_or_no(charging)
        } else if name == "time_to_full_minutes"@ {
            number_or_nothing(time_to_full_minutes)
        } else {
            ""@
        },
        PowerSource::Battery { time_to_empty_minutes } => if name == "time_to_empty_minutes"@ {
            number_or_nothing(time_to_empty_minutes)
        } else if name == "charging"@ {
            "false"@
        } else {
            ""@
        },
        PowerSource::Unknown => ""@,
    }
}

/// What `power_source_changed` says under one of its names.
pub open spec fn power_says(change: PowerChange, name: Seq<char>) -> Seq<char> {
    if name == "power_source"@ {
        match change.power_source {
            PowerSource::Ac { .. } => "AC"@,
            PowerSource::Battery { .. } => "BATTERY"@,
            PowerSource::Unknown => "UNKNOWN"@,
        }
    } else if name == "watts"@ {
        number_or_nothing(change.watts)
    } else if name == "charge"@ {
        match change.charge {
            Some(n) => decimal_text(n as nat),
            None => ""@,
        }
    } else {
        side_says(change.power_source, name)
    }
}

/// The names of a side of the power.
pub open spec fn names_a_side(name: Seq<char>) -> bool {
    name == "adapter_watts"@ || name == "charging"@ || name == "time_to_full_minutes"@ || name
        == "time_to_empty_minutes"@
}

/// The names of what `power_source_changed` carries.
pub open spec fn names_power(name: Seq<char>) -> bool {
    name == "power_source"@ || name == "watts"@ || name == "charge"@ || names_a_side(name)
}

/// How long each of those names is, which tells them apart.
proof fn lemma_lengths()
    ensures
        "power_source"@.len() == 12,
        "adapter_watts"@.len() == 13,
        "charging"@.len() == 8,
        "time_to_full_minutes"@.len() == 20,
        "time_to_empty_minutes"@.len() == 21,
        "watts"@.len() == 5,
        "charge"@.len() == 6,
{
    reveal_strlit("power_source");
    reveal_strlit("adapter_watts");
    reveal_strlit("charging");
    reveal_strlit("time_to_full_minutes");
    reveal_strlit("time_to_empty_minutes");
    reveal_strlit("watts");
    reveal_strlit("charge");
}

/// What a side sets, it sets under its own names.
proof fn lemma_side(source: PowerSource, name: Seq<char>)
    ensures
        mapped(source.sets()).contains_key(name) <==> names_a_side(name),
        names_a_side(name) ==> mapped(source.sets())[name] == side_says(source, name),
{
    let names = power_names();
    let active = power_entries(source);
    let v: int = match source {
        PowerSource::Ac { .. } => 0,
        PowerSource::Battery { .. } => 1,
        PowerSource::Unknown => 2,
    };
    lemma_lengths();
    lemma_no_fields();
    reveal_strlit("");
    assert(""@ =~= Seq::<char>::empty());
    assert forall|w: int, i: int| calls(names, w, i, name) || projects(names, w, i, name) implies names_a_side(name) by {
    }
    assert(calls(names, 0, 0, "adapter_watts"@));
    assert(calls(names, 0, 1, "charging"@));
    assert(calls(names, 0, 2, "time_to_full_minutes"@));
    assert(calls(names, 1, 0, "time_to_empty_minutes"@));
    law_a_value_sets_what_any_variant_says(names, active, v, name);
    match source {
        PowerSource::Ac { adapter_watts, charging, time_to_full_minutes } => {
            let a = optional_text(option_u32(adapter_watts));
            let c = yes_or_no(charging);
            let t = optional_text(option_u32(time_to_full_minutes));
            lemma_one_field_more(Seq::<EntryView>::empty(), "adapter_watts"@, a);
            let one = Seq::<EntryView>::empty().push(leaf("adapter_watts"@, a));
            lemma_one_field_more(one, "charging"@, c);
            let two = one.push(leaf("charging"@, c));
            lemma_one_field_more(two, "time_to_full_minutes"@, t);
            assert(active =~= two.push(leaf("time_to_full_minutes"@, t)));
        },
        PowerSource::Battery { time_to_empty_minutes } => {
            let t = optional_text(option_u32(time_to_empty_minutes));
            lemma_one_field_more(Seq::<EntryView>::empty(), "time_to_empty_minutes"@, t);
            let one = Seq::<EntryView>::empty().push(leaf("time_to_empty_minutes"@, t));
            lemma_one_field_more(one, "charging"@, "false"@);
            assert(active =~= one.push(leaf("charging"@, "false"@)));
        },
        PowerSource::Unknown => {
            assert(active =~= Seq::<EntryView>::empty());
        },
    }
}

/// What `power_source_changed` carries reaches a script, each figure under its own
/// name. The figures of the side that is not drawn from are empty and never missing,
/// and a battery that is drawn from is not charging.
pub proof fn law_power_source_changed_carries_its_fields(change: PowerChange, name: Seq<char>)
    ensures
        event_fields(Event::PowerSourceChanged(change)).contains_key(name) <==> names_power(name),
        names_power(name) ==> event_fields(Event::PowerSourceChanged(change))[name] == power_says(
            change,
            name,
        ),
        event_env(Event::PowerSourceChanged(change))["SENDER"@] == "power_source_changed"@,
        event_env(Event::PowerSourceChanged(change))["POWER_SOURCE"@] == power_says(
            change,
            "power_source"@,
        ),
        event_env(Event::PowerSourceChanged(change))["ADAPTER_WATTS"@] == power_says(
            change,
            "adapter_watts"@,
        ),
        event_env(Event::PowerSourceChanged(change))["CHARGING"@] == power_says(
            change,
            "charging"@,
        ),
        event_env(Event::PowerSourceChanged(change))["TIME_TO_FULL_MINUTES"@] == power_says(
            change,
            "time_to_full_minutes"@,
        ),
        event_env(Event::PowerSourceChanged(change))["TIME_TO_EMPTY_MINUTES"@] == power_says(
            change,
            "time_to_empty_minutes"@,
        ),
        event_env(Event::PowerSourceChanged(change))["WATTS"@] == power_says(
            change,
            "watts"@,
        ),
        event_env(Event::PowerSourceChanged(change))["CHARGE"@] == power_says(
            change,
            "charge"@,
        ),
{
    let event = Event::PowerSourceChanged(change);
    let pairs = event_sets(event);
    lemma_lengths();
    lemma_uppers();
    assert forall|a: Seq<char>| #[trigger] mapped(pairs).contains_key(a) <==> names_power(a) by {
        lemma_power_field(change, a);
    }
    assert forall|a: Seq<char>, b: Seq<char>| #[trigger]
        mapped(pairs).contains_key(a) && #[trigger] mapped(pairs).contains_key(b) && uppered(a)
            == uppered(b) implies a == b by {
        assert(uppered(a).len() == a.len());
        assert(uppered(b).len() == b.len());
    }
    lemma_power_field(change, name);
    lemma_power_field(change, "power_source"@);
    law_the_environment_is_the_fields_in_upper_case(pairs, "power_source"@);
    lemma_power_field(change, "adapter_watts"@);
    law_the_environment_is_the_fields_in_upper_case(pairs, "adapter_watts"@);
    lemma_power_field(change, "charging"@);
    law_the_environment_is_the_fields_in_upper_case(pairs, "charging"@);
    lemma_power_field(change, "time_to_full_minutes"@);
    law_the_environment_is_the_fields_in_upper_case(pairs, "time_to_full_minutes"@);
    lemma_power_field(change, "time_to_empty_minutes"@);
    law_the_environment_is_the_fields_in_upper_case(pairs, "time_to_empty_minutes"@);
    lemma_power_field(change, "watts"@);
    law_the_environment_is_the_fields_in_upper_case(pairs, "watts"@);
    lemma_power_field(change, "charge"@);
    law_the_environment_is_the_fields_in_upper_case(pairs, "charge"@);
    reveal_strlit("SENDER");
    assert forall|a: Seq<char>| names_power(a) implies uppered(a) != "SENDER"@ by {
        assert(uppered(a).len() == a.len());
        assert("SENDER"@[0] == 'S');
        reveal_strlit("CHARGE");
        assert("CHARGE"@[0] == 'C');
    }
    assert(!mapped(upper_pairs(pairs)).contains_key("SENDER"@));
    assert(event_kind(event) == bare_kind(Topic::PowerSourceChanged));
    reveal_strlit("INFO");
    assert("INFO"@.len() == 4 && "SENDER"@.len() == 6);
}

/// One of those names.
proof fn lemma_power_field(change: PowerChange, name: Seq<char>)
    ensures
        mapped(event_sets(Event::PowerSourceChanged(change))).contains_key(name) <==> names_power(
            name,
        ),
        names_power(name) ==> mapped(event_sets(Event::PowerSourceChanged(change)))[name]
            == power_says(change, name),
{
    let entries = change.entries();
    lemma_lengths();
    lemma_no_fields();
    lemma_side(change.power_source, name);
    reveal_strlit("");
    assert(""@ =~= Seq::<char>::empty());
    let first = seq![entries[0]];
    let nested = change.power_source.sets();
    let alone = seq![("power_source"@, entries[0].value)];
    assert(first.drop_last() =~= Seq::<EntryView>::empty());
    assert(all_pairs(first) =~= alone + nested);
    assert(alone.drop_last() =~= Seq::<(Seq<char>, Seq<char>)>::empty());
    lemma_mapped_concat(alone, nested, name);
    let watts = optional_text(option_u32(change.watts));
    let charge = optional_text(option_u8(change.charge));
    lemma_one_field_more(first, "watts"@, watts);
    lemma_one_field_more(first.push(leaf("watts"@, watts)), "charge"@, charge);
    assert(entries =~= first.push(leaf("watts"@, watts)).push(leaf("charge"@, charge)));
}

// ---------------------------------------------------------------------------
// Words

/// Every topic goes by its own name, and by no other.
pub proof fn law_every_topic_goes_by_its_name()
    ensures
        topic_name(Topic::Routine) == "routine"@,
        topic_name(Topic::Forced) == "forced"@,
        topic_name(Topic::DisplayChanged) == "display_changed"@,
        topic_name(Topic::SystemWoke) == "system_woke"@,
        topic_name(Topic::SystemWillSleep) == "system_will_sleep"@,
        topic_name(Topic::ConfigReloaded) == "config_reloaded"@,
        topic_name(Topic::MouseEntered) == "mouse.entered"@,
        topic_name(Topic::MouseExited) == "mouse.exited"@,
        topic_name(Topic::MouseEnteredGlobal) == "mouse.entered.global"@,
        topic_name(Topic::MouseExitedGlobal) == "mouse.exited.global"@,
        topic_name(Topic::FrontAppSwitched) == "front_app_switched"@,
        topic_name(Topic::AppLaunched) == "app_launched"@,
        topic_name(Topic::SpaceChanged) == "space_changed"@,
        topic_name(Topic::VolumeChanged) == "volume_changed"@,
        topic_name(Topic::BrightnessChanged) == "brightness_changed"@,
        topic_name(Topic::WifiChanged) == "wifi_changed"@,
        topic_name(Topic::MediaChanged) == "media_changed"@,
        topic_name(Topic::SpaceWindowsChanged) == "space_windows_changed"@,
        topic_name(Topic::AccessibilityChanged) == "accessibility_changed"@,
        topic_name(Topic::MouseClicked) == "mouse.clicked"@,
        topic_name(Topic::MouseScrolled) == "mouse.scrolled"@,
        topic_name(Topic::MouseScrolledGlobal) == "mouse.scrolled.global"@,
        topic_name(Topic::PowerSourceChanged) == "power_source_changed"@,
{
}

/// An event is of the kind of its own topic, and is about an item only where the
/// pointer is over one.
pub proof fn law_an_event_is_of_its_own_kind(event: Event)
    ensures
        event is Routine ==> event_kind(event) == KindView::<()>::Plain(Topic::Routine),
        bare_kind(Topic::Routine) == KindView::<()>::Plain(Topic::Routine),
        event is Forced ==> event_kind(event) == KindView::<()>::Plain(Topic::Forced),
        bare_kind(Topic::Forced) == KindView::<()>::Plain(Topic::Forced),
        event is DisplayChanged ==> event_kind(event) == KindView::<()>::Plain(Topic::DisplayChanged),
        bare_kind(Topic::DisplayChanged) == KindView::<()>::Plain(Topic::DisplayChanged),
        event is SystemWoke ==> event_kind(event) == KindView::<()>::Plain(Topic::SystemWoke),
        bare_kind(Topic::SystemWoke) == KindView::<()>::Plain(Topic::SystemWoke),
        event is SystemWillSleep ==> event_kind(event) == KindView::<()>::Plain(Topic::SystemWillSleep),
        bare_kind(Topic::SystemWillSleep) == KindView::<()>::Plain(Topic::SystemWillSleep),
        event is ConfigReloaded ==> event_kind(event) == KindView::<()>::Plain(Topic::ConfigReloaded),
        bare_kind(Topic::ConfigReloaded) == KindView::<()>::Plain(Topic::ConfigReloaded),
        event is MouseEntered ==> event_kind(event) == KindView::<()>::Scoped(Topic::MouseEntered, ()),
        bare_kind(Topic::MouseEntered) == KindView::<()>::Scoped(Topic::MouseEntered, ()),
        event is MouseExited ==> event_kind(event) == KindView::<()>::Scoped(Topic::MouseExited, ()),
        bare_kind(Topic::MouseExited) == KindView::<()>::Scoped(Topic::MouseExited, ()),
        event is MouseEnteredGlobal ==> event_kind(event) == KindView::<()>::Plain(Topic::MouseEnteredGlobal),
        bare_kind(Topic::MouseEnteredGlobal) == KindView::<()>::Plain(Topic::MouseEnteredGlobal),
        event is MouseExitedGlobal ==> event_kind(event) == KindView::<()>::Plain(Topic::MouseExitedGlobal),
        bare_kind(Topic::MouseExitedGlobal) == KindView::<()>::Plain(Topic::MouseExitedGlobal),
        event is FrontAppSwitched ==> event_kind(event) == KindView::<()>::Plain(Topic::FrontAppSwitched),
        bare_kind(Topic::FrontAppSwitched) == KindView::<()>::Plain(Topic::FrontAppSwitched),
        event is AppLaunched ==> event_kind(event) == KindView::<()>::Plain(Topic::AppLaunched),
        bare_kind(Topic::AppLaunched) == KindView::<()>::Plain(Topic::AppLaunched),
        event is SpaceChanged ==> event_kind(event) == KindView::<()>::Plain(Topic::SpaceChanged),
        bare_kind(Topic::SpaceChanged) == KindView::<()>::Plain(Topic::SpaceChanged),
        event is VolumeChanged ==> event_kind(event) == KindView::<()>::Plain(Topic::VolumeChanged),
        bare_kind(Topic::VolumeChanged) == KindView::<()>::Plain(Topic::VolumeChanged),
        event is BrightnessChanged ==> event_kind(event) == KindView::<()>::Plain(Topic::BrightnessChanged),
        bare_kind(Topic::BrightnessChanged) == KindView::<()>::Plain(Topic::BrightnessChanged),
        event is WifiChanged ==> event_kind(event) == KindView::<()>::Plain(Topic::WifiChanged),
        bare_kind(Topic::WifiChanged) == KindView::<()>::Plain(Topic::WifiChanged),
        event is MediaChanged ==> event_kind(event) == KindView::<()>::Plain(Topic::MediaChanged),
        bare_kind(Topic::MediaChanged) == KindView::<()>::Plain(Topic::MediaChanged),
        event is SpaceWindowsChanged ==> event_kind(event) == KindView::<()>::Plain(Topic::SpaceWindowsChanged),
        bare_kind(Topic::SpaceWindowsChanged) == KindView::<()>::Plain(Topic::SpaceWindowsChanged),
        event is AccessibilityChanged ==> event_kind(event) == KindView::<()>::Plain(Topic::AccessibilityChanged),
        bare_kind(Topic::AccessibilityChanged) == KindView::<()>::Plain(Topic::AccessibilityChanged),
        event is MouseClicked ==> event_kind(event) == KindView::<()>::Scoped(Topic::MouseClicked, ()),
        bare_kind(Topic::MouseClicked) == KindView::<()>::Scoped(Topic::MouseClicked, ()),
        event is MouseScrolled ==> event_kind(event) == KindView::<()>::Scoped(Topic::MouseScrolled, ()),
        bare_kind(Topic::MouseScrolled) == KindView::<()>::Scoped(Topic::MouseScrolled, ()),
        event is MouseScrolledGlobal ==> event_kind(event) == KindView::<()>::Plain(Topic::MouseScrolledGlobal),
        bare_kind(Topic::MouseScrolledGlobal) == KindView::<()>::Plain(Topic::MouseScrolledGlobal),
        event is PowerSourceChanged ==> event_kind(event) == KindView::<()>::Plain(Topic::PowerSourceChanged),
        bare_kind(Topic::PowerSourceChanged) == KindView::<()>::Plain(Topic::PowerSourceChanged),
{
}

/// Keys that are held are listed in one order, by their names and with a comma
/// between, and no keys are `none`.
pub proof fn law_keys_are_listed_by_name(m: Modifiers)
    ensures
        !m.shift && !m.ctrl && !m.alt && !m.cmd && !m.func ==> modifiers_text(m) == "none"@,
        m.shift && !m.ctrl && !m.alt && !m.cmd && !m.func ==> modifiers_text(m) == "shift"@,
        !m.shift && m.ctrl && !m.alt && !m.cmd && !m.func ==> modifiers_text(m) == "ctrl"@,
        !m.shift && !m.ctrl && m.alt && !m.cmd && !m.func ==> modifiers_text(m) == "alt"@,
        !m.shift && !m.ctrl && !m.alt && m.cmd && !m.func ==> modifiers_text(m) == "cmd"@,
        !m.shift && !m.ctrl && !m.alt && !m.cmd && m.func ==> modifiers_text(m) == "fn"@,
        m.func && (m.shift || m.ctrl || m.alt || m.cmd) ==> modifiers_text(m) == modifiers_text(
            (Modifiers { func: false, ..m }),
        ) + ",fn"@,
        m.cmd && !m.func && (m.shift || m.ctrl || m.alt) ==> modifiers_text(m) == modifiers_text(
            (Modifiers { cmd: false, ..m }),
        ) + ",cmd"@,
        m.alt && !m.cmd && !m.func && (m.shift || m.ctrl) ==> modifiers_text(m) == modifiers_text(
            (Modifiers { alt: false, ..m }),
        ) + ",alt"@,
        m.ctrl && m.shift && !m.alt && !m.cmd && !m.func ==> modifiers_text(m) == "shift,ctrl"@,
{
    reveal_strlit("shift");
    reveal_strlit("ctrl");
    reveal_strlit("alt");
    reveal_strlit("cmd");
    reveal_strlit("fn");
    reveal_strlit(",");
    reveal_strlit(",fn");
    reveal_strlit(",cmd");
    reveal_strlit(",alt");
    reveal_strlit("shift,ctrl");
    assert(","@ + "fn"@ =~= ",fn"@);
    assert(","@ + "cmd"@ =~= ",cmd"@);
    assert(","@ + "alt"@ =~= ",alt"@);
    assert("shift"@ + ","@ + "ctrl"@ =~= "shift,ctrl"@);
    if m.func {
        let rest = held_list((Modifiers { func: false, ..m }));
        assert(rest + ","@ + "fn"@ =~= rest + ",fn"@);
    }
    if m.cmd {
        let rest = held_list((Modifiers { cmd: false, func: false, ..m }));
        assert(rest + ","@ + "cmd"@ =~= rest + ",cmd"@);
    }
    if m.alt {
        let rest = held_list((Modifiers { alt: false, cmd: false, func: false, ..m }));
        assert(rest + ","@ + "alt"@ =~= rest + ",alt"@);
    }
}

/// Keys travel as a number with one bit for each of them.
pub proof fn law_each_key_has_its_bit(m: Modifiers)
    ensures
        modifier_bits(m) == (if m.shift {
            1int
        } else {
            0
        }) + (if m.ctrl {
            2int
        } else {
            0
        }) + (if m.alt {
            4int
        } else {
            0
        }) + (if m.cmd {
            8int
        } else {
            0
        }) + (if m.func {
            16int
        } else {
            0
        }),
        modifiers_of(modifier_bits(m)) == m,
{
    crate::event::law_modifiers_round_trip(m);
}

} // verus!
