//! What the names of events mean, and what is said of what does not read.

use crate::event::{
    bare_kind, carries_nothing, is_event_word, is_invented, is_notification_name, kind_read,
    law_topic_names_round_trip, normalised, topic_name, topic_named, Event, Kind, KindView, Topic,
};
use crate::lua::{
    fault_text, of_argument, refused, signed_text, type_text, whole_of, whole_read, LuaFault,
    LuaView, MismatchView,
};
use crate::text::{decimal_text, lowered};
use vstd::prelude::*;

verus! {

/// A name is compared with underlines for dashes and small letters for capitals, and
/// is otherwise as it is written.
pub proof fn law_names_are_compared_loosely(text: Seq<char>, i: int)
    requires
        0 <= i < text.len(),
    ensures
        normalised(text).len() == text.len(),
        text[i] == '-' ==> normalised(text)[i] == '_',
        text[i] != '-' ==> normalised(text)[i] == lowered(text)[i],
{
}

/// A name that is a topic's reads as that topic, and a topic reads only by its own
/// name.
pub proof fn law_a_topic_reads_by_its_name(text: Seq<char>, topic: Topic)
    ensures
        kind_read(text) == Some(bare_kind(topic)) <==> normalised(text) == topic_name(topic),
        topic_named(text) == Some(topic) <==> text == topic_name(topic),
        topic_name(Topic::Routine) == "routine"@,
        topic_name(Topic::Forced) == "forced"@,
        topic_name(Topic::FrontAppSwitched) == "front_app_switched"@,
        topic_name(Topic::AppLaunched) == "app_launched"@,
        topic_name(Topic::SpaceChanged) == "space_changed"@,
        topic_name(Topic::DisplayChanged) == "display_changed"@,
        topic_name(Topic::SystemWoke) == "system_woke"@,
        topic_name(Topic::SystemWillSleep) == "system_will_sleep"@,
        topic_name(Topic::VolumeChanged) == "volume_changed"@,
        topic_name(Topic::BrightnessChanged) == "brightness_changed"@,
        topic_name(Topic::PowerSourceChanged) == "power_source_changed"@,
        topic_name(Topic::WifiChanged) == "wifi_changed"@,
        topic_name(Topic::MediaChanged) == "media_changed"@,
        topic_name(Topic::SpaceWindowsChanged) == "space_windows_changed"@,
        topic_name(Topic::ConfigReloaded) == "config_reloaded"@,
        topic_name(Topic::AccessibilityChanged) == "accessibility_changed"@,
        topic_name(Topic::MouseEntered) == "mouse.entered"@,
        topic_name(Topic::MouseExited) == "mouse.exited"@,
        topic_name(Topic::MouseEnteredGlobal) == "mouse.entered.global"@,
        topic_name(Topic::MouseExitedGlobal) == "mouse.exited.global"@,
        topic_name(Topic::MouseClicked) == "mouse.clicked"@,
        topic_name(Topic::MouseScrolled) == "mouse.scrolled"@,
        topic_name(Topic::MouseScrolledGlobal) == "mouse.scrolled.global"@,
{
    law_topic_names_round_trip(topic);
}

/// Any other name of letters, digits, underlines and dots is that of an event of a
/// config's own, and anything else is no name.
pub proof fn law_any_other_name_is_a_configs_own(text: Seq<char>)
    ensures
        kind_read(text) matches Some(KindView::Custom(name)) ==> name == normalised(text)
            && is_event_word(name) && topic_named(name) is None,
        is_event_word(normalised(text)) && topic_named(normalised(text)) is None ==> kind_read(text)
            == Some(KindView::<()>::Custom(normalised(text))),
        is_event_word(text) <==> text.len() > 0 && forall|i: int|
            0 <= i < text.len() ==> ('a' <= #[trigger] text[i] <= 'z' || 'A' <= text[i] <= 'Z'
                || '0' <= text[i] <= '9' || text[i] == '_' || text[i] == '.'),
        is_invented(text) ==> kind_read(text) == Some(KindView::<()>::Custom(text)),
        is_notification_name(text) <==> text.len() > 0 && forall|i: int|
            0 <= i < text.len() ==> {
                let c = (#[trigger] text[i]) as int;
                c >= 32 && !(127 <= c <= 159)
            },
{
    assert(crate::text::has_control(text) <==> exists|i: int|
        0 <= i < text.len() && ((#[trigger] text[i]) as int <= 31 || 127 <= text[i] as int <= 159));
    if is_event_word(text) {
        assert forall|i: int| 0 <= i < text.len() implies ('a' <= #[trigger] text[i] <= 'z' || 'A'
            <= text[i] <= 'Z' || '0' <= text[i] <= '9' || text[i] == '_' || text[i] == '.') by {
            assert(crate::event::event_char(text[i]));
        }
    }
}

/// A kind is of the topic it is named after, and is about an item only where the
/// pointer is over one.
pub proof fn law_a_kind_is_of_its_own_topic(kind: Kind<()>)
    ensures
        match kind {
            Kind::Routine => kind@ == KindView::<()>::Plain(Topic::Routine),
            Kind::Forced => kind@ == KindView::<()>::Plain(Topic::Forced),
            Kind::FrontAppSwitched => kind@ == KindView::<()>::Plain(Topic::FrontAppSwitched),
            Kind::AppLaunched => kind@ == KindView::<()>::Plain(Topic::AppLaunched),
            Kind::SpaceChanged => kind@ == KindView::<()>::Plain(Topic::SpaceChanged),
            Kind::DisplayChanged => kind@ == KindView::<()>::Plain(Topic::DisplayChanged),
            Kind::SystemWoke => kind@ == KindView::<()>::Plain(Topic::SystemWoke),
            Kind::SystemWillSleep => kind@ == KindView::<()>::Plain(Topic::SystemWillSleep),
            Kind::VolumeChanged => kind@ == KindView::<()>::Plain(Topic::VolumeChanged),
            Kind::BrightnessChanged => kind@ == KindView::<()>::Plain(Topic::BrightnessChanged),
            Kind::PowerSourceChanged => kind@ == KindView::<()>::Plain(Topic::PowerSourceChanged),
            Kind::WifiChanged => kind@ == KindView::<()>::Plain(Topic::WifiChanged),
            Kind::MediaChanged => kind@ == KindView::<()>::Plain(Topic::MediaChanged),
            Kind::SpaceWindowsChanged => kind@ == KindView::<()>::Plain(Topic::SpaceWindowsChanged),
            Kind::ConfigReloaded => kind@ == KindView::<()>::Plain(Topic::ConfigReloaded),
            Kind::AccessibilityChanged => kind@ == KindView::<()>::Plain(Topic::AccessibilityChanged),
            Kind::MouseEntered(_) => kind@ == KindView::<()>::Scoped(Topic::MouseEntered, ()),
            Kind::MouseExited(_) => kind@ == KindView::<()>::Scoped(Topic::MouseExited, ()),
            Kind::MouseEnteredGlobal => kind@ == KindView::<()>::Plain(Topic::MouseEnteredGlobal),
            Kind::MouseExitedGlobal => kind@ == KindView::<()>::Plain(Topic::MouseExitedGlobal),
            Kind::MouseClicked(_) => kind@ == KindView::<()>::Scoped(Topic::MouseClicked, ()),
            Kind::MouseScrolled(_) => kind@ == KindView::<()>::Scoped(Topic::MouseScrolled, ()),
            Kind::MouseScrolledGlobal => kind@ == KindView::<()>::Plain(Topic::MouseScrolledGlobal),
            Kind::Custom(name) => kind@ == KindView::<()>::Custom(name@),
        },
{
}

/// An event that carries nothing has nothing in any of its fields: no name, no number
/// but nought, the left button, no keys, and no word of where power comes from.
pub proof fn law_an_event_that_carries_nothing_is_empty(event: Event)
    requires
        carries_nothing(event),
    ensures
        match event {
            Event::FrontAppSwitched(data) => data.app@.len() == 0,
            Event::AppLaunched(data) => data.app@.len() == 0,
            Event::SpaceChanged(data) => data.display == 0 && data.space == 0,
            Event::VolumeChanged(data) => data.volume == 0,
            Event::BrightnessChanged(data) => data.brightness == 0,
            Event::PowerSourceChanged(data) => data.power_source is Unknown && data.watts is None
                && data.charge is None,
            Event::WifiChanged(data) => data.ssid@.len() == 0,
            Event::MediaChanged(data) => data.media@ is Null,
            Event::SpaceWindowsChanged(data) => data.space == 0,
            Event::AccessibilityChanged(data) => !data.trusted,
            Event::MouseClicked(data) => data.button is Left && !data.modifiers.shift
                && !data.modifiers.ctrl && !data.modifiers.alt && !data.modifiers.cmd
                && !data.modifiers.func && data.x.bits == 0 && data.y.bits == 0 && data.x.text@
                == "0"@ && data.y.text@ == "0"@,
            Event::MouseScrolled(data) => data.scroll_delta.bits == 0 && data.scroll_delta.text@
                == "0"@ && !data.modifiers.shift && !data.modifiers.ctrl && !data.modifiers.alt
                && !data.modifiers.cmd && !data.modifiers.func && data.x.bits == 0 && data.y.bits
                == 0 && data.x.text@ == "0"@ && data.y.text@ == "0"@,
            Event::MouseScrolledGlobal(data) => data.scroll_delta.bits == 0
                && data.scroll_delta.text@ == "0"@ && !data.modifiers.shift && !data.modifiers.ctrl
                && !data.modifiers.alt && !data.modifiers.cmd && !data.modifiers.func && data.x.bits
                == 0 && data.y.bits == 0 && data.x.text@ == "0"@ && data.y.text@ == "0"@,
            Event::Custom(data) => data.vars@ == Map::<Seq<char>, Seq<char>>::empty(),
            _ => true,
        },
{
}

// ---------------------------------------------------------------------------
// What is said of a value

/// What a value is called by what it is.
pub proof fn law_a_value_is_called_what_it_is(value: LuaView)
    ensures
        value is Nil ==> type_text(value) == "nil"@,
        value is Boolean ==> type_text(value) == "boolean"@,
        value is Integer ==> type_text(value) == "integer"@,
        value is Number ==> type_text(value) == "number"@,
        value is Text ==> type_text(value) == "string"@,
        value is Bytes ==> type_text(value) == "string"@,
        value is Table ==> type_text(value) == "table"@,
        value matches LuaView::Other(kind, _) ==> type_text(value) == kind,
{
}

/// A refusal says what the value is and what was wanted, and why where that is known.
/// One of an argument says which, and of what.
pub proof fn law_a_refusal_says_what_was_wanted(
    value: LuaView,
    wanted: Seq<char>,
    note: Seq<char>,
    at: nat,
    name: Seq<char>,
)
    ensures
        refused(value, wanted, Some(note)) == LuaFault::Conversion(
            MismatchView { from: type_text(value), to: wanted, note: Some(note) },
        ),
        fault_text(refused(value, wanted, None)) == "error converting Lua "@ + type_text(value)
            + " to "@ + wanted,
        fault_text(refused(value, wanted, Some(note))) == "error converting Lua "@ + type_text(
            value,
        ) + " to "@ + wanted + (" ("@ + note + ")"@),
        fault_text(of_argument(refused(value, wanted, None), at, Some(name))) == "bad argument #"@
            + decimal_text(at) + (" to `"@ + name + "`"@) + (": "@ + ("error converting Lua "@
            + type_text(value) + " to "@ + wanted)),
        fault_text(of_argument(refused(value, wanted, None), at, None)) == "bad argument #"@
            + decimal_text(at) + (": "@ + ("error converting Lua "@ + type_text(value) + " to "@
            + wanted)),
        fault_text(LuaFault::Message(note)) == note,
        of_argument(LuaFault::Message(note), at, Some(name)) == LuaFault::Message(note),
{
    let plain = "error converting Lua "@ + type_text(value) + " to "@ + wanted;
    assert(plain + Seq::<char>::empty() =~= plain);
    let first = "bad argument #"@ + decimal_text(at);
    assert(first + Seq::<char>::empty() =~= first);
}

/// An integer is read where the value spells one in the range that is wanted, and
/// refused where it spells none or one outside.
pub proof fn law_an_integer_is_read_in_its_range(
    value: LuaView,
    least: int,
    most: int,
    wanted: Seq<char>,
)
    ensures
        whole_read(value, least, most, wanted) matches Ok(n) ==> least <= n <= most && (whole_of(
            value,
        ) matches Some(Some(i)) && i == n),
        (whole_of(value) matches Some(Some(i)) && least <= i <= most) ==> whole_read(
            value,
            least,
            most,
            wanted,
        ) is Ok,
        value is Nil || value is Boolean || value is Table || value is Other || value is Bytes
            ==> whole_read(value, least, most, wanted) is Err,
{
}

/// A whole number is written with its digits, and a sign before them where it is below
/// nought.
pub proof fn law_a_number_below_nought_has_a_sign(n: nat)
    ensures
        signed_text(n as int) == decimal_text(n),
        n > 0 ==> signed_text(-(n as int)) == "-"@ + decimal_text(n),
{
}

} // verus!
