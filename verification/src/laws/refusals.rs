//! What is said of a value that does not read, said of the value and where it stands.

use crate::align::align_read;
use crate::api::{
    event_declared, item_verb_ask, members_value, move_asks, names_value, opt_table_value, planned,
    sample_arg, string_value, subscription_of, unexpected_fault, verb_asks, AddView, Extra,
    ItemVerb, KindSpec, Named, Verb,
};
use crate::convert::{
    alias_at, align_at, color_value, display_at, edge_of, fault_of, flag_at, font_at, kinds_value,
    measure_at, members_at, run_at, size_at, text_at, toggle_at, Fields,
};
use crate::display::display_read;
use crate::error::{event_name_fault_text, lua_fault, ApiFault};
use crate::event::InvalidEventNameView;
use crate::flag::{bool_word, change_read};
use crate::lua::{
    lookup, measure_read, of_argument, signed_text, text_read, type_text, whole_of, whole_read,
    LuaFault, LuaView, MismatchView, TextForm,
};
use crate::name::is_item_name;
use crate::query::{relative_word, unanswered};
use crate::state::gap_note;
use crate::stray::{alias_gap, run_gap};
use crate::style::color_read;
use crate::text::lowered;
use vstd::prelude::*;

verus! {

/// A refusal in words.
pub open spec fn words(said: Seq<char>) -> Option<LuaFault> {
    Some(LuaFault::Message(said))
}

/// A refusal to make one thing of another, and what was hoped for.
pub open spec fn no_conversion(from: Seq<char>, to: Seq<char>, hoped: Seq<char>) -> Option<
    LuaFault,
> {
    Some(LuaFault::Conversion(MismatchView { from, to, note: Some(hoped) }))
}

/// Whether a value is text, whether or not it can be read as such.
pub open spec fn is_string(value: LuaView) -> bool {
    value is Text || value is Bytes
}

/// A flag is a boolean, or one of its words. What else stands there is named, or spelled.
pub proof fn law_what_is_said_of_a_flag(fields: Fields, key: Seq<char>)
    ensures
        lookup(fields, key) matches LuaView::Text(t) ==> (bool_word(lowered(t.text)) is None
            ==> fault_of(flag_at(fields, key)) == words(
            "`"@ + key + "`"@ + (
            " is not a boolean: expected on/off, true/false, yes/no or 1/0, got \""@ + t.text
                + "\""@),
        )),
        !(lookup(fields, key) is Nil) && !(lookup(fields, key) is Boolean) && !is_string(
            lookup(fields, key),
        ) ==> fault_of(flag_at(fields, key)) == words(
            "`"@ + key + "`"@ + (" must be a boolean or an on/off string, got "@ + type_text(
                lookup(fields, key),
            )),
        ),
{
}

/// A flag that can also be turned over says so where it does not read.
pub proof fn law_what_is_said_of_a_toggle(fields: Fields, key: Seq<char>)
    ensures
        lookup(fields, key) matches LuaView::Text(t) ==> (change_read(t.text) is None ==> fault_of(
            toggle_at(fields, key),
        ) == words(
            "`"@ + key + "`"@ + (": "@ + ("`"@ + t.text
                + "` is not on/off, true/false, yes/no, 1/0 or toggle, optionally `!`-negated"@)),
        )),
        !(lookup(fields, key) is Nil) && !(lookup(fields, key) is Boolean) && !is_string(
            lookup(fields, key),
        ) ==> fault_of(toggle_at(fields, key)) == words(
            "`"@ + key + "`"@ + (" must be a boolean or a string, got "@ + type_text(
                lookup(fields, key),
            )),
        ),
{
}

/// A display is spelled, or a number. What else stands there is named; a spelling of none
/// is given back.
pub proof fn law_what_is_said_of_a_display(fields: Fields, key: Seq<char>)
    ensures
        lookup(fields, key) matches LuaView::Text(t) ==> (display_read(t.text) is None ==> fault_of(
            display_at(fields, key),
        ) == words(
            "`"@ + key + "`"@ + (": "@ + ("`"@ + t.text
                + "` is not a display: expected `all` or a 1-based index"@)),
        )),
        lookup(fields, key) matches LuaView::Integer(i, _) ==> (display_read(signed_text(i as int))
            is None ==> fault_of(display_at(fields, key)) == words(
            "`"@ + key + "`"@ + (": "@ + ("`"@ + signed_text(i as int)
                + "` is not a display: expected `all` or a 1-based index"@)),
        )),
        lookup(fields, key) matches LuaView::Number(n) ==> (display_read(n.measure.text) is None
            ==> fault_of(display_at(fields, key)) == words(
            "`"@ + key + "`"@ + (": "@ + ("`"@ + n.measure.text
                + "` is not a display: expected `all` or a 1-based index"@)),
        )),
        lookup(fields, key) is Boolean || lookup(fields, key) is Table || lookup(
            fields,
            key,
        ) is Other ==> fault_of(display_at(fields, key)) == words(
            "`"@ + key + "`"@ + (" must be a string or a number, got "@ + type_text(
                lookup(fields, key),
            )),
        ),
{
}

/// An alignment or an edge that is none is given back, with those there are.
pub proof fn law_what_is_said_of_a_side(fields: Fields, key: Seq<char>, text: Seq<char>)
    ensures
        text_at(fields, key) == Ok::<Option<Seq<char>>, LuaFault>(Some(text)) && align_read(
            text,
        ) is None ==> fault_of(align_at(fields, key)) == words(
            "`"@ + key + "`"@ + (": "@ + ("`"@ + text
                + "` is not a popup alignment: expected left, center or right"@)),
        ),
        lowered(text) != "top"@ && lowered(text) != "bottom"@ ==> fault_of(edge_of(key, text))
            == words(
            "`"@ + key + "`"@ + (" must be \"top\" or \"bottom\", got \""@ + lowered(text)
                + "\""@),
        ),
{
}

/// What cannot stand for a font, a font's size, half an item, what an item mirrors or its
/// members is named.
pub proof fn law_what_is_said_of_a_table(fields: Fields, key: Seq<char>)
    ensures
        lookup(fields, "font"@) is Boolean || lookup(fields, "font"@) is Integer || lookup(
            fields,
            "font"@,
        ) is Number || lookup(fields, "font"@) is Other ==> fault_of(font_at(fields)) == words(
            "`font` must be a string or a table, got "@ + type_text(lookup(fields, "font"@)),
        ),
        lookup(fields, "size"@) is Boolean || lookup(fields, "size"@) is Table || is_string(
            lookup(fields, "size"@),
        ) || lookup(fields, "size"@) is Other ==> fault_of(size_at(fields)) == words(
            "`font.size` must be a number, got "@ + type_text(lookup(fields, "size"@)),
        ),
        lookup(fields, key) is Boolean || lookup(fields, key) is Integer || lookup(
            fields,
            key,
        ) is Number || lookup(fields, key) is Other ==> fault_of(run_at(fields, key)) == words(
            "`"@ + key + "`"@ + (" must be a string or a table, got "@ + type_text(
                lookup(fields, key),
            )),
        ),
        lookup(fields, "alias"@) is Boolean || lookup(fields, "alias"@) is Integer || lookup(
            fields,
            "alias"@,
        ) is Number || lookup(fields, "alias"@) is Other ==> fault_of(alias_at(fields)) == words(
            "`alias` must be a string or a table, got "@ + type_text(lookup(fields, "alias"@)),
        ),
        !(lookup(fields, "members"@) is Nil) && !(lookup(fields, "members"@) is Table)
            ==> fault_of(members_at(fields)) == no_conversion(
            type_text(lookup(fields, "members"@)),
            "Vec<String>"@,
            "expected table"@,
        ),
{
}

/// A number is a number, or text that spells one. A whole one has to fit as well.
pub proof fn law_what_is_said_of_a_number(
    value: LuaView,
    fields: Fields,
    key: Seq<char>,
    least: int,
    most: int,
    wanted: Seq<char>,
)
    ensures
        !(value is Integer) && !(value is Number) && !(value matches LuaView::Text(t)
            && t.number is Some) ==> fault_of(measure_read(value, wanted)) == no_conversion(
            type_text(value),
            wanted,
            "expected number or string coercible to number"@,
        ),
        whole_of(value) is None ==> fault_of(whole_read(value, least, most, wanted))
            == no_conversion(
            type_text(value),
            wanted,
            "expected number or string coercible to number"@,
        ),
        value matches LuaView::Integer(i, _) && !(least <= i <= most) ==> fault_of(
            whole_read(value, least, most, wanted),
        ) == no_conversion("integer"@, wanted, "out of range"@),
        value matches LuaView::Number(n) && n.whole is None ==> fault_of(
            whole_read(value, least, most, wanted),
        ) == no_conversion("number"@, wanted, "out of range"@),
        !(lookup(fields, key) is Nil) ==> fault_of(measure_at(fields, key)) == fault_of(
            measure_read(lookup(fields, key), "f64"@),
        ),
{
}

/// Text is text, or a number written out. Bytes that are no text say why they are not.
pub proof fn law_what_is_said_of_a_text(value: LuaView)
    ensures
        value is Nil || value is Boolean || value is Table || value is Other ==> fault_of(
            text_read(value, TextForm::Text),
        ) == no_conversion(type_text(value), "String"@, "expected string or number"@),
        value is Nil || value is Boolean || value is Table || value is Other ==> fault_of(
            text_read(value, TextForm::Bytes),
        ) == no_conversion(type_text(value), "string"@, "expected string or number"@),
        value matches LuaView::Bytes(why) ==> fault_of(text_read(value, TextForm::Text))
            == no_conversion("string"@, "String"@, why),
        value matches LuaView::Bytes(why) ==> fault_of(text_read(value, TextForm::Bytes))
            == no_conversion("string"@, "&str"@, why),
{
}

/// What is no colour is given back as it was written.
pub proof fn law_what_is_said_of_a_colour(value: LuaView)
    ensures
        value matches LuaView::Integer(i, _) ==> (color_value(value) is Ok <==> 0 <= i
            <= 0xffff_ffff),
        value matches LuaView::Integer(i, _) ==> (color_value(value) is Err ==> color_value(value)
            == Err::<u32, ApiFault>(ApiFault::InvalidColor(signed_text(i as int)))),
        value matches LuaView::Number(n) ==> (color_value(value) is Err ==> color_value(value)
            == Err::<u32, ApiFault>(ApiFault::InvalidColor(n.measure.text))),
        value matches LuaView::Text(t) ==> (color_read(t.text) is None ==> color_value(value)
            == Err::<u32, ApiFault>(ApiFault::InvalidColor(t.text))),
        value is Bytes ==> color_value(value) == Err::<u32, ApiFault>(
            ApiFault::InvalidColor("<non-utf8>"@),
        ),
        value is Nil ==> color_value(value) == Err::<u32, ApiFault>(
            ApiFault::InvalidColor("Nil"@),
        ),
        value == LuaView::Boolean(true) ==> color_value(value) == Err::<u32, ApiFault>(
            ApiFault::InvalidColor("Boolean(true)"@),
        ),
        value == LuaView::Boolean(false) ==> color_value(value) == Err::<u32, ApiFault>(
            ApiFault::InvalidColor("Boolean(false)"@),
        ),
        value matches LuaView::Table(_, _, shown) ==> color_value(value) == Err::<u32, ApiFault>(
            ApiFault::InvalidColor(shown),
        ),
        value matches LuaView::Other(_, shown) ==> color_value(value) == Err::<u32, ApiFault>(
            ApiFault::InvalidColor(shown),
        ),
{
}

/// What a call is given in place of what it takes is named, with what it takes.
pub proof fn law_what_is_said_of_an_argument(value: LuaView, what: Seq<char>)
    ensures
        !is_string(value) ==> fault_of(string_value(value, what)) == words(
            "expected "@ + what + (" to be a string, got "@ + type_text(value)),
        ),
        !(value is Nil) && !(value is Table) ==> fault_of(opt_table_value(value, what)) == words(
            "expected "@ + what + (" to be a table, got "@ + type_text(value)),
        ),
        !is_string(value) && !(value is Table) ==> fault_of(names_value(value, what)) == words(
            what + (" takes an item name or a table of them, got "@ + type_text(value)),
        ),
        !(value is Table) ==> fault_of(members_value(value)) == words(
            "bracket members must be a table of item names, got "@ + type_text(value),
        ),
        !is_string(value) && !(value is Table) ==> fault_of(kinds_value(value)) == words(
            "expected an event name or a table of names, got "@ + type_text(value),
        ),
{
}

/// A call that takes names says which call it was.
pub proof fn law_what_is_said_of_a_call(a1: LuaView, a2: LuaView, a3: LuaView)
    ensures
        !is_string(a1) && !(a1 is Table) ==> fault_of(verb_asks(Verb::Remove, a1, a2, a3))
            == words(
            "rsbar.remove"@ + (" takes an item name or a table of them, got "@ + type_text(a1)),
        ),
        !is_string(a1) && !(a1 is Table) ==> fault_of(verb_asks(Verb::Reorder, a1, a2, a3))
            == words(
            "rsbar.reorder"@ + (" takes an item name or a table of them, got "@ + type_text(a1)),
        ),
        !is_string(a1) ==> fault_of(subscription_of(a1, a2)) == words(
            "expected "@ + "an item name"@ + (" to be a string, got "@ + type_text(a1)),
        ),
        !is_string(a1) ==> fault_of(event_declared(a1, a2)) == words(
            "expected "@ + "event name"@ + (" to be a string, got "@ + type_text(a1)),
        ),
        event_declared(a1, LuaView::Nil) is Ok && !is_string(a2) && !(a2 is Nil) ==> fault_of(
            event_declared(a1, a2),
        ) == words(
            "expected "@ + "notification name"@ + (" to be a string, got "@ + type_text(a2)),
        ),
        a1 is Text && a2 is Text && a3 is Text && is_item_name(a1->Text_0.text) && relative_word(
            a2->Text_0.text,
        ) is None ==> fault_of(move_asks(a1, a2, a3)) == words(
            "rsbar.move takes \"before\" or \"after\", got \""@ + a2->Text_0.text + "\""@,
        ),
{
}

/// A sample that is no number is refused as an argument of the call it was given to.
pub proof fn law_what_is_said_of_a_sample(
    value: LuaView,
    name: Seq<char>,
    at: nat,
    of: Option<Seq<char>>,
)
    requires
        value is Nil || value is Boolean || value is Bytes || value is Table || value is Other,
    ensures
        fault_of(sample_arg(value, at, of)) == Some(
            of_argument(
                no_conversion(
                    type_text(value),
                    "f32"@,
                    "expected number or string coercible to number"@,
                )->0,
                at,
                of,
            ),
        ),
        fault_of(item_verb_ask(ItemVerb::Push, name, value)) == Some(
            of_argument(
                no_conversion(
                    type_text(value),
                    "f32"@,
                    "expected number or string coercible to number"@,
                )->0,
                2,
                Some("Item.push"@),
            ),
        ),
{
}

/// What a client is told of what it was refused.
pub proof fn law_what_a_client_is_told(text: Seq<char>, other: Seq<char>)
    ensures
        words("rsbar: "@ + ("`"@ + text + "` is not a position: "@ + ("`"@ + other
            + "` is not a position: expected left, center-left, center, center-right or right"@)))
            == Some(lua_fault(ApiFault::InvalidPosition(text, other))),
        words("rsbar: "@ + ("`"@ + text + "` is not an event name: "@ + ("`"@ + other
            + "` is not an event name"@))) == Some(lua_fault(ApiFault::InvalidEvent(text, other))),
        words("rsbar: "@ + ("`"@ + text + "` is not a notification to bridge an event from: "@ + (
        "`"@ + other + "` is not a notification name"@))) == Some(
            lua_fault(ApiFault::InvalidNotificationName(text, other)),
        ),
        words("rsbar: "@ + ("`"@ + text + "` cannot be added as an event: "@ + ("`"@ + other
            + "` is not an event name"@))) == Some(
            lua_fault(
                ApiFault::InvalidEventName(text, InvalidEventNameView::NotAName(other)),
            ),
        ),
        words("rsbar: "@ + ("`"@ + text + "` cannot be added as an event: "@ + ("`"@ + other
            + "` is a built-in event; only a name coolabah does not already define can be added"@)))
            == Some(
            lua_fault(ApiFault::InvalidEventName(text, InvalidEventNameView::BuiltIn(other))),
        ),
        Some(unexpected_fault(text)) == words("rsbar: unexpected reply "@ + text),
        event_name_fault_text(InvalidEventNameView::NotAName(text)) == "`"@ + text
            + "` is not an event name"@,
{
}

/// Options that are no table are refused by that name.
pub proof fn law_what_is_said_of_options(v: AddView, spec: KindSpec, call: Named, made: Seq<char>)
    requires
        is_item_name(call.name),
    ensures
        spec.extra != Extra::Nothing && !(call.opts is Nil) && !(call.opts is Table) ==> fault_of(
            planned(v, spec, call, made),
        ) == words(
            "expected "@ + "add options"@ + (" to be a table, got "@ + type_text(call.opts)),
        ),
{
}

/// What is known of and not yet done is owned up to, each in its own words.
pub proof fn law_what_is_not_done_yet(text: Seq<char>)
    ensures
        unanswered("events"@) == Some("rsbar does not track registered custom events"@),
        unanswered("displays"@) == Some("querying displays is not implemented"@),
        unanswered(text) is Some <==> text == "events"@ || text == "displays"@,
        gap_note("slider"@) == Some(
            "a slider's own fill, knob and track; nothing draws a slider yet"@,
        ),
        gap_note("graph"@) == Some("a graph's line and fill; nothing plots a graph yet"@),
        gap_note(text) is Some <==> text == "slider"@ || text == "graph"@,
        run_gap("y_offset"@) == Some(
            "shifting the icon/label independently of the item; needs a `Run`/`RunPatch::y_offset` field (tracked separately)"@,
        ),
        run_gap(text) is Some <==> text == "y_offset"@,
        alias_gap("color"@) == Some(
            "tinting the mirrored menu bar icon; needs an `ItemPatch::alias` colour, not just a name"@,
        ),
        alias_gap(text) is Some <==> text == "color"@,
{
    reveal_strlit("events");
    reveal_strlit("displays");
    reveal_strlit("slider");
    reveal_strlit("graph");
    assert("events"@.len() != "displays"@.len());
    assert("slider"@.len() != "graph"@.len());
}

} // verus!
