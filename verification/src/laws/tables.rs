//! What a table says, read off the very key that says it.

use crate::align::{align_read, PopupAlign};
use crate::convert::{
    align_at, background_at, background_of_table, bar_patch, color_at, display_at, flag_at, font_at,
    item_patch, measure_at, members_at, popup_at, popup_of_table, run_at, run_of_table,
    selectors_read, text_at, texts_read, toggle_at, whole_at, Fields,
};
use crate::changes::MeasureView;
use crate::component::selector_views;
use crate::display::{display_read, DisplayTarget};
use crate::flag::{change_read, BoolChange};
use crate::lua::{
    lemma_lua_fields, lookup, lua_fields, lua_view, signed_text, LuaFault, LuaTable, LuaValue,
    LuaView, TextForm,
};
use crate::measure::Measure;
use crate::name::{selector_read, InvalidNameView, Selector, SelectorView};
use crate::place::{position_read, Edge, Position};
use crate::state::{
    BackgroundPatch, BackgroundPatchView, BarPatch, BarPatchView, GeometryPatch, ItemPatch,
    ItemPatchView, PopupPatch, PopupPatchView, RunPatch, RunPatchView, ScriptingPatch,
};
use crate::style::{color_read, Color, FontSpec};
use crate::text::lowered;
use vstd::prelude::*;

verus! {

// ---------------------------------------------------------------------------
// Tables

/// A field is found under its own name, and nothing under any other. A table
/// names each of its fields once.
pub proof fn law_a_field_is_found_by_its_name(fields: Fields, key: Seq<char>, i: int)
    requires
        forall|a: int, b: int|
            0 <= a < b < fields.len() ==> (#[trigger] fields[a]).0 != (#[trigger] fields[b]).0,
    ensures
        0 <= i < fields.len() ==> lookup(fields, fields[i].0) == fields[i].1,
        (forall|j: int| 0 <= j < fields.len() ==> (#[trigger] fields[j]).0 != key) ==> lookup(
            fields,
            key,
        ) == LuaView::Nil,
    decreases fields.len(),
{
    if fields.len() > 0 {
        let rest = fields.skip(1);
        assert forall|a: int, b: int| 0 <= a < b < rest.len() implies (#[trigger] rest[a]).0 != (
        #[trigger] rest[b]).0 by {
            assert(rest[a] == fields[a + 1] && rest[b] == fields[b + 1]);
        }
        law_a_field_is_found_by_its_name(rest, key, i - 1);
        if 0 < i < fields.len() {
            assert(fields[0].0 != fields[i].0);
            assert(rest[i - 1] == fields[i]);
        }
        if forall|j: int| 0 <= j < fields.len() ==> (#[trigger] fields[j]).0 != key {
            assert(fields[0].0 != key);
            assert forall|j: int| 0 <= j < rest.len() implies (#[trigger] rest[j]).0 != key by {
                assert(rest[j] == fields[j + 1]);
            }
        }
    }
}

/// What is read of a value is what it is.
pub proof fn law_a_value_is_read_as_it_is(value: LuaValue, table: LuaTable, i: int)
    ensures
        match (value, value@) {
            (LuaValue::Nil, LuaView::Nil) => true,
            (LuaValue::Boolean(a), LuaView::Boolean(b)) => a == b,
            (LuaValue::Integer(a, m), LuaView::Integer(b, n)) => a == b && n.bits == m.bits
                && n.text == m.text@,
            (LuaValue::Number(a), LuaView::Number(b)) => b.measure.bits == a.measure.bits
                && b.measure.text == a.measure.text@ && b.whole == a.whole && b.spelled
                == a.spelled@,
            (LuaValue::Text(a), LuaView::Text(b)) => b.text == a.text@ && (a.number is Some
                <==> b.number is Some) && (a.number matches Some(n) ==> b.number->0.measure.bits
                == n.measure.bits && b.number->0.whole == n.whole) && b.pieces.len()
                == a.pieces@.len(),
            (LuaValue::Bytes(a), LuaView::Bytes(b)) => b == a@,
            (LuaValue::Table(a, shown), LuaView::Table(fields, items, b)) => b == shown@ && fields
                == a@.0 && items == a@.1,
            (LuaValue::Other(a, shown), LuaView::Other(b, c)) => b == a@ && c == shown@,
            _ => false,
        },
        table@.0.len() == table.fields@.len(),
        0 <= i < table.fields@.len() ==> table@.0[i].0 == table.fields@[i].0@ && table@.0[i].1
            == table.fields@[i].1@,
{
    lemma_lua_fields(table.fields@);
    if 0 <= i < table.fields@.len() {
        assert(lua_fields(table.fields@)[i] == (
            table.fields@[i].0@,
            lua_view(table.fields@[i].1),
        ));
    }
}

// ---------------------------------------------------------------------------
// One value

/// Whether a measurement is one over plain text.
pub open spec fn is_measure(held: Measure, view: MeasureView) -> bool {
    held.bits == view.bits && held.text@ == view.text
}

/// The number a value spells, where it does.
pub open spec fn spelled_number(value: LuaView) -> Option<MeasureView> {
    match value {
        LuaView::Integer(_, measure) => Some(measure),
        LuaView::Number(number) => Some(number.measure),
        LuaView::Text(text) => match text.number {
            Some(number) => Some(number.measure),
            None => None,
        },
        _ => None,
    }
}

/// The integer a value spells, where it does.
pub open spec fn spelled_whole(value: LuaView) -> Option<i64> {
    match value {
        LuaView::Integer(i, _) => Some(i),
        LuaView::Number(number) => number.whole,
        LuaView::Text(text) => match text.number {
            Some(number) => number.whole,
            None => None,
        },
        _ => None,
    }
}

/// The text a value spells, where it does.
pub open spec fn spelled_text(value: LuaView) -> Option<Seq<char>> {
    match value {
        LuaView::Text(text) => Some(text.text),
        LuaView::Integer(i, _) => Some(signed_text(i as int)),
        LuaView::Number(number) => Some(number.spelled),
        _ => None,
    }
}

/// Whether a word is one for on.
pub open spec fn means_on(word: Seq<char>) -> bool {
    word == "on"@ || word == "true"@ || word == "yes"@ || word == "1"@
}

/// Whether a word is one for off.
pub open spec fn means_off(word: Seq<char>) -> bool {
    word == "off"@ || word == "false"@ || word == "no"@ || word == "0"@
}

/// Nothing is said where there is no value, and else the number it spells.
pub open spec fn says_measure(value: LuaView, said: Option<Measure>) -> bool {
    match said {
        Some(measure) => spelled_number(value) matches Some(number) && is_measure(measure, number),
        None => value is Nil,
    }
}

/// Whether a value says a measurement, or nothing.
pub open spec fn fits_measure(value: LuaView) -> bool {
    value is Nil || spelled_number(value) is Some
}

/// Nothing is said where there is no value, and else the text it spells.
pub open spec fn says_text(value: LuaView, said: Option<String>) -> bool {
    match said {
        Some(text) => spelled_text(value) == Some(text@),
        None => value is Nil,
    }
}

/// Whether a value says a text, or nothing.
pub open spec fn fits_text(value: LuaView) -> bool {
    value is Nil || spelled_text(value) is Some
}

/// Nothing is said where there is no value, and else the integer it spells.
pub open spec fn says_whole(value: LuaView, said: Option<int>) -> bool {
    match said {
        Some(n) => spelled_whole(value) matches Some(i) && n == i,
        None => value is Nil,
    }
}

/// Whether a value says an integer in a range, or nothing.
pub open spec fn fits_whole(value: LuaView, least: int, most: int) -> bool {
    value is Nil || (spelled_whole(value) matches Some(i) && least <= i <= most)
}

/// Nothing is said where there is no value; a boolean is said as it is, and a
/// word by what it means, whatever its case.
pub open spec fn says_flag(value: LuaView, said: Option<BoolChange>) -> bool {
    match said {
        Some(BoolChange::True) => value == LuaView::Boolean(true) || (value matches LuaView::Text(
            text,
        ) && means_on(lowered(text.text))),
        Some(BoolChange::False) => value == LuaView::Boolean(false) || (
        value matches LuaView::Text(text) && means_off(lowered(text.text))),
        Some(BoolChange::Toggle) => false,
        None => value is Nil,
    }
}

/// Whether a value says a flag, or nothing.
pub open spec fn fits_flag(value: LuaView) -> bool {
    match value {
        LuaView::Nil => true,
        LuaView::Boolean(_) => true,
        LuaView::Text(text) => means_on(lowered(text.text)) || means_off(lowered(text.text)),
        _ => false,
    }
}

/// The same of a flag that can be flipped as well.
pub open spec fn says_toggle(value: LuaView, said: Option<BoolChange>) -> bool {
    match value {
        LuaView::Nil => said is None,
        LuaView::Boolean(b) => said == Some(
            if b {
                BoolChange::True
            } else {
                BoolChange::False
            },
        ),
        LuaView::Text(text) => said is Some && said == change_read(text.text),
        _ => false,
    }
}

/// Whether a value says a flag, or a flip, or nothing.
pub open spec fn fits_toggle(value: LuaView) -> bool {
    match value {
        LuaView::Nil => true,
        LuaView::Boolean(_) => true,
        LuaView::Text(text) => change_read(text.text) is Some,
        _ => false,
    }
}

/// Nothing is said where there is no value; a number is the colour it counts,
/// and a text the colour it spells.
pub open spec fn says_color(value: LuaView, said: Option<Color>) -> bool {
    match said {
        Some(color) => match value {
            LuaView::Integer(i, _) => i == color.0,
            LuaView::Number(number) => number.whole matches Some(i) && i == color.0,
            LuaView::Text(text) => color_read(text.text) matches Some(c) && color.0 == c as u32,
            _ => false,
        },
        None => value is Nil,
    }
}

/// Whether a value says a colour, or nothing.
pub open spec fn fits_color(value: LuaView) -> bool {
    match value {
        LuaView::Nil => true,
        LuaView::Integer(i, _) => 0 <= i <= u32::MAX,
        LuaView::Number(number) => number.whole matches Some(i) && 0 <= i <= u32::MAX,
        LuaView::Text(text) => color_read(text.text) is Some,
        _ => false,
    }
}

/// The text of a display: as it is written, or as a number prints.
pub open spec fn display_word(value: LuaView) -> Option<Seq<char>> {
    match value {
        LuaView::Text(text) => Some(text.text),
        LuaView::Integer(i, _) => Some(signed_text(i as int)),
        LuaView::Number(number) => Some(number.measure.text),
        _ => None,
    }
}

/// Nothing is said where there is no value, and else the display it names.
pub open spec fn says_display(value: LuaView, said: Option<DisplayTarget>) -> bool {
    match said {
        Some(target) => display_word(value) matches Some(word) && display_read(word) == Some(target),
        None => value is Nil,
    }
}

/// Whether a value says a display, or nothing.
pub open spec fn fits_display(value: LuaView) -> bool {
    value is Nil || (display_word(value) matches Some(word) && display_read(word) is Some)
}

/// A position is the one that is named, and none where none is.
pub open spec fn says_position(value: LuaView, said: Option<Position>) -> bool {
    match said {
        Some(position) => spelled_text(value) matches Some(word) && position_read(word) == Some(
            position@,
        ),
        None => match spelled_text(value) {
            Some(word) => position_read(word) is None,
            None => true,
        },
    }
}

/// An alignment is the one that is named.
pub open spec fn says_align(value: LuaView, said: Option<PopupAlign>) -> bool {
    match said {
        Some(align) => spelled_text(value) matches Some(word) && align_read(word) == Some(align),
        None => value is Nil,
    }
}

/// Whether a value says an alignment, or nothing.
pub open spec fn fits_align(value: LuaView) -> bool {
    value is Nil || (spelled_text(value) matches Some(word) && align_read(word) is Some)
}

/// Whether a text names an edge.
pub open spec fn names_edge(word: Seq<char>, edge: Edge) -> bool {
    lowered(word) == (match edge {
        Edge::Top => "top"@,
        Edge::Bottom => "bottom"@,
    })
}

/// The edge of a bar is what `position` says, and else what `edge` says.
pub open spec fn says_edge(fields: Fields, said: Option<Edge>) -> bool {
    let value = if lookup(fields, "position"@) is Nil {
        lookup(fields, "edge"@)
    } else {
        lookup(fields, "position"@)
    };
    match said {
        Some(edge) => spelled_text(value) matches Some(word) && names_edge(word, edge),
        None => value is Nil,
    }
}

/// Whether the edge of a bar is said, or nothing is.
pub open spec fn fits_edge(fields: Fields) -> bool {
    let value = if lookup(fields, "position"@) is Nil {
        lookup(fields, "edge"@)
    } else {
        lookup(fields, "position"@)
    };
    value is Nil || (spelled_text(value) matches Some(word) && (lowered(word) == "top"@ || lowered(
        word,
    ) == "bottom"@))
}

/// A font is the one that is spelled, or made up of its parts.
pub open spec fn says_font(fields: Fields, said: Option<FontSpec>) -> bool {
    match said {
        Some(font) => font_at(fields) matches Ok(Some(view)) && font@ == view && !(lookup(
            fields,
            "font"@,
        ) is Nil),
        None => lookup(fields, "font"@) is Nil,
    }
}

/// Members are those a list names, each a name or a pattern, in order.
pub open spec fn says_members(value: LuaView, said: Option<Vec<Selector>>) -> bool {
    match said {
        Some(selectors) => value matches LuaView::Table(_, items, _) && selectors@.len()
            == items.len() && forall|i: int|
            0 <= i < items.len() ==> (spelled_text(#[trigger] items[i]) matches Some(word)
                && selector_read(word) == Ok::<SelectorView, InvalidNameView>(selectors@[i]@)),
        None => value is Nil,
    }
}

/// What a field reads as is what its value says, and it reads exactly where its
/// value says something of the kind, or there is none.
proof fn lemma_leaves(fields: Fields, key: Seq<char>)
    ensures
        measure_at(fields, key) is Ok <==> fits_measure(lookup(fields, key)),
        measure_at(fields, key) == Ok::<Option<MeasureView>, LuaFault>(None) ==> lookup(fields, key)
            is Nil,
        measure_at(fields, key) matches Ok(Some(m)) ==> spelled_number(lookup(fields, key)) == Some(
            m,
        ),
        text_at(fields, key) is Ok <==> fits_text(lookup(fields, key)),
        text_at(fields, key) matches Ok(Some(t)) ==> spelled_text(lookup(fields, key)) == Some(t),
        text_at(fields, key) matches Ok(None) ==> lookup(fields, key) is Nil,
        color_at(fields, key) is Ok <==> fits_color(lookup(fields, key)),
        color_at(fields, key) matches Ok(said) ==> says_color(lookup(fields, key), said),
        display_at(fields, key) is Ok <==> fits_display(lookup(fields, key)),
        display_at(fields, key) matches Ok(said) ==> says_display(lookup(fields, key), said),
        align_at(fields, key) is Ok <==> fits_align(lookup(fields, key)),
        align_at(fields, key) matches Ok(said) ==> says_align(lookup(fields, key), said),
        toggle_at(fields, key) is Ok <==> fits_toggle(lookup(fields, key)),
        toggle_at(fields, key) matches Ok(said) ==> says_toggle(lookup(fields, key), said),
{
}

/// The same of flags.
proof fn lemma_flags(fields: Fields, key: Seq<char>)
    ensures
        flag_at(fields, key) is Ok <==> fits_flag(lookup(fields, key)),
        flag_at(fields, key) matches Ok(Some(b)) ==> says_flag(
            lookup(fields, key),
            Some(
                if b {
                    BoolChange::True
                } else {
                    BoolChange::False
                },
            ),
        ),
        flag_at(fields, key) matches Ok(None) ==> lookup(fields, key) is Nil,
{
}

/// The same of integers.
proof fn lemma_wholes(fields: Fields, key: Seq<char>, least: int, most: int, wanted: Seq<char>)
    ensures
        whole_at(fields, key, least, most, wanted) is Ok <==> fits_whole(
            lookup(fields, key),
            least,
            most,
        ),
        whole_at(fields, key, least, most, wanted) matches Ok(said) ==> says_whole(
            lookup(fields, key),
            said,
        ) && (said matches Some(n) ==> least <= n <= most),
{
}

/// A list reads as its items do, one by one.
proof fn lemma_lists(items: Seq<LuaView>)
    ensures
        texts_read(items, TextForm::Text) matches Ok(texts) ==> texts.len() == items.len()
            && forall|i: int|
            0 <= i < items.len() ==> spelled_text(#[trigger] items[i]) == Some(texts[i]),
    decreases items.len(),
{
    if items.len() > 0 {
        let short = items.drop_last();
        lemma_lists(short);
        if let Ok(texts) = texts_read(items, TextForm::Text) {
            let before = texts_read(short, TextForm::Text)->Ok_0;
            assert forall|i: int| 0 <= i < items.len() implies spelled_text(#[trigger] items[i])
                == Some(texts[i]) by {
                if i < short.len() {
                    assert(short[i] == items[i]);
                    assert(texts[i] == before[i]);
                }
            }
        }
    }
}

/// Selectors read as their texts do, one by one.
proof fn lemma_selector_lists(texts: Seq<Seq<char>>)
    ensures
        selectors_read(texts) matches Ok(selectors) ==> selectors.len() == texts.len()
            && forall|i: int|
            0 <= i < texts.len() ==> selector_read(#[trigger] texts[i]) == Ok::<
                SelectorView,
                InvalidNameView,
            >(selectors[i]),
    decreases texts.len(),
{
    if texts.len() > 0 {
        let short = texts.drop_last();
        lemma_selector_lists(short);
        if let Ok(selectors) = selectors_read(texts) {
            let before = selectors_read(short)->Ok_0;
            assert forall|i: int| 0 <= i < texts.len() implies selector_read(#[trigger] texts[i])
                == Ok::<SelectorView, InvalidNameView>(selectors[i]) by {
                if i < short.len() {
                    assert(short[i] == texts[i]);
                    assert(selectors[i] == before[i]);
                }
            }
        }
    }
}

/// Members are those that are listed.
proof fn lemma_members_said(fields: Fields, said: Option<Vec<Selector>>)
    requires
        members_at(fields) == Ok::<Option<Seq<SelectorView>>, LuaFault>(
            match said {
                Some(members) => Some(selector_views(members@)),
                None => None,
            },
        ),
    ensures
        says_members(lookup(fields, "members"@), said),
{
    if let LuaView::Table(_, items, _) = lookup(fields, "members"@) {
        lemma_lists(items);
        let texts = texts_read(items, TextForm::Text)->Ok_0;
        lemma_selector_lists(texts);
        let members = said->0;
        let views = selector_views(members@);
        assert(views.len() == members@.len());
        assert forall|i: int| 0 <= i < items.len() implies (spelled_text(
            #[trigger] items[i],
        ) matches Some(word) && selector_read(word) == Ok::<SelectorView, InvalidNameView>(
            members@[i]@,
        )) by {
            assert(views[i] == members@[i]@);
            assert(selector_read(texts[i]) == Ok::<SelectorView, InvalidNameView>(views[i]));
        }
    }
}

// ---------------------------------------------------------------------------
// What is behind an item

/// What a table says of what is behind an item, key by key.
pub open spec fn background_says(fields: Fields, patch: BackgroundPatch) -> bool {
    &&& says_flag(lookup(fields, "drawing"@), patch.drawing)
    &&& says_color(lookup(fields, "color"@), patch.color)
    &&& says_measure(lookup(fields, "corner_radius"@), patch.corner_radius)
    &&& says_measure(lookup(fields, "height"@), patch.height)
    &&& says_measure(lookup(fields, "padding_left"@), patch.padding_left)
    &&& says_measure(lookup(fields, "padding_right"@), patch.padding_right)
    &&& says_color(lookup(fields, "border_color"@), patch.border_color)
    &&& says_measure(lookup(fields, "border_width"@), patch.border_width)
}

/// Whether a table of what is behind an item reads.
pub open spec fn background_fits(fields: Fields) -> bool {
    &&& fits_flag(lookup(fields, "drawing"@))
    &&& fits_color(lookup(fields, "color"@))
    &&& fits_measure(lookup(fields, "corner_radius"@))
    &&& fits_measure(lookup(fields, "height"@))
    &&& fits_measure(lookup(fields, "padding_left"@))
    &&& fits_measure(lookup(fields, "padding_right"@))
    &&& fits_color(lookup(fields, "border_color"@))
    &&& fits_measure(lookup(fields, "border_width"@))
}

/// A table of what is behind an item says of each property what stands under its
/// name, and reads exactly where all of them do.
pub proof fn law_a_background_says_what_stands_under_each_name(
    fields: Fields,
    patch: BackgroundPatch,
)
    ensures
        background_of_table(fields) is Ok <==> background_fits(fields),
        background_of_table(fields) == Ok::<BackgroundPatchView, LuaFault>(patch@)
            ==> background_says(fields, patch),
{
    lemma_leaves(fields, "drawing"@);
    lemma_flags(fields, "drawing"@);
    lemma_leaves(fields, "color"@);
    lemma_flags(fields, "color"@);
    lemma_leaves(fields, "corner_radius"@);
    lemma_flags(fields, "corner_radius"@);
    lemma_leaves(fields, "height"@);
    lemma_flags(fields, "height"@);
    lemma_leaves(fields, "padding_left"@);
    lemma_flags(fields, "padding_left"@);
    lemma_leaves(fields, "padding_right"@);
    lemma_flags(fields, "padding_right"@);
    lemma_leaves(fields, "border_color"@);
    lemma_flags(fields, "border_color"@);
    lemma_leaves(fields, "border_width"@);
    lemma_flags(fields, "border_width"@);
}

/// What a value says of what is behind an item: a table, or nothing.
pub open spec fn says_background(value: LuaView, said: Option<BackgroundPatch>) -> bool {
    match said {
        Some(patch) => value matches LuaView::Table(inner, _, _) && background_says(inner, patch),
        None => value is Nil,
    }
}

/// Whether a value says anything of what is behind an item, or nothing.
pub open spec fn fits_background(value: LuaView) -> bool {
    value is Nil || (value matches LuaView::Table(inner, _, _) && background_fits(inner))
}

/// The background under its name.
proof fn lemma_background(fields: Fields, said: Option<BackgroundPatch>)
    ensures
        background_at(fields) is Ok <==> fits_background(lookup(fields, "background"@)),
        background_at(fields) == Ok::<Option<BackgroundPatchView>, LuaFault>(
            match said {
                Some(patch) => Some(patch@),
                None => None,
            },
        ) ==> says_background(lookup(fields, "background"@), said),
{
    if let LuaView::Table(inner, _, _) = lookup(fields, "background"@) {
        if let Some(patch) = said {
            law_a_background_says_what_stands_under_each_name(inner, patch);
        }
        law_a_background_says_what_stands_under_each_name(inner, arbitrary::<BackgroundPatch>());
    }
}

// ---------------------------------------------------------------------------
// Popups

/// What a table says of a popup, key by key.
pub open spec fn popup_says(fields: Fields, patch: PopupPatch) -> bool {
    &&& says_toggle(lookup(fields, "drawing"@), patch.drawing)
    &&& says_flag(lookup(fields, "horizontal"@), patch.horizontal)
    &&& says_align(lookup(fields, "align"@), patch.align)
    &&& says_flag(lookup(fields, "topmost"@), patch.topmost)
    &&& says_measure(lookup(fields, "height"@), patch.height)
    &&& says_measure(lookup(fields, "y_offset"@), patch.y_offset)
    &&& says_background(lookup(fields, "background"@), patch.background)
}

/// Whether a table of a popup reads.
pub open spec fn popup_fits(fields: Fields) -> bool {
    &&& fits_toggle(lookup(fields, "drawing"@))
    &&& fits_flag(lookup(fields, "horizontal"@))
    &&& fits_align(lookup(fields, "align"@))
    &&& fits_flag(lookup(fields, "topmost"@))
    &&& fits_measure(lookup(fields, "height"@))
    &&& fits_measure(lookup(fields, "y_offset"@))
    &&& fits_background(lookup(fields, "background"@))
}

/// A table of a popup says of each property what stands under its name, and reads
/// exactly where all of them do.
pub proof fn law_a_popup_says_what_stands_under_each_name(fields: Fields, patch: PopupPatch)
    ensures
        popup_of_table(fields) is Ok <==> popup_fits(fields),
        popup_of_table(fields) == Ok::<PopupPatchView, LuaFault>(patch@) ==> popup_says(
            fields,
            patch,
        ),
{
    lemma_background(fields, patch.background);
    lemma_leaves(fields, "drawing"@);
    lemma_flags(fields, "drawing"@);
    lemma_leaves(fields, "horizontal"@);
    lemma_flags(fields, "horizontal"@);
    lemma_leaves(fields, "align"@);
    lemma_flags(fields, "align"@);
    lemma_leaves(fields, "topmost"@);
    lemma_flags(fields, "topmost"@);
    lemma_leaves(fields, "height"@);
    lemma_flags(fields, "height"@);
    lemma_leaves(fields, "y_offset"@);
    lemma_flags(fields, "y_offset"@);
}

/// What a value says of a popup: a table, or nothing.
pub open spec fn says_popup(value: LuaView, said: Option<PopupPatch>) -> bool {
    match said {
        Some(patch) => value matches LuaView::Table(inner, _, _) && popup_says(inner, patch),
        None => value is Nil,
    }
}

/// Whether a value says anything of a popup, or nothing.
pub open spec fn fits_popup(value: LuaView) -> bool {
    value is Nil || (value matches LuaView::Table(inner, _, _) && popup_fits(inner))
}

/// The popup under its name.
proof fn lemma_popup(fields: Fields, said: Option<PopupPatch>)
    ensures
        popup_at(fields) is Ok <==> fits_popup(lookup(fields, "popup"@)),
        popup_at(fields) == Ok::<Option<PopupPatchView>, LuaFault>(
            match said {
                Some(patch) => Some(patch@),
                None => None,
            },
        ) ==> says_popup(lookup(fields, "popup"@), said),
{
    if let LuaView::Table(inner, _, _) = lookup(fields, "popup"@) {
        if let Some(patch) = said {
            law_a_popup_says_what_stands_under_each_name(inner, patch);
        }
        law_a_popup_says_what_stands_under_each_name(inner, arbitrary::<PopupPatch>());
    }
}

// ---------------------------------------------------------------------------
// Halves of an item's text

/// What a table says of one half of an item's text, key by key: `string` before
/// `text`. Nothing is said of what has no key.
pub open spec fn run_says(fields: Fields, patch: RunPatch) -> bool {
    &&& says_text(
        if lookup(fields, "string"@) is Nil {
            lookup(fields, "text"@)
        } else {
            lookup(fields, "string"@)
        },
        patch.text,
    )
    &&& says_color(lookup(fields, "color"@), patch.color)
    &&& says_font(fields, patch.font)
    &&& says_flag(lookup(fields, "drawing"@), patch.drawing)
    &&& says_measure(lookup(fields, "padding_left"@), patch.padding_left)
    &&& says_measure(lookup(fields, "padding_right"@), patch.padding_right)
    &&& patch.y_offset is None && patch.highlight is None && patch.highlight_color is None
}

/// Whether a table of one half of an item's text reads.
pub open spec fn run_fits(fields: Fields) -> bool {
    &&& fits_text(lookup(fields, "string"@))
    &&& fits_text(lookup(fields, "text"@))
    &&& fits_color(lookup(fields, "color"@))
    &&& font_at(fields) is Ok
    &&& fits_flag(lookup(fields, "drawing"@))
    &&& fits_measure(lookup(fields, "padding_left"@))
    &&& fits_measure(lookup(fields, "padding_right"@))
}

/// A table of one half of an item's text says of each property what stands under
/// its name, and reads exactly where all of them do.
pub proof fn law_a_half_says_what_stands_under_each_name(fields: Fields, patch: RunPatch)
    ensures
        run_of_table(fields) is Ok <==> run_fits(fields),
        run_of_table(fields) == Ok::<RunPatchView, LuaFault>(patch@) ==> run_says(fields, patch),
{
    lemma_leaves(fields, "string"@);
    lemma_flags(fields, "string"@);
    lemma_leaves(fields, "text"@);
    lemma_flags(fields, "text"@);
    lemma_leaves(fields, "color"@);
    lemma_flags(fields, "color"@);
    lemma_leaves(fields, "drawing"@);
    lemma_flags(fields, "drawing"@);
    lemma_leaves(fields, "padding_left"@);
    lemma_flags(fields, "padding_left"@);
    lemma_leaves(fields, "padding_right"@);
    lemma_flags(fields, "padding_right"@);
}

/// Whether a patch says nothing of a half.
pub open spec fn says_nothing(fields: Fields) -> bool {
    &&& lookup(fields, "string"@) is Nil && lookup(fields, "text"@) is Nil
    &&& lookup(fields, "color"@) is Nil && lookup(fields, "font"@) is Nil
    &&& lookup(fields, "drawing"@) is Nil
    &&& lookup(fields, "padding_left"@) is Nil && lookup(fields, "padding_right"@) is Nil
}

/// What a value says of one half of an item's text: a text is what it says and
/// nothing more, and a table says it key by key, where it says anything.
pub open spec fn says_run(value: LuaView, said: Option<RunPatch>) -> bool {
    match value {
        LuaView::Nil => said is None,
        LuaView::Text(text) => said matches Some(patch) && patch.text matches Some(t) && t@
            == text.text && patch.color is None && patch.font is None && patch.drawing is None
            && patch.padding_left is None && patch.padding_right is None && patch.y_offset is None
            && patch.highlight is None && patch.highlight_color is None,
        LuaView::Table(inner, _, _) => match said {
            Some(patch) => run_says(inner, patch) && !says_nothing(inner),
            None => says_nothing(inner),
        },
        _ => false,
    }
}

/// Whether a value says anything of a half, or nothing.
pub open spec fn fits_run(value: LuaView) -> bool {
    value is Nil || value is Text || (value matches LuaView::Table(inner, _, _) && run_fits(inner))
}

/// A half under its name.
proof fn lemma_run(fields: Fields, key: Seq<char>, said: Option<RunPatch>)
    ensures
        run_at(fields, key) is Ok <==> fits_run(lookup(fields, key)),
        run_at(fields, key) == Ok::<Option<RunPatchView>, LuaFault>(
            match said {
                Some(patch) => Some(patch@),
                None => None,
            },
        ) ==> says_run(lookup(fields, key), said),
{
    if let LuaView::Table(inner, _, _) = lookup(fields, key) {
        if let Some(patch) = said {
            law_a_half_says_what_stands_under_each_name(inner, patch);
        }
        law_a_half_says_what_stands_under_each_name(inner, arbitrary::<RunPatch>());
        lemma_leaves(inner, "string"@);
        lemma_flags(inner, "string"@);
        lemma_leaves(inner, "text"@);
        lemma_flags(inner, "text"@);
        lemma_leaves(inner, "color"@);
        lemma_flags(inner, "color"@);
        lemma_leaves(inner, "drawing"@);
        lemma_flags(inner, "drawing"@);
        lemma_leaves(inner, "padding_left"@);
        lemma_flags(inner, "padding_left"@);
        lemma_leaves(inner, "padding_right"@);
        lemma_flags(inner, "padding_right"@);
    }
}

// ---------------------------------------------------------------------------
// The bar

/// What a table says of the bar, key by key.
pub open spec fn bar_says(fields: Fields, patch: BarPatch) -> bool {
    &&& says_measure(lookup(fields, "height"@), patch.height)
    &&& says_edge(fields, patch.edge)
    &&& says_color(lookup(fields, "color"@), patch.color)
    &&& says_measure(lookup(fields, "margin"@), patch.margin)
    &&& says_measure(lookup(fields, "y_offset"@), patch.y_offset)
    &&& says_measure(lookup(fields, "corner_radius"@), patch.corner_radius)
    &&& says_flag(lookup(fields, "topmost"@), patch.topmost)
    &&& says_flag(lookup(fields, "hidden"@), patch.hidden)
    &&& says_measure(lookup(fields, "padding_left"@), patch.padding_left)
    &&& says_measure(lookup(fields, "padding_right"@), patch.padding_right)
    &&& says_display(lookup(fields, "display"@), patch.display)
    &&& says_flag(lookup(fields, "sticky"@), patch.sticky)
    &&& says_flag(lookup(fields, "show_in_fullscreen"@), patch.show_in_fullscreen)
    &&& says_measure(lookup(fields, "notch_width"@), patch.notch_width)
    &&& says_measure(lookup(fields, "notch_offset"@), patch.notch_offset)
    &&& says_measure(lookup(fields, "notch_display_height"@), patch.notch_display_height)
    &&& says_whole(
        lookup(fields, "blur_radius"@),
        match patch.blur_radius {
            Some(n) => Some(n as int),
            None => None,
        },
    )
}

/// Whether a table of the bar reads.
pub open spec fn bar_fits(fields: Fields) -> bool {
    &&& fits_measure(lookup(fields, "height"@))
    &&& fits_edge(fields)
    &&& fits_color(lookup(fields, "color"@))
    &&& fits_measure(lookup(fields, "margin"@))
    &&& fits_measure(lookup(fields, "y_offset"@))
    &&& fits_measure(lookup(fields, "corner_radius"@))
    &&& fits_flag(lookup(fields, "topmost"@))
    &&& fits_flag(lookup(fields, "hidden"@))
    &&& fits_measure(lookup(fields, "padding_left"@))
    &&& fits_measure(lookup(fields, "padding_right"@))
    &&& fits_display(lookup(fields, "display"@))
    &&& fits_flag(lookup(fields, "sticky"@))
    &&& fits_flag(lookup(fields, "show_in_fullscreen"@))
    &&& fits_measure(lookup(fields, "notch_width"@))
    &&& fits_measure(lookup(fields, "notch_offset"@))
    &&& fits_measure(lookup(fields, "notch_display_height"@))
    &&& fits_whole(lookup(fields, "blur_radius"@), -0x8000_0000, 0x7fff_ffff)
}

/// A table of the bar says of each property what stands under its name, and reads
/// exactly where all of them do.
pub proof fn law_a_bar_says_what_stands_under_each_name(fields: Fields, patch: BarPatch)
    ensures
        bar_patch(fields) is Ok <==> bar_fits(fields),
        bar_patch(fields) == Ok::<BarPatchView, LuaFault>(patch@) ==> bar_says(fields, patch),
{
    lemma_wholes(fields, "blur_radius"@, -0x8000_0000, 0x7fff_ffff, "i32"@);
    lemma_leaves(fields, "position"@);
    lemma_leaves(fields, "height"@);
    lemma_flags(fields, "height"@);
    lemma_leaves(fields, "edge"@);
    lemma_flags(fields, "edge"@);
    lemma_leaves(fields, "color"@);
    lemma_flags(fields, "color"@);
    lemma_leaves(fields, "margin"@);
    lemma_flags(fields, "margin"@);
    lemma_leaves(fields, "y_offset"@);
    lemma_flags(fields, "y_offset"@);
    lemma_leaves(fields, "corner_radius"@);
    lemma_flags(fields, "corner_radius"@);
    lemma_leaves(fields, "topmost"@);
    lemma_flags(fields, "topmost"@);
    lemma_leaves(fields, "hidden"@);
    lemma_flags(fields, "hidden"@);
    lemma_leaves(fields, "padding_left"@);
    lemma_flags(fields, "padding_left"@);
    lemma_leaves(fields, "padding_right"@);
    lemma_flags(fields, "padding_right"@);
    lemma_leaves(fields, "display"@);
    lemma_flags(fields, "display"@);
    lemma_leaves(fields, "sticky"@);
    lemma_flags(fields, "sticky"@);
    lemma_leaves(fields, "show_in_fullscreen"@);
    lemma_flags(fields, "show_in_fullscreen"@);
    lemma_leaves(fields, "notch_width"@);
    lemma_flags(fields, "notch_width"@);
    lemma_leaves(fields, "notch_offset"@);
    lemma_flags(fields, "notch_offset"@);
    lemma_leaves(fields, "notch_display_height"@);
    lemma_flags(fields, "notch_display_height"@);
}

// ---------------------------------------------------------------------------
// Items

/// What a table says of where an item is, key by key.
pub open spec fn geometry_says(fields: Fields, patch: GeometryPatch) -> bool {
    &&& says_toggle(lookup(fields, "drawing"@), patch.drawing)
    &&& says_position(lookup(fields, "position"@), patch.position)
    &&& says_measure(lookup(fields, "y_offset"@), patch.y_offset)
    &&& says_measure(lookup(fields, "padding_left"@), patch.padding_left)
    &&& says_measure(lookup(fields, "padding_right"@), patch.padding_right)
    &&& says_measure(lookup(fields, "width"@), patch.width)
    &&& says_display(lookup(fields, "display"@), patch.display)
    &&& says_background(lookup(fields, "background"@), patch.background)
}

/// A patch that says nothing of where an item is.
pub open spec fn no_geometry(patch: GeometryPatch) -> bool {
    patch.drawing is None && patch.position is None && patch.y_offset is None && patch.padding_left
        is None && patch.padding_right is None && patch.width is None && patch.display is None
        && patch.background is None
}

/// What a table says of what an item runs, key by key.
pub open spec fn scripting_says(fields: Fields, patch: ScriptingPatch) -> bool {
    &&& says_text(lookup(fields, "script"@), patch.script)
    &&& says_text(lookup(fields, "click_script"@), patch.click_script)
    &&& says_whole(
        lookup(fields, "update_freq"@),
        match patch.update_freq {
            Some(n) => Some(n as int),
            None => None,
        },
    )
    &&& says_flag(lookup(fields, "updates"@), patch.updates)
}

/// A patch that says nothing of what an item runs.
pub open spec fn no_scripting(patch: ScriptingPatch) -> bool {
    patch.script is None && patch.click_script is None && patch.update_freq is None
        && patch.updates is None
}

/// What a table says of an item, key by key.
pub open spec fn item_says(fields: Fields, patch: ItemPatch) -> bool {
    &&& (match patch.geometry {
        Some(geometry) => geometry_says(fields, geometry) && !no_geometry(geometry),
        None => geometry_says(fields, GeometryPatch::nothing()),
    })
    &&& says_popup(lookup(fields, "popup"@), patch.popup)
    &&& says_run(lookup(fields, "icon"@), patch.icon)
    &&& says_run(lookup(fields, "label"@), patch.label)
    &&& (match patch.scripting {
        Some(scripting) => scripting_says(fields, scripting) && !no_scripting(scripting),
        None => scripting_says(fields, ScriptingPatch::nothing()),
    })
    &&& (match patch.alias {
        Some(alias) => lookup(fields, "alias"@) matches LuaView::Text(text) && alias@ == text.text,
        None => lookup(fields, "alias"@) is Nil || lookup(fields, "alias"@) is Table,
    })
    &&& says_members(lookup(fields, "members"@), patch.members)
    &&& says_whole(
        lookup(fields, "percentage"@),
        match patch.percentage {
            Some(n) => Some(n as int),
            None => None,
        },
    )
    &&& says_color(lookup(fields, "highlight_color"@), patch.highlight_color)
    &&& patch.associated_space is None && patch.knob is None
}

/// Whether a table of an item reads.
pub open spec fn item_fits(fields: Fields) -> bool {
    &&& fits_toggle(lookup(fields, "drawing"@))
    &&& fits_text(lookup(fields, "position"@))
    &&& fits_measure(lookup(fields, "y_offset"@))
    &&& fits_measure(lookup(fields, "padding_left"@))
    &&& fits_measure(lookup(fields, "padding_right"@))
    &&& fits_measure(lookup(fields, "width"@))
    &&& fits_display(lookup(fields, "display"@))
    &&& fits_background(lookup(fields, "background"@))
    &&& fits_popup(lookup(fields, "popup"@))
    &&& fits_run(lookup(fields, "icon"@))
    &&& fits_run(lookup(fields, "label"@))
    &&& fits_text(lookup(fields, "script"@))
    &&& fits_text(lookup(fields, "click_script"@))
    &&& fits_whole(lookup(fields, "update_freq"@), 0, 0xffff_ffff)
    &&& fits_flag(lookup(fields, "updates"@))
    &&& fits_whole(lookup(fields, "percentage"@), 0, 255)
    &&& fits_color(lookup(fields, "highlight_color"@))
    &&& lookup(fields, "alias"@) is Nil || lookup(fields, "alias"@) is Text || lookup(
        fields,
        "alias"@,
    ) is Table
    &&& members_at(fields) is Ok
}

/// A table of an item says of each property what stands under its name, and reads
/// exactly where all of them do.
#[verifier::rlimit(60)]
#[verifier::spinoff_prover]
pub proof fn law_an_item_says_what_stands_under_each_name(fields: Fields, patch: ItemPatch)
    ensures
        item_patch(fields) is Ok <==> item_fits(fields),
        item_patch(fields) == Ok::<ItemPatchView, LuaFault>(patch@) ==> item_says(fields, patch),
{
    lemma_wholes(fields, "percentage"@, 0, 255, "u8"@);
    lemma_wholes(fields, "update_freq"@, 0, 0xffff_ffff, "u32"@);
    lemma_run(fields, "icon"@, patch.icon);
    lemma_run(fields, "label"@, patch.label);
    lemma_popup(fields, patch.popup);
    lemma_background(
        fields,
        match patch.geometry {
            Some(geometry) => geometry.background,
            None => None,
        },
    );
    if members_at(fields) == Ok::<Option<Seq<SelectorView>>, LuaFault>(
        match patch.members {
            Some(members) => Some(selector_views(members@)),
            None => None,
        },
    ) {
        lemma_members_said(fields, patch.members);
    }
    lemma_leaves(fields, "highlight_color"@);
    lemma_flags(fields, "highlight_color"@);
    lemma_leaves(fields, "updates"@);
    lemma_flags(fields, "updates"@);
    lemma_leaves(fields, "width"@);
    lemma_flags(fields, "width"@);
    lemma_leaves(fields, "display"@);
    lemma_flags(fields, "display"@);
    lemma_leaves(fields, "padding_left"@);
    lemma_flags(fields, "padding_left"@);
    lemma_leaves(fields, "padding_right"@);
    lemma_flags(fields, "padding_right"@);
    lemma_leaves(fields, "y_offset"@);
    lemma_flags(fields, "y_offset"@);
    lemma_leaves(fields, "drawing"@);
    lemma_flags(fields, "drawing"@);
    lemma_leaves(fields, "script"@);
    lemma_flags(fields, "script"@);
    lemma_leaves(fields, "click_script"@);
    lemma_flags(fields, "click_script"@);
    lemma_leaves(fields, "position"@);
}

} // verus!
