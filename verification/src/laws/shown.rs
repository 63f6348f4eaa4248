//! What is shown of a state, said of the state field by field.

use crate::align::PopupAlign;
use crate::changes::{MeasureView, Modelled};
use crate::display::DisplayTarget;
use crate::event::kind_name;
use crate::flag::Boolish;
use crate::measure::Measure;
use crate::place::{position_text, Edge};
use crate::show::{
    background_fields, bar_fields, geometry_fields, item_fields, popup_fields, response_shown,
    run_fields, scalar_of, scripting_fields, ScalarView, ShownView,
};
use crate::state::{Background, BarState, Geometry, ItemState, PopupState, Run, Scripting};
use crate::request::Response;
use crate::style::{Color, FontSpec};
use crate::text::{decimal_text, padded_hex};
use vstd::prelude::*;

verus! {

/// Whether something is shown under a name.
pub open spec fn shows(fields: Seq<(Seq<char>, ShownView)>, name: Seq<char>, value: ShownView) -> bool {
    exists|k: int| 0 <= k < fields.len() && #[trigger] fields[k] == (name, value)
}

/// A colour as it is shown.
pub open spec fn a_color(color: Color) -> ShownView {
    ShownView::Text("0x"@ + padded_hex(color.0 as nat, 8))
}

/// A font as it is shown.
pub open spec fn a_font(font: FontSpec) -> ShownView {
    ShownView::Text(font.family@ + ":"@ + font.style@ + ":"@ + font.size.text@)
}

/// A flag as it is shown.
pub open spec fn a_flag(flag: Boolish) -> ShownView {
    ShownView::Text(
        if flag.0 {
            "on"@
        } else {
            "off"@
        },
    )
}

/// A number as it is shown.
pub open spec fn a_number(number: Measure) -> ShownView {
    ShownView::Number(MeasureView { bits: number.bits, text: number.text@ })
}

/// A number that may be missing, as it is shown.
pub open spec fn a_number_or_none(number: Option<Measure>) -> ShownView {
    match number {
        Some(number) => a_number(number),
        None => ShownView::Null,
    }
}

/// A text that may be missing, as it is shown.
pub open spec fn a_text_or_none(text: Option<String>) -> ShownView {
    match text {
        Some(text) => ShownView::Text(text@),
        None => ShownView::Null,
    }
}

/// The displays something is on, as they are shown.
pub open spec fn a_display(display: DisplayTarget) -> ShownView {
    match display {
        DisplayTarget::All => ShownView::Text("all"@),
        DisplayTarget::Index(n) => ShownView::Text(decimal_text(n as nat)),
    }
}

/// How a popup lines up, as it is shown.
pub open spec fn an_align(align: PopupAlign) -> ShownView {
    match align {
        PopupAlign::Left => ShownView::Text("left"@),
        PopupAlign::Center => ShownView::Text("center"@),
        PopupAlign::Right => ShownView::Text("right"@),
    }
}

/// The edge a bar is on, as it is shown.
pub open spec fn an_edge(edge: Edge) -> ShownView {
    match edge {
        Edge::Top => ShownView::Text("top"@),
        Edge::Bottom => ShownView::Text("bottom"@),
    }
}

/// A half of an item's text is shown property by property, each under its own name.
pub open spec fn run_is_shown(fields: Seq<(Seq<char>, ShownView)>, state: Run) -> bool {
    &&& fields.len() == 9
    &&& shows(fields, "text"@, ShownView::Text(state.text@))
    &&& shows(fields, "color"@, a_color(state.color))
    &&& shows(fields, "font"@, a_font(state.font))
    &&& shows(fields, "drawing"@, a_flag(state.drawing))
    &&& shows(fields, "padding_left"@, a_number(state.padding_left))
    &&& shows(fields, "padding_right"@, a_number(state.padding_right))
    &&& shows(fields, "y_offset"@, a_number(state.y_offset))
    &&& shows(fields, "highlight"@, a_flag(state.highlight))
    &&& shows(fields, "highlight_color"@, a_color(state.highlight_color))
}

/// A half of an item's text is shown property by property, each under its own name.
pub proof fn law_run_is_shown(state: Run)
    ensures
        run_is_shown(run_fields(state.model()), state),
{
    let fields = run_fields(state.model());
    assert(fields[0] == ("text"@, ShownView::Text(state.text@)));
    assert(fields[1] == ("color"@, a_color(state.color)));
    assert(fields[2] == ("font"@, a_font(state.font)));
    assert(fields[3] == ("drawing"@, a_flag(state.drawing)));
    assert(fields[4] == ("padding_left"@, a_number(state.padding_left)));
    assert(fields[5] == ("padding_right"@, a_number(state.padding_right)));
    assert(fields[6] == ("y_offset"@, a_number(state.y_offset)));
    assert(fields[7] == ("highlight"@, a_flag(state.highlight)));
    assert(fields[8] == ("highlight_color"@, a_color(state.highlight_color)));
}

/// What is behind an item is shown property by property, each under its own name.
pub open spec fn background_is_shown(fields: Seq<(Seq<char>, ShownView)>, state: Background) -> bool {
    &&& fields.len() == 8
    &&& shows(fields, "drawing"@, a_flag(state.drawing))
    &&& shows(fields, "color"@, a_color(state.color))
    &&& shows(fields, "corner_radius"@, a_number(state.corner_radius))
    &&& shows(fields, "height"@, a_number(state.height))
    &&& shows(fields, "padding_left"@, a_number(state.padding_left))
    &&& shows(fields, "padding_right"@, a_number(state.padding_right))
    &&& shows(fields, "border_color"@, a_color(state.border_color))
    &&& shows(fields, "border_width"@, a_number(state.border_width))
}

/// What is behind an item is shown property by property, each under its own name.
pub proof fn law_background_is_shown(state: Background)
    ensures
        background_is_shown(background_fields(state.model()), state),
{
    let fields = background_fields(state.model());
    assert(fields[0] == ("drawing"@, a_flag(state.drawing)));
    assert(fields[1] == ("color"@, a_color(state.color)));
    assert(fields[2] == ("corner_radius"@, a_number(state.corner_radius)));
    assert(fields[3] == ("height"@, a_number(state.height)));
    assert(fields[4] == ("padding_left"@, a_number(state.padding_left)));
    assert(fields[5] == ("padding_right"@, a_number(state.padding_right)));
    assert(fields[6] == ("border_color"@, a_color(state.border_color)));
    assert(fields[7] == ("border_width"@, a_number(state.border_width)));
}

/// Where an item is is shown property by property, each under its own name.
pub open spec fn geometry_is_shown(fields: Seq<(Seq<char>, ShownView)>, state: Geometry) -> bool {
    &&& fields.len() == 8
    &&& shows(fields, "drawing"@, a_flag(state.drawing))
    &&& shows(fields, "position"@, ShownView::Text(position_text(state.position@)))
    &&& shows(fields, "y_offset"@, a_number(state.y_offset))
    &&& shows(fields, "padding_left"@, a_number(state.padding_left))
    &&& shows(fields, "padding_right"@, a_number(state.padding_right))
    &&& shows(fields, "width"@, a_number_or_none(state.width))
    &&& shows(fields, "display"@, a_display(state.display))
    &&& exists|k: int|
        0 <= k < fields.len() && #[trigger] fields[k].0 == "background"@ && (
        fields[k].1 matches ShownView::Fields(inner) && background_is_shown(inner, state.background))
}

/// Where an item is is shown property by property, each under its own name.
pub proof fn law_geometry_is_shown(state: Geometry)
    ensures
        geometry_is_shown(geometry_fields(state.model()), state),
{
    let fields = geometry_fields(state.model());
    assert(fields[0] == ("drawing"@, a_flag(state.drawing)));
    assert(fields[1] == ("position"@, ShownView::Text(position_text(state.position@))));
    assert(fields[2] == ("y_offset"@, a_number(state.y_offset)));
    assert(fields[3] == ("padding_left"@, a_number(state.padding_left)));
    assert(fields[4] == ("padding_right"@, a_number(state.padding_right)));
    assert(fields[5] == ("width"@, a_number_or_none(state.width)));
    assert(fields[6] == ("display"@, a_display(state.display)));
    law_background_is_shown(state.background);
    assert(fields[7].0 == "background"@);
}

/// What an item runs is shown property by property, each under its own name.
pub open spec fn scripting_is_shown(fields: Seq<(Seq<char>, ShownView)>, state: Scripting) -> bool {
    &&& fields.len() == 4
    &&& shows(fields, "script"@, a_text_or_none(state.script))
    &&& shows(fields, "click_script"@, a_text_or_none(state.click_script))
    &&& shows(fields, "update_freq"@, ShownView::Whole(state.update_freq as int))
    &&& shows(fields, "updates"@, a_flag(state.updates))
}

/// What an item runs is shown property by property, each under its own name.
pub proof fn law_scripting_is_shown(state: Scripting)
    ensures
        scripting_is_shown(scripting_fields(state.model()), state),
{
    let fields = scripting_fields(state.model());
    assert(fields[0] == ("script"@, a_text_or_none(state.script)));
    assert(fields[1] == ("click_script"@, a_text_or_none(state.click_script)));
    assert(fields[2] == ("update_freq"@, ShownView::Whole(state.update_freq as int)));
    assert(fields[3] == ("updates"@, a_flag(state.updates)));
}

/// A popup is shown property by property, each under its own name.
pub open spec fn popup_is_shown(fields: Seq<(Seq<char>, ShownView)>, state: PopupState) -> bool {
    &&& fields.len() == 7
    &&& shows(fields, "drawing"@, a_flag(state.drawing))
    &&& shows(fields, "horizontal"@, a_flag(state.horizontal))
    &&& shows(fields, "align"@, an_align(state.align))
    &&& shows(fields, "topmost"@, a_flag(state.topmost))
    &&& shows(fields, "height"@, a_number(state.height))
    &&& shows(fields, "y_offset"@, a_number(state.y_offset))
    &&& exists|k: int|
        0 <= k < fields.len() && #[trigger] fields[k].0 == "background"@ && (
        fields[k].1 matches ShownView::Fields(inner) && background_is_shown(inner, state.background))
}

/// A popup is shown property by property, each under its own name.
pub proof fn law_popup_is_shown(state: PopupState)
    ensures
        popup_is_shown(popup_fields(state.model()), state),
{
    let fields = popup_fields(state.model());
    assert(fields[0] == ("drawing"@, a_flag(state.drawing)));
    assert(fields[1] == ("horizontal"@, a_flag(state.horizontal)));
    assert(fields[2] == ("align"@, an_align(state.align)));
    assert(fields[3] == ("topmost"@, a_flag(state.topmost)));
    assert(fields[4] == ("height"@, a_number(state.height)));
    assert(fields[5] == ("y_offset"@, a_number(state.y_offset)));
    law_background_is_shown(state.background);
    assert(fields[6].0 == "background"@);
}

/// A bar is shown property by property, each under its own name.
pub open spec fn bar_is_shown(fields: Seq<(Seq<char>, ShownView)>, state: BarState) -> bool {
    &&& fields.len() == 18
    &&& shows(fields, "height"@, a_number(state.height))
    &&& shows(fields, "edge"@, an_edge(state.edge))
    &&& shows(fields, "color"@, a_color(state.color))
    &&& shows(fields, "margin"@, a_number(state.margin))
    &&& shows(fields, "y_offset"@, a_number(state.y_offset))
    &&& shows(fields, "corner_radius"@, a_number(state.corner_radius))
    &&& shows(fields, "blur_radius"@, ShownView::Whole(state.blur_radius as int))
    &&& shows(fields, "topmost"@, a_flag(state.topmost))
    &&& shows(fields, "hidden"@, a_flag(state.hidden))
    &&& shows(fields, "displays"@, ShownView::Whole(state.displays as int))
    &&& shows(fields, "padding_left"@, a_number(state.padding_left))
    &&& shows(fields, "padding_right"@, a_number(state.padding_right))
    &&& shows(fields, "display"@, a_display(state.display))
    &&& shows(fields, "sticky"@, a_flag(state.sticky))
    &&& shows(fields, "show_in_fullscreen"@, a_flag(state.show_in_fullscreen))
    &&& shows(fields, "notch_width"@, a_number(state.notch_width))
    &&& shows(fields, "notch_offset"@, a_number(state.notch_offset))
    &&& shows(fields, "notch_display_height"@, a_number(state.notch_display_height))
}

/// A bar is shown property by property, each under its own name.
pub proof fn law_bar_is_shown(state: BarState)
    ensures
        bar_is_shown(bar_fields(state.model()), state),
{
    let fields = bar_fields(state.model());
    assert(fields[0] == ("height"@, a_number(state.height)));
    assert(fields[1] == ("edge"@, an_edge(state.edge)));
    assert(fields[2] == ("color"@, a_color(state.color)));
    assert(fields[3] == ("margin"@, a_number(state.margin)));
    assert(fields[4] == ("y_offset"@, a_number(state.y_offset)));
    assert(fields[5] == ("corner_radius"@, a_number(state.corner_radius)));
    assert(fields[6] == ("blur_radius"@, ShownView::Whole(state.blur_radius as int)));
    assert(fields[7] == ("topmost"@, a_flag(state.topmost)));
    assert(fields[8] == ("hidden"@, a_flag(state.hidden)));
    assert(fields[9] == ("displays"@, ShownView::Whole(state.displays as int)));
    assert(fields[10] == ("padding_left"@, a_number(state.padding_left)));
    assert(fields[11] == ("padding_right"@, a_number(state.padding_right)));
    assert(fields[12] == ("display"@, a_display(state.display)));
    assert(fields[13] == ("sticky"@, a_flag(state.sticky)));
    assert(fields[14] == ("show_in_fullscreen"@, a_flag(state.show_in_fullscreen)));
    assert(fields[15] == ("notch_width"@, a_number(state.notch_width)));
    assert(fields[16] == ("notch_offset"@, a_number(state.notch_offset)));
    assert(fields[17] == ("notch_display_height"@, a_number(state.notch_display_height)));
}

/// An item is shown part by part, each under its own name: its halves, its popup,
/// where it is and what it runs, its members in order, and the events it is told of
/// by name and in order.
pub proof fn law_item_is_shown(state: ItemState)
    ensures
        ({
            let fields = item_fields(state.model());
            &&& fields.len() == 9
            &&& fields[0] == ("name"@, ShownView::Text(state.name@))
            &&& fields[1].0 == "geometry"@ && (fields[1].1 matches ShownView::Fields(inner)
                && geometry_is_shown(inner, state.geometry))
            &&& fields[2].0 == "popup"@ && (fields[2].1 matches ShownView::Fields(inner)
                && popup_is_shown(inner, state.popup))
            &&& fields[3].0 == "icon"@ && (fields[3].1 matches ShownView::Fields(inner)
                && run_is_shown(inner, state.icon))
            &&& fields[4].0 == "label"@ && (fields[4].1 matches ShownView::Fields(inner)
                && run_is_shown(inner, state.label))
            &&& fields[5].0 == "scripting"@ && (fields[5].1 matches ShownView::Fields(inner)
                && scripting_is_shown(inner, state.scripting))
            &&& fields[6].0 == "alias"@ && match state.alias {
                Some(alias) => fields[6].1 == ShownView::Text(alias@),
                None => fields[6].1 is Nil,
            }
            &&& fields[7].0 == "members"@ && (fields[7].1 matches ShownView::List(members)
                && members.len() == state.members@.len() && forall|i: int|
                0 <= i < members.len() ==> #[trigger] members[i] == ShownView::Text(
                    state.members@[i]@,
                ))
            &&& fields[8].0 == "events"@ && (fields[8].1 matches ShownView::List(events)
                && events.len() == state.events@.len() && forall|i: int|
                0 <= i < events.len() ==> #[trigger] events[i] == ShownView::Text(
                    kind_name(state.events@[i]@),
                ))
        }),
{
    law_geometry_is_shown(state.geometry);
    law_popup_is_shown(state.popup);
    law_run_is_shown(state.icon);
    law_run_is_shown(state.label);
    law_scripting_is_shown(state.scripting);
}

/// What answers a question is shown as the bar it is of, as the item, or as the list
/// of items in order. No other answer is shown as a table.
pub proof fn law_answers_are_shown(response: Response)
    ensures
        match response {
            Response::Bar(state) => response_shown(response) == Some(
                ShownView::Fields(bar_fields((*state).model())),
            ),
            Response::Item(state) => response_shown(response) == Some(
                ShownView::Fields(item_fields((*state).model())),
            ),
            Response::Items(states) => response_shown(response) matches Some(ShownView::List(items))
                && items.len() == states@.len() && forall|i: int|
                0 <= i < items.len() ==> #[trigger] items[i] == ShownView::Fields(
                    item_fields(states@[i].model()),
                ),
            _ => response_shown(response) is None,
        },
{
}

/// A field that spells a whole number is handed over as that number, and any other
/// as the text it is.
pub proof fn law_numbers_are_handed_over_as_numbers(text: Seq<char>, n: nat)
    ensures
        n <= 0x7fff_ffff_ffff_ffff ==> scalar_of(decimal_text(n)) == ScalarView::Whole(n as int),
        n <= 0x8000_0000_0000_0000 ==> scalar_of("-"@ + decimal_text(n)) == ScalarView::Whole(
            -(n as int),
        ),
        scalar_of(text) matches ScalarView::Text(t) ==> t == text,
        (exists|i: int|
            0 <= i < text.len() && #[trigger] text[i] != '-' && text[i] != '+' && !('0' <= text[i]
                && text[i] <= '9')) ==> scalar_of(text) == ScalarView::Text(text),
        text.len() == 0 ==> scalar_of(text) == ScalarView::Text(text),
{
    reveal_strlit("-");
    crate::text::lemma_number_text_is_digits(n, 10);
    if n <= 0x7fff_ffff_ffff_ffff {
        crate::text::lemma_number_round_trip(n, 10, 9223372036854775807);
        assert(decimal_text(n)[0] != '-');
    }
    if n <= 0x8000_0000_0000_0000 {
        crate::text::lemma_number_round_trip(n, 10, 9223372036854775808);
        let below = "-"@ + decimal_text(n);
        assert(below.skip(1) =~= decimal_text(n));
        assert(decimal_text(n)[0] != '+');
    }
    if exists|i: int|
        0 <= i < text.len() && #[trigger] text[i] != '-' && text[i] != '+' && !('0' <= text[i]
            && text[i] <= '9') {
        let i = choose|i: int|
            0 <= i < text.len() && #[trigger] text[i] != '-' && text[i] != '+' && !('0' <= text[i]
                && text[i] <= '9');
        if text[0] == '-' {
            let rest = text.skip(1);
            assert(rest[i - 1] == text[i]);
            assert(!crate::text::all_digits(rest, 10));
        } else if text[0] == '+' {
            let rest = text.skip(1);
            assert(rest[i - 1] == text[i]);
            assert(!crate::text::all_digits(rest, 10));
        } else {
            assert(!crate::text::all_digits(text, 10));
        }
    }
}

} // verus!
