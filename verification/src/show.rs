//! What a script is shown: a state it queried, or an event it subscribed to.

use crate::align::align_text;
use crate::assoc::mapped;
use crate::changes::{MeasureView, Modelled};
use crate::display::display_text;
use crate::error::ApiError;
use crate::event::{event_fields, event_kind, kind_name, Event, KindView};
use crate::flag::on_off;
use crate::lua::LuaError;
use crate::measure::Measure;
use crate::name::ItemName;
use crate::place::{edge_text, position_text};
use crate::request::Response;
use crate::state::{
    Background, BackgroundModel, BarState, BarStateModel, Geometry, GeometryModel, ItemState,
    ItemStateModel, PopupState, PopupStateModel, Run, RunModel, Scripting, ScriptingModel,
};
use crate::style::{color_wire, font_text};
use crate::text::{joined, number_read, read_number};
use crate::vars::in_order;
use vstd::prelude::*;

verus! {

/// A value as a script is shown it.
#[derive(Debug, PartialEq)]
pub enum Shown {
    /// No value at all.
    Nil,
    /// A value that is there and says nothing.
    Null,
    Text(String),
    Number(Measure),
    Whole(i64),
    Count(u64),
    Fields(Vec<(&'static str, Shown)>),
    List(Vec<Shown>),
}

/// [`Shown`] over plain text.
pub enum ShownView {
    Nil,
    Null,
    Text(Seq<char>),
    Number(MeasureView),
    Whole(int),
    Fields(Seq<(Seq<char>, ShownView)>),
    List(Seq<ShownView>),
}

/// A value over plain text.
pub open spec fn shown_view(value: Shown) -> ShownView
    decreases value,
{
    match value {
        Shown::Nil => ShownView::Nil,
        Shown::Null => ShownView::Null,
        Shown::Text(text) => ShownView::Text(text@),
        Shown::Number(measure) => ShownView::Number(measure.model()),
        Shown::Whole(n) => ShownView::Whole(n as int),
        Shown::Count(n) => ShownView::Whole(n as int),
        Shown::Fields(fields) => ShownView::Fields(shown_fields(fields@)),
        Shown::List(items) => ShownView::List(shown_items(items@)),
    }
}

/// Fields over plain text.
pub open spec fn shown_fields(fields: Seq<(&'static str, Shown)>) -> Seq<(Seq<char>, ShownView)>
    decreases fields,
{
    if fields.len() == 0 {
        Seq::empty()
    } else {
        shown_fields(fields.drop_last()).push((fields.last().0@, shown_view(fields.last().1)))
    }
}

/// Items over plain text.
pub open spec fn shown_items(items: Seq<Shown>) -> Seq<ShownView>
    decreases items,
{
    if items.len() == 0 {
        Seq::empty()
    } else {
        shown_items(items.drop_last()).push(shown_view(items.last()))
    }
}

impl View for Shown {
    type V = ShownView;

    open spec fn view(&self) -> ShownView {
        shown_view(*self)
    }
}

/// One more field.
fn with(fields: &mut Vec<(&'static str, Shown)>, name: &'static str, value: Shown)
    ensures
        shown_fields(final(fields)@) == shown_fields(old(fields)@).push((name@, value@)),
{
    fields.push((name, value));
    assert(fields@.drop_last() =~= old(fields)@);
}

/// One more text.
fn with_text(items: &mut Vec<Shown>, text: String)
    ensures
        shown_items(final(items)@) == shown_items(old(items)@).push(ShownView::Text(text@)),
{
    let value = Shown::Text(text);
    assert(value@ == ShownView::Text(text@));
    items.push(value);
    assert(items@.drop_last() =~= old(items)@);
}

/// A flag, as `--query` spells one: never a boolean.
pub open spec fn flag_shown(flag: crate::flag::Boolish) -> ShownView {
    ShownView::Text(crate::flag::bool_text(flag.0))
}

/// What may be said, or is there and says nothing.
pub open spec fn text_shown(text: Option<Seq<char>>) -> ShownView {
    match text {
        Some(text) => ShownView::Text(text),
        None => ShownView::Null,
    }
}

/// What may be measured, or is there and says nothing.
pub open spec fn measure_shown(measure: Option<MeasureView>) -> ShownView {
    match measure {
        Some(measure) => ShownView::Number(measure),
        None => ShownView::Null,
    }
}

/// What may be said.
fn show_text(text: &Option<String>) -> (r: Shown)
    ensures
        r@ == text_shown(text.model()),
{
    match text {
        Some(text) => Shown::Text(text.clone()),
        None => Shown::Null,
    }
}

/// What may be measured.
fn show_measure(measure: &Option<Measure>) -> (r: Shown)
    ensures
        r@ == measure_shown(measure.model()),
{
    match measure {
        Some(measure) => Shown::Number(measure.copied()),
        None => Shown::Null,
    }
}

/// One half of an item's text, field by field.
pub open spec fn run_fields(model: RunModel) -> Seq<(Seq<char>, ShownView)> {
    seq![
        ("text"@, ShownView::Text(model.text)),
        ("color"@, ShownView::Text(color_wire(model.color))),
        ("font"@, ShownView::Text(font_text(model.font))),
        ("drawing"@, flag_shown(model.drawing)),
        ("padding_left"@, ShownView::Number(model.padding_left)),
        ("padding_right"@, ShownView::Number(model.padding_right)),
        ("y_offset"@, ShownView::Number(model.y_offset)),
        ("highlight"@, flag_shown(model.highlight)),
        ("highlight_color"@, ShownView::Text(color_wire(model.highlight_color))),
    ]
}

/// One half of an item's text, field by field.
fn show_run(state: &Run) -> (r: Vec<(&'static str, Shown)>)
    ensures
        shown_fields(r@) == run_fields(state.model()),
{
    let mut out: Vec<(&'static str, Shown)> = Vec::new();
    with(&mut out, "text", Shown::Text(state.text.clone()));
    with(&mut out, "color", Shown::Text(state.color.to_wire()));
    with(&mut out, "font", Shown::Text(state.font.to_string()));
    with(&mut out, "drawing", Shown::Text(on_off(state.drawing.get()).to_owned()));
    with(&mut out, "padding_left", Shown::Number(state.padding_left.copied()));
    with(&mut out, "padding_right", Shown::Number(state.padding_right.copied()));
    with(&mut out, "y_offset", Shown::Number(state.y_offset.copied()));
    with(&mut out, "highlight", Shown::Text(on_off(state.highlight.get()).to_owned()));
    with(&mut out, "highlight_color", Shown::Text(state.highlight_color.to_wire()));
    proof {
        assert(shown_fields(out@) =~= run_fields(state.model()));
    }
    out
}

/// The surface behind an item, field by field.
pub open spec fn background_fields(model: BackgroundModel) -> Seq<(Seq<char>, ShownView)> {
    seq![
        ("drawing"@, flag_shown(model.drawing)),
        ("color"@, ShownView::Text(color_wire(model.color))),
        ("corner_radius"@, ShownView::Number(model.corner_radius)),
        ("height"@, ShownView::Number(model.height)),
        ("padding_left"@, ShownView::Number(model.padding_left)),
        ("padding_right"@, ShownView::Number(model.padding_right)),
        ("border_color"@, ShownView::Text(color_wire(model.border_color))),
        ("border_width"@, ShownView::Number(model.border_width)),
    ]
}

/// The surface behind an item, field by field.
fn show_background(state: &Background) -> (r: Vec<(&'static str, Shown)>)
    ensures
        shown_fields(r@) == background_fields(state.model()),
{
    let mut out: Vec<(&'static str, Shown)> = Vec::new();
    with(&mut out, "drawing", Shown::Text(on_off(state.drawing.get()).to_owned()));
    with(&mut out, "color", Shown::Text(state.color.to_wire()));
    with(&mut out, "corner_radius", Shown::Number(state.corner_radius.copied()));
    with(&mut out, "height", Shown::Number(state.height.copied()));
    with(&mut out, "padding_left", Shown::Number(state.padding_left.copied()));
    with(&mut out, "padding_right", Shown::Number(state.padding_right.copied()));
    with(&mut out, "border_color", Shown::Text(state.border_color.to_wire()));
    with(&mut out, "border_width", Shown::Number(state.border_width.copied()));
    proof {
        assert(shown_fields(out@) =~= background_fields(state.model()));
    }
    out
}

/// The bar, field by field.
pub open spec fn bar_fields(model: BarStateModel) -> Seq<(Seq<char>, ShownView)> {
    seq![
        ("height"@, ShownView::Number(model.height)),
        ("edge"@, ShownView::Text(edge_text(model.edge))),
        ("color"@, ShownView::Text(color_wire(model.color))),
        ("margin"@, ShownView::Number(model.margin)),
        ("y_offset"@, ShownView::Number(model.y_offset)),
        ("corner_radius"@, ShownView::Number(model.corner_radius)),
        ("blur_radius"@, ShownView::Whole(model.blur_radius as int)),
        ("topmost"@, flag_shown(model.topmost)),
        ("hidden"@, flag_shown(model.hidden)),
        ("displays"@, ShownView::Whole(model.displays as int)),
        ("padding_left"@, ShownView::Number(model.padding_left)),
        ("padding_right"@, ShownView::Number(model.padding_right)),
        ("display"@, ShownView::Text(display_text(model.display))),
        ("sticky"@, flag_shown(model.sticky)),
        ("show_in_fullscreen"@, flag_shown(model.show_in_fullscreen)),
        ("notch_width"@, ShownView::Number(model.notch_width)),
        ("notch_offset"@, ShownView::Number(model.notch_offset)),
        ("notch_display_height"@, ShownView::Number(model.notch_display_height)),
    ]
}

/// The bar, field by field.
fn show_bar(state: &BarState) -> (r: Vec<(&'static str, Shown)>)
    ensures
        shown_fields(r@) == bar_fields(state.model()),
{
    let mut out: Vec<(&'static str, Shown)> = Vec::new();
    with(&mut out, "height", Shown::Number(state.height.copied()));
    with(&mut out, "edge", Shown::Text(state.edge.to_string()));
    with(&mut out, "color", Shown::Text(state.color.to_wire()));
    with(&mut out, "margin", Shown::Number(state.margin.copied()));
    with(&mut out, "y_offset", Shown::Number(state.y_offset.copied()));
    with(&mut out, "corner_radius", Shown::Number(state.corner_radius.copied()));
    with(&mut out, "blur_radius", Shown::Whole(state.blur_radius as i64));
    with(&mut out, "topmost", Shown::Text(on_off(state.topmost.get()).to_owned()));
    with(&mut out, "hidden", Shown::Text(on_off(state.hidden.get()).to_owned()));
    with(&mut out, "displays", Shown::Count(state.displays as u64));
    with(&mut out, "padding_left", Shown::Number(state.padding_left.copied()));
    with(&mut out, "padding_right", Shown::Number(state.padding_right.copied()));
    with(&mut out, "display", Shown::Text(state.display.to_string()));
    with(&mut out, "sticky", Shown::Text(on_off(state.sticky.get()).to_owned()));
    with(&mut out, "show_in_fullscreen", Shown::Text(on_off(state.show_in_fullscreen.get()).to_owned()));
    with(&mut out, "notch_width", Shown::Number(state.notch_width.copied()));
    with(&mut out, "notch_offset", Shown::Number(state.notch_offset.copied()));
    with(&mut out, "notch_display_height", Shown::Number(state.notch_display_height.copied()));
    proof {
        assert(shown_fields(out@) =~= bar_fields(state.model()));
    }
    out
}

/// An item's place on the screen, field by field.
pub open spec fn geometry_fields(model: GeometryModel) -> Seq<(Seq<char>, ShownView)> {
    seq![
        ("drawing"@, flag_shown(model.drawing)),
        ("position"@, ShownView::Text(position_text(model.position))),
        ("y_offset"@, ShownView::Number(model.y_offset)),
        ("padding_left"@, ShownView::Number(model.padding_left)),
        ("padding_right"@, ShownView::Number(model.padding_right)),
        ("width"@, measure_shown(model.width)),
        ("display"@, ShownView::Text(display_text(model.display))),
        ("background"@, ShownView::Fields(background_fields(model.background))),
    ]
}

/// An item's place on the screen, field by field.
fn show_geometry(state: &Geometry) -> (r: Vec<(&'static str, Shown)>)
    ensures
        shown_fields(r@) == geometry_fields(state.model()),
{
    let mut out: Vec<(&'static str, Shown)> = Vec::new();
    with(&mut out, "drawing", Shown::Text(on_off(state.drawing.get()).to_owned()));
    with(&mut out, "position", Shown::Text(state.position.to_string()));
    with(&mut out, "y_offset", Shown::Number(state.y_offset.copied()));
    with(&mut out, "padding_left", Shown::Number(state.padding_left.copied()));
    with(&mut out, "padding_right", Shown::Number(state.padding_right.copied()));
    with(&mut out, "width", show_measure(&state.width));
    with(&mut out, "display", Shown::Text(state.display.to_string()));
    with(&mut out, "background", Shown::Fields(show_background(&state.background)));
    proof {
        assert(shown_fields(out@) =~= geometry_fields(state.model()));
    }
    out
}

/// An item's scripting, field by field.
pub open spec fn scripting_fields(model: ScriptingModel) -> Seq<(Seq<char>, ShownView)> {
    seq![
        ("script"@, text_shown(model.script)),
        ("click_script"@, text_shown(model.click_script)),
        ("update_freq"@, ShownView::Whole(model.update_freq as int)),
        ("updates"@, flag_shown(model.updates)),
    ]
}

/// An item's scripting, field by field.
fn show_scripting(state: &Scripting) -> (r: Vec<(&'static str, Shown)>)
    ensures
        shown_fields(r@) == scripting_fields(state.model()),
{
    let mut out: Vec<(&'static str, Shown)> = Vec::new();
    with(&mut out, "script", show_text(&state.script));
    with(&mut out, "click_script", show_text(&state.click_script));
    with(&mut out, "update_freq", Shown::Count(state.update_freq as u64));
    with(&mut out, "updates", Shown::Text(on_off(state.updates.get()).to_owned()));
    proof {
        assert(shown_fields(out@) =~= scripting_fields(state.model()));
    }
    out
}

/// An item's popup, field by field.
pub open spec fn popup_fields(model: PopupStateModel) -> Seq<(Seq<char>, ShownView)> {
    seq![
        ("drawing"@, flag_shown(model.drawing)),
        ("horizontal"@, flag_shown(model.horizontal)),
        ("align"@, ShownView::Text(align_text(model.align))),
        ("topmost"@, flag_shown(model.topmost)),
        ("height"@, ShownView::Number(model.height)),
        ("y_offset"@, ShownView::Number(model.y_offset)),
        ("background"@, ShownView::Fields(background_fields(model.background))),
    ]
}

/// An item's popup, field by field.
fn show_popup(state: &PopupState) -> (r: Vec<(&'static str, Shown)>)
    ensures
        shown_fields(r@) == popup_fields(state.model()),
{
    let mut out: Vec<(&'static str, Shown)> = Vec::new();
    with(&mut out, "drawing", Shown::Text(on_off(state.drawing.get()).to_owned()));
    with(&mut out, "horizontal", Shown::Text(on_off(state.horizontal.get()).to_owned()));
    with(&mut out, "align", Shown::Text(state.align.to_string()));
    with(&mut out, "topmost", Shown::Text(on_off(state.topmost.get()).to_owned()));
    with(&mut out, "height", Shown::Number(state.height.copied()));
    with(&mut out, "y_offset", Shown::Number(state.y_offset.copied()));
    with(&mut out, "background", Shown::Fields(show_background(&state.background)));
    proof {
        assert(shown_fields(out@) =~= popup_fields(state.model()));
    }
    out
}

/// Texts, one by one.
pub open spec fn texts_shown(texts: Seq<Seq<char>>) -> Seq<ShownView> {
    texts.map_values(|text: Seq<char>| ShownView::Text(text))
}

/// The names of some kinds.
pub open spec fn kind_names(kinds: Seq<KindView<()>>) -> Seq<Seq<char>> {
    kinds.map_values(|kind: KindView<()>| kind_name(kind))
}

/// An item, field by field, nested the way a query nests it. The popup is
/// always there, so that asking after one an item does not have is no error.
pub open spec fn item_fields(model: ItemStateModel) -> Seq<(Seq<char>, ShownView)> {
    seq![
        ("name"@, ShownView::Text(model.name)),
        ("geometry"@, ShownView::Fields(geometry_fields(model.geometry))),
        ("popup"@, ShownView::Fields(popup_fields(model.popup))),
        ("icon"@, ShownView::Fields(run_fields(model.icon))),
        ("label"@, ShownView::Fields(run_fields(model.label))),
        ("scripting"@, ShownView::Fields(scripting_fields(model.scripting))),
        (
            "alias"@,
            match model.alias {
                Some(alias) => ShownView::Text(alias),
                None => ShownView::Nil,
            },
        ),
        ("members"@, ShownView::List(texts_shown(model.members))),
        ("events"@, ShownView::List(texts_shown(kind_names(model.events)))),
    ]
}

/// Names, one by one.
fn show_members(members: &Vec<ItemName>) -> (r: Vec<Shown>)
    ensures
        shown_items(r@) == texts_shown(members.model()),
{
    let ghost all = texts_shown(members.model());
    let mut out: Vec<Shown> = Vec::new();
    let mut i: usize = 0;
    proof {
        assert(all.take(0) =~= Seq::<ShownView>::empty());
    }
    while i < members.len()
        invariant
            i <= members@.len(),
            all == texts_shown(members.model()),
            all.len() == members@.len(),
            shown_items(out@) == all.take(i as int),
        decreases members@.len() - i,
    {
        with_text(&mut out, members[i].to_string());
        proof {
            assert(members.model()[i as int] == members@[i as int]@);
            assert(all[i as int] == ShownView::Text(members@[i as int]@));
            assert(all.take(i + 1) =~= all.take(i as int).push(all[i as int]));
        }
        i = i + 1;
    }
    proof {
        assert(all.take(all.len() as int) =~= all);
    }
    out
}

/// The names of kinds, one by one.
fn show_events(events: &Vec<crate::event::Kind<()>>) -> (r: Vec<Shown>)
    ensures
        shown_items(r@) == texts_shown(kind_names(events.model())),
{
    let ghost all = texts_shown(kind_names(events.model()));
    let mut out: Vec<Shown> = Vec::new();
    let mut i: usize = 0;
    proof {
        assert(all.take(0) =~= Seq::<ShownView>::empty());
    }
    while i < events.len()
        invariant
            i <= events@.len(),
            all == texts_shown(kind_names(events.model())),
            all.len() == events@.len(),
            shown_items(out@) == all.take(i as int),
        decreases events@.len() - i,
    {
        with_text(&mut out, events[i].name().to_owned());
        proof {
            assert(events.model()[i as int] == events@[i as int]@);
            assert(all[i as int] == ShownView::Text(kind_name(events@[i as int]@)));
            assert(all.take(i + 1) =~= all.take(i as int).push(all[i as int]));
        }
        i = i + 1;
    }
    proof {
        assert(all.take(all.len() as int) =~= all);
    }
    out
}

/// An item, as a script is shown it.
pub fn item_state_to_table(state: &ItemState) -> (r: Shown)
    ensures
        r@ == ShownView::Fields(item_fields(state.model())),
{
    let mut out: Vec<(&'static str, Shown)> = Vec::new();
    with(&mut out, "name", Shown::Text(state.name.to_string()));
    with(&mut out, "geometry", Shown::Fields(show_geometry(&state.geometry)));
    with(&mut out, "popup", Shown::Fields(show_popup(&state.popup)));
    with(&mut out, "icon", Shown::Fields(show_run(&state.icon)));
    with(&mut out, "label", Shown::Fields(show_run(&state.label)));
    with(&mut out, "scripting", Shown::Fields(show_scripting(&state.scripting)));
    let alias = match &state.alias {
        Some(alias) => Shown::Text(alias.clone()),
        None => Shown::Nil,
    };
    with(&mut out, "alias", alias);
    with(&mut out, "members", Shown::List(show_members(&state.members)));
    with(&mut out, "events", Shown::List(show_events(&state.events)));
    proof {
        assert(shown_fields(out@) =~= item_fields(state.model()));
    }
    Shown::Fields(out)
}

/// The bar, as a script is shown it.
pub fn bar_state_to_table(state: &BarState) -> (r: Shown)
    ensures
        r@ == ShownView::Fields(bar_fields(state.model())),
{
    Shown::Fields(show_bar(state))
}

/// Items, one by one.
pub open spec fn items_shown(states: Seq<ItemState>) -> Seq<ShownView> {
    states.map_values(|state: ItemState| ShownView::Fields(item_fields(state.model())))
}

/// What a script is shown of a reply to a query, where it is one.
pub open spec fn response_shown(response: Response) -> Option<ShownView> {
    match response {
        Response::Bar(state) => Some(ShownView::Fields(bar_fields((*state).model()))),
        Response::Item(state) => Some(ShownView::Fields(item_fields((*state).model()))),
        Response::Items(states) => Some(ShownView::List(items_shown(states@))),
        _ => None,
    }
}

/// What a script is shown of a reply to a query, given how it prints.
pub fn response_to_table(reply: &Result<Response, ApiError>, printed: &str) -> (r: Result<
    Shown,
    LuaError,
>)
    ensures
        match *reply {
            Err(e) => r matches Err(fault) && fault@ == crate::error::lua_fault(e@),
            Ok(response) => match response_shown(response) {
                Some(shown) => r matches Ok(table) && table@ == shown,
                None => r matches Err(fault) && fault@ == crate::api::unexpected_fault(printed@),
            },
        },
{
    match reply {
        Err(e) => Err(e.to_lua()),
        Ok(response) => match response {
            Response::Bar(state) => Ok(bar_state_to_table(state)),
            Response::Item(state) => Ok(item_state_to_table(state)),
            Response::Items(states) => {
                let ghost all = items_shown(states@);
                let mut out: Vec<Shown> = Vec::new();
                let mut i: usize = 0;
                proof {
                    assert(all.take(0) =~= Seq::<ShownView>::empty());
                }
                while i < states.len()
                    invariant
                        i <= states@.len(),
                        all == items_shown(states@),
                        all.len() == states@.len(),
                        shown_items(out@) == all.take(i as int),
                    decreases states@.len() - i,
                {
                    let ghost before = out@;
                    out.push(item_state_to_table(&states[i]));
                    proof {
                        assert(out@.drop_last() =~= before);
                        assert(shown_items(out@) =~= all.take(i + 1));
                    }
                    i = i + 1;
                }
                proof {
                    assert(all.take(all.len() as int) =~= all);
                }
                Ok(Shown::List(out))
            },
            _ => Err(LuaError::Message(joined("rsbar: unexpected reply ", printed))),
        },
    }
}

// ---------------------------------------------------------------------------
// Events

/// The signed integer a text reads as: an optional sign, then digits.
pub open spec fn signed_read(text: Seq<char>) -> Option<int> {
    if text.len() > 0 && text[0] == '-' {
        let rest = text.skip(1);
        if rest.len() > 0 && rest[0] == '+' {
            None
        } else {
            match number_read(rest, 10, 9223372036854775808) {
                Some(n) => Some(-(n as int)),
                None => None,
            }
        }
    } else {
        match number_read(text, 10, 9223372036854775807) {
            Some(n) => Some(n as int),
            None => None,
        }
    }
}

/// Reads a signed integer.
pub fn read_signed(text: &str) -> (r: Option<i64>)
    ensures
        match r {
            Some(n) => signed_read(text@) == Some(n as int),
            None => signed_read(text@) is None,
        },
{
    proof {
        lemma_minus(text@);
    }
    match crate::text::strip_prefix(text, "-") {
        Some(rest) => {
            proof {
                lemma_plus(rest@);
            }
            match crate::text::strip_prefix(rest, "+") {
                Some(_) => None,
                None => match read_number(rest, 10, 9223372036854775808) {
                    Some(n) => if n == 9223372036854775808 {
                        Some(i64::MIN)
                    } else {
                        Some(-(n as i64))
                    },
                    None => None,
                },
            }
        },
        None => match read_number(text, 10, 9223372036854775807) {
            Some(n) => Some(n as i64),
            None => None,
        },
    }
}

/// A text starts with a minus exactly where that is its first character.
proof fn lemma_minus(text: Seq<char>)
    ensures
        crate::text::starts_with(text, "-"@) <==> (text.len() > 0 && text[0] == '-'),
        "-"@.len() == 1,
{
    reveal_strlit("-");
    if text.len() >= 1 {
        assert(text.take(1) =~= seq![text[0]]);
        assert("-"@ =~= seq!['-']);
        assert(seq![text[0]][0] == text[0]);
    }
}

/// A text starts with a plus exactly where that is its first character.
proof fn lemma_plus(text: Seq<char>)
    ensures
        crate::text::starts_with(text, "+"@) <==> (text.len() > 0 && text[0] == '+'),
{
    reveal_strlit("+");
    if text.len() >= 1 {
        assert(text.take(1) =~= seq![text[0]]);
        assert("+"@ =~= seq!['+']);
        assert(seq![text[0]][0] == text[0]);
    }
}

/// A field's value as a script should see it.
#[derive(Debug, Clone, PartialEq, Eq)]
pub enum Scalar {
    Whole(i64),
    /// A number where it reads as one, and else itself.
    Text(String),
}

/// [`Scalar`] over plain text.
pub enum ScalarView {
    Whole(int),
    Text(Seq<char>),
}

impl View for Scalar {
    type V = ScalarView;

    open spec fn view(&self) -> ScalarView {
        match self {
            Scalar::Whole(n) => ScalarView::Whole(*n as int),
            Scalar::Text(text) => ScalarView::Text(text@),
        }
    }
}

/// A field's value as a script should see it: integers stay integers.
pub open spec fn scalar_of(text: Seq<char>) -> ScalarView {
    match signed_read(text) {
        Some(n) => ScalarView::Whole(n),
        None => ScalarView::Text(text),
    }
}

/// A field's value as a script should see it.
pub fn scalar(text: &str) -> (r: Scalar)
    ensures
        r@ == scalar_of(text@),
{
    match read_signed(text) {
        Some(n) => Scalar::Whole(n),
        None => Scalar::Text(text.to_owned()),
    }
}

/// What a subscribed callback is handed. A field of the event replaces the
/// item or the event where it goes by that name.
#[derive(Debug, Clone, PartialEq, Eq)]
pub struct EventTable {
    pub item: String,
    pub event: String,
    pub fields: Vec<(String, Scalar)>,
}

/// Fields over plain text.
pub open spec fn scalar_fields(fields: Seq<(String, Scalar)>) -> Seq<(Seq<char>, ScalarView)> {
    fields.map_values(|f: (String, Scalar)| (f.0@, f.1@))
}

/// Reading every value reads every value of the map.
proof fn lemma_scalars(entries: Seq<(Seq<char>, Seq<char>)>, fields: Seq<(Seq<char>, ScalarView)>)
    requires
        fields.len() == entries.len(),
        forall|i: int|
            0 <= i < entries.len() ==> #[trigger] fields[i] == (entries[i].0, scalar_of(
                entries[i].1,
            )),
    ensures
        mapped(fields) == mapped(entries).map_values(|text: Seq<char>| scalar_of(text)),
    decreases entries.len(),
{
    let f = |text: Seq<char>| scalar_of(text);
    if entries.len() > 0 {
        assert forall|i: int| 0 <= i < entries.drop_last().len() implies #[trigger]
            fields.drop_last()[i] == (entries.drop_last()[i].0, scalar_of(
            entries.drop_last()[i].1,
        )) by {
            assert(fields[i] == (entries[i].0, scalar_of(entries[i].1)));
        }
        lemma_scalars(entries.drop_last(), fields.drop_last());
        assert(fields[entries.len() - 1] == (entries.last().0, scalar_of(entries.last().1)));
        assert(mapped(fields) =~= mapped(entries).map_values(f));
    } else {
        assert(mapped(fields) =~= mapped(entries).map_values(f));
    }
}

/// What a subscribed callback is handed: whose event it is, which it is, and
/// every field it carries, in the order of their names.
pub fn event_to_table(item: &ItemName, event: &Event) -> (r: EventTable)
    ensures
        r.item@ == item@,
        r.event@ == kind_name(event_kind(*event)),
        in_order(scalar_fields(r.fields@)),
        mapped(scalar_fields(r.fields@)) == event_fields(*event).map_values(
            |text: Seq<char>| scalar_of(text),
        ),
{
    let vars = event.fields();
    let mut fields: Vec<(String, Scalar)> = Vec::new();
    let mut i: usize = 0;
    let len = vars.len();
    while i < len
        invariant
            i <= len,
            len == vars.entries().len(),
            fields@.len() == i,
            forall|j: int|
                0 <= j < i ==> #[trigger] scalar_fields(fields@)[j] == (
                    vars.entries()[j].0,
                    scalar_of(vars.entries()[j].1),
                ),
        decreases len - i,
    {
        let ghost before = fields@;
        fields.push((vars.name_at(i).to_owned(), scalar(vars.value_at(i))));
        proof {
            assert forall|j: int| 0 <= j < i + 1 implies #[trigger] scalar_fields(fields@)[j] == (
                vars.entries()[j].0,
                scalar_of(vars.entries()[j].1),
            ) by {
                if j < i {
                    assert(scalar_fields(before)[j] == (
                        vars.entries()[j].0,
                        scalar_of(vars.entries()[j].1),
                    ));
                    assert(fields@[j] == before[j]);
                }
            }
        }
        i = i + 1;
    }
    proof {
        let shown = scalar_fields(fields@);
        assert forall|a: int, b: int| 0 <= a < b < shown.len() implies crate::vars::before(
            #[trigger] shown[a].0,
            #[trigger] shown[b].0,
        ) by {
            assert(scalar_fields(fields@)[a].0 == vars.entries()[a].0);
            assert(scalar_fields(fields@)[b].0 == vars.entries()[b].0);
        }
        lemma_scalars(vars.entries(), shown);
    }
    EventTable {
        item: item.to_string(),
        event: event.kind().name().to_owned(),
        fields,
    }
}

// ---------------------------------------------------------------------------
// Laws

/// A flag is shown as a word a config reads, and no two flags alike unless
/// they are.
pub proof fn law_flags_are_words(a: crate::flag::Boolish, b: crate::flag::Boolish)
    ensures
        flag_shown(a) is Text,
        flag_shown(a) == flag_shown(b) ==> a == b,
{
    reveal_strlit("on");
    reveal_strlit("off");
    assert("on"@.len() == 2);
    assert("off"@.len() == 3);
}

} // verus!
