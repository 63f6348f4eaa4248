//! What the command line asks for.

use crate::changes::Modelled;
use crate::component::ComponentKind;
use crate::convert::{change_of, font_spelled};
use crate::event::{carries_nothing, event_kind, kind_read, Event, Kind};
use crate::flag::BoolChange;
use crate::json::{document, json_of, json_text, Json, JsonView};
use crate::lua::piece_views;
use crate::measure::Measure;
use crate::name::{ItemName, Selector};
use crate::place::{edge_read, position_read, Edge, Position};
use crate::query::Query;
use crate::request::{Request, Response};
use crate::state::{
    BackgroundPatch, BackgroundPatchView, BarPatch, BarPatchView, GeometryPatch, GeometryPatchView,
    ItemPatch, ItemPatchView, RunPatch, RunPatchView, ScriptingPatch, ScriptingPatchView,
};
use crate::style::{color_read, Color, FontSpec, FontView};
use crate::text::{joined3, lowercase, lowered};
use vstd::prelude::*;

verus! {

// ---------------------------------------------------------------------------
// Arguments

/// Reads a colour.
pub fn parse_color(text: &str) -> (r: Result<u32, String>)
    ensures
        match r {
            Ok(argb) => color_read(text@) == Some(argb as int),
            Err(said) => color_read(text@) is None && said@ == "`"@ + text@
                + "` is not a colour: expected #rgb, #rrggbb or #aarrggbb"@,
        },
{
    match Color::parse(text) {
        Ok(color) => Ok(color.0),
        Err(e) => Err(e.to_string()),
    }
}

/// Reads a position.
pub fn parse_position(text: &str) -> (r: Result<Position, String>)
    ensures
        match r {
            Ok(position) => position_read(text@) == Some(position@),
            Err(said) => position_read(text@) is None && said@ == "`"@ + text@
                + "` is not a position: expected left, center-left, center, center-right or right"@,
        },
{
    match Position::parse(text) {
        Ok(position) => Ok(position),
        Err(e) => Err(e.to_string()),
    }
}

/// Reads the name of an event.
pub fn parse_event(text: &str) -> (r: Result<Kind<()>, String>)
    ensures
        match r {
            Ok(kind) => kind_read(text@) == Some(kind@),
            Err(said) => kind_read(text@) is None && said@ == "`"@ + text@
                + "` is not an event name"@,
        },
{
    match Kind::parse(text) {
        Ok(kind) => Ok(kind),
        Err(e) => Err(e.to_string()),
    }
}

/// Reads an edge, whatever case it is in. What is refused is said in lower
/// case.
pub fn parse_edge(text: &str) -> (r: Result<Edge, String>)
    ensures
        match r {
            Ok(edge) => edge_read(text@) == Some(edge),
            Err(said) => edge_read(text@) is None && said@ == "`"@ + lowered(text@)
                + "` is not an edge: expected top or bottom"@,
        },
{
    match Edge::parse(text) {
        Ok(edge) => Ok(edge),
        Err(_) => {
            let word = lowercase(text);
            Err(joined3("`", &word, "` is not an edge: expected top or bottom"))
        },
    }
}

// ---------------------------------------------------------------------------
// Options

/// What may be said of the bar.
#[derive(Debug, PartialEq)]
pub struct BarOptions {
    pub height: Option<Measure>,
    pub edge: Option<Edge>,
    pub color: Option<u32>,
    pub margin: Option<Measure>,
    pub y_offset: Option<Measure>,
    pub corner_radius: Option<Measure>,
    pub blur_radius: Option<i32>,
    pub hidden: Option<bool>,
    pub topmost: Option<bool>,
}

/// A colour that may be said.
pub open spec fn color_of(argb: Option<u32>) -> Option<Color> {
    match argb {
        Some(argb) => Some(Color(argb)),
        None => None,
    }
}

/// What options say of the bar.
pub open spec fn bar_said(o: BarOptions) -> BarPatchView {
    BarPatchView {
        height: o.height.model(),
        edge: o.edge,
        color: color_of(o.color),
        margin: o.margin.model(),
        y_offset: o.y_offset.model(),
        corner_radius: o.corner_radius.model(),
        blur_radius: o.blur_radius,
        topmost: change_of(o.topmost),
        hidden: change_of(o.hidden),
        padding_left: None,
        padding_right: None,
        display: None,
        sticky: None,
        show_in_fullscreen: None,
        notch_width: None,
        notch_offset: None,
        notch_display_height: None,
    }
}

/// A colour that may be said.
fn color(argb: Option<u32>) -> (r: Option<Color>)
    ensures
        r == color_of(argb),
{
    match argb {
        Some(argb) => Some(Color(argb)),
        None => None,
    }
}

/// A flag that may be said.
fn flag(said: Option<bool>) -> (r: Option<BoolChange>)
    ensures
        r == change_of(said),
{
    match said {
        Some(b) => Some(
            if b {
                BoolChange::True
            } else {
                BoolChange::False
            },
        ),
        None => None,
    }
}

impl BarOptions {
    /// What this says of the bar.
    pub fn into_patch(self) -> (r: BarPatch)
        ensures
            r@ == bar_said(self),
    {
        BarPatch {
            height: self.height,
            edge: self.edge,
            color: color(self.color),
            margin: self.margin,
            y_offset: self.y_offset,
            corner_radius: self.corner_radius,
            blur_radius: self.blur_radius,
            topmost: flag(self.topmost),
            hidden: flag(self.hidden),
            padding_left: None,
            padding_right: None,
            display: None,
            sticky: None,
            show_in_fullscreen: None,
            notch_width: None,
            notch_offset: None,
            notch_display_height: None,
        }
    }
}

/// A font as it is spelled, and what each piece of that reads as.
#[derive(Debug, PartialEq)]
pub struct FontOption {
    pub text: String,
    pub pieces: Vec<Option<Measure>>,
}

/// The font an option spells.
pub open spec fn font_said(font: Option<FontOption>) -> Option<FontView> {
    match font {
        Some(font) => Some(font_spelled(font.text@, piece_views(font.pieces@))),
        None => None,
    }
}

/// What may be said of an item.
#[derive(Debug, PartialEq)]
pub struct ItemOptions {
    pub icon: Option<String>,
    pub label: Option<String>,
    pub icon_font: Option<FontOption>,
    pub label_font: Option<FontOption>,
    pub icon_color: Option<u32>,
    pub label_color: Option<u32>,
    pub background_color: Option<u32>,
    pub corner_radius: Option<Measure>,
    pub padding_left: Option<Measure>,
    pub padding_right: Option<Measure>,
    pub y_offset: Option<Measure>,
    pub position: Option<Position>,
    pub drawing: Option<bool>,
    pub script: Option<String>,
    pub click_script: Option<String>,
    pub alias: Option<String>,
    pub update_freq: Option<u32>,
}

/// What is said of one half of an item, where anything is.
pub open spec fn half_said(
    text: Option<Seq<char>>,
    font: Option<FontView>,
    color: Option<Color>,
) -> Option<RunPatchView> {
    if text is None && font is None && color is None {
        None
    } else {
        Some(
            RunPatchView {
                text,
                color,
                font,
                drawing: None,
                padding_left: None,
                padding_right: None,
                y_offset: None,
                highlight: None,
                highlight_color: None,
            },
        )
    }
}

/// What is said of the surface behind an item, where anything is.
pub open spec fn background_said(o: ItemOptions) -> Option<BackgroundPatchView> {
    if o.background_color is None && o.corner_radius is None {
        None
    } else {
        Some(
            BackgroundPatchView {
                drawing: None,
                color: color_of(o.background_color),
                corner_radius: o.corner_radius.model(),
                height: None,
                padding_left: None,
                padding_right: None,
                border_color: None,
                border_width: None,
            },
        )
    }
}

/// What is said of an item's place, where anything is.
pub open spec fn geometry_said(o: ItemOptions) -> Option<GeometryPatchView> {
    if o.drawing is None && o.position is None && o.y_offset is None && o.padding_left is None
        && o.padding_right is None && background_said(o) is None {
        None
    } else {
        Some(
            GeometryPatchView {
                drawing: change_of(o.drawing),
                position: match o.position {
                    Some(position) => Some(position@),
                    None => None,
                },
                y_offset: o.y_offset.model(),
                padding_left: o.padding_left.model(),
                padding_right: o.padding_right.model(),
                width: None,
                display: None,
                background: background_said(o),
            },
        )
    }
}

/// What is said of an item's scripts, where anything is.
pub open spec fn scripting_said(o: ItemOptions) -> Option<ScriptingPatchView> {
    if o.script is None && o.click_script is None && o.update_freq is None {
        None
    } else {
        Some(
            ScriptingPatchView {
                script: o.script.model(),
                click_script: o.click_script.model(),
                update_freq: o.update_freq,
                updates: None,
            },
        )
    }
}

/// What options say of an item.
pub open spec fn item_said(o: ItemOptions) -> ItemPatchView {
    ItemPatchView {
        geometry: geometry_said(o),
        popup: None,
        icon: half_said(o.icon.model(), font_said(o.icon_font), color_of(o.icon_color)),
        label: half_said(o.label.model(), font_said(o.label_font), color_of(o.label_color)),
        scripting: scripting_said(o),
        alias: o.alias.model(),
        members: None,
        associated_space: None,
        percentage: None,
        knob: None,
        highlight_color: None,
    }
}

/// The font an option spells.
fn font(said: &Option<FontOption>) -> (r: Option<crate::style::FontSpec>)
    ensures
        match r {
            Some(font) => font_said(*said) == Some(font@),
            None => font_said(*said) is None,
        },
{
    match said {
        Some(font) => Some(FontSpec::parse(&font.text, &font.pieces)),
        None => None,
    }
}

/// What is said of one half of an item, where anything is.
fn half(text: Option<String>, said: &Option<FontOption>, argb: Option<u32>) -> (r: Option<RunPatch>)
    ensures
        match r {
            Some(patch) => half_said(text.model(), font_said(*said), color_of(argb)) == Some(
                patch@,
            ),
            None => half_said(text.model(), font_said(*said), color_of(argb)) is None,
        },
{
    let font = font(said);
    let color = color(argb);
    if text.is_none() && font.is_none() && color.is_none() {
        return None;
    }
    Some(
        RunPatch {
            text,
            color,
            font,
            drawing: None,
            padding_left: None,
            padding_right: None,
            y_offset: None,
            highlight: None,
            highlight_color: None,
        },
    )
}

impl ItemOptions {
    /// What this says of an item.
    pub fn into_patch(self) -> (r: ItemPatch)
        ensures
            r@ == item_said(self),
    {
        let icon = half(self.icon, &self.icon_font, self.icon_color);
        let label = half(self.label, &self.label_font, self.label_color);
        let background: Option<BackgroundPatch> = if self.background_color.is_none()
            && self.corner_radius.is_none() {
            None
        } else {
            Some(
                BackgroundPatch {
                    drawing: None,
                    color: color(self.background_color),
                    corner_radius: self.corner_radius,
                    height: None,
                    padding_left: None,
                    padding_right: None,
                    border_color: None,
                    border_width: None,
                },
            )
        };
        let geometry: Option<GeometryPatch> = if self.drawing.is_none() && self.position.is_none()
            && self.y_offset.is_none() && self.padding_left.is_none()
            && self.padding_right.is_none() && background.is_none() {
            None
        } else {
            Some(
                GeometryPatch {
                    drawing: flag(self.drawing),
                    position: self.position,
                    y_offset: self.y_offset,
                    padding_left: self.padding_left,
                    padding_right: self.padding_right,
                    width: None,
                    display: None,
                    background,
                },
            )
        };
        let scripting: Option<ScriptingPatch> = if self.script.is_none()
            && self.click_script.is_none() && self.update_freq.is_none() {
            None
        } else {
            Some(
                ScriptingPatch {
                    script: self.script,
                    click_script: self.click_script,
                    update_freq: self.update_freq,
                    updates: None,
                },
            )
        };
        ItemPatch {
            geometry,
            popup: None,
            icon,
            label,
            scripting,
            alias: self.alias,
            members: None,
            associated_space: None,
            percentage: None,
            knob: None,
            highlight_color: None,
        }
    }
}

// ---------------------------------------------------------------------------
// Commands

/// What the command line may ask for.
#[derive(Debug, PartialEq)]
pub enum Command {
    SetBar(BarOptions),
    AddItem { name: ItemName, position: Position },
    SetItem { name: ItemName, options: ItemOptions },
    RemoveItem(ItemName),
    Subscribe { name: ItemName, events: Vec<Kind<()>> },
    Query(Query),
    Trigger { event: Kind<()>, info: Option<String> },
    Update,
    Reload,
    Shutdown,
}

/// What a script sees of what an event is triggered with: the document it is,
/// or else the text itself.
pub open spec fn info_text(text: Seq<char>) -> Seq<char> {
    match document(text) {
        Some(doc) => json_text(json_of(doc)),
        None => json_text(JsonView::String(text)),
    }
}

/// The one variable an event is triggered with, where it is with anything.
pub open spec fn info_vars(info: Option<Seq<char>>) -> Map<Seq<char>, Seq<char>> {
    match info {
        Some(value) => Map::<Seq<char>, Seq<char>>::empty().insert("info"@, value),
        None => Map::empty(),
    }
}

/// The event a trigger fires, given what a script sees of what it is fired
/// with. Only a custom one has somewhere to put that.
pub fn triggered_with(event: Kind<()>, info: Option<String>) -> (r: Event)
    ensures
        event_kind(r) == event@,
        match r {
            Event::Custom(custom) => custom.vars@ == info_vars(crate::modules::part(info)),
            _ => carries_nothing(r),
        },
{
    let fired = event.into_event();
    match fired {
        Event::Custom(custom) => {
            let mut custom = custom;
            proof {
                assert(custom.vars@ =~= Map::<Seq<char>, Seq<char>>::empty());
            }
            match info {
                Some(value) => {
                    custom.vars.insert("info".to_owned(), value);
                },
                None => {},
            }
            Event::Custom(custom)
        },
        other => other,
    }
}

/// The event a trigger fires.
pub fn triggered(event: Kind<()>, info: Option<String>) -> (r: Event)
    ensures
        event_kind(r) == event@,
        match r {
            Event::Custom(custom) => custom.vars@ == info_vars(
                match info {
                    Some(text) => Some(info_text(text@)),
                    None => None,
                },
            ),
            _ => carries_nothing(r),
        },
{
    match info {
        Some(text) => {
            let value = Json::parse_or_string(&text);
            triggered_with(event, Some(value.to_string()))
        },
        None => triggered_with(event, None),
    }
}

impl Command {
    /// The request this makes.
    pub fn request(self) -> (r: Request)
        ensures
            match self {
                Command::SetBar(options) => r matches Request::SetBar(patch) && patch@ == bar_said(
                    options,
                ),
                Command::AddItem { name, position } => r == Request::Add(
                    ComponentKind::Item { name, position },
                ),
                Command::SetItem { name, options } => r matches Request::SetItem(selector, patch)
                    && selector == Selector::Name(name) && (*patch)@ == item_said(options),
                Command::RemoveItem(name) => r == Request::Remove(Selector::Name(name)),
                Command::Subscribe { name, events } => r == (Request::Subscribe { name, events }),
                Command::Query(query) => r == Request::Query(query),
                Command::Trigger { event, info } => r matches Request::Trigger(fired) && event_kind(
                    fired,
                ) == event@ && match fired {
                    Event::Custom(custom) => custom.vars@ == info_vars(
                        match info {
                            Some(text) => Some(info_text(text@)),
                            None => None,
                        },
                    ),
                    _ => carries_nothing(fired),
                },
                Command::Update => r is UpdateAll,
                Command::Reload => r is Reload,
                Command::Shutdown => r is Shutdown,
            },
    {
        match self {
            Command::SetBar(options) => Request::SetBar(options.into_patch()),
            Command::AddItem { name, position } => Request::Add(
                ComponentKind::Item { name, position },
            ),
            Command::SetItem { name, options } => Request::SetItem(
                Selector::Name(name),
                Box::new(options.into_patch()),
            ),
            Command::RemoveItem(name) => Request::Remove(Selector::Name(name)),
            Command::Subscribe { name, events } => Request::Subscribe { name, events },
            Command::Query(query) => Request::Query(query),
            Command::Trigger { event, info } => Request::Trigger(triggered(event, info)),
            Command::Update => Request::UpdateAll,
            Command::Reload => Request::Reload,
            Command::Shutdown => Request::Shutdown,
        }
    }
}

/// What becomes of an answer.
#[derive(Debug, Clone, Copy, PartialEq, Eq, Structural)]
pub enum Verdict {
    /// It went well, and there is nothing to show.
    Quiet,
    /// It went well, and there is one thing to show.
    Whole,
    /// It went well, and there is a thing to show on each line.
    Lines,
    /// It failed, and the answer says why.
    Failed,
}

/// What becomes of an answer.
pub fn verdict(response: &Response) -> (r: Verdict)
    ensures
        r == match *response {
            Response::Done => Verdict::Quiet,
            Response::Error(_) => Verdict::Failed,
            Response::Bar(_) => Verdict::Whole,
            Response::Item(_) => Verdict::Whole,
            Response::Defaults(_) => Verdict::Whole,
            Response::Items(_) => Verdict::Lines,
            Response::MenuItems(_) => Verdict::Lines,
            Response::AppMenus(_) => Verdict::Lines,
        },
{
    match response {
        Response::Done => Verdict::Quiet,
        Response::Error(_) => Verdict::Failed,
        Response::Bar(_) => Verdict::Whole,
        Response::Item(_) => Verdict::Whole,
        Response::Defaults(_) => Verdict::Whole,
        Response::Items(_) => Verdict::Lines,
        Response::MenuItems(_) => Verdict::Lines,
        Response::AppMenus(_) => Verdict::Lines,
    }
}

/// Options that say nothing change nothing: the patch of them says nothing
/// either.
pub proof fn law_silence_says_nothing(o: ItemOptions)
    requires
        o.icon is None && o.label is None && o.icon_font is None && o.label_font is None,
        o.icon_color is None && o.label_color is None && o.background_color is None,
        o.corner_radius is None && o.padding_left is None && o.padding_right is None,
        o.y_offset is None && o.position is None && o.drawing is None && o.script is None,
        o.click_script is None && o.alias is None && o.update_freq is None,
    ensures
        item_said(o) == ItemPatch::nothing()@,
{
}

} // verus!
