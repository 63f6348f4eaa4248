//! What the bar and its items look like, and what a config can change of that.
//!
//! Each of these has a patch beside it, whose fields say what to change: nothing
//! said of a field leaves it as it is. A patch reports what it moved, field by
//! field, and a patch within a patch reports what it moved within that field.

use crate::align::PopupAlign;
use crate::changes::{
    after, applied, built, fold, later, law_moved_means_different,
    law_saying_it_again_changes_nothing, moved_in, sound_in, steady_in, Blank, Changes, MeasureView,
    Modelled,
};
use crate::display::DisplayTarget;
use crate::event::{Kind, KindView};
use crate::flag::{BoolChange, Boolish};
use crate::kindset::kind_views;
use crate::measure::Measure;
use crate::component::selector_views;
use crate::name::{ItemName, Selector, SelectorView};
use crate::place::{Edge, Position, PositionView};
use crate::style::{Color, FontSpec, FontView};
use crate::text::{joined3, same};
use vstd::prelude::*;

verus! {

// ---------------------------------------------------------------------------
// What identifies rather than configures

impl Modelled for ItemName {
    type Model = Seq<char>;

    open spec fn model(&self) -> Seq<char> {
        self@
    }

    fn copy(&self) -> (r: Self) {
        self.clone()
    }
}

impl Modelled for usize {
    type Model = usize;

    open spec fn model(&self) -> usize {
        *self
    }

    fn copy(&self) -> (r: Self) {
        *self
    }
}

impl Modelled for Vec<Kind<()>> {
    type Model = Seq<KindView<()>>;

    open spec fn model(&self) -> Seq<KindView<()>> {
        kind_views(self@)
    }

    fn copy(&self) -> (r: Self) {
        let mut out: Vec<Kind<()>> = Vec::new();
        let mut i: usize = 0;
        while i < self.len()
            invariant
                i <= self@.len(),
                kind_views(out@) =~= kind_views(self@).take(i as int),
            decreases self@.len() - i,
        {
            let ghost before = out@;
            out.push(self[i].copied());
            proof {
                assert(kind_views(out@) =~= kind_views(before).push(self@[i as int]@));
            }
            i = i + 1;
        }
        proof {
            assert(kind_views(self@).take(self@.len() as int) =~= kind_views(self@));
            assert(out.model() == kind_views(out@));
            assert(self.model() == kind_views(self@));
        }
        out
    }
}

// ---------------------------------------------------------------------------
// What has to be said

/// What something cannot be built without, and was not told.
#[derive(Debug, Clone, PartialEq, Eq)]
pub struct Missing {
    /// What was to be built, as a config would name it.
    pub what: &'static str,
    /// Every property that was not said.
    pub fields: Vec<&'static str>,
}

/// Names of properties over plain text.
pub open spec fn field_names(fields: Seq<&'static str>) -> Seq<Seq<char>> {
    fields.map_values(|f: &'static str| f@)
}

/// Names, one after another.
pub open spec fn listed(fields: Seq<Seq<char>>) -> Seq<char>
    decreases fields.len(),
{
    if fields.len() == 0 {
        Seq::empty()
    } else if fields.len() == 1 {
        fields[0]
    } else {
        listed(fields.drop_last()) + "`, `"@ + fields.last()
    }
}

impl Missing {
    /// What is missing, where anything is.
    pub fn new(what: &'static str, fields: Vec<&'static str>) -> (r: Option<Missing>)
        ensures
            r is None <==> fields@.len() == 0,
            r matches Some(missing) ==> missing.what@ == what@ && missing.fields == fields,
    {
        if fields.len() == 0 {
            None
        } else {
            Some(Missing { what, fields })
        }
    }

    /// What to say of it.
    pub fn to_string(&self) -> (r: String)
        ensures
            r@ == "`"@ + listed(field_names(self.fields@)) + "`: required to build "@ + self.what@
                + ", and not set"@,
    {
        let ghost names = field_names(self.fields@);
        let mut out = String::new();
        let mut i: usize = 0;
        proof {
            assert(out@ =~= listed(names.take(0)));
        }
        while i < self.fields.len()
            invariant
                i <= self.fields@.len(),
                names == field_names(self.fields@),
                out@ == listed(names.take(i as int)),
            decreases self.fields@.len() - i,
        {
            proof {
                assert(names.take(i + 1).drop_last() =~= names.take(i as int));
                assert(names.take(i + 1).last() == names[i as int]);
            }
            if i == 0 {
                out = self.fields[i].to_owned();
            } else {
                out = joined3(&out, "`, `", self.fields[i]);
            }
            i = i + 1;
        }
        proof {
            assert(names.take(names.len() as int) =~= names);
        }
        let head = joined3("`", &out, "`: required to build ");
        joined3(&head, self.what, ", and not set")
    }
}

// ---------------------------------------------------------------------------
// Run

/// One half of an item's text: its glyph, or its label.
#[derive(Debug, Clone, PartialEq)]
pub struct Run {
    /// What it says.
    pub text: String,
    /// What colour it says it in.
    pub color: Color,
    /// What it says it in.
    pub font: FontSpec,
    /// Whether this half is drawn, whatever the item's own drawing says.
    pub drawing: Boolish,
    /// Space before this half alone.
    pub padding_left: Measure,
    /// Space after this half alone.
    pub padding_right: Measure,
    /// Shifts this half alone, on top of the item's own offset.
    pub y_offset: Measure,
    /// Whether it is drawn in its highlight colour.
    pub highlight: Boolish,
    /// The colour of a highlighted half.
    pub highlight_color: Color,
}

/// [`Run`] over plain values.
pub struct RunModel {
    pub text: Seq<char>,
    pub color: Color,
    pub font: FontView,
    pub drawing: Boolish,
    pub padding_left: MeasureView,
    pub padding_right: MeasureView,
    pub y_offset: MeasureView,
    pub highlight: Boolish,
    pub highlight_color: Color,
}

impl Modelled for Run {
    type Model = RunModel;

    open spec fn model(&self) -> RunModel {
        RunModel {
            text: self.text.model(),
            color: self.color.model(),
            font: self.font.model(),
            drawing: self.drawing.model(),
            padding_left: self.padding_left.model(),
            padding_right: self.padding_right.model(),
            y_offset: self.y_offset.model(),
            highlight: self.highlight.model(),
            highlight_color: self.highlight_color.model(),
        }
    }

    fn copy(&self) -> (r: Self) {
        Run {
            text: self.text.copy(),
            color: self.color.copy(),
            font: self.font.copy(),
            drawing: self.drawing.copy(),
            padding_left: self.padding_left.copy(),
            padding_right: self.padding_right.copy(),
            y_offset: self.y_offset.copy(),
            highlight: self.highlight.copy(),
            highlight_color: self.highlight_color.copy(),
        }
    }
}

impl Blank for Run {
    open spec fn blank() -> RunModel {
        RunModel {
            text: <String as Blank>::blank(),
            color: <Color as Blank>::blank(),
            font: <FontSpec as Blank>::blank(),
            drawing: <Boolish as Blank>::blank(),
            padding_left: <Measure as Blank>::blank(),
            padding_right: <Measure as Blank>::blank(),
            y_offset: <Measure as Blank>::blank(),
            highlight: <Boolish as Blank>::blank(),
            highlight_color: <Color as Blank>::blank(),
        }
    }

    fn fresh() -> (r: Self) {
        Run {
            text: <String as Blank>::fresh(),
            color: <Color as Blank>::fresh(),
            font: <FontSpec as Blank>::fresh(),
            drawing: <Boolish as Blank>::fresh(),
            padding_left: <Measure as Blank>::fresh(),
            padding_right: <Measure as Blank>::fresh(),
            y_offset: <Measure as Blank>::fresh(),
            highlight: <Boolish as Blank>::fresh(),
            highlight_color: <Color as Blank>::fresh(),
        }
    }
}

impl Default for Run {
    fn default() -> (r: Self)
        ensures
            r.model() == <Run as Blank>::blank(),
    {
        <Run as Blank>::fresh()
    }
}

/// What to change of [`Run`].
#[derive(Debug, Clone, PartialEq)]
pub struct RunPatch {
    /// What it says.
    pub text: Option<String>,
    /// What colour it says it in.
    pub color: Option<Color>,
    /// What it says it in.
    pub font: Option<FontSpec>,
    /// Whether this half is drawn, whatever the item's own drawing says.
    pub drawing: Option<BoolChange>,
    /// Space before this half alone.
    pub padding_left: Option<Measure>,
    /// Space after this half alone.
    pub padding_right: Option<Measure>,
    /// Shifts this half alone, on top of the item's own offset.
    pub y_offset: Option<Measure>,
    /// Whether it is drawn in its highlight colour.
    pub highlight: Option<BoolChange>,
    /// The colour of a highlighted half.
    pub highlight_color: Option<Color>,
}

/// Which fields of [`Run`] a [`RunPatch`] moved.
#[derive(Debug, Clone, Copy, PartialEq)]
pub struct RunMoved {
    pub text: Option<()>,
    pub color: Option<()>,
    pub font: Option<()>,
    pub drawing: Option<()>,
    pub padding_left: Option<()>,
    pub padding_right: Option<()>,
    pub y_offset: Option<()>,
    pub highlight: Option<()>,
    pub highlight_color: Option<()>,
}

/// [`RunPatch`] over plain values.
pub struct RunPatchView {
    pub text: Option<Seq<char>>,
    pub color: Option<Color>,
    pub font: Option<FontView>,
    pub drawing: Option<BoolChange>,
    pub padding_left: Option<MeasureView>,
    pub padding_right: Option<MeasureView>,
    pub y_offset: Option<MeasureView>,
    pub highlight: Option<BoolChange>,
    pub highlight_color: Option<Color>,
}

impl View for RunPatch {
    type V = RunPatchView;

    open spec fn view(&self) -> RunPatchView {
        RunPatchView {
            text: match self.text {
                Some(value) => Some(value@),
                None => None,
            },
            color: self.color,
            font: match self.font {
                Some(value) => Some(value@),
                None => None,
            },
            drawing: self.drawing,
            padding_left: match self.padding_left {
                Some(value) => Some(value.model()),
                None => None,
            },
            padding_right: match self.padding_right {
                Some(value) => Some(value.model()),
                None => None,
            },
            y_offset: match self.y_offset {
                Some(value) => Some(value.model()),
                None => None,
            },
            highlight: self.highlight,
            highlight_color: self.highlight_color,
        }
    }
}

impl RunMoved {
    /// Whether anything moved at all.
    pub open spec fn anything(&self) -> bool {
        self.text is Some || self.color is Some || self.font is Some || self.drawing is Some || self.padding_left is Some || self.padding_right is Some || self.y_offset is Some || self.highlight is Some || self.highlight_color is Some
    }

    /// Whether anything moved at all.
    pub fn any(&self) -> (r: bool)
        ensures
            r == self.anything(),
    {
        self.text.is_some() || self.color.is_some() || self.font.is_some() || self.drawing.is_some() || self.padding_left.is_some() || self.padding_right.is_some() || self.y_offset.is_some() || self.highlight.is_some() || self.highlight_color.is_some()
    }
}

impl Default for RunPatch {
    fn default() -> (r: Self)
        ensures
            r == RunPatch::nothing(),
    {
        RunPatch {
            text: None,
            color: None,
            font: None,
            drawing: None,
            padding_left: None,
            padding_right: None,
            y_offset: None,
            highlight: None,
            highlight_color: None,
        }
    }
}

impl Changes<Run> for RunPatch {
    type Moved = RunMoved;

    open spec fn outcome(&self, current: RunModel) -> Option<(RunModel, RunMoved)> {
        if self.record(current).anything() {
            Some((self.next(current), self.record(current)))
        } else {
            None
        }
    }

    open spec fn sound(&self) -> bool {
        &&& sound_in::<String, String>(self.text)
        &&& sound_in::<Color, Color>(self.color)
        &&& sound_in::<FontSpec, FontSpec>(self.font)
        &&& sound_in::<Boolish, BoolChange>(self.drawing)
        &&& sound_in::<Measure, Measure>(self.padding_left)
        &&& sound_in::<Measure, Measure>(self.padding_right)
        &&& sound_in::<Measure, Measure>(self.y_offset)
        &&& sound_in::<Boolish, BoolChange>(self.highlight)
        &&& sound_in::<Color, Color>(self.highlight_color)
    }

    open spec fn steady(&self) -> bool {
        &&& steady_in::<String, String>(self.text)
        &&& steady_in::<Color, Color>(self.color)
        &&& steady_in::<FontSpec, FontSpec>(self.font)
        &&& steady_in::<Boolish, BoolChange>(self.drawing)
        &&& steady_in::<Measure, Measure>(self.padding_left)
        &&& steady_in::<Measure, Measure>(self.padding_right)
        &&& steady_in::<Measure, Measure>(self.y_offset)
        &&& steady_in::<Boolish, BoolChange>(self.highlight)
        &&& steady_in::<Color, Color>(self.highlight_color)
    }

    proof fn becomes_another(&self, current: RunModel) {
        law_run_reports_what_moved(*self, current);
    }

    proof fn changes_once(&self, current: RunModel) {
        law_saying_it_again_changes_nothing::<String, String>(self.text, current.text);
        law_saying_it_again_changes_nothing::<Color, Color>(self.color, current.color);
        law_saying_it_again_changes_nothing::<FontSpec, FontSpec>(self.font, current.font);
        law_saying_it_again_changes_nothing::<Boolish, BoolChange>(self.drawing, current.drawing);
        law_saying_it_again_changes_nothing::<Measure, Measure>(self.padding_left, current.padding_left);
        law_saying_it_again_changes_nothing::<Measure, Measure>(self.padding_right, current.padding_right);
        law_saying_it_again_changes_nothing::<Measure, Measure>(self.y_offset, current.y_offset);
        law_saying_it_again_changes_nothing::<Boolish, BoolChange>(self.highlight, current.highlight);
        law_saying_it_again_changes_nothing::<Color, Color>(self.highlight_color, current.highlight_color);
    }

    fn moved(&self, current: &Run) -> (r: Option<(Run, RunMoved)>) {
        let (text, text_moved) = applied::<String, String>(&self.text, &current.text);
        let (color, color_moved) = applied::<Color, Color>(&self.color, &current.color);
        let (font, font_moved) = applied::<FontSpec, FontSpec>(&self.font, &current.font);
        let (drawing, drawing_moved) = applied::<Boolish, BoolChange>(&self.drawing, &current.drawing);
        let (padding_left, padding_left_moved) = applied::<Measure, Measure>(&self.padding_left, &current.padding_left);
        let (padding_right, padding_right_moved) = applied::<Measure, Measure>(&self.padding_right, &current.padding_right);
        let (y_offset, y_offset_moved) = applied::<Measure, Measure>(&self.y_offset, &current.y_offset);
        let (highlight, highlight_moved) = applied::<Boolish, BoolChange>(&self.highlight, &current.highlight);
        let (highlight_color, highlight_color_moved) = applied::<Color, Color>(&self.highlight_color, &current.highlight_color);
        let moved = RunMoved {
            text: text_moved,
            color: color_moved,
            font: font_moved,
            drawing: drawing_moved,
            padding_left: padding_left_moved,
            padding_right: padding_right_moved,
            y_offset: y_offset_moved,
            highlight: highlight_moved,
            highlight_color: highlight_color_moved,
        };
        if moved.any() {
            let next = Run {
                text,
                color,
                font,
                drawing,
                padding_left,
                padding_right,
                y_offset,
                highlight,
                highlight_color,
            };
            Some((next, moved))
        } else {
            None
        }
    }
}

impl RunPatch {
    /// A patch that says nothing.
    pub open spec fn nothing() -> RunPatch {
        RunPatch {
            text: None,
            color: None,
            font: None,
            drawing: None,
            padding_left: None,
            padding_right: None,
            y_offset: None,
            highlight: None,
            highlight_color: None,
        }
    }

    /// What applying this makes of a value.
    pub open spec fn next(&self, current: RunModel) -> RunModel {
        RunModel {
            text: after::<String, String>(self.text, current.text),
            color: after::<Color, Color>(self.color, current.color),
            font: after::<FontSpec, FontSpec>(self.font, current.font),
            drawing: after::<Boolish, BoolChange>(self.drawing, current.drawing),
            padding_left: after::<Measure, Measure>(self.padding_left, current.padding_left),
            padding_right: after::<Measure, Measure>(self.padding_right, current.padding_right),
            y_offset: after::<Measure, Measure>(self.y_offset, current.y_offset),
            highlight: after::<Boolish, BoolChange>(self.highlight, current.highlight),
            highlight_color: after::<Color, Color>(self.highlight_color, current.highlight_color),
        }
    }

    /// What applying this moves in a value.
    pub open spec fn record(&self, current: RunModel) -> RunMoved {
        RunMoved {
            text: moved_in::<String, String>(self.text, current.text),
            color: moved_in::<Color, Color>(self.color, current.color),
            font: moved_in::<FontSpec, FontSpec>(self.font, current.font),
            drawing: moved_in::<Boolish, BoolChange>(self.drawing, current.drawing),
            padding_left: moved_in::<Measure, Measure>(self.padding_left, current.padding_left),
            padding_right: moved_in::<Measure, Measure>(self.padding_right, current.padding_right),
            y_offset: moved_in::<Measure, Measure>(self.y_offset, current.y_offset),
            highlight: moved_in::<Boolish, BoolChange>(self.highlight, current.highlight),
            highlight_color: moved_in::<Color, Color>(self.highlight_color, current.highlight_color),
        }
    }

    /// Two patches as one: whatever the later says of a field counts, and a
    /// patch within a patch is folded field by field.
    pub open spec fn with(self, other: RunPatch) -> RunPatch {
        RunPatch {
            text: later(self.text, other.text),
            color: later(self.color, other.color),
            font: later(self.font, other.font),
            drawing: later(self.drawing, other.drawing),
            padding_left: later(self.padding_left, other.padding_left),
            padding_right: later(self.padding_right, other.padding_right),
            y_offset: later(self.y_offset, other.y_offset),
            highlight: later(self.highlight, other.highlight),
            highlight_color: later(self.highlight_color, other.highlight_color),
        }
    }

    /// Two patches as one: whatever the later says of a field counts, and a
    /// patch within a patch is folded field by field.
    pub fn folded(self, other: RunPatch) -> (r: RunPatch)
        ensures
            r == self.with(other),
    {
        RunPatch {
            text: fold(self.text, other.text),
            color: fold(self.color, other.color),
            font: fold(self.font, other.font),
            drawing: fold(self.drawing, other.drawing),
            padding_left: fold(self.padding_left, other.padding_left),
            padding_right: fold(self.padding_right, other.padding_right),
            y_offset: fold(self.y_offset, other.y_offset),
            highlight: fold(self.highlight, other.highlight),
            highlight_color: fold(self.highlight_color, other.highlight_color),
        }
    }

    /// Every property this has to say to build a whole one, and does not.
    pub open spec fn absent(&self) -> Seq<Seq<char>> {
        Seq::empty()
    }

    /// Every property this has to say to build a whole one, and does not.
    pub fn absent_fields(&self) -> (r: Vec<&'static str>)
        ensures
            field_names(r@) == self.absent(),
    {
        let absent: Vec<&'static str> = Vec::new();
        proof {
            assert(field_names(absent@) =~= Seq::<Seq<char>>::empty());
        }
        absent
    }

    /// The same, as what to say of it.
    pub fn missing(&self) -> (r: Option<Missing>)
        ensures
            r is None <==> self.absent().len() == 0,
            r matches Some(missing) ==> missing.what@ == "an item's icon or label"@ && field_names(
                missing.fields@,
            ) == self.absent(),
    {
        let absent = self.absent_fields();
        proof {
            assert(field_names(absent@).len() == absent@.len());
        }
        Missing::new("an item's icon or label", absent)
    }

    /// A whole one from what this says, and what there is without anybody
    /// saying so.
    pub open spec fn whole(&self) -> RunModel {
        RunModel {
            text: after::<String, String>(self.text, <String as Blank>::blank()),
            color: after::<Color, Color>(self.color, <Color as Blank>::blank()),
            font: after::<FontSpec, FontSpec>(self.font, <FontSpec as Blank>::blank()),
            drawing: after::<Boolish, BoolChange>(self.drawing, <Boolish as Blank>::blank()),
            padding_left: after::<Measure, Measure>(self.padding_left, <Measure as Blank>::blank()),
            padding_right: after::<Measure, Measure>(self.padding_right, <Measure as Blank>::blank()),
            y_offset: after::<Measure, Measure>(self.y_offset, <Measure as Blank>::blank()),
            highlight: after::<Boolish, BoolChange>(self.highlight, <Boolish as Blank>::blank()),
            highlight_color: after::<Color, Color>(self.highlight_color, <Color as Blank>::blank()),
        }
    }

    /// A whole one rather than a change to one.
    ///
    /// What has no value without anybody saying so has to have been said, and
    /// everything that was not is reported at once.
    pub fn construct(&self) -> (r: Result<Run, Missing>)
        ensures
            match r {
                Ok(value) => self.absent().len() == 0 && value.model() == self.whole(),
                Err(missing) => self.absent().len() > 0 && missing.what@ == "an item's icon or label"@
                    && field_names(missing.fields@) == self.absent(),
            },
    {
        if let Some(missing) = self.missing() {
            return Err(missing);
        }
        Ok(Run {
            text: built::<String, String>(&self.text),
            color: built::<Color, Color>(&self.color),
            font: built::<FontSpec, FontSpec>(&self.font),
            drawing: built::<Boolish, BoolChange>(&self.drawing),
            padding_left: built::<Measure, Measure>(&self.padding_left),
            padding_right: built::<Measure, Measure>(&self.padding_right),
            y_offset: built::<Measure, Measure>(&self.y_offset),
            highlight: built::<Boolish, BoolChange>(&self.highlight),
            highlight_color: built::<Color, Color>(&self.highlight_color),
        })
    }
}

/// A property of [`RunPatch`] as a key names it.
#[derive(Debug, Clone, Copy, PartialEq, Eq, Structural)]
pub enum RunKey {
    Text,
    Color,
    Font,
    Drawing,
    PaddingLeft,
    PaddingRight,
    YOffset,
    Highlight,
    HighlightColor,
}

/// What a key names: every spelling of a property, a colour spelled either way.
pub open spec fn run_key(key: Seq<char>) -> Option<RunKey> {
    if key == "string"@ || key == "text"@ {
        Some(RunKey::Text)
    } else if key == "color"@ || key == "colour"@ {
        Some(RunKey::Color)
    } else if key == "font"@ {
        Some(RunKey::Font)
    } else if key == "drawing"@ {
        Some(RunKey::Drawing)
    } else if key == "padding_left"@ {
        Some(RunKey::PaddingLeft)
    } else if key == "padding_right"@ {
        Some(RunKey::PaddingRight)
    } else if key == "y_offset"@ {
        Some(RunKey::YOffset)
    } else if key == "highlight"@ {
        Some(RunKey::Highlight)
    } else if key == "highlight_color"@ || key == "highlight_colour"@ {
        Some(RunKey::HighlightColor)
    } else {
        None
    }
}

impl RunKey {
    /// What a key names.
    pub fn of(key: &str) -> (r: Option<RunKey>)
        ensures
            r == run_key(key@),
    {
        if same(key, "string") || same(key, "text") {
            Some(RunKey::Text)
        } else if same(key, "color") || same(key, "colour") {
            Some(RunKey::Color)
        } else if same(key, "font") {
            Some(RunKey::Font)
        } else if same(key, "drawing") {
            Some(RunKey::Drawing)
        } else if same(key, "padding_left") {
            Some(RunKey::PaddingLeft)
        } else if same(key, "padding_right") {
            Some(RunKey::PaddingRight)
        } else if same(key, "y_offset") {
            Some(RunKey::YOffset)
        } else if same(key, "highlight") {
            Some(RunKey::Highlight)
        } else if same(key, "highlight_color") || same(key, "highlight_colour") {
            Some(RunKey::HighlightColor)
        } else {
            None
        }
    }
}

impl RunPatch {
    /// A bare text is what it says: `label = "12:00"`.
    pub open spec fn saying(text: String) -> RunPatch {
        RunPatch { text: Some(text), ..RunPatch::nothing() }
    }
}

impl From<String> for RunPatch {
    fn from(text: String) -> (r: Self) {
        RunPatch { text: Some(text), ..RunPatch::default() }
    }
}

impl vstd::std_specs::convert::FromSpecImpl<String> for RunPatch {
    open spec fn obeys_from_spec() -> bool {
        true
    }

    open spec fn from_spec(text: String) -> Self {
        RunPatch::saying(text)
    }
}

// ---------------------------------------------------------------------------
// Background

/// The surface drawn behind an item.
#[derive(Debug, Clone, PartialEq)]
pub struct Background {
    /// Whether the surface is drawn.
    pub drawing: Boolish,
    /// What colour it is.
    pub color: Color,
    /// How round its corners are.
    pub corner_radius: Measure,
    /// A fixed height, or zero for the bar's own.
    pub height: Measure,
    /// Inset from the item's left edge.
    pub padding_left: Measure,
    /// Inset from the item's right edge.
    pub padding_right: Measure,
    /// What colour its border is.
    pub border_color: Color,
    /// How wide its border is.
    pub border_width: Measure,
}

/// [`Background`] over plain values.
pub struct BackgroundModel {
    pub drawing: Boolish,
    pub color: Color,
    pub corner_radius: MeasureView,
    pub height: MeasureView,
    pub padding_left: MeasureView,
    pub padding_right: MeasureView,
    pub border_color: Color,
    pub border_width: MeasureView,
}

impl Modelled for Background {
    type Model = BackgroundModel;

    open spec fn model(&self) -> BackgroundModel {
        BackgroundModel {
            drawing: self.drawing.model(),
            color: self.color.model(),
            corner_radius: self.corner_radius.model(),
            height: self.height.model(),
            padding_left: self.padding_left.model(),
            padding_right: self.padding_right.model(),
            border_color: self.border_color.model(),
            border_width: self.border_width.model(),
        }
    }

    fn copy(&self) -> (r: Self) {
        Background {
            drawing: self.drawing.copy(),
            color: self.color.copy(),
            corner_radius: self.corner_radius.copy(),
            height: self.height.copy(),
            padding_left: self.padding_left.copy(),
            padding_right: self.padding_right.copy(),
            border_color: self.border_color.copy(),
            border_width: self.border_width.copy(),
        }
    }
}

impl Blank for Background {
    open spec fn blank() -> BackgroundModel {
        BackgroundModel {
            drawing: <Boolish as Blank>::blank(),
            color: <Color as Blank>::blank(),
            corner_radius: <Measure as Blank>::blank(),
            height: <Measure as Blank>::blank(),
            padding_left: <Measure as Blank>::blank(),
            padding_right: <Measure as Blank>::blank(),
            border_color: <Color as Blank>::blank(),
            border_width: <Measure as Blank>::blank(),
        }
    }

    fn fresh() -> (r: Self) {
        Background {
            drawing: <Boolish as Blank>::fresh(),
            color: <Color as Blank>::fresh(),
            corner_radius: <Measure as Blank>::fresh(),
            height: <Measure as Blank>::fresh(),
            padding_left: <Measure as Blank>::fresh(),
            padding_right: <Measure as Blank>::fresh(),
            border_color: <Color as Blank>::fresh(),
            border_width: <Measure as Blank>::fresh(),
        }
    }
}

impl Default for Background {
    fn default() -> (r: Self)
        ensures
            r.model() == <Background as Blank>::blank(),
    {
        <Background as Blank>::fresh()
    }
}

/// What to change of [`Background`].
#[derive(Debug, Clone, PartialEq)]
pub struct BackgroundPatch {
    /// Whether the surface is drawn.
    pub drawing: Option<BoolChange>,
    /// What colour it is.
    pub color: Option<Color>,
    /// How round its corners are.
    pub corner_radius: Option<Measure>,
    /// A fixed height, or zero for the bar's own.
    pub height: Option<Measure>,
    /// Inset from the item's left edge.
    pub padding_left: Option<Measure>,
    /// Inset from the item's right edge.
    pub padding_right: Option<Measure>,
    /// What colour its border is.
    pub border_color: Option<Color>,
    /// How wide its border is.
    pub border_width: Option<Measure>,
}

/// Which fields of [`Background`] a [`BackgroundPatch`] moved.
#[derive(Debug, Clone, Copy, PartialEq)]
pub struct BackgroundMoved {
    pub drawing: Option<()>,
    pub color: Option<()>,
    pub corner_radius: Option<()>,
    pub height: Option<()>,
    pub padding_left: Option<()>,
    pub padding_right: Option<()>,
    pub border_color: Option<()>,
    pub border_width: Option<()>,
}

/// [`BackgroundPatch`] over plain values.
pub struct BackgroundPatchView {
    pub drawing: Option<BoolChange>,
    pub color: Option<Color>,
    pub corner_radius: Option<MeasureView>,
    pub height: Option<MeasureView>,
    pub padding_left: Option<MeasureView>,
    pub padding_right: Option<MeasureView>,
    pub border_color: Option<Color>,
    pub border_width: Option<MeasureView>,
}

impl View for BackgroundPatch {
    type V = BackgroundPatchView;

    open spec fn view(&self) -> BackgroundPatchView {
        BackgroundPatchView {
            drawing: self.drawing,
            color: self.color,
            corner_radius: match self.corner_radius {
                Some(value) => Some(value.model()),
                None => None,
            },
            height: match self.height {
                Some(value) => Some(value.model()),
                None => None,
            },
            padding_left: match self.padding_left {
                Some(value) => Some(value.model()),
                None => None,
            },
            padding_right: match self.padding_right {
                Some(value) => Some(value.model()),
                None => None,
            },
            border_color: self.border_color,
            border_width: match self.border_width {
                Some(value) => Some(value.model()),
                None => None,
            },
        }
    }
}

impl BackgroundMoved {
    /// Whether anything moved at all.
    pub open spec fn anything(&self) -> bool {
        self.drawing is Some || self.color is Some || self.corner_radius is Some || self.height is Some || self.padding_left is Some || self.padding_right is Some || self.border_color is Some || self.border_width is Some
    }

    /// Whether anything moved at all.
    pub fn any(&self) -> (r: bool)
        ensures
            r == self.anything(),
    {
        self.drawing.is_some() || self.color.is_some() || self.corner_radius.is_some() || self.height.is_some() || self.padding_left.is_some() || self.padding_right.is_some() || self.border_color.is_some() || self.border_width.is_some()
    }
}

impl Default for BackgroundPatch {
    fn default() -> (r: Self)
        ensures
            r == BackgroundPatch::nothing(),
    {
        BackgroundPatch {
            drawing: None,
            color: None,
            corner_radius: None,
            height: None,
            padding_left: None,
            padding_right: None,
            border_color: None,
            border_width: None,
        }
    }
}

impl Changes<Background> for BackgroundPatch {
    type Moved = BackgroundMoved;

    open spec fn outcome(&self, current: BackgroundModel) -> Option<(BackgroundModel, BackgroundMoved)> {
        if self.record(current).anything() {
            Some((self.next(current), self.record(current)))
        } else {
            None
        }
    }

    open spec fn sound(&self) -> bool {
        &&& sound_in::<Boolish, BoolChange>(self.drawing)
        &&& sound_in::<Color, Color>(self.color)
        &&& sound_in::<Measure, Measure>(self.corner_radius)
        &&& sound_in::<Measure, Measure>(self.height)
        &&& sound_in::<Measure, Measure>(self.padding_left)
        &&& sound_in::<Measure, Measure>(self.padding_right)
        &&& sound_in::<Color, Color>(self.border_color)
        &&& sound_in::<Measure, Measure>(self.border_width)
    }

    open spec fn steady(&self) -> bool {
        &&& steady_in::<Boolish, BoolChange>(self.drawing)
        &&& steady_in::<Color, Color>(self.color)
        &&& steady_in::<Measure, Measure>(self.corner_radius)
        &&& steady_in::<Measure, Measure>(self.height)
        &&& steady_in::<Measure, Measure>(self.padding_left)
        &&& steady_in::<Measure, Measure>(self.padding_right)
        &&& steady_in::<Color, Color>(self.border_color)
        &&& steady_in::<Measure, Measure>(self.border_width)
    }

    proof fn becomes_another(&self, current: BackgroundModel) {
        law_background_reports_what_moved(*self, current);
    }

    proof fn changes_once(&self, current: BackgroundModel) {
        law_saying_it_again_changes_nothing::<Boolish, BoolChange>(self.drawing, current.drawing);
        law_saying_it_again_changes_nothing::<Color, Color>(self.color, current.color);
        law_saying_it_again_changes_nothing::<Measure, Measure>(self.corner_radius, current.corner_radius);
        law_saying_it_again_changes_nothing::<Measure, Measure>(self.height, current.height);
        law_saying_it_again_changes_nothing::<Measure, Measure>(self.padding_left, current.padding_left);
        law_saying_it_again_changes_nothing::<Measure, Measure>(self.padding_right, current.padding_right);
        law_saying_it_again_changes_nothing::<Color, Color>(self.border_color, current.border_color);
        law_saying_it_again_changes_nothing::<Measure, Measure>(self.border_width, current.border_width);
    }

    fn moved(&self, current: &Background) -> (r: Option<(Background, BackgroundMoved)>) {
        let (drawing, drawing_moved) = applied::<Boolish, BoolChange>(&self.drawing, &current.drawing);
        let (color, color_moved) = applied::<Color, Color>(&self.color, &current.color);
        let (corner_radius, corner_radius_moved) = applied::<Measure, Measure>(&self.corner_radius, &current.corner_radius);
        let (height, height_moved) = applied::<Measure, Measure>(&self.height, &current.height);
        let (padding_left, padding_left_moved) = applied::<Measure, Measure>(&self.padding_left, &current.padding_left);
        let (padding_right, padding_right_moved) = applied::<Measure, Measure>(&self.padding_right, &current.padding_right);
        let (border_color, border_color_moved) = applied::<Color, Color>(&self.border_color, &current.border_color);
        let (border_width, border_width_moved) = applied::<Measure, Measure>(&self.border_width, &current.border_width);
        let moved = BackgroundMoved {
            drawing: drawing_moved,
            color: color_moved,
            corner_radius: corner_radius_moved,
            height: height_moved,
            padding_left: padding_left_moved,
            padding_right: padding_right_moved,
            border_color: border_color_moved,
            border_width: border_width_moved,
        };
        if moved.any() {
            let next = Background {
                drawing,
                color,
                corner_radius,
                height,
                padding_left,
                padding_right,
                border_color,
                border_width,
            };
            Some((next, moved))
        } else {
            None
        }
    }
}

impl BackgroundPatch {
    /// A patch that says nothing.
    pub open spec fn nothing() -> BackgroundPatch {
        BackgroundPatch {
            drawing: None,
            color: None,
            corner_radius: None,
            height: None,
            padding_left: None,
            padding_right: None,
            border_color: None,
            border_width: None,
        }
    }

    /// What applying this makes of a value.
    pub open spec fn next(&self, current: BackgroundModel) -> BackgroundModel {
        BackgroundModel {
            drawing: after::<Boolish, BoolChange>(self.drawing, current.drawing),
            color: after::<Color, Color>(self.color, current.color),
            corner_radius: after::<Measure, Measure>(self.corner_radius, current.corner_radius),
            height: after::<Measure, Measure>(self.height, current.height),
            padding_left: after::<Measure, Measure>(self.padding_left, current.padding_left),
            padding_right: after::<Measure, Measure>(self.padding_right, current.padding_right),
            border_color: after::<Color, Color>(self.border_color, current.border_color),
            border_width: after::<Measure, Measure>(self.border_width, current.border_width),
        }
    }

    /// What applying this moves in a value.
    pub open spec fn record(&self, current: BackgroundModel) -> BackgroundMoved {
        BackgroundMoved {
            drawing: moved_in::<Boolish, BoolChange>(self.drawing, current.drawing),
            color: moved_in::<Color, Color>(self.color, current.color),
            corner_radius: moved_in::<Measure, Measure>(self.corner_radius, current.corner_radius),
            height: moved_in::<Measure, Measure>(self.height, current.height),
            padding_left: moved_in::<Measure, Measure>(self.padding_left, current.padding_left),
            padding_right: moved_in::<Measure, Measure>(self.padding_right, current.padding_right),
            border_color: moved_in::<Color, Color>(self.border_color, current.border_color),
            border_width: moved_in::<Measure, Measure>(self.border_width, current.border_width),
        }
    }

    /// Two patches as one: whatever the later says of a field counts, and a
    /// patch within a patch is folded field by field.
    pub open spec fn with(self, other: BackgroundPatch) -> BackgroundPatch {
        BackgroundPatch {
            drawing: later(self.drawing, other.drawing),
            color: later(self.color, other.color),
            corner_radius: later(self.corner_radius, other.corner_radius),
            height: later(self.height, other.height),
            padding_left: later(self.padding_left, other.padding_left),
            padding_right: later(self.padding_right, other.padding_right),
            border_color: later(self.border_color, other.border_color),
            border_width: later(self.border_width, other.border_width),
        }
    }

    /// Two patches as one: whatever the later says of a field counts, and a
    /// patch within a patch is folded field by field.
    pub fn folded(self, other: BackgroundPatch) -> (r: BackgroundPatch)
        ensures
            r == self.with(other),
    {
        BackgroundPatch {
            drawing: fold(self.drawing, other.drawing),
            color: fold(self.color, other.color),
            corner_radius: fold(self.corner_radius, other.corner_radius),
            height: fold(self.height, other.height),
            padding_left: fold(self.padding_left, other.padding_left),
            padding_right: fold(self.padding_right, other.padding_right),
            border_color: fold(self.border_color, other.border_color),
            border_width: fold(self.border_width, other.border_width),
        }
    }

    /// Every property this has to say to build a whole one, and does not.
    pub open spec fn absent(&self) -> Seq<Seq<char>> {
        Seq::empty()
    }

    /// Every property this has to say to build a whole one, and does not.
    pub fn absent_fields(&self) -> (r: Vec<&'static str>)
        ensures
            field_names(r@) == self.absent(),
    {
        let absent: Vec<&'static str> = Vec::new();
        proof {
            assert(field_names(absent@) =~= Seq::<Seq<char>>::empty());
        }
        absent
    }

    /// The same, as what to say of it.
    pub fn missing(&self) -> (r: Option<Missing>)
        ensures
            r is None <==> self.absent().len() == 0,
            r matches Some(missing) ==> missing.what@ == "an item's background"@ && field_names(
                missing.fields@,
            ) == self.absent(),
    {
        let absent = self.absent_fields();
        proof {
            assert(field_names(absent@).len() == absent@.len());
        }
        Missing::new("an item's background", absent)
    }

    /// A whole one from what this says, and what there is without anybody
    /// saying so.
    pub open spec fn whole(&self) -> BackgroundModel {
        BackgroundModel {
            drawing: after::<Boolish, BoolChange>(self.drawing, <Boolish as Blank>::blank()),
            color: after::<Color, Color>(self.color, <Color as Blank>::blank()),
            corner_radius: after::<Measure, Measure>(self.corner_radius, <Measure as Blank>::blank()),
            height: after::<Measure, Measure>(self.height, <Measure as Blank>::blank()),
            padding_left: after::<Measure, Measure>(self.padding_left, <Measure as Blank>::blank()),
            padding_right: after::<Measure, Measure>(self.padding_right, <Measure as Blank>::blank()),
            border_color: after::<Color, Color>(self.border_color, <Color as Blank>::blank()),
            border_width: after::<Measure, Measure>(self.border_width, <Measure as Blank>::blank()),
        }
    }

    /// A whole one rather than a change to one.
    ///
    /// What has no value without anybody saying so has to have been said, and
    /// everything that was not is reported at once.
    pub fn construct(&self) -> (r: Result<Background, Missing>)
        ensures
            match r {
                Ok(value) => self.absent().len() == 0 && value.model() == self.whole(),
                Err(missing) => self.absent().len() > 0 && missing.what@ == "an item's background"@
                    && field_names(missing.fields@) == self.absent(),
            },
    {
        if let Some(missing) = self.missing() {
            return Err(missing);
        }
        Ok(Background {
            drawing: built::<Boolish, BoolChange>(&self.drawing),
            color: built::<Color, Color>(&self.color),
            corner_radius: built::<Measure, Measure>(&self.corner_radius),
            height: built::<Measure, Measure>(&self.height),
            padding_left: built::<Measure, Measure>(&self.padding_left),
            padding_right: built::<Measure, Measure>(&self.padding_right),
            border_color: built::<Color, Color>(&self.border_color),
            border_width: built::<Measure, Measure>(&self.border_width),
        })
    }
}

/// A property of [`BackgroundPatch`] as a key names it.
#[derive(Debug, Clone, Copy, PartialEq, Eq, Structural)]
pub enum BackgroundKey {
    Drawing,
    Color,
    CornerRadius,
    Height,
    PaddingLeft,
    PaddingRight,
    BorderColor,
    BorderWidth,
}

/// What a key names: every spelling of a property, a colour spelled either way.
pub open spec fn background_key(key: Seq<char>) -> Option<BackgroundKey> {
    if key == "drawing"@ {
        Some(BackgroundKey::Drawing)
    } else if key == "color"@ || key == "colour"@ {
        Some(BackgroundKey::Color)
    } else if key == "corner_radius"@ {
        Some(BackgroundKey::CornerRadius)
    } else if key == "height"@ {
        Some(BackgroundKey::Height)
    } else if key == "padding_left"@ {
        Some(BackgroundKey::PaddingLeft)
    } else if key == "padding_right"@ {
        Some(BackgroundKey::PaddingRight)
    } else if key == "border_color"@ || key == "border_colour"@ {
        Some(BackgroundKey::BorderColor)
    } else if key == "border_width"@ {
        Some(BackgroundKey::BorderWidth)
    } else {
        None
    }
}

impl BackgroundKey {
    /// What a key names.
    pub fn of(key: &str) -> (r: Option<BackgroundKey>)
        ensures
            r == background_key(key@),
    {
        if same(key, "drawing") {
            Some(BackgroundKey::Drawing)
        } else if same(key, "color") || same(key, "colour") {
            Some(BackgroundKey::Color)
        } else if same(key, "corner_radius") {
            Some(BackgroundKey::CornerRadius)
        } else if same(key, "height") {
            Some(BackgroundKey::Height)
        } else if same(key, "padding_left") {
            Some(BackgroundKey::PaddingLeft)
        } else if same(key, "padding_right") {
            Some(BackgroundKey::PaddingRight)
        } else if same(key, "border_color") || same(key, "border_colour") {
            Some(BackgroundKey::BorderColor)
        } else if same(key, "border_width") {
            Some(BackgroundKey::BorderWidth)
        } else {
            None
        }
    }
}

// ---------------------------------------------------------------------------
// BarState

/// What the bar looks like.
#[derive(Debug, Clone, PartialEq)]
pub struct BarState {
    /// How high it is.
    pub height: Measure,
    /// Which edge of the display it occupies.
    pub edge: Edge,
    /// What colour it is.
    pub color: Color,
    /// Inset from the edges of the screen.
    pub margin: Measure,
    /// Distance from its edge.
    pub y_offset: Measure,
    /// How round its corners are.
    pub corner_radius: Measure,
    /// How far what is behind it is blurred.
    pub blur_radius: i32,
    /// Whether it sits above the system menu bar.
    pub topmost: Boolish,
    /// Whether it is hidden.
    pub hidden: Boolish,
    /// How many displays have a panel. Counted, so that no patch carries it.
    pub displays: usize,
    /// Space before the first item.
    pub padding_left: Measure,
    /// Space after the last item.
    pub padding_right: Measure,
    /// Which displays it appears on.
    pub display: DisplayTarget,
    /// Whether it stays put across a space switch.
    pub sticky: Boolish,
    /// Whether it draws over a fullscreen app.
    pub show_in_fullscreen: Boolish,
    /// The gap the centre leaves around the notch.
    pub notch_width: Measure,
    /// Added to the bar's frame on the built-in display.
    pub notch_offset: Measure,
    /// The height on the built-in display, where above zero.
    pub notch_display_height: Measure,
}

/// [`BarState`] over plain values.
pub struct BarStateModel {
    pub height: MeasureView,
    pub edge: Edge,
    pub color: Color,
    pub margin: MeasureView,
    pub y_offset: MeasureView,
    pub corner_radius: MeasureView,
    pub blur_radius: i32,
    pub topmost: Boolish,
    pub hidden: Boolish,
    pub displays: usize,
    pub padding_left: MeasureView,
    pub padding_right: MeasureView,
    pub display: DisplayTarget,
    pub sticky: Boolish,
    pub show_in_fullscreen: Boolish,
    pub notch_width: MeasureView,
    pub notch_offset: MeasureView,
    pub notch_display_height: MeasureView,
}

impl Modelled for BarState {
    type Model = BarStateModel;

    open spec fn model(&self) -> BarStateModel {
        BarStateModel {
            height: self.height.model(),
            edge: self.edge.model(),
            color: self.color.model(),
            margin: self.margin.model(),
            y_offset: self.y_offset.model(),
            corner_radius: self.corner_radius.model(),
            blur_radius: self.blur_radius.model(),
            topmost: self.topmost.model(),
            hidden: self.hidden.model(),
            displays: self.displays.model(),
            padding_left: self.padding_left.model(),
            padding_right: self.padding_right.model(),
            display: self.display.model(),
            sticky: self.sticky.model(),
            show_in_fullscreen: self.show_in_fullscreen.model(),
            notch_width: self.notch_width.model(),
            notch_offset: self.notch_offset.model(),
            notch_display_height: self.notch_display_height.model(),
        }
    }

    fn copy(&self) -> (r: Self) {
        BarState {
            height: self.height.copy(),
            edge: self.edge.copy(),
            color: self.color.copy(),
            margin: self.margin.copy(),
            y_offset: self.y_offset.copy(),
            corner_radius: self.corner_radius.copy(),
            blur_radius: self.blur_radius.copy(),
            topmost: self.topmost.copy(),
            hidden: self.hidden.copy(),
            displays: self.displays.copy(),
            padding_left: self.padding_left.copy(),
            padding_right: self.padding_right.copy(),
            display: self.display.copy(),
            sticky: self.sticky.copy(),
            show_in_fullscreen: self.show_in_fullscreen.copy(),
            notch_width: self.notch_width.copy(),
            notch_offset: self.notch_offset.copy(),
            notch_display_height: self.notch_display_height.copy(),
        }
    }
}

/// What to change of [`BarState`].
#[derive(Debug, Clone, PartialEq)]
pub struct BarPatch {
    /// How high it is.
    pub height: Option<Measure>,
    /// Which edge of the display it occupies.
    pub edge: Option<Edge>,
    /// What colour it is.
    pub color: Option<Color>,
    /// Inset from the edges of the screen.
    pub margin: Option<Measure>,
    /// Distance from its edge.
    pub y_offset: Option<Measure>,
    /// How round its corners are.
    pub corner_radius: Option<Measure>,
    /// How far what is behind it is blurred.
    pub blur_radius: Option<i32>,
    /// Whether it sits above the system menu bar.
    pub topmost: Option<BoolChange>,
    /// Whether it is hidden.
    pub hidden: Option<BoolChange>,
    /// Space before the first item.
    pub padding_left: Option<Measure>,
    /// Space after the last item.
    pub padding_right: Option<Measure>,
    /// Which displays it appears on.
    pub display: Option<DisplayTarget>,
    /// Whether it stays put across a space switch.
    pub sticky: Option<BoolChange>,
    /// Whether it draws over a fullscreen app.
    pub show_in_fullscreen: Option<BoolChange>,
    /// The gap the centre leaves around the notch.
    pub notch_width: Option<Measure>,
    /// Added to the bar's frame on the built-in display.
    pub notch_offset: Option<Measure>,
    /// The height on the built-in display, where above zero.
    pub notch_display_height: Option<Measure>,
}

/// Which fields of [`BarState`] a [`BarPatch`] moved.
#[derive(Debug, Clone, Copy, PartialEq)]
pub struct BarStateMoved {
    pub height: Option<()>,
    pub edge: Option<()>,
    pub color: Option<()>,
    pub margin: Option<()>,
    pub y_offset: Option<()>,
    pub corner_radius: Option<()>,
    pub blur_radius: Option<()>,
    pub topmost: Option<()>,
    pub hidden: Option<()>,
    pub padding_left: Option<()>,
    pub padding_right: Option<()>,
    pub display: Option<()>,
    pub sticky: Option<()>,
    pub show_in_fullscreen: Option<()>,
    pub notch_width: Option<()>,
    pub notch_offset: Option<()>,
    pub notch_display_height: Option<()>,
}

/// [`BarPatch`] over plain values.
pub struct BarPatchView {
    pub height: Option<MeasureView>,
    pub edge: Option<Edge>,
    pub color: Option<Color>,
    pub margin: Option<MeasureView>,
    pub y_offset: Option<MeasureView>,
    pub corner_radius: Option<MeasureView>,
    pub blur_radius: Option<i32>,
    pub topmost: Option<BoolChange>,
    pub hidden: Option<BoolChange>,
    pub padding_left: Option<MeasureView>,
    pub padding_right: Option<MeasureView>,
    pub display: Option<DisplayTarget>,
    pub sticky: Option<BoolChange>,
    pub show_in_fullscreen: Option<BoolChange>,
    pub notch_width: Option<MeasureView>,
    pub notch_offset: Option<MeasureView>,
    pub notch_display_height: Option<MeasureView>,
}

impl View for BarPatch {
    type V = BarPatchView;

    open spec fn view(&self) -> BarPatchView {
        BarPatchView {
            height: match self.height {
                Some(value) => Some(value.model()),
                None => None,
            },
            edge: self.edge,
            color: self.color,
            margin: match self.margin {
                Some(value) => Some(value.model()),
                None => None,
            },
            y_offset: match self.y_offset {
                Some(value) => Some(value.model()),
                None => None,
            },
            corner_radius: match self.corner_radius {
                Some(value) => Some(value.model()),
                None => None,
            },
            blur_radius: self.blur_radius,
            topmost: self.topmost,
            hidden: self.hidden,
            padding_left: match self.padding_left {
                Some(value) => Some(value.model()),
                None => None,
            },
            padding_right: match self.padding_right {
                Some(value) => Some(value.model()),
                None => None,
            },
            display: self.display,
            sticky: self.sticky,
            show_in_fullscreen: self.show_in_fullscreen,
            notch_width: match self.notch_width {
                Some(value) => Some(value.model()),
                None => None,
            },
            notch_offset: match self.notch_offset {
                Some(value) => Some(value.model()),
                None => None,
            },
            notch_display_height: match self.notch_display_height {
                Some(value) => Some(value.model()),
                None => None,
            },
        }
    }
}

impl BarStateMoved {
    /// Whether anything moved at all.
    pub open spec fn anything(&self) -> bool {
        self.height is Some || self.edge is Some || self.color is Some || self.margin is Some || self.y_offset is Some || self.corner_radius is Some || self.blur_radius is Some || self.topmost is Some || self.hidden is Some || self.padding_left is Some || self.padding_right is Some || self.display is Some || self.sticky is Some || self.show_in_fullscreen is Some || self.notch_width is Some || self.notch_offset is Some || self.notch_display_height is Some
    }

    /// Whether anything moved at all.
    pub fn any(&self) -> (r: bool)
        ensures
            r == self.anything(),
    {
        self.height.is_some() || self.edge.is_some() || self.color.is_some() || self.margin.is_some() || self.y_offset.is_some() || self.corner_radius.is_some() || self.blur_radius.is_some() || self.topmost.is_some() || self.hidden.is_some() || self.padding_left.is_some() || self.padding_right.is_some() || self.display.is_some() || self.sticky.is_some() || self.show_in_fullscreen.is_some() || self.notch_width.is_some() || self.notch_offset.is_some() || self.notch_display_height.is_some()
    }
}

impl Default for BarPatch {
    fn default() -> (r: Self)
        ensures
            r == BarPatch::nothing(),
    {
        BarPatch {
            height: None,
            edge: None,
            color: None,
            margin: None,
            y_offset: None,
            corner_radius: None,
            blur_radius: None,
            topmost: None,
            hidden: None,
            padding_left: None,
            padding_right: None,
            display: None,
            sticky: None,
            show_in_fullscreen: None,
            notch_width: None,
            notch_offset: None,
            notch_display_height: None,
        }
    }
}

impl Changes<BarState> for BarPatch {
    type Moved = BarStateMoved;

    open spec fn outcome(&self, current: BarStateModel) -> Option<(BarStateModel, BarStateMoved)> {
        if self.record(current).anything() {
            Some((self.next(current), self.record(current)))
        } else {
            None
        }
    }

    open spec fn sound(&self) -> bool {
        &&& sound_in::<Measure, Measure>(self.height)
        &&& sound_in::<Edge, Edge>(self.edge)
        &&& sound_in::<Color, Color>(self.color)
        &&& sound_in::<Measure, Measure>(self.margin)
        &&& sound_in::<Measure, Measure>(self.y_offset)
        &&& sound_in::<Measure, Measure>(self.corner_radius)
        &&& sound_in::<i32, i32>(self.blur_radius)
        &&& sound_in::<Boolish, BoolChange>(self.topmost)
        &&& sound_in::<Boolish, BoolChange>(self.hidden)
        &&& sound_in::<Measure, Measure>(self.padding_left)
        &&& sound_in::<Measure, Measure>(self.padding_right)
        &&& sound_in::<DisplayTarget, DisplayTarget>(self.display)
        &&& sound_in::<Boolish, BoolChange>(self.sticky)
        &&& sound_in::<Boolish, BoolChange>(self.show_in_fullscreen)
        &&& sound_in::<Measure, Measure>(self.notch_width)
        &&& sound_in::<Measure, Measure>(self.notch_offset)
        &&& sound_in::<Measure, Measure>(self.notch_display_height)
    }

    open spec fn steady(&self) -> bool {
        &&& steady_in::<Measure, Measure>(self.height)
        &&& steady_in::<Edge, Edge>(self.edge)
        &&& steady_in::<Color, Color>(self.color)
        &&& steady_in::<Measure, Measure>(self.margin)
        &&& steady_in::<Measure, Measure>(self.y_offset)
        &&& steady_in::<Measure, Measure>(self.corner_radius)
        &&& steady_in::<i32, i32>(self.blur_radius)
        &&& steady_in::<Boolish, BoolChange>(self.topmost)
        &&& steady_in::<Boolish, BoolChange>(self.hidden)
        &&& steady_in::<Measure, Measure>(self.padding_left)
        &&& steady_in::<Measure, Measure>(self.padding_right)
        &&& steady_in::<DisplayTarget, DisplayTarget>(self.display)
        &&& steady_in::<Boolish, BoolChange>(self.sticky)
        &&& steady_in::<Boolish, BoolChange>(self.show_in_fullscreen)
        &&& steady_in::<Measure, Measure>(self.notch_width)
        &&& steady_in::<Measure, Measure>(self.notch_offset)
        &&& steady_in::<Measure, Measure>(self.notch_display_height)
    }

    proof fn becomes_another(&self, current: BarStateModel) {
        law_bar_reports_what_moved(*self, current);
    }

    proof fn changes_once(&self, current: BarStateModel) {
        law_saying_it_again_changes_nothing::<Measure, Measure>(self.height, current.height);
        law_saying_it_again_changes_nothing::<Edge, Edge>(self.edge, current.edge);
        law_saying_it_again_changes_nothing::<Color, Color>(self.color, current.color);
        law_saying_it_again_changes_nothing::<Measure, Measure>(self.margin, current.margin);
        law_saying_it_again_changes_nothing::<Measure, Measure>(self.y_offset, current.y_offset);
        law_saying_it_again_changes_nothing::<Measure, Measure>(self.corner_radius, current.corner_radius);
        law_saying_it_again_changes_nothing::<i32, i32>(self.blur_radius, current.blur_radius);
        law_saying_it_again_changes_nothing::<Boolish, BoolChange>(self.topmost, current.topmost);
        law_saying_it_again_changes_nothing::<Boolish, BoolChange>(self.hidden, current.hidden);
        law_saying_it_again_changes_nothing::<Measure, Measure>(self.padding_left, current.padding_left);
        law_saying_it_again_changes_nothing::<Measure, Measure>(self.padding_right, current.padding_right);
        law_saying_it_again_changes_nothing::<DisplayTarget, DisplayTarget>(self.display, current.display);
        law_saying_it_again_changes_nothing::<Boolish, BoolChange>(self.sticky, current.sticky);
        law_saying_it_again_changes_nothing::<Boolish, BoolChange>(self.show_in_fullscreen, current.show_in_fullscreen);
        law_saying_it_again_changes_nothing::<Measure, Measure>(self.notch_width, current.notch_width);
        law_saying_it_again_changes_nothing::<Measure, Measure>(self.notch_offset, current.notch_offset);
        law_saying_it_again_changes_nothing::<Measure, Measure>(self.notch_display_height, current.notch_display_height);
    }

    fn moved(&self, current: &BarState) -> (r: Option<(BarState, BarStateMoved)>) {
        let (height, height_moved) = applied::<Measure, Measure>(&self.height, &current.height);
        let (edge, edge_moved) = applied::<Edge, Edge>(&self.edge, &current.edge);
        let (color, color_moved) = applied::<Color, Color>(&self.color, &current.color);
        let (margin, margin_moved) = applied::<Measure, Measure>(&self.margin, &current.margin);
        let (y_offset, y_offset_moved) = applied::<Measure, Measure>(&self.y_offset, &current.y_offset);
        let (corner_radius, corner_radius_moved) = applied::<Measure, Measure>(&self.corner_radius, &current.corner_radius);
        let (blur_radius, blur_radius_moved) = applied::<i32, i32>(&self.blur_radius, &current.blur_radius);
        let (topmost, topmost_moved) = applied::<Boolish, BoolChange>(&self.topmost, &current.topmost);
        let (hidden, hidden_moved) = applied::<Boolish, BoolChange>(&self.hidden, &current.hidden);
        let (padding_left, padding_left_moved) = applied::<Measure, Measure>(&self.padding_left, &current.padding_left);
        let (padding_right, padding_right_moved) = applied::<Measure, Measure>(&self.padding_right, &current.padding_right);
        let (display, display_moved) = applied::<DisplayTarget, DisplayTarget>(&self.display, &current.display);
        let (sticky, sticky_moved) = applied::<Boolish, BoolChange>(&self.sticky, &current.sticky);
        let (show_in_fullscreen, show_in_fullscreen_moved) = applied::<Boolish, BoolChange>(&self.show_in_fullscreen, &current.show_in_fullscreen);
        let (notch_width, notch_width_moved) = applied::<Measure, Measure>(&self.notch_width, &current.notch_width);
        let (notch_offset, notch_offset_moved) = applied::<Measure, Measure>(&self.notch_offset, &current.notch_offset);
        let (notch_display_height, notch_display_height_moved) = applied::<Measure, Measure>(&self.notch_display_height, &current.notch_display_height);
        let moved = BarStateMoved {
            height: height_moved,
            edge: edge_moved,
            color: color_moved,
            margin: margin_moved,
            y_offset: y_offset_moved,
            corner_radius: corner_radius_moved,
            blur_radius: blur_radius_moved,
            topmost: topmost_moved,
            hidden: hidden_moved,
            padding_left: padding_left_moved,
            padding_right: padding_right_moved,
            display: display_moved,
            sticky: sticky_moved,
            show_in_fullscreen: show_in_fullscreen_moved,
            notch_width: notch_width_moved,
            notch_offset: notch_offset_moved,
            notch_display_height: notch_display_height_moved,
        };
        if moved.any() {
            let next = BarState {
                height,
                edge,
                color,
                margin,
                y_offset,
                corner_radius,
                blur_radius,
                topmost,
                hidden,
                displays: current.displays.copy(),
                padding_left,
                padding_right,
                display,
                sticky,
                show_in_fullscreen,
                notch_width,
                notch_offset,
                notch_display_height,
            };
            Some((next, moved))
        } else {
            None
        }
    }
}

impl BarPatch {
    /// A patch that says nothing.
    pub open spec fn nothing() -> BarPatch {
        BarPatch {
            height: None,
            edge: None,
            color: None,
            margin: None,
            y_offset: None,
            corner_radius: None,
            blur_radius: None,
            topmost: None,
            hidden: None,
            padding_left: None,
            padding_right: None,
            display: None,
            sticky: None,
            show_in_fullscreen: None,
            notch_width: None,
            notch_offset: None,
            notch_display_height: None,
        }
    }

    /// What applying this makes of a value.
    pub open spec fn next(&self, current: BarStateModel) -> BarStateModel {
        BarStateModel {
            height: after::<Measure, Measure>(self.height, current.height),
            edge: after::<Edge, Edge>(self.edge, current.edge),
            color: after::<Color, Color>(self.color, current.color),
            margin: after::<Measure, Measure>(self.margin, current.margin),
            y_offset: after::<Measure, Measure>(self.y_offset, current.y_offset),
            corner_radius: after::<Measure, Measure>(self.corner_radius, current.corner_radius),
            blur_radius: after::<i32, i32>(self.blur_radius, current.blur_radius),
            topmost: after::<Boolish, BoolChange>(self.topmost, current.topmost),
            hidden: after::<Boolish, BoolChange>(self.hidden, current.hidden),
            displays: current.displays,
            padding_left: after::<Measure, Measure>(self.padding_left, current.padding_left),
            padding_right: after::<Measure, Measure>(self.padding_right, current.padding_right),
            display: after::<DisplayTarget, DisplayTarget>(self.display, current.display),
            sticky: after::<Boolish, BoolChange>(self.sticky, current.sticky),
            show_in_fullscreen: after::<Boolish, BoolChange>(self.show_in_fullscreen, current.show_in_fullscreen),
            notch_width: after::<Measure, Measure>(self.notch_width, current.notch_width),
            notch_offset: after::<Measure, Measure>(self.notch_offset, current.notch_offset),
            notch_display_height: after::<Measure, Measure>(self.notch_display_height, current.notch_display_height),
        }
    }

    /// What applying this moves in a value.
    pub open spec fn record(&self, current: BarStateModel) -> BarStateMoved {
        BarStateMoved {
            height: moved_in::<Measure, Measure>(self.height, current.height),
            edge: moved_in::<Edge, Edge>(self.edge, current.edge),
            color: moved_in::<Color, Color>(self.color, current.color),
            margin: moved_in::<Measure, Measure>(self.margin, current.margin),
            y_offset: moved_in::<Measure, Measure>(self.y_offset, current.y_offset),
            corner_radius: moved_in::<Measure, Measure>(self.corner_radius, current.corner_radius),
            blur_radius: moved_in::<i32, i32>(self.blur_radius, current.blur_radius),
            topmost: moved_in::<Boolish, BoolChange>(self.topmost, current.topmost),
            hidden: moved_in::<Boolish, BoolChange>(self.hidden, current.hidden),
            padding_left: moved_in::<Measure, Measure>(self.padding_left, current.padding_left),
            padding_right: moved_in::<Measure, Measure>(self.padding_right, current.padding_right),
            display: moved_in::<DisplayTarget, DisplayTarget>(self.display, current.display),
            sticky: moved_in::<Boolish, BoolChange>(self.sticky, current.sticky),
            show_in_fullscreen: moved_in::<Boolish, BoolChange>(self.show_in_fullscreen, current.show_in_fullscreen),
            notch_width: moved_in::<Measure, Measure>(self.notch_width, current.notch_width),
            notch_offset: moved_in::<Measure, Measure>(self.notch_offset, current.notch_offset),
            notch_display_height: moved_in::<Measure, Measure>(self.notch_display_height, current.notch_display_height),
        }
    }

    /// Two patches as one: whatever the later says of a field counts, and a
    /// patch within a patch is folded field by field.
    pub open spec fn with(self, other: BarPatch) -> BarPatch {
        BarPatch {
            height: later(self.height, other.height),
            edge: later(self.edge, other.edge),
            color: later(self.color, other.color),
            margin: later(self.margin, other.margin),
            y_offset: later(self.y_offset, other.y_offset),
            corner_radius: later(self.corner_radius, other.corner_radius),
            blur_radius: later(self.blur_radius, other.blur_radius),
            topmost: later(self.topmost, other.topmost),
            hidden: later(self.hidden, other.hidden),
            padding_left: later(self.padding_left, other.padding_left),
            padding_right: later(self.padding_right, other.padding_right),
            display: later(self.display, other.display),
            sticky: later(self.sticky, other.sticky),
            show_in_fullscreen: later(self.show_in_fullscreen, other.show_in_fullscreen),
            notch_width: later(self.notch_width, other.notch_width),
            notch_offset: later(self.notch_offset, other.notch_offset),
            notch_display_height: later(self.notch_display_height, other.notch_display_height),
        }
    }

    /// Two patches as one: whatever the later says of a field counts, and a
    /// patch within a patch is folded field by field.
    pub fn folded(self, other: BarPatch) -> (r: BarPatch)
        ensures
            r == self.with(other),
    {
        BarPatch {
            height: fold(self.height, other.height),
            edge: fold(self.edge, other.edge),
            color: fold(self.color, other.color),
            margin: fold(self.margin, other.margin),
            y_offset: fold(self.y_offset, other.y_offset),
            corner_radius: fold(self.corner_radius, other.corner_radius),
            blur_radius: fold(self.blur_radius, other.blur_radius),
            topmost: fold(self.topmost, other.topmost),
            hidden: fold(self.hidden, other.hidden),
            padding_left: fold(self.padding_left, other.padding_left),
            padding_right: fold(self.padding_right, other.padding_right),
            display: fold(self.display, other.display),
            sticky: fold(self.sticky, other.sticky),
            show_in_fullscreen: fold(self.show_in_fullscreen, other.show_in_fullscreen),
            notch_width: fold(self.notch_width, other.notch_width),
            notch_offset: fold(self.notch_offset, other.notch_offset),
            notch_display_height: fold(self.notch_display_height, other.notch_display_height),
        }
    }

    /// Every property this has to say to build a whole one, and does not.
    pub open spec fn absent(&self) -> Seq<Seq<char>> {
        Seq::empty()
    }

    /// Every property this has to say to build a whole one, and does not.
    pub fn absent_fields(&self) -> (r: Vec<&'static str>)
        ensures
            field_names(r@) == self.absent(),
    {
        let absent: Vec<&'static str> = Vec::new();
        proof {
            assert(field_names(absent@) =~= Seq::<Seq<char>>::empty());
        }
        absent
    }

    /// The same, as what to say of it.
    pub fn missing(&self) -> (r: Option<Missing>)
        ensures
            r is None <==> self.absent().len() == 0,
            r matches Some(missing) ==> missing.what@ == "the bar"@ && field_names(
                missing.fields@,
            ) == self.absent(),
    {
        let absent = self.absent_fields();
        proof {
            assert(field_names(absent@).len() == absent@.len());
        }
        Missing::new("the bar", absent)
    }

    /// A whole one from what this says, and what there is without anybody
    /// saying so.
    pub open spec fn whole(&self, displays: usize) -> BarStateModel {
        BarStateModel {
            height: after::<Measure, Measure>(self.height, <Measure as Blank>::blank()),
            edge: after::<Edge, Edge>(self.edge, <Edge as Blank>::blank()),
            color: after::<Color, Color>(self.color, <Color as Blank>::blank()),
            margin: after::<Measure, Measure>(self.margin, <Measure as Blank>::blank()),
            y_offset: after::<Measure, Measure>(self.y_offset, <Measure as Blank>::blank()),
            corner_radius: after::<Measure, Measure>(self.corner_radius, <Measure as Blank>::blank()),
            blur_radius: after::<i32, i32>(self.blur_radius, <i32 as Blank>::blank()),
            topmost: after::<Boolish, BoolChange>(self.topmost, <Boolish as Blank>::blank()),
            hidden: after::<Boolish, BoolChange>(self.hidden, <Boolish as Blank>::blank()),
            displays,
            padding_left: after::<Measure, Measure>(self.padding_left, <Measure as Blank>::blank()),
            padding_right: after::<Measure, Measure>(self.padding_right, <Measure as Blank>::blank()),
            display: after::<DisplayTarget, DisplayTarget>(self.display, <DisplayTarget as Blank>::blank()),
            sticky: after::<Boolish, BoolChange>(self.sticky, <Boolish as Blank>::blank()),
            show_in_fullscreen: after::<Boolish, BoolChange>(self.show_in_fullscreen, <Boolish as Blank>::blank()),
            notch_width: after::<Measure, Measure>(self.notch_width, <Measure as Blank>::blank()),
            notch_offset: after::<Measure, Measure>(self.notch_offset, <Measure as Blank>::blank()),
            notch_display_height: after::<Measure, Measure>(self.notch_display_height, <Measure as Blank>::blank()),
        }
    }

    /// A whole one rather than a change to one.
    ///
    /// What has no value without anybody saying so has to have been said, and
    /// everything that was not is reported at once.
    pub fn construct(&self, displays: usize) -> (r: Result<BarState, Missing>)
        ensures
            match r {
                Ok(value) => self.absent().len() == 0 && value.model() == self.whole(displays.model()),
                Err(missing) => self.absent().len() > 0 && missing.what@ == "the bar"@
                    && field_names(missing.fields@) == self.absent(),
            },
    {
        if let Some(missing) = self.missing() {
            return Err(missing);
        }
        Ok(BarState {
            height: built::<Measure, Measure>(&self.height),
            edge: built::<Edge, Edge>(&self.edge),
            color: built::<Color, Color>(&self.color),
            margin: built::<Measure, Measure>(&self.margin),
            y_offset: built::<Measure, Measure>(&self.y_offset),
            corner_radius: built::<Measure, Measure>(&self.corner_radius),
            blur_radius: built::<i32, i32>(&self.blur_radius),
            topmost: built::<Boolish, BoolChange>(&self.topmost),
            hidden: built::<Boolish, BoolChange>(&self.hidden),
            displays,
            padding_left: built::<Measure, Measure>(&self.padding_left),
            padding_right: built::<Measure, Measure>(&self.padding_right),
            display: built::<DisplayTarget, DisplayTarget>(&self.display),
            sticky: built::<Boolish, BoolChange>(&self.sticky),
            show_in_fullscreen: built::<Boolish, BoolChange>(&self.show_in_fullscreen),
            notch_width: built::<Measure, Measure>(&self.notch_width),
            notch_offset: built::<Measure, Measure>(&self.notch_offset),
            notch_display_height: built::<Measure, Measure>(&self.notch_display_height),
        })
    }
}

/// A property of [`BarPatch`] as a key names it.
#[derive(Debug, Clone, Copy, PartialEq, Eq, Structural)]
pub enum BarKey {
    Height,
    Edge,
    Color,
    Margin,
    YOffset,
    CornerRadius,
    BlurRadius,
    Topmost,
    Hidden,
    PaddingLeft,
    PaddingRight,
    Display,
    Sticky,
    ShowInFullscreen,
    NotchWidth,
    NotchOffset,
    NotchDisplayHeight,
}

/// What a key names: every spelling of a property, a colour spelled either way.
pub open spec fn bar_key(key: Seq<char>) -> Option<BarKey> {
    if key == "height"@ {
        Some(BarKey::Height)
    } else if key == "edge"@ || key == "position"@ {
        Some(BarKey::Edge)
    } else if key == "color"@ || key == "colour"@ {
        Some(BarKey::Color)
    } else if key == "margin"@ {
        Some(BarKey::Margin)
    } else if key == "y_offset"@ {
        Some(BarKey::YOffset)
    } else if key == "corner_radius"@ {
        Some(BarKey::CornerRadius)
    } else if key == "blur_radius"@ {
        Some(BarKey::BlurRadius)
    } else if key == "topmost"@ {
        Some(BarKey::Topmost)
    } else if key == "hidden"@ {
        Some(BarKey::Hidden)
    } else if key == "padding_left"@ {
        Some(BarKey::PaddingLeft)
    } else if key == "padding_right"@ {
        Some(BarKey::PaddingRight)
    } else if key == "display"@ {
        Some(BarKey::Display)
    } else if key == "sticky"@ {
        Some(BarKey::Sticky)
    } else if key == "show_in_fullscreen"@ {
        Some(BarKey::ShowInFullscreen)
    } else if key == "notch_width"@ {
        Some(BarKey::NotchWidth)
    } else if key == "notch_offset"@ {
        Some(BarKey::NotchOffset)
    } else if key == "notch_display_height"@ {
        Some(BarKey::NotchDisplayHeight)
    } else {
        None
    }
}

impl BarKey {
    /// What a key names.
    pub fn of(key: &str) -> (r: Option<BarKey>)
        ensures
            r == bar_key(key@),
    {
        if same(key, "height") {
            Some(BarKey::Height)
        } else if same(key, "edge") || same(key, "position") {
            Some(BarKey::Edge)
        } else if same(key, "color") || same(key, "colour") {
            Some(BarKey::Color)
        } else if same(key, "margin") {
            Some(BarKey::Margin)
        } else if same(key, "y_offset") {
            Some(BarKey::YOffset)
        } else if same(key, "corner_radius") {
            Some(BarKey::CornerRadius)
        } else if same(key, "blur_radius") {
            Some(BarKey::BlurRadius)
        } else if same(key, "topmost") {
            Some(BarKey::Topmost)
        } else if same(key, "hidden") {
            Some(BarKey::Hidden)
        } else if same(key, "padding_left") {
            Some(BarKey::PaddingLeft)
        } else if same(key, "padding_right") {
            Some(BarKey::PaddingRight)
        } else if same(key, "display") {
            Some(BarKey::Display)
        } else if same(key, "sticky") {
            Some(BarKey::Sticky)
        } else if same(key, "show_in_fullscreen") {
            Some(BarKey::ShowInFullscreen)
        } else if same(key, "notch_width") {
            Some(BarKey::NotchWidth)
        } else if same(key, "notch_offset") {
            Some(BarKey::NotchOffset)
        } else if same(key, "notch_display_height") {
            Some(BarKey::NotchDisplayHeight)
        } else {
            None
        }
    }
}

// ---------------------------------------------------------------------------
// Geometry

/// An item's place on the screen and what is behind it.
#[derive(Debug, Clone, PartialEq)]
pub struct Geometry {
    /// Whether the item is drawn.
    pub drawing: Boolish,
    /// Where along the bar the item sits. Without one there is nowhere to put it.
    pub position: Position,
    /// How far it is shifted.
    pub y_offset: Measure,
    /// Space before it.
    pub padding_left: Measure,
    /// Space after it.
    pub padding_right: Measure,
    /// A fixed width, or none for a measured one.
    pub width: Option<Measure>,
    /// Which displays it appears on.
    pub display: DisplayTarget,
    /// What is drawn behind it.
    pub background: Background,
}

/// [`Geometry`] over plain values.
pub struct GeometryModel {
    pub drawing: Boolish,
    pub position: PositionView,
    pub y_offset: MeasureView,
    pub padding_left: MeasureView,
    pub padding_right: MeasureView,
    pub width: Option<MeasureView>,
    pub display: DisplayTarget,
    pub background: BackgroundModel,
}

impl Modelled for Geometry {
    type Model = GeometryModel;

    open spec fn model(&self) -> GeometryModel {
        GeometryModel {
            drawing: self.drawing.model(),
            position: self.position.model(),
            y_offset: self.y_offset.model(),
            padding_left: self.padding_left.model(),
            padding_right: self.padding_right.model(),
            width: self.width.model(),
            display: self.display.model(),
            background: self.background.model(),
        }
    }

    fn copy(&self) -> (r: Self) {
        Geometry {
            drawing: self.drawing.copy(),
            position: self.position.copy(),
            y_offset: self.y_offset.copy(),
            padding_left: self.padding_left.copy(),
            padding_right: self.padding_right.copy(),
            width: self.width.copy(),
            display: self.display.copy(),
            background: self.background.copy(),
        }
    }
}

/// What to change of [`Geometry`].
#[derive(Debug, Clone, PartialEq)]
pub struct GeometryPatch {
    /// Whether the item is drawn.
    pub drawing: Option<BoolChange>,
    /// Where along the bar the item sits. Without one there is nowhere to put it.
    pub position: Option<Position>,
    /// How far it is shifted.
    pub y_offset: Option<Measure>,
    /// Space before it.
    pub padding_left: Option<Measure>,
    /// Space after it.
    pub padding_right: Option<Measure>,
    /// A fixed width, or none for a measured one.
    pub width: Option<Measure>,
    /// Which displays it appears on.
    pub display: Option<DisplayTarget>,
    /// What is drawn behind it.
    pub background: Option<BackgroundPatch>,
}

/// Which fields of [`Geometry`] a [`GeometryPatch`] moved.
#[derive(Debug, Clone, Copy, PartialEq)]
pub struct GeometryMoved {
    pub drawing: Option<()>,
    pub position: Option<()>,
    pub y_offset: Option<()>,
    pub padding_left: Option<()>,
    pub padding_right: Option<()>,
    pub width: Option<()>,
    pub display: Option<()>,
    pub background: Option<BackgroundMoved>,
}

/// [`GeometryPatch`] over plain values.
pub struct GeometryPatchView {
    pub drawing: Option<BoolChange>,
    pub position: Option<PositionView>,
    pub y_offset: Option<MeasureView>,
    pub padding_left: Option<MeasureView>,
    pub padding_right: Option<MeasureView>,
    pub width: Option<MeasureView>,
    pub display: Option<DisplayTarget>,
    pub background: Option<BackgroundPatchView>,
}

impl View for GeometryPatch {
    type V = GeometryPatchView;

    open spec fn view(&self) -> GeometryPatchView {
        GeometryPatchView {
            drawing: self.drawing,
            position: match self.position {
                Some(value) => Some(value@),
                None => None,
            },
            y_offset: match self.y_offset {
                Some(value) => Some(value.model()),
                None => None,
            },
            padding_left: match self.padding_left {
                Some(value) => Some(value.model()),
                None => None,
            },
            padding_right: match self.padding_right {
                Some(value) => Some(value.model()),
                None => None,
            },
            width: match self.width {
                Some(value) => Some(value.model()),
                None => None,
            },
            display: self.display,
            background: match self.background {
                Some(value) => Some(value@),
                None => None,
            },
        }
    }
}

impl GeometryMoved {
    /// Whether anything moved at all.
    pub open spec fn anything(&self) -> bool {
        self.drawing is Some || self.position is Some || self.y_offset is Some || self.padding_left is Some || self.padding_right is Some || self.width is Some || self.display is Some || self.background is Some
    }

    /// Whether anything moved at all.
    pub fn any(&self) -> (r: bool)
        ensures
            r == self.anything(),
    {
        self.drawing.is_some() || self.position.is_some() || self.y_offset.is_some() || self.padding_left.is_some() || self.padding_right.is_some() || self.width.is_some() || self.display.is_some() || self.background.is_some()
    }
}

impl Default for GeometryPatch {
    fn default() -> (r: Self)
        ensures
            r == GeometryPatch::nothing(),
    {
        GeometryPatch {
            drawing: None,
            position: None,
            y_offset: None,
            padding_left: None,
            padding_right: None,
            width: None,
            display: None,
            background: None,
        }
    }
}

impl Changes<Geometry> for GeometryPatch {
    type Moved = GeometryMoved;

    open spec fn outcome(&self, current: GeometryModel) -> Option<(GeometryModel, GeometryMoved)> {
        if self.record(current).anything() {
            Some((self.next(current), self.record(current)))
        } else {
            None
        }
    }

    open spec fn sound(&self) -> bool {
        &&& sound_in::<Boolish, BoolChange>(self.drawing)
        &&& sound_in::<Position, Position>(self.position)
        &&& sound_in::<Measure, Measure>(self.y_offset)
        &&& sound_in::<Measure, Measure>(self.padding_left)
        &&& sound_in::<Measure, Measure>(self.padding_right)
        &&& sound_in::<Option<Measure>, Measure>(self.width)
        &&& sound_in::<DisplayTarget, DisplayTarget>(self.display)
        &&& sound_in::<Background, BackgroundPatch>(self.background)
    }

    open spec fn steady(&self) -> bool {
        &&& steady_in::<Boolish, BoolChange>(self.drawing)
        &&& steady_in::<Position, Position>(self.position)
        &&& steady_in::<Measure, Measure>(self.y_offset)
        &&& steady_in::<Measure, Measure>(self.padding_left)
        &&& steady_in::<Measure, Measure>(self.padding_right)
        &&& steady_in::<Option<Measure>, Measure>(self.width)
        &&& steady_in::<DisplayTarget, DisplayTarget>(self.display)
        &&& steady_in::<Background, BackgroundPatch>(self.background)
    }

    proof fn becomes_another(&self, current: GeometryModel) {
        law_geometry_reports_what_moved(*self, current);
    }

    proof fn changes_once(&self, current: GeometryModel) {
        law_saying_it_again_changes_nothing::<Boolish, BoolChange>(self.drawing, current.drawing);
        law_saying_it_again_changes_nothing::<Position, Position>(self.position, current.position);
        law_saying_it_again_changes_nothing::<Measure, Measure>(self.y_offset, current.y_offset);
        law_saying_it_again_changes_nothing::<Measure, Measure>(self.padding_left, current.padding_left);
        law_saying_it_again_changes_nothing::<Measure, Measure>(self.padding_right, current.padding_right);
        law_saying_it_again_changes_nothing::<Option<Measure>, Measure>(self.width, current.width);
        law_saying_it_again_changes_nothing::<DisplayTarget, DisplayTarget>(self.display, current.display);
        law_saying_it_again_changes_nothing::<Background, BackgroundPatch>(self.background, current.background);
    }

    fn moved(&self, current: &Geometry) -> (r: Option<(Geometry, GeometryMoved)>) {
        let (drawing, drawing_moved) = applied::<Boolish, BoolChange>(&self.drawing, &current.drawing);
        let (position, position_moved) = applied::<Position, Position>(&self.position, &current.position);
        let (y_offset, y_offset_moved) = applied::<Measure, Measure>(&self.y_offset, &current.y_offset);
        let (padding_left, padding_left_moved) = applied::<Measure, Measure>(&self.padding_left, &current.padding_left);
        let (padding_right, padding_right_moved) = applied::<Measure, Measure>(&self.padding_right, &current.padding_right);
        let (width, width_moved) = applied::<Option<Measure>, Measure>(&self.width, &current.width);
        let (display, display_moved) = applied::<DisplayTarget, DisplayTarget>(&self.display, &current.display);
        let (background, background_moved) = applied::<Background, BackgroundPatch>(&self.background, &current.background);
        let moved = GeometryMoved {
            drawing: drawing_moved,
            position: position_moved,
            y_offset: y_offset_moved,
            padding_left: padding_left_moved,
            padding_right: padding_right_moved,
            width: width_moved,
            display: display_moved,
            background: background_moved,
        };
        if moved.any() {
            let next = Geometry {
                drawing,
                position,
                y_offset,
                padding_left,
                padding_right,
                width,
                display,
                background,
            };
            Some((next, moved))
        } else {
            None
        }
    }
}

impl GeometryPatch {
    /// A patch that says nothing.
    pub open spec fn nothing() -> GeometryPatch {
        GeometryPatch {
            drawing: None,
            position: None,
            y_offset: None,
            padding_left: None,
            padding_right: None,
            width: None,
            display: None,
            background: None,
        }
    }

    /// What applying this makes of a value.
    pub open spec fn next(&self, current: GeometryModel) -> GeometryModel {
        GeometryModel {
            drawing: after::<Boolish, BoolChange>(self.drawing, current.drawing),
            position: after::<Position, Position>(self.position, current.position),
            y_offset: after::<Measure, Measure>(self.y_offset, current.y_offset),
            padding_left: after::<Measure, Measure>(self.padding_left, current.padding_left),
            padding_right: after::<Measure, Measure>(self.padding_right, current.padding_right),
            width: after::<Option<Measure>, Measure>(self.width, current.width),
            display: after::<DisplayTarget, DisplayTarget>(self.display, current.display),
            background: after::<Background, BackgroundPatch>(self.background, current.background),
        }
    }

    /// What applying this moves in a value.
    pub open spec fn record(&self, current: GeometryModel) -> GeometryMoved {
        GeometryMoved {
            drawing: moved_in::<Boolish, BoolChange>(self.drawing, current.drawing),
            position: moved_in::<Position, Position>(self.position, current.position),
            y_offset: moved_in::<Measure, Measure>(self.y_offset, current.y_offset),
            padding_left: moved_in::<Measure, Measure>(self.padding_left, current.padding_left),
            padding_right: moved_in::<Measure, Measure>(self.padding_right, current.padding_right),
            width: moved_in::<Option<Measure>, Measure>(self.width, current.width),
            display: moved_in::<DisplayTarget, DisplayTarget>(self.display, current.display),
            background: moved_in::<Background, BackgroundPatch>(self.background, current.background),
        }
    }

    /// Two patches as one: whatever the later says of a field counts, and a
    /// patch within a patch is folded field by field.
    pub open spec fn with(self, other: GeometryPatch) -> GeometryPatch {
        GeometryPatch {
            drawing: later(self.drawing, other.drawing),
            position: later(self.position, other.position),
            y_offset: later(self.y_offset, other.y_offset),
            padding_left: later(self.padding_left, other.padding_left),
            padding_right: later(self.padding_right, other.padding_right),
            width: later(self.width, other.width),
            display: later(self.display, other.display),
            background: match (self.background, other.background) {
                (Some(mine), Some(theirs)) => Some(mine.with(theirs)),
                _ => later(self.background, other.background),
            },
        }
    }

    /// Two patches as one: whatever the later says of a field counts, and a
    /// patch within a patch is folded field by field.
    pub fn folded(self, other: GeometryPatch) -> (r: GeometryPatch)
        ensures
            r == self.with(other),
    {
        GeometryPatch {
            drawing: fold(self.drawing, other.drawing),
            position: fold(self.position, other.position),
            y_offset: fold(self.y_offset, other.y_offset),
            padding_left: fold(self.padding_left, other.padding_left),
            padding_right: fold(self.padding_right, other.padding_right),
            width: fold(self.width, other.width),
            display: fold(self.display, other.display),
            background: match (self.background, other.background) {
                (Some(mine), Some(theirs)) => Some(mine.folded(theirs)),
                (mine, theirs) => fold(mine, theirs),
            },
        }
    }

    /// Every property this has to say to build a whole one, and does not.
    pub open spec fn absent(&self) -> Seq<Seq<char>> {
        if self.position is None {
            seq!["position"@]
        } else {
            Seq::empty()
        }
    }

    /// Every property this has to say to build a whole one, and does not.
    pub fn absent_fields(&self) -> (r: Vec<&'static str>)
        ensures
            field_names(r@) == self.absent(),
    {
        let mut absent: Vec<&'static str> = Vec::new();
        if self.position.is_none() {
            absent.push("position");
        }
        proof {
            assert(field_names(absent@) =~= self.absent());
        }
        absent
    }

    /// The same, as what to say of it.
    pub fn missing(&self) -> (r: Option<Missing>)
        ensures
            r is None <==> self.absent().len() == 0,
            r matches Some(missing) ==> missing.what@ == "an item"@ && field_names(
                missing.fields@,
            ) == self.absent(),
    {
        let absent = self.absent_fields();
        proof {
            assert(field_names(absent@).len() == absent@.len());
        }
        Missing::new("an item", absent)
    }

    /// A whole one from what this says, and what there is without anybody
    /// saying so.
    pub open spec fn whole(&self) -> GeometryModel {
        GeometryModel {
            drawing: after::<Boolish, BoolChange>(self.drawing, <Boolish as Blank>::blank()),
            position: self.position->0.model(),
            y_offset: after::<Measure, Measure>(self.y_offset, <Measure as Blank>::blank()),
            padding_left: after::<Measure, Measure>(self.padding_left, <Measure as Blank>::blank()),
            padding_right: after::<Measure, Measure>(self.padding_right, <Measure as Blank>::blank()),
            width: after::<Option<Measure>, Measure>(self.width, <Option<Measure> as Blank>::blank()),
            display: after::<DisplayTarget, DisplayTarget>(self.display, <DisplayTarget as Blank>::blank()),
            background: after::<Background, BackgroundPatch>(self.background, <Background as Blank>::blank()),
        }
    }

    /// A whole one rather than a change to one.
    ///
    /// What has no value without anybody saying so has to have been said, and
    /// everything that was not is reported at once.
    pub fn construct(&self) -> (r: Result<Geometry, Missing>)
        ensures
            match r {
                Ok(value) => self.absent().len() == 0 && value.model() == self.whole(),
                Err(missing) => self.absent().len() > 0 && missing.what@ == "an item"@
                    && field_names(missing.fields@) == self.absent(),
            },
    {
        if let Some(missing) = self.missing() {
            return Err(missing);
        }
        let position = match &self.position {
            Some(value) => value.copy(),
            None => {
                proof {
                    assert(self.absent().len() > 0);
                }
                return Err(Missing { what: "an item", fields: self.absent_fields() });
            },
        };
        Ok(Geometry {
            drawing: built::<Boolish, BoolChange>(&self.drawing),
            position,
            y_offset: built::<Measure, Measure>(&self.y_offset),
            padding_left: built::<Measure, Measure>(&self.padding_left),
            padding_right: built::<Measure, Measure>(&self.padding_right),
            width: built::<Option<Measure>, Measure>(&self.width),
            display: built::<DisplayTarget, DisplayTarget>(&self.display),
            background: built::<Background, BackgroundPatch>(&self.background),
        })
    }
}

/// A property of [`GeometryPatch`] as a key names it.
#[derive(Debug, Clone, Copy, PartialEq, Eq, Structural)]
pub enum GeometryKey {
    Drawing,
    Position,
    YOffset,
    PaddingLeft,
    PaddingRight,
    Width,
    Display,
    Background,
}

/// What a key names: every spelling of a property, a colour spelled either way.
pub open spec fn geometry_key(key: Seq<char>) -> Option<GeometryKey> {
    if key == "drawing"@ {
        Some(GeometryKey::Drawing)
    } else if key == "position"@ {
        Some(GeometryKey::Position)
    } else if key == "y_offset"@ {
        Some(GeometryKey::YOffset)
    } else if key == "padding_left"@ {
        Some(GeometryKey::PaddingLeft)
    } else if key == "padding_right"@ {
        Some(GeometryKey::PaddingRight)
    } else if key == "width"@ {
        Some(GeometryKey::Width)
    } else if key == "display"@ {
        Some(GeometryKey::Display)
    } else if key == "background"@ {
        Some(GeometryKey::Background)
    } else {
        None
    }
}

impl GeometryKey {
    /// What a key names.
    pub fn of(key: &str) -> (r: Option<GeometryKey>)
        ensures
            r == geometry_key(key@),
    {
        if same(key, "drawing") {
            Some(GeometryKey::Drawing)
        } else if same(key, "position") {
            Some(GeometryKey::Position)
        } else if same(key, "y_offset") {
            Some(GeometryKey::YOffset)
        } else if same(key, "padding_left") {
            Some(GeometryKey::PaddingLeft)
        } else if same(key, "padding_right") {
            Some(GeometryKey::PaddingRight)
        } else if same(key, "width") {
            Some(GeometryKey::Width)
        } else if same(key, "display") {
            Some(GeometryKey::Display)
        } else if same(key, "background") {
            Some(GeometryKey::Background)
        } else {
            None
        }
    }
}

// ---------------------------------------------------------------------------
// Scripting

/// An item's scripting.
#[derive(Debug, Clone, PartialEq)]
pub struct Scripting {
    /// Run on every update. An empty text removes it.
    pub script: Option<String>,
    /// Run on a click. An empty text removes it.
    pub click_script: Option<String>,
    /// Seconds between routine updates, or zero for none.
    pub update_freq: u32,
    /// Whether the item runs its script and receives events at all.
    pub updates: Boolish,
}

/// [`Scripting`] over plain values.
pub struct ScriptingModel {
    pub script: Option<Seq<char>>,
    pub click_script: Option<Seq<char>>,
    pub update_freq: u32,
    pub updates: Boolish,
}

impl Modelled for Scripting {
    type Model = ScriptingModel;

    open spec fn model(&self) -> ScriptingModel {
        ScriptingModel {
            script: self.script.model(),
            click_script: self.click_script.model(),
            update_freq: self.update_freq.model(),
            updates: self.updates.model(),
        }
    }

    fn copy(&self) -> (r: Self) {
        Scripting {
            script: self.script.copy(),
            click_script: self.click_script.copy(),
            update_freq: self.update_freq.copy(),
            updates: self.updates.copy(),
        }
    }
}

impl Blank for Scripting {
    open spec fn blank() -> ScriptingModel {
        ScriptingModel {
            script: <Option<String> as Blank>::blank(),
            click_script: <Option<String> as Blank>::blank(),
            update_freq: <u32 as Blank>::blank(),
            updates: <Boolish as Blank>::blank(),
        }
    }

    fn fresh() -> (r: Self) {
        Scripting {
            script: <Option<String> as Blank>::fresh(),
            click_script: <Option<String> as Blank>::fresh(),
            update_freq: <u32 as Blank>::fresh(),
            updates: <Boolish as Blank>::fresh(),
        }
    }
}

impl Default for Scripting {
    fn default() -> (r: Self)
        ensures
            r.model() == <Scripting as Blank>::blank(),
    {
        <Scripting as Blank>::fresh()
    }
}

/// What to change of [`Scripting`].
#[derive(Debug, Clone, PartialEq)]
pub struct ScriptingPatch {
    /// Run on every update. An empty text removes it.
    pub script: Option<String>,
    /// Run on a click. An empty text removes it.
    pub click_script: Option<String>,
    /// Seconds between routine updates, or zero for none.
    pub update_freq: Option<u32>,
    /// Whether the item runs its script and receives events at all.
    pub updates: Option<BoolChange>,
}

/// Which fields of [`Scripting`] a [`ScriptingPatch`] moved.
#[derive(Debug, Clone, Copy, PartialEq)]
pub struct ScriptingMoved {
    pub script: Option<()>,
    pub click_script: Option<()>,
    pub update_freq: Option<()>,
    pub updates: Option<()>,
}

/// [`ScriptingPatch`] over plain values.
pub struct ScriptingPatchView {
    pub script: Option<Seq<char>>,
    pub click_script: Option<Seq<char>>,
    pub update_freq: Option<u32>,
    pub updates: Option<BoolChange>,
}

impl View for ScriptingPatch {
    type V = ScriptingPatchView;

    open spec fn view(&self) -> ScriptingPatchView {
        ScriptingPatchView {
            script: match self.script {
                Some(value) => Some(value@),
                None => None,
            },
            click_script: match self.click_script {
                Some(value) => Some(value@),
                None => None,
            },
            update_freq: self.update_freq,
            updates: self.updates,
        }
    }
}

impl ScriptingMoved {
    /// Whether anything moved at all.
    pub open spec fn anything(&self) -> bool {
        self.script is Some || self.click_script is Some || self.update_freq is Some || self.updates is Some
    }

    /// Whether anything moved at all.
    pub fn any(&self) -> (r: bool)
        ensures
            r == self.anything(),
    {
        self.script.is_some() || self.click_script.is_some() || self.update_freq.is_some() || self.updates.is_some()
    }
}

impl Default for ScriptingPatch {
    fn default() -> (r: Self)
        ensures
            r == ScriptingPatch::nothing(),
    {
        ScriptingPatch {
            script: None,
            click_script: None,
            update_freq: None,
            updates: None,
        }
    }
}

impl Changes<Scripting> for ScriptingPatch {
    type Moved = ScriptingMoved;

    open spec fn outcome(&self, current: ScriptingModel) -> Option<(ScriptingModel, ScriptingMoved)> {
        if self.record(current).anything() {
            Some((self.next(current), self.record(current)))
        } else {
            None
        }
    }

    open spec fn sound(&self) -> bool {
        &&& sound_in::<Option<String>, String>(self.script)
        &&& sound_in::<Option<String>, String>(self.click_script)
        &&& sound_in::<u32, u32>(self.update_freq)
        &&& sound_in::<Boolish, BoolChange>(self.updates)
    }

    open spec fn steady(&self) -> bool {
        &&& steady_in::<Option<String>, String>(self.script)
        &&& steady_in::<Option<String>, String>(self.click_script)
        &&& steady_in::<u32, u32>(self.update_freq)
        &&& steady_in::<Boolish, BoolChange>(self.updates)
    }

    proof fn becomes_another(&self, current: ScriptingModel) {
        law_scripting_reports_what_moved(*self, current);
    }

    proof fn changes_once(&self, current: ScriptingModel) {
        law_saying_it_again_changes_nothing::<Option<String>, String>(self.script, current.script);
        law_saying_it_again_changes_nothing::<Option<String>, String>(self.click_script, current.click_script);
        law_saying_it_again_changes_nothing::<u32, u32>(self.update_freq, current.update_freq);
        law_saying_it_again_changes_nothing::<Boolish, BoolChange>(self.updates, current.updates);
    }

    fn moved(&self, current: &Scripting) -> (r: Option<(Scripting, ScriptingMoved)>) {
        let (script, script_moved) = applied::<Option<String>, String>(&self.script, &current.script);
        let (click_script, click_script_moved) = applied::<Option<String>, String>(&self.click_script, &current.click_script);
        let (update_freq, update_freq_moved) = applied::<u32, u32>(&self.update_freq, &current.update_freq);
        let (updates, updates_moved) = applied::<Boolish, BoolChange>(&self.updates, &current.updates);
        let moved = ScriptingMoved {
            script: script_moved,
            click_script: click_script_moved,
            update_freq: update_freq_moved,
            updates: updates_moved,
        };
        if moved.any() {
            let next = Scripting {
                script,
                click_script,
                update_freq,
                updates,
            };
            Some((next, moved))
        } else {
            None
        }
    }
}

impl ScriptingPatch {
    /// A patch that says nothing.
    pub open spec fn nothing() -> ScriptingPatch {
        ScriptingPatch {
            script: None,
            click_script: None,
            update_freq: None,
            updates: None,
        }
    }

    /// What applying this makes of a value.
    pub open spec fn next(&self, current: ScriptingModel) -> ScriptingModel {
        ScriptingModel {
            script: after::<Option<String>, String>(self.script, current.script),
            click_script: after::<Option<String>, String>(self.click_script, current.click_script),
            update_freq: after::<u32, u32>(self.update_freq, current.update_freq),
            updates: after::<Boolish, BoolChange>(self.updates, current.updates),
        }
    }

    /// What applying this moves in a value.
    pub open spec fn record(&self, current: ScriptingModel) -> ScriptingMoved {
        ScriptingMoved {
            script: moved_in::<Option<String>, String>(self.script, current.script),
            click_script: moved_in::<Option<String>, String>(self.click_script, current.click_script),
            update_freq: moved_in::<u32, u32>(self.update_freq, current.update_freq),
            updates: moved_in::<Boolish, BoolChange>(self.updates, current.updates),
        }
    }

    /// Two patches as one: whatever the later says of a field counts, and a
    /// patch within a patch is folded field by field.
    pub open spec fn with(self, other: ScriptingPatch) -> ScriptingPatch {
        ScriptingPatch {
            script: later(self.script, other.script),
            click_script: later(self.click_script, other.click_script),
            update_freq: later(self.update_freq, other.update_freq),
            updates: later(self.updates, other.updates),
        }
    }

    /// Two patches as one: whatever the later says of a field counts, and a
    /// patch within a patch is folded field by field.
    pub fn folded(self, other: ScriptingPatch) -> (r: ScriptingPatch)
        ensures
            r == self.with(other),
    {
        ScriptingPatch {
            script: fold(self.script, other.script),
            click_script: fold(self.click_script, other.click_script),
            update_freq: fold(self.update_freq, other.update_freq),
            updates: fold(self.updates, other.updates),
        }
    }

    /// Every property this has to say to build a whole one, and does not.
    pub open spec fn absent(&self) -> Seq<Seq<char>> {
        Seq::empty()
    }

    /// Every property this has to say to build a whole one, and does not.
    pub fn absent_fields(&self) -> (r: Vec<&'static str>)
        ensures
            field_names(r@) == self.absent(),
    {
        let absent: Vec<&'static str> = Vec::new();
        proof {
            assert(field_names(absent@) =~= Seq::<Seq<char>>::empty());
        }
        absent
    }

    /// The same, as what to say of it.
    pub fn missing(&self) -> (r: Option<Missing>)
        ensures
            r is None <==> self.absent().len() == 0,
            r matches Some(missing) ==> missing.what@ == "an item"@ && field_names(
                missing.fields@,
            ) == self.absent(),
    {
        let absent = self.absent_fields();
        proof {
            assert(field_names(absent@).len() == absent@.len());
        }
        Missing::new("an item", absent)
    }

    /// A whole one from what this says, and what there is without anybody
    /// saying so.
    pub open spec fn whole(&self) -> ScriptingModel {
        ScriptingModel {
            script: after::<Option<String>, String>(self.script, <Option<String> as Blank>::blank()),
            click_script: after::<Option<String>, String>(self.click_script, <Option<String> as Blank>::blank()),
            update_freq: after::<u32, u32>(self.update_freq, <u32 as Blank>::blank()),
            updates: after::<Boolish, BoolChange>(self.updates, <Boolish as Blank>::blank()),
        }
    }

    /// A whole one rather than a change to one.
    ///
    /// What has no value without anybody saying so has to have been said, and
    /// everything that was not is reported at once.
    pub fn construct(&self) -> (r: Result<Scripting, Missing>)
        ensures
            match r {
                Ok(value) => self.absent().len() == 0 && value.model() == self.whole(),
                Err(missing) => self.absent().len() > 0 && missing.what@ == "an item"@
                    && field_names(missing.fields@) == self.absent(),
            },
    {
        if let Some(missing) = self.missing() {
            return Err(missing);
        }
        Ok(Scripting {
            script: built::<Option<String>, String>(&self.script),
            click_script: built::<Option<String>, String>(&self.click_script),
            update_freq: built::<u32, u32>(&self.update_freq),
            updates: built::<Boolish, BoolChange>(&self.updates),
        })
    }
}

/// A property of [`ScriptingPatch`] as a key names it.
#[derive(Debug, Clone, Copy, PartialEq, Eq, Structural)]
pub enum ScriptingKey {
    Script,
    ClickScript,
    UpdateFreq,
    Updates,
}

/// What a key names: every spelling of a property, a colour spelled either way.
pub open spec fn scripting_key(key: Seq<char>) -> Option<ScriptingKey> {
    if key == "script"@ {
        Some(ScriptingKey::Script)
    } else if key == "click_script"@ {
        Some(ScriptingKey::ClickScript)
    } else if key == "update_freq"@ {
        Some(ScriptingKey::UpdateFreq)
    } else if key == "updates"@ {
        Some(ScriptingKey::Updates)
    } else {
        None
    }
}

impl ScriptingKey {
    /// What a key names.
    pub fn of(key: &str) -> (r: Option<ScriptingKey>)
        ensures
            r == scripting_key(key@),
    {
        if same(key, "script") {
            Some(ScriptingKey::Script)
        } else if same(key, "click_script") {
            Some(ScriptingKey::ClickScript)
        } else if same(key, "update_freq") {
            Some(ScriptingKey::UpdateFreq)
        } else if same(key, "updates") {
            Some(ScriptingKey::Updates)
        } else {
            None
        }
    }
}

// ---------------------------------------------------------------------------
// PopupState

/// An item's popup.
#[derive(Debug, Clone, PartialEq)]
pub struct PopupState {
    /// Whether it is open.
    pub drawing: Boolish,
    /// Whether its rows run left to right instead of stacking.
    pub horizontal: Boolish,
    /// Which side of the host item it lines up with.
    pub align: PopupAlign,
    /// Whether it draws over everything.
    pub topmost: Boolish,
    /// How high each row is.
    pub height: Measure,
    /// The gap between the host item and the popup.
    pub y_offset: Measure,
    /// What is drawn behind it.
    pub background: Background,
}

/// [`PopupState`] over plain values.
pub struct PopupStateModel {
    pub drawing: Boolish,
    pub horizontal: Boolish,
    pub align: PopupAlign,
    pub topmost: Boolish,
    pub height: MeasureView,
    pub y_offset: MeasureView,
    pub background: BackgroundModel,
}

impl Modelled for PopupState {
    type Model = PopupStateModel;

    open spec fn model(&self) -> PopupStateModel {
        PopupStateModel {
            drawing: self.drawing.model(),
            horizontal: self.horizontal.model(),
            align: self.align.model(),
            topmost: self.topmost.model(),
            height: self.height.model(),
            y_offset: self.y_offset.model(),
            background: self.background.model(),
        }
    }

    fn copy(&self) -> (r: Self) {
        PopupState {
            drawing: self.drawing.copy(),
            horizontal: self.horizontal.copy(),
            align: self.align.copy(),
            topmost: self.topmost.copy(),
            height: self.height.copy(),
            y_offset: self.y_offset.copy(),
            background: self.background.copy(),
        }
    }
}

impl Blank for PopupState {
    open spec fn blank() -> PopupStateModel {
        PopupStateModel {
            drawing: <Boolish as Blank>::blank(),
            horizontal: <Boolish as Blank>::blank(),
            align: <PopupAlign as Blank>::blank(),
            topmost: <Boolish as Blank>::blank(),
            height: <Measure as Blank>::blank(),
            y_offset: <Measure as Blank>::blank(),
            background: <Background as Blank>::blank(),
        }
    }

    fn fresh() -> (r: Self) {
        PopupState {
            drawing: <Boolish as Blank>::fresh(),
            horizontal: <Boolish as Blank>::fresh(),
            align: <PopupAlign as Blank>::fresh(),
            topmost: <Boolish as Blank>::fresh(),
            height: <Measure as Blank>::fresh(),
            y_offset: <Measure as Blank>::fresh(),
            background: <Background as Blank>::fresh(),
        }
    }
}

impl Default for PopupState {
    fn default() -> (r: Self)
        ensures
            r.model() == <PopupState as Blank>::blank(),
    {
        <PopupState as Blank>::fresh()
    }
}

/// What to change of [`PopupState`].
#[derive(Debug, Clone, PartialEq)]
pub struct PopupPatch {
    /// Whether it is open.
    pub drawing: Option<BoolChange>,
    /// Whether its rows run left to right instead of stacking.
    pub horizontal: Option<BoolChange>,
    /// Which side of the host item it lines up with.
    pub align: Option<PopupAlign>,
    /// Whether it draws over everything.
    pub topmost: Option<BoolChange>,
    /// How high each row is.
    pub height: Option<Measure>,
    /// The gap between the host item and the popup.
    pub y_offset: Option<Measure>,
    /// What is drawn behind it.
    pub background: Option<BackgroundPatch>,
}

/// Which fields of [`PopupState`] a [`PopupPatch`] moved.
#[derive(Debug, Clone, Copy, PartialEq)]
pub struct PopupStateMoved {
    pub drawing: Option<()>,
    pub horizontal: Option<()>,
    pub align: Option<()>,
    pub topmost: Option<()>,
    pub height: Option<()>,
    pub y_offset: Option<()>,
    pub background: Option<BackgroundMoved>,
}

/// [`PopupPatch`] over plain values.
pub struct PopupPatchView {
    pub drawing: Option<BoolChange>,
    pub horizontal: Option<BoolChange>,
    pub align: Option<PopupAlign>,
    pub topmost: Option<BoolChange>,
    pub height: Option<MeasureView>,
    pub y_offset: Option<MeasureView>,
    pub background: Option<BackgroundPatchView>,
}

impl View for PopupPatch {
    type V = PopupPatchView;

    open spec fn view(&self) -> PopupPatchView {
        PopupPatchView {
            drawing: self.drawing,
            horizontal: self.horizontal,
            align: self.align,
            topmost: self.topmost,
            height: match self.height {
                Some(value) => Some(value.model()),
                None => None,
            },
            y_offset: match self.y_offset {
                Some(value) => Some(value.model()),
                None => None,
            },
            background: match self.background {
                Some(value) => Some(value@),
                None => None,
            },
        }
    }
}

impl PopupStateMoved {
    /// Whether anything moved at all.
    pub open spec fn anything(&self) -> bool {
        self.drawing is Some || self.horizontal is Some || self.align is Some || self.topmost is Some || self.height is Some || self.y_offset is Some || self.background is Some
    }

    /// Whether anything moved at all.
    pub fn any(&self) -> (r: bool)
        ensures
            r == self.anything(),
    {
        self.drawing.is_some() || self.horizontal.is_some() || self.align.is_some() || self.topmost.is_some() || self.height.is_some() || self.y_offset.is_some() || self.background.is_some()
    }
}

impl Default for PopupPatch {
    fn default() -> (r: Self)
        ensures
            r == PopupPatch::nothing(),
    {
        PopupPatch {
            drawing: None,
            horizontal: None,
            align: None,
            topmost: None,
            height: None,
            y_offset: None,
            background: None,
        }
    }
}

impl Changes<PopupState> for PopupPatch {
    type Moved = PopupStateMoved;

    open spec fn outcome(&self, current: PopupStateModel) -> Option<(PopupStateModel, PopupStateMoved)> {
        if self.record(current).anything() {
            Some((self.next(current), self.record(current)))
        } else {
            None
        }
    }

    open spec fn sound(&self) -> bool {
        &&& sound_in::<Boolish, BoolChange>(self.drawing)
        &&& sound_in::<Boolish, BoolChange>(self.horizontal)
        &&& sound_in::<PopupAlign, PopupAlign>(self.align)
        &&& sound_in::<Boolish, BoolChange>(self.topmost)
        &&& sound_in::<Measure, Measure>(self.height)
        &&& sound_in::<Measure, Measure>(self.y_offset)
        &&& sound_in::<Background, BackgroundPatch>(self.background)
    }

    open spec fn steady(&self) -> bool {
        &&& steady_in::<Boolish, BoolChange>(self.drawing)
        &&& steady_in::<Boolish, BoolChange>(self.horizontal)
        &&& steady_in::<PopupAlign, PopupAlign>(self.align)
        &&& steady_in::<Boolish, BoolChange>(self.topmost)
        &&& steady_in::<Measure, Measure>(self.height)
        &&& steady_in::<Measure, Measure>(self.y_offset)
        &&& steady_in::<Background, BackgroundPatch>(self.background)
    }

    proof fn becomes_another(&self, current: PopupStateModel) {
        law_popup_reports_what_moved(*self, current);
    }

    proof fn changes_once(&self, current: PopupStateModel) {
        law_saying_it_again_changes_nothing::<Boolish, BoolChange>(self.drawing, current.drawing);
        law_saying_it_again_changes_nothing::<Boolish, BoolChange>(self.horizontal, current.horizontal);
        law_saying_it_again_changes_nothing::<PopupAlign, PopupAlign>(self.align, current.align);
        law_saying_it_again_changes_nothing::<Boolish, BoolChange>(self.topmost, current.topmost);
        law_saying_it_again_changes_nothing::<Measure, Measure>(self.height, current.height);
        law_saying_it_again_changes_nothing::<Measure, Measure>(self.y_offset, current.y_offset);
        law_saying_it_again_changes_nothing::<Background, BackgroundPatch>(self.background, current.background);
    }

    fn moved(&self, current: &PopupState) -> (r: Option<(PopupState, PopupStateMoved)>) {
        let (drawing, drawing_moved) = applied::<Boolish, BoolChange>(&self.drawing, &current.drawing);
        let (horizontal, horizontal_moved) = applied::<Boolish, BoolChange>(&self.horizontal, &current.horizontal);
        let (align, align_moved) = applied::<PopupAlign, PopupAlign>(&self.align, &current.align);
        let (topmost, topmost_moved) = applied::<Boolish, BoolChange>(&self.topmost, &current.topmost);
        let (height, height_moved) = applied::<Measure, Measure>(&self.height, &current.height);
        let (y_offset, y_offset_moved) = applied::<Measure, Measure>(&self.y_offset, &current.y_offset);
        let (background, background_moved) = applied::<Background, BackgroundPatch>(&self.background, &current.background);
        let moved = PopupStateMoved {
            drawing: drawing_moved,
            horizontal: horizontal_moved,
            align: align_moved,
            topmost: topmost_moved,
            height: height_moved,
            y_offset: y_offset_moved,
            background: background_moved,
        };
        if moved.any() {
            let next = PopupState {
                drawing,
                horizontal,
                align,
                topmost,
                height,
                y_offset,
                background,
            };
            Some((next, moved))
        } else {
            None
        }
    }
}

impl PopupPatch {
    /// A patch that says nothing.
    pub open spec fn nothing() -> PopupPatch {
        PopupPatch {
            drawing: None,
            horizontal: None,
            align: None,
            topmost: None,
            height: None,
            y_offset: None,
            background: None,
        }
    }

    /// What applying this makes of a value.
    pub open spec fn next(&self, current: PopupStateModel) -> PopupStateModel {
        PopupStateModel {
            drawing: after::<Boolish, BoolChange>(self.drawing, current.drawing),
            horizontal: after::<Boolish, BoolChange>(self.horizontal, current.horizontal),
            align: after::<PopupAlign, PopupAlign>(self.align, current.align),
            topmost: after::<Boolish, BoolChange>(self.topmost, current.topmost),
            height: after::<Measure, Measure>(self.height, current.height),
            y_offset: after::<Measure, Measure>(self.y_offset, current.y_offset),
            background: after::<Background, BackgroundPatch>(self.background, current.background),
        }
    }

    /// What applying this moves in a value.
    pub open spec fn record(&self, current: PopupStateModel) -> PopupStateMoved {
        PopupStateMoved {
            drawing: moved_in::<Boolish, BoolChange>(self.drawing, current.drawing),
            horizontal: moved_in::<Boolish, BoolChange>(self.horizontal, current.horizontal),
            align: moved_in::<PopupAlign, PopupAlign>(self.align, current.align),
            topmost: moved_in::<Boolish, BoolChange>(self.topmost, current.topmost),
            height: moved_in::<Measure, Measure>(self.height, current.height),
            y_offset: moved_in::<Measure, Measure>(self.y_offset, current.y_offset),
            background: moved_in::<Background, BackgroundPatch>(self.background, current.background),
        }
    }

    /// Two patches as one: whatever the later says of a field counts, and a
    /// patch within a patch is folded field by field.
    pub open spec fn with(self, other: PopupPatch) -> PopupPatch {
        PopupPatch {
            drawing: later(self.drawing, other.drawing),
            horizontal: later(self.horizontal, other.horizontal),
            align: later(self.align, other.align),
            topmost: later(self.topmost, other.topmost),
            height: later(self.height, other.height),
            y_offset: later(self.y_offset, other.y_offset),
            background: match (self.background, other.background) {
                (Some(mine), Some(theirs)) => Some(mine.with(theirs)),
                _ => later(self.background, other.background),
            },
        }
    }

    /// Two patches as one: whatever the later says of a field counts, and a
    /// patch within a patch is folded field by field.
    pub fn folded(self, other: PopupPatch) -> (r: PopupPatch)
        ensures
            r == self.with(other),
    {
        PopupPatch {
            drawing: fold(self.drawing, other.drawing),
            horizontal: fold(self.horizontal, other.horizontal),
            align: fold(self.align, other.align),
            topmost: fold(self.topmost, other.topmost),
            height: fold(self.height, other.height),
            y_offset: fold(self.y_offset, other.y_offset),
            background: match (self.background, other.background) {
                (Some(mine), Some(theirs)) => Some(mine.folded(theirs)),
                (mine, theirs) => fold(mine, theirs),
            },
        }
    }

    /// Every property this has to say to build a whole one, and does not.
    pub open spec fn absent(&self) -> Seq<Seq<char>> {
        Seq::empty()
    }

    /// Every property this has to say to build a whole one, and does not.
    pub fn absent_fields(&self) -> (r: Vec<&'static str>)
        ensures
            field_names(r@) == self.absent(),
    {
        let absent: Vec<&'static str> = Vec::new();
        proof {
            assert(field_names(absent@) =~= Seq::<Seq<char>>::empty());
        }
        absent
    }

    /// The same, as what to say of it.
    pub fn missing(&self) -> (r: Option<Missing>)
        ensures
            r is None <==> self.absent().len() == 0,
            r matches Some(missing) ==> missing.what@ == "an item's popup"@ && field_names(
                missing.fields@,
            ) == self.absent(),
    {
        let absent = self.absent_fields();
        proof {
            assert(field_names(absent@).len() == absent@.len());
        }
        Missing::new("an item's popup", absent)
    }

    /// A whole one from what this says, and what there is without anybody
    /// saying so.
    pub open spec fn whole(&self) -> PopupStateModel {
        PopupStateModel {
            drawing: after::<Boolish, BoolChange>(self.drawing, <Boolish as Blank>::blank()),
            horizontal: after::<Boolish, BoolChange>(self.horizontal, <Boolish as Blank>::blank()),
            align: after::<PopupAlign, PopupAlign>(self.align, <PopupAlign as Blank>::blank()),
            topmost: after::<Boolish, BoolChange>(self.topmost, <Boolish as Blank>::blank()),
            height: after::<Measure, Measure>(self.height, <Measure as Blank>::blank()),
            y_offset: after::<Measure, Measure>(self.y_offset, <Measure as Blank>::blank()),
            background: after::<Background, BackgroundPatch>(self.background, <Background as Blank>::blank()),
        }
    }

    /// A whole one rather than a change to one.
    ///
    /// What has no value without anybody saying so has to have been said, and
    /// everything that was not is reported at once.
    pub fn construct(&self) -> (r: Result<PopupState, Missing>)
        ensures
            match r {
                Ok(value) => self.absent().len() == 0 && value.model() == self.whole(),
                Err(missing) => self.absent().len() > 0 && missing.what@ == "an item's popup"@
                    && field_names(missing.fields@) == self.absent(),
            },
    {
        if let Some(missing) = self.missing() {
            return Err(missing);
        }
        Ok(PopupState {
            drawing: built::<Boolish, BoolChange>(&self.drawing),
            horizontal: built::<Boolish, BoolChange>(&self.horizontal),
            align: built::<PopupAlign, PopupAlign>(&self.align),
            topmost: built::<Boolish, BoolChange>(&self.topmost),
            height: built::<Measure, Measure>(&self.height),
            y_offset: built::<Measure, Measure>(&self.y_offset),
            background: built::<Background, BackgroundPatch>(&self.background),
        })
    }
}

/// A property of [`PopupPatch`] as a key names it.
#[derive(Debug, Clone, Copy, PartialEq, Eq, Structural)]
pub enum PopupKey {
    Drawing,
    Horizontal,
    Align,
    Topmost,
    Height,
    YOffset,
    Background,
}

/// What a key names: every spelling of a property, a colour spelled either way.
pub open spec fn popup_key(key: Seq<char>) -> Option<PopupKey> {
    if key == "drawing"@ {
        Some(PopupKey::Drawing)
    } else if key == "horizontal"@ {
        Some(PopupKey::Horizontal)
    } else if key == "align"@ {
        Some(PopupKey::Align)
    } else if key == "topmost"@ {
        Some(PopupKey::Topmost)
    } else if key == "height"@ {
        Some(PopupKey::Height)
    } else if key == "y_offset"@ {
        Some(PopupKey::YOffset)
    } else if key == "background"@ {
        Some(PopupKey::Background)
    } else {
        None
    }
}

impl PopupKey {
    /// What a key names.
    pub fn of(key: &str) -> (r: Option<PopupKey>)
        ensures
            r == popup_key(key@),
    {
        if same(key, "drawing") {
            Some(PopupKey::Drawing)
        } else if same(key, "horizontal") {
            Some(PopupKey::Horizontal)
        } else if same(key, "align") {
            Some(PopupKey::Align)
        } else if same(key, "topmost") {
            Some(PopupKey::Topmost)
        } else if same(key, "height") {
            Some(PopupKey::Height)
        } else if same(key, "y_offset") {
            Some(PopupKey::YOffset)
        } else if same(key, "background") {
            Some(PopupKey::Background)
        } else {
            None
        }
    }
}

// ---------------------------------------------------------------------------
// ItemState

/// What one item looks like.
#[derive(Debug, Clone, PartialEq)]
pub struct ItemState {
    /// What it is called. It identifies rather than configures, so that no patch carries it.
    pub name: ItemName,
    /// Where it is and what is behind it.
    pub geometry: Geometry,
    /// Its popup, present even where it has none.
    pub popup: PopupState,
    /// The glyph half of it.
    pub icon: Run,
    /// The text half of it.
    pub label: Run,
    /// What it runs.
    pub scripting: Scripting,
    /// What it is subscribed to, which no patch carries.
    pub events: Vec<Kind<()>>,
    /// A menu bar item to mirror. An empty text stops that.
    pub alias: Option<String>,
    /// The items it draws behind as one surface.
    pub members: Vec<ItemName>,
    /// Which space it stands for, where it does.
    pub associated_space: Option<u64>,
    /// A slider's fill.
    pub percentage: u8,
    /// A slider's knob.
    pub knob: Run,
    /// Its colour when it is the selected space.
    pub highlight_color: Color,
}

/// [`ItemState`] over plain values.
pub struct ItemStateModel {
    pub name: Seq<char>,
    pub geometry: GeometryModel,
    pub popup: PopupStateModel,
    pub icon: RunModel,
    pub label: RunModel,
    pub scripting: ScriptingModel,
    pub events: Seq<KindView<()>>,
    pub alias: Option<Seq<char>>,
    pub members: Seq<Seq<char>>,
    pub associated_space: Option<u64>,
    pub percentage: u8,
    pub knob: RunModel,
    pub highlight_color: Color,
}

impl Modelled for ItemState {
    type Model = ItemStateModel;

    open spec fn model(&self) -> ItemStateModel {
        ItemStateModel {
            name: self.name.model(),
            geometry: self.geometry.model(),
            popup: self.popup.model(),
            icon: self.icon.model(),
            label: self.label.model(),
            scripting: self.scripting.model(),
            events: self.events.model(),
            alias: self.alias.model(),
            members: self.members.model(),
            associated_space: self.associated_space.model(),
            percentage: self.percentage.model(),
            knob: self.knob.model(),
            highlight_color: self.highlight_color.model(),
        }
    }

    fn copy(&self) -> (r: Self) {
        ItemState {
            name: self.name.copy(),
            geometry: self.geometry.copy(),
            popup: self.popup.copy(),
            icon: self.icon.copy(),
            label: self.label.copy(),
            scripting: self.scripting.copy(),
            events: self.events.copy(),
            alias: self.alias.copy(),
            members: self.members.copy(),
            associated_space: self.associated_space.copy(),
            percentage: self.percentage.copy(),
            knob: self.knob.copy(),
            highlight_color: self.highlight_color.copy(),
        }
    }
}

/// What to change of [`ItemState`].
#[derive(Debug, Clone, PartialEq)]
pub struct ItemPatch {
    /// Where it is and what is behind it.
    pub geometry: Option<GeometryPatch>,
    /// Its popup, present even where it has none.
    pub popup: Option<PopupPatch>,
    /// The glyph half of it.
    pub icon: Option<RunPatch>,
    /// The text half of it.
    pub label: Option<RunPatch>,
    /// What it runs.
    pub scripting: Option<ScriptingPatch>,
    /// A menu bar item to mirror. An empty text stops that.
    pub alias: Option<String>,
    /// The items it draws behind as one surface.
    pub members: Option<Vec<Selector>>,
    /// Which space it stands for, where it does.
    pub associated_space: Option<Option<u64>>,
    /// A slider's fill.
    pub percentage: Option<u8>,
    /// A slider's knob.
    pub knob: Option<RunPatch>,
    /// Its colour when it is the selected space.
    pub highlight_color: Option<Color>,
}

/// Which fields of [`ItemState`] a [`ItemPatch`] moved.
#[derive(Debug, Clone, Copy, PartialEq)]
pub struct ItemStateMoved {
    pub geometry: Option<GeometryMoved>,
    pub popup: Option<PopupStateMoved>,
    pub icon: Option<RunMoved>,
    pub label: Option<RunMoved>,
    pub scripting: Option<ScriptingMoved>,
    pub alias: Option<()>,
    pub members: Option<()>,
    pub associated_space: Option<()>,
    pub percentage: Option<()>,
    pub knob: Option<RunMoved>,
    pub highlight_color: Option<()>,
}

/// [`ItemPatch`] over plain values.
pub struct ItemPatchView {
    pub geometry: Option<GeometryPatchView>,
    pub popup: Option<PopupPatchView>,
    pub icon: Option<RunPatchView>,
    pub label: Option<RunPatchView>,
    pub scripting: Option<ScriptingPatchView>,
    pub alias: Option<Seq<char>>,
    pub members: Option<Seq<SelectorView>>,
    pub associated_space: Option<Option<u64>>,
    pub percentage: Option<u8>,
    pub knob: Option<RunPatchView>,
    pub highlight_color: Option<Color>,
}

impl View for ItemPatch {
    type V = ItemPatchView;

    open spec fn view(&self) -> ItemPatchView {
        ItemPatchView {
            geometry: match self.geometry {
                Some(value) => Some(value@),
                None => None,
            },
            popup: match self.popup {
                Some(value) => Some(value@),
                None => None,
            },
            icon: match self.icon {
                Some(value) => Some(value@),
                None => None,
            },
            label: match self.label {
                Some(value) => Some(value@),
                None => None,
            },
            scripting: match self.scripting {
                Some(value) => Some(value@),
                None => None,
            },
            alias: match self.alias {
                Some(value) => Some(value@),
                None => None,
            },
            members: match self.members {
                Some(value) => Some(selector_views(value@)),
                None => None,
            },
            associated_space: self.associated_space,
            percentage: self.percentage,
            knob: match self.knob {
                Some(value) => Some(value@),
                None => None,
            },
            highlight_color: self.highlight_color,
        }
    }
}

impl ItemStateMoved {
    /// Whether anything moved at all.
    pub open spec fn anything(&self) -> bool {
        self.geometry is Some || self.popup is Some || self.icon is Some || self.label is Some || self.scripting is Some || self.alias is Some || self.members is Some || self.associated_space is Some || self.percentage is Some || self.knob is Some || self.highlight_color is Some
    }

    /// Whether anything moved at all.
    pub fn any(&self) -> (r: bool)
        ensures
            r == self.anything(),
    {
        self.geometry.is_some() || self.popup.is_some() || self.icon.is_some() || self.label.is_some() || self.scripting.is_some() || self.alias.is_some() || self.members.is_some() || self.associated_space.is_some() || self.percentage.is_some() || self.knob.is_some() || self.highlight_color.is_some()
    }
}

impl Default for ItemPatch {
    fn default() -> (r: Self)
        ensures
            r == ItemPatch::nothing(),
    {
        ItemPatch {
            geometry: None,
            popup: None,
            icon: None,
            label: None,
            scripting: None,
            alias: None,
            members: None,
            associated_space: None,
            percentage: None,
            knob: None,
            highlight_color: None,
        }
    }
}

impl Changes<ItemState> for ItemPatch {
    type Moved = ItemStateMoved;

    open spec fn outcome(&self, current: ItemStateModel) -> Option<(ItemStateModel, ItemStateMoved)> {
        if self.record(current).anything() {
            Some((self.next(current), self.record(current)))
        } else {
            None
        }
    }

    open spec fn sound(&self) -> bool {
        &&& sound_in::<Geometry, GeometryPatch>(self.geometry)
        &&& sound_in::<PopupState, PopupPatch>(self.popup)
        &&& sound_in::<Run, RunPatch>(self.icon)
        &&& sound_in::<Run, RunPatch>(self.label)
        &&& sound_in::<Scripting, ScriptingPatch>(self.scripting)
        &&& sound_in::<Option<String>, String>(self.alias)
        &&& sound_in::<Vec<ItemName>, Vec<Selector>>(self.members)
        &&& sound_in::<Option<u64>, Option<u64>>(self.associated_space)
        &&& sound_in::<u8, u8>(self.percentage)
        &&& sound_in::<Run, RunPatch>(self.knob)
        &&& sound_in::<Color, Color>(self.highlight_color)
    }

    open spec fn steady(&self) -> bool {
        &&& steady_in::<Geometry, GeometryPatch>(self.geometry)
        &&& steady_in::<PopupState, PopupPatch>(self.popup)
        &&& steady_in::<Run, RunPatch>(self.icon)
        &&& steady_in::<Run, RunPatch>(self.label)
        &&& steady_in::<Scripting, ScriptingPatch>(self.scripting)
        &&& steady_in::<Option<String>, String>(self.alias)
        &&& steady_in::<Vec<ItemName>, Vec<Selector>>(self.members)
        &&& steady_in::<Option<u64>, Option<u64>>(self.associated_space)
        &&& steady_in::<u8, u8>(self.percentage)
        &&& steady_in::<Run, RunPatch>(self.knob)
        &&& steady_in::<Color, Color>(self.highlight_color)
    }

    proof fn becomes_another(&self, current: ItemStateModel) {
        law_item_reports_what_moved(*self, current);
    }

    proof fn changes_once(&self, current: ItemStateModel) {
        law_saying_it_again_changes_nothing::<Geometry, GeometryPatch>(self.geometry, current.geometry);
        law_saying_it_again_changes_nothing::<PopupState, PopupPatch>(self.popup, current.popup);
        law_saying_it_again_changes_nothing::<Run, RunPatch>(self.icon, current.icon);
        law_saying_it_again_changes_nothing::<Run, RunPatch>(self.label, current.label);
        law_saying_it_again_changes_nothing::<Scripting, ScriptingPatch>(self.scripting, current.scripting);
        law_saying_it_again_changes_nothing::<Option<String>, String>(self.alias, current.alias);
        law_saying_it_again_changes_nothing::<Vec<ItemName>, Vec<Selector>>(self.members, current.members);
        law_saying_it_again_changes_nothing::<Option<u64>, Option<u64>>(self.associated_space, current.associated_space);
        law_saying_it_again_changes_nothing::<u8, u8>(self.percentage, current.percentage);
        law_saying_it_again_changes_nothing::<Run, RunPatch>(self.knob, current.knob);
        law_saying_it_again_changes_nothing::<Color, Color>(self.highlight_color, current.highlight_color);
    }

    fn moved(&self, current: &ItemState) -> (r: Option<(ItemState, ItemStateMoved)>) {
        let (geometry, geometry_moved) = applied::<Geometry, GeometryPatch>(&self.geometry, &current.geometry);
        let (popup, popup_moved) = applied::<PopupState, PopupPatch>(&self.popup, &current.popup);
        let (icon, icon_moved) = applied::<Run, RunPatch>(&self.icon, &current.icon);
        let (label, label_moved) = applied::<Run, RunPatch>(&self.label, &current.label);
        let (scripting, scripting_moved) = applied::<Scripting, ScriptingPatch>(&self.scripting, &current.scripting);
        let (alias, alias_moved) = applied::<Option<String>, String>(&self.alias, &current.alias);
        let (members, members_moved) = applied::<Vec<ItemName>, Vec<Selector>>(&self.members, &current.members);
        let (associated_space, associated_space_moved) = applied::<Option<u64>, Option<u64>>(&self.associated_space, &current.associated_space);
        let (percentage, percentage_moved) = applied::<u8, u8>(&self.percentage, &current.percentage);
        let (knob, knob_moved) = applied::<Run, RunPatch>(&self.knob, &current.knob);
        let (highlight_color, highlight_color_moved) = applied::<Color, Color>(&self.highlight_color, &current.highlight_color);
        let moved = ItemStateMoved {
            geometry: geometry_moved,
            popup: popup_moved,
            icon: icon_moved,
            label: label_moved,
            scripting: scripting_moved,
            alias: alias_moved,
            members: members_moved,
            associated_space: associated_space_moved,
            percentage: percentage_moved,
            knob: knob_moved,
            highlight_color: highlight_color_moved,
        };
        if moved.any() {
            let next = ItemState {
                name: current.name.copy(),
                geometry,
                popup,
                icon,
                label,
                scripting,
                events: current.events.copy(),
                alias,
                members,
                associated_space,
                percentage,
                knob,
                highlight_color,
            };
            Some((next, moved))
        } else {
            None
        }
    }
}

impl ItemPatch {
    /// A patch that says nothing.
    pub open spec fn nothing() -> ItemPatch {
        ItemPatch {
            geometry: None,
            popup: None,
            icon: None,
            label: None,
            scripting: None,
            alias: None,
            members: None,
            associated_space: None,
            percentage: None,
            knob: None,
            highlight_color: None,
        }
    }

    /// What applying this makes of a value.
    pub open spec fn next(&self, current: ItemStateModel) -> ItemStateModel {
        ItemStateModel {
            name: current.name,
            geometry: after::<Geometry, GeometryPatch>(self.geometry, current.geometry),
            popup: after::<PopupState, PopupPatch>(self.popup, current.popup),
            icon: after::<Run, RunPatch>(self.icon, current.icon),
            label: after::<Run, RunPatch>(self.label, current.label),
            scripting: after::<Scripting, ScriptingPatch>(self.scripting, current.scripting),
            events: current.events,
            alias: after::<Option<String>, String>(self.alias, current.alias),
            members: after::<Vec<ItemName>, Vec<Selector>>(self.members, current.members),
            associated_space: after::<Option<u64>, Option<u64>>(self.associated_space, current.associated_space),
            percentage: after::<u8, u8>(self.percentage, current.percentage),
            knob: after::<Run, RunPatch>(self.knob, current.knob),
            highlight_color: after::<Color, Color>(self.highlight_color, current.highlight_color),
        }
    }

    /// What applying this moves in a value.
    pub open spec fn record(&self, current: ItemStateModel) -> ItemStateMoved {
        ItemStateMoved {
            geometry: moved_in::<Geometry, GeometryPatch>(self.geometry, current.geometry),
            popup: moved_in::<PopupState, PopupPatch>(self.popup, current.popup),
            icon: moved_in::<Run, RunPatch>(self.icon, current.icon),
            label: moved_in::<Run, RunPatch>(self.label, current.label),
            scripting: moved_in::<Scripting, ScriptingPatch>(self.scripting, current.scripting),
            alias: moved_in::<Option<String>, String>(self.alias, current.alias),
            members: moved_in::<Vec<ItemName>, Vec<Selector>>(self.members, current.members),
            associated_space: moved_in::<Option<u64>, Option<u64>>(self.associated_space, current.associated_space),
            percentage: moved_in::<u8, u8>(self.percentage, current.percentage),
            knob: moved_in::<Run, RunPatch>(self.knob, current.knob),
            highlight_color: moved_in::<Color, Color>(self.highlight_color, current.highlight_color),
        }
    }

    /// Two patches as one: whatever the later says of a field counts, and a
    /// patch within a patch is folded field by field.
    pub open spec fn with(self, other: ItemPatch) -> ItemPatch {
        ItemPatch {
            geometry: match (self.geometry, other.geometry) {
                (Some(mine), Some(theirs)) => Some(mine.with(theirs)),
                _ => later(self.geometry, other.geometry),
            },
            popup: match (self.popup, other.popup) {
                (Some(mine), Some(theirs)) => Some(mine.with(theirs)),
                _ => later(self.popup, other.popup),
            },
            icon: match (self.icon, other.icon) {
                (Some(mine), Some(theirs)) => Some(mine.with(theirs)),
                _ => later(self.icon, other.icon),
            },
            label: match (self.label, other.label) {
                (Some(mine), Some(theirs)) => Some(mine.with(theirs)),
                _ => later(self.label, other.label),
            },
            scripting: match (self.scripting, other.scripting) {
                (Some(mine), Some(theirs)) => Some(mine.with(theirs)),
                _ => later(self.scripting, other.scripting),
            },
            alias: later(self.alias, other.alias),
            members: later(self.members, other.members),
            associated_space: later(self.associated_space, other.associated_space),
            percentage: later(self.percentage, other.percentage),
            knob: match (self.knob, other.knob) {
                (Some(mine), Some(theirs)) => Some(mine.with(theirs)),
                _ => later(self.knob, other.knob),
            },
            highlight_color: later(self.highlight_color, other.highlight_color),
        }
    }

    /// Two patches as one: whatever the later says of a field counts, and a
    /// patch within a patch is folded field by field.
    pub fn folded(self, other: ItemPatch) -> (r: ItemPatch)
        ensures
            r == self.with(other),
    {
        ItemPatch {
            geometry: match (self.geometry, other.geometry) {
                (Some(mine), Some(theirs)) => Some(mine.folded(theirs)),
                (mine, theirs) => fold(mine, theirs),
            },
            popup: match (self.popup, other.popup) {
                (Some(mine), Some(theirs)) => Some(mine.folded(theirs)),
                (mine, theirs) => fold(mine, theirs),
            },
            icon: match (self.icon, other.icon) {
                (Some(mine), Some(theirs)) => Some(mine.folded(theirs)),
                (mine, theirs) => fold(mine, theirs),
            },
            label: match (self.label, other.label) {
                (Some(mine), Some(theirs)) => Some(mine.folded(theirs)),
                (mine, theirs) => fold(mine, theirs),
            },
            scripting: match (self.scripting, other.scripting) {
                (Some(mine), Some(theirs)) => Some(mine.folded(theirs)),
                (mine, theirs) => fold(mine, theirs),
            },
            alias: fold(self.alias, other.alias),
            members: fold(self.members, other.members),
            associated_space: fold(self.associated_space, other.associated_space),
            percentage: fold(self.percentage, other.percentage),
            knob: match (self.knob, other.knob) {
                (Some(mine), Some(theirs)) => Some(mine.folded(theirs)),
                (mine, theirs) => fold(mine, theirs),
            },
            highlight_color: fold(self.highlight_color, other.highlight_color),
        }
    }

    /// Every property this has to say to build a whole one, and does not.
    pub open spec fn absent(&self) -> Seq<Seq<char>> {
        match self.geometry {
            Some(inner) => inner.absent(),
            None => GeometryPatch::nothing().absent(),
        }
    }

    /// Every property this has to say to build a whole one, and does not.
    pub fn absent_fields(&self) -> (r: Vec<&'static str>)
        ensures
            field_names(r@) == self.absent(),
    {
        match &self.geometry {
            Some(inner) => inner.absent_fields(),
            None => GeometryPatch::default().absent_fields(),
        }
    }

    /// The same, as what to say of it.
    pub fn missing(&self) -> (r: Option<Missing>)
        ensures
            r is None <==> self.absent().len() == 0,
            r matches Some(missing) ==> missing.what@ == "an item"@ && field_names(
                missing.fields@,
            ) == self.absent(),
    {
        let absent = self.absent_fields();
        proof {
            assert(field_names(absent@).len() == absent@.len());
        }
        Missing::new("an item", absent)
    }

    /// A whole one from what this says, and what there is without anybody
    /// saying so.
    pub open spec fn whole(&self, name: Seq<char>, events: Seq<KindView<()>>) -> ItemStateModel {
        ItemStateModel {
            name,
            geometry: match self.geometry {
                Some(inner) => inner.whole(),
                None => GeometryPatch::nothing().whole(),
            },
            popup: after::<PopupState, PopupPatch>(self.popup, <PopupState as Blank>::blank()),
            icon: after::<Run, RunPatch>(self.icon, <Run as Blank>::blank()),
            label: after::<Run, RunPatch>(self.label, <Run as Blank>::blank()),
            scripting: match self.scripting {
                Some(inner) => inner.whole(),
                None => ScriptingPatch::nothing().whole(),
            },
            events,
            alias: after::<Option<String>, String>(self.alias, <Option<String> as Blank>::blank()),
            members: after::<Vec<ItemName>, Vec<Selector>>(self.members, <Vec<ItemName> as Blank>::blank()),
            associated_space: after::<Option<u64>, Option<u64>>(self.associated_space, <Option<u64> as Blank>::blank()),
            percentage: after::<u8, u8>(self.percentage, <u8 as Blank>::blank()),
            knob: after::<Run, RunPatch>(self.knob, <Run as Blank>::blank()),
            highlight_color: after::<Color, Color>(self.highlight_color, <Color as Blank>::blank()),
        }
    }

    /// A whole one rather than a change to one.
    ///
    /// What has no value without anybody saying so has to have been said, and
    /// everything that was not is reported at once.
    pub fn construct(&self, name: ItemName, events: Vec<Kind<()>>) -> (r: Result<ItemState, Missing>)
        ensures
            match r {
                Ok(value) => self.absent().len() == 0 && value.model() == self.whole(name.model(), events.model()),
                Err(missing) => self.absent().len() > 0 && missing.what@ == "an item"@
                    && field_names(missing.fields@) == self.absent(),
            },
    {
        if let Some(missing) = self.missing() {
            return Err(missing);
        }
        let geometry_built = match &self.geometry {
            Some(inner) => inner.construct(),
            None => GeometryPatch::default().construct(),
        };
        let geometry = match geometry_built {
            Ok(value) => value,
            Err(missing) => {
                return Err(missing);
            },
        };
        let scripting_built = match &self.scripting {
            Some(inner) => inner.construct(),
            None => ScriptingPatch::default().construct(),
        };
        let scripting = match scripting_built {
            Ok(value) => value,
            Err(missing) => {
                return Err(missing);
            },
        };
        Ok(ItemState {
            name,
            geometry,
            popup: built::<PopupState, PopupPatch>(&self.popup),
            icon: built::<Run, RunPatch>(&self.icon),
            label: built::<Run, RunPatch>(&self.label),
            scripting,
            events,
            alias: built::<Option<String>, String>(&self.alias),
            members: built::<Vec<ItemName>, Vec<Selector>>(&self.members),
            associated_space: built::<Option<u64>, Option<u64>>(&self.associated_space),
            percentage: built::<u8, u8>(&self.percentage),
            knob: built::<Run, RunPatch>(&self.knob),
            highlight_color: built::<Color, Color>(&self.highlight_color),
        })
    }
}

/// A property of [`ItemPatch`] as a key names it.
#[derive(Debug, Clone, Copy, PartialEq, Eq, Structural)]
pub enum ItemKey {
    Popup,
    Icon,
    Label,
    Alias,
    Members,
    AssociatedSpace,
    Percentage,
    Knob,
    HighlightColor,
    /// A key of its geometry, spelled as its own.
    Geometry(GeometryKey),
    /// A key of its scripting, spelled as its own.
    Scripting(ScriptingKey),
}

/// What a key names: every spelling of a property, a colour spelled either way.
pub open spec fn item_key(key: Seq<char>) -> Option<ItemKey> {
    if key == "popup"@ {
        Some(ItemKey::Popup)
    } else if key == "icon"@ {
        Some(ItemKey::Icon)
    } else if key == "label"@ {
        Some(ItemKey::Label)
    } else if key == "alias"@ {
        Some(ItemKey::Alias)
    } else if key == "members"@ {
        Some(ItemKey::Members)
    } else if key == "associated_space"@ {
        Some(ItemKey::AssociatedSpace)
    } else if key == "percentage"@ {
        Some(ItemKey::Percentage)
    } else if key == "knob"@ {
        Some(ItemKey::Knob)
    } else if key == "highlight_color"@ || key == "highlight_colour"@ {
        Some(ItemKey::HighlightColor)
    } else {
        match geometry_key(key) {
            Some(inner) => Some(ItemKey::Geometry(inner)),
            None => 
                match scripting_key(key) {
                    Some(inner) => Some(ItemKey::Scripting(inner)),
                    None => None,
                },
        }
    }
}

impl ItemKey {
    /// What a key names.
    pub fn of(key: &str) -> (r: Option<ItemKey>)
        ensures
            r == item_key(key@),
    {
        if same(key, "popup") {
            Some(ItemKey::Popup)
        } else if same(key, "icon") {
            Some(ItemKey::Icon)
        } else if same(key, "label") {
            Some(ItemKey::Label)
        } else if same(key, "alias") {
            Some(ItemKey::Alias)
        } else if same(key, "members") {
            Some(ItemKey::Members)
        } else if same(key, "associated_space") {
            Some(ItemKey::AssociatedSpace)
        } else if same(key, "percentage") {
            Some(ItemKey::Percentage)
        } else if same(key, "knob") {
            Some(ItemKey::Knob)
        } else if same(key, "highlight_color") || same(key, "highlight_colour") {
            Some(ItemKey::HighlightColor)
        } else {
            match GeometryKey::of(key) {
                Some(inner) => Some(ItemKey::Geometry(inner)),
                None => 
                    match ScriptingKey::of(key) {
                        Some(inner) => Some(ItemKey::Scripting(inner)),
                        None => None,
                    },
            }
        }
    }

    /// Why there is nothing behind a key that a config may well write.
    pub fn gap(key: &str) -> (r: Option<&'static str>)
        ensures
            match r {
                Some(note) => gap_note(key@) == Some(note@),
                None => gap_note(key@) is None,
            },
    {
        if same(key, "slider") {
            Some("a slider's own fill, knob and track; nothing draws a slider yet")
        } else if same(key, "graph") {
            Some("a graph's line and fill; nothing plots a graph yet")
        } else {
            None
        }
    }
}

/// Why there is nothing behind a key that a config may well write.
pub open spec fn gap_note(key: Seq<char>) -> Option<Seq<char>> {
    if key == "slider"@ {
        Some("a slider's own fill, knob and track; nothing draws a slider yet"@)
    } else if key == "graph"@ {
        Some("a graph's line and fill; nothing plots a graph yet"@)
    } else {
        None
    }
}

// ---------------------------------------------------------------------------
// What holds of patches

/// A patch that says nothing changes nothing, whatever it is applied to.
pub proof fn law_saying_nothing_changes_nothing(item: ItemStateModel, bar: BarStateModel)
    ensures
        <ItemPatch as Changes<ItemState>>::outcome(&ItemPatch::nothing(), item) is None,
        <BarPatch as Changes<BarState>>::outcome(&BarPatch::nothing(), bar) is None,
{
}

/// A patch to half of an item's text reports exactly the fields it moves: each of them
/// differs, and every other is as it was. What is set to a measurement that is
/// not a number is left out.
pub proof fn law_run_reports_what_moved(patch: RunPatch, current: RunModel)
    requires
        <RunPatch as Changes<Run>>::sound(&patch),
    ensures
        <RunPatch as Changes<Run>>::outcome(&patch, current) == (if patch.next(current) == current {
            None
        } else {
            Some((patch.next(current), patch.record(current)))
        }),
        patch.record(current).text is Some <==> patch.next(current).text != current.text,
        patch.record(current).color is Some <==> patch.next(current).color != current.color,
        patch.record(current).font is Some <==> patch.next(current).font != current.font,
        patch.record(current).drawing is Some <==> patch.next(current).drawing != current.drawing,
        patch.record(current).padding_left is Some <==> patch.next(current).padding_left != current.padding_left,
        patch.record(current).padding_right is Some <==> patch.next(current).padding_right != current.padding_right,
        patch.record(current).y_offset is Some <==> patch.next(current).y_offset != current.y_offset,
        patch.record(current).highlight is Some <==> patch.next(current).highlight != current.highlight,
        patch.record(current).highlight_color is Some <==> patch.next(current).highlight_color != current.highlight_color,
{
    law_moved_means_different::<String, String>(patch.text, current.text);
    law_moved_means_different::<Color, Color>(patch.color, current.color);
    law_moved_means_different::<FontSpec, FontSpec>(patch.font, current.font);
    law_moved_means_different::<Boolish, BoolChange>(patch.drawing, current.drawing);
    law_moved_means_different::<Measure, Measure>(patch.padding_left, current.padding_left);
    law_moved_means_different::<Measure, Measure>(patch.padding_right, current.padding_right);
    law_moved_means_different::<Measure, Measure>(patch.y_offset, current.y_offset);
    law_moved_means_different::<Boolish, BoolChange>(patch.highlight, current.highlight);
    law_moved_means_different::<Color, Color>(patch.highlight_color, current.highlight_color);
}

/// A patch to what is behind an item reports exactly the fields it moves: each of them
/// differs, and every other is as it was. What is set to a measurement that is
/// not a number is left out.
pub proof fn law_background_reports_what_moved(patch: BackgroundPatch, current: BackgroundModel)
    requires
        <BackgroundPatch as Changes<Background>>::sound(&patch),
    ensures
        <BackgroundPatch as Changes<Background>>::outcome(&patch, current) == (if patch.next(current) == current {
            None
        } else {
            Some((patch.next(current), patch.record(current)))
        }),
        patch.record(current).drawing is Some <==> patch.next(current).drawing != current.drawing,
        patch.record(current).color is Some <==> patch.next(current).color != current.color,
        patch.record(current).corner_radius is Some <==> patch.next(current).corner_radius != current.corner_radius,
        patch.record(current).height is Some <==> patch.next(current).height != current.height,
        patch.record(current).padding_left is Some <==> patch.next(current).padding_left != current.padding_left,
        patch.record(current).padding_right is Some <==> patch.next(current).padding_right != current.padding_right,
        patch.record(current).border_color is Some <==> patch.next(current).border_color != current.border_color,
        patch.record(current).border_width is Some <==> patch.next(current).border_width != current.border_width,
{
    law_moved_means_different::<Boolish, BoolChange>(patch.drawing, current.drawing);
    law_moved_means_different::<Color, Color>(patch.color, current.color);
    law_moved_means_different::<Measure, Measure>(patch.corner_radius, current.corner_radius);
    law_moved_means_different::<Measure, Measure>(patch.height, current.height);
    law_moved_means_different::<Measure, Measure>(patch.padding_left, current.padding_left);
    law_moved_means_different::<Measure, Measure>(patch.padding_right, current.padding_right);
    law_moved_means_different::<Color, Color>(patch.border_color, current.border_color);
    law_moved_means_different::<Measure, Measure>(patch.border_width, current.border_width);
}

/// A patch to what an item runs reports exactly the fields it moves: each of them
/// differs, and every other is as it was. What is set to a measurement that is
/// not a number is left out.
pub proof fn law_scripting_reports_what_moved(patch: ScriptingPatch, current: ScriptingModel)
    requires
        <ScriptingPatch as Changes<Scripting>>::sound(&patch),
    ensures
        <ScriptingPatch as Changes<Scripting>>::outcome(&patch, current) == (if patch.next(current) == current {
            None
        } else {
            Some((patch.next(current), patch.record(current)))
        }),
        patch.record(current).script is Some <==> patch.next(current).script != current.script,
        patch.record(current).click_script is Some <==> patch.next(current).click_script != current.click_script,
        patch.record(current).update_freq is Some <==> patch.next(current).update_freq != current.update_freq,
        patch.record(current).updates is Some <==> patch.next(current).updates != current.updates,
{
    law_moved_means_different::<Option<String>, String>(patch.script, current.script);
    law_moved_means_different::<Option<String>, String>(patch.click_script, current.click_script);
    law_moved_means_different::<u32, u32>(patch.update_freq, current.update_freq);
    law_moved_means_different::<Boolish, BoolChange>(patch.updates, current.updates);
}

/// A patch to where an item is reports exactly the fields it moves: each of them
/// differs, and every other is as it was. What is set to a measurement that is
/// not a number is left out.
pub proof fn law_geometry_reports_what_moved(patch: GeometryPatch, current: GeometryModel)
    requires
        <GeometryPatch as Changes<Geometry>>::sound(&patch),
    ensures
        <GeometryPatch as Changes<Geometry>>::outcome(&patch, current) == (if patch.next(current) == current {
            None
        } else {
            Some((patch.next(current), patch.record(current)))
        }),
        patch.record(current).drawing is Some <==> patch.next(current).drawing != current.drawing,
        patch.record(current).position is Some <==> patch.next(current).position != current.position,
        patch.record(current).y_offset is Some <==> patch.next(current).y_offset != current.y_offset,
        patch.record(current).padding_left is Some <==> patch.next(current).padding_left != current.padding_left,
        patch.record(current).padding_right is Some <==> patch.next(current).padding_right != current.padding_right,
        patch.record(current).width is Some <==> patch.next(current).width != current.width,
        patch.record(current).display is Some <==> patch.next(current).display != current.display,
        patch.record(current).background is Some <==> patch.next(current).background != current.background,
{
    law_moved_means_different::<Boolish, BoolChange>(patch.drawing, current.drawing);
    law_moved_means_different::<Position, Position>(patch.position, current.position);
    law_moved_means_different::<Measure, Measure>(patch.y_offset, current.y_offset);
    law_moved_means_different::<Measure, Measure>(patch.padding_left, current.padding_left);
    law_moved_means_different::<Measure, Measure>(patch.padding_right, current.padding_right);
    law_moved_means_different::<Option<Measure>, Measure>(patch.width, current.width);
    law_moved_means_different::<DisplayTarget, DisplayTarget>(patch.display, current.display);
    law_moved_means_different::<Background, BackgroundPatch>(patch.background, current.background);
}

/// A patch to an item's popup reports exactly the fields it moves: each of them
/// differs, and every other is as it was. What is set to a measurement that is
/// not a number is left out.
pub proof fn law_popup_reports_what_moved(patch: PopupPatch, current: PopupStateModel)
    requires
        <PopupPatch as Changes<PopupState>>::sound(&patch),
    ensures
        <PopupPatch as Changes<PopupState>>::outcome(&patch, current) == (if patch.next(current) == current {
            None
        } else {
            Some((patch.next(current), patch.record(current)))
        }),
        patch.record(current).drawing is Some <==> patch.next(current).drawing != current.drawing,
        patch.record(current).horizontal is Some <==> patch.next(current).horizontal != current.horizontal,
        patch.record(current).align is Some <==> patch.next(current).align != current.align,
        patch.record(current).topmost is Some <==> patch.next(current).topmost != current.topmost,
        patch.record(current).height is Some <==> patch.next(current).height != current.height,
        patch.record(current).y_offset is Some <==> patch.next(current).y_offset != current.y_offset,
        patch.record(current).background is Some <==> patch.next(current).background != current.background,
{
    law_moved_means_different::<Boolish, BoolChange>(patch.drawing, current.drawing);
    law_moved_means_different::<Boolish, BoolChange>(patch.horizontal, current.horizontal);
    law_moved_means_different::<PopupAlign, PopupAlign>(patch.align, current.align);
    law_moved_means_different::<Boolish, BoolChange>(patch.topmost, current.topmost);
    law_moved_means_different::<Measure, Measure>(patch.height, current.height);
    law_moved_means_different::<Measure, Measure>(patch.y_offset, current.y_offset);
    law_moved_means_different::<Background, BackgroundPatch>(patch.background, current.background);
}

/// A patch to the bar reports exactly the fields it moves: each of them
/// differs, and every other is as it was. What is set to a measurement that is
/// not a number is left out.
pub proof fn law_bar_reports_what_moved(patch: BarPatch, current: BarStateModel)
    requires
        <BarPatch as Changes<BarState>>::sound(&patch),
    ensures
        <BarPatch as Changes<BarState>>::outcome(&patch, current) == (if patch.next(current) == current {
            None
        } else {
            Some((patch.next(current), patch.record(current)))
        }),
        patch.record(current).height is Some <==> patch.next(current).height != current.height,
        patch.record(current).edge is Some <==> patch.next(current).edge != current.edge,
        patch.record(current).color is Some <==> patch.next(current).color != current.color,
        patch.record(current).margin is Some <==> patch.next(current).margin != current.margin,
        patch.record(current).y_offset is Some <==> patch.next(current).y_offset != current.y_offset,
        patch.record(current).corner_radius is Some <==> patch.next(current).corner_radius != current.corner_radius,
        patch.record(current).blur_radius is Some <==> patch.next(current).blur_radius != current.blur_radius,
        patch.record(current).topmost is Some <==> patch.next(current).topmost != current.topmost,
        patch.record(current).hidden is Some <==> patch.next(current).hidden != current.hidden,
        patch.record(current).padding_left is Some <==> patch.next(current).padding_left != current.padding_left,
        patch.record(current).padding_right is Some <==> patch.next(current).padding_right != current.padding_right,
        patch.record(current).display is Some <==> patch.next(current).display != current.display,
        patch.record(current).sticky is Some <==> patch.next(current).sticky != current.sticky,
        patch.record(current).show_in_fullscreen is Some <==> patch.next(current).show_in_fullscreen != current.show_in_fullscreen,
        patch.record(current).notch_width is Some <==> patch.next(current).notch_width != current.notch_width,
        patch.record(current).notch_offset is Some <==> patch.next(current).notch_offset != current.notch_offset,
        patch.record(current).notch_display_height is Some <==> patch.next(current).notch_display_height != current.notch_display_height,
{
    law_moved_means_different::<Measure, Measure>(patch.height, current.height);
    law_moved_means_different::<Edge, Edge>(patch.edge, current.edge);
    law_moved_means_different::<Color, Color>(patch.color, current.color);
    law_moved_means_different::<Measure, Measure>(patch.margin, current.margin);
    law_moved_means_different::<Measure, Measure>(patch.y_offset, current.y_offset);
    law_moved_means_different::<Measure, Measure>(patch.corner_radius, current.corner_radius);
    law_moved_means_different::<i32, i32>(patch.blur_radius, current.blur_radius);
    law_moved_means_different::<Boolish, BoolChange>(patch.topmost, current.topmost);
    law_moved_means_different::<Boolish, BoolChange>(patch.hidden, current.hidden);
    law_moved_means_different::<Measure, Measure>(patch.padding_left, current.padding_left);
    law_moved_means_different::<Measure, Measure>(patch.padding_right, current.padding_right);
    law_moved_means_different::<DisplayTarget, DisplayTarget>(patch.display, current.display);
    law_moved_means_different::<Boolish, BoolChange>(patch.sticky, current.sticky);
    law_moved_means_different::<Boolish, BoolChange>(patch.show_in_fullscreen, current.show_in_fullscreen);
    law_moved_means_different::<Measure, Measure>(patch.notch_width, current.notch_width);
    law_moved_means_different::<Measure, Measure>(patch.notch_offset, current.notch_offset);
    law_moved_means_different::<Measure, Measure>(patch.notch_display_height, current.notch_display_height);
}

/// A patch to an item reports exactly the fields it moves: each of them
/// differs, and every other is as it was. What is set to a measurement that is
/// not a number is left out.
pub proof fn law_item_reports_what_moved(patch: ItemPatch, current: ItemStateModel)
    requires
        <ItemPatch as Changes<ItemState>>::sound(&patch),
    ensures
        <ItemPatch as Changes<ItemState>>::outcome(&patch, current) == (if patch.next(current) == current {
            None
        } else {
            Some((patch.next(current), patch.record(current)))
        }),
        patch.record(current).geometry is Some <==> patch.next(current).geometry != current.geometry,
        patch.record(current).popup is Some <==> patch.next(current).popup != current.popup,
        patch.record(current).icon is Some <==> patch.next(current).icon != current.icon,
        patch.record(current).label is Some <==> patch.next(current).label != current.label,
        patch.record(current).scripting is Some <==> patch.next(current).scripting != current.scripting,
        patch.record(current).alias is Some <==> patch.next(current).alias != current.alias,
        patch.record(current).members is Some <==> patch.next(current).members != current.members,
        patch.record(current).associated_space is Some <==> patch.next(current).associated_space != current.associated_space,
        patch.record(current).percentage is Some <==> patch.next(current).percentage != current.percentage,
        patch.record(current).knob is Some <==> patch.next(current).knob != current.knob,
        patch.record(current).highlight_color is Some <==> patch.next(current).highlight_color != current.highlight_color,
{
    law_moved_means_different::<Geometry, GeometryPatch>(patch.geometry, current.geometry);
    law_moved_means_different::<PopupState, PopupPatch>(patch.popup, current.popup);
    law_moved_means_different::<Run, RunPatch>(patch.icon, current.icon);
    law_moved_means_different::<Run, RunPatch>(patch.label, current.label);
    law_moved_means_different::<Scripting, ScriptingPatch>(patch.scripting, current.scripting);
    law_moved_means_different::<Option<String>, String>(patch.alias, current.alias);
    law_moved_means_different::<Vec<ItemName>, Vec<Selector>>(patch.members, current.members);
    law_moved_means_different::<Option<u64>, Option<u64>>(patch.associated_space, current.associated_space);
    law_moved_means_different::<u8, u8>(patch.percentage, current.percentage);
    law_moved_means_different::<Run, RunPatch>(patch.knob, current.knob);
    law_moved_means_different::<Color, Color>(patch.highlight_color, current.highlight_color);
}

/// What no patch can say of an item stays: its name, and what it is subscribed
/// to.
pub proof fn law_a_patch_never_renames(patch: ItemPatch, item: ItemStateModel)
    ensures
        <ItemPatch as Changes<ItemState>>::outcome(&patch, item) matches Some((next, _)) ==> next.name
            == item.name && next.events == item.events,
{
}

/// Moving only what is behind an item reports only that, and within it only
/// what moved there.
pub proof fn law_a_nested_patch_reports_what_moved_within(
    background: BackgroundPatch,
    popup: PopupStateModel,
)
    ensures
        ({
            let patch = PopupPatch { background: Some(background), ..PopupPatch::nothing() };
            let moved = patch.record(popup);
            &&& moved.drawing is None && moved.horizontal is None && moved.align is None
            &&& moved.topmost is None && moved.height is None && moved.y_offset is None
            &&& background.record(popup.background).anything() ==> moved.background == Some(
                background.record(popup.background),
            )
            &&& !background.record(popup.background).anything() ==> moved.background is None
        }),
{
}

/// Folding a patch that says nothing into another, or another into it, leaves
/// the other.
pub proof fn law_folding_nothing_is_identity(patch: RunPatch)
    ensures
        patch.with(RunPatch::nothing()) == patch,
        RunPatch::nothing().with(patch) == patch,
{
}

/// Folding has no order to it but first and last: folding the second and third
/// first makes no difference.
pub proof fn law_folding_is_associative(a: ItemPatch, b: ItemPatch, c: ItemPatch)
    ensures
        a.with(b).with(c) == a.with(b.with(c)),
{
    let left = a.with(b).with(c);
    let right = a.with(b.with(c));
    assert(left.geometry == right.geometry) by {
        if a.geometry is Some && b.geometry is Some && c.geometry is Some {
            lemma_folding_geometry(a.geometry->0, b.geometry->0, c.geometry->0);
        }
    }
    assert(left.popup == right.popup) by {
        if a.popup is Some && b.popup is Some && c.popup is Some {
            lemma_folding_popupstate(a.popup->0, b.popup->0, c.popup->0);
        }
    }
    assert(left.icon == right.icon) by {
        if a.icon is Some && b.icon is Some && c.icon is Some {
            lemma_folding_run(a.icon->0, b.icon->0, c.icon->0);
        }
    }
    assert(left.label == right.label) by {
        if a.label is Some && b.label is Some && c.label is Some {
            lemma_folding_run(a.label->0, b.label->0, c.label->0);
        }
    }
    assert(left.scripting == right.scripting) by {
        if a.scripting is Some && b.scripting is Some && c.scripting is Some {
            lemma_folding_scripting(a.scripting->0, b.scripting->0, c.scripting->0);
        }
    }
    assert(left.knob == right.knob) by {
        if a.knob is Some && b.knob is Some && c.knob is Some {
            lemma_folding_run(a.knob->0, b.knob->0, c.knob->0);
        }
    }
    assert(left == right);
}

/// Folding patches of this kind is associative.
proof fn lemma_folding_background(a: BackgroundPatch, b: BackgroundPatch, c: BackgroundPatch)
    ensures
        a.with(b).with(c) == a.with(b.with(c)),
{
    let left = a.with(b).with(c);
    let right = a.with(b.with(c));

    assert(left == right);
}

/// Folding patches of this kind is associative.
proof fn lemma_folding_run(a: RunPatch, b: RunPatch, c: RunPatch)
    ensures
        a.with(b).with(c) == a.with(b.with(c)),
{
    let left = a.with(b).with(c);
    let right = a.with(b.with(c));

    assert(left == right);
}

/// Folding patches of this kind is associative.
proof fn lemma_folding_scripting(a: ScriptingPatch, b: ScriptingPatch, c: ScriptingPatch)
    ensures
        a.with(b).with(c) == a.with(b.with(c)),
{
    let left = a.with(b).with(c);
    let right = a.with(b.with(c));

    assert(left == right);
}

/// Folding patches of this kind is associative.
proof fn lemma_folding_popupstate(a: PopupPatch, b: PopupPatch, c: PopupPatch)
    ensures
        a.with(b).with(c) == a.with(b.with(c)),
{
    let left = a.with(b).with(c);
    let right = a.with(b.with(c));
    assert(left.background == right.background) by {
        if a.background is Some && b.background is Some && c.background is Some {
            lemma_folding_background(a.background->0, b.background->0, c.background->0);
        }
    }
    assert(left == right);
}

/// Folding patches of this kind is associative.
proof fn lemma_folding_geometry(a: GeometryPatch, b: GeometryPatch, c: GeometryPatch)
    ensures
        a.with(b).with(c) == a.with(b.with(c)),
{
    let left = a.with(b).with(c);
    let right = a.with(b.with(c));
    assert(left.background == right.background) by {
        if a.background is Some && b.background is Some && c.background is Some {
            lemma_folding_background(a.background->0, b.background->0, c.background->0);
        }
    }
    assert(left == right);
}

/// A text and then a colour are one patch that says both.
pub proof fn law_folding_keeps_both(text: String, color: Color)
    ensures
        RunPatch::saying(text).with(RunPatch { color: Some(color), ..RunPatch::nothing() }) == (
        RunPatch { text: Some(text), color: Some(color), ..RunPatch::nothing() }),
{
}

/// An item can be built from a patch exactly where the patch says where to put
/// it; the same patch always changes one.
pub proof fn law_building_needs_a_position(patch: ItemPatch)
    ensures
        patch.absent().len() == 0 <==> (patch.geometry matches Some(geometry)
            && geometry.position is Some),
{
}

/// A property of where an item is, or of what it runs, is spelled as the item's
/// own, and neither takes a key of the other's.
pub proof fn law_flattened_keys_do_not_collide(key: Seq<char>)
    ensures
        geometry_key(key) matches Some(inner) ==> item_key(key) == Some(ItemKey::Geometry(inner)),
        scripting_key(key) matches Some(inner) ==> item_key(key) == Some(ItemKey::Scripting(inner)),
{
    reveal_strlit("alias");
    reveal_strlit("associated_space");
    reveal_strlit("background");
    reveal_strlit("click_script");
    reveal_strlit("display");
    reveal_strlit("drawing");
    reveal_strlit("highlight_color");
    reveal_strlit("highlight_colour");
    reveal_strlit("icon");
    reveal_strlit("knob");
    reveal_strlit("label");
    reveal_strlit("members");
    reveal_strlit("padding_left");
    reveal_strlit("padding_right");
    reveal_strlit("percentage");
    reveal_strlit("popup");
    reveal_strlit("position");
    reveal_strlit("script");
    reveal_strlit("update_freq");
    reveal_strlit("updates");
    reveal_strlit("width");
    reveal_strlit("y_offset");
    assert("alias"@.len() == 5);
    assert("associated_space"@.len() == 16);
    assert("background"@.len() == 10);
    assert("click_script"@.len() == 12);
    assert("display"@.len() == 7);
    assert("drawing"@.len() == 7);
    assert("highlight_color"@.len() == 15);
    assert("highlight_colour"@.len() == 16);
    assert("icon"@.len() == 4);
    assert("knob"@.len() == 4);
    assert("label"@.len() == 5);
    assert("members"@.len() == 7);
    assert("padding_left"@.len() == 12);
    assert("padding_right"@.len() == 13);
    assert("percentage"@.len() == 10);
    assert("popup"@.len() == 5);
    assert("position"@.len() == 8);
    assert("script"@.len() == 6);
    assert("update_freq"@.len() == 11);
    assert("updates"@.len() == 7);
    assert("width"@.len() == 5);
    assert("y_offset"@.len() == 8);
    assert("popup"@[0] == 'p');
    assert("width"@[0] == 'w');
    assert("label"@[0] == 'l');
    assert("alias"@[0] == 'a');
    assert("members"@[0] == 'm');
    assert("drawing"@[0] == 'd');
    assert("display"@[0] == 'd');
    assert("updates"@[0] == 'u');
    assert("percentage"@[0] == 'p');
    assert("background"@[0] == 'b');
    assert("drawing"@[0] == 'd');
    assert("updates"@[0] == 'u');
    assert("padding_left"@[0] == 'p');
    assert("click_script"@[0] == 'c');
    assert("display"@[0] == 'd');
}

/// Every colour is spelled either way.
pub proof fn law_colours_are_spelled_either_way()
    ensures
        run_key("color"@) == run_key("colour"@),
        run_key("highlight_color"@) == run_key("highlight_colour"@),
        background_key("color"@) == background_key("colour"@),
        background_key("border_color"@) == background_key("border_colour"@),
        bar_key("color"@) == bar_key("colour"@),
        item_key("highlight_color"@) == item_key("highlight_colour"@),
{
    lemma_colour_keys();
}

/// The spellings of the colours are told apart from every other key.
proof fn lemma_colour_keys()
    ensures
        run_key("color"@) == Some(RunKey::Color) && run_key("colour"@) == Some(RunKey::Color),
        run_key("highlight_color"@) == Some(RunKey::HighlightColor) && run_key(
            "highlight_colour"@,
        ) == Some(RunKey::HighlightColor),
        background_key("color"@) == Some(BackgroundKey::Color) && background_key("colour"@)
            == Some(BackgroundKey::Color),
        background_key("border_color"@) == Some(BackgroundKey::BorderColor) && background_key(
            "border_colour"@,
        ) == Some(BackgroundKey::BorderColor),
        bar_key("color"@) == Some(BarKey::Color) && bar_key("colour"@) == Some(BarKey::Color),
        item_key("highlight_color"@) == Some(ItemKey::HighlightColor) && item_key(
            "highlight_colour"@,
        ) == Some(ItemKey::HighlightColor),
{
    reveal_strlit("alias");
    reveal_strlit("associated_space");
    reveal_strlit("blur_radius");
    reveal_strlit("border_color");
    reveal_strlit("border_colour");
    reveal_strlit("border_width");
    reveal_strlit("color");
    reveal_strlit("colour");
    reveal_strlit("corner_radius");
    reveal_strlit("display");
    reveal_strlit("drawing");
    reveal_strlit("edge");
    reveal_strlit("font");
    reveal_strlit("height");
    reveal_strlit("hidden");
    reveal_strlit("highlight");
    reveal_strlit("highlight_color");
    reveal_strlit("highlight_colour");
    reveal_strlit("icon");
    reveal_strlit("knob");
    reveal_strlit("label");
    reveal_strlit("margin");
    reveal_strlit("members");
    reveal_strlit("notch_display_height");
    reveal_strlit("notch_offset");
    reveal_strlit("notch_width");
    reveal_strlit("padding_left");
    reveal_strlit("padding_right");
    reveal_strlit("percentage");
    reveal_strlit("popup");
    reveal_strlit("position");
    reveal_strlit("show_in_fullscreen");
    reveal_strlit("sticky");
    reveal_strlit("string");
    reveal_strlit("text");
    reveal_strlit("topmost");
    reveal_strlit("y_offset");
    assert("alias"@.len() == 5);
    assert("associated_space"@.len() == 16);
    assert("blur_radius"@.len() == 11);
    assert("border_color"@.len() == 12);
    assert("border_colour"@.len() == 13);
    assert("border_width"@.len() == 12);
    assert("color"@.len() == 5);
    assert("colour"@.len() == 6);
    assert("corner_radius"@.len() == 13);
    assert("display"@.len() == 7);
    assert("drawing"@.len() == 7);
    assert("edge"@.len() == 4);
    assert("font"@.len() == 4);
    assert("height"@.len() == 6);
    assert("hidden"@.len() == 6);
    assert("highlight"@.len() == 9);
    assert("highlight_color"@.len() == 15);
    assert("highlight_colour"@.len() == 16);
    assert("icon"@.len() == 4);
    assert("knob"@.len() == 4);
    assert("label"@.len() == 5);
    assert("margin"@.len() == 6);
    assert("members"@.len() == 7);
    assert("notch_display_height"@.len() == 20);
    assert("notch_offset"@.len() == 12);
    assert("notch_width"@.len() == 11);
    assert("padding_left"@.len() == 12);
    assert("padding_right"@.len() == 13);
    assert("percentage"@.len() == 10);
    assert("popup"@.len() == 5);
    assert("position"@.len() == 8);
    assert("show_in_fullscreen"@.len() == 18);
    assert("sticky"@.len() == 6);
    assert("string"@.len() == 6);
    assert("text"@.len() == 4);
    assert("topmost"@.len() == 7);
    assert("y_offset"@.len() == 8);
    assert("color"@[0] == 'c');
    assert("alias"@[0] == 'a');
    assert("label"@[0] == 'l');
    assert("popup"@[0] == 'p');
    assert("colour"@[0] == 'c');
    assert("height"@[0] == 'h');
    assert("hidden"@[0] == 'h');
    assert("margin"@[0] == 'm');
    assert("sticky"@[0] == 's');
    assert("string"@[0] == 's');
    assert("highlight_colour"@[0] == 'h');
    assert("associated_space"@[0] == 'a');
    assert("border_color"@[7] == 'c');
    assert("border_width"@[7] == 'w');
    assert("border_color"@[0] == 'b');
    assert("notch_offset"@[0] == 'n');
    assert("padding_left"@[0] == 'p');
    assert("border_colour"@[0] == 'b');
    assert("corner_radius"@[0] == 'c');
    assert("padding_right"@[0] == 'p');
}

} // verus!
