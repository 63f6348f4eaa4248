//! What the options of a command say, said option by option.

use crate::cli::{bar_said, info_text, info_vars, item_said, BarOptions, FontOption, ItemOptions};
use crate::convert::font_spelled;
use crate::flag::BoolChange;
use crate::json::{document, json_of, json_text};
use crate::lua::piece_views;
use crate::measure::Measure;
use crate::state::{BackgroundPatch, BarPatch, GeometryPatch, ItemPatch, RunPatch, ScriptingPatch};
use crate::style::{Color, FontSpec};
use vstd::prelude::*;

verus! {

/// A number is said where it is given, and is the one that was given.
pub open spec fn gives_number(given: Option<Measure>, said: Option<Measure>) -> bool {
    match given {
        Some(m) => said matches Some(n) && n.bits == m.bits && n.text@ == m.text@,
        None => said is None,
    }
}

/// The same of a colour.
pub open spec fn gives_color(given: Option<u32>, said: Option<Color>) -> bool {
    match given {
        Some(argb) => said matches Some(color) && color.0 == argb,
        None => said is None,
    }
}

/// The same of a flag.
pub open spec fn gives_flag(given: Option<bool>, said: Option<BoolChange>) -> bool {
    match given {
        Some(true) => said == Some(BoolChange::True),
        Some(false) => said == Some(BoolChange::False),
        None => said is None,
    }
}

/// The same of a text.
pub open spec fn gives_text(given: Option<String>, said: Option<String>) -> bool {
    match given {
        Some(text) => said matches Some(other) && other@ == text@,
        None => said is None,
    }
}

/// The same of a font.
pub open spec fn gives_font(given: Option<FontOption>, said: Option<FontSpec>) -> bool {
    match given {
        Some(font) => said matches Some(other) && other@ == font_spelled(
            font.text@,
            piece_views(font.pieces@),
        ),
        None => said is None,
    }
}

/// The options of a bar say the properties of the same names, and nothing of any
/// other.
pub proof fn law_bar_options_say_what_they_are_named(o: BarOptions, patch: BarPatch)
    requires
        patch@ == bar_said(o),
    ensures
        gives_number(o.height, patch.height),
        gives_number(o.margin, patch.margin),
        gives_number(o.y_offset, patch.y_offset),
        gives_number(o.corner_radius, patch.corner_radius),
        patch.edge == o.edge,
        gives_color(o.color, patch.color),
        patch.blur_radius == o.blur_radius,
        gives_flag(o.hidden, patch.hidden),
        gives_flag(o.topmost, patch.topmost),
        patch.padding_left is None,
        patch.padding_right is None,
        patch.display is None,
        patch.sticky is None,
        patch.show_in_fullscreen is None,
        patch.notch_width is None,
        patch.notch_offset is None,
        patch.notch_display_height is None,
{
}

/// What the options say of one half of an item's text.
pub open spec fn gives_half(
    text: Option<String>,
    font: Option<FontOption>,
    color: Option<u32>,
    said: Option<RunPatch>,
) -> bool {
    match said {
        Some(run) => {
            &&& text is Some || font is Some || color is Some
            &&& gives_text(text, run.text)
            &&& gives_font(font, run.font)
            &&& gives_color(color, run.color)
            &&& run.drawing is None && run.padding_left is None && run.padding_right is None
            &&& run.y_offset is None && run.highlight is None && run.highlight_color is None
        },
        None => text is None && font is None && color is None,
    }
}

/// What the options say of what is behind an item.
pub open spec fn gives_background(o: ItemOptions, said: Option<BackgroundPatch>) -> bool {
    match said {
        Some(behind) => {
            &&& o.background_color is Some || o.corner_radius is Some
            &&& gives_color(o.background_color, behind.color)
            &&& gives_number(o.corner_radius, behind.corner_radius)
            &&& behind.drawing is None && behind.height is None && behind.padding_left is None
            &&& behind.padding_right is None && behind.border_color is None
            &&& behind.border_width is None
        },
        None => o.background_color is None && o.corner_radius is None,
    }
}

/// What the options say of where an item is.
pub open spec fn gives_geometry(o: ItemOptions, said: Option<GeometryPatch>) -> bool {
    match said {
        Some(geometry) => {
            &&& gives_flag(o.drawing, geometry.drawing)
            &&& match o.position {
                Some(position) => geometry.position matches Some(other) && other@ == position@,
                None => geometry.position is None,
            }
            &&& gives_number(o.y_offset, geometry.y_offset)
            &&& gives_number(o.padding_left, geometry.padding_left)
            &&& gives_number(o.padding_right, geometry.padding_right)
            &&& gives_background(o, geometry.background)
            &&& geometry.width is None && geometry.display is None
        },
        None => o.drawing is None && o.position is None && o.y_offset is None && o.padding_left
            is None && o.padding_right is None && gives_background(o, None),
    }
}

/// What the options say of what an item runs.
pub open spec fn gives_scripting(o: ItemOptions, said: Option<ScriptingPatch>) -> bool {
    match said {
        Some(scripting) => {
            &&& gives_text(o.script, scripting.script)
            &&& gives_text(o.click_script, scripting.click_script)
            &&& scripting.update_freq == o.update_freq
            &&& scripting.updates is None
        },
        None => o.script is None && o.click_script is None && o.update_freq is None,
    }
}

/// The options of an item say the properties of the same names, of the half they
/// name, and nothing of any other.
pub proof fn law_item_options_say_what_they_are_named(o: ItemOptions, patch: ItemPatch)
    requires
        patch@ == item_said(o),
    ensures
        gives_half(o.icon, o.icon_font, o.icon_color, patch.icon),
        gives_half(o.label, o.label_font, o.label_color, patch.label),
        gives_geometry(o, patch.geometry),
        gives_scripting(o, patch.scripting),
        gives_text(o.alias, patch.alias),
        patch.popup is None,
        patch.members is None,
        patch.associated_space is None,
        patch.percentage is None,
        patch.knob is None,
        patch.highlight_color is None,
{
    let said = item_said(o);
    assert(patch@.icon == said.icon);
    assert(patch@.label == said.label);
    assert(patch@.geometry == said.geometry);
    assert(patch@.scripting == said.scripting);
}

/// What an event is triggered with is under the one name, and is there where it is
/// given.
pub proof fn law_what_is_given_goes_by_one_name(value: Seq<char>, name: Seq<char>)
    ensures
        info_vars(Some(value)).contains_key(name) <==> name == "info"@,
        info_vars(Some(value))["info"@] == value,
        !info_vars(None).contains_key(name),
{
}

/// What is given is a document where it reads as one, and else the text it is.
pub proof fn law_what_is_given_is_a_document_or_a_text(text: Seq<char>)
    ensures
        document(text) is None ==> info_text(text) == text,
        document(text) matches Some(doc) ==> info_text(text) == json_text(json_of(doc)),
{
}

} // verus!
