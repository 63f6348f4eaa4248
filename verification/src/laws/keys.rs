//! What each property is spelled as, and what counts as anything having moved.

use crate::state::{
    background_key, bar_key, geometry_key, item_key, popup_key, run_key, scripting_key,
    BackgroundKey, BarKey, GeometryKey, ItemKey, PopupKey, RunKey, ScriptingKey,
};
use crate::state::{
    RunMoved, BackgroundMoved, BarStateMoved, GeometryMoved, ScriptingMoved, PopupStateMoved,
    ItemStateMoved,
};
use vstd::prelude::*;

verus! {

/// The properties of a half of an item's text, each by its own name.
pub proof fn law_run_keys(key: Seq<char>)
    ensures
        run_key(key) == Some(RunKey::Text) <==> (key == "string"@ || key == "text"@),
        run_key(key) == Some(RunKey::Color) <==> (key == "color"@ || key == "colour"@),
        run_key(key) == Some(RunKey::Font) <==> (key == "font"@),
        run_key(key) == Some(RunKey::Drawing) <==> (key == "drawing"@),
        run_key(key) == Some(RunKey::PaddingLeft) <==> (key == "padding_left"@),
        run_key(key) == Some(RunKey::PaddingRight) <==> (key == "padding_right"@),
        run_key(key) == Some(RunKey::YOffset) <==> (key == "y_offset"@),
        run_key(key) == Some(RunKey::Highlight) <==> (key == "highlight"@),
        run_key(key) == Some(RunKey::HighlightColor) <==> (key == "highlight_color"@ || key == "highlight_colour"@),
{
    reveal_strlit("string");
    reveal_strlit("text");
    reveal_strlit("color");
    reveal_strlit("colour");
    reveal_strlit("font");
    reveal_strlit("drawing");
    reveal_strlit("padding_left");
    reveal_strlit("padding_right");
    reveal_strlit("y_offset");
    reveal_strlit("highlight");
    reveal_strlit("highlight_color");
    reveal_strlit("highlight_colour");
    assert("string"@.len() == 6 && "string"@[0] == 's');
    assert("text"@.len() == 4 && "text"@[0] == 't');
    assert("color"@.len() == 5 && "color"@[0] == 'c');
    assert("colour"@.len() == 6 && "colour"@[0] == 'c');
    assert("font"@.len() == 4 && "font"@[0] == 'f');
    assert("drawing"@.len() == 7 && "drawing"@[0] == 'd');
    assert("padding_left"@.len() == 12 && "padding_left"@[0] == 'p');
    assert("padding_right"@.len() == 13 && "padding_right"@[0] == 'p');
    assert("y_offset"@.len() == 8 && "y_offset"@[0] == 'y');
    assert("highlight"@.len() == 9 && "highlight"@[0] == 'h');
    assert("highlight_color"@.len() == 15 && "highlight_color"@[0] == 'h');
    assert("highlight_colour"@.len() == 16 && "highlight_colour"@[0] == 'h');
}

/// The properties of a background, each by its own name.
pub proof fn law_background_keys(key: Seq<char>)
    ensures
        background_key(key) == Some(BackgroundKey::Drawing) <==> (key == "drawing"@),
        background_key(key) == Some(BackgroundKey::Color) <==> (key == "color"@ || key == "colour"@),
        background_key(key) == Some(BackgroundKey::CornerRadius) <==> (key == "corner_radius"@),
        background_key(key) == Some(BackgroundKey::Height) <==> (key == "height"@),
        background_key(key) == Some(BackgroundKey::PaddingLeft) <==> (key == "padding_left"@),
        background_key(key) == Some(BackgroundKey::PaddingRight) <==> (key == "padding_right"@),
        background_key(key) == Some(BackgroundKey::BorderColor) <==> (key == "border_color"@ || key == "border_colour"@),
        background_key(key) == Some(BackgroundKey::BorderWidth) <==> (key == "border_width"@),
{
    reveal_strlit("drawing");
    reveal_strlit("color");
    reveal_strlit("colour");
    reveal_strlit("corner_radius");
    reveal_strlit("height");
    reveal_strlit("padding_left");
    reveal_strlit("padding_right");
    reveal_strlit("border_color");
    reveal_strlit("border_colour");
    reveal_strlit("border_width");
    assert("drawing"@.len() == 7 && "drawing"@[0] == 'd');
    assert("color"@.len() == 5 && "color"@[0] == 'c');
    assert("colour"@.len() == 6 && "colour"@[0] == 'c');
    assert("corner_radius"@.len() == 13 && "corner_radius"@[0] == 'c');
    assert("height"@.len() == 6 && "height"@[0] == 'h');
    assert("padding_left"@.len() == 12 && "padding_left"@[0] == 'p');
    assert("padding_right"@.len() == 13 && "padding_right"@[0] == 'p');
    assert("border_color"@.len() == 12 && "border_color"@[0] == 'b' && "border_color"@[7] == 'c');
    assert("border_colour"@.len() == 13 && "border_colour"@[0] == 'b');
    assert("border_width"@.len() == 12 && "border_width"@[0] == 'b' && "border_width"@[7] == 'w');
}

/// The properties of a bar, each by its own name.
pub proof fn law_bar_keys(key: Seq<char>)
    ensures
        bar_key(key) == Some(BarKey::Height) <==> (key == "height"@),
        bar_key(key) == Some(BarKey::Edge) <==> (key == "edge"@ || key == "position"@),
        bar_key(key) == Some(BarKey::Color) <==> (key == "color"@ || key == "colour"@),
        bar_key(key) == Some(BarKey::Margin) <==> (key == "margin"@),
        bar_key(key) == Some(BarKey::YOffset) <==> (key == "y_offset"@),
        bar_key(key) == Some(BarKey::CornerRadius) <==> (key == "corner_radius"@),
        bar_key(key) == Some(BarKey::BlurRadius) <==> (key == "blur_radius"@),
        bar_key(key) == Some(BarKey::Topmost) <==> (key == "topmost"@),
        bar_key(key) == Some(BarKey::Hidden) <==> (key == "hidden"@),
        bar_key(key) == Some(BarKey::PaddingLeft) <==> (key == "padding_left"@),
        bar_key(key) == Some(BarKey::PaddingRight) <==> (key == "padding_right"@),
        bar_key(key) == Some(BarKey::Display) <==> (key == "display"@),
        bar_key(key) == Some(BarKey::Sticky) <==> (key == "sticky"@),
        bar_key(key) == Some(BarKey::ShowInFullscreen) <==> (key == "show_in_fullscreen"@),
        bar_key(key) == Some(BarKey::NotchWidth) <==> (key == "notch_width"@),
        bar_key(key) == Some(BarKey::NotchOffset) <==> (key == "notch_offset"@),
        bar_key(key) == Some(BarKey::NotchDisplayHeight) <==> (key == "notch_display_height"@),
{
    reveal_strlit("height");
    reveal_strlit("edge");
    reveal_strlit("position");
    reveal_strlit("color");
    reveal_strlit("colour");
    reveal_strlit("margin");
    reveal_strlit("y_offset");
    reveal_strlit("corner_radius");
    reveal_strlit("blur_radius");
    reveal_strlit("topmost");
    reveal_strlit("hidden");
    reveal_strlit("padding_left");
    reveal_strlit("padding_right");
    reveal_strlit("display");
    reveal_strlit("sticky");
    reveal_strlit("show_in_fullscreen");
    reveal_strlit("notch_width");
    reveal_strlit("notch_offset");
    reveal_strlit("notch_display_height");
    assert("height"@.len() == 6 && "height"@[0] == 'h' && "height"@[1] == 'e');
    assert("edge"@.len() == 4 && "edge"@[0] == 'e');
    assert("position"@.len() == 8 && "position"@[0] == 'p');
    assert("color"@.len() == 5 && "color"@[0] == 'c');
    assert("colour"@.len() == 6 && "colour"@[0] == 'c');
    assert("margin"@.len() == 6 && "margin"@[0] == 'm');
    assert("y_offset"@.len() == 8 && "y_offset"@[0] == 'y');
    assert("corner_radius"@.len() == 13 && "corner_radius"@[0] == 'c');
    assert("blur_radius"@.len() == 11 && "blur_radius"@[0] == 'b');
    assert("topmost"@.len() == 7 && "topmost"@[0] == 't');
    assert("hidden"@.len() == 6 && "hidden"@[0] == 'h' && "hidden"@[1] == 'i');
    assert("padding_left"@.len() == 12 && "padding_left"@[0] == 'p');
    assert("padding_right"@.len() == 13 && "padding_right"@[0] == 'p');
    assert("display"@.len() == 7 && "display"@[0] == 'd');
    assert("sticky"@.len() == 6 && "sticky"@[0] == 's');
    assert("show_in_fullscreen"@.len() == 18 && "show_in_fullscreen"@[0] == 's');
    assert("notch_width"@.len() == 11 && "notch_width"@[0] == 'n');
    assert("notch_offset"@.len() == 12 && "notch_offset"@[0] == 'n');
    assert("notch_display_height"@.len() == 20 && "notch_display_height"@[0] == 'n');
}

/// The properties of a item's place, each by its own name.
pub proof fn law_geometry_keys(key: Seq<char>)
    ensures
        geometry_key(key) == Some(GeometryKey::Drawing) <==> (key == "drawing"@),
        geometry_key(key) == Some(GeometryKey::Position) <==> (key == "position"@),
        geometry_key(key) == Some(GeometryKey::YOffset) <==> (key == "y_offset"@),
        geometry_key(key) == Some(GeometryKey::PaddingLeft) <==> (key == "padding_left"@),
        geometry_key(key) == Some(GeometryKey::PaddingRight) <==> (key == "padding_right"@),
        geometry_key(key) == Some(GeometryKey::Width) <==> (key == "width"@),
        geometry_key(key) == Some(GeometryKey::Display) <==> (key == "display"@),
        geometry_key(key) == Some(GeometryKey::Background) <==> (key == "background"@),
{
    reveal_strlit("drawing");
    reveal_strlit("position");
    reveal_strlit("y_offset");
    reveal_strlit("padding_left");
    reveal_strlit("padding_right");
    reveal_strlit("width");
    reveal_strlit("display");
    reveal_strlit("background");
    assert("drawing"@.len() == 7 && "drawing"@[0] == 'd' && "drawing"@[1] == 'r');
    assert("position"@.len() == 8 && "position"@[0] == 'p');
    assert("y_offset"@.len() == 8 && "y_offset"@[0] == 'y');
    assert("padding_left"@.len() == 12 && "padding_left"@[0] == 'p');
    assert("padding_right"@.len() == 13 && "padding_right"@[0] == 'p');
    assert("width"@.len() == 5 && "width"@[0] == 'w');
    assert("display"@.len() == 7 && "display"@[0] == 'd' && "display"@[1] == 'i');
    assert("background"@.len() == 10 && "background"@[0] == 'b');
}

/// The properties of a item's scripts, each by its own name.
pub proof fn law_scripting_keys(key: Seq<char>)
    ensures
        scripting_key(key) == Some(ScriptingKey::Script) <==> (key == "script"@),
        scripting_key(key) == Some(ScriptingKey::ClickScript) <==> (key == "click_script"@),
        scripting_key(key) == Some(ScriptingKey::UpdateFreq) <==> (key == "update_freq"@),
        scripting_key(key) == Some(ScriptingKey::Updates) <==> (key == "updates"@),
{
    reveal_strlit("script");
    reveal_strlit("click_script");
    reveal_strlit("update_freq");
    reveal_strlit("updates");
    assert("script"@.len() == 6 && "script"@[0] == 's');
    assert("click_script"@.len() == 12 && "click_script"@[0] == 'c');
    assert("update_freq"@.len() == 11 && "update_freq"@[0] == 'u');
    assert("updates"@.len() == 7 && "updates"@[0] == 'u');
}

/// The properties of a popup, each by its own name.
pub proof fn law_popup_keys(key: Seq<char>)
    ensures
        popup_key(key) == Some(PopupKey::Drawing) <==> (key == "drawing"@),
        popup_key(key) == Some(PopupKey::Horizontal) <==> (key == "horizontal"@),
        popup_key(key) == Some(PopupKey::Align) <==> (key == "align"@),
        popup_key(key) == Some(PopupKey::Topmost) <==> (key == "topmost"@),
        popup_key(key) == Some(PopupKey::Height) <==> (key == "height"@),
        popup_key(key) == Some(PopupKey::YOffset) <==> (key == "y_offset"@),
        popup_key(key) == Some(PopupKey::Background) <==> (key == "background"@),
{
    reveal_strlit("drawing");
    reveal_strlit("horizontal");
    reveal_strlit("align");
    reveal_strlit("topmost");
    reveal_strlit("height");
    reveal_strlit("y_offset");
    reveal_strlit("background");
    assert("drawing"@.len() == 7 && "drawing"@[0] == 'd');
    assert("horizontal"@.len() == 10 && "horizontal"@[0] == 'h');
    assert("align"@.len() == 5 && "align"@[0] == 'a');
    assert("topmost"@.len() == 7 && "topmost"@[0] == 't');
    assert("height"@.len() == 6 && "height"@[0] == 'h');
    assert("y_offset"@.len() == 8 && "y_offset"@[0] == 'y');
    assert("background"@.len() == 10 && "background"@[0] == 'b');
}

/// The properties of an item, each by its own name, those of its place and its scripts
/// among them.
pub proof fn law_item_keys(key: Seq<char>)
    ensures
        item_key(key) == Some(ItemKey::Popup) <==> (key == "popup"@),
        item_key(key) == Some(ItemKey::Icon) <==> (key == "icon"@),
        item_key(key) == Some(ItemKey::Label) <==> (key == "label"@),
        item_key(key) == Some(ItemKey::Alias) <==> (key == "alias"@),
        item_key(key) == Some(ItemKey::Members) <==> (key == "members"@),
        item_key(key) == Some(ItemKey::AssociatedSpace) <==> (key == "associated_space"@),
        item_key(key) == Some(ItemKey::Percentage) <==> (key == "percentage"@),
        item_key(key) == Some(ItemKey::Knob) <==> (key == "knob"@),
        item_key(key) == Some(ItemKey::HighlightColor) <==> (key == "highlight_color"@ || key == "highlight_colour"@),
        item_key(key) == Some(ItemKey::Geometry(GeometryKey::Drawing)) <==> (key == "drawing"@),
        item_key(key) == Some(ItemKey::Geometry(GeometryKey::Position)) <==> (key == "position"@),
        item_key(key) == Some(ItemKey::Geometry(GeometryKey::YOffset)) <==> (key == "y_offset"@),
        item_key(key) == Some(ItemKey::Geometry(GeometryKey::PaddingLeft)) <==> (key == "padding_left"@),
        item_key(key) == Some(ItemKey::Geometry(GeometryKey::PaddingRight)) <==> (key == "padding_right"@),
        item_key(key) == Some(ItemKey::Geometry(GeometryKey::Width)) <==> (key == "width"@),
        item_key(key) == Some(ItemKey::Geometry(GeometryKey::Display)) <==> (key == "display"@),
        item_key(key) == Some(ItemKey::Geometry(GeometryKey::Background)) <==> (key == "background"@),
        item_key(key) == Some(ItemKey::Scripting(ScriptingKey::Script)) <==> (key == "script"@),
        item_key(key) == Some(ItemKey::Scripting(ScriptingKey::ClickScript)) <==> (key == "click_script"@),
        item_key(key) == Some(ItemKey::Scripting(ScriptingKey::UpdateFreq)) <==> (key == "update_freq"@),
        item_key(key) == Some(ItemKey::Scripting(ScriptingKey::Updates)) <==> (key == "updates"@),
{
    law_geometry_keys(key);
    law_scripting_keys(key);
    reveal_strlit("popup");
    reveal_strlit("icon");
    reveal_strlit("label");
    reveal_strlit("alias");
    reveal_strlit("members");
    reveal_strlit("associated_space");
    reveal_strlit("percentage");
    reveal_strlit("knob");
    reveal_strlit("highlight_color");
    reveal_strlit("highlight_colour");
    reveal_strlit("drawing");
    reveal_strlit("position");
    reveal_strlit("y_offset");
    reveal_strlit("padding_left");
    reveal_strlit("padding_right");
    reveal_strlit("width");
    reveal_strlit("display");
    reveal_strlit("background");
    reveal_strlit("script");
    reveal_strlit("click_script");
    reveal_strlit("update_freq");
    reveal_strlit("updates");
    assert("popup"@.len() == 5 && "popup"@[0] == 'p');
    assert("icon"@.len() == 4 && "icon"@[0] == 'i');
    assert("label"@.len() == 5 && "label"@[0] == 'l');
    assert("alias"@.len() == 5 && "alias"@[0] == 'a');
    assert("members"@.len() == 7 && "members"@[0] == 'm');
    assert("associated_space"@.len() == 16 && "associated_space"@[0] == 'a');
    assert("percentage"@.len() == 10 && "percentage"@[0] == 'p');
    assert("knob"@.len() == 4 && "knob"@[0] == 'k');
    assert("highlight_color"@.len() == 15 && "highlight_color"@[0] == 'h');
    assert("highlight_colour"@.len() == 16 && "highlight_colour"@[0] == 'h');
    assert("drawing"@.len() == 7 && "drawing"@[0] == 'd' && "drawing"@[1] == 'r');
    assert("position"@.len() == 8 && "position"@[0] == 'p');
    assert("y_offset"@.len() == 8 && "y_offset"@[0] == 'y');
    assert("padding_left"@.len() == 12 && "padding_left"@[0] == 'p');
    assert("padding_right"@.len() == 13 && "padding_right"@[0] == 'p');
    assert("width"@.len() == 5 && "width"@[0] == 'w');
    assert("display"@.len() == 7 && "display"@[0] == 'd' && "display"@[1] == 'i');
    assert("background"@.len() == 10 && "background"@[0] == 'b');
    assert("script"@.len() == 6 && "script"@[0] == 's');
    assert("click_script"@.len() == 12 && "click_script"@[0] == 'c');
    assert("update_freq"@.len() == 11 && "update_freq"@[0] == 'u');
    assert("updates"@.len() == 7 && "updates"@[0] == 'u');
}

/// Anything counts as moved where any one property is, and nothing where none is.
pub proof fn law_run_moved_says_something(moved: RunMoved)
    ensures
        moved.text is Some ==> moved.anything(),
        moved.color is Some ==> moved.anything(),
        moved.font is Some ==> moved.anything(),
        moved.drawing is Some ==> moved.anything(),
        moved.padding_left is Some ==> moved.anything(),
        moved.padding_right is Some ==> moved.anything(),
        moved.y_offset is Some ==> moved.anything(),
        moved.highlight is Some ==> moved.anything(),
        moved.highlight_color is Some ==> moved.anything(),
        moved.text is None && moved.color is None && moved.font is None && moved.drawing is None && moved.padding_left is None && moved.padding_right is None && moved.y_offset is None && moved.highlight is None && moved.highlight_color is None ==> !moved.anything(),
{
}

/// Anything counts as moved where any one property is, and nothing where none is.
pub proof fn law_background_moved_says_something(moved: BackgroundMoved)
    ensures
        moved.drawing is Some ==> moved.anything(),
        moved.color is Some ==> moved.anything(),
        moved.corner_radius is Some ==> moved.anything(),
        moved.height is Some ==> moved.anything(),
        moved.padding_left is Some ==> moved.anything(),
        moved.padding_right is Some ==> moved.anything(),
        moved.border_color is Some ==> moved.anything(),
        moved.border_width is Some ==> moved.anything(),
        moved.drawing is None && moved.color is None && moved.corner_radius is None && moved.height is None && moved.padding_left is None && moved.padding_right is None && moved.border_color is None && moved.border_width is None ==> !moved.anything(),
{
}

/// Anything counts as moved where any one property is, and nothing where none is.
pub proof fn law_bar_state_moved_says_something(moved: BarStateMoved)
    ensures
        moved.height is Some ==> moved.anything(),
        moved.edge is Some ==> moved.anything(),
        moved.color is Some ==> moved.anything(),
        moved.margin is Some ==> moved.anything(),
        moved.y_offset is Some ==> moved.anything(),
        moved.corner_radius is Some ==> moved.anything(),
        moved.blur_radius is Some ==> moved.anything(),
        moved.topmost is Some ==> moved.anything(),
        moved.hidden is Some ==> moved.anything(),
        moved.padding_left is Some ==> moved.anything(),
        moved.padding_right is Some ==> moved.anything(),
        moved.display is Some ==> moved.anything(),
        moved.sticky is Some ==> moved.anything(),
        moved.show_in_fullscreen is Some ==> moved.anything(),
        moved.notch_width is Some ==> moved.anything(),
        moved.notch_offset is Some ==> moved.anything(),
        moved.notch_display_height is Some ==> moved.anything(),
        moved.height is None && moved.edge is None && moved.color is None && moved.margin is None && moved.y_offset is None && moved.corner_radius is None && moved.blur_radius is None && moved.topmost is None && moved.hidden is None && moved.padding_left is None && moved.padding_right is None && moved.display is None && moved.sticky is None && moved.show_in_fullscreen is None && moved.notch_width is None && moved.notch_offset is None && moved.notch_display_height is None ==> !moved.anything(),
{
}

/// Anything counts as moved where any one property is, and nothing where none is.
pub proof fn law_geometry_moved_says_something(moved: GeometryMoved)
    ensures
        moved.drawing is Some ==> moved.anything(),
        moved.position is Some ==> moved.anything(),
        moved.y_offset is Some ==> moved.anything(),
        moved.padding_left is Some ==> moved.anything(),
        moved.padding_right is Some ==> moved.anything(),
        moved.width is Some ==> moved.anything(),
        moved.display is Some ==> moved.anything(),
        moved.background is Some ==> moved.anything(),
        moved.drawing is None && moved.position is None && moved.y_offset is None && moved.padding_left is None && moved.padding_right is None && moved.width is None && moved.display is None && moved.background is None ==> !moved.anything(),
{
}

/// Anything counts as moved where any one property is, and nothing where none is.
pub proof fn law_scripting_moved_says_something(moved: ScriptingMoved)
    ensures
        moved.script is Some ==> moved.anything(),
        moved.click_script is Some ==> moved.anything(),
        moved.update_freq is Some ==> moved.anything(),
        moved.updates is Some ==> moved.anything(),
        moved.script is None && moved.click_script is None && moved.update_freq is None && moved.updates is None ==> !moved.anything(),
{
}

/// Anything counts as moved where any one property is, and nothing where none is.
pub proof fn law_popup_state_moved_says_something(moved: PopupStateMoved)
    ensures
        moved.drawing is Some ==> moved.anything(),
        moved.horizontal is Some ==> moved.anything(),
        moved.align is Some ==> moved.anything(),
        moved.topmost is Some ==> moved.anything(),
        moved.height is Some ==> moved.anything(),
        moved.y_offset is Some ==> moved.anything(),
        moved.background is Some ==> moved.anything(),
        moved.drawing is None && moved.horizontal is None && moved.align is None && moved.topmost is None && moved.height is None && moved.y_offset is None && moved.background is None ==> !moved.anything(),
{
}

/// Anything counts as moved where any one property is, and nothing where none is.
pub proof fn law_item_state_moved_says_something(moved: ItemStateMoved)
    ensures
        moved.geometry is Some ==> moved.anything(),
        moved.popup is Some ==> moved.anything(),
        moved.icon is Some ==> moved.anything(),
        moved.label is Some ==> moved.anything(),
        moved.scripting is Some ==> moved.anything(),
        moved.alias is Some ==> moved.anything(),
        moved.members is Some ==> moved.anything(),
        moved.associated_space is Some ==> moved.anything(),
        moved.percentage is Some ==> moved.anything(),
        moved.knob is Some ==> moved.anything(),
        moved.highlight_color is Some ==> moved.anything(),
        moved.geometry is None && moved.popup is None && moved.icon is None && moved.label is None && moved.scripting is None && moved.alias is None && moved.members is None && moved.associated_space is None && moved.percentage is None && moved.knob is None && moved.highlight_color is None ==> !moved.anything(),
{
}

} // verus!
