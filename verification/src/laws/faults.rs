//! Where a table does not read, what is said is what is wrong with one of its keys.

use crate::convert::{
    alias_at, align_at, background_at, background_of_table, bar_patch, color_at, display_at,
    edge_at, fault_of, flag_at, font_at, font_of_table, item_patch, measure_at, members_at,
    popup_at, popup_of_table, position_at, run_at, run_of_table, size_at, text_at, toggle_at,
    whole_at, Fields,
};
use crate::lua::LuaFault;
use vstd::prelude::*;

verus! {

/// A bar that does not read is refused for one of its keys.
pub proof fn law_a_bar_is_refused_for_a_key(fields: Fields, fault: LuaFault)
    requires
        fault_of(bar_patch(fields)) == Some(fault),
    ensures
        ({
            ||| fault_of(edge_at(fields)) == Some(fault)
            ||| fault_of(flag_at(fields, "sticky"@)) == Some(fault)
            ||| fault_of(flag_at(fields, "show_in_fullscreen"@)) == Some(fault)
            ||| fault_of(measure_at(fields, "notch_width"@)) == Some(fault)
            ||| fault_of(measure_at(fields, "notch_offset"@)) == Some(fault)
            ||| fault_of(measure_at(fields, "notch_display_height"@)) == Some(fault)
            ||| fault_of(measure_at(fields, "padding_left"@)) == Some(fault)
            ||| fault_of(measure_at(fields, "padding_right"@)) == Some(fault)
            ||| fault_of(display_at(fields, "display"@)) == Some(fault)
            ||| fault_of(measure_at(fields, "height"@)) == Some(fault)
            ||| fault_of(color_at(fields, "color"@)) == Some(fault)
            ||| fault_of(measure_at(fields, "margin"@)) == Some(fault)
            ||| fault_of(measure_at(fields, "y_offset"@)) == Some(fault)
            ||| fault_of(measure_at(fields, "corner_radius"@)) == Some(fault)
            ||| fault_of(whole_at(fields, "blur_radius"@, -0x8000_0000, 0x7fff_ffff, "i32"@)) == Some(fault)
            ||| fault_of(flag_at(fields, "hidden"@)) == Some(fault)
            ||| fault_of(flag_at(fields, "topmost"@)) == Some(fault)
        }),
{
}

/// An item that does not read is refused for one of its keys.
pub proof fn law_a_item_is_refused_for_a_key(fields: Fields, fault: LuaFault)
    requires
        fault_of(item_patch(fields)) == Some(fault),
    ensures
        ({
            ||| fault_of(run_at(fields, "icon"@)) == Some(fault)
            ||| fault_of(run_at(fields, "label"@)) == Some(fault)
            ||| fault_of(whole_at(fields, "percentage"@, 0, 255, "u8"@)) == Some(fault)
            ||| fault_of(color_at(fields, "highlight_color"@)) == Some(fault)
            ||| fault_of(popup_at(fields)) == Some(fault)
            ||| fault_of(flag_at(fields, "updates"@)) == Some(fault)
            ||| fault_of(measure_at(fields, "width"@)) == Some(fault)
            ||| fault_of(display_at(fields, "display"@)) == Some(fault)
            ||| fault_of(background_at(fields)) == Some(fault)
            ||| fault_of(measure_at(fields, "padding_left"@)) == Some(fault)
            ||| fault_of(measure_at(fields, "padding_right"@)) == Some(fault)
            ||| fault_of(measure_at(fields, "y_offset"@)) == Some(fault)
            ||| fault_of(position_at(fields, "position"@)) == Some(fault)
            ||| fault_of(toggle_at(fields, "drawing"@)) == Some(fault)
            ||| fault_of(text_at(fields, "script"@)) == Some(fault)
            ||| fault_of(text_at(fields, "click_script"@)) == Some(fault)
            ||| fault_of(alias_at(fields)) == Some(fault)
            ||| fault_of(members_at(fields)) == Some(fault)
            ||| fault_of(whole_at(fields, "update_freq"@, 0, 0xffff_ffff, "u32"@)) == Some(fault)
        }),
{
}

/// A background that does not read is refused for one of its keys.
pub proof fn law_a_background_is_refused_for_a_key(fields: Fields, fault: LuaFault)
    requires
        fault_of(background_of_table(fields)) == Some(fault),
    ensures
        ({
            ||| fault_of(flag_at(fields, "drawing"@)) == Some(fault)
            ||| fault_of(color_at(fields, "color"@)) == Some(fault)
            ||| fault_of(measure_at(fields, "corner_radius"@)) == Some(fault)
            ||| fault_of(measure_at(fields, "height"@)) == Some(fault)
            ||| fault_of(measure_at(fields, "padding_left"@)) == Some(fault)
            ||| fault_of(measure_at(fields, "padding_right"@)) == Some(fault)
            ||| fault_of(color_at(fields, "border_color"@)) == Some(fault)
            ||| fault_of(measure_at(fields, "border_width"@)) == Some(fault)
        }),
{
}

/// A popup that does not read is refused for one of its keys.
pub proof fn law_a_popup_is_refused_for_a_key(fields: Fields, fault: LuaFault)
    requires
        fault_of(popup_of_table(fields)) == Some(fault),
    ensures
        ({
            ||| fault_of(toggle_at(fields, "drawing"@)) == Some(fault)
            ||| fault_of(flag_at(fields, "horizontal"@)) == Some(fault)
            ||| fault_of(align_at(fields, "align"@)) == Some(fault)
            ||| fault_of(flag_at(fields, "topmost"@)) == Some(fault)
            ||| fault_of(measure_at(fields, "height"@)) == Some(fault)
            ||| fault_of(measure_at(fields, "y_offset"@)) == Some(fault)
            ||| fault_of(background_at(fields)) == Some(fault)
        }),
{
}

/// Half of an item that does not read is refused for one of its keys.
pub proof fn law_a_half_is_refused_for_a_key(fields: Fields, fault: LuaFault)
    requires
        fault_of(run_of_table(fields)) == Some(fault),
    ensures
        ({
            ||| fault_of(text_at(fields, "string"@)) == Some(fault)
            ||| fault_of(text_at(fields, "text"@)) == Some(fault)
            ||| fault_of(color_at(fields, "color"@)) == Some(fault)
            ||| fault_of(font_at(fields)) == Some(fault)
            ||| fault_of(flag_at(fields, "drawing"@)) == Some(fault)
            ||| fault_of(measure_at(fields, "padding_left"@)) == Some(fault)
            ||| fault_of(measure_at(fields, "padding_right"@)) == Some(fault)
        }),
{
}

/// A bar is refused for the first of its keys that does not read, in this order.
pub proof fn law_a_bar_is_refused_for_its_first_key(fields: Fields)
    ensures
        fault_of(bar_patch(fields)) == (if fault_of(edge_at(fields)) is Some {
            fault_of(edge_at(fields))
        } else if fault_of(flag_at(fields, "sticky"@)) is Some {
            fault_of(flag_at(fields, "sticky"@))
        } else if fault_of(flag_at(fields, "show_in_fullscreen"@)) is Some {
            fault_of(flag_at(fields, "show_in_fullscreen"@))
        } else if fault_of(measure_at(fields, "notch_width"@)) is Some {
            fault_of(measure_at(fields, "notch_width"@))
        } else if fault_of(measure_at(fields, "notch_offset"@)) is Some {
            fault_of(measure_at(fields, "notch_offset"@))
        } else if fault_of(measure_at(fields, "notch_display_height"@)) is Some {
            fault_of(measure_at(fields, "notch_display_height"@))
        } else if fault_of(measure_at(fields, "padding_left"@)) is Some {
            fault_of(measure_at(fields, "padding_left"@))
        } else if fault_of(measure_at(fields, "padding_right"@)) is Some {
            fault_of(measure_at(fields, "padding_right"@))
        } else if fault_of(display_at(fields, "display"@)) is Some {
            fault_of(display_at(fields, "display"@))
        } else if fault_of(measure_at(fields, "height"@)) is Some {
            fault_of(measure_at(fields, "height"@))
        } else if fault_of(color_at(fields, "color"@)) is Some {
            fault_of(color_at(fields, "color"@))
        } else if fault_of(measure_at(fields, "margin"@)) is Some {
            fault_of(measure_at(fields, "margin"@))
        } else if fault_of(measure_at(fields, "y_offset"@)) is Some {
            fault_of(measure_at(fields, "y_offset"@))
        } else if fault_of(measure_at(fields, "corner_radius"@)) is Some {
            fault_of(measure_at(fields, "corner_radius"@))
        } else if fault_of(whole_at(fields, "blur_radius"@, -0x8000_0000, 0x7fff_ffff, "i32"@)) is Some {
            fault_of(whole_at(fields, "blur_radius"@, -0x8000_0000, 0x7fff_ffff, "i32"@))
        } else if fault_of(flag_at(fields, "hidden"@)) is Some {
            fault_of(flag_at(fields, "hidden"@))
        } else {
            fault_of(flag_at(fields, "topmost"@))
        }),
{
}

/// An item is refused for the first of its keys that does not read, in this order.
pub proof fn law_an_item_is_refused_for_its_first_key(fields: Fields)
    ensures
        fault_of(item_patch(fields)) == (if fault_of(run_at(fields, "icon"@)) is Some {
            fault_of(run_at(fields, "icon"@))
        } else if fault_of(run_at(fields, "label"@)) is Some {
            fault_of(run_at(fields, "label"@))
        } else if fault_of(whole_at(fields, "percentage"@, 0, 255, "u8"@)) is Some {
            fault_of(whole_at(fields, "percentage"@, 0, 255, "u8"@))
        } else if fault_of(color_at(fields, "highlight_color"@)) is Some {
            fault_of(color_at(fields, "highlight_color"@))
        } else if fault_of(popup_at(fields)) is Some {
            fault_of(popup_at(fields))
        } else if fault_of(flag_at(fields, "updates"@)) is Some {
            fault_of(flag_at(fields, "updates"@))
        } else if fault_of(measure_at(fields, "width"@)) is Some {
            fault_of(measure_at(fields, "width"@))
        } else if fault_of(display_at(fields, "display"@)) is Some {
            fault_of(display_at(fields, "display"@))
        } else if fault_of(background_at(fields)) is Some {
            fault_of(background_at(fields))
        } else if fault_of(measure_at(fields, "padding_left"@)) is Some {
            fault_of(measure_at(fields, "padding_left"@))
        } else if fault_of(measure_at(fields, "padding_right"@)) is Some {
            fault_of(measure_at(fields, "padding_right"@))
        } else if fault_of(measure_at(fields, "y_offset"@)) is Some {
            fault_of(measure_at(fields, "y_offset"@))
        } else if fault_of(position_at(fields, "position"@)) is Some {
            fault_of(position_at(fields, "position"@))
        } else if fault_of(toggle_at(fields, "drawing"@)) is Some {
            fault_of(toggle_at(fields, "drawing"@))
        } else if fault_of(text_at(fields, "script"@)) is Some {
            fault_of(text_at(fields, "script"@))
        } else if fault_of(text_at(fields, "click_script"@)) is Some {
            fault_of(text_at(fields, "click_script"@))
        } else if fault_of(alias_at(fields)) is Some {
            fault_of(alias_at(fields))
        } else if fault_of(members_at(fields)) is Some {
            fault_of(members_at(fields))
        } else {
            fault_of(whole_at(fields, "update_freq"@, 0, 0xffff_ffff, "u32"@))
        }),
{
}

/// A background is refused for the first of its keys that does not read, in this order.
pub proof fn law_a_background_is_refused_for_its_first_key(fields: Fields)
    ensures
        fault_of(background_of_table(fields)) == (if fault_of(flag_at(fields, "drawing"@)) is Some {
            fault_of(flag_at(fields, "drawing"@))
        } else if fault_of(color_at(fields, "color"@)) is Some {
            fault_of(color_at(fields, "color"@))
        } else if fault_of(measure_at(fields, "corner_radius"@)) is Some {
            fault_of(measure_at(fields, "corner_radius"@))
        } else if fault_of(measure_at(fields, "height"@)) is Some {
            fault_of(measure_at(fields, "height"@))
        } else if fault_of(measure_at(fields, "padding_left"@)) is Some {
            fault_of(measure_at(fields, "padding_left"@))
        } else if fault_of(measure_at(fields, "padding_right"@)) is Some {
            fault_of(measure_at(fields, "padding_right"@))
        } else if fault_of(color_at(fields, "border_color"@)) is Some {
            fault_of(color_at(fields, "border_color"@))
        } else {
            fault_of(measure_at(fields, "border_width"@))
        }),
{
}

/// A popup is refused for the first of its keys that does not read, in this order.
pub proof fn law_a_popup_is_refused_for_its_first_key(fields: Fields)
    ensures
        fault_of(popup_of_table(fields)) == (if fault_of(toggle_at(fields, "drawing"@)) is Some {
            fault_of(toggle_at(fields, "drawing"@))
        } else if fault_of(flag_at(fields, "horizontal"@)) is Some {
            fault_of(flag_at(fields, "horizontal"@))
        } else if fault_of(align_at(fields, "align"@)) is Some {
            fault_of(align_at(fields, "align"@))
        } else if fault_of(flag_at(fields, "topmost"@)) is Some {
            fault_of(flag_at(fields, "topmost"@))
        } else if fault_of(measure_at(fields, "height"@)) is Some {
            fault_of(measure_at(fields, "height"@))
        } else if fault_of(measure_at(fields, "y_offset"@)) is Some {
            fault_of(measure_at(fields, "y_offset"@))
        } else {
            fault_of(background_at(fields))
        }),
{
}

/// Half of an item is refused for the first of its keys that does not read, in this order.
pub proof fn law_a_half_is_refused_for_its_first_key(fields: Fields)
    ensures
        fault_of(run_of_table(fields)) == (if fault_of(text_at(fields, "string"@)) is Some {
            fault_of(text_at(fields, "string"@))
        } else if fault_of(text_at(fields, "text"@)) is Some {
            fault_of(text_at(fields, "text"@))
        } else if fault_of(color_at(fields, "color"@)) is Some {
            fault_of(color_at(fields, "color"@))
        } else if fault_of(font_at(fields)) is Some {
            fault_of(font_at(fields))
        } else if fault_of(flag_at(fields, "drawing"@)) is Some {
            fault_of(flag_at(fields, "drawing"@))
        } else if fault_of(measure_at(fields, "padding_left"@)) is Some {
            fault_of(measure_at(fields, "padding_left"@))
        } else {
            fault_of(measure_at(fields, "padding_right"@))
        }),
{
}

/// A font is refused for the first of its keys that does not read, in this order.
pub proof fn law_a_font_is_refused_for_its_first_key(fields: Fields)
    ensures
        fault_of(font_of_table(fields)) == (if fault_of(text_at(fields, "family"@)) is Some {
            fault_of(text_at(fields, "family"@))
        } else if fault_of(text_at(fields, "style"@)) is Some {
            fault_of(text_at(fields, "style"@))
        } else {
            fault_of(size_at(fields))
        }),
{
}

} // verus!
