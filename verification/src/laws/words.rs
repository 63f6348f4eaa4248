//! What each word of the language means, said of every text.

use crate::align::{align_read, align_text, PopupAlign};
use crate::component::{
    build_lacks, build_of, component_name, component_place, selector_views, tag_read, tag_text,
    ComponentKind, ComponentTag, ComponentView,
};
use crate::convert::font_spelled;
use crate::changes::MeasureView;
use crate::display::{display_read, display_text, DisplayTarget};
use crate::flag::{bool_read, bool_text, change_read, change_text, change_to, resolved, BoolChange};
use crate::info::{info_env, info_summary, Info};
use crate::json::json_text;
use crate::name::{
    is_item_name, name_fault, selector_read, selector_text, InvalidNameView, SelectorView,
};
use crate::naming::{service_text, ENV_PREFIX, NAME, SERVICE_VARIABLE};
use crate::place::{edge_read, edge_text, position_read, position_text, Edge, PositionView};
use crate::query::{
    press_read, query_named, query_read, query_text, relative_word, InvalidQueryView,
    PressTargetView, QueryView, Relative,
};
use crate::state::ItemPatch;
use crate::style::{color_read, color_text, color_wire, packed, Color};
use crate::text::{
    all_digits, decimal_text, digit_char, digits_worth, has_control, lowered, padded_hex, uppered,
};
use vstd::prelude::*;

verus! {

/// Whether a text is a word, however it is capitalised.
pub open spec fn means(text: Seq<char>, word: Seq<char>) -> bool {
    lowered(text) == word
}

/// Whether a text is a word, however it is capitalised and whichever of the two
/// dashes it is written with.
pub open spec fn means_dashed(text: Seq<char>, word: Seq<char>) -> bool {
    text.len() == word.len() && forall|i: int|
        0 <= i < text.len() ==> (#[trigger] word[i] == '-' && text[i] == '_') || (text[i] != '_'
            && lowered(text)[i] == word[i])
}

/// Folding a text to lower case changes its capital letters, each to its own small
/// letter, and nothing else. To upper case it is the other way round.
pub proof fn law_folding_changes_letters_alone(text: Seq<char>, i: int)
    requires
        0 <= i < text.len(),
    ensures
        lowered(text).len() == text.len(),
        uppered(text).len() == text.len(),
        'A' <= text[i] <= 'Z' ==> lowered(text)[i] as int == text[i] as int + 32,
        !('A' <= text[i] <= 'Z') ==> lowered(text)[i] == text[i],
        'a' <= text[i] <= 'z' ==> uppered(text)[i] as int == text[i] as int - 32,
        !('a' <= text[i] <= 'z') ==> uppered(text)[i] == text[i],
{
}

/// The words for how a popup lines up.
pub proof fn law_alignments(text: Seq<char>)
    ensures
        align_read(text) == Some(PopupAlign::Left) <==> (means(text, "left"@) || means(text, "l"@)),
        align_read(text) == Some(PopupAlign::Center) <==> (means(text, "center"@) || means(text, "centre"@) || means(text, "c"@)),
        align_read(text) == Some(PopupAlign::Right) <==> (means(text, "right"@) || means(text, "r"@)),
        align_text(PopupAlign::Left) == "left"@,
        align_text(PopupAlign::Center) == "center"@,
        align_text(PopupAlign::Right) == "right"@,
{
    reveal_strlit("left");
    reveal_strlit("l");
    reveal_strlit("center");
    reveal_strlit("centre");
    reveal_strlit("c");
    reveal_strlit("right");
    reveal_strlit("r");
    assert("left"@.len() == 4 && "left"@[0] == 'l');
    assert("l"@.len() == 1 && "l"@[0] == 'l');
    assert("center"@.len() == 6 && "center"@[0] == 'c');
    assert("centre"@.len() == 6 && "centre"@[0] == 'c');
    assert("c"@.len() == 1 && "c"@[0] == 'c');
    assert("right"@.len() == 5 && "right"@[0] == 'r');
    assert("r"@.len() == 1 && "r"@[0] == 'r');
}

/// The words for what is on and what is off, and what an exclamation mark before
/// one of them makes of it.
pub proof fn law_flags(text: Seq<char>, rest: Seq<char>)
    requires
        text.len() == 0 || text[0] != '!',
        rest.len() == 0 || rest[0] != '!',
    ensures
        bool_read(text) == Some(true) <==> (means(text, "on"@) || means(text, "true"@) || means(text, "yes"@) || means(text, "1"@)),
        bool_read(text) == Some(false) <==> (means(text, "off"@) || means(text, "false"@) || means(text, "no"@) || means(text, "0"@)),
        bool_read("!"@ + rest) == Some(true) <==> bool_read(rest) == Some(false),
        bool_read("!"@ + rest) == Some(false) <==> bool_read(rest) == Some(true),
        bool_text(true) == "on"@,
        bool_text(false) == "off"@,
{
    reveal_strlit("!");
    let marked = "!"@ + rest;
    assert(marked.take(1) =~= "!"@);
    assert(marked.skip(1) =~= rest);
    assert(text.len() > 0 ==> text.take(1)[0] == text[0]);
    assert(rest.len() > 0 ==> rest.take(1)[0] == rest[0]);
    reveal_strlit("on");
    reveal_strlit("true");
    reveal_strlit("yes");
    reveal_strlit("1");
    reveal_strlit("off");
    reveal_strlit("false");
    reveal_strlit("no");
    reveal_strlit("0");
    assert("on"@.len() == 2 && "on"@[0] == 'o');
    assert("true"@.len() == 4 && "true"@[0] == 't');
    assert("yes"@.len() == 3 && "yes"@[0] == 'y');
    assert("1"@.len() == 1 && "1"@[0] == '1');
    assert("off"@.len() == 3 && "off"@[0] == 'o');
    assert("false"@.len() == 5 && "false"@[0] == 'f');
    assert("no"@.len() == 2 && "no"@[0] == 'n');
    assert("0"@.len() == 1 && "0"@[0] == '0');
}

/// The words for a change of a flag: what it is to be, or that it turns over.
pub proof fn law_changes_of_a_flag(text: Seq<char>, current: bool)
    ensures
        change_read(text) == Some(BoolChange::Toggle) <==> means(text, "toggle"@),
        !means(text, "toggle"@) ==> (change_read(text) == Some(BoolChange::True) <==> bool_read(
            text,
        ) == Some(true)) && (change_read(text) == Some(BoolChange::False) <==> bool_read(text)
            == Some(false)),
        change_text(BoolChange::True) == "on"@,
        change_text(BoolChange::False) == "off"@,
        change_text(BoolChange::Toggle) == "toggle"@,
        resolved(BoolChange::True, current),
        !resolved(BoolChange::False, current),
        resolved(BoolChange::Toggle, current) == !current,
        change_to(true) == BoolChange::True,
        change_to(false) == BoolChange::False,
{
}

/// The words for the edge a bar is on.
pub proof fn law_edges(text: Seq<char>)
    ensures
        edge_read(text) == Some(Edge::Top) <==> means(text, "top"@),
        edge_read(text) == Some(Edge::Bottom) <==> means(text, "bottom"@),
        edge_text(Edge::Top) == "top"@,
        edge_text(Edge::Bottom) == "bottom"@,
{
    reveal_strlit("top");
    reveal_strlit("bottom");
    assert("top"@.len() == 3 && "top"@[0] == 't');
    assert("bottom"@.len() == 6 && "bottom"@[0] == 'b');
}

/// A text with dashes for underlines, in lower case, is a word exactly where it
/// means it.
proof fn lemma_dashed(text: Seq<char>, word: Seq<char>)
    ensures
        crate::place::dashed(text) == word <==> means_dashed(text, word),
{
    let folded = crate::place::dashed(text);
    if folded == word {
        assert forall|i: int| 0 <= i < text.len() implies (#[trigger] word[i] == '-' && text[i]
            == '_') || (text[i] != '_' && lowered(text)[i] == word[i]) by {
            assert(folded[i] == word[i]);
        }
    }
    if means_dashed(text, word) {
        assert forall|i: int| 0 <= i < text.len() implies folded[i] == word[i] by {
            assert(word[i] == '-' && text[i] == '_' || (text[i] != '_' && lowered(text)[i]
                == word[i]));
        }
        assert(folded =~= word);
    }
}

/// The words for where an item is on a bar.
pub proof fn law_positions(text: Seq<char>, name: Seq<char>)
    ensures
        position_read(text) == Some(PositionView::Left) <==> (means_dashed(text, "left"@) || means_dashed(text, "l"@)),
        position_read(text) == Some(PositionView::CenterLeft) <==> (means_dashed(text, "q"@) || means_dashed(text, "center-left"@) || means_dashed(text, "centre-left"@)),
        position_read(text) == Some(PositionView::Center) <==> (means_dashed(text, "center"@) || means_dashed(text, "centre"@) || means_dashed(text, "c"@)),
        position_read(text) == Some(PositionView::CenterRight) <==> (means_dashed(text, "e"@) || means_dashed(text, "center-right"@) || means_dashed(text, "centre-right"@)),
        position_read(text) == Some(PositionView::Right) <==> (means_dashed(text, "right"@) || means_dashed(text, "r"@)),
        is_item_name(name) ==> position_read("popup."@ + name) == Some(PositionView::Popup(name)),
        position_read(text) == Some(PositionView::Popup(name)) ==> text == "popup."@ + name
            && is_item_name(name),
        position_text(PositionView::Left) == "left"@,
        position_text(PositionView::CenterLeft) == "q"@,
        position_text(PositionView::Center) == "center"@,
        position_text(PositionView::CenterRight) == "e"@,
        position_text(PositionView::Right) == "right"@,
        position_text(PositionView::Popup(name)) == "popup."@ + name,
{
    reveal_strlit("left");
    reveal_strlit("l");
    reveal_strlit("q");
    reveal_strlit("center-left");
    reveal_strlit("centre-left");
    reveal_strlit("center");
    reveal_strlit("centre");
    reveal_strlit("c");
    reveal_strlit("e");
    reveal_strlit("center-right");
    reveal_strlit("centre-right");
    reveal_strlit("right");
    reveal_strlit("r");
    assert("left"@.len() == 4 && "left"@[0] == 'l');
    assert("l"@.len() == 1 && "l"@[0] == 'l');
    assert("q"@.len() == 1 && "q"@[0] == 'q');
    assert("center-left"@.len() == 11 && "center-left"@[0] == 'c');
    assert("centre-left"@.len() == 11 && "centre-left"@[0] == 'c');
    assert("center"@.len() == 6 && "center"@[0] == 'c');
    assert("centre"@.len() == 6 && "centre"@[0] == 'c');
    assert("c"@.len() == 1 && "c"@[0] == 'c');
    assert("e"@.len() == 1 && "e"@[0] == 'e');
    assert("center-right"@.len() == 12 && "center-right"@[0] == 'c');
    assert("centre-right"@.len() == 12 && "centre-right"@[0] == 'c');
    assert("right"@.len() == 5 && "right"@[0] == 'r');
    assert("r"@.len() == 1 && "r"@[0] == 'r');
    lemma_dashed(text, "left"@);
    lemma_dashed(text, "l"@);
    lemma_dashed(text, "q"@);
    lemma_dashed(text, "center-left"@);
    lemma_dashed(text, "centre-left"@);
    lemma_dashed(text, "center"@);
    lemma_dashed(text, "centre"@);
    lemma_dashed(text, "c"@);
    lemma_dashed(text, "e"@);
    lemma_dashed(text, "center-right"@);
    lemma_dashed(text, "centre-right"@);
    lemma_dashed(text, "right"@);
    lemma_dashed(text, "r"@);
    reveal_strlit("popup.");
    let hosted = "popup."@ + name;
    assert(hosted.take(6) =~= "popup."@);
    assert(hosted.skip(6) =~= name);
    let folded = crate::place::dashed(hosted);
    assert(folded[5] == '.');
    assert(folded[0] == 'p');
    if position_read(text) == Some(PositionView::Popup(name)) {
        assert(text =~= text.take(6) + text.skip(6));
    }
}

/// The words for the displays a bar or an item is on.
pub proof fn law_displays(text: Seq<char>, n: u32)
    ensures
        display_read(text) == Some(DisplayTarget::All) <==> means(text, "all"@),
        n > 0 ==> display_read(decimal_text(n as nat)) == Some(DisplayTarget::Index(n)),
        display_read("0"@) is None,
        display_read(text) matches Some(DisplayTarget::Index(i)) ==> i > 0,
        display_text(DisplayTarget::All) == "all"@,
        display_text(DisplayTarget::Index(n)) == decimal_text(n as nat),
{
    reveal_strlit("all");
    reveal_strlit("0");
    if n > 0 {
        crate::display::law_display_round_trip(DisplayTarget::Index(n));
    }
    assert(lowered("0"@).len() == 1);
    let zero = "0"@;
    assert(zero.drop_last() =~= Seq::<char>::empty());
    assert(digits_worth(zero.drop_last(), 10) == 0);
    assert(zero.last() == '0');
    assert(digits_worth(zero, 10) == 0);
}

/// The words for what can be asked for, and that any other name is an item's.
pub proof fn law_queries(text: Seq<char>)
    ensures
        query_read(text) == Ok::<QueryView, InvalidQueryView>(QueryView::Bar) <==> (text == "bar"@),
        query_read(text) == Ok::<QueryView, InvalidQueryView>(QueryView::Items) <==> (text == "items"@),
        query_read(text) == Ok::<QueryView, InvalidQueryView>(QueryView::MenuItems) <==> (text == "menu_items"@ || text == "menu-items"@ || text == "default_menu_items"@),
        query_read(text) == Ok::<QueryView, InvalidQueryView>(QueryView::AppMenus) <==> (text == "app_menus"@ || text == "app-menus"@),
        query_read(text) == Ok::<QueryView, InvalidQueryView>(QueryView::Defaults) <==> (text == "defaults"@),
        query_read(text) matches Ok(QueryView::Item(name)) ==> name == text && is_item_name(text),
        query_read(text) matches Err(InvalidQueryView::Unsupported(said, _)) ==> said == text && (
        text == "events"@ || text == "displays"@),
        text == "events"@ || text == "displays"@ ==> query_read(text) is Err,
        query_read(text) matches Err(InvalidQueryView::Name(_)) ==> !is_item_name(text),
        is_item_name(text) && text != "bar"@ && text != "items"@ && text != "menu_items"@ && text != "menu-items"@ && text != "default_menu_items"@ && text != "app_menus"@ && text != "app-menus"@ && text != "defaults"@ && text != "events"@ && text != "displays"@ ==> query_read(text) == Ok::<QueryView, InvalidQueryView>(QueryView::Item(text)),
        query_text(QueryView::Bar) == "bar"@,
        query_text(QueryView::Items) == "items"@,
        query_text(QueryView::MenuItems) == "menu_items"@,
        query_text(QueryView::AppMenus) == "app_menus"@,
        query_text(QueryView::Defaults) == "defaults"@,
        query_text(QueryView::Item(text)) == text,
{
    reveal_strlit("bar");
    reveal_strlit("items");
    reveal_strlit("menu_items");
    reveal_strlit("menu-items");
    reveal_strlit("default_menu_items");
    reveal_strlit("app_menus");
    reveal_strlit("app-menus");
    reveal_strlit("defaults");
    reveal_strlit("events");
    reveal_strlit("displays");
    assert("bar"@.len() == 3 && "bar"@[0] == 'b');
    assert("items"@.len() == 5 && "items"@[0] == 'i');
    assert("menu_items"@.len() == 10 && "menu_items"@[0] == 'm');
    assert("menu-items"@.len() == 10 && "menu-items"@[0] == 'm');
    assert("default_menu_items"@.len() == 18 && "default_menu_items"@[0] == 'd');
    assert("app_menus"@.len() == 9 && "app_menus"@[0] == 'a');
    assert("app-menus"@.len() == 9 && "app-menus"@[0] == 'a');
    assert("defaults"@.len() == 8 && "defaults"@[0] == 'd');
    assert("events"@.len() == 6 && "events"@[0] == 'e');
    assert("displays"@.len() == 8 && "displays"@[0] == 'd');
    assert("menu_items"@[4] == '_' && "menu-items"@[4] == '-');
    assert("app_menus"@[3] == '_' && "app-menus"@[3] == '-');
    assert("defaults"@[1] == 'e' && "displays"@[1] == 'i');
}

/// A name that is asked for as an item's is one, but for the two that are promised for
/// something else.
pub proof fn law_asking_by_name(text: Seq<char>)
    ensures
        query_named(text) == Ok::<QueryView, InvalidQueryView>(QueryView::Item(text))
            <==> is_item_name(text) && text != "events"@ && text != "displays"@,
        query_named(text) is Ok ==> query_named(text)->Ok_0 == QueryView::Item(text),
{
}

/// The words for which side of another item one goes to.
pub proof fn law_sides(text: Seq<char>)
    ensures
        relative_word(text) == Some(Relative::Before) <==> text == "before"@,
        relative_word(text) == Some(Relative::After) <==> text == "after"@,
{
    reveal_strlit("before");
    reveal_strlit("after");
    assert("before"@.len() == 6 && "before"@[0] == 'b');
    assert("after"@.len() == 5 && "after"@[0] == 'a');
}

/// A number presses the menu of that number, and anything else an item.
pub proof fn law_presses(text: Seq<char>, n: usize)
    ensures
        press_read(decimal_text(n as nat)) == Ok::<PressTargetView, InvalidNameView>(
            PressTargetView::AppMenu(n as nat),
        ),
        press_read(text) matches Ok(PressTargetView::AppMenu(i)) ==> {
            let digits = if text.len() > 0 && text[0] == '+' {
                text.skip(1)
            } else {
                text
            };
            all_digits(digits, 10) && digits.len() > 0 && digits_worth(digits, 10) == i
        },
        press_read(text) matches Ok(PressTargetView::Alias(name)) ==> name == text && is_item_name(
            text,
        ),
        press_read(text) is Err ==> !is_item_name(text),
{
    crate::text::lemma_number_round_trip(n as nat, 10, usize::MAX as nat);
}

/// A name is any text with something in it and no control character, and what is
/// wrong with one that is not is said.
pub proof fn law_names(text: Seq<char>)
    ensures
        is_item_name(text) <==> text.len() > 0 && forall|i: int|
            0 <= i < text.len() ==> {
                let c = (#[trigger] text[i]) as int;
                c >= 32 && !(127 <= c <= 159)
            },
        text.len() == 0 ==> name_fault(text) is Empty,
        text.len() > 0 ==> name_fault(text) == InvalidNameView::Character(text),
{
    assert(has_control(text) <==> exists|i: int|
        0 <= i < text.len() && ((#[trigger] text[i]) as int <= 31 || 127 <= text[i] as int <= 159));
}

/// What stands between two slashes is a pattern, and anything else a name.
pub proof fn law_selectors(text: Seq<char>)
    ensures
        selector_read("/"@ + text + "/"@) == Ok::<SelectorView, InvalidNameView>(
            SelectorView::Pattern(text),
        ),
        selector_text(SelectorView::Pattern(text)) == "/"@ + text + "/"@,
        selector_text(SelectorView::Name(text)) == text,
        is_item_name(text) && (text[0] != '/' || text.last() != '/' || text.len() == 1)
            ==> selector_read(text) == Ok::<SelectorView, InvalidNameView>(SelectorView::Name(text)),
        !is_item_name(text) && (text.len() < 2 || text[0] != '/' || text.last() != '/')
            ==> selector_read(text) is Err,
{
    reveal_strlit("/");
    let pattern = "/"@ + text + "/"@;
    assert(pattern.subrange(1, pattern.len() - 1) =~= text);
    assert(pattern.last() == '/');
}

/// The words for the kinds of item.
pub proof fn law_kinds_of_item(text: Seq<char>)
    ensures
        tag_read(text) == Some(ComponentTag::Item) <==> (text == "item"@),
        tag_read(text) == Some(ComponentTag::Alias) <==> (text == "alias"@),
        tag_read(text) == Some(ComponentTag::Bracket) <==> (text == "bracket"@),
        tag_read(text) == Some(ComponentTag::Space) <==> (text == "space"@),
        tag_read(text) == Some(ComponentTag::Graph) <==> (text == "graph"@),
        tag_read(text) == Some(ComponentTag::Slider) <==> (text == "slider"@),
        tag_text(ComponentTag::Item) == "item"@,
        tag_text(ComponentTag::Alias) == "alias"@,
        tag_text(ComponentTag::Bracket) == "bracket"@,
        tag_text(ComponentTag::Space) == "space"@,
        tag_text(ComponentTag::Graph) == "graph"@,
        tag_text(ComponentTag::Slider) == "slider"@,
{
    reveal_strlit("item");
    reveal_strlit("alias");
    reveal_strlit("bracket");
    reveal_strlit("space");
    reveal_strlit("graph");
    reveal_strlit("slider");
    assert("item"@.len() == 4 && "item"@[0] == 'i');
    assert("alias"@.len() == 5 && "alias"@[0] == 'a');
    assert("bracket"@.len() == 7 && "bracket"@[0] == 'b');
    assert("space"@.len() == 5 && "space"@[0] == 's');
    assert("graph"@.len() == 5 && "graph"@[0] == 'g');
    assert("slider"@.len() == 6 && "slider"@[0] == 's');
}

/// An item that is built is of the kind it was asked to be, under its name and at
/// the place its properties say. A bracket is at the left, around the members its
/// properties say.
pub proof fn law_an_item_is_built_as_asked(tag: ComponentTag, name: Seq<char>, patch: ItemPatch)
    requires
        build_lacks(tag, patch).len() == 0,
    ensures
        component_name(build_of(tag, name, patch)) == name,
        tag == ComponentTag::Bracket ==> component_place(build_of(tag, name, patch)) is Left && (
        patch.members matches Some(members) && members@.len() > 0 && build_of(tag, name, patch)
            == ComponentView::Bracket(name, selector_views(members@))),
        tag != ComponentTag::Bracket ==> (patch.geometry matches Some(geometry)
            && geometry.position matches Some(position) && build_of(tag, name, patch)
            == ComponentView::Placed(tag, name, position@)),
{
}

/// A bracket lacks its members where none are said, and any other item its place where
/// none is. Nothing else has to be said.
pub proof fn law_what_an_item_has_to_say(tag: ComponentTag, patch: ItemPatch)
    ensures
        tag == ComponentTag::Bracket ==> (build_lacks(tag, patch).len() == 0 <==> (
        patch.members matches Some(members) && members@.len() > 0)),
        tag == ComponentTag::Bracket && build_lacks(tag, patch).len() > 0 ==> build_lacks(
            tag,
            patch,
        ) == seq!["members"@],
        tag != ComponentTag::Bracket ==> (build_lacks(tag, patch).len() == 0 <==> (
        patch.geometry matches Some(geometry) && geometry.position is Some)),
        tag != ComponentTag::Bracket && build_lacks(tag, patch).len() > 0 ==> build_lacks(
            tag,
            patch,
        ) == seq!["position"@],
{
}

/// An item is under its own name and at its own place, whatever its kind.
pub proof fn law_an_item_is_where_it_is_put(component: ComponentKind)
    ensures
        match component {
            ComponentKind::Item { name, position } => component_name(component@) == name@
                && component_place(component@) == position@,
            ComponentKind::Alias { name, position } => component_name(component@) == name@
                && component_place(component@) == position@,
            ComponentKind::Bracket { name, members } => component_name(component@) == name@
                && component_place(component@) is Left,
            ComponentKind::Space { name, position } => component_name(component@) == name@
                && component_place(component@) == position@,
            ComponentKind::Graph { name, position } => component_name(component@) == name@
                && component_place(component@) == position@,
            ComponentKind::Slider { name, position } => component_name(component@) == name@
                && component_place(component@) == position@,
        },
{
}

/// The names the program goes by.
pub proof fn law_the_program_goes_by_its_name()
    ensures
        NAME@ == "coolabah"@,
        ENV_PREFIX@ == "COOLABAH_"@,
        ENV_PREFIX@ == uppered(NAME@) + "_"@,
        service_text() == "com.auscyber.coolabah"@,
        SERVICE_VARIABLE@ == "RSBAR_SERVICE"@,
{
    reveal_strlit("coolabah");
    reveal_strlit("COOLABAH_");
    reveal_strlit("_");
    reveal_strlit("com.auscyber.");
    reveal_strlit("com.auscyber.coolabah");
    assert(ENV_PREFIX@ =~= uppered(NAME@) + "_"@);
    assert(service_text() =~= "com.auscyber.coolabah"@);
}

/// What an item is told of an event is under the name of what it is, and summed up
/// in one word besides.
pub proof fn law_what_is_told_goes_by_its_name(info: Info)
    ensures
        info_env(info)[0] == ("RSBAR_INFO"@, info_summary(info)),
        match info {
            Info::Nothing => info_env(info).len() == 1 && info_summary(info).len() == 0,
            Info::App { name } => info_env(info).len() == 2 && info_env(info)[1] == (
                "RSBAR_APP"@,
                name@,
            ) && info_summary(info) == name@,
            Info::Volume { percent } => info_env(info).len() == 2 && info_env(info)[1] == (
                "RSBAR_VOLUME"@,
                decimal_text(percent as nat),
            ) && info_summary(info) == decimal_text(percent as nat),
            Info::Power { source } => info_env(info).len() == 2 && info_env(info)[1] == (
                "RSBAR_POWER_SOURCE"@,
                info_summary(info),
            ) && info_summary(info) == match source {
                crate::info::PowerSource::Ac => "AC"@,
                crate::info::PowerSource::Battery => "BATTERY"@,
                crate::info::PowerSource::Unknown => "UNKNOWN"@,
            },
            Info::Space { display, space } => info_env(info).len() == 3 && info_env(info)[1] == (
                "RSBAR_DISPLAY"@,
                decimal_text(display as nat),
            ) && info_env(info)[2] == ("RSBAR_SPACE"@, decimal_text(space as nat)) && info_summary(
                info,
            ) == decimal_text(space as nat),
            Info::Custom(value) => info_env(info).len() == 1 && info_summary(info) == json_text(
                value@,
            ),
        },
{
}

// ---------------------------------------------------------------------------
// Numbers and colours

/// A number is written digit by digit, the last being what is over past tens, and a
/// number below ten is its own digit.
pub proof fn law_numbers_are_written_in_tens(n: nat)
    ensures
        n < 10 ==> decimal_text(n) == seq![(48 + n) as char],
        n >= 10 ==> decimal_text(n) == decimal_text(n / 10).push((48 + n % 10) as char),
        all_digits(decimal_text(n), 10),
        digits_worth(decimal_text(n), 10) == n,
{
    crate::text::lemma_number_text_is_digits(n, 10);
    crate::text::lemma_number_round_trip(n, 10, n);
    let text = decimal_text(n);
    assert(text[0] != '+');
}

/// A colour is made of how solid it is and of its red, green and blue, each a byte,
/// from the highest down.
pub proof fn law_a_colour_is_four_bytes(a: u8, r: u8, g: u8, b: u8)
    ensures
        packed(a as int, r as int, g as int, b as int) / 0x100_0000 == a,
        packed(a as int, r as int, g as int, b as int) / 0x1_0000 % 0x100 == r,
        packed(a as int, r as int, g as int, b as int) / 0x100 % 0x100 == g,
        packed(a as int, r as int, g as int, b as int) % 0x100 == b,
        packed(a as int, r as int, g as int, b as int) < 0x100_0000 <==> a == 0,
{
}

/// Three digits, for red, green and blue.
pub open spec fn three_digits(r: nat, g: nat, b: nat) -> Seq<char> {
    seq![digit_char(r), digit_char(g), digit_char(b)]
}

/// A colour of six digits is solid, one of eight says how solid it is, and one of
/// three is that of six with each digit twice. A mark before the digits makes no
/// difference, and nothing else is a colour.
#[verifier::spinoff_prover]
pub proof fn law_colours(n: nat, r: nat, g: nat, b: nat, color: Color)
    requires
        n < 0x100_0000,
        r < 16,
        g < 16,
        b < 16,
    ensures
        color_read("#"@ + padded_hex(n, 6)) == Some(0xff00_0000int + n),
        color_read("0x"@ + padded_hex(n, 6)) == Some(0xff00_0000int + n),
        color_read("0X"@ + padded_hex(n, 6)) == Some(0xff00_0000int + n),
        color_read("#"@ + padded_hex(color.0 as nat, 8)) == Some(color.0 as int),
        color_read("0x"@ + padded_hex(color.0 as nat, 8)) == Some(color.0 as int),
        color_read("#"@ + three_digits(r, g, b)) == Some(
            0xff00_0000int + 0x11_0000 * r + 0x1100 * g + 0x11 * b,
        ),
        color_text(color) == "#"@ + padded_hex(color.0 as nat, 8),
        color_wire(color) == "0x"@ + padded_hex(color.0 as nat, 8),
{
    crate::style::law_color_round_trip(color);
    reveal_strlit("#");
    reveal_strlit("0x");
    reveal_strlit("0X");
    let six = padded_hex(n, 6);
    crate::text::lemma_padded_hex(n, 6);
    reveal_with_fuel(crate::text::place, 10);
    assert(crate::text::place(16, 6) == 0x100_0000);
    let hash = "#"@ + six;
    assert(hash.take(1) =~= "#"@ && hash.skip(1) =~= six);
    let small = "0x"@ + six;
    assert(small.take(1)[0] == '0');
    assert("#"@[0] == '#');
    assert(small.take(2) =~= "0x"@ && small.skip(2) =~= six);
    let large = "0X"@ + six;
    assert(large.take(1)[0] == '0');
    assert(large.take(2) =~= "0X"@ && large.skip(2) =~= six);
    assert(large.take(2)[1] == 'X' && "0x"@[1] == 'x');
    let three = three_digits(r, g, b);
    let short = "#"@ + three;
    assert(short.take(1) =~= "#"@ && short.skip(1) =~= three);
    lemma_three(r, g, b);
}

/// Three digits are worth their value in sixteens.
proof fn lemma_three(r: nat, g: nat, b: nat)
    requires
        r < 16,
        g < 16,
        b < 16,
    ensures
        all_digits(three_digits(r, g, b), 16),
        digits_worth(three_digits(r, g, b), 16) == r * 256 + g * 16 + b,
{
    let three = three_digits(r, g, b);
    let two = seq![digit_char(r), digit_char(g)];
    let one = seq![digit_char(r)];
    assert(three.drop_last() =~= two);
    assert(two.drop_last() =~= one);
    assert(one.drop_last() =~= Seq::<char>::empty());
    assert(digits_worth(Seq::<char>::empty(), 16) == 0);
    assert(digits_worth(one, 16) == r);
    assert(digits_worth(two, 16) == r * 16 + g);
    assert(three.last() == digit_char(b));
}

/// Nothing but three, six or eight digits is a colour, a mark before them or none.
pub proof fn law_nothing_else_is_a_colour(text: Seq<char>)
    requires
        color_read(text) is Some,
    ensures
        ({
            let digits = if text.len() > 0 && text[0] == '#' {
                text.skip(1)
            } else if text.len() > 1 && text[0] == '0' && (text[1] == 'x' || text[1] == 'X') {
                text.skip(2)
            } else {
                text
            };
            all_digits(digits, 16) && (digits.len() == 3 || digits.len() == 6 || digits.len() == 8)
        }),
{
    reveal_strlit("#");
    reveal_strlit("0x");
    reveal_strlit("0X");
    if text.len() > 0 {
        assert(text.take(1)[0] == text[0]);
        assert(text[0] == '#' ==> text.take(1) =~= "#"@);
    }
    if text.len() > 1 {
        assert(text.take(2)[0] == text[0] && text.take(2)[1] == text[1]);
        assert(text[0] == '0' && text[1] == 'x' ==> text.take(2) =~= "0x"@);
        assert(text[0] == '0' && text[1] == 'X' ==> text.take(2) =~= "0X"@);
    }
}

/// A font is spelled as its family, its style and its size, with a colon between.
/// Where one of them is left empty or left off, it is SF Pro, Regular or thirteen.
pub proof fn law_a_font_is_spelled_in_three(
    family: Seq<char>,
    style: Seq<char>,
    size: Seq<char>,
    first: Option<MeasureView>,
    second: Option<MeasureView>,
    third: Option<MeasureView>,
)
    requires
        !family.contains(':'),
        !style.contains(':'),
        !size.contains(':'),
    ensures
        ({
            let whole = font_spelled(
                family + seq![':'] + style + seq![':'] + size,
                seq![first, second, third],
            );
            &&& whole.family == if family.len() == 0 {
                "SF Pro"@
            } else {
                family
            }
            &&& whole.style == if style.len() == 0 {
                "Regular"@
            } else {
                style
            }
            &&& match third {
                Some(m) => whole.size_text == m.text && whole.size_bits == m.bits,
                None => whole.size_text == "13"@,
            }
        }),
        ({
            let plain = font_spelled(family + seq![':'] + style, seq![first, second]);
            &&& plain.family == if family.len() == 0 {
                "SF Pro"@
            } else {
                family
            }
            &&& plain.style == if style.len() == 0 {
                "Regular"@
            } else {
                style
            }
            &&& plain.size_text == "13"@
        }),
        ({
            let bare = font_spelled(family, seq![first]);
            &&& bare.family == if family.len() == 0 {
                "SF Pro"@
            } else {
                family
            }
            &&& bare.style == "Regular"@
            &&& bare.size_text == "13"@
        }),
{
    crate::text::lemma_one_piece(family, ':');
    crate::text::lemma_one_more_piece(family, style, ':');
    crate::text::lemma_one_more_piece(family + seq![':'] + style, size, ':');
}

} // verus!
