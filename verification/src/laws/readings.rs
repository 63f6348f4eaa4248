//! What is read, printed and built, said of what goes into the call and comes out.

use crate::align::{align_read, align_text, PopupAlign};
use crate::component::{tag_read, tag_text, ComponentTag};
use crate::display::{display_read, display_text, DisplayTarget};
use crate::event::{
    bare_kind, event_env, event_env_fields, event_fields, event_kind, kind_read, Event, Kind, Topic,
};
use crate::flag::{bool_read, bool_text, change_read, change_text, BoolChange, Boolish};
use crate::laws::sources::comes_from;
use crate::name::{
    is_item_name, selector_read, selector_text, InvalidNameView, ItemName, Selector, SelectorView,
};
use crate::place::{edge_read, edge_text, position_read, position_text, Edge, Position};
use crate::query::{query_read, InvalidQueryView, Query, QueryView};
use crate::registry::Registry;
use crate::style::{color_read, color_text, color_wire, Color, FontSpec};
use crate::vars::Vars;
use vstd::prelude::*;

verus! {

/// A fresh registry has, for every event of the system, the source it comes from.
pub proof fn law_a_fresh_registry_knows_every_source(registry: Registry, topic: Topic)
    requires
        call_ensures(Registry::new, (), registry),
        !(topic is Routine),
        !(topic is Forced),
    ensures
        exists|i: int|
            0 <= i < registry@.sources.len() && comes_from(
                topic,
                #[trigger] registry@.sources[i].id,
            ) && registry@.sources[i].provides.contains(bare_kind(topic)),
        registry@.wf(),
{
    crate::laws::sources::law_every_event_has_its_source(topic, "mouse"@, "mouse"@);
}

/// What a script is handed for an event is the event's own environment, and what a
/// table is handed its own fields.
pub proof fn law_a_script_is_handed_the_event_itself(
    event: Event,
    fields: Vars,
    named: Vars,
    handed: Vars,
    kind: Kind<()>,
)
    requires
        call_ensures(Event::fields, (&event,), fields),
        call_ensures(Event::env_fields, (&event,), named),
        call_ensures(Event::env, (&event,), handed),
        call_ensures(Event::kind, (&event,), kind),
    ensures
        fields@ == event_fields(event),
        named@ == event_env_fields(event),
        handed@ == event_env(event),
        kind@ == event_kind(event),
{
}

/// A text is read as the colour it means, and refused where it means none.
pub proof fn law_a_text_is_read_as_a_colour(text: &str, read: Result<Color, crate::style::ParseColorError>)
    requires
        call_ensures(Color::parse, (text,), read),
    ensures
        read is Ok <==> color_read(text@) is Some,
        read matches Ok(value) ==> color_read(text@) == Some(value.0 as int),
{
}

/// A text is read as the position it means, and refused where it means none.
pub proof fn law_a_text_is_read_as_a_position(text: &str, read: Result<Position, crate::place::InvalidPosition>)
    requires
        call_ensures(Position::parse, (text,), read),
    ensures
        read is Ok <==> position_read(text@) is Some,
        read matches Ok(value) ==> position_read(text@) == Some(value@),
{
}

/// A text is read as the edge it means, and refused where it means none.
pub proof fn law_a_text_is_read_as_an_edge(text: &str, read: Result<Edge, crate::place::InvalidEdge>)
    requires
        call_ensures(Edge::parse, (text,), read),
    ensures
        read is Ok <==> edge_read(text@) is Some,
        read matches Ok(value) ==> edge_read(text@) == Some(value),
{
}

/// A text is read as the alignment it means, and refused where it means none.
pub proof fn law_a_text_is_read_as_an_alignment(text: &str, read: Result<PopupAlign, crate::align::InvalidAlign>)
    requires
        call_ensures(PopupAlign::parse, (text,), read),
    ensures
        read is Ok <==> align_read(text@) is Some,
        read matches Ok(value) ==> align_read(text@) == Some(value),
{
}

/// A text is read as the flag it means, and refused where it means none.
pub proof fn law_a_text_is_read_as_a_flag(text: &str, read: Result<Boolish, crate::flag::InvalidBool>)
    requires
        call_ensures(Boolish::parse, (text,), read),
    ensures
        read is Ok <==> bool_read(text@) is Some,
        read matches Ok(value) ==> bool_read(text@) == Some(value.0),
{
}

/// A text is read as the change of a flag it means, and refused where it means none.
pub proof fn law_a_text_is_read_as_a_change_of_a_flag(text: &str, read: Result<BoolChange, crate::flag::InvalidBool>)
    requires
        call_ensures(BoolChange::parse, (text,), read),
    ensures
        read is Ok <==> change_read(text@) is Some,
        read matches Ok(value) ==> change_read(text@) == Some(value),
{
}

/// A text is read as the display it means, and refused where it means none.
pub proof fn law_a_text_is_read_as_a_display(text: &str, read: Result<DisplayTarget, crate::display::InvalidDisplay>)
    requires
        call_ensures(DisplayTarget::parse, (text,), read),
    ensures
        read is Ok <==> display_read(text@) is Some,
        read matches Ok(value) ==> display_read(text@) == Some(value),
{
}

/// A text is read as the kind of item it means, and refused where it means none.
pub proof fn law_a_text_is_read_as_a_kind_of_item(text: &str, read: Result<ComponentTag, crate::component::InvalidComponent>)
    requires
        call_ensures(ComponentTag::parse, (text,), read),
    ensures
        read is Ok <==> tag_read(text@) is Some,
        read matches Ok(value) ==> tag_read(text@) == Some(value),
{
}

/// A text is read as the event it names, and refused where it names none.
pub proof fn law_a_text_is_read_as_an_event(
    text: &str,
    read: Result<Kind<()>, crate::event::InvalidEvent>,
)
    requires
        call_ensures(Kind::<()>::parse, (text,), read),
    ensures
        read is Ok <==> kind_read(text@) is Some,
        read matches Ok(kind) ==> kind_read(text@) == Some(kind@),
{
}

/// A text is read as what it asks about or selects, and a name as itself.
pub proof fn law_a_text_is_read_as_what_it_selects(
    text: &str,
    query: Result<Query, crate::query::InvalidQuery>,
    selector: Result<Selector, crate::name::InvalidName>,
    name: Result<ItemName, crate::name::InvalidName>,
)
    requires
        call_ensures(Query::parse, (text,), query),
        call_ensures(Selector::parse, (text,), selector),
        call_ensures(ItemName::new, (text,), name),
    ensures
        query matches Ok(asked) ==> query_read(text@) == Ok::<QueryView, InvalidQueryView>(asked@),
        query is Ok <==> query_read(text@) is Ok,
        selector matches Ok(which) ==> selector_read(text@) == Ok::<SelectorView, InvalidNameView>(
            which@,
        ),
        selector is Ok <==> selector_read(text@) is Ok,
        name matches Ok(own) ==> own@ == text@,
        name is Ok <==> is_item_name(text@),
{
}

/// What is printed of a value is its own spelling.
pub proof fn law_a_value_prints_as_its_spelling(
    color: Color,
    color_said: String,
    color_sent: String,
    position: Position,
    position_said: String,
    display: DisplayTarget,
    display_said: String,
    font: FontSpec,
    font_said: String,
    selector: Selector,
    selector_said: String,
)
    requires
        call_ensures(Color::to_string, (&color,), color_said),
        call_ensures(Color::to_wire, (&color,), color_sent),
        call_ensures(Position::to_string, (&position,), position_said),
        call_ensures(DisplayTarget::to_string, (&display,), display_said),
        call_ensures(FontSpec::to_string, (&font,), font_said),
        call_ensures(Selector::to_string, (&selector,), selector_said),
    ensures
        color_said@ == color_text(color),
        color_sent@ == color_wire(color),
        position_said@ == position_text(position@),
        display_said@ == display_text(display),
        font_said@ == font.family@ + ":"@ + font.style@ + ":"@ + font.size.text@,
        selector_said@ == selector_text(selector@),
{
}

/// What is printed of a word is its own spelling.
pub proof fn law_a_word_prints_as_its_spelling(
    edge: Edge,
    edge_said: String,
    align: PopupAlign,
    align_said: String,
    flag: Boolish,
    flag_said: String,
    change: BoolChange,
    change_said: String,
    tag: ComponentTag,
    tag_said: String,
)
    requires
        call_ensures(Edge::to_string, (&edge,), edge_said),
        call_ensures(PopupAlign::to_string, (&align,), align_said),
        call_ensures(Boolish::to_string, (&flag,), flag_said),
        call_ensures(BoolChange::to_string, (&change,), change_said),
        call_ensures(ComponentTag::to_string, (&tag,), tag_said),
    ensures
        edge_said@ == edge_text(edge),
        align_said@ == align_text(align),
        flag_said@ == bool_text(flag.0),
        change_said@ == change_text(change),
        tag_said@ == tag_text(tag),
{
}

} // verus!
