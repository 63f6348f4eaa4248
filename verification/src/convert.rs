//! Lua tables on one side, requests on the other.
//!
//! Every value is read as what it is: a colour as a colour, an event's name as
//! an event's name. A value that does not read is refused where it stands, with
//! the key named; a key nobody reads is named and otherwise ignored.

use crate::align::{align_read, PopupAlign};
use crate::changes::{MeasureView, Modelled};
use crate::display::{display_read, DisplayTarget};
use crate::error::{lua_fault, ApiError, ApiFault};
use crate::event::{
    is_notification_name, kind_read, EventName, InvalidEventNameView, Kind, KindView,
    NotificationName,
};
use crate::flag::{bool_word, change_read, change_to, BoolChange};
use crate::kindset::kind_views;
use crate::lua::{
    lemma_lua_items, lookup, lua_fields, lua_items, lua_view, measure_read, no_text, not_text,
    refused, signed, signed_text, text_read, type_text, whole_read, LuaError, LuaFault, LuaTable,
    LuaValue, LuaView, TextForm,
};
use crate::measure::Measure;
use crate::name::{
    is_item_name, name_fault, selector_read, InvalidNameView, ItemName, Selector, SelectorView,
};
use crate::place::{position_read, Edge, Position, PositionView};
use crate::component::selector_views;
use crate::state::{
    BackgroundPatch, BackgroundPatchView, BarPatch, BarPatchView, GeometryPatch, GeometryPatchView,
    ItemPatch, ItemPatchView, PopupPatch, PopupPatchView, RunPatch, RunPatchView, ScriptingPatch,
    ScriptingPatchView,
};
use crate::style::{
    color_read, default_font, nth_piece, said, Color, FontParts, FontSpec, FontView,
};
use crate::text::{joined, joined3, lowercase, lowered, pieces, same};
use vstd::prelude::*;

verus! {

/// Fields of a table.
pub type Fields = Seq<(Seq<char>, LuaView)>;

/// What reading went wrong with.
pub open spec fn fault_of<T>(read: Result<T, LuaFault>) -> Option<LuaFault> {
    match read {
        Ok(_) => None,
        Err(fault) => Some(fault),
    }
}

/// What reading gave.
pub open spec fn given<T>(read: Result<Option<T>, LuaFault>) -> Option<T> {
    match read {
        Ok(value) => value,
        Err(_) => None,
    }
}

/// The first of two faults.
pub open spec fn first_of(a: Option<LuaFault>, b: Option<LuaFault>) -> Option<LuaFault> {
    match a {
        Some(_) => a,
        None => b,
    }
}

/// A sentence about a key: the key in quotes, and what is said of it.
pub open spec fn of_key(key: Seq<char>, rest: Seq<char>) -> LuaFault {
    LuaFault::Message("`"@ + key + "`"@ + rest)
}

/// A sentence about a key.
fn about(key: &str, rest: &str) -> (r: LuaError)
    ensures
        r@ == of_key(key@, rest@),
{
    LuaError::Message(joined(&joined3("`", key, "`"), rest))
}

// ---------------------------------------------------------------------------
// Names and words

/// Reads a colour: an integer in range, or anything a colour is spelled as. A
/// number that is no integer is no colour, rather than another shade.
pub open spec fn color_value(value: LuaView) -> Result<u32, ApiFault> {
    match value {
        LuaView::Integer(i, _) => if 0 <= i <= u32::MAX {
            Ok(i as u32)
        } else {
            Err(ApiFault::InvalidColor(signed_text(i as int)))
        },
        LuaView::Number(n) => match n.whole {
            Some(i) if 0 <= i <= u32::MAX => Ok(i as u32),
            _ => Err(ApiFault::InvalidColor(n.measure.text)),
        },
        LuaView::Text(t) => match color_read(t.text) {
            Some(c) => Ok(c as u32),
            None => Err(ApiFault::InvalidColor(t.text)),
        },
        LuaView::Bytes(_) => Err(ApiFault::InvalidColor("<non-utf8>"@)),
        LuaView::Nil => Err(ApiFault::InvalidColor("Nil"@)),
        LuaView::Boolean(b) => Err(
            ApiFault::InvalidColor(
                if b {
                    "Boolean(true)"@
                } else {
                    "Boolean(false)"@
                },
            ),
        ),
        LuaView::Table(_, _, shown) => Err(ApiFault::InvalidColor(shown)),
        LuaView::Other(_, shown) => Err(ApiFault::InvalidColor(shown)),
    }
}

/// Reads a colour: an integer in range, or anything a colour is spelled as.
pub fn color_from_value(value: &LuaValue) -> (r: Result<u32, ApiError>)
    ensures
        match r {
            Ok(c) => color_value(value@) == Ok::<u32, ApiFault>(c),
            Err(e) => color_value(value@) == Err::<u32, ApiFault>(e@),
        },
{
    match value {
        LuaValue::Integer(i, _) => if 0 <= *i && *i <= 0xffff_ffff {
            Ok(*i as u32)
        } else {
            Err(ApiError::InvalidColor(signed(*i)))
        },
        LuaValue::Number(n) => match n.whole {
            Some(i) if 0 <= i && i <= 0xffff_ffff => Ok(i as u32),
            _ => Err(ApiError::InvalidColor(n.measure.text.clone())),
        },
        LuaValue::Text(t) => match Color::parse(&t.text) {
            Ok(color) => Ok(color.0),
            Err(_) => Err(ApiError::InvalidColor(t.text.clone())),
        },
        LuaValue::Bytes(_) => Err(ApiError::InvalidColor("<non-utf8>".to_owned())),
        LuaValue::Nil => Err(ApiError::InvalidColor("Nil".to_owned())),
        LuaValue::Boolean(b) => {
            let shown = if *b {
                "Boolean(true)"
            } else {
                "Boolean(false)"
            };
            Err(ApiError::InvalidColor(shown.to_owned()))
        },
        LuaValue::Table(_, shown) => Err(ApiError::InvalidColor(shown.clone())),
        LuaValue::Other(_, shown) => Err(ApiError::InvalidColor(shown.clone())),
    }
}

/// Reads a position.
pub fn position_from_str(text: &str) -> (r: Result<Position, ApiError>)
    ensures
        match r {
            Ok(p) => position_read(text@) == Some(p@),
            Err(e) => position_read(text@) is None && e@ == ApiFault::InvalidPosition(text@, text@),
        },
{
    match Position::parse(text) {
        Ok(position) => Ok(position),
        Err(e) => Err(ApiError::InvalidPosition(text.to_owned(), e)),
    }
}

/// Reads an event.
pub fn kind_from_str(text: &str) -> (r: Result<Kind<()>, ApiError>)
    ensures
        match r {
            Ok(k) => kind_read(text@) == Some(k@),
            Err(e) => kind_read(text@) is None && e@ == ApiFault::InvalidEvent(text@, text@),
        },
{
    match Kind::parse(text) {
        Ok(kind) => Ok(kind),
        Err(e) => Err(ApiError::InvalidEvent(text.to_owned(), e)),
    }
}

/// Reads an item's name.
pub fn item_name_from_str(text: &str) -> (r: Result<ItemName, ApiError>)
    ensures
        match r {
            Ok(n) => is_item_name(text@) && n@ == text@,
            Err(e) => !is_item_name(text@) && e@ == ApiFault::InvalidName(
                text@,
                name_fault(text@),
            ),
        },
{
    match ItemName::new(text) {
        Ok(name) => Ok(name),
        Err(e) => Err(ApiError::InvalidName(text.to_owned(), e)),
    }
}

/// Reads what a request names: a pattern by its slashes, and else a name.
pub fn selector_from_name(text: &str) -> (r: Result<Selector, ApiError>)
    ensures
        match r {
            Ok(s) => selector_read(text@) == Ok::<SelectorView, InvalidNameView>(s@),
            Err(e) => selector_read(text@) matches Err(fault) && e@ == ApiFault::InvalidName(
                text@,
                fault,
            ),
        },
{
    match Selector::parse(text) {
        Ok(selector) => Ok(selector),
        Err(e) => Err(ApiError::InvalidName(text.to_owned(), e)),
    }
}

/// Reads a name for a new event.
pub fn event_name_from_str(text: &str) -> (r: Result<EventName, ApiError>)
    ensures
        match r {
            Ok(n) => event_name_read(text@) == Ok::<Seq<char>, InvalidEventNameView>(n@),
            Err(e) => event_name_read(text@) matches Err(fault) && e@
                == ApiFault::InvalidEventName(text@, fault),
        },
{
    match EventName::parse(text) {
        Ok(name) => Ok(name),
        Err(e) => Err(ApiError::InvalidEventName(text.to_owned(), e)),
    }
}

/// Reads the name of a notification.
pub fn notification_name_from_str(text: &str) -> (r: Result<NotificationName, ApiError>)
    ensures
        match r {
            Ok(n) => is_notification_name(text@) && n@ == text@,
            Err(e) => !is_notification_name(text@) && e@ == ApiFault::InvalidNotificationName(
                text@,
                text@,
            ),
        },
{
    match NotificationName::parse(text) {
        Ok(name) => Ok(name),
        Err(e) => Err(ApiError::InvalidNotificationName(text.to_owned(), e)),
    }
}

/// What a text is as a name for a new event.
pub open spec fn event_name_read(text: Seq<char>) -> Result<Seq<char>, InvalidEventNameView> {
    match kind_read(text) {
        None => Err(InvalidEventNameView::NotAName(text)),
        Some(KindView::Custom(name)) => Ok(name),
        Some(kind) => Err(InvalidEventNameView::BuiltIn(crate::event::kind_name(kind))),
    }
}

// ---------------------------------------------------------------------------
// Lists

/// The texts some values read as, or what the first that does not read is
/// refused with.
pub open spec fn texts_read(items: Seq<LuaView>, form: TextForm) -> Result<
    Seq<Seq<char>>,
    LuaFault,
>
    decreases items.len(),
{
    if items.len() == 0 {
        Ok(Seq::empty())
    } else {
        match texts_read(items.drop_last(), form) {
            Err(fault) => Err(fault),
            Ok(before) => match text_read(items.last(), form) {
                Ok(text) => Ok(before.push(text)),
                Err(fault) => Err(fault),
            },
        }
    }
}

/// Once reading has failed, more values do not mend it.
proof fn lemma_texts_stay_refused(items: Seq<LuaView>, form: TextForm, upto: int)
    requires
        0 <= upto <= items.len(),
        texts_read(items.take(upto), form) is Err,
    ensures
        texts_read(items, form) == texts_read(items.take(upto), form),
    decreases items.len(),
{
    if upto < items.len() {
        assert(items.drop_last().take(upto) =~= items.take(upto));
        lemma_texts_stay_refused(items.drop_last(), form, upto);
    } else {
        assert(items.take(upto) =~= items);
    }
}

/// Reads a list of texts.
pub fn read_texts(items: &Vec<LuaValue>, form: TextForm) -> (r: Result<Vec<String>, LuaError>)
    ensures
        match r {
            Ok(texts) => texts_read(lua_items(items@), form) == Ok::<Seq<Seq<char>>, LuaFault>(
                crate::text::text_views(texts@),
            ),
            Err(e) => texts_read(lua_items(items@), form) == Err::<Seq<Seq<char>>, LuaFault>(e@),
        },
{
    let ghost all = lua_items(items@);
    let mut out: Vec<String> = Vec::new();
    let mut i: usize = 0;
    proof {
        lemma_lua_items(items@);
        assert(all.take(0) =~= Seq::<LuaView>::empty());
        assert(crate::text::text_views(out@) =~= Seq::<Seq<char>>::empty());
    }
    while i < items.len()
        invariant
            i <= items@.len(),
            all == lua_items(items@),
            all.len() == items@.len(),
            texts_read(all.take(i as int), form) == Ok::<Seq<Seq<char>>, LuaFault>(
                crate::text::text_views(out@),
            ),
        decreases items@.len() - i,
    {
        proof {
            lemma_lua_items(items@);
            assert(lua_items(items@)[i as int] == lua_view(items@[i as int]));
            assert(all.take(i + 1).drop_last() =~= all.take(i as int));
            assert(all.take(i + 1).last() == all[i as int]);
        }
        match items[i].read_text(form) {
            Ok(text) => {
                let ghost before = out@;
                out.push(text);
                proof {
                    assert(crate::text::text_views(out@) =~= crate::text::text_views(before).push(
                        text@,
                    ));
                }
            },
            Err(e) => {
                proof {
                    lemma_texts_stay_refused(all, form, i + 1);
                }
                return Err(e);
            },
        }
        i = i + 1;
    }
    proof {
        assert(all.take(all.len() as int) =~= all);
    }
    Ok(out)
}

/// The events some texts name, or what the first that names none is refused
/// with.
pub open spec fn kinds_read(texts: Seq<Seq<char>>) -> Result<Seq<KindView<()>>, LuaFault>
    decreases texts.len(),
{
    if texts.len() == 0 {
        Ok(Seq::empty())
    } else {
        match kinds_read(texts.drop_last()) {
            Err(fault) => Err(fault),
            Ok(before) => match kind_read(texts.last()) {
                Some(kind) => Ok(before.push(kind)),
                None => Err(lua_fault(ApiFault::InvalidEvent(texts.last(), texts.last()))),
            },
        }
    }
}

/// Once reading has failed, more texts do not mend it.
proof fn lemma_kinds_stay_refused(texts: Seq<Seq<char>>, upto: int)
    requires
        0 <= upto <= texts.len(),
        kinds_read(texts.take(upto)) is Err,
    ensures
        kinds_read(texts) == kinds_read(texts.take(upto)),
    decreases texts.len(),
{
    if upto < texts.len() {
        assert(texts.drop_last().take(upto) =~= texts.take(upto));
        lemma_kinds_stay_refused(texts.drop_last(), upto);
    } else {
        assert(texts.take(upto) =~= texts);
    }
}

/// The events a value names: one name, or a list of them. A list is read up to
/// the first entry that does not read.
pub open spec fn kinds_value(value: LuaView) -> Result<Seq<KindView<()>>, LuaFault> {
    match value {
        LuaView::Text(t) => kinds_read(seq![t.text]),
        LuaView::Bytes(why) => Err(not_text(why)),
        LuaView::Table(_, items, _) => kinds_list(items),
        _ => Err(
            LuaFault::Message(
                "expected an event name or a table of names, got "@ + type_text(value),
            ),
        ),
    }
}

/// The events a list names, entry by entry.
pub open spec fn kinds_list(items: Seq<LuaView>) -> Result<Seq<KindView<()>>, LuaFault>
    decreases items.len(),
{
    if items.len() == 0 {
        Ok(Seq::empty())
    } else {
        match kinds_list(items.drop_last()) {
            Err(fault) => Err(fault),
            Ok(before) => match text_read(items.last(), TextForm::Bytes) {
                Err(fault) => Err(fault),
                Ok(text) => match kind_read(text) {
                    Some(kind) => Ok(before.push(kind)),
                    None => Err(lua_fault(ApiFault::InvalidEvent(text, text))),
                },
            },
        }
    }
}

/// Once reading has failed, more entries do not mend it.
proof fn lemma_kinds_list_stays_refused(items: Seq<LuaView>, upto: int)
    requires
        0 <= upto <= items.len(),
        kinds_list(items.take(upto)) is Err,
    ensures
        kinds_list(items) == kinds_list(items.take(upto)),
    decreases items.len(),
{
    if upto < items.len() {
        assert(items.drop_last().take(upto) =~= items.take(upto));
        lemma_kinds_list_stays_refused(items.drop_last(), upto);
    } else {
        assert(items.take(upto) =~= items);
    }
}

/// Reads one event's name, or a list of them.
pub fn kinds_from_value(value: &LuaValue) -> (r: Result<Vec<Kind<()>>, LuaError>)
    ensures
        match r {
            Ok(kinds) => kinds_value(value@) == Ok::<Seq<KindView<()>>, LuaFault>(
                kind_views(kinds@),
            ),
            Err(e) => kinds_value(value@) == Err::<Seq<KindView<()>>, LuaFault>(e@),
        },
{
    match value {
        LuaValue::Text(t) => {
            proof {
                let one = seq![t.text@];
                assert(one.drop_last() =~= Seq::<Seq<char>>::empty());
                assert(one.last() == t.text@);
                reveal_with_fuel(kinds_read, 2);
            }
            match kind_from_str(&t.text) {
                Ok(kind) => {
                    let kinds = vec![kind];
                    proof {
                        assert(kind_views(kinds@) =~= Seq::<KindView<()>>::empty().push(kind@));
                    }
                    Ok(kinds)
                },
                Err(e) => Err(e.to_lua()),
            }
        },
        LuaValue::Bytes(why) => Err(no_text(why)),
        LuaValue::Table(table, shown) => {
            let ghost all = lua_items(table.items@);
            let mut out: Vec<Kind<()>> = Vec::new();
            let mut i: usize = 0;
            proof {
                lemma_lua_items(table.items@);
                assert(all.take(0) =~= Seq::<LuaView>::empty());
                assert(kind_views(out@) =~= Seq::<KindView<()>>::empty());
            }
            while i < table.items.len()
                invariant
                    i <= table.items@.len(),
                    all == lua_items(table.items@),
                    all.len() == table.items@.len(),
                    value@ == LuaView::Table(lua_fields(table.fields@), all, shown@),
                    kinds_list(all.take(i as int)) == Ok::<Seq<KindView<()>>, LuaFault>(
                        kind_views(out@),
                    ),
                decreases table.items@.len() - i,
            {
                proof {
                    lemma_lua_items(table.items@);
                    assert(lua_items(table.items@)[i as int] == lua_view(table.items@[i as int]));
                    assert(all.take(i + 1).drop_last() =~= all.take(i as int));
                    assert(all.take(i + 1).last() == all[i as int]);
                }
                let text = match table.items[i].read_text(TextForm::Bytes) {
                    Ok(text) => text,
                    Err(e) => {
                        proof {
                            lemma_kinds_list_stays_refused(all, i + 1);
                        }
                        return Err(e);
                    },
                };
                match kind_from_str(&text) {
                    Ok(kind) => {
                        let ghost before = out@;
                        let ghost k = kind@;
                        out.push(kind);
                        proof {
                            assert(kind_views(out@) =~= kind_views(before).push(k));
                        }
                    },
                    Err(e) => {
                        proof {
                            lemma_kinds_list_stays_refused(all, i + 1);
                        }
                        return Err(e.to_lua());
                    },
                }
                i = i + 1;
            }
            proof {
                assert(all.take(all.len() as int) =~= all);
            }
            Ok(out)
        },
        _ => Err(
            LuaError::Message(
                joined(
                    "expected an event name or a table of names, got ",
                    value.kind_of_value(),
                ),
            ),
        ),
    }
}

/// The selectors some texts are, or the sentence about the first that is none.
pub open spec fn selectors_read(texts: Seq<Seq<char>>) -> Result<Seq<SelectorView>, LuaFault>
    decreases texts.len(),
{
    if texts.len() == 0 {
        Ok(Seq::empty())
    } else {
        match selectors_read(texts.drop_last()) {
            Err(fault) => Err(fault),
            Ok(before) => match selector_read(texts.last()) {
                Ok(selector) => Ok(before.push(selector)),
                Err(fault) => Err(LuaFault::Message(crate::error::name_fault_text(fault))),
            },
        }
    }
}

/// Once reading has failed, more texts do not mend it.
proof fn lemma_selectors_stay_refused(texts: Seq<Seq<char>>, upto: int)
    requires
        0 <= upto <= texts.len(),
        selectors_read(texts.take(upto)) is Err,
    ensures
        selectors_read(texts) == selectors_read(texts.take(upto)),
    decreases texts.len(),
{
    if upto < texts.len() {
        assert(texts.drop_last().take(upto) =~= texts.take(upto));
        lemma_selectors_stay_refused(texts.drop_last(), upto);
    } else {
        assert(texts.take(upto) =~= texts);
    }
}

/// Reads what some texts name.
pub fn selectors_from_texts(texts: &Vec<String>) -> (r: Result<Vec<Selector>, LuaError>)
    ensures
        match r {
            Ok(selectors) => selectors_read(crate::text::text_views(texts@)) == Ok::<
                Seq<SelectorView>,
                LuaFault,
            >(selector_views(selectors@)),
            Err(e) => selectors_read(crate::text::text_views(texts@)) == Err::<
                Seq<SelectorView>,
                LuaFault,
            >(e@),
        },
{
    let ghost all = crate::text::text_views(texts@);
    let mut out: Vec<Selector> = Vec::new();
    let mut i: usize = 0;
    proof {
        assert(all.take(0) =~= Seq::<Seq<char>>::empty());
        assert(selector_views(out@) =~= Seq::<SelectorView>::empty());
    }
    while i < texts.len()
        invariant
            i <= texts@.len(),
            all == crate::text::text_views(texts@),
            all.len() == texts@.len(),
            selectors_read(all.take(i as int)) == Ok::<Seq<SelectorView>, LuaFault>(
                selector_views(out@),
            ),
        decreases texts@.len() - i,
    {
        proof {
            assert(all[i as int] == texts@[i as int]@);
            assert(all.take(i + 1).drop_last() =~= all.take(i as int));
            assert(all.take(i + 1).last() == all[i as int]);
        }
        match Selector::parse(&texts[i]) {
            Ok(selector) => {
                let ghost before = out@;
                let ghost s = selector@;
                out.push(selector);
                proof {
                    assert(selector_views(out@) =~= selector_views(before).push(s));
                }
            },
            Err(e) => {
                proof {
                    lemma_selectors_stay_refused(all, i + 1);
                }
                return Err(LuaError::Message(e.to_string()));
            },
        }
        i = i + 1;
    }
    proof {
        assert(all.take(all.len() as int) =~= all);
    }
    Ok(out)
}

// ---------------------------------------------------------------------------
// Fields of a table

/// The text of a field, a number spelled as Lua spells it.
pub open spec fn text_at(fields: Fields, key: Seq<char>) -> Result<Option<Seq<char>>, LuaFault> {
    match lookup(fields, key) {
        LuaView::Nil => Ok(None),
        value => match text_read(value, TextForm::Text) {
            Ok(text) => Ok(Some(text)),
            Err(fault) => Err(fault),
        },
    }
}

/// The text of a field.
pub fn opt_text(table: &LuaTable, key: &str) -> (r: Result<Option<String>, LuaError>)
    ensures
        match r {
            Ok(text) => text_at(table@.0, key@) == Ok::<Option<Seq<char>>, LuaFault>(text.model()),
            Err(e) => text_at(table@.0, key@) == Err::<Option<Seq<char>>, LuaFault>(e@),
        },
{
    match table.get(key) {
        None => Ok(None),
        Some(value) => match value {
            LuaValue::Nil => Ok(None),
            _ => match value.read_text(TextForm::Text) {
                Ok(text) => Ok(Some(text)),
                Err(e) => Err(e),
            },
        },
    }
}

/// The measurement of a field.
pub open spec fn measure_at(fields: Fields, key: Seq<char>) -> Result<
    Option<MeasureView>,
    LuaFault,
> {
    match lookup(fields, key) {
        LuaView::Nil => Ok(None),
        value => match measure_read(value, "f64"@) {
            Ok(measure) => Ok(Some(measure)),
            Err(fault) => Err(fault),
        },
    }
}

/// The measurement of a field.
pub fn opt_measure(table: &LuaTable, key: &str) -> (r: Result<Option<Measure>, LuaError>)
    ensures
        match r {
            Ok(m) => measure_at(table@.0, key@) == Ok::<Option<MeasureView>, LuaFault>(m.model()),
            Err(e) => measure_at(table@.0, key@) == Err::<Option<MeasureView>, LuaFault>(e@),
        },
{
    match table.get(key) {
        None => Ok(None),
        Some(value) => match value {
            LuaValue::Nil => Ok(None),
            _ => match value.read_measure("f64") {
                Ok(measure) => Ok(Some(measure)),
                Err(e) => Err(e),
            },
        },
    }
}

/// The integer of a field, within a range.
pub open spec fn whole_at(
    fields: Fields,
    key: Seq<char>,
    least: int,
    most: int,
    wanted: Seq<char>,
) -> Result<Option<int>, LuaFault> {
    match lookup(fields, key) {
        LuaView::Nil => Ok(None),
        value => match whole_read(value, least, most, wanted) {
            Ok(n) => Ok(Some(n)),
            Err(fault) => Err(fault),
        },
    }
}

/// The integer of a field, within a range.
pub fn opt_whole(
    table: &LuaTable,
    key: &str,
    least: i64,
    most: i64,
    wanted: &'static str,
) -> (r: Result<Option<i64>, LuaError>)
    ensures
        match r {
            Ok(Some(n)) => whole_at(table@.0, key@, least as int, most as int, wanted@) == Ok::<
                Option<int>,
                LuaFault,
            >(Some(n as int)) && least <= n <= most,
            Ok(None) => whole_at(table@.0, key@, least as int, most as int, wanted@) == Ok::<
                Option<int>,
                LuaFault,
            >(None),
            Err(e) => whole_at(table@.0, key@, least as int, most as int, wanted@) == Err::<
                Option<int>,
                LuaFault,
            >(e@),
        },
{
    match table.get(key) {
        None => Ok(None),
        Some(value) => match value {
            LuaValue::Nil => Ok(None),
            _ => match value.read_whole(least, most, wanted) {
                Ok(n) => Ok(Some(n)),
                Err(e) => Err(e),
            },
        },
    }
}

/// A flag of a field: a boolean, or one of the words for one.
pub open spec fn flag_at(fields: Fields, key: Seq<char>) -> Result<Option<bool>, LuaFault> {
    match lookup(fields, key) {
        LuaView::Nil => Ok(None),
        LuaView::Boolean(b) => Ok(Some(b)),
        LuaView::Text(t) => match bool_word(lowered(t.text)) {
            Some(b) => Ok(Some(b)),
            None => Err(
                of_key(
                    key,
                    " is not a boolean: expected on/off, true/false, yes/no or 1/0, got \""@
                        + t.text + "\""@,
                ),
            ),
        },
        LuaView::Bytes(why) => Err(not_text(why)),
        value => Err(of_key(key, " must be a boolean or an on/off string, got "@ + type_text(value))),
    }
}

/// A flag of a field: a boolean, or one of the words for one.
///
/// A word is read as a word, never by Lua's rule that a string holds: `"off"`
/// is off.
pub fn opt_bool(table: &LuaTable, key: &str) -> (r: Result<Option<bool>, LuaError>)
    ensures
        match r {
            Ok(b) => flag_at(table@.0, key@) == Ok::<Option<bool>, LuaFault>(b),
            Err(e) => flag_at(table@.0, key@) == Err::<Option<bool>, LuaFault>(e@),
        },
{
    match table.get(key) {
        None => Ok(None),
        Some(value) => match value {
            LuaValue::Nil => Ok(None),
            LuaValue::Boolean(b) => Ok(Some(*b)),
            LuaValue::Text(t) => {
                let word = lowercase(&t.text);
                if same(&word, "on") || same(&word, "true") || same(&word, "yes") || same(
                    &word,
                    "1",
                ) {
                    Ok(Some(true))
                } else if same(&word, "off") || same(&word, "false") || same(&word, "no") || same(
                    &word,
                    "0",
                ) {
                    Ok(Some(false))
                } else {
                    Err(
                        about(
                            key,
                            &joined3(
                                " is not a boolean: expected on/off, true/false, yes/no or 1/0, got \"",
                                &t.text,
                                "\"",
                            ),
                        ),
                    )
                }
            },
            LuaValue::Bytes(why) => Err(no_text(why)),
            _ => Err(
                about(
                    key,
                    &joined(
                        " must be a boolean or an on/off string, got ",
                        value.kind_of_value(),
                    ),
                ),
            ),
        },
    }
}

/// What a field makes of a flag: a boolean, or one of the words for a change.
pub open spec fn toggle_at(fields: Fields, key: Seq<char>) -> Result<
    Option<BoolChange>,
    LuaFault,
> {
    match lookup(fields, key) {
        LuaView::Nil => Ok(None),
        LuaView::Boolean(b) => Ok(Some(change_to(b))),
        LuaView::Text(t) => match change_read(t.text) {
            Some(change) => Ok(Some(change)),
            None => Err(
                of_key(
                    key,
                    ": "@ + ("`"@ + t.text
                        + "` is not on/off, true/false, yes/no, 1/0 or toggle, optionally `!`-negated"@),
                ),
            ),
        },
        LuaView::Bytes(why) => Err(not_text(why)),
        value => Err(of_key(key, " must be a boolean or a string, got "@ + type_text(value))),
    }
}

/// What a field makes of a flag.
pub fn opt_toggle(table: &LuaTable, key: &str) -> (r: Result<Option<BoolChange>, LuaError>)
    ensures
        match r {
            Ok(b) => toggle_at(table@.0, key@) == Ok::<Option<BoolChange>, LuaFault>(b),
            Err(e) => toggle_at(table@.0, key@) == Err::<Option<BoolChange>, LuaFault>(e@),
        },
{
    match table.get(key) {
        None => Ok(None),
        Some(value) => match value {
            LuaValue::Nil => Ok(None),
            LuaValue::Boolean(b) => Ok(
                Some(
                    if *b {
                        BoolChange::True
                    } else {
                        BoolChange::False
                    },
                ),
            ),
            LuaValue::Text(t) => match BoolChange::parse(&t.text) {
                Ok(change) => Ok(Some(change)),
                Err(e) => Err(about(key, &joined(": ", &e.to_string()))),
            },
            LuaValue::Bytes(why) => Err(no_text(why)),
            _ => Err(
                about(
                    key,
                    &joined(" must be a boolean or a string, got ", value.kind_of_value()),
                ),
            ),
        },
    }
}

/// The colour of a field.
pub open spec fn color_at(fields: Fields, key: Seq<char>) -> Result<Option<Color>, LuaFault> {
    match lookup(fields, key) {
        LuaView::Nil => Ok(None),
        value => match color_value(value) {
            Ok(c) => Ok(Some(Color(c))),
            Err(fault) => Err(lua_fault(fault)),
        },
    }
}

/// The colour of a field.
pub fn opt_color(table: &LuaTable, key: &str) -> (r: Result<Option<Color>, LuaError>)
    ensures
        match r {
            Ok(c) => color_at(table@.0, key@) == Ok::<Option<Color>, LuaFault>(c),
            Err(e) => color_at(table@.0, key@) == Err::<Option<Color>, LuaFault>(e@),
        },
{
    match table.get(key) {
        None => Ok(None),
        Some(value) => match value {
            LuaValue::Nil => Ok(None),
            _ => match color_from_value(value) {
                Ok(c) => Ok(Some(Color(c))),
                Err(e) => Err(e.to_lua()),
            },
        },
    }
}

/// A display of a field as it is written: a word, or an index.
pub open spec fn display_text_at(fields: Fields, key: Seq<char>) -> Result<
    Option<Seq<char>>,
    LuaFault,
> {
    match lookup(fields, key) {
        LuaView::Nil => Ok(None),
        LuaView::Text(t) => Ok(Some(t.text)),
        LuaView::Bytes(why) => Err(not_text(why)),
        LuaView::Integer(i, _) => Ok(Some(signed_text(i as int))),
        LuaView::Number(n) => Ok(Some(n.measure.text)),
        value => Err(of_key(key, " must be a string or a number, got "@ + type_text(value))),
    }
}

/// The display of a field.
pub open spec fn display_at(fields: Fields, key: Seq<char>) -> Result<
    Option<DisplayTarget>,
    LuaFault,
> {
    match display_text_at(fields, key) {
        Err(fault) => Err(fault),
        Ok(None) => Ok(None),
        Ok(Some(text)) => match display_read(text) {
            Some(target) => Ok(Some(target)),
            None => Err(
                of_key(
                    key,
                    ": "@ + ("`"@ + text
                        + "` is not a display: expected `all` or a 1-based index"@),
                ),
            ),
        },
    }
}

/// The display of a field.
pub fn opt_display(table: &LuaTable, key: &str) -> (r: Result<Option<DisplayTarget>, LuaError>)
    ensures
        match r {
            Ok(d) => display_at(table@.0, key@) == Ok::<Option<DisplayTarget>, LuaFault>(d),
            Err(e) => display_at(table@.0, key@) == Err::<Option<DisplayTarget>, LuaFault>(e@),
        },
{
    let text: String = match table.get(key) {
        None => {
            return Ok(None);
        },
        Some(value) => match value {
            LuaValue::Nil => {
                return Ok(None);
            },
            LuaValue::Text(t) => t.text.clone(),
            LuaValue::Bytes(why) => {
                return Err(no_text(why));
            },
            LuaValue::Integer(i, _) => signed(*i),
            LuaValue::Number(n) => n.measure.text.clone(),
            _ => {
                return Err(
                    about(
                        key,
                        &joined(" must be a string or a number, got ", value.kind_of_value()),
                    ),
                );
            },
        },
    };
    match DisplayTarget::parse(&text) {
        Ok(target) => Ok(Some(target)),
        Err(e) => Err(about(key, &joined(": ", &e.to_string()))),
    }
}

/// The position of a field. One that names no bucket is not said at all.
pub open spec fn position_at(fields: Fields, key: Seq<char>) -> Result<
    Option<PositionView>,
    LuaFault,
> {
    match text_at(fields, key) {
        Err(fault) => Err(fault),
        Ok(None) => Ok(None),
        Ok(Some(text)) => Ok(position_read(text)),
    }
}

/// A position that may not be said, over plain text.
pub open spec fn position_view(position: Option<Position>) -> Option<PositionView> {
    match position {
        Some(p) => Some(p@),
        None => None,
    }
}

/// The position of a field.
pub fn opt_position(table: &LuaTable, key: &str) -> (r: Result<Option<Position>, LuaError>)
    ensures
        match r {
            Ok(p) => position_at(table@.0, key@) == Ok::<Option<PositionView>, LuaFault>(
                position_view(p),
            ),
            Err(e) => position_at(table@.0, key@) == Err::<Option<PositionView>, LuaFault>(e@),
        },
{
    match opt_text(table, key) {
        Err(e) => Err(e),
        Ok(None) => Ok(None),
        Ok(Some(text)) => match position_from_str(&text) {
            Ok(position) => Ok(Some(position)),
            Err(_) => Ok(None),
        },
    }
}

/// Where an item is to be added: where its options say, and else on the left.
pub fn item_position_from_table(table: &LuaTable) -> (r: Result<Position, LuaError>)
    ensures
        match r {
            Ok(p) => position_at(table@.0, "position"@) matches Ok(said) && p@ == (match said {
                Some(position) => position,
                None => PositionView::Left,
            }),
            Err(e) => position_at(table@.0, "position"@) == Err::<Option<PositionView>, LuaFault>(
                e@,
            ),
        },
{
    match opt_position(table, "position") {
        Err(e) => Err(e),
        Ok(Some(position)) => Ok(position),
        Ok(None) => Ok(Position::Left),
    }
}

/// The table of a field.
pub open spec fn table_at(fields: Fields, key: Seq<char>) -> Result<Option<Fields>, LuaFault> {
    match lookup(fields, key) {
        LuaView::Nil => Ok(None),
        LuaView::Table(inner, _, _) => Ok(Some(inner)),
        value => Err(refused(value, "table"@, None)),
    }
}

/// A table that may not be said, by its fields.
pub open spec fn table_view(table: Option<&LuaTable>) -> Option<Fields> {
    match table {
        Some(table) => Some(table@.0),
        None => None,
    }
}

/// The table of a field.
pub fn opt_table<'a>(table: &'a LuaTable, key: &str) -> (r: Result<
    Option<&'a LuaTable>,
    LuaError,
>)
    ensures
        match r {
            Ok(t) => table_at(table@.0, key@) == Ok::<Option<Fields>, LuaFault>(table_view(t)),
            Err(e) => table_at(table@.0, key@) == Err::<Option<Fields>, LuaFault>(e@),
        },
{
    match table.get(key) {
        None => Ok(None),
        Some(value) => match value {
            LuaValue::Nil => Ok(None),
            LuaValue::Table(inner, _) => Ok(Some(inner)),
            _ => Err(value.refusal("table", None)),
        },
    }
}

/// The popup alignment of a field.
pub open spec fn align_at(fields: Fields, key: Seq<char>) -> Result<
    Option<PopupAlign>,
    LuaFault,
> {
    match text_at(fields, key) {
        Err(fault) => Err(fault),
        Ok(None) => Ok(None),
        Ok(Some(text)) => match align_read(text) {
            Some(align) => Ok(Some(align)),
            None => Err(
                of_key(
                    key,
                    ": "@ + ("`"@ + text
                        + "` is not a popup alignment: expected left, center or right"@),
                ),
            ),
        },
    }
}

/// The popup alignment of a field.
pub fn opt_align(table: &LuaTable, key: &str) -> (r: Result<Option<PopupAlign>, LuaError>)
    ensures
        match r {
            Ok(a) => align_at(table@.0, key@) == Ok::<Option<PopupAlign>, LuaFault>(a),
            Err(e) => align_at(table@.0, key@) == Err::<Option<PopupAlign>, LuaFault>(e@),
        },
{
    match opt_text(table, key) {
        Err(e) => Err(e),
        Ok(None) => Ok(None),
        Ok(Some(text)) => match PopupAlign::parse(&text) {
            Ok(align) => Ok(Some(align)),
            Err(e) => Err(about(key, &joined(": ", &e.to_string()))),
        },
    }
}

/// The edge a word names, whatever its case.
pub open spec fn edge_of(key: Seq<char>, text: Seq<char>) -> Result<Edge, LuaFault> {
    if lowered(text) == "top"@ {
        Ok(Edge::Top)
    } else if lowered(text) == "bottom"@ {
        Ok(Edge::Bottom)
    } else {
        Err(of_key(key, " must be \"top\" or \"bottom\", got \""@ + lowered(text) + "\""@))
    }
}

/// The edge a word names, whatever its case.
pub fn edge_from_str(key: &str, text: &str) -> (r: Result<Edge, LuaError>)
    ensures
        match r {
            Ok(edge) => edge_of(key@, text@) == Ok::<Edge, LuaFault>(edge),
            Err(e) => edge_of(key@, text@) == Err::<Edge, LuaFault>(e@),
        },
{
    let word = lowercase(text);
    if same(&word, "top") {
        Ok(Edge::Top)
    } else if same(&word, "bottom") {
        Ok(Edge::Bottom)
    } else {
        Err(about(key, &joined3(" must be \"top\" or \"bottom\", got \"", &word, "\"")))
    }
}

/// The edge of a bar: `position`, or else `edge`.
pub open spec fn edge_at(fields: Fields) -> Result<Option<Edge>, LuaFault> {
    match text_at(fields, "position"@) {
        Err(fault) => Err(fault),
        Ok(Some(text)) => match edge_of("position"@, text) {
            Ok(edge) => Ok(Some(edge)),
            Err(fault) => Err(fault),
        },
        Ok(None) => match text_at(fields, "edge"@) {
            Err(fault) => Err(fault),
            Ok(Some(text)) => match edge_of("edge"@, text) {
                Ok(edge) => Ok(Some(edge)),
                Err(fault) => Err(fault),
            },
            Ok(None) => Ok(None),
        },
    }
}

/// The edge of a bar.
fn opt_edge(table: &LuaTable) -> (r: Result<Option<Edge>, LuaError>)
    ensures
        match r {
            Ok(edge) => edge_at(table@.0) == Ok::<Option<Edge>, LuaFault>(edge),
            Err(e) => edge_at(table@.0) == Err::<Option<Edge>, LuaFault>(e@),
        },
{
    match opt_text(table, "position") {
        Err(e) => Err(e),
        Ok(Some(text)) => match edge_from_str("position", &text) {
            Ok(edge) => Ok(Some(edge)),
            Err(e) => Err(e),
        },
        Ok(None) => match opt_text(table, "edge") {
            Err(e) => Err(e),
            Ok(Some(text)) => match edge_from_str("edge", &text) {
                Ok(edge) => Ok(Some(edge)),
                Err(e) => Err(e),
            },
            Ok(None) => Ok(None),
        },
    }
}

// ---------------------------------------------------------------------------
// Fonts

/// What a piece reads as, where there is such a piece and it reads as a number.
pub open spec fn nth_number(numbers: Seq<Option<MeasureView>>, k: int) -> Option<MeasureView> {
    if k < numbers.len() {
        numbers[k]
    } else {
        None
    }
}

/// The font a text spells, given what its pieces read as.
pub open spec fn font_spelled(text: Seq<char>, numbers: Seq<Option<MeasureView>>) -> FontView {
    let parts = pieces(text, ':');
    let size = match nth_piece(parts, 2) {
        Some(_) => nth_number(numbers, 2),
        None => None,
    };
    FontView {
        family: match said(nth_piece(parts, 0)) {
            Some(family) => family,
            None => default_font().family,
        },
        style: match said(nth_piece(parts, 1)) {
            Some(style) => style,
            None => default_font().style,
        },
        size_bits: match size {
            Some(m) => m.bits,
            None => default_font().size_bits,
        },
        size_text: match size {
            Some(m) => m.text,
            None => default_font().size_text,
        },
    }
}

impl FontSpec {
    /// The font a text spells, given what its pieces read as.
    pub fn parse(text: &str, numbers: &Vec<Option<Measure>>) -> (r: FontSpec)
        ensures
            r@ == font_spelled(text@, crate::lua::piece_views(numbers@)),
    {
        let parts = FontParts::split(text);
        let size: Option<Measure> = if parts.size.is_some() && numbers.len() > 2 {
            numbers[2].copy()
        } else {
            None
        };
        proof {
            let ghost nums = crate::lua::piece_views(numbers@);
            if numbers@.len() > 2 {
                assert(nums[2] == numbers@[2].model());
            }
        }
        FontSpec::of_parts(parts.family, parts.style, size)
    }
}

/// What the pieces of a value read as.
pub open spec fn numbers_of(value: LuaView) -> Seq<Option<MeasureView>> {
    match value {
        LuaView::Text(t) => t.pieces,
        LuaView::Integer(_, measure) => seq![Some(measure)],
        LuaView::Number(n) => seq![Some(n.measure)],
        _ => seq![None::<MeasureView>],
    }
}

/// Adds what the pieces of a value read as to a list.
fn add_numbers(value: Option<&LuaValue>, into: &mut Vec<Option<Measure>>)
    ensures
        crate::lua::piece_views(final(into)@) == crate::lua::piece_views(old(into)@) + numbers_of(
            match value {
                Some(value) => value@,
                None => LuaView::Nil,
            },
        ),
{
    let ghost start = crate::lua::piece_views(into@);
    match value {
        Some(LuaValue::Text(t)) => {
            let ghost all = crate::lua::piece_views(t.pieces@);
            let mut i: usize = 0;
            proof {
                assert(start + all.take(0) =~= start);
            }
            while i < t.pieces.len()
                invariant
                    i <= t.pieces@.len(),
                    all == crate::lua::piece_views(t.pieces@),
                    crate::lua::piece_views(into@) == start + all.take(i as int),
                decreases t.pieces@.len() - i,
            {
                let ghost before = into@;
                into.push(t.pieces[i].copy());
                proof {
                    assert(crate::lua::piece_views(into@) =~= crate::lua::piece_views(before).push(
                        t.pieces@[i as int].model(),
                    ));
                    assert(all[i as int] == t.pieces@[i as int].model());
                    assert(start + all.take(i + 1) =~= (start + all.take(i as int)).push(
                        all[i as int],
                    ));
                }
                i = i + 1;
            }
            proof {
                assert(all.take(all.len() as int) =~= all);
            }
        },
        Some(LuaValue::Integer(_, measure)) => {
            into.push(Some(measure.copied()));
            proof {
                assert(crate::lua::piece_views(into@) =~= start + seq![Some(measure.model())]);
            }
        },
        Some(LuaValue::Number(n)) => {
            into.push(Some(n.measure.copied()));
            proof {
                assert(crate::lua::piece_views(into@) =~= start + seq![Some(n.measure.model())]);
            }
        },
        _ => {
            into.push(None);
            proof {
                assert(crate::lua::piece_views(into@) =~= start + seq![None::<MeasureView>]);
            }
        },
    }
}

/// The size of a font in a table: how it is written.
pub open spec fn size_at(fields: Fields) -> Result<Seq<char>, LuaFault> {
    match lookup(fields, "size"@) {
        LuaView::Nil => Ok(Seq::empty()),
        LuaView::Integer(i, _) => Ok(signed_text(i as int)),
        LuaView::Number(n) => Ok(n.measure.text),
        value => Err(LuaFault::Message("`font.size` must be a number, got "@ + type_text(value))),
    }
}

/// A text, empty where there is none.
pub open spec fn or_empty(text: Option<Seq<char>>) -> Seq<char> {
    match text {
        Some(t) => t,
        None => Seq::empty(),
    }
}

/// The font of a table: its parts joined as they are spelled flat.
pub open spec fn font_of_table(fields: Fields) -> Result<FontView, LuaFault> {
    let family = text_at(fields, "family"@);
    let style = text_at(fields, "style"@);
    let size = size_at(fields);
    match first_of(fault_of(family), first_of(fault_of(style), fault_of(size))) {
        Some(fault) => Err(fault),
        None => Ok(
            font_spelled(
                or_empty(given(family)) + ":"@ + or_empty(given(style)) + ":"@ + size->Ok_0,
                numbers_of(lookup(fields, "family"@)) + numbers_of(lookup(fields, "style"@))
                    + numbers_of(lookup(fields, "size"@)),
            ),
        ),
    }
}

/// The font of a field: spelled flat, or as a table of its parts.
pub open spec fn font_at(fields: Fields) -> Result<Option<FontView>, LuaFault> {
    match lookup(fields, "font"@) {
        LuaView::Nil => Ok(None),
        LuaView::Text(t) => Ok(Some(font_spelled(t.text, t.pieces))),
        LuaView::Bytes(why) => Err(not_text(why)),
        LuaView::Table(inner, _, _) => match font_of_table(inner) {
            Ok(font) => Ok(Some(font)),
            Err(fault) => Err(fault),
        },
        value => Err(
            LuaFault::Message("`font` must be a string or a table, got "@ + type_text(value)),
        ),
    }
}

/// A font that may not be said, over plain text.
pub open spec fn font_view(font: Option<FontSpec>) -> Option<FontView> {
    match font {
        Some(font) => Some(font@),
        None => None,
    }
}

/// The font of a table: its parts joined as they are spelled flat.
fn font_from_table(table: &LuaTable) -> (r: Result<FontSpec, LuaError>)
    ensures
        match r {
            Ok(font) => font_of_table(table@.0) == Ok::<FontView, LuaFault>(font@),
            Err(e) => font_of_table(table@.0) == Err::<FontView, LuaFault>(e@),
        },
{
    let family = match opt_text(table, "family") {
        Ok(Some(text)) => text,
        Ok(None) => String::new(),
        Err(e) => {
            return Err(e);
        },
    };
    let style = match opt_text(table, "style") {
        Ok(Some(text)) => text,
        Ok(None) => String::new(),
        Err(e) => {
            return Err(e);
        },
    };
    let size: String = match table.get("size") {
        None => String::new(),
        Some(value) => match value {
            LuaValue::Nil => String::new(),
            LuaValue::Integer(i, _) => signed(*i),
            LuaValue::Number(n) => n.measure.text.clone(),
            _ => {
                return Err(
                    LuaError::Message(
                        joined("`font.size` must be a number, got ", value.kind_of_value()),
                    ),
                );
            },
        },
    };
    let mut numbers: Vec<Option<Measure>> = Vec::new();
    proof {
        assert(crate::lua::piece_views(numbers@) =~= Seq::<Option<MeasureView>>::empty());
    }
    add_numbers(table.get("family"), &mut numbers);
    add_numbers(table.get("style"), &mut numbers);
    add_numbers(table.get("size"), &mut numbers);
    let text = joined3(&joined3(&family, ":", &style), ":", &size);
    proof {
        let f = numbers_of(lookup(table@.0, "family"@));
        let s = numbers_of(lookup(table@.0, "style"@));
        let z = numbers_of(lookup(table@.0, "size"@));
        assert(crate::lua::piece_views(numbers@) =~= f + s + z);
        assert(size_at(table@.0) == Ok::<Seq<char>, LuaFault>(size@));
    }
    Ok(FontSpec::parse(&text, &numbers))
}

/// The font of a field.
pub fn opt_font(table: &LuaTable) -> (r: Result<Option<FontSpec>, LuaError>)
    ensures
        match r {
            Ok(font) => font_at(table@.0) == Ok::<Option<FontView>, LuaFault>(font_view(font)),
            Err(e) => font_at(table@.0) == Err::<Option<FontView>, LuaFault>(e@),
        },
{
    match table.get("font") {
        None => Ok(None),
        Some(value) => match value {
            LuaValue::Nil => Ok(None),
            LuaValue::Text(t) => Ok(Some(FontSpec::parse(&t.text, &t.pieces))),
            LuaValue::Bytes(why) => Err(no_text(why)),
            LuaValue::Table(inner, _) => match font_from_table(inner) {
                Ok(font) => Ok(Some(font)),
                Err(e) => Err(e),
            },
            _ => Err(
                LuaError::Message(
                    joined("`font` must be a string or a table, got ", value.kind_of_value()),
                ),
            ),
        },
    }
}

// ---------------------------------------------------------------------------
// Patches

/// What a flag makes of a flag.
pub open spec fn change_of(flag: Option<bool>) -> Option<BoolChange> {
    match flag {
        Some(b) => Some(change_to(b)),
        None => None,
    }
}

/// What a flag makes of a flag.
fn change(flag: Option<bool>) -> (r: Option<BoolChange>)
    ensures
        r == change_of(flag),
{
    match flag {
        Some(b) => Some(
            if b {
                BoolChange::True
            } else {
                BoolChange::False
            },
        ),
        None => None,
    }
}

/// An integer in range, as wide as it is kept.
pub open spec fn narrow_u8(n: Option<int>) -> Option<u8> {
    match n {
        Some(n) => Some(n as u8),
        None => None,
    }
}

/// An integer in range, as wide as it is kept.
pub open spec fn narrow_u32(n: Option<int>) -> Option<u32> {
    match n {
        Some(n) => Some(n as u32),
        None => None,
    }
}

/// An integer in range, as wide as it is kept.
pub open spec fn narrow_i32(n: Option<int>) -> Option<i32> {
    match n {
        Some(n) => Some(n as i32),
        None => None,
    }
}

/// Whether a patch says nothing of a half.
pub open spec fn silent(patch: RunPatchView) -> bool {
    patch.text is None && patch.color is None && patch.font is None && patch.drawing is None
        && patch.padding_left is None && patch.padding_right is None
}

/// What a table says of one half of an item. `string` is said before `text`.
pub open spec fn run_of_table(fields: Fields) -> Result<RunPatchView, LuaFault> {
    let string = text_at(fields, "string"@);
    let text = text_at(fields, "text"@);
    let color = color_at(fields, "color"@);
    let font = font_at(fields);
    let drawing = flag_at(fields, "drawing"@);
    let padding_left = measure_at(fields, "padding_left"@);
    let padding_right = measure_at(fields, "padding_right"@);
    match first_of(
        fault_of(string),
        first_of(
            fault_of(text),
            first_of(
                fault_of(color),
                first_of(
                    fault_of(font),
                    first_of(
                        fault_of(drawing),
                        first_of(fault_of(padding_left), fault_of(padding_right)),
                    ),
                ),
            ),
        ),
    ) {
        Some(fault) => Err(fault),
        None => Ok(
            RunPatchView {
                text: match given(string) {
                    Some(t) => Some(t),
                    None => given(text),
                },
                color: given(color),
                font: given(font),
                drawing: change_of(given(drawing)),
                padding_left: given(padding_left),
                padding_right: given(padding_right),
                ..unsaid_run()
            },
        ),
    }
}

/// A patch that says nothing of a half.
pub open spec fn unsaid_run() -> RunPatchView {
    RunPatchView {
        text: None,
        color: None,
        font: None,
        drawing: None,
        padding_left: None,
        padding_right: None,
        y_offset: None,
        highlight: None,
        highlight_color: None,
    }
}

/// What a field says of one half of an item: a text is what it says, and a
/// table says it piece by piece. A table that says nothing is not said.
pub open spec fn run_at(fields: Fields, key: Seq<char>) -> Result<
    Option<RunPatchView>,
    LuaFault,
> {
    match lookup(fields, key) {
        LuaView::Nil => Ok(None),
        LuaView::Text(t) => Ok(Some(RunPatchView { text: Some(t.text), ..unsaid_run() })),
        LuaView::Bytes(why) => Err(not_text(why)),
        LuaView::Table(inner, _, _) => match run_of_table(inner) {
            Err(fault) => Err(fault),
            Ok(patch) => if silent(patch) {
                Ok(None)
            } else {
                Ok(Some(patch))
            },
        },
        value => Err(of_key(key, " must be a string or a table, got "@ + type_text(value))),
    }
}

/// A patch of a half that may not be said, over plain values.
pub open spec fn run_view(patch: Option<RunPatch>) -> Option<RunPatchView> {
    match patch {
        Some(patch) => Some(patch@),
        None => None,
    }
}

/// What a table says of one half of an item.
fn run_from_table(table: &LuaTable) -> (r: Result<RunPatch, LuaError>)
    ensures
        match r {
            Ok(patch) => run_of_table(table@.0) == Ok::<RunPatchView, LuaFault>(patch@),
            Err(e) => run_of_table(table@.0) == Err::<RunPatchView, LuaFault>(e@),
        },
{
    let string = match opt_text(table, "string") {
        Ok(value) => value,
        Err(e) => {
            return Err(e);
        },
    };
    let text = match opt_text(table, "text") {
        Ok(value) => value,
        Err(e) => {
            return Err(e);
        },
    };
    let color = match opt_color(table, "color") {
        Ok(value) => value,
        Err(e) => {
            return Err(e);
        },
    };
    let font = match opt_font(table) {
        Ok(value) => value,
        Err(e) => {
            return Err(e);
        },
    };
    let drawing = match opt_bool(table, "drawing") {
        Ok(value) => value,
        Err(e) => {
            return Err(e);
        },
    };
    let padding_left = match opt_measure(table, "padding_left") {
        Ok(value) => value,
        Err(e) => {
            return Err(e);
        },
    };
    let padding_right = match opt_measure(table, "padding_right") {
        Ok(value) => value,
        Err(e) => {
            return Err(e);
        },
    };
    let patch = RunPatch {
        text: match string {
            Some(t) => Some(t),
            None => text,
        },
        color,
        font,
        drawing: change(drawing),
        padding_left,
        padding_right,
        ..RunPatch::default()
    };
    Ok(patch)
}

/// What a field says of one half of an item.
pub fn run_patch(table: &LuaTable, key: &str) -> (r: Result<Option<RunPatch>, LuaError>)
    ensures
        match r {
            Ok(patch) => run_at(table@.0, key@) == Ok::<Option<RunPatchView>, LuaFault>(
                run_view(patch),
            ),
            Err(e) => run_at(table@.0, key@) == Err::<Option<RunPatchView>, LuaFault>(e@),
        },
{
    match table.get(key) {
        None => Ok(None),
        Some(value) => match value {
            LuaValue::Nil => Ok(None),
            LuaValue::Text(t) => {
                let patch = RunPatch { text: Some(t.text.clone()), ..RunPatch::default() };
                proof {
                    assert(patch@ == (RunPatchView { text: Some(t.text@), ..unsaid_run() }));
                }
                Ok(Some(patch))
            },
            LuaValue::Bytes(why) => Err(no_text(why)),
            LuaValue::Table(inner, _) => match run_from_table(inner) {
                Err(e) => Err(e),
                Ok(patch) => if patch.text.is_none() && patch.color.is_none()
                    && patch.font.is_none() && patch.drawing.is_none()
                    && patch.padding_left.is_none() && patch.padding_right.is_none() {
                    Ok(None)
                } else {
                    Ok(Some(patch))
                },
            },
            _ => Err(
                about(
                    key,
                    &joined(" must be a string or a table, got ", value.kind_of_value()),
                ),
            ),
        },
    }
}

/// What a table says of what is behind an item.
pub open spec fn background_of_table(fields: Fields) -> Result<BackgroundPatchView, LuaFault> {
    let drawing = flag_at(fields, "drawing"@);
    let color = color_at(fields, "color"@);
    let corner_radius = measure_at(fields, "corner_radius"@);
    let height = measure_at(fields, "height"@);
    let padding_left = measure_at(fields, "padding_left"@);
    let padding_right = measure_at(fields, "padding_right"@);
    let border_color = color_at(fields, "border_color"@);
    let border_width = measure_at(fields, "border_width"@);
    match first_of(fault_of(drawing), first_of(fault_of(color), first_of(fault_of(corner_radius), first_of(fault_of(height), first_of(fault_of(padding_left), first_of(fault_of(padding_right), first_of(fault_of(border_color), fault_of(border_width)))))))) {
        Some(fault) => Err(fault),
        None => Ok(
            BackgroundPatchView {
                drawing: change_of(given(drawing)),
                color: given(color),
                corner_radius: given(corner_radius),
                height: given(height),
                padding_left: given(padding_left),
                padding_right: given(padding_right),
                border_color: given(border_color),
                border_width: given(border_width),
            },
        ),
    }
}

/// What a table says of what is behind an item.
fn background_from_table(table: &LuaTable) -> (r: Result<BackgroundPatch, LuaError>)
    ensures
        match r {
            Ok(patch) => background_of_table(table@.0) == Ok::<BackgroundPatchView, LuaFault>(patch@),
            Err(e) => background_of_table(table@.0) == Err::<BackgroundPatchView, LuaFault>(e@),
        },
{
    let drawing = match opt_bool(table, "drawing") {
        Ok(value) => value,
        Err(e) => {
            return Err(e);
        },
    };
    let color = match opt_color(table, "color") {
        Ok(value) => value,
        Err(e) => {
            return Err(e);
        },
    };
    let corner_radius = match opt_measure(table, "corner_radius") {
        Ok(value) => value,
        Err(e) => {
            return Err(e);
        },
    };
    let height = match opt_measure(table, "height") {
        Ok(value) => value,
        Err(e) => {
            return Err(e);
        },
    };
    let padding_left = match opt_measure(table, "padding_left") {
        Ok(value) => value,
        Err(e) => {
            return Err(e);
        },
    };
    let padding_right = match opt_measure(table, "padding_right") {
        Ok(value) => value,
        Err(e) => {
            return Err(e);
        },
    };
    let border_color = match opt_color(table, "border_color") {
        Ok(value) => value,
        Err(e) => {
            return Err(e);
        },
    };
    let border_width = match opt_measure(table, "border_width") {
        Ok(value) => value,
        Err(e) => {
            return Err(e);
        },
    };
    Ok(
        BackgroundPatch {
            drawing: change(drawing),
            color,
            corner_radius,
            height,
            padding_left,
            padding_right,
            border_color,
            border_width,
        },
    )
}

/// What a field says of what is behind an item.
pub open spec fn background_at(fields: Fields) -> Result<Option<BackgroundPatchView>, LuaFault> {
    match table_at(fields, "background"@) {
        Err(fault) => Err(fault),
        Ok(None) => Ok(None),
        Ok(Some(inner)) => match background_of_table(inner) {
            Ok(patch) => Ok(Some(patch)),
            Err(fault) => Err(fault),
        },
    }
}

/// A patch that may not be said, over plain values.
pub open spec fn background_view(patch: Option<BackgroundPatch>) -> Option<BackgroundPatchView> {
    match patch {
        Some(patch) => Some(patch@),
        None => None,
    }
}

/// What a field says of what is behind an item.
pub fn background_patch(table: &LuaTable) -> (r: Result<Option<BackgroundPatch>, LuaError>)
    ensures
        match r {
            Ok(patch) => background_at(table@.0) == Ok::<Option<BackgroundPatchView>, LuaFault>(
                background_view(patch),
            ),
            Err(e) => background_at(table@.0) == Err::<Option<BackgroundPatchView>, LuaFault>(e@),
        },
{
    match opt_table(table, "background") {
        Err(e) => Err(e),
        Ok(None) => Ok(None),
        Ok(Some(inner)) => match background_from_table(inner) {
            Ok(patch) => Ok(Some(patch)),
            Err(e) => Err(e),
        },
    }
}

/// What a table says of an item's popup.
pub open spec fn popup_of_table(fields: Fields) -> Result<PopupPatchView, LuaFault> {
    let drawing = toggle_at(fields, "drawing"@);
    let horizontal = flag_at(fields, "horizontal"@);
    let align = align_at(fields, "align"@);
    let topmost = flag_at(fields, "topmost"@);
    let height = measure_at(fields, "height"@);
    let y_offset = measure_at(fields, "y_offset"@);
    let background = background_at(fields);
    match first_of(fault_of(drawing), first_of(fault_of(horizontal), first_of(fault_of(align), first_of(fault_of(topmost), first_of(fault_of(height), first_of(fault_of(y_offset), fault_of(background))))))) {
        Some(fault) => Err(fault),
        None => Ok(
            PopupPatchView {
                drawing: given(drawing),
                horizontal: change_of(given(horizontal)),
                align: given(align),
                topmost: change_of(given(topmost)),
                height: given(height),
                y_offset: given(y_offset),
                background: given(background),
            },
        ),
    }
}

/// What a table says of an item's popup.
fn popup_from_table(table: &LuaTable) -> (r: Result<PopupPatch, LuaError>)
    ensures
        match r {
            Ok(patch) => popup_of_table(table@.0) == Ok::<PopupPatchView, LuaFault>(patch@),
            Err(e) => popup_of_table(table@.0) == Err::<PopupPatchView, LuaFault>(e@),
        },
{
    let drawing = match opt_toggle(table, "drawing") {
        Ok(value) => value,
        Err(e) => {
            return Err(e);
        },
    };
    let horizontal = match opt_bool(table, "horizontal") {
        Ok(value) => value,
        Err(e) => {
            return Err(e);
        },
    };
    let align = match opt_align(table, "align") {
        Ok(value) => value,
        Err(e) => {
            return Err(e);
        },
    };
    let topmost = match opt_bool(table, "topmost") {
        Ok(value) => value,
        Err(e) => {
            return Err(e);
        },
    };
    let height = match opt_measure(table, "height") {
        Ok(value) => value,
        Err(e) => {
            return Err(e);
        },
    };
    let y_offset = match opt_measure(table, "y_offset") {
        Ok(value) => value,
        Err(e) => {
            return Err(e);
        },
    };
    let background = match background_patch(table) {
        Ok(value) => value,
        Err(e) => {
            return Err(e);
        },
    };
    Ok(
        PopupPatch {
            drawing,
            horizontal: change(horizontal),
            align,
            topmost: change(topmost),
            height,
            y_offset,
            background,
        },
    )
}

/// What a field says of an item's popup.
pub open spec fn popup_at(fields: Fields) -> Result<Option<PopupPatchView>, LuaFault> {
    match table_at(fields, "popup"@) {
        Err(fault) => Err(fault),
        Ok(None) => Ok(None),
        Ok(Some(inner)) => match popup_of_table(inner) {
            Ok(patch) => Ok(Some(patch)),
            Err(fault) => Err(fault),
        },
    }
}

/// A patch that may not be said, over plain values.
pub open spec fn popup_view(patch: Option<PopupPatch>) -> Option<PopupPatchView> {
    match patch {
        Some(patch) => Some(patch@),
        None => None,
    }
}

/// What a field says of an item's popup.
pub fn popup_patch(table: &LuaTable) -> (r: Result<Option<PopupPatch>, LuaError>)
    ensures
        match r {
            Ok(patch) => popup_at(table@.0) == Ok::<Option<PopupPatchView>, LuaFault>(
                popup_view(patch),
            ),
            Err(e) => popup_at(table@.0) == Err::<Option<PopupPatchView>, LuaFault>(e@),
        },
{
    match opt_table(table, "popup") {
        Err(e) => Err(e),
        Ok(None) => Ok(None),
        Ok(Some(inner)) => match popup_from_table(inner) {
            Ok(patch) => Ok(Some(patch)),
            Err(e) => Err(e),
        },
    }
}

/// What a field says an item mirrors. A table would tint it, which there is
/// nothing for, so that it says nothing.
pub open spec fn alias_at(fields: Fields) -> Result<Option<Seq<char>>, LuaFault> {
    match lookup(fields, "alias"@) {
        LuaView::Nil => Ok(None),
        LuaView::Text(t) => Ok(Some(t.text)),
        LuaView::Bytes(why) => Err(not_text(why)),
        LuaView::Table(_, _, _) => Ok(None),
        value => Err(
            LuaFault::Message("`alias` must be a string or a table, got "@ + type_text(value)),
        ),
    }
}

/// What a field says an item mirrors.
pub fn alias_from_table(table: &LuaTable) -> (r: Result<Option<String>, LuaError>)
    ensures
        match r {
            Ok(text) => alias_at(table@.0) == Ok::<Option<Seq<char>>, LuaFault>(text.model()),
            Err(e) => alias_at(table@.0) == Err::<Option<Seq<char>>, LuaFault>(e@),
        },
{
    match table.get("alias") {
        None => Ok(None),
        Some(value) => match value {
            LuaValue::Nil => Ok(None),
            LuaValue::Text(t) => Ok(Some(t.text.clone())),
            LuaValue::Bytes(why) => Err(no_text(why)),
            LuaValue::Table(_, _) => Ok(None),
            _ => Err(
                LuaError::Message(
                    joined("`alias` must be a string or a table, got ", value.kind_of_value()),
                ),
            ),
        },
    }
}

/// What a field says a bracket names.
pub open spec fn members_at(fields: Fields) -> Result<Option<Seq<SelectorView>>, LuaFault> {
    match lookup(fields, "members"@) {
        LuaView::Nil => Ok(None),
        LuaView::Table(_, items, _) => match texts_read(items, TextForm::Text) {
            Err(fault) => Err(fault),
            Ok(texts) => match selectors_read(texts) {
                Ok(selectors) => Ok(Some(selectors)),
                Err(fault) => Err(fault),
            },
        },
        value => Err(refused(value, "Vec<String>"@, Some("expected table"@))),
    }
}

/// Members that may not be said, over plain text.
pub open spec fn members_view(members: Option<Vec<Selector>>) -> Option<Seq<SelectorView>> {
    match members {
        Some(members) => Some(selector_views(members@)),
        None => None,
    }
}

/// What a field says a bracket names.
pub fn opt_members(table: &LuaTable) -> (r: Result<Option<Vec<Selector>>, LuaError>)
    ensures
        match r {
            Ok(members) => members_at(table@.0) == Ok::<Option<Seq<SelectorView>>, LuaFault>(
                members_view(members),
            ),
            Err(e) => members_at(table@.0) == Err::<Option<Seq<SelectorView>>, LuaFault>(e@),
        },
{
    match table.get("members") {
        None => Ok(None),
        Some(value) => match value {
            LuaValue::Nil => Ok(None),
            LuaValue::Table(inner, _) => match read_texts(&inner.items, TextForm::Text) {
                Err(e) => Err(e),
                Ok(texts) => match selectors_from_texts(&texts) {
                    Ok(selectors) => Ok(Some(selectors)),
                    Err(e) => Err(e),
                },
            },
            _ => Err(value.refusal("Vec<String>", Some("expected table".to_owned()))),
        },
    }
}

/// What a table says of the bar.
pub open spec fn bar_patch(fields: Fields) -> Result<BarPatchView, LuaFault> {
    let edge = edge_at(fields);
    let sticky = flag_at(fields, "sticky"@);
    let show_in_fullscreen = flag_at(fields, "show_in_fullscreen"@);
    let notch_width = measure_at(fields, "notch_width"@);
    let notch_offset = measure_at(fields, "notch_offset"@);
    let notch_display_height = measure_at(fields, "notch_display_height"@);
    let padding_left = measure_at(fields, "padding_left"@);
    let padding_right = measure_at(fields, "padding_right"@);
    let display = display_at(fields, "display"@);
    let height = measure_at(fields, "height"@);
    let color = color_at(fields, "color"@);
    let margin = measure_at(fields, "margin"@);
    let y_offset = measure_at(fields, "y_offset"@);
    let corner_radius = measure_at(fields, "corner_radius"@);
    let blur_radius = whole_at(fields, "blur_radius"@, -0x8000_0000, 0x7fff_ffff, "i32"@);
    let hidden = flag_at(fields, "hidden"@);
    let topmost = flag_at(fields, "topmost"@);
    match first_of(fault_of(edge), first_of(fault_of(sticky), first_of(fault_of(show_in_fullscreen), first_of(fault_of(notch_width), first_of(fault_of(notch_offset), first_of(fault_of(notch_display_height), first_of(fault_of(padding_left), first_of(fault_of(padding_right), first_of(fault_of(display), first_of(fault_of(height), first_of(fault_of(color), first_of(fault_of(margin), first_of(fault_of(y_offset), first_of(fault_of(corner_radius), first_of(fault_of(blur_radius), first_of(fault_of(hidden), fault_of(topmost))))))))))))))))) {
        Some(fault) => Err(fault),
        None => Ok(BarPatchView {
            edge: given(edge),
            sticky: change_of(given(sticky)),
            show_in_fullscreen: change_of(given(show_in_fullscreen)),
            notch_width: given(notch_width),
            notch_offset: given(notch_offset),
            notch_display_height: given(notch_display_height),
            padding_left: given(padding_left),
            padding_right: given(padding_right),
            display: given(display),
            height: given(height),
            color: given(color),
            margin: given(margin),
            y_offset: given(y_offset),
            corner_radius: given(corner_radius),
            blur_radius: narrow_i32(given(blur_radius)),
            hidden: change_of(given(hidden)),
            topmost: change_of(given(topmost)),
        }),
    }
}

/// What a table says of the bar.
pub fn bar_patch_from_table(table: &LuaTable) -> (r: Result<BarPatch, LuaError>)
    ensures
        match r {
            Ok(patch) => bar_patch(table@.0) == Ok::<BarPatchView, LuaFault>(patch@),
            Err(e) => bar_patch(table@.0) == Err::<BarPatchView, LuaFault>(e@),
        },
{
    let edge = match opt_edge(table) {
        Ok(value) => value,
        Err(e) => {
            return Err(e);
        },
    };
    let sticky = match opt_bool(table, "sticky") {
        Ok(value) => value,
        Err(e) => {
            return Err(e);
        },
    };
    let show_in_fullscreen = match opt_bool(table, "show_in_fullscreen") {
        Ok(value) => value,
        Err(e) => {
            return Err(e);
        },
    };
    let notch_width = match opt_measure(table, "notch_width") {
        Ok(value) => value,
        Err(e) => {
            return Err(e);
        },
    };
    let notch_offset = match opt_measure(table, "notch_offset") {
        Ok(value) => value,
        Err(e) => {
            return Err(e);
        },
    };
    let notch_display_height = match opt_measure(table, "notch_display_height") {
        Ok(value) => value,
        Err(e) => {
            return Err(e);
        },
    };
    let padding_left = match opt_measure(table, "padding_left") {
        Ok(value) => value,
        Err(e) => {
            return Err(e);
        },
    };
    let padding_right = match opt_measure(table, "padding_right") {
        Ok(value) => value,
        Err(e) => {
            return Err(e);
        },
    };
    let display = match opt_display(table, "display") {
        Ok(value) => value,
        Err(e) => {
            return Err(e);
        },
    };
    let height = match opt_measure(table, "height") {
        Ok(value) => value,
        Err(e) => {
            return Err(e);
        },
    };
    let color = match opt_color(table, "color") {
        Ok(value) => value,
        Err(e) => {
            return Err(e);
        },
    };
    let margin = match opt_measure(table, "margin") {
        Ok(value) => value,
        Err(e) => {
            return Err(e);
        },
    };
    let y_offset = match opt_measure(table, "y_offset") {
        Ok(value) => value,
        Err(e) => {
            return Err(e);
        },
    };
    let corner_radius = match opt_measure(table, "corner_radius") {
        Ok(value) => value,
        Err(e) => {
            return Err(e);
        },
    };
    let blur_radius = match opt_whole(table, "blur_radius", -0x8000_0000, 0x7fff_ffff, "i32") {
        Ok(value) => value,
        Err(e) => {
            return Err(e);
        },
    };
    let blur_radius: Option<i32> = match blur_radius {
        Some(n) => Some(n as i32),
        None => None,
    };
    let hidden = match opt_bool(table, "hidden") {
        Ok(value) => value,
        Err(e) => {
            return Err(e);
        },
    };
    let topmost = match opt_bool(table, "topmost") {
        Ok(value) => value,
        Err(e) => {
            return Err(e);
        },
    };
    Ok(
        BarPatch {
            edge,
            sticky: change(sticky),
            show_in_fullscreen: change(show_in_fullscreen),
            notch_width,
            notch_offset,
            notch_display_height,
            padding_left,
            padding_right,
            display,
            height,
            color,
            margin,
            y_offset,
            corner_radius,
            blur_radius,
            hidden: change(hidden),
            topmost: change(topmost),
        },
    )
}

/// What is said of where an item is, where anything is.
pub open spec fn geometry_said(geometry: GeometryPatchView) -> Option<GeometryPatchView> {
    if geometry.drawing is None && geometry.position is None && geometry.y_offset is None
        && geometry.padding_left is None && geometry.padding_right is None && geometry.width is None
        && geometry.display is None && geometry.background is None {
        None
    } else {
        Some(geometry)
    }
}

/// What is said of what an item runs, where anything is.
pub open spec fn scripting_said(scripting: ScriptingPatchView) -> Option<ScriptingPatchView> {
    if scripting.script is None && scripting.click_script is None && scripting.update_freq is None
        && scripting.updates is None {
        None
    } else {
        Some(scripting)
    }
}

/// What a table says of an item. A table spells where an item is and what it runs
/// flat.
pub open spec fn item_patch(fields: Fields) -> Result<ItemPatchView, LuaFault> {
    let icon = run_at(fields, "icon"@);
    let label = run_at(fields, "label"@);
    let percentage = whole_at(fields, "percentage"@, 0, 255, "u8"@);
    let highlight_color = color_at(fields, "highlight_color"@);
    let popup = popup_at(fields);
    let updates = flag_at(fields, "updates"@);
    let width = measure_at(fields, "width"@);
    let display = display_at(fields, "display"@);
    let background = background_at(fields);
    let padding_left = measure_at(fields, "padding_left"@);
    let padding_right = measure_at(fields, "padding_right"@);
    let y_offset = measure_at(fields, "y_offset"@);
    let position = position_at(fields, "position"@);
    let drawing = toggle_at(fields, "drawing"@);
    let script = text_at(fields, "script"@);
    let click_script = text_at(fields, "click_script"@);
    let alias = alias_at(fields);
    let members = members_at(fields);
    let update_freq = whole_at(fields, "update_freq"@, 0, 0xffff_ffff, "u32"@);
    match first_of(fault_of(icon), first_of(fault_of(label), first_of(fault_of(percentage), first_of(fault_of(highlight_color), first_of(fault_of(popup), first_of(fault_of(updates), first_of(fault_of(width), first_of(fault_of(display), first_of(fault_of(background), first_of(fault_of(padding_left), first_of(fault_of(padding_right), first_of(fault_of(y_offset), first_of(fault_of(position), first_of(fault_of(drawing), first_of(fault_of(script), first_of(fault_of(click_script), first_of(fault_of(alias), first_of(fault_of(members), fault_of(update_freq))))))))))))))))))) {
        Some(fault) => Err(fault),
        None => Ok(ItemPatchView {
            geometry: geometry_said(
                GeometryPatchView {
                    drawing: given(drawing),
                    position: given(position),
                    y_offset: given(y_offset),
                    padding_left: given(padding_left),
                    padding_right: given(padding_right),
                    width: given(width),
                    display: given(display),
                    background: given(background),
                },
            ),
            popup: given(popup),
            icon: given(icon),
            label: given(label),
            scripting: scripting_said(
                ScriptingPatchView {
                    script: given(script),
                    click_script: given(click_script),
                    update_freq: narrow_u32(given(update_freq)),
                    updates: change_of(given(updates)),
                },
            ),
            alias: given(alias),
            members: given(members),
            associated_space: None,
            percentage: narrow_u8(given(percentage)),
            knob: None,
            highlight_color: given(highlight_color),
        }),
    }
}

/// What a table says of an item. A table spells where an item is and what it runs
/// flat.
#[verifier::rlimit(40)]
pub fn item_patch_from_table(table: &LuaTable) -> (r: Result<ItemPatch, LuaError>)
    ensures
        match r {
            Ok(patch) => item_patch(table@.0) == Ok::<ItemPatchView, LuaFault>(patch@),
            Err(e) => item_patch(table@.0) == Err::<ItemPatchView, LuaFault>(e@),
        },
{
    let icon = match run_patch(table, "icon") {
        Ok(value) => value,
        Err(e) => {
            return Err(e);
        },
    };
    let label = match run_patch(table, "label") {
        Ok(value) => value,
        Err(e) => {
            return Err(e);
        },
    };
    let percentage = match opt_whole(table, "percentage", 0, 255, "u8") {
        Ok(value) => value,
        Err(e) => {
            return Err(e);
        },
    };
    let percentage: Option<u8> = match percentage {
        Some(n) => Some(n as u8),
        None => None,
    };
    let highlight_color = match opt_color(table, "highlight_color") {
        Ok(value) => value,
        Err(e) => {
            return Err(e);
        },
    };
    let popup = match popup_patch(table) {
        Ok(value) => value,
        Err(e) => {
            return Err(e);
        },
    };
    let updates = match opt_bool(table, "updates") {
        Ok(value) => value,
        Err(e) => {
            return Err(e);
        },
    };
    let width = match opt_measure(table, "width") {
        Ok(value) => value,
        Err(e) => {
            return Err(e);
        },
    };
    let display = match opt_display(table, "display") {
        Ok(value) => value,
        Err(e) => {
            return Err(e);
        },
    };
    let background = match background_patch(table) {
        Ok(value) => value,
        Err(e) => {
            return Err(e);
        },
    };
    let padding_left = match opt_measure(table, "padding_left") {
        Ok(value) => value,
        Err(e) => {
            return Err(e);
        },
    };
    let padding_right = match opt_measure(table, "padding_right") {
        Ok(value) => value,
        Err(e) => {
            return Err(e);
        },
    };
    let y_offset = match opt_measure(table, "y_offset") {
        Ok(value) => value,
        Err(e) => {
            return Err(e);
        },
    };
    let position = match opt_position(table, "position") {
        Ok(value) => value,
        Err(e) => {
            return Err(e);
        },
    };
    let drawing = match opt_toggle(table, "drawing") {
        Ok(value) => value,
        Err(e) => {
            return Err(e);
        },
    };
    let script = match opt_text(table, "script") {
        Ok(value) => value,
        Err(e) => {
            return Err(e);
        },
    };
    let click_script = match opt_text(table, "click_script") {
        Ok(value) => value,
        Err(e) => {
            return Err(e);
        },
    };
    let alias = match alias_from_table(table) {
        Ok(value) => value,
        Err(e) => {
            return Err(e);
        },
    };
    let members = match opt_members(table) {
        Ok(value) => value,
        Err(e) => {
            return Err(e);
        },
    };
    let update_freq = match opt_whole(table, "update_freq", 0, 0xffff_ffff, "u32") {
        Ok(value) => value,
        Err(e) => {
            return Err(e);
        },
    };
    let update_freq: Option<u32> = match update_freq {
        Some(n) => Some(n as u32),
        None => None,
    };
    let geometry: Option<GeometryPatch> = if drawing.is_none() && position.is_none() && y_offset.is_none() && padding_left.is_none() && padding_right.is_none() && width.is_none() && display.is_none() && background.is_none() {
        None
    } else {
        Some(
            GeometryPatch {
                drawing,
                position,
                y_offset,
                padding_left,
                padding_right,
                width,
                display,
                background,
            },
        )
    };
    let scripting: Option<ScriptingPatch> = if script.is_none() && click_script.is_none() && update_freq.is_none() && updates.is_none() {
        None
    } else {
        Some(
            ScriptingPatch {
                script,
                click_script,
                update_freq,
                updates: change(updates),
            },
        )
    };
    Ok(
        ItemPatch {
            geometry,
            popup,
            icon,
            label,
            scripting,
            alias,
            members,
            associated_space: None,
            percentage,
            knob: None,
            highlight_color,
        },
    )
}

} // verus!
