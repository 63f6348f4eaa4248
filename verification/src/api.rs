//! What a script's calls ask for.
//!
//! A call is turned into the requests it means before anything is sent, and
//! what is answered is turned into what the script sees.

use crate::assoc::{
    holds, lemma_mapped_at, lemma_mapped_names, lemma_mapped_push, lemma_mapped_update, mapped,
    unique,
};
use crate::changes::{MeasureView, Modelled};
use crate::component::{
    copy_selectors, selector_views, ComponentKind, ComponentTag, ComponentView,
};
use crate::convert::{
    bar_patch, bar_patch_from_table, event_name_from_str, event_name_read, item_name_from_str,
    item_patch, item_patch_from_table, item_position_from_table, kind_from_str, kinds_from_value,
    kinds_value, notification_name_from_str, position_at, selector_from_name, texts_read,
    Fields,
};
use crate::error::{lua_fault, ApiError, ApiFault};
use crate::event::{
    carries_nothing, event_kind, is_notification_name, kind_read, Event, EventName, Kind, KindView,
    NotificationName,
};
use crate::kindset::kind_views;
use crate::lua::{
    lemma_lua_fields, lemma_lua_items, lua_fields, lua_items, lua_view, measure_read, no_text,
    not_text, of_argument, refused, text_read, type_text, LuaError, LuaFault, LuaTable, LuaValue,
    LuaView, TextForm,
};
use crate::merge::{deep_merge, laid_fields, laid_items};
use crate::measure::Measure;
use crate::name::{is_item_name, name_fault, selector_read, ItemName, Selector, SelectorView};
use crate::place::{Position, PositionView};
use crate::query::{relative_word, Query, Relative};
use crate::request::{Request, Response};
use crate::state::{BarPatchView, GeometryPatch, GeometryPatchView, ItemPatch, ItemPatchView};
use crate::text::{decimal, decimal_text, joined, joined3, same, text_views};
use crate::vars::Vars;
use vstd::prelude::*;

verus! {

// ---------------------------------------------------------------------------
// Arguments

/// Reads a string, and nothing but.
pub open spec fn string_value(value: LuaView, what: Seq<char>) -> Result<Seq<char>, LuaFault> {
    match value {
        LuaView::Text(t) => Ok(t.text),
        LuaView::Bytes(why) => Err(not_text(why)),
        _ => Err(
            LuaFault::Message(
                "expected "@ + what + (" to be a string, got "@ + type_text(value)),
            ),
        ),
    }
}

/// Reads a string, and nothing but.
pub fn value_to_string(value: &LuaValue, what: &str) -> (r: Result<String, LuaError>)
    ensures
        match r {
            Ok(text) => string_value(value@, what@) == Ok::<Seq<char>, LuaFault>(text@),
            Err(e) => string_value(value@, what@) == Err::<Seq<char>, LuaFault>(e@),
        },
{
    match value {
        LuaValue::Text(t) => Ok(t.text.clone()),
        LuaValue::Bytes(why) => Err(no_text(why)),
        _ => Err(
            LuaError::Message(
                joined3(
                    "expected ",
                    what,
                    &joined(" to be a string, got ", value.kind_of_value()),
                ),
            ),
        ),
    }
}

/// A table's fields and items.
pub type TableView = (Fields, Seq<LuaView>);

/// Reads a table, or nothing.
pub open spec fn opt_table_value(value: LuaView, what: Seq<char>) -> Result<
    Option<TableView>,
    LuaFault,
> {
    match value {
        LuaView::Nil => Ok(None),
        LuaView::Table(fields, items, _) => Ok(Some((fields, items))),
        _ => Err(
            LuaFault::Message("expected "@ + what + (" to be a table, got "@ + type_text(value))),
        ),
    }
}

/// A table that may not be there.
pub open spec fn opt_table_view(table: Option<&LuaTable>) -> Option<TableView> {
    match table {
        Some(table) => Some(table@),
        None => None,
    }
}

/// Reads a table, or nothing.
pub fn value_to_opt_table<'a>(value: &'a LuaValue, what: &str) -> (r: Result<
    Option<&'a LuaTable>,
    LuaError,
>)
    ensures
        match r {
            Ok(table) => opt_table_value(value@, what@) == Ok::<Option<TableView>, LuaFault>(
                opt_table_view(table),
            ),
            Err(e) => opt_table_value(value@, what@) == Err::<Option<TableView>, LuaFault>(e@),
        },
{
    match value {
        LuaValue::Nil => Ok(None),
        LuaValue::Table(table, _) => Ok(Some(table)),
        _ => Err(
            LuaError::Message(
                joined3(
                    "expected ",
                    what,
                    &joined(" to be a table, got ", value.kind_of_value()),
                ),
            ),
        ),
    }
}

/// The names a value is: one, or a list of them.
pub open spec fn names_value(value: LuaView, what: Seq<char>) -> Result<
    Seq<Seq<char>>,
    LuaFault,
> {
    match value {
        LuaView::Text(t) => Ok(seq![t.text]),
        LuaView::Bytes(why) => Err(not_text(why)),
        LuaView::Table(_, items, _) => texts_read(items, TextForm::Bytes),
        _ => Err(
            LuaFault::Message(
                what + (" takes an item name or a table of them, got "@ + type_text(value)),
            ),
        ),
    }
}

/// Reads one name, or a list of them.
pub fn names_from_value(value: &LuaValue, what: &str) -> (r: Result<Vec<String>, LuaError>)
    ensures
        match r {
            Ok(names) => names_value(value@, what@) == Ok::<Seq<Seq<char>>, LuaFault>(
                text_views(names@),
            ),
            Err(e) => names_value(value@, what@) == Err::<Seq<Seq<char>>, LuaFault>(e@),
        },
{
    match value {
        LuaValue::Text(t) => {
            let names = vec![t.text.clone()];
            proof {
                assert(text_views(names@) =~= seq![t.text@]);
            }
            Ok(names)
        },
        LuaValue::Bytes(why) => Err(no_text(why)),
        LuaValue::Table(table, _) => crate::convert::read_texts(&table.items, TextForm::Bytes),
        _ => Err(
            LuaError::Message(
                joined(
                    what,
                    &joined(
                        " takes an item name or a table of them, got ",
                        value.kind_of_value(),
                    ),
                ),
            ),
        ),
    }
}

/// What a bracket is to name.
pub open spec fn members_value(value: LuaView) -> Result<Seq<SelectorView>, LuaFault> {
    match value {
        LuaView::Table(_, items, _) => members_list(items),
        _ => Err(
            LuaFault::Message(
                "bracket members must be a table of item names, got "@ + type_text(value),
            ),
        ),
    }
}

/// What a list names, entry by entry.
pub open spec fn members_list(items: Seq<LuaView>) -> Result<Seq<SelectorView>, LuaFault>
    decreases items.len(),
{
    if items.len() == 0 {
        Ok(Seq::empty())
    } else {
        match members_list(items.drop_last()) {
            Err(fault) => Err(fault),
            Ok(before) => match text_read(items.last(), TextForm::Bytes) {
                Err(fault) => Err(fault),
                Ok(text) => match selector_read(text) {
                    Ok(selector) => Ok(before.push(selector)),
                    Err(fault) => Err(LuaFault::Message(crate::error::name_fault_text(fault))),
                },
            },
        }
    }
}

/// Once reading has failed, more entries do not mend it.
proof fn lemma_members_stay_refused(items: Seq<LuaView>, upto: int)
    requires
        0 <= upto <= items.len(),
        members_list(items.take(upto)) is Err,
    ensures
        members_list(items) == members_list(items.take(upto)),
    decreases items.len(),
{
    if upto < items.len() {
        assert(items.drop_last().take(upto) =~= items.take(upto));
        lemma_members_stay_refused(items.drop_last(), upto);
    } else {
        assert(items.take(upto) =~= items);
    }
}

/// Reads what a bracket is to name: names and patterns, unresolved.
pub fn members_from_value(value: &LuaValue) -> (r: Result<Vec<Selector>, LuaError>)
    ensures
        match r {
            Ok(members) => members_value(value@) == Ok::<Seq<SelectorView>, LuaFault>(
                selector_views(members@),
            ),
            Err(e) => members_value(value@) == Err::<Seq<SelectorView>, LuaFault>(e@),
        },
{
    match value {
        LuaValue::Table(table, shown) => {
            let ghost all = lua_items(table.items@);
            let mut out: Vec<Selector> = Vec::new();
            let mut i: usize = 0;
            proof {
                lemma_lua_items(table.items@);
                assert(all.take(0) =~= Seq::<LuaView>::empty());
                assert(selector_views(out@) =~= Seq::<SelectorView>::empty());
            }
            while i < table.items.len()
                invariant
                    i <= table.items@.len(),
                    all == lua_items(table.items@),
                    all.len() == table.items@.len(),
                    value@ == LuaView::Table(lua_fields(table.fields@), all, shown@),
                    members_list(all.take(i as int)) == Ok::<Seq<SelectorView>, LuaFault>(
                        selector_views(out@),
                    ),
                decreases table.items@.len() - i,
            {
                proof {
                    lemma_lua_items(table.items@);
                    assert(lua_items(table.items@)[i as int] == lua_view(table.items@[i as int]));
                    assert(all.take(i + 1).drop_last() =~= all.take(i as int));
                    assert(all.take(i + 1).last() == all[i as int]);
                }
                let text = match table.items[i].read_text(TextForm::Bytes) {
                    Ok(text) => text,
                    Err(e) => {
                        proof {
                            lemma_members_stay_refused(all, i + 1);
                        }
                        return Err(e);
                    },
                };
                match Selector::parse(&text) {
                    Ok(selector) => {
                        let ghost before = out@;
                        let ghost s = selector@;
                        out.push(selector);
                        proof {
                            assert(selector_views(out@) =~= selector_views(before).push(s));
                        }
                    },
                    Err(e) => {
                        proof {
                            lemma_members_stay_refused(all, i + 1);
                        }
                        return Err(LuaError::Message(e.to_string()));
                    },
                }
                i = i + 1;
            }
            proof {
                assert(all.take(all.len() as int) =~= all);
            }
            Ok(out)
        },
        _ => Err(
            LuaError::Message(
                joined(
                    "bracket members must be a table of item names, got ",
                    value.kind_of_value(),
                ),
            ),
        ),
    }
}

/// The side of a reference an item moves to.
pub fn relative_from_str(text: &str) -> (r: Result<Relative, LuaError>)
    ensures
        match r {
            Ok(relative) => relative_word(text@) == Some(relative),
            Err(e) => relative_word(text@) is None && e@ == LuaFault::Message(
                "rsbar.move takes \"before\" or \"after\", got \""@ + text@ + "\""@,
            ),
        },
{
    match Relative::parse(text) {
        Some(relative) => Ok(relative),
        None => Err(
            LuaError::Message(
                joined3("rsbar.move takes \"before\" or \"after\", got \"", text, "\""),
            ),
        ),
    }
}

// ---------------------------------------------------------------------------
// Property paths

/// The groups indexed on the way to a property.
#[derive(Debug, Clone, PartialEq, Eq)]
pub struct PropertyPath(pub Vec<String>);

impl View for PropertyPath {
    type V = Seq<Seq<char>>;

    open spec fn view(&self) -> Seq<Seq<char>> {
        text_views(self.0@)
    }
}

impl PropertyPath {
    /// The item itself.
    pub fn new() -> (r: PropertyPath)
        ensures
            r@ == Seq::<Seq<char>>::empty(),
    {
        let r = PropertyPath(Vec::new());
        assert(r@ =~= Seq::<Seq<char>>::empty());
        r
    }

    /// One group further.
    pub fn child(&self, key: &str) -> (r: PropertyPath)
        ensures
            r@ == self@.push(key@),
    {
        let mut segments: Vec<String> = Vec::new();
        let mut i: usize = 0;
        while i < self.0.len()
            invariant
                i <= self.0@.len(),
                text_views(segments@) =~= self@.take(i as int),
            decreases self.0@.len() - i,
        {
            let ghost before = segments@;
            segments.push(self.0[i].clone());
            proof {
                assert(text_views(segments@) =~= text_views(before).push(self.0@[i as int]@));
            }
            i = i + 1;
        }
        let ghost before = segments@;
        segments.push(key.to_owned());
        proof {
            assert(self@.take(self@.len() as int) =~= self@);
            assert(text_views(segments@) =~= text_views(before).push(key@));
        }
        PropertyPath(segments)
    }
}

/// The table that says one property under some groups. A table made on the way
/// is shown as is said.
pub open spec fn wrapped(
    groups: Seq<Seq<char>>,
    key: Seq<char>,
    value: LuaView,
    shown: Seq<char>,
) -> Fields
    decreases groups.len(),
{
    if groups.len() == 0 {
        seq![(key, value)]
    } else {
        wrapped(
            groups.drop_last(),
            groups.last(),
            LuaView::Table(seq![(key, value)], Seq::empty(), shown),
            shown,
        )
    }
}

/// The table that says one property under some groups. A table made on the way
/// is shown as is said.
fn wrap(groups: &PropertyPath, key: &str, value: LuaValue, shown: &str) -> (r: LuaTable)
    ensures
        r@.0 == wrapped(groups@, key@, value@, shown@),
{
    let mut table = single(key, value);
    let mut i: usize = groups.0.len();
    let ghost all = groups@;
    let ghost whole = wrapped(groups@, key@, value@, shown@);
    let ghost mut last_key: Seq<char> = key@;
    let ghost mut last_value: LuaView = value@;
    proof {
        assert(all.take(all.len() as int) =~= all);
    }
    while i > 0
        invariant
            i <= groups.0@.len(),
            all == groups@,
            all.len() == groups.0@.len(),
            table@ == (seq![(last_key, last_value)], Seq::<LuaView>::empty()),
            whole == wrapped(all.take(i as int), last_key, last_value, shown@),
        decreases i,
    {
        i = i - 1;
        let ghost inner = LuaView::Table(
            seq![(last_key, last_value)],
            Seq::<LuaView>::empty(),
            shown@,
        );
        proof {
            assert(all.take(i + 1).drop_last() =~= all.take(i as int));
            assert(all.take(i + 1).last() == all[i as int]);
            assert(all[i as int] == groups.0@[i as int]@);
            last_key = all[i as int];
            last_value = inner;
        }
        table = single(&groups.0[i], LuaValue::Table(table, shown.to_owned()));
    }
    proof {
        assert(all.take(0).len() == 0);
    }
    table
}

/// A table of one field.
fn single(key: &str, value: LuaValue) -> (r: LuaTable)
    ensures
        r@ == (seq![(key@, value@)], Seq::<LuaView>::empty()),
{
    let fields = vec![(key.to_owned(), value)];
    let r = LuaTable { fields, items: Vec::new() };
    proof {
        lemma_lua_fields(r.fields@);
        assert(lua_fields(r.fields@) =~= seq![(key@, value@)]);
        assert(lua_items(r.items@) =~= Seq::<LuaView>::empty());
    }
    r
}

/// What assigning one property says of an item: the very same as setting a
/// table that holds nothing else.
pub fn item_patch_at(groups: &PropertyPath, key: &str, value: LuaValue, shown: &str) -> (r: Result<
    ItemPatch,
    LuaError,
>)
    ensures
        match r {
            Ok(patch) => item_patch(wrapped(groups@, key@, value@, shown@)) == Ok::<
                ItemPatchView,
                LuaFault,
            >(patch@),
            Err(e) => item_patch(wrapped(groups@, key@, value@, shown@)) == Err::<ItemPatchView, LuaFault>(
                e@,
            ),
        },
{
    let table = wrap(groups, key, value, shown);
    item_patch_from_table(&table)
}

// ---------------------------------------------------------------------------
// Adding

/// What sits between the name of a component and its options.
#[derive(Debug, Clone, Copy, PartialEq, Eq, Structural)]
pub enum Extra {
    Nothing,
    /// What a bracket names.
    Members,
    /// How wide it is.
    Width,
}

/// Whether a value could be what sits between the name and the options.
pub open spec fn extra_claims(extra: Extra, value: LuaView) -> bool {
    match extra {
        Extra::Nothing => value is Nil || value is Table,
        Extra::Members => value is Table,
        Extra::Width => value is Integer || value is Number,
    }
}

/// What sits between the name and the options, in words.
pub open spec fn extra_text(extra: Extra) -> Seq<char> {
    match extra {
        Extra::Nothing => "an options table"@,
        Extra::Members => "a table of members"@,
        Extra::Width => "a width"@,
    }
}

impl Extra {
    /// Whether a value could be this.
    pub fn claims(self, value: &LuaValue) -> (r: bool)
        ensures
            r == extra_claims(self, value@),
    {
        match self {
            Extra::Nothing => match value {
                LuaValue::Nil => true,
                LuaValue::Table(_, _) => true,
                _ => false,
            },
            Extra::Members => match value {
                LuaValue::Table(_, _) => true,
                _ => false,
            },
            Extra::Width => match value {
                LuaValue::Integer(_, _) => true,
                LuaValue::Number(_) => true,
                _ => false,
            },
        }
    }

    /// What this is, in words.
    pub fn describe(self) -> (r: &'static str)
        ensures
            r@ == extra_text(self),
    {
        match self {
            Extra::Nothing => "an options table",
            Extra::Members => "a table of members",
            Extra::Width => "a width",
        }
    }
}

/// How a kind of component is added.
#[derive(Debug, Clone, Copy, PartialEq, Eq, Structural)]
pub struct KindSpec {
    pub tag: ComponentTag,
    pub extra: Extra,
    /// Whether its name is what it mirrors.
    pub mirrors_its_own_name: bool,
}

/// What there is to add.
#[derive(Debug, Clone, Copy, PartialEq, Eq, Structural)]
pub enum Build {
    Component(KindSpec),
    Event,
}

/// What a word adds.
pub open spec fn build_named(kind: Seq<char>) -> Option<Build> {
    if kind == "item"@ {
        Some(component_of(ComponentTag::Item))
    } else if kind == "alias"@ {
        Some(component_of(ComponentTag::Alias))
    } else if kind == "bracket"@ {
        Some(component_of(ComponentTag::Bracket))
    } else if kind == "space"@ {
        Some(component_of(ComponentTag::Space))
    } else if kind == "graph"@ {
        Some(component_of(ComponentTag::Graph))
    } else if kind == "slider"@ {
        Some(component_of(ComponentTag::Slider))
    } else if kind == "event"@ {
        Some(Build::Event)
    } else {
        None
    }
}

/// How a component is added.
pub open spec fn component_of(tag: ComponentTag) -> Build {
    Build::Component(
        KindSpec {
            tag,
            extra: match tag {
                ComponentTag::Bracket => Extra::Members,
                ComponentTag::Graph => Extra::Width,
                ComponentTag::Slider => Extra::Width,
                _ => Extra::Nothing,
            },
            mirrors_its_own_name: tag == ComponentTag::Alias,
        },
    )
}

/// What nothing can draw yet of a component.
pub open spec fn tag_gap(tag: ComponentTag) -> Option<Seq<char>> {
    match tag {
        ComponentTag::Space => Some("nothing draws a space's own selected highlight yet"@),
        ComponentTag::Graph => Some("nothing plots a graph yet"@),
        ComponentTag::Slider => Some("nothing draws a slider's track or knob yet"@),
        _ => None,
    }
}

/// What nothing can draw yet of a component.
pub fn gap_of(tag: ComponentTag) -> (r: Option<&'static str>)
    ensures
        match r {
            Some(gap) => tag_gap(tag) == Some(gap@),
            None => tag_gap(tag) is None,
        },
{
    match tag {
        ComponentTag::Space => Some("nothing draws a space's own selected highlight yet"),
        ComponentTag::Graph => Some("nothing plots a graph yet"),
        ComponentTag::Slider => Some("nothing draws a slider's track or knob yet"),
        _ => None,
    }
}

/// How a component is added.
fn spec_of(tag: ComponentTag) -> (r: KindSpec)
    ensures
        Build::Component(r) == component_of(tag),
{
    KindSpec {
        tag,
        extra: match tag {
            ComponentTag::Bracket => Extra::Members,
            ComponentTag::Graph => Extra::Width,
            ComponentTag::Slider => Extra::Width,
            _ => Extra::Nothing,
        },
        mirrors_its_own_name: match tag {
            ComponentTag::Alias => true,
            _ => false,
        },
    }
}

/// What a word adds.
pub fn spec_for(kind: &str) -> (r: Option<Build>)
    ensures
        r == build_named(kind@),
{
    if same(kind, "item") {
        Some(Build::Component(spec_of(ComponentTag::Item)))
    } else if same(kind, "alias") {
        Some(Build::Component(spec_of(ComponentTag::Alias)))
    } else if same(kind, "bracket") {
        Some(Build::Component(spec_of(ComponentTag::Bracket)))
    } else if same(kind, "space") {
        Some(Build::Component(spec_of(ComponentTag::Space)))
    } else if same(kind, "graph") {
        Some(Build::Component(spec_of(ComponentTag::Graph)))
    } else if same(kind, "slider") {
        Some(Build::Component(spec_of(ComponentTag::Slider)))
    } else if same(kind, "event") {
        Some(Build::Event)
    } else {
        None
    }
}

/// Whichever of two trailing values is a table, the first before the second.
pub open spec fn trailing(first: LuaView, second: LuaView) -> LuaView {
    if first is Table {
        first
    } else if second is Table {
        second
    } else {
        LuaView::Nil
    }
}

/// Whether taking the trailing table skips something there is nowhere to put.
pub open spec fn skips(first: LuaView, second: LuaView) -> bool {
    !(first is Table) && second is Table && !(first is Nil)
}

/// Whichever of two trailing values is a table, and whether that skips
/// something there is nowhere to put.
pub fn trailing_opts(first: &LuaValue, second: &LuaValue) -> (r: (LuaValue, bool))
    ensures
        r.0@ == trailing(first@, second@),
        r.1 == skips(first@, second@),
{
    match first {
        LuaValue::Table(_, _) => (first.copied(), false),
        LuaValue::Nil => match second {
            LuaValue::Table(_, _) => (second.copied(), false),
            _ => (LuaValue::Nil, false),
        },
        _ => match second {
            LuaValue::Table(_, _) => (second.copied(), true),
            _ => (LuaValue::Nil, false),
        },
    }
}

/// Options laid over what every addition is given.
pub open spec fn merged_with(
    defaults: Option<TableView>,
    opts: Option<TableView>,
    made: Seq<char>,
) -> TableView {
    match (defaults, opts) {
        (Some(base), Some(overlay)) => (
            laid_fields(base.0, overlay.0, made),
            laid_items(base.1, overlay.1, made),
        ),
        (Some(base), None) => base,
        (None, Some(overlay)) => overlay,
        (None, None) => (Seq::empty(), Seq::empty()),
    }
}

/// Options laid over what every addition is given.
pub fn merged_opts(defaults: &Option<LuaTable>, opts: Option<&LuaTable>, made: &str) -> (r: LuaTable)
    ensures
        r@ == merged_with(
            match *defaults {
                Some(table) => Some(table@),
                None => None,
            },
            opt_table_view(opts),
            made@,
        ),
{
    match defaults {
        Some(base) => match opts {
            Some(overlay) => deep_merge(base, overlay, made),
            None => base.copied(),
        },
        None => match opts {
            Some(overlay) => overlay.copied(),
            None => LuaTable::new(),
        },
    }
}

/// What adding keeps between calls.
pub struct AddView {
    /// What every addition is given.
    pub defaults: Option<TableView>,
    /// How many of each kind were added without a name.
    pub anonymous: Map<Seq<char>, u64>,
}

/// How many of a kind were added without a name.
pub open spec fn counted(anonymous: Map<Seq<char>, u64>, kind: Seq<char>) -> u64 {
    if anonymous.contains_key(kind) {
        anonymous[kind]
    } else {
        0
    }
}

/// The name the next one of a kind gets.
pub open spec fn next_name(anonymous: Map<Seq<char>, u64>, kind: Seq<char>) -> Seq<char> {
    kind + "."@ + decimal_text((counted(anonymous, kind) + 1) as nat)
}

/// What adding keeps after one of a kind is named.
pub open spec fn counted_on(v: AddView, kind: Seq<char>) -> AddView {
    AddView {
        anonymous: v.anonymous.insert(kind, (counted(v.anonymous, kind) + 1) as u64),
        ..v
    }
}

/// What a call names, and what follows the name.
pub struct Named {
    pub name: Seq<char>,
    pub extra: LuaView,
    pub opts: LuaView,
}

/// What a call names: the second argument where it is a string, and else a
/// name of its own where the second argument could be what follows a name.
pub open spec fn named(
    v: AddView,
    kind: Seq<char>,
    extra: Extra,
    a2: LuaView,
    a3: LuaView,
    a4: LuaView,
) -> Result<Named, LuaFault> {
    match a2 {
        LuaView::Text(t) => Ok(Named { name: t.text, extra: a3, opts: a4 }),
        LuaView::Bytes(why) => Err(not_text(why)),
        _ => if extra_claims(extra, a2) {
            Ok(Named { name: next_name(v.anonymous, kind), extra: a2, opts: a3 })
        } else {
            Err(
                LuaFault::Message(
                    "add(\""@ + kind + ("\", ...)'s second argument must be a name or "@
                        + extra_text(extra) + (", got "@ + type_text(a2))),
                ),
            )
        },
    }
}

/// Whether a call leaves the name out.
pub open spec fn unnamed(extra: Extra, a2: LuaView) -> bool {
    !(a2 is Text) && !(a2 is Bytes) && extra_claims(extra, a2)
}

/// What an addition comes to.
pub struct PlanView {
    pub name: Seq<char>,
    pub component: ComponentView,
    /// What is set once it is added, or why that cannot be read.
    pub patch: Result<ItemPatchView, LuaFault>,
}

/// The component a call adds.
pub open spec fn component_made(
    tag: ComponentTag,
    name: Seq<char>,
    position: PositionView,
    members: Seq<SelectorView>,
) -> ComponentView {
    if tag == ComponentTag::Bracket {
        ComponentView::Bracket(name, members)
    } else {
        ComponentView::Placed(tag, name, position)
    }
}

/// A patch that says nothing of where an item is.
pub open spec fn unsaid_geometry() -> GeometryPatchView {
    GeometryPatchView {
        drawing: None,
        position: None,
        y_offset: None,
        padding_left: None,
        padding_right: None,
        width: None,
        display: None,
        background: None,
    }
}

/// What is set once a component is added: what its options say, and with that
/// what the call itself says of it.
pub open spec fn finished(
    patch: ItemPatchView,
    spec: KindSpec,
    name: Seq<char>,
    members: Seq<SelectorView>,
    extra: LuaView,
) -> Result<ItemPatchView, LuaFault> {
    let aliased = if spec.mirrors_its_own_name && patch.alias is None {
        ItemPatchView { alias: Some(name), ..patch }
    } else {
        patch
    };
    let membered = if spec.extra == Extra::Members {
        ItemPatchView { members: Some(members), ..aliased }
    } else {
        aliased
    };
    if spec.extra == Extra::Width {
        let geometry = match membered.geometry {
            Some(geometry) => geometry,
            None => unsaid_geometry(),
        };
        if geometry.width is Some {
            Ok(ItemPatchView { geometry: Some(geometry), ..membered })
        } else {
            match measure_read(extra, "f64"@) {
                Ok(width) => Ok(
                    ItemPatchView {
                        geometry: Some(GeometryPatchView { width: Some(width), ..geometry }),
                        ..membered
                    },
                ),
                Err(fault) => Err(fault),
            }
        }
    } else {
        Ok(membered)
    }
}

/// What an addition comes to, given what it names.
pub open spec fn planned(
    v: AddView,
    spec: KindSpec,
    call: Named,
    made: Seq<char>,
) -> Result<PlanView, LuaFault> {
    let opts = if spec.extra == Extra::Nothing {
        trailing(call.extra, call.opts)
    } else {
        call.opts
    };
    if !is_item_name(call.name) {
        Err(lua_fault(ApiFault::InvalidName(call.name, name_fault(call.name))))
    } else {
        match opt_table_value(opts, "add options"@) {
            Err(fault) => Err(fault),
            Ok(table) => {
                let merged = merged_with(v.defaults, table, made);
                match position_at(merged.0, "position"@) {
                    Err(fault) => Err(fault),
                    Ok(said) => {
                        let position = match said {
                            Some(position) => position,
                            None => PositionView::Left,
                        };
                        match members_said(spec, call.extra) {
                            Err(fault) => Err(fault),
                            Ok(members) => Ok(
                                PlanView {
                                    name: call.name,
                                    component: component_made(
                                        spec.tag,
                                        call.name,
                                        position,
                                        members,
                                    ),
                                    patch: match item_patch(merged.0) {
                                        Err(fault) => Err(fault),
                                        Ok(patch) => finished(
                                            patch,
                                            spec,
                                            call.name,
                                            members,
                                            call.extra,
                                        ),
                                    },
                                },
                            ),
                        }
                    },
                }
            },
        }
    }
}

/// What a call says a component names, which only a bracket does.
pub open spec fn members_said(spec: KindSpec, extra: LuaView) -> Result<
    Seq<SelectorView>,
    LuaFault,
> {
    if spec.extra == Extra::Members {
        members_value(extra)
    } else {
        Ok(Seq::empty())
    }
}

/// What an addition comes to.
#[derive(Debug)]
pub struct Plan {
    pub name: ItemName,
    pub component: ComponentKind,
    /// What is set once it is added, or why that cannot be read.
    pub patch: Result<ItemPatch, LuaError>,
    /// What nothing can draw yet of it.
    pub gap: Option<&'static str>,
    /// Whether nothing is known of the kind, so that it is a plain item.
    pub unknown: bool,
    /// Whether an argument was skipped that there is nowhere to put.
    pub skipped: bool,
}

/// What reading an item's patch gave, over plain values.
pub open spec fn patch_result(read: Result<ItemPatch, LuaError>) -> Result<
    ItemPatchView,
    LuaFault,
> {
    match read {
        Ok(patch) => Ok(patch@),
        Err(e) => Err(e@),
    }
}

impl View for Plan {
    type V = PlanView;

    open spec fn view(&self) -> PlanView {
        PlanView {
            name: self.name@,
            component: self.component@,
            patch: patch_result(self.patch),
        }
    }
}

/// What a call to add comes to.
#[derive(Debug)]
pub enum Addition {
    Component(Plan),
    /// A custom event to declare, and what it is bridged from.
    Event { name: EventName, notification: Option<NotificationName> },
}

/// The event a call declares.
pub open spec fn event_declared(a2: LuaView, a3: LuaView) -> Result<
    (Seq<char>, Option<Seq<char>>),
    LuaFault,
> {
    match string_value(a2, "event name"@) {
        Err(fault) => Err(fault),
        Ok(text) => match event_name_read(text) {
            Err(fault) => Err(lua_fault(ApiFault::InvalidEventName(text, fault))),
            Ok(name) => match a3 {
                LuaView::Nil => Ok((name, None)),
                _ => match string_value(a3, "notification name"@) {
                    Err(fault) => Err(fault),
                    Ok(other) => if is_notification_name(other) {
                        Ok((name, Some(other)))
                    } else {
                        Err(lua_fault(ApiFault::InvalidNotificationName(other, other)))
                    },
                },
            },
        },
    }
}

/// What adding keeps between calls.
#[derive(Debug)]
pub struct AddContext {
    defaults: Option<LuaTable>,
    anonymous: Vec<(String, u64)>,
}

/// Counters as pairs.
spec fn counter_pairs(anonymous: Seq<(String, u64)>) -> Seq<(Seq<char>, u64)> {
    anonymous.map_values(|p: (String, u64)| (p.0@, p.1))
}

impl View for AddContext {
    type V = AddView;

    closed spec fn view(&self) -> AddView {
        AddView {
            defaults: match self.defaults {
                Some(table) => Some(table@),
                None => None,
            },
            anonymous: mapped(counter_pairs(self.anonymous@)),
        }
    }
}

impl AddContext {
    #[verifier::type_invariant]
    spec fn inv(self) -> bool {
        unique(counter_pairs(self.anonymous@))
    }

    /// Nothing kept.
    pub fn new() -> (r: AddContext)
        ensures
            r@.defaults is None,
            r@.anonymous == Map::<Seq<char>, u64>::empty(),
    {
        let r = AddContext { defaults: None, anonymous: Vec::new() };
        assert(counter_pairs(r.anonymous@) =~= Seq::<(Seq<char>, u64)>::empty());
        r
    }

    /// Gives every addition from here on some options, in place of any it was
    /// given before.
    pub fn set_defaults(&mut self, opts: LuaTable)
        ensures
            final(self)@ == (AddView { defaults: Some(opts@), ..old(self)@ }),
    {
        proof {
            use_type_invariant(&*self);
        }
        self.defaults = Some(opts);
    }

    /// Where a kind is counted.
    fn find(&self, kind: &str) -> (r: Option<usize>)
        ensures
            match r {
                Some(i) => i < self.anonymous@.len() && counter_pairs(self.anonymous@)[i as int].0
                    == kind@,
                None => !holds(counter_pairs(self.anonymous@), kind@),
            },
    {
        let ghost pairs = counter_pairs(self.anonymous@);
        let mut i: usize = 0;
        while i < self.anonymous.len()
            invariant
                i <= self.anonymous@.len(),
                pairs == counter_pairs(self.anonymous@),
                forall|j: int| 0 <= j < i ==> #[trigger] pairs[j].0 != kind@,
            decreases self.anonymous@.len() - i,
        {
            if same(&self.anonymous[i].0, kind) {
                return Some(i);
            }
            i = i + 1;
        }
        None
    }

    /// A name for one of a kind that was given none: counted for each kind
    /// apart.
    pub fn anonymous_name(&mut self, kind: &str) -> (r: String)
        requires
            counted(old(self)@.anonymous, kind@) < u64::MAX,
        ensures
            r@ == next_name(old(self)@.anonymous, kind@),
            final(self)@ == counted_on(old(self)@, kind@),
    {
        proof {
            use_type_invariant(&*self);
            lemma_mapped_names(counter_pairs(self.anonymous@), kind@);
        }
        let ghost pairs = counter_pairs(self.anonymous@);
        let found = self.find(kind);
        let mut anonymous: Vec<(String, u64)> = Vec::new();
        std::mem::swap(&mut anonymous, &mut self.anonymous);
        let count: u64 = match found {
            Some(i) => {
                proof {
                    lemma_mapped_at(pairs, i as int);
                }
                let count: u64 = anonymous[i].1 + 1;
                anonymous.set(i, (kind.to_owned(), count));
                proof {
                    assert(counter_pairs(anonymous@) =~= pairs.update(i as int, (kind@, count)));
                    lemma_mapped_update(pairs, i as int, count);
                    crate::providers::lemma_unique_update(pairs, i as int, count);
                }
                count
            },
            None => {
                anonymous.push((kind.to_owned(), 1));
                proof {
                    assert(counter_pairs(anonymous@) =~= pairs.push((kind@, 1u64)));
                    lemma_mapped_push(pairs, (kind@, 1u64));
                    crate::providers::lemma_unique_push(pairs, (kind@, 1u64));
                }
                1
            },
        };
        self.anonymous = anonymous;
        let number = decimal(count);
        joined3(kind, ".", &number)
    }

    /// What a call to add comes to.
    ///
    /// A name may be left out wherever the second argument could be what
    /// follows one. A kind nothing is known of is added as a plain item. A table
    /// made on the way is shown as is said.
    pub fn add(
        &mut self,
        kind: &str,
        a2: &LuaValue,
        a3: &LuaValue,
        a4: &LuaValue,
        made: &str,
    ) -> (r: Result<Addition, LuaError>)
        requires
            counted(old(self)@.anonymous, kind@) < u64::MAX,
        ensures
            match spec_used(kind@) {
                Build::Event => {
                    &&& final(self)@ == old(self)@
                    &&& match r {
                        Ok(Addition::Event { name, notification }) => event_declared(a2@, a3@)
                            == Ok::<(Seq<char>, Option<Seq<char>>), LuaFault>(
                            (name@, crate::declared::notification_view(notification)),
                        ),
                        Ok(_) => false,
                        Err(e) => event_declared(a2@, a3@) == Err::<
                            (Seq<char>, Option<Seq<char>>),
                            LuaFault,
                        >(e@),
                    }
                },
                Build::Component(spec) => {
                    &&& final(self)@ == (if unnamed(spec.extra, a2@) {
                        counted_on(old(self)@, kind@)
                    } else {
                        old(self)@
                    })
                    &&& match named(old(self)@, kind@, spec.extra, a2@, a3@, a4@) {
                        Err(fault) => r matches Err(e) && e@ == fault,
                        Ok(call) => match r {
                            Ok(Addition::Component(plan)) => planned(old(self)@, spec, call, made@)
                                == Ok::<PlanView, LuaFault>(plan@) && plan.unknown == (build_named(
                                kind@,
                            ) is None) && plan.skipped == (spec.extra == Extra::Nothing && skips(
                                call.extra,
                                call.opts,
                            )) && (match plan.gap {
                                Some(gap) => tag_gap(spec.tag) == Some(gap@),
                                None => tag_gap(spec.tag) is None,
                            }),
                            Ok(_) => false,
                            Err(e) => planned(old(self)@, spec, call, made@) == Err::<
                                PlanView,
                                LuaFault,
                            >(e@),
                        },
                    }
                },
            },
    {
        let found = spec_for(kind);
        let build = match found {
            Some(build) => build,
            None => Build::Component(spec_of(ComponentTag::Item)),
        };
        let unknown = found.is_none();
        match build {
            Build::Event => add_event(a2, a3),
            Build::Component(spec) => {
                match a2 {
                    LuaValue::Text(t) => self.plan(spec, &t.text, a3, a4, made, unknown),
                    LuaValue::Bytes(why) => Err(no_text(why)),
                    _ => {
                        if spec.extra.claims(a2) {
                            let name = self.anonymous_name(kind);
                            self.plan(spec, &name, a2, a3, made, unknown)
                        } else {
                            Err(
                                LuaError::Message(
                                    joined3(
                                        "add(\"",
                                        kind,
                                        &joined3(
                                            "\", ...)'s second argument must be a name or ",
                                            spec.extra.describe(),
                                            &joined(", got ", a2.kind_of_value()),
                                        ),
                                    ),
                                ),
                            )
                        }
                    },
                }
            },
        }
    }

    /// What an addition comes to, given what it names.
    fn plan(
        &self,
        spec: KindSpec,
        name: &str,
        extra: &LuaValue,
        opts: &LuaValue,
        made: &str,
        unknown: bool,
    ) -> (r: Result<Addition, LuaError>)
        ensures
            match r {
                Ok(Addition::Component(plan)) => planned(
                    self@,
                    spec,
                    (Named { name: name@, extra: extra@, opts: opts@ }),
                    made@,
                ) == Ok::<PlanView, LuaFault>(plan@) && plan.unknown == unknown && plan.skipped == (
                spec.extra == Extra::Nothing && skips(extra@, opts@)) && (match plan.gap {
                    Some(gap) => tag_gap(spec.tag) == Some(gap@),
                    None => tag_gap(spec.tag) is None,
                }),
                Ok(_) => false,
                Err(e) => planned(
                    self@,
                    spec,
                    (Named { name: name@, extra: extra@, opts: opts@ }),
                    made@,
                ) == Err::<PlanView, LuaFault>(e@),
            },
    {
        let (opts_value, skipped) = match spec.extra {
            Extra::Nothing => trailing_opts(extra, opts),
            _ => (opts.copied(), false),
        };
        let item_name = match item_name_from_str(name) {
            Ok(item_name) => item_name,
            Err(e) => {
                return Err(e.to_lua());
            },
        };
        let table = match value_to_opt_table(&opts_value, "add options") {
            Ok(table) => table,
            Err(e) => {
                return Err(e);
            },
        };
        let merged = merged_opts(&self.defaults, table, made);
        let position = match item_position_from_table(&merged) {
            Ok(position) => position,
            Err(e) => {
                return Err(e);
            },
        };
        let members: Vec<Selector> = match spec.extra {
            Extra::Members => match members_from_value(extra) {
                Ok(members) => members,
                Err(e) => {
                    return Err(e);
                },
            },
            _ => Vec::new(),
        };
        proof {
            if spec.extra != Extra::Members {
                assert(selector_views(members@) =~= Seq::<SelectorView>::empty());
            }
        }
        let patch = match item_patch_from_table(&merged) {
            Ok(patch) => finish(patch, spec, name, &members, extra),
            Err(e) => Err(e),
        };
        let component = make(spec.tag, item_name.clone(), position, members);
        Ok(
            Addition::Component(
                Plan { name: item_name, component, patch, gap: gap_of(spec.tag), unknown, skipped },
            ),
        )
    }
}

/// What a word adds, a plain item where nothing is known of it.
pub open spec fn spec_used(kind: Seq<char>) -> Build {
    match build_named(kind) {
        Some(build) => build,
        None => component_of(ComponentTag::Item),
    }
}

/// The component a call adds.
fn make(tag: ComponentTag, name: ItemName, position: Position, members: Vec<Selector>) -> (r:
    ComponentKind)
    ensures
        r@ == component_made(tag, name@, position@, selector_views(members@)),
{
    match tag {
        ComponentTag::Item => ComponentKind::Item { name, position },
        ComponentTag::Alias => ComponentKind::Alias { name, position },
        ComponentTag::Bracket => ComponentKind::Bracket { name, members },
        ComponentTag::Space => ComponentKind::Space { name, position },
        ComponentTag::Graph => ComponentKind::Graph { name, position },
        ComponentTag::Slider => ComponentKind::Slider { name, position },
    }
}

/// What is set once a component is added.
fn finish(
    patch: ItemPatch,
    spec: KindSpec,
    name: &str,
    members: &Vec<Selector>,
    extra: &LuaValue,
) -> (r: Result<ItemPatch, LuaError>)
    ensures
        patch_result(r) == finished(patch@, spec, name@, selector_views(members@), extra@),
{
    let mut patch = patch;
    if spec.mirrors_its_own_name && patch.alias.is_none() {
        patch.alias = Some(name.to_owned());
    }
    if spec.extra == Extra::Members {
        patch.members = Some(copy_selectors(members));
    }
    if spec.extra == Extra::Width {
        let mut said: Option<GeometryPatch> = None;
        std::mem::swap(&mut said, &mut patch.geometry);
        let mut geometry = match said {
            Some(geometry) => geometry,
            None => GeometryPatch::default(),
        };
        if geometry.width.is_none() {
            match extra.read_measure("f64") {
                Ok(width) => {
                    geometry.width = Some(width);
                },
                Err(e) => {
                    return Err(e);
                },
            }
        }
        patch.geometry = Some(geometry);
    }
    Ok(patch)
}

/// The event a call declares.
fn add_event(a2: &LuaValue, a3: &LuaValue) -> (r: Result<Addition, LuaError>)
    ensures
        match r {
            Ok(Addition::Event { name, notification }) => event_declared(a2@, a3@) == Ok::<
                (Seq<char>, Option<Seq<char>>),
                LuaFault,
            >((name@, crate::declared::notification_view(notification))),
            Ok(_) => false,
            Err(e) => event_declared(a2@, a3@) == Err::<(Seq<char>, Option<Seq<char>>), LuaFault>(
                e@,
            ),
        },
{
    let text = match value_to_string(a2, "event name") {
        Ok(text) => text,
        Err(e) => {
            return Err(e);
        },
    };
    let name = match event_name_from_str(&text) {
        Ok(name) => name,
        Err(e) => {
            return Err(e.to_lua());
        },
    };
    let notification = match a3 {
        LuaValue::Nil => None,
        _ => {
            let other = match value_to_string(a3, "notification name") {
                Ok(other) => other,
                Err(e) => {
                    return Err(e);
                },
            };
            match notification_name_from_str(&other) {
                Ok(notification) => Some(notification),
                Err(e) => {
                    return Err(e.to_lua());
                },
            }
        },
    };
    Ok(Addition::Event { name, notification })
}

// ---------------------------------------------------------------------------
// Replies

/// What to do once a component was asked for.
#[derive(Debug)]
pub enum AfterAdd {
    /// It is there.
    Added,
    /// The daemon cannot draw it: ask for a plain item in its place.
    Degrade(ComponentKind),
    /// It failed.
    Failed(LuaError),
}

/// What a reply that does not belong is refused with, given how it prints.
pub open spec fn unexpected_fault(printed: Seq<char>) -> LuaFault {
    LuaFault::Message("rsbar: unexpected reply "@ + printed)
}

/// Whether a request was carried out, given how its reply prints.
pub fn expect_ok(reply: &Result<Response, ApiError>, printed: &str) -> (r: Result<(), LuaError>)
    ensures
        match *reply {
            Ok(response) => match r {
                Ok(_) => response is Done,
                Err(e) => !(response is Done) && e@ == unexpected_fault(printed@),
            },
            Err(e) => r matches Err(fault) && fault@ == lua_fault(e@),
        },
{
    match reply {
        Ok(response) => match response {
            Response::Done => Ok(()),
            _ => Err(LuaError::Message(joined("rsbar: unexpected reply ", printed))),
        },
        Err(e) => Err(e.to_lua()),
    }
}

/// What to do once a component was asked for, given how the reply prints: a
/// component the daemon refuses is a plain item instead, and nothing else is.
pub fn after_add(
    component: &ComponentKind,
    reply: &Result<Response, ApiError>,
    printed: &str,
) -> (r: AfterAdd)
    ensures
        match *reply {
            Ok(response) => match r {
                AfterAdd::Added => response is Done,
                AfterAdd::Failed(e) => !(response is Done) && e@ == unexpected_fault(printed@),
                AfterAdd::Degrade(_) => false,
            },
            Err(e) => match r {
                AfterAdd::Degrade(plain) => e@ is Rejected && plain@ == ComponentView::Placed(
                    ComponentTag::Item,
                    crate::component::component_name(component@),
                    crate::component::component_place(component@),
                ),
                AfterAdd::Failed(fault) => !(e@ is Rejected) && fault@ == lua_fault(e@),
                AfterAdd::Added => false,
            },
        },
{
    match reply {
        Ok(response) => match response {
            Response::Done => AfterAdd::Added,
            _ => AfterAdd::Failed(LuaError::Message(joined("rsbar: unexpected reply ", printed))),
        },
        Err(e) => match e {
            ApiError::Rejected(_) => {
                let (name, position) = component.placement();
                AfterAdd::Degrade(ComponentKind::Item { name: name.clone(), position })
            },
            _ => AfterAdd::Failed(e.to_lua()),
        },
    }
}

// ---------------------------------------------------------------------------
// Verbs

/// A verb that ends in requests.
#[derive(Debug, Clone, Copy, PartialEq, Eq, Structural)]
pub enum Verb {
    Bar,
    SetItem,
    Remove,
    Trigger,
    Push,
    Move,
    Reorder,
    UpdateAll,
    Reload,
    Shutdown,
    BeginConfig,
    EndConfig,
}

/// The verb a name is.
pub open spec fn verb_named(name: Seq<char>) -> Option<Verb> {
    if name == "bar"@ {
        Some(Verb::Bar)
    } else if name == "set"@ {
        Some(Verb::SetItem)
    } else if name == "remove"@ {
        Some(Verb::Remove)
    } else if name == "trigger"@ {
        Some(Verb::Trigger)
    } else if name == "push"@ {
        Some(Verb::Push)
    } else if name == "move"@ {
        Some(Verb::Move)
    } else if name == "reorder"@ {
        Some(Verb::Reorder)
    } else if name == "update_all"@ || name == "update"@ {
        Some(Verb::UpdateAll)
    } else if name == "reload"@ {
        Some(Verb::Reload)
    } else if name == "shutdown"@ {
        Some(Verb::Shutdown)
    } else if name == "begin_config"@ {
        Some(Verb::BeginConfig)
    } else if name == "end_config"@ {
        Some(Verb::EndConfig)
    } else {
        None
    }
}

impl Verb {
    /// The verb a name is.
    pub fn named(name: &str) -> (r: Option<Verb>)
        ensures
            r == verb_named(name@),
    {
        if same(name, "bar") {
            Some(Verb::Bar)
        } else if same(name, "set") {
            Some(Verb::SetItem)
        } else if same(name, "remove") {
            Some(Verb::Remove)
        } else if same(name, "trigger") {
            Some(Verb::Trigger)
        } else if same(name, "push") {
            Some(Verb::Push)
        } else if same(name, "move") {
            Some(Verb::Move)
        } else if same(name, "reorder") {
            Some(Verb::Reorder)
        } else if same(name, "update_all") || same(name, "update") {
            Some(Verb::UpdateAll)
        } else if same(name, "reload") {
            Some(Verb::Reload)
        } else if same(name, "shutdown") {
            Some(Verb::Shutdown)
        } else if same(name, "begin_config") {
            Some(Verb::BeginConfig)
        } else if same(name, "end_config") {
            Some(Verb::EndConfig)
        } else {
            None
        }
    }
}

/// A request a verb makes, over plain values.
pub enum AskView {
    SetBar(BarPatchView),
    SetItem(SelectorView, ItemPatchView),
    Remove(SelectorView),
    /// An event, and what a custom one carries.
    Trigger(KindView<()>, Map<Seq<char>, Seq<char>>),
    Push(Seq<char>, MeasureView),
    Move(Seq<char>, Relative, Seq<char>),
    Reorder(Seq<Seq<char>>),
    UpdateAll,
    Reload,
    Shutdown,
    BeginConfig,
    EndConfig,
}

/// Whether a request is what it is said to be.
pub open spec fn is_ask(request: Request, ask: AskView) -> bool {
    match (request, ask) {
        (Request::SetBar(patch), AskView::SetBar(view)) => patch@ == view,
        (Request::SetItem(selector, patch), AskView::SetItem(named, view)) => selector@ == named
            && (*patch)@ == view,
        (Request::Remove(selector), AskView::Remove(named)) => selector@ == named,
        (Request::Trigger(event), AskView::Trigger(kind, vars)) => event_kind(event) == kind
            && match event {
            Event::Custom(custom) => custom.vars@ == vars,
            _ => carries_nothing(event),
        },
        (Request::Push { name, value }, AskView::Push(named, measure)) => name@ == named
            && value.model() == measure,
        (Request::Move { name, relative, reference }, AskView::Move(named, side, other)) => name@
            == named && relative == side && reference@ == other,
        (Request::Reorder(names), AskView::Reorder(views)) => crate::changes::name_views(names@)
            == views,
        (Request::UpdateAll, AskView::UpdateAll) => true,
        (Request::Reload, AskView::Reload) => true,
        (Request::Shutdown, AskView::Shutdown) => true,
        (Request::BeginConfig, AskView::BeginConfig) => true,
        (Request::EndConfig, AskView::EndConfig) => true,
        _ => false,
    }
}

/// Whether requests are what they are said to be, one by one.
pub open spec fn are_asks(requests: Seq<Request>, asks: Seq<AskView>) -> bool {
    requests.len() == asks.len() && forall|i: int|
        0 <= i < requests.len() ==> #[trigger] is_ask(requests[i], asks[i])
}

/// What an argument is of, over plain text.
pub open spec fn whose(of: Option<&'static str>) -> Option<Seq<char>> {
    match of {
        Some(name) => Some(name@),
        None => None,
    }
}

/// An argument that has to be a table.
pub open spec fn table_arg(value: LuaView, at: nat, of: Option<Seq<char>>) -> Result<
    Fields,
    LuaFault,
> {
    match value {
        LuaView::Table(fields, _, _) => Ok(fields),
        _ => Err(of_argument(refused(value, "table"@, None), at, of)),
    }
}

/// An argument that has to be a table.
fn arg_table<'a>(value: &'a LuaValue, at: u64, of: Option<&'static str>) -> (r: Result<
    &'a LuaTable,
    LuaError,
>)
    ensures
        match r {
            Ok(table) => table_arg(value@, at as nat, whose(of)) == Ok::<Fields, LuaFault>(
                table@.0,
            ),
            Err(e) => table_arg(value@, at as nat, whose(of)) == Err::<Fields, LuaFault>(e@),
        },
{
    match value {
        LuaValue::Table(table, _) => Ok(table),
        _ => Err(value.refusal("table", None).of_argument(at, of)),
    }
}

/// An argument that has to read as text.
pub open spec fn text_arg(value: LuaView, at: nat) -> Result<Seq<char>, LuaFault> {
    match text_read(value, TextForm::Text) {
        Ok(text) => Ok(text),
        Err(fault) => Err(of_argument(fault, at, None)),
    }
}

/// An argument that has to read as text.
fn arg_text(value: &LuaValue, at: u64) -> (r: Result<String, LuaError>)
    ensures
        match r {
            Ok(text) => text_arg(value@, at as nat) == Ok::<Seq<char>, LuaFault>(text@),
            Err(e) => text_arg(value@, at as nat) == Err::<Seq<char>, LuaFault>(e@),
        },
{
    match value.read_text(TextForm::Text) {
        Ok(text) => Ok(text),
        Err(e) => Err(e.of_argument(at, None)),
    }
}

/// An argument that has to read as a sample.
pub open spec fn sample_arg(value: LuaView, at: nat, of: Option<Seq<char>>) -> Result<
    MeasureView,
    LuaFault,
> {
    match measure_read(value, "f32"@) {
        Ok(sample) => Ok(sample),
        Err(fault) => Err(of_argument(fault, at, of)),
    }
}

/// An argument that has to read as a sample.
fn arg_sample(value: &LuaValue, at: u64, of: Option<&'static str>) -> (r: Result<
    Measure,
    LuaError,
>)
    ensures
        match r {
            Ok(sample) => sample_arg(value@, at as nat, whose(of)) == Ok::<MeasureView, LuaFault>(
                sample.model(),
            ),
            Err(e) => sample_arg(value@, at as nat, whose(of)) == Err::<MeasureView, LuaFault>(e@),
        },
{
    match value.read_measure("f32") {
        Ok(sample) => Ok(sample),
        Err(e) => Err(e.of_argument(at, of)),
    }
}

/// What setting the bar asks for.
pub open spec fn bar_asks(a1: LuaView) -> Result<Seq<AskView>, LuaFault> {
    match table_arg(a1, 1, None) {
        Err(fault) => Err(fault),
        Ok(fields) => match bar_patch(fields) {
            Err(fault) => Err(fault),
            Ok(patch) => Ok(seq![AskView::SetBar(patch)]),
        },
    }
}

/// What setting items asks for.
pub open spec fn set_asks(a1: LuaView, a2: LuaView) -> Result<Seq<AskView>, LuaFault> {
    match text_arg(a1, 1) {
        Err(fault) => Err(fault),
        Ok(name) => match table_arg(a2, 2, None) {
            Err(fault) => Err(fault),
            Ok(fields) => match selector_read(name) {
                Err(fault) => Err(lua_fault(ApiFault::InvalidName(name, fault))),
                Ok(selector) => match item_patch(fields) {
                    Err(fault) => Err(fault),
                    Ok(patch) => Ok(seq![AskView::SetItem(selector, patch)]),
                },
            },
        },
    }
}

/// What removing items asks for, name by name.
pub open spec fn removals(names: Seq<Seq<char>>) -> Result<Seq<AskView>, LuaFault>
    decreases names.len(),
{
    if names.len() == 0 {
        Ok(Seq::empty())
    } else {
        match removals(names.drop_last()) {
            Err(fault) => Err(fault),
            Ok(before) => match selector_read(names.last()) {
                Err(fault) => Err(lua_fault(ApiFault::InvalidName(names.last(), fault))),
                Ok(selector) => Ok(before.push(AskView::Remove(selector))),
            },
        }
    }
}

/// Once a name has been refused, more names do not mend it.
proof fn lemma_removals_stay_refused(names: Seq<Seq<char>>, upto: int)
    requires
        0 <= upto <= names.len(),
        removals(names.take(upto)) is Err,
    ensures
        removals(names) == removals(names.take(upto)),
    decreases names.len(),
{
    if upto < names.len() {
        assert(names.drop_last().take(upto) =~= names.take(upto));
        lemma_removals_stay_refused(names.drop_last(), upto);
    } else {
        assert(names.take(upto) =~= names);
    }
}

/// The items some texts name, or what the first that names none is refused
/// with.
pub open spec fn item_names(names: Seq<Seq<char>>) -> Result<Seq<Seq<char>>, LuaFault>
    decreases names.len(),
{
    if names.len() == 0 {
        Ok(Seq::empty())
    } else {
        match item_names(names.drop_last()) {
            Err(fault) => Err(fault),
            Ok(before) => if is_item_name(names.last()) {
                Ok(before.push(names.last()))
            } else {
                Err(lua_fault(ApiFault::InvalidName(names.last(), name_fault(names.last()))))
            },
        }
    }
}

/// Once a name has been refused, more names do not mend it.
proof fn lemma_item_names_stay_refused(names: Seq<Seq<char>>, upto: int)
    requires
        0 <= upto <= names.len(),
        item_names(names.take(upto)) is Err,
    ensures
        item_names(names) == item_names(names.take(upto)),
    decreases names.len(),
{
    if upto < names.len() {
        assert(names.drop_last().take(upto) =~= names.take(upto));
        lemma_item_names_stay_refused(names.drop_last(), upto);
    } else {
        assert(names.take(upto) =~= names);
    }
}

/// What a custom event carries, off a table: every field that reads as a text.
pub open spec fn vars_read(fields: Fields) -> Result<Map<Seq<char>, Seq<char>>, LuaFault>
    decreases fields.len(),
{
    if fields.len() == 0 {
        Ok(Map::empty())
    } else {
        match vars_read(fields.drop_last()) {
            Err(fault) => Err(fault),
            Ok(before) => match text_read(fields.last().1, TextForm::Text) {
                Err(fault) => Err(fault),
                Ok(text) => Ok(before.insert(fields.last().0, text)),
            },
        }
    }
}

/// Once a field has been refused, more fields do not mend it.
proof fn lemma_vars_stay_refused(fields: Fields, upto: int)
    requires
        0 <= upto <= fields.len(),
        vars_read(fields.take(upto)) is Err,
    ensures
        vars_read(fields) == vars_read(fields.take(upto)),
    decreases fields.len(),
{
    if upto < fields.len() {
        assert(fields.drop_last().take(upto) =~= fields.take(upto));
        lemma_vars_stay_refused(fields.drop_last(), upto);
    } else {
        assert(fields.take(upto) =~= fields);
    }
}

/// What a custom event carries.
pub open spec fn vars_value(value: LuaView) -> Result<Map<Seq<char>, Seq<char>>, LuaFault> {
    match value {
        LuaView::Table(fields, _, _) => vars_read(fields),
        _ => Err(refused(value, "table"@, None)),
    }
}

/// Reads what a custom event carries.
pub fn vars_from_value(value: &LuaValue) -> (r: Result<Vars, LuaError>)
    ensures
        match r {
            Ok(vars) => vars_value(value@) == Ok::<Map<Seq<char>, Seq<char>>, LuaFault>(vars@),
            Err(e) => vars_value(value@) == Err::<Map<Seq<char>, Seq<char>>, LuaFault>(e@),
        },
{
    match value {
        LuaValue::Table(table, shown) => {
            let ghost all = lua_fields(table.fields@);
            let mut out = Vars::new();
            let mut i: usize = 0;
            proof {
                lemma_lua_fields(table.fields@);
                assert(all.take(0) =~= Seq::<(Seq<char>, LuaView)>::empty());
            }
            while i < table.fields.len()
                invariant
                    i <= table.fields@.len(),
                    all == lua_fields(table.fields@),
                    all.len() == table.fields@.len(),
                    value@ == LuaView::Table(all, lua_items(table.items@), shown@),
                    vars_read(all.take(i as int)) == Ok::<Map<Seq<char>, Seq<char>>, LuaFault>(
                        out@,
                    ),
                decreases table.fields@.len() - i,
            {
                proof {
                    lemma_lua_fields(table.fields@);
                    assert(lua_fields(table.fields@)[i as int] == (
                        table.fields@[i as int].0@,
                        lua_view(table.fields@[i as int].1),
                    ));
                    assert(all.take(i + 1).drop_last() =~= all.take(i as int));
                    assert(all.take(i + 1).last() == all[i as int]);
                }
                match table.fields[i].1.read_text(TextForm::Text) {
                    Ok(text) => {
                        out.insert(table.fields[i].0.clone(), text);
                    },
                    Err(e) => {
                        proof {
                            lemma_vars_stay_refused(all, i + 1);
                        }
                        return Err(e);
                    },
                }
                i = i + 1;
            }
            proof {
                assert(all.take(all.len() as int) =~= all);
            }
            Ok(out)
        },
        _ => Err(value.refusal("table", None)),
    }
}

/// What triggering an event asks for.
pub open spec fn trigger_asks(a1: LuaView, a2: LuaView) -> Result<Seq<AskView>, LuaFault> {
    match text_arg(a1, 1) {
        Err(fault) => Err(fault),
        Ok(name) => match trigger_of(name, a2) {
            Err(fault) => Err(fault),
            Ok(ask) => Ok(seq![ask]),
        },
    }
}

/// What pushing a sample asks for.
pub open spec fn push_asks(a1: LuaView, a2: LuaView) -> Result<Seq<AskView>, LuaFault> {
    match text_arg(a1, 1) {
        Err(fault) => Err(fault),
        Ok(name) => match sample_arg(a2, 2, None) {
            Err(fault) => Err(fault),
            Ok(value) => if is_item_name(name) {
                Ok(seq![AskView::Push(name, value)])
            } else {
                Err(lua_fault(ApiFault::InvalidName(name, name_fault(name))))
            },
        },
    }
}

/// What moving an item asks for.
pub open spec fn move_asks(a1: LuaView, a2: LuaView, a3: LuaView) -> Result<
    Seq<AskView>,
    LuaFault,
> {
    match text_arg(a1, 1) {
        Err(fault) => Err(fault),
        Ok(name) => match text_arg(a2, 2) {
            Err(fault) => Err(fault),
            Ok(side) => match text_arg(a3, 3) {
                Err(fault) => Err(fault),
                Ok(reference) => if !is_item_name(name) {
                    Err(lua_fault(ApiFault::InvalidName(name, name_fault(name))))
                } else {
                    match relative_word(side) {
                        None => Err(
                            LuaFault::Message(
                                "rsbar.move takes \"before\" or \"after\", got \""@ + side
                                    + "\""@,
                            ),
                        ),
                        Some(relative) => if !is_item_name(reference) {
                            Err(
                                lua_fault(
                                    ApiFault::InvalidName(reference, name_fault(reference)),
                                ),
                            )
                        } else {
                            Ok(seq![AskView::Move(name, relative, reference)])
                        },
                    }
                },
            },
        },
    }
}

/// What a verb asks for.
pub open spec fn verb_asks(verb: Verb, a1: LuaView, a2: LuaView, a3: LuaView) -> Result<
    Seq<AskView>,
    LuaFault,
> {
    match verb {
        Verb::Bar => bar_asks(a1),
        Verb::SetItem => set_asks(a1, a2),
        Verb::Remove => match names_value(a1, "rsbar.remove"@) {
            Err(fault) => Err(fault),
            Ok(names) => removals(names),
        },
        Verb::Trigger => trigger_asks(a1, a2),
        Verb::Push => push_asks(a1, a2),
        Verb::Move => move_asks(a1, a2, a3),
        Verb::Reorder => match names_value(a1, "rsbar.reorder"@) {
            Err(fault) => Err(fault),
            Ok(names) => match item_names(names) {
                Err(fault) => Err(fault),
                Ok(order) => Ok(seq![AskView::Reorder(order)]),
            },
        },
        Verb::UpdateAll => Ok(seq![AskView::UpdateAll]),
        Verb::Reload => Ok(seq![AskView::Reload]),
        Verb::Shutdown => Ok(seq![AskView::Shutdown]),
        Verb::BeginConfig => Ok(seq![AskView::BeginConfig]),
        Verb::EndConfig => Ok(seq![AskView::EndConfig]),
    }
}

/// One request.
fn only(request: Request) -> (r: Vec<Request>)
    ensures
        forall|ask: AskView| is_ask(request, ask) ==> #[trigger] are_asks(r@, seq![ask]),
{
    let r = vec![request];
    proof {
        assert forall|ask: AskView| is_ask(request, ask) implies #[trigger] are_asks(
            r@,
            seq![ask],
        ) by {
            assert(r@.len() == 1 && r@[0] == request);
            assert(seq![ask][0] == ask);
        }
    }
    r
}

/// The event a script triggers.
pub fn event_from_lua(name: &str, data: &LuaValue) -> (r: Result<Event, LuaError>)
    ensures
        match trigger_of(name@, data@) {
            Err(fault) => r matches Err(e) && e@ == fault,
            Ok(ask) => r matches Ok(event) && is_ask(Request::Trigger(event), ask),
        },
{
    let kind = match kind_from_str(name) {
        Ok(kind) => kind,
        Err(e) => {
            return Err(e.to_lua());
        },
    };
    let ghost k = kind@;
    let event = kind.into_event();
    match event {
        Event::Custom(custom) => {
            let mut custom = custom;
            match data {
                LuaValue::Nil => {
                    proof {
                        assert(custom.vars@ =~= Map::<Seq<char>, Seq<char>>::empty());
                    }
                },
                _ => match vars_from_value(data) {
                    Ok(vars) => {
                        custom.vars = vars;
                    },
                    Err(e) => {
                        return Err(e);
                    },
                },
            }
            Ok(Event::Custom(custom))
        },
        other => Ok(other),
    }
}

/// The event a script triggers: only a custom one takes anything along.
pub open spec fn trigger_of(name: Seq<char>, data: LuaView) -> Result<AskView, LuaFault> {
    match kind_read(name) {
        None => Err(lua_fault(ApiFault::InvalidEvent(name, name))),
        Some(kind) => if kind is Custom && !(data is Nil) {
            match vars_value(data) {
                Err(fault) => Err(fault),
                Ok(vars) => Ok(AskView::Trigger(kind, vars)),
            }
        } else {
            Ok(AskView::Trigger(kind, Map::empty()))
        },
    }
}

/// Whether some requests are what a call asks for.
pub open spec fn answers(
    r: Result<Vec<Request>, LuaError>,
    asked: Result<Seq<AskView>, LuaFault>,
) -> bool {
    match asked {
        Ok(asks) => r matches Ok(requests) && are_asks(requests@, asks),
        Err(fault) => r matches Err(e) && e@ == fault,
    }
}

/// What setting the bar asks for.
fn ask_bar(a1: &LuaValue) -> (r: Result<Vec<Request>, LuaError>)
    ensures
        answers(r, bar_asks(a1@)),
{
    let table = match arg_table(a1, 1, None) {
        Ok(table) => table,
        Err(e) => {
            return Err(e);
        },
    };
    match bar_patch_from_table(table) {
        Ok(patch) => {
            let ghost view = patch@;
            let request = Request::SetBar(patch);
            assert(is_ask(request, AskView::SetBar(view)));
            Ok(only(request))
        },
        Err(e) => Err(e),
    }
}

/// What setting items asks for.
fn ask_set(a1: &LuaValue, a2: &LuaValue) -> (r: Result<Vec<Request>, LuaError>)
    ensures
        answers(r, set_asks(a1@, a2@)),
{
    let name = match arg_text(a1, 1) {
        Ok(name) => name,
        Err(e) => {
            return Err(e);
        },
    };
    let table = match arg_table(a2, 2, None) {
        Ok(table) => table,
        Err(e) => {
            return Err(e);
        },
    };
    let selector = match selector_from_name(&name) {
        Ok(selector) => selector,
        Err(e) => {
            return Err(e.to_lua());
        },
    };
    match item_patch_from_table(table) {
        Ok(patch) => {
            let ghost ask = AskView::SetItem(selector@, patch@);
            let request = Request::SetItem(selector, Box::new(patch));
            assert(is_ask(request, ask));
            Ok(only(request))
        },
        Err(e) => Err(e),
    }
}

/// What removing items asks for, name by name.
fn ask_remove(names: &Vec<String>) -> (r: Result<Vec<Request>, LuaError>)
    ensures
        answers(r, removals(text_views(names@))),
{
    let ghost all = text_views(names@);
    let mut out: Vec<Request> = Vec::new();
    let ghost mut asks: Seq<AskView> = Seq::empty();
    let mut i: usize = 0;
    proof {
        assert(all.take(0) =~= Seq::<Seq<char>>::empty());
    }
    while i < names.len()
        invariant
            i <= names@.len(),
            all == text_views(names@),
            all.len() == names@.len(),
            removals(all.take(i as int)) == Ok::<Seq<AskView>, LuaFault>(asks),
            are_asks(out@, asks),
        decreases names@.len() - i,
    {
        proof {
            assert(all.take(i + 1).drop_last() =~= all.take(i as int));
            assert(all.take(i + 1).last() == names@[i as int]@);
        }
        match selector_from_name(&names[i]) {
            Ok(selector) => {
                let ghost ask = AskView::Remove(selector@);
                let ghost before = out@;
                let request = Request::Remove(selector);
                assert(is_ask(request, ask));
                out.push(request);
                proof {
                    let ghost earlier = asks;
                    asks = asks.push(ask);
                    assert forall|j: int| 0 <= j < out@.len() implies #[trigger] is_ask(
                        out@[j],
                        asks[j],
                    ) by {
                        if j < before.len() {
                            assert(is_ask(before[j], earlier[j]));
                        }
                    }
                }
            },
            Err(e) => {
                proof {
                    lemma_removals_stay_refused(all, i + 1);
                }
                return Err(e.to_lua());
            },
        }
        i = i + 1;
    }
    proof {
        assert(all.take(all.len() as int) =~= all);
    }
    Ok(out)
}

/// The items some texts name.
fn named_items(names: &Vec<String>) -> (r: Result<Vec<ItemName>, LuaError>)
    ensures
        match r {
            Ok(items) => item_names(text_views(names@)) == Ok::<Seq<Seq<char>>, LuaFault>(
                crate::changes::name_views(items@),
            ),
            Err(e) => item_names(text_views(names@)) == Err::<Seq<Seq<char>>, LuaFault>(e@),
        },
{
    let ghost all = text_views(names@);
    let mut out: Vec<ItemName> = Vec::new();
    let mut i: usize = 0;
    proof {
        assert(all.take(0) =~= Seq::<Seq<char>>::empty());
        assert(crate::changes::name_views(out@) =~= Seq::<Seq<char>>::empty());
    }
    while i < names.len()
        invariant
            i <= names@.len(),
            all == text_views(names@),
            all.len() == names@.len(),
            item_names(all.take(i as int)) == Ok::<Seq<Seq<char>>, LuaFault>(
                crate::changes::name_views(out@),
            ),
        decreases names@.len() - i,
    {
        proof {
            assert(all.take(i + 1).drop_last() =~= all.take(i as int));
            assert(all.take(i + 1).last() == names@[i as int]@);
        }
        match item_name_from_str(&names[i]) {
            Ok(name) => {
                let ghost before = out@;
                let ghost view = name@;
                out.push(name);
                proof {
                    assert(crate::changes::name_views(out@) =~= crate::changes::name_views(
                        before,
                    ).push(view));
                }
            },
            Err(e) => {
                proof {
                    lemma_item_names_stay_refused(all, i + 1);
                }
                return Err(e.to_lua());
            },
        }
        i = i + 1;
    }
    proof {
        assert(all.take(all.len() as int) =~= all);
    }
    Ok(out)
}

/// What triggering an event asks for.
fn ask_trigger(a1: &LuaValue, a2: &LuaValue) -> (r: Result<Vec<Request>, LuaError>)
    ensures
        answers(r, trigger_asks(a1@, a2@)),
{
    let name = match arg_text(a1, 1) {
        Ok(name) => name,
        Err(e) => {
            return Err(e);
        },
    };
    match event_from_lua(&name, a2) {
        Ok(event) => Ok(only(Request::Trigger(event))),
        Err(e) => Err(e),
    }
}

/// What pushing a sample asks for.
fn ask_push(a1: &LuaValue, a2: &LuaValue) -> (r: Result<Vec<Request>, LuaError>)
    ensures
        answers(r, push_asks(a1@, a2@)),
{
    let name = match arg_text(a1, 1) {
        Ok(name) => name,
        Err(e) => {
            return Err(e);
        },
    };
    let value = match arg_sample(a2, 2, None) {
        Ok(value) => value,
        Err(e) => {
            return Err(e);
        },
    };
    match item_name_from_str(&name) {
        Ok(name) => {
            let ghost ask = AskView::Push(name@, value.model());
            let request = Request::Push { name, value };
            assert(is_ask(request, ask));
            Ok(only(request))
        },
        Err(e) => Err(e.to_lua()),
    }
}

/// What moving an item asks for.
fn ask_move(a1: &LuaValue, a2: &LuaValue, a3: &LuaValue) -> (r: Result<Vec<Request>, LuaError>)
    ensures
        answers(r, move_asks(a1@, a2@, a3@)),
{
    let name = match arg_text(a1, 1) {
        Ok(name) => name,
        Err(e) => {
            return Err(e);
        },
    };
    let side = match arg_text(a2, 2) {
        Ok(side) => side,
        Err(e) => {
            return Err(e);
        },
    };
    let other = match arg_text(a3, 3) {
        Ok(other) => other,
        Err(e) => {
            return Err(e);
        },
    };
    let name = match item_name_from_str(&name) {
        Ok(name) => name,
        Err(e) => {
            return Err(e.to_lua());
        },
    };
    let relative = match relative_from_str(&side) {
        Ok(relative) => relative,
        Err(e) => {
            return Err(e);
        },
    };
    match item_name_from_str(&other) {
        Ok(reference) => {
            let ghost ask = AskView::Move(name@, relative, reference@);
            let request = Request::Move { name, relative, reference };
            assert(is_ask(request, ask));
            Ok(only(request))
        },
        Err(e) => Err(e.to_lua()),
    }
}

impl Verb {
    /// The requests a call of this verb makes, each of which is to be carried
    /// out before the next is made. An argument left out is nil.
    pub fn requests(self, a1: &LuaValue, a2: &LuaValue, a3: &LuaValue) -> (r: Result<
        Vec<Request>,
        LuaError,
    >)
        ensures
            answers(r, verb_asks(self, a1@, a2@, a3@)),
    {
        match self {
            Verb::Bar => ask_bar(a1),
            Verb::SetItem => ask_set(a1, a2),
            Verb::Remove => match names_from_value(a1, "rsbar.remove") {
                Ok(names) => ask_remove(&names),
                Err(e) => Err(e),
            },
            Verb::Trigger => ask_trigger(a1, a2),
            Verb::Push => ask_push(a1, a2),
            Verb::Move => ask_move(a1, a2, a3),
            Verb::Reorder => {
                let names = match names_from_value(a1, "rsbar.reorder") {
                    Ok(names) => names,
                    Err(e) => {
                        return Err(e);
                    },
                };
                match named_items(&names) {
                    Ok(order) => {
                        let ghost ask = AskView::Reorder(crate::changes::name_views(order@));
                        let request = Request::Reorder(order);
                        assert(is_ask(request, ask));
                        Ok(only(request))
                    },
                    Err(e) => Err(e),
                }
            },
            Verb::UpdateAll => {
                assert(is_ask(Request::UpdateAll, AskView::UpdateAll));
                Ok(only(Request::UpdateAll))
            },
            Verb::Reload => {
                assert(is_ask(Request::Reload, AskView::Reload));
                Ok(only(Request::Reload))
            },
            Verb::Shutdown => {
                assert(is_ask(Request::Shutdown, AskView::Shutdown));
                Ok(only(Request::Shutdown))
            },
            Verb::BeginConfig => {
                assert(is_ask(Request::BeginConfig, AskView::BeginConfig));
                Ok(only(Request::BeginConfig))
            },
            Verb::EndConfig => {
                assert(is_ask(Request::EndConfig, AskView::EndConfig));
                Ok(only(Request::EndConfig))
            },
        }
    }
}

/// A method of an item's handle that makes a request.
#[derive(Debug, Clone, Copy, PartialEq, Eq, Structural)]
pub enum ItemVerb {
    SetItem,
    Remove,
    Push,
}

/// The method a name is.
pub open spec fn item_verb_named(name: Seq<char>) -> Option<ItemVerb> {
    if name == "set"@ {
        Some(ItemVerb::SetItem)
    } else if name == "remove"@ {
        Some(ItemVerb::Remove)
    } else if name == "push"@ {
        Some(ItemVerb::Push)
    } else {
        None
    }
}

/// What a method asks for of the item it is called on.
pub open spec fn item_verb_ask(verb: ItemVerb, name: Seq<char>, arg: LuaView) -> Result<
    AskView,
    LuaFault,
> {
    match verb {
        ItemVerb::SetItem => match table_arg(arg, 2, Some("Item.set"@)) {
            Err(fault) => Err(fault),
            Ok(fields) => match item_patch(fields) {
                Err(fault) => Err(fault),
                Ok(patch) => Ok(AskView::SetItem(SelectorView::Name(name), patch)),
            },
        },
        ItemVerb::Remove => Ok(AskView::Remove(SelectorView::Name(name))),
        ItemVerb::Push => match sample_arg(arg, 2, Some("Item.push"@)) {
            Err(fault) => Err(fault),
            Ok(value) => Ok(AskView::Push(name, value)),
        },
    }
}

impl ItemVerb {
    /// The method a name is.
    pub fn named(name: &str) -> (r: Option<ItemVerb>)
        ensures
            r == item_verb_named(name@),
    {
        if same(name, "set") {
            Some(ItemVerb::SetItem)
        } else if same(name, "remove") {
            Some(ItemVerb::Remove)
        } else if same(name, "push") {
            Some(ItemVerb::Push)
        } else {
            None
        }
    }

    /// The request a call makes of the item it is called on.
    pub fn request(self, name: &ItemName, arg: &LuaValue) -> (r: Result<Request, LuaError>)
        ensures
            match item_verb_ask(self, name@, arg@) {
                Ok(ask) => r matches Ok(request) && is_ask(request, ask),
                Err(fault) => r matches Err(e) && e@ == fault,
            },
    {
        match self {
            ItemVerb::SetItem => match arg_table(arg, 2, Some("Item.set")) {
                Ok(table) => match item_patch_from_table(table) {
                    Ok(patch) => Ok(set_request(name, patch)),
                    Err(e) => Err(e),
                },
                Err(e) => Err(e),
            },
            ItemVerb::Remove => Ok(Request::Remove(Selector::Name(name.clone()))),
            ItemVerb::Push => match arg_sample(arg, 2, Some("Item.push")) {
                Ok(value) => Ok(Request::Push { name: name.clone(), value }),
                Err(e) => Err(e),
            },
        }
    }
}

/// The request that changes one item.
pub fn set_request(name: &ItemName, patch: ItemPatch) -> (r: Request)
    ensures
        is_ask(r, AskView::SetItem(SelectorView::Name(name@), patch@)),
{
    Request::SetItem(Selector::Name(name.clone()), Box::new(patch))
}

/// The request that assigning one property of an item makes.
pub fn assign_request(
    name: &ItemName,
    groups: &PropertyPath,
    key: &str,
    value: LuaValue,
    shown: &str,
) -> (r: Result<Request, LuaError>)
    ensures
        match item_patch(wrapped(groups@, key@, value@, shown@)) {
            Ok(patch) => r matches Ok(request) && is_ask(
                request,
                AskView::SetItem(SelectorView::Name(name@), patch),
            ),
            Err(fault) => r matches Err(e) && e@ == fault,
        },
{
    match item_patch_at(groups, key, value, shown) {
        Ok(patch) => Ok(set_request(name, patch)),
        Err(e) => Err(e),
    }
}

/// What a query verb asks about.
pub open spec fn query_asked(verb: Seq<char>, arg: LuaView) -> Option<
    Result<crate::query::QueryView, LuaFault>,
> {
    if verb == "bar"@ {
        Some(Ok(crate::query::QueryView::Bar))
    } else if verb == "items"@ {
        Some(Ok(crate::query::QueryView::Items))
    } else if verb == "item"@ {
        Some(
            match text_arg(arg, 1) {
                Err(fault) => Err(fault),
                Ok(name) => if is_item_name(name) {
                    Ok(crate::query::QueryView::Item(name))
                } else {
                    Err(lua_fault(ApiFault::InvalidName(name, name_fault(name))))
                },
            },
        )
    } else {
        None
    }
}

/// What a query verb asks about, where it is one.
pub fn query_for(verb: &str, arg: &LuaValue) -> (r: Option<Result<Query, LuaError>>)
    ensures
        match query_asked(verb@, arg@) {
            None => r is None,
            Some(Ok(asked)) => r matches Some(Ok(query)) && query@ == asked,
            Some(Err(fault)) => r matches Some(Err(e)) && e@ == fault,
        },
{
    if same(verb, "bar") {
        Some(Ok(Query::Bar))
    } else if same(verb, "items") {
        Some(Ok(Query::Items))
    } else if same(verb, "item") {
        match arg_text(arg, 1) {
            Ok(name) => match item_name_from_str(&name) {
                Ok(name) => Some(Ok(Query::Item(name))),
                Err(e) => Some(Err(e.to_lua())),
            },
            Err(e) => Some(Err(e)),
        }
    } else {
        None
    }
}

/// The item a subscription by name is for, and what it is to.
pub open spec fn subscription_of(item: LuaView, events: LuaView) -> Result<
    (Seq<char>, Seq<KindView<()>>),
    LuaFault,
> {
    match string_value(item, "an item name"@) {
        Err(fault) => Err(fault),
        Ok(name) => if is_item_name(name) {
            match kinds_value(events) {
                Err(fault) => Err(fault),
                Ok(kinds) => Ok((name, kinds)),
            }
        } else {
            Err(lua_fault(ApiFault::InvalidName(name, name_fault(name))))
        },
    }
}

/// The item a subscription by name is for, and what it is to.
pub fn subscription(item: &LuaValue, events: &LuaValue) -> (r: Result<
    (ItemName, Vec<Kind<()>>),
    LuaError,
>)
    ensures
        match subscription_of(item@, events@) {
            Ok((name, kinds)) => r matches Ok((named, found)) && named@ == name && kind_views(
                found@,
            ) == kinds,
            Err(fault) => r matches Err(e) && e@ == fault,
        },
{
    let text = match value_to_string(item, "an item name") {
        Ok(text) => text,
        Err(e) => {
            return Err(e);
        },
    };
    let name = match item_name_from_str(&text) {
        Ok(name) => name,
        Err(e) => {
            return Err(e.to_lua());
        },
    };
    match kinds_from_value(events) {
        Ok(kinds) => Ok((name, kinds)),
        Err(e) => Err(e),
    }
}

/// The directories a command is looked for in: the one this program is in,
/// where it is known, before those that were there.
pub open spec fn search_text(directory: Option<Seq<char>>, inherited: Seq<char>) -> Seq<char> {
    match directory {
        None => inherited,
        Some(directory) => if inherited.len() == 0 {
            directory
        } else {
            directory + ":"@ + inherited
        },
    }
}

/// The directories a command is looked for in: the one this program is in,
/// where it is known, before those that were there.
pub fn child_path(directory: Option<&str>, inherited: &str) -> (r: String)
    ensures
        r@ == search_text(
            match directory {
                Some(directory) => Some(directory@),
                None => None,
            },
            inherited@,
        ),
{
    match directory {
        None => inherited.to_owned(),
        Some(directory) => if inherited.unicode_len() == 0 {
            directory.to_owned()
        } else {
            joined3(directory, ":", inherited)
        },
    }
}

// ---------------------------------------------------------------------------
// Laws

/// Assigning a property of an item itself says what setting a table of that
/// property alone says.
pub proof fn law_assigning_says_what_setting_says(key: Seq<char>, value: LuaView, shown: Seq<char>)
    ensures
        wrapped(Seq::empty(), key, value, shown) == seq![(key, value)],
{
}

/// Assigning a property under a group says what assigning the group a table of
/// that property alone says.
pub proof fn law_a_namespace_is_a_nested_table(
    groups: Seq<Seq<char>>,
    group: Seq<char>,
    key: Seq<char>,
    value: LuaView,
    shown: Seq<char>,
)
    ensures
        wrapped(groups.push(group), key, value, shown) == wrapped(
            groups,
            group,
            LuaView::Table(seq![(key, value)], Seq::empty(), shown),
            shown,
        ),
{
    assert(groups.push(group).drop_last() =~= groups);
}

/// Naming one of a kind leaves the count of every other kind alone, so that
/// the second of a kind is the second however many others came between.
pub proof fn law_unnamed_adds_are_counted_by_kind(v: AddView, kind: Seq<char>, other: Seq<char>)
    requires
        kind != other,
        counted(v.anonymous, kind) < u64::MAX,
    ensures
        next_name(counted_on(v, other).anonymous, kind) == next_name(v.anonymous, kind),
        counted(counted_on(v, kind).anonymous, kind) == counted(v.anonymous, kind) + 1,
{
}

/// A kind nothing is known of is added just as a plain item is.
pub proof fn law_an_unknown_kind_is_a_plain_item(kind: Seq<char>)
    requires
        build_named(kind) is None,
    ensures
        spec_used(kind) == spec_used("item"@),
{
}

/// What an alias is asked to mirror is said outright, or else is its name.
pub proof fn law_an_alias_mirrors_something(
    v: AddView,
    call: Named,
    made: Seq<char>,
    patch: ItemPatchView,
    plan: PlanView,
)
    requires
        spec_used("alias"@) matches Build::Component(spec) && planned(v, spec, call, made) == Ok::<
            PlanView,
            LuaFault,
        >(plan),
        plan.patch == Ok::<ItemPatchView, LuaFault>(patch),
    ensures
        patch.alias is Some,
{
    reveal_strlit("alias");
    reveal_strlit("item");
    assert("alias"@.len() == 5);
    assert("item"@.len() == 4);
}

/// What a bracket names is on what is set, patterns and all.
pub proof fn law_members_ride_on_the_patch(
    v: AddView,
    spec: KindSpec,
    call: Named,
    made: Seq<char>,
    patch: ItemPatchView,
    plan: PlanView,
)
    requires
        spec.extra == Extra::Members,
        spec.tag == ComponentTag::Bracket,
        planned(v, spec, call, made) == Ok::<PlanView, LuaFault>(plan),
        plan.patch == Ok::<ItemPatchView, LuaFault>(patch),
    ensures
        plan.component matches ComponentView::Bracket(_, members) && patch.members == Some(members),
        members_value(call.extra) == Ok::<Seq<SelectorView>, LuaFault>(patch.members->0),
{
}

} // verus!
