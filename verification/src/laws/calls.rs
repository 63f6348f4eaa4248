//! What a call from a config asks for, said of what it is called with.

use crate::api::{
    build_named, event_declared, extra_claims, finished, is_ask, item_names, item_verb_ask,
    item_verb_named, merged_with, named, next_name, planned, query_asked, removals, search_text,
    spec_used, subscription_of, trailing, vars_read, verb_asks, verb_named, wrapped, AddView,
    AskView, Build, Extra, ItemVerb, KindSpec, Named, TableView, Verb,
};
use crate::assoc::unique;
use crate::changes::name_views;
use crate::component::{ComponentTag, ComponentView};
use crate::convert::{bar_patch, item_patch, kinds_list, position_at, texts_read, Fields};
use crate::event::{event_kind, is_notification_name, kind_read, Event, KindView};
use crate::laws::tables::{bar_fits, item_fits, spelled_number, spelled_text};
use crate::lua::{lookup, LuaFault, LuaView, TextForm};
use crate::merge::{laid_fields, laid_items};
use crate::name::{is_item_name, selector_read, SelectorView};
use crate::query::{QueryView, Relative};
use crate::request::Request;
use crate::state::{BarPatchView, ItemPatchView};
use crate::text::decimal_text;
use vstd::prelude::*;

verus! {

// ---------------------------------------------------------------------------
// Words

/// The words for what a config asks for.
pub proof fn law_verbs(name: Seq<char>)
    ensures
        verb_named(name) == Some(Verb::Bar) <==> (name == "bar"@),
        verb_named(name) == Some(Verb::SetItem) <==> (name == "set"@),
        verb_named(name) == Some(Verb::Remove) <==> (name == "remove"@),
        verb_named(name) == Some(Verb::Trigger) <==> (name == "trigger"@),
        verb_named(name) == Some(Verb::Push) <==> (name == "push"@),
        verb_named(name) == Some(Verb::Move) <==> (name == "move"@),
        verb_named(name) == Some(Verb::Reorder) <==> (name == "reorder"@),
        verb_named(name) == Some(Verb::UpdateAll) <==> (name == "update_all"@ || name == "update"@),
        verb_named(name) == Some(Verb::Reload) <==> (name == "reload"@),
        verb_named(name) == Some(Verb::Shutdown) <==> (name == "shutdown"@),
        verb_named(name) == Some(Verb::BeginConfig) <==> (name == "begin_config"@),
        verb_named(name) == Some(Verb::EndConfig) <==> (name == "end_config"@),
        item_verb_named(name) == Some(ItemVerb::SetItem) <==> name == "set"@,
        item_verb_named(name) == Some(ItemVerb::Remove) <==> name == "remove"@,
        item_verb_named(name) == Some(ItemVerb::Push) <==> name == "push"@,
{
    reveal_strlit("bar");
    reveal_strlit("set");
    reveal_strlit("remove");
    reveal_strlit("trigger");
    reveal_strlit("push");
    reveal_strlit("move");
    reveal_strlit("reorder");
    reveal_strlit("update_all");
    reveal_strlit("update");
    reveal_strlit("reload");
    reveal_strlit("shutdown");
    reveal_strlit("begin_config");
    reveal_strlit("end_config");
    assert("bar"@.len() == 3 && "bar"@[0] == 'b');
    assert("set"@.len() == 3 && "set"@[0] == 's');
    assert("remove"@.len() == 6 && "remove"@[0] == 'r');
    assert("trigger"@.len() == 7 && "trigger"@[0] == 't');
    assert("push"@.len() == 4 && "push"@[0] == 'p');
    assert("move"@.len() == 4 && "move"@[0] == 'm');
    assert("reorder"@.len() == 7 && "reorder"@[0] == 'r');
    assert("update_all"@.len() == 10 && "update_all"@[0] == 'u');
    assert("update"@.len() == 6 && "update"@[0] == 'u');
    assert("reload"@.len() == 6 && "reload"@[0] == 'r');
    assert("shutdown"@.len() == 8 && "shutdown"@[0] == 's');
    assert("begin_config"@.len() == 12 && "begin_config"@[0] == 'b');
    assert("end_config"@.len() == 10 && "end_config"@[0] == 'e');
    assert("remove"@[2] == 'm' && "reload"@[2] == 'l');
    assert("push"@[0] == 'p' && "move"@[0] == 'm');
}

/// The words for what a config adds, and that any other word is taken for an item. A
/// bracket goes round its members, a graph and a slider have a width, and an alias
/// mirrors what it is named after.
pub proof fn law_what_is_added(kind: Seq<char>)
    ensures
        kind == "item"@ <==> (build_named(kind) matches Some(Build::Component(spec)) && spec.tag
            == ComponentTag::Item),
        build_named("item"@) == Some(
            Build::Component(
                KindSpec {
                    tag: ComponentTag::Item,
                    extra: Extra::Nothing,
                    mirrors_its_own_name: false,
                },
            ),
        ),
        kind == "alias"@ <==> (build_named(kind) matches Some(Build::Component(spec)) && spec.tag
            == ComponentTag::Alias),
        build_named("alias"@) == Some(
            Build::Component(
                KindSpec {
                    tag: ComponentTag::Alias,
                    extra: Extra::Nothing,
                    mirrors_its_own_name: true,
                },
            ),
        ),
        kind == "bracket"@ <==> (build_named(kind) matches Some(Build::Component(spec)) && spec.tag
            == ComponentTag::Bracket),
        build_named("bracket"@) == Some(
            Build::Component(
                KindSpec {
                    tag: ComponentTag::Bracket,
                    extra: Extra::Members,
                    mirrors_its_own_name: false,
                },
            ),
        ),
        kind == "space"@ <==> (build_named(kind) matches Some(Build::Component(spec)) && spec.tag
            == ComponentTag::Space),
        build_named("space"@) == Some(
            Build::Component(
                KindSpec {
                    tag: ComponentTag::Space,
                    extra: Extra::Nothing,
                    mirrors_its_own_name: false,
                },
            ),
        ),
        kind == "graph"@ <==> (build_named(kind) matches Some(Build::Component(spec)) && spec.tag
            == ComponentTag::Graph),
        build_named("graph"@) == Some(
            Build::Component(
                KindSpec {
                    tag: ComponentTag::Graph,
                    extra: Extra::Width,
                    mirrors_its_own_name: false,
                },
            ),
        ),
        kind == "slider"@ <==> (build_named(kind) matches Some(Build::Component(spec)) && spec.tag
            == ComponentTag::Slider),
        build_named("slider"@) == Some(
            Build::Component(
                KindSpec {
                    tag: ComponentTag::Slider,
                    extra: Extra::Width,
                    mirrors_its_own_name: false,
                },
            ),
        ),
        build_named(kind) == Some(Build::Event) <==> kind == "event"@,
        build_named(kind) is None ==> spec_used(kind) == spec_used("item"@),
        build_named(kind) matches Some(build) ==> spec_used(kind) == build,
{
    reveal_strlit("item");
    reveal_strlit("alias");
    reveal_strlit("bracket");
    reveal_strlit("space");
    reveal_strlit("graph");
    reveal_strlit("slider");
    reveal_strlit("event");
    assert("item"@.len() == 4 && "item"@[0] == 'i');
    assert("alias"@.len() == 5 && "alias"@[0] == 'a');
    assert("bracket"@.len() == 7 && "bracket"@[0] == 'b');
    assert("space"@.len() == 5 && "space"@[0] == 's');
    assert("graph"@.len() == 5 && "graph"@[0] == 'g');
    assert("slider"@.len() == 6 && "slider"@[0] == 's');
    assert("event"@.len() == 5 && "event"@[0] == 'e');
}

/// What can stand where a name is left out: options or nothing, a table of members,
/// or a width.
pub proof fn law_what_stands_for_a_name(value: LuaView)
    ensures
        extra_claims(Extra::Nothing, value) <==> value is Nil || value is Table,
        extra_claims(Extra::Members, value) <==> value is Table,
        extra_claims(Extra::Width, value) <==> value is Integer || value is Number,
{
}

// ---------------------------------------------------------------------------
// Requests

/// A request is the one that was asked for, with each of its parts in its place.
pub proof fn law_a_request_is_what_was_asked(request: Request, ask: AskView)
    requires
        is_ask(request, ask),
    ensures
        match ask {
            AskView::SetBar(patch) => request matches Request::SetBar(said) && said@ == patch,
            AskView::SetItem(selector, patch) => request matches Request::SetItem(which, said)
                && which@ == selector && (*said)@ == patch,
            AskView::Remove(selector) => request matches Request::Remove(which) && which@
                == selector,
            AskView::Trigger(kind, vars) => request matches Request::Trigger(event) && event_kind(
                event,
            ) == kind && (event matches Event::Custom(custom) ==> custom.vars@ == vars),
            AskView::Push(item, sample) => request matches Request::Push { name, value } && name@
                == item && value.bits == sample.bits && value.text@ == sample.text,
            AskView::Move(item, side, other) => request matches Request::Move {
                name,
                relative,
                reference,
            } && name@ == item && relative == side && reference@ == other,
            AskView::Reorder(order) => request matches Request::Reorder(names) && names@.len()
                == order.len() && forall|i: int|
                0 <= i < order.len() ==> names@[i]@ == #[trigger] order[i],
            AskView::UpdateAll => request is UpdateAll,
            AskView::Reload => request is Reload,
            AskView::Shutdown => request is Shutdown,
            AskView::BeginConfig => request is BeginConfig,
            AskView::EndConfig => request is EndConfig,
        },
{
    if let (Request::Reorder(names), AskView::Reorder(order)) = (request, ask) {
        assert(name_views(names@) == order);
        assert forall|i: int| 0 <= i < order.len() implies names@[i]@ == #[trigger] order[i] by {
            assert(name_views(names@)[i] == names@[i]@);
        }
    }
}

/// Asking for nothing in particular asks for one thing, whatever it is called with.
pub proof fn law_plain_verbs_ask_for_themselves(a1: LuaView, a2: LuaView, a3: LuaView)
    ensures
        verb_asks(Verb::UpdateAll, a1, a2, a3) == Ok::<Seq<AskView>, LuaFault>(seq![AskView::UpdateAll]),
        verb_asks(Verb::Reload, a1, a2, a3) == Ok::<Seq<AskView>, LuaFault>(seq![AskView::Reload]),
        verb_asks(Verb::Shutdown, a1, a2, a3) == Ok::<Seq<AskView>, LuaFault>(seq![AskView::Shutdown]),
        verb_asks(Verb::BeginConfig, a1, a2, a3) == Ok::<Seq<AskView>, LuaFault>(seq![AskView::BeginConfig]),
        verb_asks(Verb::EndConfig, a1, a2, a3) == Ok::<Seq<AskView>, LuaFault>(seq![AskView::EndConfig]),
{
}

/// Setting the bar asks for what its table says, and is refused exactly where the
/// table does not read.
pub proof fn law_setting_the_bar(a1: LuaView, a2: LuaView, a3: LuaView)
    ensures
        verb_asks(Verb::Bar, a1, a2, a3) is Ok <==> (a1 matches LuaView::Table(fields, _, _)
            && bar_fits(fields)),
        verb_asks(Verb::Bar, a1, a2, a3) matches Ok(asks) ==> asks.len() == 1 && (
        a1 matches LuaView::Table(fields, _, _) && (asks[0] matches AskView::SetBar(patch)
            && bar_patch(fields) == Ok::<BarPatchView, LuaFault>(patch))),
{
    if let LuaView::Table(fields, _, _) = a1 {
        crate::laws::tables::law_a_bar_says_what_stands_under_each_name(fields, arbitrary());
    }
}

/// Setting an item asks for what its table says, of what it selects, and is refused
/// exactly where either does not read.
pub proof fn law_setting_an_item(a1: LuaView, a2: LuaView, a3: LuaView)
    ensures
        verb_asks(Verb::SetItem, a1, a2, a3) is Ok <==> (spelled_text(a1) matches Some(which)
            && selector_read(which) is Ok && (a2 matches LuaView::Table(fields, _, _) && item_fits(
            fields,
        ))),
        verb_asks(Verb::SetItem, a1, a2, a3) matches Ok(asks) ==> asks.len() == 1 && (spelled_text(
            a1,
        ) matches Some(which) && (a2 matches LuaView::Table(fields, _, _) && (
        asks[0] matches AskView::SetItem(selector, patch) && selector_read(which) == Ok::<
            SelectorView,
            crate::name::InvalidNameView,
        >(selector) && item_patch(fields) == Ok::<ItemPatchView, LuaFault>(patch)))),
{
    if let LuaView::Table(fields, _, _) = a2 {
        crate::laws::tables::law_an_item_says_what_stands_under_each_name(fields, arbitrary());
    }
}

/// Moving an item asks for the item that is named first to go to the side that is
/// named second of the item that is named third.
pub proof fn law_moving_an_item(a1: LuaView, a2: LuaView, a3: LuaView)
    ensures
        verb_asks(Verb::Move, a1, a2, a3) is Ok <==> (spelled_text(a1) matches Some(name)
            && is_item_name(name) && (spelled_text(a2) matches Some(side) && (side == "before"@
            || side == "after"@) && (spelled_text(a3) matches Some(other) && is_item_name(other)))),
        verb_asks(Verb::Move, a1, a2, a3) matches Ok(asks) ==> asks.len() == 1 && (
        asks[0] matches AskView::Move(name, side, other) && spelled_text(a1) == Some(name)
            && spelled_text(a3) == Some(other) && spelled_text(a2) == Some(
            match side {
                Relative::Before => "before"@,
                Relative::After => "after"@,
            },
        )),
{
}

/// Pushing asks for the item that is named first to take the number that comes
/// second.
pub proof fn law_pushing_a_sample(a1: LuaView, a2: LuaView, a3: LuaView)
    ensures
        verb_asks(Verb::Push, a1, a2, a3) is Ok <==> (spelled_text(a1) matches Some(name)
            && is_item_name(name) && spelled_number(a2) is Some),
        verb_asks(Verb::Push, a1, a2, a3) matches Ok(asks) ==> asks.len() == 1 && (
        asks[0] matches AskView::Push(name, sample) && spelled_text(a1) == Some(name)
            && spelled_number(a2) == Some(sample)),
{
}

/// The texts of a list, one by one.
pub proof fn lemma_texts(items: Seq<LuaView>, form: TextForm)
    ensures
        texts_read(items, form) is Ok <==> forall|i: int|
            0 <= i < items.len() ==> spelled_text(#[trigger] items[i]) is Some,
        texts_read(items, form) matches Ok(texts) ==> texts.len() == items.len() && forall|i: int|
            0 <= i < items.len() ==> spelled_text(#[trigger] items[i]) == Some(texts[i]),
    decreases items.len(),
{
    if items.len() > 0 {
        let short = items.drop_last();
        lemma_texts(short, form);
        assert(items[items.len() - 1] == items.last());
        assert forall|i: int| 0 <= i < short.len() implies #[trigger] items[i] == short[i] by {}
        if texts_read(short, form) is Err {
            let i = choose|i: int|
                0 <= i < short.len() && spelled_text(#[trigger] short[i]) is None;
            assert(spelled_text(items[i]) is None);
        }
        if let Ok(texts) = texts_read(items, form) {
            let before = texts_read(short, form)->Ok_0;
            assert forall|i: int| 0 <= i < items.len() implies spelled_text(#[trigger] items[i])
                == Some(texts[i]) by {
                if i < short.len() {
                    assert(items[i] == short[i]);
                    assert(texts[i] == before[i]);
                }
            }
        }
        if forall|i: int| 0 <= i < items.len() ==> spelled_text(#[trigger] items[i]) is Some {
            assert forall|i: int| 0 <= i < short.len() implies spelled_text(
                #[trigger] short[i],
            ) is Some by {
                assert(items[i] == short[i]);
            }
            assert(spelled_text(items[items.len() - 1]) is Some);
        }
    }
}

/// The removals of some names, one by one.
proof fn lemma_removals(names: Seq<Seq<char>>)
    ensures
        removals(names) is Ok <==> forall|i: int|
            0 <= i < names.len() ==> selector_read(#[trigger] names[i]) is Ok,
        removals(names) matches Ok(asks) ==> asks.len() == names.len() && forall|i: int|
            0 <= i < names.len() ==> selector_read(#[trigger] names[i]) is Ok && asks[i]
                == AskView::Remove(selector_read(names[i])->Ok_0),
    decreases names.len(),
{
    if names.len() > 0 {
        let short = names.drop_last();
        lemma_removals(short);
        assert(names[names.len() - 1] == names.last());
        if removals(short) is Err {
            let i = choose|i: int|
                0 <= i < short.len() && !(selector_read(#[trigger] short[i]) is Ok);
            assert(names[i] == short[i]);
        }
        if let Ok(asks) = removals(names) {
            let before = removals(short)->Ok_0;
            assert forall|i: int| 0 <= i < names.len() implies selector_read(#[trigger] names[i]) is Ok
                && asks[i] == AskView::Remove(selector_read(names[i])->Ok_0) by {
                if i < short.len() {
                    assert(names[i] == short[i]);
                    assert(asks[i] == before[i]);
                }
            }
        }
        if forall|i: int| 0 <= i < names.len() ==> selector_read(#[trigger] names[i]) is Ok {
            assert forall|i: int| 0 <= i < short.len() implies selector_read(
                #[trigger] short[i],
            ) is Ok by {
                assert(names[i] == short[i]);
            }
            assert(selector_read(names[names.len() - 1]) is Ok);
        }
    }
}

/// The names of some items, one by one.
proof fn lemma_item_names(names: Seq<Seq<char>>)
    ensures
        item_names(names) is Ok <==> forall|i: int|
            0 <= i < names.len() ==> is_item_name(#[trigger] names[i]),
        item_names(names) matches Ok(order) ==> order == names,
    decreases names.len(),
{
    if names.len() > 0 {
        let short = names.drop_last();
        lemma_item_names(short);
        assert(names[names.len() - 1] == names.last());
        assert(short.push(names.last()) =~= names);
        if item_names(short) is Err {
            let i = choose|i: int| 0 <= i < short.len() && !is_item_name(#[trigger] short[i]);
            assert(names[i] == short[i]);
        }
        if forall|i: int| 0 <= i < names.len() ==> is_item_name(#[trigger] names[i]) {
            assert forall|i: int| 0 <= i < short.len() implies is_item_name(#[trigger] short[i]) by {
                assert(names[i] == short[i]);
            }
            assert(is_item_name(names[names.len() - 1]));
        }
    }
}

/// Removing by one text asks for what it selects to be removed, and removing by a
/// list asks for that of each of its texts, in order.
pub proof fn law_removing_items(a1: LuaView, a2: LuaView, a3: LuaView)
    ensures
        a1 matches LuaView::Text(t) ==> (verb_asks(Verb::Remove, a1, a2, a3) is Ok
            <==> selector_read(t.text) is Ok) && (verb_asks(Verb::Remove, a1, a2, a3) matches Ok(
            asks,
        ) ==> asks == seq![AskView::Remove(selector_read(t.text)->Ok_0)]),
        a1 matches LuaView::Table(_, items, _) ==> (verb_asks(Verb::Remove, a1, a2, a3) is Ok
            <==> forall|i: int|
            0 <= i < items.len() ==> (spelled_text(#[trigger] items[i]) matches Some(which)
                && selector_read(which) is Ok)),
        a1 matches LuaView::Table(_, items, _) ==> (verb_asks(Verb::Remove, a1, a2, a3) matches Ok(
            asks,
        ) ==> asks.len() == items.len() && forall|i: int|
            0 <= i < items.len() ==> (spelled_text(#[trigger] items[i]) matches Some(which)
                && selector_read(which) is Ok && asks[i] == AskView::Remove(
                selector_read(which)->Ok_0,
            ))),
{
    match a1 {
        LuaView::Text(t) => {
            lemma_removals(seq![t.text]);
            assert(seq![t.text][0] == t.text);
            if let Ok(asks) = removals(seq![t.text]) {
                assert(asks =~= seq![AskView::Remove(selector_read(t.text)->Ok_0)]);
            }
        },
        LuaView::Table(_, items, _) => {
            lemma_texts(items, TextForm::Bytes);
            if let Ok(texts) = texts_read(items, TextForm::Bytes) {
                lemma_removals(texts);
                if removals(texts) is Err {
                    let i = choose|i: int|
                        0 <= i < texts.len() && !(selector_read(#[trigger] texts[i]) is Ok);
                    assert(spelled_text(items[i]) == Some(texts[i]));
                } else {
                    assert forall|i: int| 0 <= i < items.len() implies (spelled_text(
                        #[trigger] items[i],
                    ) matches Some(which) && selector_read(which) is Ok) by {
                        assert(selector_read(texts[i]) is Ok);
                    }
                    let asks = removals(texts)->Ok_0;
                    assert forall|i: int| 0 <= i < items.len() implies (spelled_text(
                        #[trigger] items[i],
                    ) matches Some(which) && selector_read(which) is Ok && asks[i]
                        == AskView::Remove(selector_read(which)->Ok_0)) by {
                        assert(selector_read(texts[i]) is Ok);
                    }
                }
            } else {
                let i = choose|i: int|
                    0 <= i < items.len() && spelled_text(#[trigger] items[i]) is None;
                assert(spelled_text(items[i]) is None);
            }
        },
        _ => {},
    }
}

/// Reordering by a list asks for the items it names, in its order.
pub proof fn law_reordering_items(a1: LuaView, a2: LuaView, a3: LuaView)
    ensures
        a1 matches LuaView::Table(_, items, _) ==> (verb_asks(Verb::Reorder, a1, a2, a3) is Ok
            <==> forall|i: int|
            0 <= i < items.len() ==> (spelled_text(#[trigger] items[i]) matches Some(name)
                && is_item_name(name))),
        a1 matches LuaView::Table(_, items, _) ==> (verb_asks(
            Verb::Reorder,
            a1,
            a2,
            a3,
        ) matches Ok(asks) ==> asks.len() == 1 && (asks[0] matches AskView::Reorder(order)
            && order.len() == items.len() && forall|i: int|
            0 <= i < items.len() ==> spelled_text(#[trigger] items[i]) == Some(order[i]))),
{
    if let LuaView::Table(_, items, _) = a1 {
        lemma_texts(items, TextForm::Bytes);
        if let Ok(texts) = texts_read(items, TextForm::Bytes) {
            lemma_item_names(texts);
            if item_names(texts) is Err {
                let i = choose|i: int| 0 <= i < texts.len() && !is_item_name(#[trigger] texts[i]);
                assert(spelled_text(items[i]) == Some(texts[i]));
            } else {
                assert forall|i: int| 0 <= i < items.len() implies (spelled_text(
                    #[trigger] items[i],
                ) matches Some(name) && is_item_name(name)) by {
                    assert(is_item_name(texts[i]));
                }
            }
        } else {
            let i = choose|i: int| 0 <= i < items.len() && spelled_text(#[trigger] items[i]) is None;
            assert(spelled_text(items[i]) is None);
        }
    }
}

/// What a table hands an event, name by name.
proof fn lemma_vars(fields: Fields)
    requires
        unique(fields),
    ensures
        vars_read(fields) is Ok <==> forall|i: int|
            0 <= i < fields.len() ==> spelled_text((#[trigger] fields[i]).1) is Some,
        vars_read(fields) matches Ok(vars) ==> (forall|i: int|
            0 <= i < fields.len() ==> vars.contains_key((#[trigger] fields[i]).0) && Some(
                vars[fields[i].0],
            ) == spelled_text(fields[i].1)) && (forall|name: Seq<char>| #[trigger]
            vars.contains_key(name) ==> exists|i: int|
                0 <= i < fields.len() && (#[trigger] fields[i]).0 == name),
    decreases fields.len(),
{
    if fields.len() > 0 {
        let short = fields.drop_last();
        let end = fields.len() - 1;
        crate::assoc::lemma_unique_drop_last(fields);
        lemma_vars(short);
        assert(fields[end] == fields.last());
        assert forall|i: int| 0 <= i < short.len() implies #[trigger] fields[i] == short[i]
            && fields[i].0 != fields[end].0 by {}
        if vars_read(short) is Err {
            let i = choose|i: int|
                0 <= i < short.len() && spelled_text((#[trigger] short[i]).1) is None;
            assert(spelled_text(fields[i].1) is None);
        }
        if forall|i: int| 0 <= i < fields.len() ==> spelled_text((#[trigger] fields[i]).1) is Some {
            assert forall|i: int| 0 <= i < short.len() implies spelled_text(
                (#[trigger] short[i]).1,
            ) is Some by {
                assert(fields[i] == short[i]);
            }
            assert(spelled_text(fields[end].1) is Some);
        }
        if let Ok(vars) = vars_read(fields) {
            let before = vars_read(short)->Ok_0;
            assert forall|i: int| 0 <= i < fields.len() implies vars.contains_key(
                (#[trigger] fields[i]).0,
            ) && Some(vars[fields[i].0]) == spelled_text(fields[i].1) by {
                if i < short.len() {
                    assert(fields[i] == short[i]);
                    assert(before.contains_key(short[i].0));
                }
            }
            assert forall|name: Seq<char>| #[trigger] vars.contains_key(name) implies exists|i: int|
                0 <= i < fields.len() && (#[trigger] fields[i]).0 == name by {
                if name == fields[end].0 {
                    assert(fields[end].0 == name);
                } else {
                    assert(before.contains_key(name));
                    let i = choose|i: int| 0 <= i < short.len() && (#[trigger] short[i]).0 == name;
                    assert(fields[i].0 == name);
                }
            }
        }
    }
}

/// Triggering an event asks for the event that is named. One of a config's own is
/// handed what its table says, each text under its own name and nothing else, and
/// one of the system's is handed nothing.
pub proof fn law_triggering_an_event(a1: LuaView, a2: LuaView, a3: LuaView)
    requires
        a2 matches LuaView::Table(fields, _, _) ==> unique(fields),
    ensures
        verb_asks(Verb::Trigger, a1, a2, a3) matches Ok(asks) ==> asks.len() == 1 && (
        asks[0] matches AskView::Trigger(kind, vars) && (spelled_text(a1) matches Some(name)
            && kind_read(name) == Some(kind)) && (!(kind is Custom) || a2 is Nil ==> vars == Map::<
            Seq<char>,
            Seq<char>,
        >::empty()) && (kind is Custom && !(a2 is Nil) ==> (a2 matches LuaView::Table(fields, _, _)
            && (forall|i: int|
            0 <= i < fields.len() ==> vars.contains_key((#[trigger] fields[i]).0) && Some(
                vars[fields[i].0],
            ) == spelled_text(fields[i].1)) && (forall|name: Seq<char>| #[trigger]
            vars.contains_key(name) ==> exists|i: int|
                0 <= i < fields.len() && (#[trigger] fields[i]).0 == name)))),
        (spelled_text(a1) matches Some(name) && kind_read(name) is Some && a2 is Nil) ==> verb_asks(
            Verb::Trigger,
            a1,
            a2,
            a3,
        ) is Ok,
        (spelled_text(a1) matches Some(name) && kind_read(name) is Some && (
        a2 matches LuaView::Table(fields, _, _) && forall|i: int|
            0 <= i < fields.len() ==> spelled_text((#[trigger] fields[i]).1) is Some))
            ==> verb_asks(Verb::Trigger, a1, a2, a3) is Ok,
        !(spelled_text(a1) matches Some(name) && kind_read(name) is Some) ==> verb_asks(
            Verb::Trigger,
            a1,
            a2,
            a3,
        ) is Err,
{
    if let LuaView::Table(fields, _, _) = a2 {
        lemma_vars(fields);
    }
}

/// What an item asks for of itself is of its own name.
pub proof fn law_an_item_asks_for_itself(name: Seq<char>, arg: LuaView)
    ensures
        item_verb_ask(ItemVerb::Remove, name, arg) == Ok::<AskView, LuaFault>(
            AskView::Remove(SelectorView::Name(name)),
        ),
        item_verb_ask(ItemVerb::Push, name, arg) is Ok <==> spelled_number(arg) is Some,
        item_verb_ask(ItemVerb::Push, name, arg) matches Ok(ask) ==> (ask matches AskView::Push(
            item,
            sample,
        ) && item == name && spelled_number(arg) == Some(sample)),
        item_verb_ask(ItemVerb::SetItem, name, arg) is Ok <==> (
        arg matches LuaView::Table(fields, _, _) && item_fits(fields)),
        item_verb_ask(ItemVerb::SetItem, name, arg) matches Ok(ask) ==> (
        arg matches LuaView::Table(fields, _, _) && (ask matches AskView::SetItem(selector, patch)
            && selector == SelectorView::Name(name) && item_patch(fields) == Ok::<
            ItemPatchView,
            LuaFault,
        >(patch))),
{
    if let LuaView::Table(fields, _, _) = arg {
        crate::laws::tables::law_an_item_says_what_stands_under_each_name(fields, arbitrary());
    }
}

/// What is asked about is the bar, the items, or the item that is named.
pub proof fn law_asking_about_something(verb: Seq<char>, arg: LuaView)
    ensures
        query_asked("bar"@, arg) == Some(Ok::<QueryView, LuaFault>(QueryView::Bar)),
        query_asked("items"@, arg) == Some(Ok::<QueryView, LuaFault>(QueryView::Items)),
        query_asked("item"@, arg) matches Some(Ok(asked)) ==> (asked matches QueryView::Item(name)
            && spelled_text(arg) == Some(name) && is_item_name(name)),
        (spelled_text(arg) matches Some(name) && is_item_name(name)) ==> (query_asked(
            "item"@,
            arg,
        ) matches Some(answer) && answer is Ok),
        query_asked(verb, arg) is Some <==> verb == "bar"@ || verb == "items"@ || verb == "item"@,
{
    reveal_strlit("bar");
    reveal_strlit("items");
    reveal_strlit("item");
    assert("bar"@.len() == 3 && "bar"@[0] == 'b');
    assert("items"@.len() == 5 && "items"@[0] == 'i');
    assert("item"@.len() == 4 && "item"@[0] == 'i');
}

/// The events a list names, one by one.
proof fn lemma_kinds(items: Seq<LuaView>)
    ensures
        kinds_list(items) matches Ok(kinds) ==> kinds.len() == items.len() && forall|i: int|
            0 <= i < items.len() ==> (spelled_text(#[trigger] items[i]) matches Some(name)
                && kind_read(name) == Some(kinds[i])),
        (forall|i: int|
            0 <= i < items.len() ==> (spelled_text(#[trigger] items[i]) matches Some(name)
                && kind_read(name) is Some)) ==> kinds_list(items) is Ok,
    decreases items.len(),
{
    if items.len() > 0 {
        let short = items.drop_last();
        lemma_kinds(short);
        assert(items[items.len() - 1] == items.last());
        if forall|i: int|
            0 <= i < items.len() ==> (spelled_text(#[trigger] items[i]) matches Some(name)
                && kind_read(name) is Some) {
            assert forall|i: int| 0 <= i < short.len() implies (spelled_text(
                #[trigger] short[i],
            ) matches Some(name) && kind_read(name) is Some) by {
                assert(items[i] == short[i]);
            }
            let end = items[items.len() - 1];
            assert(spelled_text(end) is Some);
        }
        if let Ok(kinds) = kinds_list(items) {
            let before = kinds_list(short)->Ok_0;
            assert forall|i: int| 0 <= i < items.len() implies (spelled_text(
                #[trigger] items[i],
            ) matches Some(name) && kind_read(name) == Some(kinds[i])) by {
                if i < short.len() {
                    assert(items[i] == short[i]);
                    assert(kinds[i] == before[i]);
                }
            }
        }
    }
}

/// A subscription is of the item that is named, to the events of its list, each of
/// them and in order.
pub proof fn law_subscribing_to_events(item: LuaView, events: LuaView)
    ensures
        subscription_of(item, events) matches Ok((name, kinds)) ==> (item matches LuaView::Text(t)
            && name == t.text && is_item_name(name)) && (events matches LuaView::Table(_, items, _)
            ==> kinds.len() == items.len() && forall|i: int|
            0 <= i < items.len() ==> (spelled_text(#[trigger] items[i]) matches Some(word)
                && kind_read(word) == Some(kinds[i]))) && (events matches LuaView::Text(t)
            ==> kinds.len() == 1 && kind_read(t.text) == Some(kinds[0])),
        (item matches LuaView::Text(t) && is_item_name(t.text) && (events matches LuaView::Table(
            _,
            items,
            _,
        ) && forall|i: int|
            0 <= i < items.len() ==> (spelled_text(#[trigger] items[i]) matches Some(word)
                && kind_read(word) is Some))) ==> subscription_of(item, events) is Ok,
{
    match events {
        LuaView::Table(_, items, _) => {
            lemma_kinds(items);
        },
        LuaView::Text(t) => {
            let one = seq![t.text];
            assert(one.drop_last() =~= Seq::<Seq<char>>::empty());
            assert(one.last() == t.text);
            assert(crate::convert::kinds_read(Seq::<Seq<char>>::empty()) == Ok::<
                Seq<KindView<()>>,
                LuaFault,
            >(Seq::empty()));
        },
        _ => {},
    }
}

/// A custom event is declared under the name that comes first, and bridged to the
/// notification that comes second, where one does.
pub proof fn law_declaring_an_event(a2: LuaView, a3: LuaView)
    ensures
        event_declared(a2, a3) matches Ok((name, notification)) ==> (a2 matches LuaView::Text(t)
            && kind_read(t.text) == Some(KindView::<()>::Custom(name))) && match notification {
            None => a3 is Nil,
            Some(other) => a3 matches LuaView::Text(t) && t.text == other && is_notification_name(
                other,
            ),
        },
        (a2 matches LuaView::Text(t) && (kind_read(t.text) matches Some(KindView::Custom(_)))
            && (a3 is Nil || (a3 matches LuaView::Text(n) && is_notification_name(n.text))))
            ==> event_declared(a2, a3) is Ok,
{
}

// ---------------------------------------------------------------------------
// Adding

/// An item that is given a name goes by it, and what follows it is next. One that is
/// given none goes by its kind and how many there were of that kind, counting it.
pub proof fn law_an_item_goes_by_its_name(
    v: AddView,
    kind: Seq<char>,
    extra: Extra,
    a2: LuaView,
    a3: LuaView,
    a4: LuaView,
)
    ensures
        a2 matches LuaView::Text(t) ==> (named(v, kind, extra, a2, a3, a4) matches Ok(call)
            && call.name == t.text && call.extra == a3 && call.opts == a4),
        !(a2 is Text) && !(a2 is Bytes) && extra_claims(extra, a2) ==> (named(
            v,
            kind,
            extra,
            a2,
            a3,
            a4,
        ) matches Ok(call) && call.name == next_name(v.anonymous, kind) && call.extra == a2
            && call.opts == a3),
        !(a2 is Text) && !extra_claims(extra, a2) ==> named(v, kind, extra, a2, a3, a4) is Err,
        next_name(v.anonymous, kind) == kind + "."@ + decimal_text(
            (if v.anonymous.contains_key(kind) {
                v.anonymous[kind] + 1
            } else {
                1
            }) as nat,
        ),
{
}

/// What an item is added with is laid over what every item is added with.
pub proof fn law_defaults_lie_under_what_is_said(base: TableView, over: TableView, made: Seq<char>)
    ensures
        merged_with(Some(base), Some(over), made) == (
            laid_fields(base.0, over.0, made),
            laid_items(base.1, over.1, made),
        ),
        merged_with(Some(base), None, made) == base,
        merged_with(None, Some(over), made) == over,
        merged_with(None, None, made).0.len() == 0,
        merged_with(None, None, made).1.len() == 0,
{
}

/// An item that is added is of its kind, under its name, and at the place its options
/// name, or at the left where they name none. Its properties are what its options
/// say, over what every item is added with.
pub proof fn law_an_item_is_added_as_its_options_say(
    v: AddView,
    spec: KindSpec,
    call: Named,
    made: Seq<char>,
    fields: Fields,
)
    requires
        v.defaults is None,
        spec.extra == Extra::Nothing,
        call.extra matches LuaView::Table(inner, _, _) && inner == fields,
    ensures
        planned(v, spec, call, made) matches Ok(plan) ==> plan.name == call.name && is_item_name(
            call.name,
        ) && (spec.tag != ComponentTag::Bracket ==> (plan.component matches ComponentView::Placed(
            tag,
            name,
            position,
        ) && tag == spec.tag && name == call.name && (lookup(fields, "position"@) is Nil ==> position is Left) && (position_at(
            fields,
            "position"@,
        ) matches Ok(Some(said)) ==> position == said))) && (item_patch(fields) matches Ok(patch)
            ==> (plan.patch matches Ok(said) && said.geometry == patch.geometry && said.popup
            == patch.popup && said.icon == patch.icon && said.label == patch.label && said.scripting
            == patch.scripting && said.members == patch.members && said.percentage
            == patch.percentage && said.highlight_color == patch.highlight_color && said.alias
            == (if spec.mirrors_its_own_name && patch.alias is None {
            Some(call.name)
        } else {
            patch.alias
        }))),
{
}

/// The width of a graph or a slider is what its options say, or else what it was
/// added with. The members of a bracket are what it was added with.
pub proof fn law_what_an_item_is_added_with_counts(
    patch: ItemPatchView,
    spec: KindSpec,
    name: Seq<char>,
    members: Seq<SelectorView>,
    extra: LuaView,
)
    ensures
        finished(patch, spec, name, members, extra) matches Ok(said) ==> (spec.extra
            == Extra::Members ==> said.members == Some(members)) && (spec.extra != Extra::Members
            ==> said.members == patch.members) && (spec.extra == Extra::Width ==> (
        said.geometry matches Some(geometry) && (match patch.geometry {
            Some(before) => if before.width is Some {
                geometry.width == before.width
            } else {
                geometry.width == spelled_number(extra)
            },
            None => geometry.width == spelled_number(extra),
        }))) && (spec.extra != Extra::Width ==> said.geometry == patch.geometry) && said.icon
            == patch.icon && said.label == patch.label && said.popup == patch.popup
            && said.scripting == patch.scripting,
        spec.extra == Extra::Width && spelled_number(extra) is Some ==> finished(
            patch,
            spec,
            name,
            members,
            extra,
        ) is Ok,
        spec.extra != Extra::Width ==> finished(patch, spec, name, members, extra) is Ok,
{
}

/// The options that end a call are its first table.
pub proof fn law_options_are_the_first_table(first: LuaView, second: LuaView)
    ensures
        first is Table ==> trailing(first, second) == first,
        !(first is Table) && second is Table ==> trailing(first, second) == second,
        !(first is Table) && !(second is Table) ==> trailing(first, second) is Nil,
{
}

/// A property under a namespace is the same as a table in a table.
pub proof fn law_a_property_of_a_part_is_under_its_name(
    group: Seq<char>,
    key: Seq<char>,
    value: LuaView,
    shown: Seq<char>,
)
    ensures
        lookup(wrapped(Seq::empty(), key, value, shown), key) == value,
        wrapped(Seq::empty(), key, value, shown).len() == 1,
        lookup(wrapped(seq![group], key, value, shown), group) matches LuaView::Table(inner, _, _)
            && lookup(inner, key) == value && inner.len() == 1,
        wrapped(seq![group], key, value, shown).len() == 1,
{
    let one = seq![group];
    assert(one.drop_last() =~= Seq::<Seq<char>>::empty());
    assert(one.last() == group);
    let inner = LuaView::Table(seq![(key, value)], Seq::empty(), shown);
    assert(wrapped(Seq::<Seq<char>>::empty(), group, inner, shown) =~= seq![(group, inner)]);
    assert(wrapped(one, key, value, shown) == wrapped(one.drop_last(), group, inner, shown));
}

/// Programs are looked for in the config's own directory before anywhere else.
pub proof fn law_the_config_is_searched_first(directory: Seq<char>, inherited: Seq<char>)
    ensures
        search_text(None, inherited) == inherited,
        inherited.len() == 0 ==> search_text(Some(directory), inherited) == directory,
        inherited.len() > 0 ==> search_text(Some(directory), inherited) == directory + ":"@
            + inherited,
{
}

} // verus!
