//! What a list of names says, said name by name, and how texts are ordered.

use crate::api::{members_list, members_value, names_value, opt_table_value, string_value};
use crate::convert::{members_at, selectors_read, Fields};
use crate::laws::calls::lemma_texts;
use crate::laws::tables::spelled_text;
use crate::lua::{lookup, LuaView, TextForm};
use crate::modules::{touches, LocatedView};
use crate::name::{selector_read, InvalidNameView, SelectorView};
use crate::vars::before;
use vstd::prelude::*;

verus! {

/// Whether a value is a list of what can be selected.
pub open spec fn is_selection(items: Seq<LuaView>) -> bool {
    forall|i: int|
        0 <= i < items.len() ==> (spelled_text(#[trigger] items[i]) matches Some(word)
            && selector_read(word) is Ok)
}

/// Texts read as selectors exactly where each of them does.
proof fn lemma_selectors(texts: Seq<Seq<char>>)
    ensures
        selectors_read(texts) is Ok <==> forall|i: int|
            0 <= i < texts.len() ==> selector_read(#[trigger] texts[i]) is Ok,
    decreases texts.len(),
{
    if texts.len() > 0 {
        let short = texts.drop_last();
        lemma_selectors(short);
        assert(texts[texts.len() - 1] == texts.last());
        if selectors_read(short) is Err {
            let i = choose|i: int|
                0 <= i < short.len() && !(selector_read(#[trigger] short[i]) is Ok);
            assert(texts[i] == short[i]);
        }
        if selectors_read(texts) is Ok {
            assert forall|i: int| 0 <= i < texts.len() implies selector_read(
                #[trigger] texts[i],
            ) is Ok by {
                if i < short.len() {
                    assert(texts[i] == short[i]);
                }
            }
        }
        if forall|i: int| 0 <= i < texts.len() ==> selector_read(#[trigger] texts[i]) is Ok {
            assert forall|i: int| 0 <= i < short.len() implies selector_read(
                #[trigger] short[i],
            ) is Ok by {
                assert(texts[i] == short[i]);
            }
            assert(selector_read(texts[texts.len() - 1]) is Ok);
        }
    }
}

/// Members read where there are none, or where each of a list can be selected.
pub proof fn law_members_read_where_each_does(fields: Fields)
    ensures
        members_at(fields) is Ok <==> match lookup(fields, "members"@) {
            LuaView::Nil => true,
            LuaView::Table(_, items, _) => is_selection(items),
            _ => false,
        },
{
    if let LuaView::Table(_, items, _) = lookup(fields, "members"@) {
        lemma_texts(items, TextForm::Text);
        if let Ok(texts) = crate::convert::texts_read(items, TextForm::Text) {
            lemma_selectors(texts);
            if selectors_read(texts) is Ok {
                assert forall|i: int| 0 <= i < items.len() implies (spelled_text(
                    #[trigger] items[i],
                ) matches Some(word) && selector_read(word) is Ok) by {
                    assert(selector_read(texts[i]) is Ok);
                }
            } else {
                let i = choose|i: int|
                    0 <= i < texts.len() && !(selector_read(#[trigger] texts[i]) is Ok);
                assert(spelled_text(items[i]) == Some(texts[i]));
            }
        } else {
            let i = choose|i: int|
                0 <= i < items.len() && spelled_text(#[trigger] items[i]) is None;
            assert(spelled_text(items[i]) is None);
        }
    }
}

/// What a bracket goes round is what its list selects, each of it and in order.
pub proof fn law_a_bracket_goes_round_what_it_lists(items: Seq<LuaView>)
    ensures
        members_list(items) is Ok <==> is_selection(items),
        members_list(items) matches Ok(members) ==> members.len() == items.len() && forall|i: int|
            0 <= i < items.len() ==> (spelled_text(#[trigger] items[i]) matches Some(word)
                && selector_read(word) == Ok::<SelectorView, InvalidNameView>(members[i])),
    decreases items.len(),
{
    if items.len() > 0 {
        let short = items.drop_last();
        law_a_bracket_goes_round_what_it_lists(short);
        assert(items[items.len() - 1] == items.last());
        if members_list(short) is Err {
            let i = choose|i: int|
                0 <= i < short.len() && !(spelled_text(#[trigger] short[i]) matches Some(word)
                    && selector_read(word) is Ok);
            assert(items[i] == short[i]);
        }
        if is_selection(items) {
            assert forall|i: int| 0 <= i < short.len() implies (spelled_text(
                #[trigger] short[i],
            ) matches Some(word) && selector_read(word) is Ok) by {
                assert(items[i] == short[i]);
            }
            let end = items[items.len() - 1];
            assert(spelled_text(end) is Some);
        }
        if let Ok(members) = members_list(items) {
            let already = members_list(short)->Ok_0;
            assert forall|i: int| 0 <= i < items.len() implies (spelled_text(
                #[trigger] items[i],
            ) matches Some(word) && selector_read(word) == Ok::<SelectorView, InvalidNameView>(
                members[i],
            )) by {
                if i < short.len() {
                    assert(items[i] == short[i]);
                    assert(members[i] == already[i]);
                }
            }
        }
    }
}

/// What a call takes: a text is itself, a table its fields and items, a list of names
/// each of them, and a value of any other shape is refused.
pub proof fn law_a_call_takes_what_it_is_given(value: LuaView, what: Seq<char>)
    ensures
        string_value(value, what) is Ok <==> value is Text,
        value matches LuaView::Text(t) ==> string_value(value, what)->Ok_0 == t.text,
        opt_table_value(value, what) is Ok <==> value is Nil || value is Table,
        value is Nil ==> opt_table_value(value, what)->Ok_0 is None,
        value matches LuaView::Table(fields, items, _) ==> opt_table_value(value, what)->Ok_0
            == Some((fields, items)),
        value matches LuaView::Text(t) ==> (names_value(value, what) matches Ok(names)
            && names.len() == 1 && names[0] == t.text),
        !(value is Text) && !(value is Table) ==> names_value(value, what) is Err,
        !(value is Table) ==> members_value(value) is Err,
        value matches LuaView::Table(_, items, _) ==> members_value(value) == members_list(items),
{
}

/// A path touches a file where it is the whole path of it, or has its name.
pub proof fn law_a_path_touches_a_file(file: LocatedView, path: LocatedView)
    ensures
        file.whole == path.whole ==> touches(file, path),
        file.file == path.file ==> touches(file, path),
        file.whole != path.whole && file.file != path.file ==> !touches(file, path),
{
}

/// Of two texts the one comes first whose first differing character is less, or that
/// the other goes on from.
pub proof fn law_texts_are_ordered_by_the_first_difference(
    common: Seq<char>,
    c: char,
    d: char,
    x: Seq<char>,
    y: Seq<char>,
)
    ensures
        c < d ==> before(common + seq![c] + x, common + seq![d] + y),
        before(common, common + seq![c] + x),
    decreases common.len(),
{
    let a = common + seq![c] + x;
    let b = common + seq![d] + y;
    if common.len() == 0 {
        assert(a[0] == c && b[0] == d);
    } else {
        let rest = common.skip(1);
        law_texts_are_ordered_by_the_first_difference(rest, c, d, x, y);
        assert(a.skip(1) =~= rest + seq![c] + x);
        assert(b.skip(1) =~= rest + seq![d] + y);
        assert(a[0] == common[0] && b[0] == common[0]);
    }
}

} // verus!
