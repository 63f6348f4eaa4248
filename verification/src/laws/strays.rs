//! What is said of a key that nothing reads, said of the table it stands in.

use crate::lua::{lookup, LuaView};
use crate::convert::Fields;
use crate::stray::{
    all_item_strays, first_resembling, first_slip_apart, gap_in, item_keys, known_in, nearest_to,
    note_of, one_left_out, one_replaced, resembles, slip_apart, strays_in, strays_under, NoteView,
    Place, StrayView,
};
use vstd::prelude::*;

verus! {

/// Whether every key of a table that nothing reads there is noted, as of where it
/// stands.
pub open spec fn all_noted(
    notes: Seq<StrayView>,
    fields: Fields,
    place: Place,
    what: Seq<char>,
) -> bool {
    forall|i: int|
        0 <= i < fields.len() ==> match note_of(place, (#[trigger] fields[i]).0) {
            Some(note) => notes.contains(StrayView { what, key: fields[i].0, note }),
            None => true,
        }
}

/// The keys of one table that nothing reads are noted, each of them, and nothing
/// else.
pub proof fn law_each_stray_key_is_noted(fields: Fields, place: Place, what: Seq<char>)
    ensures
        all_noted(strays_in(fields, place, what), fields, place, what),
        strays_in(fields, place, what).len() <= fields.len(),
        forall|k: int|
            0 <= k < strays_in(fields, place, what).len() ==> {
                let stray = #[trigger] strays_in(fields, place, what)[k];
                stray.what == what && note_of(place, stray.key) == Some(stray.note) && exists|
                    i: int,
                |
                    0 <= i < fields.len() && (#[trigger] fields[i]).0 == stray.key
            },
    decreases fields.len(),
{
    let notes = strays_in(fields, place, what);
    if fields.len() > 0 {
        let short = fields.drop_last();
        let before = strays_in(short, place, what);
        law_each_stray_key_is_noted(short, place, what);
        assert forall|i: int| 0 <= i < fields.len() implies match note_of(
            place,
            (#[trigger] fields[i]).0,
        ) {
            Some(note) => notes.contains(StrayView { what, key: fields[i].0, note }),
            None => true,
        } by {
            if let Some(note) = note_of(place, fields[i].0) {
                let stray = StrayView { what, key: fields[i].0, note };
                if i < short.len() {
                    assert(short[i] == fields[i]);
                    assert(before.contains(stray));
                    let k = choose|k: int| 0 <= k < before.len() && before[k] == stray;
                    assert(notes[k] == stray);
                } else {
                    assert(notes.last() == stray);
                    assert(notes[notes.len() - 1] == stray);
                }
            }
        }
        assert forall|k: int| 0 <= k < notes.len() implies {
            let stray = #[trigger] notes[k];
            stray.what == what && note_of(place, stray.key) == Some(stray.note) && exists|i: int|
                0 <= i < fields.len() && (#[trigger] fields[i]).0 == stray.key
        } by {
            if k < before.len() {
                assert(notes[k] == before[k]);
                let i = choose|i: int|
                    0 <= i < short.len() && (#[trigger] short[i]).0 == before[k].key;
                assert(fields[i].0 == notes[k].key);
            } else {
                assert(fields[fields.len() - 1].0 == notes[k].key);
            }
        }
    }
}

/// What is noted of a part is noted of the whole.
proof fn lemma_part(
    part: Seq<StrayView>,
    all: Seq<StrayView>,
    from: int,
    fields: Fields,
    place: Place,
    what: Seq<char>,
)
    requires
        0 <= from <= all.len() - part.len(),
        all.subrange(from, from + part.len()) == part,
        all_noted(part, fields, place, what),
    ensures
        all_noted(all, fields, place, what),
{
    assert forall|i: int| 0 <= i < fields.len() implies match note_of(
        place,
        (#[trigger] fields[i]).0,
    ) {
        Some(note) => all.contains(StrayView { what, key: fields[i].0, note }),
        None => true,
    } by {
        if let Some(note) = note_of(place, fields[i].0) {
            let stray = StrayView { what, key: fields[i].0, note };
            assert(part.contains(stray));
            let k = choose|k: int| 0 <= k < part.len() && part[k] == stray;
            assert(all.subrange(from, from + part.len())[k] == all[from + k]);
            assert(all[from + k] == stray);
        }
    }
}

/// What is noted first stays noted, whatever is noted after, and so is what comes
/// after.
proof fn lemma_sum(
    a: Seq<StrayView>,
    b: Seq<StrayView>,
    fields: Fields,
    place: Place,
    what: Seq<char>,
)
    ensures
        all_noted(a, fields, place, what) ==> all_noted(a + b, fields, place, what),
        all_noted(b, fields, place, what) ==> all_noted(a + b, fields, place, what),
{
    assert((a + b).subrange(0, a.len() as int) =~= a);
    assert((a + b).subrange(a.len() as int, (a + b).len() as int) =~= b);
    if all_noted(a, fields, place, what) {
        lemma_part(a, a + b, 0, fields, place, what);
    }
    if all_noted(b, fields, place, what) {
        lemma_part(b, a + b, a.len() as int, fields, place, what);
    }
}

/// What is noted anywhere among six lists is noted among all of them.
proof fn lemma_six(
    lists: Seq<Seq<StrayView>>,
    k: int,
    fields: Fields,
    place: Place,
    what: Seq<char>,
)
    requires
        lists.len() == 6,
        0 <= k < 6,
        all_noted(lists[k], fields, place, what),
    ensures
        all_noted(
            lists[0] + lists[1] + lists[2] + lists[3] + lists[4] + lists[5],
            fields,
            place,
            what,
        ),
{
    let one = lists[0];
    let two = one + lists[1];
    let three = two + lists[2];
    let four = three + lists[3];
    let five = four + lists[4];
    lemma_sum(one, lists[1], fields, place, what);
    lemma_sum(two, lists[2], fields, place, what);
    lemma_sum(three, lists[3], fields, place, what);
    lemma_sum(four, lists[4], fields, place, what);
    lemma_sum(five, lists[5], fields, place, what);
}

/// Every key of an item's table that nothing reads is noted, however deep it stands:
/// in the table itself, in either half and in the font of either half, in the popup
/// and in what is behind it, in what is behind the item, and in its alias.
pub proof fn law_every_stray_key_of_an_item_is_noted(fields: Fields)
    ensures
        all_noted(all_item_strays(fields), fields, Place::Item, "item"@),
        lookup(fields, "icon"@) matches LuaView::Table(inner, _, _) ==> all_noted(
            all_item_strays(fields),
            inner,
            Place::Run,
            "icon"@,
        ) && (lookup(inner, "font"@) matches LuaView::Table(font, _, _) ==> all_noted(
            all_item_strays(fields),
            font,
            Place::Font,
            "font"@,
        )),
        lookup(fields, "label"@) matches LuaView::Table(inner, _, _) ==> all_noted(
            all_item_strays(fields),
            inner,
            Place::Run,
            "label"@,
        ) && (lookup(inner, "font"@) matches LuaView::Table(font, _, _) ==> all_noted(
            all_item_strays(fields),
            font,
            Place::Font,
            "font"@,
        )),
        lookup(fields, "popup"@) matches LuaView::Table(inner, _, _) ==> all_noted(
            all_item_strays(fields),
            inner,
            Place::Popup,
            "popup"@,
        ) && (lookup(inner, "background"@) matches LuaView::Table(behind, _, _) ==> all_noted(
            all_item_strays(fields),
            behind,
            Place::Background,
            "background"@,
        )),
        lookup(fields, "background"@) matches LuaView::Table(inner, _, _) ==> all_noted(
            all_item_strays(fields),
            inner,
            Place::Background,
            "background"@,
        ),
        lookup(fields, "alias"@) matches LuaView::Table(inner, _, _) ==> all_noted(
            all_item_strays(fields),
            inner,
            Place::Alias,
            "alias"@,
        ),
{
    let lists = seq![
        strays_in(fields, Place::Item, "item"@),
        crate::stray::run_strays(fields, "icon"@),
        crate::stray::run_strays(fields, "label"@),
        crate::stray::popup_strays(fields),
        strays_under(fields, "background"@, Place::Background),
        strays_under(fields, "alias"@, Place::Alias),
    ];
    law_each_stray_key_is_noted(fields, Place::Item, "item"@);
    lemma_six(lists, 0, fields, Place::Item, "item"@);
    lemma_half(fields, "icon"@, lists, 1);
    lemma_half(fields, "label"@, lists, 2);
    if let LuaView::Table(inner, _, _) = lookup(fields, "popup"@) {
        law_each_stray_key_is_noted(inner, Place::Popup, "popup"@);
        let first = strays_in(inner, Place::Popup, "popup"@);
        let behind = strays_under(inner, "background"@, Place::Background);
        lemma_sum(first, behind, inner, Place::Popup, "popup"@);
        lemma_six(lists, 3, inner, Place::Popup, "popup"@);
        if let LuaView::Table(deep, _, _) = lookup(inner, "background"@) {
            law_each_stray_key_is_noted(deep, Place::Background, "background"@);
            lemma_sum(first, behind, deep, Place::Background, "background"@);
            lemma_six(lists, 3, deep, Place::Background, "background"@);
        }
    }
    if let LuaView::Table(inner, _, _) = lookup(fields, "background"@) {
        law_each_stray_key_is_noted(inner, Place::Background, "background"@);
        lemma_six(lists, 4, inner, Place::Background, "background"@);
    }
    if let LuaView::Table(inner, _, _) = lookup(fields, "alias"@) {
        law_each_stray_key_is_noted(inner, Place::Alias, "alias"@);
        lemma_six(lists, 5, inner, Place::Alias, "alias"@);
    }
}

/// One half of an item, and its font.
proof fn lemma_half(fields: Fields, key: Seq<char>, lists: Seq<Seq<StrayView>>, k: int)
    requires
        lists.len() == 6,
        0 <= k < 6,
        lists[k] == crate::stray::run_strays(fields, key),
    ensures
        lookup(fields, key) matches LuaView::Table(inner, _, _) ==> all_noted(
            lists[0] + lists[1] + lists[2] + lists[3] + lists[4] + lists[5],
            inner,
            Place::Run,
            key,
        ) && (lookup(inner, "font"@) matches LuaView::Table(font, _, _) ==> all_noted(
            lists[0] + lists[1] + lists[2] + lists[3] + lists[4] + lists[5],
            font,
            Place::Font,
            "font"@,
        )),
{
    if let LuaView::Table(inner, _, _) = lookup(fields, key) {
        law_each_stray_key_is_noted(inner, Place::Run, key);
        let first = strays_in(inner, Place::Run, key);
        let fonts = strays_under(inner, "font"@, Place::Font);
        lemma_sum(first, fonts, inner, Place::Run, key);
        lemma_six(lists, k, inner, Place::Run, key);
        if let LuaView::Table(font, _, _) = lookup(inner, "font"@) {
            law_each_stray_key_is_noted(font, Place::Font, "font"@);
            lemma_sum(first, fonts, font, Place::Font, "font"@);
            lemma_six(lists, k, font, Place::Font, "font"@);
        }
    }
}

/// Whether one text begins or ends with the other.
pub open spec fn begins_or_ends(a: Seq<char>, b: Seq<char>) -> bool {
    if b.len() <= a.len() {
        a.subrange(0, b.len() as int) == b || a.subrange(a.len() - b.len(), a.len() as int) == b
    } else {
        b.subrange(0, a.len() as int) == a || b.subrange(b.len() - a.len(), b.len() as int) == a
    }
}

/// Whether two texts are the same but for one character: another in its place, one
/// too many or one too few.
pub open spec fn one_off(a: Seq<char>, b: Seq<char>) -> bool {
    ||| a == b
    ||| (a.len() == b.len() && exists|i: int|
        0 <= i < a.len() && #[trigger] a.remove(i) == b.remove(i))
    ||| (exists|i: int| 0 <= i < a.len() && #[trigger] a.remove(i) == b)
    ||| (exists|i: int| 0 <= i < b.len() && #[trigger] b.remove(i) == a)
}

/// What resembles a key begins or ends with it, or the other way round.
proof fn lemma_resembles(a: Seq<char>, b: Seq<char>)
    ensures
        resembles(a, b) <==> begins_or_ends(a, b),
{
    if b.len() <= a.len() {
        assert(a.take(b.len() as int) =~= a.subrange(0, b.len() as int));
        assert(a.skip(a.len() - b.len()) =~= a.subrange(a.len() - b.len(), a.len() as int));
    }
    if a.len() <= b.len() {
        assert(b.take(a.len() as int) =~= b.subrange(0, a.len() as int));
        assert(b.skip(b.len() - a.len()) =~= b.subrange(b.len() - a.len(), b.len() as int));
    }
    if a.len() == b.len() {
        assert(a.subrange(0, b.len() as int) =~= a);
        assert(b.subrange(0, a.len() as int) =~= b);
    }
}

/// What is one slip away from a key is one character off.
proof fn lemma_slip(a: Seq<char>, b: Seq<char>)
    ensures
        slip_apart(a, b) <==> one_off(a, b),
{
    if one_replaced(a, b) {
        let (i, c) = choose|i: int, c: char| 0 <= i < b.len() && a == #[trigger] b.update(i, c);
        assert(a.remove(i) =~= b.remove(i));
    }
    if a.len() == b.len() && exists|i: int|
        0 <= i < a.len() && #[trigger] a.remove(i) == b.remove(i) {
        let i = choose|i: int| 0 <= i < a.len() && #[trigger] a.remove(i) == b.remove(i);
        let c = a[i];
        assert forall|j: int| 0 <= j < a.len() implies a[j] == b.update(i, c)[j] by {
            if j < i {
                assert(a.remove(i)[j] == a[j] && b.remove(i)[j] == b[j]);
            } else if j > i {
                assert(a.remove(i)[j - 1] == a[j] && b.remove(i)[j - 1] == b[j]);
            }
        }
        assert(a =~= b.update(i, c));
    }
    if one_left_out(a, b) {
        let i = choose|i: int| 0 <= i < b.len() && a == #[trigger] b.remove(i);
        assert(b.remove(i) == a);
    }
    if one_left_out(b, a) {
        let i = choose|i: int| 0 <= i < a.len() && b == #[trigger] a.remove(i);
        assert(a.remove(i) == b);
    }
    if exists|i: int| 0 <= i < a.len() && #[trigger] a.remove(i) == b {
        let i = choose|i: int| 0 <= i < a.len() && #[trigger] a.remove(i) == b;
        assert(b == a.remove(i));
    }
    if exists|i: int| 0 <= i < b.len() && #[trigger] b.remove(i) == a {
        let i = choose|i: int| 0 <= i < b.len() && #[trigger] b.remove(i) == a;
        assert(a == b.remove(i));
    }
}

/// The first of some keys that fits a slip.
proof fn lemma_first(known: Seq<Seq<char>>, key: Seq<char>)
    ensures
        match first_resembling(known, key) {
            Some(guess) => exists|j: int|
                0 <= j < known.len() && #[trigger] known[j] == guess && begins_or_ends(guess, key)
                    && forall|m: int| 0 <= m < j ==> !begins_or_ends(#[trigger] known[m], key),
            None => forall|m: int|
                0 <= m < known.len() ==> !begins_or_ends(#[trigger] known[m], key),
        },
        match first_slip_apart(known, key) {
            Some(guess) => exists|j: int|
                0 <= j < known.len() && #[trigger] known[j] == guess && one_off(guess, key)
                    && forall|m: int| 0 <= m < j ==> !one_off(#[trigger] known[m], key),
            None => forall|m: int| 0 <= m < known.len() ==> !one_off(#[trigger] known[m], key),
        },
    decreases known.len(),
{
    if known.len() > 0 {
        let rest = known.skip(1);
        lemma_first(rest, key);
        lemma_resembles(known[0], key);
        lemma_slip(known[0], key);
        assert forall|m: int| 0 < m < known.len() implies #[trigger] known[m] == rest[m - 1] by {}
        if resembles(known[0], key) {
            assert(known[0] == known[0]);
        } else if let Some(guess) = first_resembling(rest, key) {
            let j = choose|j: int|
                0 <= j < rest.len() && #[trigger] rest[j] == guess && begins_or_ends(guess, key)
                    && forall|m: int| 0 <= m < j ==> !begins_or_ends(#[trigger] rest[m], key);
            assert(known[j + 1] == guess);
            assert forall|m: int| 0 <= m < j + 1 implies !begins_or_ends(#[trigger] known[m], key) by {
                if m > 0 {
                    assert(known[m] == rest[m - 1]);
                }
            }
        }
        if slip_apart(known[0], key) {
            assert(known[0] == known[0]);
        } else if let Some(guess) = first_slip_apart(rest, key) {
            let j = choose|j: int|
                0 <= j < rest.len() && #[trigger] rest[j] == guess && one_off(guess, key)
                    && forall|m: int| 0 <= m < j ==> !one_off(#[trigger] rest[m], key);
            assert(known[j + 1] == guess);
            assert forall|m: int| 0 <= m < j + 1 implies !one_off(#[trigger] known[m], key) by {
                if m > 0 {
                    assert(known[m] == rest[m - 1]);
                }
            }
        }
    }
}

/// What is suggested for a key is the first known one that begins or ends with it or
/// that it begins or ends with. Where there is none, it is the first that is one
/// character off. Where there is none of those either, nothing is suggested.
pub proof fn law_the_nearest_key_is_suggested(key: Seq<char>, known: Seq<Seq<char>>, i: int)
    requires
        0 <= i < known.len(),
    ensures
        begins_or_ends(known[i], key) ==> (nearest_to(key, known) matches Some(guess)
            && begins_or_ends(guess, key) && exists|j: int|
            0 <= j <= i && #[trigger] known[j] == guess),
        one_off(known[i], key) ==> (nearest_to(key, known) matches Some(guess) && (begins_or_ends(
            guess,
            key,
        ) || one_off(guess, key))),
        nearest_to(key, known) is None ==> !begins_or_ends(known[i], key) && !one_off(
            known[i],
            key,
        ),
        nearest_to(key, known) matches Some(guess) ==> begins_or_ends(guess, key) || one_off(
            guess,
            key,
        ),
{
    lemma_first(known, key);
    if begins_or_ends(known[i], key) {
        let guess = first_resembling(known, key)->0;
        let j = choose|j: int|
            0 <= j < known.len() && #[trigger] known[j] == guess && begins_or_ends(guess, key)
                && forall|m: int| 0 <= m < j ==> !begins_or_ends(#[trigger] known[m], key);
        assert(known[i] == known[i]);
        assert(j <= i);
    }
}

/// A key that an item reads, standing in a part of one that does not, is said to
/// belong to the item. A key that is planned for is said to be, and any other is
/// given the nearest key there is, or said to do nothing.
pub proof fn law_a_stray_key_is_told_what_it_is(place: Place, key: Seq<char>)
    ensures
        known_in(place).contains(key) ==> note_of(place, key) is None,
        !known_in(place).contains(key) ==> note_of(place, key) is Some,
        place == Place::Run && key == "y_offset"@ && !known_in(place).contains(key) ==> note_of(
            place,
            key,
        ) matches Some(NoteView::Unimplemented(_)),
        place == Place::Alias && key == "color"@ ==> note_of(place, key) matches Some(
            NoteView::Unimplemented(_),
        ),
        !known_in(place).contains(key) && gap_in(place, key) is None && place != Place::Item
            && item_keys().contains(key) ==> note_of(place, key) == Some(NoteView::BelongsToItem),
        note_of(place, key) matches Some(NoteView::DidYouMean(guess)) ==> known_in(place).contains(
            guess,
        ),
        note_of(place, key) == Some(NoteView::BelongsToItem) ==> item_keys().contains(key) && place
            != Place::Item,
{
    crate::stray::law_a_guess_is_a_known_key(key, known_in(place));
}

} // verus!
