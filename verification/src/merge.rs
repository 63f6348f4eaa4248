//! One Lua table laid over another.

use crate::lua::{
    lemma_lua_fields, lemma_lua_items, lookup, lua_fields, lua_items, lua_view, LuaTable, LuaValue,
    LuaView,
};
use crate::text::same;
use vstd::prelude::*;

verus! {

/// Where a field stands, past the end where there is none.
pub open spec fn spot(fields: Seq<(Seq<char>, LuaView)>, key: Seq<char>) -> int
    decreases fields.len(),
{
    if fields.len() == 0 {
        0
    } else if fields[0].0 == key {
        0
    } else {
        1 + spot(fields.skip(1), key)
    }
}

/// A field set.
pub open spec fn put(
    fields: Seq<(Seq<char>, LuaView)>,
    key: Seq<char>,
    value: LuaView,
) -> Seq<(Seq<char>, LuaView)> {
    if spot(fields, key) < fields.len() {
        fields.update(spot(fields, key), (key, value))
    } else {
        fields.push((key, value))
    }
}

/// A value laid over another: two tables are merged into one that is shown as is
/// said, and else the upper one stands.
pub open spec fn laid(base: LuaView, overlay: LuaView, made: Seq<char>) -> LuaView
    decreases overlay,
{
    match overlay {
        LuaView::Table(fields, items, _) => match base {
            LuaView::Table(under_fields, under_items, _) => LuaView::Table(
                laid_fields(under_fields, fields, made),
                laid_items(under_items, items, made),
                made,
            ),
            _ => overlay,
        },
        _ => overlay,
    }
}

/// Fields laid over fields.
pub open spec fn laid_fields(
    base: Seq<(Seq<char>, LuaView)>,
    overlay: Seq<(Seq<char>, LuaView)>,
    made: Seq<char>,
) -> Seq<(Seq<char>, LuaView)>
    decreases overlay,
{
    if overlay.len() == 0 {
        base
    } else {
        let before = laid_fields(base, overlay.drop_last(), made);
        let (key, value) = overlay.last();
        put(before, key, laid(lookup(before, key), value, made))
    }
}

/// Items laid over items, place by place.
pub open spec fn laid_items(
    base: Seq<LuaView>,
    overlay: Seq<LuaView>,
    made: Seq<char>,
) -> Seq<LuaView>
    decreases overlay,
{
    if overlay.len() == 0 {
        base
    } else {
        let before = laid_items(base, overlay.drop_last(), made);
        let at = overlay.len() - 1;
        if at < base.len() {
            before.update(at, laid(base[at], overlay.last(), made))
        } else {
            before.push(overlay.last())
        }
    }
}

/// Where a field stands says what it holds.
pub proof fn lemma_spot(fields: Seq<(Seq<char>, LuaView)>, key: Seq<char>)
    ensures
        0 <= spot(fields, key) <= fields.len(),
        spot(fields, key) < fields.len() ==> fields[spot(fields, key)].0 == key && lookup(
            fields,
            key,
        ) == fields[spot(fields, key)].1,
        spot(fields, key) == fields.len() ==> lookup(fields, key) == LuaView::Nil,
        forall|j: int| 0 <= j < spot(fields, key) ==> #[trigger] fields[j].0 != key,
    decreases fields.len(),
{
    if fields.len() > 0 && fields[0].0 != key {
        let rest = fields.skip(1);
        lemma_spot(rest, key);
        assert forall|j: int| 0 <= j < spot(fields, key) implies #[trigger] fields[j].0 != key by {
            if j > 0 {
                assert(rest[j - 1] == fields[j]);
            }
        }
    }
}

/// The first field of a name stands where the name is found.
pub proof fn lemma_spot_is(fields: Seq<(Seq<char>, LuaView)>, key: Seq<char>, at: int)
    requires
        0 <= at <= fields.len(),
        at < fields.len() ==> fields[at].0 == key,
        forall|j: int| 0 <= j < at ==> #[trigger] fields[j].0 != key,
    ensures
        spot(fields, key) == at,
{
    lemma_spot(fields, key);
    let s = spot(fields, key);
    if s < at {
        assert(fields[s].0 == key);
    }
    if at < s {
        assert(fields[at].0 != key);
    }
}

/// A field set holds what it was set to, and every other what it held.
pub proof fn lemma_put(
    fields: Seq<(Seq<char>, LuaView)>,
    key: Seq<char>,
    value: LuaView,
    other: Seq<char>,
)
    ensures
        lookup(put(fields, key, value), key) == value,
        other != key ==> lookup(put(fields, key, value), other) == lookup(fields, other),
{
    let after = put(fields, key, value);
    let at = spot(fields, key);
    lemma_spot(fields, key);
    lemma_spot_is(after, key, at);
    lemma_spot(after, key);
    lemma_spot(fields, other);
    if other != key {
        let there = spot(fields, other);
        if there < fields.len() {
            assert(after[there] == fields[there]);
            assert forall|j: int| 0 <= j < there implies #[trigger] after[j].0 != other by {
                if j == at {
                } else {
                    assert(after[j] == fields[j]);
                }
            }
            lemma_spot_is(after, other, there);
        } else {
            assert forall|j: int| 0 <= j < after.len() implies #[trigger] after[j].0 != other by {
                if j != at {
                    assert(after[j] == fields[j]);
                }
            }
            lemma_spot_is(after, other, after.len() as int);
        }
        lemma_spot(after, other);
    }
}

/// Sets a field.
fn put_field(fields: &mut Vec<(String, LuaValue)>, key: &str, value: LuaValue)
    ensures
        lua_fields(final(fields)@) == put(lua_fields(old(fields)@), key@, value@),
{
    let ghost all = lua_fields(fields@);
    let mut i: usize = 0;
    proof {
        lemma_lua_fields(fields@);
    }
    while i < fields.len() && !same(&fields[i].0, key)
        invariant
            i <= fields@.len(),
            all == lua_fields(fields@),
            all.len() == fields@.len(),
            forall|j: int| 0 <= j < all.len() ==> #[trigger] all[j].0 == fields@[j].0@,
            forall|j: int| 0 <= j < i ==> #[trigger] all[j].0 != key@,
        decreases fields@.len() - i,
    {
        assert(all[i as int].0 == fields@[i as int].0@);
        i = i + 1;
    }
    proof {
        if i < fields@.len() {
            assert(all[i as int].0 == fields@[i as int].0@);
        }
        lemma_spot_is(all, key@, i as int);
    }
    let ghost new = value@;
    if i < fields.len() {
        fields.set(i, (key.to_owned(), value));
    } else {
        fields.push((key.to_owned(), value));
    }
    proof {
        lemma_lua_fields(fields@);
        lemma_lua_fields(old(fields)@);
        assert(lua_fields(fields@) =~= put(all, key@, new));
    }
}

/// One table laid over another, recursively wherever both hold a table at one
/// key. Neither is changed, and a table made on the way is shown as is said.
pub fn deep_merge(base: &LuaTable, overlay: &LuaTable, made: &str) -> (r: LuaTable)
    ensures
        r@ == (laid_fields(base@.0, overlay@.0, made@), laid_items(base@.1, overlay@.1, made@)),
    decreases overlay,
{
    let mut out = base.copied();
    let ghost over = lua_fields(overlay.fields@);
    let mut i: usize = 0;
    proof {
        lemma_lua_fields(overlay.fields@);
        lemma_lua_items(overlay.items@);
        assert(over.take(0) =~= Seq::<(Seq<char>, LuaView)>::empty());
    }
    while i < overlay.fields.len()
        invariant
            i <= overlay.fields@.len(),
            over == lua_fields(overlay.fields@),
            over.len() == overlay.fields@.len(),
            lua_fields(out.fields@) == laid_fields(base@.0, over.take(i as int), made@),
            lua_items(out.items@) == base@.1,
        decreases overlay.fields@.len() - i,
    {
        proof {
            lemma_lua_fields(overlay.fields@);
            assert(over.take(i + 1).drop_last() =~= over.take(i as int));
            assert(over.take(i + 1).last() == over[i as int]);
            assert(lua_fields(overlay.fields@)[i as int] == (
                overlay.fields@[i as int].0@,
                lua_view(overlay.fields@[i as int].1),
            ));
            assert(decreases_to!(overlay => overlay.fields));
            assert(decreases_to!(overlay.fields => overlay.fields@));
            assert(decreases_to!(overlay.fields@ => overlay.fields@[i as int]));
            assert(decreases_to!(overlay.fields@[i as int] => overlay.fields@[i as int].1));
        }
        let key = overlay.fields[i].0.as_str();
        let value = match out.get(key) {
            Some(under) => laid_over(under, &overlay.fields[i].1, made),
            None => overlay.fields[i].1.copied(),
        };
        proof {
            let before = lua_fields(out.fields@);
            assert(key@ == over[i as int].0);
            assert(value@ == laid(lookup(before, key@), over[i as int].1, made@));
            assert(laid_fields(base@.0, over.take(i + 1), made@) == put(before, key@, value@));
        }
        put_field(&mut out.fields, key, value);
        i = i + 1;
    }
    proof {
        assert(over.take(over.len() as int) =~= over);
    }
    let ghost over_items = lua_items(overlay.items@);
    let ghost under_items = base@.1;
    let mut k: usize = 0;
    proof {
        assert(over_items.take(0) =~= Seq::<LuaView>::empty());
        lemma_laid_items_len(under_items, over_items.take(0), made@);
    }
    while k < overlay.items.len()
        invariant
            k <= overlay.items@.len(),
            over_items == lua_items(overlay.items@),
            over_items.len() == overlay.items@.len(),
            under_items == base@.1,
            lua_fields(out.fields@) == laid_fields(base@.0, over, made@),
            lua_items(out.items@) == laid_items(under_items, over_items.take(k as int), made@),
        decreases overlay.items@.len() - k,
    {
        let ghost before = out.items@;
        proof {
            lemma_lua_items(overlay.items@);
            lemma_lua_items(out.items@);
            lemma_laid_items_len(under_items, over_items.take(k as int), made@);
            assert(over_items.take(k + 1).drop_last() =~= over_items.take(k as int));
            assert(over_items.take(k + 1).last() == over_items[k as int]);
            assert(lua_items(overlay.items@)[k as int] == lua_view(overlay.items@[k as int]));
            if k < before.len() {
                assert(lua_items(before)[k as int] == lua_view(before[k as int]));
            }
            assert(decreases_to!(overlay => overlay.items));
            assert(decreases_to!(overlay.items => overlay.items@));
            assert(decreases_to!(overlay.items@ => overlay.items@[k as int]));
        }
        if k < out.items.len() {
            let value = laid_over(&out.items[k], &overlay.items[k], made);
            out.items.set(k, value);
        } else {
            out.items.push(overlay.items[k].copied());
        }
        proof {
            lemma_lua_items(out.items@);
            lemma_lua_items(before);
            let now = lua_items(out.items@);
            let want = laid_items(under_items, over_items.take(k + 1), made@);
            assert(now.len() == want.len());
            assert forall|j: int| 0 <= j < now.len() implies now[j] == want[j] by {
                assert(now[j] == lua_view(out.items@[j]));
                if j != k {
                    assert(lua_items(before)[j] == lua_view(before[j]));
                }
            }
            assert(lua_items(out.items@) =~= laid_items(under_items, over_items.take(k + 1), made@));
        }
        k = k + 1;
    }
    proof {
        assert(over_items.take(over_items.len() as int) =~= over_items);
    }
    out
}

/// A value laid over another.
fn laid_over(under: &LuaValue, over: &LuaValue, made: &str) -> (r: LuaValue)
    ensures
        r@ == laid(under@, over@, made@),
    decreases over,
{
    match over {
        LuaValue::Table(table, _) => match under {
            LuaValue::Table(existing, _) => LuaValue::Table(
                deep_merge(existing, table, made),
                made.to_owned(),
            ),
            _ => over.copied(),
        },
        _ => over.copied(),
    }
}

/// Items laid over items: as many as the longer has, and past the upper ones
/// those below.
proof fn lemma_laid_items_len(base: Seq<LuaView>, overlay: Seq<LuaView>, made: Seq<char>)
    ensures
        laid_items(base, overlay, made).len() == (if overlay.len() > base.len() {
            overlay.len()
        } else {
            base.len()
        }),
        forall|i: int|
            overlay.len() <= i < base.len() ==> #[trigger] laid_items(base, overlay, made)[i] == base[i],
    decreases overlay.len(),
{
    if overlay.len() > 0 {
        lemma_laid_items_len(base, overlay.drop_last(), made);
    }
}

/// Merging invents nothing: a key of the result is a key of either table, and
/// holds what the upper one says, laid over what the lower one says. A table
/// names each of its keys once.
pub proof fn law_merging_invents_nothing(
    base: Seq<(Seq<char>, LuaView)>,
    overlay: Seq<(Seq<char>, LuaView)>,
    made: Seq<char>,
    key: Seq<char>,
)
    requires
        crate::assoc::unique(overlay),
    ensures
        spot(overlay, key) == overlay.len() ==> lookup(laid_fields(base, overlay, made), key) == lookup(
            base,
            key,
        ),
        spot(overlay, key) < overlay.len() ==> lookup(laid_fields(base, overlay, made), key) == laid(
            lookup(base, key),
            lookup(overlay, key),
            made,
        ),
    decreases overlay.len(),
{
    lemma_spot(overlay, key);
    if overlay.len() > 0 {
        let short = overlay.drop_last();
        let (last_key, last_value) = overlay.last();
        assert forall|i: int, j: int| 0 <= i < j < short.len() implies #[trigger] short[i].0
            != #[trigger] short[j].0 by {
            assert(short[i] == overlay[i] && short[j] == overlay[j]);
        }
        law_merging_invents_nothing(base, short, made, key);
        let before = laid_fields(base, short, made);
        lemma_put(before, last_key, laid(lookup(before, last_key), last_value, made), key);
        if key == last_key {
            assert forall|j: int| 0 <= j < short.len() implies #[trigger] short[j].0 != key by {
                assert(short[j] == overlay[j]);
                assert(overlay[j].0 != overlay[overlay.len() - 1].0);
            }
            lemma_spot_is(short, key, short.len() as int);
            lemma_spot_is(overlay, key, overlay.len() - 1);
            lemma_spot(overlay, key);
        } else {
            lemma_spot(short, key);
            let s = spot(short, key);
            if s < short.len() {
                assert(overlay[s] == short[s]);
                assert forall|j: int| 0 <= j < s implies #[trigger] overlay[j].0 != key by {
                    assert(short[j] == overlay[j]);
                }
                lemma_spot_is(overlay, key, s);
            } else {
                assert forall|j: int| 0 <= j < overlay.len() implies #[trigger] overlay[j].0
                    != key by {
                    if j < short.len() {
                        assert(short[j] == overlay[j]);
                    }
                }
                lemma_spot_is(overlay, key, overlay.len() as int);
            }
            lemma_spot(overlay, key);
        }
    }
}

} // verus!
