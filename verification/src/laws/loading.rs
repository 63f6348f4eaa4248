//! What a config's tables merge to, and where its modules are looked for.

use crate::assoc::unique;
use crate::convert::Fields;
use crate::lua::{lookup, LuaView};
use crate::merge::{laid, laid_items, law_merging_invents_nothing, lemma_spot, spot};
use crate::modules::{candidate_paths, name_as_path, patterns, substituted, table_names};
use crate::text::pieces;
use vstd::prelude::*;

verus! {

/// What is laid over something takes its place, but for a table over a table, which
/// is laid over it field by field.
pub proof fn law_what_is_over_wins(base: LuaView, overlay: LuaView, made: Seq<char>)
    ensures
        !(overlay is Table) ==> laid(base, overlay, made) == overlay,
        !(base is Table) ==> laid(base, overlay, made) == overlay,
        base is Table && overlay is Table ==> laid(base, overlay, made) is Table,
{
}

/// A table laid over another reads as the upper one where it has a key, laid over
/// what the lower one has there, and as the lower one everywhere else.
pub proof fn law_tables_merge_key_by_key(
    base: Fields,
    overlay: Fields,
    under: Seq<LuaView>,
    over: Seq<LuaView>,
    made: Seq<char>,
    address: Seq<char>,
    other: Seq<char>,
    key: Seq<char>,
)
    requires
        unique(overlay),
    ensures
        laid(
            LuaView::Table(base, under, address),
            LuaView::Table(overlay, over, other),
            made,
        ) matches LuaView::Table(fields, items, _) && ((exists|i: int|
            0 <= i < overlay.len() && (#[trigger] overlay[i]).0 == key) ==> lookup(fields, key)
            == laid(lookup(base, key), lookup(overlay, key), made)) && ((forall|i: int|
            0 <= i < overlay.len() ==> (#[trigger] overlay[i]).0 != key) ==> lookup(fields, key)
            == lookup(base, key)) && items == laid_items(under, over, made),
{
    law_merging_invents_nothing(base, overlay, made, key);
    lemma_spot(overlay, key);
    if forall|i: int| 0 <= i < overlay.len() ==> (#[trigger] overlay[i]).0 != key {
        if spot(overlay, key) < overlay.len() {
            assert(overlay[spot(overlay, key)].0 == key);
        }
    }
}

/// A list laid over another is laid over it place by place, and is as long as the
/// longer of the two.
pub proof fn law_lists_merge_place_by_place(
    base: Seq<LuaView>,
    overlay: Seq<LuaView>,
    made: Seq<char>,
    i: int,
)
    ensures
        laid_items(base, overlay, made).len() == (if overlay.len() > base.len() {
            overlay.len()
        } else {
            base.len()
        }),
        0 <= i < overlay.len() && i < base.len() ==> laid_items(base, overlay, made)[i] == laid(
            base[i],
            overlay[i],
            made,
        ),
        base.len() <= i < overlay.len() ==> laid_items(base, overlay, made)[i] == overlay[i],
        overlay.len() <= i < base.len() ==> laid_items(base, overlay, made)[i] == base[i],
    decreases overlay.len(),
{
    if overlay.len() > 0 {
        law_lists_merge_place_by_place(base, overlay.drop_last(), made, i);
    }
}

// ---------------------------------------------------------------------------
// Modules

/// Some templates, with one more at the end, are looked through in turn.
pub proof fn law_templates_are_looked_through_in_turn(
    first: Seq<char>,
    last: Seq<char>,
    name: Seq<char>,
)
    requires
        !last.contains(';'),
        last.len() > 0,
    ensures
        candidate_paths(first + seq![';'] + last, name) == candidate_paths(first, name).push(
            substituted(last, '?', name_as_path(name)),
        ),
        candidate_paths(last, name) == seq![substituted(last, '?', name_as_path(name))],
{
    crate::text::lemma_one_more_piece(first, last, ';');
    crate::text::lemma_one_piece(last, ';');
    let parts = pieces(first, ';').push(last);
    assert(parts.drop_last() =~= pieces(first, ';'));
    assert(patterns(parts) == patterns(pieces(first, ';')).push(last));
    let alone = seq![last];
    assert(alone.drop_last() =~= Seq::<Seq<char>>::empty());
    assert(patterns(Seq::<Seq<char>>::empty()) =~= Seq::<Seq<char>>::empty());
    assert(patterns(alone) =~= alone);
    assert(candidate_paths(last, name) =~= seq![substituted(last, '?', name_as_path(name))]);
    assert(candidate_paths(first + seq![';'] + last, name) =~= candidate_paths(first, name).push(
        substituted(last, '?', name_as_path(name)),
    ));
}

/// An empty template is passed over.
pub proof fn law_an_empty_template_is_passed_over(first: Seq<char>, name: Seq<char>)
    ensures
        candidate_paths(first + seq![';'], name) == candidate_paths(first, name),
        candidate_paths(Seq::empty(), name) == Seq::<Seq<char>>::empty(),
{
    let none = Seq::<char>::empty();
    crate::text::lemma_one_more_piece(first, none, ';');
    crate::text::lemma_one_piece(none, ';');
    assert(first + seq![';'] + none =~= first + seq![';']);
    let parts = pieces(first, ';').push(none);
    assert(parts.drop_last() =~= pieces(first, ';'));
    assert(patterns(parts) == patterns(pieces(first, ';')));
    let alone = seq![none];
    assert(alone.drop_last() =~= Seq::<Seq<char>>::empty());
    assert(patterns(Seq::<Seq<char>>::empty()) =~= Seq::<Seq<char>>::empty());
    assert(patterns(alone) =~= Seq::<Seq<char>>::empty());
    assert(candidate_paths(none, name) =~= Seq::<Seq<char>>::empty());
}

/// Text without a mark is left as it is.
proof fn lemma_unmarked(text: Seq<char>, with: Seq<char>)
    requires
        !text.contains('?'),
    ensures
        substituted(text, '?', with) == text,
    decreases text.len(),
{
    if text.len() > 0 {
        let short = text.drop_last();
        assert(text[text.len() - 1] == text.last());
        assert forall|i: int| 0 <= i < short.len() implies short[i] != '?' by {
            assert(text[i] == short[i]);
        }
        lemma_unmarked(short, with);
        assert(short.push(text.last()) =~= text);
    }
}

/// Each mark in a template is where the name goes, and the rest of it stays.
pub proof fn law_a_mark_is_where_the_name_goes(
    first: Seq<char>,
    last: Seq<char>,
    with: Seq<char>,
)
    requires
        !last.contains('?'),
    ensures
        substituted(last, '?', with) == last,
        substituted(first + seq!['?'] + last, '?', with) == substituted(first, '?', with) + with
            + last,
    decreases last.len(),
{
    lemma_unmarked(last, with);
    let whole = first + seq!['?'] + last;
    if last.len() == 0 {
        assert(whole.drop_last() =~= first);
        assert(substituted(first, '?', with) + with + last =~= substituted(first, '?', with)
            + with);
    } else {
        let short = last.drop_last();
        assert(last[last.len() - 1] == last.last());
        assert forall|i: int| 0 <= i < short.len() implies short[i] != '?' by {
            assert(last[i] == short[i]);
        }
        law_a_mark_is_where_the_name_goes(first, short, with);
        assert(whole.drop_last() =~= first + seq!['?'] + short);
        assert((substituted(first, '?', with) + with + short).push(last.last()) =~= substituted(
            first,
            '?',
            with,
        ) + with + last);
    }
}

/// The name of a module is a path with slashes for dots.
pub proof fn law_dots_are_slashes(name: Seq<char>, i: int)
    requires
        0 <= i < name.len(),
    ensures
        name_as_path(name).len() == name.len(),
        name[i] == '.' ==> name_as_path(name)[i] == '/',
        name[i] != '.' ==> name_as_path(name)[i] == name[i],
{
}

/// The module of a directory is the file of its name there, or the `init` of the
/// directory of its name.
pub proof fn law_a_module_is_a_file_or_a_directory(
    path: Seq<char>,
    directory: Seq<char>,
    name: Seq<char>,
)
    requires
        !directory.contains(';'),
        !directory.contains('?'),
    ensures
        candidate_paths(
            path + ";"@ + (directory + "/?.lua;"@ + (directory + "/?/init.lua"@)),
            name,
        ) == candidate_paths(path, name).push(
            directory + "/"@ + name_as_path(name) + ".lua"@,
        ).push(directory + "/"@ + name_as_path(name) + "/init.lua"@),
{
    reveal_strlit(";");
    reveal_strlit("/?.lua;");
    reveal_strlit("/?/init.lua");
    reveal_strlit("/");
    reveal_strlit(".lua");
    reveal_strlit("/init.lua");
    let slashed = directory + "/"@;
    let file = slashed + seq!['?'] + ".lua"@;
    let init = slashed + seq!['?'] + "/init.lua"@;
    assert forall|i: int| 0 <= i < slashed.len() implies slashed[i] != '?' && slashed[i]
        != ';' by {
        if i < directory.len() {
            assert(directory.contains(directory[i]));
        }
    }
    assert forall|i: int| 0 <= i < file.len() implies file[i] != ';' by {
        if i < slashed.len() {
            assert(file[i] == slashed[i]);
        }
    }
    assert forall|i: int| 0 <= i < init.len() implies init[i] != ';' by {
        if i < slashed.len() {
            assert(init[i] == slashed[i]);
        }
    }
    let with = name_as_path(name);
    law_a_mark_is_where_the_name_goes(slashed, ".lua"@, with);
    law_a_mark_is_where_the_name_goes(slashed, "/init.lua"@, with);
    lemma_unmarked(slashed, with);
    law_templates_are_looked_through_in_turn(path, file, name);
    law_templates_are_looked_through_in_turn(path + seq![';'] + file, init, name);
    assert(path + ";"@ + (directory + "/?.lua;"@ + (directory + "/?/init.lua"@)) =~= path + seq![
        ';',
    ] + file + seq![';'] + init);
}

/// The names a config may load the bar by.
pub proof fn law_the_bar_loads_by_three_names(name: Seq<char>)
    ensures
        table_names().contains(name) <==> name == "rsbar"@ || name == "sbar"@ || name
            == "sketchybar"@,
{
    let names = table_names();
    assert(names[0] == "rsbar"@ && names[1] == "sbar"@ && names[2] == "sketchybar"@);
}

} // verus!
