//! How a value is spelled and read back, and what is made of a document.

use crate::changes::later;
use crate::ipc::{next_step, Next, Polled};
use crate::json::{
    by_key, doc_fields, doc_items, doc_of, document_text, field_named, integer, json_fields,
    json_items, json_of, json_text, DocView, JsonView,
};
use crate::measure::{equal_bits, is_nan};
use crate::spelling::{
    asked_at, binding_of, first_hole, fold_named, folded, hole_at, hole_from, inner, plan_of,
    printed, spelled_by, split_spelling, table_word, turn_of, unreadable, variant_of, variants_of,
    word_of, worded, Binding, Fold, Refusal, Shape, SpellingView, SpeltView, TableWord, Tail, Turn,
    VariantView,
};
use crate::text::lowered;
use crate::vars::{before, in_order, law_order_is_canonical};
use vstd::prelude::*;

verus! {

// ---------------------------------------------------------------------------
// Spellings

/// The words for how a spelling is folded, and what each of them does.
pub proof fn law_foldings(word: Seq<char>, text: Seq<char>, i: int)
    ensures
        fold_named(word) == Some(Fold::Exact) <==> word == "none"@,
        fold_named(word) == Some(Fold::Lower) <==> word == "lower"@,
        fold_named(word) == Some(Fold::Dashes) <==> word == "dashes"@,
        folded(Fold::Exact, text) == text,
        folded(Fold::Lower, text) == lowered(text),
        folded(Fold::Dashes, text).len() == text.len(),
        0 <= i < text.len() && text[i] == '_' ==> folded(Fold::Dashes, text)[i] == '-',
        0 <= i < text.len() && text[i] != '_' ==> folded(Fold::Dashes, text)[i] == lowered(text)[i],
{
    reveal_strlit("none");
    reveal_strlit("lower");
    reveal_strlit("dashes");
    assert("none"@.len() == 4 && "none"@[0] == 'n');
    assert("lower"@.len() == 5 && "lower"@[0] == 'l');
    assert("dashes"@.len() == 6 && "dashes"@[0] == 'd');
}

/// The words of an attribute on a table of spellings.
pub proof fn law_words_of_a_table(word: Seq<char>)
    ensures
        table_word(word) == Some(TableWord::Error) <==> word == "error"@,
        table_word(word) == Some(TableWord::Unknown) <==> word == "unknown"@,
        table_word(word) == Some(TableWord::Rest) <==> word == "rest"@,
        table_word(word) == Some(TableWord::Expecting) <==> word == "expecting"@,
        table_word(word) == Some(TableWord::Fold) <==> word == "fold"@,
        table_word(word) == Some(TableWord::Serde) <==> word == "serde"@,
{
    reveal_strlit("error");
    reveal_strlit("unknown");
    reveal_strlit("rest");
    reveal_strlit("expecting");
    reveal_strlit("fold");
    reveal_strlit("serde");
    assert("error"@.len() == 5 && "error"@[0] == 'e');
    assert("unknown"@.len() == 7 && "unknown"@[0] == 'u');
    assert("rest"@.len() == 4 && "rest"@[0] == 'r');
    assert("expecting"@.len() == 9 && "expecting"@[0] == 'e');
    assert("fold"@.len() == 4 && "fold"@[0] == 'f');
    assert("serde"@.len() == 5 && "serde"@[0] == 's');
}

/// The first hole from a place on.
proof fn lemma_hole_from(text: Seq<char>, i: int)
    requires
        0 <= i,
    ensures
        match hole_from(text, i) {
            Some(at) => i <= at && hole_at(text, at) && forall|j: int|
                i <= j < at ==> !#[trigger] hole_at(text, j),
            None => forall|j: int| i <= j ==> !#[trigger] hole_at(text, j),
        },
    decreases text.len() - i,
{
    if i < text.len() - 1 && !hole_at(text, i) {
        lemma_hole_from(text, i + 1);
    }
}

/// A spelling with one hole in it is what stands before the hole and what stands
/// after it, for a variant that carries one value. Any other variant has nothing to
/// put there. A spelling with two holes is refused, and one without is a word.
pub proof fn law_a_spelling_is_split_at_its_hole(
    prefix: Seq<char>,
    suffix: Seq<char>,
    shape: Shape,
)
    requires
        forall|j: int| !#[trigger] hole_at(prefix, j),
    ensures
        split_spelling(prefix, shape) == Ok::<Option<(Seq<char>, Seq<char>)>, Refusal>(None),
        (forall|j: int| !#[trigger] hole_at(suffix, j)) && shape == Shape::Unnamed(1)
            ==> split_spelling(prefix + "{}"@ + suffix, shape) == Ok::<
            Option<(Seq<char>, Seq<char>)>,
            Refusal,
        >(Some((prefix, suffix))),
        (forall|j: int| !#[trigger] hole_at(suffix, j)) && (shape matches Shape::Unnamed(n) && n
            != 1) ==> split_spelling(prefix + "{}"@ + suffix, shape) == Err::<
            Option<(Seq<char>, Seq<char>)>,
            Refusal,
        >(Refusal::SeveralPayloads),
        (forall|j: int| !#[trigger] hole_at(suffix, j)) && !(shape is Unnamed) ==> split_spelling(
            prefix + "{}"@ + suffix,
            shape,
        ) == Err::<Option<(Seq<char>, Seq<char>)>, Refusal>(Refusal::NoPayload),
        (exists|j: int| #[trigger] hole_at(suffix, j)) ==> split_spelling(
            prefix + "{}"@ + suffix,
            shape,
        ) == Err::<Option<(Seq<char>, Seq<char>)>, Refusal>(Refusal::PayloadTwice),
{
    reveal_strlit("{}");
    let text = prefix + "{}"@ + suffix;
    lemma_hole_from(prefix, 0);
    if let Some(at) = first_hole(prefix) {
        assert(hole_at(prefix, at));
    }
    lemma_hole_from(text, 0);
    let n = prefix.len() as int;
    assert(text[n] == '{' && text[n + 1] == '}');
    assert(hole_at(text, n));
    assert forall|j: int| 0 <= j < n implies !#[trigger] hole_at(text, j) by {
        assert(!hole_at(prefix, j));
        if j < n - 1 {
            assert(text[j] == prefix[j] && text[j + 1] == prefix[j + 1]);
        } else {
            assert(text[j + 1] == '{');
        }
    }
    assert(first_hole(text) == Some(n));
    assert(text.take(n) =~= prefix);
    assert(text.skip(n + 2) =~= suffix);
    lemma_hole_from(suffix, 0);
    if exists|j: int| #[trigger] hole_at(suffix, j) {
        let j = choose|j: int| #[trigger] hole_at(suffix, j);
        assert(j >= 0);
    } else if let Some(at) = first_hole(suffix) {
        assert(hole_at(suffix, at));
    }
}

/// A variant keeps how it is read, and is spelled by its words, or by what stands
/// round its value. It needs a spelling, and one with a value in it needs no other.
pub proof fn law_a_variant_is_spelled_as_declared(declared: SpeltView)
    ensures
        declared.words.len() == 0 ==> variant_of(declared) == Err::<VariantView, Refusal>(
            Refusal::NoSpelling,
        ),
        variant_of(declared) matches Ok(variant) ==> variant.parse == declared.parse && variant.rest
            == declared.rest && declared.words.len() > 0 && match variant.spelling {
            SpellingView::Words(words) => words == declared.words,
            SpellingView::Payload(prefix, suffix) => declared.words.len() == 1 && split_spelling(
                declared.words[0],
                declared.shape,
            ) == Ok::<Option<(Seq<char>, Seq<char>)>, Refusal>(Some((prefix, suffix))),
        },
        declared.words.len() > 0 && split_spelling(declared.words[0], declared.shape) == Ok::<
            Option<(Seq<char>, Seq<char>)>,
            Refusal,
        >(None) ==> variant_of(declared) is Ok,
        declared.words.len() > 1 && (split_spelling(declared.words[0], declared.shape) matches Ok(
            Some(_),
        )) ==> variant_of(declared) == Err::<VariantView, Refusal>(Refusal::PayloadAndWords),
{
}

/// What a variant binds: nothing where it carries nothing, its braces where its
/// fields are named, and else its value where that is spelled.
pub proof fn law_what_a_variant_binds(n: usize, payload: bool)
    ensures
        binding_of(Shape::Unit, payload) == Binding::Nothing,
        binding_of(Shape::Named, payload) == Binding::Braces,
        binding_of(Shape::Unnamed(n), true) == Binding::Value,
        binding_of(Shape::Unnamed(n), false) == Binding::Ignored,
{
}

/// Variants are read one by one, in order.
pub proof fn law_variants_are_read_one_by_one(declared: Seq<SpeltView>)
    ensures
        variants_of(declared) matches Ok(all) ==> all.len() == declared.len() && forall|i: int|
            0 <= i < all.len() ==> variant_of(declared[i]) == Ok::<VariantView, Refusal>(
                #[trigger] all[i],
            ),
        variants_of(declared) matches Err((i, refusal)) ==> 0 <= i < declared.len() && variant_of(
            declared[i],
        ) == Err::<VariantView, Refusal>(refusal),
    decreases declared.len(),
{
    if declared.len() > 0 {
        let short = declared.drop_last();
        law_variants_are_read_one_by_one(short);
        if let Ok(all) = variants_of(declared) {
            let before = variants_of(short)->Ok_0;
            assert forall|i: int| 0 <= i < all.len() implies variant_of(declared[i]) == Ok::<
                VariantView,
                Refusal,
            >(#[trigger] all[i]) by {
                if i < short.len() {
                    assert(all[i] == before[i]);
                    assert(declared[i] == short[i]);
                }
            }
        }
        if let Err((i, refusal)) = variants_of(declared) {
            if variants_of(short) is Err {
                assert(declared[i] == short[i]);
            }
        }
    }
}

/// When a variant is asked for: what claims the rest at the very end, what is parsed
/// or has nothing round it when the words are through, what has something round it
/// before that, and a variant of words only by its words.
pub proof fn law_when_a_variant_is_asked_for(variant: VariantView)
    ensures
        turn_of(variant) == Turn::Last <==> variant.rest,
        !variant.rest && variant.parse ==> turn_of(variant) == Turn::Bare,
        !variant.rest && !variant.parse && variant.spelling is Words ==> turn_of(variant)
            == Turn::Never,
        !variant.rest && !variant.parse ==> (variant.spelling matches SpellingView::Payload(
            prefix,
            suffix,
        ) ==> (turn_of(variant) == Turn::Bare <==> prefix.len() == 0 && suffix.len() == 0) && (
        turn_of(variant) == Turn::Affixed <==> prefix.len() > 0 || suffix.len() > 0)),
{
}

/// Those asked for at one time, in the order they are declared.
proof fn lemma_asked_at(variants: Seq<VariantView>, turn: Turn, i: int)
    requires
        variants.len() <= usize::MAX,
        0 <= i < variants.len(),
    ensures
        asked_at(variants, turn).contains(i as usize) <==> turn_of(variants[i]) == turn,
        worded(variants).contains(i as usize) <==> variants[i].spelling is Words,
    decreases variants.len(),
{
    let short = variants.drop_last();
    let end = (variants.len() - 1) as usize;
    let before = asked_at(short, turn);
    let after = asked_at(variants, turn);
    let words = worded(short);
    let more = worded(variants);
    lemma_asked_below(short, turn);
    if i < short.len() {
        lemma_asked_at(short, turn, i);
        assert(short[i] == variants[i]);
        if before.contains(i as usize) {
            let k = choose|k: int| 0 <= k < before.len() && before[k] == i as usize;
            assert(after[k] == i as usize);
        }
        if after.contains(i as usize) {
            let k = choose|k: int| 0 <= k < after.len() && after[k] == i as usize;
            assert(k < before.len());
            assert(before[k] == i as usize);
        }
        if words.contains(i as usize) {
            let k = choose|k: int| 0 <= k < words.len() && words[k] == i as usize;
            assert(more[k] == i as usize);
        }
        if more.contains(i as usize) {
            let k = choose|k: int| 0 <= k < more.len() && more[k] == i as usize;
            assert(k < words.len());
            assert(words[k] == i as usize);
        }
    } else {
        if turn_of(variants[i]) == turn {
            assert(after[after.len() - 1] == end);
        } else if after.contains(end) {
            let k = choose|k: int| 0 <= k < after.len() && after[k] == end;
            assert(before[k] < short.len());
        }
        if variants[i].spelling is Words {
            assert(more[more.len() - 1] == end);
        } else if more.contains(end) {
            let k = choose|k: int| 0 <= k < more.len() && more[k] == end;
            assert(words[k] < short.len());
        }
    }
}

/// They are all among those declared.
proof fn lemma_asked_below(variants: Seq<VariantView>, turn: Turn)
    requires
        variants.len() <= usize::MAX,
    ensures
        forall|k: int|
            0 <= k < asked_at(variants, turn).len() ==> #[trigger] asked_at(variants, turn)[k]
                < variants.len(),
        forall|k: int| 0 <= k < worded(variants).len() ==> #[trigger] worded(variants)[k]
            < variants.len(),
    decreases variants.len(),
{
    if variants.len() > 0 {
        let short = variants.drop_last();
        lemma_asked_below(short, turn);
        let before = asked_at(short, turn);
        let after = asked_at(variants, turn);
        assert forall|k: int| 0 <= k < after.len() implies #[trigger] after[k] < variants.len() by {
            if k < before.len() {
                assert(after[k] == before[k]);
            }
        }
        let words = worded(short);
        let more = worded(variants);
        assert forall|k: int| 0 <= k < more.len() implies #[trigger] more[k] < variants.len() by {
            if k < words.len() {
                assert(more[k] == words[k]);
            }
        }
    }
}

/// The first variant that is words and carries something.
proof fn lemma_unreadable(variants: Seq<VariantView>, i: int)
    requires
        0 <= i < variants.len(),
        variants[i].spelling is Words,
        variants[i].binding != Binding::Nothing,
    ensures
        unreadable(variants) is Some,
    decreases variants.len(),
{
    let short = variants.drop_last();
    if i < short.len() {
        assert(short[i] == variants[i]);
        lemma_unreadable(short, i);
    }
}

/// A plan for reading has every variant at its time: words by their words, and values
/// by when they are asked for. It ends with the one that claims the rest, or as the
/// table says. A word that carries something cannot be read.
pub proof fn law_a_plan_has_every_variant_at_its_time(
    variants: Seq<VariantView>,
    rest: bool,
    i: int,
)
    requires
        variants.len() <= usize::MAX,
        0 <= i < variants.len(),
    ensures
        plan_of(variants, rest) matches Ok(plan) ==> {
            &&& plan.words.contains(i as usize) <==> variants[i].spelling is Words
            &&& plan.affixed.contains(i as usize) <==> turn_of(variants[i]) == Turn::Affixed
            &&& plan.bare.contains(i as usize) <==> turn_of(variants[i]) == Turn::Bare
            &&& variants[i].rest ==> plan.tail == Tail::Variant(i as usize)
            &&& plan.tail matches Tail::Variant(at) ==> at < variants.len()
            &&& rest ==> plan.tail != Tail::Unknown
            &&& !rest ==> plan.tail != Tail::Rest
            &&& variants[i].spelling is Words ==> variants[i].binding == Binding::Nothing
        },
{
    lemma_asked_at(variants, Turn::Affixed, i);
    lemma_asked_at(variants, Turn::Bare, i);
    lemma_asked_at(variants, Turn::Last, i);
    lemma_asked_below(variants, Turn::Last);
    let last = asked_at(variants, Turn::Last);
    if plan_of(variants, rest) is Ok {
        if variants[i].rest {
            let k = choose|k: int| 0 <= k < last.len() && last[k] == i as usize;
            assert(last[0] == i as usize);
        }
        if variants[i].spelling is Words && variants[i].binding != Binding::Nothing {
            lemma_unreadable(variants, i);
        }
        if last.len() == 1 {
            assert(last[0] < variants.len());
        }
    }
}

/// What is printed of a variant is its first word, or its value with what stands
/// round it, and what is read of a value is exactly what was printed round it.
pub proof fn law_a_value_is_read_between_its_marks(
    variant: VariantView,
    payload: Seq<char>,
    text: Seq<char>,
)
    ensures
        match variant.spelling {
            SpellingView::Words(words) => printed(variant, payload) == words[0],
            SpellingView::Payload(prefix, suffix) => printed(variant, payload) == prefix + payload
                + suffix && (inner(prefix, suffix, text) == Some(payload) ==> text == prefix
                + payload + suffix),
        },
{
    if let SpellingView::Payload(prefix, suffix) = variant.spelling {
        if inner(prefix, suffix, text) == Some(payload) {
            let rest = text.skip(prefix.len() as int);
            assert(text =~= text.take(prefix.len() as int) + rest);
            assert(rest =~= rest.take(rest.len() - suffix.len()) + rest.skip(
                rest.len() - suffix.len(),
            ));
            assert(text =~= prefix + payload + suffix);
        }
    }
}

/// A word reads as the first variant that is spelled by it, and as none where none
/// is.
pub proof fn law_a_word_reads_as_the_first_it_spells(
    variants: Seq<VariantView>,
    word: Seq<char>,
)
    ensures
        match word_of(variants, word) {
            Some(i) => 0 <= i < variants.len() && spelled_by(variants[i], word) && forall|j: int|
                0 <= j < i ==> !spelled_by(#[trigger] variants[j], word),
            None => forall|j: int|
                0 <= j < variants.len() ==> !spelled_by(#[trigger] variants[j], word),
        },
    decreases variants.len(),
{
    if variants.len() > 0 {
        let short = variants.drop_last();
        law_a_word_reads_as_the_first_it_spells(short, word);
        assert forall|j: int| 0 <= j < short.len() implies #[trigger] variants[j] == short[j] by {}
    }
}

// ---------------------------------------------------------------------------
// Documents

/// A document reads as what it holds: lists in order, and objects under their keys
/// and in order.
pub proof fn law_a_document_reads_as_what_it_holds(
    items: Seq<DocView>,
    fields: Seq<(Seq<char>, DocView)>,
    text: Seq<char>,
    b: bool,
)
    ensures
        json_of(DocView::Null) == JsonView::Null,
        json_of(DocView::Bool(b)) == JsonView::Bool(b),
        json_of(DocView::String(text)) == JsonView::String(text),
        json_of(DocView::Array(items)) matches JsonView::Array(read) && read.len() == items.len()
            && forall|i: int| 0 <= i < items.len() ==> #[trigger] read[i] == json_of(items[i]),
        json_of(DocView::Object(fields)) matches JsonView::Object(read) && read.len()
            == fields.len() && forall|i: int|
            0 <= i < fields.len() ==> #[trigger] read[i] == (fields[i].0, json_of(fields[i].1)),
{
    lemma_json_items(items);
    lemma_json_fields(fields);
}

/// The items of a document.
proof fn lemma_json_items(items: Seq<DocView>)
    ensures
        json_items(items).len() == items.len(),
        forall|i: int|
            0 <= i < items.len() ==> #[trigger] json_items(items)[i] == json_of(items[i]),
    decreases items.len(),
{
    if items.len() > 0 {
        lemma_json_items(items.drop_last());
    }
}

/// The fields of a document.
proof fn lemma_json_fields(fields: Seq<(Seq<char>, DocView)>)
    ensures
        json_fields(fields).len() == fields.len(),
        forall|i: int|
            0 <= i < fields.len() ==> #[trigger] json_fields(fields)[i] == (
                fields[i].0,
                json_of(fields[i].1),
            ),
    decreases fields.len(),
{
    if fields.len() > 0 {
        lemma_json_fields(fields.drop_last());
    }
}

/// A value is written as what it holds.
pub proof fn law_a_value_is_written_as_what_it_holds(
    items: Seq<JsonView>,
    text: Seq<char>,
    b: bool,
    n: i64,
)
    ensures
        doc_of(JsonView::Null) == DocView::Null,
        doc_of(JsonView::Bool(b)) == DocView::Bool(b),
        doc_of(JsonView::String(text)) == DocView::String(text),
        doc_of(JsonView::Int(n)) == DocView::Number(integer(n)),
        doc_of(JsonView::Array(items)) matches DocView::Array(held) && held.len() == items.len()
            && forall|i: int| 0 <= i < items.len() ==> #[trigger] held[i] == doc_of(items[i]),
        json_text(JsonView::Null).len() == 0,
        json_text(JsonView::String(text)) == text,
        json_text(JsonView::Bool(b)) == document_text(DocView::Bool(b)),
        json_text(JsonView::Int(n)) == document_text(DocView::Number(integer(n))),
{
    lemma_doc_items(items);
}

/// The items of a value.
proof fn lemma_doc_items(items: Seq<JsonView>)
    ensures
        doc_items(items).len() == items.len(),
        forall|i: int| 0 <= i < items.len() ==> #[trigger] doc_items(items)[i] == doc_of(items[i]),
    decreases items.len(),
{
    if items.len() > 0 {
        lemma_doc_items(items.drop_last());
    }
}

/// An object is written with each of its fields under its key, in the order of the keys.
pub proof fn law_an_object_is_written_key_by_key(
    fields: Seq<(Seq<char>, JsonView)>,
    i: int,
)
    requires
        in_order(fields),
    ensures
        doc_of(JsonView::Object(fields)) matches DocView::Object(held) && held.len()
            == fields.len() && (0 <= i < fields.len() ==> held[i] == (
            fields[i].0,
            doc_of(fields[i].1),
        )),
{
    lemma_doc_fields(fields);
    let written = doc_fields(fields);
    assert forall|a: int, b: int| 0 <= a < b < written.len() implies before(
        #[trigger] written[a].0,
        #[trigger] written[b].0,
    ) by {
        assert(fields[a].0 == written[a].0 && fields[b].0 == written[b].0);
    }
    law_order_is_canonical(written, by_key(written));
}

/// The fields of a value.
proof fn lemma_doc_fields(fields: Seq<(Seq<char>, JsonView)>)
    ensures
        doc_fields(fields).len() == fields.len(),
        forall|i: int|
            0 <= i < fields.len() ==> #[trigger] doc_fields(fields)[i] == (
                fields[i].0,
                doc_of(fields[i].1),
            ),
    decreases fields.len(),
{
    if fields.len() > 0 {
        lemma_doc_fields(fields.drop_last());
    }
}

/// A field is found by its key, the first of it where there are several.
pub proof fn law_a_key_finds_its_field(
    fields: Seq<(Seq<char>, JsonView)>,
    key: Seq<char>,
    i: int,
)
    ensures
        0 <= i < fields.len() && fields[i].0 == key && (forall|j: int|
            0 <= j < i ==> (#[trigger] fields[j]).0 != key) ==> field_named(fields, key) == Some(
            fields[i].1,
        ),
        (forall|j: int| 0 <= j < fields.len() ==> (#[trigger] fields[j]).0 != key) ==> field_named(
            fields,
            key,
        ) is None,
    decreases fields.len(),
{
    if fields.len() > 0 {
        let rest = fields.skip(1);
        law_a_key_finds_its_field(rest, key, i - 1);
        assert forall|j: int| 0 <= j < rest.len() implies #[trigger] rest[j] == fields[j + 1] by {}
        if 0 < i < fields.len() && fields[i].0 == key && (forall|j: int|
            0 <= j < i ==> (#[trigger] fields[j]).0 != key) {
            assert(fields[0].0 != key);
            assert(rest[i - 1] == fields[i]);
            assert forall|j: int| 0 <= j < i - 1 implies (#[trigger] rest[j]).0 != key by {
                assert(rest[j] == fields[j + 1]);
            }
        }
        if forall|j: int| 0 <= j < fields.len() ==> (#[trigger] fields[j]).0 != key {
            assert(fields[0].0 != key);
            assert forall|j: int| 0 <= j < rest.len() implies (#[trigger] rest[j]).0 != key by {
                assert(rest[j] == fields[j + 1]);
            }
        }
    }
}

// ---------------------------------------------------------------------------
// Streams, numbers and patches

/// A stream delivers what it is handed, passes over what it cannot read, waits where
/// nothing came, and ends where the other side is gone. Once it has ended it stays so.
pub proof fn law_a_stream_ends_once(polled: Polled)
    ensures
        next_step(true, polled) == Next::End,
        next_step(false, Polled::Delivered) == Next::Deliver,
        next_step(false, Polled::Undecodable) == Next::Skip,
        next_step(false, Polled::Pending) == Next::Wait,
        next_step(false, Polled::Gone) == Next::End,
{
}

/// Of two numbers, neither of them is the other unless both are numbers, and they
/// are one where they have the same bits or are both nought.
pub proof fn law_numbers_are_compared_as_numbers(a: u64, b: u64)
    ensures
        is_nan(a) <==> a / 0x10_0000_0000_0000 % 0x800 == 0x7ff && a % 0x10_0000_0000_0000 != 0,
        is_nan(a) ==> !equal_bits(a, b) && !equal_bits(b, a),
        !is_nan(a) ==> equal_bits(a, a),
        equal_bits(0, 0x8000_0000_0000_0000),
        !is_nan(a) && a != b && !(a == 0 && b == 0x8000_0000_0000_0000) && !(a
            == 0x8000_0000_0000_0000 && b == 0) ==> !equal_bits(a, b),
{
}

/// Of two things said of a property the later counts, and of one it is that one.
pub proof fn law_what_is_said_later_counts<C>(first: Option<C>, second: Option<C>)
    ensures
        second is Some ==> later(first, second) == second,
        second is None ==> later(first, second) == first,
{
}

} // verus!
