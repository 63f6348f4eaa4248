//! Patches, worked out from what they patch: which keys each field answers to,
//! which fields a patch has, and what is refused of a declaration.

use crate::assoc::lemma_mapped_names;
use crate::text::{joined, joined3, pieces, same, split_on, starts_with, text_views};
use crate::vars::{before, Vars};
use vstd::prelude::*;

verus! {

// ---------------------------------------------------------------------------
// What is refused

/// What a declaration may say, on the struct or on a field.
#[derive(Debug, Clone, Copy, PartialEq, Eq, Structural)]
pub enum ArgWord {
    Name,
    What,
    Gap,
    Derive,
    Attr,
    As,
    Flatten,
    Required,
    ReadWith,
    Scalar,
    Skip,
}

/// What a word says.
pub open spec fn arg_word(word: Seq<char>) -> Option<ArgWord> {
    if word == "as"@ {
        Some(ArgWord::As)
    } else if word == "skip"@ {
        Some(ArgWord::Skip)
    } else if word == "flatten"@ {
        Some(ArgWord::Flatten)
    } else if word == "required"@ {
        Some(ArgWord::Required)
    } else if word == "name"@ {
        Some(ArgWord::Name)
    } else if word == "what"@ {
        Some(ArgWord::What)
    } else if word == "read_with"@ {
        Some(ArgWord::ReadWith)
    } else if word == "scalar"@ {
        Some(ArgWord::Scalar)
    } else if word == "gap"@ {
        Some(ArgWord::Gap)
    } else if word == "derive"@ {
        Some(ArgWord::Derive)
    } else if word == "attr"@ {
        Some(ArgWord::Attr)
    } else {
        None
    }
}

/// Why a declaration is refused.
#[derive(Debug, Clone, Copy, PartialEq, Eq, Structural)]
pub enum Refusal {
    NotAStruct,
    UnnamedFields,
    UnknownArgument,
    AsOnStruct,
    FlattenOnStruct,
    RequiredOnStruct,
    ReadWithOnStruct,
    SkipOnStruct,
    NoName,
    NoWhat,
    StructArgumentOnField,
    RequiredAndFlattened,
    RequiredDiffers,
}

/// The sentence a refusal is reported as.
pub open spec fn refusal_text(refusal: Refusal) -> Seq<char> {
    match refusal {
        Refusal::NotAStruct => "Changes is for a struct: a patch names fields"@,
        Refusal::UnnamedFields => "Changes needs named fields"@,
        Refusal::UnknownArgument =>
            "expected `name`, `what`, `gap`, `derive`, `attr`, `scalar`, `skip`, `flatten`, `required`, `read_with` or `as`"@,
        Refusal::AsOnStruct => "`as` belongs on a field"@,
        Refusal::FlattenOnStruct => "`flatten` belongs on a field"@,
        Refusal::RequiredOnStruct => "`required` belongs on a field"@,
        Refusal::ReadWithOnStruct => "`read_with` belongs on a field"@,
        Refusal::SkipOnStruct => "`skip` belongs on a field"@,
        Refusal::NoName => "`#[changes(name = ...)]` names the patch struct"@,
        Refusal::NoWhat =>
            "`#[changes(what = \"an item\")]` names this table as a config would"@,
        Refusal::StructArgumentOnField =>
            "only `as`, `attr`, `flatten`, `required`, `read_with` and `skip` belong on a field"@,
        Refusal::RequiredAndFlattened =>
            "a flattened field is required through its own fields, not as a whole"@,
        Refusal::RequiredDiffers =>
            "a required field is taken from the patch as it stands, so its patch type must be the target's own"@,
    }
}

impl Refusal {
    /// The sentence this is reported as.
    pub fn to_string(&self) -> (r: String)
        ensures
            r@ == refusal_text(*self),
    {
        match self {
            Refusal::NotAStruct => "Changes is for a struct: a patch names fields".to_owned(),
            Refusal::UnnamedFields => "Changes needs named fields".to_owned(),
            Refusal::UnknownArgument =>
                "expected `name`, `what`, `gap`, `derive`, `attr`, `scalar`, `skip`, `flatten`, `required`, `read_with` or `as`".to_owned(),
            Refusal::AsOnStruct => "`as` belongs on a field".to_owned(),
            Refusal::FlattenOnStruct => "`flatten` belongs on a field".to_owned(),
            Refusal::RequiredOnStruct => "`required` belongs on a field".to_owned(),
            Refusal::ReadWithOnStruct => "`read_with` belongs on a field".to_owned(),
            Refusal::SkipOnStruct => "`skip` belongs on a field".to_owned(),
            Refusal::NoName => "`#[changes(name = ...)]` names the patch struct".to_owned(),
            Refusal::NoWhat =>
                "`#[changes(what = \"an item\")]` names this table as a config would".to_owned(),
            Refusal::StructArgumentOnField =>
                "only `as`, `attr`, `flatten`, `required`, `read_with` and `skip` belong on a field".to_owned(),
            Refusal::RequiredAndFlattened =>
                "a flattened field is required through its own fields, not as a whole".to_owned(),
            Refusal::RequiredDiffers =>
                "a required field is taken from the patch as it stands, so its patch type must be the target's own".to_owned(),
        }
    }
}

impl ArgWord {
    /// What a word says.
    pub fn named(word: &str) -> (r: Result<ArgWord, Refusal>)
        ensures
            match r {
                Ok(what) => arg_word(word@) == Some(what),
                Err(refusal) => arg_word(word@) is None && refusal == Refusal::UnknownArgument,
            },
    {
        if same(word, "as") {
            Ok(ArgWord::As)
        } else if same(word, "skip") {
            Ok(ArgWord::Skip)
        } else if same(word, "flatten") {
            Ok(ArgWord::Flatten)
        } else if same(word, "required") {
            Ok(ArgWord::Required)
        } else if same(word, "name") {
            Ok(ArgWord::Name)
        } else if same(word, "what") {
            Ok(ArgWord::What)
        } else if same(word, "read_with") {
            Ok(ArgWord::ReadWith)
        } else if same(word, "scalar") {
            Ok(ArgWord::Scalar)
        } else if same(word, "gap") {
            Ok(ArgWord::Gap)
        } else if same(word, "derive") {
            Ok(ArgWord::Derive)
        } else if same(word, "attr") {
            Ok(ArgWord::Attr)
        } else {
            Err(Refusal::UnknownArgument)
        }
    }
}

// ---------------------------------------------------------------------------
// Spellings

/// One entry of what a field says of how it goes over the wire: what it says,
/// and the text it says it with, where it does.
#[derive(Debug, Clone, PartialEq, Eq)]
pub struct Entry {
    pub path: String,
    pub text: Option<String>,
}

/// [`Entry`] over plain text.
pub struct EntryView {
    pub path: Seq<char>,
    pub text: Option<Seq<char>>,
}

impl View for Entry {
    type V = EntryView;

    open spec fn view(&self) -> EntryView {
        EntryView { path: self.path@, text: crate::modules::part(self.text) }
    }
}

/// Entries over plain text.
pub open spec fn entry_views(entries: Seq<Entry>) -> Seq<EntryView> {
    entries.map_values(|entry: Entry| entry@)
}

/// Whether an entry is another name for its field.
pub open spec fn is_alias(entry: EntryView) -> bool {
    (entry.path == "alias"@ || entry.path == "rename"@) && entry.text is Some
}

/// A text with the British spelling of every colour in it.
pub open spec fn british(text: Seq<char>) -> Seq<char>
    decreases text.len(),
{
    if text.len() == 0 {
        Seq::empty()
    } else if text.len() >= 5 && starts_with(text, "color"@) {
        "colour"@ + british(text.skip(5))
    } else {
        seq![text[0]] + british(text.skip(1))
    }
}

/// A text with the British spelling of every colour in it.
pub fn to_british(text: &str) -> (r: String)
    ensures
        r@ == british(text@),
{
    let chars = crate::text::chars_of(text);
    let mut out: Vec<char> = Vec::new();
    let mut i: usize = 0;
    proof {
        reveal_strlit("color");
        reveal_strlit("colour");
        assert(text@.skip(0) =~= text@);
        assert(out@ + british(text@.skip(0)) =~= british(text@));
    }
    while i < chars.len()
        invariant
            i <= chars@.len(),
            chars@ == text@,
            "color"@.len() == 5,
            "color"@ =~= seq!['c', 'o', 'l', 'o', 'r'],
            "colour"@ =~= seq!['c', 'o', 'l', 'o', 'u', 'r'],
            out@ + british(text@.skip(i as int)) == british(text@),
        decreases chars@.len() - i,
    {
        let ghost rest = text@.skip(i as int);
        let ghost earlier = out@;
        if chars.len() - i >= 5 && chars[i] == 'c' && chars[i + 1] == 'o' && chars[i + 2] == 'l'
            && chars[i + 3] == 'o' && chars[i + 4] == 'r' {
            proof {
                assert(rest.take(5) =~= "color"@);
                assert(rest.skip(5) =~= text@.skip(i + 5));
            }
            out.push('c');
            out.push('o');
            out.push('l');
            out.push('o');
            out.push('u');
            out.push('r');
            proof {
                assert(out@ =~= earlier + "colour"@);
                assert(out@ + british(text@.skip(i + 5)) =~= earlier + british(rest));
            }
            i = i + 5;
        } else {
            proof {
                if rest.len() >= 5 && starts_with(rest, "color"@) {
                    let t = rest.take(5);
                    assert(t[0] == 'c' && t[1] == 'o' && t[2] == 'l' && t[3] == 'o' && t[4] == 'r');
                    assert(false);
                }
                assert(rest.skip(1) =~= text@.skip(i + 1));
            }
            out.push(chars[i]);
            proof {
                assert(out@ + british(text@.skip(i + 1)) =~= earlier + british(rest));
            }
            i = i + 1;
        }
    }
    proof {
        assert(text@.skip(text@.len() as int) =~= Seq::<char>::empty());
        assert(out@ =~= british(text@));
        assert(out@.skip(0) =~= out@);
    }
    crate::text::text_from(&out, 0)
}

/// Whether a field goes by a name outright: its own, or another it gives.
pub open spec fn goes_by(field: Seq<char>, entries: Seq<EntryView>, name: Seq<char>) -> bool {
    name == field || exists|i: int|
        0 <= i < entries.len() && is_alias(#[trigger] entries[i]) && entries[i].text == Some(name)
}

/// Whether a key is one a field answers to: a name it goes by, or the British
/// spelling of one.
pub open spec fn answers_to(field: Seq<char>, entries: Seq<EntryView>, key: Seq<char>) -> bool {
    goes_by(field, entries, key) || exists|name: Seq<char>| #[trigger]
        goes_by(field, entries, name) && key == british(name)
}

/// Whether texts stand in order, none of them twice.
pub open spec fn ascending(texts: Seq<Seq<char>>) -> bool {
    forall|i: int, j: int| 0 <= i < j < texts.len() ==> before(#[trigger] texts[i], #[trigger] texts[j])
}

/// Every name a field goes by before the ones given so far, and the British
/// spelling of each.
spec fn known_by(field: Seq<char>, entries: Seq<EntryView>, names: Map<Seq<char>, Seq<char>>) -> bool {
    forall|key: Seq<char>| #[trigger]
        names.contains_key(key) <==> answers_to(field, entries, key)
}

/// What one more entry adds to the names a field goes by.
proof fn lemma_goes_by(field: Seq<char>, entries: Seq<EntryView>, i: int)
    requires
        0 <= i < entries.len(),
    ensures
        forall|name: Seq<char>| #[trigger]
            goes_by(field, entries.take(i + 1), name) <==> (goes_by(field, entries.take(i), name)
                || (is_alias(entries[i]) && entries[i].text == Some(name))),
{
    assert forall|name: Seq<char>| #[trigger]
        goes_by(field, entries.take(i + 1), name) <==> (goes_by(field, entries.take(i), name) || (
        is_alias(entries[i]) && entries[i].text == Some(name))) by {
        let more = entries.take(i + 1);
        let some = entries.take(i);
        if goes_by(field, more, name) && name != field {
            let k = choose|k: int|
                0 <= k < more.len() && is_alias(#[trigger] more[k]) && more[k].text == Some(name);
            if k < i {
                assert(some[k] == more[k]);
            }
        }
        if goes_by(field, some, name) && name != field {
            let k = choose|k: int|
                0 <= k < some.len() && is_alias(#[trigger] some[k]) && some[k].text == Some(name);
            assert(more[k] == some[k]);
        }
        if is_alias(entries[i]) && entries[i].text == Some(name) {
            assert(more[i] == entries[i]);
        }
    }
}

/// Every key a field answers to, in order: its own name, whatever else it
/// gives, and of any colour the British spelling too.
pub fn spellings(field: &str, entries: &Vec<Entry>) -> (r: Vec<String>)
    ensures
        ascending(text_views(r@)),
        forall|key: Seq<char>| #[trigger]
            text_views(r@).contains(key) <==> answers_to(field@, entry_views(entries@), key),
{
    let ghost all = entry_views(entries@);
    let mut names = Vars::new();
    let own = to_british(field);
    names.insert(field.to_owned(), String::new());
    names.insert(own, String::new());
    let mut i: usize = 0;
    proof {
        assert forall|key: Seq<char>| #[trigger]
            names@.contains_key(key) <==> answers_to(field@, all.take(0), key) by {
            assert(goes_by(field@, all.take(0), field@));
            if answers_to(field@, all.take(0), key) && !goes_by(field@, all.take(0), key) {
                let name = choose|name: Seq<char>| #[trigger]
                    goes_by(field@, all.take(0), name) && key == british(name);
                assert(name == field@);
            }
        }
    }
    while i < entries.len()
        invariant
            i <= entries@.len(),
            all == entry_views(entries@),
            all.len() == entries@.len(),
            known_by(field@, all.take(i as int), names@),
        decreases entries@.len() - i,
    {
        let ghost earlier = names@;
        proof {
            lemma_goes_by(field@, all, i as int);
            assert(all[i as int] == entries@[i as int]@);
        }
        let alias = same(&entries[i].path, "alias") || same(&entries[i].path, "rename");
        if alias {
            match &entries[i].text {
                Some(text) => {
                    let other = to_british(text);
                    names.insert(text.clone(), String::new());
                    names.insert(other, String::new());
                    proof {
                        assert forall|key: Seq<char>| #[trigger]
                            names@.contains_key(key) <==> answers_to(
                            field@,
                            all.take(i + 1),
                            key,
                        ) by {
                            lemma_answers_more(field@, all, i as int, key);
                            assert(earlier.contains_key(key) <==> answers_to(
                                field@,
                                all.take(i as int),
                                key,
                            ));
                        }
                    }
                },
                None => {
                    proof {
                        assert forall|key: Seq<char>| #[trigger]
                            names@.contains_key(key) <==> answers_to(
                            field@,
                            all.take(i + 1),
                            key,
                        ) by {
                            lemma_answers_more(field@, all, i as int, key);
                            assert(earlier.contains_key(key) <==> answers_to(
                                field@,
                                all.take(i as int),
                                key,
                            ));
                        }
                    }
                },
            }
        } else {
            proof {
                assert forall|key: Seq<char>| #[trigger]
                    names@.contains_key(key) <==> answers_to(field@, all.take(i + 1), key) by {
                    lemma_answers_more(field@, all, i as int, key);
                    assert(earlier.contains_key(key) <==> answers_to(
                        field@,
                        all.take(i as int),
                        key,
                    ));
                }
            }
        }
        i = i + 1;
    }
    proof {
        assert(all.take(all.len() as int) =~= all);
    }
    listed(&names)
}

/// What one more entry adds to the keys a field answers to.
proof fn lemma_answers_more(field: Seq<char>, entries: Seq<EntryView>, i: int, key: Seq<char>)
    requires
        0 <= i < entries.len(),
    ensures
        answers_to(field, entries.take(i + 1), key) <==> (answers_to(field, entries.take(i), key)
            || (is_alias(entries[i]) && (entries[i].text == Some(key) || key == british(
            entries[i].text->0,
        )))),
{
    lemma_goes_by(field, entries, i);
    let more = entries.take(i + 1);
    let some = entries.take(i);
    if answers_to(field, more, key) && !goes_by(field, more, key) {
        let name = choose|name: Seq<char>| #[trigger]
            goes_by(field, more, name) && key == british(name);
        if goes_by(field, some, name) {
            assert(answers_to(field, some, key));
        }
    }
    if answers_to(field, some, key) {
        if goes_by(field, some, key) {
            assert(goes_by(field, more, key));
        } else {
            let name = choose|name: Seq<char>| #[trigger]
                goes_by(field, some, name) && key == british(name);
            assert(goes_by(field, more, name));
        }
    }
    if is_alias(entries[i]) {
        let text = entries[i].text->0;
        assert(goes_by(field, more, text));
    }
}

/// The names in order.
fn listed(names: &Vars) -> (r: Vec<String>)
    ensures
        ascending(text_views(r@)),
        forall|key: Seq<char>| #[trigger]
            text_views(r@).contains(key) <==> names@.contains_key(key),
{
    let ghost s = names.entries();
    let mut out: Vec<String> = Vec::new();
    let len = names.len();
    let mut i: usize = 0;
    while i < len
        invariant
            i <= len,
            s == names.entries(),
            len == s.len(),
            out@.len() == i,
            forall|j: int| 0 <= j < i ==> #[trigger] text_views(out@)[j] == s[j].0,
        decreases len - i,
    {
        let ghost earlier = out@;
        out.push(names.name_at(i).to_owned());
        proof {
            assert forall|j: int| 0 <= j < i + 1 implies #[trigger] text_views(out@)[j] == s[j].0 by {
                if j < i {
                    assert(text_views(earlier)[j] == s[j].0);
                    assert(out@[j] == earlier[j]);
                }
            }
        }
        i = i + 1;
    }
    proof {
        let shown = text_views(out@);
        assert forall|a: int, b: int| 0 <= a < b < shown.len() implies before(
            #[trigger] shown[a],
            #[trigger] shown[b],
        ) by {
            assert(text_views(out@)[a] == s[a].0 && text_views(out@)[b] == s[b].0);
        }
        assert forall|key: Seq<char>| #[trigger] shown.contains(key) <==> names@.contains_key(
            key,
        ) by {
            lemma_mapped_names(s, key);
            if shown.contains(key) {
                let a = choose|a: int| 0 <= a < shown.len() && shown[a] == key;
                assert(text_views(out@)[a] == s[a].0);
                assert(s[a].0 == key);
            }
            if names@.contains_key(key) {
                let a = choose|a: int| 0 <= a < s.len() && #[trigger] s[a].0 == key;
                assert(text_views(out@)[a] == s[a].0);
                assert(shown[a] == key);
            }
        }
    }
    out
}

// ---------------------------------------------------------------------------
// Names

/// A piece with a capital at its start.
pub open spec fn capital(piece: Seq<char>) -> Seq<char> {
    if piece.len() == 0 {
        piece
    } else {
        seq![crate::text::upper_char(piece[0])] + piece.skip(1)
    }
}

/// Pieces run together, each with a capital at its start.
pub open spec fn run_together(parts: Seq<Seq<char>>) -> Seq<char>
    decreases parts.len(),
{
    if parts.len() == 0 {
        Seq::empty()
    } else {
        run_together(parts.drop_last()) + capital(parts.last())
    }
}

/// A name of several words as one of several capitals.
pub open spec fn camel_text(name: Seq<char>) -> Seq<char> {
    run_together(pieces(name, '_'))
}

/// A name of several words as one of several capitals.
pub fn camel(name: &str) -> (r: String)
    ensures
        r@ == camel_text(name@),
{
    let parts = split_on(name, '_');
    let ghost all = text_views(parts@);
    let mut out = String::new();
    let mut i: usize = 0;
    assert(all.take(0) =~= Seq::<Seq<char>>::empty());
    while i < parts.len()
        invariant
            i <= parts@.len(),
            all == text_views(parts@),
            all.len() == parts@.len(),
            out@ == run_together(all.take(i as int)),
        decreases parts@.len() - i,
    {
        proof {
            assert(all.take(i + 1).drop_last() =~= all.take(i as int));
            assert(all.take(i + 1).last() == parts@[i as int]@);
        }
        let piece = capitalised(&parts[i]);
        out = joined(&out, &piece);
        i = i + 1;
    }
    assert(all.take(all.len() as int) =~= all);
    out
}

/// A piece with a capital at its start.
fn capitalised(piece: &str) -> (r: String)
    ensures
        r@ == capital(piece@),
{
    let chars = crate::text::chars_of(piece);
    if chars.len() == 0 {
        return String::new();
    }
    let mut first: Vec<char> = Vec::new();
    first.push(chars[0]);
    let lone = crate::text::text_from(&first, 0);
    let head = crate::text::uppercase(&lone);
    let tail = crate::text::text_from(&chars, 1);
    proof {
        assert(lone@ =~= seq![piece@[0]]);
        assert(head@ =~= seq![crate::text::upper_char(piece@[0])]);
    }
    joined(&head, &tail)
}

/// What the record of what moved is called.
pub fn record_name(target: &str) -> (r: String)
    ensures
        r@ == target@ + "Moved"@,
{
    joined(target, "Moved")
}

/// What says what a field becomes.
pub fn changed_name(field: &str) -> (r: String)
    ensures
        r@ == field@ + "_changed"@,
{
    joined(field, "_changed")
}

/// What writes what a field becomes.
pub fn apply_name(field: &str) -> (r: String)
    ensures
        r@ == "apply_"@ + field@,
{
    joined("apply_", field)
}

/// What reads a field that has a way of its own to be read.
pub fn seed_name(patch: &str, field: &str) -> (r: String)
    ensures
        r@ == patch@ + camel_text(field@) + "Seed"@,
{
    let middle = camel(field);
    joined3(patch, &middle, "Seed")
}

/// What a patch that a bare text may stand for says it wanted.
pub fn expecting(patch: &str, scalar: &str) -> (r: String)
    ensures
        r@ == patch@ + " as a table of properties, or a bare string for `"@ + (scalar@ + "`"@),
{
    joined3(
        patch,
        " as a table of properties, or a bare string for `",
        &joined(scalar, "`"),
    )
}

/// What reads a patch that a bare text may stand for.
pub fn visitor_name(patch: &str) -> (r: String)
    ensures
        r@ == patch@ + "Visitor"@,
{
    joined(patch, "Visitor")
}

// ---------------------------------------------------------------------------
// Declarations

/// What a declaration says, on the struct or on a field.
#[derive(Debug, Clone, PartialEq, Eq)]
pub enum Arg {
    /// What the patch is called.
    Name(String),
    /// What a config would call this table in a sentence.
    What(String),
    /// A property this has no field for, and why.
    Gap(String, String),
    /// What the patch derives.
    Derive,
    /// What is said of how it goes over the wire.
    Attr(Vec<Entry>),
    /// The patch's type for a field.
    As(String),
    /// A field's own patch is spelled inline.
    Flatten,
    /// Nothing can be built without it.
    Required,
    /// A field has a way of its own to be read.
    ReadWith,
    /// The field a bare text stands for.
    Scalar(String),
    /// No patch carries it.
    Skip,
}

/// [`Arg`] over plain text.
pub enum ArgView {
    Name(Seq<char>),
    What(Seq<char>),
    Gap(Seq<char>, Seq<char>),
    Derive,
    Attr(Seq<EntryView>),
    As(Seq<char>),
    Flatten,
    Required,
    ReadWith,
    Scalar(Seq<char>),
    Skip,
}

impl View for Arg {
    type V = ArgView;

    open spec fn view(&self) -> ArgView {
        match self {
            Arg::Name(text) => ArgView::Name(text@),
            Arg::What(text) => ArgView::What(text@),
            Arg::Gap(key, note) => ArgView::Gap(key@, note@),
            Arg::Derive => ArgView::Derive,
            Arg::Attr(entries) => ArgView::Attr(entry_views(entries@)),
            Arg::As(ty) => ArgView::As(ty@),
            Arg::Flatten => ArgView::Flatten,
            Arg::Required => ArgView::Required,
            Arg::ReadWith => ArgView::ReadWith,
            Arg::Scalar(field) => ArgView::Scalar(field@),
            Arg::Skip => ArgView::Skip,
        }
    }
}

/// What is said, over plain text.
pub open spec fn arg_views(args: Seq<Arg>) -> Seq<ArgView> {
    args.map_values(|arg: Arg| arg@)
}

/// What is declared.
#[derive(Debug, Clone, Copy, PartialEq, Eq, Structural)]
pub enum Form {
    /// A struct of named fields.
    Named,
    /// A struct of fields without names.
    Unnamed,
    /// No struct.
    Other,
}

/// A field as it is declared.
#[derive(Debug, Clone, PartialEq, Eq)]
pub struct DeclaredField {
    pub name: String,
    pub ty: String,
    /// What it says of how it goes over the wire.
    pub entries: Vec<Entry>,
    pub args: Vec<Arg>,
}

/// A struct as it is declared.
#[derive(Debug, Clone, PartialEq, Eq)]
pub struct Declared {
    pub form: Form,
    pub args: Vec<Arg>,
    pub fields: Vec<DeclaredField>,
}

/// What a declaration says of the patch as a whole.
pub struct WholeView {
    pub name: Option<Seq<char>>,
    pub what: Option<Seq<char>>,
    pub scalar: Option<Seq<char>>,
    pub gaps: Seq<(Seq<char>, Seq<char>)>,
}

/// What a declaration says of the patch as a whole, and what is refused.
pub open spec fn whole_of(args: Seq<ArgView>) -> Result<WholeView, Refusal>
    decreases args.len(),
{
    if args.len() == 0 {
        Ok(WholeView { name: None, what: None, scalar: None, gaps: Seq::empty() })
    } else {
        match whole_of(args.drop_last()) {
            Err(refusal) => Err(refusal),
            Ok(whole) => match args.last() {
                ArgView::Name(name) => Ok(WholeView { name: Some(name), ..whole }),
                ArgView::What(what) => Ok(WholeView { what: Some(what), ..whole }),
                ArgView::Gap(key, note) => Ok(
                    WholeView { gaps: whole.gaps.push((key, note)), ..whole },
                ),
                ArgView::Derive => Ok(whole),
                ArgView::Attr(_) => Ok(whole),
                ArgView::Scalar(scalar) => Ok(WholeView { scalar: Some(scalar), ..whole }),
                ArgView::As(_) => Err(Refusal::AsOnStruct),
                ArgView::Flatten => Err(Refusal::FlattenOnStruct),
                ArgView::Required => Err(Refusal::RequiredOnStruct),
                ArgView::ReadWith => Err(Refusal::ReadWithOnStruct),
                ArgView::Skip => Err(Refusal::SkipOnStruct),
            },
        }
    }
}

/// A field of a patch.
#[verifier::ext_equal]
pub struct FieldView {
    pub name: Seq<char>,
    /// The type of what is patched.
    pub target: Seq<char>,
    /// The type of the patch's own field.
    pub ty: Seq<char>,
    pub entries: Seq<EntryView>,
    pub flatten: bool,
    pub required: bool,
    pub read_with: bool,
    /// Whether the patch has none for it.
    pub skip: bool,
}

/// A field of which nothing is said.
pub open spec fn plain_field(
    name: Seq<char>,
    ty: Seq<char>,
    entries: Seq<EntryView>,
) -> FieldView {
    FieldView {
        name,
        target: ty,
        ty,
        entries,
        flatten: false,
        required: false,
        read_with: false,
        skip: false,
    }
}

/// A field once something is said of it.
pub open spec fn told(field: FieldView, args: Seq<ArgView>) -> Result<FieldView, Refusal>
    decreases args.len(),
{
    if args.len() == 0 {
        Ok(field)
    } else {
        match told(field, args.drop_last()) {
            Err(refusal) => Err(refusal),
            Ok(so_far) => match args.last() {
                ArgView::As(ty) => Ok(FieldView { ty, ..so_far }),
                ArgView::Attr(more) => Ok(
                    FieldView { entries: so_far.entries + more, ..so_far },
                ),
                ArgView::Flatten => Ok(FieldView { flatten: true, ..so_far }),
                ArgView::Required => Ok(FieldView { required: true, ..so_far }),
                ArgView::ReadWith => Ok(FieldView { read_with: true, ..so_far }),
                ArgView::Skip => Ok(FieldView { skip: true, ..so_far }),
                _ => Err(Refusal::StructArgumentOnField),
            },
        }
    }
}

/// A field, off its declaration.
pub open spec fn field_of(declared: DeclaredField) -> Result<FieldView, Refusal> {
    match told(
        plain_field(declared.name@, declared.ty@, entry_views(declared.entries@)),
        arg_views(declared.args@),
    ) {
        Err(refusal) => Err(refusal),
        Ok(field) => if !field.skip && field.required && field.flatten {
            Err(Refusal::RequiredAndFlattened)
        } else {
            Ok(field)
        },
    }
}

/// The fields, or which of them is refused first and why.
pub open spec fn fields_of(declared: Seq<DeclaredField>) -> Result<Seq<FieldView>, (int, Refusal)>
    decreases declared.len(),
{
    if declared.len() == 0 {
        Ok(Seq::empty())
    } else {
        match fields_of(declared.drop_last()) {
            Err(refused) => Err(refused),
            Ok(so_far) => match field_of(declared.last()) {
                Err(refusal) => Err((declared.len() - 1, refusal)),
                Ok(field) => Ok(so_far.push(field)),
            },
        }
    }
}

/// The first field that is required though its patch is of another type than
/// what it patches: it cannot be taken as it stands.
pub open spec fn differing(fields: Seq<FieldView>) -> Option<int>
    decreases fields.len(),
{
    if fields.len() == 0 {
        None
    } else {
        match differing(fields.drop_last()) {
            Some(i) => Some(i),
            None => {
                let field = fields.last();
                if !field.skip && field.required && field.ty != field.target {
                    Some(fields.len() - 1)
                } else {
                    None
                }
            },
        }
    }
}

/// A patch, worked out.
pub struct PlanView {
    pub patch: Seq<char>,
    pub what: Seq<char>,
    pub scalar: Option<Seq<char>>,
    pub gaps: Seq<(Seq<char>, Seq<char>)>,
    pub fields: Seq<FieldView>,
}

/// A patch worked out from a declaration, or which field it is refused for, if
/// for one, and why.
pub open spec fn plan_of(declared: Declared) -> Result<PlanView, (Option<int>, Refusal)> {
    match declared.form {
        Form::Other => Err((None, Refusal::NotAStruct)),
        Form::Unnamed => Err((None, Refusal::UnnamedFields)),
        Form::Named => match whole_of(arg_views(declared.args@)) {
            Err(refusal) => Err((None, refusal)),
            Ok(whole) => match (whole.name, whole.what) {
                (None, _) => Err((None, Refusal::NoName)),
                (_, None) => Err((None, Refusal::NoWhat)),
                (Some(patch), Some(what)) => match fields_of(declared.fields@) {
                    Err((i, refusal)) => Err((Some(i), refusal)),
                    Ok(fields) => match differing(fields) {
                        Some(i) => Err((Some(i), Refusal::RequiredDiffers)),
                        None => Ok(
                            PlanView {
                                patch,
                                what,
                                scalar: whole.scalar,
                                gaps: whole.gaps,
                                fields,
                            },
                        ),
                    },
                },
            },
        },
    }
}

/// A field of a patch.
#[derive(Debug, Clone, PartialEq, Eq)]
pub struct Field {
    pub name: String,
    pub target: String,
    pub ty: String,
    pub entries: Vec<Entry>,
    pub flatten: bool,
    pub required: bool,
    pub read_with: bool,
    pub skip: bool,
}

impl View for Field {
    type V = FieldView;

    open spec fn view(&self) -> FieldView {
        FieldView {
            name: self.name@,
            target: self.target@,
            ty: self.ty@,
            entries: entry_views(self.entries@),
            flatten: self.flatten,
            required: self.required,
            read_with: self.read_with,
            skip: self.skip,
        }
    }
}

/// Fields over plain text.
pub open spec fn field_views(fields: Seq<Field>) -> Seq<FieldView> {
    fields.map_values(|field: Field| field@)
}

/// Whether a field says something of itself already.
pub open spec fn says(entries: Seq<EntryView>, what: Seq<char>) -> bool {
    exists|i: int| 0 <= i < entries.len() && (#[trigger] entries[i]).path == what
}

/// Whether a field says something of itself already.
pub fn already_says(entries: &Vec<Entry>, what: &str) -> (r: bool)
    ensures
        r == says(entry_views(entries@), what@),
{
    let ghost all = entry_views(entries@);
    let mut i: usize = 0;
    while i < entries.len()
        invariant
            i <= entries@.len(),
            all == entry_views(entries@),
            forall|j: int| 0 <= j < i ==> (#[trigger] all[j]).path != what@,
        decreases entries@.len() - i,
    {
        assert(all[i as int] == entries@[i as int]@);
        if same(&entries[i].path, what) {
            return true;
        }
        i = i + 1;
    }
    false
}

impl Field {
    /// Every key this answers to.
    pub fn keys(&self) -> (r: Vec<String>)
        ensures
            ascending(text_views(r@)),
            forall|key: Seq<char>| #[trigger]
                text_views(r@).contains(key) <==> answers_to(self@.name, self@.entries, key),
    {
        spellings(&self.name, &self.entries)
    }

    /// Whether the patch says itself that this is spelled inline.
    pub fn adds_flatten(&self) -> (r: bool)
        ensures
            r == (self.flatten && !says(self@.entries, "flatten"@)),
    {
        self.flatten && !already_says(&self.entries, "flatten")
    }

    /// Whether the patch says itself that this is left out where it says
    /// nothing.
    pub fn adds_skip(&self) -> (r: bool)
        ensures
            r == (!self.flatten && !says(self@.entries, "skip_serializing_if"@)),
    {
        !self.flatten && !already_says(&self.entries, "skip_serializing_if")
    }
}

/// A patch, worked out.
#[derive(Debug, Clone, PartialEq, Eq)]
pub struct Plan {
    pub patch: String,
    pub what: String,
    pub scalar: Option<String>,
    pub gaps: Vec<(String, String)>,
    pub fields: Vec<Field>,
}

/// Gaps over plain text.
pub open spec fn gap_views(gaps: Seq<(String, String)>) -> Seq<(Seq<char>, Seq<char>)> {
    gaps.map_values(|gap: (String, String)| (gap.0@, gap.1@))
}

impl View for Plan {
    type V = PlanView;

    open spec fn view(&self) -> PlanView {
        PlanView {
            patch: self.patch@,
            what: self.what@,
            scalar: crate::modules::part(self.scalar),
            gaps: gap_views(self.gaps@),
            fields: field_views(self.fields@),
        }
    }
}

/// What a declaration says of the patch as a whole.
struct Whole {
    name: Option<String>,
    what: Option<String>,
    scalar: Option<String>,
    gaps: Vec<(String, String)>,
}

/// [`Whole`] over plain text.
spec fn whole_view(whole: Whole) -> WholeView {
    WholeView {
        name: crate::modules::part(whole.name),
        what: crate::modules::part(whole.what),
        scalar: crate::modules::part(whole.scalar),
        gaps: gap_views(whole.gaps@),
    }
}

/// Once something is refused, saying more does not mend it.
proof fn lemma_whole_stays_refused(args: Seq<ArgView>, upto: int)
    requires
        0 <= upto <= args.len(),
        whole_of(args.take(upto)) is Err,
    ensures
        whole_of(args) == whole_of(args.take(upto)),
    decreases args.len(),
{
    if upto < args.len() {
        assert(args.drop_last().take(upto) =~= args.take(upto));
        lemma_whole_stays_refused(args.drop_last(), upto);
    } else {
        assert(args.take(upto) =~= args);
    }
}

/// What a declaration says of the patch as a whole.
fn whole(args: &Vec<Arg>) -> (r: Result<Whole, Refusal>)
    ensures
        match r {
            Ok(found) => whole_of(arg_views(args@)) == Ok::<WholeView, Refusal>(whole_view(found)),
            Err(refusal) => whole_of(arg_views(args@)) == Err::<WholeView, Refusal>(refusal),
        },
{
    let ghost all = arg_views(args@);
    let mut out = Whole { name: None, what: None, scalar: None, gaps: Vec::new() };
    let mut i: usize = 0;
    proof {
        assert(all.take(0) =~= Seq::<ArgView>::empty());
        assert(gap_views(out.gaps@) =~= Seq::<(Seq<char>, Seq<char>)>::empty());
    }
    while i < args.len()
        invariant
            i <= args@.len(),
            all == arg_views(args@),
            all.len() == args@.len(),
            whole_of(all.take(i as int)) == Ok::<WholeView, Refusal>(whole_view(out)),
        decreases args@.len() - i,
    {
        proof {
            assert(all.take(i + 1).drop_last() =~= all.take(i as int));
            assert(all.take(i + 1).last() == args@[i as int]@);
        }
        let refused: Option<Refusal> = match &args[i] {
            Arg::Name(name) => {
                out.name = Some(name.clone());
                None
            },
            Arg::What(what) => {
                out.what = Some(what.clone());
                None
            },
            Arg::Gap(key, note) => {
                let ghost before = out.gaps@;
                out.gaps.push((key.clone(), note.clone()));
                proof {
                    assert(gap_views(out.gaps@) =~= gap_views(before).push((key@, note@)));
                }
                None
            },
            Arg::Derive => None,
            Arg::Attr(_) => None,
            Arg::Scalar(scalar) => {
                out.scalar = Some(scalar.clone());
                None
            },
            Arg::As(_) => Some(Refusal::AsOnStruct),
            Arg::Flatten => Some(Refusal::FlattenOnStruct),
            Arg::Required => Some(Refusal::RequiredOnStruct),
            Arg::ReadWith => Some(Refusal::ReadWithOnStruct),
            Arg::Skip => Some(Refusal::SkipOnStruct),
        };
        match refused {
            Some(refusal) => {
                proof {
                    lemma_whole_stays_refused(all, i + 1);
                }
                return Err(refusal);
            },
            None => {},
        }
        i = i + 1;
    }
    assert(all.take(all.len() as int) =~= all);
    Ok(out)
}

/// Once something is refused of a field, saying more does not mend it.
proof fn lemma_told_stays_refused(field: FieldView, args: Seq<ArgView>, upto: int)
    requires
        0 <= upto <= args.len(),
        told(field, args.take(upto)) is Err,
    ensures
        told(field, args) == told(field, args.take(upto)),
    decreases args.len(),
{
    if upto < args.len() {
        assert(args.drop_last().take(upto) =~= args.take(upto));
        lemma_told_stays_refused(field, args.drop_last(), upto);
    } else {
        assert(args.take(upto) =~= args);
    }
}

/// More entries behind some.
fn append(entries: &mut Vec<Entry>, more: &Vec<Entry>)
    ensures
        entry_views(final(entries)@) == entry_views(old(entries)@) + entry_views(more@),
{
    let ghost start = entry_views(entries@);
    let ghost rest = entry_views(more@);
    let mut i: usize = 0;
    assert(start + rest.take(0) =~= start);
    while i < more.len()
        invariant
            i <= more@.len(),
            rest == entry_views(more@),
            entry_views(entries@) == start + rest.take(i as int),
        decreases more@.len() - i,
    {
        let ghost before = entries@;
        let entry = Entry {
            path: more[i].path.clone(),
            text: match &more[i].text {
                Some(text) => Some(text.clone()),
                None => None,
            },
        };
        let ghost view = entry@;
        entries.push(entry);
        proof {
            assert(view == rest[i as int]);
            assert(entry_views(entries@) =~= entry_views(before).push(view));
            assert(start + rest.take(i + 1) =~= (start + rest.take(i as int)).push(view));
        }
        i = i + 1;
    }
    assert(rest.take(rest.len() as int) =~= rest);
}

impl DeclaredField {
    /// The field this declares.
    pub fn field(&self) -> (r: Result<Field, Refusal>)
        ensures
            match r {
                Ok(field) => field_of(*self) == Ok::<FieldView, Refusal>(field@),
                Err(refusal) => field_of(*self) == Err::<FieldView, Refusal>(refusal),
            },
    {
        let ghost plain = plain_field(self.name@, self.ty@, entry_views(self.entries@));
        let ghost all = arg_views(self.args@);
        let mut entries: Vec<Entry> = Vec::new();
        assert(entry_views(entries@) + entry_views(self.entries@) =~= entry_views(self.entries@));
        append(&mut entries, &self.entries);
        let mut out = Field {
            name: self.name.clone(),
            target: self.ty.clone(),
            ty: self.ty.clone(),
            entries,
            flatten: false,
            required: false,
            read_with: false,
            skip: false,
        };
        let mut i: usize = 0;
        assert(all.take(0) =~= Seq::<ArgView>::empty());
        while i < self.args.len()
            invariant
                i <= self.args@.len(),
                plain == plain_field(self.name@, self.ty@, entry_views(self.entries@)),
                all == arg_views(self.args@),
                all.len() == self.args@.len(),
                told(plain, all.take(i as int)) == Ok::<FieldView, Refusal>(out@),
            decreases self.args@.len() - i,
        {
            proof {
                assert(all.take(i + 1).drop_last() =~= all.take(i as int));
                assert(all.take(i + 1).last() == self.args@[i as int]@);
            }
            let refused: bool = match &self.args[i] {
                Arg::As(ty) => {
                    out.ty = ty.clone();
                    false
                },
                Arg::Attr(more) => {
                    append(&mut out.entries, more);
                    false
                },
                Arg::Flatten => {
                    out.flatten = true;
                    false
                },
                Arg::Required => {
                    out.required = true;
                    false
                },
                Arg::ReadWith => {
                    out.read_with = true;
                    false
                },
                Arg::Skip => {
                    out.skip = true;
                    false
                },
                _ => true,
            };
            if refused {
                proof {
                    lemma_told_stays_refused(plain, all, i + 1);
                }
                return Err(Refusal::StructArgumentOnField);
            }
            i = i + 1;
        }
        assert(all.take(all.len() as int) =~= all);
        if !out.skip && out.required && out.flatten {
            return Err(Refusal::RequiredAndFlattened);
        }
        Ok(out)
    }
}

/// Once a field is refused, more fields do not mend it.
proof fn lemma_fields_stay_refused(declared: Seq<DeclaredField>, upto: int)
    requires
        0 <= upto <= declared.len(),
        fields_of(declared.take(upto)) is Err,
    ensures
        fields_of(declared) == fields_of(declared.take(upto)),
    decreases declared.len(),
{
    if upto < declared.len() {
        assert(declared.drop_last().take(upto) =~= declared.take(upto));
        lemma_fields_stay_refused(declared.drop_last(), upto);
    } else {
        assert(declared.take(upto) =~= declared);
    }
}

/// The fields, or which of them is refused first and why.
fn fields(declared: &Vec<DeclaredField>) -> (r: Result<Vec<Field>, (usize, Refusal)>)
    ensures
        match fields_of(declared@) {
            Ok(all) => r matches Ok(fields) && field_views(fields@) == all,
            Err((i, refusal)) => r matches Err((at, why)) && at == i && why == refusal,
        },
{
    let mut out: Vec<Field> = Vec::new();
    let mut i: usize = 0;
    proof {
        assert(declared@.take(0) =~= Seq::<DeclaredField>::empty());
        assert(field_views(out@) =~= Seq::<FieldView>::empty());
    }
    while i < declared.len()
        invariant
            i <= declared@.len(),
            fields_of(declared@.take(i as int)) == Ok::<Seq<FieldView>, (int, Refusal)>(
                field_views(out@),
            ),
        decreases declared@.len() - i,
    {
        proof {
            assert(declared@.take(i + 1).drop_last() =~= declared@.take(i as int));
            assert(declared@.take(i + 1).last() == declared@[i as int]);
        }
        match declared[i].field() {
            Ok(field) => {
                let ghost before = out@;
                let ghost view = field@;
                out.push(field);
                proof {
                    assert(field_views(out@) =~= field_views(before).push(view));
                }
            },
            Err(refusal) => {
                proof {
                    lemma_fields_stay_refused(declared@, i + 1);
                }
                return Err((i, refusal));
            },
        }
        i = i + 1;
    }
    assert(declared@.take(declared@.len() as int) =~= declared@);
    Ok(out)
}

/// A field found to differ among some is found among more.
proof fn lemma_differing(fields: Seq<FieldView>, upto: int)
    requires
        0 <= upto <= fields.len(),
        differing(fields.take(upto)) is Some,
    ensures
        differing(fields) == differing(fields.take(upto)),
    decreases fields.len(),
{
    if upto < fields.len() {
        assert(fields.drop_last().take(upto) =~= fields.take(upto));
        lemma_differing(fields.drop_last(), upto);
    } else {
        assert(fields.take(upto) =~= fields);
    }
}

/// The first field that is required though it differs.
fn find_differing(fields: &Vec<Field>) -> (r: Option<usize>)
    ensures
        match r {
            Some(i) => differing(field_views(fields@)) == Some(i as int),
            None => differing(field_views(fields@)) is None,
        },
{
    let ghost all = field_views(fields@);
    let mut i: usize = 0;
    assert(all.take(0) =~= Seq::<FieldView>::empty());
    while i < fields.len()
        invariant
            i <= fields@.len(),
            all == field_views(fields@),
            all.len() == fields@.len(),
            differing(all.take(i as int)) is None,
        decreases fields@.len() - i,
    {
        proof {
            assert(all.take(i + 1).drop_last() =~= all.take(i as int));
            assert(all.take(i + 1).last() == fields@[i as int]@);
        }
        if !fields[i].skip && fields[i].required && !same(&fields[i].ty, &fields[i].target) {
            proof {
                lemma_differing(all, i + 1);
            }
            return Some(i);
        }
        i = i + 1;
    }
    assert(all.take(all.len() as int) =~= all);
    None
}

impl Declared {
    /// The patch of what this declares, or which field it is refused for, if
    /// for one, and why.
    pub fn plan(&self) -> (r: Result<Plan, (Option<usize>, Refusal)>)
        ensures
            match plan_of(*self) {
                Ok(plan) => r matches Ok(found) && found@ == plan,
                Err((None, refusal)) => r matches Err((None, why)) && why == refusal,
                Err((Some(i), refusal)) => r matches Err((Some(at), why)) && at == i && why
                    == refusal,
            },
    {
        match self.form {
            Form::Other => {
                return Err((None, Refusal::NotAStruct));
            },
            Form::Unnamed => {
                return Err((None, Refusal::UnnamedFields));
            },
            Form::Named => {},
        }
        let found = match whole(&self.args) {
            Ok(found) => found,
            Err(refusal) => {
                return Err((None, refusal));
            },
        };
        let patch = match found.name {
            Some(patch) => patch,
            None => {
                return Err((None, Refusal::NoName));
            },
        };
        let what = match found.what {
            Some(what) => what,
            None => {
                return Err((None, Refusal::NoWhat));
            },
        };
        let fields = match fields(&self.fields) {
            Ok(fields) => fields,
            Err((i, refusal)) => {
                return Err((Some(i), refusal));
            },
        };
        match find_differing(&fields) {
            Some(i) => Err((Some(i), Refusal::RequiredDiffers)),
            None => Ok(Plan { patch, what, scalar: found.scalar, gaps: found.gaps, fields }),
        }
    }
}

// ---------------------------------------------------------------------------
// Laws

/// A field answers to its own name, and to the British spelling of every name
/// it goes by.
pub proof fn law_a_field_answers_to_its_names(
    field: Seq<char>,
    entries: Seq<EntryView>,
    name: Seq<char>,
)
    requires
        goes_by(field, entries, name),
    ensures
        answers_to(field, entries, field),
        answers_to(field, entries, name),
        answers_to(field, entries, british(name)),
{
    assert(goes_by(field, entries, field));
}

/// Whether a colour stands at a place.
pub open spec fn color_at(text: Seq<char>, i: int) -> bool {
    0 <= i <= text.len() - 5 && text.subrange(i, i + 5) == "color"@
}

/// What has no colour in it is spelled one way alone.
pub proof fn law_only_colours_have_two_spellings(text: Seq<char>)
    requires
        forall|i: int| !#[trigger] color_at(text, i),
    ensures
        british(text) == text,
    decreases text.len(),
{
    reveal_strlit("color");
    if text.len() > 0 {
        let rest = text.skip(1);
        assert forall|i: int| !#[trigger] color_at(rest, i) by {
            assert(!color_at(text, i + 1));
            if 0 <= i <= rest.len() - 5 {
                assert(rest.subrange(i, i + 5) =~= text.subrange(i + 1, i + 6));
            }
        }
        law_only_colours_have_two_spellings(rest);
        if text.len() >= 5 {
            assert(!color_at(text, 0));
            assert(text.subrange(0, 5) =~= text.take(5));
        }
        assert(british(text) =~= text);
    } else {
        assert(british(text) =~= text);
    }
}

/// No patch has a field that is required as a whole and spelled inline.
pub proof fn law_a_flattened_field_is_not_required(declared: Seq<DeclaredField>, i: int)
    requires
        fields_of(declared) matches Ok(fields) && 0 <= i < fields.len() && !fields[i].skip,
    ensures
        fields_of(declared) matches Ok(fields) && !(fields[i].required && fields[i].flatten),
        fields_of(declared) matches Ok(fields) && fields.len() == declared.len(),
    decreases declared.len(),
{
    if declared.len() > 0 {
        let short = declared.drop_last();
        lemma_fields_len(short);
        if i < short.len() {
            law_a_flattened_field_is_not_required(short, i);
        }
    }
}

/// There is a field for each that is declared.
proof fn lemma_fields_len(declared: Seq<DeclaredField>)
    ensures
        fields_of(declared) matches Ok(fields) ==> fields.len() == declared.len(),
    decreases declared.len(),
{
    if declared.len() > 0 {
        lemma_fields_len(declared.drop_last());
    }
}

} // verus!
