//! Spelling tables: how the variants of a type are spelled, and in what order
//! a text is held against them.
//!
//! The literal spellings are asked first, of the text once it is folded. A
//! spelling computed from what its variant carries is asked of the text
//! itself: those with something around the payload to know them by, then
//! those without, which match anything. Whatever is left goes to the one
//! variant that claims it.

use crate::text::{
    ends_with, joined, joined3, lowercase, lowered, replace, replaced, same, starts_with,
    strip_prefix, strip_suffix, text_views,
};
use vstd::prelude::*;

verus! {

// ---------------------------------------------------------------------------
// What is refused

/// Why a table cannot be read.
#[derive(Debug, Clone, Copy, PartialEq, Eq, Structural)]
pub enum Refusal {
    NotAnEnum,
    NoSpelling,
    PayloadTwice,
    NoPayload,
    SeveralPayloads,
    PayloadAndWords,
    WordWithPayload,
    TwoRests,
    SerdeWithoutError,
    UnknownFold,
    UnknownSerde,
    UnknownArgument,
    UnknownVariantArgument,
}

/// The sentence a refusal is reported as.
pub open spec fn refusal_text(refusal: Refusal) -> Seq<char> {
    match refusal {
        Refusal::NotAnEnum =>
            "a spelling table is a list of variants, so this derives on an enum"@,
        Refusal::NoSpelling => "every variant needs a spelling: `#[spell(\"left\", \"l\")]`"@,
        Refusal::PayloadTwice => "a spelling carries the payload once, not twice"@,
        Refusal::NoPayload => "`{}` names the variant's one payload, and this variant has none"@,
        Refusal::SeveralPayloads =>
            "`{}` names the variant's one payload, and this variant has several"@,
        Refusal::PayloadAndWords => "a payload spelling is the only one its variant has"@,
        Refusal::WordWithPayload =>
            "a variant spelled by a word alone carries nothing to read a payload from; give it a `{}` spelling, or drop `error = ...` and print it only"@,
        Refusal::TwoRests => "only one variant can claim whatever is left"@,
        Refusal::SerdeWithoutError =>
            "reading a spelling back needs `error = ...` to say what a bad one is"@,
        Refusal::UnknownFold => "expected `none`, `lower` or `dashes`"@,
        Refusal::UnknownSerde => "expected `bool`"@,
        Refusal::UnknownArgument =>
            "expected `error`, `unknown`, `fold`, `rest`, `serde` or `expecting`"@,
        Refusal::UnknownVariantArgument => "expected a spelling, `parse = ...` or `rest = ...`"@,
    }
}

impl Refusal {
    /// The sentence this is reported as.
    pub fn to_string(&self) -> (r: String)
        ensures
            r@ == refusal_text(*self),
    {
        match self {
            Refusal::NotAnEnum =>
                "a spelling table is a list of variants, so this derives on an enum".to_owned(),
            Refusal::NoSpelling =>
                "every variant needs a spelling: `#[spell(\"left\", \"l\")]`".to_owned(),
            Refusal::PayloadTwice => "a spelling carries the payload once, not twice".to_owned(),
            Refusal::NoPayload =>
                "`{}` names the variant's one payload, and this variant has none".to_owned(),
            Refusal::SeveralPayloads =>
                "`{}` names the variant's one payload, and this variant has several".to_owned(),
            Refusal::PayloadAndWords =>
                "a payload spelling is the only one its variant has".to_owned(),
            Refusal::WordWithPayload =>
                "a variant spelled by a word alone carries nothing to read a payload from; give it a `{}` spelling, or drop `error = ...` and print it only".to_owned(),
            Refusal::TwoRests => "only one variant can claim whatever is left".to_owned(),
            Refusal::SerdeWithoutError =>
                "reading a spelling back needs `error = ...` to say what a bad one is".to_owned(),
            Refusal::UnknownFold => "expected `none`, `lower` or `dashes`".to_owned(),
            Refusal::UnknownSerde => "expected `bool`".to_owned(),
            Refusal::UnknownArgument =>
                "expected `error`, `unknown`, `fold`, `rest`, `serde` or `expecting`".to_owned(),
            Refusal::UnknownVariantArgument =>
                "expected a spelling, `parse = ...` or `rest = ...`".to_owned(),
        }
    }
}

// ---------------------------------------------------------------------------
// Arguments

/// What a text is put through before the literal spellings are asked.
#[derive(Debug, Clone, Copy, PartialEq, Eq, Structural)]
pub enum Fold {
    /// Nothing.
    Exact,
    Lower,
    /// Lower case, and an underscore is a dash.
    Dashes,
}

/// The fold a word is.
pub open spec fn fold_named(word: Seq<char>) -> Option<Fold> {
    if word == "none"@ {
        Some(Fold::Exact)
    } else if word == "lower"@ {
        Some(Fold::Lower)
    } else if word == "dashes"@ {
        Some(Fold::Dashes)
    } else {
        None
    }
}

/// A text once it is folded.
pub open spec fn folded(fold: Fold, text: Seq<char>) -> Seq<char> {
    match fold {
        Fold::Exact => text,
        Fold::Lower => lowered(text),
        Fold::Dashes => lowered(replaced(text, '_', '-')),
    }
}

impl Fold {
    /// The fold a word is.
    pub fn named(word: &str) -> (r: Result<Fold, Refusal>)
        ensures
            match r {
                Ok(fold) => fold_named(word@) == Some(fold),
                Err(refusal) => fold_named(word@) is None && refusal == Refusal::UnknownFold,
            },
    {
        if same(word, "none") {
            Ok(Fold::Exact)
        } else if same(word, "lower") {
            Ok(Fold::Lower)
        } else if same(word, "dashes") {
            Ok(Fold::Dashes)
        } else {
            Err(Refusal::UnknownFold)
        }
    }

    /// A text once it is folded.
    pub fn apply(self, text: &str) -> (r: String)
        ensures
            r@ == folded(self, text@),
    {
        match self {
            Fold::Exact => text.to_owned(),
            Fold::Lower => lowercase(text),
            Fold::Dashes => {
                let dashed = replace(text, '_', '-');
                lowercase(&dashed)
            },
        }
    }
}

/// What a table may say of itself.
#[derive(Debug, Clone, Copy, PartialEq, Eq, Structural)]
pub enum TableWord {
    Error,
    Unknown,
    Fold,
    Rest,
    Serde,
    Expecting,
}

/// What a word says of a table.
pub open spec fn table_word(word: Seq<char>) -> Option<TableWord> {
    if word == "error"@ {
        Some(TableWord::Error)
    } else if word == "unknown"@ {
        Some(TableWord::Unknown)
    } else if word == "rest"@ {
        Some(TableWord::Rest)
    } else if word == "expecting"@ {
        Some(TableWord::Expecting)
    } else if word == "fold"@ {
        Some(TableWord::Fold)
    } else if word == "serde"@ {
        Some(TableWord::Serde)
    } else {
        None
    }
}

impl TableWord {
    /// What a word says of a table.
    pub fn named(word: &str) -> (r: Result<TableWord, Refusal>)
        ensures
            match r {
                Ok(what) => table_word(word@) == Some(what),
                Err(refusal) => table_word(word@) is None && refusal == Refusal::UnknownArgument,
            },
    {
        if same(word, "error") {
            Ok(TableWord::Error)
        } else if same(word, "unknown") {
            Ok(TableWord::Unknown)
        } else if same(word, "rest") {
            Ok(TableWord::Rest)
        } else if same(word, "expecting") {
            Ok(TableWord::Expecting)
        } else if same(word, "fold") {
            Ok(TableWord::Fold)
        } else if same(word, "serde") {
            Ok(TableWord::Serde)
        } else {
            Err(Refusal::UnknownArgument)
        }
    }

    /// Whether a native boolean is read as well, given what stands behind
    /// `serde`, where anything does.
    pub fn any_bool(extra: Option<&str>) -> (r: Result<bool, Refusal>)
        ensures
            match extra {
                None => r == Ok::<bool, Refusal>(false),
                Some(word) => if word@ == "bool"@ {
                    r == Ok::<bool, Refusal>(true)
                } else {
                    r == Err::<bool, Refusal>(Refusal::UnknownSerde)
                },
            },
    {
        match extra {
            None => Ok(false),
            Some(word) => if same(word, "bool") {
                Ok(true)
            } else {
                Err(Refusal::UnknownSerde)
            },
        }
    }
}

/// What a variant may say besides its spellings.
#[derive(Debug, Clone, Copy, PartialEq, Eq, Structural)]
pub enum VariantWord {
    Parse,
    Rest,
}

impl VariantWord {
    /// What a word says of a variant.
    pub fn named(word: &str) -> (r: Result<VariantWord, Refusal>)
        ensures
            r == (if word@ == "parse"@ {
                Ok::<VariantWord, Refusal>(VariantWord::Parse)
            } else if word@ == "rest"@ {
                Ok::<VariantWord, Refusal>(VariantWord::Rest)
            } else {
                Err::<VariantWord, Refusal>(Refusal::UnknownVariantArgument)
            }),
    {
        if same(word, "parse") {
            Ok(VariantWord::Parse)
        } else if same(word, "rest") {
            Ok(VariantWord::Rest)
        } else {
            Err(Refusal::UnknownVariantArgument)
        }
    }
}

// ---------------------------------------------------------------------------
// Variants

/// What a variant carries.
#[derive(Debug, Clone, Copy, PartialEq, Eq, Structural)]
pub enum Shape {
    Unit,
    Named,
    /// So many, without names.
    Unnamed(usize),
}

/// A variant as it is declared.
#[derive(Debug, Clone, PartialEq, Eq)]
pub struct Spelt {
    pub shape: Shape,
    /// Its spellings, the one it is printed as first.
    pub words: Vec<String>,
    /// Whether it has a way of its own to be read.
    pub parse: bool,
    /// Whether it claims whatever is left.
    pub rest: bool,
}

/// [`Spelt`] over plain text.
pub struct SpeltView {
    pub shape: Shape,
    pub words: Seq<Seq<char>>,
    pub parse: bool,
    pub rest: bool,
}

impl View for Spelt {
    type V = SpeltView;

    open spec fn view(&self) -> SpeltView {
        SpeltView {
            shape: self.shape,
            words: text_views(self.words@),
            parse: self.parse,
            rest: self.rest,
        }
    }
}

/// How a variant is spelled.
#[derive(Debug, Clone, PartialEq, Eq)]
pub enum Spelling {
    /// By any of some words, the first of them the one it is printed as.
    Words(Vec<String>),
    /// By its payload, between what goes before and what goes after.
    Payload { prefix: String, suffix: String },
}

/// [`Spelling`] over plain text.
pub enum SpellingView {
    Words(Seq<Seq<char>>),
    Payload(Seq<char>, Seq<char>),
}

impl View for Spelling {
    type V = SpellingView;

    open spec fn view(&self) -> SpellingView {
        match self {
            Spelling::Words(words) => SpellingView::Words(text_views(words@)),
            Spelling::Payload { prefix, suffix } => SpellingView::Payload(prefix@, suffix@),
        }
    }
}

/// What a pattern takes of a variant's payload.
#[derive(Debug, Clone, Copy, PartialEq, Eq, Structural)]
pub enum Binding {
    /// It has none.
    Nothing,
    /// It is passed over by name.
    Braces,
    /// It is taken.
    Value,
    /// It is passed over.
    Ignored,
}

/// A variant and how it is spelled.
#[derive(Debug, Clone, PartialEq, Eq)]
pub struct Variant {
    pub spelling: Spelling,
    pub binding: Binding,
    pub parse: bool,
    pub rest: bool,
}

/// [`Variant`] over plain text.
pub struct VariantView {
    pub spelling: SpellingView,
    pub binding: Binding,
    pub parse: bool,
    pub rest: bool,
}

impl View for Variant {
    type V = VariantView;

    open spec fn view(&self) -> VariantView {
        VariantView {
            spelling: self.spelling@,
            binding: self.binding,
            parse: self.parse,
            rest: self.rest,
        }
    }
}

/// Variants over plain text.
pub open spec fn variant_views(variants: Seq<Variant>) -> Seq<VariantView> {
    variants.map_values(|variant: Variant| variant@)
}

/// Declared variants over plain text.
pub open spec fn spelt_views(declared: Seq<Spelt>) -> Seq<SpeltView> {
    declared.map_values(|spelt: Spelt| spelt@)
}

/// Whether a payload's mark stands at a place.
pub open spec fn hole_at(text: Seq<char>, i: int) -> bool {
    0 <= i < text.len() - 1 && text[i] == '{' && text[i + 1] == '}'
}

/// Where a payload's mark first stands, from a place on.
pub open spec fn hole_from(text: Seq<char>, i: int) -> Option<int>
    decreases text.len() - i,
{
    if i >= text.len() - 1 || i < 0 {
        None
    } else if hole_at(text, i) {
        Some(i)
    } else {
        hole_from(text, i + 1)
    }
}

/// Where a payload's mark first stands.
pub open spec fn first_hole(text: Seq<char>) -> Option<int> {
    hole_from(text, 0)
}

/// How a spelling is told: by itself, or by the payload where it has a mark.
pub open spec fn split_spelling(text: Seq<char>, shape: Shape) -> Result<
    Option<(Seq<char>, Seq<char>)>,
    Refusal,
> {
    match first_hole(text) {
        None => Ok(None),
        Some(i) => {
            let suffix = text.skip(i + 2);
            if first_hole(suffix) is Some {
                Err(Refusal::PayloadTwice)
            } else {
                match shape {
                    Shape::Unnamed(n) => if n == 1 {
                        Ok(Some((text.take(i), suffix)))
                    } else {
                        Err(Refusal::SeveralPayloads)
                    },
                    _ => Err(Refusal::NoPayload),
                }
            }
        },
    }
}

/// What a pattern takes of a payload.
pub open spec fn binding_of(shape: Shape, payload: bool) -> Binding {
    match shape {
        Shape::Unit => Binding::Nothing,
        Shape::Named => Binding::Braces,
        Shape::Unnamed(_) => if payload {
            Binding::Value
        } else {
            Binding::Ignored
        },
    }
}

/// A variant, off its declaration.
pub open spec fn variant_of(declared: SpeltView) -> Result<VariantView, Refusal> {
    if declared.words.len() == 0 {
        Err(Refusal::NoSpelling)
    } else {
        match split_spelling(declared.words[0], declared.shape) {
            Err(refusal) => Err(refusal),
            Ok(None) => Ok(
                VariantView {
                    spelling: SpellingView::Words(declared.words),
                    binding: binding_of(declared.shape, false),
                    parse: declared.parse,
                    rest: declared.rest,
                },
            ),
            Ok(Some((prefix, suffix))) => if declared.words.len() > 1 {
                Err(Refusal::PayloadAndWords)
            } else {
                Ok(
                    VariantView {
                        spelling: SpellingView::Payload(prefix, suffix),
                        binding: binding_of(declared.shape, true),
                        parse: declared.parse,
                        rest: declared.rest,
                    },
                )
            },
        }
    }
}

/// The variants of a table, or which of them is refused first and why.
pub open spec fn variants_of(declared: Seq<SpeltView>) -> Result<
    Seq<VariantView>,
    (int, Refusal),
>
    decreases declared.len(),
{
    if declared.len() == 0 {
        Ok(Seq::empty())
    } else {
        match variants_of(declared.drop_last()) {
            Err(refused) => Err(refused),
            Ok(before) => match variant_of(declared.last()) {
                Err(refusal) => Err((declared.len() - 1, refusal)),
                Ok(variant) => Ok(before.push(variant)),
            },
        }
    }
}

/// Once a variant is refused, more variants do not mend it.
proof fn lemma_variants_stay_refused(declared: Seq<SpeltView>, upto: int)
    requires
        0 <= upto <= declared.len(),
        variants_of(declared.take(upto)) is Err,
    ensures
        variants_of(declared) == variants_of(declared.take(upto)),
    decreases declared.len(),
{
    if upto < declared.len() {
        assert(declared.drop_last().take(upto) =~= declared.take(upto));
        lemma_variants_stay_refused(declared.drop_last(), upto);
    } else {
        assert(declared.take(upto) =~= declared);
    }
}

/// Where a payload's mark first stands.
fn find_hole(chars: &Vec<char>, from: usize) -> (r: Option<usize>)
    ensures
        match r {
            Some(i) => hole_from(chars@, from as int) == Some(i as int) && i + 1 < chars@.len(),
            None => hole_from(chars@, from as int) is None,
        },
{
    let mut i: usize = from;
    while i < chars.len() && i + 1 < chars.len()
        invariant
            from <= i,
            i <= chars@.len() || i == from,
            hole_from(chars@, from as int) == hole_from(chars@, i as int),
        decreases chars@.len() - i,
    {
        if chars[i] == '{' && chars[i + 1] == '}' {
            assert(hole_at(chars@, i as int));
            return Some(i);
        }
        i = i + 1;
    }
    None
}

/// A mark stands in what is left of a text where it stands in the text.
proof fn lemma_hole_skip(text: Seq<char>, from: int, i: int)
    requires
        0 <= from <= text.len(),
        0 <= i,
    ensures
        hole_from(text.skip(from), i) is Some <==> hole_from(text, from + i) is Some,
    decreases text.len() - from - i,
{
    let rest = text.skip(from);
    if i < rest.len() - 1 {
        assert(rest[i] == text[from + i] && rest[i + 1] == text[from + i + 1]);
        if !hole_at(rest, i) {
            lemma_hole_skip(text, from, i + 1);
        }
    }
}

/// How a spelling is told.
fn split(text: &str, shape: Shape) -> (r: Result<Option<(String, String)>, Refusal>)
    ensures
        match r {
            Err(refusal) => split_spelling(text@, shape) == Err::<
                Option<(Seq<char>, Seq<char>)>,
                Refusal,
            >(refusal),
            Ok(None) => split_spelling(text@, shape) == Ok::<
                Option<(Seq<char>, Seq<char>)>,
                Refusal,
            >(None),
            Ok(Some((prefix, suffix))) => split_spelling(text@, shape) == Ok::<
                Option<(Seq<char>, Seq<char>)>,
                Refusal,
            >(Some((prefix@, suffix@))),
        },
{
    let chars = crate::text::chars_of(text);
    match find_hole(&chars, 0) {
        None => Ok(None),
        Some(i) => {
            proof {
                lemma_hole_skip(text@, i + 2, 0);
            }
            if find_hole(&chars, i + 2).is_some() {
                return Err(Refusal::PayloadTwice);
            }
            match shape {
                Shape::Unnamed(n) => if n == 1 {
                    let mut before: Vec<char> = Vec::new();
                    let mut j: usize = 0;
                    while j < i
                        invariant
                            j <= i,
                            i < chars@.len(),
                            before@ =~= chars@.take(j as int),
                        decreases i - j,
                    {
                        before.push(chars[j]);
                        j = j + 1;
                    }
                    let prefix = crate::text::text_from(&before, 0);
                    let suffix = crate::text::text_from(&chars, i + 2);
                    assert(before@.skip(0) =~= before@);
                    Ok(Some((prefix, suffix)))
                } else {
                    Err(Refusal::SeveralPayloads)
                },
                _ => Err(Refusal::NoPayload),
            }
        },
    }
}

/// The same words again.
fn copy_words(words: &Vec<String>) -> (r: Vec<String>)
    ensures
        text_views(r@) == text_views(words@),
{
    let mut out: Vec<String> = Vec::new();
    let mut i: usize = 0;
    while i < words.len()
        invariant
            i <= words@.len(),
            text_views(out@) =~= text_views(words@).take(i as int),
        decreases words@.len() - i,
    {
        let ghost before = out@;
        out.push(words[i].clone());
        proof {
            assert(text_views(out@) =~= text_views(before).push(words@[i as int]@));
        }
        i = i + 1;
    }
    assert(text_views(words@).take(words@.len() as int) =~= text_views(words@));
    out
}

impl Spelt {
    /// The variant this declares.
    pub fn variant(&self) -> (r: Result<Variant, Refusal>)
        ensures
            match r {
                Ok(variant) => variant_of(self@) == Ok::<VariantView, Refusal>(variant@),
                Err(refusal) => variant_of(self@) == Err::<VariantView, Refusal>(refusal),
            },
    {
        if self.words.len() == 0 {
            return Err(Refusal::NoSpelling);
        }
        assert(self@.words[0] == self.words@[0]@);
        match split(&self.words[0], self.shape) {
            Err(refusal) => Err(refusal),
            Ok(None) => Ok(
                Variant {
                    spelling: Spelling::Words(copy_words(&self.words)),
                    binding: match self.shape {
                        Shape::Unit => Binding::Nothing,
                        Shape::Named => Binding::Braces,
                        Shape::Unnamed(_) => Binding::Ignored,
                    },
                    parse: self.parse,
                    rest: self.rest,
                },
            ),
            Ok(Some((prefix, suffix))) => if self.words.len() > 1 {
                Err(Refusal::PayloadAndWords)
            } else {
                Ok(
                    Variant {
                        spelling: Spelling::Payload { prefix, suffix },
                        binding: match self.shape {
                            Shape::Unit => Binding::Nothing,
                            Shape::Named => Binding::Braces,
                            Shape::Unnamed(_) => Binding::Value,
                        },
                        parse: self.parse,
                        rest: self.rest,
                    },
                )
            },
        }
    }
}

/// The variants of a table, or which of them is refused first and why. What is
/// no enum has none.
pub fn variants(declared: Option<&Vec<Spelt>>) -> (r: Result<
    Vec<Variant>,
    (Option<usize>, Refusal),
>)
    ensures
        match declared {
            None => r == Err::<Vec<Variant>, (Option<usize>, Refusal)>((None, Refusal::NotAnEnum)),
            Some(list) => match variants_of(spelt_views(list@)) {
                Ok(all) => r matches Ok(variants) && variant_views(variants@) == all,
                Err((i, refusal)) => r matches Err((Some(at), why)) && at == i && why == refusal,
            },
        },
{
    let list = match declared {
        Some(list) => list,
        None => {
            return Err((None, Refusal::NotAnEnum));
        },
    };
    let ghost all = spelt_views(list@);
    let mut out: Vec<Variant> = Vec::new();
    let mut i: usize = 0;
    proof {
        assert(all.take(0) =~= Seq::<SpeltView>::empty());
        assert(variant_views(out@) =~= Seq::<VariantView>::empty());
    }
    while i < list.len()
        invariant
            i <= list@.len(),
            declared == Some(list),
            all == spelt_views(list@),
            all.len() == list@.len(),
            variants_of(all.take(i as int)) == Ok::<Seq<VariantView>, (int, Refusal)>(
                variant_views(out@),
            ),
        decreases list@.len() - i,
    {
        proof {
            assert(all.take(i + 1).drop_last() =~= all.take(i as int));
            assert(all.take(i + 1).last() == list@[i as int]@);
        }
        match list[i].variant() {
            Ok(variant) => {
                let ghost before = out@;
                let ghost view = variant@;
                out.push(variant);
                proof {
                    assert(variant_views(out@) =~= variant_views(before).push(view));
                }
            },
            Err(refusal) => {
                proof {
                    lemma_variants_stay_refused(all, i + 1);
                }
                return Err((Some(i), refusal));
            },
        }
        i = i + 1;
    }
    proof {
        assert(all.take(all.len() as int) =~= all);
    }
    Ok(out)
}

// ---------------------------------------------------------------------------
// Reading

/// What becomes of a text that nothing else claims.
#[derive(Debug, Clone, Copy, PartialEq, Eq, Structural)]
pub enum Tail {
    /// A variant claims it.
    Variant(usize),
    /// The type has a way of its own to read it.
    Rest,
    /// It is no spelling.
    Unknown,
}

/// How a text is read: which variants are spelled by words, which by a payload
/// with something around it, which by whatever they make of a text, and what
/// becomes of the rest.
#[derive(Debug, Clone, PartialEq, Eq)]
pub struct Plan {
    pub words: Vec<usize>,
    pub affixed: Vec<usize>,
    pub bare: Vec<usize>,
    pub tail: Tail,
}

/// [`Plan`] over plain numbers.
pub struct PlanView {
    pub words: Seq<usize>,
    pub affixed: Seq<usize>,
    pub bare: Seq<usize>,
    pub tail: Tail,
}

impl View for Plan {
    type V = PlanView;

    open spec fn view(&self) -> PlanView {
        PlanView {
            words: self.words@,
            affixed: self.affixed@,
            bare: self.bare@,
            tail: self.tail,
        }
    }
}

/// Where a variant is asked.
#[derive(Debug, Clone, Copy, PartialEq, Eq, Structural)]
pub enum Turn {
    /// Among those with something around the payload.
    Affixed,
    /// Among those without.
    Bare,
    /// Last of all.
    Last,
    /// By its words alone.
    Never,
}

/// Where a variant is asked.
pub open spec fn turn_of(variant: VariantView) -> Turn {
    if variant.rest {
        Turn::Last
    } else if variant.parse {
        Turn::Bare
    } else {
        match variant.spelling {
            SpellingView::Words(_) => Turn::Never,
            SpellingView::Payload(prefix, suffix) => if prefix.len() == 0 && suffix.len() == 0 {
                Turn::Bare
            } else {
                Turn::Affixed
            },
        }
    }
}

/// The variants asked at a turn, in order.
pub open spec fn asked_at(variants: Seq<VariantView>, turn: Turn) -> Seq<usize>
    decreases variants.len(),
{
    if variants.len() == 0 {
        Seq::empty()
    } else if turn_of(variants.last()) == turn {
        asked_at(variants.drop_last(), turn).push((variants.len() - 1) as usize)
    } else {
        asked_at(variants.drop_last(), turn)
    }
}

/// The variants spelled by words, in order.
pub open spec fn worded(variants: Seq<VariantView>) -> Seq<usize>
    decreases variants.len(),
{
    if variants.len() == 0 {
        Seq::empty()
    } else if variants.last().spelling is Words {
        worded(variants.drop_last()).push((variants.len() - 1) as usize)
    } else {
        worded(variants.drop_last())
    }
}

/// Which variant is spelled by a word though it carries something, where one
/// is: there is nothing to read what it carries from.
pub open spec fn unreadable(variants: Seq<VariantView>) -> Option<int>
    decreases variants.len(),
{
    if variants.len() == 0 {
        None
    } else {
        match unreadable(variants.drop_last()) {
            Some(i) => Some(i),
            None => if variants.last().spelling is Words && variants.last().binding
                != Binding::Nothing {
                Some(variants.len() - 1)
            } else {
                None
            },
        }
    }
}

/// How a text is read, or why it cannot be.
pub open spec fn plan_of(variants: Seq<VariantView>, rest: bool) -> Result<
    PlanView,
    (int, Refusal),
> {
    let last = asked_at(variants, Turn::Last);
    match unreadable(variants) {
        Some(i) => Err((i, Refusal::WordWithPayload)),
        None => if last.len() > 1 {
            Err((last[1] as int, Refusal::TwoRests))
        } else {
            Ok(
                PlanView {
                    words: worded(variants),
                    affixed: asked_at(variants, Turn::Affixed),
                    bare: asked_at(variants, Turn::Bare),
                    tail: if last.len() == 1 {
                        Tail::Variant(last[0])
                    } else if rest {
                        Tail::Rest
                    } else {
                        Tail::Unknown
                    },
                },
            )
        },
    }
}

/// What was found unreadable among some stays found among more.
proof fn lemma_unreadable(variants: Seq<VariantView>, upto: int)
    requires
        0 <= upto <= variants.len(),
        unreadable(variants.take(upto)) is Some,
    ensures
        unreadable(variants) == unreadable(variants.take(upto)),
    decreases variants.len(),
{
    if upto < variants.len() {
        assert(variants.drop_last().take(upto) =~= variants.take(upto));
        lemma_unreadable(variants.drop_last(), upto);
    } else {
        assert(variants.take(upto) =~= variants);
    }
}

/// What was asked last among some is asked last among more, first of all.
proof fn lemma_asked_prefix(variants: Seq<VariantView>, upto: int, turn: Turn)
    requires
        0 <= upto <= variants.len(),
    ensures
        asked_at(variants.take(upto), turn).len() <= asked_at(variants, turn).len(),
        asked_at(variants, turn).take(asked_at(variants.take(upto), turn).len() as int) == asked_at(
            variants.take(upto),
            turn,
        ),
    decreases variants.len(),
{
    let some = asked_at(variants.take(upto), turn);
    if upto < variants.len() {
        let short = variants.drop_last();
        assert(short.take(upto) =~= variants.take(upto));
        lemma_asked_prefix(short, upto, turn);
        assert(asked_at(variants, turn).take(some.len() as int) =~= asked_at(short, turn).take(
            some.len() as int,
        ));
    } else {
        assert(variants.take(upto) =~= variants);
        assert(some.take(some.len() as int) =~= some);
    }
}

impl Variant {
    /// Where this is asked.
    pub fn turn(&self) -> (r: Turn)
        ensures
            r == turn_of(self@),
    {
        if self.rest {
            Turn::Last
        } else if self.parse {
            Turn::Bare
        } else {
            match &self.spelling {
                Spelling::Words(_) => Turn::Never,
                Spelling::Payload { prefix, suffix } => if prefix.as_str().unicode_len() == 0
                    && suffix.as_str().unicode_len() == 0 {
                    Turn::Bare
                } else {
                    Turn::Affixed
                },
            }
        }
    }
}

/// Which variant is spelled by a word though it carries something.
fn find_unreadable(variants: &Vec<Variant>) -> (r: Option<usize>)
    ensures
        match r {
            Some(i) => unreadable(variant_views(variants@)) == Some(i as int),
            None => unreadable(variant_views(variants@)) is None,
        },
{
    let ghost all = variant_views(variants@);
    let mut i: usize = 0;
    assert(all.take(0) =~= Seq::<VariantView>::empty());
    while i < variants.len()
        invariant
            i <= variants@.len(),
            all == variant_views(variants@),
            all.len() == variants@.len(),
            unreadable(all.take(i as int)) is None,
        decreases variants@.len() - i,
    {
        proof {
            assert(all.take(i + 1).drop_last() =~= all.take(i as int));
            assert(all.take(i + 1).last() == variants@[i as int]@);
        }
        let word = match &variants[i].spelling {
            Spelling::Words(_) => true,
            _ => false,
        };
        if word && variants[i].binding != Binding::Nothing {
            proof {
                lemma_unreadable(all, i + 1);
            }
            return Some(i);
        }
        i = i + 1;
    }
    assert(all.take(all.len() as int) =~= all);
    None
}

/// How a text is read, or which variant keeps it from being and why.
pub fn reading_plan(variants: &Vec<Variant>, rest: bool) -> (r: Result<Plan, (usize, Refusal)>)
    ensures
        match plan_of(variant_views(variants@), rest) {
            Ok(plan) => r matches Ok(found) && found@ == plan,
            Err((i, refusal)) => r matches Err((at, why)) && at == i && why == refusal,
        },
{
    match find_unreadable(variants) {
        Some(i) => {
            return Err((i, Refusal::WordWithPayload));
        },
        None => {},
    }
    let ghost all = variant_views(variants@);
    let mut words: Vec<usize> = Vec::new();
    let mut affixed: Vec<usize> = Vec::new();
    let mut bare: Vec<usize> = Vec::new();
    let mut last: Option<usize> = None;
    let mut i: usize = 0;
    assert(all.take(0) =~= Seq::<VariantView>::empty());
    while i < variants.len()
        invariant
            i <= variants@.len(),
            all == variant_views(variants@),
            all.len() == variants@.len(),
            unreadable(all) is None,
            words@ == worded(all.take(i as int)),
            affixed@ == asked_at(all.take(i as int), Turn::Affixed),
            bare@ == asked_at(all.take(i as int), Turn::Bare),
            match last {
                None => asked_at(all.take(i as int), Turn::Last).len() == 0,
                Some(at) => asked_at(all.take(i as int), Turn::Last) == seq![at],
            },
        decreases variants@.len() - i,
    {
        proof {
            assert(all.take(i + 1).drop_last() =~= all.take(i as int));
            assert(all.take(i + 1).last() == variants@[i as int]@);
            assert(all.take(i + 1).len() - 1 == i);
        }
        match &variants[i].spelling {
            Spelling::Words(_) => {
                words.push(i);
            },
            _ => {},
        }
        match variants[i].turn() {
            Turn::Affixed => {
                affixed.push(i);
            },
            Turn::Bare => {
                bare.push(i);
            },
            Turn::Last => {
                if last.is_some() {
                    proof {
                        lemma_asked_prefix(all, i + 1, Turn::Last);
                        let some = asked_at(all.take(i + 1), Turn::Last);
                        assert(some.len() == 2 && some[1] == i);
                        assert(asked_at(all, Turn::Last)[1] == asked_at(all, Turn::Last).take(
                            2,
                        )[1]);
                    }
                    return Err((i, Refusal::TwoRests));
                }
                last = Some(i);
                proof {
                    assert(asked_at(all.take(i + 1), Turn::Last) =~= seq![i]);
                }
            },
            Turn::Never => {},
        }
        i = i + 1;
    }
    assert(all.take(all.len() as int) =~= all);
    let tail = match last {
        Some(at) => Tail::Variant(at),
        None => if rest {
            Tail::Rest
        } else {
            Tail::Unknown
        },
    };
    Ok(Plan { words, affixed, bare, tail })
}

/// Whether a variant is spelled by a word.
pub open spec fn spelled_by(variant: VariantView, word: Seq<char>) -> bool {
    variant.spelling matches SpellingView::Words(words) && words.contains(word)
}

/// The first variant a word spells.
pub open spec fn word_of(variants: Seq<VariantView>, word: Seq<char>) -> Option<int>
    decreases variants.len(),
{
    if variants.len() == 0 {
        None
    } else {
        match word_of(variants.drop_last(), word) {
            Some(i) => Some(i),
            None => if spelled_by(variants.last(), word) {
                Some(variants.len() - 1)
            } else {
                None
            },
        }
    }
}

/// A variant a word spells among some spells it first among more.
proof fn lemma_word_of(variants: Seq<VariantView>, upto: int, word: Seq<char>)
    requires
        0 <= upto <= variants.len(),
        word_of(variants.take(upto), word) is Some,
    ensures
        word_of(variants, word) == word_of(variants.take(upto), word),
    decreases variants.len(),
{
    if upto < variants.len() {
        assert(variants.drop_last().take(upto) =~= variants.take(upto));
        lemma_word_of(variants.drop_last(), upto, word);
    } else {
        assert(variants.take(upto) =~= variants);
    }
}

/// The variant whose literal spelling a text is, once folded, where there is
/// one.
pub fn literal(variants: &Vec<Variant>, fold: Fold, text: &str) -> (r: Option<usize>)
    ensures
        match r {
            Some(i) => word_of(variant_views(variants@), folded(fold, text@)) == Some(i as int),
            None => word_of(variant_views(variants@), folded(fold, text@)) is None,
        },
{
    let word = fold.apply(text);
    let ghost all = variant_views(variants@);
    let mut i: usize = 0;
    assert(all.take(0) =~= Seq::<VariantView>::empty());
    while i < variants.len()
        invariant
            i <= variants@.len(),
            all == variant_views(variants@),
            all.len() == variants@.len(),
            word@ == folded(fold, text@),
            word_of(all.take(i as int), word@) is None,
        decreases variants@.len() - i,
    {
        proof {
            assert(all.take(i + 1).drop_last() =~= all.take(i as int));
            assert(all.take(i + 1).last() == variants@[i as int]@);
        }
        let spelled = match &variants[i].spelling {
            Spelling::Words(words) => contains_text(words, &word),
            _ => false,
        };
        if spelled {
            proof {
                lemma_word_of(all, i + 1, word@);
            }
            return Some(i);
        }
        i = i + 1;
    }
    assert(all.take(all.len() as int) =~= all);
    None
}

/// Whether a text is among some.
fn contains_text(texts: &Vec<String>, text: &str) -> (r: bool)
    ensures
        r == text_views(texts@).contains(text@),
{
    let mut i: usize = 0;
    while i < texts.len()
        invariant
            i <= texts@.len(),
            forall|j: int| 0 <= j < i ==> #[trigger] text_views(texts@)[j] != text@,
        decreases texts@.len() - i,
    {
        assert(text_views(texts@)[i as int] == texts@[i as int]@);
        if same(&texts[i], text) {
            return true;
        }
        i = i + 1;
    }
    false
}

/// What stands between a spelling's affixes, where both are there.
pub open spec fn inner(prefix: Seq<char>, suffix: Seq<char>, text: Seq<char>) -> Option<
    Seq<char>,
> {
    if starts_with(text, prefix) && ends_with(text.skip(prefix.len() as int), suffix) {
        let rest = text.skip(prefix.len() as int);
        Some(rest.take(rest.len() - suffix.len()))
    } else {
        None
    }
}

/// What stands between a spelling's affixes, where both are there.
pub fn payload_text<'a>(prefix: &str, suffix: &str, text: &'a str) -> (r: Option<&'a str>)
    ensures
        match r {
            Some(payload) => inner(prefix@, suffix@, text@) == Some(payload@),
            None => inner(prefix@, suffix@, text@) is None,
        },
{
    match strip_prefix(text, prefix) {
        Some(rest) => strip_suffix(rest, suffix),
        None => None,
    }
}

// ---------------------------------------------------------------------------
// Printing

/// What a variant is printed as, given what it carries prints as.
pub open spec fn printed(variant: VariantView, payload: Seq<char>) -> Seq<char> {
    match variant.spelling {
        SpellingView::Words(words) => words[0],
        SpellingView::Payload(prefix, suffix) => prefix + payload + suffix,
    }
}

impl Variant {
    /// What this is printed as, given what it carries prints as.
    pub fn print(&self, payload: &str) -> (r: String)
        requires
            self@.spelling matches SpellingView::Words(words) ==> words.len() > 0,
        ensures
            r@ == printed(self@, payload@),
    {
        match &self.spelling {
            Spelling::Words(words) => {
                assert(text_views(words@)[0] == words@[0]@);
                words[0].clone()
            },
            Spelling::Payload { prefix, suffix } => joined3(prefix, payload, suffix),
        }
    }
}

// ---------------------------------------------------------------------------
// What is written for a type

/// What is written for a type.
#[derive(Debug, Clone, Copy, PartialEq, Eq, Structural)]
pub struct Written {
    /// A way to read it.
    pub reading: bool,
    /// A way over the wire, and whether that takes a native boolean as well.
    pub wire: Option<bool>,
}

/// What is written for a type: every one is printed, one that says what a bad
/// spelling is can be read, and one that can be read may go over the wire.
pub fn written(error: bool, serde: Option<bool>) -> (r: Result<Written, Refusal>)
    ensures
        r == (if error {
            Ok::<Written, Refusal>(Written { reading: true, wire: serde })
        } else if serde is Some {
            Err::<Written, Refusal>(Refusal::SerdeWithoutError)
        } else {
            Ok::<Written, Refusal>(Written { reading: false, wire: None })
        }),
{
    if error {
        Ok(Written { reading: true, wire: serde })
    } else if serde.is_some() {
        Err(Refusal::SerdeWithoutError)
    } else {
        Ok(Written { reading: false, wire: None })
    }
}

/// What a reader that takes a boolean as well says it wanted.
pub fn wanted(ty: &str, expecting: Option<&str>) -> (r: String)
    ensures
        r@ == match expecting {
            Some(text) => text@,
            None => "a "@ + ty@ + " spelling, or a boolean"@,
        },
{
    match expecting {
        Some(text) => text.to_owned(),
        None => joined3("a ", ty, " spelling, or a boolean"),
    }
}

/// What the reader of such a type is called.
pub fn visitor_name(ty: &str) -> (r: String)
    ensures
        r@ == ty@ + "Spelling"@,
{
    joined(ty, "Spelling")
}

// ---------------------------------------------------------------------------
// Laws

/// A variant printed between its affixes is read back from between them.
pub proof fn law_a_payload_reads_back(prefix: Seq<char>, suffix: Seq<char>, payload: Seq<char>)
    ensures
        inner(prefix, suffix, prefix + payload + suffix) == Some(payload),
{
    let text = prefix + payload + suffix;
    assert(text.take(prefix.len() as int) =~= prefix);
    let rest = text.skip(prefix.len() as int);
    assert(rest =~= payload + suffix);
    assert(rest.skip(rest.len() - suffix.len()) =~= suffix);
    assert(rest.take(rest.len() - suffix.len()) =~= payload);
}

/// The word a variant is printed as spells a variant, and that one no later
/// than it: no text that is printed is refused.
pub proof fn law_what_is_printed_is_spelled(variants: Seq<VariantView>, i: int)
    requires
        0 <= i < variants.len(),
        variants[i].spelling matches SpellingView::Words(words) && words.len() > 0,
    ensures
        word_of(variants, printed(variants[i], Seq::empty())) matches Some(at) && 0 <= at <= i,
    decreases variants.len(),
{
    let word = printed(variants[i], Seq::empty());
    let short = variants.drop_last();
    if i < variants.len() - 1 {
        assert(short[i] == variants[i]);
        law_what_is_printed_is_spelled(short, i);
    } else {
        let words = match variants[i].spelling {
            SpellingView::Words(words) => words,
            _ => Seq::empty(),
        };
        assert(words[0] == word);
        lemma_word_of_range(short, word);
    }
}

/// A variant that is found is one of them.
proof fn lemma_word_of_range(variants: Seq<VariantView>, word: Seq<char>)
    ensures
        word_of(variants, word) matches Some(at) ==> 0 <= at < variants.len() && spelled_by(
            variants[at],
            word,
        ),
    decreases variants.len(),
{
    if variants.len() > 0 {
        lemma_word_of_range(variants.drop_last(), word);
    }
}

/// Where no two variants share a word, each word a variant answers to spells
/// that variant.
pub proof fn law_words_are_unambiguous(variants: Seq<VariantView>, i: int, word: Seq<char>)
    requires
        0 <= i < variants.len(),
        spelled_by(variants[i], word),
        forall|j: int| 0 <= j < variants.len() && j != i ==> !spelled_by(#[trigger] variants[j], word),
    ensures
        word_of(variants, word) == Some(i),
    decreases variants.len(),
{
    let short = variants.drop_last();
    if i < variants.len() - 1 {
        assert(short[i] == variants[i]);
        assert forall|j: int| 0 <= j < short.len() && j != i implies !spelled_by(
            #[trigger] short[j],
            word,
        ) by {
            assert(short[j] == variants[j]);
        }
        law_words_are_unambiguous(short, i, word);
    } else {
        lemma_word_of_range(short, word);
        if word_of(short, word) is Some {
            let j = word_of(short, word)->0;
            assert(short[j] == variants[j]);
            assert(spelled_by(variants[j], word));
        }
    }
}

/// Folding twice folds once.
pub proof fn law_folding_settles(fold: Fold, text: Seq<char>)
    ensures
        folded(fold, folded(fold, text)) == folded(fold, text),
{
    assert(folded(fold, folded(fold, text)) =~= folded(fold, text));
}

} // verus!
