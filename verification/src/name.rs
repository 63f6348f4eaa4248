//! What items are called, and how a request names them.

use crate::text::{contains_control, ends_with, has_control, joined3, starts_with, strip_prefix, strip_suffix};
use vstd::prelude::*;

verus! {

/// What an item may be called: anything but nothing, and no control character.
pub open spec fn is_item_name(text: Seq<char>) -> bool {
    text.len() > 0 && !has_control(text)
}

/// An item's identity, so an item name and a stray string cannot be swapped
/// for one another.
#[derive(Debug, PartialEq, Eq, Hash, PartialOrd, Ord)]
pub struct ItemName {
    text: String,
}

impl View for ItemName {
    type V = Seq<char>;

    closed spec fn view(&self) -> Seq<char> {
        self.text@
    }
}

/// Why a text is no item name.
#[derive(Debug, Clone, PartialEq, Eq)]
pub enum InvalidName {
    Empty,
    Character(String),
}

/// [`InvalidName`] over plain text.
pub enum InvalidNameView {
    Empty,
    Character(Seq<char>),
}

impl View for InvalidName {
    type V = InvalidNameView;

    open spec fn view(&self) -> InvalidNameView {
        match self {
            InvalidName::Empty => InvalidNameView::Empty,
            InvalidName::Character(text) => InvalidNameView::Character(text@),
        }
    }
}

/// Why a text that is no item name is not one.
pub open spec fn name_fault(text: Seq<char>) -> InvalidNameView {
    if text.len() == 0 {
        InvalidNameView::Empty
    } else {
        InvalidNameView::Character(text)
    }
}

impl ItemName {
    #[verifier::type_invariant]
    spec fn inv(self) -> bool {
        is_item_name(self.text@)
    }

    /// Takes a text as an item's name.
    ///
    /// A name reaches a script as the value of a variable, never as part of a
    /// command, so the one thing it cannot carry is a control character.
    pub fn new(name: &str) -> (r: Result<ItemName, InvalidName>)
        ensures
            match r {
                Ok(n) => is_item_name(name@) && n@ == name@,
                Err(e) => !is_item_name(name@) && e@ == name_fault(name@),
            },
    {
        if name.unicode_len() == 0 {
            return Err(InvalidName::Empty);
        }
        if contains_control(name) {
            return Err(InvalidName::Character(name.to_owned()));
        }
        Ok(ItemName { text: name.to_owned() })
    }

    /// The name as text, which always is one a name may be made of.
    pub fn as_str(&self) -> (r: &str)
        ensures
            r@ == self@,
            is_item_name(self@),
    {
        proof {
            use_type_invariant(self);
        }
        self.text.as_str()
    }

    /// The name as text of its own.
    pub fn to_string(&self) -> (r: String)
        ensures
            r@ == self@,
    {
        self.text.clone()
    }

    /// Whether two names are one name.
    pub fn same(&self, other: &ItemName) -> (r: bool)
        ensures
            r == (self@ == other@),
    {
        self.text == other.text
    }
}

impl Clone for ItemName {
    fn clone(&self) -> (r: Self)
        ensures
            r@ == self@,
    {
        proof {
            use_type_invariant(self);
        }
        ItemName { text: self.text.clone() }
    }
}

impl std::str::FromStr for ItemName {
    type Err = InvalidName;

    fn from_str(s: &str) -> (r: Result<Self, InvalidName>)
        ensures
            match r {
                Ok(n) => is_item_name(s@) && n@ == s@,
                Err(e) => !is_item_name(s@) && e@ == name_fault(s@),
            },
    {
        ItemName::new(s)
    }
}

impl InvalidName {
    /// The sentence a config's author is shown.
    pub fn to_string(&self) -> (r: String)
        ensures
            r@ == match self@ {
                InvalidNameView::Empty => "an item name cannot be empty"@,
                InvalidNameView::Character(text) => "`"@ + text
                    + "` is not a valid item name: control characters are not allowed"@,
            },
    {
        match self {
            InvalidName::Empty => "an item name cannot be empty".to_owned(),
            InvalidName::Character(text) => joined3(
                "`",
                text,
                "` is not a valid item name: control characters are not allowed",
            ),
        }
    }
}

/// What a request names: one item, or every item whose name matches a regex.
///
/// A pattern is told from a name by the slashes around it, never by what it is
/// made of, and only whoever holds the live items can resolve one.
#[derive(Debug, Clone, PartialEq, Eq)]
pub enum Selector {
    Name(ItemName),
    /// The regex source, without the slashes around it.
    Pattern(String),
}

/// [`Selector`] over plain text.
pub enum SelectorView {
    Name(Seq<char>),
    Pattern(Seq<char>),
}

impl View for Selector {
    type V = SelectorView;

    open spec fn view(&self) -> SelectorView {
        match self {
            Selector::Name(name) => SelectorView::Name(name@),
            Selector::Pattern(pattern) => SelectorView::Pattern(pattern@),
        }
    }
}

/// Whether a text is shaped like a pattern: a slash at each end, two of them.
pub open spec fn is_pattern(text: Seq<char>) -> bool {
    text.len() >= 2 && text[0] == '/' && text.last() == '/'
}

/// What a text selects.
pub open spec fn selector_read(text: Seq<char>) -> Result<SelectorView, InvalidNameView> {
    if is_pattern(text) {
        Ok(SelectorView::Pattern(text.subrange(1, text.len() - 1)))
    } else if is_item_name(text) {
        Ok(SelectorView::Name(text))
    } else {
        Err(name_fault(text))
    }
}

/// What a selector is printed as.
pub open spec fn selector_text(selector: SelectorView) -> Seq<char> {
    match selector {
        SelectorView::Name(name) => name,
        SelectorView::Pattern(pattern) => "/"@ + pattern + "/"@,
    }
}

impl Selector {
    /// Whatever is not pattern-shaped, which is a name or nothing at all.
    pub fn named(text: &str) -> (r: Result<Selector, InvalidName>)
        ensures
            match r {
                Ok(s) => is_item_name(text@) && s@ == SelectorView::Name(text@),
                Err(e) => !is_item_name(text@) && e@ == name_fault(text@),
            },
    {
        match ItemName::new(text) {
            Ok(name) => Ok(Selector::Name(name)),
            Err(e) => Err(e),
        }
    }

    /// Reads a pattern by its slashes, and anything else as a name.
    pub fn parse(text: &str) -> (r: Result<Selector, InvalidName>)
        ensures
            match r {
                Ok(s) => selector_read(text@) == Ok::<SelectorView, InvalidNameView>(s@),
                Err(e) => selector_read(text@) == Err::<SelectorView, InvalidNameView>(e@),
            },
    {
        proof {
            lemma_slashes(text@);
        }
        match strip_prefix(text, "/") {
            Some(rest) => match strip_suffix(rest, "/") {
                Some(pattern) => Ok(Selector::Pattern(pattern.to_owned())),
                None => Selector::named(text),
            },
            None => Selector::named(text),
        }
    }

    /// What this is printed as.
    pub fn to_string(&self) -> (r: String)
        ensures
            r@ == selector_text(self@),
    {
        match self {
            Selector::Name(name) => name.to_string(),
            Selector::Pattern(pattern) => joined3("/", pattern, "/"),
        }
    }

    /// The same selector again.
    pub fn copied(&self) -> (r: Selector)
        ensures
            r@ == self@,
    {
        match self {
            Selector::Name(name) => Selector::Name(name.clone()),
            Selector::Pattern(pattern) => Selector::Pattern(pattern.clone()),
        }
    }
}

impl std::str::FromStr for Selector {
    type Err = InvalidName;

    fn from_str(s: &str) -> (r: Result<Self, InvalidName>)
        ensures
            match r {
                Ok(selector) => selector_read(s@) == Ok::<SelectorView, InvalidNameView>(selector@),
                Err(e) => selector_read(s@) == Err::<SelectorView, InvalidNameView>(e@),
            },
    {
        Selector::parse(s)
    }
}

/// Stripping a slash from each end succeeds exactly on a pattern, and leaves
/// what is between them.
proof fn lemma_slashes(text: Seq<char>)
    ensures
        (starts_with(text, "/"@) && ends_with(text.skip(1), "/"@)) <==> is_pattern(text),
        "/"@.len() == 1,
        is_pattern(text) ==> text.skip(1).take(text.skip(1).len() - 1) =~= text.subrange(
            1,
            text.len() - 1,
        ),
{
    reveal_strlit("/");
    assert("/"@ =~= seq!['/']);
    if text.len() >= 1 {
        assert(text.take(1) =~= seq![text[0]]);
        assert(seq![text[0]][0] == text[0]);
        assert("/"@[0] == '/');
    }
    if text.len() >= 2 {
        let rest = text.skip(1);
        assert(rest.skip(rest.len() - 1) =~= seq![text.last()]);
        assert(seq![text.last()][0] == text.last());
    }
}

/// A pattern printed and read back is the same pattern.
pub proof fn law_pattern_round_trip(pattern: Seq<char>)
    ensures
        selector_read(selector_text(SelectorView::Pattern(pattern))) == Ok::<
            SelectorView,
            InvalidNameView,
        >(SelectorView::Pattern(pattern)),
{
    reveal_strlit("/");
    let text = "/"@ + pattern + "/"@;
    assert(text.subrange(1, text.len() - 1) =~= pattern);
    assert(text[0] == '/' && text.last() == '/');
}

/// A name printed and read back is the same name, unless it is itself shaped
/// like a pattern.
pub proof fn law_selected_name_round_trip(name: Seq<char>)
    requires
        is_item_name(name),
        !is_pattern(name),
    ensures
        selector_read(selector_text(SelectorView::Name(name))) == Ok::<
            SelectorView,
            InvalidNameView,
        >(SelectorView::Name(name)),
{
}

/// What a text selects says whether it is shaped like a pattern, and nothing
/// else about it does.
pub proof fn law_pattern_by_shape_alone(text: Seq<char>)
    ensures
        selector_read(text) matches Ok(SelectorView::Pattern(_)) <==> is_pattern(text),
{
}

} // verus!
