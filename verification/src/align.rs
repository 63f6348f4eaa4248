//! Which side of its host a popup lines up with.

use crate::text::{joined3, lemma_lowered_is_identity, lemma_lowered_twice, lowercase, lowered, same};
use vstd::prelude::*;

verus! {

/// Which side of the host item a popup's own edge lines up with. The popup's
/// width and the host's are independent, so `Left` and `Right` are about
/// edges, not centring.
#[derive(Debug, Clone, Copy, PartialEq, Eq, Structural)]
pub enum PopupAlign {
    Left,
    Center,
    Right,
}

/// A text that names no alignment.
#[derive(Debug, Clone, PartialEq, Eq)]
pub struct InvalidAlign(String);

impl View for InvalidAlign {
    type V = Seq<char>;

    /// The text as it was written.
    closed spec fn view(&self) -> Seq<char> {
        self.0@
    }
}

/// The alignment a lower-case word names.
pub open spec fn align_word(word: Seq<char>) -> Option<PopupAlign> {
    if word == "left"@ || word == "l"@ {
        Some(PopupAlign::Left)
    } else if word == "center"@ || word == "centre"@ || word == "c"@ {
        Some(PopupAlign::Center)
    } else if word == "right"@ || word == "r"@ {
        Some(PopupAlign::Right)
    } else {
        None
    }
}

/// The alignment a text names, in any case.
pub open spec fn align_read(text: Seq<char>) -> Option<PopupAlign> {
    align_word(lowered(text))
}

/// The word an alignment is printed as.
pub open spec fn align_text(align: PopupAlign) -> Seq<char> {
    match align {
        PopupAlign::Left => "left"@,
        PopupAlign::Center => "center"@,
        PopupAlign::Right => "right"@,
    }
}

impl PopupAlign {
    /// Reads an alignment, in any case and by any of its spellings.
    pub fn parse(text: &str) -> (r: Result<PopupAlign, InvalidAlign>)
        ensures
            match r {
                Ok(align) => align_read(text@) == Some(align),
                Err(e) => align_read(text@) is None && e@ == text@,
            },
    {
        let word = lowercase(text);
        if same(&word, "left") || same(&word, "l") {
            Ok(PopupAlign::Left)
        } else if same(&word, "center") || same(&word, "centre") || same(&word, "c") {
            Ok(PopupAlign::Center)
        } else if same(&word, "right") || same(&word, "r") {
            Ok(PopupAlign::Right)
        } else {
            Err(InvalidAlign(text.to_owned()))
        }
    }

    /// The word this is printed as, which is the one it is read back by.
    pub fn to_string(&self) -> (r: String)
        ensures
            r@ == align_text(*self),
    {
        match self {
            PopupAlign::Left => "left".to_owned(),
            PopupAlign::Center => "center".to_owned(),
            PopupAlign::Right => "right".to_owned(),
        }
    }
}

impl Default for PopupAlign {
    fn default() -> (r: Self)
        ensures
            r == PopupAlign::Left,
    {
        PopupAlign::Left
    }
}

impl std::str::FromStr for PopupAlign {
    type Err = InvalidAlign;

    fn from_str(s: &str) -> (r: Result<Self, InvalidAlign>)
        ensures
            match r {
                Ok(align) => align_read(s@) == Some(align),
                Err(e) => align_read(s@) is None && e@ == s@,
            },
    {
        PopupAlign::parse(s)
    }
}

impl InvalidAlign {
    /// The sentence a config's author is shown.
    pub fn to_string(&self) -> (r: String)
        ensures
            r@ == "`"@ + self@ + "` is not a popup alignment: expected left, center or right"@,
    {
        joined3("`", &self.0, "` is not a popup alignment: expected left, center or right")
    }
}

/// An alignment printed and read back is the same alignment.
pub proof fn law_align_round_trip(align: PopupAlign)
    ensures
        align_read(align_text(align)) == Some(align),
{
    reveal_strlit("left");
    reveal_strlit("l");
    reveal_strlit("center");
    reveal_strlit("centre");
    reveal_strlit("c");
    reveal_strlit("right");
    reveal_strlit("r");
    assert("left"@ =~= seq!['l', 'e', 'f', 't']);
    assert("center"@ =~= seq!['c', 'e', 'n', 't', 'e', 'r']);
    assert("right"@ =~= seq!['r', 'i', 'g', 'h', 't']);
    lemma_lowered_is_identity(align_text(align));
    assert("center"@[0] == 'c' && "right"@[0] == 'r' && "left"@[0] == 'l');
}

/// Case never decides what an alignment reads as.
pub proof fn law_align_case_is_ignored(text: Seq<char>)
    ensures
        align_read(lowered(text)) == align_read(text),
{
    lemma_lowered_twice(text);
}

} // verus!
