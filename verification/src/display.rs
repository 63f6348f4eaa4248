//! Which display something is restricted to.

use crate::text::{
    decimal, decimal_text, joined3, lemma_lowered_is_identity, lemma_number_round_trip,
    lemma_number_text_is_digits, lowercase, lowered, number_read, read_number, same,
};
use vstd::prelude::*;

verus! {

/// Which display something is restricted to: every one, or a single 1-based
/// index into the active displays.
#[derive(Debug, Clone, Copy, PartialEq, Eq, Structural)]
pub enum DisplayTarget {
    All,
    /// Counted from one; zero names no display.
    Index(u32),
}

/// A text that names no display.
#[derive(Debug, Clone, PartialEq, Eq)]
pub struct InvalidDisplay(String);

impl View for InvalidDisplay {
    type V = Seq<char>;

    /// The text as it was written.
    closed spec fn view(&self) -> Seq<char> {
        self.0@
    }
}

/// The display a text names: `all` in any case, or a number above zero.
pub open spec fn display_read(text: Seq<char>) -> Option<DisplayTarget> {
    if lowered(text) == "all"@ {
        Some(DisplayTarget::All)
    } else {
        match number_read(text, 10, u32::MAX as nat) {
            Some(n) => if n == 0 {
                None
            } else {
                Some(DisplayTarget::Index(n as u32))
            },
            None => None,
        }
    }
}

/// What a display target is printed as.
pub open spec fn display_text(target: DisplayTarget) -> Seq<char> {
    match target {
        DisplayTarget::All => "all"@,
        DisplayTarget::Index(n) => decimal_text(n as nat),
    }
}

impl DisplayTarget {
    /// Whether the index, where there is one, counts from one.
    pub open spec fn wf(&self) -> bool {
        match self {
            DisplayTarget::All => true,
            DisplayTarget::Index(n) => *n > 0,
        }
    }

    /// Whether this includes the display at `ordinal`, counted from one.
    pub fn matches(self, ordinal: u32) -> (r: bool)
        ensures
            r == (self == DisplayTarget::All || self == DisplayTarget::Index(ordinal)),
    {
        match self {
            DisplayTarget::All => true,
            DisplayTarget::Index(index) => index == ordinal,
        }
    }

    /// Reads `all` or an index counted from one.
    pub fn parse(text: &str) -> (r: Result<DisplayTarget, InvalidDisplay>)
        ensures
            match r {
                Ok(target) => display_read(text@) == Some(target) && target.wf(),
                Err(e) => display_read(text@) is None && e@ == text@,
            },
    {
        if same(&lowercase(text), "all") {
            return Ok(DisplayTarget::All);
        }
        match read_number(text, 10, u32::MAX as u64) {
            Some(n) => if n == 0 {
                Err(InvalidDisplay(text.to_owned()))
            } else {
                Ok(DisplayTarget::Index(n as u32))
            },
            None => Err(InvalidDisplay(text.to_owned())),
        }
    }

    /// What this is printed as, which is also what reads back as it.
    pub fn to_string(&self) -> (r: String)
        ensures
            r@ == display_text(*self),
    {
        match self {
            DisplayTarget::All => "all".to_owned(),
            DisplayTarget::Index(n) => decimal(*n as u64),
        }
    }
}

impl Default for DisplayTarget {
    fn default() -> (r: Self)
        ensures
            r == DisplayTarget::All,
    {
        DisplayTarget::All
    }
}

impl std::str::FromStr for DisplayTarget {
    type Err = InvalidDisplay;

    fn from_str(s: &str) -> (r: Result<Self, InvalidDisplay>)
        ensures
            match r {
                Ok(target) => display_read(s@) == Some(target) && target.wf(),
                Err(e) => display_read(s@) is None && e@ == s@,
            },
    {
        DisplayTarget::parse(s)
    }
}

impl InvalidDisplay {
    /// The sentence a config's author is shown.
    pub fn to_string(&self) -> (r: String)
        ensures
            r@ == "`"@ + self@ + "` is not a display: expected `all` or a 1-based index"@,
    {
        joined3("`", &self.0, "` is not a display: expected `all` or a 1-based index")
    }
}

/// A display target printed and read back is the same target.
pub proof fn law_display_round_trip(target: DisplayTarget)
    requires
        target.wf(),
    ensures
        display_read(display_text(target)) == Some(target),
{
    reveal_strlit("all");
    assert("all"@ =~= seq!['a', 'l', 'l']);
    match target {
        DisplayTarget::All => {
            lemma_lowered_is_identity("all"@);
        },
        DisplayTarget::Index(n) => {
            let text = decimal_text(n as nat);
            lemma_number_text_is_digits(n as nat, 10);
            lemma_number_round_trip(n as nat, 10, u32::MAX as nat);
            assert(crate::text::digit_worth(text[0]) < 10);
            assert('0' <= text[0] && text[0] <= '9');
            assert(lowered(text)[0] == text[0]);
            assert("all"@[0] == 'a');
        },
    }
}

/// An index restricts to exactly the display it names.
pub proof fn law_index_matches_only_itself(index: u32, ordinal: u32)
    ensures
        (DisplayTarget::Index(index) == DisplayTarget::All || DisplayTarget::Index(index)
            == DisplayTarget::Index(ordinal)) <==> index == ordinal,
{
}

} // verus!
