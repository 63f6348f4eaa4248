//! Booleans as a config spells them, and changes to them.

use crate::text::{
    joined3, lemma_lowered_is_identity, lemma_lowered_twice, lowercase, lowered, same, starts_with,
    strip_prefix,
};
use vstd::prelude::*;
use vstd::std_specs::convert::FromSpecImpl;

verus! {

/// A boolean as a config spells one: `on`/`off`, `yes`/`no`, `true`/`false`,
/// `1`/`0`.
#[derive(Debug, Clone, Copy, PartialEq, Eq, PartialOrd, Ord, Hash, Structural)]
pub struct Boolish(pub bool);

/// A text that is no boolean and no change to one.
#[derive(Debug, Clone, PartialEq, Eq)]
pub struct InvalidBool(String);

impl View for InvalidBool {
    type V = Seq<char>;

    /// The text as it was written.
    closed spec fn view(&self) -> Seq<char> {
        self.0@
    }
}

/// The value a lower-case word spells.
pub open spec fn bool_word(word: Seq<char>) -> Option<bool> {
    if word == "on"@ || word == "true"@ || word == "yes"@ || word == "1"@ {
        Some(true)
    } else if word == "off"@ || word == "false"@ || word == "no"@ || word == "0"@ {
        Some(false)
    } else {
        None
    }
}

/// The value a text spells, in any case: a word, or the opposite of one after
/// a leading `!`.
pub open spec fn bool_read(text: Seq<char>) -> Option<bool> {
    if starts_with(text, "!"@) {
        match bool_word(lowered(text.skip(1))) {
            Some(b) => Some(!b),
            None => None,
        }
    } else {
        bool_word(lowered(text))
    }
}

/// The word a value is printed as.
pub open spec fn bool_text(value: bool) -> Seq<char> {
    if value {
        "on"@
    } else {
        "off"@
    }
}

/// The value a lower-case word spells.
fn read_word(word: &str) -> (r: Option<bool>)
    ensures
        r == bool_word(word@),
{
    if same(word, "on") || same(word, "true") || same(word, "yes") || same(word, "1") {
        Some(true)
    } else if same(word, "off") || same(word, "false") || same(word, "no") || same(word, "0") {
        Some(false)
    } else {
        None
    }
}

impl Boolish {
    /// The plain boolean.
    pub fn get(self) -> (r: bool)
        ensures
            r == self.0,
    {
        self.0
    }

    /// Reads every spelling a config writes, a leading `!` for the opposite of
    /// one included.
    pub fn parse(text: &str) -> (r: Result<Boolish, InvalidBool>)
        ensures
            match r {
                Ok(b) => bool_read(text@) == Some(b.0),
                Err(e) => bool_read(text@) is None && e@ == text@,
            },
    {
        proof {
            reveal_strlit("!");
        }
        let (negated, word): (bool, String) = match strip_prefix(text, "!") {
            Some(rest) => (true, lowercase(rest)),
            None => (false, lowercase(text)),
        };
        match read_word(&word) {
            Some(value) => Ok(Boolish(value != negated)),
            None => Err(InvalidBool(text.to_owned())),
        }
    }

    /// `on` or `off`, which is what a config compares a query's answer to.
    pub fn to_string(&self) -> (r: String)
        ensures
            r@ == bool_text(self.0),
    {
        if self.0 {
            "on".to_owned()
        } else {
            "off".to_owned()
        }
    }
}

/// The word a query answers a flag with.
pub fn on_off(value: bool) -> (r: &'static str)
    ensures
        r@ == bool_text(value),
{
    if value {
        "on"
    } else {
        "off"
    }
}

impl Default for Boolish {
    fn default() -> (r: Self)
        ensures
            r == Boolish(false),
    {
        Boolish(false)
    }
}

impl std::str::FromStr for Boolish {
    type Err = InvalidBool;

    fn from_str(s: &str) -> (r: Result<Self, InvalidBool>)
        ensures
            match r {
                Ok(b) => bool_read(s@) == Some(b.0),
                Err(e) => bool_read(s@) is None && e@ == s@,
            },
    {
        Boolish::parse(s)
    }
}

impl From<Boolish> for bool {
    fn from(value: Boolish) -> (r: Self) {
        value.0
    }
}

impl FromSpecImpl<Boolish> for bool {
    open spec fn obeys_from_spec() -> bool {
        true
    }

    open spec fn from_spec(value: Boolish) -> Self {
        value.0
    }
}

impl From<bool> for Boolish {
    fn from(value: bool) -> (r: Self) {
        Boolish(value)
    }
}

impl FromSpecImpl<bool> for Boolish {
    open spec fn obeys_from_spec() -> bool {
        true
    }

    open spec fn from_spec(value: bool) -> Self {
        Boolish(value)
    }
}

impl InvalidBool {
    /// The sentence a config's author is shown.
    pub fn to_string(&self) -> (r: String)
        ensures
            r@ == "`"@ + self@
                + "` is not on/off, true/false, yes/no, 1/0 or toggle, optionally `!`-negated"@,
    {
        joined3(
            "`",
            &self.0,
            "` is not on/off, true/false, yes/no, 1/0 or toggle, optionally `!`-negated",
        )
    }
}

/// What a patch says about a boolean.
///
/// A plain value cannot carry `toggle`: what a flip ends up as depends on what
/// was there, which only whoever applies the patch knows.
#[derive(Debug, Clone, Copy, PartialEq, Eq, Structural)]
pub enum BoolChange {
    True,
    False,
    Toggle,
}

/// What a change makes of a value.
pub open spec fn resolved(change: BoolChange, current: bool) -> bool {
    match change {
        BoolChange::True => true,
        BoolChange::False => false,
        BoolChange::Toggle => !current,
    }
}

/// The change that sets a value.
pub open spec fn change_to(value: bool) -> BoolChange {
    if value {
        BoolChange::True
    } else {
        BoolChange::False
    }
}

/// The change a text asks for: `toggle` in any case, or a value's spelling.
pub open spec fn change_read(text: Seq<char>) -> Option<BoolChange> {
    if lowered(text) == "toggle"@ {
        Some(BoolChange::Toggle)
    } else {
        match bool_read(text) {
            Some(b) => Some(change_to(b)),
            None => None,
        }
    }
}

/// The word a change is printed as.
pub open spec fn change_text(change: BoolChange) -> Seq<char> {
    match change {
        BoolChange::True => "on"@,
        BoolChange::False => "off"@,
        BoolChange::Toggle => "toggle"@,
    }
}

impl BoolChange {
    /// What this makes of a value that is currently `current`.
    pub fn resolve(self, current: Boolish) -> (r: Boolish)
        ensures
            r == Boolish(resolved(self, current.0)),
    {
        match self {
            BoolChange::True => Boolish(true),
            BoolChange::False => Boolish(false),
            BoolChange::Toggle => Boolish(!current.0),
        }
    }

    /// The same, but only when applying it would change something.
    pub fn change(self, current: Boolish) -> (r: Option<Boolish>)
        ensures
            r == if resolved(self, current.0) == current.0 {
                None::<Boolish>
            } else {
                Some(Boolish(resolved(self, current.0)))
            },
    {
        let next = self.resolve(current);
        if next.0 != current.0 {
            Some(next)
        } else {
            None
        }
    }

    /// Every spelling that is a value rather than a change, read by [`Boolish`].
    pub fn valued(text: &str) -> (r: Result<BoolChange, InvalidBool>)
        ensures
            match r {
                Ok(change) => bool_read(text@) is Some && change == change_to(
                    bool_read(text@)->Some_0,
                ),
                Err(e) => bool_read(text@) is None && e@ == text@,
            },
    {
        match Boolish::parse(text) {
            Ok(b) => Ok(BoolChange::from(b)),
            Err(e) => Err(e),
        }
    }

    /// Reads `toggle`, or any spelling of a value.
    pub fn parse(text: &str) -> (r: Result<BoolChange, InvalidBool>)
        ensures
            match r {
                Ok(change) => change_read(text@) == Some(change),
                Err(e) => change_read(text@) is None && e@ == text@,
            },
    {
        let word = lowercase(text);
        proof {
            lemma_change_words(text@);
        }
        if same(&word, "on") {
            return Ok(BoolChange::True);
        }
        if same(&word, "off") {
            return Ok(BoolChange::False);
        }
        if same(&word, "toggle") {
            return Ok(BoolChange::Toggle);
        }
        BoolChange::valued(text)
    }

    /// The word this is printed as, which is the one it is read back by.
    pub fn to_string(&self) -> (r: String)
        ensures
            r@ == change_text(*self),
    {
        match self {
            BoolChange::True => "on".to_owned(),
            BoolChange::False => "off".to_owned(),
            BoolChange::Toggle => "toggle".to_owned(),
        }
    }
}

impl std::str::FromStr for BoolChange {
    type Err = InvalidBool;

    fn from_str(s: &str) -> (r: Result<Self, InvalidBool>)
        ensures
            match r {
                Ok(change) => change_read(s@) == Some(change),
                Err(e) => change_read(s@) is None && e@ == s@,
            },
    {
        BoolChange::parse(s)
    }
}

impl From<Boolish> for BoolChange {
    fn from(value: Boolish) -> (r: Self) {
        if value.0 {
            BoolChange::True
        } else {
            BoolChange::False
        }
    }
}

impl FromSpecImpl<Boolish> for BoolChange {
    open spec fn obeys_from_spec() -> bool {
        true
    }

    open spec fn from_spec(value: Boolish) -> Self {
        change_to(value.0)
    }
}

impl From<bool> for BoolChange {
    fn from(value: bool) -> (r: Self) {
        BoolChange::from(Boolish(value))
    }
}

impl FromSpecImpl<bool> for BoolChange {
    open spec fn obeys_from_spec() -> bool {
        true
    }

    open spec fn from_spec(value: bool) -> Self {
        change_to(value)
    }
}

/// A text whose lower case is `on` or `off` leads with no `!`, so the value's
/// own reading agrees with the table's.
proof fn lemma_change_words(text: Seq<char>)
    ensures
        lowered(text) == "on"@ ==> bool_read(text) == Some(true) && lowered(text) != "toggle"@,
        lowered(text) == "off"@ ==> bool_read(text) == Some(false) && lowered(text) != "toggle"@,
{
    reveal_strlit("on");
    reveal_strlit("off");
    reveal_strlit("true");
    reveal_strlit("yes");
    reveal_strlit("1");
    reveal_strlit("toggle");
    reveal_strlit("!");
    assert("on"@[0] == 'o' && "off"@[0] == 'o' && "!"@[0] == '!');
    assert("on"@.len() == 2 && "off"@.len() == 3 && "true"@.len() == 4 && "yes"@.len() == 3);
    assert("1"@.len() == 1 && "toggle"@.len() == 6 && "yes"@[0] == 'y');
    if starts_with(text, "!"@) {
        assert(text.take(1)[0] == '!');
        assert(text[0] == '!');
        assert(lowered(text)[0] == '!');
    }
}

/// A value printed and read back is the same value.
pub proof fn law_bool_round_trip(value: bool)
    ensures
        bool_read(bool_text(value)) == Some(value),
{
    reveal_strlit("on");
    reveal_strlit("off");
    assert("on"@ =~= seq!['o', 'n']);
    assert("off"@ =~= seq!['o', 'f', 'f']);
    lemma_lowered_is_identity(bool_text(value));
    lemma_change_words(bool_text(value));
}

/// A leading `!` reads as the opposite of what it leads.
pub proof fn law_negation_is_the_opposite(text: Seq<char>)
    requires
        !starts_with(text, "!"@),
    ensures
        bool_read("!"@ + text) == match bool_read(text) {
            Some(b) => Some(!b),
            None => None,
        },
{
    reveal_strlit("!");
    let whole = "!"@ + text;
    assert(whole.take(1) =~= "!"@);
    assert(whole.skip(1) =~= text);
}

/// A change printed and read back is the same change.
pub proof fn law_change_round_trip(change: BoolChange)
    ensures
        change_read(change_text(change)) == Some(change),
{
    reveal_strlit("toggle");
    assert("toggle"@ =~= seq!['t', 'o', 'g', 'g', 'l', 'e']);
    lemma_lowered_is_identity("toggle"@);
    reveal_strlit("on");
    reveal_strlit("off");
    assert("on"@ =~= seq!['o', 'n']);
    assert("off"@ =~= seq!['o', 'f', 'f']);
    lemma_lowered_is_identity("on"@);
    lemma_lowered_is_identity("off"@);
    lemma_change_words("on"@);
    lemma_change_words("off"@);
}

/// A value's spelling means the same to a change as to the value itself.
pub proof fn law_values_are_changes(text: Seq<char>)
    requires
        bool_read(text) is Some,
    ensures
        change_read(text) == Some(change_to(bool_read(text)->Some_0)),
{
    reveal_strlit("toggle");
    reveal_strlit("!");
    reveal_strlit("on");
    reveal_strlit("true");
    reveal_strlit("yes");
    reveal_strlit("1");
    reveal_strlit("off");
    reveal_strlit("false");
    reveal_strlit("no");
    reveal_strlit("0");
    if lowered(text) == "toggle"@ {
        assert("toggle"@.len() == 6 && "toggle"@[0] == 't' && "!"@[0] == '!');
        assert("on"@.len() == 2 && "true"@.len() == 4 && "yes"@.len() == 3 && "1"@.len() == 1);
        assert("off"@.len() == 3 && "false"@.len() == 5 && "no"@.len() == 2 && "0"@.len() == 1);
        if starts_with(text, "!"@) {
            assert(text.take(1)[0] == '!');
            assert(lowered(text)[0] == '!');
        }
    }
}

/// A change that sets what is already there changes nothing.
pub proof fn law_setting_what_is_there_changes_nothing(value: bool)
    ensures
        resolved(change_to(value), value) == value,
{
}

/// A flip is always a change, and two of them are none.
pub proof fn law_toggle_always_changes(value: bool)
    ensures
        resolved(BoolChange::Toggle, value) != value,
        resolved(BoolChange::Toggle, resolved(BoolChange::Toggle, value)) == value,
{
}

/// Case never decides what a boolean or a change to one reads as.
pub proof fn law_flag_case_is_ignored(text: Seq<char>)
    ensures
        bool_read(lowered(text)) == bool_read(text),
        change_read(lowered(text)) == change_read(text),
{
    lemma_lowered_twice(text);
    reveal_strlit("!");
    if text.len() > 0 {
        assert(lowered(text)[0] == crate::text::lower_char(text[0]));
        assert(lowered(text).skip(1) =~= lowered(text.skip(1)));
        lemma_lowered_twice(text.skip(1));
        assert(text.take(1) =~= seq![text[0]]);
        assert(lowered(text).take(1) =~= seq![lowered(text)[0]]);
        assert("!"@ =~= seq!['!']);
        assert(seq![text[0]][0] == text[0]);
        assert(seq![lowered(text)[0]][0] == lowered(text)[0]);
        assert("!"@[0] == '!');
    }
}

} // verus!
