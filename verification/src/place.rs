//! Where the bar sits on its display, and where an item sits along the bar.

use crate::name::{is_item_name, ItemName};
use crate::text::{
    joined, joined3, lemma_lowered_is_identity, lemma_lowered_twice, lowercase, lowered, replace,
    replaced, same, starts_with, strip_prefix,
};
use vstd::prelude::*;

verus! {

/// Which edge of the display the bar occupies.
#[derive(Debug, Clone, Copy, PartialEq, Eq, Structural)]
pub enum Edge {
    Top,
    Bottom,
}

/// A text that names no edge.
#[derive(Debug, Clone, PartialEq, Eq)]
pub struct InvalidEdge(String);

impl View for InvalidEdge {
    type V = Seq<char>;

    /// The text as it was written.
    closed spec fn view(&self) -> Seq<char> {
        self.0@
    }
}

/// The edge a text names, in any case.
pub open spec fn edge_read(text: Seq<char>) -> Option<Edge> {
    if lowered(text) == "top"@ {
        Some(Edge::Top)
    } else if lowered(text) == "bottom"@ {
        Some(Edge::Bottom)
    } else {
        None
    }
}

/// The word an edge is printed as.
pub open spec fn edge_text(edge: Edge) -> Seq<char> {
    match edge {
        Edge::Top => "top"@,
        Edge::Bottom => "bottom"@,
    }
}

impl Edge {
    /// Reads an edge, in any case.
    pub fn parse(text: &str) -> (r: Result<Edge, InvalidEdge>)
        ensures
            match r {
                Ok(edge) => edge_read(text@) == Some(edge),
                Err(e) => edge_read(text@) is None && e@ == text@,
            },
    {
        let word = lowercase(text);
        if same(&word, "top") {
            Ok(Edge::Top)
        } else if same(&word, "bottom") {
            Ok(Edge::Bottom)
        } else {
            Err(InvalidEdge(text.to_owned()))
        }
    }

    /// The word this is printed as, which is the one it is read back by.
    pub fn to_string(&self) -> (r: String)
        ensures
            r@ == edge_text(*self),
    {
        match self {
            Edge::Top => "top".to_owned(),
            Edge::Bottom => "bottom".to_owned(),
        }
    }
}

impl Default for Edge {
    fn default() -> (r: Self)
        ensures
            r == Edge::Top,
    {
        Edge::Top
    }
}

impl std::str::FromStr for Edge {
    type Err = InvalidEdge;

    fn from_str(s: &str) -> (r: Result<Self, InvalidEdge>)
        ensures
            match r {
                Ok(edge) => edge_read(s@) == Some(edge),
                Err(e) => edge_read(s@) is None && e@ == s@,
            },
    {
        Edge::parse(s)
    }
}

impl InvalidEdge {
    /// The sentence a config's author is shown.
    pub fn to_string(&self) -> (r: String)
        ensures
            r@ == "`"@ + self@ + "` is not a bar position: expected top or bottom"@,
    {
        joined3("`", &self.0, "` is not a bar position: expected top or bottom")
    }
}

/// An edge printed and read back is the same edge.
pub proof fn law_edge_round_trip(edge: Edge)
    ensures
        edge_read(edge_text(edge)) == Some(edge),
{
    reveal_strlit("top");
    reveal_strlit("bottom");
    assert("top"@ =~= seq!['t', 'o', 'p']);
    assert("bottom"@ =~= seq!['b', 'o', 't', 't', 'o', 'm']);
    lemma_lowered_is_identity(edge_text(edge));
}

/// Case never decides what an edge reads as.
pub proof fn law_edge_case_is_ignored(text: Seq<char>)
    ensures
        edge_read(lowered(text)) == edge_read(text),
{
    lemma_lowered_twice(text);
}

/// Where an item sits along the bar.
///
/// There is no position an item is at when nobody says where it is.
#[derive(Debug, Clone, PartialEq, Eq)]
pub enum Position {
    Left,
    CenterLeft,
    Center,
    CenterRight,
    Right,
    /// Inside the named item's popup rather than anywhere on the bar.
    Popup(ItemName),
}

/// [`Position`] over plain text.
pub enum PositionView {
    Left,
    CenterLeft,
    Center,
    CenterRight,
    Right,
    Popup(Seq<char>),
}

impl View for Position {
    type V = PositionView;

    open spec fn view(&self) -> PositionView {
        match self {
            Position::Left => PositionView::Left,
            Position::CenterLeft => PositionView::CenterLeft,
            Position::Center => PositionView::Center,
            Position::CenterRight => PositionView::CenterRight,
            Position::Right => PositionView::Right,
            Position::Popup(name) => PositionView::Popup(name@),
        }
    }
}

/// A text that names no position.
#[derive(Debug, Clone, PartialEq, Eq)]
pub struct InvalidPosition(String);

impl View for InvalidPosition {
    type V = Seq<char>;

    /// The text as it was written.
    closed spec fn view(&self) -> Seq<char> {
        self.0@
    }
}

/// A text in lower case, with every `_` read as a `-`.
pub open spec fn dashed(text: Seq<char>) -> Seq<char> {
    lowered(replaced(text, '_', '-'))
}

/// The bucket a folded word names.
pub open spec fn bucket_word(word: Seq<char>) -> Option<PositionView> {
    if word == "left"@ || word == "l"@ {
        Some(PositionView::Left)
    } else if word == "q"@ || word == "center-left"@ || word == "centre-left"@ {
        Some(PositionView::CenterLeft)
    } else if word == "center"@ || word == "centre"@ || word == "c"@ {
        Some(PositionView::Center)
    } else if word == "e"@ || word == "center-right"@ || word == "centre-right"@ {
        Some(PositionView::CenterRight)
    } else if word == "right"@ || word == "r"@ {
        Some(PositionView::Right)
    } else {
        None
    }
}

/// The position a text names: a bucket by its folded spelling, or
/// `popup.` and the name of the host, which keeps its own case.
pub open spec fn position_read(text: Seq<char>) -> Option<PositionView> {
    match bucket_word(dashed(text)) {
        Some(position) => Some(position),
        None => if starts_with(text, "popup."@) && is_item_name(text.skip(6)) {
            Some(PositionView::Popup(text.skip(6)))
        } else {
            None
        },
    }
}

/// What a position is printed as.
pub open spec fn position_text(position: PositionView) -> Seq<char> {
    match position {
        PositionView::Left => "left"@,
        PositionView::CenterLeft => "q"@,
        PositionView::Center => "center"@,
        PositionView::CenterRight => "e"@,
        PositionView::Right => "right"@,
        PositionView::Popup(name) => "popup."@ + name,
    }
}

/// The bucket a folded word names.
fn read_bucket(word: &str) -> (r: Option<Position>)
    ensures
        match r {
            Some(p) => bucket_word(word@) == Some(p@),
            None => bucket_word(word@) is None,
        },
{
    if same(word, "left") || same(word, "l") {
        Some(Position::Left)
    } else if same(word, "q") || same(word, "center-left") || same(word, "centre-left") {
        Some(Position::CenterLeft)
    } else if same(word, "center") || same(word, "centre") || same(word, "c") {
        Some(Position::Center)
    } else if same(word, "e") || same(word, "center-right") || same(word, "centre-right") {
        Some(Position::CenterRight)
    } else if same(word, "right") || same(word, "r") {
        Some(Position::Right)
    } else {
        None
    }
}

impl Position {
    /// Reads a bucket by any of its spellings, or `popup.<host>`.
    pub fn parse(text: &str) -> (r: Result<Position, InvalidPosition>)
        ensures
            match r {
                Ok(p) => position_read(text@) == Some(p@),
                Err(e) => position_read(text@) is None && e@ == text@,
            },
    {
        proof {
            reveal_strlit("popup.");
        }
        let folded = lowercase(&replace(text, '_', '-'));
        if let Some(bucket) = read_bucket(&folded) {
            return Ok(bucket);
        }
        if let Some(host) = strip_prefix(text, "popup.") {
            if let Ok(name) = ItemName::new(host) {
                return Ok(Position::Popup(name));
            }
        }
        Err(InvalidPosition(text.to_owned()))
    }

    /// What this is printed as, which is also what reads back as it.
    pub fn to_string(&self) -> (r: String)
        ensures
            r@ == position_text(self@),
    {
        match self {
            Position::Left => "left".to_owned(),
            Position::CenterLeft => "q".to_owned(),
            Position::Center => "center".to_owned(),
            Position::CenterRight => "e".to_owned(),
            Position::Right => "right".to_owned(),
            Position::Popup(name) => joined("popup.", name.as_str()),
        }
    }

    /// The same position again.
    pub fn copied(&self) -> (r: Position)
        ensures
            r@ == self@,
    {
        match self {
            Position::Left => Position::Left,
            Position::CenterLeft => Position::CenterLeft,
            Position::Center => Position::Center,
            Position::CenterRight => Position::CenterRight,
            Position::Right => Position::Right,
            Position::Popup(name) => Position::Popup(name.clone()),
        }
    }

    /// Whether two positions are one position.
    pub fn same(&self, other: &Position) -> (r: bool)
        ensures
            r == (self@ == other@),
    {
        match (self, other) {
            (Position::Left, Position::Left) => true,
            (Position::CenterLeft, Position::CenterLeft) => true,
            (Position::Center, Position::Center) => true,
            (Position::CenterRight, Position::CenterRight) => true,
            (Position::Right, Position::Right) => true,
            (Position::Popup(a), Position::Popup(b)) => a.same(b),
            _ => false,
        }
    }
}

impl std::str::FromStr for Position {
    type Err = InvalidPosition;

    fn from_str(s: &str) -> (r: Result<Self, InvalidPosition>)
        ensures
            match r {
                Ok(p) => position_read(s@) == Some(p@),
                Err(e) => position_read(s@) is None && e@ == s@,
            },
    {
        Position::parse(s)
    }
}

impl InvalidPosition {
    /// The sentence a config's author is shown.
    pub fn to_string(&self) -> (r: String)
        ensures
            r@ == "`"@ + self@
                + "` is not a position: expected left, center-left, center, center-right or right"@,
    {
        joined3(
            "`",
            &self.0,
            "` is not a position: expected left, center-left, center, center-right or right",
        )
    }
}

/// Text with neither a capital nor an underscore folds to itself.
proof fn lemma_dashed_is_identity(s: Seq<char>)
    requires
        crate::text::has_no_capital(s),
        forall|i: int| 0 <= i < s.len() ==> #[trigger] s[i] != '_',
    ensures
        dashed(s) == s,
{
    assert(replaced(s, '_', '-') =~= s);
    lemma_lowered_is_identity(s);
}

/// A position printed and read back is the same position.
pub proof fn law_position_round_trip(position: PositionView)
    requires
        position matches PositionView::Popup(name) ==> is_item_name(name),
    ensures
        position_read(position_text(position)) == Some(position),
{
    reveal_strlit("left");
    reveal_strlit("l");
    reveal_strlit("q");
    reveal_strlit("center-left");
    reveal_strlit("centre-left");
    reveal_strlit("center");
    reveal_strlit("centre");
    reveal_strlit("c");
    reveal_strlit("e");
    reveal_strlit("center-right");
    reveal_strlit("centre-right");
    reveal_strlit("right");
    reveal_strlit("r");
    reveal_strlit("popup.");
    assert("left"@ =~= seq!['l', 'e', 'f', 't']);
    assert("q"@ =~= seq!['q']);
    assert("center"@ =~= seq!['c', 'e', 'n', 't', 'e', 'r']);
    assert("e"@ =~= seq!['e']);
    assert("right"@ =~= seq!['r', 'i', 'g', 'h', 't']);
    match position {
        PositionView::Popup(name) => {
            let text = "popup."@ + name;
            assert(text[0] == 'p');
            assert(dashed(text)[0] == 'p');
            assert(text.take(6) =~= "popup."@);
            assert(text.skip(6) =~= name);
        },
        _ => {
            lemma_dashed_is_identity(position_text(position));
        },
    }
    assert("left"@[0] == 'l' && "l"@[0] == 'l' && "q"@[0] == 'q' && "c"@[0] == 'c' && "e"@[0] == 'e'
        && "r"@[0] == 'r' && "right"@[0] == 'r' && "center"@[0] == 'c' && "centre"@[0] == 'c');
    assert("center-left"@[0] == 'c' && "centre-left"@[0] == 'c' && "center-right"@[0] == 'c'
        && "centre-right"@[0] == 'c');
}

/// A bucket's spelling reads the same in any case, and with a `_` wherever it
/// has a `-`.
pub proof fn law_bucket_folding(text: Seq<char>)
    ensures
        bucket_word(dashed(dashed(text))) == bucket_word(dashed(text)),
{
    let once = dashed(text);
    lemma_lowered_twice(replaced(text, '_', '-'));
    assert forall|i: int| 0 <= i < once.len() implies #[trigger] once[i] != '_' by {
        let c = replaced(text, '_', '-')[i];
        assert(once[i] == crate::text::lower_char(c));
    }
    lemma_dashed_is_identity(once);
}

/// A popup's host keeps the case it was written in.
pub proof fn law_popup_host_keeps_its_case(name: Seq<char>)
    requires
        is_item_name(name),
    ensures
        position_read("popup."@ + name) == Some(PositionView::Popup(name)),
{
    law_position_round_trip(PositionView::Popup(name));
}

} // verus!
