//! What a request may ask about, press or move.

use crate::name::{is_item_name, name_fault, InvalidName, InvalidNameView, ItemName};
use crate::text::{
    decimal, decimal_text, joined, joined3, lemma_number_round_trip, number_read, read_number, same,
};
use vstd::prelude::*;

verus! {

/// What a query was asked about. Any word that is not one of these is an item
/// name, and case counts: `BAR` is an item called `BAR`, not the bar.
#[derive(Debug, Clone, PartialEq, Eq)]
pub enum Query {
    Bar,
    Items,
    Item(ItemName),
    /// Every menu bar item that can be mirrored, as `Owner,Name`.
    MenuItems,
    /// The frontmost application's own menu titles, in on-screen order.
    AppMenus,
    /// The properties stashed for every item added since.
    Defaults,
}

/// [`Query`] over plain text.
pub enum QueryView {
    Bar,
    Items,
    Item(Seq<char>),
    MenuItems,
    AppMenus,
    Defaults,
}

impl View for Query {
    type V = QueryView;

    open spec fn view(&self) -> QueryView {
        match self {
            Query::Bar => QueryView::Bar,
            Query::Items => QueryView::Items,
            Query::Item(name) => QueryView::Item(name@),
            Query::MenuItems => QueryView::MenuItems,
            Query::AppMenus => QueryView::AppMenus,
            Query::Defaults => QueryView::Defaults,
        }
    }
}

/// Why a text is no query.
#[derive(Debug, Clone, PartialEq, Eq)]
pub enum InvalidQuery {
    Unknown(String),
    /// A real query that is not answered yet, and why not.
    Unsupported(String, &'static str),
    Name(InvalidName),
}

/// [`InvalidQuery`] over plain text.
pub enum InvalidQueryView {
    Unknown(Seq<char>),
    Unsupported(Seq<char>, Seq<char>),
    Name(InvalidNameView),
}

impl View for InvalidQuery {
    type V = InvalidQueryView;

    open spec fn view(&self) -> InvalidQueryView {
        match self {
            InvalidQuery::Unknown(text) => InvalidQueryView::Unknown(text@),
            InvalidQuery::Unsupported(text, why) => InvalidQueryView::Unsupported(text@, why@),
            InvalidQuery::Name(e) => InvalidQueryView::Name(e@),
        }
    }
}

/// The query a word of the table names.
pub open spec fn query_word(text: Seq<char>) -> Option<QueryView> {
    if text == "bar"@ {
        Some(QueryView::Bar)
    } else if text == "items"@ {
        Some(QueryView::Items)
    } else if text == "menu_items"@ || text == "menu-items"@ || text == "default_menu_items"@ {
        Some(QueryView::MenuItems)
    } else if text == "app_menus"@ || text == "app-menus"@ {
        Some(QueryView::AppMenus)
    } else if text == "defaults"@ {
        Some(QueryView::Defaults)
    } else {
        None
    }
}

/// Why a real query is not answered yet, for the two that are not.
pub open spec fn unanswered(text: Seq<char>) -> Option<Seq<char>> {
    if text == "events"@ {
        Some("rsbar does not track registered custom events"@)
    } else if text == "displays"@ {
        Some("querying displays is not implemented"@)
    } else {
        None
    }
}

/// Every word the table did not claim: a query that is not answered yet, or an
/// item name.
pub open spec fn query_named(text: Seq<char>) -> Result<QueryView, InvalidQueryView> {
    match unanswered(text) {
        Some(why) => Err(InvalidQueryView::Unsupported(text, why)),
        None => if is_item_name(text) {
            Ok(QueryView::Item(text))
        } else {
            Err(InvalidQueryView::Name(name_fault(text)))
        },
    }
}

/// The query a text asks.
pub open spec fn query_read(text: Seq<char>) -> Result<QueryView, InvalidQueryView> {
    match query_word(text) {
        Some(query) => Ok(query),
        None => query_named(text),
    }
}

/// What a query is printed as.
pub open spec fn query_text(query: QueryView) -> Seq<char> {
    match query {
        QueryView::Bar => "bar"@,
        QueryView::Items => "items"@,
        QueryView::Item(name) => name,
        QueryView::MenuItems => "menu_items"@,
        QueryView::AppMenus => "app_menus"@,
        QueryView::Defaults => "defaults"@,
    }
}

impl Query {
    /// Reads whatever the table did not claim.
    pub fn named(text: &str) -> (r: Result<Query, InvalidQuery>)
        ensures
            match r {
                Ok(q) => query_named(text@) == Ok::<QueryView, InvalidQueryView>(q@),
                Err(e) => query_named(text@) == Err::<QueryView, InvalidQueryView>(e@),
            },
    {
        if same(text, "events") {
            return Err(
                InvalidQuery::Unsupported(
                    text.to_owned(),
                    "rsbar does not track registered custom events",
                ),
            );
        }
        if same(text, "displays") {
            return Err(
                InvalidQuery::Unsupported(text.to_owned(), "querying displays is not implemented"),
            );
        }
        match ItemName::new(text) {
            Ok(name) => Ok(Query::Item(name)),
            Err(e) => Err(InvalidQuery::Name(e)),
        }
    }

    /// Reads a query by its word, and any other word as an item's name.
    pub fn parse(text: &str) -> (r: Result<Query, InvalidQuery>)
        ensures
            match r {
                Ok(q) => query_read(text@) == Ok::<QueryView, InvalidQueryView>(q@),
                Err(e) => query_read(text@) == Err::<QueryView, InvalidQueryView>(e@),
            },
    {
        if same(text, "bar") {
            Ok(Query::Bar)
        } else if same(text, "items") {
            Ok(Query::Items)
        } else if same(text, "menu_items") || same(text, "menu-items") || same(
            text,
            "default_menu_items",
        ) {
            Ok(Query::MenuItems)
        } else if same(text, "app_menus") || same(text, "app-menus") {
            Ok(Query::AppMenus)
        } else if same(text, "defaults") {
            Ok(Query::Defaults)
        } else {
            Query::named(text)
        }
    }

    /// What this is printed as.
    pub fn to_string(&self) -> (r: String)
        ensures
            r@ == query_text(self@),
    {
        match self {
            Query::Bar => "bar".to_owned(),
            Query::Items => "items".to_owned(),
            Query::Item(name) => name.to_string(),
            Query::MenuItems => "menu_items".to_owned(),
            Query::AppMenus => "app_menus".to_owned(),
            Query::Defaults => "defaults".to_owned(),
        }
    }
}

impl std::str::FromStr for Query {
    type Err = InvalidQuery;

    fn from_str(s: &str) -> (r: Result<Self, InvalidQuery>)
        ensures
            match r {
                Ok(q) => query_read(s@) == Ok::<QueryView, InvalidQueryView>(q@),
                Err(e) => query_read(s@) == Err::<QueryView, InvalidQueryView>(e@),
            },
    {
        Query::parse(s)
    }
}

impl InvalidQuery {
    /// The sentence a config's author is shown.
    pub fn to_string(&self) -> (r: String)
        ensures
            match self@ {
                InvalidQueryView::Unknown(text) => r@ == "`"@ + text
                    + "` is not `bar`, `items`, `menu-items`, `app-menus`, `defaults` or an item name"@,
                InvalidQueryView::Unsupported(text, why) => r@ == "`"@ + text
                    + "` is a real SketchyBar query rsbar does not support yet: "@ + why,
                InvalidQueryView::Name(InvalidNameView::Empty) => r@
                    == "an item name cannot be empty"@,
                InvalidQueryView::Name(InvalidNameView::Character(text)) => r@ == "`"@ + text
                    + "` is not a valid item name: control characters are not allowed"@,
            },
    {
        match self {
            InvalidQuery::Unknown(text) => joined3(
                "`",
                text,
                "` is not `bar`, `items`, `menu-items`, `app-menus`, `defaults` or an item name",
            ),
            InvalidQuery::Unsupported(text, why) => joined(
                &joined3("`", text, "` is a real SketchyBar query rsbar does not support yet: "),
                why,
            ),
            InvalidQuery::Name(e) => e.to_string(),
        }
    }
}

/// A query printed and read back is the same query, unless it asks after an
/// item whose name is itself the word for something else.
pub proof fn law_query_round_trip(query: QueryView)
    requires
        query matches QueryView::Item(name) ==> is_item_name(name) && query_word(name) is None
            && unanswered(name) is None,
    ensures
        query_read(query_text(query)) == Ok::<QueryView, InvalidQueryView>(query),
{
    reveal_strlit("bar");
    reveal_strlit("items");
    reveal_strlit("menu_items");
    reveal_strlit("menu-items");
    reveal_strlit("default_menu_items");
    reveal_strlit("app_menus");
    reveal_strlit("app-menus");
    reveal_strlit("defaults");
    assert("app_menus"@[0] == 'a' && "items"@[0] == 'i' && "menu_items"@[0] == 'm');
}

/// What a press opens: one of the frontmost application's own menus by index,
/// or the real menu behind a mirrored item by name.
#[derive(Debug, Clone, PartialEq, Eq)]
pub enum PressTarget {
    AppMenu(usize),
    Alias(ItemName),
}

/// [`PressTarget`] over plain text.
pub enum PressTargetView {
    AppMenu(nat),
    Alias(Seq<char>),
}

impl View for PressTarget {
    type V = PressTargetView;

    open spec fn view(&self) -> PressTargetView {
        match self {
            PressTarget::AppMenu(index) => PressTargetView::AppMenu(*index as nat),
            PressTarget::Alias(name) => PressTargetView::Alias(name@),
        }
    }
}

/// What a text presses: an index wherever it reads as one, and else a name.
pub open spec fn press_read(text: Seq<char>) -> Result<PressTargetView, InvalidNameView> {
    match number_read(text, 10, usize::MAX as nat) {
        Some(index) => Ok(PressTargetView::AppMenu(index)),
        None => if is_item_name(text) {
            Ok(PressTargetView::Alias(text))
        } else {
            Err(name_fault(text))
        },
    }
}

/// What a press target is printed as.
pub open spec fn press_text(target: PressTargetView) -> Seq<char> {
    match target {
        PressTargetView::AppMenu(index) => decimal_text(index),
        PressTargetView::Alias(name) => name,
    }
}

impl PressTarget {
    /// Whatever did not read as an index, which is a name or nothing.
    pub fn alias(text: &str) -> (r: Result<PressTarget, InvalidName>)
        ensures
            match r {
                Ok(t) => is_item_name(text@) && t@ == PressTargetView::Alias(text@),
                Err(e) => !is_item_name(text@) && e@ == name_fault(text@),
            },
    {
        match ItemName::new(text) {
            Ok(name) => Ok(PressTarget::Alias(name)),
            Err(e) => Err(e),
        }
    }

    /// Reads an index, and anything else as a name.
    pub fn parse(text: &str) -> (r: Result<PressTarget, InvalidName>)
        ensures
            match r {
                Ok(t) => press_read(text@) == Ok::<PressTargetView, InvalidNameView>(t@),
                Err(e) => press_read(text@) == Err::<PressTargetView, InvalidNameView>(e@),
            },
    {
        match read_number(text, 10, usize::MAX as u64) {
            Some(index) => Ok(PressTarget::AppMenu(index as usize)),
            None => PressTarget::alias(text),
        }
    }

    /// What this is printed as.
    pub fn to_string(&self) -> (r: String)
        ensures
            r@ == press_text(self@),
    {
        match self {
            PressTarget::AppMenu(index) => decimal(*index as u64),
            PressTarget::Alias(name) => name.to_string(),
        }
    }
}

impl std::str::FromStr for PressTarget {
    type Err = InvalidName;

    fn from_str(s: &str) -> (r: Result<Self, InvalidName>)
        ensures
            match r {
                Ok(t) => press_read(s@) == Ok::<PressTargetView, InvalidNameView>(t@),
                Err(e) => press_read(s@) == Err::<PressTargetView, InvalidNameView>(e@),
            },
    {
        PressTarget::parse(s)
    }
}

/// A press target printed and read back is the same target, unless it names an
/// item whose name reads as an index.
pub proof fn law_press_round_trip(target: PressTargetView)
    requires
        match target {
            PressTargetView::AppMenu(index) => index <= usize::MAX,
            PressTargetView::Alias(name) => is_item_name(name) && number_read(
                name,
                10,
                usize::MAX as nat,
            ) is None,
        },
    ensures
        press_read(press_text(target)) == Ok::<PressTargetView, InvalidNameView>(target),
{
    match target {
        PressTargetView::AppMenu(index) => {
            lemma_number_round_trip(index, 10, usize::MAX as nat);
        },
        PressTargetView::Alias(_) => {},
    }
}

/// Which side of a reference an item moves to.
#[derive(Debug, Clone, Copy, PartialEq, Eq, Structural)]
pub enum Relative {
    Before,
    After,
}

/// The side a word names.
pub open spec fn relative_word(text: Seq<char>) -> Option<Relative> {
    if text == "before"@ {
        Some(Relative::Before)
    } else if text == "after"@ {
        Some(Relative::After)
    } else {
        None
    }
}

impl Relative {
    /// Reads `before` or `after`, exactly.
    pub fn parse(text: &str) -> (r: Option<Relative>)
        ensures
            r == relative_word(text@),
    {
        if same(text, "before") {
            Some(Relative::Before)
        } else if same(text, "after") {
            Some(Relative::After)
        } else {
            None
        }
    }
}

} // verus!
