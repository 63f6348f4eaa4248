//! What a client asks for, and what it is answered.

use crate::component::ComponentKind;
use crate::event::{Event, EventName, Kind, NotificationName};
use crate::measure::Measure;
use crate::name::{ItemName, Selector};
use crate::query::{PressTarget, Query, Relative};
use crate::state::{BarPatch, BarState, ItemPatch, ItemState};
use vstd::prelude::*;

verus! {

/// What a client asks for.
#[derive(Debug, PartialEq)]
pub enum Request {
    /// Change the bar.
    SetBar(BarPatch),
    /// Add a component.
    Add(ComponentKind),
    /// Declare a custom event, and bridge it where it names a notification.
    AddEvent { name: EventName, notification: Option<NotificationName> },
    /// Change every item a selector names.
    SetItem(Selector, Box<ItemPatch>),
    /// Remove every item a selector names.
    Remove(Selector),
    /// Properties copied onto every item added from here on.
    SetDefault(Box<ItemPatch>),
    /// Move an item next to another.
    Move { name: ItemName, relative: Relative, reference: ItemName },
    /// The bar's new order of items.
    Reorder(Vec<ItemName>),
    /// Replace an item's subscriptions.
    Subscribe { name: ItemName, events: Vec<Kind<()>> },
    /// One more sample for a graph.
    Push { name: ItemName, value: Measure },
    /// Fire an event now, as if a source had produced it.
    Trigger(Event),
    /// Run every item's script now.
    UpdateAll,
    /// Run the config from scratch.
    Reload,
    /// Mark every item as unclaimed.
    BeginConfig,
    /// Sweep every item still unclaimed.
    EndConfig,
    /// Ask about something.
    Query(Query),
    /// Open a menu.
    Press(PressTarget),
    /// Stop.
    Shutdown,
}

/// What a client is answered.
#[derive(Debug, PartialEq)]
pub enum Response {
    /// It was carried out.
    Done,
    Bar(Box<BarState>),
    Items(Vec<ItemState>),
    Item(Box<ItemState>),
    /// Mirrorable menu bar items, as `Owner,Name`.
    MenuItems(Vec<String>),
    /// The frontmost application's menu titles, in order.
    AppMenus(Vec<String>),
    /// The properties copied onto every item added.
    Defaults(Box<ItemPatch>),
    /// The request was understood but could not be carried out.
    Error(String),
}

} // verus!
