//! What can go wrong with a request, and what to say of it.

use crate::event::{
    InvalidEvent, InvalidEventName, InvalidEventNameView, InvalidNotificationName,
};
use crate::name::{InvalidName, InvalidNameView};
use crate::place::InvalidPosition;
use crate::text::{joined, joined3};
use vstd::prelude::*;

verus! {

/// Anything that can go wrong issuing a request or waiting on events.
#[derive(Debug, Clone, PartialEq, Eq)]
pub enum ApiError {
    InvalidName(String, InvalidName),
    InvalidPosition(String, InvalidPosition),
    InvalidEvent(String, InvalidEvent),
    InvalidEventName(String, InvalidEventName),
    InvalidNotificationName(String, InvalidNotificationName),
    InvalidColor(String),
    InvalidPattern(String, String),
    NotRunning,
    /// The transport failed, and what it said.
    Transport(String),
    /// The daemon understood the request and refused it.
    Rejected(String),
    /// The daemon answered with something else, as it prints.
    UnexpectedResponse(String),
}

/// [`ApiError`] over plain text.
pub enum ApiFault {
    InvalidName(Seq<char>, InvalidNameView),
    InvalidPosition(Seq<char>, Seq<char>),
    InvalidEvent(Seq<char>, Seq<char>),
    InvalidEventName(Seq<char>, InvalidEventNameView),
    InvalidNotificationName(Seq<char>, Seq<char>),
    InvalidColor(Seq<char>),
    InvalidPattern(Seq<char>, Seq<char>),
    NotRunning,
    Transport(Seq<char>),
    Rejected(Seq<char>),
    UnexpectedResponse(Seq<char>),
}

impl View for ApiError {
    type V = ApiFault;

    open spec fn view(&self) -> ApiFault {
        match self {
            ApiError::InvalidName(text, e) => ApiFault::InvalidName(text@, e@),
            ApiError::InvalidPosition(text, e) => ApiFault::InvalidPosition(text@, e@),
            ApiError::InvalidEvent(text, e) => ApiFault::InvalidEvent(text@, e@),
            ApiError::InvalidEventName(text, e) => ApiFault::InvalidEventName(text@, e@),
            ApiError::InvalidNotificationName(text, e) => ApiFault::InvalidNotificationName(
                text@,
                e@,
            ),
            ApiError::InvalidColor(text) => ApiFault::InvalidColor(text@),
            ApiError::InvalidPattern(text, why) => ApiFault::InvalidPattern(text@, why@),
            ApiError::NotRunning => ApiFault::NotRunning,
            ApiError::Transport(why) => ApiFault::Transport(why@),
            ApiError::Rejected(why) => ApiFault::Rejected(why@),
            ApiError::UnexpectedResponse(response) => ApiFault::UnexpectedResponse(response@),
        }
    }
}

/// What to say of a text that is no item's name.
pub open spec fn name_fault_text(fault: InvalidNameView) -> Seq<char> {
    match fault {
        InvalidNameView::Empty => "an item name cannot be empty"@,
        InvalidNameView::Character(text) => "`"@ + text
            + "` is not a valid item name: control characters are not allowed"@,
    }
}

/// What to say of a text that is no name for a new event.
pub open spec fn event_name_fault_text(fault: InvalidEventNameView) -> Seq<char> {
    match fault {
        InvalidEventNameView::NotAName(text) => "`"@ + text + "` is not an event name"@,
        InvalidEventNameView::BuiltIn(name) => "`"@ + name
            + "` is a built-in event; only a name coolabah does not already define can be added"@,
    }
}

/// What to say of a fault.
pub open spec fn api_text(fault: ApiFault) -> Seq<char> {
    match fault {
        ApiFault::InvalidName(text, e) => "`"@ + text + "` is not a valid item name: "@
            + name_fault_text(e),
        ApiFault::InvalidPosition(text, e) => "`"@ + text + "` is not a position: "@ + ("`"@ + e
            + "` is not a position: expected left, center-left, center, center-right or right"@),
        ApiFault::InvalidEvent(text, e) => "`"@ + text + "` is not an event name: "@ + ("`"@ + e
            + "` is not an event name"@),
        ApiFault::InvalidEventName(text, e) => "`"@ + text + "` cannot be added as an event: "@
            + event_name_fault_text(e),
        ApiFault::InvalidNotificationName(text, e) => "`"@ + text
            + "` is not a notification to bridge an event from: "@ + ("`"@ + e
            + "` is not a notification name"@),
        ApiFault::InvalidColor(text) => "`"@ + text
            + "` is not a colour: expected 0xaarrggbb, 0xrrggbb or \"#rrggbb\""@,
        ApiFault::InvalidPattern(text, why) => "`"@ + text
            + "` is not a valid item-name pattern: "@ + why,
        ApiFault::NotRunning => "rsbar is not running"@,
        ApiFault::Transport(why) => "lost contact with rsbar: "@ + why,
        ApiFault::Rejected(why) => "rsbar rejected the request: "@ + why,
        ApiFault::UnexpectedResponse(response) => "rsbar answered with "@ + response
            + ", which does not belong to this request"@,
    }
}

impl ApiError {
    /// What to say of it.
    pub fn to_string(&self) -> (r: String)
        ensures
            r@ == api_text(self@),
    {
        match self {
            ApiError::InvalidName(text, e) => {
                let why = e.to_string();
                let r = joined(&joined3("`", text, "` is not a valid item name: "), &why);
                r
            },
            ApiError::InvalidPosition(text, e) => joined(
                &joined3("`", text, "` is not a position: "),
                &e.to_string(),
            ),
            ApiError::InvalidEvent(text, e) => joined(
                &joined3("`", text, "` is not an event name: "),
                &e.to_string(),
            ),
            ApiError::InvalidEventName(text, e) => joined(
                &joined3("`", text, "` cannot be added as an event: "),
                &e.to_string(),
            ),
            ApiError::InvalidNotificationName(text, e) => joined(
                &joined3("`", text, "` is not a notification to bridge an event from: "),
                &e.to_string(),
            ),
            ApiError::InvalidColor(text) => joined3(
                "`",
                text,
                "` is not a colour: expected 0xaarrggbb, 0xrrggbb or \"#rrggbb\"",
            ),
            ApiError::InvalidPattern(text, why) => joined(
                &joined3("`", text, "` is not a valid item-name pattern: "),
                why,
            ),
            ApiError::NotRunning => "rsbar is not running".to_owned(),
            ApiError::Transport(why) => joined("lost contact with rsbar: ", why),
            ApiError::Rejected(why) => joined("rsbar rejected the request: ", why),
            ApiError::UnexpectedResponse(response) => joined3(
                "rsbar answered with ",
                response,
                ", which does not belong to this request",
            ),
        }
    }

    /// What a script is shown.
    pub fn to_lua(&self) -> (r: crate::lua::LuaError)
        ensures
            r@ == lua_fault(self@),
    {
        crate::lua::LuaError::Message(joined("rsbar: ", &self.to_string()))
    }
}

/// What a script is shown of a fault.
pub open spec fn lua_fault(fault: ApiFault) -> crate::lua::LuaFault {
    crate::lua::LuaFault::Message("rsbar: "@ + api_text(fault))
}

} // verus!
