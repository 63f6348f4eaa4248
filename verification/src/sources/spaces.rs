//! Spaces changing, and windows moving between them.

use crate::event::{Event, SpaceChange, SpaceWindowsChange, Topic};
use crate::source::{described, Described, SourceId};
use crate::sources::{describe, known};
use vstd::prelude::*;

verus! {

/// The active space changed, on some display.
pub const SPACE_CHANGED_EVENT: u32 = 1401;

/// A window joined a space.
pub const SPACE_WINDOW_CREATED_EVENT: u32 = 1325;

/// A window left a space.
pub const SPACE_WINDOW_DESTROYED_EVENT: u32 = 1326;

/// Several windows moved spaces at once.
pub const SPACE_WINDOW_BATCH_REASSOCIATED_EVENT: u32 = 1339;

/// The number eight bytes are, the least of them first.
pub open spec fn eight_bytes(b: Seq<u8>) -> int {
    b[0] + 0x100 * b[1] + 0x1_0000 * b[2] + 0x100_0000 * b[3] + 0x1_0000_0000 * b[4]
        + 0x100_0000_0000 * b[5] + 0x1_0000_0000_0000 * b[6] + 0x100_0000_0000_0000 * b[7]
}

/// The space a payload begins with, where it is long enough to.
pub open spec fn space_of(payload: Seq<u8>) -> Option<int> {
    if payload.len() >= 8 {
        Some(eight_bytes(payload))
    } else {
        None
    }
}

/// The space a payload begins with, least byte first as on every machine there
/// is such a payload on.
pub fn leading_space_id(payload: &[u8]) -> (r: Option<u64>)
    ensures
        match r {
            Some(space) => space_of(payload@) == Some(space as int),
            None => space_of(payload@) is None,
        },
{
    if payload.len() < 8 {
        return None;
    }
    let low: u64 = payload[0] as u64 + 0x100 * (payload[1] as u64) + 0x1_0000 * (payload[2] as u64)
        + 0x100_0000 * (payload[3] as u64);
    let high: u64 = payload[4] as u64 + 0x100 * (payload[5] as u64) + 0x1_0000 * (payload[6] as u64)
        + 0x100_0000 * (payload[7] as u64);
    Some(low + 0x1_0000_0000 * high)
}

/// What is reported of a space change, given which display's menu bar is
/// active and which space it is on.
pub fn space_changed(active: Option<(u32, u64)>) -> (r: Option<Event>)
    ensures
        match active {
            None => r is None,
            Some((display, space)) => r matches Some(Event::SpaceChanged(change)) && change.display
                == display && change.space == space,
        },
{
    match active {
        Some((display, space)) => Some(Event::SpaceChanged(SpaceChange { display, space })),
        None => None,
    }
}

/// What is reported of windows moving between spaces.
pub fn space_windows_changed(payload: &[u8]) -> (r: Option<Event>)
    ensures
        match space_of(payload@) {
            None => r is None,
            Some(space) => r matches Some(Event::SpaceWindowsChanged(change)) && change.space
                == space,
        },
{
    match leading_space_id(payload) {
        Some(space) => Some(Event::SpaceWindowsChanged(SpaceWindowsChange { space })),
        None => None,
    }
}

/// What an event number is, where it is one this source asks for.
#[derive(Debug, Clone, Copy, PartialEq, Eq, Structural)]
pub enum Notice {
    /// The active space changed.
    Changed,
    /// Windows moved between spaces.
    Windows,
}

/// What an event number is.
pub open spec fn notice_of(event: u32) -> Option<Notice> {
    if event == SPACE_CHANGED_EVENT {
        Some(Notice::Changed)
    } else if event == SPACE_WINDOW_CREATED_EVENT || event == SPACE_WINDOW_DESTROYED_EVENT || event
        == SPACE_WINDOW_BATCH_REASSOCIATED_EVENT {
        Some(Notice::Windows)
    } else {
        None
    }
}

/// The source of space events.
#[derive(Debug, Clone, Copy, PartialEq, Eq, Structural)]
pub struct Spaces;

impl Spaces {
    /// What this source is called, and what it produces.
    pub fn describe() -> (r: Described)
        ensures
            described(r) == known(
                "spaces"@,
                seq![Topic::SpaceChanged, Topic::SpaceWindowsChanged],
                false,
            ),
    {
        let topics = vec![Topic::SpaceChanged, Topic::SpaceWindowsChanged];
        assert(topics@ =~= seq![Topic::SpaceChanged, Topic::SpaceWindowsChanged]);
        describe(SourceId("spaces"), topics, false)
    }

    /// The event numbers to register for.
    pub fn numbers(&self) -> (r: Vec<u32>)
        ensures
            r@.no_duplicates(),
            forall|event: u32| #[trigger] r@.contains(event) <==> notice_of(event) is Some,
    {
        let r: Vec<u32> = vec![
            SPACE_CHANGED_EVENT,
            SPACE_WINDOW_CREATED_EVENT,
            SPACE_WINDOW_DESTROYED_EVENT,
            SPACE_WINDOW_BATCH_REASSOCIATED_EVENT,
        ];
        proof {
            let s = r@;
            assert(s[0] == 1401 && s[1] == 1325 && s[2] == 1326 && s[3] == 1339);
            assert(s.contains(s[0]) && s.contains(s[1]) && s.contains(s[2]) && s.contains(s[3]));
        }
        r
    }

    /// What an event number is, where it is one this source asks for.
    pub fn notice(event: u32) -> (r: Option<Notice>)
        ensures
            r == notice_of(event),
    {
        if event == SPACE_CHANGED_EVENT {
            Some(Notice::Changed)
        } else if event == SPACE_WINDOW_CREATED_EVENT || event == SPACE_WINDOW_DESTROYED_EVENT
            || event == SPACE_WINDOW_BATCH_REASSOCIATED_EVENT {
            Some(Notice::Windows)
        } else {
            None
        }
    }
}

/// A payload's tail says nothing of the space it begins with.
pub proof fn law_only_the_start_is_read(payload: Seq<u8>, tail: Seq<u8>)
    requires
        payload.len() >= 8,
    ensures
        space_of(payload + tail) == space_of(payload),
{
}

} // verus!
