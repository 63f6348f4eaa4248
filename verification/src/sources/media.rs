//! What is playing.
//!
//! The calls that would say succeed and produce nothing for a process without
//! the entitlement, so this refuses to start rather than never to report.

use crate::event::Topic;
use crate::source::{described, Described, SourceId};
use crate::sources::cause::{Cause, CauseView, StartError};
use crate::sources::{describe, known};
use vstd::prelude::*;

verus! {

/// The source of media events.
#[derive(Debug, Clone, Copy, PartialEq, Eq, Structural)]
pub struct Media;

impl Media {
    /// What this source is called, and what it produces.
    pub fn describe() -> (r: Described)
        ensures
            described(r) == known("media"@, seq![Topic::MediaChanged], false),
    {
        let topics = vec![Topic::MediaChanged];
        assert(topics@ =~= seq![Topic::MediaChanged]);
        describe(SourceId("media"), topics, false)
    }

    /// Refuses to start, loudly.
    pub fn run(&self) -> (r: Result<(), StartError>)
        ensures
            r matches Err(e) && e.id@ == "media"@ && e.cause@ == CauseView::MediaRemoteBlocked,
    {
        Err(StartError::new(SourceId("media"), Cause::MediaRemoteBlocked))
    }
}

} // verus!
