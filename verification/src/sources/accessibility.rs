//! Noticing that a grant arrived, without being restarted.

use crate::event::{AccessibilityChange, Event, Topic};
use crate::source::{described, Described, SourceId};
use crate::sources::{describe, known};
use crate::text::{ends_with, joined, joined3, strip_suffix, text_views};
use vstd::prelude::*;

verus! {

/// Set in the environment of the process this one is replaced by, so that the
/// one attempt stays one attempt.
pub const RESTARTED: &'static str = "COOLABAH_AX_RESTARTED";

/// What asking after the grant came to.
#[derive(Debug, Clone, Copy, PartialEq, Eq, Structural)]
pub enum Grant {
    /// It is there and can be used.
    Usable,
    /// It is not there.
    NotTrusted,
    /// It is there, and this process cannot use it.
    ApiDisabled,
    /// There was nothing to ask against, which is no answer.
    NoFrontApp,
}

/// Whether the grant is there and can be used.
pub open spec fn is_usable(grant: Grant) -> bool {
    grant != Grant::NotTrusted && grant != Grant::ApiDisabled
}

/// Whether the grant is there and can be used.
pub fn usable(grant: Grant) -> (r: bool)
    ensures
        r == is_usable(grant),
{
    match grant {
        Grant::NotTrusted => false,
        Grant::ApiDisabled => false,
        _ => true,
    }
}

/// Where the grants are kept, below a directory.
pub open spec fn below(home: Seq<char>) -> Seq<char> {
    if home.len() == 0 {
        "Library/Application Support/com.apple.TCC"@
    } else if ends_with(home, "/"@) {
        home + "Library/Application Support/com.apple.TCC"@
    } else {
        home + "/"@ + "Library/Application Support/com.apple.TCC"@
    }
}

/// Where the grants are kept: the system's, and the user's own where there is
/// a user.
pub open spec fn grant_directories(home: Option<Seq<char>>) -> Seq<Seq<char>> {
    let system = "/Library/Application Support/com.apple.TCC"@;
    match home {
        None => seq![system],
        Some(home) => seq![system, below(home)],
    }
}

/// Where the grants are kept.
pub fn tcc_directories(home: Option<&str>) -> (r: Vec<String>)
    ensures
        text_views(r@) == grant_directories(
            match home {
                Some(home) => Some(home@),
                None => None,
            },
        ),
{
    let mut paths: Vec<String> = Vec::new();
    paths.push("/Library/Application Support/com.apple.TCC".to_owned());
    match home {
        Some(home) => {
            let path = if home.unicode_len() == 0 {
                "Library/Application Support/com.apple.TCC".to_owned()
            } else if strip_suffix(home, "/").is_some() {
                joined(home, "Library/Application Support/com.apple.TCC")
            } else {
                joined3(home, "/", "Library/Application Support/com.apple.TCC")
            };
            let ghost view = path@;
            paths.push(path);
            proof {
                assert(text_views(paths@) =~= grant_directories(Some(home@)));
            }
        },
        None => {
            proof {
                assert(text_views(paths@) =~= grant_directories(None));
            }
        },
    }
    paths
}

/// Whether this process may still replace itself, given whether it is what
/// another was replaced by.
pub fn may_replace(restarted: bool) -> (r: bool)
    ensures
        r == !restarted,
{
    !restarted
}

/// What to do about what asking came to.
#[derive(Debug, PartialEq)]
pub enum Check {
    /// Replace this process: the grant is there and this image cannot use it.
    Replace,
    /// Report that the grant changed.
    Report(Event),
    /// Nothing changed.
    Unchanged,
}

/// The source of accessibility events: what the grant was last.
#[derive(Debug, Clone, Copy, PartialEq, Eq, Structural)]
pub struct Accessibility {
    trusted: bool,
}

impl Accessibility {
    /// What the grant was last.
    pub closed spec fn last(&self) -> bool {
        self.trusted
    }

    /// What this source is called, and what it produces.
    pub fn describe() -> (r: Described)
        ensures
            described(r) == known("accessibility"@, seq![Topic::AccessibilityChanged], false),
    {
        let topics = vec![Topic::AccessibilityChanged];
        assert(topics@ =~= seq![Topic::AccessibilityChanged]);
        describe(SourceId("accessibility"), topics, false)
    }

    /// One that saw the grant as it is.
    pub fn new(grant: Grant) -> (r: Accessibility)
        ensures
            r.last() == is_usable(grant),
    {
        Accessibility { trusted: usable(grant) }
    }

    /// Says what to do about what asking came to: replace this process at most
    /// once, and else report the grant where it moved.
    pub fn check(&mut self, grant: Grant, restarted: bool) -> (r: Check)
        ensures
            if grant == Grant::ApiDisabled && !restarted {
                r is Replace && final(self).last() == old(self).last()
            } else {
                &&& final(self).last() == is_usable(grant)
                &&& match r {
                    Check::Replace => false,
                    Check::Report(event) => is_usable(grant) != old(self).last() && (
                    event matches Event::AccessibilityChanged(change) && change.trusted
                        == is_usable(grant)),
                    Check::Unchanged => is_usable(grant) == old(self).last(),
                }
            },
    {
        let disabled = match grant {
            Grant::ApiDisabled => true,
            _ => false,
        };
        if disabled && may_replace(restarted) {
            return Check::Replace;
        }
        let now = usable(grant);
        if self.trusted != now {
            self.trusted = now;
            Check::Report(Event::AccessibilityChanged(AccessibilityChange { trusted: now }))
        } else {
            Check::Unchanged
        }
    }
}

/// There is somewhere to watch whoever runs this, and twice where someone has
/// a home.
pub proof fn law_both_places_are_watched(home: Seq<char>)
    ensures
        grant_directories(None).len() == 1,
        grant_directories(Some(home)).len() == 2,
        grant_directories(Some(home))[0] == grant_directories(None)[0],
{
}

} // verus!
