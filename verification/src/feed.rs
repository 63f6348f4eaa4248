//! What a source has produced and nobody has taken yet.
//!
//! Nothing queued is ever refused or dropped. One turn is bounded, so that no
//! source can spend another's, and what a turn leaves behind is still queued.

use crate::event::Event;
use crate::source::SourceId;
use std::collections::VecDeque;
use vstd::prelude::*;

verus! {

/// How deep a backlog may get before it is worth saying so. Nothing is refused
/// past it.
pub const HIGH_WATER: usize = 256;

/// How many events one source hands over in a turn.
pub const DRAIN_BUDGET: usize = 32;

/// What a feed holds.
pub struct FeedView {
    /// Events nobody has taken, the oldest first.
    pub queued: Seq<Event>,
    /// Whether the backlog has been reported.
    pub warned: bool,
}

/// How many events a turn takes.
pub open spec fn turn_len(feed: FeedView) -> int {
    if feed.queued.len() < DRAIN_BUDGET {
        feed.queued.len() as int
    } else {
        DRAIN_BUDGET as int
    }
}

/// What a turn hands over: the oldest events, up to the budget.
pub open spec fn handed(feed: FeedView) -> Seq<Event> {
    feed.queued.take(turn_len(feed))
}

/// What a turn leaves.
pub open spec fn after_turn(feed: FeedView) -> FeedView {
    let left = feed.queued.skip(turn_len(feed));
    FeedView { queued: left, warned: left.len() >= HIGH_WATER }
}

/// Whether a turn finds a backlog that has not been reported.
pub open spec fn reports(feed: FeedView) -> bool {
    after_turn(feed).queued.len() >= HIGH_WATER && !feed.warned
}

/// A feed with one more event.
pub open spec fn sent(feed: FeedView, event: Event) -> FeedView {
    FeedView { queued: feed.queued.push(event), ..feed }
}

/// A feed nothing has been written into.
pub open spec fn fresh_feed() -> FeedView {
    FeedView { queued: Seq::empty(), warned: false }
}

/// What was left of a source's queue after a look at it.
#[derive(Debug, Clone, Copy, PartialEq, Eq, Structural)]
pub struct Backlog {
    /// Whether anything is still queued.
    pub queued: bool,
    /// How much, where the backlog is deep and this is the first look to find
    /// it so.
    pub warning: Option<usize>,
}

/// The events a source has produced, oldest first.
#[derive(Debug)]
pub struct Feed {
    id: SourceId,
    events: VecDeque<Event>,
    warned: bool,
}

impl View for Feed {
    type V = FeedView;

    closed spec fn view(&self) -> FeedView {
        FeedView { queued: self.events@, warned: self.warned }
    }
}

impl Feed {
    /// The source that writes into this.
    pub closed spec fn source(&self) -> Seq<char> {
        self.id@
    }

    /// A feed nothing has been written into.
    pub fn manual(id: SourceId) -> (r: Feed)
        ensures
            r@ == fresh_feed(),
            r.source() == id@,
    {
        Feed { id, events: VecDeque::new(), warned: false }
    }

    /// The source that writes into this.
    pub fn id(&self) -> (r: SourceId)
        ensures
            r@ == self.source(),
    {
        self.id
    }

    /// Queues an event.
    pub fn send(&mut self, event: Event)
        ensures
            final(self)@ == sent(old(self)@, event),
            final(self).source() == old(self).source(),
    {
        self.events.push_back(event);
    }

    /// The oldest event, where one is queued.
    pub fn try_next(&mut self) -> (r: Option<Event>)
        ensures
            old(self)@.queued.len() == 0 ==> r is None && final(self)@ == old(self)@,
            old(self)@.queued.len() > 0 ==> r == Some(old(self)@.queued[0]) && final(self)@ == (
            FeedView { queued: old(self)@.queued.skip(1), ..old(self)@ }),
            final(self).source() == old(self).source(),
    {
        let r = self.events.pop_front();
        proof {
            if old(self)@.queued.len() > 0 {
                assert(self@.queued =~= old(self)@.queued.skip(1));
            }
        }
        r
    }

    /// Whether anything is still queued, and once per backlog how deep it has
    /// grown. What is reported is forgotten as the backlog clears.
    pub fn backlogged(&mut self) -> (r: Backlog)
        ensures
            r.queued == (old(self)@.queued.len() > 0),
            r.warning is Some <==> old(self)@.queued.len() >= HIGH_WATER && !old(self)@.warned,
            r.warning matches Some(depth) ==> depth == old(self)@.queued.len(),
            final(self)@ == (FeedView {
                warned: old(self)@.queued.len() >= HIGH_WATER,
                ..old(self)@
            }),
            final(self).source() == old(self).source(),
    {
        let queued: usize = self.events.len();
        let warning: Option<usize> = if queued >= HIGH_WATER && !self.warned {
            Some(queued)
        } else {
            None
        };
        self.warned = queued >= HIGH_WATER;
        Backlog { queued: queued > 0, warning }
    }

    /// Takes a turn: hands over the oldest events up to the budget, and says
    /// what is left.
    pub fn turn(&mut self, into: &mut Vec<(SourceId, Event)>) -> (r: Backlog)
        ensures
            final(self)@ == after_turn(old(self)@),
            final(self).source() == old(self).source(),
            tagged(final(into)@) == tagged(old(into)@) + from_source(
                old(self).source(),
                handed(old(self)@),
            ),
            r.queued == (after_turn(old(self)@).queued.len() > 0),
            r.warning is Some <==> reports(old(self)@),
            r.warning matches Some(depth) ==> depth == after_turn(old(self)@).queued.len(),
    {
        let ghost all = self@.queued;
        let ghost start = into@;
        let ghost source = self.source();
        let mut taken: usize = 0;
        proof {
            assert(all.skip(0) =~= all);
            assert(from_source(source, all.take(0)) =~= Seq::<(Seq<char>, Event)>::empty());
            assert(tagged(start) + from_source(source, all.take(0)) =~= tagged(start));
        }
        while taken < DRAIN_BUDGET
            invariant
                taken <= DRAIN_BUDGET,
                taken <= all.len(),
                self@.queued == all.skip(taken as int),
                self@.warned == old(self)@.warned,
                self.source() == source,
                tagged(into@) == tagged(start) + from_source(source, all.take(taken as int)),
            ensures
                taken == DRAIN_BUDGET || taken == all.len(),
            decreases DRAIN_BUDGET - taken,
        {
            match self.try_next() {
                Some(event) => {
                    let ghost before = into@;
                    into.push((self.id, event));
                    proof {
                        assert(tagged(into@) =~= tagged(before).push((source, event)));
                        assert(all.skip(taken as int)[0] == all[taken as int]);
                        assert(all.skip(taken as int).skip(1) =~= all.skip(taken + 1));
                        assert(from_source(source, all.take(taken + 1)) =~= from_source(
                            source,
                            all.take(taken as int),
                        ).push((source, event)));
                        assert(tagged(into@) =~= tagged(start) + from_source(
                            source,
                            all.take(taken + 1),
                        ));
                    }
                    taken = taken + 1;
                },
                None => {
                    break ;
                },
            }
        }
        proof {
            assert(taken == turn_len(old(self)@));
        }
        self.backlogged()
    }
}

/// Events with the names of the sources that produced them.
pub open spec fn tagged(list: Seq<(SourceId, Event)>) -> Seq<(Seq<char>, Event)> {
    list.map_values(|p: (SourceId, Event)| (p.0@, p.1))
}

/// Events of one source.
pub open spec fn from_source(id: Seq<char>, events: Seq<Event>) -> Seq<(Seq<char>, Event)> {
    events.map_values(|e: Event| (id, e))
}

/// A turn loses nothing and keeps the order: what it hands over followed by
/// what it leaves is what was queued.
pub proof fn law_a_turn_loses_nothing(feed: FeedView)
    ensures
        handed(feed) + after_turn(feed).queued == feed.queued,
{
    assert(handed(feed) + after_turn(feed).queued =~= feed.queued);
}

/// A turn hands over something wherever anything is queued, and never more than
/// the budget, so that no source waits on another's burst.
pub proof fn law_a_turn_is_bounded_and_useful(feed: FeedView)
    ensures
        handed(feed).len() <= DRAIN_BUDGET,
        feed.queued.len() > 0 ==> handed(feed).len() > 0,
{
}

/// A backlog is reported once as it forms, and again only after it has cleared.
pub proof fn law_a_backlog_is_reported_once(feed: FeedView)
    ensures
        reports(feed) ==> after_turn(feed).warned && !reports(after_turn(feed)),
        after_turn(feed).queued.len() < HIGH_WATER ==> !after_turn(feed).warned,
{
}

} // verus!
