//! One event source: what is wanted of it, and what to do about that.
//!
//! A source starts when the first thing wants an event it provides. When the
//! last one stops wanting it, it is held one pass before it is taken down.

use crate::event::{Event, KindView};
use crate::feed::{fresh_feed, Feed, FeedView};
use crate::kindset::KindSet;
use vstd::prelude::*;

verus! {

/// Names a source.
#[derive(Debug, Clone, Copy, PartialEq, Eq, Hash)]
pub struct SourceId(pub &'static str);

impl View for SourceId {
    type V = Seq<char>;

    open spec fn view(&self) -> Seq<char> {
        self.0@
    }
}

impl SourceId {
    /// Whether two names are one.
    pub fn same(&self, other: &SourceId) -> (r: bool)
        ensures
            r == (self@ == other@),
    {
        crate::text::same(self.0, other.0)
    }

    /// The name.
    pub fn to_string(&self) -> (r: String)
        ensures
            r@ == self@,
    {
        self.0.to_owned()
    }
}

/// Whether something is still wanted, or only waiting to be taken down.
#[derive(Debug, Clone, Copy, PartialEq, Eq, Structural)]
pub enum Liveness {
    /// Something wants it.
    Wanted,
    /// Nothing did, as of the last pass.
    Stale,
}

/// What a pass that finds a running source unwanted did about it.
#[derive(Debug, Clone, Copy, PartialEq, Eq, Structural)]
pub enum Evicting {
    /// Newly unwanted. Left registered and marked.
    Marked,
    /// Unwanted last pass too, so it came down this one.
    Swept,
    /// It was not running.
    Idle,
}

impl Liveness {
    /// Moves a running source one pass closer to being taken down, saying what
    /// that pass did.
    pub fn evict(&mut self) -> (r: Evicting)
        ensures
            *old(self) == Liveness::Wanted ==> r == Evicting::Marked && *final(self)
                == Liveness::Stale,
            *old(self) == Liveness::Stale ==> r == Evicting::Swept && *final(self)
                == Liveness::Wanted,
    {
        match *self {
            Liveness::Wanted => {
                *self = Liveness::Stale;
                Evicting::Marked
            },
            Liveness::Stale => {
                *self = Liveness::Wanted;
                Evicting::Swept
            },
        }
    }

    /// Notes that something wants this again, answering whether that was a
    /// rescue.
    pub fn revive(&mut self) -> (r: bool)
        ensures
            *final(self) == Liveness::Wanted,
            r == (*old(self) == Liveness::Stale),
    {
        let was = *self;
        *self = Liveness::Wanted;
        was == Liveness::Stale
    }
}

/// What has to be done about a source.
#[derive(Debug, PartialEq, Eq)]
pub enum Action {
    /// Nothing.
    Leave,
    /// Take it down.
    Stop,
    /// It is running: hand it a new set of events to produce.
    Update(KindSet),
    /// Register it for a set of events.
    Start(KindSet),
}

/// What has to be done about a source, over sets of kinds.
pub enum ActionView {
    Leave,
    Stop,
    Update(Set<KindView<()>>),
    Start(Set<KindView<()>>),
}

impl View for Action {
    type V = ActionView;

    open spec fn view(&self) -> ActionView {
        match self {
            Action::Leave => ActionView::Leave,
            Action::Stop => ActionView::Stop,
            Action::Update(kinds) => ActionView::Update(kinds@),
            Action::Start(kinds) => ActionView::Start(kinds@),
        }
    }
}

/// A source as the registry knows it.
pub struct SourceView {
    /// Its name.
    pub id: Seq<char>,
    /// What it produces whatever a config says.
    pub fixed: Set<KindView<()>>,
    /// Everything it can produce.
    pub provides: Set<KindView<()>>,
    /// What it is registered for right now.
    pub serving: Set<KindView<()>>,
    /// Whether anything still wants it.
    pub liveness: Liveness,
    /// Whether it runs whether or not anything wants it.
    pub pinned: bool,
    /// Whether it has refused. A source that has is not asked again.
    pub failed: bool,
    /// What it has produced, where it is running.
    pub feed: Option<FeedView>,
    /// What it has been asked to do and has not answered.
    pub due: ActionView,
}

impl SourceView {
    /// Whether it is registered with its framework.
    pub open spec fn running(self) -> bool {
        self.feed is Some
    }

    /// What is marked is running, what has refused is not, what is not running
    /// serves nothing, and what it is asked fits what it is.
    pub open spec fn wf(self) -> bool {
        &&& self.liveness == Liveness::Stale ==> self.running()
        &&& self.failed ==> !self.running()
        &&& self.running() <==> self.serving != Set::<KindView<()>>::empty()
        &&& match self.due {
            ActionView::Leave => true,
            ActionView::Stop => false,
            ActionView::Update(kinds) => self.running() && self.liveness == Liveness::Wanted
                && kinds != Set::<KindView<()>>::empty(),
            ActionView::Start(kinds) => !self.running() && !self.failed && kinds != Set::<
                KindView<()>,
            >::empty(),
        }
    }
}

/// What is wanted of a source: all it provides where it is pinned, and else
/// whatever of that is claimed.
pub open spec fn demanded(source: SourceView, claimed: Set<KindView<()>>) -> Set<KindView<()>> {
    if source.pinned {
        source.provides
    } else {
        source.provides.intersect(claimed)
    }
}

/// What is to be done about a source with these claims out.
pub open spec fn due_action(source: SourceView, claimed: Set<KindView<()>>) -> ActionView {
    let demand = demanded(source, claimed);
    if demand == Set::<KindView<()>>::empty() {
        if source.running() && source.liveness == Liveness::Stale {
            ActionView::Stop
        } else {
            ActionView::Leave
        }
    } else if source.running() && source.serving == demand {
        ActionView::Leave
    } else if source.failed {
        ActionView::Leave
    } else if source.running() {
        ActionView::Update(demand)
    } else {
        ActionView::Start(demand)
    }
}

/// A source after a pass over it with these claims out.
pub open spec fn reconciled(source: SourceView, claimed: Set<KindView<()>>) -> SourceView {
    let demand = demanded(source, claimed);
    let action = due_action(source, claimed);
    if demand == Set::<KindView<()>>::empty() {
        if !source.running() {
            SourceView { due: ActionView::Leave, ..source }
        } else if source.liveness == Liveness::Wanted {
            SourceView { liveness: Liveness::Stale, due: ActionView::Leave, ..source }
        } else {
            SourceView {
                liveness: Liveness::Wanted,
                feed: None,
                serving: Set::empty(),
                due: ActionView::Leave,
                ..source
            }
        }
    } else {
        SourceView { liveness: Liveness::Wanted, due: action, ..source }
    }
}

/// A source after it has answered what it was asked.
pub open spec fn answered(source: SourceView, accepted: bool) -> SourceView {
    match source.due {
        ActionView::Update(kinds) => if accepted {
            SourceView { serving: kinds, due: ActionView::Leave, ..source }
        } else {
            SourceView {
                failed: true,
                feed: None,
                serving: Set::empty(),
                due: ActionView::Leave,
                ..source
            }
        },
        ActionView::Start(kinds) => if accepted {
            SourceView {
                feed: Some(fresh_feed()),
                serving: kinds,
                due: ActionView::Leave,
                ..source
            }
        } else {
            SourceView { failed: true, serving: Set::empty(), due: ActionView::Leave, ..source }
        },
        _ => SourceView { due: ActionView::Leave, ..source },
    }
}

/// What a source is before anything is asked of it.
#[derive(Debug)]
pub struct Described {
    pub id: SourceId,
    pub provides: KindSet,
    pub eager: bool,
}

/// A source nothing has been asked of.
pub open spec fn described(source: Described) -> SourceView {
    SourceView {
        id: source.id@,
        fixed: source.provides@,
        provides: source.provides@,
        serving: Set::empty(),
        liveness: Liveness::Wanted,
        pinned: source.eager,
        failed: false,
        feed: None,
        due: ActionView::Leave,
    }
}

/// A source, and its feed once it is running.
#[derive(Debug)]
pub struct Registered {
    id: SourceId,
    fixed: KindSet,
    provides: KindSet,
    serving: KindSet,
    liveness: Liveness,
    pinned: bool,
    failed: bool,
    feed: Option<Feed>,
    due: Action,
}

impl View for Registered {
    type V = SourceView;

    closed spec fn view(&self) -> SourceView {
        SourceView {
            id: self.id@,
            fixed: self.fixed@,
            provides: self.provides@,
            serving: self.serving@,
            liveness: self.liveness,
            pinned: self.pinned,
            failed: self.failed,
            feed: match self.feed {
                Some(feed) => Some(feed@),
                None => None,
            },
            due: self.due@,
        }
    }
}

impl Registered {
    #[verifier::type_invariant]
    spec fn inv(self) -> bool {
        self.feed matches Some(feed) ==> feed.source() == self.id@
    }

    /// A source nothing has been asked of.
    pub fn new(source: Described) -> (r: Registered)
        ensures
            r@ == described(source),
            r@.wf(),
    {
        let fixed = source.provides.copied();
        Registered {
            id: source.id,
            fixed,
            provides: source.provides,
            serving: KindSet::new(),
            liveness: Liveness::Wanted,
            pinned: source.eager,
            failed: false,
            feed: None,
            due: Action::Leave,
        }
    }

    /// Its name.
    pub fn id(&self) -> (r: SourceId)
        ensures
            r@ == self@.id,
    {
        self.id
    }

    /// Whether it is registered with its framework.
    pub fn running(&self) -> (r: bool)
        ensures
            r == self@.running(),
    {
        self.feed.is_some()
    }

    /// Whether it runs whether or not anything wants it.
    pub fn eager(&self) -> (r: bool)
        ensures
            r == self@.pinned,
    {
        self.pinned
    }

    /// Whether it is a pass from being taken down.
    pub fn stale(&self) -> (r: bool)
        ensures
            r == (self@.liveness == Liveness::Stale),
    {
        self.liveness == Liveness::Stale
    }

    /// Everything it can produce.
    pub fn provides(&self) -> (r: &KindSet)
        ensures
            r@ == self@.provides,
    {
        &self.provides
    }

    /// What it produces whatever a config says.
    pub fn fixed(&self) -> (r: &KindSet)
        ensures
            r@ == self@.fixed,
    {
        &self.fixed
    }

    /// What it is registered for right now.
    pub fn serving(&self) -> (r: &KindSet)
        ensures
            r@ == self@.serving,
    {
        &self.serving
    }

    /// Everything still claimed that this source provides.
    pub fn demand(&self, claimed: &KindSet) -> (r: KindSet)
        ensures
            r@ == demanded(self@, claimed@),
    {
        if self.pinned {
            return self.provides.copied();
        }
        self.provides.intersection(claimed)
    }

    /// What this pass does about a source nothing wants any more.
    pub fn evict(&mut self) -> (r: Evicting)
        ensures
            !old(self)@.running() ==> r == Evicting::Idle && final(self)@ == old(self)@,
            old(self)@.running() && old(self)@.liveness == Liveness::Wanted ==> r
                == Evicting::Marked && final(self)@ == (SourceView {
                liveness: Liveness::Stale,
                ..old(self)@
            }),
            old(self)@.running() && old(self)@.liveness == Liveness::Stale ==> r
                == Evicting::Swept && final(self)@ == (SourceView {
                liveness: Liveness::Wanted,
                feed: None,
                serving: Set::empty(),
                ..old(self)@
            }),
    {
        proof {
            use_type_invariant(&*self);
        }
        if self.feed.is_none() {
            return Evicting::Idle;
        }
        let mut liveness = self.liveness;
        let outcome = liveness.evict();
        self.liveness = liveness;
        if outcome == Evicting::Swept {
            self.feed = None;
            self.serving = KindSet::new();
        }
        outcome
    }

    /// Brings the source into line with what is claimed, saying what has to be
    /// done about it.
    ///
    /// Nothing wants it and it is marked or stops; the set it is registered for
    /// is already right and it is left alone; or the set has changed and it is
    /// asked for the new one.
    pub fn reconcile(&mut self, claimed: &KindSet) -> (r: Action)
        ensures
            final(self)@ == reconciled(old(self)@, claimed@),
            r@ == due_action(old(self)@, claimed@),
    {
        proof {
            use_type_invariant(&*self);
        }
        let demand = self.demand(claimed);
        self.due = Action::Leave;
        if demand.is_empty() {
            return match self.evict() {
                Evicting::Swept => Action::Stop,
                _ => Action::Leave,
            };
        }
        let mut liveness = self.liveness;
        let _rescued = liveness.revive();
        self.liveness = liveness;
        if self.feed.is_some() && self.serving.same(&demand) {
            return Action::Leave;
        }
        if self.failed {
            return Action::Leave;
        }
        let again = demand.copied();
        if self.feed.is_some() {
            self.due = Action::Update(demand);
            Action::Update(again)
        } else {
            self.due = Action::Start(demand);
            Action::Start(again)
        }
    }

    /// Takes the source's answer to what it was asked.
    pub fn answer(&mut self, accepted: bool)
        ensures
            final(self)@ == answered(old(self)@, accepted),
    {
        proof {
            use_type_invariant(&*self);
        }
        let mut due = Action::Leave;
        std::mem::swap(&mut due, &mut self.due);
        match due {
            Action::Update(kinds) => {
                if accepted {
                    self.serving = kinds;
                } else {
                    self.failed = true;
                    self.feed = None;
                    self.serving = KindSet::new();
                }
            },
            Action::Start(kinds) => {
                if accepted {
                    self.feed = Some(Feed::manual(self.id));
                    self.serving = kinds;
                } else {
                    self.failed = true;
                    self.serving = KindSet::new();
                }
            },
            Action::Stop => {},
            Action::Leave => {},
        }
    }

    /// Says anew what the source can produce.
    pub fn set_provides(&mut self, now: KindSet)
        ensures
            final(self)@ == (SourceView { provides: now@, ..old(self)@ }),
    {
        proof {
            use_type_invariant(&*self);
        }
        self.provides = now;
    }

    /// Queues an event, where the source is running.
    pub fn send(&mut self, event: Event) -> (r: bool)
        ensures
            r == old(self)@.running(),
            !r ==> final(self)@ == old(self)@,
            old(self)@.feed matches Some(feed) ==> final(self)@ == (SourceView {
                feed: Some(crate::feed::sent(feed, event)),
                ..old(self)@
            }),
    {
        proof {
            use_type_invariant(&*self);
        }
        let mut taken: Option<Feed> = None;
        std::mem::swap(&mut taken, &mut self.feed);
        match taken {
            Some(mut feed) => {
                feed.send(event);
                self.feed = Some(feed);
                true
            },
            None => false,
        }
    }

    /// Gives the source its turn, where it is running.
    pub fn turn(&mut self, into: &mut Vec<(SourceId, Event)>) -> (r: Option<crate::feed::Backlog>)
        ensures
            r is Some == old(self)@.running(),
            r is None ==> final(self)@ == old(self)@ && final(into)@ == old(into)@,
            old(self)@.feed matches Some(feed) ==> {
                &&& final(self)@ == (SourceView {
                    feed: Some(crate::feed::after_turn(feed)),
                    ..old(self)@
                })
                &&& crate::feed::tagged(final(into)@) == crate::feed::tagged(old(into)@)
                    + crate::feed::from_source(old(self)@.id, crate::feed::handed(feed))
                &&& r->0.queued == (crate::feed::after_turn(feed).queued.len() > 0)
                &&& r->0.warning is Some <==> crate::feed::reports(feed)
                &&& r->0.warning matches Some(depth) ==> depth == crate::feed::after_turn(
                    feed,
                ).queued.len()
            },
    {
        proof {
            use_type_invariant(&*self);
        }
        let mut taken: Option<Feed> = None;
        std::mem::swap(&mut taken, &mut self.feed);
        match taken {
            Some(mut feed) => {
                let backlog = feed.turn(into);
                self.feed = Some(feed);
                Some(backlog)
            },
            None => None,
        }
    }
}

/// A pass over a source and its answer both leave it well formed.
pub proof fn law_a_source_stays_well_formed(
    source: SourceView,
    claimed: Set<KindView<()>>,
    accepted: bool,
)
    requires
        source.wf(),
    ensures
        reconciled(source, claimed).wf(),
        answered(source, accepted).wf(),
{
}

/// A source is never taken down by the pass in which its last claim goes: that
/// pass marks it, and only a second one with still nothing wanted stops it.
pub proof fn law_a_source_is_held_a_pass(source: SourceView, claimed: Set<KindView<()>>)
    requires
        source.wf(),
        source.running(),
        source.liveness == Liveness::Wanted,
        demanded(source, claimed) == Set::<KindView<()>>::empty(),
    ensures
        due_action(source, claimed) == ActionView::Leave,
        reconciled(source, claimed).feed == source.feed,
        reconciled(source, claimed).serving == source.serving,
        due_action(reconciled(source, claimed), claimed) == ActionView::Stop,
        !reconciled(reconciled(source, claimed), claimed).running(),
{
}

/// A claim taken before the second pass revives the source where it stands,
/// with its registration and whatever it has queued untouched.
pub proof fn law_a_claim_in_between_revives(
    source: SourceView,
    gone: Set<KindView<()>>,
    back: Set<KindView<()>>,
)
    requires
        source.wf(),
        source.running(),
        source.liveness == Liveness::Wanted,
        demanded(source, gone) == Set::<KindView<()>>::empty(),
        demanded(source, back) == source.serving,
    ensures
        due_action(reconciled(source, gone), back) == ActionView::Leave,
        reconciled(reconciled(source, gone), back) == (SourceView {
            due: ActionView::Leave,
            ..source
        }),
{
}

/// Once a source has accepted what it was asked, a second pass with the same
/// claims has nothing to ask; and a source that refused is never asked again
/// by any pass.
pub proof fn law_reconciling_settles(
    source: SourceView,
    claimed: Set<KindView<()>>,
    later: Set<KindView<()>>,
)
    requires
        source.wf(),
        demanded(source, claimed) != Set::<KindView<()>>::empty(),
    ensures
        due_action(answered(reconciled(source, claimed), true), claimed) == ActionView::Leave,
        due_action(source, claimed) != ActionView::Leave ==> due_action(
            answered(reconciled(source, claimed), false),
            later,
        ) == ActionView::Leave,
        source.failed ==> due_action(source, later) == ActionView::Leave,
{
}

/// A pinned source is asked for everything it provides, whatever is claimed,
/// and nothing takes it down.
pub proof fn law_a_pinned_source_stays(source: SourceView, claimed: Set<KindView<()>>)
    requires
        source.wf(),
        source.pinned,
        source.provides != Set::<KindView<()>>::empty(),
    ensures
        demanded(source, claimed) == source.provides,
        due_action(source, claimed) != ActionView::Stop,
        source.running() ==> reconciled(source, claimed).running(),
{
}

} // verus!
