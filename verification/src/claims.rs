//! Who wants which events, and for how long.
//!
//! A claim is held by handles. It is wanted for exactly as long as a handle on
//! it is out, and an occurrence goes to exactly those who hold one.

use crate::assoc::{
    holds, lemma_mapped_at, lemma_mapped_names, lemma_mapped_push, lemma_mapped_remove, mapped,
    unique,
};
use crate::event::{event_kind, Event, Kind, KindView};
use crate::kindset::KindSet;
use vstd::prelude::*;

verus! {

/// A rectangle on a display, by the bits of its measurements.
#[derive(Debug, Clone, Copy, PartialEq, Eq, Hash, PartialOrd, Ord, Structural)]
pub struct Area {
    pub display: u32,
    pub x: u64,
    pub y: u64,
    pub width: u64,
    pub height: u64,
}

/// What a claim on an event of one item is bound to: the item, and the
/// rectangle it was standing on where the claim is on the pointer over it.
///
/// The rectangle is part of what the claim is. An item that moves holds a
/// different claim.
#[derive(Debug, Clone, Copy, PartialEq, Eq, Hash, PartialOrd, Ord, Structural)]
pub struct Watched {
    pub item: u64,
    pub area: Option<Area>,
}

impl Watched {
    /// An item's claim on an event, wherever it happens to be.
    pub fn item(item: u64) -> (r: Watched)
        ensures
            r == (Watched { item, area: None }),
    {
        Watched { item, area: None }
    }

    /// An item's claim on the pointer over one rectangle.
    pub fn over(item: u64, area: Area) -> (r: Watched)
        ensures
            r == (Watched { item, area: Some(area) }),
    {
        Watched { item, area: Some(area) }
    }
}

/// Where an event is delivered.
#[derive(Debug, Clone, Copy, PartialEq, Eq, Hash, PartialOrd, Ord, Structural)]
pub enum Target {
    /// Wherever it happened, to whoever is watching.
    All,
}

/// What a claim is on.
pub type KeyView = (KindView<Watched>, Target);

/// Who holds a claim, each with how many handles, in the order they took their
/// first.
pub type HeldView = Seq<(u64, u64)>;

/// The claims out, and what has been noted of their coming and going.
pub struct ClaimsView {
    /// Who holds each claim.
    pub live: Map<KeyView, HeldView>,
    /// Whether a claim was taken or died since this was last asked.
    pub moved: bool,
    /// How often a claim was taken or died, around a clock of 64 bits.
    pub generation: u64,
    /// The generation the rectangles were last read at.
    pub projected: u64,
    /// The rectangles as they were last read.
    pub areas: Set<Area>,
    /// Whether the clock has ever gone round.
    pub wrapped: bool,
}

impl ClaimsView {
    /// Every claim is held, and rectangles read since the last change are the
    /// rectangles claimed, for as long as the clock has not gone round.
    pub open spec fn wf(self) -> bool {
        &&& all_held(self.live)
        &&& !self.wrapped ==> self.projected <= self.generation
        &&& !self.wrapped && self.projected == self.generation ==> self.areas == areas_of(self.live)
    }
}

/// No claims.
pub open spec fn no_claims() -> ClaimsView {
    ClaimsView {
        live: Map::empty(),
        moved: false,
        generation: 0,
        projected: 0,
        areas: Set::empty(),
        wrapped: false,
    }
}

/// A change noted.
pub open spec fn ticked(v: ClaimsView) -> ClaimsView {
    ClaimsView {
        moved: true,
        generation: if v.generation == u64::MAX {
            0
        } else {
            (v.generation + 1) as u64
        },
        wrapped: v.wrapped || v.generation == u64::MAX,
        ..v
    }
}

/// The claims after one more handle is taken. A claim already out is shared,
/// and nothing moves.
pub open spec fn taken(v: ClaimsView, key: KeyView, who: u64) -> ClaimsView {
    let after = ClaimsView { live: after_take(v.live, key, who), ..v };
    if v.live.contains_key(key) {
        after
    } else {
        ticked(after)
    }
}

/// The claims after a handle is given back. The last one takes the claim with
/// it, and that is a change.
pub open spec fn released(v: ClaimsView, key: KeyView, who: u64) -> ClaimsView {
    let after = ClaimsView { live: after_release(v.live, key, who), ..v };
    if v.live.contains_key(key) && given_back(v.live[key], who).len() == 0 {
        ticked(after)
    } else {
        after
    }
}

/// The claims after the change is asked for.
pub open spec fn asked(v: ClaimsView) -> ClaimsView {
    ClaimsView { moved: false, ..v }
}

/// The claims after the rectangles are read, which happens only where the clock
/// has moved on.
pub open spec fn projected(v: ClaimsView) -> ClaimsView {
    if v.generation == v.projected {
        v
    } else {
        ClaimsView { projected: v.generation, areas: areas_of(v.live), ..v }
    }
}

/// A kind with whoever claims it bound in, where it happens to one item.
pub open spec fn bound(kind: KindView<()>, who: Watched) -> KindView<Watched> {
    match kind {
        KindView::Plain(topic) => KindView::Plain(topic),
        KindView::Scoped(topic, _) => KindView::Scoped(topic, who),
        KindView::Custom(name) => KindView::Custom(name),
    }
}

/// The claim a handle is taken on.
pub open spec fn claim_on(kind: KindView<()>, who: Watched, target: Target) -> KeyView {
    (bound(kind, who), target)
}

/// A kind without whoever claims it.
pub open spec fn erased(kind: KindView<Watched>) -> KindView<()> {
    match kind {
        KindView::Plain(topic) => KindView::Plain(topic),
        KindView::Scoped(topic, _) => KindView::Scoped(topic, ()),
        KindView::Custom(name) => KindView::Custom(name),
    }
}

/// Where somebody stands among the holders.
pub open spec fn place_of(held: HeldView, who: u64) -> Option<int>
    decreases held.len(),
{
    if held.len() == 0 {
        None
    } else {
        match place_of(held.drop_last(), who) {
            Some(i) => Some(i),
            None => if held.last().0 == who {
                Some(held.len() - 1)
            } else {
                None
            },
        }
    }
}

/// How many handles somebody has out.
pub open spec fn handles_of(held: HeldView, who: u64) -> nat {
    match place_of(held, who) {
        Some(i) => held[i].1 as nat,
        None => 0,
    }
}

/// How many handles are out.
pub open spec fn all_handles(held: HeldView) -> nat
    decreases held.len(),
{
    if held.len() == 0 {
        0
    } else {
        all_handles(held.drop_last()) + held.last().1 as nat
    }
}

/// The holders after somebody took one more handle.
pub open spec fn remembered(held: HeldView, who: u64) -> HeldView {
    match place_of(held, who) {
        Some(i) => held.update(i, (who, (held[i].1 + 1) as u64)),
        None => held.push((who, 1)),
    }
}

/// The holders after somebody gave a handle back, who is one for as long as
/// another is out.
pub open spec fn given_back(held: HeldView, who: u64) -> HeldView {
    match place_of(held, who) {
        Some(i) => if held[i].1 > 1 {
            held.update(i, (who, (held[i].1 - 1) as u64))
        } else {
            held.remove(i)
        },
        None => held,
    }
}

/// The holders, without how many handles they have.
pub open spec fn holders(held: HeldView) -> Seq<u64> {
    held.map_values(|holder: (u64, u64)| holder.0)
}

/// A claim has a holder, each holder stands on it once, and each has a handle
/// out.
pub open spec fn is_held(held: HeldView) -> bool {
    &&& held.len() > 0
    &&& forall|i: int| 0 <= i < held.len() ==> (#[trigger] held[i]).1 > 0
    &&& forall|i: int, j: int|
        0 <= i < j < held.len() ==> (#[trigger] held[i]).0 != (#[trigger] held[j]).0
}

/// Every claim is held.
pub open spec fn all_held(live: Map<KeyView, HeldView>) -> bool {
    forall|key: KeyView| #[trigger] live.contains_key(key) ==> is_held(live[key])
}

/// How many handles on a claim somebody has out.
pub open spec fn handles_out(live: Map<KeyView, HeldView>, key: KeyView, who: u64) -> nat {
    if live.contains_key(key) {
        handles_of(live[key], who)
    } else {
        0
    }
}

/// The kinds that are claimed by somebody.
pub open spec fn kinds_of(live: Map<KeyView, HeldView>) -> Set<KindView<()>> {
    Set::new(|kind: KindView<()>| exists|key: KeyView| #[trigger] live.contains_key(key) && erased(key.0) == kind)
}

/// The claims after one more handle is taken.
pub open spec fn after_take(live: Map<KeyView, HeldView>, key: KeyView, who: u64) -> Map<
    KeyView,
    HeldView,
> {
    if live.contains_key(key) {
        live.insert(key, remembered(live[key], who))
    } else {
        live.insert(key, seq![(who, 1u64)])
    }
}

/// The claims after one handle goes.
pub open spec fn after_release(live: Map<KeyView, HeldView>, key: KeyView, who: u64) -> Map<
    KeyView,
    HeldView,
> {
    if !live.contains_key(key) {
        live
    } else if given_back(live[key], who).len() == 0 {
        live.remove(key)
    } else {
        live.insert(key, given_back(live[key], who))
    }
}

/// A handle on a claim. Whoever holds it is delivered to, and giving it back
/// is what stops that.
#[derive(Debug, PartialEq, Eq)]
pub struct Watch {
    kind: Kind<()>,
    owner: u64,
    claim: Kind<Watched>,
    target: Target,
}

impl Watch {
    /// What the claim this is a handle on is on.
    pub closed spec fn key(&self) -> KeyView {
        (self.claim@, self.target)
    }

    /// Who holds the handle.
    pub closed spec fn owner(&self) -> u64 {
        self.owner
    }

    /// The event it is a handle on.
    pub closed spec fn watched(&self) -> KindView<()> {
        self.kind@
    }

    /// The event this is a claim on.
    pub fn kind(&self) -> (r: &Kind<()>)
        ensures
            r@ == self.watched(),
    {
        &self.kind
    }

    /// Whether two handles are on one claim.
    pub fn same_claim(&self, other: &Watch) -> (r: bool)
        ensures
            r == (self.key() == other.key()),
    {
        same_kind(&self.claim, &other.claim) && self.target == other.target
    }
}

/// Whether two bound kinds are one.
fn same_kind(a: &Kind<Watched>, b: &Kind<Watched>) -> (r: bool)
    ensures
        r == (a@ == b@),
{
    match (a, b) {
        (Kind::Custom(x), Kind::Custom(y)) => crate::text::same(x, y),
        _ => {
            let topics = match (a.topic(), b.topic()) {
                (Some(x), Some(y)) => x == y,
                _ => false,
            };
            let items = match (a.item(), b.item()) {
                (Some(x), Some(y)) => *x == *y,
                (None, None) => true,
                _ => false,
            };
            topics && items
        },
    }
}

/// A kind with whoever claims it bound in.
fn bind(kind: &Kind<()>, who: Watched) -> (r: Kind<Watched>)
    ensures
        r@ == bound(kind@, who),
{
    let with = |_unit: ()| -> (w: Watched)
        ensures
            w == who,
        { who };
    kind.copied().map(with)
}

/// A kind without whoever claims it.
fn erase(kind: &Kind<Watched>) -> (r: Kind<()>)
    ensures
        r@ == erased(kind@),
{
    match kind.topic() {
        Some(topic) => {
            proof {
                assert(crate::event::topic_scoped(topic) <==> kind@ is Scoped);
            }
            Kind::of(topic)
        },
        None => match kind {
            Kind::Custom(name) => Kind::Custom(name.clone()),
            _ => Kind::Routine,
        },
    }
}

/// One claim: what it is on, and who holds it.
#[derive(Debug, PartialEq, Eq)]
struct Claim {
    kind: Kind<Watched>,
    target: Target,
    dependents: Vec<(u64, u64)>,
}

impl Claim {
    spec fn pair(&self) -> (KeyView, HeldView) {
        ((self.kind@, self.target), self.dependents@)
    }

    /// Counts a handle of somebody, who stands on the list once.
    fn remember(&mut self, who: u64)
        requires
            handles_of(old(self).dependents@, who) < u64::MAX,
        ensures
            final(self).dependents@ == remembered(old(self).dependents@, who),
            final(self).kind == old(self).kind,
            final(self).target == old(self).target,
    {
        match placed(&self.dependents, who) {
            Some(i) => {
                let count: u64 = self.dependents[i].1;
                self.dependents.set(i, (who, count + 1));
            },
            None => {
                self.dependents.push((who, 1));
            },
        }
    }

    /// Discounts a handle of somebody, who leaves the list with the last.
    fn forget(&mut self, who: u64)
        ensures
            final(self).dependents@ == given_back(old(self).dependents@, who),
            final(self).kind == old(self).kind,
            final(self).target == old(self).target,
    {
        if let Some(i) = placed(&self.dependents, who) {
            let count: u64 = self.dependents[i].1;
            if count > 1 {
                self.dependents.set(i, (who, count - 1));
            } else {
                self.dependents.remove(i);
            }
        }
    }
}

/// Where somebody stands is where they are found first.
proof fn lemma_place_of(held: HeldView, who: u64)
    ensures
        match place_of(held, who) {
            Some(i) => 0 <= i < held.len() && held[i].0 == who && forall|j: int|
                0 <= j < i ==> (#[trigger] held[j]).0 != who,
            None => forall|j: int| 0 <= j < held.len() ==> (#[trigger] held[j]).0 != who,
        },
    decreases held.len(),
{
    if held.len() > 0 {
        let short = held.drop_last();
        lemma_place_of(short, who);
        assert forall|j: int| 0 <= j < short.len() implies #[trigger] held[j] == short[j] by {}
    }
}

/// Where somebody stands.
fn placed(list: &Vec<(u64, u64)>, who: u64) -> (r: Option<usize>)
    ensures
        match r {
            Some(i) => place_of(list@, who) == Some(i as int) && i < list@.len() && list@[
                i as int
            ].0 == who,
            None => place_of(list@, who) is None,
        },
{
    proof {
        lemma_place_of(list@, who);
    }
    let mut i: usize = 0;
    while i < list.len()
        invariant
            i <= list@.len(),
            forall|j: int| 0 <= j < i ==> (#[trigger] list@[j]).0 != who,
            match place_of(list@, who) {
                Some(at) => 0 <= at < list@.len() && list@[at].0 == who && forall|j: int|
                    0 <= j < at ==> (#[trigger] list@[j]).0 != who,
                None => forall|j: int| 0 <= j < list@.len() ==> (#[trigger] list@[j]).0 != who,
            },
        decreases list@.len() - i,
    {
        if list[i].0 == who {
            assert(list@[i as int].0 == who);
            return Some(i);
        }
        i = i + 1;
    }
    None
}

/// The claims currently out, and whether any came or went.
pub struct Claims {
    live: Vec<Claim>,
    moved: bool,
    generation: u64,
    projected: u64,
    areas: Areas,
    wrapped: Ghost<bool>,
}

/// Claims as pairs.
spec fn claim_pairs(live: Seq<Claim>) -> Seq<(KeyView, HeldView)> {
    live.map_values(|c: Claim| c.pair())
}

impl View for Claims {
    type V = ClaimsView;

    closed spec fn view(&self) -> ClaimsView {
        ClaimsView {
            live: mapped(claim_pairs(self.live@)),
            moved: self.moved,
            generation: self.generation,
            projected: self.projected,
            areas: self.areas@,
            wrapped: self.wrapped@,
        }
    }
}

impl Claims {
    #[verifier::type_invariant]
    spec fn inv(self) -> bool {
        unique(claim_pairs(self.live@))
    }

    /// No claims.
    pub fn new() -> (r: Claims)
        ensures
            r@ == no_claims(),
            r@.wf(),
    {
        let r = Claims {
            live: Vec::new(),
            moved: false,
            generation: 0,
            projected: 0,
            areas: Areas::new(),
            wrapped: Ghost(false),
        };
        assert(claim_pairs(r.live@) =~= Seq::<(KeyView, HeldView)>::empty());
        assert(areas_of(r@.live) =~= Set::<Area>::empty());
        r
    }

    /// Notes a change.
    fn mark(&mut self)
        ensures
            final(self)@ == ticked(old(self)@),
    {
        proof {
            use_type_invariant(&*self);
            if self.generation == u64::MAX {
                self.wrapped = Ghost(true);
            }
        }
        self.moved = true;
        self.generation = if self.generation == u64::MAX {
            0
        } else {
            self.generation + 1
        };
    }

    /// Where a claim stands.
    fn find(&self, kind: &Kind<Watched>, target: Target) -> (r: Option<usize>)
        ensures
            match r {
                Some(i) => i < self.live@.len() && claim_pairs(self.live@)[i as int].0 == (
                    kind@,
                    target,
                ),
                None => !holds(claim_pairs(self.live@), (kind@, target)),
            },
    {
        let mut i: usize = 0;
        let ghost pairs = claim_pairs(self.live@);
        while i < self.live.len()
            invariant
                i <= self.live@.len(),
                pairs == claim_pairs(self.live@),
                forall|j: int| 0 <= j < i ==> #[trigger] pairs[j].0 != (kind@, target),
            decreases self.live@.len() - i,
        {
            assert(pairs[i as int] == self.live@[i as int].pair());
            if same_kind(&self.live[i].kind, kind) && self.live[i].target == target {
                return Some(i);
            }
            i = i + 1;
        }
        None
    }

    /// A handle on `kind` for `who`, sharing the one claim where it is alive.
    pub fn take(&mut self, who: Watched, kind: &Kind<()>, target: &Target) -> (r: Watch)
        requires
            handles_out(old(self)@.live, (bound(kind@, who), *target), who.item) < u64::MAX,
        ensures
            r.key() == (bound(kind@, who), *target),
            r.owner() == who.item,
            r.watched() == kind@,
            final(self)@ == taken(old(self)@, (bound(kind@, who), *target), who.item),
    {
        let claim = bind(kind, who);
        let ghost key = (claim@, *target);
        proof {
            use_type_invariant(&*self);
        }
        let found = self.find(&claim, *target);
        let ghost pairs = claim_pairs(self.live@);
        proof {
            lemma_mapped_names(pairs, key);
        }
        let mut live: Vec<Claim> = Vec::new();
        std::mem::swap(&mut live, &mut self.live);
        match found {
            Some(i) => {
                proof {
                    assert(pairs[i as int].0 == key);
                    lemma_mapped_at(pairs, i as int);
                    assert(pairs[i as int] == live@[i as int].pair());
                }
                let mut held = live.swap_remove(i);
                held.remember(who.item);
                live.push(held);
                proof {
                    assert(claim_pairs(live@) =~= pairs.update(
                        i as int,
                        pairs.last(),
                    ).drop_last().push((pairs[i as int].0, held.pair().1)));
                    lemma_put_back(pairs, claim_pairs(live@), i as int, held.pair().1);
                }
                self.live = live;
            },
            None => {
                let fresh = Claim {
                    kind: bind(kind, who),
                    target: *target,
                    dependents: vec![(who.item, 1)],
                };
                let ghost pair = fresh.pair();
                live.push(fresh);
                proof {
                    assert(pair.1 =~= seq![(who.item, 1u64)]);
                    assert(claim_pairs(live@) =~= pairs.push(pair));
                    lemma_mapped_push(pairs, pair);
                }
                self.live = live;
                self.mark();
            },
        }
        Watch { kind: kind.copied(), owner: who.item, claim, target: *target }
    }

    /// Gives a handle back. The last one to go takes the claim with it.
    pub fn release(&mut self, watch: Watch)
        ensures
            final(self)@ == released(old(self)@, watch.key(), watch.owner()),
    {
        proof {
            use_type_invariant(&*self);
        }
        let found = self.find(&watch.claim, watch.target);
        let ghost pairs = claim_pairs(self.live@);
        let ghost key = watch.key();
        proof {
            lemma_mapped_names(pairs, key);
        }
        if let Some(i) = found {
            let mut live: Vec<Claim> = Vec::new();
            std::mem::swap(&mut live, &mut self.live);
            proof {
                lemma_mapped_at(pairs, i as int);
                assert(pairs[i as int] == live@[i as int].pair());
            }
            let mut held = live.swap_remove(i);
            held.forget(watch.owner);
            if held.dependents.len() == 0 {
                proof {
                    assert(claim_pairs(live@) =~= pairs.update(
                        i as int,
                        pairs.last(),
                    ).drop_last());
                    lemma_swap_remove(pairs, claim_pairs(live@), i as int);
                }
                self.live = live;
                self.mark();
            } else {
                live.push(held);
                proof {
                    assert(claim_pairs(live@) =~= pairs.update(
                        i as int,
                        pairs.last(),
                    ).drop_last().push((pairs[i as int].0, held.pair().1)));
                    lemma_put_back(pairs, claim_pairs(live@), i as int, held.pair().1);
                }
                self.live = live;
            }
        }
    }

    /// Everybody who depends on an occurrence.
    ///
    /// What happened never says which item it happened to, so a kind that is
    /// bound to one is not reached from here.
    pub fn dependents(&self, event: &Event, target: &Target) -> (r: Vec<u64>)
        ensures
            r@ == delivered_to(self@.live, event_kind(*event), *target),
    {
        proof {
            use_type_invariant(self);
        }
        let kind = event.kind();
        if kind.item().is_some() {
            let none: Vec<u64> = Vec::new();
            assert(none@ =~= Seq::<u64>::empty());
            return none;
        }
        let nobody = Watched::item(0);
        let claim = bind(&kind, nobody);
        let ghost pairs = claim_pairs(self.live@);
        let ghost key = (claim@, *target);
        proof {
            lemma_mapped_names(pairs, key);
        }
        match self.find(&claim, *target) {
            Some(i) => {
                proof {
                    lemma_mapped_at(pairs, i as int);
                    assert(pairs[i as int] == self.live@[i as int].pair());
                }
                list_holders(&self.live[i].dependents)
            },
            None => {
                let none: Vec<u64> = Vec::new();
                assert(none@ =~= Seq::<u64>::empty());
                none
            },
        }
    }

    /// The same, into a list the caller keeps between events.
    pub fn dependents_into(&self, event: &Event, target: &Target, into: &mut Vec<u64>)
        ensures
            final(into)@ == delivered_to(self@.live, event_kind(*event), *target),
    {
        *into = self.dependents(event, target);
    }

    /// Whether any claim was taken or died since the last ask.
    pub fn moved(&mut self) -> (r: bool)
        ensures
            r == old(self)@.moved,
            final(self)@ == asked(old(self)@),
    {
        proof {
            use_type_invariant(&*self);
        }
        let was = self.moved;
        self.moved = false;
        was
    }

    /// The events still claimed, whoever by and wherever over: a source
    /// registers for which events, not for whose.
    pub fn wanted(&self) -> (r: KindSet)
        ensures
            r@ == kinds_of(self@.live),
    {
        proof {
            use_type_invariant(self);
        }
        let ghost pairs = claim_pairs(self.live@);
        let mut out = KindSet::new();
        let mut i: usize = 0;
        while i < self.live.len()
            invariant
                i <= self.live@.len(),
                pairs == claim_pairs(self.live@),
                forall|k: KindView<()>|
                    out@.contains(k) <==> exists|j: int|
                        0 <= j < i && erased((#[trigger] pairs[j]).0.0) == k,
            decreases self.live@.len() - i,
        {
            let ghost before = out@;
            out.insert(erase(&self.live[i].kind));
            proof {
                assert(pairs[i as int] == self.live@[i as int].pair());
                assert forall|k: KindView<()>|
                    out@.contains(k) <==> exists|j: int|
                        0 <= j < i + 1 && erased((#[trigger] pairs[j]).0.0) == k by {
                    if before.contains(k) {
                        let j = choose|j: int| 0 <= j < i && erased((#[trigger] pairs[j]).0.0) == k;
                        assert(0 <= j < i + 1 && erased(pairs[j].0.0) == k);
                    }
                    if k == erased(pairs[i as int].0.0) {
                        assert(0 <= i < i + 1 && erased(pairs[i as int].0.0) == k);
                    }
                }
            }
            i = i + 1;
        }
        proof {
            assert forall|k: KindView<()>| out@.contains(k) <==> kinds_of(self@.live).contains(k) by {
                if out@.contains(k) {
                    let j = choose|j: int|
                        0 <= j < pairs.len() && erased((#[trigger] pairs[j]).0.0) == k;
                    lemma_mapped_names(pairs, pairs[j].0);
                    assert(holds(pairs, pairs[j].0));
                    assert(self@.live.contains_key(pairs[j].0));
                }
                if kinds_of(self@.live).contains(k) {
                    let key = choose|key: KeyView| #[trigger]
                        self@.live.contains_key(key) && erased(key.0) == k;
                    lemma_mapped_names(pairs, key);
                    let j = choose|j: int| 0 <= j < pairs.len() && #[trigger] pairs[j].0 == key;
                    assert(erased(pairs[j].0.0) == k);
                }
            }
            assert(out@ =~= kinds_of(self@.live));
        }
        out
    }

    /// The rectangles claimed right now, read again where any claim was taken
    /// or died since the last ask.
    pub fn areas(&mut self) -> (r: &Areas)
        ensures
            final(self)@ == projected(old(self)@),
            r@ == projected(old(self)@).areas,
            r.moved_displays().to_set() == displays_moved(
                old(self)@.areas,
                projected(old(self)@).areas,
            ),
            r.moved_displays().no_duplicates(),
    {
        proof {
            use_type_invariant(&*self);
        }
        if self.generation == self.projected {
            proof {
                assert(Seq::<u32>::empty().to_set() =~= displays_moved(self@.areas, self@.areas));
            }
            let mut areas = Areas::new();
            std::mem::swap(&mut areas, &mut self.areas);
            areas.hold();
            self.areas = areas;
        } else {
            let now = self.claimed_areas();
            let mut areas = Areas::new();
            std::mem::swap(&mut areas, &mut self.areas);
            areas.refresh(now);
            self.areas = areas;
            self.projected = self.generation;
        }
        &self.areas
    }

    /// Every rectangle some claim is over.
    fn claimed_areas(&self) -> (r: Vec<Area>)
        ensures
            r@.to_set() == areas_of(self@.live),
    {
        let ghost pairs = claim_pairs(self.live@);
        let mut out: Vec<Area> = Vec::new();
        let mut i: usize = 0;
        while i < self.live.len()
            invariant
                i <= self.live@.len(),
                pairs == claim_pairs(self.live@),
                forall|a: Area|
                    out@.contains(a) <==> exists|j: int|
                        0 <= j < i && area_of((#[trigger] pairs[j]).0) == Some(a),
            decreases self.live@.len() - i,
        {
            let ghost before = out@;
            let here: Option<Area> = match self.live[i].kind.item() {
                Some(watched) => watched.area,
                None => None,
            };
            assert(pairs[i as int] == self.live@[i as int].pair());
            assert(here == area_of(pairs[i as int].0));
            if let Some(area) = here {
                out.push(area);
            }
            proof {
                assert forall|a: Area|
                    out@.contains(a) <==> exists|j: int|
                        0 <= j < i + 1 && area_of((#[trigger] pairs[j]).0) == Some(a) by {
                    if before.contains(a) {
                        let j = choose|j: int|
                            0 <= j < i && area_of((#[trigger] pairs[j]).0) == Some(a);
                        assert(0 <= j < i + 1 && area_of(pairs[j].0) == Some(a));
                        let n = choose|n: int| 0 <= n < before.len() && before[n] == a;
                        assert(out@[n] == a);
                    }
                    if area_of(pairs[i as int].0) == Some(a) {
                        assert(out@[before.len() as int] == a);
                    }
                    if out@.contains(a) && !before.contains(a) {
                        let n = choose|n: int| 0 <= n < out@.len() && out@[n] == a;
                        if n < before.len() {
                            assert(before[n] == a);
                        }
                        assert(area_of(pairs[i as int].0) == Some(a));
                    }
                }
            }
            i = i + 1;
        }
        proof {
            assert forall|a: Area| out@.to_set().contains(a) <==> areas_of(self@.live).contains(a) by {
                if out@.contains(a) {
                    let j = choose|j: int|
                        0 <= j < pairs.len() && area_of((#[trigger] pairs[j]).0) == Some(a);
                    lemma_mapped_names(pairs, pairs[j].0);
                    assert(holds(pairs, pairs[j].0));
                    assert(self@.live.contains_key(pairs[j].0));
                }
                if areas_of(self@.live).contains(a) {
                    let key = choose|key: KeyView| #[trigger]
                        self@.live.contains_key(key) && area_of(key) == Some(a);
                    lemma_mapped_names(pairs, key);
                    let j = choose|j: int| 0 <= j < pairs.len() && #[trigger] pairs[j].0 == key;
                    assert(area_of(pairs[j].0) == Some(a));
                }
            }
            assert(out@.to_set() =~= areas_of(self@.live));
        }
        out
    }
}

/// Who an occurrence goes to: whoever holds the claim on it, and nobody for a
/// kind that is bound to one item.
pub open spec fn delivered_to(
    live: Map<KeyView, HeldView>,
    kind: KindView<()>,
    target: Target,
) -> Seq<u64> {
    if kind is Scoped {
        Seq::empty()
    } else {
        let key = (bound(kind, Watched { item: 0, area: None }), target);
        if live.contains_key(key) {
            holders(live[key])
        } else {
            Seq::empty()
        }
    }
}

/// The rectangle a claim is over.
pub open spec fn area_of(key: KeyView) -> Option<Area> {
    match key.0 {
        KindView::Scoped(_, watched) => watched.area,
        _ => None,
    }
}

/// Every rectangle some claim is over.
pub open spec fn areas_of(live: Map<KeyView, HeldView>) -> Set<Area> {
    Set::new(|area: Area| exists|key: KeyView| #[trigger] live.contains_key(key) && area_of(key) == Some(area))
}

/// The rectangles of one display.
pub open spec fn on_display(areas: Set<Area>, display: u32) -> Set<Area> {
    areas.filter(|a: Area| a.display == display)
}

/// Whether the rectangles of one display differ.
pub open spec fn differs_on(was: Set<Area>, now: Set<Area>, display: u32) -> bool {
    on_display(was, display) != on_display(now, display)
}

/// The displays whose rectangles differ.
pub open spec fn displays_moved(was: Set<Area>, now: Set<Area>) -> Set<u32> {
    Set::new(|d: u32| differs_on(was, now, d))
}

/// The holders, without how many handles they have.
fn list_holders(list: &Vec<(u64, u64)>) -> (r: Vec<u64>)
    ensures
        r@ == holders(list@),
{
    let mut out: Vec<u64> = Vec::new();
    let mut i: usize = 0;
    while i < list.len()
        invariant
            i <= list@.len(),
            out@ == holders(list@.take(i as int)),
        decreases list@.len() - i,
    {
        out.push(list[i].0);
        assert(out@ =~= holders(list@.take(i + 1)));
        i = i + 1;
    }
    assert(list@.take(i as int) =~= list@);
    out
}

/// Taking one pair out and closing the gap with the last one.
proof fn lemma_swap_remove(
    s: Seq<(KeyView, HeldView)>,
    t: Seq<(KeyView, HeldView)>,
    at: int,
)
    requires
        0 <= at < s.len(),
        unique(s),
        t == s.update(at, s.last()).drop_last(),
    ensures
        unique(t),
        mapped(t) == mapped(s).remove(s[at].0),
{
    // What is left are the same pairs as without the one, in another order.
    let r = s.remove(at);
    lemma_mapped_remove(s, at);
    assert forall|i: int, j: int| 0 <= i < j < t.len() implies #[trigger] t[i].0
        != #[trigger] t[j].0 by {
        let a = if i == at { s.len() - 1 } else { i };
        let b = if j == at { s.len() - 1 } else { j };
        assert(t[i] == s[a] && t[j] == s[b]);
        if a < b {
            assert(s[a].0 != s[b].0);
        } else {
            assert(s[b].0 != s[a].0);
        }
    }
    assert forall|key: KeyView| mapped(t).contains_key(key) <==> mapped(r).contains_key(key) by {
        lemma_mapped_names(t, key);
        lemma_mapped_names(r, key);
        if holds(t, key) {
            let i = choose|i: int| 0 <= i < t.len() && #[trigger] t[i].0 == key;
            if i == at {
                assert(r[s.len() - 2] == s[s.len() - 1]);
                assert(r[s.len() - 2].0 == key);
            } else if i < at {
                assert(r[i].0 == key);
            } else {
                assert(r[i - 1].0 == key);
            }
        }
        if holds(r, key) {
            let i = choose|i: int| 0 <= i < r.len() && #[trigger] r[i].0 == key;
            if i < at {
                assert(t[i].0 == key);
            } else if i == r.len() - 1 {
                assert(t[at].0 == key);
            } else {
                assert(t[i + 1].0 == key);
            }
        }
    }
    assert forall|key: KeyView| mapped(t).contains_key(key) implies mapped(t)[key]
        == mapped(r)[key] by {
        lemma_mapped_names(t, key);
        let i = choose|i: int| 0 <= i < t.len() && #[trigger] t[i].0 == key;
        lemma_mapped_at(t, i);
        if i == at {
            assert(r[s.len() - 2] == s[s.len() - 1]);
            lemma_mapped_at(r, s.len() - 2);
        } else if i < at {
            assert(r[i] == t[i]);
            lemma_mapped_at(r, i);
        } else {
            assert(r[i - 1] == t[i]);
            lemma_mapped_at(r, i - 1);
        }
    }
    assert(mapped(t) =~= mapped(r));
}

/// Taking one pair out and putting it back at the end with another value.
proof fn lemma_put_back(
    s: Seq<(KeyView, HeldView)>,
    t: Seq<(KeyView, HeldView)>,
    at: int,
    value: HeldView,
)
    requires
        0 <= at < s.len(),
        unique(s),
        t == s.update(at, s.last()).drop_last().push((s[at].0, value)),
    ensures
        unique(t),
        mapped(t) == mapped(s).insert(s[at].0, value),
{
    let gap = s.update(at, s.last()).drop_last();
    lemma_swap_remove(s, gap, at);
    lemma_mapped_names(gap, s[at].0);
    lemma_mapped_push(gap, (s[at].0, value));
    assert(mapped(t) =~= mapped(s).insert(s[at].0, value));
}

// ---------------------------------------------------------------------------
// Rectangles

/// The rectangles currently claimed, and the displays whose set of them moved.
#[derive(Debug, PartialEq, Eq)]
pub struct Areas {
    list: Vec<Area>,
    changed: Vec<u32>,
}

impl View for Areas {
    type V = Set<Area>;

    closed spec fn view(&self) -> Set<Area> {
        self.list@.to_set()
    }
}

impl Areas {
    /// The displays whose set of rectangles moved at the last reading.
    pub closed spec fn moved_displays(&self) -> Seq<u32> {
        self.changed@
    }

    /// No rectangles.
    pub fn new() -> (r: Areas)
        ensures
            r@ == Set::<Area>::empty(),
            r.moved_displays() == Seq::<u32>::empty(),
    {
        let r = Areas { list: Vec::new(), changed: Vec::new() };
        assert(r@ =~= Set::<Area>::empty());
        r
    }

    /// The displays whose set of rectangles moved at the last reading.
    pub fn changed(&self) -> (r: &Vec<u32>)
        ensures
            r@ == self.moved_displays(),
    {
        &self.changed
    }

    /// The rectangles of one display, each once.
    pub fn on(&self, display: u32) -> (r: Vec<Area>)
        ensures
            r@.to_set() == on_display(self@, display),
            r@.no_duplicates(),
    {
        areas_on(&self.list, display)
    }

    /// Nothing moved since the last reading.
    pub fn hold(&mut self)
        ensures
            final(self)@ == old(self)@,
            final(self).moved_displays() == Seq::<u32>::empty(),
    {
        self.changed = Vec::new();
    }

    /// Takes a new reading, and notes which displays it moved.
    pub fn refresh(&mut self, now: Vec<Area>)
        ensures
            final(self)@ == now@.to_set(),
            final(self).moved_displays().to_set() == displays_moved(old(self)@, now@.to_set()),
            final(self).moved_displays().no_duplicates(),
    {
        let ghost was = self.list@;
        let mut changed: Vec<u32> = Vec::new();
        note_moved(&self.list, &now, &self.list, &mut changed);
        note_moved(&self.list, &now, &now, &mut changed);
        proof {
            let a = was.to_set();
            let b = now@.to_set();
            assert forall|d: u32| changed@.to_set().contains(d) <==> displays_moved(a, b).contains(
                d,
            ) by {
                if displays_moved(a, b).contains(d) && !changed@.contains(d) {
                    // A display that stands in neither list has no rectangles in
                    // either.
                    assert forall|x: Area|
                        on_display(a, d).contains(x) <==> on_display(b, d).contains(x) by {
                        if was.contains(x) && x.display == d {
                            let i = choose|i: int| 0 <= i < was.len() && was[i] == x;
                            assert(was[i].display == d);
                        }
                        if now@.contains(x) && x.display == d {
                            let i = choose|i: int| 0 <= i < now@.len() && now@[i] == x;
                            assert(now@[i].display == d);
                        }
                    }
                    assert(on_display(a, d) =~= on_display(b, d));
                }
            }
            assert(changed@.to_set() =~= displays_moved(a, b));
        }
        self.list = now;
        self.changed = changed;
    }
}

/// The rectangles of one display, each once.
fn areas_on(list: &Vec<Area>, display: u32) -> (r: Vec<Area>)
    ensures
        r@.to_set() == on_display(list@.to_set(), display),
        r@.no_duplicates(),
{
    let mut out: Vec<Area> = Vec::new();
    let mut i: usize = 0;
    while i < list.len()
        invariant
            i <= list@.len(),
            out@.no_duplicates(),
            forall|a: Area|
                out@.contains(a) <==> a.display == display && exists|j: int|
                    0 <= j < i && #[trigger] list@[j] == a,
        decreases list@.len() - i,
    {
        let here: Area = list[i];
        let ghost before = out@;
        if here.display == display && !has_area(&out, here) {
            out.push(here);
        }
        proof {
            assert forall|a: Area|
                out@.contains(a) <==> a.display == display && exists|j: int|
                    0 <= j < i + 1 && #[trigger] list@[j] == a by {
                if before.contains(a) {
                    let n = choose|n: int| 0 <= n < before.len() && before[n] == a;
                    assert(out@[n] == a);
                    let j = choose|j: int| 0 <= j < i && #[trigger] list@[j] == a;
                    assert(0 <= j < i + 1 && list@[j] == a);
                }
                if a == here && a.display == display {
                    assert(list@[i as int] == a);
                    if !before.contains(a) {
                        assert(out@[before.len() as int] == a);
                    }
                }
                if out@.contains(a) && !before.contains(a) {
                    let n = choose|n: int| 0 <= n < out@.len() && out@[n] == a;
                    if n < before.len() {
                        assert(before[n] == a);
                    }
                    assert(a == here);
                }
            }
        }
        i = i + 1;
    }
    proof {
        assert forall|a: Area| out@.to_set().contains(a) <==> on_display(
            list@.to_set(),
            display,
        ).contains(a) by {
            if list@.contains(a) {
                let j = choose|j: int| 0 <= j < list@.len() && list@[j] == a;
                assert(list@[j] == a);
            }
        }
        assert(out@.to_set() =~= on_display(list@.to_set(), display));
    }
    out
}

/// Whether a rectangle is in a list.
fn has_area(list: &Vec<Area>, area: Area) -> (r: bool)
    ensures
        r == list@.contains(area),
{
    let mut i: usize = 0;
    while i < list.len()
        invariant
            i <= list@.len(),
            forall|j: int| 0 <= j < i ==> #[trigger] list@[j] != area,
        decreases list@.len() - i,
    {
        if list[i] == area {
            assert(list@[i as int] == area);
            return true;
        }
        i = i + 1;
    }
    false
}

/// Whether every rectangle of one list is in another.
fn all_in(these: &Vec<Area>, those: &Vec<Area>) -> (r: bool)
    ensures
        r == these@.to_set().subset_of(those@.to_set()),
{
    let mut i: usize = 0;
    while i < these.len()
        invariant
            i <= these@.len(),
            forall|j: int| 0 <= j < i ==> those@.contains(#[trigger] these@[j]),
        decreases these@.len() - i,
    {
        if !has_area(those, these[i]) {
            assert(these@.to_set().contains(these@[i as int]));
            assert(!those@.to_set().contains(these@[i as int]));
            return false;
        }
        i = i + 1;
    }
    proof {
        assert forall|a: Area| these@.to_set().contains(a) implies those@.to_set().contains(a) by {
            let j = choose|j: int| 0 <= j < these@.len() && these@[j] == a;
            assert(those@.contains(these@[j]));
        }
    }
    true
}

/// Notes the displays of some rectangles whose sets differ, each once.
fn note_moved(was: &Vec<Area>, now: &Vec<Area>, over: &Vec<Area>, changed: &mut Vec<u32>)
    ensures
        forall|d: u32|
            #[trigger] final(changed)@.contains(d) <==> old(changed)@.contains(d) || (differs_on(
                was@.to_set(),
                now@.to_set(),
                d,
            ) && exists|j: int|
                0 <= j < over@.len() && (#[trigger] over@[j]).display == d),
        old(changed)@.no_duplicates() ==> final(changed)@.no_duplicates(),
{
    let ghost start = changed@;
    let mut i: usize = 0;
    while i < over.len()
        invariant
            i <= over@.len(),
            forall|d: u32|
                #[trigger] changed@.contains(d) <==> start.contains(d) || (differs_on(
                    was@.to_set(),
                    now@.to_set(),
                    d,
                ) && exists|j: int|
                    0 <= j < i && (#[trigger] over@[j]).display == d),
            start.no_duplicates() ==> changed@.no_duplicates(),
        decreases over@.len() - i,
    {
        let d: u32 = over[i].display;
        let before = areas_on(was, d);
        let after = areas_on(now, d);
        let same = all_in(&before, &after) && all_in(&after, &before);
        proof {
            if same {
                assert(before@.to_set() =~= after@.to_set());
            }
        }
        let ghost held = changed@;
        if !same && !has_display(changed, d) {
            changed.push(d);
        }
        proof {
            assert forall|x: u32|
                changed@.contains(x) <==> start.contains(x) || (differs_on(
                    was@.to_set(),
                    now@.to_set(),
                    x,
                ) && exists|j: int|
                    0 <= j < i + 1 && (#[trigger] over@[j]).display == x) by {
                let differ = differs_on(was@.to_set(), now@.to_set(), x);
                if held.contains(x) {
                    let n = choose|n: int| 0 <= n < held.len() && held[n] == x;
                    assert(changed@[n] == x);
                    if !start.contains(x) {
                        let j = choose|j: int| 0 <= j < i && (#[trigger] over@[j]).display == x;
                        assert(0 <= j < i + 1 && over@[j].display == x);
                    }
                }
                if differ && exists|j: int| 0 <= j < i + 1 && (#[trigger] over@[j]).display == x {
                    let j = choose|j: int| 0 <= j < i + 1 && (#[trigger] over@[j]).display == x;
                    if j < i {
                        assert(0 <= j < i && over@[j].display == x);
                        assert(held.contains(x));
                    }
                }
                if x == d && !same {
                    assert(over@[i as int].display == x);
                    if !held.contains(x) {
                        assert(changed@[held.len() as int] == x);
                    }
                }
                if changed@.contains(x) && !held.contains(x) {
                    let n = choose|n: int| 0 <= n < changed@.len() && changed@[n] == x;
                    if n < held.len() {
                        assert(held[n] == x);
                    }
                    assert(x == d);
                    assert(over@[i as int].display == x);
                }
            }
        }
        i = i + 1;
    }
}

/// Whether a display is in a list.
fn has_display(list: &Vec<u32>, display: u32) -> (r: bool)
    ensures
        r == list@.contains(display),
{
    let mut i: usize = 0;
    while i < list.len()
        invariant
            i <= list@.len(),
            forall|j: int| 0 <= j < i ==> #[trigger] list@[j] != display,
        decreases list@.len() - i,
    {
        if list[i] == display {
            assert(list@[i as int] == display);
            return true;
        }
        i = i + 1;
    }
    false
}

// ---------------------------------------------------------------------------
// What holds of claims

/// Two handles are on one claim exactly where they are on the same event of the
/// same target, and taken by the same item on the same rectangle where the event
/// happens to one item.
pub proof fn law_claims_are_shared_by_what_they_are_on(
    kind: KindView<()>,
    a: Watched,
    target: Target,
    other: KindView<()>,
    b: Watched,
    beside: Target,
)
    ensures
        claim_on(kind, a, target) == claim_on(other, b, beside) <==> (target == beside && kind
            == other && (!(kind is Scoped) || a == b)),
{
    law_wanting_erases_whose(kind, a);
    law_wanting_erases_whose(other, b);
}

/// What a source is asked for says nothing of whose claim it was, or where.
pub proof fn law_wanting_erases_whose(kind: KindView<()>, who: Watched)
    ensures
        erased(bound(kind, who)) == kind,
{
    if let KindView::Scoped(topic, unit) = kind {
        assert(unit == ());
    }
}

/// Taking a handle that can be counted, giving one back, asking for the change
/// and reading the rectangles all leave every claim held and the rectangles right.
pub proof fn law_claims_stay_well_formed(v: ClaimsView, key: KeyView, who: u64)
    requires
        v.wf(),
    ensures
        handles_out(v.live, key, who) < u64::MAX ==> taken(v, key, who).wf(),
        released(v, key, who).wf(),
        asked(v).wf(),
        projected(v).wf(),
{
    if v.live.contains_key(key) {
        lemma_stays_held(v.live[key], who);
        assert(areas_of(after_take(v.live, key, who)) =~= areas_of(v.live)) by {
            lemma_same_names_same_areas(v.live, after_take(v.live, key, who));
        }
        if given_back(v.live[key], who).len() > 0 {
            assert(areas_of(after_release(v.live, key, who)) =~= areas_of(v.live)) by {
                lemma_same_names_same_areas(v.live, after_release(v.live, key, who));
            }
        }
    }
}

/// Which rectangles are claimed depends only on which claims are out.
proof fn lemma_same_names_same_areas(a: Map<KeyView, HeldView>, b: Map<KeyView, HeldView>)
    requires
        forall|key: KeyView| a.contains_key(key) <==> b.contains_key(key),
    ensures
        areas_of(a) == areas_of(b),
{
    assert forall|area: Area| areas_of(a).contains(area) <==> areas_of(b).contains(area) by {
        if areas_of(a).contains(area) {
            let key = choose|key: KeyView| #[trigger] a.contains_key(key) && area_of(key) == Some(area);
            assert(b.contains_key(key));
        }
        if areas_of(b).contains(area) {
            let key = choose|key: KeyView| #[trigger] b.contains_key(key) && area_of(key) == Some(area);
            assert(a.contains_key(key));
        }
    }
    assert(areas_of(a) =~= areas_of(b));
}

/// Reading the rectangles always gives the rectangles claimed, and reading them
/// again at once reports that nothing moved.
pub proof fn law_areas_are_read_off_the_claims(v: ClaimsView)
    requires
        v.wf(),
        !v.wrapped,
    ensures
        projected(v).areas == areas_of(v.live),
        projected(projected(v)) == projected(v),
        displays_moved(projected(v).areas, projected(projected(v)).areas) == Set::<u32>::empty(),
{
    assert(displays_moved(projected(v).areas, projected(v).areas) =~= Set::<u32>::empty());
}

/// Taking a claim makes its event wanted.
pub proof fn law_taken_is_wanted(
    live: Map<KeyView, HeldView>,
    kind: KindView<()>,
    who: Watched,
    target: Target,
)
    requires
        handles_out(live, (bound(kind, who), target), who.item) < u64::MAX,
    ensures
        kinds_of(after_take(live, (bound(kind, who), target), who.item)).contains(kind),
        handles_out(
            after_take(live, (bound(kind, who), target), who.item),
            (bound(kind, who), target),
            who.item,
        ) > 0,
{
    let key = (bound(kind, who), target);
    let after = after_take(live, key, who.item);
    law_wanting_erases_whose(kind, who);
    assert(after.contains_key(key));
    let held = if live.contains_key(key) {
        live[key]
    } else {
        Seq::<(u64, u64)>::empty()
    };
    assert(after[key] =~= remembered(held, who.item)) by {
        lemma_place_of(held, who.item);
    }
    lemma_remembered(held, who.item, who.item);
}

/// Taking a handle counts one more for whoever takes it, and nothing else.
proof fn lemma_remembered(held: HeldView, who: u64, other: u64)
    requires
        handles_of(held, who) < u64::MAX,
    ensures
        handles_of(remembered(held, who), other) == handles_of(held, other) + (if who == other {
            1nat
        } else {
            0nat
        }),
{
    let after = remembered(held, who);
    lemma_place_of(held, who);
    lemma_place_of(held, other);
    lemma_place_of(after, other);
    match (place_of(held, other), place_of(after, other)) {
        (Some(i), Some(j)) => {
            assert(after[i].0 == other);
            if j < i {
                assert(held[j].0 == other);
            }
        },
        (Some(i), None) => {
            assert(after[i].0 == other);
        },
        (None, Some(j)) => {
            if j < held.len() {
                assert(held[j].0 == after[j].0);
            }
        },
        (None, None) => {
            if who == other {
                assert(after[held.len() as int].0 == who);
            }
        },
    }
}

/// Giving a handle back counts one less for whoever gives it back, and nothing
/// else.
proof fn lemma_given_back(held: HeldView, who: u64, other: u64)
    requires
        is_held(held),
    ensures
        handles_of(given_back(held, who), other) == (if who == other && handles_of(held, who) > 0 {
            (handles_of(held, other) - 1) as nat
        } else {
            handles_of(held, other)
        }),
{
    let after = given_back(held, who);
    lemma_place_of(held, who);
    lemma_place_of(held, other);
    lemma_place_of(after, other);
    if let Some(at) = place_of(held, who) {
        if held[at].1 > 1 {
            match (place_of(held, other), place_of(after, other)) {
                (Some(i), Some(j)) => {
                    assert(after[i].0 == other);
                    if j < i {
                        assert(held[j].0 == other);
                    }
                },
                (Some(i), None) => {
                    assert(after[i].0 == other);
                },
                (None, Some(j)) => {
                    assert(held[j].0 == after[j].0);
                },
                (None, None) => {},
            }
        } else {
            match (place_of(held, other), place_of(after, other)) {
                (Some(i), Some(j)) => {
                    let from = if j < at {
                        j
                    } else {
                        j + 1
                    };
                    assert(after[j] == held[from]);
                    if from < i {
                        assert(held[from].0 != held[i].0);
                    } else if i < from {
                        assert(held[i].0 != held[from].0);
                    }
                    if who == other {
                        assert(i == at && from != at);
                    }
                },
                (Some(i), None) => {
                    if i < at {
                        assert(after[i] == held[i]);
                    } else if i > at {
                        assert(after[i - 1] == held[i]);
                    }
                },
                (None, Some(j)) => {
                    let from = if j < at {
                        j
                    } else {
                        j + 1
                    };
                    assert(after[j] == held[from]);
                },
                (None, None) => {},
            }
        }
    }
}

/// Taking a handle keeps a claim held, and so does giving one back for as long
/// as one is left.
proof fn lemma_stays_held(held: HeldView, who: u64)
    requires
        is_held(held),
    ensures
        handles_of(held, who) < u64::MAX ==> is_held(remembered(held, who)),
        given_back(held, who).len() > 0 ==> is_held(given_back(held, who)),
{
    lemma_place_of(held, who);
    let more = remembered(held, who);
    let less = given_back(held, who);
    if handles_of(held, who) < u64::MAX {
        assert forall|i: int, j: int| 0 <= i < j < more.len() implies (#[trigger] more[i]).0 != (
        #[trigger] more[j]).0 by {
            assert(i < held.len());
            assert(held[i].0 == more[i].0);
            if j < held.len() {
                assert(held[j].0 == more[j].0);
            }
        }
        assert forall|i: int| 0 <= i < more.len() implies (#[trigger] more[i]).1 > 0 by {
            if i < held.len() {
                assert(held[i].1 > 0);
            }
        }
    }
    if let Some(at) = place_of(held, who) {
        assert forall|i: int, j: int| 0 <= i < j < less.len() implies (#[trigger] less[i]).0 != (
        #[trigger] less[j]).0 by {
            if held[at].1 > 1 {
                assert(held[i].0 == less[i].0 && held[j].0 == less[j].0);
            } else {
                let a = if i < at { i } else { i + 1 };
                let b = if j < at { j } else { j + 1 };
                assert(less[i] == held[a] && less[j] == held[b]);
            }
        }
        assert forall|i: int| 0 <= i < less.len() implies (#[trigger] less[i]).1 > 0 by {
            if held[at].1 > 1 {
                assert(held[i].1 > 0);
            } else {
                let a = if i < at { i } else { i + 1 };
                assert(less[i] == held[a]);
            }
        }
    }
}

/// A claim is out for as long as somebody has a handle on it.
proof fn lemma_all_handles(held: HeldView, who: u64)
    requires
        is_held(held),
    ensures
        all_handles(held) > 0,
        handles_of(held, who) > 0 ==> (given_back(held, who).len() > 0 <==> all_handles(held) > 1),
    decreases held.len(),
{
    let short = held.drop_last();
    lemma_place_of(held, who);
    assert(held.last().1 > 0);
    if held.len() == 1 {
        assert(all_handles(short) == 0);
    } else {
        assert forall|i: int| 0 <= i < short.len() implies #[trigger] short[i] == held[i] by {}
        assert(is_held(short));
        lemma_all_handles(short, who);
    }
}

/// An event stays wanted until the last handle on it goes: with one left it is
/// still claimed, and with none it is not.
pub proof fn law_wanted_until_the_last_handle(
    live: Map<KeyView, HeldView>,
    key: KeyView,
    who: u64,
)
    requires
        all_held(live),
        handles_out(live, key, who) > 0,
    ensures
        after_release(live, key, who).contains_key(key) <==> all_handles(live[key]) > 1,
        forall|other: KeyView| other != key ==> (#[trigger] after_release(live, key, who).contains_key(other)
            <==> live.contains_key(other)),
{
    lemma_all_handles(live[key], who);
}

/// Taking a handle and giving one back count for whoever does it, and for the
/// claim it is on, alone.
pub proof fn law_handles_are_counted_by_owner(
    live: Map<KeyView, HeldView>,
    key: KeyView,
    who: u64,
    on: KeyView,
    owner: u64,
)
    requires
        all_held(live),
        handles_out(live, key, who) < u64::MAX,
    ensures
        handles_out(after_take(live, key, who), on, owner) == handles_out(live, on, owner) + (
        if on == key && owner == who {
            1nat
        } else {
            0nat
        }),
        handles_out(after_release(live, key, who), on, owner) == (if on == key && owner == who
            && handles_out(live, key, who) > 0 {
            (handles_out(live, on, owner) - 1) as nat
        } else {
            handles_out(live, on, owner)
        }),
{
    if on == key {
        let held = if live.contains_key(key) {
            live[key]
        } else {
            Seq::<(u64, u64)>::empty()
        };
        lemma_place_of(held, who);
        lemma_place_of(held, owner);
        assert(after_take(live, key, who)[key] =~= remembered(held, who));
        lemma_remembered(held, who, owner);
        if live.contains_key(key) {
            lemma_given_back(held, who, owner);
            lemma_place_of(given_back(held, who), owner);
        }
    }
}

/// Giving a handle back puts no other out.
pub proof fn lemma_giving_back_adds_none(
    live: Map<KeyView, HeldView>,
    key: KeyView,
    who: u64,
    on: KeyView,
    owner: u64,
)
    requires
        all_held(live),
    ensures
        handles_out(after_release(live, key, who), on, owner) <= handles_out(live, on, owner),
{
    if on == key && live.contains_key(key) {
        lemma_given_back(live[key], who, owner);
    }
}

/// An occurrence is delivered to exactly those who have a handle out on it,
/// once each.
pub proof fn law_delivered_to_whoever_holds_a_handle(
    live: Map<KeyView, HeldView>,
    kind: KindView<()>,
    who: Watched,
    target: Target,
)
    requires
        all_held(live),
        !(kind is Scoped),
    ensures
        delivered_to(live, kind, target).contains(who.item) <==> handles_out(
            live,
            (bound(kind, who), target),
            who.item,
        ) > 0,
        delivered_to(live, kind, target).no_duplicates(),
{
    let key = (bound(kind, Watched { item: 0, area: None }), target);
    assert(bound(kind, who) == key.0);
    let to = delivered_to(live, kind, target);
    if live.contains_key(key) {
        let held = live[key];
        lemma_place_of(held, who.item);
        assert(to.len() == held.len());
        assert forall|i: int| 0 <= i < held.len() implies #[trigger] to[i] == held[i].0 by {}
        if to.contains(who.item) {
            let i = choose|i: int| 0 <= i < to.len() && to[i] == who.item;
            assert(held[i].0 == who.item);
            let at = place_of(held, who.item)->0;
            assert(held[at].1 > 0);
        }
        if handles_of(held, who.item) > 0 {
            let at = place_of(held, who.item)->0;
            assert(to[at] == who.item);
        }
        assert forall|i: int, j: int| 0 <= i < to.len() && 0 <= j < to.len() && i != j implies to[i]
            != to[j] by {
            if i < j {
                assert(held[i].0 != held[j].0);
            } else {
                assert(held[j].0 != held[i].0);
            }
        }
    }
}

/// Taking a claim nobody held and giving it back leaves every claim as it was.
pub proof fn law_release_undoes_take(live: Map<KeyView, HeldView>, key: KeyView, who: u64)
    requires
        !live.contains_key(key),
    ensures
        after_release(after_take(live, key, who), key, who) == live,
{
    let one = seq![(who, 1u64)];
    lemma_place_of(one, who);
    assert(one[0].0 == who);
    assert(after_take(live, key, who)[key] == one);
    assert(after_release(after_take(live, key, who), key, who) =~= live);
}

/// An item that moved holds another claim, and a source is asked for no more
/// and no less on its account.
pub proof fn law_moving_changes_no_demand(kind: KindView<()>, was: Watched, now: Watched)
    requires
        kind is Scoped,
        was != now,
    ensures
        bound(kind, was) != bound(kind, now),
        erased(bound(kind, was)) == erased(bound(kind, now)),
{
}

/// A handle taken, or one given back, by what it is on and whose it is.
pub enum Handling {
    Take(KindView<()>, Watched, Target),
    GiveBack(KindView<()>, Watched, Target),
}

/// The claims after handles are taken and given back, one after another.
pub open spec fn after_handling(steps: Seq<Handling>) -> Map<KeyView, HeldView>
    decreases steps.len(),
{
    if steps.len() == 0 {
        Map::empty()
    } else {
        let before = after_handling(steps.drop_last());
        match steps.last() {
            Handling::Take(kind, who, target) => after_take(
                before,
                claim_on(kind, who, target),
                who.item,
            ),
            Handling::GiveBack(kind, who, target) => after_release(
                before,
                claim_on(kind, who, target),
                who.item,
            ),
        }
    }
}

/// How many handles of somebody on a claim were taken and not given back.
pub open spec fn still_out(steps: Seq<Handling>, key: KeyView, owner: u64) -> nat
    decreases steps.len(),
{
    if steps.len() == 0 {
        0
    } else {
        let before = still_out(steps.drop_last(), key, owner);
        match steps.last() {
            Handling::Take(kind, who, target) => if claim_on(kind, who, target) == key && who.item
                == owner {
                before + 1
            } else {
                before
            },
            Handling::GiveBack(kind, who, target) => if claim_on(kind, who, target) == key
                && who.item == owner && before > 0 {
                (before - 1) as nat
            } else {
                before
            },
        }
    }
}

/// However handles come and go, what is held is what was taken and not given
/// back, and every claim is held. There are fewer handles than can be counted.
pub proof fn law_what_is_held_was_taken_and_not_given_back(
    steps: Seq<Handling>,
    key: KeyView,
    owner: u64,
)
    requires
        steps.len() <= u64::MAX,
    ensures
        all_held(after_handling(steps)),
        handles_out(after_handling(steps), key, owner) == still_out(steps, key, owner),
        still_out(steps, key, owner) <= steps.len(),
    decreases steps.len(),
{
    if steps.len() > 0 {
        let short = steps.drop_last();
        let before = after_handling(short);
        law_what_is_held_was_taken_and_not_given_back(short, key, owner);
        let (on, whose) = match steps.last() {
            Handling::Take(kind, who, target) => (claim_on(kind, who, target), who.item),
            Handling::GiveBack(kind, who, target) => (claim_on(kind, who, target), who.item),
        };
        law_what_is_held_was_taken_and_not_given_back(short, on, whose);
        law_handles_are_counted_by_owner(before, on, whose, key, owner);
        let held = if before.contains_key(on) {
            before[on]
        } else {
            Seq::<(u64, u64)>::empty()
        };
        lemma_place_of(held, whose);
        if before.contains_key(on) {
            lemma_stays_held(held, whose);
        }
        let after = after_handling(steps);
        assert forall|other: KeyView| #[trigger] after.contains_key(other) implies is_held(
            after[other],
        ) by {
            if other != on {
                assert(before.contains_key(other));
            }
        }
    }
}

/// Whatever somebody has out, they took.
proof fn lemma_out_was_taken(steps: Seq<Handling>, key: KeyView, owner: u64)
    requires
        still_out(steps, key, owner) > 0,
    ensures
        exists|kind: KindView<()>, who: Watched, target: Target|
            #[trigger] claim_on(kind, who, target) == key && who.item == owner,
    decreases steps.len(),
{
    if steps.len() > 0 {
        if let Handling::Take(kind, who, target) = steps.last() {
            if claim_on(kind, who, target) == key && who.item == owner {
                assert(claim_on(kind, who, target) == key && who.item == owner);
            } else {
                lemma_out_was_taken(steps.drop_last(), key, owner);
            }
        } else {
            lemma_out_was_taken(steps.drop_last(), key, owner);
        }
    }
}

/// However handles come and go, an event is wanted exactly where a handle on it
/// was taken and not given back, whoever took it and wherever they stood.
pub proof fn law_wanted_is_what_a_handle_is_still_out_on(steps: Seq<Handling>, kind: KindView<()>)
    requires
        steps.len() <= u64::MAX,
    ensures
        kinds_of(after_handling(steps)).contains(kind) <==> exists|who: Watched, target: Target|
            still_out(steps, #[trigger] claim_on(kind, who, target), who.item) > 0,
{
    let live = after_handling(steps);
    if kinds_of(live).contains(kind) {
        let key = choose|key: KeyView| #[trigger] live.contains_key(key) && erased(key.0) == kind;
        let held = live[key];
        law_what_is_held_was_taken_and_not_given_back(steps, key, 0);
        assert(is_held(held));
        let owner = held[0].0;
        lemma_place_of(held, owner);
        assert(held[0].1 > 0);
        law_what_is_held_was_taken_and_not_given_back(steps, key, owner);
        lemma_out_was_taken(steps, key, owner);
        let (on, who, target) = choose|on: KindView<()>, who: Watched, target: Target|
            #[trigger] claim_on(on, who, target) == key && who.item == owner;
        law_wanting_erases_whose(on, who);
        assert(still_out(steps, claim_on(kind, who, target), who.item) > 0);
    }
    if exists|who: Watched, target: Target|
        still_out(steps, #[trigger] claim_on(kind, who, target), who.item) > 0 {
        let (who, target) = choose|who: Watched, target: Target|
            still_out(steps, #[trigger] claim_on(kind, who, target), who.item) > 0;
        law_what_is_held_was_taken_and_not_given_back(
            steps,
            claim_on(kind, who, target),
            who.item,
        );
        law_wanting_erases_whose(kind, who);
        assert(live.contains_key(claim_on(kind, who, target)));
    }
}

} // verus!
