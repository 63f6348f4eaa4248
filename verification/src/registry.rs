//! Every event source, and what is wanted of each.
//!
//! The registry decides. It holds the claims, the custom events a config has
//! declared, and what every source has produced; it says which source to start,
//! adjust or stop, and takes the answer. Starting one is not its business.
//!
//! An event is either delivered, or still queued with its source signalled.

use crate::claims::{
    asked, bound, delivered_to, displays_moved, handles_out, kinds_of, law_claims_stay_well_formed,
    law_handles_are_counted_by_owner, lemma_giving_back_adds_none, no_claims, projected, released,
    taken, Area, Areas, Claims, ClaimsView, KeyView, Target, Watch, Watched,
};
use crate::declared::{
    all_declared, all_marked, bridged_kinds, declared, law_a_reading_keeps_exactly_what_it_declares,
    notification_view, unmarked, Declarations, Declared, Said,
};
use crate::event::{event_kind, Event, EventName, Kind, KindView, NotificationName};
use crate::feed::{
    after_turn, fresh_feed, from_source, handed, law_a_turn_loses_nothing, reports, sent, tagged,
    Feed, FeedView,
};
use crate::kindset::KindSet;
use crate::providers::{
    id_views, not_named, reindexed, with, Index, Providers,
};
use crate::source::{
    answered, described, due_action, law_a_source_stays_well_formed, reconciled, Action,
    ActionView, Described, Liveness, Registered, SourceId, SourceView,
};
use vstd::prelude::*;

verus! {

/// The slot of the events this process produces itself.
pub const LOCAL_SLOT: u64 = 63;

/// How many sources there is a slot for.
pub const SLOTS: usize = 63;

// ---------------------------------------------------------------------------
// Signals

/// Whether a slot is signalled.
pub open spec fn has(ready: u64, slot: u64) -> bool {
    ready & (1u64 << slot) != 0
}

/// The signalled slots.
pub open spec fn slots(ready: u64) -> Set<u64> {
    Set::new(|slot: u64| slot < 64 && has(ready, slot))
}

/// Nothing signalled.
proof fn lemma_no_slots()
    ensures
        slots(0) == Set::<u64>::empty(),
{
    assert forall|slot: u64| !slots(0).contains(slot) by {
        assert(0u64 & (1u64 << slot) == 0) by (bit_vector);
    }
    assert(slots(0) =~= Set::<u64>::empty());
}

/// One more slot signalled.
proof fn lemma_signal(ready: u64, slot: u64)
    requires
        slot < 64,
    ensures
        slots(ready | (1u64 << slot)) == slots(ready).insert(slot),
{
    assert forall|other: u64| slots(ready | (1u64 << slot)).contains(other) <==> slots(
        ready,
    ).insert(slot).contains(other) by {
        if other < 64 {
            assert(((ready | (1u64 << slot)) & (1u64 << other) != 0) <==> (ready & (1u64 << other)
                != 0 || other == slot)) by (bit_vector)
                requires
                    slot < 64,
                    other < 64,
            ;
        }
    }
    assert(slots(ready | (1u64 << slot)) =~= slots(ready).insert(slot));
}

// ---------------------------------------------------------------------------
// The registry as it stands

/// Everything the registry knows.
pub struct RegistryView {
    /// Every source.
    pub sources: Seq<SourceView>,
    /// Which sources produce each event.
    pub providers: Index,
    /// Who wants what.
    pub claims: ClaimsView,
    /// How many sources are a pass from being taken down.
    pub stale: nat,
    /// The custom events a config has declared.
    pub events: Declared,
    /// The slots of the sources that have something queued.
    pub ready: Set<u64>,
    /// What this process has produced itself.
    pub manual: FeedView,
}

/// How many sources are a pass from being taken down.
pub open spec fn stale_count(sources: Seq<SourceView>) -> nat
    decreases sources.len(),
{
    if sources.len() == 0 {
        0
    } else {
        stale_count(sources.drop_last()) + (if sources.last().liveness == Liveness::Stale {
            1nat
        } else {
            0nat
        })
    }
}

/// What a source produces, given what a config has declared: one of them
/// produces the events bridged from a notification.
pub open spec fn provided(source: SourceView, events: Declared) -> Set<KindView<()>> {
    if source.id == "notifications"@ {
        source.fixed.union(bridged_kinds(events))
    } else {
        source.fixed
    }
}

/// Whether no two sources share a name.
pub open spec fn distinct(sources: Seq<SourceView>) -> bool {
    forall|i: int, j: int|
        0 <= i < j < sources.len() ==> #[trigger] sources[i].id != #[trigger] sources[j].id
}

/// Whether a source of that name produces an event.
pub open spec fn produces(sources: Seq<SourceView>, id: Seq<char>, kind: KindView<()>) -> bool {
    exists|i: int|
        0 <= i < sources.len() && #[trigger] sources[i].id == id && sources[i].provides.contains(
            kind,
        )
}

/// The sources an index gives for an event.
pub open spec fn row(index: Index, kind: KindView<()>) -> Seq<Seq<char>> {
    if index.contains_key(kind) {
        index[kind]
    } else {
        Seq::empty()
    }
}

/// Whether an index gives, for one event, exactly the sources that produce it,
/// each once.
pub open spec fn row_is_right(
    sources: Seq<SourceView>,
    index: Index,
    kind: KindView<()>,
) -> bool {
    &&& index.contains_key(kind) ==> index[kind].len() > 0
    &&& row(index, kind).no_duplicates()
    &&& forall|id: Seq<char>| #[trigger]
        row(index, kind).contains(id) <==> produces(sources, id, kind)
}

/// Whether an index is the one the sources make.
pub open spec fn indexed(sources: Seq<SourceView>, index: Index) -> bool {
    forall|kind: KindView<()>| #[trigger] row_is_right(sources, index, kind)
}

impl RegistryView {
    /// Whether everything queued is signalled.
    pub open spec fn signalled(self) -> bool {
        &&& forall|i: int|
            0 <= i < self.sources.len() && (#[trigger] self.sources[i]).feed is Some
                && self.sources[i].feed->0.queued.len() > 0 ==> self.ready.contains(i as u64)
        &&& self.manual.queued.len() > 0 ==> self.ready.contains(LOCAL_SLOT)
    }

    /// Every source has a slot and a name of its own and is well formed, what
    /// is counted and indexed is what there is, what a source produces follows
    /// from what is declared, and everything queued is signalled.
    pub open spec fn wf(self) -> bool {
        &&& self.sources.len() <= SLOTS
        &&& distinct(self.sources)
        &&& forall|i: int| 0 <= i < self.sources.len() ==> (#[trigger] self.sources[i]).wf()
        &&& forall|i: int|
            0 <= i < self.sources.len() ==> (#[trigger] self.sources[i]).provides == provided(
                self.sources[i],
                self.events,
            )
        &&& self.stale == stale_count(self.sources)
        &&& indexed(self.sources, self.providers)
        &&& self.claims.wf()
        &&& self.signalled()
    }
}

/// Whether a source of that name stands at a place.
pub open spec fn stands_at(sources: Seq<SourceView>, id: Seq<char>, i: int) -> bool {
    0 <= i < sources.len() && sources[i].id == id
}

/// Where a source stands.
pub open spec fn position(sources: Seq<SourceView>, id: Seq<char>) -> Option<int> {
    if exists|i: int| stands_at(sources, id, i) {
        Some(choose|i: int| stands_at(sources, id, i))
    } else {
        None
    }
}

/// The index some sources make, entered one after another.
pub open spec fn entered(sources: Seq<SourceView>) -> Index
    decreases sources.len(),
{
    if sources.len() == 0 {
        Map::empty()
    } else {
        with(entered(sources.drop_last()), sources.last().provides, sources.last().id)
    }
}

/// Sources nothing has been asked of.
pub open spec fn all_described(list: Seq<Described>) -> Seq<SourceView> {
    list.map_values(|d: Described| described(d))
}

/// A registry over some sources, with nothing wanted.
pub open spec fn opening(sources: Seq<SourceView>) -> RegistryView {
    RegistryView {
        sources,
        providers: entered(sources),
        claims: no_claims(),
        stale: 0,
        events: Map::empty(),
        ready: Set::empty(),
        manual: fresh_feed(),
    }
}

/// The registry with one source changed.
pub open spec fn with_source(v: RegistryView, i: int, source: SourceView) -> RegistryView {
    let sources = v.sources.update(i, source);
    RegistryView { sources, stale: stale_count(sources), ..v }
}

/// The registry after one source is brought into line with the claims out.
pub open spec fn reconciled_at(v: RegistryView, i: int) -> RegistryView {
    with_source(v, i, reconciled(v.sources[i], kinds_of(v.claims.live)))
}

/// The registry after what a source produces is read again.
pub open spec fn refreshed_at(v: RegistryView, i: int) -> RegistryView {
    let source = v.sources[i];
    let now = provided(source, v.events);
    RegistryView {
        sources: v.sources.update(i, SourceView { provides: now, ..source }),
        providers: reindexed(v.providers, source.provides, now, source.id),
        ..v
    }
}

/// The registry after the declarations are pushed out to everything that
/// mirrors them.
pub open spec fn republished(v: RegistryView) -> RegistryView {
    match position(v.sources, "notifications"@) {
        Some(i) => reconciled_at(refreshed_at(v, i), i),
        None => v,
    }
}

/// What republishing asks of the source that bridges notifications.
pub open spec fn republishing(v: RegistryView) -> ActionView {
    match position(v.sources, "notifications"@) {
        Some(i) => due_action(refreshed_at(v, i).sources[i], kinds_of(v.claims.live)),
        None => ActionView::Leave,
    }
}

/// The registry after an event is declared.
pub open spec fn with_event(
    v: RegistryView,
    name: Seq<char>,
    notification: Option<Seq<char>>,
) -> RegistryView {
    republished(RegistryView { events: declared(v.events, name, notification), ..v })
}

/// The registry as a config begins to be read.
pub open spec fn config_begun(v: RegistryView) -> RegistryView {
    RegistryView { events: all_marked(v.events), ..v }
}

/// The registry once a config has been read.
pub open spec fn config_ended(v: RegistryView) -> RegistryView {
    if unmarked(v.events) == v.events {
        v
    } else {
        republished(RegistryView { events: unmarked(v.events), ..v })
    }
}

/// The registry after a config has made some declarations.
pub open spec fn with_events(v: RegistryView, said: Said) -> RegistryView
    decreases said.len(),
{
    if said.len() == 0 {
        v
    } else {
        with_event(with_events(v, said.drop_last()), said.last().0, said.last().1)
    }
}

/// A source after a pass, which may be over the pinned sources alone.
pub open spec fn passed(
    source: SourceView,
    claimed: Set<KindView<()>>,
    pinned_only: bool,
) -> SourceView {
    if pinned_only && !source.pinned {
        source
    } else {
        reconciled(source, claimed)
    }
}

/// What a pass asks of a source.
pub open spec fn passing(
    source: SourceView,
    claimed: Set<KindView<()>>,
    pinned_only: bool,
) -> ActionView {
    if pinned_only && !source.pinned {
        ActionView::Leave
    } else {
        due_action(source, claimed)
    }
}

/// Every source after a pass.
pub open spec fn all_passed(
    sources: Seq<SourceView>,
    claimed: Set<KindView<()>>,
    pinned_only: bool,
) -> Seq<SourceView> {
    Seq::new(sources.len(), |i: int| passed(sources[i], claimed, pinned_only))
}

/// What a pass asks, of whom, in the order of the sources; a source that is
/// left alone is asked nothing.
pub open spec fn all_asked(
    sources: Seq<SourceView>,
    claimed: Set<KindView<()>>,
    pinned_only: bool,
) -> Seq<(Seq<char>, ActionView)>
    decreases sources.len(),
{
    if sources.len() == 0 {
        Seq::empty()
    } else {
        let before = all_asked(sources.drop_last(), claimed, pinned_only);
        let action = passing(sources.last(), claimed, pinned_only);
        if action == ActionView::Leave {
            before
        } else {
            before.push((sources.last().id, action))
        }
    }
}

/// The registry after a pass over its sources.
pub open spec fn after_pass(v: RegistryView, pinned_only: bool) -> RegistryView {
    let sources = all_passed(v.sources, kinds_of(v.claims.live), pinned_only);
    RegistryView { sources, stale: stale_count(sources), ..v }
}

/// Whether there is anything to settle.
pub open spec fn unsettled(v: RegistryView) -> bool {
    v.claims.moved || v.stale > 0
}

/// The registry after settling.
pub open spec fn settled(v: RegistryView) -> RegistryView {
    let quiet = RegistryView { claims: asked(v.claims), ..v };
    if unsettled(v) {
        after_pass(quiet, false)
    } else {
        quiet
    }
}

/// What settling asks.
pub open spec fn settling(v: RegistryView) -> Seq<(Seq<char>, ActionView)> {
    if unsettled(v) {
        all_asked(v.sources, kinds_of(v.claims.live), false)
    } else {
        Seq::empty()
    }
}

/// A source after a drain, given the signalled slots: it has had its turn where
/// it is running and was signalled.
pub open spec fn visited(source: SourceView, slot: u64, ready: Set<u64>) -> SourceView {
    match source.feed {
        Some(feed) if ready.contains(slot) => SourceView { feed: Some(after_turn(feed)), ..source },
        _ => source,
    }
}

/// What a source hands over in a drain.
pub open spec fn hands_over(source: SourceView, slot: u64, ready: Set<u64>) -> Seq<Event> {
    match source.feed {
        Some(feed) if ready.contains(slot) => handed(feed),
        _ => Seq::empty(),
    }
}

/// Whether a source has something left after a drain that visited it.
pub open spec fn has_left(source: SourceView, slot: u64, ready: Set<u64>) -> bool {
    match source.feed {
        Some(feed) => ready.contains(slot) && after_turn(feed).queued.len() > 0,
        None => false,
    }
}

/// What the first sources hand over, in their order, tagged with their names.
pub open spec fn all_handed(
    sources: Seq<SourceView>,
    ready: Set<u64>,
    upto: int,
) -> Seq<(Seq<char>, Event)>
    decreases upto,
{
    if upto <= 0 {
        Seq::empty()
    } else {
        all_handed(sources, ready, upto - 1) + from_source(
            sources[upto - 1].id,
            hands_over(sources[upto - 1], (upto - 1) as u64, ready),
        )
    }
}

/// What this process's own feed hands over.
pub open spec fn local_handed(v: RegistryView) -> Seq<(Seq<char>, Event)> {
    if v.ready.contains(LOCAL_SLOT) {
        from_source("local"@, handed(v.manual))
    } else {
        Seq::empty()
    }
}

/// Everything a drain hands over.
pub open spec fn drained_events(v: RegistryView) -> Seq<(Seq<char>, Event)> {
    all_handed(v.sources, v.ready, v.sources.len() as int) + local_handed(v)
}

/// The slots still signalled after a drain: those it visited and left something
/// in.
pub open spec fn still_ready(v: RegistryView) -> Set<u64> {
    Set::new(
        |slot: u64|
            (slot < v.sources.len() && has_left(v.sources[slot as int], slot, v.ready)) || (slot
                == LOCAL_SLOT && v.ready.contains(LOCAL_SLOT) && after_turn(v.manual).queued.len()
                > 0),
    )
}

/// The registry after a drain.
pub open spec fn drained(v: RegistryView) -> RegistryView {
    RegistryView {
        sources: Seq::new(
            v.sources.len(),
            |i: int| visited(v.sources[i], i as u64, v.ready),
        ),
        ready: still_ready(v),
        manual: if v.ready.contains(LOCAL_SLOT) {
            after_turn(v.manual)
        } else {
            v.manual
        },
        ..v
    }
}

/// Whether a drain finds a backlog at a source that has not been reported.
pub open spec fn warns(source: SourceView, slot: u64, ready: Set<u64>) -> bool {
    match source.feed {
        Some(feed) => ready.contains(slot) && reports(feed),
        None => false,
    }
}

/// The registry after a source produces an event.
pub open spec fn sent_at(v: RegistryView, i: int, event: Event) -> RegistryView {
    let source = v.sources[i];
    match source.feed {
        Some(feed) => RegistryView {
            sources: v.sources.update(
                i,
                SourceView { feed: Some(sent(feed, event)), ..source },
            ),
            ready: v.ready.insert(i as u64),
            ..v
        },
        None => v,
    }
}

/// The registry after this process produces an event itself.
pub open spec fn emitted(v: RegistryView, event: Event) -> RegistryView {
    RegistryView { manual: sent(v.manual, event), ready: v.ready.insert(LOCAL_SLOT), ..v }
}

// ---------------------------------------------------------------------------
// What keeps it well formed

/// One source changed, one source counted anew.
proof fn lemma_stale_update(sources: Seq<SourceView>, i: int, source: SourceView)
    requires
        0 <= i < sources.len(),
    ensures
        stale_count(sources.update(i, source)) + (if sources[i].liveness == Liveness::Stale {
            1nat
        } else {
            0nat
        }) == stale_count(sources) + (if source.liveness == Liveness::Stale {
            1nat
        } else {
            0nat
        }),
    decreases sources.len(),
{
    let n = sources.len() as int;
    let after = sources.update(i, source);
    if i == n - 1 {
        assert(after.drop_last() =~= sources.drop_last());
    } else {
        lemma_stale_update(sources.drop_last(), i, source);
        assert(after.drop_last() =~= sources.drop_last().update(i, source));
    }
}

/// No more sources are stale than there are.
proof fn lemma_stale_bound(sources: Seq<SourceView>)
    ensures
        stale_count(sources) <= sources.len(),
        (forall|i: int|
            0 <= i < sources.len() ==> (#[trigger] sources[i]).liveness == Liveness::Wanted)
            ==> stale_count(sources) == 0,
    decreases sources.len(),
{
    if sources.len() > 0 {
        let short = sources.drop_last();
        lemma_stale_bound(short);
        if forall|i: int|
            0 <= i < sources.len() ==> (#[trigger] sources[i]).liveness == Liveness::Wanted {
            assert forall|i: int| 0 <= i < short.len() implies (#[trigger] short[i]).liveness
                == Liveness::Wanted by {
                assert(short[i] == sources[i]);
            }
            assert(sources.last() == sources[sources.len() - 1]);
        }
    }
}

/// A marked source is counted.
proof fn lemma_stale_counts(sources: Seq<SourceView>, i: int)
    requires
        0 <= i < sources.len(),
        sources[i].liveness == Liveness::Stale,
    ensures
        stale_count(sources) > 0,
    decreases sources.len(),
{
    if i < sources.len() - 1 {
        assert(sources.drop_last()[i] == sources[i]);
        lemma_stale_counts(sources.drop_last(), i);
    }
}

/// Names without one: every other name, and each still once.
proof fn lemma_names_without(names: Seq<Seq<char>>, id: Seq<char>)
    ensures
        forall|x: Seq<char>| #[trigger]
            names.filter(not_named(id)).contains(x) <==> names.contains(x) && x != id,
        names.no_duplicates() ==> names.filter(not_named(id)).no_duplicates(),
    decreases names.len(),
{
    reveal(Seq::filter);
    let kept = names.filter(not_named(id));
    if names.len() == 0 {
        assert forall|x: Seq<char>| #[trigger] kept.contains(x) <==> names.contains(x) && x
            != id by {}
    } else {
        let short = names.drop_last();
        let last = names.last();
        lemma_names_without(short, id);
        let before = short.filter(not_named(id));
        assert(names =~= short.push(last));
        assert forall|x: Seq<char>| #[trigger] kept.contains(x) <==> names.contains(x) && x
            != id by {
            if names.contains(x) {
                let i = choose|i: int| 0 <= i < names.len() && names[i] == x;
                if i < short.len() {
                    assert(short[i] == x);
                    assert(short.contains(x));
                }
            }
            if short.contains(x) {
                let i = choose|i: int| 0 <= i < short.len() && short[i] == x;
                assert(names[i] == x);
            }
            assert(names[names.len() - 1] == last);
            if last != id {
                assert(kept == before.push(last));
                if before.contains(x) {
                    let i = choose|i: int| 0 <= i < before.len() && before[i] == x;
                    assert(kept[i] == x);
                }
                assert(kept[before.len() as int] == last);
                if kept.contains(x) {
                    let i = choose|i: int| 0 <= i < kept.len() && kept[i] == x;
                    if i < before.len() {
                        assert(before[i] == x);
                        assert(before.contains(x));
                    }
                }
            }
        }
        if names.no_duplicates() {
            assert(short.no_duplicates());
            if last != id {
                assert(kept == before.push(last));
                assert(!before.contains(last)) by {
                    if short.contains(last) {
                        let i = choose|i: int| 0 <= i < short.len() && short[i] == last;
                        assert(names[i] == names[names.len() - 1]);
                    }
                }
                assert forall|i: int, j: int|
                    0 <= i < kept.len() && 0 <= j < kept.len() && i != j implies kept[i]
                    != kept[j] by {
                    if i < before.len() && j < before.len() {
                        assert(before[i] != before[j]);
                    } else if i < before.len() {
                        assert(before.contains(before[i]));
                    } else {
                        assert(before.contains(before[j]));
                    }
                }
            }
        }
    }
}

/// Who produces an event, after one source's events change.
proof fn lemma_produces_update(
    sources: Seq<SourceView>,
    i: int,
    now: Set<KindView<()>>,
    id: Seq<char>,
    kind: KindView<()>,
)
    requires
        0 <= i < sources.len(),
        distinct(sources),
    ensures
        produces(
            sources.update(i, SourceView { provides: now, ..sources[i] }),
            id,
            kind,
        ) <==> (if id == sources[i].id {
            now.contains(kind)
        } else {
            produces(sources, id, kind)
        }),
{
    let after = sources.update(i, SourceView { provides: now, ..sources[i] });
    assert(after[i].id == sources[i].id);
    if produces(after, id, kind) {
        let j = choose|j: int|
            0 <= j < after.len() && #[trigger] after[j].id == id && after[j].provides.contains(
                kind,
            );
        if j != i {
            assert(sources[j].id == id);
            if j < i {
                assert(sources[j].id != sources[i].id);
            } else {
                assert(sources[i].id != sources[j].id);
            }
        }
    }
    if produces(sources, id, kind) {
        let j = choose|j: int|
            0 <= j < sources.len() && #[trigger] sources[j].id == id
                && sources[j].provides.contains(kind);
        if j != i {
            assert(after[j].id == id);
        }
    }
}

/// The index is right again after one source's events change.
proof fn lemma_reindexed(
    sources: Seq<SourceView>,
    index: Index,
    i: int,
    now: Set<KindView<()>>,
)
    requires
        0 <= i < sources.len(),
        distinct(sources),
        indexed(sources, index),
    ensures
        indexed(
            sources.update(i, SourceView { provides: now, ..sources[i] }),
            reindexed(index, sources[i].provides, now, sources[i].id),
        ),
{
    let id = sources[i].id;
    let was = sources[i].provides;
    let after = sources.update(i, SourceView { provides: now, ..sources[i] });
    let index2 = reindexed(index, was, now, id);
    assert forall|kind: KindView<()>| #[trigger] row_is_right(after, index2, kind) by {
        assert(row_is_right(sources, index, kind));
        let r = row(index, kind);
        let r2 = row(index2, kind);
        lemma_names_without(r, id);
        assert(r.contains(id) <==> was.contains(kind)) by {
            if was.contains(kind) {
                assert(sources[i].id == id);
                assert(produces(sources, id, kind));
            }
            if r.contains(id) {
                let j = choose|j: int|
                    0 <= j < sources.len() && #[trigger] sources[j].id == id
                        && sources[j].provides.contains(kind);
                if j < i {
                    assert(sources[j].id != sources[i].id);
                } else if j > i {
                    assert(sources[i].id != sources[j].id);
                }
            }
        }
        assert forall|x: Seq<char>| #[trigger] r2.contains(x) <==> produces(after, x, kind) by {
            lemma_produces_update(sources, i, now, x, kind);
            assert(r.contains(x) <==> produces(sources, x, kind));
            if was.contains(kind) && !now.contains(kind) {
                assert(r2 =~= r.filter(not_named(id)));
            } else if now.contains(kind) && !was.contains(kind) {
                assert(r2 =~= r.push(id));
                assert(r2[r.len() as int] == id);
                if r.contains(x) {
                    let k = choose|k: int| 0 <= k < r.len() && r[k] == x;
                    assert(r2[k] == x);
                }
                if r2.contains(x) {
                    let k = choose|k: int| 0 <= k < r2.len() && r2[k] == x;
                    if k < r.len() {
                        assert(r[k] == x);
                    }
                }
            } else {
                assert(r2 =~= r);
            }
        }
        if now.contains(kind) && !was.contains(kind) {
            assert(r2 =~= r.push(id));
            assert(r2.no_duplicates()) by {
                assert forall|a: int, b: int|
                    0 <= a < r2.len() && 0 <= b < r2.len() && a != b implies r2[a] != r2[b] by {
                    if a < r.len() && b < r.len() {
                        assert(r[a] != r[b]);
                    } else if a < r.len() {
                        assert(r.contains(r[a]));
                    } else {
                        assert(r.contains(r[b]));
                    }
                }
            }
        } else if was.contains(kind) && !now.contains(kind) {
            assert(r2 =~= r.filter(not_named(id)));
        } else {
            assert(r2 =~= r);
        }
    }
}

/// The index sources make as they are entered is right.
proof fn lemma_entered(sources: Seq<SourceView>)
    requires
        distinct(sources),
    ensures
        indexed(sources, entered(sources)),
    decreases sources.len(),
{
    if sources.len() == 0 {
        assert forall|kind: KindView<()>| #[trigger] row_is_right(
            sources,
            entered(sources),
            kind,
        ) by {
            assert(row(entered(sources), kind) =~= Seq::<Seq<char>>::empty());
        }
    } else {
        let short = sources.drop_last();
        let last = sources.last();
        assert(distinct(short)) by {
            assert forall|i: int, j: int| 0 <= i < j < short.len() implies #[trigger] short[i].id
                != #[trigger] short[j].id by {
                assert(short[i] == sources[i] && short[j] == sources[j]);
            }
        }
        lemma_entered(short);
        let index = entered(short);
        let index2 = entered(sources);
        assert forall|kind: KindView<()>| #[trigger] row_is_right(sources, index2, kind) by {
            assert(row_is_right(short, index, kind));
            let r = row(index, kind);
            let r2 = row(index2, kind);
            assert(!r.contains(last.id)) by {
                if r.contains(last.id) {
                    assert(produces(short, last.id, kind));
                    let j = choose|j: int|
                        0 <= j < short.len() && #[trigger] short[j].id == last.id
                            && short[j].provides.contains(kind);
                    assert(sources[j].id != sources[sources.len() - 1].id);
                }
            }
            let adds = last.provides.contains(kind);
            if adds {
                assert(r2 =~= r.push(last.id));
            } else {
                assert(r2 =~= r);
            }
            assert forall|x: Seq<char>| #[trigger] r2.contains(x) <==> produces(
                sources,
                x,
                kind,
            ) by {
                assert(r.contains(x) <==> produces(short, x, kind));
                if produces(short, x, kind) {
                    let j = choose|j: int|
                        0 <= j < short.len() && #[trigger] short[j].id == x
                            && short[j].provides.contains(kind);
                    assert(sources[j].id == x);
                }
                if produces(sources, x, kind) {
                    let j = choose|j: int|
                        0 <= j < sources.len() && #[trigger] sources[j].id == x
                            && sources[j].provides.contains(kind);
                    if j < short.len() {
                        assert(short[j].id == x);
                    }
                }
                if adds {
                    assert(r2[r.len() as int] == last.id);
                    assert(sources[sources.len() - 1].id == last.id);
                    if r.contains(x) {
                        let k = choose|k: int| 0 <= k < r.len() && r[k] == x;
                        assert(r2[k] == x);
                    }
                    if r2.contains(x) {
                        let k = choose|k: int| 0 <= k < r2.len() && r2[k] == x;
                        if k < r.len() {
                            assert(r[k] == x);
                        }
                    }
                }
            }
            if adds {
                assert forall|a: int, b: int|
                    0 <= a < r2.len() && 0 <= b < r2.len() && a != b implies r2[a] != r2[b] by {
                    if a < r.len() && b < r.len() {
                        assert(r[a] != r[b]);
                    } else if a < r.len() {
                        assert(r.contains(r[a]));
                    } else {
                        assert(r.contains(r[b]));
                    }
                }
            }
        }
    }
}

/// Who produces what is read off the names and the events alone.
proof fn lemma_same_index(a: Seq<SourceView>, b: Seq<SourceView>, index: Index)
    requires
        indexed(a, index),
        a.len() == b.len(),
        forall|i: int|
            0 <= i < a.len() ==> (#[trigger] a[i]).id == b[i].id && a[i].provides == b[i].provides,
    ensures
        indexed(b, index),
{
    assert forall|kind: KindView<()>| #[trigger] row_is_right(b, index, kind) by {
        assert(row_is_right(a, index, kind));
        assert forall|id: Seq<char>| #[trigger] row(index, kind).contains(id) <==> produces(
            b,
            id,
            kind,
        ) by {
            assert(row(index, kind).contains(id) <==> produces(a, id, kind));
            if produces(a, id, kind) {
                let j = choose|j: int|
                    0 <= j < a.len() && #[trigger] a[j].id == id && a[j].provides.contains(kind);
                assert(b[j].id == id);
            }
            if produces(b, id, kind) {
                let j = choose|j: int|
                    0 <= j < b.len() && #[trigger] b[j].id == id && b[j].provides.contains(kind);
                assert(a[j].id == id);
            }
        }
    }
}

/// A registry nothing is wanted of is well formed.
pub proof fn law_opening_is_well_formed(sources: Seq<SourceView>)
    requires
        sources.len() <= SLOTS,
        distinct(sources),
        forall|i: int|
            0 <= i < sources.len() ==> {
                &&& (#[trigger] sources[i]).wf()
                &&& sources[i].provides == sources[i].fixed
                &&& sources[i].liveness == Liveness::Wanted
                &&& sources[i].feed is None
            },
    ensures
        opening(sources).wf(),
{
    let v = opening(sources);
    lemma_stale_bound(sources);
    lemma_entered(sources);
    assert(bridged_kinds(v.events) =~= Set::<KindView<()>>::empty());
    assert forall|i: int| 0 <= i < sources.len() implies (#[trigger] v.sources[i]).provides
        == provided(v.sources[i], v.events) by {
        assert(sources[i].fixed.union(Set::<KindView<()>>::empty()) =~= sources[i].fixed);
    }
    assert(crate::claims::areas_of(no_claims().live) =~= Set::<Area>::empty());
}

/// Changing one source into another of the same name and events that queues no
/// more keeps the registry well formed.
proof fn lemma_with_source(v: RegistryView, i: int, source: SourceView)
    requires
        v.wf(),
        0 <= i < v.sources.len(),
        source.wf(),
        source.id == v.sources[i].id,
        source.fixed == v.sources[i].fixed,
        source.provides == v.sources[i].provides,
        source.feed is Some && source.feed->0.queued.len() > 0 ==> source.feed
            == v.sources[i].feed,
    ensures
        with_source(v, i, source).wf(),
{
    let w = with_source(v, i, source);
    assert forall|a: int, b: int| 0 <= a < b < w.sources.len() implies #[trigger] w.sources[a].id
        != #[trigger] w.sources[b].id by {
        assert(w.sources[a].id == v.sources[a].id && w.sources[b].id == v.sources[b].id);
    }
    assert forall|a: int| 0 <= a < w.sources.len() implies (#[trigger] w.sources[a]).wf()
        && w.sources[a].provides == provided(w.sources[a], w.events) by {
        assert(v.sources[a].wf());
    }
    lemma_same_index(v.sources, w.sources, v.providers);
    assert forall|a: int|
        0 <= a < w.sources.len() && (#[trigger] w.sources[a]).feed is Some
            && w.sources[a].feed->0.queued.len() > 0 implies w.ready.contains(a as u64) by {
        assert(v.sources[a].feed is Some);
    }
}

/// Bringing a source into line, and taking its answer, keep the registry well
/// formed.
pub proof fn law_reconciling_keeps_well_formed(v: RegistryView, i: int, accepted: bool)
    requires
        v.wf(),
        0 <= i < v.sources.len(),
    ensures
        reconciled_at(v, i).wf(),
        with_source(v, i, answered(v.sources[i], accepted)).wf(),
{
    let claimed = kinds_of(v.claims.live);
    law_a_source_stays_well_formed(v.sources[i], claimed, accepted);
    lemma_with_source(v, i, reconciled(v.sources[i], claimed));
    lemma_with_source(v, i, answered(v.sources[i], accepted));
}

/// A pass over every source keeps the registry well formed.
pub proof fn law_a_pass_keeps_well_formed(v: RegistryView, pinned_only: bool)
    requires
        v.wf(),
    ensures
        after_pass(v, pinned_only).wf(),
{
    let w = after_pass(v, pinned_only);
    let claimed = kinds_of(v.claims.live);
    assert forall|a: int| 0 <= a < w.sources.len() implies {
        &&& (#[trigger] w.sources[a]).wf()
        &&& w.sources[a].id == v.sources[a].id
        &&& w.sources[a].fixed == v.sources[a].fixed
        &&& w.sources[a].provides == v.sources[a].provides
        &&& w.sources[a].feed is Some ==> w.sources[a].feed == v.sources[a].feed
    } by {
        assert(v.sources[a].wf());
        law_a_source_stays_well_formed(v.sources[a], claimed, true);
    }
    assert forall|a: int, b: int| 0 <= a < b < w.sources.len() implies #[trigger] w.sources[a].id
        != #[trigger] w.sources[b].id by {
        assert(v.sources[a].id != v.sources[b].id);
        assert(w.sources[a].id == v.sources[a].id && w.sources[b].id == v.sources[b].id);
    }
    assert forall|a: int| 0 <= a < w.sources.len() implies (#[trigger] w.sources[a]).provides
        == provided(w.sources[a], w.events) by {
        assert(v.sources[a].provides == provided(v.sources[a], v.events));
    }
    assert forall|a: int| 0 <= a < v.sources.len() implies (#[trigger] v.sources[a]).id
        == w.sources[a].id && v.sources[a].provides == w.sources[a].provides by {
        assert(w.sources[a].id == v.sources[a].id);
    }
    lemma_same_index(v.sources, w.sources, v.providers);
    assert forall|a: int|
        0 <= a < w.sources.len() && (#[trigger] w.sources[a]).feed is Some
            && w.sources[a].feed->0.queued.len() > 0 implies w.ready.contains(a as u64) by {
        assert(v.sources[a].feed is Some);
    }
}

/// Settling keeps the registry well formed.
pub proof fn law_settling_keeps_well_formed(v: RegistryView)
    requires
        v.wf(),
    ensures
        settled(v).wf(),
{
    let quiet = RegistryView { claims: asked(v.claims), ..v };
    assert(quiet.wf());
    law_a_pass_keeps_well_formed(quiet, false);
}

/// Reading again what the bridge produces makes the registry well formed.
proof fn lemma_refreshed(v: RegistryView, events: Declared, i: int)
    requires
        v.wf(),
        stands_at(v.sources, "notifications"@, i),
    ensures
        refreshed_at(RegistryView { events, ..v }, i).wf(),
{
    let u = RegistryView { events, ..v };
    let w = refreshed_at(u, i);
    let now = provided(u.sources[i], events);
    lemma_reindexed(u.sources, u.providers, i, now);
    lemma_stale_update(u.sources, i, w.sources[i]);
    assert forall|a: int, b: int| 0 <= a < b < w.sources.len() implies #[trigger] w.sources[a].id
        != #[trigger] w.sources[b].id by {
        assert(v.sources[a].id != v.sources[b].id);
        assert(w.sources[a].id == v.sources[a].id && w.sources[b].id == v.sources[b].id);
    }
    assert forall|a: int| 0 <= a < w.sources.len() implies (#[trigger] w.sources[a]).wf()
        && w.sources[a].provides == provided(w.sources[a], w.events) by {
        assert(v.sources[a].wf());
        assert(v.sources[a].provides == provided(v.sources[a], v.events));
        if a != i {
            if a < i {
                assert(v.sources[a].id != v.sources[i].id);
            } else {
                assert(v.sources[i].id != v.sources[a].id);
            }
        }
    }
    assert forall|a: int|
        0 <= a < w.sources.len() && (#[trigger] w.sources[a]).feed is Some
            && w.sources[a].feed->0.queued.len() > 0 implies w.ready.contains(a as u64) by {
        assert(v.sources[a].feed is Some);
    }
}

/// What a source produces follows the declarations: whatever is declared, pushing
/// the declarations out makes the registry well formed again, and a source that
/// is not the bridge is not touched.
pub proof fn law_republishing_restores(v: RegistryView, events: Declared)
    requires
        v.wf(),
    ensures
        republished(RegistryView { events, ..v }).wf(),
        forall|i: int|
            0 <= i < v.sources.len() && v.sources[i].id != "notifications"@
                ==> #[trigger] republished(RegistryView { events, ..v }).sources[i]
                == v.sources[i],
{
    let u = RegistryView { events, ..v };
    match position(u.sources, "notifications"@) {
        Some(i) => {
            assert(stands_at(u.sources, "notifications"@, i));
            let w = refreshed_at(u, i);
            lemma_refreshed(v, events, i);
            law_reconciling_keeps_well_formed(w, i, true);
        },
        None => {
            assert forall|a: int| 0 <= a < u.sources.len() implies (#[trigger] u.sources[a]).provides
                == provided(u.sources[a], u.events) by {
                assert(v.sources[a].provides == provided(v.sources[a], v.events));
                if u.sources[a].id == "notifications"@ {
                    assert(stands_at(u.sources, "notifications"@, a));
                }
            }
            assert(u.wf());
        },
    }
}

/// Whether the sources of two registries are the same ones, whatever is asked
/// of them.
pub open spec fn same_sources(a: Seq<SourceView>, b: Seq<SourceView>) -> bool {
    a.len() == b.len() && forall|i: int|
        0 <= i < a.len() ==> (#[trigger] a[i]).id == b[i].id && a[i].fixed == b[i].fixed
}

/// Republishing keeps the sources and the declarations.
proof fn lemma_republished(v: RegistryView, events: Declared)
    requires
        v.wf(),
    ensures
        republished(RegistryView { events, ..v }).wf(),
        republished(RegistryView { events, ..v }).events == events,
        same_sources(republished(RegistryView { events, ..v }).sources, v.sources),
{
    let u = RegistryView { events, ..v };
    law_republishing_restores(v, events);
    if exists|i: int| stands_at(u.sources, "notifications"@, i) {
        let i = position(u.sources, "notifications"@)->0;
        assert(stands_at(u.sources, "notifications"@, i));
    }
}

/// Declaring keeps the sources, and declares.
proof fn lemma_with_events(v: RegistryView, said: Said)
    requires
        v.wf(),
    ensures
        with_events(v, said).wf(),
        with_events(v, said).events == all_declared(v.events, said),
        same_sources(with_events(v, said).sources, v.sources),
    decreases said.len(),
{
    if said.len() > 0 {
        let before = with_events(v, said.drop_last());
        lemma_with_events(v, said.drop_last());
        lemma_republished(before, declared(before.events, said.last().0, said.last().1));
        let after = with_events(v, said);
        assert forall|i: int| 0 <= i < v.sources.len() implies (#[trigger] after.sources[i]).id
            == v.sources[i].id && after.sources[i].fixed == v.sources[i].fixed by {
            assert(before.sources[i].id == v.sources[i].id);
        }
    }
}

/// Once a config has been read, what is declared is exactly what it declared,
/// and an event is produced by exactly the sources that always produce it, and
/// by the one that bridges where the config bridged it, whatever was declared
/// before.
pub proof fn law_a_reading_decides_what_is_declared(
    v: RegistryView,
    said: Said,
    kind: KindView<()>,
    id: Seq<char>,
)
    requires
        v.wf(),
    ensures
        config_ended(with_events(config_begun(v), said)).wf(),
        config_ended(with_events(config_begun(v), said)).events == all_declared(Map::empty(), said),
        row(config_ended(with_events(config_begun(v), said)).providers, kind).contains(id) <==> (
        exists|i: int|
            0 <= i < v.sources.len() && (#[trigger] v.sources[i]).id == id && (
            v.sources[i].fixed.contains(kind) || (id == "notifications"@ && bridged_kinds(
                all_declared(Map::empty(), said),
            ).contains(kind)))),
{
    let begun = config_begun(v);
    lemma_marking_bridges_alike(v.events);
    assert forall|i: int| 0 <= i < begun.sources.len() implies (#[trigger] begun.sources[i]).provides
        == provided(begun.sources[i], begun.events) by {
        assert(v.sources[i].provides == provided(v.sources[i], v.events));
    }
    assert(begun.wf());
    lemma_with_events(begun, said);
    let read = with_events(begun, said);
    lemma_republished(read, unmarked(read.events));
    law_a_reading_keeps_exactly_what_it_declares(v.events, said);
    let after = config_ended(read);
    assert(after.events == all_declared(Map::empty(), said));
    assert forall|i: int| 0 <= i < v.sources.len() implies (#[trigger] after.sources[i]).id
        == v.sources[i].id && after.sources[i].fixed == v.sources[i].fixed by {
        assert(read.sources[i].id == begun.sources[i].id);
    }
    assert(after.sources.len() == v.sources.len());
    assert(row_is_right(after.sources, after.providers, kind));
    if produces(after.sources, id, kind) {
        let i = choose|i: int|
            0 <= i < after.sources.len() && #[trigger] after.sources[i].id == id
                && after.sources[i].provides.contains(kind);
        assert(after.sources[i].provides == provided(after.sources[i], after.events));
        assert(v.sources[i].id == id);
    }
    if exists|i: int|
        0 <= i < v.sources.len() && (#[trigger] v.sources[i]).id == id && (
        v.sources[i].fixed.contains(kind) || (id == "notifications"@ && bridged_kinds(
            after.events,
        ).contains(kind))) {
        let i = choose|i: int|
            0 <= i < v.sources.len() && (#[trigger] v.sources[i]).id == id && (
            v.sources[i].fixed.contains(kind) || (id == "notifications"@ && bridged_kinds(
                after.events,
            ).contains(kind)));
        assert(after.sources[i].id == id);
        assert(after.sources[i].provides == provided(after.sources[i], after.events));
    }
}

/// Producing an event keeps the registry well formed: it is queued, and its
/// source signalled.
pub proof fn law_sending_keeps_well_formed(v: RegistryView, i: int, event: Event)
    requires
        v.wf(),
        0 <= i < v.sources.len(),
    ensures
        sent_at(v, i, event).wf(),
        emitted(v, event).wf(),
{
    let w = sent_at(v, i, event);
    if v.sources[i].feed is Some {
        lemma_stale_update(v.sources, i, w.sources[i]);
        assert forall|a: int, b: int|
            0 <= a < b < w.sources.len() implies #[trigger] w.sources[a].id
            != #[trigger] w.sources[b].id by {
            assert(v.sources[a].id != v.sources[b].id);
            assert(w.sources[a].id == v.sources[a].id && w.sources[b].id == v.sources[b].id);
        }
        assert forall|a: int| 0 <= a < w.sources.len() implies (#[trigger] w.sources[a]).wf()
            && w.sources[a].provides == provided(w.sources[a], w.events) by {
            assert(v.sources[a].wf());
            assert(v.sources[a].provides == provided(v.sources[a], v.events));
        }
        assert forall|a: int| 0 <= a < v.sources.len() implies (#[trigger] v.sources[a]).id
            == w.sources[a].id && v.sources[a].provides == w.sources[a].provides by {
            assert(w.sources[a].id == v.sources[a].id);
        }
        lemma_same_index(v.sources, w.sources, v.providers);
        assert forall|a: int|
            0 <= a < w.sources.len() && (#[trigger] w.sources[a]).feed is Some
                && w.sources[a].feed->0.queued.len() > 0 implies w.ready.contains(a as u64) by {
            assert(v.sources[a].feed is Some || a == i);
        }
    }
}

/// A drain keeps the registry well formed: whatever it leaves queued is still
/// signalled.
pub proof fn law_draining_keeps_well_formed(v: RegistryView)
    requires
        v.wf(),
    ensures
        drained(v).wf(),
{
    let w = drained(v);
    assert forall|a: int| 0 <= a < w.sources.len() implies {
        &&& (#[trigger] w.sources[a]).wf()
        &&& w.sources[a].id == v.sources[a].id
        &&& w.sources[a].fixed == v.sources[a].fixed
        &&& w.sources[a].provides == v.sources[a].provides
        &&& w.sources[a].liveness == v.sources[a].liveness
    } by {
        assert(v.sources[a].wf());
    }
    assert forall|a: int, b: int| 0 <= a < b < w.sources.len() implies #[trigger] w.sources[a].id
        != #[trigger] w.sources[b].id by {
        assert(v.sources[a].id != v.sources[b].id);
        assert(w.sources[a].id == v.sources[a].id && w.sources[b].id == v.sources[b].id);
    }
    assert forall|a: int| 0 <= a < w.sources.len() implies (#[trigger] w.sources[a]).provides
        == provided(w.sources[a], w.events) by {
        assert(v.sources[a].provides == provided(v.sources[a], v.events));
    }
    assert forall|a: int| 0 <= a < v.sources.len() implies (#[trigger] v.sources[a]).id
        == w.sources[a].id && v.sources[a].provides == w.sources[a].provides by {
        assert(w.sources[a].id == v.sources[a].id);
    }
    lemma_same_index(v.sources, w.sources, v.providers);
    lemma_same_liveness(v.sources, w.sources);
    assert forall|a: int|
        0 <= a < w.sources.len() && (#[trigger] w.sources[a]).feed is Some
            && w.sources[a].feed->0.queued.len() > 0 implies w.ready.contains(a as u64) by {
        assert(v.sources[a].feed is Some);
        let slot = a as u64;
        assert(slot as int == a);
        if !v.ready.contains(slot) {
            assert(v.sources[a].feed->0.queued.len() == 0);
        }
        assert(has_left(v.sources[slot as int], slot, v.ready));
    }
}

/// The same marks count alike.
proof fn lemma_same_liveness(a: Seq<SourceView>, b: Seq<SourceView>)
    requires
        a.len() == b.len(),
        forall|i: int| 0 <= i < b.len() ==> (#[trigger] b[i]).liveness == a[i].liveness,
    ensures
        stale_count(a) == stale_count(b),
    decreases a.len(),
{
    if a.len() > 0 {
        assert forall|i: int| 0 <= i < b.drop_last().len() implies (
        #[trigger] b.drop_last()[i]).liveness == a.drop_last()[i].liveness by {
            assert(b[i].liveness == a[i].liveness);
        }
        lemma_same_liveness(a.drop_last(), b.drop_last());
        assert(b[b.len() - 1].liveness == a[a.len() - 1].liveness);
    }
}

/// Nothing is lost: of what a running source had queued, a drain hands over the
/// first part and leaves the rest in order, and a source with anything left is
/// still signalled. The same holds of what this process produced itself.
pub proof fn law_delivered_or_still_queued(v: RegistryView, i: int)
    requires
        v.wf(),
        0 <= i < v.sources.len(),
        v.sources[i].feed is Some,
    ensures
        drained(v).sources[i].feed is Some,
        v.sources[i].feed->0.queued == hands_over(v.sources[i], i as u64, v.ready) + drained(
            v,
        ).sources[i].feed->0.queued,
        drained(v).sources[i].feed->0.queued.len() > 0 ==> drained(v).ready.contains(i as u64),
        v.manual.queued == (if v.ready.contains(LOCAL_SLOT) {
            handed(v.manual)
        } else {
            Seq::<Event>::empty()
        }) + drained(v).manual.queued,
        drained(v).manual.queued.len() > 0 ==> drained(v).ready.contains(LOCAL_SLOT),
{
    let feed = v.sources[i].feed->0;
    law_draining_keeps_well_formed(v);
    law_a_turn_loses_nothing(feed);
    law_a_turn_loses_nothing(v.manual);
    assert(drained(v).sources[i].feed is Some);
    assert(Seq::<Event>::empty() + feed.queued =~= feed.queued);
    assert(Seq::<Event>::empty() + v.manual.queued =~= v.manual.queued);
}

/// No source starves another: every running source with anything queued hands
/// over at least one event in the next drain, however much the others have.
pub proof fn law_no_source_starves_another(v: RegistryView, i: int)
    requires
        v.wf(),
        0 <= i < v.sources.len(),
        v.sources[i].feed is Some,
        v.sources[i].feed->0.queued.len() > 0,
    ensures
        hands_over(v.sources[i], i as u64, v.ready).len() > 0,
{
}

/// Nothing spins: a drain leaves a slot signalled only for a source that has
/// something left, so that with nothing queued nothing is signalled.
pub proof fn law_nothing_spins(v: RegistryView)
    requires
        v.wf(),
        v.manual.queued.len() == 0,
        forall|i: int|
            0 <= i < v.sources.len() && (#[trigger] v.sources[i]).feed is Some
                ==> v.sources[i].feed->0.queued.len() == 0,
    ensures
        drained(v).ready == Set::<u64>::empty(),
        drained_events(v) == Seq::<(Seq<char>, Event)>::empty(),
{
    assert forall|slot: u64| !still_ready(v).contains(slot) by {
        if slot < v.sources.len() {
            let source = v.sources[slot as int];
            if source.feed is Some {
                assert(source.feed->0.queued.len() == 0);
            }
        }
    }
    assert(still_ready(v) =~= Set::<u64>::empty());
    lemma_nothing_handed(v, v.sources.len() as int);
    assert(from_source("local"@, handed(v.manual)) =~= Seq::<(Seq<char>, Event)>::empty());
    assert(drained_events(v) =~= Seq::<(Seq<char>, Event)>::empty());
}

/// Empty feeds hand over nothing.
proof fn lemma_nothing_handed(v: RegistryView, upto: int)
    requires
        0 <= upto <= v.sources.len(),
        forall|i: int|
            0 <= i < v.sources.len() && (#[trigger] v.sources[i]).feed is Some
                ==> v.sources[i].feed->0.queued.len() == 0,
    ensures
        all_handed(v.sources, v.ready, upto) == Seq::<(Seq<char>, Event)>::empty(),
    decreases upto,
{
    if upto > 0 {
        lemma_nothing_handed(v, upto - 1);
        let source = v.sources[upto - 1];
        assert(from_source(source.id, hands_over(source, (upto - 1) as u64, v.ready)) =~= Seq::<
            (Seq<char>, Event),
        >::empty());
        assert(all_handed(v.sources, v.ready, upto) =~= Seq::<(Seq<char>, Event)>::empty());
    }
}

/// Once every source has accepted what a settling asked of it and nothing is a
/// pass from being taken down, the next settling asks nothing until a claim
/// moves.
pub proof fn law_a_settled_registry_stays_settled(v: RegistryView)
    requires
        v.wf(),
        settled(v).stale == 0,
    ensures
        settling(settled(v)) == Seq::<(Seq<char>, ActionView)>::empty(),
        settled(settled(v)) == settled(v),
{
    assert(asked(asked(v.claims)) == asked(v.claims));
}

// ---------------------------------------------------------------------------
// The registry itself

/// What a drain brought.
#[derive(Debug)]
pub struct Drained {
    /// The events, each with the source that produced it.
    pub events: Vec<(SourceId, Event)>,
    /// The backlogs worth a line in the log, and how deep each is.
    pub backlogs: Vec<(SourceId, usize)>,
    /// Whether anything is left, so that the app has to be woken again.
    pub wake: bool,
}

/// Asks over plain text.
pub open spec fn ask_views(asks: Seq<(SourceId, Action)>) -> Seq<(Seq<char>, ActionView)> {
    asks.map_values(|p: (SourceId, Action)| (p.0@, p.1@))
}

/// Sources as the registry knows them.
pub open spec fn source_views(sources: Seq<Registered>) -> Seq<SourceView> {
    sources.map_values(|s: Registered| s@)
}

/// The depths of the backlogs a drain reports at the first sources.
pub open spec fn all_warned(
    sources: Seq<SourceView>,
    ready: Set<u64>,
    upto: int,
) -> Seq<(Seq<char>, nat)>
    decreases upto,
{
    if upto <= 0 {
        Seq::empty()
    } else {
        let before = all_warned(sources, ready, upto - 1);
        let source = sources[upto - 1];
        if warns(source, (upto - 1) as u64, ready) {
            before.push((source.id, after_turn(source.feed->0).queued.len()))
        } else {
            before
        }
    }
}

/// The backlogs a drain reports.
pub open spec fn drained_backlogs(v: RegistryView) -> Seq<(Seq<char>, nat)> {
    let before = all_warned(v.sources, v.ready, v.sources.len() as int);
    if v.ready.contains(LOCAL_SLOT) && reports(v.manual) {
        before.push(("local"@, after_turn(v.manual).queued.len()))
    } else {
        before
    }
}

/// Backlogs over plain text.
pub open spec fn backlog_views(backlogs: Seq<(SourceId, usize)>) -> Seq<(Seq<char>, nat)> {
    backlogs.map_values(|p: (SourceId, usize)| (p.0@, p.1 as nat))
}

/// Holds every source and decides when to start them.
pub struct Registry {
    sources: Vec<Registered>,
    providers: Providers,
    claims: Claims,
    stale: usize,
    events: Declarations,
    ready: u64,
    manual: Feed,
}

impl View for Registry {
    type V = RegistryView;

    closed spec fn view(&self) -> RegistryView {
        RegistryView {
            sources: source_views(self.sources@),
            providers: self.providers@,
            claims: self.claims@,
            stale: self.stale as nat,
            events: self.events@,
            ready: slots(self.ready),
            manual: self.manual@,
        }
    }
}

impl Registry {
    /// Whether the registry is well formed.
    pub closed spec fn wf(&self) -> bool {
        self@.wf() && self.manual.source() == "local"@
    }

    /// The order the declared events are walked in.
    pub closed spec fn declared_entries(&self) -> Seq<
        (Seq<char>, crate::declared::DeclarationView),
    > {
        self.events.entries()
    }

    /// A registry over some sources, with nothing wanted of any of them.
    pub fn over(list: Vec<Described>) -> (r: Registry)
        requires
            list@.len() <= SLOTS,
            distinct(all_described(list@)),
        ensures
            r.wf(),
            r@ == opening(all_described(list@)),
            r@.wf(),
    {
        let ghost all = all_described(list@);
        let mut list = list;
        let mut sources: Vec<Registered> = Vec::new();
        let mut providers = Providers::new();
        let n: usize = list.len();
        let mut i: usize = 0;
        proof {
            assert(source_views(sources@) =~= all.take(0));
            assert(all_described(list@) =~= all.skip(0));
        }
        while i < n
            invariant
                i <= n,
                n == all.len(),
                source_views(sources@) == all.take(i as int),
                all_described(list@) == all.skip(i as int),
                providers@ == entered(all.take(i as int)),
            decreases n - i,
        {
            proof {
                assert(all.skip(i as int)[0] == all[i as int]);
                assert(all_described(list@).len() == list@.len());
                assert(all_described(list@)[0] == described(list@[0]));
            }
            let ghost rest = list@;
            let one = list.remove(0);
            let ghost before = sources@;
            providers.add_all(&one.provides, &one.id);
            sources.push(Registered::new(one));
            proof {
                assert(all_described(list@) =~= all_described(rest).skip(1));
                assert(all.skip(i as int).skip(1) =~= all.skip(i + 1));
                assert(source_views(sources@) =~= source_views(before).push(all[i as int]));
                assert(all.take(i + 1) =~= all.take(i as int).push(all[i as int]));
                assert(all.take(i + 1).drop_last() =~= all.take(i as int));
            }
            i = i + 1;
        }
        proof {
            assert(all.take(all.len() as int) =~= all);
            lemma_no_slots();
            law_opening_is_well_formed(all);
        }
        Registry {
            sources,
            providers,
            claims: Claims::new(),
            stale: 0,
            events: Declarations::new(),
            ready: 0,
            manual: Feed::manual(SourceId("local")),
        }
    }

    /// Where a source stands.
    fn find(&self, id: &SourceId) -> (r: Option<usize>)
        requires
            distinct(self@.sources),
        ensures
            match r {
                Some(i) => position(self@.sources, id@) == Some(i as int) && i < self.sources@.len()
                    && self@.sources[i as int].id == id@,
                None => position(self@.sources, id@) is None,
            },
    {
        let ghost all = self@.sources;
        let mut i: usize = 0;
        while i < self.sources.len()
            invariant
                i <= self.sources@.len(),
                all == source_views(self.sources@),
                distinct(all),
                all == self@.sources,
                forall|j: int| 0 <= j < i ==> #[trigger] all[j].id != id@,
            decreases self.sources@.len() - i,
        {
            assert(all[i as int] == self.sources@[i as int]@);
            if self.sources[i].id().same(id) {
                proof {
                    assert(stands_at(all, id@, i as int));
                    let j = choose|j: int| stands_at(all, id@, j);
                    if j < i {
                        assert(all[j].id != id@);
                    } else if j > i {
                        assert(all[i as int].id != all[j].id);
                    }
                }
                return Some(i);
            }
            i = i + 1;
        }
        None
    }

    /// Brings one source into line with the claims out.
    fn reconcile_at(&mut self, i: usize) -> (r: Action)
        requires
            old(self).wf(),
            i < old(self)@.sources.len(),
        ensures
            final(self).wf(),
            final(self)@ == reconciled_at(old(self)@, i as int),
            r@ == due_action(old(self)@.sources[i as int], kinds_of(old(self)@.claims.live)),
            final(self).declared_entries() == old(self).declared_entries(),
    {
        let claimed = self.claims.wanted();
        self.reconcile_against(i, &claimed)
    }

    /// Brings one source into line with some claims, keeping count of those a
    /// pass from being taken down.
    fn reconcile_against(&mut self, i: usize, claimed: &KindSet) -> (r: Action)
        requires
            old(self).wf(),
            i < old(self)@.sources.len(),
            claimed@ == kinds_of(old(self)@.claims.live),
        ensures
            final(self).wf(),
            final(self)@ == reconciled_at(old(self)@, i as int),
            r@ == due_action(old(self)@.sources[i as int], claimed@),
            final(self).declared_entries() == old(self).declared_entries(),
    {
        let ghost v = self@;
        proof {
            assert(v.sources[i as int] == self.sources@[i as int]@);
            lemma_stale_update(
                v.sources,
                i as int,
                reconciled(v.sources[i as int], claimed@),
            );
            lemma_stale_bound(v.sources);
            law_reconciling_keeps_well_formed(v, i as int, true);
            if v.sources[i as int].liveness == Liveness::Stale {
                lemma_stale_counts(v.sources, i as int);
            }
        }
        let was = self.sources[i].stale();
        let action = self.sources[i].reconcile(claimed);
        let now = self.sources[i].stale();
        if now && !was {
            self.stale = self.stale + 1;
        }
        if was && !now {
            self.stale = self.stale - 1;
        }
        proof {
            assert(source_views(self.sources@) =~= v.sources.update(
                i as int,
                reconciled(v.sources[i as int], claimed@),
            ));
        }
        action
    }

    /// Pushes the declarations out to everything that mirrors them.
    fn republish(&mut self) -> (r: Action)
        requires
            exists|before: RegistryView| #[trigger]
                before.wf() && old(self)@ == (RegistryView { events: old(self)@.events, ..before }),
            old(self).manual.source() == "local"@,
        ensures
            final(self).wf(),
            final(self)@ == republished(old(self)@),
            r@ == republishing(old(self)@),
            final(self).declared_entries() == old(self).declared_entries(),
    {
        let ghost v = self@;
        proof {
            let before = choose|before: RegistryView| #[trigger]
                before.wf() && old(self)@ == (RegistryView { events: old(self)@.events, ..before });
            law_republishing_restores(before, v.events);
        }
        let id = SourceId("notifications");
        match self.find(&id) {
            Some(i) => {
                proof {
                    assert(v.sources[i as int] == self.sources@[i as int]@);
                    let before = choose|before: RegistryView| #[trigger]
                        before.wf() && v == (RegistryView { events: v.events, ..before });
                    lemma_refreshed(before, v.events, i as int);
                }
                let bridged = self.events.bridged();
                let now = union(self.sources[i].fixed(), &bridged);
                self.providers.refresh(self.sources[i].provides(), &now, &id);
                self.sources[i].set_provides(now);
                proof {
                    assert(source_views(self.sources@) =~= refreshed_at(v, i as int).sources);
                    assert(self@ == refreshed_at(v, i as int));
                }
                self.reconcile_at(i)
            },
            None => Action::Leave,
        }
    }

    /// Declares a custom event, and bridges it where it names a notification,
    /// saying what has to be done about the source that bridges.
    ///
    /// A declaration is not a subscription: nothing starts here that was not
    /// already claimed.
    pub fn declare_event(
        &mut self,
        name: EventName,
        notification: Option<NotificationName>,
    ) -> (r: Action)
        requires
            old(self).wf(),
        ensures
            final(self).wf(),
            final(self)@.wf(),
            final(self)@ == with_event(old(self)@, name@, notification_view(notification)),
            r@ == republishing(
                RegistryView {
                    events: declared(
                        old(self)@.events,
                        name@,
                        notification_view(notification),
                    ),
                    ..old(self)@
                },
            ),
    {
        let ghost before = self@;
        self.events.declare(name, notification);
        proof {
            assert(before.wf() && self@ == (RegistryView { events: self@.events, ..before }));
        }
        self.republish()
    }

    /// Marks every declaration, so that the config being read now says which it
    /// still wants by declaring it again.
    pub fn begin_config(&mut self)
        requires
            old(self).wf(),
        ensures
            final(self).wf(),
            final(self)@.wf(),
            final(self)@ == config_begun(old(self)@),
    {
        let ghost before = self@;
        self.events.begin();
        proof {
            lemma_marking_bridges_alike(before.events);
            assert forall|i: int|
                0 <= i < self@.sources.len() implies (#[trigger] self@.sources[i]).provides
                == provided(self@.sources[i], self@.events) by {
                assert(before.sources[i].provides == provided(before.sources[i], before.events));
            }
        }
    }

    /// Drops every declaration the config just read did not make again, saying
    /// what has to be done about the source that bridges.
    pub fn end_config(&mut self) -> (r: Action)
        requires
            old(self).wf(),
        ensures
            final(self).wf(),
            final(self)@.wf(),
            final(self)@ == config_ended(old(self)@),
            r@ == (if unmarked(old(self)@.events) == old(self)@.events {
                ActionView::Leave
            } else {
                republishing(RegistryView { events: unmarked(old(self)@.events), ..old(self)@ })
            }),
    {
        let ghost before = self@;
        let swept = self.events.end();
        if !swept {
            return Action::Leave;
        }
        proof {
            assert(before.wf() && self@ == (RegistryView { events: self@.events, ..before }));
        }
        self.republish()
    }

    /// Every custom event a config has declared, bridged or not, in the order of
    /// their names.
    pub fn declared_events(&self) -> (r: Vec<EventName>)
        ensures
            r@.len() == self.declared_entries().len(),
            forall|i: int|
                0 <= i < r@.len() ==> (#[trigger] r@[i])@ == self.declared_entries()[i].0,
            crate::vars::in_order(self.declared_entries()),
            crate::assoc::mapped(self.declared_entries()) == self@.events,
    {
        let mut out: Vec<EventName> = Vec::new();
        let n: usize = self.events.len();
        let mut i: usize = 0;
        while i < n
            invariant
                i <= n,
                n == self.events.entries().len(),
                out@.len() == i,
                forall|j: int|
                    0 <= j < i ==> (#[trigger] out@[j])@ == self.events.entries()[j].0,
            decreases n - i,
        {
            out.push(self.events.name_at(i).clone());
            i = i + 1;
        }
        out
    }

    /// The declared events that are bridged, each with the notification it
    /// comes from.
    pub fn declared(&self) -> (r: Vec<(EventName, NotificationName)>)
        ensures
            bridge_views(r@) == bridges(self.declared_entries(), self.declared_entries().len() as int),
    {
        let mut out: Vec<(EventName, NotificationName)> = Vec::new();
        let n: usize = self.events.len();
        let mut i: usize = 0;
        proof {
            assert(bridge_views(out@) =~= Seq::<(Seq<char>, Seq<char>)>::empty());
        }
        while i < n
            invariant
                i <= n,
                n == self.events.entries().len(),
                bridge_views(out@) == bridges(self.events.entries(), i as int),
            decreases n - i,
        {
            let ghost before = out@;
            if let Some(notification) = self.events.notification_at(i) {
                out.push((self.events.name_at(i).clone(), notification));
                proof {
                    assert(bridge_views(out@) =~= bridge_views(before).push(
                        (self.events.entries()[i as int].0, notification@),
                    ));
                }
            }
            i = i + 1;
        }
        out
    }

    /// Which sources produce an event.
    pub fn providers_of(&self, kind: &Kind<()>) -> (r: Vec<SourceId>)
        ensures
            id_views(r@) == row(self@.providers, kind@),
    {
        self.providers.of(kind)
    }

    /// Whether a source is registered with its framework.
    pub fn running(&self, id: SourceId) -> (r: bool)
        requires
            self.wf(),
        ensures
            r == (position(self@.sources, id@) matches Some(i) && self@.sources[i].running()),
    {
        match self.find(&id) {
            Some(i) => {
                assert(self@.sources[i as int] == self.sources@[i as int]@);
                self.sources[i].running()
            },
            None => false,
        }
    }

    /// Exactly what a source is registered for right now: nothing where it is
    /// not running.
    pub fn registered_for(&self, id: SourceId) -> (r: KindSet)
        requires
            self.wf(),
        ensures
            r@ == (match position(self@.sources, id@) {
                Some(i) => self@.sources[i].serving,
                None => Set::empty(),
            }),
    {
        match self.find(&id) {
            Some(i) => {
                assert(self@.sources[i as int] == self.sources@[i as int]@);
                self.sources[i].serving().copied()
            },
            None => KindSet::new(),
        }
    }

    /// Everything a source can produce.
    pub fn provided_by(&self, id: SourceId) -> (r: KindSet)
        requires
            self.wf(),
        ensures
            r@ == (match position(self@.sources, id@) {
                Some(i) => self@.sources[i].provides,
                None => Set::empty(),
            }),
    {
        match self.find(&id) {
            Some(i) => {
                assert(self@.sources[i as int] == self.sources@[i as int]@);
                self.sources[i].provides().copied()
            },
            None => KindSet::new(),
        }
    }

    /// A pass over the sources, or over the pinned ones alone.
    fn pass(&mut self, pinned_only: bool) -> (r: Vec<(SourceId, Action)>)
        requires
            old(self).wf(),
        ensures
            final(self).wf(),
            final(self)@ == after_pass(old(self)@, pinned_only),
            ask_views(r@) == all_asked(
                old(self)@.sources,
                kinds_of(old(self)@.claims.live),
                pinned_only,
            ),
            final(self).declared_entries() == old(self).declared_entries(),
    {
        let claimed = self.claims.wanted();
        let ghost v = self@;
        let ghost kinds = claimed@;
        let mut out: Vec<(SourceId, Action)> = Vec::new();
        let n: usize = self.sources.len();
        let mut i: usize = 0;
        proof {
            assert(v.sources.take(0) =~= Seq::<SourceView>::empty());
            assert(ask_views(out@) =~= Seq::<(Seq<char>, ActionView)>::empty());
        }
        while i < n
            invariant
                i <= n,
                n == v.sources.len(),
                self.wf(),
                kinds == claimed@,
                kinds == kinds_of(v.claims.live),
                self@ == (RegistryView {
                    sources: self@.sources,
                    stale: stale_count(self@.sources),
                    ..v
                }),
                self@.sources.len() == n,
                self.declared_entries() == old(self).declared_entries(),
                forall|j: int|
                    0 <= j < n ==> #[trigger] self@.sources[j] == (if j < i {
                        passed(v.sources[j], kinds, pinned_only)
                    } else {
                        v.sources[j]
                    }),
                ask_views(out@) == all_asked(v.sources.take(i as int), kinds, pinned_only),
            decreases n - i,
        {
            let ghost here = self@;
            let ghost source = v.sources[i as int];
            proof {
                assert(self@.sources[i as int] == source);
                assert(self@.sources[i as int] == self.sources@[i as int]@);
                assert(v.sources.take(i + 1).drop_last() =~= v.sources.take(i as int));
                assert(v.sources.take(i + 1).last() == source);
            }
            if !pinned_only || self.sources[i].eager() {
                let id = self.sources[i].id();
                let action = self.reconcile_against(i, &claimed);
                let ghost before = out@;
                let leaves = match &action {
                    Action::Leave => true,
                    _ => false,
                };
                if !leaves {
                    out.push((id, action));
                    proof {
                        assert(ask_views(out@) =~= ask_views(before).push(
                            (source.id, passing(source, kinds, pinned_only)),
                        ));
                    }
                }
                proof {
                    assert(self@.sources =~= here.sources.update(
                        i as int,
                        reconciled(source, kinds),
                    ));
                }
            }
            i = i + 1;
        }
        proof {
            assert(v.sources.take(n as int) =~= v.sources);
            assert(self@.sources =~= all_passed(v.sources, kinds, pinned_only));
        }
        out
    }

    /// Starts the sources that run whether or not anything wants them.
    pub fn start_eager(&mut self) -> (r: Vec<(SourceId, Action)>)
        requires
            old(self).wf(),
        ensures
            final(self).wf(),
            final(self)@.wf(),
            final(self)@ == after_pass(old(self)@, true),
            ask_views(r@) == all_asked(
                old(self)@.sources,
                kinds_of(old(self)@.claims.live),
                true,
            ),
    {
        self.pass(true)
    }

    /// Brings every source into line with the claims out, saying what has to be
    /// done about each.
    ///
    /// A pass where nothing moved does nothing, unless a source is a pass from
    /// being taken down: no claim need move for that to be due.
    pub fn settle(&mut self) -> (r: Vec<(SourceId, Action)>)
        requires
            old(self).wf(),
        ensures
            final(self).wf(),
            final(self)@.wf(),
            final(self)@ == settled(old(self)@),
            ask_views(r@) == settling(old(self)@),
    {
        let ghost v = self@;
        // Asked first and unconditionally, because asking clears it.
        let moved = self.claims.moved();
        proof {
            law_claims_stay_well_formed(
                v.claims,
                (KindView::Custom(Seq::<char>::empty()), Target::All),
                0,
            );
            assert(self@ == (RegistryView { claims: asked(v.claims), ..v }));
        }
        if !moved && self.stale == 0 {
            let none: Vec<(SourceId, Action)> = Vec::new();
            assert(ask_views(none@) =~= Seq::<(Seq<char>, ActionView)>::empty());
            return none;
        }
        self.pass(false)
    }

    /// Takes a source's answer to what it was asked.
    pub fn answer(&mut self, id: SourceId, accepted: bool)
        requires
            old(self).wf(),
        ensures
            final(self).wf(),
            final(self)@.wf(),
            final(self)@ == (match position(old(self)@.sources, id@) {
                Some(i) => with_source(
                    old(self)@,
                    i,
                    answered(old(self)@.sources[i], accepted),
                ),
                None => old(self)@,
            }),
    {
        let ghost v = self@;
        if let Some(i) = self.find(&id) {
            proof {
                assert(v.sources[i as int] == self.sources@[i as int]@);
                law_reconciling_keeps_well_formed(v, i as int, accepted);
                lemma_stale_update(
                    v.sources,
                    i as int,
                    answered(v.sources[i as int], accepted),
                );
            }
            self.sources[i].answer(accepted);
            proof {
                assert(source_views(self.sources@) =~= v.sources.update(
                    i as int,
                    answered(v.sources[i as int], accepted),
                ));
            }
        }
    }

    /// Claims an event until the handle is released.
    ///
    /// Claiming one already claimed hands back a handle on the same claim. The
    /// source is started or stopped by settling.
    pub fn watch(&mut self, who: u64, kind: &Kind<()>) -> (r: Watch)
        requires
            old(self).wf(),
            room(old(self)@.claims, bound(kind@, Watched { item: who, area: None }), who),
        ensures
            final(self).wf(),
            final(self)@.wf(),
            final(self)@ == (RegistryView {
                claims: taken(
                    old(self)@.claims,
                    (bound(kind@, Watched { item: who, area: None }), Target::All),
                    who,
                ),
                ..old(self)@
            }),
            r.key() == (bound(kind@, Watched { item: who, area: None }), Target::All),
            r.owner() == who,
            r.watched() == kind@,
    {
        self.watch_at(who, kind, &Target::All)
    }

    /// Claims an event at a target.
    pub fn watch_at(&mut self, who: u64, kind: &Kind<()>, target: &Target) -> (r: Watch)
        requires
            old(self).wf(),
            room(old(self)@.claims, bound(kind@, Watched { item: who, area: None }), who),
        ensures
            final(self).wf(),
            final(self)@.wf(),
            final(self)@ == (RegistryView {
                claims: taken(
                    old(self)@.claims,
                    (bound(kind@, Watched { item: who, area: None }), *target),
                    who,
                ),
                ..old(self)@
            }),
            r.key() == (bound(kind@, Watched { item: who, area: None }), *target),
            r.owner() == who,
            r.watched() == kind@,
    {
        let ghost v = self@;
        let r = self.claims.take(Watched::item(who), kind, target);
        proof {
            law_claims_stay_well_formed(v.claims, r.key(), who);
        }
        r
    }

    /// Claims the pointer over the rectangle an item occupies.
    pub fn watch_area(&mut self, who: u64, kind: &Kind<()>, area: Area) -> (r: Watch)
        requires
            old(self).wf(),
            room(old(self)@.claims, bound(kind@, Watched { item: who, area: Some(area) }), who),
        ensures
            final(self).wf(),
            final(self)@.wf(),
            final(self)@ == (RegistryView {
                claims: taken(
                    old(self)@.claims,
                    (bound(kind@, Watched { item: who, area: Some(area) }), Target::All),
                    who,
                ),
                ..old(self)@
            }),
            r.key() == (bound(kind@, Watched { item: who, area: Some(area) }), Target::All),
            r.owner() == who,
            r.watched() == kind@,
    {
        let ghost v = self@;
        let r = self.claims.take(Watched::over(who, area), kind, &Target::All);
        proof {
            law_claims_stay_well_formed(v.claims, r.key(), who);
        }
        r
    }

    /// Gives a handle back.
    pub fn release(&mut self, watch: Watch)
        requires
            old(self).wf(),
        ensures
            final(self).wf(),
            final(self)@.wf(),
            final(self)@ == (RegistryView {
                claims: released(old(self)@.claims, watch.key(), watch.owner()),
                ..old(self)@
            }),
    {
        let ghost v = self@;
        proof {
            law_claims_stay_well_formed(v.claims, watch.key(), watch.owner());
        }
        self.claims.release(watch);
    }

    /// Claims several events at once.
    pub fn watch_all(&mut self, who: u64, kinds: &Vec<Kind<()>>) -> (r: Vec<Watch>)
        requires
            old(self).wf(),
            forall|i: int| 0 <= i <= kinds@.len() ==> #[trigger] room_for_next(
                old(self)@.claims,
                who,
                crate::kindset::kind_views(kinds@),
                i,
            ),
        ensures
            final(self).wf(),
            final(self)@.wf(),
            final(self)@ == (RegistryView {
                claims: all_taken(
                    old(self)@.claims,
                    who,
                    crate::kindset::kind_views(kinds@),
                    kinds@.len() as int,
                ),
                ..old(self)@
            }),
            r@.len() == kinds@.len(),
            forall|i: int|
                0 <= i < r@.len() ==> (#[trigger] r@[i]).watched() == kinds@[i]@ && r@[i].owner()
                    == who && r@[i].key() == (
                    bound(kinds@[i]@, Watched { item: who, area: None }),
                    Target::All,
                ),
    {
        let ghost v = self@;
        let ghost all = crate::kindset::kind_views(kinds@);
        let mut out: Vec<Watch> = Vec::new();
        let mut i: usize = 0;
        while i < kinds.len()
            invariant
                i <= kinds@.len(),
                all == crate::kindset::kind_views(kinds@),
                self.wf(),
                forall|k: int| 0 <= k <= kinds@.len() ==> #[trigger] room_for_next(
                    v.claims,
                    who,
                    all,
                    k,
                ),
                self@ == (RegistryView {
                    claims: all_taken(v.claims, who, all, i as int),
                    ..v
                }),
                out@.len() == i,
                forall|j: int|
                    0 <= j < i ==> (#[trigger] out@[j]).watched() == kinds@[j]@ && out@[j].owner()
                        == who && out@[j].key() == (
                        bound(kinds@[j]@, Watched { item: who, area: None }),
                        Target::All,
                    ),
            decreases kinds@.len() - i,
        {
            proof {
                assert(room_for_next(v.claims, who, all, i as int));
                assert(all[i as int] == kinds@[i as int]@);
            }
            out.push(self.watch(who, &kinds[i]));
            i = i + 1;
        }
        out
    }

    /// The rectangles items have claimed the pointer over, and which displays'
    /// sets have moved since this was last asked.
    pub fn tracked_areas(&mut self) -> (r: &Areas)
        requires
            old(self).wf(),
        ensures
            final(self).wf(),
            final(self)@.wf(),
            final(self)@ == (RegistryView { claims: projected(old(self)@.claims), ..old(self)@ }),
            r@ == projected(old(self)@.claims).areas,
            r.moved_displays().to_set() == displays_moved(
                old(self)@.claims.areas,
                projected(old(self)@.claims).areas,
            ),
            r.moved_displays().no_duplicates(),
    {
        proof {
            law_claims_stay_well_formed(
                self@.claims,
                (KindView::Custom(Seq::<char>::empty()), Target::All),
                0,
            );
        }
        self.claims.areas()
    }

    /// Everybody who depends on an occurrence.
    pub fn dependents(&self, event: &Event, target: &Target) -> (r: Vec<u64>)
        ensures
            r@ == delivered_to(self@.claims.live, event_kind(*event), *target),
    {
        self.claims.dependents(event, target)
    }

    /// The same, into a list the caller keeps between events.
    pub fn dependents_into(&self, event: &Event, target: &Target, into: &mut Vec<u64>)
        ensures
            final(into)@ == delivered_to(self@.claims.live, event_kind(*event), *target),
    {
        self.claims.dependents_into(event, target, into);
    }

    /// The slots that are signalled, a bit each.
    pub fn waiting(&self) -> (r: u64)
        ensures
            slots(r) == self@.ready,
    {
        self.ready
    }

    /// Queues an event a source produced and signals it, saying whether anybody
    /// is listening to that source.
    pub fn send(&mut self, id: SourceId, event: Event) -> (r: bool)
        requires
            old(self).wf(),
        ensures
            final(self).wf(),
            final(self)@.wf(),
            final(self)@ == (match position(old(self)@.sources, id@) {
                Some(i) => sent_at(old(self)@, i, event),
                None => old(self)@,
            }),
            r == (position(old(self)@.sources, id@) matches Some(i) && old(
                self,
            )@.sources[i].running()),
    {
        let ghost v = self@;
        match self.find(&id) {
            Some(i) => {
                proof {
                    assert(v.sources[i as int] == self.sources@[i as int]@);
                    law_sending_keeps_well_formed(v, i as int, event);
                    if let Some(feed) = v.sources[i as int].feed {
                        lemma_stale_update(
                            v.sources,
                            i as int,
                            SourceView {
                                feed: Some(sent(feed, event)),
                                ..v.sources[i as int]
                            },
                        );
                    }
                    lemma_signal(self.ready, i as u64);
                }
                let heard = self.sources[i].send(event);
                if heard {
                    self.ready = self.ready | (1u64 << (i as u64));
                }
                proof {
                    assert(source_views(self.sources@) =~= sent_at(v, i as int, event).sources);
                }
                heard
            },
            None => false,
        }
    }

    /// Queues an event this process produced itself.
    pub fn emit(&mut self, event: Event)
        requires
            old(self).wf(),
        ensures
            final(self).wf(),
            final(self)@.wf(),
            final(self)@ == emitted(old(self)@, event),
    {
        proof {
            lemma_signal(self.ready, LOCAL_SLOT);
        }
        self.manual.send(event);
        self.ready = self.ready | (1u64 << LOCAL_SLOT);
    }

    /// Takes what is queued at every signalled source, without waiting.
    ///
    /// Each source hands over a bounded number of events, and one with anything
    /// left is signalled again, so that the next drain goes on where this one
    /// stopped.
    pub fn drain(&mut self) -> (r: Drained)
        requires
            old(self).wf(),
        ensures
            final(self).wf(),
            final(self)@.wf(),
            final(self)@ == drained(old(self)@),
            tagged(r.events@) == drained_events(old(self)@),
            backlog_views(r.backlogs@) == drained_backlogs(old(self)@),
            r.wake == (drained(old(self)@).ready != Set::<u64>::empty()),
    {
        let ghost v = self@;
        let signals: u64 = self.ready;
        let mut events: Vec<(SourceId, Event)> = Vec::new();
        let mut backlogs: Vec<(SourceId, usize)> = Vec::new();
        let mut left: u64 = 0;
        let mut wake = false;
        let n: usize = self.sources.len();
        let mut i: usize = 0;
        proof {
            lemma_no_slots();
            law_draining_keeps_well_formed(v);
            assert(tagged(events@) =~= Seq::<(Seq<char>, Event)>::empty());
            assert(backlog_views(backlogs@) =~= Seq::<(Seq<char>, nat)>::empty());
        }
        while i < n
            invariant
                i <= n,
                n <= SLOTS,
                n == v.sources.len(),
                n == self.sources@.len(),
                v.ready == slots(signals),
                self.providers == old(self).providers,
                self.claims == old(self).claims,
                self.stale == old(self).stale,
                self.events == old(self).events,
                self.manual == old(self).manual,
                forall|j: int|
                    0 <= j < n ==> (#[trigger] self.sources@[j])@ == (if j < i {
                        visited(v.sources[j], j as u64, v.ready)
                    } else {
                        v.sources[j]
                    }),
                tagged(events@) == all_handed(v.sources, v.ready, i as int),
                backlog_views(backlogs@) == all_warned(v.sources, v.ready, i as int),
                forall|slot: u64|
                    slots(left).contains(slot) <==> slot < i && has_left(
                        v.sources[slot as int],
                        slot,
                        v.ready,
                    ),
                wake == (slots(left) != Set::<u64>::empty()),
            decreases n - i,
        {
            let ghost source = v.sources[i as int];
            let ghost slot = i as u64;
            let ghost before_left = left;
            let ghost before_events = events@;
            let ghost before_backlogs = backlogs@;
            proof {
                assert(self.sources@[i as int]@ == source);
                assert(v.ready.contains(slot) <==> has(signals, slot));
                assert(from_source(source.id, Seq::<Event>::empty()) =~= Seq::<
                    (Seq<char>, Event),
                >::empty());
                assert(tagged(before_events) + Seq::<(Seq<char>, Event)>::empty() =~= tagged(
                    before_events,
                ));
            }
            if signals & (1u64 << (i as u64)) != 0 {
                let id = self.sources[i].id();
                if let Some(backlog) = self.sources[i].turn(&mut events) {
                    if let Some(depth) = backlog.warning {
                        backlogs.push((id, depth));
                        proof {
                            assert(backlog_views(backlogs@) =~= backlog_views(
                                before_backlogs,
                            ).push((source.id, depth as nat)));
                        }
                    }
                    if backlog.queued {
                        proof {
                            lemma_signal(left, slot);
                            assert(slots(left).insert(slot).contains(slot));
                        }
                        left = left | (1u64 << (i as u64));
                        wake = true;
                    }
                }
            }
            proof {
                assert forall|other: u64|
                    slots(left).contains(other) <==> other < i + 1 && has_left(
                        v.sources[other as int],
                        other,
                        v.ready,
                    ) by {
                    if other == slot {
                        assert(!slots(before_left).contains(slot));
                    }
                }
            }
            i = i + 1;
        }
        proof {
            assert(v.ready.contains(LOCAL_SLOT) <==> has(signals, LOCAL_SLOT));
        }
        let ghost loop_left = left;
        let ghost loop_events = events@;
        let ghost loop_backlogs = backlogs@;
        if signals & (1u64 << LOCAL_SLOT) != 0 {
            let id = self.manual.id();
            let backlog = self.manual.turn(&mut events);
            if let Some(depth) = backlog.warning {
                backlogs.push((id, depth));
                proof {
                    assert(backlog_views(backlogs@) =~= backlog_views(loop_backlogs).push(
                        ("local"@, depth as nat),
                    ));
                }
            }
            if backlog.queued {
                proof {
                    lemma_signal(left, LOCAL_SLOT);
                    assert(slots(left).insert(LOCAL_SLOT).contains(LOCAL_SLOT));
                }
                left = left | (1u64 << LOCAL_SLOT);
                wake = true;
            }
        } else {
            proof {
                assert(tagged(events@) + Seq::<(Seq<char>, Event)>::empty() =~= tagged(events@));
            }
        }
        self.ready = left;
        proof {
            assert forall|slot: u64| slots(left).contains(slot) <==> still_ready(v).contains(
                slot,
            ) by {
                if slot == LOCAL_SLOT {
                    assert(!slots(loop_left).contains(LOCAL_SLOT));
                }
            }
            assert(slots(left) =~= still_ready(v));
            assert(source_views(self.sources@) =~= drained(v).sources);
        }
        Drained { events, backlogs, wake }
    }
}

/// The kinds in either set.
fn union(a: &KindSet, b: &KindSet) -> (r: KindSet)
    ensures
        r@ == a@.union(b@),
{
    let mut out = a.copied();
    let n: usize = b.len();
    let ghost all = b.listed();
    let mut i: usize = 0;
    proof {
        assert(all.take(0).to_set() =~= Set::<KindView<()>>::empty());
        assert(a@.union(Set::<KindView<()>>::empty()) =~= a@);
    }
    while i < n
        invariant
            i <= n,
            n == all.len(),
            all == b.listed(),
            out@ == a@.union(all.take(i as int).to_set()),
        decreases n - i,
    {
        out.insert(b.at(i).copied());
        proof {
            crate::kindset::lemma_take_one_more(all, i as int);
            assert(a@.union(all.take(i as int).to_set()).insert(all[i as int]) =~= a@.union(
                all.take(i + 1).to_set(),
            ));
        }
        i = i + 1;
    }
    proof {
        assert(all.take(all.len() as int) =~= all);
    }
    out
}

/// The bridged events among the first declarations.
pub open spec fn bridges(
    entries: Seq<(Seq<char>, crate::declared::DeclarationView)>,
    upto: int,
) -> Seq<(Seq<char>, Seq<char>)>
    decreases upto,
{
    if upto <= 0 {
        Seq::empty()
    } else {
        match entries[upto - 1].1.notification {
            Some(notification) => bridges(entries, upto - 1).push(
                (entries[upto - 1].0, notification),
            ),
            None => bridges(entries, upto - 1),
        }
    }
}

/// Bridged events over plain text.
pub open spec fn bridge_views(list: Seq<(EventName, NotificationName)>) -> Seq<
    (Seq<char>, Seq<char>),
> {
    list.map_values(|p: (EventName, NotificationName)| (p.0@, p.1@))
}

/// Whether one more handle of somebody on a claim can be counted.
pub open spec fn room(claims: ClaimsView, kind: KindView<Watched>, who: u64) -> bool {
    forall|target: Target| #[trigger]
        handles_out(claims.live, (kind, target), who) < u64::MAX
}

/// The claims after the first events are claimed.
pub open spec fn all_taken(
    claims: ClaimsView,
    who: u64,
    kinds: Seq<KindView<()>>,
    upto: int,
) -> ClaimsView
    decreases upto,
{
    if upto <= 0 {
        claims
    } else {
        taken(
            all_taken(claims, who, kinds, upto - 1),
            (bound(kinds[upto - 1], Watched { item: who, area: None }), Target::All),
            who,
        )
    }
}

/// Whether the next handle can be counted after the first events are claimed.
pub open spec fn room_for_next(
    claims: ClaimsView,
    who: u64,
    kinds: Seq<KindView<()>>,
    upto: int,
) -> bool {
    upto < kinds.len() ==> room(
        all_taken(claims, who, kinds, upto),
        bound(kinds[upto], Watched { item: who, area: None }),
        who,
    )
}

/// Marking declarations changes nothing of which are bridged.
proof fn lemma_marking_bridges_alike(events: Declared)
    ensures
        bridged_kinds(all_marked(events)) == bridged_kinds(events),
{
    assert forall|kind: KindView<()>|
        bridged_kinds(all_marked(events)).contains(kind) <==> bridged_kinds(events).contains(
            kind,
        ) by {
        if bridged_kinds(events).contains(kind) {
            let name = choose|name: Seq<char>| #[trigger]
                events.contains_key(name) && events[name].notification is Some && kind
                    == KindView::<()>::Custom(name);
            assert(all_marked(events).contains_key(name));
        }
        if bridged_kinds(all_marked(events)).contains(kind) {
            let name = choose|name: Seq<char>| #[trigger]
                all_marked(events).contains_key(name) && all_marked(
                    events,
                )[name].notification is Some && kind == KindView::<()>::Custom(name);
            assert(events.contains_key(name));
        }
    }
    assert(bridged_kinds(all_marked(events)) =~= bridged_kinds(events));
}

// ---------------------------------------------------------------------------
// What holds of every registry

/// One thing that can be asked of a registry.
pub enum Step {
    /// An event is declared, bridged from a notification or not.
    Declare(Seq<char>, Option<Seq<char>>),
    /// A config begins to be read.
    Begin,
    /// A config has been read.
    End,
    /// The sources a bar depends on are started.
    StartEager,
    /// The sources are brought into line with the claims.
    Settle,
    /// A source has answered.
    Answer(Seq<char>, bool),
    /// A handle on a claim is taken.
    Take(KeyView, u64),
    /// A handle on a claim is given back.
    GiveBack(KeyView, u64),
    /// The rectangles are read.
    ReadAreas,
    /// A source has produced an event.
    Send(Seq<char>, Event),
    /// This process has produced an event.
    Emit(Event),
    /// What is queued is handed over.
    Drain,
}

/// The registry after one thing is asked of it.
pub open spec fn stepped(v: RegistryView, step: Step) -> RegistryView {
    match step {
        Step::Declare(name, notification) => with_event(v, name, notification),
        Step::Begin => config_begun(v),
        Step::End => config_ended(v),
        Step::StartEager => after_pass(v, true),
        Step::Settle => settled(v),
        Step::Answer(id, accepted) => match position(v.sources, id) {
            Some(i) => with_source(v, i, answered(v.sources[i], accepted)),
            None => v,
        },
        Step::Take(key, who) => RegistryView { claims: taken(v.claims, key, who), ..v },
        Step::GiveBack(key, who) => RegistryView { claims: released(v.claims, key, who), ..v },
        Step::ReadAreas => RegistryView { claims: projected(v.claims), ..v },
        Step::Send(id, event) => match position(v.sources, id) {
            Some(i) => sent_at(v, i, event),
            None => v,
        },
        Step::Emit(event) => emitted(v, event),
        Step::Drain => drained(v),
    }
}

/// The registry after several things are asked of it, one after another.
pub open spec fn reached(v: RegistryView, steps: Seq<Step>) -> RegistryView
    decreases steps.len(),
{
    if steps.len() == 0 {
        v
    } else {
        stepped(reached(v, steps.drop_last()), steps.last())
    }
}

/// One thing asked keeps a registry well formed, and puts at most one more
/// handle out.
proof fn lemma_stepped(v: RegistryView, step: Step, key: KeyView, who: u64)
    requires
        v.wf(),
        step matches Step::Take(on, owner) ==> handles_out(v.claims.live, on, owner) < u64::MAX,
    ensures
        stepped(v, step).wf(),
        handles_out(stepped(v, step).claims.live, key, who) <= handles_out(
            v.claims.live,
            key,
            who,
        ) + 1,
{
    match step {
        Step::Declare(name, notification) => {
            lemma_republished(v, declared(v.events, name, notification));
        },
        Step::Begin => {
            lemma_marking_bridges_alike(v.events);
            let w = config_begun(v);
            assert forall|i: int| 0 <= i < w.sources.len() implies (
            #[trigger] w.sources[i]).provides == provided(w.sources[i], w.events) by {
                assert(v.sources[i].provides == provided(v.sources[i], v.events));
            }
        },
        Step::End => {
            lemma_republished(v, unmarked(v.events));
        },
        Step::StartEager => {
            law_a_pass_keeps_well_formed(v, true);
        },
        Step::Settle => {
            law_settling_keeps_well_formed(v);
        },
        Step::Answer(id, accepted) => {
            if let Some(i) = position(v.sources, id) {
                assert(stands_at(v.sources, id, i));
                law_reconciling_keeps_well_formed(v, i, accepted);
            }
        },
        Step::Take(on, owner) => {
            law_claims_stay_well_formed(v.claims, on, owner);
            law_handles_are_counted_by_owner(v.claims.live, on, owner, key, who);
        },
        Step::GiveBack(on, owner) => {
            law_claims_stay_well_formed(v.claims, on, owner);
            lemma_giving_back_adds_none(v.claims.live, on, owner, key, who);
        },
        Step::ReadAreas => {
            law_claims_stay_well_formed(v.claims, key, who);
        },
        Step::Send(id, event) => {
            if let Some(i) = position(v.sources, id) {
                assert(stands_at(v.sources, id, i));
                law_sending_keeps_well_formed(v, i, event);
            }
        },
        Step::Emit(event) => {
            if v.sources.len() > 0 {
                law_sending_keeps_well_formed(v, 0, event);
            }
        },
        Step::Drain => {
            law_draining_keeps_well_formed(v);
        },
    }
}

/// Whatever is asked of a registry, and in whatever order, it stays well formed
/// from the first: every source that is running serves something and every other
/// serves nothing, one that has refused does not run, one that is a pass from
/// being taken down still runs, and exactly those are counted. Fewer things are
/// asked than can be counted.
pub proof fn law_every_registry_is_in_order(sources: Seq<SourceView>, steps: Seq<Step>, i: int)
    requires
        sources.len() <= SLOTS,
        distinct(sources),
        forall|j: int|
            0 <= j < sources.len() ==> {
                &&& (#[trigger] sources[j]).wf()
                &&& sources[j].provides == sources[j].fixed
                &&& sources[j].liveness == Liveness::Wanted
                &&& sources[j].feed is None
            },
        steps.len() <= u64::MAX,
    ensures
        ({
            let v = reached(opening(sources), steps);
            &&& v.wf()
            &&& v.stale == stale_count(v.sources)
            &&& 0 <= i < v.sources.len() ==> {
                &&& v.sources[i].feed is Some <==> v.sources[i].serving != Set::<
                    KindView<()>,
                >::empty()
                &&& v.sources[i].failed ==> v.sources[i].feed is None
                &&& v.sources[i].liveness == Liveness::Stale ==> v.sources[i].feed is Some
            }
        }),
{
    let v = reached(opening(sources), steps);
    lemma_reached(sources, steps, (KindView::Custom(Seq::empty()), Target::All), 0);
    if 0 <= i < v.sources.len() {
        assert(v.sources[i].wf());
    }
}

/// A registry stays well formed, and has no more handles out than things were
/// asked of it.
proof fn lemma_reached(sources: Seq<SourceView>, steps: Seq<Step>, key: KeyView, who: u64)
    requires
        sources.len() <= SLOTS,
        distinct(sources),
        forall|j: int|
            0 <= j < sources.len() ==> {
                &&& (#[trigger] sources[j]).wf()
                &&& sources[j].provides == sources[j].fixed
                &&& sources[j].liveness == Liveness::Wanted
                &&& sources[j].feed is None
            },
        steps.len() <= u64::MAX,
    ensures
        reached(opening(sources), steps).wf(),
        handles_out(reached(opening(sources), steps).claims.live, key, who) <= steps.len(),
    decreases steps.len(),
{
    if steps.len() == 0 {
        law_opening_is_well_formed(sources);
    } else {
        let short = steps.drop_last();
        lemma_reached(sources, short, key, who);
        if let Step::Take(on, owner) = steps.last() {
            lemma_reached(sources, short, on, owner);
        }
        lemma_stepped(reached(opening(sources), short), steps.last(), key, who);
    }
}

} // verus!
