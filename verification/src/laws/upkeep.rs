//! What sources are put through over time, said of what is wanted of them.

use crate::claims::{bound, kinds_of, Watched, Target};
use crate::event::KindView;
use crate::feed::after_turn;
use crate::registry::{
    all_taken, all_warned, bridges, drained_backlogs, position, republishing, stale_count,
    stands_at, unsettled, RegistryView, LOCAL_SLOT,
};
use crate::source::{demanded, due_action, reconciled, ActionView, Liveness, SourceView};
use vstd::prelude::*;

verus! {

/// A source that is marked is counted.
proof fn lemma_counted(sources: Seq<SourceView>, i: int)
    requires
        0 <= i < sources.len(),
        sources[i].liveness == Liveness::Stale,
    ensures
        stale_count(sources) > 0,
    decreases sources.len(),
{
    let short = sources.drop_last();
    if i < short.len() {
        assert(short[i] == sources[i]);
        lemma_counted(short, i);
    }
}

/// Where no source is marked none is counted.
proof fn lemma_not_counted(sources: Seq<SourceView>)
    requires
        forall|i: int|
            0 <= i < sources.len() ==> (#[trigger] sources[i]).liveness == Liveness::Wanted,
    ensures
        stale_count(sources) == 0,
    decreases sources.len(),
{
    if sources.len() > 0 {
        let short = sources.drop_last();
        assert forall|i: int| 0 <= i < short.len() implies (#[trigger] short[i]).liveness
            == Liveness::Wanted by {
            assert(short[i] == sources[i]);
        }
        assert(sources[sources.len() - 1].liveness == Liveness::Wanted);
        lemma_not_counted(short);
    }
}

/// A registry has something to settle where a source is a pass from being taken down,
/// or where what is wanted has moved, and nowhere else.
pub proof fn law_a_marked_source_is_unfinished_business(v: RegistryView, i: int)
    requires
        v.wf(),
    ensures
        0 <= i < v.sources.len() && v.sources[i].liveness == Liveness::Stale ==> unsettled(v),
        v.claims.moved ==> unsettled(v),
        !v.claims.moved && (forall|j: int|
            0 <= j < v.sources.len() ==> (#[trigger] v.sources[j]).liveness == Liveness::Wanted)
            ==> !unsettled(v),
{
    if 0 <= i < v.sources.len() && v.sources[i].liveness == Liveness::Stale {
        lemma_counted(v.sources, i);
    }
    if forall|j: int|
        0 <= j < v.sources.len() ==> (#[trigger] v.sources[j]).liveness == Liveness::Wanted {
        lemma_not_counted(v.sources);
    }
}

/// A running source that nothing wants is marked on one pass and taken down on the
/// next: it is told to stop, it runs no more, and it serves nothing. A claim in between
/// keeps it running.
pub proof fn law_a_source_is_taken_down_on_the_second_pass(
    source: SourceView,
    claimed: Set<KindView<()>>,
)
    requires
        source.wf(),
        source.running(),
        source.liveness == Liveness::Wanted,
        !source.pinned,
        forall|kind: KindView<()>| !(#[trigger] source.provides.contains(kind) && claimed.contains(
            kind,
        )),
    ensures
        due_action(source, claimed) is Leave,
        reconciled(source, claimed).running(),
        reconciled(source, claimed).serving == source.serving,
        reconciled(source, claimed).liveness == Liveness::Stale,
        due_action(reconciled(source, claimed), claimed) is Stop,
        !reconciled(reconciled(source, claimed), claimed).running(),
        reconciled(reconciled(source, claimed), claimed).serving == Set::<KindView<()>>::empty(),
        reconciled(reconciled(source, claimed), claimed).liveness == Liveness::Wanted,
        due_action(reconciled(reconciled(source, claimed), claimed), claimed) is Leave,
{
    assert(demanded(source, claimed) =~= Set::<KindView<()>>::empty());
}

/// Whether a source has fallen behind since it was last said to have.
pub open spec fn falls_behind(source: SourceView, slot: u64, ready: Set<u64>) -> bool {
    ready.contains(slot) && (source.feed matches Some(feed) && after_turn(feed).queued.len() >= 256
        && !feed.warned)
}

/// Whether a source of that name has fallen behind.
pub open spec fn one_is_behind(
    sources: Seq<SourceView>,
    ready: Set<u64>,
    upto: int,
    id: Seq<char>,
) -> bool {
    exists|j: int|
        0 <= j < upto && falls_behind(#[trigger] sources[j], j as u64, ready) && sources[j].id == id
}

/// A source that has fallen behind is reported by name and with how much it is behind,
/// and no other source is.
pub proof fn law_a_source_that_falls_behind_is_reported(
    sources: Seq<SourceView>,
    ready: Set<u64>,
    upto: int,
    i: int,
)
    requires
        0 <= i < upto <= sources.len(),
    ensures
        falls_behind(sources[i], i as u64, ready) ==> exists|k: int|
            0 <= k < all_warned(sources, ready, upto).len() && #[trigger] all_warned(
                sources,
                ready,
                upto,
            )[k] == (sources[i].id, after_turn(sources[i].feed->0).queued.len()),
        forall|k: int|
            0 <= k < all_warned(sources, ready, upto).len() ==> one_is_behind(
                sources,
                ready,
                upto,
                (#[trigger] all_warned(sources, ready, upto)[k]).0,
            ),
    decreases upto,
{
    let all = all_warned(sources, ready, upto);
    let before = all_warned(sources, ready, upto - 1);
    let last = sources[upto - 1];
    if upto > 1 {
        law_a_source_that_falls_behind_is_reported(
            sources,
            ready,
            upto - 1,
            if i < upto - 1 {
                i
            } else {
                0
            },
        );
    }
    if falls_behind(sources[i], i as u64, ready) {
        if i < upto - 1 {
            let k = choose|k: int|
                0 <= k < before.len() && #[trigger] before[k] == (
                    sources[i].id,
                    after_turn(sources[i].feed->0).queued.len(),
                );
            assert(all[k] == before[k]);
        } else {
            assert(all[all.len() - 1] == (
                sources[i].id,
                after_turn(sources[i].feed->0).queued.len(),
            ));
        }
    }
    assert forall|k: int| 0 <= k < all.len() implies one_is_behind(
        sources,
        ready,
        upto,
        (#[trigger] all[k]).0,
    ) by {
        if k < before.len() {
            assert(all[k] == before[k]);
            assert(one_is_behind(sources, ready, upto - 1, before[k].0));
            let j = choose|j: int|
                0 <= j < upto - 1 && falls_behind(#[trigger] sources[j], j as u64, ready)
                    && sources[j].id == before[k].0;
            assert(falls_behind(sources[j], j as u64, ready));
        } else {
            assert(falls_behind(sources[upto - 1], (upto - 1) as u64, ready));
        }
    }
}

/// What this process produces itself is reported as its own where it falls behind, after
/// every source that does.
pub proof fn law_this_process_is_reported_where_it_falls_behind(v: RegistryView)
    ensures
        v.ready.contains(LOCAL_SLOT) && after_turn(v.manual).queued.len() >= 256
            && !v.manual.warned ==> drained_backlogs(v) == all_warned(
            v.sources,
            v.ready,
            v.sources.len() as int,
        ).push(("local"@, after_turn(v.manual).queued.len())),
        !v.ready.contains(LOCAL_SLOT) || after_turn(v.manual).queued.len() < 256
            || v.manual.warned ==> drained_backlogs(v) == all_warned(
            v.sources,
            v.ready,
            v.sources.len() as int,
        ),
{
}

/// Whether an event of that name was declared with that notification.
pub open spec fn one_is_declared(
    entries: Seq<(Seq<char>, crate::declared::DeclarationView)>,
    upto: int,
    bridge: (Seq<char>, Seq<char>),
) -> bool {
    exists|j: int|
        0 <= j < upto && (#[trigger] entries[j]).0 == bridge.0 && entries[j].1.notification == Some(
            bridge.1,
        )
}

/// The bridges of a config are its events that were declared with a notification,
/// each with its own, and no others.
pub proof fn law_bridges_are_the_events_declared_with_one(
    entries: Seq<(Seq<char>, crate::declared::DeclarationView)>,
    upto: int,
    i: int,
)
    requires
        0 <= i < upto <= entries.len(),
    ensures
        entries[i].1.notification matches Some(notification) ==> bridges(entries, upto).contains(
            (entries[i].0, notification),
        ),
        forall|k: int|
            0 <= k < bridges(entries, upto).len() ==> one_is_declared(
                entries,
                upto,
                #[trigger] bridges(entries, upto)[k],
            ),
    decreases upto,
{
    let all = bridges(entries, upto);
    let before = bridges(entries, upto - 1);
    if upto > 1 {
        law_bridges_are_the_events_declared_with_one(
            entries,
            upto - 1,
            if i < upto - 1 {
                i
            } else {
                0
            },
        );
    }
    if let Some(notification) = entries[i].1.notification {
        if i < upto - 1 {
            assert(before.contains((entries[i].0, notification)));
            let k = choose|k: int|
                0 <= k < before.len() && before[k] == (entries[i].0, notification);
            assert(all[k] == before[k]);
        } else {
            assert(all[all.len() - 1] == (entries[i].0, notification));
        }
    }
    assert forall|k: int| 0 <= k < all.len() implies one_is_declared(
        entries,
        upto,
        #[trigger] all[k],
    ) by {
        if k < before.len() {
            assert(all[k] == before[k]);
            assert(one_is_declared(entries, upto - 1, before[k]));
            let j = choose|j: int|
                0 <= j < upto - 1 && (#[trigger] entries[j]).0 == before[k].0
                    && entries[j].1.notification == Some(before[k].1);
            assert(entries[j].0 == all[k].0);
        } else {
            assert(entries[upto - 1].0 == all[k].0);
        }
    }
}

/// Watching for several events claims each of them, for the item that watches.
pub proof fn law_watching_for_several_claims_each(
    v: crate::claims::ClaimsView,
    who: u64,
    kinds: Seq<KindView<()>>,
    upto: int,
    i: int,
)
    requires
        0 <= i < upto <= kinds.len(),
    ensures
        all_taken(v, who, kinds, upto).live.contains_key(
            (bound(kinds[i], Watched { item: who, area: None }), Target::All),
        ),
        kinds_of(all_taken(v, who, kinds, upto).live).contains(kinds[i]),
    decreases upto,
{
    let key = (bound(kinds[i], Watched { item: who, area: None }), Target::All);
    if i < upto - 1 {
        law_watching_for_several_claims_each(v, who, kinds, upto - 1, i);
    }
    let after = all_taken(v, who, kinds, upto);
    assert(after.live.contains_key(key));
    crate::claims::law_wanting_erases_whose(kinds[i], Watched { item: who, area: None });
}

/// Declaring a bridged event that is already claimed has the source of notifications
/// asked to produce it at once, where that source is idle.
pub proof fn law_a_bridge_that_is_awaited_is_opened_at_once(
    v: RegistryView,
    i: int,
    name: Seq<char>,
    notification: Seq<char>,
)
    requires
        v.wf(),
        0 <= i < v.sources.len(),
        v.sources[i].id == "notifications"@,
        !v.sources[i].running(),
        !v.sources[i].failed,
        kinds_of(v.claims.live).contains(KindView::Custom(name)),
    ensures
        republishing(
            (RegistryView {
                events: crate::declared::declared(v.events, name, Some(notification)),
                ..v
            }),
        ) matches ActionView::Start(kinds) && kinds.contains(KindView::Custom(name)),
{
    let events = crate::declared::declared(v.events, name, Some(notification));
    let u = RegistryView { events, ..v };
    crate::laws::flow::law_an_event_is_bridged_where_it_is_declared_so(events, name);
    assert(stands_at(u.sources, "notifications"@, i));
    let at = position(u.sources, "notifications"@)->0;
    assert(stands_at(u.sources, "notifications"@, at));
    assert(at == i) by {
        if at < i {
            assert(u.sources[at].id != u.sources[i].id);
        }
        if i < at {
            assert(u.sources[i].id != u.sources[at].id);
        }
    }
    let source = crate::registry::refreshed_at(u, i).sources[i];
    let claimed = kinds_of(v.claims.live);
    assert(source.provides.contains(KindView::Custom(name)));
    assert(demanded(source, claimed).contains(KindView::Custom(name)));
}

} // verus!
