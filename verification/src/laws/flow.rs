//! What becomes of a claim and of an event, said of what is claimed and sent.

use crate::claims::{
    areas_of, asked, delivered_to, displays_moved, on_display, projected, released, taken, Area,
    ClaimsView, KeyView, Target,
};
use crate::declared::{bridged_kinds, declared, Declared};
use crate::event::{Event, KindView};
use crate::feed::{after_turn, from_source, handed, reports, sent, FeedView};
use crate::registry::{
    all_handed, drained_events, emitted, hands_over, passing, position, produces, provided, row,
    sent_at, settled, stands_at, unsettled, with_event, RegistryView, LOCAL_SLOT,
};
use crate::source::{due_action, SourceView};
use vstd::prelude::*;

verus! {

// ---------------------------------------------------------------------------
// Claims

/// The first claim on something moves what is wanted, and another on the same does
/// not.
pub proof fn law_a_first_claim_moves_what_is_wanted(v: ClaimsView, key: KeyView, who: u64)
    ensures
        !v.live.contains_key(key) ==> taken(v, key, who).moved && taken(v, key, who).generation
            != v.generation,
        v.live.contains_key(key) ==> taken(v, key, who).moved == v.moved && taken(
            v,
            key,
            who,
        ).generation == v.generation,
        taken(v, key, who).live.contains_key(key),
        taken(v, key, who).projected == v.projected,
        taken(v, key, who).areas == v.areas,
{
}

/// Letting go of the last claim on something moves what is wanted, and of another
/// does not. Asking whether it moved settles it.
pub proof fn law_a_last_claim_let_go_moves_what_is_wanted(v: ClaimsView, key: KeyView, who: u64)
    ensures
        v.live.contains_key(key) && !released(v, key, who).live.contains_key(key) ==> released(
            v,
            key,
            who,
        ).moved && released(v, key, who).generation != v.generation,
        released(v, key, who).live.contains_key(key) ==> released(v, key, who).moved == v.moved
            && released(v, key, who).generation == v.generation,
        !v.live.contains_key(key) ==> released(v, key, who) == v,
        !asked(v).moved,
        asked(v).live == v.live,
        asked(v).generation == v.generation,
        asked(v).areas == v.areas,
{
}

/// What happens to one item is delivered by where it happens, and to no one by
/// claims alone.
pub proof fn law_what_happens_to_one_item_is_delivered_to_none(
    v: ClaimsView,
    kind: KindView<()>,
    target: Target,
)
    requires
        kind is Scoped,
    ensures
        delivered_to(v.live, kind, target).len() == 0,
{
}

/// The rectangles being watched are those that some item has claimed an event over.
pub proof fn law_the_rectangles_are_those_claimed(v: ClaimsView, area: Area)
    requires
        v.wf(),
        !v.wrapped,
    ensures
        projected(v).areas.contains(area) <==> exists|key: KeyView| #[trigger]
            v.live.contains_key(key) && (key.0 matches KindView::Scoped(_, who) && who.area == Some(
                area,
            )),
        projected(v).live == v.live,
        projected(v).moved == v.moved,
{
    assert(areas_of(v.live).contains(area) <==> exists|key: KeyView| #[trigger]
        v.live.contains_key(key) && crate::claims::area_of(key) == Some(area));
    if exists|key: KeyView| #[trigger]
        v.live.contains_key(key) && crate::claims::area_of(key) == Some(area) {
        let key = choose|key: KeyView| #[trigger]
            v.live.contains_key(key) && crate::claims::area_of(key) == Some(area);
        assert(v.live.contains_key(key) && (key.0 matches KindView::Scoped(_, who) && who.area
            == Some(area)));
    }
    if exists|key: KeyView| #[trigger]
        v.live.contains_key(key) && (key.0 matches KindView::Scoped(_, who) && who.area == Some(
            area,
        )) {
        let key = choose|key: KeyView| #[trigger]
            v.live.contains_key(key) && (key.0 matches KindView::Scoped(_, who) && who.area
                == Some(area));
        assert(v.live.contains_key(key) && crate::claims::area_of(key) == Some(area));
    }
}

/// A display has moved where a rectangle on it came or went, and only there.
pub proof fn law_a_display_moves_with_its_rectangles(
    was: Set<Area>,
    now: Set<Area>,
    area: Area,
    display: u32,
)
    ensures
        was.contains(area) != now.contains(area) ==> displays_moved(was, now).contains(
            area.display,
        ),
        (forall|a: Area| a.display == display ==> #[trigger] was.contains(a) == now.contains(a))
            ==> !displays_moved(was, now).contains(display),
        on_display(was, display).contains(area) <==> was.contains(area) && area.display == display,
{
    let here = area.display;
    if was.contains(area) != now.contains(area) {
        assert(on_display(was, here).contains(area) != on_display(now, here).contains(area));
    }
    if forall|a: Area| a.display == display ==> #[trigger] was.contains(a) == now.contains(a) {
        assert forall|a: Area| on_display(was, display).contains(a) == on_display(
            now,
            display,
        ).contains(a) by {
            assert(was.contains(a) == was.contains(a));
        }
        assert(on_display(was, display) =~= on_display(now, display));
    }
}

// ---------------------------------------------------------------------------
// Queues

/// What is sent comes last, and what came first is handed over first: no more than
/// thirty-two at a time. A queue that is left with two hundred and fifty-six or more
/// is reported, once until it is not.
pub proof fn law_a_queue_is_handed_over_in_order(feed: FeedView, event: Event, i: int)
    ensures
        sent(feed, event).queued.len() == feed.queued.len() + 1,
        sent(feed, event).queued.last() == event,
        0 <= i < feed.queued.len() ==> sent(feed, event).queued[i] == feed.queued[i],
        sent(feed, event).warned == feed.warned,
        handed(feed).len() == (if feed.queued.len() < 32 {
            feed.queued.len()
        } else {
            32
        }),
        0 <= i < handed(feed).len() ==> handed(feed)[i] == feed.queued[i],
        handed(feed) + after_turn(feed).queued == feed.queued,
        after_turn(feed).warned <==> after_turn(feed).queued.len() >= 256,
        reports(feed) <==> after_turn(feed).queued.len() >= 256 && !feed.warned,
{
    assert(handed(feed) + after_turn(feed).queued =~= feed.queued);
}

/// Everything a source hands over is handed over under its own name.
proof fn lemma_handed(sources: Seq<SourceView>, ready: Set<u64>, upto: int, i: int, k: int)
    requires
        0 <= i < upto <= sources.len(),
        0 <= k < hands_over(sources[i], i as u64, ready).len(),
    ensures
        exists|at: int|
            0 <= at < all_handed(sources, ready, upto).len() && #[trigger] all_handed(
                sources,
                ready,
                upto,
            )[at] == (sources[i].id, hands_over(sources[i], i as u64, ready)[k]),
    decreases upto,
{
    let all = all_handed(sources, ready, upto);
    let before = all_handed(sources, ready, upto - 1);
    let last = from_source(
        sources[upto - 1].id,
        hands_over(sources[upto - 1], (upto - 1) as u64, ready),
    );
    if i == upto - 1 {
        assert(last[k] == (sources[i].id, hands_over(sources[i], i as u64, ready)[k]));
        assert(all[before.len() + k] == last[k]);
    } else {
        lemma_handed(sources, ready, upto - 1, i, k);
        let at = choose|at: int|
            0 <= at < before.len() && #[trigger] before[at] == (
                sources[i].id,
                hands_over(sources[i], i as u64, ready)[k],
            );
        assert(all[at] == before[at]);
    }
}

/// What a running source sends is handed over under that source's name, on the next
/// turn where the source is not behind.
pub proof fn law_what_a_source_sends_is_handed_over(v: RegistryView, i: int, event: Event)
    requires
        0 <= i < v.sources.len() <= 63,
        v.sources[i].feed matches Some(feed) && feed.queued.len() < 32,
    ensures
        exists|at: int|
            0 <= at < drained_events(sent_at(v, i, event)).len() && #[trigger] drained_events(
                sent_at(v, i, event),
            )[at] == (v.sources[i].id, event),
{
    let u = sent_at(v, i, event);
    let feed = v.sources[i].feed->0;
    let source = u.sources[i];
    assert(u.ready.contains(i as u64));
    let k = feed.queued.len() as int;
    assert(source.feed == Some(sent(feed, event)));
    assert(handed(sent(feed, event))[k] == event);
    lemma_handed(u.sources, u.ready, u.sources.len() as int, i, k);
    let first = all_handed(u.sources, u.ready, u.sources.len() as int);
    let at = choose|at: int|
        0 <= at < first.len() && #[trigger] first[at] == (
            u.sources[i].id,
            hands_over(u.sources[i], i as u64, u.ready)[k],
        );
    assert(drained_events(u)[at] == first[at]);
}

/// What this process produces itself is handed over as its own, on the next turn
/// where it is not behind.
pub proof fn law_what_is_emitted_is_handed_over(v: RegistryView, event: Event)
    requires
        v.manual.queued.len() < 32,
    ensures
        exists|at: int|
            0 <= at < drained_events(emitted(v, event)).len() && #[trigger] drained_events(
                emitted(v, event),
            )[at] == ("local"@, event),
        emitted(v, event).sources == v.sources,
        emitted(v, event).claims == v.claims,
{
    let u = emitted(v, event);
    let k = v.manual.queued.len() as int;
    let first = all_handed(u.sources, u.ready, u.sources.len() as int);
    let own = from_source("local"@, handed(u.manual));
    assert(u.ready.contains(LOCAL_SLOT));
    assert(handed(u.manual)[k] == event);
    assert(own[k] == ("local"@, event));
    assert(drained_events(u)[first.len() + k] == own[k]);
}

/// What a source that does not run sends is lost, and changes nothing.
pub proof fn law_what_nobody_listens_to_is_lost(v: RegistryView, i: int, event: Event)
    requires
        0 <= i < v.sources.len(),
        !v.sources[i].running(),
    ensures
        sent_at(v, i, event) == v,
{
}

// ---------------------------------------------------------------------------
// Sources and the events of a config

/// The sources on record for an event are those that can produce it, each once.
pub proof fn law_the_record_of_sources_is_right(
    v: RegistryView,
    kind: KindView<()>,
    id: Seq<char>,
)
    requires
        v.wf(),
    ensures
        row(v.providers, kind).contains(id) <==> exists|i: int|
            0 <= i < v.sources.len() && #[trigger] v.sources[i].id == id
                && v.sources[i].provides.contains(kind),
{
    assert(crate::registry::row_is_right(v.sources, v.providers, kind));
}

/// An event of a config's own is bridged exactly where it was declared with a
/// notification.
pub proof fn law_an_event_is_bridged_where_it_is_declared_so(events: Declared, name: Seq<char>)
    ensures
        bridged_kinds(events).contains(KindView::Custom(name)) <==> events.contains_key(name)
            && events[name].notification is Some,
{
    if events.contains_key(name) && events[name].notification is Some {
        assert(KindView::<()>::Custom(name) == KindView::<()>::Custom(name));
    }
}

/// What listens for notifications produces the events that are bridged besides its
/// own, and no other source produces any but its own.
pub proof fn law_notifications_produce_what_is_bridged(
    source: SourceView,
    events: Declared,
    kind: KindView<()>,
)
    ensures
        source.id == "notifications"@ ==> (provided(source, events).contains(kind)
            <==> source.fixed.contains(kind) || bridged_kinds(events).contains(kind)),
        source.id != "notifications"@ ==> (provided(source, events).contains(kind)
            <==> source.fixed.contains(kind)),
{
}

/// Declaring an event with a notification has the source of notifications produce
/// it, and declaring it without has it produced by none.
pub proof fn law_a_declared_event_is_produced(
    v: RegistryView,
    i: int,
    name: Seq<char>,
    notification: Option<Seq<char>>,
)
    requires
        v.wf(),
        0 <= i < v.sources.len(),
        v.sources[i].id == "notifications"@,
        !v.sources[i].fixed.contains(KindView::Custom(name)),
    ensures
        with_event(v, name, notification).sources.len() == v.sources.len(),
        with_event(v, name, notification).sources[i].provides.contains(KindView::Custom(name))
            <==> notification is Some,
        with_event(v, name, notification).events.contains_key(name),
        with_event(v, name, notification).events[name].notification == notification,
        with_event(v, name, notification).sources[i].id == "notifications"@,
{
    let events = declared(v.events, name, notification);
    law_an_event_is_bridged_where_it_is_declared_so(events, name);
    let u = RegistryView { events, ..v };
    assert(stands_at(u.sources, "notifications"@, i));
    let at = position(u.sources, "notifications"@)->0;
    assert(stands_at(u.sources, "notifications"@, at));
    assert(at == i) by {
        if at < i {
            assert(u.sources[at].id != u.sources[i].id);
        }
        if i < at {
            assert(u.sources[i].id != u.sources[at].id);
        }
    }
}

/// What is kept running is started before anything is claimed, and nothing else is
/// asked anything then.
pub proof fn law_only_what_is_kept_running_is_started_early(
    source: SourceView,
    claimed: Set<KindView<()>>,
)
    ensures
        !source.pinned ==> passing(source, claimed, true) is Leave,
        source.pinned ==> passing(source, claimed, true) == due_action(source, claimed),
        passing(source, claimed, false) == due_action(source, claimed),
{
}

/// Settling answers every move: nothing is left moved, and the claims are as they
/// were.
pub proof fn law_settling_answers_every_move(v: RegistryView)
    ensures
        !settled(v).claims.moved,
        settled(v).claims.live == v.claims.live,
        settled(v).sources.len() == v.sources.len(),
        v.claims.moved ==> unsettled(v),
        v.stale > 0 ==> unsettled(v),
        !unsettled(v) ==> settled(v).sources == v.sources,
        settled(v).events == v.events,
        settled(v).ready == v.ready,
        settled(v).manual == v.manual,
{
}

} // verus!
