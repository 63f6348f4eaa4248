//! What is asked of the sources, said of what is claimed.

use crate::claims::{bound, kinds_of, law_taken_is_wanted, taken, Target, Watched};
use crate::event::{bare_kind, KindView, Topic};
use crate::providers::{not_named, reindexed, without, Index};
use crate::registry::{
    after_pass, all_asked, opening, passing, produces, settling, unsettled, RegistryView,
};
use crate::source::{
    answered, demanded, described, due_action, reconciled, ActionView, Described, Liveness,
    SourceView,
};
use crate::sources::{kinds_named, known_sources, law_sources_are_told_apart};
use vstd::prelude::*;

verus! {

/// Which source an event comes from. Two of them come of the bar's own running,
/// and from no source. A display can change of itself, or with what is in front.
pub open spec fn comes_from(topic: Topic, id: Seq<char>) -> bool {
    match topic {
        Topic::Routine | Topic::Forced => false,
        Topic::FrontAppSwitched
        | Topic::AppLaunched
        | Topic::SystemWoke
        | Topic::SystemWillSleep => id == "notifications"@,
        Topic::DisplayChanged => id == "notifications"@ || id == "displays"@,
        Topic::ConfigReloaded => id == "config"@,
        Topic::PowerSourceChanged => id == "power"@,
        Topic::MouseEntered
        | Topic::MouseExited
        | Topic::MouseEnteredGlobal
        | Topic::MouseExitedGlobal
        | Topic::MouseClicked
        | Topic::MouseScrolled
        | Topic::MouseScrolledGlobal => id == "mouse"@,
        Topic::VolumeChanged => id == "volume"@,
        Topic::BrightnessChanged => id == "brightness"@,
        Topic::WifiChanged => id == "wifi"@,
        Topic::SpaceChanged | Topic::SpaceWindowsChanged => id == "spaces"@,
        Topic::MediaChanged => id == "media"@,
        Topic::AccessibilityChanged => id == "accessibility"@,
    }
}

/// Some topics are named by their kinds, and no others are.
proof fn lemma_named(topics: Seq<Topic>, topic: Topic)
    ensures
        kinds_named(topics).contains(bare_kind(topic)) <==> topics.contains(topic),
        forall|text: Seq<char>| !kinds_named(topics).contains(KindView::Custom(text)),
{
    let all = topics.map_values(|t: Topic| bare_kind(t));
    if topics.contains(topic) {
        let i = choose|i: int| 0 <= i < topics.len() && topics[i] == topic;
        assert(all[i] == bare_kind(topic));
    }
    if all.contains(bare_kind(topic)) {
        let i = choose|i: int| 0 <= i < all.len() && all[i] == bare_kind(topic);
        assert(topics[i] == topic);
    }
}

/// A topic among one, two, five or seven.
proof fn lemma_among(a: Topic, b: Topic, c: Topic, d: Topic, e: Topic, f: Topic, g: Topic, x: Topic)
    ensures
        seq![a].contains(x) <==> x == a,
        seq![a, b].contains(x) <==> (x == a || x == b),
        seq![a, b, c, d, e].contains(x) <==> (x == a || x == b || x == c || x == d || x == e),
        seq![a, b, c, d, e, f, g].contains(x) <==> (x == a || x == b || x == c || x == d || x == e
            || x == f || x == g),
{
    let one = seq![a];
    let two = seq![a, b];
    let five = seq![a, b, c, d, e];
    let seven = seq![a, b, c, d, e, f, g];
    assert(one[0] == a);
    assert(two[0] == a && two[1] == b);
    assert(five[0] == a && five[1] == b && five[2] == c && five[3] == d && five[4] == e);
    assert(seven[0] == a && seven[1] == b && seven[2] == c && seven[3] == d && seven[4] == e
        && seven[5] == f && seven[6] == g);
}

/// One topic alone.
proof fn lemma_alone(a: Topic, x: Topic)
    ensures
        seq![a].contains(x) <==> x == a,
{
    assert(seq![a][0] == a);
}

/// Every event of the system comes from a source of a fresh registry, from the
/// one that watches for it, and from no other. An event of a config's own comes
/// from none of them yet.
#[verifier::spinoff_prover]
#[verifier::rlimit(60)]
pub proof fn law_every_event_has_its_source(topic: Topic, id: Seq<char>, text: Seq<char>)
    ensures
        produces(opening(known_sources()).sources, id, bare_kind(topic)) <==> comes_from(topic, id),
        !(topic is Routine) && !(topic is Forced) ==> exists|i: int|
            0 <= i < known_sources().len() && comes_from(topic, #[trigger] known_sources()[i].id)
                && known_sources()[i].provides.contains(bare_kind(topic)),
        !produces(opening(known_sources()).sources, id, KindView::Custom(text)),
{
    let all = known_sources();
    law_sources_are_told_apart();
    assert forall|i: int| 0 <= i < all.len() implies (#[trigger] all[i].provides.contains(
        bare_kind(topic),
    ) <==> comes_from(topic, all[i].id)) && !all[i].provides.contains(KindView::Custom(text)) by {
        lemma_names_apart();
        lemma_named(crate::sources::notifications::fixed_topics(), topic);
        lemma_named(crate::sources::mouse::mouse_topics(), topic);
        lemma_named(seq![Topic::DisplayChanged], topic);
        lemma_named(seq![Topic::ConfigReloaded], topic);
        lemma_named(seq![Topic::PowerSourceChanged], topic);
        lemma_named(seq![Topic::VolumeChanged], topic);
        lemma_named(seq![Topic::BrightnessChanged], topic);
        lemma_named(seq![Topic::WifiChanged], topic);
        lemma_named(seq![Topic::SpaceChanged, Topic::SpaceWindowsChanged], topic);
        lemma_named(seq![Topic::MediaChanged], topic);
        lemma_named(seq![Topic::AccessibilityChanged], topic);
        lemma_alone(Topic::DisplayChanged, topic);
        lemma_alone(Topic::ConfigReloaded, topic);
        lemma_alone(Topic::PowerSourceChanged, topic);
        lemma_alone(Topic::VolumeChanged, topic);
        lemma_alone(Topic::BrightnessChanged, topic);
        lemma_alone(Topic::WifiChanged, topic);
        lemma_alone(Topic::MediaChanged, topic);
        lemma_alone(Topic::AccessibilityChanged, topic);
        lemma_among(
            Topic::SpaceChanged,
            Topic::SpaceWindowsChanged,
            topic,
            topic,
            topic,
            topic,
            topic,
            topic,
        );
        lemma_among(
            Topic::FrontAppSwitched,
            Topic::AppLaunched,
            Topic::SystemWoke,
            Topic::SystemWillSleep,
            Topic::DisplayChanged,
            topic,
            topic,
            topic,
        );
        lemma_among(
            Topic::MouseClicked,
            Topic::MouseScrolled,
            Topic::MouseScrolledGlobal,
            Topic::MouseEntered,
            Topic::MouseExited,
            Topic::MouseEnteredGlobal,
            Topic::MouseExitedGlobal,
            topic,
        );
    }
    lemma_ids();
    if comes_from(topic, id) {
        assert(exists|i: int| 0 <= i < all.len() && #[trigger] all[i].id == id);
    }
    if !(topic is Routine) && !(topic is Forced) {
        assert(exists|i: int| 0 <= i < all.len() && comes_from(topic, #[trigger] all[i].id));
    }
}

/// The names of the sources, one by one.
proof fn lemma_ids()
    ensures
        known_sources().len() == 11,
        known_sources()[0].id == "notifications"@,
        known_sources()[1].id == "displays"@,
        known_sources()[2].id == "config"@,
        known_sources()[3].id == "power"@,
        known_sources()[4].id == "mouse"@,
        known_sources()[5].id == "volume"@,
        known_sources()[6].id == "brightness"@,
        known_sources()[7].id == "wifi"@,
        known_sources()[8].id == "spaces"@,
        known_sources()[9].id == "media"@,
        known_sources()[10].id == "accessibility"@,
{
}

/// No two of those names are one.
proof fn lemma_names_apart()
    ensures
        forall|i: int, j: int|
            0 <= i < j < known_sources().len() ==> #[trigger] known_sources()[i].id
                != #[trigger] known_sources()[j].id,
        known_sources()[0].id == "notifications"@,
        known_sources()[1].id == "displays"@,
        known_sources()[2].id == "config"@,
        known_sources()[3].id == "power"@,
        known_sources()[4].id == "mouse"@,
        known_sources()[5].id == "volume"@,
        known_sources()[6].id == "brightness"@,
        known_sources()[7].id == "wifi"@,
        known_sources()[8].id == "spaces"@,
        known_sources()[9].id == "media"@,
        known_sources()[10].id == "accessibility"@,
{
    law_sources_are_told_apart();
    lemma_ids();
}

/// In a fresh registry the displays and the config run whether or not anything
/// asks, and nothing else does. Nothing has been asked of any source, and none has
/// refused.
pub proof fn law_only_the_displays_and_the_config_are_kept_running(i: int)
    requires
        0 <= i < known_sources().len(),
    ensures
        known_sources()[i].pinned <==> (known_sources()[i].id == "displays"@
            || known_sources()[i].id == "config"@),
        !known_sources()[i].running(),
        !known_sources()[i].failed,
        known_sources()[i].fixed == known_sources()[i].provides,
        known_sources()[i].due is Leave,
        known_sources()[i].liveness == Liveness::Wanted,
{
    lemma_names_apart();
}

/// A source as it is entered is the one that was described, and idle.
pub proof fn law_a_source_is_entered_as_described(source: Described)
    ensures
        described(source).id == source.id@,
        described(source).provides == source.provides@,
        described(source).fixed == source.provides@,
        described(source).pinned == source.eager,
        !described(source).running(),
        !described(source).failed,
        described(source).wf(),
{
}

/// What a source is asked, said of each event. Where it is to run, it is asked for
/// the events it produces that are claimed, or for all it produces where it runs
/// regardless. A source that has refused is asked nothing, and one that serves what
/// is wanted is left alone.
pub proof fn law_a_source_is_asked_for_what_is_wanted(
    source: SourceView,
    claimed: Set<KindView<()>>,
    kind: KindView<()>,
)
    requires
        source.wf(),
    ensures
        source.failed ==> due_action(source, claimed) is Leave,
        due_action(source, claimed) matches ActionView::Start(kinds) ==> !source.running() && (
        kinds.contains(kind) <==> source.provides.contains(kind) && (source.pinned
            || claimed.contains(kind))),
        due_action(source, claimed) matches ActionView::Update(kinds) ==> source.running() && (
        kinds.contains(kind) <==> source.provides.contains(kind) && (source.pinned
            || claimed.contains(kind))),
        due_action(source, claimed) is Stop ==> source.running() && source.liveness
            == Liveness::Stale && !(source.provides.contains(kind) && (source.pinned
            || claimed.contains(kind))),
        !source.failed && source.provides.contains(kind) && (source.pinned || claimed.contains(
            kind,
        )) && !source.running() ==> due_action(source, claimed) is Start,
        source.provides.contains(kind) && (source.pinned || claimed.contains(kind))
            && source.running() && !source.serving.contains(kind) ==> due_action(
            source,
            claimed,
        ) is Update,
        source.running() && source.serving.contains(kind) && !(source.provides.contains(kind) && (
        source.pinned || claimed.contains(kind))) && source.liveness == Liveness::Stale
            ==> !(due_action(source, claimed) is Leave),
{
    assert(demanded(source, claimed).contains(kind) <==> source.provides.contains(kind) && (
    source.pinned || claimed.contains(kind)));
}

/// What a source that is asked to run comes to serve is what it was asked for, and
/// one that refuses serves nothing and has failed. Its name, what it produces and
/// whether it is kept running stay.
pub proof fn law_an_answer_is_taken_at_its_word(
    source: SourceView,
    claimed: Set<KindView<()>>,
    accepted: bool,
)
    requires
        source.wf(),
        due_action(source, claimed) is Start || due_action(source, claimed) is Update,
    ensures
        ({
            let after = answered(reconciled(source, claimed), accepted);
            let kinds = match due_action(source, claimed) {
                ActionView::Start(kinds) => kinds,
                ActionView::Update(kinds) => kinds,
                _ => Set::empty(),
            };
            &&& after.running() == accepted
            &&& after.failed == !accepted
            &&& accepted ==> after.serving == kinds && due_action(after, claimed) is Leave
            &&& !accepted ==> after.serving == Set::<KindView<()>>::empty()
            &&& after.id == source.id && after.provides == source.provides && after.fixed
                == source.fixed && after.pinned == source.pinned
            &&& after.due is Leave
            &&& after.liveness == Liveness::Wanted
        }),
{
}

/// Whatever a source is to do is asked of it, under its own name.
proof fn lemma_asked(
    sources: Seq<SourceView>,
    claimed: Set<KindView<()>>,
    pinned_only: bool,
    i: int,
)
    requires
        0 <= i < sources.len(),
        !(passing(sources[i], claimed, pinned_only) is Leave),
    ensures
        exists|k: int|
            0 <= k < all_asked(sources, claimed, pinned_only).len() && #[trigger] all_asked(
                sources,
                claimed,
                pinned_only,
            )[k] == (sources[i].id, passing(sources[i], claimed, pinned_only)),
    decreases sources.len(),
{
    let asks = all_asked(sources, claimed, pinned_only);
    let before = all_asked(sources.drop_last(), claimed, pinned_only);
    if i == sources.len() - 1 {
        assert(asks[before.len() as int] == (
            sources[i].id,
            passing(sources[i], claimed, pinned_only),
        ));
    } else {
        lemma_asked(sources.drop_last(), claimed, pinned_only, i);
        let k = choose|k: int|
            0 <= k < before.len() && #[trigger] before[k] == (
                sources[i].id,
                passing(sources[i], claimed, pinned_only),
            );
        assert(asks[k] == before[k]);
    }
}

/// Whatever is asked is asked of a source there is, and is what it is to do.
pub proof fn law_what_is_asked_is_due(v: RegistryView, k: int)
    requires
        0 <= k < settling(v).len(),
    ensures
        !(settling(v)[k].1 is Leave),
        exists|i: int|
            0 <= i < v.sources.len() && #[trigger] v.sources[i].id == settling(v)[k].0
                && due_action(v.sources[i], kinds_of(v.claims.live)) == settling(v)[k].1,
{
    lemma_due(v.sources, kinds_of(v.claims.live), k);
}

/// The same of a list of sources.
proof fn lemma_due(sources: Seq<SourceView>, claimed: Set<KindView<()>>, k: int)
    requires
        0 <= k < all_asked(sources, claimed, false).len(),
    ensures
        !(all_asked(sources, claimed, false)[k].1 is Leave),
        exists|i: int|
            0 <= i < sources.len() && #[trigger] sources[i].id == all_asked(
                sources,
                claimed,
                false,
            )[k].0 && due_action(sources[i], claimed) == all_asked(sources, claimed, false)[k].1,
    decreases sources.len(),
{
    let short = sources.drop_last();
    let before = all_asked(short, claimed, false);
    if k < before.len() {
        lemma_due(short, claimed, k);
        let i = choose|i: int|
            0 <= i < short.len() && #[trigger] short[i].id == before[k].0 && due_action(
                short[i],
                claimed,
            ) == before[k].1;
        assert(sources[i].id == before[k].0);
    } else {
        assert(sources[sources.len() - 1].id == all_asked(sources, claimed, false)[k].0);
    }
}

/// A claim on an event that a source produces, where the source is idle and has not
/// refused, has settling ask that source to start, for that event among what it is
/// started for.
pub proof fn law_a_claim_starts_its_source(v: RegistryView, i: int, kind: KindView<()>)
    requires
        v.wf(),
        unsettled(v),
        0 <= i < v.sources.len(),
        v.sources[i].provides.contains(kind),
        !v.sources[i].running(),
        !v.sources[i].failed,
        kinds_of(v.claims.live).contains(kind) || v.sources[i].pinned,
    ensures
        exists|k: int|
            0 <= k < settling(v).len() && #[trigger] settling(v)[k].0 == v.sources[i].id && (
            settling(v)[k].1 matches ActionView::Start(kinds) && kinds.contains(kind)),
{
    let claimed = kinds_of(v.claims.live);
    law_a_source_is_asked_for_what_is_wanted(v.sources[i], claimed, kind);
    lemma_asked(v.sources, claimed, false, i);
    let k = choose|k: int|
        0 <= k < all_asked(v.sources, claimed, false).len() && #[trigger] all_asked(
            v.sources,
            claimed,
            false,
        )[k] == (v.sources[i].id, due_action(v.sources[i], claimed));
    assert(settling(v)[k].0 == v.sources[i].id);
}

/// A claim on any event of the system, taken in a fresh registry, has settling ask
/// the source it comes from to start, for that event among what it is started for.
pub proof fn law_the_first_claim_starts_the_source_of_its_event(
    topic: Topic,
    who: Watched,
    target: Target,
)
    requires
        !(topic is Routine),
        !(topic is Forced),
    ensures
        ({
            let fresh = opening(known_sources());
            let v = RegistryView {
                claims: taken(fresh.claims, (bound(bare_kind(topic), who), target), who.item),
                ..fresh
            };
            exists|k: int|
                0 <= k < settling(v).len() && comes_from(topic, (#[trigger] settling(v)[k]).0) && (
                settling(v)[k].1 matches ActionView::Start(kinds) && kinds.contains(
                    bare_kind(topic),
                ))
        }),
{
    let fresh = opening(known_sources());
    let kind = bare_kind(topic);
    let key = (bound(kind, who), target);
    let v = RegistryView { claims: taken(fresh.claims, key, who.item), ..fresh };
    law_every_event_has_its_source(topic, "mouse"@, "mouse"@);
    let i = choose|i: int|
        0 <= i < known_sources().len() && comes_from(topic, #[trigger] known_sources()[i].id)
            && known_sources()[i].provides.contains(kind);
    law_only_the_displays_and_the_config_are_kept_running(i);
    law_taken_is_wanted(fresh.claims.live, kind, who, target);
    let claimed = kinds_of(v.claims.live);
    assert(v.sources[i].wf());
    law_a_source_is_asked_for_what_is_wanted(v.sources[i], claimed, kind);
    lemma_asked(v.sources, claimed, false, i);
    let k = choose|k: int|
        0 <= k < all_asked(v.sources, claimed, false).len() && #[trigger] all_asked(
            v.sources,
            claimed,
            false,
        )[k] == (v.sources[i].id, due_action(v.sources[i], claimed));
    assert(unsettled(v));
    assert(settling(v)[k].0 == v.sources[i].id);
}

/// Whether a source stands behind an event.
pub open spec fn stands_behind(index: Index, id: Seq<char>, kind: KindView<()>) -> bool {
    index.contains_key(kind) && index[kind].contains(id)
}

/// A source whose events change stands behind those that come and no longer behind those
/// that go. What it stood behind else, and what every other source stands behind, stays.
pub proof fn law_a_source_stands_behind_what_it_produces_now(
    index: Index,
    was: Set<KindView<()>>,
    now: Set<KindView<()>>,
    id: Seq<char>,
    other: Seq<char>,
    kind: KindView<()>,
)
    ensures
        stands_behind(reindexed(index, was, now, id), other, kind) <==> if other == id
            && was.contains(kind) != now.contains(kind) {
            now.contains(kind)
        } else {
            stands_behind(index, other, kind)
        },
        reindexed(index, was, now, id).contains_key(kind) && (index.contains_key(kind)
            ==> index[kind].len() > 0) ==> reindexed(index, was, now, id)[kind].len() > 0,
        now.contains(kind) && !was.contains(kind) && !stands_behind(index, id, kind)
            ==> reindexed(index, was, now, id)[kind].last() == id,
{
    let after = reindexed(index, was, now, id);
    if index.contains_key(kind) {
        let ids = index[kind];
        let kept = ids.filter(not_named(id));
        ids.filter_lemma(not_named(id));
        if kept.contains(other) {
            ids.lemma_filter_contains_rev(not_named(id), other);
        }
        if ids.contains(other) && other != id {
            let i = choose|i: int| 0 <= i < ids.len() && ids[i] == other;
            assert(not_named(id)(ids[i]));
            assert(kept.contains(ids[i]));
        }
        if now.contains(kind) && !was.contains(kind) && !ids.contains(id) {
            assert(after[kind] == ids.push(id));
            assert(ids.push(id)[ids.len() as int] == id);
            if ids.contains(other) {
                let i = choose|i: int| 0 <= i < ids.len() && ids[i] == other;
                assert(ids.push(id)[i] == other);
            }
        }
    } else if now.contains(kind) && !was.contains(kind) {
        assert(!without(index, was.difference(now), id).contains_key(kind));
        assert(after[kind] == seq![id]);
        assert(seq![id][0] == id);
    }
}

/// A pass over the pinned sources brings each of them in step with what is claimed, and
/// leaves every other as it is. A pass over all of them brings each in step.
pub proof fn law_a_pass_reaches_those_it_is_over(v: RegistryView, i: int)
    requires
        0 <= i < v.sources.len(),
    ensures
        after_pass(v, true).sources.len() == v.sources.len(),
        after_pass(v, false).sources.len() == v.sources.len(),
        v.sources[i].pinned ==> after_pass(v, true).sources[i] == reconciled(
            v.sources[i],
            kinds_of(v.claims.live),
        ),
        !v.sources[i].pinned ==> after_pass(v, true).sources[i] == v.sources[i],
        after_pass(v, false).sources[i] == reconciled(v.sources[i], kinds_of(v.claims.live)),
        !v.sources[i].pinned ==> passing(v.sources[i], kinds_of(v.claims.live), true)
            == ActionView::Leave,
        v.sources[i].pinned ==> passing(v.sources[i], kinds_of(v.claims.live), true) == due_action(
            v.sources[i],
            kinds_of(v.claims.live),
        ),
        passing(v.sources[i], kinds_of(v.claims.live), false) == due_action(
            v.sources[i],
            kinds_of(v.claims.live),
        ),
{
}

} // verus!
