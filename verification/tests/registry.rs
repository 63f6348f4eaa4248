use coolabah::event::{Event, EventName, Kind, NotificationName, SystemWoke, WifiChange};
use coolabah::feed::DRAIN_BUDGET;
use coolabah::kindset::KindSet;
use coolabah::registry::{Registry, LOCAL_SLOT};
use coolabah::source::{Action, Described, Evicting, Liveness, SourceId};
use coolabah::claims::{Area, Target};

/// A burst big enough to overrun any queue a bounded channel would have.
const BURST: usize = 1000;

const LOCAL_BIT: u64 = 1 << LOCAL_SLOT;

fn registry() -> Registry {
    Registry::new()
}

fn event(name: &str) -> EventName {
    EventName::parse(name).unwrap()
}

fn notification(name: &str) -> Option<NotificationName> {
    Some(NotificationName::parse(name).unwrap())
}

fn woke() -> Event {
    Event::SystemWoke(SystemWoke {})
}

fn names(kinds: &KindSet) -> Vec<String> {
    let mut names = Vec::new();
    for i in 0..kinds.len() {
        names.push(kinds.at(i).name().to_owned());
    }
    names.sort();
    names
}

#[test]
fn a_source_survives_the_pass_its_last_claim_goes() {
    let mut liveness = Liveness::Wanted;
    assert_eq!(liveness.evict(), Evicting::Marked);
    assert_eq!(liveness, Liveness::Stale, "marked, not taken down");
}

#[test]
fn the_next_pass_takes_a_stale_source_down() {
    let mut liveness = Liveness::Wanted;
    liveness.evict();
    assert_eq!(liveness.evict(), Evicting::Swept);
}

#[test]
fn a_claim_taken_before_the_sweep_revives_it() {
    let mut liveness = Liveness::Wanted;
    assert_eq!(liveness.evict(), Evicting::Marked);
    assert!(liveness.revive(), "that was a rescue");
    assert_eq!(liveness, Liveness::Wanted);
    // And the grace pass starts over, rather than the source coming down on
    // the next one because it was once marked.
    assert_eq!(liveness.evict(), Evicting::Marked);
}

#[test]
fn wanting_a_source_that_was_never_marked_is_not_a_rescue() {
    let mut liveness = Liveness::Wanted;
    assert!(!liveness.revive());
    assert_eq!(liveness, Liveness::Wanted);
}

#[test]
fn an_event_bridged_from_a_notification_gains_a_provider() {
    let mut registry = registry();
    let name = event("demo");
    registry.declare_event(event("demo"), notification("com.example.thing"));

    let id = SourceId("notifications");
    assert_eq!(
        registry.providers_of(&name.kind()),
        vec![id],
        "the bridge is what can serve this kind"
    );
    assert!(registry.provided_by(id).contains(&name.kind()));
    assert!(!registry.running(id), "declaring is not claiming");
}

#[test]
fn an_event_the_config_fires_itself_has_no_provider() {
    let mut registry = registry();
    let name = event("demo");
    registry.declare_event(event("demo"), None);

    assert!(registry.providers_of(&name.kind()).is_empty());
    assert!(registry.declared_events().iter().any(|held| held.as_str() == name.as_str()));
}

#[test]
fn a_config_that_stops_declaring_an_event_retires_it() {
    let mut registry = registry();
    let name = event("demo");
    registry.declare_event(event("demo"), notification("com.example.thing"));

    registry.begin_config();
    registry.end_config();

    let id = SourceId("notifications");
    assert!(registry.declared_events().is_empty());
    assert!(registry.providers_of(&name.kind()).is_empty());
    assert!(!registry.provided_by(id).contains(&name.kind()));
    assert!(
        registry.declared().is_empty(),
        "and the source is no longer told to bridge it"
    );
}

#[test]
fn a_config_that_declares_it_again_keeps_it() {
    let mut registry = registry();
    let name = event("demo");
    registry.declare_event(event("demo"), notification("com.example.thing"));

    registry.begin_config();
    registry.declare_event(event("demo"), notification("com.example.thing"));
    registry.end_config();

    assert_eq!(
        registry.providers_of(&name.kind()),
        vec![SourceId("notifications")],
        "declaring it again is what clears the mark"
    );
}

#[test]
fn a_reading_decides_what_is_declared() {
    let mut registry = registry();
    registry.declare_event(event("bridged"), notification("com.example.old"));
    registry.declare_event(event("dropped"), notification("com.example.thing"));

    registry.begin_config();
    registry.declare_event(event("fired"), notification("com.example.fired"));
    registry.declare_event(event("bridged"), notification("com.example.new"));
    registry.declare_event(event("fired"), None);
    registry.end_config();

    let mut declared: Vec<String> =
        registry.declared_events().iter().map(|held| held.as_str().to_owned()).collect();
    declared.sort();
    assert_eq!(declared, vec!["bridged", "fired"]);
    assert_eq!(
        registry.providers_of(&event("bridged").kind()),
        vec![SourceId("notifications")]
    );
    assert!(registry.providers_of(&event("fired").kind()).is_empty(), "said last is what counts");
    assert!(registry.providers_of(&event("dropped").kind()).is_empty());
}

#[test]
fn a_renamed_event_leaves_nothing_of_the_old_one_behind() {
    let mut registry = registry();
    let was = event("old");
    let now = event("new");
    registry.declare_event(event("old"), notification("com.example.thing"));

    registry.begin_config();
    registry.declare_event(event("new"), notification("com.example.thing"));
    registry.end_config();

    assert!(registry.providers_of(&was.kind()).is_empty());
    assert!(!registry.providers_of(&now.kind()).is_empty());
    let declared = registry.declared();
    assert_eq!(declared.len(), 1, "one bridge, not two");
    assert_eq!(declared[0].0.as_str(), "new");
    assert_eq!(declared[0].1.as_str(), "com.example.thing");
}

#[test]
fn the_fixed_rows_survive_a_config_bracket() {
    let mut registry = registry();
    registry.begin_config();
    registry.end_config();

    assert_eq!(
        registry.providers_of(&Kind::FrontAppSwitched),
        vec![SourceId("notifications")]
    );
}

/// Drains until nothing more is queued, counting what came out.
fn drain_all(registry: &mut Registry) -> usize {
    let mut seen = 0;
    loop {
        let before = seen;
        seen += registry.drain().events.len();
        if seen == before {
            break;
        }
    }
    seen
}

#[test]
fn a_burst_from_one_source_loses_nothing() {
    let mut registry = registry();
    for _ in 0..BURST {
        registry.emit(woke());
    }

    // One pass takes its budget and no more, and what it left is still
    // signalled: queued, with a wake pending.
    let drained = registry.drain();
    let first = drained.events.len();
    assert_eq!(first, DRAIN_BUDGET);
    assert!(drained.wake);
    assert!(
        registry.waiting() & LOCAL_BIT != 0,
        "the rest of the burst is still asking to be looked at"
    );

    assert_eq!(drain_all(&mut registry) + first, BURST);
    assert_eq!(
        registry.waiting(),
        0,
        "nothing left signalled once everything has been delivered"
    );
}

#[test]
fn an_event_emitted_mid_drain_still_arrives() {
    let mut registry = registry();
    registry.emit(woke());

    let mut seen = 0;
    for _ in registry.drain().events {
        seen += 1;
        if seen == 1 {
            registry.emit(woke());
        }
    }
    let delivered = seen + drain_all(&mut registry);
    assert_eq!(delivered, 2, "an event emitted mid-pass is not lost");
    assert_eq!(registry.waiting(), 0);
}

#[test]
fn a_chatty_source_does_not_starve_the_ones_behind_it() {
    let mut registry = registry();
    let quiet = SourceId("power");
    let _watch = registry.watch(1, &Kind::PowerSourceChanged);
    registry.settle();
    registry.answer(quiet, true);

    for _ in 0..BURST {
        registry.emit(woke());
        assert!(registry.send(quiet, woke()));
    }

    let drained = registry.drain();
    let from = |id: SourceId| drained.events.iter().filter(|(at, _)| *at == id).count();
    assert!(from(quiet) > 0, "one drain reaches both sources");
    assert!(from(SourceId("local")) > 0);
}

/// A registry whose own sources are up.
fn started() -> Registry {
    let mut registry = registry();
    registry.start_eager();
    registry.answer(SourceId("displays"), true);
    registry.answer(SourceId("config"), true);
    registry
}

#[test]
fn a_claim_starts_its_source_and_the_last_one_going_stops_it_a_pass_later() {
    let mut registry = started();
    let wifi = SourceId("wifi");
    let watch = registry.watch(1, &Kind::WifiChanged);
    let asked = registry.settle();
    let moved: Vec<&(SourceId, Action)> =
        asked.iter().filter(|(_, action)| *action != Action::Leave).collect();
    assert_eq!(moved.len(), 1);
    assert_eq!(moved[0].0, wifi);
    match &moved[0].1 {
        Action::Start(kinds) => assert_eq!(names(kinds), ["wifi_changed"]),
        other => panic!("expected a start, got {other:?}"),
    }
    registry.answer(wifi, true);
    assert!(registry.running(wifi));
    assert_eq!(names(&registry.registered_for(wifi)), ["wifi_changed"]);

    registry.release(watch);
    let held: Vec<(SourceId, Action)> = registry.settle();
    assert!(held.iter().all(|(_, action)| *action == Action::Leave), "a pass of grace");
    assert!(registry.running(wifi));

    let swept = registry.settle();
    assert!(swept.iter().any(|(id, action)| *id == wifi && *action == Action::Stop));
    assert!(!registry.running(wifi));
    assert!(!registry.send(wifi, woke()), "nobody listens to a source that is down");
}

#[test]
fn a_claim_in_between_keeps_the_source_up() {
    let mut registry = started();
    let wifi = SourceId("wifi");
    let watch = registry.watch(1, &Kind::WifiChanged);
    registry.settle();
    registry.answer(wifi, true);
    registry.release(watch);
    registry.settle();
    let _again = registry.watch(1, &Kind::WifiChanged);
    let asked = registry.settle();
    assert!(asked.iter().all(|(_, action)| *action == Action::Leave));
    assert!(registry.running(wifi));
}

#[test]
fn a_source_that_refused_is_left_alone() {
    let mut registry = registry();
    let media = SourceId("media");
    let _watch = registry.watch(1, &Kind::MediaChanged);
    let asked = registry.settle();
    assert!(asked.iter().any(|(id, action)| *id == media && *action != Action::Leave));
    registry.answer(media, false);
    assert!(!registry.running(media));
    let _more = registry.watch(2, &Kind::MediaChanged);
    let asked = registry.settle();
    assert!(asked.iter().all(|(id, action)| *id != media || *action == Action::Leave));
}

#[test]
fn what_a_bar_depends_on_runs_unasked() {
    let mut registry = registry();
    let asked = registry.start_eager();
    let started: Vec<SourceId> = asked
        .iter()
        .filter(|(_, action)| *action != Action::Leave)
        .map(|(id, _)| *id)
        .collect();
    assert_eq!(started, vec![SourceId("displays"), SourceId("config")]);
}

#[test]
fn a_display_change_comes_from_two_places() {
    let registry = registry();
    assert_eq!(
        registry.providers_of(&Kind::DisplayChanged),
        vec![SourceId("notifications"), SourceId("displays")]
    );
    assert!(registry.providers_of(&Kind::Routine).is_empty());
}

#[test]
fn a_claim_on_a_bridged_event_starts_the_bridge() {
    let mut registry = started();
    let _watch = registry.watch(4, &Kind::Custom("demo".to_owned()));
    assert!(registry.settle().iter().all(|(_, action)| *action == Action::Leave));
    match registry.declare_event(event("demo"), notification("com.example.thing")) {
        Action::Start(kinds) => assert_eq!(names(&kinds), ["demo"]),
        other => panic!("expected a start, got {other:?}"),
    }
}

#[test]
fn an_event_reaches_whoever_watches_it() {
    let mut registry = registry();
    let watches = registry.watch_all(9, &vec![Kind::SystemWoke, Kind::WifiChanged]);
    assert_eq!(watches.len(), 2);
    let joined = Event::WifiChanged(WifiChange { ssid: "home".to_owned() });
    assert_eq!(registry.dependents(&joined, &Target::All), vec![9]);
    let mut into = Vec::new();
    registry.dependents_into(&woke(), &Target::All, &mut into);
    assert_eq!(into, vec![9]);
}

#[test]
fn what_waits_is_handed_over_in_the_order_it_came() {
    let mut registry = registry();
    for space in 0..40u64 {
        registry.emit(Event::WifiChanged(WifiChange { ssid: space.to_string() }));
    }
    let mut seen = Vec::new();
    loop {
        let drained = registry.drain();
        if drained.events.is_empty() {
            break;
        }
        for (_, event) in drained.events {
            if let Event::WifiChanged(change) = event {
                seen.push(change.ssid);
            }
        }
    }
    let expected: Vec<String> = (0..40u64).map(|n| n.to_string()).collect();
    assert_eq!(seen, expected);
}

#[test]
fn a_deep_backlog_is_said_once() {
    let mut registry = registry();
    for _ in 0..BURST {
        registry.emit(woke());
    }
    let first = registry.drain();
    assert_eq!(first.backlogs.len(), 1);
    assert_eq!(first.backlogs[0].0, SourceId("local"));
    assert!(registry.drain().backlogs.is_empty());
}

#[test]
fn a_registry_over_other_sources_knows_only_those() {
    let registry = Registry::over(vec![Described {
        id: SourceId("one"),
        provides: KindSet::of(&vec![Kind::SystemWoke]),
        eager: false,
    }]);
    assert_eq!(registry.providers_of(&Kind::SystemWoke), vec![SourceId("one")]);
    assert!(registry.providers_of(&Kind::WifiChanged).is_empty());
    assert!(!registry.running(SourceId("two")));
}

#[test]
fn a_claim_over_a_rectangle_tracks_it_until_it_goes() {
    let mut registry = registry();
    let area = Area { display: 1, x: 0, y: 0, width: 40, height: 20 };
    let watch = registry.watch_area(3, &Kind::MouseEntered(()), area);
    let areas = registry.tracked_areas();
    assert_eq!(areas.on(1), vec![area]);
    assert!(areas.on(2).is_empty());
    assert_eq!(areas.changed(), &vec![1], "the display's set moved");
    assert!(registry.tracked_areas().changed().is_empty(), "asked once, it is settled");
    registry.release(watch);
    let areas = registry.tracked_areas();
    assert!(areas.on(1).is_empty());
    assert_eq!(areas.changed(), &vec![1]);
}
