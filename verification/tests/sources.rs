use coolabah::event::{
    AccessibilityChange, Event, EventName, Kind, Modifiers, MouseButton, NotificationName,
    PowerSource, SpaceChange, SpaceWindowsChange,
};
use coolabah::kindset::KindSet;
use coolabah::measure::Measure;
use coolabah::modules::Located;
use coolabah::source::SourceId;
use coolabah::sources::accessibility::{
    may_replace, tcc_directories, usable, Accessibility, Check, Grant, RESTARTED,
};
use coolabah::sources::cause::{Cause, StartError};
use coolabah::sources::media::Media;
use coolabah::sources::mouse::{asked_for, decode, wants_hover, Mouse, MouseKind, Reading};
use coolabah::sources::notifications::{
    app_launched, bridged, display_changed, front_app, rows, will_sleep, woke, Centre, Installed, Notifications,
};
use coolabah::sources::power::{
    adapter_watts, charge_percent, internal_battery, measured_watts, providing_source, read,
    same_side, Described, Found, Power, PowerKey, Side,
};
use coolabah::sources::spaces::{
    leading_space_id, space_changed, space_windows_changed, Notice, Spaces,
};
use coolabah::sources::watcher::{touches, Runs, Watcher, DEBOUNCE};
use coolabah::sources::wifi::Wifi;

fn measure(value: f64) -> Measure {
    Measure { bits: value.to_bits(), text: value.to_string() }
}

fn wanting(kinds: Vec<Kind<()>>) -> KindSet {
    KindSet::of(&kinds)
}

#[test]
fn the_replacement_marker_is_what_stops_a_second_one() {
    assert!(may_replace(false));
    assert!(!may_replace(true));
    assert_eq!(RESTARTED, "COOLABAH_AX_RESTARTED");
}

#[test]
fn both_tcc_directories_are_watched_when_there_is_a_home() {
    let dirs = tcc_directories(Some("/Users/someone"));
    assert!(dirs.iter().any(|d| d.starts_with("/Library")));
    assert_eq!(dirs.len(), 2);
    assert!(dirs.iter().any(|d| d.starts_with("/Users/someone/Library")));
    assert_eq!(tcc_directories(None).len(), 1);
}

#[test]
fn a_grant_is_reported_when_it_moves_and_this_process_is_replaced_at_most_once() {
    assert!(!usable(Grant::NotTrusted));
    assert!(!usable(Grant::ApiDisabled));
    assert!(usable(Grant::NoFrontApp), "nothing to ask against is no answer");
    let mut source = Accessibility::new(Grant::NotTrusted);
    assert_eq!(source.check(Grant::NotTrusted, false), Check::Unchanged);
    assert_eq!(
        source.check(Grant::Usable, false),
        Check::Report(Event::AccessibilityChanged(AccessibilityChange { trusted: true }))
    );
    assert_eq!(source.check(Grant::ApiDisabled, false), Check::Replace);
    assert_eq!(
        source.check(Grant::ApiDisabled, true),
        Check::Report(Event::AccessibilityChanged(AccessibilityChange { trusted: false }))
    );
}

#[test]
fn a_source_that_cannot_start_says_which_and_why() {
    let err = Media.run().unwrap_err();
    assert_eq!(
        err.to_string(),
        "could not start the media event source: MediaRemote is entitlement-blocked on this OS"
    );
    let causes = [
        Cause::NoConfigFile,
        Cause::NoParentDirectory("/".into()),
        Cause::Watch("gone".into()),
        Cause::NoOutputDevice,
        Cause::CoreAudio(-50),
        Cause::CoreGraphics("CGError(1)".into()),
        Cause::IoKit,
        Cause::NotMainThread,
        Cause::NoBrightnessControl,
        Cause::DynamicStore,
        Cause::MediaRemoteBlocked,
    ];
    for (i, cause) in causes.iter().enumerate() {
        for other in &causes[i + 1..] {
            assert_ne!(cause.to_string(), other.to_string());
        }
    }
    assert_eq!(
        Cause::CoreAudio(-50).to_string(),
        "CoreAudio refused a listener (status -50)"
    );
    assert_eq!(StartError::new(SourceId("wifi"), Cause::DynamicStore).id, SourceId("wifi"));
}

#[test]
fn a_space_is_the_first_eight_bytes() {
    let mut payload = 7u64.to_le_bytes().to_vec();
    assert_eq!(leading_space_id(&payload), Some(7));
    payload.extend([1, 2, 3, 4]);
    assert_eq!(leading_space_id(&payload), Some(7));
    assert_eq!(leading_space_id(&payload[..7]), None);
    assert_eq!(leading_space_id(&u64::MAX.to_le_bytes()), Some(u64::MAX));
    assert_eq!(
        space_windows_changed(&7u64.to_le_bytes()),
        Some(Event::SpaceWindowsChanged(SpaceWindowsChange { space: 7 }))
    );
    assert_eq!(space_windows_changed(&[]), None);
    assert_eq!(
        space_changed(Some((1, 7))),
        Some(Event::SpaceChanged(SpaceChange { display: 1, space: 7 }))
    );
    assert_eq!(space_changed(None), None);
}

#[test]
fn every_number_registered_for_means_something() {
    for number in Spaces.numbers() {
        assert!(Spaces::notice(number).is_some());
    }
    assert_eq!(Spaces::notice(1401), Some(Notice::Changed));
    assert_eq!(Spaces::notice(1325), Some(Notice::Windows));
    assert_eq!(Spaces::notice(1402), None);
}

fn file(directory: Option<&str>, name: &str) -> Located {
    Located {
        whole: format!("{}/{name}", directory.unwrap_or("")),
        directory: directory.map(str::to_owned),
        file: Some(name.to_owned()),
    }
}

#[test]
fn a_save_is_told_by_the_path_or_by_the_files_name() {
    let config = file(Some("/home/.config"), "init.lua");
    assert!(touches(&config.copied(), &config));
    assert!(touches(&file(Some("/private/home/.config"), "init.lua"), &config));
    assert!(!touches(&file(Some("/home/.config"), "other.lua"), &config));

    let watcher = Watcher { config: Some(config) };
    assert_eq!(watcher.watched().unwrap(), "/home/.config");
    assert!(watcher.changed(&vec![
        file(Some("/home/.config"), "other.lua"),
        file(Some("/home/.config"), "init.lua"),
    ]));
    assert!(!watcher.changed(&vec![]));
    assert_eq!(watcher.event().kind(), Kind::ConfigReloaded);
    assert_eq!(DEBOUNCE, 250);
}

#[test]
fn a_config_that_is_nowhere_cannot_be_watched() {
    let none = Watcher { config: None };
    assert_eq!(
        none.watched().unwrap_err().to_string(),
        "could not start the config event source: there is no config file"
    );
    assert!(!none.changed(&vec![file(Some("/"), "init.lua")]));
    let rootless = Watcher { config: Some(file(None, "init.lua")) };
    assert!(rootless.watched().is_err());
}

#[test]
fn a_failed_run_leaves_the_generation_where_it_was() {
    let mut runs = Runs::new();
    runs.finished(&Ok(()));
    assert_eq!((runs.generation, runs.last_error.clone()), (1, None));
    runs.finished(&Runs::without_config());
    assert_eq!(runs.generation, 1);
    assert_eq!(runs.last_error.as_deref(), Some("there is no config file to run"));
    runs.finished(&Ok(()));
    assert_eq!((runs.generation, runs.last_error), (2, None));
}

#[test]
fn a_network_is_news_once() {
    let mut wifi = Wifi::new();
    let key = "State:/Network/Interface/en0/AirPort";
    assert_eq!(wifi.decide(key, Some("home".into())).unwrap().ssid, "home");
    assert!(wifi.decide(key, Some("home".into())).is_none());
    assert_eq!(wifi.decide(key, None).unwrap().ssid, "");
    assert!(wifi.decide(key, None).is_none());
    // Another interface has a network of its own.
    assert!(wifi.decide("State:/Network/Interface/en1/AirPort", None).is_some());
    assert!(Wifi::registered(true, true, true).is_ok());
    assert!(Wifi::registered(true, true, false).is_err());
    assert!(Wifi::registered(true, false, true).is_err());
    assert!(Wifi::registered(false, true, true).is_err());
}

#[test]
fn a_mouse_kind_comes_back_from_its_code() {
    for kind in [
        MouseKind::Up,
        MouseKind::Entered,
        MouseKind::Exited,
        MouseKind::WheelMoved,
        MouseKind::Scroll,
    ] {
        assert_eq!(MouseKind::from_code(kind.code()), Some(kind));
        assert_eq!(kind.spec().class, u32::from_be_bytes(*b"mous"));
    }
    assert_eq!(MouseKind::from_code(1), None);
}

fn reading(button: i64) -> Reading {
    Reading {
        x: measure(4.0),
        y: measure(5.0),
        modifiers: Modifiers::empty(),
        button,
        delta: measure(-1.5),
    }
}

#[test]
fn a_released_button_is_a_click_and_a_wheel_a_scroll() {
    match decode(MouseKind::Up, reading(1)) {
        Some(Event::MouseClicked(click)) => {
            assert_eq!(click.button, MouseButton::Right);
            assert_eq!(click.x, measure(4.0));
        }
        other => panic!("{other:?}"),
    }
    match decode(MouseKind::Scroll, reading(0)) {
        Some(Event::MouseScrolled(scroll)) => assert_eq!(scroll.scroll_delta, measure(-1.5)),
        other => panic!("{other:?}"),
    }
    assert_eq!(decode(MouseKind::Entered, reading(0)), None);
}

#[test]
fn hovering_is_asked_for_only_where_it_is_wanted() {
    let clicks = wanting(vec![Kind::MouseClicked(())]);
    let hovers = wanting(vec![Kind::MouseClicked(()), Kind::MouseEntered(())]);
    assert!(!wants_hover(&clicks));
    assert!(wants_hover(&hovers));
    assert_eq!(asked_for(false).len(), 3);
    assert_eq!(asked_for(true).len(), 5);

    let mut mouse = Mouse::new();
    assert!(mouse.update(&hovers).is_none(), "nothing is registered to widen");
    assert_eq!(mouse.run(&clicks).len(), 3);
    assert!(mouse.update(&clicks).is_none());
    assert_eq!(mouse.update(&hovers).unwrap().len(), 5);
    assert_eq!(mouse.observe(Some(MouseKind::Entered), Some(reading(0))), None);
    assert_eq!(mouse.current_position(), Some((measure(4.0), measure(5.0))));
    assert!(mouse.observe(Some(MouseKind::Up), Some(reading(0))).is_some());
    assert!(mouse.observe(None, Some(reading(0))).is_none());
}

#[test]
fn there_is_no_crossing_where_nobody_hovers() {
    let clicks = wanting(vec![Kind::MouseClicked(())]);
    let hovers = wanting(vec![Kind::MouseEntered(())]);

    let mut mouse = Mouse::new();
    mouse.run(&clicks);
    assert_eq!(mouse.observe(Some(MouseKind::Entered), Some(reading(0))), None);
    assert_eq!(mouse.current_position(), None, "nobody asked where it is");

    mouse.run(&hovers);
    assert_eq!(mouse.observe(Some(MouseKind::Entered), Some(reading(0))), None);
    assert_eq!(mouse.current_position(), Some((measure(4.0), measure(5.0))));
    mouse.run(&clicks);
    assert_eq!(mouse.current_position(), None, "and it is forgotten with the asking");
}

#[test]
fn what_is_observed_follows_what_is_wanted() {
    let declared: Vec<(EventName, NotificationName)> =
        vec![("demo".parse().unwrap(), "com.example.thing".parse().unwrap())];
    let all = rows(&declared);
    assert_eq!(all.len(), 6);
    assert_eq!(all[5].name, "com.example.thing");
    assert_eq!(all[5].centre, Centre::Distributed);

    let mut source = Notifications::new();
    let waking = wanting(vec![Kind::SystemWoke]);
    let first = source.update(&declared, &waking);
    assert_eq!(first.len(), 1);
    assert_eq!(first[0].name, "NSWorkspaceDidWakeNotification");
    assert!(source.update(&declared, &waking).is_empty(), "twice is once");
    let both = wanting(vec![Kind::SystemWoke, Kind::Custom("demo".into())]);
    let second = source.update(&declared, &both);
    assert_eq!(second.len(), 1);
    assert_eq!(second[0].kind, Kind::Custom("demo".into()));
    // Wanting less lets go, so that wanting more asks again.
    assert!(source.update(&declared, &wanting(vec![])).is_empty());
    assert!(!source.installed.has(Centre::Workspace, &Kind::SystemWoke));
    assert_eq!(source.update(&declared, &waking).len(), 1);

    let mut installed = Installed::new();
    assert!(installed.on(Centre::Workspace, Kind::SystemWoke), "the first opens the centre");
    assert!(!installed.on(Centre::Workspace, Kind::AppLaunched));
    assert_eq!(Centre::Workspace.to_string(), "NSWorkspace");
}

#[test]
fn a_notification_means_one_event() {
    match front_app(Some("Finder".into())) {
        Event::FrontAppSwitched(front) => assert_eq!(front.app, "Finder"),
        other => panic!("{other:?}"),
    }
    match app_launched(None) {
        Event::AppLaunched(launch) => assert_eq!(launch.app, ""),
        other => panic!("{other:?}"),
    }
    assert_eq!(will_sleep().kind(), Kind::SystemWillSleep);
    assert_eq!(woke().kind(), Kind::SystemWoke);
    assert_eq!(display_changed().kind(), Kind::DisplayChanged);
    let name: EventName = "demo".parse().unwrap();
    let carried = vec![
        (Some("VAR".to_owned()), Some("1".to_owned())),
        (Some("NUMBER".to_owned()), None),
        (None, Some("x".to_owned())),
    ];
    match bridged(&name, &carried) {
        Event::Custom(custom) => {
            assert_eq!(custom.name, "demo");
            assert_eq!(custom.vars.len(), 1);
            assert_eq!(custom.vars.get("VAR"), Some("1"));
        }
        other => panic!("{other:?}"),
    }
}

fn internal(current: i64, max: i64) -> Described {
    Described {
        kind: Some("InternalBattery".to_owned()),
        current: Some(current),
        max: Some(max),
        charging: Some(true),
        time_to_empty: Some(-1),
        time_to_full: Some(41),
    }
}

#[test]
fn a_charge_is_a_percentage_within_a_hundred() {
    assert_eq!(charge_percent(80, 100), 80);
    assert_eq!(charge_percent(2, 3), 66);
    assert_eq!(charge_percent(120, 100), 100);
    assert_eq!(charge_percent(-5, 100), 0);
    assert_eq!(charge_percent(i64::MAX, i64::MAX), 100);
}

#[test]
fn the_battery_is_the_one_inside() {
    let ups = Described { kind: Some("UPS".to_owned()), ..internal(1, 100) };
    let found = internal_battery(&vec![ups, internal(80, 100), internal(10, 100)]).unwrap();
    assert_eq!(found.charge, 80);
    assert!(found.charging);
    assert_eq!(found.time_to_empty_minutes, None, "no estimate is no estimate");
    assert_eq!(found.time_to_full_minutes, Some(41));
    assert!(internal_battery(&vec![]).is_none());
    assert_eq!(PowerKey::MaxCapacity.name(), "Max Capacity");
}

#[test]
fn watts_are_volts_times_amperes_to_the_nearest() {
    assert_eq!(measured_watts(Some(-1000), Some(12_000)), Some(12));
    assert_eq!(measured_watts(Some(1500), Some(12_400)), Some(19));
    assert_eq!(measured_watts(Some(1), Some(-1)), None);
    assert_eq!(measured_watts(None, Some(12_000)), None);
    assert_eq!(adapter_watts(Some(96)), Some(96));
    assert_eq!(adapter_watts(Some(-1)), None);
    assert_eq!(adapter_watts(None), None);
}

fn plugged(minutes: i64) -> Found {
    Found {
        providing: Some("AC Power".to_owned()),
        sources: vec![Described { time_to_full: Some(minutes), ..internal(80, 100) }],
        adapter: Some(96),
        amperage: Some(2500),
        voltage: Some(12_000),
    }
}

#[test]
fn a_reading_says_only_what_its_side_can() {
    let snapshot = read(&Some(plugged(41)));
    assert_eq!(
        snapshot.power_source,
        PowerSource::Ac {
            adapter_watts: Some(96),
            charging: true,
            time_to_full_minutes: Some(41),
        }
    );
    assert_eq!((snapshot.watts, snapshot.charge), (Some(30), Some(80)));
    let drawing = Found { providing: Some("Battery Power".to_owned()), ..plugged(41) };
    assert_eq!(
        providing_source(&Some(drawing)),
        PowerSource::Battery { time_to_empty_minutes: None }
    );
    assert_eq!(providing_source(&None), PowerSource::Unknown);
    assert_eq!(Side::of(&Some("AC Power".to_owned())), Side::Ac);
    assert_eq!(Side::of(&None), Side::Unknown);
}

#[test]
fn an_estimate_of_time_is_not_news() {
    let mut power = Power::new();
    assert!(power.decide(read(&Some(plugged(41)))).is_some(), "the first reading is");
    assert!(power.decide(read(&Some(plugged(40)))).is_none());
    let change = power.decide(read(&None)).unwrap();
    assert_eq!(change.power_source, PowerSource::Unknown);
    assert!(same_side(
        PowerSource::Battery { time_to_empty_minutes: Some(1) },
        PowerSource::Battery { time_to_empty_minutes: None },
    ));
    assert!(!same_side(PowerSource::Unknown, PowerSource::Battery { time_to_empty_minutes: None }));
}
