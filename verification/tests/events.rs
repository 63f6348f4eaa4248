use coolabah::event::{
    AccessibilityChange, Custom, Event, EventName, Kind, Modifiers, MouseButton, MouseClick,
    NotificationName, PowerChange, PowerSource, SpaceChange, SystemWoke, Topic, VolumeChange,
};
use coolabah::json::Json;
use coolabah::measure::Measure;
use coolabah::project::{collected, enum_pairs, struct_pairs, EnvFields, Entry};
use coolabah::vars::Vars;

fn get(vars: &Vars, name: &str) -> String {
    match vars.get(name) {
        Some(value) => value.to_owned(),
        None => panic!("{name} is not set"),
    }
}

fn measure(value: f64) -> Measure {
    Measure { bits: value.to_bits(), text: value.to_string() }
}

fn kind(text: &str) -> Kind<()> {
    Kind::parse(text).unwrap()
}

#[test]
fn built_in_names_round_trip() {
    let all = Kind::built_in();
    assert!(!all.is_empty());
    for kind in all {
        assert_eq!(Kind::parse(kind.name()).as_ref(), Ok(&kind));
    }
}

#[test]
fn dashes_and_case_are_accepted() {
    assert_eq!("front-app-switched".parse::<Kind<()>>(), Ok(Kind::FrontAppSwitched));
    assert_eq!("SYSTEM_WOKE".parse::<Kind<()>>(), Ok(Kind::SystemWoke));
}

#[test]
fn custom_events_are_still_validated() {
    assert_eq!("my.event".parse::<Kind<()>>(), Ok(Kind::Custom("my.event".into())));
    assert!("has space".parse::<Kind<()>>().is_err());
    assert!("".parse::<Kind<()>>().is_err());
}

#[test]
fn an_event_knows_its_own_kind() {
    let event = Event::VolumeChanged(VolumeChange { volume: 42 });
    assert_eq!(event.kind(), Kind::VolumeChanged);
}

#[test]
fn a_single_field_becomes_info_directly() {
    let env = Event::VolumeChanged(VolumeChange { volume: 42 }).env();
    assert_eq!(get(&env, "SENDER"), "volume_changed");
    assert_eq!(get(&env, "INFO"), "42");
    assert_eq!(get(&env, "VOLUME"), "42");
}

#[test]
fn several_fields_become_a_json_object_and_named_variables() {
    let env = Event::SpaceChanged(SpaceChange { display: 2, space: 7 }).env();
    assert_eq!(get(&env, "DISPLAY"), "2");
    assert_eq!(get(&env, "SPACE"), "7");
    let info = get(&env, "INFO");
    assert!(info.contains("\"display\""), "several fields render as an object: {info}");
    assert_eq!(info, "{\"display\":\"2\",\"space\":\"7\"}");
}

#[test]
fn event_an_empty_payload_still_sets_info_so_a_script_never_sees_it_unset() {
    let env = Event::SystemWoke(SystemWoke {}).env();
    assert_eq!(get(&env, "INFO"), "");
}

#[test]
fn a_custom_events_variables_reach_the_script_by_name() {
    let mut vars = Vars::new();
    vars.insert("VAR".to_owned(), "Test".to_owned());
    vars.insert("OTHER".to_owned(), "2".to_owned());
    let event = Event::Custom(Custom { name: "demo".into(), vars });
    assert_eq!(event.kind(), Kind::Custom("demo".into()));

    let env = event.env();
    assert_eq!(get(&env, "SENDER"), "demo");
    assert_eq!(get(&env, "VAR"), "Test");
    assert_eq!(get(&env, "OTHER"), "2");
}

#[test]
fn a_custom_event_with_one_variable_puts_it_in_info() {
    let mut vars = Vars::new();
    vars.insert("value".to_owned(), "hi".to_owned());
    let event = Event::Custom(Custom { name: "my.event".into(), vars });
    let env = event.env();
    assert_eq!(get(&env, "SENDER"), "my.event");
    assert_eq!(get(&env, "INFO"), "hi");
}

#[test]
fn a_custom_events_variables_are_upper_cased_whatever_they_are_made_of() {
    let mut vars = Vars::new();
    vars.insert("größe".to_owned(), "1".to_owned());
    let env = Event::Custom(Custom { name: "demo".into(), vars }).env();
    assert_eq!(get(&env, "GRÖSSE"), "1");
}

#[test]
fn a_tag_matches_only_its_own_event() {
    let volume = Event::VolumeChanged(VolumeChange { volume: 42 });
    assert!(Kind::VolumeChanged.matches(&volume));
    assert!(!Kind::SystemWoke.matches(&volume));
}

#[test]
fn custom_tags_match_by_name() {
    let mine = Event::Custom(Custom::new("mine"));
    assert!(Kind::Custom("mine".into()).matches(&mine));
    assert!(!Kind::Custom("yours".into()).matches(&mine));
    assert!(!Kind::VolumeChanged.matches(&mine));
}

#[test]
fn matching_agrees_with_the_tag_an_event_reports() {
    // The two must not be able to disagree.
    for kind in Kind::built_in() {
        let event = kind.copied().into_event();
        assert_eq!(event.kind(), kind);
        assert!(kind.matches(&event));
    }
}

#[test]
fn mouse_events_keep_the_dotted_names_a_config_writes() {
    assert_eq!("mouse.clicked".parse::<Kind<()>>(), Ok(Kind::MouseClicked(())));
    assert_eq!("mouse.scrolled.global".parse::<Kind<()>>(), Ok(Kind::MouseScrolledGlobal));
    assert_eq!(Kind::MouseEnteredGlobal.name(), "mouse.entered.global");
}

#[test]
fn a_scoped_kind_recasts_its_item_and_leaves_the_rest_alone() {
    assert_eq!(Kind::MouseClicked(()).map(|()| 7), Kind::<i32>::MouseClicked(7));
    assert_eq!(Kind::SystemWoke.map(|()| 7), Kind::<i32>::SystemWoke);
}

#[test]
fn only_a_scoped_kind_carries_an_item_to_read_back() {
    assert_eq!(Kind::MouseClicked(()).map(|()| 7).item(), Some(&7));
    assert_eq!(Kind::SystemWoke.map(|()| 7).item(), None);
    assert_eq!(Kind::<i32>::Custom("mine".into()).item(), None);
}

#[test]
fn a_click_reports_its_button_and_modifiers_by_name() {
    let mut modifiers = Modifiers::empty();
    modifiers.cmd = true;
    modifiers.shift = true;
    let click = Event::MouseClicked(MouseClick {
        button: MouseButton::Right,
        modifiers,
        x: measure(100.0),
        y: measure(8.0),
    });
    let env = click.env();
    assert_eq!(get(&env, "BUTTON"), "right");
    assert_eq!(get(&env, "MODIFIERS"), "shift,cmd");
    assert_eq!(get(&env, "X"), "100");
    assert_eq!(get(&env, "Y"), "8");
}

#[test]
fn no_modifiers_reads_as_none_rather_than_empty() {
    // A script comparing against "" would be a trap.
    assert_eq!(Modifiers::empty().to_string(), "none");
}

#[test]
fn modifiers_come_back_from_the_bits_they_are() {
    for bits in 0..32u8 {
        assert_eq!(Modifiers::from_bits_truncate(bits).bits(), bits);
    }
    assert!(Modifiers::from_bits_truncate(0).is_empty());
    assert_eq!(Modifiers::from_bits_truncate(0xff).bits(), 31);
}

#[test]
fn a_determinate_field_still_flattens_into_the_environment() {
    let env = Event::PowerSourceChanged(PowerChange {
        power_source: PowerSource::Ac {
            adapter_watts: Some(96),
            charging: true,
            time_to_full_minutes: Some(41),
        },
        watts: Some(30),
        charge: Some(80),
    })
    .env();
    assert_eq!(get(&env, "POWER_SOURCE"), "AC");
    assert_eq!(get(&env, "ADAPTER_WATTS"), "96");
    assert_eq!(get(&env, "CHARGING"), "true");
    assert_eq!(get(&env, "TIME_TO_FULL_MINUTES"), "41");
    // The other side's number is present and empty, never missing.
    assert_eq!(get(&env, "TIME_TO_EMPTY_MINUTES"), "");
    assert_eq!(get(&env, "WATTS"), "30");
    assert_eq!(get(&env, "CHARGE"), "80");
    // `INFO` keys stay lower-case while the variables are upper-cased, and an
    // expanded field appears in both.
    let info = get(&env, "INFO");
    assert!(info.contains("\"adapter_watts\":\"96\""), "{info}");
    assert!(info.contains("\"power_source\":\"AC\""), "{info}");
}

#[test]
fn a_variant_that_cannot_be_charging_says_so_rather_than_leaving_a_hole() {
    let env = Event::PowerSourceChanged(PowerChange {
        power_source: PowerSource::Battery { time_to_empty_minutes: Some(212) },
        watts: Some(12),
        charge: Some(64),
    })
    .env();
    assert_eq!(get(&env, "POWER_SOURCE"), "BATTERY");
    assert_eq!(get(&env, "TIME_TO_EMPTY_MINUTES"), "212");
    // On battery is discharging by definition, and saying `false` is worth
    // more to a script than an empty it would have to interpret.
    assert_eq!(get(&env, "CHARGING"), "false");
    assert_eq!(get(&env, "ADAPTER_WATTS"), "");
    assert_eq!(get(&env, "TIME_TO_FULL_MINUTES"), "");
}

#[test]
fn an_unknown_power_source_still_sets_every_name() {
    let env = Event::PowerSourceChanged(PowerChange::default()).env();
    assert_eq!(get(&env, "POWER_SOURCE"), "UNKNOWN");
    for name in [
        "ADAPTER_WATTS",
        "CHARGING",
        "TIME_TO_FULL_MINUTES",
        "TIME_TO_EMPTY_MINUTES",
        "WATTS",
        "CHARGE",
    ] {
        assert_eq!(get(&env, name), "", "{name} is present and empty, never missing");
    }
}

#[test]
fn every_power_source_sets_the_same_names() {
    let names = |power_source: PowerSource| {
        let change = PowerChange { power_source, watts: None, charge: None };
        let env = Event::PowerSourceChanged(change).env();
        (0..env.len()).map(|i| env.name_at(i).to_owned()).collect::<Vec<_>>()
    };
    let battery = names(PowerSource::Battery { time_to_empty_minutes: None });
    assert!(battery.contains(&"ADAPTER_WATTS".to_owned()), "{battery:?}");
    assert_eq!(
        names(PowerSource::Ac {
            adapter_watts: Some(96),
            charging: true,
            time_to_full_minutes: None,
        }),
        battery
    );
    assert_eq!(names(PowerChange::default().power_source), battery);
}

#[test]
fn an_event_made_from_its_name_holds_nothing() {
    match kind("mouse.scrolled").into_event() {
        Event::MouseScrolled(scroll) => {
            assert_eq!(scroll.scroll_delta, measure(0.0));
            assert_eq!((scroll.x, scroll.y), (measure(0.0), measure(0.0)));
            assert_eq!(scroll.modifiers, Modifiers::empty());
        }
        other => panic!("{other:?}"),
    }
    match kind("media_changed").into_event() {
        Event::MediaChanged(change) => assert_eq!(change.media, Json::Null),
        other => panic!("{other:?}"),
    }
    match kind("power_source_changed").into_event() {
        Event::PowerSourceChanged(change) => assert_eq!(change, PowerChange::default()),
        other => panic!("{other:?}"),
    }
}

#[test]
fn no_variable_is_prefixed() {
    let env = Event::VolumeChanged(VolumeChange { volume: 42 }).env();
    for i in 0..env.len() {
        assert!(!env.name_at(i).starts_with("COOLABAH_"), "{}", env.name_at(i));
    }
}

fn fields(pairs: Vec<(String, String)>) -> Vars {
    collected(&pairs, false)
}

fn env_fields(pairs: Vec<(String, String)>) -> Vars {
    collected(&pairs, true)
}

fn entry(name: &str, value: &str, nested: Vec<(String, String)>) -> Entry {
    Entry { name: name.to_owned(), value: value.to_owned(), nested }
}

/// A nested enum of its own, which is not a payload.
#[derive(Debug, Clone, Copy)]
enum Quality {
    Good { confidence: u8 },
    /// Stale by definition, so it says so rather than leaving a hole.
    Stale { age_seconds: u32 },
    Unknown,
}

impl Quality {
    fn word(self) -> String {
        match self {
            Quality::Good { .. } => "good",
            Quality::Stale { .. } => "stale",
            Quality::Unknown => "unknown",
        }
        .to_owned()
    }
}

impl Quality {
    fn pairs(&self) -> Vec<(String, String)> {
        let good = vec![entry("confidence", "", vec![])];
        let stale = vec![entry("age_seconds", "", vec![]), entry("stale", "", vec![])];
        let active = match self {
            Quality::Good { confidence } => {
                vec![entry("confidence", &confidence.to_string(), vec![])]
            }
            Quality::Stale { age_seconds } => vec![
                entry("age_seconds", &age_seconds.to_string(), vec![]),
                entry("stale", "true", vec![]),
            ],
            Quality::Unknown => vec![],
        };
        enum_pairs(&vec![good, stale, vec![]], &active)
    }
}

#[derive(Debug, Clone, Copy)]
struct Reading {
    quality: Quality,
    samples: u32,
}

impl Reading {
    fn word(self) -> String {
        format!("{} ({})", self.quality.word(), self.samples)
    }
}

impl Reading {
    fn pairs(&self) -> Vec<(String, String)> {
        struct_pairs(&vec![
            entry("quality", &self.quality.word(), self.quality.pairs()),
            entry("samples", &self.samples.to_string(), vec![]),
        ])
    }
}

#[derive(Debug, Clone, Copy)]
struct Sample {
    reading: Reading,
    id: u32,
}

impl Sample {
    fn pairs(&self) -> Vec<(String, String)> {
        struct_pairs(&vec![
            entry("reading", &self.reading.word(), self.reading.pairs()),
            entry("id", &self.id.to_string(), vec![]),
        ])
    }
}

#[test]
fn nesting_projects_every_level_up_to_one_flat_environment() {
    let sample = Sample {
        reading: Reading { quality: Quality::Stale { age_seconds: 90 }, samples: 3 },
        id: 7,
    };
    let env = env_fields(sample.pairs());
    assert_eq!(get(&env, "ID"), "7");
    assert_eq!(get(&env, "SAMPLES"), "3");
    // Two levels down, under its own name rather than a prefixed one.
    assert_eq!(get(&env, "QUALITY"), "stale");
    assert_eq!(get(&env, "AGE_SECONDS"), "90");
    // The constant the variant implies rather than stores.
    assert_eq!(get(&env, "STALE"), "true");
    // The other variant's field, present and empty.
    assert_eq!(get(&env, "CONFIDENCE"), "");
    // And the nested value's own name is there too.
    assert_eq!(get(&env, "READING"), "stale (3)");
}

#[test]
fn an_inactive_variants_names_are_empty_rather_than_absent() {
    let sample = Sample { reading: Reading { quality: Quality::Unknown, samples: 0 }, id: 0 };
    let sampled = fields(sample.pairs());
    // Lower-case here, which is what `INFO`'s JSON is built from.
    for name in ["confidence", "age_seconds", "stale"] {
        assert_eq!(get(&sampled, name), "", "{name} is present and empty");
    }
    assert_eq!(get(&sampled, "quality"), "unknown");

    let good = fields(Reading { quality: Quality::Good { confidence: 90 }, samples: 1 }.pairs());
    assert_eq!(get(&good, "confidence"), "90");
    assert_eq!(get(&good, "age_seconds"), "");
    assert_eq!(get(&good, "stale"), "");
}

#[test]
fn a_built_in_name_is_no_custom_event() {
    let refused = EventName::parse("volume_changed").unwrap_err();
    assert!(refused.to_string().contains("volume_changed"));
    assert!(EventName::parse("has space").is_err());
    assert_eq!(EventName::parse("My-Event").unwrap().as_str(), "my_event");
    assert_eq!(EventName::parse("demo").unwrap().kind(), Kind::Custom("demo".into()));
}

#[test]
fn a_notification_name_keeps_its_case() {
    assert_eq!(NotificationName::parse("com.Example.Thing").unwrap().as_str(), "com.Example.Thing");
    assert!(NotificationName::parse("").is_err());
    assert!(!NotificationName::parse("").unwrap_err().to_string().is_empty());
}

#[test]
fn a_topic_is_told_by_its_name() {
    for kind in Kind::built_in() {
        let topic = Topic::named(kind.name()).unwrap();
        assert_eq!(topic.name(), kind.name());
        assert_eq!(Kind::of(topic), kind);
        assert_eq!(kind.topic(), Some(topic));
    }
    assert!(Topic::named("demo").is_none());
    assert!(kind("demo").topic().is_none());
}

#[test]
fn a_flag_is_spelled_out() {
    let env = Event::AccessibilityChanged(AccessibilityChange { trusted: true }).env();
    assert_eq!(get(&env, "TRUSTED"), "true");
    assert_eq!(get(&env, "INFO"), "true");
}

#[test]
fn a_payloads_own_fields_are_the_ones_its_event_carries() {
    let change = SpaceChange { display: 2, space: 7 };
    assert_eq!(get(&change.fields(), "display"), "2");
    assert_eq!(get(&change.env_fields(), "SPACE"), "7");
    assert_eq!(change.fields().len(), 2);
}

#[test]
fn an_invalid_event_says_so() {
    assert_eq!(Kind::parse("a b").unwrap_err().to_string(), "`a b` is not an event name");
}
