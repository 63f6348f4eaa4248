use coolabah::align::PopupAlign;
use coolabah::changes::{applied, Changes};
use coolabah::component::{ComponentKind, ComponentTag};
use coolabah::display::DisplayTarget;
use coolabah::event::Kind;
use coolabah::flag::{BoolChange, Boolish};
use coolabah::json::Json;
use coolabah::measure::Measure;
use coolabah::name::{InvalidName, ItemName, Selector};
use coolabah::place::{Edge, Position};
use coolabah::query::{PressTarget, Query, Relative};
use coolabah::state::{
    Background, BackgroundPatch, BarPatch, Geometry, GeometryKey, GeometryPatch, ItemKey,
    ItemPatch, ItemState, PopupState, Run, RunKey, RunPatch, Scripting, ScriptingKey,
    ScriptingPatch,
};
use coolabah::style::{Color, FontSpec};

fn measure(value: f64) -> Measure {
    Measure { bits: value.to_bits(), text: value.to_string() }
}

fn pieces(text: &str) -> Vec<Option<Measure>> {
    text.split(':').map(|piece| piece.parse::<f64>().ok().map(measure)).collect()
}

fn name(text: &str) -> ItemName {
    ItemName::new(text).unwrap()
}

#[test]
fn item_names_reject_shell_hostile_input() {
    assert!(ItemName::new("clock").is_ok());
    assert!(ItemName::new("space.1").is_ok());
    assert!(ItemName::new("front-app_2").is_ok());
    // An alias is named for what it mirrors, and those names have commas
    // and spaces in them.
    assert!(ItemName::new("Amphetamine,Amphetamine").is_ok());
    assert!(ItemName::new("Control Centre,FocusModes").is_ok());
    assert_eq!(ItemName::new(""), Err(InvalidName::Empty));
    assert!(matches!(ItemName::new("two\nlines"), Err(InvalidName::Character(_))));
    assert_eq!(ItemName::new("").unwrap_err().to_string(), "an item name cannot be empty");
    assert_eq!(
        ItemName::new("a\tb").unwrap_err().to_string(),
        "`a\tb` is not a valid item name: control characters are not allowed"
    );
    assert!(ItemName::new("\u{85}").is_err(), "a control character past ASCII is one too");
}

#[test]
fn a_display_target_parses_what_a_config_writes() {
    assert_eq!("all".parse(), Ok(DisplayTarget::All));
    assert_eq!("ALL".parse(), Ok(DisplayTarget::All));
    assert_eq!("2".parse(), Ok(DisplayTarget::Index(2)));
    // Rejected rather than quietly meaning "all": a typo fails at the client
    // with the offending text named, and an invalid one never reaches the bar.
    assert!("0".parse::<DisplayTarget>().is_err());
    assert!("second".parse::<DisplayTarget>().is_err());
    assert!("".parse::<DisplayTarget>().is_err());
    assert_eq!(
        "second".parse::<DisplayTarget>().unwrap_err().to_string(),
        "`second` is not a display: expected `all` or a 1-based index"
    );
}

#[test]
fn a_display_target_matches_the_displays_it_names() {
    assert!(DisplayTarget::All.matches(1));
    assert!(DisplayTarget::Index(2).matches(2));
    assert!(!DisplayTarget::Index(2).matches(1));
    assert_eq!(DisplayTarget::default(), DisplayTarget::All);
}

#[test]
fn a_popup_alignment_parses_what_a_config_writes() {
    assert_eq!("centre".parse(), Ok(PopupAlign::Center));
    assert_eq!("r".parse(), Ok(PopupAlign::Right));
    assert!("middle".parse::<PopupAlign>().is_err());
    assert!("middle".parse::<PopupAlign>().unwrap_err().to_string().contains("`middle`"));
}

#[test]
fn a_position_deserializes_by_the_spellings_a_config_uses() {
    // `q` and `e` are spellings for the centre-adjacent buckets that appear in
    // configs as they are.
    for (text, expected) in [
        ("q", Position::CenterLeft),
        ("e", Position::CenterRight),
        ("centre", Position::Center),
        ("center_left", Position::CenterLeft),
    ] {
        assert_eq!(Position::parse(text).unwrap(), expected, "{text}");
    }
    assert_eq!(Edge::parse("bottom").unwrap(), Edge::Bottom);
    // And what it prints, it can read back: a query prints these and a config
    // feeds them straight back in.
    for position in [
        Position::Left,
        Position::CenterLeft,
        Position::Center,
        Position::CenterRight,
        Position::Right,
    ] {
        assert_eq!(position.to_string().parse(), Ok(position));
    }
}

#[test]
fn positions_accept_the_spellings_a_config_uses() {
    assert_eq!("left".parse(), Ok(Position::Left));
    assert_eq!("center_right".parse(), Ok(Position::CenterRight));
    assert_eq!("centre".parse(), Ok(Position::Center));
    assert_eq!("R".parse(), Ok(Position::Right));
    assert!("sideways".parse::<Position>().is_err());
    assert!("sideways".parse::<Position>().unwrap_err().to_string().contains("`sideways`"));
}

/// Printing a value and reading it back is a round trip.
fn spells<T>(values: &[T], print: fn(&T) -> String)
where
    T: std::str::FromStr + PartialEq + std::fmt::Debug,
    <T as std::str::FromStr>::Err: std::fmt::Debug,
{
    for value in values {
        let printed = print(value);
        assert_eq!(&printed.parse::<T>().unwrap(), value, "{printed}");
    }
}

#[test]
fn one_spelling_drives_display_from_str_and_the_wire() {
    let alignments = [PopupAlign::Left, PopupAlign::Center, PopupAlign::Right];
    spells(&alignments, PopupAlign::to_string);

    let edges = [Edge::Top, Edge::Bottom];
    spells(&edges, Edge::to_string);

    let changes = [BoolChange::True, BoolChange::False, BoolChange::Toggle];
    spells(&changes, BoolChange::to_string);

    let displays = [DisplayTarget::All, DisplayTarget::Index(2)];
    spells(&displays, DisplayTarget::to_string);

    let tags = [
        ComponentTag::Item,
        ComponentTag::Alias,
        ComponentTag::Bracket,
        ComponentTag::Space,
        ComponentTag::Graph,
        ComponentTag::Slider,
    ];
    spells(&tags, ComponentTag::to_string);
}

#[test]
fn a_spelling_that_carries_a_payload_round_trips_too() {
    let positions = [
        Position::Left,
        Position::CenterLeft,
        Position::Center,
        Position::CenterRight,
        Position::Right,
        // Mixed case deliberately: the host's name is read off the text as it
        // was written, not off the folded copy the table matches against.
        Position::Popup(name("Volume Control")),
    ];
    spells(&positions, Position::to_string);
}

#[test]
fn a_spelling_computed_from_a_payload_round_trips_too() {
    let selectors = [Selector::Name(name("clock")), Selector::Pattern(r"menu\..*".into())];
    spells(&selectors, Selector::to_string);

    let queries = [
        Query::Bar,
        Query::Items,
        Query::Item(name("clock")),
        Query::MenuItems,
        Query::AppMenus,
        Query::Defaults,
    ];
    spells(&queries, Query::to_string);

    let presses = [PressTarget::AppMenu(3), PressTarget::Alias(name("Control Centre,Clock"))];
    spells(&presses, PressTarget::to_string);
}

#[test]
fn every_spelling_a_variant_declares_reads_back_as_that_variant() {
    assert_eq!("l".parse(), Ok(Position::Left));
    assert_eq!("centre-left".parse(), Ok(Position::CenterLeft));
    assert_eq!("center_right".parse(), Ok(Position::CenterRight));
    assert_eq!("menu-items".parse(), Ok(Query::MenuItems));
    assert_eq!("default_menu_items".parse(), Ok(Query::MenuItems));
    assert_eq!("app-menus".parse(), Ok(Query::AppMenus));
    assert_eq!("BOTTOM".parse(), Ok(Edge::Bottom));
    assert_eq!("centre".parse(), Ok(PopupAlign::Center));
    // And a spelling nothing declares is refused rather than guessed at.
    assert!("sideways".parse::<Position>().is_err());
    assert!("middle".parse::<PopupAlign>().is_err());
    assert!("sideways".parse::<Edge>().is_err());
    assert!("0".parse::<DisplayTarget>().is_err());
    assert!("sideways".parse::<Edge>().unwrap_err().to_string().contains("`sideways`"));
}

#[test]
fn a_query_for_nothing_names_no_item() {
    assert!("".parse::<Query>().is_err());
    assert!("two\nlines".parse::<Query>().is_err());
    assert!(!"".parse::<Query>().unwrap_err().to_string().is_empty());
    // Case counts: this is an item called BAR.
    assert_eq!("BAR".parse(), Ok(Query::Item(name("BAR"))));
}

#[test]
fn a_press_reads_a_number_as_a_menu_and_anything_else_as_an_item() {
    assert_eq!("3".parse(), Ok(PressTarget::AppMenu(3)));
    assert_eq!("Clock".parse(), Ok(PressTarget::Alias(name("Clock"))));
    assert_eq!("".parse::<PressTarget>(), Err(InvalidName::Empty));
}

#[test]
fn a_side_is_before_or_after() {
    assert_eq!(Relative::parse("before"), Some(Relative::Before));
    assert_eq!(Relative::parse("after"), Some(Relative::After));
    assert_eq!(Relative::parse("sideways"), None);
}

#[test]
fn an_item_name_off_the_wire_is_held_to_the_rule_a_typed_one_is() {
    assert!("clock".parse::<ItemName>().is_ok());
    assert!("".parse::<ItemName>().is_err());
    assert!("two\nlines".parse::<ItemName>().is_err());
}

#[test]
fn a_boolean_reads_every_spelling_a_config_writes() {
    for on in ["on", "true", "yes", "1", "ON", "True"] {
        assert_eq!(on.parse(), Ok(Boolish(true)), "{on}");
    }
    for off in ["off", "false", "no", "0", "OFF"] {
        assert_eq!(off.parse(), Ok(Boolish(false)), "{off}");
    }
    assert!("maybe".parse::<Boolish>().is_err());
    // `toggle` is a change, not a value: only the patch side takes it.
    assert!("toggle".parse::<Boolish>().is_err());
    assert_eq!("toggle".parse(), Ok(BoolChange::Toggle));
    assert_eq!("yes".parse(), Ok(BoolChange::True));
    assert_eq!(Boolish(true).to_string(), "on");
    assert!(bool::from(Boolish(true)));
    assert!("maybe".parse::<Boolish>().unwrap_err().to_string().contains("`maybe`"));
}

#[test]
fn a_change_that_changes_nothing_is_not_one() {
    // Damage tracking is honest only if a request mentioning a property
    // is not the same as the property changing.
    assert_eq!(BoolChange::True.change(Boolish(true)), None);
    assert_eq!(BoolChange::False.change(Boolish(false)), None);
    assert_eq!(BoolChange::True.change(Boolish(false)), Some(Boolish(true)));
    // A flip always is one.
    assert_eq!(BoolChange::Toggle.change(Boolish(true)), Some(Boolish(false)));
    assert_eq!(BoolChange::Toggle.change(Boolish(false)), Some(Boolish(true)));
}

/// A nested patch and a substituted leaf in one struct.
#[derive(Debug, Clone, PartialEq, Default)]
struct Outer {
    background: Background,
    on: Boolish,
    label: String,
}

#[derive(Debug, Clone, Default, PartialEq)]
struct OuterPatch {
    background: Option<BackgroundPatch>,
    on: Option<BoolChange>,
    label: Option<String>,
}

impl OuterPatch {
    fn changes(&self, current: &Outer) -> Option<Outer> {
        let (background, a) =
            applied::<Background, BackgroundPatch>(&self.background, &current.background);
        let (on, b) = applied::<Boolish, BoolChange>(&self.on, &current.on);
        let (label, c) = applied::<String, String>(&self.label, &current.label);
        if a.is_some() || b.is_some() || c.is_some() {
            Some(Outer { background, on, label })
        } else {
            None
        }
    }
}

#[test]
fn a_patch_that_would_change_nothing_reports_nothing() {
    let current = Outer {
        background: Background {
            drawing: Boolish(true),
            color: Color(0xff11_2233),
            ..Background::default()
        },
        on: Boolish(true),
        label: "clock".to_owned(),
    };
    // Every field named, every value the one already there.
    let patch = OuterPatch {
        background: Some(BackgroundPatch {
            drawing: Some(BoolChange::True),
            color: Some(Color(0xff11_2233)),
            ..BackgroundPatch::default()
        }),
        on: Some(BoolChange::True),
        label: Some("clock".to_owned()),
    };
    assert_eq!(patch.changes(&current), None);
}

#[test]
fn a_nested_patch_changes_only_what_it_moves() {
    let current = Outer {
        background: Background {
            drawing: Boolish(true),
            corner_radius: measure(4.0),
            ..Background::default()
        },
        on: Boolish(false),
        label: "clock".to_owned(),
    };
    let patch = OuterPatch {
        background: Some(BackgroundPatch {
            corner_radius: Some(measure(8.0)),
            // Named, and already what it is.
            drawing: Some(BoolChange::True),
            ..BackgroundPatch::default()
        }),
        ..OuterPatch::default()
    };
    let next = patch.changes(&current).expect("the radius moved");
    assert_eq!(
        next.background,
        Background { corner_radius: measure(8.0), ..current.background.clone() }
    );
    assert_eq!(next.on, Boolish(false));
    assert_eq!(next.label, "clock");

    let (_, moved) = patch.background.unwrap().moved(&current.background).unwrap();
    assert!(moved.any());
}

#[test]
fn a_flip_is_always_a_change_and_needs_what_is_there_to_say_what_of() {
    let off = Outer::default();
    let patch = OuterPatch { on: Some(BoolChange::Toggle), ..OuterPatch::default() };
    assert_eq!(patch.changes(&off).map(|next| next.on), Some(Boolish(true)));
    let on = Outer { on: Boolish(true), ..Outer::default() };
    assert_eq!(patch.changes(&on).map(|next| next.on), Some(Boolish(false)));
}

#[test]
fn a_selector_is_a_pattern_only_by_shape() {
    assert_eq!("front_app".parse(), Ok(Selector::Name(name("front_app"))));
    assert_eq!(r"/menu\..*/".parse(), Ok(Selector::Pattern(r"menu\..*".into())));
    // A single `/` has no interior: not pattern-shaped.
    assert_eq!("/".parse(), Ok(Selector::Name(name("/"))));
}

#[test]
fn run_patch_accepts_sketchybars_string_spelling_as_an_alias_for_text() {
    assert_eq!(RunKey::of("string"), Some(RunKey::Text));
    assert_eq!(RunKey::of("text"), Some(RunKey::Text));
}

#[test]
fn a_flattened_sub_patch_does_not_swallow_another_ones_keys() {
    // Each key belongs to the one part that has it.
    assert_eq!(GeometryKey::of("y_offset"), Some(GeometryKey::YOffset));
    assert_eq!(ScriptingKey::of("y_offset"), None);
    assert_eq!(ScriptingKey::of("script"), Some(ScriptingKey::Script));
    assert_eq!(ScriptingKey::of("update_freq"), Some(ScriptingKey::UpdateFreq));
    assert_eq!(GeometryKey::of("script"), None);
    assert_eq!(ItemKey::of("nonsense"), None);
}

/// The colours a document says of a run.
fn colours(document: &str) -> RunPatch {
    let Json::Object(fields) = Json::parse_or_string(document) else {
        panic!("{document} is no table");
    };
    let mut patch = RunPatch::default();
    for (key, value) in fields {
        let color = value.to_string().parse::<Color>().unwrap();
        match RunKey::of(&key) {
            Some(RunKey::Color) => patch.color = Some(color),
            Some(RunKey::HighlightColor) => patch.highlight_color = Some(color),
            other => panic!("{key} is {other:?}"),
        }
    }
    patch
}

#[test]
fn a_colour_is_spelled_either_way_on_the_way_in() {
    let patch = colours(r#"{"colour": "0xffff0000", "highlight_colour": "0xff00ff00"}"#);
    assert_eq!(patch.color, Some(Color(0xffff_0000)));
    assert_eq!(patch.highlight_color, Some(Color(0xff00_ff00)));
    assert_eq!(
        colours(r#"{"color": "0xffff0000", "highlight_color": "0xff00ff00"}"#),
        patch
    );
    assert_eq!(RunKey::of("colour"), Some(RunKey::Color));
    assert_eq!(RunKey::of("color"), Some(RunKey::Color));
    assert_eq!(RunKey::of("highlight_colour"), Some(RunKey::HighlightColor));
}

fn an_item() -> ItemState {
    ItemState {
        name: name("clock"),
        geometry: Geometry {
            drawing: Boolish(true),
            position: Position::Right,
            y_offset: measure(0.0),
            padding_left: measure(2.0),
            padding_right: measure(2.0),
            width: None,
            display: DisplayTarget::All,
            background: Background::default(),
        },
        popup: PopupState::default(),
        icon: Run::default(),
        label: Run::default(),
        scripting: Scripting::default(),
        events: Vec::new(),
        alias: None,
        members: Vec::new(),
        associated_space: None,
        percentage: 0,
        knob: Run::default(),
        highlight_color: Color::default(),
    }
}

#[test]
fn a_patch_applied_twice_changes_once() {
    let patch = ItemPatch {
        geometry: Some(GeometryPatch {
            drawing: Some(BoolChange::False),
            width: Some(measure(80.0)),
            background: Some(BackgroundPatch {
                corner_radius: Some(measure(-0.0)),
                color: Some(Color(0xff11_2233)),
                ..BackgroundPatch::default()
            }),
            ..GeometryPatch::default()
        }),
        label: Some(RunPatch { text: Some("12:00".to_owned()), ..RunPatch::default() }),
        scripting: Some(ScriptingPatch {
            script: Some(String::new()),
            click_script: Some("open".to_owned()),
            ..ScriptingPatch::default()
        }),
        members: Some(vec![Selector::Name(name("battery")), Selector::Name(name("clock"))]),
        ..ItemPatch::default()
    };
    let (once, _) = patch.moved(&an_item()).expect("all of that moved");
    assert!(patch.moved(&once).is_none());

    // A flip moves it every time, and so does what is not a number.
    let flip = ItemPatch {
        geometry: Some(GeometryPatch {
            drawing: Some(BoolChange::Toggle),
            ..GeometryPatch::default()
        }),
        ..ItemPatch::default()
    };
    let (flipped, _) = flip.moved(&an_item()).unwrap();
    assert!(flip.moved(&flipped).is_some());
    let absurd = BackgroundPatch { height: Some(measure(f64::NAN)), ..BackgroundPatch::default() };
    let (odd, _) = absurd.moved(&Background::default()).unwrap();
    assert!(absurd.moved(&odd).is_some());
    let tall = BackgroundPatch { height: Some(measure(40.0)), ..BackgroundPatch::default() };
    let (even, _) = tall.moved(&odd).unwrap();
    assert!(tall.moved(&even).is_none());
}

#[test]
fn one_property_written_twice_folds_rather_than_replacing() {
    let bare = RunPatch::from("12:34".to_owned());
    let nested = RunPatch { color: Some(Color(0xff00_ff00)), ..RunPatch::default() };
    let label = bare.folded(nested);
    assert_eq!(label.text.as_deref(), Some("12:34"));
    assert_eq!(label.color, Some(Color(0xff00_ff00)));
}

#[test]
fn folding_reaches_into_the_parts_of_an_item() {
    let first = ItemPatch {
        label: Some(RunPatch::from("a".to_owned())),
        percentage: Some(1),
        ..ItemPatch::default()
    };
    let second = ItemPatch {
        label: Some(RunPatch { color: Some(Color(1)), ..RunPatch::default() }),
        percentage: Some(2),
        ..ItemPatch::default()
    };
    let both = first.folded(second);
    assert_eq!(both.percentage, Some(2));
    let label = both.label.unwrap();
    assert_eq!((label.text.as_deref(), label.color), (Some("a"), Some(Color(1))));
}

#[test]
fn adding_needs_a_position_and_setting_does_not() {
    let empty = ItemPatch::default();
    let missing = ComponentTag::Item
        .build(name("clock"), &empty)
        .expect_err("an add with no position has nowhere to put it");
    assert_eq!(missing.fields, vec!["position"]);
    assert_eq!(missing.to_string(), "`position`: required to build an item, and not set");
    // The same patch is a perfectly good `--set`: it changes nothing.
    assert_eq!(empty.changes(&an_item()), None);

    let placed = ItemPatch {
        geometry: Some(GeometryPatch {
            position: Some(Position::Right),
            ..GeometryPatch::default()
        }),
        ..ItemPatch::default()
    };
    assert_eq!(
        ComponentTag::Item.build(name("clock"), &placed),
        Ok(ComponentKind::Item { name: name("clock"), position: Position::Right })
    );
}

#[test]
fn a_bracket_needs_members_rather_than_a_position() {
    let bare = ItemPatch::default();
    assert_eq!(
        ComponentTag::Bracket.build(name("group"), &bare).unwrap_err().fields,
        vec!["members"]
    );
}

#[test]
fn a_component_says_where_it_goes() {
    let bracket =
        ComponentKind::Bracket { name: name("group"), members: vec![Selector::Name(name("a"))] };
    let (called, at) = bracket.placement();
    assert_eq!((called.as_str(), at), ("group", Position::Left));
    let slider = ComponentKind::Slider { name: name("volume"), position: Position::Right };
    assert_eq!(slider.placement().1, Position::Right);
    assert!("thing".parse::<ComponentTag>().unwrap_err().to_string().contains("`thing`"));
}

#[test]
fn construction_fills_in_everything_a_patch_did_not_say() {
    let patch = ItemPatch {
        geometry: Some(GeometryPatch {
            position: Some(Position::Center),
            padding_left: Some(measure(6.0)),
            ..GeometryPatch::default()
        }),
        scripting: Some(ScriptingPatch {
            script: Some("update".to_owned()),
            ..ScriptingPatch::default()
        }),
        ..ItemPatch::default()
    };
    let built = patch.construct(name("clock"), Vec::new()).expect("a position was named");
    assert_eq!(built.geometry.position, Position::Center);
    assert_eq!(built.geometry.padding_left, measure(6.0));
    assert_eq!(built.scripting.script.as_deref(), Some("update"));
    assert_eq!(built.name.as_str(), "clock");
    assert_eq!(built.popup, PopupState::default());
}

#[test]
fn constructing_carries_what_a_patch_cannot() {
    let patch = ItemPatch::default();
    let missing = patch.construct(name("clock"), Vec::new()).unwrap_err();
    assert_eq!(missing.fields, vec!["position"]);

    let bar = BarPatch::default().construct(2);
    match bar {
        Ok(bar) => assert_eq!(bar.displays, 2),
        Err(missing) => assert!(!missing.fields.is_empty()),
    }

    let placed = ItemPatch {
        geometry: Some(GeometryPatch {
            position: Some(Position::Left),
            ..GeometryPatch::default()
        }),
        ..ItemPatch::default()
    };
    let events: Vec<Kind<()>> = vec![Kind::SystemWoke];
    let built = placed.construct(name("clock"), events).unwrap();
    assert_eq!(built.events, vec![Kind::SystemWoke]);
}

#[test]
fn an_empty_script_unsets_it_rather_than_setting_it_to_nothing() {
    let current = ItemState {
        scripting: Scripting { script: Some("old".to_owned()), ..Scripting::default() },
        ..an_item()
    };
    let patch = ItemPatch {
        scripting: Some(ScriptingPatch {
            script: Some(String::new()),
            ..ScriptingPatch::default()
        }),
        ..ItemPatch::default()
    };
    let next = patch.changes(&current).expect("it moved");
    assert_eq!(next.scripting.script, None);
    // And unsetting what is unset already moves nothing.
    assert_eq!(patch.changes(&next), None);
}

#[test]
fn a_width_of_nothing_is_a_measured_one() {
    let fixed = GeometryPatch { width: Some(measure(40.0)), ..GeometryPatch::default() };
    let next = fixed.changes(&an_item().geometry).unwrap();
    assert_eq!(next.width, Some(measure(40.0)));
    // The same width again moves nothing.
    assert_eq!(fixed.changes(&next), None);
}

#[test]
fn colors_and_fonts_serialize_in_sketchybars_own_spelling() {
    assert_eq!(Color(0xffff_0000).to_wire(), "0xffff0000");
    let spec = "Menlo:Bold:15";
    assert_eq!(FontSpec::parse(spec, &pieces(spec)).to_string(), "Menlo:Bold:15");
}

#[test]
fn a_font_spec_survives_a_round_trip() {
    // A property set to the value it already has compares equal rather than
    // looking like a change.
    for spec in ["Menlo:Bold:15", "SF Pro:Regular:13", "Hack Nerd Font:Heavy:12.5"] {
        let font = FontSpec::parse(spec, &pieces(spec));
        assert_eq!(font.to_string(), spec);
        assert!(FontSpec::parse(&font.to_string(), &pieces(spec)).same(&font));
    }
    // A short spec fills in from the defaults and then prints in full.
    assert_eq!(FontSpec::parse("Menlo", &pieces("Menlo")).to_string(), "Menlo:Regular:13");
}

#[test]
fn parses_colour_forms() {
    assert_eq!("#fff".parse::<Color>().unwrap(), Color(0xffff_ffff));
    assert_eq!("#ff0000".parse::<Color>().unwrap(), Color(0xffff_0000));
    assert_eq!("0x80ff0000".parse::<Color>().unwrap(), Color(0x80ff_0000));
    assert_eq!("#f00".parse::<Color>().unwrap(), Color(0xffff_0000));
    assert!("nope".parse::<Color>().is_err());
    assert!("#ff00".parse::<Color>().is_err());
    assert!("nope".parse::<Color>().unwrap_err().to_string().contains("nope"));
}

#[test]
fn a_sign_is_no_digit_of_a_colour() {
    assert!("#+ff".parse::<Color>().unwrap_err().to_string().contains("#+ff"));
    assert!("0x+f0000".parse::<Color>().is_err());
    assert!("#-ff".parse::<Color>().is_err());
    assert!("".parse::<Color>().is_err());
}

#[test]
fn channels_round_trip() {
    let c = Color::argb(0x80, 0x11, 0x22, 0x33);
    assert_eq!(c.channels(), (0x80, 0x11, 0x22, 0x33));
    assert!((f64::from(c.channels().0) / 255.0 - 128.0 / 255.0).abs() < 1e-9);
    assert!((f64::from(c.channels().1) / 255.0 - 17.0 / 255.0).abs() < 1e-9);
    assert!(!c.is_invisible());
    assert!(Color(0).is_invisible());
}

#[test]
fn a_colour_reads_from_a_number_by_what_it_counts() {
    assert_eq!(Color::from_measure(&measure(4_278_190_080.0)), Some(Color(0xff00_0000)));
    assert_eq!(Color::from_measure(&measure(0.0)), Some(Color(0)));
    assert_eq!(Color::from_measure(&measure(f64::NAN)), None);
    assert_eq!(Color::from_measure(&measure(-1.0)), None);
}

#[test]
fn font_spec_fills_in_missing_fields() {
    let spec = "Hack Nerd Font:Bold:14";
    let f = FontSpec::parse(spec, &pieces(spec));
    assert_eq!(f.family, "Hack Nerd Font");
    assert_eq!(f.style, "Bold");
    assert_eq!(f.size, measure(14.0));

    let partial = FontSpec::parse("Menlo", &pieces("Menlo"));
    assert_eq!(partial.family, "Menlo");
    assert_eq!(partial.style, FontSpec::default().style);
    // A size that is no number is not one.
    let odd = FontSpec::parse("Menlo:Bold:big", &pieces("Menlo:Bold:big"));
    assert_eq!(odd.size, FontSpec::default().size);
}

#[test]
fn measurements_compare_as_the_numbers_they_are() {
    assert!(measure(0.0).same(&measure(-0.0)));
    assert!(!measure(f64::NAN).same(&measure(f64::NAN)));
    assert!(measure(1.5).same(&measure(1.5)));
    assert!(!measure(1.5).same(&measure(2.5)));
    assert_eq!(Measure::zero(), measure(0.0));
}
