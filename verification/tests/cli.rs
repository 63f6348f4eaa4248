use coolabah::cli::{
    parse_color, parse_edge, parse_event, parse_position, triggered, triggered_with, verdict,
    BarOptions, Command, FontOption, ItemOptions, Verdict,
};
use coolabah::component::ComponentKind;
use coolabah::event::{Event, Kind};
use coolabah::flag::BoolChange;
use coolabah::measure::Measure;
use coolabah::name::{ItemName, Selector};
use coolabah::place::{Edge, Position};
use coolabah::query::Query;
use coolabah::request::{Request, Response};
use coolabah::state::{BarPatch, ItemPatch};
use coolabah::style::Color;

fn measure(value: f64) -> Measure {
    Measure { bits: value.to_bits(), text: value.to_string() }
}

fn name(text: &str) -> ItemName {
    ItemName::new(text).unwrap()
}

fn silent() -> ItemOptions {
    ItemOptions {
        icon: None,
        label: None,
        icon_font: None,
        label_font: None,
        icon_color: None,
        label_color: None,
        background_color: None,
        corner_radius: None,
        padding_left: None,
        padding_right: None,
        y_offset: None,
        position: None,
        drawing: None,
        script: None,
        click_script: None,
        alias: None,
        update_freq: None,
    }
}

#[test]
fn words_are_read_or_refused_with_what_was_expected() {
    assert_eq!(parse_color("#f00"), Ok(0xffff_0000));
    assert_eq!(
        parse_color("nope").unwrap_err(),
        "`nope` is not a colour: expected #rgb, #rrggbb or #aarrggbb"
    );
    assert_eq!(parse_position("q"), Ok(Position::CenterLeft));
    assert!(parse_position("up").unwrap_err().starts_with("`up` is not a position"));
    assert_eq!(parse_event("system_woke"), Ok(Kind::SystemWoke));
    assert_eq!(parse_event("a b").unwrap_err(), "`a b` is not an event name");
    assert_eq!(parse_edge("TOP"), Ok(Edge::Top));
    assert_eq!(
        parse_edge("Left").unwrap_err(),
        "`left` is not an edge: expected top or bottom"
    );
}

#[test]
fn options_that_say_nothing_change_nothing() {
    assert_eq!(silent().into_patch(), ItemPatch::default());
}

#[test]
fn options_become_the_patch_they_say() {
    let patch = ItemOptions {
        label: Some("12:00".to_owned()),
        label_font: Some(FontOption {
            text: "Menlo:Bold:15".to_owned(),
            pieces: vec![None, None, Some(measure(15.0))],
        }),
        icon_color: Some(0xffff_0000),
        corner_radius: Some(measure(4.0)),
        drawing: Some(false),
        script: Some("update".to_owned()),
        ..silent()
    }
    .into_patch();
    let label = patch.label.unwrap();
    assert_eq!(label.text.as_deref(), Some("12:00"));
    assert_eq!(label.font.unwrap().to_string(), "Menlo:Bold:15");
    assert_eq!(patch.icon.unwrap().color, Some(Color(0xffff_0000)));
    let geometry = patch.geometry.unwrap();
    assert_eq!(geometry.drawing, Some(BoolChange::False));
    assert_eq!(geometry.background.unwrap().corner_radius, Some(measure(4.0)));
    assert_eq!(patch.scripting.unwrap().script.as_deref(), Some("update"));
    assert!(patch.popup.is_none());
}

#[test]
fn a_command_asks_for_one_thing() {
    let bar = BarOptions {
        height: Some(measure(32.0)),
        edge: Some(Edge::Bottom),
        color: None,
        margin: None,
        y_offset: None,
        corner_radius: None,
        blur_radius: None,
        hidden: Some(true),
        topmost: None,
    };
    assert_eq!(
        Command::SetBar(bar).request(),
        Request::SetBar(BarPatch {
            height: Some(measure(32.0)),
            edge: Some(Edge::Bottom),
            hidden: Some(BoolChange::True),
            ..BarPatch::default()
        })
    );
    assert_eq!(
        Command::AddItem { name: name("clock"), position: Position::Right }.request(),
        Request::Add(ComponentKind::Item { name: name("clock"), position: Position::Right })
    );
    assert_eq!(
        Command::SetItem { name: name("clock"), options: silent() }.request(),
        Request::SetItem(Selector::Name(name("clock")), Box::new(ItemPatch::default()))
    );
    assert_eq!(
        Command::RemoveItem(name("clock")).request(),
        Request::Remove(Selector::Name(name("clock")))
    );
    assert_eq!(
        Command::Subscribe { name: name("clock"), events: vec![Kind::SystemWoke] }.request(),
        Request::Subscribe { name: name("clock"), events: vec![Kind::SystemWoke] }
    );
    assert_eq!(Command::Query(Query::Bar).request(), Request::Query(Query::Bar));
    assert_eq!(Command::Update.request(), Request::UpdateAll);
    assert_eq!(Command::Reload.request(), Request::Reload);
    assert_eq!(Command::Shutdown.request(), Request::Shutdown);
}

#[test]
fn a_trigger_carries_what_it_is_given_where_there_is_somewhere_to_put_it() {
    match triggered(Kind::Custom("demo".into()), Some(r#"{"a": 1}"#.to_owned())) {
        Event::Custom(custom) => assert_eq!(custom.vars.get("info"), Some(r#"{"a":1}"#)),
        other => panic!("{other:?}"),
    }
    match triggered(Kind::Custom("demo".into()), Some("hello".to_owned())) {
        Event::Custom(custom) => assert_eq!(custom.vars.get("info"), Some("hello")),
        other => panic!("{other:?}"),
    }
    match triggered_with(Kind::Custom("demo".into()), None) {
        Event::Custom(custom) => assert_eq!(custom.vars.len(), 0),
        other => panic!("{other:?}"),
    }
    assert_eq!(
        triggered(Kind::SystemWoke, Some("hello".to_owned())).kind(),
        Kind::SystemWoke
    );
}

#[test]
fn a_reply_is_shown_whole_or_by_lines_or_not_at_all() {
    assert_eq!(verdict(&Response::Done), Verdict::Quiet);
    assert_eq!(verdict(&Response::Error("no".into())), Verdict::Failed);
    assert_eq!(verdict(&Response::Items(vec![])), Verdict::Lines);
    assert_eq!(verdict(&Response::Defaults(Box::default())), Verdict::Whole);
}
