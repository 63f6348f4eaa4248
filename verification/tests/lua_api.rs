use coolabah::api::{
    after_add, assign_request, child_path, expect_ok, query_for, set_request, spec_for,
    subscription,
    AddContext, Addition, AfterAdd, Build, Extra, ItemVerb, PropertyPath, Verb,
};
use coolabah::component::ComponentKind;
use coolabah::error::ApiError;
use coolabah::event::{Event, Kind, VolumeChange};
use coolabah::flag::BoolChange;
use coolabah::lua::{LuaError, LuaTable, LuaValue, Numeric, TextValue};
use coolabah::measure::Measure;
use coolabah::name::{ItemName, Selector};
use coolabah::place::Position;
use coolabah::query::{Query, Relative};
use coolabah::request::{Request, Response};
use coolabah::show::{event_to_table, read_signed, response_to_table, scalar, Scalar, Shown};
use coolabah::state::{ItemPatch, RunPatch};
use coolabah::style::Color;
use mlua::{Lua, MultiValue, Table, Value};

fn measure(value: f64) -> Measure {
    Measure { bits: value.to_bits(), text: value.to_string() }
}

fn numeric(lua: &Lua, value: f64) -> Numeric {
    let spelled = lua
        .coerce_string(Value::Number(value))
        .unwrap()
        .map(|text| text.to_string_lossy().to_string())
        .unwrap_or_default();
    Numeric {
        measure: measure(value),
        whole: lua.coerce_integer(Value::Number(value)).unwrap(),
        spelled,
    }
}

fn pieces(text: &str) -> Vec<Option<Measure>> {
    text.split(':').map(|piece| piece.parse::<f64>().ok().map(measure)).collect()
}

fn value(lua: &Lua, from: &Value) -> LuaValue {
    match from {
        Value::Nil => LuaValue::Nil,
        Value::Boolean(b) => LuaValue::Boolean(*b),
        Value::Integer(i) => LuaValue::Integer(*i, measure(*i as f64)),
        Value::Number(n) => LuaValue::Number(numeric(lua, *n)),
        Value::String(s) => match s.to_str() {
            Ok(text) => LuaValue::Text(TextValue {
                text: text.to_owned(),
                number: lua
                    .coerce_number(from.clone())
                    .unwrap()
                    .map(|number| numeric(lua, number)),
                pieces: pieces(&text),
            }),
            Err(_) => LuaValue::Bytes(
                std::str::from_utf8(&s.as_bytes()).unwrap_err().to_string(),
            ),
        },
        Value::Table(t) => LuaValue::Table(table(lua, t), format!("{from:?}")),
        Value::Function(_) => LuaValue::Other("function", format!("{from:?}")),
        _ => LuaValue::Other("userdata", format!("{from:?}")),
    }
}

fn table(lua: &Lua, from: &Table) -> LuaTable {
    let mut fields = Vec::new();
    for pair in from.pairs::<Value, Value>() {
        let (key, held) = pair.unwrap();
        if let Value::String(key) = key {
            fields.push((key.to_str().unwrap().to_owned(), value(lua, &held)));
        }
    }
    let mut items = Vec::new();
    for item in from.sequence_values::<Value>() {
        items.push(value(lua, &item.unwrap()));
    }
    LuaTable { fields, items }
}

/// What `text` evaluates to, one value or several.
fn values(text: &str) -> Vec<LuaValue> {
    let lua = Lua::new();
    let all: MultiValue = lua.load(text).eval().unwrap();
    all.iter().map(|held| value(&lua, held)).collect()
}

fn one(text: &str) -> LuaValue {
    values(text).into_iter().next().unwrap_or(LuaValue::Nil)
}

/// A config at work: what it asks for, each thing granted.
struct Session {
    context: AddContext,
    requests: Vec<Request>,
}

impl Session {
    fn new() -> Session {
        Session { context: AddContext::new(), requests: Vec::new() }
    }

    /// `rsbar.add` of what `text` evaluates to.
    fn add(&mut self, text: &str) -> Result<Option<ItemName>, LuaError> {
        let mut all = values(text).into_iter();
        let kind = match all.next() {
            Some(LuaValue::Text(kind)) => kind.text,
            other => panic!("{other:?}"),
        };
        let a2 = all.next().unwrap_or(LuaValue::Nil);
        let a3 = all.next().unwrap_or(LuaValue::Nil);
        let a4 = all.next().unwrap_or(LuaValue::Nil);
        match self.context.add(&kind, &a2, &a3, &a4, "Table(Ref(0x1))")? {
            Addition::Event { name, notification } => {
                self.requests.push(Request::AddEvent { name, notification });
                Ok(None)
            }
            Addition::Component(plan) => {
                self.requests.push(Request::Add(plan.component));
                let patch = plan.patch?;
                self.requests.push(set_request(&plan.name, patch));
                Ok(Some(plan.name))
            }
        }
    }

    /// One of the other verbs, on what `text` evaluates to.
    fn call(&mut self, verb: &str, text: &str) -> Result<(), LuaError> {
        let mut all = values(text).into_iter();
        let a1 = all.next().unwrap_or(LuaValue::Nil);
        let a2 = all.next().unwrap_or(LuaValue::Nil);
        let a3 = all.next().unwrap_or(LuaValue::Nil);
        let made = Verb::named(verb).unwrap().requests(&a1, &a2, &a3)?;
        self.requests.extend(made);
        Ok(())
    }

    /// `item.<groups>.<key> = <text>`.
    fn assign(&mut self, item: &ItemName, path: &str, text: &str) {
        let mut groups = PropertyPath::new();
        let mut steps: Vec<&str> = path.split('.').collect();
        let key = steps.pop().unwrap();
        for step in steps {
            groups = groups.child(step);
        }
        let request = assign_request(item, &groups, key, one(text), "Table(Ref(0x1))").unwrap();
        self.requests.push(request);
    }

    fn patches(&self) -> Vec<&ItemPatch> {
        self.requests
            .iter()
            .filter_map(|request| match request {
                Request::SetItem(_, patch) => Some(&**patch),
                _ => None,
            })
            .collect()
    }

    fn added(&self) -> Vec<&ComponentKind> {
        self.requests
            .iter()
            .filter_map(|request| match request {
                Request::Add(kind) => Some(kind),
                _ => None,
            })
            .collect()
    }
}

fn name(text: &str) -> ItemName {
    ItemName::new(text).unwrap()
}

#[test]
fn adding_an_event_declares_one_the_config_fires_itself() {
    let mut session = Session::new();
    session.add(r#"return "event", "demo""#).unwrap();
    assert_eq!(
        session.requests,
        vec![Request::AddEvent { name: "demo".parse().unwrap(), notification: None }]
    );
}

#[test]
fn adding_an_event_with_a_notification_bridges_it() {
    let mut session = Session::new();
    session.add(r#"return "event", "demo", "com.example.thing""#).unwrap();
    assert_eq!(
        session.requests,
        vec![Request::AddEvent {
            name: "demo".parse().unwrap(),
            notification: Some("com.example.thing".parse().unwrap()),
        }]
    );
}

#[test]
fn adding_a_built_in_event_is_an_error_rather_than_a_second_one() {
    let mut session = Session::new();
    let result = session.add(r#"return "event", "volume_changed""#);
    assert!(result.is_err(), "a built-in is already defined");
    assert!(session.requests.is_empty(), "and nothing reached the daemon");
}

#[test]
fn assigning_a_property_sends_the_same_patch_a_set_would() {
    let mut through_metatable = Session::new();
    let item = through_metatable.add(r#"return "item", "clock""#).unwrap().unwrap();
    through_metatable.assign(&item, "label", r#""12:00""#);

    let mut through_set = Session::new();
    let item = through_set.add(r#"return "item", "clock""#).unwrap().unwrap();
    let set = ItemVerb::named("set").unwrap().request(&item, &one(r#"{ label = "12:00" }"#));
    through_set.requests.push(set.unwrap());

    assert_eq!(through_metatable.requests, through_set.requests);
    assert_eq!(
        through_metatable.patches().last().unwrap().label,
        Some(RunPatch { text: Some("12:00".into()), ..RunPatch::default() })
    );
}

#[test]
fn a_popups_drawing_is_reachable_through_the_metatable() {
    let mut session = Session::new();
    let item = session.add(r#"return "item", "volume""#).unwrap().unwrap();
    session.assign(&item, "popup.drawing", "true");
    let patch = session.patches().last().copied().unwrap();
    assert_eq!(patch.popup.as_ref().unwrap().drawing, Some(BoolChange::True));
    assert_eq!(
        session.requests.last().unwrap(),
        &Request::SetItem(Selector::Name(name("volume")), Box::new(patch.clone()))
    );
}

#[test]
fn a_popup_can_be_toggled_through_the_metatable_too() {
    let mut session = Session::new();
    let item = session.add(r#"return "item", "volume""#).unwrap().unwrap();
    session.assign(&item, "popup.drawing", r#""toggle""#);
    assert_eq!(
        session.patches().last().unwrap().popup.as_ref().unwrap().drawing,
        Some(BoolChange::Toggle)
    );
}

#[test]
fn a_namespace_keeps_accumulating_the_path() {
    let mut session = Session::new();
    let item = session.add(r#"return "item", "clock""#).unwrap().unwrap();
    session.assign(&item, "icon.color", "0xffff0000");
    session.assign(&item, "background.corner_radius", "6");
    session.assign(&item, "icon.font.size", "14");
    session.assign(&item, "popup.background.border_width", "1");
    let patches = session.patches();
    assert_eq!(patches[1].icon.as_ref().unwrap().color, Some(Color(0xffff_0000)));
    assert_eq!(
        patches[2].geometry.as_ref().unwrap().background.as_ref().unwrap().corner_radius,
        Some(measure(6.0))
    );
    assert_eq!(patches[3].icon.as_ref().unwrap().font.as_ref().unwrap().size.text, "14");
    assert_eq!(
        patches[4].popup.as_ref().unwrap().background.as_ref().unwrap().border_width,
        Some(measure(1.0))
    );
}

#[test]
fn a_property_assignment_only_touches_what_it_named() {
    let mut session = Session::new();
    let item = session.add(r#"return "item", "clock""#).unwrap().unwrap();
    session.assign(&item, "popup.drawing", "true");
    let patch = session.patches().last().copied().unwrap();
    assert!(patch.icon.is_none());
    assert!(patch.label.is_none());
    assert!(patch.geometry.is_none());
}

#[test]
fn methods_and_property_assignment_live_on_the_same_handle() {
    let mut session = Session::new();
    let item = session.add(r#"return "item", "clock""#).unwrap().unwrap();
    assert_eq!(item.as_str(), "clock");
    session.assign(&item, "label", r#""hi""#);
    let set = ItemVerb::named("set").unwrap().request(&item, &one("{ drawing = true }"));
    session.requests.push(set.unwrap());
    let remove = ItemVerb::named("remove").unwrap().request(&item, &LuaValue::Nil);
    session.requests.push(remove.unwrap());
    assert!(matches!(session.requests.last().unwrap(), Request::Remove(_)));
    assert!(ItemVerb::named("label").is_none());
}

#[test]
fn every_kind_reaches_the_daemon_as_its_own_component() {
    let mut session = Session::new();
    session.add(r#"return "item", "an_item""#).unwrap();
    session.add(r#"return "alias", "Control Centre,FocusModes""#).unwrap();
    session.add(r#"return "bracket", "a_bracket", { "an_item" }"#).unwrap();
    session.add(r#"return "space", "a_space""#).unwrap();
    session.add(r#"return "graph", "a_graph", 50"#).unwrap();
    session.add(r#"return "slider", "a_slider", 100"#).unwrap();
    assert_eq!(
        session.added(),
        vec![
            &ComponentKind::Item { name: name("an_item"), position: Position::Left },
            &ComponentKind::Alias {
                name: name("Control Centre,FocusModes"),
                position: Position::Left,
            },
            &ComponentKind::Bracket {
                name: name("a_bracket"),
                members: vec![Selector::Name(name("an_item"))],
            },
            &ComponentKind::Space { name: name("a_space"), position: Position::Left },
            &ComponentKind::Graph { name: name("a_graph"), position: Position::Left },
            &ComponentKind::Slider { name: name("a_slider"), position: Position::Left },
        ]
    );
}

#[test]
fn an_alias_mirrors_the_menu_bar_item_it_is_named_after() {
    let mut session = Session::new();
    session.add(r#"return "alias", "Control Centre,FocusModes""#).unwrap();
    assert_eq!(session.patches()[0].alias.as_deref(), Some("Control Centre,FocusModes"));
}

#[test]
fn an_explicit_alias_wins_over_the_items_own_name() {
    let mut session = Session::new();
    session
        .add(r#"return "alias", "focus", { alias = "Control Centre,FocusModes" }"#)
        .unwrap();
    assert_eq!(session.patches()[0].alias.as_deref(), Some("Control Centre,FocusModes"));
}

#[test]
fn an_unnamed_add_is_counted_per_kind() {
    let mut session = Session::new();
    session.add(r#"return "bracket", { "a" }"#).unwrap();
    session.add(r#"return "item", {}"#).unwrap();
    session.add(r#"return "bracket", { "b" }"#).unwrap();
    let names: Vec<String> =
        session.added().iter().map(|kind| kind.placement().0.to_string()).collect();
    assert_eq!(names, vec!["bracket.1", "item.1", "bracket.2"]);
}

#[test]
fn a_brackets_members_ride_on_the_patch_so_patterns_survive() {
    let mut session = Session::new();
    session.add(r#"return "bracket", { "/menu\\..*/" }, {}"#).unwrap();
    assert_eq!(
        session.patches()[0].members,
        Some(vec![Selector::Pattern("menu\\..*".into())])
    );
}

#[test]
fn a_sliders_positional_width_becomes_the_items_width() {
    let mut session = Session::new();
    session
        .add(r#"return "slider", "volume_options", 100, { position = "popup.volume" }"#)
        .unwrap();
    assert_eq!(
        session.patches()[0].geometry.as_ref().unwrap().width,
        Some(measure(100.0))
    );
}

#[test]
fn a_popup_child_hangs_off_the_item_that_owns_the_popup() {
    let mut session = Session::new();
    session
        .add(r#"return "alias", "Fantastical,Fantastical", { position = "popup.overflow" }"#)
        .unwrap();
    assert_eq!(
        session.requests[0],
        Request::Add(ComponentKind::Alias {
            name: name("Fantastical,Fantastical"),
            position: Position::Popup(name("overflow")),
        })
    );
}

#[test]
fn an_unknown_kind_is_still_added_as_a_plain_item() {
    let mut session = Session::new();
    session.add(r#"return "widget", "thing", { label = "hi" }"#).unwrap();
    assert_eq!(
        session.requests[0],
        Request::Add(ComponentKind::Item { name: name("thing"), position: Position::Left })
    );
}

#[test]
fn a_second_argument_that_is_neither_a_name_nor_the_kinds_own_is_refused() {
    let mut session = Session::new();
    let result = session.add(r#"return "bracket", 42, {}"#);
    assert!(result.is_err(), "42 is neither a name nor members");
    assert!(session.requests.is_empty());
}

#[test]
fn defaults_are_merged_into_every_add() {
    let mut session = Session::new();
    match one(r"{ icon = { color = 0xffff0000 } }") {
        LuaValue::Table(defaults, _) => session.context.set_defaults(defaults),
        other => panic!("{other:?}"),
    }
    session.add(r#"return "item", "clock", { label = "12:00" }"#).unwrap();
    let patch = session.patches()[0];
    assert_eq!(patch.icon.as_ref().unwrap().color, Some(Color(0xffff_0000)));
    assert_eq!(patch.label.as_ref().unwrap().text.as_deref(), Some("12:00"));
}

#[test]
fn a_graph_takes_samples_by_name_and_through_its_handle() {
    let mut session = Session::new();
    let graph = session.add(r#"return "graph", "cpu", 50"#).unwrap().unwrap();
    let push = ItemVerb::named("push").unwrap().request(&graph, &one("0.5"));
    session.requests.push(push.unwrap());
    session.call("push", r#"return "cpu", 0.25"#).unwrap();
    let pushed: Vec<&Request> = session
        .requests
        .iter()
        .filter(|request| matches!(request, Request::Push { .. }))
        .collect();
    assert_eq!(
        pushed,
        vec![
            &Request::Push { name: name("cpu"), value: measure(0.5) },
            &Request::Push { name: name("cpu"), value: measure(0.25) },
        ]
    );
}

#[test]
fn moving_and_reordering_are_reachable_without_shelling_out() {
    let mut session = Session::new();
    session.call("move", r#"return "chevron", "after", "front_app""#).unwrap();
    session.call("reorder", r#"return { "chevron", "front_app" }"#).unwrap();
    assert_eq!(
        session.requests,
        vec![
            Request::Move {
                name: name("chevron"),
                relative: Relative::After,
                reference: name("front_app"),
            },
            Request::Reorder(vec![name("chevron"), name("front_app")]),
        ]
    );
}

#[test]
fn set_by_name_also_takes_sketchybars_pattern_shorthand() {
    let mut session = Session::new();
    session.call("set", r#"return "/menu\\..*/", { drawing = false }"#).unwrap();
    assert!(matches!(
        &session.requests[0],
        Request::SetItem(Selector::Pattern(pattern), _) if pattern == "menu\\..*"
    ));
}

#[test]
fn remove_takes_one_name_or_a_list_of_them() {
    let mut session = Session::new();
    session.call("remove", r#"return "clock""#).unwrap();
    session.call("remove", r#"return { "a", "/menu\\..*/" }"#).unwrap();
    assert_eq!(
        session.requests,
        vec![
            Request::Remove(Selector::Name(name("clock"))),
            Request::Remove(Selector::Name(name("a"))),
            Request::Remove(Selector::Pattern("menu\\..*".into())),
        ]
    );
}

#[test]
fn the_verbs_that_take_nothing_ask_for_one_thing_each() {
    let mut session = Session::new();
    for verb in ["update", "update_all", "reload", "begin_config", "end_config", "shutdown"] {
        session.call(verb, "return").unwrap();
    }
    assert_eq!(
        session.requests,
        vec![
            Request::UpdateAll,
            Request::UpdateAll,
            Request::Reload,
            Request::BeginConfig,
            Request::EndConfig,
            Request::Shutdown,
        ]
    );
    assert!(Verb::named("animate").is_none());
}

#[test]
fn a_trigger_carries_the_variables_it_was_given() {
    let mut session = Session::new();
    session.call("trigger", r#"return "demo", { VAR = "1" }"#).unwrap();
    match &session.requests[0] {
        Request::Trigger(event) => {
            assert_eq!(event.kind(), Kind::Custom("demo".into()));
            assert_eq!(event.env().get("VAR"), Some("1"));
        }
        other => panic!("{other:?}"),
    }
    assert!(session.call("trigger", r#"return "has space""#).is_err());
}

#[test]
fn a_move_needs_a_side() {
    let mut session = Session::new();
    let err = session.call("move", r#"return "a", "beside", "b""#).unwrap_err();
    assert!(err.to_string().contains("beside"), "{}", err.to_string());
}

#[test]
fn a_query_verb_asks_about_what_it_names() {
    assert_eq!(query_for("bar", &LuaValue::Nil).unwrap().unwrap(), Query::Bar);
    assert_eq!(query_for("items", &LuaValue::Nil).unwrap().unwrap(), Query::Items);
    assert_eq!(
        query_for("item", &one(r#""clock""#)).unwrap().unwrap(),
        Query::Item(name("clock"))
    );
    assert!(query_for("item", &one(r#""""#)).unwrap().is_err());
    assert!(query_for("weather", &LuaValue::Nil).is_none());
}

#[test]
fn a_component_the_daemon_refuses_is_a_plain_item_instead() {
    let graph = ComponentKind::Graph { name: name("cpu"), position: Position::Right };
    match after_add(&graph, &Err(ApiError::Rejected("no graphs".into())), "") {
        AfterAdd::Degrade(plain) => assert_eq!(
            plain,
            ComponentKind::Item { name: name("cpu"), position: Position::Right }
        ),
        other => panic!("{other:?}"),
    }
    assert!(matches!(after_add(&graph, &Ok(Response::Done), ""), AfterAdd::Added));
    match after_add(&graph, &Ok(Response::Items(Vec::new())), "Items([])") {
        AfterAdd::Failed(err) => {
            assert_eq!(err.to_string(), "rsbar: unexpected reply Items([])");
        }
        other => panic!("{other:?}"),
    }
    assert!(expect_ok(&Ok(Response::Done), "").is_ok());
    assert!(expect_ok(&Ok(Response::Items(Vec::new())), "Items([])").is_err());
    assert!(expect_ok(&Err(ApiError::Rejected("no".into())), "").is_err());
}

#[test]
fn a_reply_is_shown_as_what_it_answers() {
    let none = Ok(Response::Items(Vec::new()));
    assert_eq!(response_to_table(&none, "").unwrap(), Shown::List(vec![]));
    assert_eq!(
        response_to_table(&Ok(Response::Done), "Done").unwrap_err().to_string(),
        "rsbar: unexpected reply Done"
    );
    assert!(response_to_table(&Err(ApiError::Rejected("no".into())), "").is_err());
}

#[test]
fn a_word_that_counts_is_shown_as_a_number() {
    assert_eq!(scalar("42"), Scalar::Whole(42));
    assert_eq!(scalar("-7"), Scalar::Whole(-7));
    assert_eq!(scalar("four"), Scalar::Text("four".to_owned()));
    assert_eq!(read_signed("9223372036854775808"), None);
    assert_eq!(read_signed("-9223372036854775808"), Some(i64::MIN));
}

#[test]
fn an_event_reaches_a_handler_by_its_fields() {
    let event = Event::VolumeChanged(VolumeChange { volume: 42 });
    let table = event_to_table(&name("clock"), &event);
    assert_eq!(table.item, "clock");
    assert_eq!(table.event, "volume_changed");
    assert!(table
        .fields
        .iter()
        .any(|(key, held)| key == "volume" && *held == Scalar::Whole(42)));
}

#[test]
fn a_command_is_looked_for_next_to_this_program_first() {
    assert_eq!(child_path(Some("/opt/bin"), "/usr/bin"), "/opt/bin:/usr/bin");
    assert_eq!(child_path(Some("/opt/bin"), ""), "/opt/bin");
    assert_eq!(child_path(None, "/usr/bin"), "/usr/bin");
}

#[test]
fn a_kind_says_what_its_own_argument_is() {
    assert!(Extra::Members.claims(&one(r#"{ "a" }"#)));
    assert!(!Extra::Members.claims(&one("42")));
    assert!(Extra::Width.claims(&one("42")));
    assert!(!Extra::Nothing.claims(&one("42")));
    assert!(!Extra::Members.describe().is_empty());
    assert!(matches!(spec_for("event"), Some(Build::Event)));
    assert!(spec_for("widget").is_none());
}

#[test]
fn subscribing_by_name_reaches_the_same_registry_the_handle_does() {
    let mut session = Session::new();
    let item = session.add(r#"return "item", "clock""#).unwrap().unwrap();
    let asked = session.requests.len();
    // Purely local: which item it is for and what it is to, and no request.
    let (named, kinds) =
        subscription(&one(r#""clock""#), &one(r#""front_app_switched""#)).unwrap();
    assert_eq!((named.as_str(), kinds), (item.as_str(), vec![Kind::FrontAppSwitched]));
    let (named, kinds) = subscription(&one(r#""clock""#), &one(r#"{ "space_change" }"#)).unwrap();
    assert_eq!((named.as_str(), kinds.len()), ("clock", 1));
    assert_eq!(session.requests.len(), asked);
    assert!(subscription(&one("42"), &one(r#""front_app_switched""#)).is_err());
    assert!(subscription(&one(r#""""#), &one(r#""front_app_switched""#)).is_err());
}

/// What calling a function of Lua's own with some arguments is refused with.
fn refused<A: mlua::FromLuaMulti + 'static>(source: &str) -> String {
    let lua = Lua::new();
    let taking = lua.create_function(|_, _: A| Ok(())).unwrap();
    let args: MultiValue = lua.load(source).eval().unwrap();
    match taking.call::<()>(args) {
        Ok(()) => panic!("{source} reads"),
        Err(mlua::Error::CallbackError { cause, .. }) => cause.to_string(),
        Err(err) => err.to_string(),
    }
}

#[test]
fn an_argument_that_does_not_convert_says_which_it_is() {
    let asked = |verb: &str, source: &str| {
        let args = values(source);
        let at = |i: usize| args.get(i).map(LuaValue::copied).unwrap_or(LuaValue::Nil);
        match Verb::named(verb).unwrap().requests(&at(0), &at(1), &at(2)) {
            Ok(_) => panic!("{source} reads"),
            Err(err) => err.to_string(),
        }
    };
    assert_eq!(asked("bar", "return 3"), refused::<Table>("return 3"));
    assert_eq!(asked("set", "return {}, {}"), refused::<(String, Table)>("return {}, {}"));
    assert_eq!(asked("set", r#"return "a""#), refused::<(String, Table)>(r#"return "a""#));
    assert_eq!(asked("push", r#"return "a", {}"#), refused::<(String, f32)>(r#"return "a", {}"#));
    assert_eq!(
        asked("move", r#"return "a", "before", true"#),
        refused::<(String, String, String)>(r#"return "a", "before", true"#)
    );
    assert_eq!(
        asked("move", r#"return "a", "before", true"#),
        "bad argument #3: error converting Lua boolean to String (expected string or number)"
    );
    let clock = ItemName::new("clock").unwrap();
    let push = ItemVerb::named("push").unwrap().request(&clock, &LuaValue::Nil).unwrap_err();
    assert_eq!(
        push.to_string(),
        "bad argument #2 to `Item.push`: error converting Lua nil to f32 \
         (expected number or string coercible to number)"
    );
    let set = ItemVerb::named("set").unwrap().request(&clock, &LuaValue::Nil).unwrap_err();
    assert_eq!(
        set.to_string(),
        "bad argument #2 to `Item.set`: error converting Lua nil to table"
    );
    assert_eq!(
        query_for("item", &LuaValue::Nil).unwrap().unwrap_err().to_string(),
        refused::<String>("return nil")
    );
}

#[test]
fn a_name_that_is_no_text_is_refused_for_what_it_is() {
    let lua = Lua::new();
    let bytes: mlua::LuaString = lua.load(r#""\255""#).eval().unwrap();
    let said = match bytes.to_str() {
        Ok(_) => panic!("that is text"),
        Err(err) => err.to_string(),
    };
    let args = values(r#"return { "a", "\255" }"#);
    let asked = Verb::named("remove").unwrap().requests(&args[0], &LuaValue::Nil, &LuaValue::Nil);
    assert_eq!(asked.unwrap_err().to_string(), said);
    let args = values(r#"return "\255""#);
    let asked = Verb::named("remove").unwrap().requests(&args[0], &LuaValue::Nil, &LuaValue::Nil);
    assert_eq!(asked.unwrap_err().to_string(), said);
}

#[test]
fn a_table_made_on_the_way_is_shown_as_is_said() {
    let clock = ItemName::new("clock").unwrap();
    let groups = PropertyPath::new().child("label").child("color");
    let err = assign_request(&clock, &groups, "red", one("1"), "Table(Ref(0x1))").unwrap_err();
    assert!(err.to_string().contains("`Table(Ref(0x1))` is not a colour"), "{}", err.to_string());
}
