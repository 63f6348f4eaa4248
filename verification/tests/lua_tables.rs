use coolabah::align::PopupAlign;
use coolabah::convert::{
    bar_patch_from_table, color_from_value, event_name_from_str, item_name_from_str,
    item_patch_from_table, item_position_from_table, kind_from_str, kinds_from_value,
    notification_name_from_str, position_from_str, selector_from_name,
};
use coolabah::display::DisplayTarget;
use coolabah::error::ApiError;
use coolabah::event::Kind;
use coolabah::flag::{BoolChange, Boolish};
use coolabah::lua::{LuaTable, LuaValue, Numeric, TextValue};
use coolabah::measure::Measure;
use coolabah::merge::deep_merge;
use coolabah::name::{ItemName, Selector};
use coolabah::place::{Edge, Position};
use coolabah::show::{bar_state_to_table, item_state_to_table, Shown};
use coolabah::state::{
    Background, BarPatch, Geometry, ItemPatch, ItemState, PopupState, Run, Scripting,
};
use coolabah::stray::{bar_strays, item_strays, nearest, Note};
use coolabah::style::Color;
use mlua::{Lua, Table, Value};

fn measure(value: f64) -> Measure {
    Measure { bits: value.to_bits(), text: value.to_string() }
}

fn numeric(lua: &Lua, value: f64) -> Numeric {
    let spelled = lua
        .coerce_string(Value::Number(value))
        .unwrap()
        .map(|text| text.to_string_lossy().to_string())
        .unwrap_or_default();
    Numeric {
        measure: measure(value),
        whole: lua.coerce_integer(Value::Number(value)).unwrap(),
        spelled,
    }
}

fn pieces(text: &str) -> Vec<Option<Measure>> {
    text.split(':').map(|piece| piece.parse::<f64>().ok().map(measure)).collect()
}

fn value(lua: &Lua, from: &Value) -> LuaValue {
    match from {
        Value::Nil => LuaValue::Nil,
        Value::Boolean(b) => LuaValue::Boolean(*b),
        Value::Integer(i) => LuaValue::Integer(*i, measure(*i as f64)),
        Value::Number(n) => LuaValue::Number(numeric(lua, *n)),
        Value::String(s) => match s.to_str() {
            Ok(text) => LuaValue::Text(TextValue {
                text: text.to_owned(),
                number: lua
                    .coerce_number(from.clone())
                    .unwrap()
                    .map(|number| numeric(lua, number)),
                pieces: pieces(&text),
            }),
            Err(_) => LuaValue::Bytes(
                std::str::from_utf8(&s.as_bytes()).unwrap_err().to_string(),
            ),
        },
        Value::Table(t) => LuaValue::Table(table(lua, t), format!("{from:?}")),
        Value::Function(_) => LuaValue::Other("function", format!("{from:?}")),
        _ => LuaValue::Other("userdata", format!("{from:?}")),
    }
}

fn table(lua: &Lua, from: &Table) -> LuaTable {
    let mut fields = Vec::new();
    for pair in from.pairs::<Value, Value>() {
        let (key, held) = pair.unwrap();
        if let Value::String(key) = key {
            fields.push((key.to_str().unwrap().to_owned(), value(lua, &held)));
        }
    }
    let mut items = Vec::new();
    for item in from.sequence_values::<Value>() {
        items.push(value(lua, &item.unwrap()));
    }
    LuaTable { fields, items }
}

fn read(text: &str) -> LuaTable {
    let lua = Lua::new();
    let loaded: Table = lua.load(text).eval().unwrap();
    table(&lua, &loaded)
}

fn patch(text: &str) -> ItemPatch {
    item_patch_from_table(&read(text)).unwrap()
}

fn integer(from: &LuaTable, key: &str) -> i64 {
    match from.get(key) {
        Some(LuaValue::Integer(i, _)) => *i,
        other => panic!("{key} is {other:?}"),
    }
}

fn text(from: &LuaTable, key: &str) -> String {
    match from.get(key) {
        Some(LuaValue::Text(held)) => held.text.clone(),
        other => panic!("{key} is {other:?}"),
    }
}

fn inner<'a>(from: &'a LuaTable, key: &str) -> &'a LuaTable {
    match from.get(key) {
        Some(LuaValue::Table(held, _)) => held,
        other => panic!("{key} is {other:?}"),
    }
}

#[test]
fn a_plain_name_is_a_selector_name() {
    assert_eq!(
        selector_from_name("front_app").unwrap(),
        Selector::Name(item_name_from_str("front_app").unwrap())
    );
}

#[test]
fn a_slash_wrapped_name_is_a_selector_pattern() {
    assert_eq!(
        selector_from_name("/menu\\..*/").unwrap(),
        Selector::Pattern("menu\\..*".to_string())
    );
}

#[test]
fn a_malformed_regex_still_parses_as_a_pattern() {
    // Only the daemon has a live item list to resolve one against, so it is
    // the one that rejects a bad regex.
    assert_eq!(selector_from_name("/[/").unwrap(), Selector::Pattern("[".to_string()));
}

#[test]
fn deep_merge_combines_nested_tables_rather_than_replacing_them() {
    let base = read(r#"{ icon = { color = 1, font = { family = "A", style = "B" } } }"#);
    let overlay = read(r#"{ icon = { font = { size = 11 } }, label = "hi" }"#);

    let merged = deep_merge(&base, &overlay, "Table(Ref(0x1))");
    let icon = inner(&merged, "icon");
    assert_eq!(integer(icon, "color"), 1);
    let font = inner(icon, "font");
    assert_eq!(text(font, "family"), "A");
    assert_eq!(text(font, "style"), "B");
    assert_eq!(integer(font, "size"), 11);
    assert_eq!(text(&merged, "label"), "hi");
}

#[test]
fn deep_merge_lets_the_overlay_win_on_a_leaf_conflict() {
    let base = read(r"{ color = 1 }");
    let overlay = read(r"{ color = 2 }");
    assert_eq!(integer(&deep_merge(&base, &overlay, "Table(Ref(0x1))"), "color"), 2);
}

#[test]
fn deep_merge_does_not_mutate_either_input() {
    let base = read(r"{ color = 1 }");
    let overlay = read(r"{ color = 2 }");
    deep_merge(&base, &overlay, "Table(Ref(0x1))");
    assert_eq!(integer(&base, "color"), 1);
    assert_eq!(integer(&overlay, "color"), 2);
}

#[test]
fn icon_string_is_sketchybars_own_spelling_for_the_glyph_text() {
    let patch = patch(r#"{ icon = { string = "" } }"#);
    assert_eq!(patch.icon.unwrap().text.as_deref(), Some(""));
}

#[test]
fn a_flat_font_string_passes_through_unchanged() {
    let patch = patch(r#"{ label = { font = "Hack:Bold:14" } }"#);
    assert_eq!(patch.label.unwrap().font.unwrap().to_string(), "Hack:Bold:14");
}

#[test]
fn a_nested_font_table_joins_into_the_flat_spelling() {
    let patch = patch(r#"{ icon = { font = { family = "Hack", style = "Bold", size = 14 } } }"#);
    assert_eq!(patch.icon.unwrap().font.unwrap().to_string(), "Hack:Bold:14");
}

#[test]
fn a_patch_only_carries_the_fields_the_table_actually_set() {
    // A component is dirty just by being touched, so a full patch would
    // repaint what nothing changed.
    let patch = patch(r#"{ label = "hi" }"#);
    assert!(patch.icon.is_none());
    assert!(patch.geometry.is_none());
    let label = patch.label.unwrap();
    assert_eq!(label.text.as_deref(), Some("hi"));
    assert_eq!(label.color, None);
    assert_eq!(label.font, None);
}

#[test]
fn an_alias_table_degrades_to_none_instead_of_erroring() {
    // A config tints a mirrored icon with a table where a name belongs, which
    // is one dropped property and no reason to fail the whole.
    let patch = patch(r"{ alias = { color = 0xffff0000 } }");
    assert_eq!(patch.alias, None);
}

#[test]
fn a_popup_position_names_the_item_it_hangs_off() {
    assert_eq!(
        item_position_from_table(&read(r#"{ position = "popup.volume" }"#)).unwrap(),
        Position::Popup(ItemName::new("volume").unwrap())
    );
}

#[test]
fn a_popup_drawing_string_is_read_as_an_on_off_flag_not_lua_truthiness() {
    let off = patch(r#"{ popup = { drawing = "off" } }"#);
    assert_eq!(off.popup.unwrap().drawing, Some(BoolChange::False));
    let on = patch(r#"{ popup = { drawing = "on" } }"#);
    assert_eq!(on.popup.unwrap().drawing, Some(BoolChange::True));
}

#[test]
fn an_unrecognised_bool_string_is_a_named_error_not_a_silent_true() {
    let err = item_patch_from_table(&read(r#"{ popup = { drawing = "perhaps" } }"#)).unwrap_err();
    assert!(err.to_string().contains("drawing"), "{}", err.to_string());
}

#[test]
fn a_popup_can_be_asked_to_toggle() {
    let patch = patch(r#"{ popup = { drawing = "toggle" } }"#);
    assert_eq!(patch.popup.unwrap().drawing, Some(BoolChange::Toggle));
}

#[test]
fn a_background_table_only_carries_the_fields_it_set() {
    let patch = patch(r"{ background = { color = 0xffff0000 } }");
    let background = patch.geometry.unwrap().background.unwrap();
    assert_eq!(background.color, Some(Color(0xffff_0000)));
    assert_eq!(background.height, None);
    assert_eq!(background.corner_radius, None);
}

fn shown<'a>(from: &'a Shown, key: &str) -> &'a Shown {
    match from {
        Shown::Fields(fields) => match fields.iter().find(|(name, _)| *name == key) {
            Some((_, held)) => held,
            None => panic!("{key} is not shown"),
        },
        other => panic!("{other:?} has no {key}"),
    }
}

fn word(from: &Shown) -> &str {
    match from {
        Shown::Text(text) => text,
        other => panic!("{other:?} is no text"),
    }
}

fn an_item() -> ItemState {
    ItemState {
        popup: PopupState {
            drawing: Boolish(false),
            horizontal: Boolish(false),
            align: PopupAlign::Left,
            topmost: Boolish(true),
            height: measure(0.0),
            y_offset: measure(0.0),
            background: Background::default(),
        },
        name: item_name_from_str("clock").unwrap(),
        geometry: Geometry {
            drawing: Boolish(true),
            position: Position::Right,
            y_offset: measure(0.0),
            padding_left: measure(2.0),
            padding_right: measure(2.0),
            width: None,
            display: DisplayTarget::All,
            background: Background { drawing: Boolish(false), ..Background::default() },
        },
        icon: Run { drawing: Boolish(true), ..Run::default() },
        label: Run::default(),
        scripting: Scripting {
            script: None,
            click_script: None,
            update_freq: 0,
            updates: Boolish(true),
        },
        events: Vec::new(),
        alias: None,
        members: Vec::new(),
        associated_space: None,
        percentage: 0,
        knob: Run::default(),
        highlight_color: Color::default(),
    }
}

#[test]
fn a_query_result_renders_flags_as_on_off_strings_not_booleans() {
    let table = item_state_to_table(&an_item());
    let geometry = shown(&table, "geometry");
    assert_eq!(word(shown(geometry, "drawing")), "on");
    assert_eq!(word(shown(shown(geometry, "background"), "drawing")), "off");
    assert_eq!(word(shown(shown(&table, "icon"), "drawing")), "on");
    assert_eq!(word(shown(shown(&table, "scripting"), "updates")), "on");
    assert_eq!(word(shown(&table, "name")), "clock");
}

#[test]
fn a_query_answers_with_the_nesting_a_config_reads_back() {
    let table = item_state_to_table(&an_item());
    for key in ["name", "geometry", "popup", "icon", "label", "scripting"] {
        shown(&table, key);
    }
    let geometry = shown(&table, "geometry");
    for key in
        ["drawing", "position", "y_offset", "padding_left", "padding_right", "width", "background"]
    {
        shown(geometry, key);
    }
    shown(shown(&table, "scripting"), "script");
    // And the flat spellings belong to the patch, not to this.
    match &table {
        Shown::Fields(fields) => assert!(fields.iter().all(|(name, _)| *name != "padding_left")),
        other => panic!("{other:?}"),
    }
}

#[test]
fn a_bar_query_result_renders_flags_as_on_off_strings() {
    let state = BarPatch {
        edge: Some(Edge::Top),
        topmost: Some(BoolChange::True),
        hidden: Some(BoolChange::False),
        ..BarPatch::default()
    }
    .construct(1)
    .unwrap();
    let table = bar_state_to_table(&state);
    assert_eq!(word(shown(&table, "topmost")), "on");
    assert_eq!(word(shown(&table, "hidden")), "off");
    assert_eq!(word(shown(&table, "edge")), "top");
    assert_eq!(shown(&table, "displays"), &Shown::Count(1));
}

#[test]
fn position_defaults_to_left_when_unset() {
    assert_eq!(item_position_from_table(&read(r"{ }")).unwrap(), Position::Left);
}

#[test]
fn position_is_read_out_of_the_options_table() {
    assert_eq!(
        item_position_from_table(&read(r#"{ position = "right" }"#)).unwrap(),
        Position::Right
    );
}

#[test]
fn a_bar_table_reads_top_and_bottom_from_position_like_sketchybar_does() {
    assert_eq!(
        bar_patch_from_table(&read(r#"{ position = "bottom" }"#)).unwrap().edge,
        Some(Edge::Bottom)
    );
}

#[test]
fn a_bar_table_still_accepts_the_older_edge_spelling() {
    assert_eq!(
        bar_patch_from_table(&read(r#"{ edge = "bottom" }"#)).unwrap().edge,
        Some(Edge::Bottom)
    );
}

#[test]
fn an_item_patch_is_flat_where_the_state_is_nested() {
    let patch =
        patch(r#"{ padding_left = 4, script = "s", label = { color = "0xffff0000" } }"#);
    assert_eq!(patch.geometry.as_ref().and_then(|g| g.padding_left.clone()), Some(measure(4.0)));
    assert_eq!(
        patch.scripting.as_ref().and_then(|s| s.script.clone()),
        Some("s".to_owned())
    );
    assert_eq!(patch.label.unwrap().color, Some(Color(0xffff_0000)));
}

#[test]
fn run_patch_names_an_unknown_property_without_losing_the_rest() {
    let table = read(r#"{ label = { wat = 1, color = "0xffff0000" } }"#);
    let patch = item_patch_from_table(&table).expect("a stray key is named, not rejected");
    assert_eq!(patch.label.unwrap().color, Some(Color(0xffff_0000)));
    let strays = item_strays(&table);
    assert_eq!(strays.len(), 1);
    assert_eq!((strays[0].what.as_str(), strays[0].key.as_str()), ("label", "wat"));
}

#[test]
fn a_flag_reads_as_a_lua_boolean_and_as_sketchybars_own_string() {
    assert_eq!(patch(r"{ drawing = true }").geometry.unwrap().drawing, Some(BoolChange::True));
    assert_eq!(patch(r#"{ drawing = "off" }"#).geometry.unwrap().drawing, Some(BoolChange::False));
    assert_eq!(
        patch(r#"{ drawing = "toggle" }"#).geometry.unwrap().drawing,
        Some(BoolChange::Toggle)
    );
}

#[test]
fn a_colour_reads_as_the_bare_number_a_lua_config_writes() {
    let by_number = patch(r"{ background = { color = 0xffff0000 } }");
    let by_string = patch(r#"{ background = { color = "0xffff0000" } }"#);
    assert_eq!(
        by_number.geometry.unwrap().background.unwrap().color,
        Some(Color(0xffff_0000))
    );
    assert_eq!(
        by_string.geometry.unwrap().background.unwrap().color,
        Some(Color(0xffff_0000))
    );
    // And a number that is not a colour says so rather than truncating to
    // some shade nobody asked for.
    assert!(item_patch_from_table(&read(r"{ background = { color = 1.5 } }")).is_err());
}

#[test]
fn a_bare_string_is_the_text_of_the_half_it_was_written_for() {
    assert_eq!(patch(r#"{ label = "12:00" }"#).label.unwrap().text, Some("12:00".into()));
    assert_eq!(
        patch(r#"{ label = { string = "12:00" } }"#).label.unwrap().text,
        Some("12:00".into())
    );
}

#[test]
fn a_font_reads_as_a_table_of_parts_as_well_as_the_joined_spelling() {
    let flat = patch(r#"{ icon = { font = "Hack:Bold:14" } }"#);
    let parts = patch(r"{ icon = { font = { family = 'Hack', style = 'Bold', size = 14 } } }");
    assert_eq!(flat.icon.unwrap().font, parts.icon.unwrap().font);
}

#[test]
fn a_key_no_patch_has_a_field_for_costs_that_key_and_nothing_else() {
    let table = read(r"{ nonsense_key = 1, y_offset = 3 }");
    let patch_read = item_patch_from_table(&table).unwrap();
    assert_eq!(patch_read.geometry.unwrap().y_offset, Some(measure(3.0)));
    let strays = item_strays(&table);
    assert_eq!(strays.len(), 1);
    assert_eq!(strays[0].key, "nonsense_key");
    assert_eq!(strays[0].note, Note::DoesNothing);

    let patch = patch(r"{ alias = { color = 0xffff0000 } }");
    assert_eq!(patch.alias, None);
}

#[test]
fn a_misspelling_is_told_what_it_may_have_meant() {
    let strays = item_strays(&read(r"{ y_offst = 3 }"));
    assert_eq!(strays.len(), 1);
    assert_eq!(strays[0].note, Note::DidYouMean("y_offset"));
    assert_eq!(strays[0].to_string(), "unknown setting; did you mean `y_offset`?");
    assert_eq!(nearest("colr", &vec!["height", "color"]), Some("color"));
    assert_eq!(nearest("zzzzzzzz", &vec!["height", "color"]), None);
    assert_eq!(nearest("drawng", &vec!["drawing"]), Some("drawing"), "one left out");
    assert_eq!(nearest("draawing", &vec!["drawing"]), Some("drawing"), "one too many");
    assert_eq!(nearest("drawinh", &vec!["drawing"]), Some("drawing"), "one in the place of another");
    assert_eq!(nearest("drwaing", &vec!["drawing"]), None, "two out of place");
    assert!(bar_strays(&read(r"{ height = 3 }")).is_empty());
    assert_eq!(bar_strays(&read(r"{ heigth = 3 }")).len(), 1);
}

#[test]
fn a_value_of_the_wrong_kind_says_what_it_is_and_what_was_wanted() {
    let err = item_patch_from_table(&read(r"{ label = { color = true } }")).unwrap_err();
    assert_eq!(
        err.to_string(),
        "rsbar: `Boolean(true)` is not a colour: expected 0xaarrggbb, 0xrrggbb or \"#rrggbb\""
    );
    let err = item_patch_from_table(&read(r"{ y_offset = true }")).unwrap_err();
    assert!(!err.to_string().is_empty());
    let err = item_patch_from_table(&read(r#"{ display = "second" }"#)).unwrap_err();
    assert!(err.to_string().contains("second"), "{}", err.to_string());
    let err = bar_patch_from_table(&read(r#"{ position = "left" }"#)).unwrap_err();
    assert!(err.to_string().contains("left"), "{}", err.to_string());
}

#[test]
fn every_key_an_item_reads_is_known() {
    let table = read(r"{ percentage = 40, highlight_color = 0xffff0000, width = 12 }");
    let patch = item_patch_from_table(&table).unwrap();
    assert_eq!(patch.percentage, Some(40));
    assert_eq!(patch.highlight_color, Some(Color(0xffff_0000)));
    assert!(item_strays(&table).is_empty());
}

#[test]
fn a_popups_flag_reads_by_its_word() {
    let popup = |source: &str| patch(source).popup.unwrap().horizontal;
    assert_eq!(popup(r#"{ popup = { horizontal = "off" } }"#), Some(BoolChange::False));
    assert_eq!(popup(r#"{ popup = { horizontal = "on" } }"#), Some(BoolChange::True));
    assert_eq!(popup(r"{ popup = { horizontal = false } }"), Some(BoolChange::False));
}

#[test]
fn a_fraction_is_no_colour() {
    let lua = Lua::new();
    assert_eq!(
        color_from_value(&LuaValue::Number(numeric(&lua, 1.5))),
        Err(ApiError::InvalidColor("1.5".into()))
    );
    assert_eq!(color_from_value(&LuaValue::Number(numeric(&lua, 255.0))), Ok(0xff));
}

#[test]
fn a_number_out_of_range_is_no_colour() {
    assert_eq!(
        color_from_value(&LuaValue::Integer(-1, measure(-1.0))),
        Err(ApiError::InvalidColor("-1".into()))
    );
    assert_eq!(color_from_value(&LuaValue::Integer(0xff, measure(255.0))), Ok(0xff));
    assert!(color_from_value(&LuaValue::Nil).is_err());
    assert_eq!(
        color_from_value(&LuaValue::Bytes("why".into())),
        Err(ApiError::InvalidColor("<non-utf8>".into()))
    );
}

#[test]
fn names_are_held_to_the_rules_they_have() {
    assert!(position_from_str("sideways").is_err());
    assert!(kind_from_str("has space").is_err());
    assert!(item_name_from_str("").is_err());
    assert!(event_name_from_str("volume_changed").is_err());
    assert!(notification_name_from_str("").is_err());
    assert!(item_name_from_str("").unwrap_err().to_string().contains("item name"));
}

#[test]
fn kinds_are_read_from_one_name_or_a_list_of_them() {
    let table = read(r#"{ "front_app_switched", "demo" }"#);
    let kinds = kinds_from_value(&LuaValue::Table(table, "Table".into())).unwrap();
    assert_eq!(kinds, vec![Kind::FrontAppSwitched, Kind::Custom("demo".into())]);
    let lua = Lua::new();
    let one = value(&lua, &lua.load(r#""system_woke""#).eval::<Value>().unwrap());
    assert_eq!(kinds_from_value(&one).unwrap(), vec![Kind::SystemWoke]);
    assert!(kinds_from_value(&LuaValue::Nil).is_err());
}

#[test]
fn what_is_no_colour_at_all_is_shown_as_lua_shows_it() {
    let lua = Lua::new();
    for source in ["nil", "true", "false", "{}", "print"] {
        let from: Value = lua.load(source).eval().unwrap();
        assert_eq!(
            color_from_value(&value(&lua, &from)),
            Err(ApiError::InvalidColor(format!("{from:?}"))),
            "{source}"
        );
    }
}

/// What reading a field of a table as something else is refused with.
fn refusal<T: mlua::FromLua>(source: &str, key: &str) -> String {
    let lua = Lua::new();
    let from: Table = lua.load(source).eval().unwrap();
    match from.get::<Option<T>>(key) {
        Ok(_) => panic!("{source} reads"),
        Err(err) => err.to_string(),
    }
}

#[test]
fn a_value_that_does_not_convert_is_refused_in_luas_own_words() {
    let item = |source: &str| match item_patch_from_table(&read(source)) {
        Ok(_) => panic!("{source} reads"),
        Err(err) => err.to_string(),
    };
    for source in ["{ script = {} }", "{ script = true }", r#"{ script = "\255" }"#] {
        assert_eq!(item(source), refusal::<String>(source, "script"));
    }
    for source in ["{ y_offset = {} }", r#"{ y_offset = "high" }"#, "{ y_offset = false }"] {
        assert_eq!(item(source), refusal::<f64>(source, "y_offset"));
    }
    for source in [
        "{ update_freq = {} }",
        "{ update_freq = -1 }",
        "{ update_freq = 1.5 }",
        "{ update_freq = 1e300 }",
        "{ update_freq = 4294967296.0 }",
        r#"{ update_freq = "1.5" }"#,
        r#"{ update_freq = "-1" }"#,
        r#"{ update_freq = "often" }"#,
    ] {
        assert_eq!(item(source), refusal::<u32>(source, "update_freq"));
    }
    assert_eq!(item("{ percentage = 256 }"), refusal::<u8>("{ percentage = 256 }", "percentage"));
    for source in ["{ members = 3 }", "{ members = { {} } }", r#"{ members = { "\255" } }"#] {
        assert_eq!(item(source), refusal::<Vec<String>>(source, "members"));
    }
    assert_eq!(item("{ background = 3 }"), refusal::<Table>("{ background = 3 }", "background"));
    let bar = bar_patch_from_table(&read("{ blur_radius = 2147483648 }")).unwrap_err();
    assert_eq!(
        bar.to_string(),
        refusal::<i32>("{ blur_radius = 2147483648 }", "blur_radius")
    );
}

#[test]
fn a_merged_table_is_shown_as_the_one_it_is() {
    let base = read("{ label = { color = { a = 1 } } }");
    let overlay = read("{ label = { color = { b = 2 } } }");
    let merged = deep_merge(&base, &overlay, "Table(Ref(0x1))");
    let err = item_patch_from_table(&merged).unwrap_err();
    assert!(err.to_string().contains("`Table(Ref(0x1))` is not a colour"), "{}", err.to_string());
}
