use coolabah::info::{Info, PowerSource};
use coolabah::json::{from_value, to_value, Json};

#[test]
fn every_payload_summarises_to_something_a_script_can_read() {
    assert_eq!(Info::Nothing.summary(), "");
    assert_eq!(Info::App { name: "Finder".into() }.summary(), "Finder");
    assert_eq!(Info::Volume { percent: 42 }.summary(), "42");
    assert_eq!(Info::Power { source: PowerSource::Battery }.summary(), "BATTERY");
    assert_eq!(Info::Custom(Json::String("hello".into())).summary(), "hello");
}

#[test]
fn structured_payloads_also_arrive_as_named_variables() {
    let env = Info::Volume { percent: 42 }.env();
    assert!(env.contains(&("RSBAR_INFO", "42".to_owned())));
    assert!(env.contains(&("RSBAR_VOLUME", "42".to_owned())));

    let env = Info::Space { display: 2, space: 7 }.env();
    assert!(env.contains(&("RSBAR_DISPLAY", "2".to_owned())));
    assert!(env.contains(&("RSBAR_SPACE", "7".to_owned())));
}

#[test]
fn info_an_empty_payload_still_sets_info_so_a_script_never_sees_it_unset() {
    assert_eq!(Info::Nothing.env(), vec![("RSBAR_INFO", String::new())]);
    assert!(Info::Nothing.is_none());
    assert!(Info::default().is_none());
    assert!(!Info::Volume { percent: 0 }.is_none());
}

#[test]
fn power_source_spelling_is_part_of_the_interface() {
    // Configs match on these, so they are not free to change.
    assert_eq!(PowerSource::Ac.to_string(), "AC");
    assert_eq!(PowerSource::Battery.to_string(), "BATTERY");
}

#[test]
fn a_bare_word_is_a_string_not_an_error() {
    assert_eq!(Json::parse_or_string("hello"), Json::String("hello".into()));
}

#[test]
fn a_document_parses() {
    let value = Json::parse_or_string(r#"{"state":"playing","track":3}"#);
    assert_eq!(value.get("state"), Some(&Json::String("playing".into())));
    assert_eq!(value.get("track"), Some(&Json::Int(3)));
    assert_eq!(value.get("album"), None);
    assert_eq!(Json::Int(3).get("track"), None);
}

#[test]
fn integers_stay_integers() {
    // A space id past 2^53 must not become a double.
    let big = 9_007_199_254_740_993_i64;
    assert_eq!(Json::parse_or_string(&big.to_string()), Json::Int(big));
}

#[test]
fn a_string_renders_unquoted_but_a_document_does_not() {
    assert_eq!(Json::String("Finder".into()).to_string(), "Finder");
    assert_eq!(Json::Int(42).to_string(), "42");
    assert_eq!(Json::Null.to_string(), "");
    let object = Json::Object(vec![("a".into(), Json::Int(1))]);
    assert_eq!(object.to_string(), r#"{"a":1}"#);
}

#[test]
fn a_value_comes_back_from_the_document_it_is() {
    let value = Json::parse_or_string(r#"{"a":[1,true,"x",2.5],"b":null}"#);
    assert_eq!(from_value(&to_value(&value)), value);
    assert_eq!(value.to_string(), r#"{"a":[1,true,"x",2.5],"b":null}"#);
    assert_eq!(Json::default(), Json::Null);
}

#[test]
fn a_field_written_twice_is_the_last_one() {
    let value = Json::parse_or_string(r#"{"a":1,"a":2}"#);
    assert_eq!(value.get("a"), Some(&Json::Int(2)));
}

#[test]
fn what_was_read_decides_what_a_text_is() {
    assert_eq!(Json::document_or_text("x", None), Json::String("x".into()));
    assert_eq!(Json::document_or_text("null", Some(serde_json::Value::Null)), Json::Null);
}
