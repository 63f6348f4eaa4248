use coolabah::ipc::{answered, EventStream, IpcDispatcher, Next, Polled};
use coolabah::modules::{
    candidates, chunk_name, config_directory, miss_reason, module_names, native_search_path,
    search_path, Located, Modules,
};
use coolabah::naming::{
    env_name, is_env_name, rc_name, service, service_name, test_service, ENV_PREFIX, NAME,
};
use coolabah::request::Response;

fn at(directory: &str, file: &str) -> Located {
    Located {
        whole: format!("{directory}/{file}"),
        directory: Some(directory.to_owned()),
        file: Some(file.to_owned()),
    }
}

#[test]
fn a_dotted_name_maps_to_a_nested_directory() {
    assert_eq!(candidates("/config/?.lua", "items.left"), vec!["/config/items/left.lua"]);
}

#[test]
fn a_missing_module_names_every_candidate_it_tried() {
    assert_eq!(
        candidates("/does/not/exist/?.lua;/nor/this/?/init.lua", "nowhere"),
        vec!["/does/not/exist/nowhere.lua", "/nor/this/nowhere/init.lua"]
    );
    assert!(miss_reason("nowhere").contains("nowhere"));
}

#[test]
fn an_empty_template_is_no_place_to_look() {
    assert!(candidates("", "a").is_empty());
    assert_eq!(candidates(";;/x/?.lua;", "a"), vec!["/x/a.lua"]);
    // A place may name the module more than once, or not at all.
    assert_eq!(candidates("/?/?.lua;/fixed.lua", "a"), vec!["/a/a.lua", "/fixed.lua"]);
}

#[test]
fn a_tracked_require_records_the_file_it_loaded() {
    let mut modules = Modules::new();
    assert!(modules.is_empty(), "nothing is tracked before a require");

    modules.record("colors", at("/config", "colors.lua"));

    assert_eq!(modules.paths(), vec![at("/config", "colors.lua")]);
    assert_eq!(modules.directories(), vec!["/config"]);
    assert!(modules.watches(&at("/config", "colors.lua")));
    assert!(!modules.watches(&at("/config", "unrelated.lua")));
}

#[test]
fn an_error_in_a_tracked_module_names_its_file() {
    assert_eq!(chunk_name("/config/broken.lua"), "@/config/broken.lua");
}

#[test]
fn a_module_the_next_generation_stops_requiring_is_swept() {
    let mut modules = Modules::new();
    // Generation one wants both.
    modules.record("kept", at("/config", "kept.lua"));
    modules.record("dropped", at("/config", "dropped.lua"));
    assert_eq!(modules.len(), 2);

    // Generation two wants one.
    modules.begin();
    modules.record("kept", at("/config", "kept.lua"));
    assert_eq!(
        modules.end(),
        vec![at("/config", "dropped.lua")],
        "only what the new generation left out"
    );
    assert_eq!(modules.paths(), vec![at("/config", "kept.lua")]);
}

#[test]
fn a_failed_run_keeps_every_watch_it_had() {
    let mut modules = Modules::new();
    modules.record("kept", at("/config", "kept.lua"));

    modules.begin();
    modules.keep();
    assert!(modules.end().is_empty(), "a failed run drops nothing");
    assert_eq!(modules.len(), 1);
}

#[test]
fn a_failed_config_keeps_the_watches_it_had() {
    let mut modules = Modules::new();
    modules.record("kept", at("/config", "kept.lua"));
    modules.begin();
    assert!(modules.finish(false).is_empty());
    assert_eq!(modules.len(), 1);
    modules.begin();
    assert_eq!(modules.finish(true), vec![at("/config", "kept.lua")]);
    assert!(modules.is_empty());
}

#[test]
fn a_config_runs_off_thread_and_reports_the_modules_it_loaded() {
    let mut modules = Modules::new();
    modules.begin();
    modules.record("items.left", at("/config/items", "left.lua"));
    modules.record("colors", at("/config", "colors.lua"));
    assert!(modules.finish(true).is_empty());
    assert_eq!(modules.len(), 2);
    let mut directories = modules.directories();
    directories.sort();
    assert_eq!(directories, vec!["/config", "/config/items"]);
}

#[test]
fn a_module_loaded_from_elsewhere_replaces_where_it_was() {
    let mut modules = Modules::new();
    modules.record("colors", at("/old", "colors.lua"));
    modules.record("colors", at("/new", "colors.lua"));
    assert_eq!(modules.paths(), vec![at("/new", "colors.lua")]);
    // A save reported against another spelling of the path is still the file.
    assert!(modules.watches(&at("/private/new", "colors.lua")));
}

#[test]
fn a_run_keeps_exactly_what_it_asked_for() {
    let mut modules = Modules::new();
    modules.record("colors", at("/config", "colors.lua"));
    modules.record("icons", at("/config", "icons.lua"));
    modules.record("bar", at("/config", "bar.lua"));

    modules.begin();
    modules.record("icons", at("/config", "icons.lua"));
    modules.record("colors", at("/themes", "colors.lua"));
    modules.record("items", at("/config", "items.lua"));
    assert_eq!(modules.end(), vec![at("/config", "bar.lua")]);

    let mut kept = modules.paths();
    kept.sort_by(|a, b| a.whole.cmp(&b.whole));
    assert_eq!(
        kept,
        vec![
            at("/config", "icons.lua"),
            at("/config", "items.lua"),
            at("/themes", "colors.lua"),
        ]
    );
}

#[test]
fn every_name_a_config_reaches_for_finds_the_same_table() {
    assert_eq!(module_names(), vec!["rsbar", "sbar", "sketchybar"]);
}

#[test]
fn a_configs_own_modules_come_last() {
    assert_eq!(search_path("a", "/c"), "a;/c/?.lua;/c/?/init.lua");
    assert_eq!(native_search_path("a", "/c"), "a;/c/?.so;/c/?.dylib");
    assert_eq!(config_directory(Some("/c")), "/c");
    assert_eq!(config_directory(None), ".");
}

#[test]
fn one_name_makes_all_the_others() {
    assert_eq!(NAME, "coolabah");
    assert_eq!(ENV_PREFIX, "COOLABAH_");
    assert_eq!(env_name("CONFIG"), "COOLABAH_CONFIG");
    assert!(is_env_name(&env_name("CONFIG")));
    assert!(!is_env_name("HOME"));
    assert_eq!(rc_name(), "coolabahrc");
    assert_eq!(service(), "com.auscyber.coolabah");
    assert_eq!(test_service("queries", 42), "com.auscyber.coolabah.test.queries.42");
}

#[test]
fn a_service_is_what_the_environment_says() {
    assert_eq!(service_name(Some("dev".to_owned())), "dev");
    assert_eq!(service_name(None), "com.auscyber.rsbar");
    assert_eq!(IpcDispatcher::new(None).service(), "com.auscyber.rsbar");
    assert_eq!(IpcDispatcher::with_service("dev".to_owned()).service(), "dev");
}

#[test]
fn a_refusal_is_an_error_and_nothing_else_is() {
    assert!(answered(Response::Error("no".to_owned())).is_err());
    assert_eq!(answered(Response::Done).unwrap(), Response::Done);
}

#[test]
fn a_stream_that_ended_stays_ended() {
    let mut stream = EventStream::new();
    assert_eq!(stream.poll(Polled::Delivered), Next::Deliver);
    assert_eq!(stream.poll(Polled::Undecodable), Next::Skip);
    assert_eq!(stream.poll(Polled::Pending), Next::Wait);
    assert!(!stream.is_done());
    assert_eq!(stream.poll(Polled::Gone), Next::End);
    assert!(stream.is_done());
    assert_eq!(stream.poll(Polled::Delivered), Next::End);
}
