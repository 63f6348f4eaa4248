//! What comes of a call, said of what it is given and what it gives back.

use crate::api::{after_add, expect_ok, AfterAdd};
use crate::cli::{triggered_with, verdict, BarOptions, Command, ItemOptions, Verdict};
use crate::component::ComponentKind;
use crate::convert::{bar_patch_from_table, item_patch_from_table};
use crate::declaring::{comes_before, is_first, is_place, name_views, scoped, union_of};
use crate::display::DisplayTarget;
use crate::error::ApiError;
use crate::event::{Event, Kind, MouseButton, PowerChange};
use crate::flag::{on_off, BoolChange, Boolish};
use crate::ipc::answered;
use crate::laws::options::{gives_geometry, gives_half, gives_scripting, gives_text};
use crate::laws::tables::{bar_fits, bar_says, item_fits, item_says};
use crate::lua::{LuaError, LuaTable};
use crate::measure::Measure;
use crate::modules::{
    chunk_name, config_directory, miss_reason, native_search_path, search_path, Located,
};
use crate::name::Selector;
use crate::naming::{env_name, is_env_name, rc_name, service, service_name, test_service};
use crate::patching::{apply_name, changed_name, record_name};
use crate::request::{Request, Response};
use crate::show::{bar_state_to_table, item_state_to_table, Shown, ShownView};
use crate::sources::accessibility::may_replace;
use crate::sources::mouse::{decode, MouseKind, Reading};
use crate::sources::notifications::{app_launched, display_changed, front_app, will_sleep, woke};
use crate::sources::power::Snapshot;
use crate::sources::spaces::space_changed;
use crate::sources::watcher::{touches, Watcher};
use crate::spelling::{written, Written};
use crate::state::{BarPatch, BarState, ItemPatch, ItemState};
use crate::style::{Color, FontSpec};
use crate::text::decimal_text;
use vstd::prelude::*;

verus! {

// ---------------------------------------------------------------------------
// Tables and options

/// A table that is read as a bar's gives a patch that says, of each property, what
/// stands under its name, and a table is refused exactly where one of them does not
/// read.
pub proof fn law_a_bar_is_read_from_its_table(table: LuaTable, read: Result<BarPatch, LuaError>)
    requires
        call_ensures(bar_patch_from_table, (&table,), read),
    ensures
        read matches Ok(patch) ==> bar_says(table@.0, patch),
        read is Ok <==> bar_fits(table@.0),
{
    match read {
        Ok(patch) => {
            crate::laws::tables::law_a_bar_says_what_stands_under_each_name(table@.0, patch);
        },
        Err(_) => {
            crate::laws::tables::law_a_bar_says_what_stands_under_each_name(table@.0, arbitrary());
        },
    }
}

/// The same of an item.
pub proof fn law_an_item_is_read_from_its_table(table: LuaTable, read: Result<ItemPatch, LuaError>)
    requires
        call_ensures(item_patch_from_table, (&table,), read),
    ensures
        read matches Ok(patch) ==> item_says(table@.0, patch),
        read is Ok <==> item_fits(table@.0),
{
    match read {
        Ok(patch) => {
            crate::laws::tables::law_an_item_says_what_stands_under_each_name(table@.0, patch);
        },
        Err(_) => {
            crate::laws::tables::law_an_item_says_what_stands_under_each_name(
                table@.0,
                arbitrary(),
            );
        },
    }
}

/// The options of a bar make the patch of the properties they are named after.
pub proof fn law_bar_options_make_their_patch(o: BarOptions, patch: BarPatch)
    requires
        call_ensures(BarOptions::into_patch, (o,), patch),
    ensures
        crate::laws::options::gives_number(o.height, patch.height),
        crate::laws::options::gives_number(o.margin, patch.margin),
        crate::laws::options::gives_number(o.y_offset, patch.y_offset),
        crate::laws::options::gives_number(o.corner_radius, patch.corner_radius),
        crate::laws::options::gives_color(o.color, patch.color),
        crate::laws::options::gives_flag(o.hidden, patch.hidden),
        crate::laws::options::gives_flag(o.topmost, patch.topmost),
        patch.edge == o.edge,
        patch.blur_radius == o.blur_radius,
{
    crate::laws::options::law_bar_options_say_what_they_are_named(o, patch);
}

/// The options of an item make the patch of the properties they are named after.
pub proof fn law_item_options_make_their_patch(o: ItemOptions, patch: ItemPatch)
    requires
        call_ensures(ItemOptions::into_patch, (o,), patch),
    ensures
        gives_half(o.icon, o.icon_font, o.icon_color, patch.icon),
        gives_half(o.label, o.label_font, o.label_color, patch.label),
        gives_geometry(o, patch.geometry),
        gives_scripting(o, patch.scripting),
        gives_text(o.alias, patch.alias),
{
    crate::laws::options::law_item_options_say_what_they_are_named(o, patch);
}

/// A bar is shown with its own properties, and an item with its own.
pub proof fn law_a_state_is_shown_as_its_own(
    bar: BarState,
    item: ItemState,
    bar_table: Shown,
    item_table: Shown,
)
    requires
        call_ensures(bar_state_to_table, (&bar,), bar_table),
        call_ensures(item_state_to_table, (&item,), item_table),
    ensures
        bar_table@ matches ShownView::Fields(fields) && crate::laws::shown::bar_is_shown(
            fields,
            bar,
        ),
        item_table@ matches ShownView::Fields(fields) && fields[0] == (
            "name"@,
            ShownView::Text(item.name@),
        ) && (fields[1].1 matches ShownView::Fields(inner) && crate::laws::shown::geometry_is_shown(
            inner,
            item.geometry,
        )) && (fields[3].1 matches ShownView::Fields(inner) && crate::laws::shown::run_is_shown(
            inner,
            item.icon,
        )) && (fields[4].1 matches ShownView::Fields(inner) && crate::laws::shown::run_is_shown(
            inner,
            item.label,
        )),
{
    crate::laws::shown::law_bar_is_shown(bar);
    crate::laws::shown::law_item_is_shown(item);
}

/// A command makes the request it is for, of the item it names and with what it is
/// given.
pub proof fn law_a_command_makes_its_request(command: Command, request: Request)
    requires
        call_ensures(Command::request, (command,), request),
    ensures
        match command {
            Command::SetBar(options) => request matches Request::SetBar(patch)
                && crate::laws::options::gives_number(options.height, patch.height)
                && crate::laws::options::gives_number(options.y_offset, patch.y_offset),
            Command::AddItem { name, position } => request matches Request::Add(component) && (
            component matches ComponentKind::Item { name: named, position: at } && named == name
                && at == position),
            Command::SetItem { name, options } => request matches Request::SetItem(selector, patch)
                && (selector matches Selector::Name(named) && named == name) && gives_half(
                options.icon,
                options.icon_font,
                options.icon_color,
                (*patch).icon,
            ) && gives_half(options.label, options.label_font, options.label_color, (*patch).label)
                && gives_geometry(options, (*patch).geometry) && gives_scripting(
                options,
                (*patch).scripting,
            ),
            Command::RemoveItem(name) => request matches Request::Remove(selector) && (
            selector matches Selector::Name(named) && named == name),
            Command::Subscribe { name, events } => request matches Request::Subscribe {
                name: named,
                events: told,
            } && named == name && told == events,
            Command::Query(query) => request matches Request::Query(asked) && asked == query,
            Command::Trigger { event, info } => request matches Request::Trigger(fired)
                && crate::event::event_kind(fired) == event@,
            Command::Update => request is UpdateAll,
            Command::Reload => request is Reload,
            Command::Shutdown => request is Shutdown,
        },
{
    match command {
        Command::SetBar(options) => {
            if let Request::SetBar(patch) = request {
                crate::laws::options::law_bar_options_say_what_they_are_named(options, patch);
            }
        },
        Command::SetItem { name, options } => {
            if let Request::SetItem(selector, patch) = request {
                crate::laws::options::law_item_options_say_what_they_are_named(options, *patch);
            }
        },
        _ => {},
    }
}

/// An answer is printed whole, line by line or not at all, or is a failure, by what
/// it is an answer of.
pub proof fn law_an_answer_is_printed_by_what_it_is(response: Response, told: Verdict)
    requires
        call_ensures(verdict, (&response,), told),
    ensures
        told == Verdict::Failed <==> response is Error,
        told == Verdict::Quiet <==> response is Done,
        told == Verdict::Lines <==> response is Items || response is MenuItems
            || response is AppMenus,
        told == Verdict::Whole <==> response is Bar || response is Item || response is Defaults,
{
}

/// An event is triggered as the kind it is named, with what is given under the one
/// name where it is of a config's own.
pub proof fn law_an_event_is_triggered_as_named(kind: Kind<()>, info: Option<String>, fired: Event)
    requires
        call_ensures(triggered_with, (kind, info), fired),
    ensures
        crate::event::event_kind(fired) == kind@,
        fired matches Event::Custom(custom) ==> match info {
            Some(text) => custom.vars@.contains_key("info"@) && custom.vars@["info"@] == text@,
            None => custom.vars@ == Map::<Seq<char>, Seq<char>>::empty(),
        },
{
}

// ---------------------------------------------------------------------------
// The system

/// A click is told with the button, the keys and the place of its reading, and a
/// scroll with the way it went, the keys and the place. Comings and goings are told
/// otherwise.
pub proof fn law_a_reading_is_told_as_it_is(kind: MouseKind, reading: Reading, told: Option<Event>)
    requires
        call_ensures(decode, (kind, reading), told),
    ensures
        kind == MouseKind::Up ==> (told matches Some(Event::MouseClicked(click)) && click.x
            == reading.x && click.y == reading.y && click.modifiers == reading.modifiers && (
        reading.button == 0 ==> click.button == MouseButton::Left) && (reading.button == 1
            ==> click.button == MouseButton::Right) && (reading.button != 0 && reading.button != 1
            ==> click.button == MouseButton::Other)),
        kind == MouseKind::WheelMoved || kind == MouseKind::Scroll ==> (told matches Some(
            Event::MouseScrolled(scroll),
        ) && scroll.x == reading.x && scroll.y == reading.y && scroll.modifiers
            == reading.modifiers && scroll.scroll_delta == reading.delta),
        kind == MouseKind::Entered || kind == MouseKind::Exited ==> told is None,
{
}

/// The application in front and the one that launched are told by name, and by none
/// where none is known.
pub proof fn law_an_application_is_told_by_name(app: Option<String>, front: Event, launched: Event)
    requires
        call_ensures(front_app, (app,), front),
        call_ensures(app_launched, (app,), launched),
    ensures
        front matches Event::FrontAppSwitched(data) && match app {
            Some(name) => data.app@ == name@,
            None => data.app@.len() == 0,
        },
        launched matches Event::AppLaunched(data) && match app {
            Some(name) => data.app@ == name@,
            None => data.app@.len() == 0,
        },
{
}

/// Going to sleep, waking and a change of displays are each told as what they are.
pub proof fn law_sleep_is_not_waking(asleep: Event, awake: Event, displays: Event)
    requires
        call_ensures(will_sleep, (), asleep),
        call_ensures(woke, (), awake),
        call_ensures(display_changed, (), displays),
    ensures
        asleep is SystemWillSleep,
        awake is SystemWoke,
        displays is DisplayChanged,
{
}

/// A space that is active is told with its display and its number, and nothing is
/// told where none is known.
pub proof fn law_a_space_is_told_with_its_display(
    display: u32,
    space: u64,
    told: Option<Event>,
    silent: Option<Event>,
)
    requires
        call_ensures(space_changed, (Some((display, space)),), told),
        call_ensures(space_changed, (None::<(u32, u64)>,), silent),
    ensures
        told matches Some(Event::SpaceChanged(data)) && data.display == display && data.space
            == space,
        silent is None,
{
}

/// The situation of a machine's power is told with the figures of its own reading.
pub proof fn law_a_reading_is_told_with_its_own_figures(now: Snapshot, told: PowerChange)
    requires
        call_ensures(Snapshot::into_event, (now,), told),
    ensures
        told.power_source == now.power_source,
        told.watts == now.watts,
        told.charge == now.charge,
{
}

/// Two readings differ where a charge, a power, a side, a supply or a charging
/// differs, and nowhere else.
pub proof fn law_readings_differ_where_a_figure_does(a: Snapshot, b: Snapshot, differ: bool)
    requires
        call_ensures(Snapshot::differs_from, (&a, &b), differ),
    ensures
        a.charge != b.charge ==> differ,
        a.watts != b.watts ==> differ,
        a.power_source is Ac != b.power_source is Ac ==> differ,
        a.power_source is Battery != b.power_source is Battery ==> differ,
        a.power_source is Ac && b.power_source is Ac && a.power_source->adapter_watts
            != b.power_source->adapter_watts ==> differ,
        a.power_source is Ac && b.power_source is Ac && a.power_source->charging
            != b.power_source->charging ==> differ,
        differ ==> a.charge != b.charge || a.watts != b.watts || a.power_source is Ac
            != b.power_source is Ac || a.power_source is Battery != b.power_source is Battery || (
        a.power_source is Ac && b.power_source is Ac && (a.power_source->adapter_watts
            != b.power_source->adapter_watts || a.power_source->charging
            != b.power_source->charging)),
{
    crate::laws::power::law_what_is_news(a, b);
}

/// A bar replaces itself for a grant once.
pub proof fn law_a_bar_replaces_itself_once(restarted: bool, may: bool)
    requires
        call_ensures(may_replace, (restarted,), may),
    ensures
        restarted ==> !may,
        !restarted ==> may,
{
}

/// A config has changed only where a file of its name, or it itself, was reported.
pub proof fn law_a_config_changes_with_its_file(
    watcher: Watcher,
    reported: Vec<Located>,
    changed: bool,
)
    requires
        call_ensures(Watcher::changed, (&watcher, &reported), changed),
    ensures
        watcher.config is None ==> !changed,
        changed ==> exists|j: int|
            0 <= j < reported@.len() && watcher.config is Some && ((#[trigger] reported@[j]).whole@
                == watcher.config->0.whole@ || crate::modules::part(reported@[j].file)
                == crate::modules::part(watcher.config->0.file)),
{
    if changed {
        let j = choose|j: int|
            0 <= j < reported@.len() && crate::sources::watcher::is_config(
                (#[trigger] reported@[j])@,
                watcher.config->0@,
            );
        assert(reported@[j].whole@ == watcher.config->0.whole@ || crate::modules::part(
            reported@[j].file,
        ) == crate::modules::part(watcher.config->0.file));
    }
}

/// A file that is reported is the config's where it is the whole path of it, or has
/// its name.
pub proof fn law_a_file_is_the_configs_by_its_name(
    reported: Located,
    config: Located,
    touched: bool,
)
    requires
        call_ensures(touches, (&reported, &config), touched),
    ensures
        reported.whole@ == config.whole@ ==> touched,
        (reported.file matches Some(file) && (config.file matches Some(own) && file@ == own@))
            ==> touched,
        (reported.file matches Some(file) && (config.file matches Some(own) && file@ != own@))
            && reported.whole@ != config.whole@ ==> !touched,
{
}

// ---------------------------------------------------------------------------
// Values

/// A colour has the bytes it is made of, and gives them back. It cannot be seen
/// exactly where the first of them is nought.
pub proof fn law_a_colour_gives_its_bytes_back(
    a: u8,
    r: u8,
    g: u8,
    b: u8,
    made: Color,
    bytes: (u8, u8, u8, u8),
    invisible: bool,
)
    requires
        call_ensures(Color::argb, (a, r, g, b), made),
        call_ensures(Color::channels, (made,), bytes),
        call_ensures(Color::is_invisible, (made,), invisible),
    ensures
        made.0 == a * 0x100_0000 + r * 0x1_0000 + g * 0x100 + b,
        bytes == (a, r, g, b),
        invisible <==> a == 0,
{
    let (w, x, y, z) = bytes;
    assert(w * 0x100_0000 + x * 0x1_0000 + y * 0x100 + z == a * 0x100_0000 + r * 0x1_0000 + g
        * 0x100 + b);
}

/// All displays are matched by any, and one display by itself alone.
pub proof fn law_a_display_is_matched(target: DisplayTarget, n: u32, matched: bool)
    requires
        call_ensures(DisplayTarget::matches, (target, n), matched),
    ensures
        target is All ==> matched,
        target matches DisplayTarget::Index(i) ==> (matched <==> i == n),
{
}

/// A flag that is set to something is that, one that is turned over is the other, and
/// one that does not change is said not to.
pub proof fn law_a_flag_changes_as_told(
    change: BoolChange,
    current: Boolish,
    after: Boolish,
    news: Option<Boolish>,
)
    requires
        call_ensures(BoolChange::resolve, (change, current), after),
        call_ensures(BoolChange::change, (change, current), news),
    ensures
        change == BoolChange::True ==> after.0,
        change == BoolChange::False ==> !after.0,
        change == BoolChange::Toggle ==> after.0 == !current.0,
        after.0 == current.0 ==> news is None,
        after.0 != current.0 ==> (news matches Some(now) && now.0 == after.0),
{
}

/// A flag is printed as `on` or `off`.
pub proof fn law_a_flag_is_printed(value: bool, word: &'static str)
    requires
        call_ensures(on_off, (value,), word),
    ensures
        value ==> word@ == "on"@,
        !value ==> word@ == "off"@,
{
}

/// The parts of a font are its family, its style and its size, in that order, and a
/// part that is not given is the usual one.
pub proof fn law_a_font_is_made_of_its_parts(
    family: Option<String>,
    style: Option<String>,
    size: Option<Measure>,
    font: FontSpec,
)
    requires
        call_ensures(FontSpec::of_parts, (family, style, size), font),
    ensures
        match family {
            Some(text) => font.family@ == text@,
            None => font.family@ == "SF Pro"@,
        },
        match style {
            Some(text) => font.style@ == text@,
            None => font.style@ == "Regular"@,
        },
        match size {
            Some(measure) => font.size.bits == measure.bits && font.size.text@ == measure.text@,
            None => font.size.text@ == "13"@,
        },
{
}

// ---------------------------------------------------------------------------
// Names and paths

/// The names the program makes, by what they are for.
pub proof fn law_names_are_made_of_the_programs_own(
    suffix: &str,
    variable: String,
    is_one: bool,
    rc: String,
    own: String,
    name: &str,
    process: u32,
    tested: String,
)
    requires
        call_ensures(env_name, (suffix,), variable),
        call_ensures(is_env_name, (name,), is_one),
        call_ensures(rc_name, (), rc),
        call_ensures(service, (), own),
        call_ensures(test_service, (name, process), tested),
    ensures
        variable@ == "COOLABAH_"@ + suffix@,
        name@ == "COOLABAH_"@ + suffix@ ==> is_one,
        is_one ==> name@.len() >= 9,
        rc@ == "coolabahrc"@,
        own@ == "com.auscyber.coolabah"@,
        tested@ == "com.auscyber.coolabah"@ + ".test."@ + name@ + "."@ + decimal_text(
            process as nat,
        ),
{
    crate::laws::words::law_the_program_goes_by_its_name();
    reveal_strlit("COOLABAH_");
    reveal_strlit("coolabah");
    reveal_strlit("rc");
    reveal_strlit("coolabahrc");
    assert("coolabah"@ + "rc"@ =~= "coolabahrc"@);
    let whole = "COOLABAH_"@ + suffix@;
    assert(whole.take(9) =~= "COOLABAH_"@);
    assert(tested@ =~= "com.auscyber.coolabah"@ + ".test."@ + name@ + "."@ + decimal_text(
        process as nat,
    ));
}

/// The service is the one that is set, or else the usual one.
pub proof fn law_the_service_is_the_one_that_is_set(set: Option<String>, name: String)
    requires
        call_ensures(service_name, (set,), name),
    ensures
        match set {
            Some(said) => name@ == said@,
            None => name@ == "com.auscyber.rsbar"@,
        },
{
}

/// Modules are looked for in the directory of the config after everywhere else: files
/// of its language by name and by directory, and native ones by either suffix.
pub proof fn law_modules_are_looked_for_beside_the_config(
    path: &str,
    directory: &str,
    found: String,
    native: String,
)
    requires
        call_ensures(search_path, (path, directory), found),
        call_ensures(native_search_path, (path, directory), native),
    ensures
        found@ == path@ + ";"@ + directory@ + "/?.lua;"@ + directory@ + "/?/init.lua"@,
        native@ == path@ + ";"@ + directory@ + "/?.so;"@ + directory@ + "/?.dylib"@,
{
    assert(found@ =~= path@ + ";"@ + directory@ + "/?.lua;"@ + directory@ + "/?/init.lua"@);
    assert(native@ =~= path@ + ";"@ + directory@ + "/?.so;"@ + directory@ + "/?.dylib"@);
}

/// A chunk goes by the path of its file, a config is where its file is, and a module
/// that is not found is said by name.
pub proof fn law_a_chunk_goes_by_its_path(
    path: &str,
    chunk: String,
    directory: Option<&str>,
    place: String,
    reason: String,
)
    requires
        call_ensures(chunk_name, (path,), chunk),
        call_ensures(config_directory, (directory,), place),
        call_ensures(miss_reason, (path,), reason),
    ensures
        chunk@ == "@"@ + path@,
        match directory {
            Some(said) => place@ == said@,
            None => place@ == "."@,
        },
        reason@ == "\n\tno rsbar-tracked file for '"@ + path@ + "'"@,
{
}

// ---------------------------------------------------------------------------
// Answers

/// An answer that is an error is one, with what it says, and any other is itself.
pub proof fn law_a_refusal_is_told_as_one(response: Response, told: Result<Response, ApiError>)
    requires
        call_ensures(answered, (response,), told),
    ensures
        response matches Response::Error(message) ==> (told matches Err(ApiError::Rejected(said))
            && said@ == message@),
        !(response is Error) ==> told == Ok::<Response, ApiError>(response),
{
}

/// A request is done only where it is answered so.
pub proof fn law_a_request_is_done_where_it_is_answered_so(
    reply: Result<Response, ApiError>,
    printed: &str,
    told: Result<(), LuaError>,
)
    requires
        call_ensures(expect_ok, (&reply, printed), told),
    ensures
        told is Ok <==> (reply matches Ok(response) && response is Done),
{
}

/// An item that is refused is asked for again as a plain one, under the same name and
/// at the same place. Any other failure is one.
pub proof fn law_a_refused_item_is_asked_for_plainly(
    component: ComponentKind,
    reply: Result<Response, ApiError>,
    printed: &str,
    told: AfterAdd,
)
    requires
        call_ensures(after_add, (&component, &reply, printed), told),
    ensures
        told is Added <==> (reply matches Ok(response) && response is Done),
        told is Degrade <==> (reply matches Err(e) && e is Rejected),
        told matches AfterAdd::Degrade(plain) ==> (plain matches ComponentKind::Item {
            name,
            position,
        } && match component {
            ComponentKind::Item { name: own, position: at } => name@ == own@ && position@ == at@,
            ComponentKind::Alias { name: own, position: at } => name@ == own@ && position@ == at@,
            ComponentKind::Bracket { name: own, .. } => name@ == own@ && position@ is Left,
            ComponentKind::Space { name: own, position: at } => name@ == own@ && position@ == at@,
            ComponentKind::Graph { name: own, position: at } => name@ == own@ && position@ == at@,
            ComponentKind::Slider { name: own, position: at } => name@ == own@ && position@ == at@,
        }),
{
}

// ---------------------------------------------------------------------------
// Attributes

/// An event is about an item where it is marked so, and no other mark is known.
pub proof fn law_one_mark_is_known(mark: Option<&str>, told: Result<bool, crate::declaring::Refusal>)
    requires
        call_ensures(scoped, (mark,), told),
    ensures
        mark is None ==> told == Ok::<bool, crate::declaring::Refusal>(false),
        mark matches Some(word) ==> (word@ == "scoped"@ ==> told == Ok::<
            bool,
            crate::declaring::Refusal,
        >(true)) && (word@ != "scoped"@ ==> told is Err),
{
}

/// The name at a place: a variant, and one of its names.
pub open spec fn named_there(names: Seq<Vec<String>>, v: int, i: int) -> Seq<char> {
    names[v]@[i]@
}

/// A name is left blank once for all the variants: at the first variant that has it, where
/// it first stands in that one. What is left blank goes in the order of the variants, and
/// within one in the order of its names.
pub proof fn law_each_name_is_left_blank_once(
    names: &Vec<Vec<String>>,
    told: Vec<(usize, usize)>,
    v: usize,
    i: usize,
)
    requires
        call_ensures(union_of, (names,), told),
    ensures
        told@.contains((v, i)) <==> (v < names@.len() && i < names@[v as int]@.len() && (forall|
            w: int,
            j: int,
        |
            0 <= w < v && 0 <= j < names@[w]@.len() ==> #[trigger] named_there(names@, w, j)
                != named_there(names@, v as int, i as int)) && (forall|j: int|
            0 <= j < i ==> #[trigger] named_there(names@, v as int, j) != named_there(
                names@,
                v as int,
                i as int,
            ))),
        forall|a: int, b: int|
            0 <= a < b < told@.len() ==> (#[trigger] told@[a]).0 < (#[trigger] told@[b]).0 || (
            told@[a].0 == told@[b].0 && told@[a].1 < told@[b].1),
{
    let all = name_views(names@);
    assert(told@.contains((v, i)) <==> is_first(all, v as int, i as int));
    assert(forall|w: int, j: int| #[trigger]
        is_place(all, w, j) ==> all[w][j] == named_there(names@, w, j));
    if is_first(all, v as int, i as int) {
        assert forall|w: int, j: int|
            0 <= w < v && 0 <= j < names@[w]@.len() implies #[trigger] named_there(names@, w, j)
            != named_there(names@, v as int, i as int) by {
            assert(is_place(all, w, j) && comes_before(w, j, v as int, i as int));
        }
        assert forall|j: int| 0 <= j < i implies #[trigger] named_there(names@, v as int, j)
            != named_there(names@, v as int, i as int) by {
            assert(is_place(all, v as int, j) && comes_before(v as int, j, v as int, i as int));
        }
    }
    if v < names@.len() && i < names@[v as int]@.len() {
        assert(is_place(all, v as int, i as int));
    }
    assert forall|a: int, b: int| 0 <= a < b < told@.len() implies (#[trigger] told@[a]).0 < (
    #[trigger] told@[b]).0 || (told@[a].0 == told@[b].0 && told@[a].1 < told@[b].1) by {
        assert(comes_before(
            told@[a].0 as int,
            told@[a].1 as int,
            told@[b].0 as int,
            told@[b].1 as int,
        ));
    }
}

/// A spelling that goes over a wire has to be read back.
pub proof fn law_a_wire_needs_reading(
    error: bool,
    serde: Option<bool>,
    told: Result<Written, crate::spelling::Refusal>,
)
    requires
        call_ensures(written, (error, serde), told),
    ensures
        error ==> (told matches Ok(w) && w.reading && w.wire == serde),
        !error && serde is Some ==> told is Err,
        !error && serde is None ==> (told matches Ok(w) && !w.reading && w.wire is None),
{
}

/// The names of what is written for a declaration, by what they are for.
pub proof fn law_names_are_made_of_the_fields_own(
    target: &str,
    record: String,
    changed: String,
    apply: String,
)
    requires
        call_ensures(record_name, (target,), record),
        call_ensures(changed_name, (target,), changed),
        call_ensures(apply_name, (target,), apply),
    ensures
        record@ == target@ + "Moved"@,
        changed@ == target@ + "_changed"@,
        apply@ == "apply_"@ + target@,
{
}

} // verus!
