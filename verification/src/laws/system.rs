//! What the system is listened to for, and what is made of what it says.

use crate::event::{EventName, KindView, MouseButton, NotificationName, Topic};
use crate::sources::accessibility::{grant_directories, is_usable, Grant};
use crate::sources::cause::CauseView;
use crate::sources::mouse::{
    button_of, hover_wanted, kinds_asked, mouse_code, MouseKind, CLASS_MOUSE,
};
use crate::sources::notifications::{
    all_rows, bridged_vars, fixed_rows, installed, missing, observing, retained, seen_on, Centre,
    InstalledView, RowView,
};
use crate::sources::spaces::{notice_of, space_of, Notice};
use crate::sources::watcher::DEBOUNCE;
use crate::sources::wifi::{is_news, registration_fault, ssid_text, AIRPORT_KEY_PATTERN, SSID_KEY};
use vstd::prelude::*;

verus! {

// ---------------------------------------------------------------------------
// Notifications

/// What the system posts for an event that it announces.
pub open spec fn announced_as(topic: Topic) -> Option<Seq<char>> {
    match topic {
        Topic::FrontAppSwitched => Some("NSWorkspaceDidActivateApplicationNotification"@),
        Topic::AppLaunched => Some("NSWorkspaceDidLaunchApplicationNotification"@),
        Topic::SystemWillSleep => Some("NSWorkspaceWillSleepNotification"@),
        Topic::SystemWoke => Some("NSWorkspaceDidWakeNotification"@),
        Topic::DisplayChanged => Some("NSWorkspaceActiveDisplayDidChangeNotification"@),
        _ => None,
    }
}

/// Every event that the system announces is listened for under the name it is
/// posted by, at the workspace's own centre. Every event that a config has bridged is
/// listened for under the name it was bridged to, at the centre between processes.
/// Nothing else is.
pub proof fn law_each_announcement_is_listened_for(
    declared: Seq<(EventName, NotificationName)>,
    topic: Topic,
    i: int,
)
    ensures
        all_rows(declared).len() == 5 + declared.len(),
        announced_as(topic) matches Some(name) ==> exists|k: int|
            0 <= k < 5 && #[trigger] all_rows(declared)[k] == (RowView {
                kind: KindView::Plain(topic),
                centre: Centre::Workspace,
                name,
            }),
        0 <= i < declared.len() ==> all_rows(declared)[5 + i] == (RowView {
            kind: KindView::Custom(declared[i].0@),
            centre: Centre::Distributed,
            name: declared[i].1@,
        }),
{
    let rows = all_rows(declared);
    assert(fixed_rows().len() == 5);
    assert(rows[0] == fixed_rows()[0] && rows[1] == fixed_rows()[1] && rows[2] == fixed_rows()[2]
        && rows[3] == fixed_rows()[3] && rows[4] == fixed_rows()[4]);
    assert(rows[0].kind == KindView::<()>::Plain(Topic::FrontAppSwitched));
    assert(rows[1].kind == KindView::<()>::Plain(Topic::AppLaunched));
    assert(rows[2].kind == KindView::<()>::Plain(Topic::SystemWillSleep));
    assert(rows[3].kind == KindView::<()>::Plain(Topic::SystemWoke));
    assert(rows[4].kind == KindView::<()>::Plain(Topic::DisplayChanged));
}

/// What was seen stays seen as more is installed.
proof fn lemma_seen_stays(
    v: InstalledView,
    rows: Seq<RowView>,
    wanted: Set<KindView<()>>,
    centre: Centre,
    kind: KindView<()>,
)
    ensures
        seen_on(installed(v, rows, wanted), centre).contains(kind) <==> seen_on(
            v,
            centre,
        ).contains(kind) || exists|j: int|
            0 <= j < rows.len() && (#[trigger] rows[j]).centre == centre && rows[j].kind == kind
                && wanted.contains(kind),
    decreases rows.len(),
{
    if rows.len() > 0 {
        let short = rows.drop_last();
        lemma_seen_stays(v, short, wanted, centre, kind);
        assert forall|j: int| 0 <= j < short.len() implies #[trigger] rows[j] == short[j] by {}
        let last = rows[rows.len() - 1];
        if seen_on(installed(v, rows, wanted), centre).contains(kind) && !seen_on(
            v,
            centre,
        ).contains(kind) {
            if exists|j: int|
                0 <= j < short.len() && (#[trigger] short[j]).centre == centre && short[j].kind
                    == kind && wanted.contains(kind) {
                let j = choose|j: int|
                    0 <= j < short.len() && (#[trigger] short[j]).centre == centre && short[j].kind
                        == kind && wanted.contains(kind);
                assert(rows[j].centre == centre);
            } else {
                assert(last.centre == centre && last.kind == kind);
            }
        }
        if exists|j: int|
            0 <= j < rows.len() && (#[trigger] rows[j]).centre == centre && rows[j].kind == kind
                && wanted.contains(kind) {
            let j = choose|j: int|
                0 <= j < rows.len() && (#[trigger] rows[j]).centre == centre && rows[j].kind
                    == kind && wanted.contains(kind);
            if j < short.len() {
                assert(short[j].centre == centre);
            }
        }
    }
}

/// What is wanted and not yet listened for is registered, and is registered under
/// its own name. What is not wanted is not, nor is what is listened for already.
pub proof fn law_what_is_wanted_is_registered(
    v: InstalledView,
    rows: Seq<RowView>,
    wanted: Set<KindView<()>>,
    i: int,
)
    ensures
        0 <= i < rows.len() && wanted.contains(rows[i].kind) && !seen_on(
            v,
            rows[i].centre,
        ).contains(rows[i].kind) && (forall|j: int|
            0 <= j < i ==> (#[trigger] rows[j]).kind != rows[i].kind || rows[j].centre
                != rows[i].centre) ==> missing(v, rows, wanted).contains(rows[i]),
        forall|k: int|
            0 <= k < missing(v, rows, wanted).len() ==> {
                let row = #[trigger] missing(v, rows, wanted)[k];
                rows.contains(row) && wanted.contains(row.kind) && !seen_on(
                    v,
                    row.centre,
                ).contains(row.kind)
            },
    decreases rows.len(),
{
    let asked = missing(v, rows, wanted);
    if rows.len() > 0 {
        let short = rows.drop_last();
        let before = missing(v, short, wanted);
        law_what_is_wanted_is_registered(v, short, wanted, i);
        let last = rows[rows.len() - 1];
        lemma_seen_stays(v, short, wanted, last.centre, last.kind);
        assert forall|j: int| 0 <= j < short.len() implies #[trigger] rows[j] == short[j] by {}
        if 0 <= i < rows.len() && wanted.contains(rows[i].kind) && !seen_on(
            v,
            rows[i].centre,
        ).contains(rows[i].kind) && (forall|j: int|
            0 <= j < i ==> (#[trigger] rows[j]).kind != rows[i].kind || rows[j].centre
                != rows[i].centre) {
            if i < short.len() {
                assert forall|j: int| 0 <= j < i implies (#[trigger] short[j]).kind != short[i].kind
                    || short[j].centre != short[i].centre by {
                    assert(rows[j] == short[j]);
                }
                assert(before.contains(rows[i]));
                let k = choose|k: int| 0 <= k < before.len() && before[k] == rows[i];
                assert(asked[k] == rows[i]);
            } else {
                assert(asked[asked.len() - 1] == rows[i]);
            }
        }
        assert forall|k: int| 0 <= k < asked.len() implies {
            let row = #[trigger] asked[k];
            rows.contains(row) && wanted.contains(row.kind) && !seen_on(v, row.centre).contains(
                row.kind,
            )
        } by {
            if k < before.len() {
                assert(asked[k] == before[k]);
                let j = choose|j: int| 0 <= j < short.len() && short[j] == before[k];
                assert(rows[j] == before[k]);
            } else {
                assert(rows[rows.len() - 1] == asked[k]);
            }
        }
    }
}

/// What is no longer wanted is no longer listened for, and what still is stays. A
/// centre that is left with nothing is closed.
pub proof fn law_what_is_unwanted_is_let_go(
    v: InstalledView,
    wanted: Set<KindView<()>>,
    kind: KindView<()>,
)
    ensures
        seen_on(retained(v, wanted), Centre::Workspace).contains(kind) <==> seen_on(
            v,
            Centre::Workspace,
        ).contains(kind) && wanted.contains(kind),
        seen_on(retained(v, wanted), Centre::Distributed).contains(kind) <==> seen_on(
            v,
            Centre::Distributed,
        ).contains(kind) && wanted.contains(kind),
        retained(v, wanted).workspace matches Some(kinds) ==> kinds != Set::<KindView<()>>::empty(),
        retained(v, wanted).distributed matches Some(kinds) ==> kinds != Set::<
            KindView<()>,
        >::empty(),
{
    if let Some(kinds) = v.workspace {
        assert(kinds.intersect(wanted).contains(kind) <==> kinds.contains(kind)
            && wanted.contains(kind));
    }
    if let Some(kinds) = v.distributed {
        assert(kinds.intersect(wanted).contains(kind) <==> kinds.contains(kind)
            && wanted.contains(kind));
    }
}

/// Listening at one centre leaves the other as it is.
pub proof fn law_the_centres_are_apart(v: InstalledView, kind: KindView<()>, other: KindView<()>)
    ensures
        observing(v, Centre::Workspace, kind).distributed == v.distributed,
        observing(v, Centre::Distributed, kind).workspace == v.workspace,
        seen_on(observing(v, Centre::Workspace, kind), Centre::Workspace).contains(other) <==> other
            == kind || seen_on(v, Centre::Workspace).contains(other),
        seen_on(observing(v, Centre::Distributed, kind), Centre::Distributed).contains(other)
            <==> other == kind || seen_on(v, Centre::Distributed).contains(other),
{
}

/// What comes with a bridged notification is handed on name by name. What has no
/// name or no value is left out, and of two under one name the later one is handed on.
pub proof fn law_a_bridged_event_carries_what_came_with_it(
    info: Seq<(Option<String>, Option<String>)>,
    i: int,
)
    requires
        0 <= i < info.len(),
        info[i].0 is Some,
        info[i].1 is Some,
        forall|j: int|
            i < j < info.len() ==> !((#[trigger] info[j]).1 is Some && (info[j].0 matches Some(
                name,
            ) && name@ == info[i].0->0@)),
    ensures
        bridged_vars(info).contains_key(info[i].0->0@),
        bridged_vars(info)[info[i].0->0@] == info[i].1->0@,
    decreases info.len(),
{
    if i < info.len() - 1 {
        let short = info.drop_last();
        assert forall|j: int| i < j < short.len() implies !((#[trigger] short[j]).1 is Some && (
        short[j].0 matches Some(name) && name@ == short[i].0->0@)) by {
            assert(short[j] == info[j]);
        }
        law_a_bridged_event_carries_what_came_with_it(short, i);
        assert(info[info.len() - 1] == info.last());
    }
}

/// Nothing is handed on that did not come.
pub proof fn law_a_bridged_event_carries_nothing_else(
    info: Seq<(Option<String>, Option<String>)>,
    name: Seq<char>,
)
    requires
        bridged_vars(info).contains_key(name),
    ensures
        exists|i: int|
            0 <= i < info.len() && (#[trigger] info[i]).0 is Some && info[i].0->0@ == name
                && info[i].1 is Some && bridged_vars(info)[name] == info[i].1->0@,
    decreases info.len(),
{
    if info.len() > 0 {
        let short = info.drop_last();
        let last = info[info.len() - 1];
        if last.0 is Some && last.1 is Some && last.0->0@ == name {
            assert(bridged_vars(info)[name] == last.1->0@);
        } else {
            law_a_bridged_event_carries_nothing_else(short, name);
            let i = choose|i: int|
                0 <= i < short.len() && (#[trigger] short[i]).0 is Some && short[i].0->0@ == name
                    && short[i].1 is Some && bridged_vars(short)[name] == short[i].1->0@;
            assert(info[i] == short[i]);
        }
    }
}

// ---------------------------------------------------------------------------
// The mouse

/// The codes the system knows the events of a mouse by.
pub proof fn law_codes_of_the_mouse()
    ensures
        mouse_code(MouseKind::Up) == 2,
        mouse_code(MouseKind::Entered) == 8,
        mouse_code(MouseKind::Exited) == 9,
        mouse_code(MouseKind::WheelMoved) == 10,
        mouse_code(MouseKind::Scroll) == 11,
        CLASS_MOUSE as int == (('m' as int * 256 + 'o' as int) * 256 + 'u' as int) * 256
            + 's' as int,
{
}

/// The first button is the left one and the second the right one.
pub proof fn law_buttons_are_numbered(number: i64)
    ensures
        button_of(number) == MouseButton::Left <==> number == 0,
        button_of(number) == MouseButton::Right <==> number == 1,
{
}

/// Clicks and scrolls are always asked for. The pointer's comings and goings are
/// asked for where an item is to be told of either, and not for the bar as a whole.
pub proof fn law_hovering_is_asked_for_where_it_is_wanted(
    wanted: Set<KindView<()>>,
    kind: MouseKind,
)
    ensures
        hover_wanted(wanted) <==> wanted.contains(KindView::Scoped(Topic::MouseEntered, ()))
            || wanted.contains(KindView::Scoped(Topic::MouseExited, ())),
        kinds_asked(hover_wanted(wanted)).contains(kind) <==> (kind != MouseKind::Entered && kind
            != MouseKind::Exited) || hover_wanted(wanted),
        kinds_asked(hover_wanted(wanted)).no_duplicates(),
{
    let all = kinds_asked(true);
    let few = kinds_asked(false);
    assert(all[0] == MouseKind::Up && all[1] == MouseKind::WheelMoved && all[2]
        == MouseKind::Scroll && all[3] == MouseKind::Entered && all[4] == MouseKind::Exited);
    assert(few[0] == MouseKind::Up && few[1] == MouseKind::WheelMoved && few[2]
        == MouseKind::Scroll);
}

// ---------------------------------------------------------------------------
// Networks, spaces, files and grants

/// A network is news where none was known of the interface or another one was, and
/// not otherwise. No network is told as an empty name.
pub proof fn law_another_network_is_news(
    last: Map<Seq<char>, Option<Seq<char>>>,
    key: Seq<char>,
    ssid: Option<Seq<char>>,
)
    ensures
        !last.contains_key(key) ==> is_news(last, key, ssid),
        last.contains_key(key) && last[key] != ssid ==> is_news(last, key, ssid),
        last.contains_key(key) && last[key] == ssid ==> !is_news(last, key, ssid),
        ssid matches Some(name) ==> ssid_text(ssid) == name,
        ssid is None ==> ssid_text(ssid).len() == 0,
        AIRPORT_KEY_PATTERN@ == "State:/Network/Interface/.*/AirPort"@,
        SSID_KEY@ == "SSID_STR"@,
{
}

/// The network is watched exactly where every step of watching it worked.
pub proof fn law_watching_takes_every_step(created: bool, keyed: bool, scheduled: bool)
    ensures
        !created ==> registration_fault(created, keyed, scheduled) == Some(CauseView::DynamicStore),
        !keyed ==> registration_fault(created, keyed, scheduled) == Some(CauseView::DynamicStore),
        !scheduled ==> registration_fault(created, keyed, scheduled) == Some(
            CauseView::DynamicStore,
        ),
        created && keyed && scheduled ==> registration_fault(created, keyed, scheduled) is None,
{
}

/// The number of a space leads what comes with a notice of it, in eight bytes from
/// the lowest up.
pub proof fn law_a_space_leads_in_eight_bytes(payload: Seq<u8>)
    ensures
        payload.len() < 8 ==> space_of(payload) is None,
        payload.len() >= 8 ==> space_of(payload) == Some(
            payload[0] + 256 * (payload[1] + 256 * (payload[2] + 256 * (payload[3] + 256 * (
            payload[4] + 256 * (payload[5] + 256 * (payload[6] + 256 * payload[7])))))),
        ),
{
}

/// The numbers of the notices of spaces: one for another space being active, three
/// for windows coming to one or leaving it.
pub proof fn law_notices_of_spaces_are_numbered(event: u32)
    ensures
        notice_of(event) == Some(Notice::Changed) <==> event == 1401,
        notice_of(event) == Some(Notice::Windows) <==> (event == 1325 || event == 1326 || event
            == 1339),
{
}

/// Changes of files are gathered for a quarter of a second.
pub proof fn law_changes_are_gathered_for_a_quarter_of_a_second()
    ensures
        DEBOUNCE == 250,
{
}

/// The grant is of use unless it is missing or switched off.
pub proof fn law_a_grant_is_of_use(grant: Grant)
    ensures
        grant == Grant::Usable ==> is_usable(grant),
        grant == Grant::NoFrontApp ==> is_usable(grant),
        grant == Grant::NotTrusted ==> !is_usable(grant),
        grant == Grant::ApiDisabled ==> !is_usable(grant),
{
}

/// Grants are kept below the library of the system and below that of whoever runs
/// the bar.
pub proof fn law_grants_are_kept_in_two_libraries(home: Seq<char>)
    requires
        home.len() > 0,
        home.last() != '/',
    ensures
        grant_directories(None) == seq!["/Library/Application Support/com.apple.TCC"@],
        grant_directories(Some(home)) == seq![
            "/Library/Application Support/com.apple.TCC"@,
            home + "/Library/Application Support/com.apple.TCC"@,
        ],
        grant_directories(Some(home.push('/'))) == grant_directories(Some(home)),
{
    reveal_strlit("/");
    reveal_strlit("Library/Application Support/com.apple.TCC");
    reveal_strlit("/Library/Application Support/com.apple.TCC");
    let rest = "Library/Application Support/com.apple.TCC"@;
    assert("/"@ + rest =~= "/Library/Application Support/com.apple.TCC"@);
    assert(home.skip(home.len() - 1)[0] == home.last());
    assert(home + "/"@ + rest =~= home + "/Library/Application Support/com.apple.TCC"@);
    let slashed = home.push('/');
    assert(slashed.skip(slashed.len() - 1) =~= "/"@);
    assert(slashed + rest =~= home + "/Library/Application Support/com.apple.TCC"@);
}

} // verus!
