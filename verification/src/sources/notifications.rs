//! The notifications observed, on whichever centre carries them.
//!
//! A centre is opened with the first wanted row on it, and let go of with the
//! last.

use crate::event::{
    bare_kind, AppLaunch, Custom, DisplayChange, Event, EventName, FrontApp, Kind, KindView,
    NotificationName, SystemWillSleep, SystemWoke, Topic,
};
use crate::kindset::KindSet;
use crate::modules::part;
use crate::source::{described, Described, SourceId};
use crate::sources::{describe, known};
use crate::vars::Vars;
use vstd::prelude::*;

verus! {

/// A notification centre.
#[derive(Debug, Clone, Copy, PartialEq, Eq, Structural)]
pub enum Centre {
    /// What this process is told of the machine it runs on.
    Workspace,
    /// What every other process on the machine posts.
    Distributed,
}

impl Centre {
    /// What a centre is called in the log.
    pub fn to_string(&self) -> (r: String)
        ensures
            r@ == match *self {
                Centre::Workspace => "NSWorkspace"@,
                Centre::Distributed => "NSDistributedNotificationCenter"@,
            },
    {
        match self {
            Centre::Workspace => "NSWorkspace".to_owned(),
            Centre::Distributed => "NSDistributedNotificationCenter".to_owned(),
        }
    }
}

/// A notification, the centre that carries it, and the event it means.
#[derive(Debug)]
pub struct Row {
    pub kind: Kind<()>,
    pub centre: Centre,
    pub name: String,
}

/// [`Row`] over plain text.
pub struct RowView {
    pub kind: KindView<()>,
    pub centre: Centre,
    pub name: Seq<char>,
}

impl View for Row {
    type V = RowView;

    open spec fn view(&self) -> RowView {
        RowView { kind: self.kind@, centre: self.centre, name: self.name@ }
    }
}

/// Rows over plain text.
pub open spec fn row_views(rows: Seq<Row>) -> Seq<RowView> {
    rows.map_values(|row: Row| row@)
}

/// What the rows that are always there mean.
pub open spec fn fixed_topics() -> Seq<Topic> {
    seq![
        Topic::FrontAppSwitched,
        Topic::AppLaunched,
        Topic::SystemWoke,
        Topic::SystemWillSleep,
        Topic::DisplayChanged,
    ]
}

/// A row on the workspace's centre.
pub open spec fn workspace_row(topic: Topic, name: Seq<char>) -> RowView {
    RowView { kind: bare_kind(topic), centre: Centre::Workspace, name }
}

/// The rows that are always there.
pub open spec fn fixed_rows() -> Seq<RowView> {
    seq![
        workspace_row(
            Topic::FrontAppSwitched,
            "NSWorkspaceDidActivateApplicationNotification"@,
        ),
        workspace_row(Topic::AppLaunched, "NSWorkspaceDidLaunchApplicationNotification"@),
        workspace_row(Topic::SystemWillSleep, "NSWorkspaceWillSleepNotification"@),
        workspace_row(Topic::SystemWoke, "NSWorkspaceDidWakeNotification"@),
        workspace_row(
            Topic::DisplayChanged,
            "NSWorkspaceActiveDisplayDidChangeNotification"@,
        ),
    ]
}

/// The row a bridged event is.
pub open spec fn bridged_row(event: Seq<char>, notification: Seq<char>) -> RowView {
    RowView { kind: KindView::Custom(event), centre: Centre::Distributed, name: notification }
}

/// The rows of some bridged events.
pub open spec fn bridged_rows(declared: Seq<(EventName, NotificationName)>) -> Seq<RowView> {
    declared.map_values(|d: (EventName, NotificationName)| bridged_row(d.0@, d.1@))
}

/// Every row there is, given the events that are bridged.
pub open spec fn all_rows(declared: Seq<(EventName, NotificationName)>) -> Seq<RowView> {
    fixed_rows() + bridged_rows(declared)
}

/// One row on the workspace's centre.
fn fixed(topic: Topic, name: &str) -> (r: Row)
    ensures
        r@ == workspace_row(topic, name@),
{
    Row { kind: Kind::of(topic), centre: Centre::Workspace, name: name.to_owned() }
}

/// Every row there is, given the events that are bridged.
pub fn rows(declared: &Vec<(EventName, NotificationName)>) -> (r: Vec<Row>)
    ensures
        row_views(r@) == all_rows(declared@),
{
    let mut out: Vec<Row> = Vec::new();
    out.push(fixed(Topic::FrontAppSwitched, "NSWorkspaceDidActivateApplicationNotification"));
    out.push(fixed(Topic::AppLaunched, "NSWorkspaceDidLaunchApplicationNotification"));
    out.push(fixed(Topic::SystemWillSleep, "NSWorkspaceWillSleepNotification"));
    out.push(fixed(Topic::SystemWoke, "NSWorkspaceDidWakeNotification"));
    out.push(fixed(Topic::DisplayChanged, "NSWorkspaceActiveDisplayDidChangeNotification"));
    let ghost bridged = bridged_rows(declared@);
    proof {
        assert(row_views(out@) =~= fixed_rows());
        assert(bridged.take(0) =~= Seq::<RowView>::empty());
        assert(fixed_rows() + bridged.take(0) =~= fixed_rows());
    }
    let mut i: usize = 0;
    while i < declared.len()
        invariant
            i <= declared@.len(),
            bridged == bridged_rows(declared@),
            row_views(out@) == fixed_rows() + bridged.take(i as int),
        decreases declared@.len() - i,
    {
        let ghost before = out@;
        let row = Row {
            kind: declared[i].0.kind(),
            centre: Centre::Distributed,
            name: declared[i].1.as_str().to_owned(),
        };
        let ghost view = row@;
        out.push(row);
        proof {
            assert(view == bridged[i as int]);
            assert(row_views(out@) =~= row_views(before).push(view));
            assert(bridged.take(i + 1) =~= bridged.take(i as int).push(view));
            assert(fixed_rows() + bridged.take(i + 1) =~= (fixed_rows() + bridged.take(
                i as int,
            )).push(view));
        }
        i = i + 1;
    }
    proof {
        assert(bridged.take(bridged.len() as int) =~= bridged);
    }
    out
}

/// What is observed on each centre that is open.
#[verifier::ext_equal]
pub struct InstalledView {
    pub workspace: Option<Set<KindView<()>>>,
    pub distributed: Option<Set<KindView<()>>>,
}

/// What is observed on a centre, where it is open.
pub open spec fn observed_on(v: InstalledView, centre: Centre) -> Option<Set<KindView<()>>> {
    match centre {
        Centre::Workspace => v.workspace,
        Centre::Distributed => v.distributed,
    }
}

/// What is observed on a centre, which is nothing where it is not open.
pub open spec fn seen_on(v: InstalledView, centre: Centre) -> Set<KindView<()>> {
    match observed_on(v, centre) {
        Some(kinds) => kinds,
        None => Set::empty(),
    }
}

/// One more kind observed on a centre.
pub open spec fn observing(v: InstalledView, centre: Centre, kind: KindView<()>) -> InstalledView {
    let kinds = Some(seen_on(v, centre).insert(kind));
    match centre {
        Centre::Workspace => InstalledView { workspace: kinds, ..v },
        Centre::Distributed => InstalledView { distributed: kinds, ..v },
    }
}

/// What is left of what a centre observes, which is closed where nothing is.
pub open spec fn left_of(
    observed: Option<Set<KindView<()>>>,
    wanted: Set<KindView<()>>,
) -> Option<Set<KindView<()>>> {
    match observed {
        None => None,
        Some(kinds) => if kinds.intersect(wanted) == Set::<KindView<()>>::empty() {
            None
        } else {
            Some(kinds.intersect(wanted))
        },
    }
}

/// What is left once only some kinds are wanted.
pub open spec fn retained(v: InstalledView, wanted: Set<KindView<()>>) -> InstalledView {
    InstalledView {
        workspace: left_of(v.workspace, wanted),
        distributed: left_of(v.distributed, wanted),
    }
}

/// What is observed once every wanted row is.
pub open spec fn installed(
    v: InstalledView,
    rows: Seq<RowView>,
    wanted: Set<KindView<()>>,
) -> InstalledView
    decreases rows.len(),
{
    if rows.len() == 0 {
        v
    } else {
        let before = installed(v, rows.drop_last(), wanted);
        let row = rows.last();
        if wanted.contains(row.kind) {
            observing(before, row.centre, row.kind)
        } else {
            before
        }
    }
}

/// The rows that have to be registered so that every wanted one is.
pub open spec fn missing(
    v: InstalledView,
    rows: Seq<RowView>,
    wanted: Set<KindView<()>>,
) -> Seq<RowView>
    decreases rows.len(),
{
    if rows.len() == 0 {
        Seq::empty()
    } else {
        let before = installed(v, rows.drop_last(), wanted);
        let row = rows.last();
        if wanted.contains(row.kind) && !seen_on(before, row.centre).contains(row.kind) {
            missing(v, rows.drop_last(), wanted).push(row)
        } else {
            missing(v, rows.drop_last(), wanted)
        }
    }
}

/// What is observed, by centre.
#[derive(Debug)]
pub struct Installed {
    workspace: Option<KindSet>,
    distributed: Option<KindSet>,
}

/// A set of kinds that may not be there.
spec fn set_view(kinds: Option<KindSet>) -> Option<Set<KindView<()>>> {
    match kinds {
        Some(kinds) => Some(kinds@),
        None => None,
    }
}

impl View for Installed {
    type V = InstalledView;

    closed spec fn view(&self) -> InstalledView {
        InstalledView {
            workspace: set_view(self.workspace),
            distributed: set_view(self.distributed),
        }
    }
}

impl Installed {
    /// Nothing observed, and no centre open.
    pub fn new() -> (r: Installed)
        ensures
            r@ == (InstalledView { workspace: None, distributed: None }),
    {
        Installed { workspace: None, distributed: None }
    }

    /// Whether a kind is observed on a centre.
    pub fn has(&self, centre: Centre, kind: &Kind<()>) -> (r: bool)
        ensures
            r == seen_on(self@, centre).contains(kind@),
    {
        match centre {
            Centre::Workspace => match &self.workspace {
                Some(kinds) => kinds.contains(kind),
                None => false,
            },
            Centre::Distributed => match &self.distributed {
                Some(kinds) => kinds.contains(kind),
                None => false,
            },
        }
    }

    /// Observes one more kind on a centre, which is opened where it is not,
    /// and says whether it was opened for it.
    pub fn on(&mut self, centre: Centre, kind: Kind<()>) -> (r: bool)
        ensures
            final(self)@ == observing(old(self)@, centre, kind@),
            r == (observed_on(old(self)@, centre) is None),
    {
        match centre {
            Centre::Workspace => {
                let mut slot: Option<KindSet> = None;
                std::mem::swap(&mut slot, &mut self.workspace);
                let opened = slot.is_none();
                let mut kinds = match slot {
                    Some(kinds) => kinds,
                    None => KindSet::new(),
                };
                kinds.insert(kind);
                self.workspace = Some(kinds);
                opened
            },
            Centre::Distributed => {
                let mut slot: Option<KindSet> = None;
                std::mem::swap(&mut slot, &mut self.distributed);
                let opened = slot.is_none();
                let mut kinds = match slot {
                    Some(kinds) => kinds,
                    None => KindSet::new(),
                };
                kinds.insert(kind);
                self.distributed = Some(kinds);
                opened
            },
        }
    }

    /// Observes nothing but wanted kinds any more, and closes every centre that
    /// leaves with none.
    pub fn retain(&mut self, wanted: &KindSet)
        ensures
            final(self)@ == retained(old(self)@, wanted@),
    {
        let mut workspace: Option<KindSet> = None;
        std::mem::swap(&mut workspace, &mut self.workspace);
        let mut distributed: Option<KindSet> = None;
        std::mem::swap(&mut distributed, &mut self.distributed);
        self.workspace = keep(workspace, wanted);
        self.distributed = keep(distributed, wanted);
    }

    /// Observes every wanted row, and says which of them were not observed
    /// yet.
    pub fn install(&mut self, rows: &Vec<Row>, wanted: &KindSet) -> (r: Vec<Row>)
        ensures
            final(self)@ == installed(old(self)@, row_views(rows@), wanted@),
            row_views(r@) == missing(old(self)@, row_views(rows@), wanted@),
    {
        let ghost start = self@;
        let ghost all = row_views(rows@);
        let mut out: Vec<Row> = Vec::new();
        let mut i: usize = 0;
        proof {
            assert(all.take(0) =~= Seq::<RowView>::empty());
            assert(row_views(out@) =~= Seq::<RowView>::empty());
        }
        while i < rows.len()
            invariant
                i <= rows@.len(),
                all == row_views(rows@),
                self@ == installed(start, all.take(i as int), wanted@),
                row_views(out@) == missing(start, all.take(i as int), wanted@),
            decreases rows@.len() - i,
        {
            proof {
                assert(all.take(i + 1).drop_last() =~= all.take(i as int));
                assert(all.take(i + 1).last() == rows@[i as int]@);
            }
            if wanted.contains(&rows[i].kind) {
                if !self.has(rows[i].centre, &rows[i].kind) {
                    let ghost before = out@;
                    let row = Row {
                        kind: rows[i].kind.copied(),
                        centre: rows[i].centre,
                        name: rows[i].name.clone(),
                    };
                    let ghost view = row@;
                    out.push(row);
                    proof {
                        assert(row_views(out@) =~= row_views(before).push(view));
                    }
                }
                let opened = self.on(rows[i].centre, rows[i].kind.copied());
            }
            i = i + 1;
        }
        proof {
            assert(all.take(all.len() as int) =~= all);
        }
        out
    }
}

/// What is left of what a centre observes.
fn keep(observed: Option<KindSet>, wanted: &KindSet) -> (r: Option<KindSet>)
    ensures
        set_view(r) == left_of(set_view(observed), wanted@),
{
    match observed {
        None => None,
        Some(kinds) => {
            let left = kinds.intersection(wanted);
            if left.is_empty() {
                None
            } else {
                Some(left)
            }
        },
    }
}

/// The application a notification is about, which is none where it does not
/// say.
fn app_named(app: Option<String>) -> (r: String)
    ensures
        r@ == crate::sources::wifi::ssid_text(part(app)),
{
    match app {
        Some(app) => app,
        None => String::new(),
    }
}

/// The event a notification that an application came to the front means.
pub fn front_app(app: Option<String>) -> (r: Event)
    ensures
        r matches Event::FrontAppSwitched(front) && front.app@ == crate::sources::wifi::ssid_text(
            part(app),
        ),
{
    Event::FrontAppSwitched(FrontApp { app: app_named(app) })
}

/// The event a notification that an application was launched means.
pub fn app_launched(app: Option<String>) -> (r: Event)
    ensures
        r matches Event::AppLaunched(launch) && launch.app@ == crate::sources::wifi::ssid_text(
            part(app),
        ),
{
    Event::AppLaunched(AppLaunch { app: app_named(app) })
}

/// The event a notification that the machine is going to sleep means.
pub fn will_sleep() -> (r: Event)
    ensures
        r is SystemWillSleep,
{
    Event::SystemWillSleep(SystemWillSleep {  })
}

/// The event a notification that the machine woke means.
pub fn woke() -> (r: Event)
    ensures
        r is SystemWoke,
{
    Event::SystemWoke(SystemWoke {  })
}

/// The event a notification that another display came to the front means.
pub fn display_changed() -> (r: Event)
    ensures
        r is DisplayChanged,
{
    Event::DisplayChanged(DisplayChange {  })
}

/// What a bridged notification carries, as far as it is texts under texts.
pub open spec fn bridged_vars(info: Seq<(Option<String>, Option<String>)>) -> Map<
    Seq<char>,
    Seq<char>,
>
    decreases info.len(),
{
    if info.len() == 0 {
        Map::empty()
    } else {
        let before = bridged_vars(info.drop_last());
        match info.last() {
            (Some(key), Some(value)) => before.insert(key@, value@),
            _ => before,
        }
    }
}

/// The event a bridged notification means. Only what is already a text under a
/// text is taken along: nothing else is what a variable can hold.
pub fn bridged(name: &EventName, info: &Vec<(Option<String>, Option<String>)>) -> (r: Event)
    ensures
        r matches Event::Custom(custom) && custom.name@ == name@ && custom.vars@ == bridged_vars(
            info@,
        ),
{
    let mut vars = Vars::new();
    let mut i: usize = 0;
    proof {
        assert(info@.take(0) =~= Seq::<(Option<String>, Option<String>)>::empty());
    }
    while i < info.len()
        invariant
            i <= info@.len(),
            vars@ == bridged_vars(info@.take(i as int)),
        decreases info@.len() - i,
    {
        proof {
            assert(info@.take(i + 1).drop_last() =~= info@.take(i as int));
            assert(info@.take(i + 1).last() == info@[i as int]);
        }
        match (&info[i].0, &info[i].1) {
            (Some(key), Some(value)) => {
                vars.insert(key.clone(), value.clone());
            },
            _ => {},
        }
        i = i + 1;
    }
    proof {
        assert(info@.take(info@.len() as int) =~= info@);
    }
    Event::Custom(Custom { name: name.as_str().to_owned(), vars })
}

/// The source of notifications: what it observes.
#[derive(Debug)]
pub struct Notifications {
    pub installed: Installed,
}

impl Notifications {
    /// What this source is called, and what it always produces. What a config
    /// bridges comes on top of that.
    pub fn describe() -> (r: Described)
        ensures
            described(r) == known("notifications"@, fixed_topics(), false),
    {
        let topics = vec![
            Topic::FrontAppSwitched,
            Topic::AppLaunched,
            Topic::SystemWoke,
            Topic::SystemWillSleep,
            Topic::DisplayChanged,
        ];
        assert(topics@ =~= fixed_topics());
        describe(SourceId("notifications"), topics, false)
    }

    /// One that observes nothing.
    pub fn new() -> (r: Notifications)
        ensures
            r.installed@ == (InstalledView { workspace: None, distributed: None }),
    {
        Notifications { installed: Installed::new() }
    }

    /// Brings what is observed into line with what is wanted, and says which
    /// rows have to be registered for it.
    pub fn update(
        &mut self,
        declared: &Vec<(EventName, NotificationName)>,
        wanted: &KindSet,
    ) -> (r: Vec<Row>)
        ensures
            final(self).installed@ == installed(
                retained(old(self).installed@, wanted@),
                all_rows(declared@),
                wanted@,
            ),
            row_views(r@) == missing(
                retained(old(self).installed@, wanted@),
                all_rows(declared@),
                wanted@,
            ),
    {
        let rows = rows(declared);
        self.installed.retain(wanted);
        self.installed.install(&rows, wanted)
    }
}

// ---------------------------------------------------------------------------
// Laws

/// The kinds of the rows on a centre.
pub open spec fn row_kinds(rows: Seq<RowView>, centre: Centre) -> Set<KindView<()>> {
    Set::new(
        |kind: KindView<()>|
            exists|i: int|
                0 <= i < rows.len() && (#[trigger] rows[i]).kind == kind && rows[i].centre
                    == centre,
    )
}

/// What every wanted row adds to what a centre observes.
proof fn lemma_installed(v: InstalledView, rows: Seq<RowView>, wanted: Set<KindView<()>>)
    ensures
        forall|centre: Centre| #[trigger]
            seen_on(installed(v, rows, wanted), centre) == seen_on(v, centre).union(
                row_kinds(rows, centre).intersect(wanted),
            ),
    decreases rows.len(),
{
    assert forall|centre: Centre| #[trigger]
        seen_on(installed(v, rows, wanted), centre) == seen_on(v, centre).union(
        row_kinds(rows, centre).intersect(wanted),
    ) by {
        let goal = seen_on(v, centre).union(row_kinds(rows, centre).intersect(wanted));
        if rows.len() == 0 {
            assert(goal =~= seen_on(v, centre));
        } else {
            let short = rows.drop_last();
            let row = rows.last();
            lemma_installed(v, short, wanted);
            let before = seen_on(installed(v, short, wanted), centre);
            assert forall|kind: KindView<()>| #[trigger]
                row_kinds(rows, centre).contains(kind) <==> (row_kinds(short, centre).contains(kind)
                || (row.kind == kind && row.centre == centre)) by {
                if row_kinds(rows, centre).contains(kind) {
                    let i = choose|i: int|
                        0 <= i < rows.len() && (#[trigger] rows[i]).kind == kind && rows[i].centre
                            == centre;
                    if i < short.len() {
                        assert(short[i].kind == kind);
                    }
                }
                if row_kinds(short, centre).contains(kind) {
                    let i = choose|i: int|
                        0 <= i < short.len() && (#[trigger] short[i]).kind == kind
                            && short[i].centre == centre;
                    assert(rows[i].kind == kind);
                }
                if row.kind == kind && row.centre == centre {
                    assert(rows[rows.len() - 1].kind == kind);
                }
            }
            assert(seen_on(installed(v, rows, wanted), centre) =~= goal);
        }
    }
}

/// Once brought into line, a centre observes exactly the wanted rows on it, if
/// it observed nothing but rows on it before.
pub proof fn law_only_wanted_rows_are_observed(
    v: InstalledView,
    rows: Seq<RowView>,
    wanted: Set<KindView<()>>,
    centre: Centre,
)
    requires
        seen_on(v, centre).subset_of(row_kinds(rows, centre)),
    ensures
        seen_on(installed(retained(v, wanted), rows, wanted), centre) == row_kinds(
            rows,
            centre,
        ).intersect(wanted),
{
    let kept = retained(v, wanted);
    lemma_installed(kept, rows, wanted);
    assert(seen_on(kept, centre) =~= seen_on(v, centre).intersect(wanted));
    assert(seen_on(installed(kept, rows, wanted), centre) =~= row_kinds(rows, centre).intersect(
        wanted,
    ));
}

/// A centre that was not open is not opened for rows nobody wants.
pub proof fn law_an_unwanted_centre_stays_closed(
    v: InstalledView,
    rows: Seq<RowView>,
    wanted: Set<KindView<()>>,
    centre: Centre,
)
    requires
        observed_on(v, centre) is None,
        row_kinds(rows, centre).disjoint(wanted),
    ensures
        observed_on(installed(v, rows, wanted), centre) is None,
    decreases rows.len(),
{
    if rows.len() > 0 {
        let short = rows.drop_last();
        assert forall|kind: KindView<()>| row_kinds(short, centre).contains(kind) implies row_kinds(
            rows,
            centre,
        ).contains(kind) by {
            let i = choose|i: int|
                0 <= i < short.len() && (#[trigger] short[i]).kind == kind && short[i].centre
                    == centre;
            assert(rows[i].kind == kind);
        }
        law_an_unwanted_centre_stays_closed(v, short, wanted, centre);
        let row = rows.last();
        if row.centre == centre {
            assert(rows[rows.len() - 1].kind == row.kind);
            assert(row_kinds(rows, centre).contains(row.kind));
        }
    }
}

/// A row that is observed is not registered again.
pub proof fn law_nothing_is_registered_twice(
    v: InstalledView,
    row: RowView,
    wanted: Set<KindView<()>>,
)
    requires
        seen_on(v, row.centre).contains(row.kind),
    ensures
        missing(v, seq![row], wanted) == Seq::<RowView>::empty(),
{
    assert(seq![row].drop_last() =~= Seq::<RowView>::empty());
    assert(missing(v, Seq::<RowView>::empty(), wanted) =~= Seq::<RowView>::empty());
    assert(installed(v, Seq::<RowView>::empty(), wanted) == v);
}

} // verus!
