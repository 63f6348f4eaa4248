//! The facilities of the system that events come from.

use crate::event::{bare_kind, Kind, KindView, Topic};
use crate::kindset::{kind_views, KindSet};
use crate::registry::{all_described, distinct, opening, Registry};
use crate::source::{described, Described, Liveness, SourceId, SourceView};
use vstd::prelude::*;

pub mod accessibility;
pub mod cause;
pub mod media;
pub mod mouse;
pub mod notifications;
pub mod power;
pub mod spaces;
pub mod watcher;
pub mod wifi;

verus! {

/// The kinds of some topics.
pub open spec fn kinds_named(topics: Seq<Topic>) -> Set<KindView<()>> {
    topics.map_values(|topic: Topic| bare_kind(topic)).to_set()
}

/// The kinds of some topics.
pub fn kinds(topics: Vec<Topic>) -> (r: KindSet)
    ensures
        r@ == kinds_named(topics@),
{
    let ghost all = topics@.map_values(|topic: Topic| bare_kind(topic));
    let mut out: Vec<Kind<()>> = Vec::new();
    let mut i: usize = 0;
    while i < topics.len()
        invariant
            i <= topics@.len(),
            all == topics@.map_values(|topic: Topic| bare_kind(topic)),
            kind_views(out@) =~= all.take(i as int),
        decreases topics@.len() - i,
    {
        let ghost before = out@;
        out.push(Kind::of(topics[i]));
        proof {
            assert(kind_views(out@) =~= kind_views(before).push(all[i as int]));
        }
        i = i + 1;
    }
    proof {
        assert(all.take(all.len() as int) =~= all);
    }
    KindSet::of(&out)
}

/// A source of some topics, before anything is asked of it.
pub open spec fn known(id: Seq<char>, topics: Seq<Topic>, eager: bool) -> SourceView {
    SourceView {
        id,
        fixed: kinds_named(topics),
        provides: kinds_named(topics),
        serving: Set::empty(),
        liveness: Liveness::Wanted,
        pinned: eager,
        failed: false,
        feed: None,
        due: crate::source::ActionView::Leave,
    }
}

/// A source of some topics.
pub fn describe(id: SourceId, topics: Vec<Topic>, eager: bool) -> (r: Described)
    ensures
        described(r) == known(id@, topics@, eager),
{
    Described { id, provides: kinds(topics), eager }
}

/// A source of one topic.
fn source_of(id: SourceId, topic: Topic, eager: bool) -> (r: Described)
    ensures
        described(r) == known(id@, seq![topic], eager),
{
    let topics = vec![topic];
    assert(topics@ =~= seq![topic]);
    describe(id, topics, eager)
}

/// Every source there is. The displays it draws on and the config it reloads
/// from are what a bar itself depends on, so those two run whether or not
/// anything asks.
pub open spec fn known_sources() -> Seq<SourceView> {
    seq![
        known("notifications"@, notifications::fixed_topics(), false),
        known("displays"@, seq![Topic::DisplayChanged], true),
        known("config"@, seq![Topic::ConfigReloaded], true),
        known("power"@, seq![Topic::PowerSourceChanged], false),
        known("mouse"@, mouse::mouse_topics(), false),
        known("volume"@, seq![Topic::VolumeChanged], false),
        known("brightness"@, seq![Topic::BrightnessChanged], false),
        known("wifi"@, seq![Topic::WifiChanged], false),
        known("spaces"@, seq![Topic::SpaceChanged, Topic::SpaceWindowsChanged], false),
        known("media"@, seq![Topic::MediaChanged], false),
        known("accessibility"@, seq![Topic::AccessibilityChanged], false),
    ]
}

/// Whether two texts differ.
spec fn differ(a: Seq<char>, b: Seq<char>) -> bool {
    a.len() != b.len() || (a.len() > 1 && (a[0] != b[0] || a[1] != b[1]))
}

/// No two sources go by one name.
pub proof fn law_sources_are_told_apart()
    ensures
        distinct(known_sources()),
{
    reveal_strlit("notifications");
    reveal_strlit("displays");
    reveal_strlit("config");
    reveal_strlit("power");
    reveal_strlit("mouse");
    reveal_strlit("volume");
    reveal_strlit("brightness");
    reveal_strlit("wifi");
    reveal_strlit("spaces");
    reveal_strlit("media");
    reveal_strlit("accessibility");
    let all = known_sources();
    assert forall|i: int, j: int| 0 <= i < j < all.len() implies #[trigger] all[i].id
        != #[trigger] all[j].id by {
        assert(differ(all[i].id, all[j].id));
    }
}

impl Registry {
    /// A registry over every source there is, with nothing wanted of any.
    pub fn new() -> (r: Registry)
        ensures
            r.wf(),
            r@ == opening(known_sources()),
            r@.wf(),
    {
        let mut list: Vec<Described> = Vec::new();
        list.push(notifications::Notifications::describe());
        list.push(source_of(SourceId("displays"), Topic::DisplayChanged, true));
        list.push(watcher::Watcher::describe());
        list.push(power::Power::describe());
        list.push(mouse::Mouse::describe());
        list.push(source_of(SourceId("volume"), Topic::VolumeChanged, false));
        list.push(source_of(SourceId("brightness"), Topic::BrightnessChanged, false));
        list.push(wifi::Wifi::describe());
        list.push(spaces::Spaces::describe());
        list.push(media::Media::describe());
        list.push(accessibility::Accessibility::describe());
        proof {
            assert(all_described(list@) =~= known_sources());
            law_sources_are_told_apart();
        }
        Registry::over(list)
    }
}

} // verus!
