//! The custom events a config has declared.
//!
//! A config is read between two marks. Every declaration is marked as the
//! reading begins, declaring one again clears its mark, and what is still
//! marked as the reading ends is gone.

use crate::assoc::{lemma_mapped_names, mapped};
use crate::event::{EventName, KindView, NotificationName};
use crate::kindset::KindSet;
use crate::source::Liveness;
use crate::text::same;
use crate::vars::{
    before, in_order, lemma_before_irreflexive, lemma_before_total, lemma_ordered_at,
    lemma_ordered_insert, lemma_ordered_update, precedes,
};
use vstd::prelude::*;

verus! {

/// A declared event: what it is bridged from, and whether the config being read
/// still wants it.
pub struct DeclarationView {
    pub notification: Option<Seq<char>>,
    pub liveness: Liveness,
}

/// Declared events by name.
pub type Declared = Map<Seq<char>, DeclarationView>;

/// One more declaration, wanted.
pub open spec fn declared(
    events: Declared,
    name: Seq<char>,
    notification: Option<Seq<char>>,
) -> Declared {
    events.insert(name, DeclarationView { notification, liveness: Liveness::Wanted })
}

/// Every declaration marked.
pub open spec fn all_marked(events: Declared) -> Declared {
    Map::new(
        |name: Seq<char>| events.contains_key(name),
        |name: Seq<char>|
            DeclarationView {
                notification: events[name].notification,
                liveness: Liveness::Stale,
            },
    )
}

/// What is not marked.
pub open spec fn unmarked(events: Declared) -> Declared {
    Map::new(
        |name: Seq<char>| events.contains_key(name) && events[name].liveness == Liveness::Wanted,
        |name: Seq<char>| events[name],
    )
}

/// The events that come from a notification.
pub open spec fn bridged_kinds(events: Declared) -> Set<KindView<()>> {
    Set::new(
        |kind: KindView<()>| exists|name: Seq<char>| #[trigger]
            events.contains_key(name) && events[name].notification is Some && kind
                == KindView::<()>::Custom(name),
    )
}

/// A custom event a config declared.
#[derive(Debug)]
struct Declaration {
    name: EventName,
    notification: Option<NotificationName>,
    liveness: Liveness,
}

/// The text of a notification's name.
pub open spec fn notification_view(notification: Option<NotificationName>) -> Option<Seq<char>> {
    match notification {
        Some(name) => Some(name@),
        None => None,
    }
}

impl Declaration {
    spec fn pair(&self) -> (Seq<char>, DeclarationView) {
        (
            self.name@,
            DeclarationView {
                notification: notification_view(self.notification),
                liveness: self.liveness,
            },
        )
    }
}

/// Declarations as pairs.
spec fn pairs_of(rows: Seq<Declaration>) -> Seq<(Seq<char>, DeclarationView)> {
    rows.map_values(|d: Declaration| d.pair())
}

/// The custom events a config has declared, in the order of their names.
#[derive(Debug)]
pub struct Declarations {
    rows: Vec<Declaration>,
}

impl View for Declarations {
    type V = Declared;

    open spec fn view(&self) -> Declared {
        mapped(self.entries())
    }
}

/// A notification's name again.
fn copy_notification(notification: &Option<NotificationName>) -> (r: Option<NotificationName>)
    ensures
        notification_view(r) == notification_view(*notification),
{
    match notification {
        Some(name) => Some(name.clone()),
        None => None,
    }
}

impl Declarations {
    /// The declarations as they are walked: in order of their names.
    pub closed spec fn entries(&self) -> Seq<(Seq<char>, DeclarationView)> {
        pairs_of(self.rows@)
    }

    #[verifier::type_invariant]
    spec fn inv(self) -> bool {
        in_order(self.entries())
    }

    /// Nothing declared.
    pub fn new() -> (r: Declarations)
        ensures
            r@ == Map::<Seq<char>, DeclarationView>::empty(),
            r.entries() == Seq::<(Seq<char>, DeclarationView)>::empty(),
    {
        let r = Declarations { rows: Vec::new() };
        assert(r.entries() =~= Seq::<(Seq<char>, DeclarationView)>::empty());
        r
    }

    /// How many events are declared, each of them once and in order.
    pub fn len(&self) -> (r: usize)
        ensures
            r == self.entries().len(),
            in_order(self.entries()),
    {
        proof {
            use_type_invariant(self);
        }
        self.rows.len()
    }

    /// The name that comes `i`th.
    pub fn name_at(&self, i: usize) -> (r: &EventName)
        requires
            i < self.entries().len(),
        ensures
            r@ == self.entries()[i as int].0,
    {
        &self.rows[i].name
    }

    /// What the `i`th event is bridged from, where it is.
    pub fn notification_at(&self, i: usize) -> (r: Option<NotificationName>)
        requires
            i < self.entries().len(),
        ensures
            notification_view(r) == self.entries()[i as int].1.notification,
    {
        copy_notification(&self.rows[i].notification)
    }

    /// Declares an event, or declares it again.
    pub fn declare(&mut self, name: EventName, notification: Option<NotificationName>)
        ensures
            final(self)@ == declared(old(self)@, name@, notification_view(notification)),
    {
        proof {
            use_type_invariant(&*self);
        }
        let ghost s = self.entries();
        let ghost key = name@;
        let mut rows: Vec<Declaration> = Vec::new();
        std::mem::swap(&mut rows, &mut self.rows);
        let mut i: usize = 0;
        while i < rows.len() && precedes(rows[i].name.as_str(), name.as_str())
            invariant
                i <= rows@.len(),
                s == pairs_of(rows@),
                in_order(s),
                key == name@,
                forall|j: int| 0 <= j < i ==> before(#[trigger] s[j].0, key),
            decreases rows@.len() - i,
        {
            assert(s[i as int] == rows@[i as int].pair());
            i = i + 1;
        }
        let ghost at = i as int;
        proof {
            if at < s.len() {
                assert(s[at] == rows@[at].pair());
                lemma_before_total(s[at].0, key);
            }
        }
        let fresh = Declaration { name, notification, liveness: Liveness::Wanted };
        let ghost put = fresh.pair().1;
        if i < rows.len() && same(rows[i].name.as_str(), fresh.name.as_str()) {
            rows.set(i, fresh);
            proof {
                assert(pairs_of(rows@) =~= s.update(at, (s[at].0, put)));
                lemma_ordered_update(s, at, put);
            }
        } else {
            rows.insert(i, fresh);
            proof {
                assert(pairs_of(rows@) =~= s.insert(at, (key, put)));
                lemma_ordered_insert(s, at, key, put);
            }
        }
        self.rows = rows;
    }

    /// Marks every declaration, so that the config being read now says which it
    /// still wants by declaring it again.
    pub fn begin(&mut self)
        ensures
            final(self)@ == all_marked(old(self)@),
    {
        proof {
            use_type_invariant(&*self);
        }
        let ghost s = self.entries();
        let mut out: Vec<Declaration> = Vec::new();
        let mut i: usize = 0;
        while i < self.rows.len()
            invariant
                i <= self.rows@.len(),
                s == pairs_of(self.rows@),
                in_order(s),
                pairs_of(out@).len() == i,
                forall|j: int|
                    0 <= j < i ==> #[trigger] pairs_of(out@)[j] == (
                        s[j].0,
                        DeclarationView {
                            notification: s[j].1.notification,
                            liveness: Liveness::Stale,
                        },
                    ),
            decreases self.rows@.len() - i,
        {
            let ghost before_push = out@;
            out.push(
                Declaration {
                    name: self.rows[i].name.clone(),
                    notification: copy_notification(&self.rows[i].notification),
                    liveness: Liveness::Stale,
                },
            );
            proof {
                assert(s[i as int] == self.rows@[i as int].pair());
                assert(pairs_of(out@) =~= pairs_of(before_push).push(out@[i as int].pair()));
            }
            i = i + 1;
        }
        proof {
            let t = pairs_of(out@);
            assert(in_order(t)) by {
                assert forall|a: int, b: int| 0 <= a < b < t.len() implies before(
                    #[trigger] t[a].0,
                    #[trigger] t[b].0,
                ) by {
                    assert(t[a].0 == s[a].0 && t[b].0 == s[b].0);
                }
            }
            assert forall|name: Seq<char>| mapped(t).contains_key(name) <==> mapped(
                s,
            ).contains_key(name) by {
                lemma_mapped_names(t, name);
                lemma_mapped_names(s, name);
                if mapped(t).contains_key(name) {
                    let j = choose|j: int| 0 <= j < t.len() && #[trigger] t[j].0 == name;
                    assert(s[j].0 == name);
                }
                if mapped(s).contains_key(name) {
                    let j = choose|j: int| 0 <= j < s.len() && #[trigger] s[j].0 == name;
                    assert(t[j].0 == name);
                }
            }
            assert forall|name: Seq<char>| mapped(t).contains_key(name) implies mapped(t)[name]
                == all_marked(mapped(s))[name] by {
                lemma_mapped_names(t, name);
                let j = choose|j: int| 0 <= j < t.len() && #[trigger] t[j].0 == name;
                lemma_ordered_at(t, j);
                lemma_ordered_at(s, j);
            }
            assert(mapped(t) =~= all_marked(mapped(s)));
        }
        self.rows = out;
    }

    /// Drops every declaration still marked, saying whether there was one.
    pub fn end(&mut self) -> (r: bool)
        ensures
            final(self)@ == unmarked(old(self)@),
            r == (final(self)@ != old(self)@),
    {
        proof {
            use_type_invariant(&*self);
        }
        let ghost s = self.entries();
        let mut out: Vec<Declaration> = Vec::new();
        let mut swept = false;
        let mut i: usize = 0;
        proof {
            assert(s.take(0) =~= Seq::<(Seq<char>, DeclarationView)>::empty());
            assert(pairs_of(out@) =~= Seq::<(Seq<char>, DeclarationView)>::empty());
            assert(mapped(pairs_of(out@)) =~= unmarked(mapped(s.take(0))));
        }
        while i < self.rows.len()
            invariant
                i <= self.rows@.len(),
                s == pairs_of(self.rows@),
                in_order(s),
                in_order(pairs_of(out@)),
                forall|j: int|
                    0 <= j < out@.len() ==> exists|k: int|
                        0 <= k < i && s[k].0 == #[trigger] pairs_of(out@)[j].0,
                mapped(pairs_of(out@)) == unmarked(mapped(s.take(i as int))),
                swept == exists|k: int| 0 <= k < i && (#[trigger] s[k]).1.liveness == Liveness::Stale,
            decreases self.rows@.len() - i,
        {
            let ghost before_push = out@;
            let ghost one = self.rows@[i as int].pair();
            proof {
                assert(s[i as int] == one);
                assert(s.take(i + 1) =~= s.take(i as int).push(one));
                assert(s.take(i + 1).drop_last() =~= s.take(i as int));
                assert(!mapped(s.take(i as int)).contains_key(one.0)) by {
                    lemma_mapped_names(s.take(i as int), one.0);
                    if mapped(s.take(i as int)).contains_key(one.0) {
                        let k = choose|k: int|
                            0 <= k < i && #[trigger] s.take(i as int)[k].0 == one.0;
                        assert(s[k].0 == one.0);
                        assert(before(s[k].0, s[i as int].0));
                        lemma_before_irreflexive(one.0);
                    }
                }
            }
            if self.rows[i].liveness == Liveness::Wanted {
                out.push(
                    Declaration {
                        name: self.rows[i].name.clone(),
                        notification: copy_notification(&self.rows[i].notification),
                        liveness: Liveness::Wanted,
                    },
                );
                proof {
                    let t = pairs_of(out@);
                    let u = pairs_of(before_push);
                    assert(t =~= u.push(one));
                    assert(t.drop_last() =~= u);
                    assert forall|a: int, b: int| 0 <= a < b < t.len() implies before(
                        #[trigger] t[a].0,
                        #[trigger] t[b].0,
                    ) by {
                        if b < u.len() {
                            assert(t[a] == u[a] && t[b] == u[b]);
                        } else {
                            assert(t[a] == u[a]);
                            let k = choose|k: int| 0 <= k < i && s[k].0 == u[a].0;
                            assert(before(s[k].0, s[i as int].0));
                        }
                    }
                    assert forall|j: int| 0 <= j < out@.len() implies exists|k: int|
                        0 <= k < i + 1 && s[k].0 == #[trigger] t[j].0 by {
                        if j < u.len() {
                            let k = choose|k: int| 0 <= k < i && s[k].0 == u[j].0;
                            assert(0 <= k < i + 1 && s[k].0 == t[j].0);
                        } else {
                            assert(s[i as int].0 == t[j].0);
                        }
                    }
                    assert(unmarked(mapped(s.take(i + 1))) =~= unmarked(
                        mapped(s.take(i as int)),
                    ).insert(one.0, one.1));
                }
            } else {
                swept = true;
                proof {
                    assert(s[i as int].1.liveness == Liveness::Stale);
                    assert forall|j: int| 0 <= j < out@.len() implies exists|k: int|
                        0 <= k < i + 1 && s[k].0 == #[trigger] pairs_of(out@)[j].0 by {
                        let k = choose|k: int| 0 <= k < i && s[k].0 == pairs_of(out@)[j].0;
                        assert(0 <= k < i + 1 && s[k].0 == pairs_of(out@)[j].0);
                    }
                    assert(unmarked(mapped(s.take(i + 1))) =~= unmarked(mapped(s.take(i as int))));
                }
            }
            proof {
                if exists|k: int| 0 <= k < i && (#[trigger] s[k]).1.liveness == Liveness::Stale {
                    let k = choose|k: int|
                        0 <= k < i && (#[trigger] s[k]).1.liveness == Liveness::Stale;
                    assert(0 <= k < i + 1 && s[k].1.liveness == Liveness::Stale);
                }
            }
            i = i + 1;
        }
        proof {
            assert(s.take(s.len() as int) =~= s);
            if swept {
                let k = choose|k: int|
                    0 <= k < s.len() && (#[trigger] s[k]).1.liveness == Liveness::Stale;
                lemma_ordered_at(s, k);
                assert(!unmarked(mapped(s)).contains_key(s[k].0));
            } else {
                assert forall|name: Seq<char>| mapped(s).contains_key(name) implies unmarked(
                    mapped(s),
                ).contains_key(name) by {
                    lemma_mapped_names(s, name);
                    let k = choose|k: int| 0 <= k < s.len() && #[trigger] s[k].0 == name;
                    lemma_ordered_at(s, k);
                    assert(s[k].1.liveness != Liveness::Stale);
                }
                assert(unmarked(mapped(s)) =~= mapped(s));
            }
        }
        self.rows = out;
        swept
    }

    /// The events that come from a notification.
    pub fn bridged(&self) -> (r: KindSet)
        ensures
            r@ == bridged_kinds(self@),
    {
        proof {
            use_type_invariant(self);
        }
        let ghost s = self.entries();
        let mut out = KindSet::new();
        let mut i: usize = 0;
        while i < self.rows.len()
            invariant
                i <= self.rows@.len(),
                s == pairs_of(self.rows@),
                in_order(s),
                forall|kind: KindView<()>|
                    out@.contains(kind) <==> exists|j: int|
                        0 <= j < i && (#[trigger] s[j]).1.notification is Some && kind
                            == KindView::<()>::Custom(s[j].0),
            decreases self.rows@.len() - i,
        {
            let ghost was = out@;
            proof {
                assert(s[i as int] == self.rows@[i as int].pair());
            }
            if self.rows[i].notification.is_some() {
                out.insert(self.rows[i].name.kind());
            }
            proof {
                assert forall|kind: KindView<()>|
                    out@.contains(kind) <==> exists|j: int|
                        0 <= j < i + 1 && (#[trigger] s[j]).1.notification is Some && kind
                            == KindView::<()>::Custom(s[j].0) by {
                    if was.contains(kind) {
                        let j = choose|j: int|
                            0 <= j < i && (#[trigger] s[j]).1.notification is Some && kind
                                == KindView::<()>::Custom(s[j].0);
                        assert(0 <= j < i + 1 && s[j].1.notification is Some);
                    }
                    if s[i as int].1.notification is Some && kind == KindView::<()>::Custom(
                        s[i as int].0,
                    ) {
                        assert(out@.contains(kind));
                    }
                }
            }
            i = i + 1;
        }
        proof {
            assert forall|kind: KindView<()>|
                out@.contains(kind) <==> bridged_kinds(self@).contains(kind) by {
                if out@.contains(kind) {
                    let j = choose|j: int|
                        0 <= j < s.len() && (#[trigger] s[j]).1.notification is Some && kind
                            == KindView::<()>::Custom(s[j].0);
                    lemma_ordered_at(s, j);
                    assert(self@.contains_key(s[j].0));
                }
                if bridged_kinds(self@).contains(kind) {
                    let name = choose|name: Seq<char>| #[trigger]
                        self@.contains_key(name) && self@[name].notification is Some && kind
                            == KindView::<()>::Custom(name);
                    lemma_mapped_names(s, name);
                    let j = choose|j: int| 0 <= j < s.len() && #[trigger] s[j].0 == name;
                    lemma_ordered_at(s, j);
                    assert(s[j].1.notification is Some);
                }
            }
            assert(out@ =~= bridged_kinds(self@));
        }
        out
    }
}

/// What a config declares, in order: each name, and what it is bridged from.
pub type Said = Seq<(Seq<char>, Option<Seq<char>>)>;

/// The declarations after a config has made some.
pub open spec fn all_declared(events: Declared, said: Said) -> Declared
    decreases said.len(),
{
    if said.len() == 0 {
        events
    } else {
        declared(all_declared(events, said.drop_last()), said.last().0, said.last().1)
    }
}

/// What a name was said to be bridged from last, if it was said at all.
pub open spec fn said_last(said: Said, name: Seq<char>) -> Option<Option<Seq<char>>>
    decreases said.len(),
{
    if said.len() == 0 {
        None
    } else if said.last().0 == name {
        Some(said.last().1)
    } else {
        said_last(said.drop_last(), name)
    }
}

/// What there is of a name after a config has made its declarations.
proof fn lemma_all_declared(events: Declared, said: Said, name: Seq<char>)
    ensures
        match said_last(said, name) {
            Some(notification) => all_declared(events, said).contains_key(name) && all_declared(
                events,
                said,
            )[name] == (DeclarationView { notification, liveness: Liveness::Wanted }),
            None => all_declared(events, said).contains_key(name) == events.contains_key(name)
                && all_declared(events, said)[name] == events[name],
        },
    decreases said.len(),
{
    if said.len() > 0 {
        lemma_all_declared(events, said.drop_last(), name);
    }
}

/// Once a config has been read, the declarations are exactly those that it made,
/// each as it was made last, whatever there was before.
pub proof fn law_a_reading_keeps_exactly_what_it_declares(events: Declared, said: Said)
    ensures
        unmarked(all_declared(all_marked(events), said)) == all_declared(Map::empty(), said),
        forall|name: Seq<char>|
            all_declared(Map::empty(), said).contains_key(name) <==> #[trigger] said_last(
                said,
                name,
            ) is Some,
        forall|name: Seq<char>| #[trigger] said_last(said, name) matches Some(notification)
            ==> all_declared(Map::empty(), said)[name].notification == notification,
{
    let read = all_declared(all_marked(events), said);
    let made = all_declared(Map::empty(), said);
    assert forall|name: Seq<char>|
        (unmarked(read).contains_key(name) <==> made.contains_key(name)) && (
        unmarked(read).contains_key(name) ==> unmarked(read)[name] == made[name]) && (
        made.contains_key(name) <==> #[trigger] said_last(said, name) is Some) && (said_last(
            said,
            name,
        ) matches Some(notification) ==> made[name].notification == notification) by {
        lemma_all_declared(all_marked(events), said, name);
        lemma_all_declared(Map::empty(), said, name);
    }
    assert forall|name: Seq<char>| unmarked(read).contains_key(name) <==> made.contains_key(name) by {
        assert(said_last(said, name) is Some || said_last(said, name) is None);
    }
    assert forall|name: Seq<char>| unmarked(read).contains_key(name) implies unmarked(read)[name]
        == made[name] by {
        assert(said_last(said, name) is Some || said_last(said, name) is None);
    }
    assert(unmarked(read) =~= made);
}

} // verus!
