//! Which sources produce a given event.

use crate::assoc::{
    holds, lemma_mapped_at, lemma_mapped_names, lemma_mapped_push, lemma_mapped_remove,
    lemma_mapped_update, mapped, unique,
};
use crate::event::{Kind, KindView};
use crate::kindset::KindSet;
use crate::source::SourceId;
use vstd::prelude::*;

verus! {

/// The sources behind each event, by name.
pub type Index = Map<KindView<()>, Seq<Seq<char>>>;

/// Every name but one.
pub open spec fn not_named(id: Seq<char>) -> spec_fn(Seq<char>) -> bool {
    |held: Seq<char>| held != id
}

/// The index after a source stops producing one event. An event nothing
/// produces any more is not in the index.
pub open spec fn without_one(index: Index, kind: KindView<()>, id: Seq<char>) -> Index {
    if !index.contains_key(kind) {
        index
    } else if index[kind].filter(not_named(id)).len() == 0 {
        index.remove(kind)
    } else {
        index.insert(kind, index[kind].filter(not_named(id)))
    }
}

/// The index after a source starts producing one event.
pub open spec fn with_one(index: Index, kind: KindView<()>, id: Seq<char>) -> Index {
    if !index.contains_key(kind) {
        index.insert(kind, seq![id])
    } else if index[kind].contains(id) {
        index
    } else {
        index.insert(kind, index[kind].push(id))
    }
}

/// The index after a source stops producing some events.
pub open spec fn without(index: Index, kinds: Set<KindView<()>>, id: Seq<char>) -> Index {
    Map::new(
        |kind: KindView<()>|
            if kinds.contains(kind) {
                without_one(index, kind, id).contains_key(kind)
            } else {
                index.contains_key(kind)
            },
        |kind: KindView<()>|
            if kinds.contains(kind) {
                without_one(index, kind, id)[kind]
            } else {
                index[kind]
            },
    )
}

/// The index after a source starts producing some events.
pub open spec fn with(index: Index, kinds: Set<KindView<()>>, id: Seq<char>) -> Index {
    Map::new(
        |kind: KindView<()>| kinds.contains(kind) || index.contains_key(kind),
        |kind: KindView<()>|
            if kinds.contains(kind) {
                with_one(index, kind, id)[kind]
            } else {
                index[kind]
            },
    )
}

/// The index after what a source produces changes.
pub open spec fn reindexed(
    index: Index,
    was: Set<KindView<()>>,
    now: Set<KindView<()>>,
    id: Seq<char>,
) -> Index {
    with(without(index, was.difference(now), id), now.difference(was), id)
}

/// The sources behind each event.
#[derive(Debug)]
pub struct Providers {
    rows: Vec<(Kind<()>, Vec<SourceId>)>,
}

/// Names of sources.
pub open spec fn id_views(ids: Seq<SourceId>) -> Seq<Seq<char>> {
    ids.map_values(|id: SourceId| id@)
}

/// Rows over plain text.
spec fn row_views(rows: Seq<(Kind<()>, Vec<SourceId>)>) -> Seq<(KindView<()>, Seq<Seq<char>>)> {
    rows.map_values(|row: (Kind<()>, Vec<SourceId>)| (row.0@, id_views(row.1@)))
}

impl View for Providers {
    type V = Index;

    closed spec fn view(&self) -> Index {
        mapped(row_views(self.rows@))
    }
}

impl Providers {
    #[verifier::type_invariant]
    spec fn inv(self) -> bool {
        unique(row_views(self.rows@))
    }

    /// Nothing produces anything.
    pub fn new() -> (r: Providers)
        ensures
            r@ == Map::<KindView<()>, Seq<Seq<char>>>::empty(),
    {
        let r = Providers { rows: Vec::new() };
        assert(row_views(r.rows@) =~= Seq::<(KindView<()>, Seq<Seq<char>>)>::empty());
        r
    }

    /// Where an event stands.
    fn find(&self, kind: &Kind<()>) -> (r: Option<usize>)
        ensures
            match r {
                Some(i) => i < self.rows@.len() && row_views(self.rows@)[i as int].0 == kind@,
                None => !holds(row_views(self.rows@), kind@),
            },
    {
        let ghost rows = row_views(self.rows@);
        let mut i: usize = 0;
        while i < self.rows.len()
            invariant
                i <= self.rows@.len(),
                rows == row_views(self.rows@),
                forall|j: int| 0 <= j < i ==> #[trigger] rows[j].0 != kind@,
            decreases self.rows@.len() - i,
        {
            if self.rows[i].0.same(kind) {
                return Some(i);
            }
            i = i + 1;
        }
        None
    }

    /// The sources behind an event, none where nothing produces it.
    pub fn of(&self, kind: &Kind<()>) -> (r: Vec<SourceId>)
        ensures
            id_views(r@) == (if self@.contains_key(kind@) {
                self@[kind@]
            } else {
                Seq::<Seq<char>>::empty()
            }),
    {
        proof {
            use_type_invariant(self);
            lemma_mapped_names(row_views(self.rows@), kind@);
        }
        match self.find(kind) {
            Some(i) => {
                proof {
                    lemma_mapped_at(row_views(self.rows@), i as int);
                }
                copy_ids(&self.rows[i].1)
            },
            None => {
                let none: Vec<SourceId> = Vec::new();
                assert(id_views(none@) =~= Seq::<Seq<char>>::empty());
                none
            },
        }
    }

    /// Whether anything produces an event.
    pub fn contains(&self, kind: &Kind<()>) -> (r: bool)
        ensures
            r == self@.contains_key(kind@),
    {
        proof {
            use_type_invariant(self);
            lemma_mapped_names(row_views(self.rows@), kind@);
        }
        self.find(kind).is_some()
    }

    /// A source stops producing one event.
    fn drop_one(&mut self, kind: &Kind<()>, id: &SourceId)
        ensures
            final(self)@ == without_one(old(self)@, kind@, id@),
    {
        proof {
            use_type_invariant(&*self);
            lemma_mapped_names(row_views(self.rows@), kind@);
        }
        let ghost rows0 = row_views(self.rows@);
        if let Some(i) = self.find(kind) {
            proof {
                lemma_mapped_at(rows0, i as int);
            }
            let left = ids_without(&self.rows[i].1, id);
            let mut rows: Vec<(Kind<()>, Vec<SourceId>)> = Vec::new();
            std::mem::swap(&mut rows, &mut self.rows);
            if left.len() == 0 {
                rows.remove(i);
                proof {
                    assert(row_views(rows@) =~= rows0.remove(i as int));
                    lemma_mapped_remove(rows0, i as int);
                    lemma_unique_remove(rows0, i as int);
                }
            } else {
                let ghost ids = id_views(left@);
                rows.set(i, (kind.copied(), left));
                proof {
                    assert(row_views(rows@) =~= rows0.update(i as int, (kind@, ids)));
                    lemma_mapped_update(rows0, i as int, ids);
                    lemma_unique_update(rows0, i as int, ids);
                }
            }
            self.rows = rows;
        }
    }

    /// A source starts producing one event.
    fn add_one(&mut self, kind: &Kind<()>, id: &SourceId)
        ensures
            final(self)@ == with_one(old(self)@, kind@, id@),
    {
        proof {
            use_type_invariant(&*self);
            lemma_mapped_names(row_views(self.rows@), kind@);
        }
        let ghost rows0 = row_views(self.rows@);
        match self.find(kind) {
            Some(i) => {
                proof {
                    lemma_mapped_at(rows0, i as int);
                }
                if !has_id(&self.rows[i].1, id) {
                    let mut ids = copy_ids(&self.rows[i].1);
                    let ghost before = id_views(ids@);
                    ids.push(*id);
                    let ghost after = id_views(ids@);
                    let mut rows: Vec<(Kind<()>, Vec<SourceId>)> = Vec::new();
                    std::mem::swap(&mut rows, &mut self.rows);
                    rows.set(i, (kind.copied(), ids));
                    proof {
                        assert(after =~= before.push(id@));
                        assert(row_views(rows@) =~= rows0.update(i as int, (kind@, after)));
                        lemma_mapped_update(rows0, i as int, after);
                        lemma_unique_update(rows0, i as int, after);
                    }
                    self.rows = rows;
                }
            },
            None => {
                let mut rows: Vec<(Kind<()>, Vec<SourceId>)> = Vec::new();
                std::mem::swap(&mut rows, &mut self.rows);
                let ids: Vec<SourceId> = vec![*id];
                let ghost only = id_views(ids@);
                rows.push((kind.copied(), ids));
                proof {
                    assert(only =~= seq![id@]);
                    assert(row_views(rows@) =~= rows0.push((kind@, only)));
                    lemma_mapped_push(rows0, (kind@, only));
                    lemma_unique_push(rows0, (kind@, only));
                }
                self.rows = rows;
            },
        }
    }

    /// A source stops producing some events.
    pub fn drop_all(&mut self, kinds: &KindSet, id: &SourceId)
        ensures
            final(self)@ == without(old(self)@, kinds@, id@),
    {
        let n: usize = kinds.len();
        let ghost all = kinds.listed();
        let ghost start = self@;
        let mut i: usize = 0;
        proof {
            assert(all.take(0).to_set() =~= Set::<KindView<()>>::empty());
            assert(without(start, Set::<KindView<()>>::empty(), id@) =~= start);
        }
        while i < n
            invariant
                i <= n,
                n == all.len(),
                all == kinds.listed(),
                all.no_duplicates(),
                self@ == without(start, all.take(i as int).to_set(), id@),
            decreases n - i,
        {
            self.drop_one(kinds.at(i), id);
            proof {
                let done = all.take(i as int).to_set();
                let kind = all[i as int];
                assert(!done.contains(kind)) by {
                    if done.contains(kind) {
                        let j = choose|j: int| 0 <= j < i && all.take(i as int)[j] == kind;
                        assert(all[j] == kind);
                    }
                }
                crate::kindset::lemma_take_one_more(all, i as int);
                assert(without_one(without(start, done, id@), kind, id@) =~= without(
                    start,
                    done.insert(kind),
                    id@,
                ));
            }
            i = i + 1;
        }
        proof {
            assert(all.take(all.len() as int) =~= all);
        }
    }

    /// A source starts producing some events.
    pub fn add_all(&mut self, kinds: &KindSet, id: &SourceId)
        ensures
            final(self)@ == with(old(self)@, kinds@, id@),
    {
        let n: usize = kinds.len();
        let ghost all = kinds.listed();
        let ghost start = self@;
        let mut i: usize = 0;
        proof {
            assert(all.take(0).to_set() =~= Set::<KindView<()>>::empty());
            assert(with(start, Set::<KindView<()>>::empty(), id@) =~= start);
        }
        while i < n
            invariant
                i <= n,
                n == all.len(),
                all == kinds.listed(),
                all.no_duplicates(),
                self@ == with(start, all.take(i as int).to_set(), id@),
            decreases n - i,
        {
            self.add_one(kinds.at(i), id);
            proof {
                let done = all.take(i as int).to_set();
                let kind = all[i as int];
                assert(!done.contains(kind)) by {
                    if done.contains(kind) {
                        let j = choose|j: int| 0 <= j < i && all.take(i as int)[j] == kind;
                        assert(all[j] == kind);
                    }
                }
                crate::kindset::lemma_take_one_more(all, i as int);
                assert(with_one(with(start, done, id@), kind, id@) =~= with(
                    start,
                    done.insert(kind),
                    id@,
                ));
            }
            i = i + 1;
        }
        proof {
            assert(all.take(all.len() as int) =~= all);
        }
    }

    /// What a source produces has changed.
    pub fn refresh(&mut self, was: &KindSet, now: &KindSet, id: &SourceId)
        ensures
            final(self)@ == reindexed(old(self)@, was@, now@, id@),
    {
        let gone = was.difference(now);
        let come = now.difference(was);
        self.drop_all(&gone, id);
        self.add_all(&come, id);
    }
}

/// Names again.
fn copy_ids(ids: &Vec<SourceId>) -> (r: Vec<SourceId>)
    ensures
        r@ == ids@,
{
    let mut out: Vec<SourceId> = Vec::new();
    let mut i: usize = 0;
    while i < ids.len()
        invariant
            i <= ids@.len(),
            out@ == ids@.take(i as int),
        decreases ids@.len() - i,
    {
        out.push(ids[i]);
        i = i + 1;
    }
    out
}

/// Whether a name is among some.
fn has_id(ids: &Vec<SourceId>, id: &SourceId) -> (r: bool)
    ensures
        r == id_views(ids@).contains(id@),
{
    let ghost all = id_views(ids@);
    let mut i: usize = 0;
    while i < ids.len()
        invariant
            i <= ids@.len(),
            all == id_views(ids@),
            forall|j: int| 0 <= j < i ==> #[trigger] all[j] != id@,
        decreases ids@.len() - i,
    {
        if ids[i].same(id) {
            assert(all[i as int] == id@);
            return true;
        }
        i = i + 1;
    }
    false
}

/// Names without one.
fn ids_without(ids: &Vec<SourceId>, id: &SourceId) -> (r: Vec<SourceId>)
    ensures
        id_views(r@) == id_views(ids@).filter(not_named(id@)),
{
    let ghost all = id_views(ids@);
    let ghost stays = not_named(id@);
    let mut out: Vec<SourceId> = Vec::new();
    let mut i: usize = 0;
    proof {
        reveal(Seq::filter);
        assert(all.take(0).filter(stays) =~= Seq::<Seq<char>>::empty());
        assert(id_views(out@) =~= Seq::<Seq<char>>::empty());
    }
    while i < ids.len()
        invariant
            i <= ids@.len(),
            all == id_views(ids@),
            stays == not_named(id@),
            id_views(out@) == all.take(i as int).filter(stays),
        decreases ids@.len() - i,
    {
        let ghost before = out@;
        if !ids[i].same(id) {
            out.push(ids[i]);
            proof {
                assert(id_views(out@) =~= id_views(before).push(all[i as int]));
            }
        }
        proof {
            reveal(Seq::filter);
            assert(all.take(i + 1).drop_last() =~= all.take(i as int));
            assert(all.take(i + 1).last() == all[i as int]);
        }
        i = i + 1;
    }
    proof {
        assert(all.take(all.len() as int) =~= all);
    }
    out
}

/// One row fewer is still one row each.
proof fn lemma_unique_remove<K, V>(s: Seq<(K, V)>, at: int)
    requires
        unique(s),
        0 <= at < s.len(),
    ensures
        unique(s.remove(at)),
{
    let t = s.remove(at);
    assert forall|i: int, j: int| 0 <= i < j < t.len() implies #[trigger] t[i].0
        != #[trigger] t[j].0 by {
        let a = if i < at { i } else { i + 1 };
        let b = if j < at { j } else { j + 1 };
        assert(t[i] == s[a] && t[j] == s[b]);
        assert(s[a].0 != s[b].0);
    }
}

/// Another value beside the same name is still one row each.
pub proof fn lemma_unique_update<K, V>(s: Seq<(K, V)>, at: int, value: V)
    requires
        unique(s),
        0 <= at < s.len(),
    ensures
        unique(s.update(at, (s[at].0, value))),
{
    let t = s.update(at, (s[at].0, value));
    assert forall|i: int, j: int| 0 <= i < j < t.len() implies #[trigger] t[i].0
        != #[trigger] t[j].0 by {
        assert(t[i].0 == s[i].0 && t[j].0 == s[j].0);
        assert(s[i].0 != s[j].0);
    }
}

/// One new name more is still one row each.
pub proof fn lemma_unique_push<K, V>(s: Seq<(K, V)>, pair: (K, V))
    requires
        unique(s),
        !holds(s, pair.0),
    ensures
        unique(s.push(pair)),
{
    let t = s.push(pair);
    assert forall|i: int, j: int| 0 <= i < j < t.len() implies #[trigger] t[i].0
        != #[trigger] t[j].0 by {
        assert(t[i] == s[i]);
        if j < s.len() {
            assert(t[j] == s[j]);
            assert(s[i].0 != s[j].0);
        } else {
            if s[i].0 == pair.0 {
                assert(holds(s, pair.0));
            }
        }
    }
}

} // verus!
