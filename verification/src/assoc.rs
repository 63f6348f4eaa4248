//! Runs of pairs as maps from what stands first to what stands beside it.

use vstd::prelude::*;

verus! {

/// Whether a pair of that key is there.
pub open spec fn holds<K, V>(s: Seq<(K, V)>, key: K) -> bool {
    exists|i: int| 0 <= i < s.len() && #[trigger] s[i].0 == key
}

/// Whether every key stands once.
pub open spec fn unique<K, V>(s: Seq<(K, V)>) -> bool {
    forall|i: int, j: int| 0 <= i < j < s.len() ==> #[trigger] s[i].0 != #[trigger] s[j].0
}

/// What a run of pairs maps each of its keys to, a later pair over an earlier
/// one.
pub open spec fn mapped<K, V>(s: Seq<(K, V)>) -> Map<K, V>
    decreases s.len(),
{
    if s.len() == 0 {
        Map::empty()
    } else {
        mapped(s.drop_last()).insert(s.last().0, s.last().1)
    }
}

/// A run of pairs maps exactly the keys that stand in it.
pub proof fn lemma_mapped_names<K, V>(s: Seq<(K, V)>, key: K)
    ensures
        mapped(s).contains_key(key) <==> holds(s, key),
    decreases s.len(),
{
    if s.len() > 0 {
        let short = s.drop_last();
        lemma_mapped_names(short, key);
        if holds(s, key) && s.last().0 != key {
            let i = choose|i: int| 0 <= i < s.len() && #[trigger] s[i].0 == key;
            assert(short[i].0 == key);
        }
        if holds(short, key) {
            let i = choose|i: int| 0 <= i < short.len() && #[trigger] short[i].0 == key;
            assert(s[i].0 == key);
        }
        if s.last().0 == key {
            assert(s[s.len() - 1].0 == key);
        }
    }
}

/// What stands once without its last pair still does.
pub proof fn lemma_unique_drop_last<K, V>(s: Seq<(K, V)>)
    requires
        unique(s),
        s.len() > 0,
    ensures
        unique(s.drop_last()),
{
    let short = s.drop_last();
    assert forall|i: int, j: int| 0 <= i < j < short.len() implies #[trigger] short[i].0
        != #[trigger] short[j].0 by {
        assert(short[i] == s[i] && short[j] == s[j]);
    }
}

/// A key that stands once maps to the value beside it.
pub proof fn lemma_mapped_at<K, V>(s: Seq<(K, V)>, i: int)
    requires
        unique(s),
        0 <= i < s.len(),
    ensures
        mapped(s).contains_key(s[i].0),
        mapped(s)[s[i].0] == s[i].1,
    decreases s.len(),
{
    if i < s.len() - 1 {
        lemma_unique_drop_last(s);
        lemma_mapped_at(s.drop_last(), i);
        assert(s[i].0 != s[s.len() - 1].0);
    }
}

/// Putting a new key anywhere among the pairs adds one entry.
pub proof fn lemma_mapped_insert<K, V>(s: Seq<(K, V)>, at: int, pair: (K, V))
    requires
        0 <= at <= s.len(),
        !holds(s, pair.0),
    ensures
        mapped(s.insert(at, pair)) == mapped(s).insert(pair.0, pair.1),
    decreases s.len(),
{
    let t = s.insert(at, pair);
    if at == s.len() {
        assert(t.drop_last() =~= s);
    } else {
        let short = s.drop_last();
        assert(t.last() == s.last());
        assert(t.drop_last() =~= short.insert(at, pair));
        if holds(short, pair.0) {
            let i = choose|i: int| 0 <= i < short.len() && #[trigger] short[i].0 == pair.0;
            assert(s[i].0 == pair.0);
        }
        assert(s[s.len() - 1].0 != pair.0);
        lemma_mapped_insert(short, at, pair);
        assert(mapped(t) =~= mapped(s).insert(pair.0, pair.1));
    }
}

/// A new key at the end adds one entry, and every key still stands once.
pub proof fn lemma_mapped_push<K, V>(s: Seq<(K, V)>, pair: (K, V))
    requires
        unique(s),
        !holds(s, pair.0),
    ensures
        unique(s.push(pair)),
        mapped(s.push(pair)) == mapped(s).insert(pair.0, pair.1),
{
    let t = s.push(pair);
    assert(t.drop_last() =~= s);
    assert forall|i: int, j: int| 0 <= i < j < t.len() implies #[trigger] t[i].0
        != #[trigger] t[j].0 by {
        assert(t[i] == s[i]);
        if j < s.len() {
            assert(t[j] == s[j]);
        }
    }
}

/// Changing the value beside a key that stands once changes one entry.
pub proof fn lemma_mapped_update<K, V>(s: Seq<(K, V)>, at: int, value: V)
    requires
        0 <= at < s.len(),
        unique(s),
    ensures
        unique(s.update(at, (s[at].0, value))),
        mapped(s.update(at, (s[at].0, value))) == mapped(s).insert(s[at].0, value),
    decreases s.len(),
{
    let key = s[at].0;
    let t = s.update(at, (key, value));
    let short = s.drop_last();
    assert forall|i: int, j: int| 0 <= i < j < t.len() implies #[trigger] t[i].0
        != #[trigger] t[j].0 by {
        assert(t[i].0 == s[i].0 && t[j].0 == s[j].0);
    }
    if at == s.len() - 1 {
        assert(t.drop_last() =~= short);
        assert(mapped(t) =~= mapped(s).insert(key, value));
    } else {
        assert(t.drop_last() =~= short.update(at, (key, value)));
        assert(t.last() == s.last());
        lemma_unique_drop_last(s);
        lemma_mapped_update(short, at, value);
        assert(s[at].0 != s[s.len() - 1].0);
        assert(mapped(t) =~= mapped(s).insert(key, value));
    }
}

/// Taking out a key that stands once takes out one entry.
pub proof fn lemma_mapped_remove<K, V>(s: Seq<(K, V)>, at: int)
    requires
        0 <= at < s.len(),
        unique(s),
    ensures
        unique(s.remove(at)),
        mapped(s.remove(at)) == mapped(s).remove(s[at].0),
    decreases s.len(),
{
    let key = s[at].0;
    let t = s.remove(at);
    let short = s.drop_last();
    assert forall|i: int, j: int| 0 <= i < j < t.len() implies #[trigger] t[i].0
        != #[trigger] t[j].0 by {
        let a = if i < at { i } else { i + 1 };
        let b = if j < at { j } else { j + 1 };
        assert(t[i] == s[a] && t[j] == s[b]);
        assert(s[a].0 != s[b].0);
    }
    if at == s.len() - 1 {
        assert(t =~= short);
        lemma_mapped_names(short, key);
        if holds(short, key) {
            let i = choose|i: int| 0 <= i < short.len() && #[trigger] short[i].0 == key;
            assert(s[i].0 == key);
            assert(s[i].0 != s[at].0);
        }
        assert(mapped(t) =~= mapped(s).remove(key));
    } else {
        assert(t.drop_last() =~= short.remove(at));
        assert(t.last() == s.last());
        lemma_unique_drop_last(s);
        lemma_mapped_remove(short, at);
        assert(s[at].0 != s[s.len() - 1].0);
        assert(mapped(t) =~= mapped(s).remove(key));
    }
}

} // verus!
