//! Variables by name, in the order of their names.

use crate::assoc::{
    lemma_mapped_at, lemma_mapped_insert, lemma_mapped_names, lemma_mapped_update, mapped, unique,
};
use crate::text::{chars_of, same};
use vstd::prelude::*;

verus! {

/// Whether one text comes before another: character by character, a shorter
/// text before a longer one it begins.
pub open spec fn before(a: Seq<char>, b: Seq<char>) -> bool
    decreases a.len(),
{
    if b.len() == 0 {
        false
    } else if a.len() == 0 {
        true
    } else if a[0] != b[0] {
        a[0] < b[0]
    } else {
        before(a.skip(1), b.skip(1))
    }
}

/// No text comes before itself.
pub proof fn lemma_before_irreflexive(a: Seq<char>)
    ensures
        !before(a, a),
    decreases a.len(),
{
    if a.len() > 0 {
        lemma_before_irreflexive(a.skip(1));
    }
}

/// What comes before what comes before a third comes before the third.
pub proof fn lemma_before_transitive(a: Seq<char>, b: Seq<char>, c: Seq<char>)
    requires
        before(a, b),
        before(b, c),
    ensures
        before(a, c),
    decreases a.len(),
{
    if a.len() > 0 && b.len() > 0 && c.len() > 0 && a[0] == b[0] && b[0] == c[0] {
        lemma_before_transitive(a.skip(1), b.skip(1), c.skip(1));
    }
}

/// Of two different texts, one comes before the other.
pub proof fn lemma_before_total(a: Seq<char>, b: Seq<char>)
    ensures
        before(a, b) || a == b || before(b, a),
    decreases a.len(),
{
    if a.len() == 0 || b.len() == 0 {
        if a.len() == 0 && b.len() == 0 {
            assert(a =~= b);
        }
    } else if a[0] == b[0] {
        lemma_before_total(a.skip(1), b.skip(1));
        if a.skip(1) == b.skip(1) {
            assert(a =~= seq![a[0]] + a.skip(1));
            assert(b =~= seq![b[0]] + b.skip(1));
        }
    }
}

/// Two texts that begin alike compare as what follows does.
proof fn lemma_before_past_common(a: Seq<char>, b: Seq<char>, k: int)
    requires
        0 <= k <= a.len(),
        k <= b.len(),
        a.take(k) == b.take(k),
    ensures
        before(a, b) == before(a.skip(k), b.skip(k)),
    decreases k,
{
    if k == 0 {
        assert(a.skip(0) =~= a);
        assert(b.skip(0) =~= b);
    } else {
        assert(a.take(k)[0] == b.take(k)[0]);
        assert(a[0] == a.take(k)[0] && b[0] == b.take(k)[0]);
        assert(a.skip(1).take(k - 1) =~= a.take(k).skip(1));
        assert(b.skip(1).take(k - 1) =~= b.take(k).skip(1));
        lemma_before_past_common(a.skip(1), b.skip(1), k - 1);
        assert(a.skip(1).skip(k - 1) =~= a.skip(k));
        assert(b.skip(1).skip(k - 1) =~= b.skip(k));
    }
}

/// Whether one text comes before another.
pub fn precedes(a: &str, b: &str) -> (r: bool)
    ensures
        r == before(a@, b@),
{
    let left = chars_of(a);
    let right = chars_of(b);
    let mut i: usize = 0;
    while i < left.len() && i < right.len()
        invariant
            i <= left@.len(),
            i <= right@.len(),
            left@ == a@,
            right@ == b@,
            a@.take(i as int) == b@.take(i as int),
        decreases left@.len() - i,
    {
        if left[i] != right[i] {
            proof {
                lemma_before_past_common(a@, b@, i as int);
                assert(a@.skip(i as int)[0] == left@[i as int]);
                assert(b@.skip(i as int)[0] == right@[i as int]);
            }
            return left[i] < right[i];
        }
        proof {
            assert(a@.take(i + 1) =~= a@.take(i as int).push(left@[i as int]));
            assert(b@.take(i + 1) =~= b@.take(i as int).push(right@[i as int]));
        }
        i = i + 1;
    }
    proof {
        lemma_before_past_common(a@, b@, i as int);
    }
    i == left.len() && i < right.len()
}

/// Pairs in strict order of their names, so that no name stands twice.
pub open spec fn in_order<V>(s: Seq<(Seq<char>, V)>) -> bool {
    forall|i: int, j: int| 0 <= i < j < s.len() ==> before(#[trigger] s[i].0, #[trigger] s[j].0)
}

/// What is in order without its last pair still is.
proof fn lemma_in_order_drop_last<V>(s: Seq<(Seq<char>, V)>)
    requires
        in_order(s),
        s.len() > 0,
    ensures
        in_order(s.drop_last()),
{
    let short = s.drop_last();
    assert forall|i: int, j: int| 0 <= i < j < short.len() implies before(
        #[trigger] short[i].0,
        #[trigger] short[j].0,
    ) by {
        assert(short[i] == s[i] && short[j] == s[j]);
    }
}

/// What stands in strict order stands once.
pub proof fn lemma_in_order_is_unique<V>(s: Seq<(Seq<char>, V)>)
    requires
        in_order(s),
    ensures
        unique(s),
{
    assert forall|i: int, j: int| 0 <= i < j < s.len() implies #[trigger] s[i].0
        != #[trigger] s[j].0 by {
        lemma_before_irreflexive(s[i].0);
    }
}

/// A name that stands in order maps to the value beside it.
pub proof fn lemma_ordered_at<V>(s: Seq<(Seq<char>, V)>, i: int)
    requires
        in_order(s),
        0 <= i < s.len(),
    ensures
        mapped(s).contains_key(s[i].0),
        mapped(s)[s[i].0] == s[i].1,
{
    lemma_in_order_is_unique(s);
    lemma_mapped_at(s, i);
}

/// A new value beside a name that stands in order.
pub proof fn lemma_ordered_update<V>(s: Seq<(Seq<char>, V)>, at: int, value: V)
    requires
        in_order(s),
        0 <= at < s.len(),
    ensures
        in_order(s.update(at, (s[at].0, value))),
        mapped(s.update(at, (s[at].0, value))) == mapped(s).insert(s[at].0, value),
{
    let t = s.update(at, (s[at].0, value));
    assert forall|a: int, b: int| 0 <= a < b < t.len() implies before(
        #[trigger] t[a].0,
        #[trigger] t[b].0,
    ) by {
        assert(t[a].0 == s[a].0 && t[b].0 == s[b].0);
    }
    lemma_in_order_is_unique(s);
    lemma_mapped_update(s, at, value);
}

/// A new name put in its place.
pub proof fn lemma_ordered_insert<V>(s: Seq<(Seq<char>, V)>, at: int, key: Seq<char>, value: V)
    requires
        in_order(s),
        0 <= at <= s.len(),
        forall|j: int| 0 <= j < at ==> before(#[trigger] s[j].0, key),
        at < s.len() ==> before(key, s[at].0),
    ensures
        in_order(s.insert(at, (key, value))),
        mapped(s.insert(at, (key, value))) == mapped(s).insert(key, value),
{
    let t = s.insert(at, (key, value));
    assert forall|a: int, b: int| 0 <= a < b < t.len() implies before(
        #[trigger] t[a].0,
        #[trigger] t[b].0,
    ) by {
        if a == at {
            assert(t[b] == s[b - 1]);
            if b - 1 > at {
                lemma_before_transitive(key, s[at].0, s[b - 1].0);
            }
        } else if b == at {
            assert(t[a] == s[a]);
        } else if a < at && b < at {
            assert(t[a] == s[a] && t[b] == s[b]);
        } else if a < at {
            assert(t[a] == s[a] && t[b] == s[b - 1]);
        } else {
            assert(t[a] == s[a - 1] && t[b] == s[b - 1]);
        }
    }
    lemma_before_irreflexive(key);
    assert forall|j: int| 0 <= j < s.len() implies #[trigger] s[j].0 != key by {
        if j > at {
            assert(before(s[at].0, s[j].0));
            lemma_before_transitive(key, s[at].0, s[j].0);
        }
    }
    lemma_mapped_insert(s, at, (key, value));
}

/// Variables by name. Walked in the order of the names, so that two equal sets
/// of variables are always walked alike.
#[derive(Debug, PartialEq, Eq)]
pub struct Vars {
    pairs: Vec<(String, String)>,
}

/// The text of a pair.
pub open spec fn pair_view(pair: (String, String)) -> (Seq<char>, Seq<char>) {
    (pair.0@, pair.1@)
}

impl View for Vars {
    type V = Map<Seq<char>, Seq<char>>;

    /// What each name is set to.
    open spec fn view(&self) -> Map<Seq<char>, Seq<char>> {
        mapped(self.entries())
    }
}

impl Vars {
    /// The variables as they are walked: in order of their names.
    pub closed spec fn entries(&self) -> Seq<(Seq<char>, Seq<char>)> {
        self.pairs@.map_values(|p: (String, String)| pair_view(p))
    }

    #[verifier::type_invariant]
    spec fn inv(self) -> bool {
        in_order(self.entries())
    }

    /// No variables.
    pub fn new() -> (r: Vars)
        ensures
            r@ == Map::<Seq<char>, Seq<char>>::empty(),
            r.entries() == Seq::<(Seq<char>, Seq<char>)>::empty(),
    {
        let r = Vars { pairs: Vec::new() };
        assert(r.entries() =~= Seq::<(Seq<char>, Seq<char>)>::empty());
        assert(r@ =~= Map::<Seq<char>, Seq<char>>::empty());
        r
    }

    /// How many variables there are, each of them once.
    pub fn len(&self) -> (r: usize)
        ensures
            r == self.entries().len(),
            in_order(self.entries()),
    {
        proof {
            use_type_invariant(self);
        }
        self.pairs.len()
    }

    /// The name that comes `i`th.
    pub fn name_at(&self, i: usize) -> (r: &str)
        requires
            i < self.entries().len(),
        ensures
            r@ == self.entries()[i as int].0,
    {
        self.pairs[i].0.as_str()
    }

    /// The value beside the name that comes `i`th.
    pub fn value_at(&self, i: usize) -> (r: &str)
        requires
            i < self.entries().len(),
        ensures
            r@ == self.entries()[i as int].1,
    {
        self.pairs[i].1.as_str()
    }

    /// What a name is set to, where it is set.
    pub fn get(&self, name: &str) -> (r: Option<&str>)
        ensures
            match r {
                Some(value) => self@.contains_key(name@) && self@[name@] == value@,
                None => !self@.contains_key(name@),
            },
    {
        proof {
            use_type_invariant(self);
        }
        let mut i: usize = 0;
        while i < self.pairs.len()
            invariant
                i <= self.pairs@.len(),
                in_order(self.entries()),
                forall|j: int| 0 <= j < i ==> #[trigger] self.entries()[j].0 != name@,
            decreases self.pairs@.len() - i,
        {
            if same(&self.pairs[i].0, name) {
                proof {
                    lemma_ordered_at(self.entries(), i as int);
                }
                return Some(self.pairs[i].1.as_str());
            }
            i = i + 1;
        }
        proof {
            lemma_mapped_names(self.entries(), name@);
        }
        None
    }

    /// Sets a name, whether or not it was set.
    pub fn insert(&mut self, name: String, value: String)
        ensures
            final(self)@ == old(self)@.insert(name@, value@),
    {
        proof {
            use_type_invariant(&*self);
        }
        let ghost s = self.entries();
        let mut pairs: Vec<(String, String)> = Vec::new();
        std::mem::swap(&mut pairs, &mut self.pairs);
        let mut i: usize = 0;
        while i < pairs.len() && precedes(&pairs[i].0, &name)
            invariant
                i <= pairs@.len(),
                s == pairs@.map_values(|p: (String, String)| pair_view(p)),
                in_order(s),
                forall|j: int| 0 <= j < i ==> before(#[trigger] s[j].0, name@),
            decreases pairs@.len() - i,
        {
            i = i + 1;
        }
        let ghost at = i as int;
        let ghost key = name@;
        let ghost put = value@;
        if i < pairs.len() && same(&pairs[i].0, &name) {
            pairs.set(i, (name, value));
            let ghost t = pairs@.map_values(|p: (String, String)| pair_view(p));
            proof {
                assert(t =~= s.update(at, (s[at].0, put)));
                lemma_ordered_update(s, at, put);
            }
        } else {
            proof {
                if at < s.len() {
                    lemma_before_total(s[at].0, key);
                }
            }
            pairs.insert(i, (name, value));
            let ghost t = pairs@.map_values(|p: (String, String)| pair_view(p));
            proof {
                assert(t =~= s.insert(at, (key, put)));
                lemma_ordered_insert(s, at, key, put);
            }
        }
        self.pairs = pairs;
    }

    /// Sets every name another set of variables sets, to what it sets it to.
    pub fn extend(&mut self, other: &Vars)
        ensures
            final(self)@ == old(self)@.union_prefer_right(other@),
    {
        proof {
            use_type_invariant(other);
        }
        let ghost start = self@;
        let ghost all = other.entries();
        let mut i: usize = 0;
        proof {
            assert(all.take(0) =~= Seq::<(Seq<char>, Seq<char>)>::empty());
            assert(mapped(all.take(0)) =~= Map::<Seq<char>, Seq<char>>::empty());
            assert(start.union_prefer_right(mapped(all.take(0))) =~= start);
        }
        while i < other.len()
            invariant
                i <= all.len(),
                all == other.entries(),
                in_order(all),
                self@ == start.union_prefer_right(mapped(all.take(i as int))),
            decreases all.len() - i,
        {
            self.insert(other.name_at(i).to_owned(), other.value_at(i).to_owned());
            proof {
                let pair = all[i as int];
                assert(all.take(i + 1) =~= all.take(i as int).push(pair));
                assert(all.take(i + 1).drop_last() =~= all.take(i as int));
                assert(start.union_prefer_right(mapped(all.take(i + 1)))
                    =~= start.union_prefer_right(mapped(all.take(i as int))).insert(
                    pair.0,
                    pair.1,
                ));
            }
            i = i + 1;
        }
        proof {
            assert(all.take(all.len() as int) =~= all);
        }
    }

    /// The same variables again.
    pub fn copied(&self) -> (r: Vars)
        ensures
            r@ == self@,
    {
        let mut r = Vars::new();
        r.extend(self);
        proof {
            assert(Map::<Seq<char>, Seq<char>>::empty().union_prefer_right(self@) =~= self@);
        }
        r
    }
}

impl Clone for Vars {
    fn clone(&self) -> (r: Self)
        ensures
            r@ == self@,
    {
        self.copied()
    }
}

/// Two orderly runs of pairs that map alike are the same run.
pub proof fn law_order_is_canonical<V>(
    s: Seq<(Seq<char>, V)>,
    t: Seq<(Seq<char>, V)>,
)
    requires
        in_order(s),
        in_order(t),
        mapped(s) == mapped(t),
    ensures
        s == t,
    decreases s.len(),
{
    if s.len() == 0 {
        if t.len() > 0 {
            lemma_ordered_at(t, 0);
            lemma_mapped_names(s, t[0].0);
        }
        assert(s =~= t);
    } else {
        let last = s.last();
        lemma_ordered_at(s, s.len() - 1);
        lemma_mapped_names(t, last.0);
        let j = choose|j: int| 0 <= j < t.len() && #[trigger] t[j].0 == last.0;
        lemma_ordered_at(t, j);
        if j < t.len() - 1 {
            lemma_ordered_at(t, t.len() - 1);
            lemma_mapped_names(s, t.last().0);
            let k = choose|k: int| 0 <= k < s.len() && #[trigger] s[k].0 == t.last().0;
            assert(before(t[j].0, t[t.len() - 1].0));
            if k < s.len() - 1 {
                assert(before(s[k].0, s[s.len() - 1].0));
                lemma_before_transitive(t[j].0, t[t.len() - 1].0, s[s.len() - 1].0);
            }
            lemma_before_irreflexive(last.0);
        }
        assert(s =~= s.drop_last().push(last));
        assert(t =~= t.drop_last().push(last));
        lemma_in_order_drop_last(s);
        lemma_in_order_drop_last(t);
        let a = mapped(s.drop_last());
        let b = mapped(t.drop_last());
        assert forall|k: Seq<char>| a.contains_key(k) implies k != last.0 by {
            lemma_mapped_names(s.drop_last(), k);
            let i = choose|i: int| 0 <= i < s.drop_last().len() && #[trigger] s.drop_last()[i].0 == k;
            assert(s[i].0 == k);
            assert(before(s[i].0, s[s.len() - 1].0));
            lemma_before_irreflexive(last.0);
        }
        assert forall|k: Seq<char>| b.contains_key(k) implies k != last.0 by {
            lemma_mapped_names(t.drop_last(), k);
            let i = choose|i: int| 0 <= i < t.drop_last().len() && #[trigger] t.drop_last()[i].0 == k;
            assert(t[i].0 == k);
            assert(before(t[i].0, t[t.len() - 1].0));
            lemma_before_irreflexive(last.0);
        }
        assert(a =~= a.insert(last.0, last.1).remove(last.0));
        assert(b =~= b.insert(last.0, last.1).remove(last.0));
        law_order_is_canonical(s.drop_last(), t.drop_last());
    }
}

} // verus!
