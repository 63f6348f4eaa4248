//! Sets of kinds: what a source provides, and what is wanted of it.

use crate::event::{Kind, KindView};
use vstd::prelude::*;

verus! {

/// A set of kinds.
#[derive(Debug, PartialEq, Eq)]
pub struct KindSet {
    kinds: Vec<Kind<()>>,
}

/// Kinds over plain text.
pub open spec fn kind_views(kinds: Seq<Kind<()>>) -> Seq<KindView<()>> {
    kinds.map_values(|k: Kind<()>| k@)
}

impl View for KindSet {
    type V = Set<KindView<()>>;

    open spec fn view(&self) -> Set<KindView<()>> {
        self.listed().to_set()
    }
}

impl KindSet {
    /// The kinds as they are walked.
    pub closed spec fn listed(&self) -> Seq<KindView<()>> {
        kind_views(self.kinds@)
    }

    #[verifier::type_invariant]
    spec fn inv(self) -> bool {
        self.listed().no_duplicates()
    }

    /// No kinds.
    pub fn new() -> (r: KindSet)
        ensures
            r@ == Set::<KindView<()>>::empty(),
    {
        let r = KindSet { kinds: Vec::new() };
        assert(r@ =~= Set::<KindView<()>>::empty());
        r
    }

    /// How many kinds there are, each of them once.
    pub fn len(&self) -> (r: usize)
        ensures
            r == self.listed().len(),
            self.listed().no_duplicates(),
    {
        proof {
            use_type_invariant(self);
        }
        self.kinds.len()
    }

    /// The kind that comes `i`th.
    pub fn at(&self, i: usize) -> (r: &Kind<()>)
        requires
            i < self.listed().len(),
        ensures
            r@ == self.listed()[i as int],
            self@.contains(r@),
    {
        assert(self.listed()[i as int] == self.kinds@[i as int]@);
        &self.kinds[i]
    }

    /// Whether there are no kinds.
    pub fn is_empty(&self) -> (r: bool)
        ensures
            r == (self@ == Set::<KindView<()>>::empty()),
    {
        proof {
            if self.kinds@.len() > 0 {
                assert(self@.contains(self.listed()[0]));
            } else {
                assert(self@ =~= Set::<KindView<()>>::empty());
            }
        }
        self.kinds.len() == 0
    }

    /// Whether a kind is there.
    pub fn contains(&self, kind: &Kind<()>) -> (r: bool)
        ensures
            r == self@.contains(kind@),
    {
        let mut i: usize = 0;
        while i < self.kinds.len()
            invariant
                i <= self.kinds@.len(),
                forall|j: int| 0 <= j < i ==> #[trigger] self.listed()[j] != kind@,
            decreases self.kinds@.len() - i,
        {
            if self.kinds[i].same(kind) {
                assert(self.listed()[i as int] == kind@);
                return true;
            }
            i = i + 1;
        }
        false
    }

    /// Adds a kind, whether or not it was there.
    pub fn insert(&mut self, kind: Kind<()>)
        ensures
            final(self)@ == old(self)@.insert(kind@),
    {
        proof {
            use_type_invariant(&*self);
        }
        let ghost s = self.listed();
        if self.contains(&kind) {
            proof {
                assert(self@ =~= self@.insert(kind@));
            }
            return ;
        }
        let ghost k = kind@;
        let mut kinds: Vec<Kind<()>> = Vec::new();
        std::mem::swap(&mut kinds, &mut self.kinds);
        kinds.push(kind);
        proof {
            let t = kind_views(kinds@);
            assert(t =~= s.push(k));
            assert forall|x: KindView<()>| t.to_set().contains(x) <==> s.to_set().insert(
                k,
            ).contains(x) by {
                if s.contains(x) {
                    let i = choose|i: int| 0 <= i < s.len() && s[i] == x;
                    assert(t[i] == x);
                }
                if x == k {
                    assert(t[s.len() as int] == x);
                }
                if t.contains(x) {
                    let i = choose|i: int| 0 <= i < t.len() && t[i] == x;
                    if i < s.len() {
                        assert(s[i] == x);
                    }
                }
            }
            assert(t.to_set() =~= s.to_set().insert(k));
            assert forall|i: int, j: int|
                0 <= i < t.len() && 0 <= j < t.len() && i != j implies t[i] != t[j] by {
                if i < s.len() && j < s.len() {
                    assert(s[i] != s[j]);
                } else if i < s.len() {
                    assert(s.to_set().contains(s[i]));
                } else {
                    assert(s.to_set().contains(s[j]));
                }
            }
        }
        self.kinds = kinds;
    }

    /// The set of some kinds.
    pub fn of(kinds: &Vec<Kind<()>>) -> (r: KindSet)
        ensures
            r@ == kind_views(kinds@).to_set(),
    {
        let ghost all = kind_views(kinds@);
        let mut out = KindSet::new();
        let mut i: usize = 0;
        proof {
            assert(all.take(0).to_set() =~= Set::<KindView<()>>::empty());
        }
        while i < kinds.len()
            invariant
                i <= kinds@.len(),
                all == kind_views(kinds@),
                out@ == all.take(i as int).to_set(),
            decreases kinds@.len() - i,
        {
            out.insert(kinds[i].copied());
            proof {
                lemma_take_one_more(all, i as int);
            }
            i = i + 1;
        }
        proof {
            assert(all.take(all.len() as int) =~= all);
        }
        out
    }

    /// The kinds in both sets.
    pub fn intersection(&self, other: &KindSet) -> (r: KindSet)
        ensures
            r@ == self@.intersect(other@),
    {
        let ghost all = self.listed();
        let mut out = KindSet::new();
        let mut i: usize = 0;
        proof {
            assert(all.take(0).to_set().intersect(other@) =~= Set::<KindView<()>>::empty());
        }
        while i < self.kinds.len()
            invariant
                i <= self.kinds@.len(),
                all == self.listed(),
                all == kind_views(self.kinds@),
                out@ == all.take(i as int).to_set().intersect(other@),
            decreases self.kinds@.len() - i,
        {
            proof {
                lemma_take_one_more(all, i as int);
            }
            let ghost before = out@;
            if other.contains(&self.kinds[i]) {
                out.insert(self.kinds[i].copied());
            }
            proof {
                assert(out@ =~= all.take(i + 1).to_set().intersect(other@));
            }
            i = i + 1;
        }
        proof {
            assert(all.take(all.len() as int) =~= all);
        }
        out
    }

    /// The kinds of this set that are not in the other.
    pub fn difference(&self, other: &KindSet) -> (r: KindSet)
        ensures
            r@ == self@.difference(other@),
    {
        let ghost all = self.listed();
        let mut out = KindSet::new();
        let mut i: usize = 0;
        proof {
            assert(all.take(0).to_set().difference(other@) =~= Set::<KindView<()>>::empty());
        }
        while i < self.kinds.len()
            invariant
                i <= self.kinds@.len(),
                all == self.listed(),
                all == kind_views(self.kinds@),
                out@ == all.take(i as int).to_set().difference(other@),
            decreases self.kinds@.len() - i,
        {
            proof {
                lemma_take_one_more(all, i as int);
            }
            let ghost before = out@;
            if !other.contains(&self.kinds[i]) {
                out.insert(self.kinds[i].copied());
            }
            proof {
                assert(out@ =~= all.take(i + 1).to_set().difference(other@));
            }
            i = i + 1;
        }
        proof {
            assert(all.take(all.len() as int) =~= all);
        }
        out
    }

    /// Whether two sets hold the same kinds.
    pub fn same(&self, other: &KindSet) -> (r: bool)
        ensures
            r == (self@ == other@),
    {
        let left = self.difference(other);
        let right = other.difference(self);
        let r = left.is_empty() && right.is_empty();
        proof {
            if r {
                assert forall|k: KindView<()>| self@.contains(k) <==> other@.contains(k) by {
                    if self@.contains(k) && !other@.contains(k) {
                        assert(left@.contains(k));
                    }
                    if other@.contains(k) && !self@.contains(k) {
                        assert(right@.contains(k));
                    }
                }
                assert(self@ =~= other@);
            } else {
                if self@ == other@ {
                    assert(left@ =~= Set::<KindView<()>>::empty());
                    assert(right@ =~= Set::<KindView<()>>::empty());
                }
            }
        }
        r
    }

    /// The same set again.
    pub fn copied(&self) -> (r: KindSet)
        ensures
            r@ == self@,
    {
        let none = KindSet::new();
        proof {
            assert(self@.difference(none@) =~= self@);
        }
        self.difference(&none)
    }
}

/// One more kind taken is one more kind in the set.
pub proof fn lemma_take_one_more(all: Seq<KindView<()>>, i: int)
    requires
        0 <= i < all.len(),
    ensures
        all.take(i + 1).to_set() == all.take(i).to_set().insert(all[i]),
{
    let t = all.take(i + 1);
    let s = all.take(i);
    assert(t =~= s.push(all[i]));
    assert forall|x: KindView<()>| t.to_set().contains(x) <==> s.to_set().insert(
        all[i],
    ).contains(x) by {
        if s.contains(x) {
            let k = choose|k: int| 0 <= k < s.len() && s[k] == x;
            assert(t[k] == x);
        }
        if x == all[i] {
            assert(t[i] == x);
        }
        if t.contains(x) {
            let k = choose|k: int| 0 <= k < t.len() && t[k] == x;
            if k < i {
                assert(s[k] == x);
            }
        }
    }
    assert(t.to_set() =~= s.to_set().insert(all[i]));
}

} // verus!
