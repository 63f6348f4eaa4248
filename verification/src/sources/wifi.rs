//! The networks joined, and which joins are news.

use crate::assoc::{
    holds, lemma_mapped_at, lemma_mapped_names, lemma_mapped_push, lemma_mapped_update, mapped,
    unique,
};
use crate::event::{Topic, WifiChange};
use crate::modules::part;
use crate::source::{described, Described, SourceId};
use crate::sources::cause::{Cause, CauseView};
use crate::sources::{describe, known};
use crate::text::same;
use vstd::prelude::*;

verus! {

/// What the keys of every interface there is match.
pub const AIRPORT_KEY_PATTERN: &'static str = "State:/Network/Interface/.*/AirPort";

/// The one field that matters of what such a key resolves to.
pub const SSID_KEY: &'static str = "SSID_STR";

/// The source of network events: what each interface was last on.
#[derive(Debug)]
pub struct Wifi {
    last: Vec<(String, Option<String>)>,
}

/// Interfaces over plain text.
spec fn pairs(last: Seq<(String, Option<String>)>) -> Seq<(Seq<char>, Option<Seq<char>>)> {
    last.map_values(|p: (String, Option<String>)| (p.0@, part(p.1)))
}

impl View for Wifi {
    type V = Map<Seq<char>, Option<Seq<char>>>;

    closed spec fn view(&self) -> Map<Seq<char>, Option<Seq<char>>> {
        mapped(pairs(self.last@))
    }
}

/// Whether what an interface is on is news.
pub open spec fn is_news(
    last: Map<Seq<char>, Option<Seq<char>>>,
    key: Seq<char>,
    ssid: Option<Seq<char>>,
) -> bool {
    !last.contains_key(key) || last[key] != ssid
}

/// What a network is reported as: one that is not known is reported as none.
pub open spec fn ssid_text(ssid: Option<Seq<char>>) -> Seq<char> {
    match ssid {
        Some(ssid) => ssid,
        None => Seq::empty(),
    }
}

/// Why registering fails, given how far it got.
pub open spec fn registration_fault(created: bool, keyed: bool, scheduled: bool) -> Option<
    CauseView,
> {
    if created && keyed && scheduled {
        None
    } else {
        Some(CauseView::DynamicStore)
    }
}

impl Wifi {
    #[verifier::type_invariant]
    spec fn inv(self) -> bool {
        unique(pairs(self.last@))
    }

    /// What this source is called, and what it produces.
    pub fn describe() -> (r: Described)
        ensures
            described(r) == known("wifi"@, seq![Topic::WifiChanged], false),
    {
        let topics = vec![Topic::WifiChanged];
        assert(topics@ =~= seq![Topic::WifiChanged]);
        describe(SourceId("wifi"), topics, false)
    }

    /// One that has seen nothing.
    pub fn new() -> (r: Wifi)
        ensures
            r@ == Map::<Seq<char>, Option<Seq<char>>>::empty(),
    {
        let r = Wifi { last: Vec::new() };
        assert(pairs(r.last@) =~= Seq::<(Seq<char>, Option<Seq<char>>)>::empty());
        r
    }

    /// Whether registering came to anything, given how far it got: a store, its
    /// keys, and a place on the run loop.
    pub fn registered(created: bool, keyed: bool, scheduled: bool) -> (r: Result<(), Cause>)
        ensures
            match r {
                Ok(_) => registration_fault(created, keyed, scheduled) is None,
                Err(cause) => registration_fault(created, keyed, scheduled) == Some(cause@),
            },
    {
        if created && keyed && scheduled {
            Ok(())
        } else {
            Err(Cause::DynamicStore)
        }
    }

    /// Where an interface is.
    fn find(&self, key: &str) -> (r: Option<usize>)
        ensures
            match r {
                Some(i) => i < self.last@.len() && pairs(self.last@)[i as int].0 == key@,
                None => !holds(pairs(self.last@), key@),
            },
    {
        let ghost all = pairs(self.last@);
        let mut i: usize = 0;
        while i < self.last.len()
            invariant
                i <= self.last@.len(),
                all == pairs(self.last@),
                forall|j: int| 0 <= j < i ==> #[trigger] all[j].0 != key@,
            decreases self.last@.len() - i,
        {
            if same(&self.last[i].0, key) {
                return Some(i);
            }
            i = i + 1;
        }
        None
    }

    /// Takes what an interface is now on, and says what is to be reported of
    /// it: only what an interface was not on already is news.
    pub fn decide(&mut self, key: &str, ssid: Option<String>) -> (r: Option<WifiChange>)
        ensures
            final(self)@ == old(self)@.insert(key@, part(ssid)),
            match r {
                Some(change) => is_news(old(self)@, key@, part(ssid)) && change.ssid@ == ssid_text(
                    part(ssid),
                ),
                None => !is_news(old(self)@, key@, part(ssid)),
            },
    {
        proof {
            use_type_invariant(&*self);
            lemma_mapped_names(pairs(self.last@), key@);
        }
        let ghost all = pairs(self.last@);
        let ghost now = part(ssid);
        match self.find(key) {
            Some(i) => {
                proof {
                    lemma_mapped_at(all, i as int);
                }
                let unchanged = match (&self.last[i].1, &ssid) {
                    (Some(a), Some(b)) => same(a, b),
                    (None, None) => true,
                    _ => false,
                };
                if unchanged {
                    proof {
                        assert(self@ =~= self@.insert(key@, now));
                    }
                    return None;
                }
                let mut last: Vec<(String, Option<String>)> = Vec::new();
                std::mem::swap(&mut last, &mut self.last);
                last.set(i, (key.to_owned(), copy_part(&ssid)));
                proof {
                    assert(pairs(last@) =~= all.update(i as int, (key@, now)));
                    lemma_mapped_update(all, i as int, now);
                }
                self.last = last;
            },
            None => {
                let mut last: Vec<(String, Option<String>)> = Vec::new();
                std::mem::swap(&mut last, &mut self.last);
                last.push((key.to_owned(), copy_part(&ssid)));
                proof {
                    assert(pairs(last@) =~= all.push((key@, now)));
                    lemma_mapped_push(all, (key@, now));
                }
                self.last = last;
            },
        }
        Some(
            WifiChange {
                ssid: match ssid {
                    Some(ssid) => ssid,
                    None => String::new(),
                },
            },
        )
    }
}

/// A text that may not be there, again.
fn copy_part(text: &Option<String>) -> (r: Option<String>)
    ensures
        part(r) == part(*text),
{
    match text {
        Some(text) => Some(text.clone()),
        None => None,
    }
}

/// What one interface is on says nothing of another, and the same thing twice
/// is news once.
pub proof fn law_interfaces_are_apart(
    last: Map<Seq<char>, Option<Seq<char>>>,
    key: Seq<char>,
    other: Seq<char>,
    ssid: Option<Seq<char>>,
    seen: Option<Seq<char>>,
)
    requires
        key != other,
    ensures
        is_news(last.insert(other, seen), key, ssid) == is_news(last, key, ssid),
        !is_news(last.insert(key, ssid), key, ssid),
{
}

} // verus!
