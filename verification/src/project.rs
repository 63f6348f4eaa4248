//! A value's fields, flattened into the one environment a shell can read.
//!
//! A shell has no nesting, so a nested value projects its own fields up to the
//! top level under their own names. For a value that is one of several
//! variants that means the names of every variant, always present, and empty
//! where the variant at hand has no such field.

use crate::text::{same, uppercase, uppered};
use crate::assoc::{holds, lemma_mapped_names, mapped};
use crate::vars::Vars;
use vstd::prelude::*;

verus! {

/// Names beside values.
pub open spec fn pair_views(pairs: Seq<(String, String)>) -> Seq<(Seq<char>, Seq<char>)> {
    pairs.map_values(|p: (String, String)| (p.0@, p.1@))
}

/// One name a value contributes, and what a nested value contributes besides.
#[derive(Debug, PartialEq, Eq)]
pub struct Entry {
    /// The name a script reads, in lower case.
    pub name: String,
    /// What it reads under it.
    pub value: String,
    /// What the field projects up, for a nested value.
    pub nested: Vec<(String, String)>,
}

/// [`Entry`] over plain text.
pub struct EntryView {
    pub name: Seq<char>,
    pub value: Seq<char>,
    pub nested: Seq<(Seq<char>, Seq<char>)>,
}

impl View for Entry {
    type V = EntryView;

    open spec fn view(&self) -> EntryView {
        EntryView { name: self.name@, value: self.value@, nested: pair_views(self.nested@) }
    }
}

/// Several entries over plain text.
pub open spec fn entry_views(entries: Seq<Entry>) -> Seq<EntryView> {
    entries.map_values(|e: Entry| e@)
}

/// Every variant's entries over plain text.
pub open spec fn variant_views(variants: Seq<Vec<Entry>>) -> Seq<Seq<EntryView>> {
    variants.map_values(|v: Vec<Entry>| entry_views(v@))
}

/// What one entry sets: its own name, and then what it projects up.
pub open spec fn entry_pairs(entry: EntryView) -> Seq<(Seq<char>, Seq<char>)> {
    seq![(entry.name, entry.value)] + entry.nested
}

/// The same names with nothing in them.
pub open spec fn blank_pairs(entry: EntryView) -> Seq<(Seq<char>, Seq<char>)> {
    seq![(entry.name, Seq::<char>::empty())] + entry.nested.map_values(
        |p: (Seq<char>, Seq<char>)| (p.0, Seq::<char>::empty()),
    )
}

/// What several entries set, in turn.
pub open spec fn all_pairs(entries: Seq<EntryView>) -> Seq<(Seq<char>, Seq<char>)>
    decreases entries.len(),
{
    if entries.len() == 0 {
        Seq::empty()
    } else {
        all_pairs(entries.drop_last()) + entry_pairs(entries.last())
    }
}

/// What several entries leave blank, in turn.
pub open spec fn all_blanks(entries: Seq<EntryView>) -> Seq<(Seq<char>, Seq<char>)>
    decreases entries.len(),
{
    if entries.len() == 0 {
        Seq::empty()
    } else {
        all_blanks(entries.drop_last()) + blank_pairs(entries.last())
    }
}

/// Whether an entry of that name is there.
pub open spec fn named_in(entries: Seq<EntryView>, name: Seq<char>) -> bool {
    exists|i: int| 0 <= i < entries.len() && #[trigger] entries[i].name == name
}

/// The entries of several, each name's first.
pub open spec fn first_of_each(seen: Seq<EntryView>, entries: Seq<EntryView>) -> Seq<EntryView>
    decreases entries.len(),
{
    if entries.len() == 0 {
        seen
    } else if named_in(seen, entries[0].name) {
        first_of_each(seen, entries.skip(1))
    } else {
        first_of_each(seen.push(entries[0]), entries.skip(1))
    }
}

/// Every entry of every variant, variant by variant.
pub open spec fn flattened(variants: Seq<Seq<EntryView>>) -> Seq<EntryView>
    decreases variants.len(),
{
    if variants.len() == 0 {
        Seq::empty()
    } else {
        flattened(variants.drop_last()) + variants.last()
    }
}

/// Every name of every variant, once.
pub open spec fn union(variants: Seq<Seq<EntryView>>) -> Seq<EntryView> {
    first_of_each(Seq::empty(), flattened(variants))
}

/// What a value that is one of several variants sets: every variant's names,
/// blank, and then the ones the variant at hand has.
pub open spec fn variant_pairs(
    variants: Seq<Seq<EntryView>>,
    active: Seq<EntryView>,
) -> Seq<(Seq<char>, Seq<char>)> {
    all_blanks(union(variants)) + all_pairs(active)
}

/// Names in upper case beside the same values.
pub open spec fn upper_pairs(pairs: Seq<(Seq<char>, Seq<char>)>) -> Seq<(Seq<char>, Seq<char>)> {
    pairs.map_values(|p: (Seq<char>, Seq<char>)| (uppered(p.0), p.1))
}

/// Appends one pair.
fn put(out: &mut Vec<(String, String)>, name: &str, value: &str)
    ensures
        pair_views(final(out)@) == pair_views(old(out)@).push((name@, value@)),
{
    let ghost before = out@;
    out.push((name.to_owned(), value.to_owned()));
    proof {
        assert(pair_views(out@) =~= pair_views(before).push((name@, value@)));
    }
}

/// What the entries of a value with one shape set.
pub fn struct_pairs(entries: &Vec<Entry>) -> (r: Vec<(String, String)>)
    ensures
        pair_views(r@) == all_pairs(entry_views(entries@)),
{
    let ghost views = entry_views(entries@);
    let mut out: Vec<(String, String)> = Vec::new();
    let mut i: usize = 0;
    proof {
        assert(pair_views(out@) =~= all_pairs(views.take(0)));
    }
    while i < entries.len()
        invariant
            i <= entries@.len(),
            views == entry_views(entries@),
            pair_views(out@) == all_pairs(views.take(i as int)),
        decreases entries@.len() - i,
    {
        let entry = &entries[i];
        let ghost done = pair_views(out@);
        put(&mut out, &entry.name, &entry.value);
        let mut j: usize = 0;
        let ghost nested = entry@.nested;
        proof {
            assert(done.push((entry@.name, entry@.value)) =~= done + (seq![
                (entry@.name, entry@.value),
            ] + nested.take(0)));
        }
        while j < entry.nested.len()
            invariant
                j <= entry.nested@.len(),
                nested == pair_views(entry.nested@),
                nested == entry@.nested,
                pair_views(out@) == done + (seq![(entry@.name, entry@.value)] + nested.take(
                    j as int,
                )),
            decreases entry.nested@.len() - j,
        {
            let ghost was = pair_views(out@);
            put(&mut out, &entry.nested[j].0, &entry.nested[j].1);
            proof {
                assert(nested[j as int] == (entry.nested@[j as int].0@, entry.nested@[j as int].1@));
                assert(was.push(nested[j as int]) =~= done + (seq![
                    (entry@.name, entry@.value),
                ] + nested.take(j + 1)));
            }
            j = j + 1;
        }
        proof {
            assert(nested.take(nested.len() as int) =~= nested);
            assert(views.take(i + 1).drop_last() =~= views.take(i as int));
            assert(views.take(i + 1).last() == entry@);
        }
        i = i + 1;
    }
    proof {
        assert(views.take(views.len() as int) =~= views);
    }
    out
}

/// Whether an entry of that name is among the first of each.
fn seen_before(kept: &Vec<usize>, entries: &Vec<&Entry>, name: &str) -> (r: bool)
    requires
        forall|k: int| 0 <= k < kept@.len() ==> (#[trigger] kept@[k]) < entries@.len(),
    ensures
        r == named_in(picked(kept@, entries@), name@),
{
    let mut k: usize = 0;
    while k < kept.len()
        invariant
            k <= kept@.len(),
            forall|m: int| 0 <= m < kept@.len() ==> (#[trigger] kept@[m]) < entries@.len(),
            forall|m: int| 0 <= m < k ==> #[trigger] picked(kept@, entries@)[m].name != name@,
        decreases kept@.len() - k,
    {
        let at: usize = kept[k];
        if same(&entries[at].name, name) {
            assert(picked(kept@, entries@)[k as int].name == name@);
            return true;
        }
        k = k + 1;
    }
    false
}

/// The entries at some indices.
spec fn picked(kept: Seq<usize>, entries: Seq<&Entry>) -> Seq<EntryView> {
    kept.map_values(|at: usize| entries[at as int]@)
}

/// What the names of every variant leave blank.
fn union_blanks(variants: &Vec<Vec<Entry>>) -> (r: Vec<(String, String)>)
    ensures
        pair_views(r@) == all_blanks(union(variant_views(variants@))),
{
    let ghost views = variant_views(variants@);
    // Every entry, variant by variant.
    let mut entries: Vec<&Entry> = Vec::new();
    let ghost listed = |s: Seq<&Entry>| s.map_values(|e: &Entry| e@);
    let mut i: usize = 0;
    proof {
        assert(listed(entries@) =~= flattened(views.take(0)));
    }
    while i < variants.len()
        invariant
            i <= variants@.len(),
            views == variant_views(variants@),
            listed == (|s: Seq<&Entry>| s.map_values(|e: &Entry| e@)),
            listed(entries@) == flattened(views.take(i as int)),
        decreases variants@.len() - i,
    {
        let ghost done = listed(entries@);
        let ghost these = entry_views(variants@[i as int]@);
        let mut j: usize = 0;
        proof {
            assert(done =~= done + these.take(0));
        }
        while j < variants[i].len()
            invariant
                i < variants@.len(),
                j <= variants@[i as int]@.len(),
                these == entry_views(variants@[i as int]@),
                listed == (|s: Seq<&Entry>| s.map_values(|e: &Entry| e@)),
                listed(entries@) == done + these.take(j as int),
            decreases variants@[i as int]@.len() - j,
        {
            let ghost was = entries@;
            entries.push(&variants[i][j]);
            proof {
                assert(listed(entries@) =~= listed(was).push(these[j as int]));
                assert(done + these.take(j + 1) =~= (done + these.take(j as int)).push(
                    these[j as int],
                ));
            }
            j = j + 1;
        }
        proof {
            assert(these.take(these.len() as int) =~= these);
            assert(views.take(i + 1).drop_last() =~= views.take(i as int));
            assert(views.take(i + 1).last() == these);
        }
        i = i + 1;
    }
    proof {
        assert(views.take(views.len() as int) =~= views);
    }
    let ghost all = listed(entries@);
    // The first of each name.
    let mut kept: Vec<usize> = Vec::new();
    let mut at: usize = 0;
    proof {
        assert(picked(kept@, entries@) =~= Seq::<EntryView>::empty());
        assert(all.skip(0) =~= all);
    }
    while at < entries.len()
        invariant
            at <= entries@.len(),
            all.len() == entries@.len(),
            forall|k: int| 0 <= k < all.len() ==> #[trigger] all[k] == entries@[k]@,
            forall|k: int| 0 <= k < kept@.len() ==> (#[trigger] kept@[k]) < entries@.len(),
            first_of_each(picked(kept@, entries@), all.skip(at as int)) == first_of_each(
                Seq::empty(),
                all,
            ),
        decreases entries@.len() - at,
    {
        let known = seen_before(&kept, &entries, &entries[at].name);
        proof {
            assert(all.skip(at as int)[0] == all[at as int]);
            assert(all.skip(at as int).skip(1) =~= all.skip(at + 1));
        }
        if !known {
            let ghost was = kept@;
            kept.push(at);
            proof {
                assert(picked(kept@, entries@) =~= picked(was, entries@).push(all[at as int]));
            }
        }
        at = at + 1;
    }
    let ghost once = picked(kept@, entries@);
    proof {
        assert(all.skip(at as int) =~= Seq::<EntryView>::empty());
        assert(once == union(views));
    }
    // Each of them, blank.
    let mut out: Vec<(String, String)> = Vec::new();
    let mut k: usize = 0;
    proof {
        assert(pair_views(out@) =~= all_blanks(once.take(0)));
    }
    while k < kept.len()
        invariant
            k <= kept@.len(),
            once == picked(kept@, entries@),
            forall|m: int| 0 <= m < kept@.len() ==> (#[trigger] kept@[m]) < entries@.len(),
            pair_views(out@) == all_blanks(once.take(k as int)),
        decreases kept@.len() - k,
    {
        let index: usize = kept[k];
        let entry: &Entry = entries[index];
        let ghost done = pair_views(out@);
        let ghost empty = Seq::<char>::empty();
        let ghost nested = entry@.nested;
        let ghost hollow = nested.map_values(|p: (Seq<char>, Seq<char>)| (p.0, empty));
        proof {
            reveal_strlit("");
            assert(""@ =~= empty);
        }
        put(&mut out, &entry.name, "");
        let mut j: usize = 0;
        proof {
            assert(done.push((entry@.name, empty)) =~= done + (seq![(entry@.name, empty)]
                + hollow.take(0)));
        }
        while j < entry.nested.len()
            invariant
                j <= entry.nested@.len(),
                nested == pair_views(entry.nested@),
                nested == entry@.nested,
                empty == Seq::<char>::empty(),
                ""@ == empty,
                hollow == nested.map_values(|p: (Seq<char>, Seq<char>)| (p.0, empty)),
                pair_views(out@) == done + (seq![(entry@.name, empty)] + hollow.take(j as int)),
            decreases entry.nested@.len() - j,
        {
            let ghost was = pair_views(out@);
            put(&mut out, &entry.nested[j].0, "");
            proof {
                assert(nested[j as int].0 == entry.nested@[j as int].0@);
                assert(was.push(hollow[j as int]) =~= done + (seq![(entry@.name, empty)]
                    + hollow.take(j + 1)));
            }
            j = j + 1;
        }
        proof {
            assert(hollow.take(hollow.len() as int) =~= hollow);
            assert(once.take(k + 1).drop_last() =~= once.take(k as int));
            assert(once.take(k + 1).last() == entry@);
            assert(hollow =~= entry@.nested.map_values(
                |p: (Seq<char>, Seq<char>)| (p.0, Seq::<char>::empty()),
            ));
        }
        k = k + 1;
    }
    proof {
        assert(once.take(once.len() as int) =~= once);
    }
    out
}

/// What a value that is one of several variants sets.
pub fn enum_pairs(variants: &Vec<Vec<Entry>>, active: &Vec<Entry>) -> (r: Vec<(String, String)>)
    ensures
        pair_views(r@) == variant_pairs(variant_views(variants@), entry_views(active@)),
{
    let mut out = union_blanks(variants);
    let mut held = struct_pairs(active);
    let ghost a = out@;
    let ghost b = held@;
    out.append(&mut held);
    proof {
        assert(pair_views(out@) =~= pair_views(a) + pair_views(b));
    }
    out
}

/// A value's fields as a script sees them.
pub trait EnvFields {
    /// What the value sets, in turn: a later pair over an earlier one.
    spec fn sets(&self) -> Seq<(Seq<char>, Seq<char>)>;

    /// What the value sets, in turn.
    fn pairs(&self) -> (r: Vec<(String, String)>)
        ensures
            pair_views(r@) == self.sets(),
    ;

    /// The fields under the names they have.
    fn fields(&self) -> (r: Vars)
        ensures
            r@ == mapped(self.sets()),
    {
        collected(&self.pairs(), false)
    }

    /// The fields under the names a script's environment uses.
    fn env_fields(&self) -> (r: Vars)
        ensures
            r@ == mapped(upper_pairs(self.sets())),
    {
        collected(&self.pairs(), true)
    }
}

/// Pairs gathered by name, in upper case where asked.
pub fn collected(pairs: &Vec<(String, String)>, upper: bool) -> (r: Vars)
    ensures
        r@ == mapped(
            if upper {
                upper_pairs(pair_views(pairs@))
            } else {
                pair_views(pairs@)
            },
        ),
{
    let ghost views = if upper {
        upper_pairs(pair_views(pairs@))
    } else {
        pair_views(pairs@)
    };
    let mut out = Vars::new();
    let mut i: usize = 0;
    proof {
        assert(views.take(0) =~= Seq::<(Seq<char>, Seq<char>)>::empty());
    }
    while i < pairs.len()
        invariant
            i <= pairs@.len(),
            views == (if upper {
                upper_pairs(pair_views(pairs@))
            } else {
                pair_views(pairs@)
            }),
            out@ == mapped(views.take(i as int)),
        decreases pairs@.len() - i,
    {
        let name = if upper {
            uppercase(&pairs[i].0)
        } else {
            pairs[i].0.clone()
        };
        proof {
            assert(pair_views(pairs@)[i as int] == (pairs@[i as int].0@, pairs@[i as int].1@));
            assert(views[i as int] == (name@, pairs@[i as int].1@));
            assert(views.take(i + 1).drop_last() =~= views.take(i as int));
            assert(views.take(i + 1).last() == views[i as int]);
        }
        out.insert(name, pairs[i].1.clone());
        i = i + 1;
    }
    proof {
        assert(views.take(views.len() as int) =~= views);
    }
    out
}

// ---------------------------------------------------------------------------
// What a projection always keeps

/// Of two runs of pairs, the second sets what both set.
pub proof fn lemma_mapped_concat(
    a: Seq<(Seq<char>, Seq<char>)>,
    b: Seq<(Seq<char>, Seq<char>)>,
    name: Seq<char>,
)
    ensures
        mapped(a + b).contains_key(name) <==> mapped(a).contains_key(name)
            || mapped(b).contains_key(name),
        mapped(b).contains_key(name) ==> mapped(a + b)[name] == mapped(b)[name],
        !mapped(b).contains_key(name) && mapped(a).contains_key(name) ==> mapped(a + b)[name]
            == mapped(a)[name],
    decreases b.len(),
{
    if b.len() == 0 {
        assert(a + b =~= a);
    } else {
        lemma_mapped_concat(a, b.drop_last(), name);
        assert((a + b).drop_last() =~= a + b.drop_last());
        assert((a + b).last() == b.last());
    }
}

/// Whatever was seen, and whatever comes, keeps its name.
proof fn lemma_first_of_each_keeps(
    seen: Seq<EntryView>,
    entries: Seq<EntryView>,
    name: Seq<char>,
)
    requires
        named_in(seen, name) || named_in(entries, name),
    ensures
        named_in(first_of_each(seen, entries), name),
    decreases entries.len(),
{
    if entries.len() > 0 {
        let rest = entries.skip(1);
        if named_in(entries, name) && entries[0].name != name {
            let i = choose|i: int| 0 <= i < entries.len() && #[trigger] entries[i].name == name;
            assert(rest[i - 1].name == name);
        }
        if named_in(seen, entries[0].name) {
            lemma_first_of_each_keeps(seen, rest, name);
        } else {
            let more = seen.push(entries[0]);
            if named_in(seen, name) {
                let i = choose|i: int| 0 <= i < seen.len() && #[trigger] seen[i].name == name;
                assert(more[i].name == name);
            }
            if entries[0].name == name {
                assert(more[seen.len() as int].name == name);
            }
            lemma_first_of_each_keeps(more, rest, name);
        }
    }
}

/// Flattening keeps every entry.
proof fn lemma_flattened_keeps(variants: Seq<Seq<EntryView>>, v: int, i: int)
    requires
        0 <= v < variants.len(),
        0 <= i < variants[v].len(),
    ensures
        named_in(flattened(variants), variants[v][i].name),
    decreases variants.len(),
{
    let name = variants[v][i].name;
    let short = variants.drop_last();
    let all = flattened(variants);
    if v < short.len() {
        lemma_flattened_keeps(short, v, i);
        let k = choose|k: int|
            0 <= k < flattened(short).len() && #[trigger] flattened(short)[k].name == name;
        assert(all[k].name == name);
    } else {
        assert(all[flattened(short).len() + i].name == name);
    }
}

/// Every entry's name is among its blanks, and every blank is blank.
proof fn lemma_blanks(entries: Seq<EntryView>, name: Seq<char>)
    ensures
        named_in(entries, name) ==> mapped(all_blanks(entries)).contains_key(name),
        mapped(all_blanks(entries)).contains_key(name) ==> mapped(all_blanks(entries))[name]
            == Seq::<char>::empty(),
    decreases entries.len(),
{
    if entries.len() > 0 {
        let short = entries.drop_last();
        let last = entries.last();
        lemma_blanks(short, name);
        lemma_mapped_concat(all_blanks(short), blank_pairs(last), name);
        lemma_all_blank(blank_pairs(last), name);
        lemma_mapped_names(blank_pairs(last), last.name);
        assert(blank_pairs(last)[0].0 == last.name);
        assert(holds(blank_pairs(last), last.name));
        if named_in(entries, name) && last.name != name {
            let i = choose|i: int| 0 <= i < entries.len() && #[trigger] entries[i].name == name;
            assert(short[i].name == name);
        }
    }
}

/// Pairs that are all blank map to nothing but blanks.
proof fn lemma_all_blank(pairs: Seq<(Seq<char>, Seq<char>)>, name: Seq<char>)
    requires
        forall|i: int| 0 <= i < pairs.len() ==> (#[trigger] pairs[i]).1 == Seq::<char>::empty(),
    ensures
        mapped(pairs).contains_key(name) ==> mapped(pairs)[name] == Seq::<char>::empty(),
    decreases pairs.len(),
{
    if pairs.len() > 0 {
        lemma_all_blank(pairs.drop_last(), name);
    }
}

/// Every name of every variant is set, whichever variant is at hand.
pub proof fn law_every_name_is_set(
    variants: Seq<Seq<EntryView>>,
    active: Seq<EntryView>,
    v: int,
    i: int,
)
    requires
        0 <= v < variants.len(),
        0 <= i < variants[v].len(),
    ensures
        mapped(variant_pairs(variants, active)).contains_key(variants[v][i].name),
{
    let name = variants[v][i].name;
    lemma_flattened_keeps(variants, v, i);
    lemma_first_of_each_keeps(Seq::empty(), flattened(variants), name);
    lemma_blanks(union(variants), name);
    lemma_mapped_concat(all_blanks(union(variants)), all_pairs(active), name);
}

/// What the variant at hand sets is what is read, and what it does not set is
/// empty rather than absent.
pub proof fn law_active_variant_wins(
    variants: Seq<Seq<EntryView>>,
    active: Seq<EntryView>,
    name: Seq<char>,
)
    requires
        mapped(variant_pairs(variants, active)).contains_key(name),
    ensures
        mapped(variant_pairs(variants, active))[name] == if mapped(all_pairs(active)).contains_key(
            name,
        ) {
            mapped(all_pairs(active))[name]
        } else {
            Seq::<char>::empty()
        },
{
    lemma_blanks(union(variants), name);
    lemma_mapped_concat(all_blanks(union(variants)), all_pairs(active), name);
}

/// Whether what a value holds is of a variant's shape: the same names in the
/// same order, each projecting up the same names.
pub open spec fn is_of(active: Seq<EntryView>, shape: Seq<EntryView>) -> bool {
    active.len() == shape.len() && forall|i: int|
        0 <= i < active.len() ==> (#[trigger] active[i]).name == shape[i].name && mapped(
            active[i].nested,
        ).dom() == mapped(shape[i].nested).dom()
}

/// Whether an entry of a variant projects a name up.
pub open spec fn projects(
    variants: Seq<Seq<EntryView>>,
    v: int,
    i: int,
    name: Seq<char>,
) -> bool {
    0 <= v < variants.len() && 0 <= i < variants[v].len() && mapped(
        variants[v][i].nested,
    ).contains_key(name)
}

/// Whether every name that is projected up is left blank for every variant.
pub open spec fn all_projected(variants: Seq<Seq<EntryView>>) -> bool {
    forall|v: int, i: int, name: Seq<char>| #[trigger]
        projects(variants, v, i, name) ==> mapped(all_blanks(union(variants))).contains_key(name)
}

/// What several entries set, one of them sets: it is called that, or projects it
/// up.
proof fn lemma_all_pairs_from(entries: Seq<EntryView>, name: Seq<char>)
    requires
        mapped(all_pairs(entries)).contains_key(name),
    ensures
        exists|i: int|
            0 <= i < entries.len() && ((#[trigger] entries[i]).name == name || mapped(
                entries[i].nested,
            ).contains_key(name)),
    decreases entries.len(),
{
    if entries.len() == 0 {
        assert(false);
    }
    let short = entries.drop_last();
    let last = entries.last();
    lemma_mapped_concat(all_pairs(short), entry_pairs(last), name);
    if mapped(all_pairs(short)).contains_key(name) {
        lemma_all_pairs_from(short, name);
        let i = choose|i: int|
            0 <= i < short.len() && ((#[trigger] short[i]).name == name || mapped(
                short[i].nested,
            ).contains_key(name));
        assert(entries[i] == short[i]);
    } else {
        let own = seq![(last.name, last.value)];
        lemma_mapped_concat(own, last.nested, name);
        if mapped(own).contains_key(name) {
            lemma_mapped_names(own, name);
            let k = choose|k: int| 0 <= k < own.len() && #[trigger] own[k].0 == name;
            assert(own[k].0 == last.name);
        }
        assert(entries[entries.len() - 1] == last);
    }
}

/// Whatever variant a value is, it sets the names that are left blank, and no
/// others.
proof fn lemma_names_set(variants: Seq<Seq<EntryView>>, active: Seq<EntryView>, v: int)
    requires
        all_projected(variants),
        0 <= v < variants.len(),
        is_of(active, variants[v]),
    ensures
        mapped(variant_pairs(variants, active)).dom() == mapped(all_blanks(union(variants))).dom(),
{
    let blanks = all_blanks(union(variants));
    assert forall|name: Seq<char>|
        mapped(variant_pairs(variants, active)).dom().contains(name) <==> mapped(
            blanks,
        ).dom().contains(name) by {
        lemma_mapped_concat(blanks, all_pairs(active), name);
        if mapped(all_pairs(active)).contains_key(name) {
            lemma_all_pairs_from(active, name);
            let i = choose|i: int|
                0 <= i < active.len() && ((#[trigger] active[i]).name == name || mapped(
                    active[i].nested,
                ).contains_key(name));
            if active[i].name == name {
                lemma_flattened_keeps(variants, v, i);
                lemma_first_of_each_keeps(Seq::empty(), flattened(variants), name);
                lemma_blanks(union(variants), name);
            } else {
                assert(mapped(variants[v][i].nested).dom().contains(name));
                assert(projects(variants, v, i, name));
            }
        }
    }
    assert(mapped(variant_pairs(variants, active)).dom() =~= mapped(blanks).dom());
}

/// The names in upper case are those of the names.
proof fn lemma_upper_names(pairs: Seq<(Seq<char>, Seq<char>)>, upper: Seq<char>)
    ensures
        mapped(upper_pairs(pairs)).contains_key(upper) <==> exists|name: Seq<char>| #[trigger]
            mapped(pairs).contains_key(name) && uppered(name) == upper,
{
    let raised = upper_pairs(pairs);
    lemma_mapped_names(raised, upper);
    if holds(raised, upper) {
        let i = choose|i: int| 0 <= i < raised.len() && #[trigger] raised[i].0 == upper;
        lemma_mapped_names(pairs, pairs[i].0);
        assert(holds(pairs, pairs[i].0));
        assert(mapped(pairs).contains_key(pairs[i].0) && uppered(pairs[i].0) == upper);
    }
    if exists|name: Seq<char>| #[trigger] mapped(pairs).contains_key(name) && uppered(name) == upper {
        let name = choose|name: Seq<char>| #[trigger]
            mapped(pairs).contains_key(name) && uppered(name) == upper;
        lemma_mapped_names(pairs, name);
        let i = choose|i: int| 0 <= i < pairs.len() && #[trigger] pairs[i].0 == name;
        assert(raised[i].0 == upper);
    }
}

/// Any two values set the same names, whichever variants they are, those that
/// nested values project up among them, and in upper case as well.
pub proof fn law_every_value_sets_the_same_names(
    variants: Seq<Seq<EntryView>>,
    a: Seq<EntryView>,
    v: int,
    b: Seq<EntryView>,
    w: int,
)
    requires
        all_projected(variants),
        0 <= v < variants.len(),
        0 <= w < variants.len(),
        is_of(a, variants[v]),
        is_of(b, variants[w]),
    ensures
        mapped(variant_pairs(variants, a)).dom() == mapped(variant_pairs(variants, b)).dom(),
        mapped(upper_pairs(variant_pairs(variants, a))).dom() == mapped(
            upper_pairs(variant_pairs(variants, b)),
        ).dom(),
{
    lemma_names_set(variants, a, v);
    lemma_names_set(variants, b, w);
    let p = variant_pairs(variants, a);
    let q = variant_pairs(variants, b);
    assert forall|upper: Seq<char>|
        mapped(upper_pairs(p)).dom().contains(upper) <==> mapped(upper_pairs(q)).dom().contains(
            upper,
        ) by {
        lemma_upper_names(p, upper);
        lemma_upper_names(q, upper);
        if mapped(upper_pairs(p)).contains_key(upper) {
            let name = choose|name: Seq<char>| #[trigger]
                mapped(p).contains_key(name) && uppered(name) == upper;
            assert(mapped(q).dom().contains(name));
            assert(mapped(q).contains_key(name));
        }
        if mapped(upper_pairs(q)).contains_key(upper) {
            let name = choose|name: Seq<char>| #[trigger]
                mapped(q).contains_key(name) && uppered(name) == upper;
            assert(mapped(p).dom().contains(name));
            assert(mapped(p).contains_key(name));
        }
    }
    assert(mapped(upper_pairs(p)).dom() =~= mapped(upper_pairs(q)).dom());
}

/// Each of the first of each name is one of the entries, or was seen.
proof fn lemma_first_of_each_from(seen: Seq<EntryView>, entries: Seq<EntryView>, k: int)
    requires
        0 <= k < first_of_each(seen, entries).len(),
    ensures
        seen.contains(first_of_each(seen, entries)[k]) || entries.contains(
            first_of_each(seen, entries)[k],
        ),
    decreases entries.len(),
{
    let here = first_of_each(seen, entries)[k];
    if entries.len() == 0 {
        assert(seen[k] == here);
    } else {
        let rest = entries.skip(1);
        let more = if named_in(seen, entries[0].name) {
            seen
        } else {
            seen.push(entries[0])
        };
        lemma_first_of_each_from(more, rest, k);
        if rest.contains(here) {
            let i = choose|i: int| 0 <= i < rest.len() && rest[i] == here;
            assert(entries[i + 1] == here);
        } else {
            let i = choose|i: int| 0 <= i < more.len() && more[i] == here;
            if i < seen.len() {
                assert(seen[i] == here);
            } else {
                assert(entries[0] == here);
            }
        }
    }
}

/// Each of the entries is one of a variant.
proof fn lemma_flattened_from(variants: Seq<Seq<EntryView>>, entry: EntryView)
    requires
        flattened(variants).contains(entry),
    ensures
        exists|v: int, i: int|
            0 <= v < variants.len() && 0 <= i < variants[v].len() && #[trigger] variants[v][i]
                == entry,
    decreases variants.len(),
{
    let all = flattened(variants);
    let k = choose|k: int| 0 <= k < all.len() && all[k] == entry;
    if variants.len() > 0 {
        let short = variants.drop_last();
        let before = flattened(short);
        if k < before.len() {
            assert(before[k] == entry);
            lemma_flattened_from(short, entry);
            let (v, i) = choose|v: int, i: int|
                0 <= v < short.len() && 0 <= i < short[v].len() && #[trigger] short[v][i] == entry;
            assert(variants[v][i] == entry);
        } else {
            assert(variants[variants.len() - 1][k - before.len()] == entry);
        }
    }
}

/// What an entry projects up is among the blanks.
proof fn lemma_blanks_nested(entries: Seq<EntryView>, k: int, name: Seq<char>)
    requires
        0 <= k < entries.len(),
        mapped(entries[k].nested).contains_key(name),
    ensures
        mapped(all_blanks(entries)).contains_key(name),
    decreases entries.len(),
{
    let short = entries.drop_last();
    let last = entries.last();
    lemma_mapped_concat(all_blanks(short), blank_pairs(last), name);
    if k < short.len() {
        assert(short[k] == entries[k]);
        lemma_blanks_nested(short, k, name);
    } else {
        lemma_mapped_names(last.nested, name);
        let i = choose|i: int| 0 <= i < last.nested.len() && #[trigger] last.nested[i].0 == name;
        assert(blank_pairs(last)[i + 1].0 == name);
        lemma_mapped_names(blank_pairs(last), name);
    }
}

/// Where one name always projects up the same names, every name that is
/// projected up is left blank for every variant.
pub proof fn law_one_name_one_projection(variants: Seq<Seq<EntryView>>)
    requires
        forall|v: int, i: int, w: int, j: int|
            0 <= v < variants.len() && 0 <= i < variants[v].len() && 0 <= w < variants.len() && 0
                <= j < variants[w].len() && (#[trigger] variants[v][i]).name == (
            #[trigger] variants[w][j]).name ==> mapped(variants[v][i].nested).dom() == mapped(
                variants[w][j].nested,
            ).dom(),
    ensures
        all_projected(variants),
{
    assert forall|v: int, i: int, name: Seq<char>| #[trigger] projects(
        variants,
        v,
        i,
        name,
    ) implies mapped(all_blanks(union(variants))).contains_key(name) by {
        let once = union(variants);
        let own = variants[v][i].name;
        lemma_flattened_keeps(variants, v, i);
        lemma_first_of_each_keeps(Seq::empty(), flattened(variants), own);
        let k = choose|k: int| 0 <= k < once.len() && #[trigger] once[k].name == own;
        lemma_first_of_each_from(Seq::empty(), flattened(variants), k);
        lemma_flattened_from(variants, once[k]);
        let (w, j) = choose|w: int, j: int|
            0 <= w < variants.len() && 0 <= j < variants[w].len() && #[trigger] variants[w][j]
                == once[k];
        assert(variants[v][i].name == variants[w][j].name);
        assert(mapped(variants[v][i].nested).dom().contains(name));
        assert(mapped(once[k].nested).dom().contains(name));
        lemma_blanks_nested(once, k, name);
    }
}

/// What entries leave blank, one of them is called, or projects up.
proof fn lemma_blanks_from(entries: Seq<EntryView>, name: Seq<char>)
    requires
        mapped(all_blanks(entries)).contains_key(name),
    ensures
        exists|k: int|
            0 <= k < entries.len() && ((#[trigger] entries[k]).name == name || mapped(
                entries[k].nested,
            ).contains_key(name)),
    decreases entries.len(),
{
    if entries.len() == 0 {
        assert(false);
    }
    let short = entries.drop_last();
    let last = entries.last();
    lemma_mapped_concat(all_blanks(short), blank_pairs(last), name);
    if mapped(all_blanks(short)).contains_key(name) {
        lemma_blanks_from(short, name);
        let k = choose|k: int|
            0 <= k < short.len() && ((#[trigger] short[k]).name == name || mapped(
                short[k].nested,
            ).contains_key(name));
        assert(entries[k] == short[k]);
    } else {
        lemma_mapped_names(blank_pairs(last), name);
        let i = choose|i: int|
            0 <= i < blank_pairs(last).len() && #[trigger] blank_pairs(last)[i].0 == name;
        if i > 0 {
            assert(last.nested[i - 1].0 == name);
            lemma_mapped_names(last.nested, name);
        }
        assert(entries[entries.len() - 1] == last);
    }
}

/// Whether an entry of a variant is called by a name.
pub open spec fn calls(
    variants: Seq<Seq<EntryView>>,
    v: int,
    i: int,
    name: Seq<char>,
) -> bool {
    0 <= v < variants.len() && 0 <= i < variants[v].len() && variants[v][i].name == name
}

/// A value sets what any variant names or projects up, and nothing else. What
/// its own variant says is what is read, and what it does not say is empty and
/// never missing.
pub proof fn law_a_value_sets_what_any_variant_says(
    variants: Seq<Seq<EntryView>>,
    active: Seq<EntryView>,
    v: int,
    name: Seq<char>,
)
    requires
        all_projected(variants),
        0 <= v < variants.len(),
        is_of(active, variants[v]),
    ensures
        mapped(variant_pairs(variants, active)).contains_key(name) <==> exists|w: int, i: int|
            #[trigger] calls(variants, w, i, name) || projects(variants, w, i, name),
        mapped(variant_pairs(variants, active)).contains_key(name) ==> mapped(
            variant_pairs(variants, active),
        )[name] == if mapped(all_pairs(active)).contains_key(name) {
            mapped(all_pairs(active))[name]
        } else {
            Seq::<char>::empty()
        },
{
    let once = union(variants);
    lemma_names_set(variants, active, v);
    if mapped(variant_pairs(variants, active)).contains_key(name) {
        law_active_variant_wins(variants, active, name);
        assert(mapped(variant_pairs(variants, active)).dom().contains(name));
        lemma_blanks_from(once, name);
        let k = choose|k: int|
            0 <= k < once.len() && ((#[trigger] once[k]).name == name || mapped(
                once[k].nested,
            ).contains_key(name));
        lemma_first_of_each_from(Seq::empty(), flattened(variants), k);
        lemma_flattened_from(variants, once[k]);
        let (w, i) = choose|w: int, i: int|
            0 <= w < variants.len() && 0 <= i < variants[w].len() && #[trigger] variants[w][i]
                == once[k];
        assert(calls(variants, w, i, name) || projects(variants, w, i, name));
    }
    if exists|w: int, i: int|
        #[trigger] calls(variants, w, i, name) || projects(variants, w, i, name) {
        let (w, i) = choose|w: int, i: int|
            #[trigger] calls(variants, w, i, name) || projects(variants, w, i, name);
        if calls(variants, w, i, name) {
            law_every_name_is_set(variants, active, w, i);
        } else {
            assert(mapped(all_blanks(once)).dom().contains(name));
            assert(mapped(variant_pairs(variants, active)).dom().contains(name));
        }
    }
}

/// The environment is the fields under their names in upper case: the same
/// values, and nothing else. Names that differ by case alone are left out, as
/// one of them hides the other there.
pub proof fn law_the_environment_is_the_fields_in_upper_case(
    pairs: Seq<(Seq<char>, Seq<char>)>,
    name: Seq<char>,
)
    requires
        forall|a: Seq<char>, b: Seq<char>| #[trigger]
            mapped(pairs).contains_key(a) && #[trigger] mapped(pairs).contains_key(b) && uppered(a)
                == uppered(b) ==> a == b,
    ensures
        forall|upper: Seq<char>| #[trigger]
            mapped(upper_pairs(pairs)).contains_key(upper) <==> exists|a: Seq<char>| #[trigger]
                mapped(pairs).contains_key(a) && uppered(a) == upper,
        mapped(pairs).contains_key(name) ==> mapped(upper_pairs(pairs))[uppered(name)] == mapped(
            pairs,
        )[name],
{
    assert forall|upper: Seq<char>| #[trigger]
        mapped(upper_pairs(pairs)).contains_key(upper) <==> exists|a: Seq<char>| #[trigger]
            mapped(pairs).contains_key(a) && uppered(a) == upper by {
        lemma_upper_names(pairs, upper);
    }
    if mapped(pairs).contains_key(name) {
        lemma_upper_value(pairs, name);
    }
}

/// The last value under a name is the last under the name in upper case, where
/// no other name is that in upper case.
proof fn lemma_upper_value(pairs: Seq<(Seq<char>, Seq<char>)>, name: Seq<char>)
    requires
        mapped(pairs).contains_key(name),
        forall|a: Seq<char>| #[trigger]
            mapped(pairs).contains_key(a) && uppered(a) == uppered(name) ==> a == name,
    ensures
        mapped(upper_pairs(pairs))[uppered(name)] == mapped(pairs)[name],
    decreases pairs.len(),
{
    let raised = upper_pairs(pairs);
    let short = pairs.drop_last();
    let last = pairs.last();
    assert(raised.drop_last() =~= upper_pairs(short));
    assert(raised.last() == (uppered(last.0), last.1));
    assert(mapped(pairs).contains_key(last.0));
    if last.0 != name {
        assert forall|a: Seq<char>| #[trigger]
            mapped(short).contains_key(a) && uppered(a) == uppered(name) implies a == name by {
            assert(mapped(pairs).contains_key(a));
        }
        lemma_upper_value(short, name);
    }
}

} // verus!
