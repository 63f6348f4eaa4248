//! Which files a config is made of.
//!
//! A config says so by loading them. The set is kept across runs: a run marks
//! every file, whatever it still asks for loses the mark, and what keeps it is
//! what the run stopped using.

use crate::text::{joined, joined3, pieces, replace, replaced, same, split_on, text_views};
use vstd::prelude::*;

verus! {

/// A path, and what it is made of.
#[derive(Debug, Clone, PartialEq, Eq)]
pub struct Located {
    /// The path, spelled the one way its parts are spelled.
    pub whole: String,
    /// The directory it is in, where it is in one.
    pub directory: Option<String>,
    /// What the file itself is called, where it is called anything.
    pub file: Option<String>,
}

/// [`Located`] over plain text.
pub struct LocatedView {
    pub whole: Seq<char>,
    pub directory: Option<Seq<char>>,
    pub file: Option<Seq<char>>,
}

/// A text that may not be there.
pub open spec fn part(text: Option<String>) -> Option<Seq<char>> {
    match text {
        Some(text) => Some(text@),
        None => None,
    }
}

impl View for Located {
    type V = LocatedView;

    open spec fn view(&self) -> LocatedView {
        LocatedView {
            whole: self.whole@,
            directory: part(self.directory),
            file: part(self.file),
        }
    }
}

/// Whether two parts that may not be there are one.
fn same_part(a: &Option<String>, b: &Option<String>) -> (r: bool)
    ensures
        r == (part(*a) == part(*b)),
{
    match (a, b) {
        (Some(a), Some(b)) => same(a, b),
        (None, None) => true,
        _ => false,
    }
}

impl Located {
    /// The same path again.
    pub fn copied(&self) -> (r: Located)
        ensures
            r@ == self@,
    {
        Located {
            whole: self.whole.clone(),
            directory: match &self.directory {
                Some(text) => Some(text.clone()),
                None => None,
            },
            file: match &self.file {
                Some(text) => Some(text.clone()),
                None => None,
            },
        }
    }

    /// Whether a change reported against a path is one to this file. The file's
    /// name alone will do: an editor saves by renaming another file over this
    /// one, and the path a save is reported against may have gone through a
    /// link.
    pub fn touched_by(&self, path: &Located) -> (r: bool)
        ensures
            r == touches(self@, path@),
    {
        same(&self.whole, &path.whole) || same_part(&self.file, &path.file)
    }
}

/// Whether a change reported against a path is one to a file.
pub open spec fn touches(file: LocatedView, path: LocatedView) -> bool {
    file.whole == path.whole || file.file == path.file
}

/// One file a config loaded: what it asked for, where that was, and whether
/// the run going on has asked for it.
#[verifier::ext_equal]
pub struct LoadedView {
    pub name: Seq<char>,
    pub path: LocatedView,
    pub fresh: bool,
}

/// One file a config loaded.
#[derive(Debug)]
struct Entry {
    name: String,
    path: Located,
    fresh: bool,
}

/// One file over plain text.
spec fn entry_view(entry: Entry) -> LoadedView {
    LoadedView { name: entry.name@, path: entry.path@, fresh: entry.fresh }
}

/// Whether no two were asked for by one name.
pub open spec fn named_once(files: Seq<LoadedView>) -> bool {
    forall|i: int, j: int|
        0 <= i < j < files.len() ==> #[trigger] files[i].name != #[trigger] files[j].name
}

/// Where a name was asked for.
pub open spec fn asked_at(files: Seq<LoadedView>, name: Seq<char>) -> Option<int>
    decreases files.len(),
{
    if files.len() == 0 {
        None
    } else if files.last().name == name {
        Some(files.len() - 1)
    } else {
        asked_at(files.drop_last(), name)
    }
}

/// The files once a name was asked for and found.
pub open spec fn recorded(files: Seq<LoadedView>, name: Seq<char>, path: LocatedView) -> Seq<
    LoadedView,
> {
    let loaded = LoadedView { name, path, fresh: true };
    match asked_at(files, name) {
        Some(i) => files.update(i, loaded),
        None => files.push(loaded),
    }
}

/// The files once every one of them is marked, or none.
pub open spec fn marked(files: Seq<LoadedView>, fresh: bool) -> Seq<LoadedView> {
    files.map_values(|file: LoadedView| LoadedView { fresh, ..file })
}

/// Those the run going on has asked for, or those it has not.
pub open spec fn asked_for(files: Seq<LoadedView>, fresh: bool) -> Seq<LoadedView>
    decreases files.len(),
{
    if files.len() == 0 {
        Seq::empty()
    } else if files.last().fresh == fresh {
        asked_for(files.drop_last(), fresh).push(files.last())
    } else {
        asked_for(files.drop_last(), fresh)
    }
}

/// Where files are.
pub open spec fn paths_of(files: Seq<LoadedView>) -> Seq<LocatedView> {
    files.map_values(|file: LoadedView| file.path)
}

/// Paths over plain text.
pub open spec fn located(paths: Seq<Located>) -> Seq<LocatedView> {
    paths.map_values(|path: Located| path@)
}

/// Whether a directory holds any of the files.
pub open spec fn holds_any(files: Seq<LoadedView>, directory: Seq<char>) -> bool {
    exists|i: int| 0 <= i < files.len() && (#[trigger] files[i]).path.directory == Some(directory)
}

/// A name is found where it stands.
proof fn lemma_asked_at(files: Seq<LoadedView>, name: Seq<char>)
    ensures
        match asked_at(files, name) {
            Some(i) => 0 <= i < files.len() && files[i].name == name,
            None => forall|i: int| 0 <= i < files.len() ==> (#[trigger] files[i]).name != name,
        },
    decreases files.len(),
{
    if files.len() > 0 && files.last().name != name {
        lemma_asked_at(files.drop_last(), name);
        assert forall|i: int| asked_at(files.drop_last(), name) is None && 0 <= i
            < files.len() implies (#[trigger] files[i]).name != name by {
            if i < files.len() - 1 {
                assert(files.drop_last()[i].name != name);
            }
        }
    }
}

/// A name stands where it was found.
proof fn lemma_asked_there(files: Seq<LoadedView>, name: Seq<char>, at: int)
    requires
        named_once(files),
        0 <= at < files.len(),
        files[at].name == name,
    ensures
        asked_at(files, name) == Some(at),
{
    lemma_asked_at(files, name);
    let i = asked_at(files, name)->0;
    if i < at {
        assert(files[i].name != files[at].name);
    } else if at < i {
        assert(files[at].name != files[i].name);
    }
}

/// Every file a config has loaded.
#[derive(Debug)]
pub struct Modules {
    entries: Vec<Entry>,
}

/// Entries over plain text.
spec fn entry_views(entries: Seq<Entry>) -> Seq<LoadedView> {
    entries.map_values(|entry: Entry| entry_view(entry))
}

impl View for Modules {
    type V = Seq<LoadedView>;

    closed spec fn view(&self) -> Seq<LoadedView> {
        entry_views(self.entries@)
    }
}

impl Modules {
    #[verifier::type_invariant]
    spec fn inv(self) -> bool {
        named_once(entry_views(self.entries@))
    }

    /// None.
    pub fn new() -> (r: Modules)
        ensures
            r@ == Seq::<LoadedView>::empty(),
    {
        let r = Modules { entries: Vec::new() };
        assert(r@ =~= Seq::<LoadedView>::empty());
        r
    }

    /// Where a name was asked for.
    fn find(&self, name: &str) -> (r: Option<usize>)
        ensures
            match r {
                Some(i) => i < self.entries@.len() && asked_at(self@, name@) == Some(i as int),
                None => asked_at(self@, name@) is None,
            },
    {
        proof {
            use_type_invariant(self);
            lemma_asked_at(self@, name@);
        }
        let mut i: usize = 0;
        while i < self.entries.len()
            invariant
                i <= self.entries@.len(),
                self@.len() == self.entries@.len(),
                named_once(self@),
                forall|j: int| 0 <= j < i ==> (#[trigger] self@[j]).name != name@,
            decreases self.entries@.len() - i,
        {
            assert(self@[i as int] == entry_view(self.entries@[i as int]));
            if same(&self.entries[i].name, name) {
                proof {
                    lemma_asked_there(self@, name@, i as int);
                }
                return Some(i);
            }
            i = i + 1;
        }
        None
    }

    /// Says that a name was asked for and found at a path.
    pub fn record(&mut self, name: &str, path: Located)
        ensures
            final(self)@ == recorded(old(self)@, name@, path@),
    {
        proof {
            use_type_invariant(&*self);
            lemma_asked_at(self@, name@);
        }
        let ghost before = self@;
        let found = self.find(name);
        let mut entries: Vec<Entry> = Vec::new();
        std::mem::swap(&mut entries, &mut self.entries);
        let ghost loaded = LoadedView { name: name@, path: path@, fresh: true };
        let entry = Entry { name: name.to_owned(), path, fresh: true };
        match found {
            Some(i) => {
                entries.set(i, entry);
                proof {
                    let after = before.update(i as int, loaded);
                    assert(entry_views(entries@) =~= after);
                    assert forall|a: int, b: int| 0 <= a < b < after.len() implies #[trigger]
                        after[a].name != #[trigger] after[b].name by {
                        assert(before[a].name != before[b].name);
                    }
                }
            },
            None => {
                entries.push(entry);
                proof {
                    let after = before.push(loaded);
                    assert(entry_views(entries@) =~= after);
                    assert forall|a: int, b: int| 0 <= a < b < after.len() implies #[trigger]
                        after[a].name != #[trigger] after[b].name by {
                        assert(before[a].name != name@);
                        if b < before.len() {
                            assert(before[a].name != before[b].name);
                        }
                    }
                }
            },
        }
        self.entries = entries;
    }

    /// Marks every file, or lifts the mark off every one.
    fn mark(&mut self, fresh: bool)
        ensures
            final(self)@ == marked(old(self)@, fresh),
    {
        proof {
            use_type_invariant(&*self);
        }
        let ghost before = self@;
        let mut entries: Vec<Entry> = Vec::new();
        std::mem::swap(&mut entries, &mut self.entries);
        let mut out: Vec<Entry> = Vec::new();
        let len = entries.len();
        let mut i: usize = 0;
        while i < len
            invariant
                i <= len,
                len == entries@.len(),
                before == entry_views(entries@),
                entry_views(out@) =~= marked(before, fresh).take(i as int),
            decreases len - i,
        {
            let ghost earlier = out@;
            let entry = Entry {
                name: entries[i].name.clone(),
                path: entries[i].path.copied(),
                fresh,
            };
            let ghost view = entry_view(entry);
            out.push(entry);
            proof {
                assert(before[i as int] == entry_view(entries@[i as int]));
                assert(view == marked(before, fresh)[i as int]);
                assert(entry_views(out@) =~= entry_views(earlier).push(view));
            }
            i = i + 1;
        }
        proof {
            let after = marked(before, fresh);
            assert(after.take(after.len() as int) =~= after);
            assert forall|a: int, b: int| 0 <= a < b < after.len() implies #[trigger] after[a].name
                != #[trigger] after[b].name by {
                assert(before[a].name != before[b].name);
            }
        }
        self.entries = out;
    }

    /// Marks every file, before a run. Nothing is forgotten: the run might
    /// fail, and a broken edit should leave what was watched in place.
    pub fn begin(&mut self)
        ensures
            final(self)@ == marked(old(self)@, false),
    {
        self.mark(false);
    }

    /// Lifts the mark and forgets nothing, after a run that failed: it has not
    /// stopped wanting the files it never reached.
    pub fn keep(&mut self)
        ensures
            final(self)@ == marked(old(self)@, true),
    {
        self.mark(true);
    }

    /// Forgets every file the run just finished did not ask for, and says
    /// where they were.
    pub fn end(&mut self) -> (r: Vec<Located>)
        ensures
            final(self)@ == asked_for(old(self)@, true),
            located(r@) == paths_of(asked_for(old(self)@, false)),
    {
        proof {
            use_type_invariant(&*self);
        }
        let ghost before = self@;
        let mut entries: Vec<Entry> = Vec::new();
        std::mem::swap(&mut entries, &mut self.entries);
        let mut kept: Vec<Entry> = Vec::new();
        let mut dropped: Vec<Located> = Vec::new();
        let len = entries.len();
        let mut i: usize = 0;
        proof {
            assert(before.take(0) =~= Seq::<LoadedView>::empty());
            assert(entry_views(kept@) =~= Seq::<LoadedView>::empty());
            assert(located(dropped@) =~= paths_of(Seq::<LoadedView>::empty()));
        }
        while i < len
            invariant
                i <= len,
                len == entries@.len(),
                before == entry_views(entries@),
                entry_views(kept@) == asked_for(before.take(i as int), true),
                located(dropped@) == paths_of(asked_for(before.take(i as int), false)),
            decreases len - i,
        {
            proof {
                assert(before[i as int] == entry_view(entries@[i as int]));
                assert(before.take(i + 1).drop_last() =~= before.take(i as int));
                assert(before.take(i + 1).last() == before[i as int]);
            }
            if entries[i].fresh {
                let ghost earlier = kept@;
                let entry = Entry {
                    name: entries[i].name.clone(),
                    path: entries[i].path.copied(),
                    fresh: true,
                };
                let ghost view = entry_view(entry);
                kept.push(entry);
                proof {
                    assert(entry_views(kept@) =~= entry_views(earlier).push(view));
                }
            } else {
                let ghost earlier = dropped@;
                let path = entries[i].path.copied();
                let ghost view = path@;
                dropped.push(path);
                proof {
                    assert(located(dropped@) =~= located(earlier).push(view));
                    let short = asked_for(before.take(i as int), false);
                    assert(paths_of(short.push(before[i as int])) =~= paths_of(short).push(view));
                }
            }
            i = i + 1;
        }
        proof {
            assert(before.take(before.len() as int) =~= before);
            lemma_asked_for_named_once(before, true);
        }
        self.entries = kept;
        dropped
    }

    /// Ends a run: what it stopped asking for is forgotten where it succeeded,
    /// and nothing is where it failed.
    pub fn finish(&mut self, succeeded: bool) -> (r: Vec<Located>)
        ensures
            succeeded ==> final(self)@ == asked_for(old(self)@, true) && located(r@) == paths_of(
                asked_for(old(self)@, false),
            ),
            !succeeded ==> final(self)@ == marked(old(self)@, true) && r@.len() == 0,
    {
        if succeeded {
            self.end()
        } else {
            self.keep();
            Vec::new()
        }
    }

    /// Where every file is.
    pub fn paths(&self) -> (r: Vec<Located>)
        ensures
            located(r@) == paths_of(self@),
    {
        let mut out: Vec<Located> = Vec::new();
        let mut i: usize = 0;
        while i < self.entries.len()
            invariant
                i <= self.entries@.len(),
                self@ == entry_views(self.entries@),
                located(out@) =~= paths_of(self@).take(i as int),
            decreases self.entries@.len() - i,
        {
            let ghost earlier = out@;
            let path = self.entries[i].path.copied();
            let ghost view = path@;
            out.push(path);
            proof {
                assert(self@[i as int] == entry_view(self.entries@[i as int]));
                assert(located(out@) =~= located(earlier).push(view));
            }
            i = i + 1;
        }
        proof {
            assert(paths_of(self@).take(self@.len() as int) =~= paths_of(self@));
        }
        out
    }

    /// The directories the files are in, each once: what to watch, since a
    /// file that is renamed over is no longer the file that was watched.
    pub fn directories(&self) -> (r: Vec<String>)
        ensures
            text_views(r@).no_duplicates(),
            forall|directory: Seq<char>| #[trigger]
                text_views(r@).contains(directory) <==> holds_any(self@, directory),
    {
        let mut out: Vec<String> = Vec::new();
        let mut i: usize = 0;
        proof {
            assert(text_views(out@) =~= Seq::<Seq<char>>::empty());
        }
        while i < self.entries.len()
            invariant
                i <= self.entries@.len(),
                self@ == entry_views(self.entries@),
                text_views(out@).no_duplicates(),
                forall|directory: Seq<char>| #[trigger]
                    text_views(out@).contains(directory) <==> holds_any(
                        self@.take(i as int),
                        directory,
                    ),
            decreases self.entries@.len() - i,
        {
            let ghost files = self@;
            let ghost earlier = text_views(out@);
            assert(files[i as int] == entry_view(self.entries@[i as int]));
            match &self.entries[i].path.directory {
                Some(directory) => {
                    let seen = contains_text(&out, directory);
                    if !seen {
                        out.push(directory.clone());
                        proof {
                            assert(text_views(out@) =~= earlier.push(directory@));
                        }
                    }
                },
                None => {},
            }
            proof {
                lemma_one_more(files, i as int);
                assert forall|directory: Seq<char>| #[trigger]
                    text_views(out@).contains(directory) <==> holds_any(
                    files.take(i + 1),
                    directory,
                ) by {
                    assert(earlier.contains(directory) <==> holds_any(
                        files.take(i as int),
                        directory,
                    ));
                    if text_views(out@) != earlier {
                        let last = files[i as int].path.directory->0;
                        assert(text_views(out@) == earlier.push(last));
                        lemma_pushed(earlier, last, directory);
                    }
                }
            }
            i = i + 1;
        }
        proof {
            assert(self@.take(self@.len() as int) =~= self@);
        }
        out
    }

    /// Whether a change reported against a path is one to any of the files.
    pub fn watches(&self, path: &Located) -> (r: bool)
        ensures
            r == exists|i: int| 0 <= i < self@.len() && touches((#[trigger] self@[i]).path, path@),
    {
        let mut i: usize = 0;
        while i < self.entries.len()
            invariant
                i <= self.entries@.len(),
                self@ == entry_views(self.entries@),
                forall|j: int| 0 <= j < i ==> !touches((#[trigger] self@[j]).path, path@),
            decreases self.entries@.len() - i,
        {
            assert(self@[i as int] == entry_view(self.entries@[i as int]));
            if self.entries[i].path.touched_by(path) {
                return true;
            }
            i = i + 1;
        }
        false
    }

    /// How many files there are.
    pub fn len(&self) -> (r: usize)
        ensures
            r == self@.len(),
    {
        self.entries.len()
    }

    /// Whether there is none.
    pub fn is_empty(&self) -> (r: bool)
        ensures
            r == (self@.len() == 0),
    {
        self.entries.len() == 0
    }
}

/// Whether a text is among some.
fn contains_text(texts: &Vec<String>, text: &str) -> (r: bool)
    ensures
        r == text_views(texts@).contains(text@),
{
    let mut i: usize = 0;
    while i < texts.len()
        invariant
            i <= texts@.len(),
            forall|j: int| 0 <= j < i ==> #[trigger] text_views(texts@)[j] != text@,
        decreases texts@.len() - i,
    {
        assert(text_views(texts@)[i as int] == texts@[i as int]@);
        if same(&texts[i], text) {
            return true;
        }
        i = i + 1;
    }
    false
}

/// What one more entry holds.
proof fn lemma_pushed(s: Seq<Seq<char>>, last: Seq<char>, text: Seq<char>)
    ensures
        s.push(last).contains(text) <==> (s.contains(text) || text == last),
{
    let t = s.push(last);
    if s.contains(text) {
        let i = choose|i: int| 0 <= i < s.len() && s[i] == text;
        assert(t[i] == text);
    }
    if text == last {
        assert(t[s.len() as int] == text);
    }
    if t.contains(text) && text != last {
        let i = choose|i: int| 0 <= i < t.len() && t[i] == text;
        assert(s[i] == text);
    }
}

/// What one more file is in.
proof fn lemma_one_more(files: Seq<LoadedView>, i: int)
    requires
        0 <= i < files.len(),
    ensures
        forall|directory: Seq<char>| #[trigger]
            holds_any(files.take(i + 1), directory) <==> (holds_any(files.take(i), directory)
                || files[i].path.directory == Some(directory)),
{
    assert forall|directory: Seq<char>| #[trigger]
        holds_any(files.take(i + 1), directory) <==> (holds_any(files.take(i), directory)
            || files[i].path.directory == Some(directory)) by {
        if holds_any(files.take(i + 1), directory) {
            let j = choose|j: int|
                0 <= j < i + 1 && (#[trigger] files.take(i + 1)[j]).path.directory == Some(
                    directory,
                );
            if j < i {
                assert(files.take(i)[j].path.directory == Some(directory));
            }
        }
        if holds_any(files.take(i), directory) {
            let j = choose|j: int|
                0 <= j < i && (#[trigger] files.take(i)[j]).path.directory == Some(directory);
            assert(files.take(i + 1)[j].path.directory == Some(directory));
        }
        if files[i].path.directory == Some(directory) {
            assert(files.take(i + 1)[i].path.directory == Some(directory));
        }
    }
}

/// Each that was asked for is one of the files.
proof fn lemma_asked_for_from(files: Seq<LoadedView>, fresh: bool, k: int)
    requires
        0 <= k < asked_for(files, fresh).len(),
    ensures
        asked_for(files, fresh)[k].fresh == fresh,
        exists|i: int| 0 <= i < files.len() && #[trigger] files[i] == asked_for(files, fresh)[k],
    decreases files.len(),
{
    let short = files.drop_last();
    if files.last().fresh == fresh && k == asked_for(short, fresh).len() {
        assert(files[files.len() - 1] == asked_for(files, fresh)[k]);
    } else {
        lemma_asked_for_from(short, fresh, k);
        let i = choose|i: int|
            0 <= i < short.len() && #[trigger] short[i] == asked_for(short, fresh)[k];
        assert(files[i] == asked_for(files, fresh)[k]);
    }
}

/// Each of the files is among those that were asked for, or those that were
/// not.
proof fn lemma_asked_for_holds(files: Seq<LoadedView>, i: int)
    requires
        0 <= i < files.len(),
    ensures
        asked_for(files, files[i].fresh).contains(files[i]),
    decreases files.len(),
{
    let fresh = files[i].fresh;
    let short = files.drop_last();
    let all = asked_for(files, fresh);
    if i == files.len() - 1 {
        assert(all[all.len() - 1] == files[i]);
    } else {
        lemma_asked_for_holds(short, i);
        let k = choose|k: int|
            0 <= k < asked_for(short, fresh).len() && asked_for(short, fresh)[k] == files[i];
        assert(all[k] == files[i]);
    }
}

/// What is left of names that stand once are names that stand once.
proof fn lemma_asked_for_named_once(files: Seq<LoadedView>, fresh: bool)
    requires
        named_once(files),
    ensures
        named_once(asked_for(files, fresh)),
    decreases files.len(),
{
    if files.len() > 0 {
        let short = files.drop_last();
        assert(named_once(short)) by {
            assert forall|a: int, b: int| 0 <= a < b < short.len() implies #[trigger] short[a].name
                != #[trigger] short[b].name by {
                assert(files[a].name != files[b].name);
            }
        }
        lemma_asked_for_named_once(short, fresh);
        let left = asked_for(short, fresh);
        let all = asked_for(files, fresh);
        assert forall|a: int, b: int| 0 <= a < b < all.len() implies #[trigger] all[a].name
            != #[trigger] all[b].name by {
            if b < left.len() {
                assert(left[a].name != left[b].name);
            } else {
                lemma_asked_for_from(short, fresh, a);
                let i = choose|i: int| 0 <= i < short.len() && #[trigger] short[i] == left[a];
                assert(files[i].name != files[files.len() - 1].name);
            }
        }
    }
}

// ---------------------------------------------------------------------------
// Searching

/// A text with another in place of every occurrence of a character.
pub open spec fn substituted(text: Seq<char>, from: char, with: Seq<char>) -> Seq<char>
    decreases text.len(),
{
    if text.len() == 0 {
        Seq::empty()
    } else if text.last() == from {
        substituted(text.drop_last(), from, with) + with
    } else {
        substituted(text.drop_last(), from, with).push(text.last())
    }
}

/// A text with another in place of every occurrence of a character.
fn substitute(text: &str, from: char, with: &str) -> (r: String)
    ensures
        r@ == substituted(text@, from, with@),
{
    let chars = crate::text::chars_of(text);
    let put = crate::text::chars_of(with);
    let mut out: Vec<char> = Vec::new();
    let mut i: usize = 0;
    proof {
        assert(text@.take(0) =~= Seq::<char>::empty());
    }
    while i < chars.len()
        invariant
            i <= chars@.len(),
            chars@ == text@,
            put@ == with@,
            out@ == substituted(text@.take(i as int), from, with@),
        decreases chars@.len() - i,
    {
        proof {
            assert(text@.take(i + 1).drop_last() =~= text@.take(i as int));
            assert(text@.take(i + 1).last() == text@[i as int]);
        }
        if chars[i] == from {
            let ghost before = out@;
            let mut j: usize = 0;
            while j < put.len()
                invariant
                    j <= put@.len(),
                    out@ =~= before + put@.take(j as int),
                decreases put@.len() - j,
            {
                out.push(put[j]);
                j = j + 1;
            }
            assert(put@.take(put@.len() as int) =~= put@);
        } else {
            out.push(chars[i]);
        }
        i = i + 1;
    }
    proof {
        assert(text@.take(text@.len() as int) =~= text@);
    }
    let r = crate::text::text_from(&out, 0);
    assert(out@.skip(0) =~= out@);
    r
}

/// The patterns a search goes through, in order: an empty one is none.
pub open spec fn patterns(parts: Seq<Seq<char>>) -> Seq<Seq<char>>
    decreases parts.len(),
{
    if parts.len() == 0 {
        Seq::empty()
    } else if parts.last().len() == 0 {
        patterns(parts.drop_last())
    } else {
        patterns(parts.drop_last()).push(parts.last())
    }
}

/// A module's name as a path: a dot goes one directory down.
pub open spec fn name_as_path(name: Seq<char>) -> Seq<char> {
    replaced(name, '.', '/')
}

/// The files a module could be, in the order they are looked for.
pub open spec fn candidate_paths(template: Seq<char>, name: Seq<char>) -> Seq<Seq<char>> {
    patterns(pieces(template, ';')).map_values(
        |pattern: Seq<char>| substituted(pattern, '?', name_as_path(name)),
    )
}

/// The files a module could be, in the order they are looked for: the first
/// that exists is the one.
pub fn candidates(template: &str, name: &str) -> (r: Vec<String>)
    ensures
        text_views(r@) == candidate_paths(template@, name@),
{
    let path = replace(name, '.', '/');
    let parts = split_on(template, ';');
    let ghost all = text_views(parts@);
    let ghost filled = |pattern: Seq<char>| substituted(pattern, '?', name_as_path(name@));
    let mut out: Vec<String> = Vec::new();
    let mut i: usize = 0;
    proof {
        assert(all.take(0) =~= Seq::<Seq<char>>::empty());
        assert(text_views(out@) =~= Seq::<Seq<char>>::empty().map_values(filled));
    }
    while i < parts.len()
        invariant
            i <= parts@.len(),
            all == text_views(parts@),
            path@ == name_as_path(name@),
            filled == (|pattern: Seq<char>| substituted(pattern, '?', name_as_path(name@))),
            text_views(out@) == patterns(all.take(i as int)).map_values(filled),
        decreases parts@.len() - i,
    {
        proof {
            assert(all.take(i + 1).drop_last() =~= all.take(i as int));
            assert(all.take(i + 1).last() == parts@[i as int]@);
        }
        let ghost short = patterns(all.take(i as int));
        if parts[i].as_str().unicode_len() != 0 {
            let ghost before = out@;
            let candidate = substitute(&parts[i], '?', &path);
            let ghost view = candidate@;
            out.push(candidate);
            proof {
                assert(text_views(out@) =~= text_views(before).push(view));
                assert(short.push(parts@[i as int]@).map_values(filled) =~= short.map_values(
                    filled,
                ).push(view));
            }
        }
        i = i + 1;
    }
    proof {
        assert(all.take(all.len() as int) =~= all);
    }
    out
}

/// What a search says that found no file of its own.
pub fn miss_reason(name: &str) -> (r: String)
    ensures
        r@ == "\n\tno rsbar-tracked file for '"@ + name@ + "'"@,
{
    joined3("\n\tno rsbar-tracked file for '", name, "'")
}

/// What a chunk read from a file is called: the mark says that it is one.
pub fn chunk_name(path: &str) -> (r: String)
    ensures
        r@ == "@"@ + path@,
{
    joined("@", path)
}

/// The directory a config is in, the current one where it names none.
pub fn config_directory(directory: Option<&str>) -> (r: String)
    ensures
        r@ == match directory {
            Some(directory) => directory@,
            None => "."@,
        },
{
    match directory {
        Some(directory) => directory.to_owned(),
        None => ".".to_owned(),
    }
}

/// Where a config's own modules are looked for, after everywhere they were.
pub fn search_path(path: &str, directory: &str) -> (r: String)
    ensures
        r@ == path@ + ";"@ + (directory@ + "/?.lua;"@ + (directory@ + "/?/init.lua"@)),
{
    joined3(path, ";", &joined3(directory, "/?.lua;", &joined(directory, "/?/init.lua")))
}

/// Where a config's own native modules are looked for, after everywhere they
/// were.
pub fn native_search_path(path: &str, directory: &str) -> (r: String)
    ensures
        r@ == path@ + ";"@ + (directory@ + "/?.so;"@ + (directory@ + "/?.dylib"@)),
{
    joined3(path, ";", &joined3(directory, "/?.so;", &joined(directory, "/?.dylib")))
}

/// The names a config may find the one table under.
pub open spec fn table_names() -> Seq<Seq<char>> {
    seq!["rsbar"@, "sbar"@, "sketchybar"@]
}

/// The names a config may find the one table under.
pub fn module_names() -> (r: Vec<&'static str>)
    ensures
        r@.map_values(|name: &'static str| name@) == table_names(),
{
    let r: Vec<&'static str> = vec!["rsbar", "sbar", "sketchybar"];
    assert(r@.map_values(|name: &'static str| name@) =~= table_names());
    r
}

// ---------------------------------------------------------------------------
// Laws

/// A file that a run asks for is still there once the run ends, wherever it
/// was found, whatever else was there before.
pub proof fn law_what_is_asked_for_is_kept(
    files: Seq<LoadedView>,
    name: Seq<char>,
    path: LocatedView,
)
    requires
        named_once(files),
    ensures
        asked_for(recorded(marked(files, false), name, path), true).contains(
            (LoadedView { name, path, fresh: true }),
        ),
{
    let stale = marked(files, false);
    lemma_asked_at(stale, name);
    let after = recorded(stale, name, path);
    let at = match asked_at(stale, name) {
        Some(i) => i,
        None => stale.len() as int,
    };
    assert(after[at] == (LoadedView { name, path, fresh: true }));
    lemma_asked_for_holds(after, at);
}

/// A run that asks for nothing leaves nothing: every file is let go of.
pub proof fn law_what_is_not_asked_for_is_let_go(files: Seq<LoadedView>)
    ensures
        asked_for(marked(files, false), true) == Seq::<LoadedView>::empty(),
        paths_of(asked_for(marked(files, false), false)) == paths_of(files),
    decreases files.len(),
{
    if files.len() > 0 {
        let short = files.drop_last();
        law_what_is_not_asked_for_is_let_go(short);
        let stale = marked(files, false);
        assert(stale.drop_last() =~= marked(short, false));
        let left = asked_for(marked(short, false), false);
        assert(paths_of(left.push(stale.last())) =~= paths_of(left).push(files.last().path));
        assert(paths_of(files) =~= paths_of(short).push(files.last().path));
    } else {
        assert(paths_of(asked_for(marked(files, false), false)) =~= paths_of(files));
    }
}

/// A run that failed lets go of nothing, whatever it had asked for by then.
pub proof fn law_a_failed_run_keeps_every_file(files: Seq<LoadedView>)
    ensures
        asked_for(marked(files, true), true) == marked(files, true),
        asked_for(marked(files, true), false) == Seq::<LoadedView>::empty(),
        paths_of(marked(files, true)) == paths_of(files),
    decreases files.len(),
{
    assert(paths_of(marked(files, true)) =~= paths_of(files));
    if files.len() > 0 {
        law_a_failed_run_keeps_every_file(files.drop_last());
        assert(marked(files, true).drop_last() =~= marked(files.drop_last(), true));
        assert(asked_for(marked(files, true), true) =~= marked(files, true));
    } else {
        assert(asked_for(marked(files, true), true) =~= marked(files, true));
    }
}

/// Asking for one file leaves every other just as it was.
pub proof fn law_asking_leaves_the_rest(
    files: Seq<LoadedView>,
    name: Seq<char>,
    path: LocatedView,
    i: int,
)
    requires
        0 <= i < files.len(),
        files[i].name != name,
    ensures
        recorded(files, name, path)[i] == files[i],
        recorded(files, name, path).len() >= files.len(),
{
    lemma_asked_at(files, name);
}

/// What a run asks for: each name, and where it was found.
pub type Asked = Seq<(Seq<char>, LocatedView)>;

/// The files once a run has asked for what it asks for.
pub open spec fn all_recorded(files: Seq<LoadedView>, asked: Asked) -> Seq<LoadedView>
    decreases asked.len(),
{
    if asked.len() == 0 {
        files
    } else {
        recorded(all_recorded(files, asked.drop_last()), asked.last().0, asked.last().1)
    }
}

/// Where a name was found last, if it was asked for at all.
pub open spec fn found_last(asked: Asked, name: Seq<char>) -> Option<LocatedView>
    decreases asked.len(),
{
    if asked.len() == 0 {
        None
    } else if asked.last().0 == name {
        Some(asked.last().1)
    } else {
        found_last(asked.drop_last(), name)
    }
}

/// Asking for one file puts it there, and touches no other.
proof fn lemma_recorded(files: Seq<LoadedView>, name: Seq<char>, path: LocatedView)
    requires
        named_once(files),
    ensures
        named_once(recorded(files, name, path)),
        forall|file: LoadedView| #[trigger]
            recorded(files, name, path).contains(file) <==> (if file.name == name {
                file == (LoadedView { name, path, fresh: true })
            } else {
                files.contains(file)
            }),
{
    let after = recorded(files, name, path);
    let loaded = LoadedView { name, path, fresh: true };
    lemma_asked_at(files, name);
    let at = match asked_at(files, name) {
        Some(i) => i,
        None => files.len() as int,
    };
    assert(after[at] == loaded);
    assert forall|a: int, b: int| 0 <= a < b < after.len() implies #[trigger] after[a].name
        != #[trigger] after[b].name by {
        if b < files.len() {
            assert(files[a].name != files[b].name);
        }
    }
    assert forall|file: LoadedView| #[trigger] after.contains(file) <==> (if file.name == name {
        file == loaded
    } else {
        files.contains(file)
    }) by {
        if after.contains(file) {
            let i = choose|i: int| 0 <= i < after.len() && after[i] == file;
            if i != at {
                assert(files[i] == file);
                if i < at {
                    assert(after[i].name != after[at].name);
                } else {
                    assert(after[at].name != after[i].name);
                }
            }
        }
        if file.name != name && files.contains(file) {
            let i = choose|i: int| 0 <= i < files.len() && files[i] == file;
            assert(after[i] == file);
        }
    }
}

/// What is there once a run has asked for what it asks for: each of those where
/// it was found last, and the rest as it was.
proof fn lemma_all_recorded(files: Seq<LoadedView>, asked: Asked)
    requires
        named_once(files),
    ensures
        named_once(all_recorded(files, asked)),
        forall|file: LoadedView| #[trigger]
            all_recorded(files, asked).contains(file) <==> match found_last(asked, file.name) {
                Some(path) => file.fresh && file.path == path,
                None => files.contains(file),
            },
    decreases asked.len(),
{
    if asked.len() > 0 {
        lemma_all_recorded(files, asked.drop_last());
        lemma_recorded(
            all_recorded(files, asked.drop_last()),
            asked.last().0,
            asked.last().1,
        );
    }
}

/// Once a run that succeeded ends, the files are exactly those it asked for,
/// where it found them last, and what it lets go of is exactly the rest, each
/// once.
pub proof fn law_a_run_keeps_exactly_what_it_asked_for(files: Seq<LoadedView>, asked: Asked)
    requires
        named_once(files),
    ensures
        forall|file: LoadedView| #[trigger]
            asked_for(all_recorded(marked(files, false), asked), true).contains(file) <==> (
            file.fresh && found_last(asked, file.name) == Some(file.path)),
        forall|file: LoadedView| #[trigger]
            asked_for(all_recorded(marked(files, false), asked), false).contains(file) <==> (
            found_last(asked, file.name) is None && marked(files, false).contains(file)),
        named_once(asked_for(all_recorded(marked(files, false), asked), true)),
        named_once(asked_for(all_recorded(marked(files, false), asked), false)),
{
    let stale = marked(files, false);
    let after = all_recorded(stale, asked);
    assert forall|a: int, b: int| 0 <= a < b < stale.len() implies #[trigger] stale[a].name
        != #[trigger] stale[b].name by {
        assert(files[a].name != files[b].name);
    }
    lemma_all_recorded(stale, asked);
    lemma_asked_for_named_once(after, true);
    lemma_asked_for_named_once(after, false);
    assert forall|file: LoadedView, fresh: bool|
        #![trigger asked_for(after, fresh).contains(file)]
        asked_for(after, fresh).contains(file) <==> (after.contains(file) && file.fresh == fresh) by {
        let some = asked_for(after, fresh);
        if some.contains(file) {
            let k = choose|k: int| 0 <= k < some.len() && some[k] == file;
            lemma_asked_for_from(after, fresh, k);
        }
        if after.contains(file) && file.fresh == fresh {
            let i = choose|i: int| 0 <= i < after.len() && after[i] == file;
            lemma_asked_for_holds(after, i);
        }
    }
    assert forall|file: LoadedView| #[trigger] asked_for(after, false).contains(file) <==> (
    found_last(asked, file.name) is None && stale.contains(file)) by {
        if stale.contains(file) {
            let i = choose|i: int| 0 <= i < stale.len() && stale[i] == file;
            assert(!stale[i].fresh);
        }
    }
}

/// Every file is either kept or let go of, and never both.
pub proof fn law_kept_or_let_go(files: Seq<LoadedView>)
    ensures
        asked_for(files, true).len() + asked_for(files, false).len() == files.len(),
        forall|file: LoadedView|
            !(#[trigger] asked_for(files, true).contains(file) && asked_for(files, false).contains(
                file,
            )),
    decreases files.len(),
{
    if files.len() > 0 {
        law_kept_or_let_go(files.drop_last());
    }
    assert forall|file: LoadedView|
        !(#[trigger] asked_for(files, true).contains(file) && asked_for(files, false).contains(
            file,
        )) by {
        if asked_for(files, true).contains(file) && asked_for(files, false).contains(file) {
            let a = choose|a: int|
                0 <= a < asked_for(files, true).len() && asked_for(files, true)[a] == file;
            let b = choose|b: int|
                0 <= b < asked_for(files, false).len() && asked_for(files, false)[b] == file;
            lemma_asked_for_from(files, true, a);
            lemma_asked_for_from(files, false, b);
        }
    }
}

/// A file is touched by a change to itself.
pub proof fn law_a_file_is_touched_by_itself(file: LocatedView)
    ensures
        touches(file, file),
{
}

} // verus!
