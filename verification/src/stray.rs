//! Keys a config writes and nobody reads.
//!
//! A key nobody reads configures nothing. It is named rather than refused, with
//! a guess at what was meant, so that a config that is right apart from one key
//! still comes up.

use crate::convert::{
    alias_at, align_at, background_at, background_of_table, bar_patch, color_at, display_at, edge_at, fault_of,
    flag_at, font_at, font_of_table, given, item_patch, measure_at, members_at, popup_at,
    popup_of_table, position_at, run_at, run_of_table, size_at, text_at, toggle_at,
    whole_at, Fields,
};
use crate::lua::{
    lemma_lua_fields, lookup, lua_fields, lua_view, LuaFault, LuaTable, LuaValue, LuaView,
};
use crate::state::{
    BackgroundPatchView, BarPatchView, ItemPatchView, PopupPatchView, RunPatchView,
};
use crate::style::FontView;
use crate::text::{chars_of, ends_with, joined3, same, starts_with, strip_prefix, strip_suffix};
use vstd::prelude::*;

verus! {

/// Keys over plain text.
pub open spec fn key_views(keys: Seq<&'static str>) -> Seq<Seq<char>> {
    keys.map_values(|k: &'static str| k@)
}

// ---------------------------------------------------------------------------
// Guesses

/// Whether a text is another with the character at some place taken out.
pub open spec fn one_left_out(text: Seq<char>, whole: Seq<char>) -> bool {
    exists|i: int| 0 <= i < whole.len() && text == #[trigger] whole.remove(i)
}

/// Whether a text is another with the character at some place replaced.
pub open spec fn one_replaced(text: Seq<char>, other: Seq<char>) -> bool {
    exists|i: int, c: char| 0 <= i < other.len() && text == #[trigger] other.update(i, c)
}

/// Where two texts first differ, or where the shorter ends.
fn parting(a: &Vec<char>, b: &Vec<char>) -> (r: usize)
    ensures
        r <= a@.len(),
        r <= b@.len(),
        forall|j: int| 0 <= j < r ==> a@[j] == b@[j],
        r < a@.len() && r < b@.len() ==> a@[r as int] != b@[r as int],
{
    let mut i: usize = 0;
    while i < a.len() && i < b.len() && a[i] == b[i]
        invariant
            i <= a@.len(),
            i <= b@.len(),
            forall|j: int| 0 <= j < i ==> a@[j] == b@[j],
        decreases a@.len() - i,
    {
        i = i + 1;
    }
    i
}

/// Whether two texts are one from some places on.
fn same_from(a: &Vec<char>, from: usize, b: &Vec<char>, with: usize) -> (r: bool)
    requires
        from <= a@.len(),
        with <= b@.len(),
    ensures
        r == (a@.skip(from as int) == b@.skip(with as int)),
{
    if a.len() - from != b.len() - with {
        assert(a@.skip(from as int).len() != b@.skip(with as int).len());
        return false;
    }
    let n: usize = b.len();
    let mut i: usize = 0;
    while i < a.len() - from
        invariant
            from <= a@.len(),
            with <= b@.len(),
            n == b@.len(),
            i <= a@.len() - from,
            a@.len() - from == b@.len() - with,
            forall|j: int|
                0 <= j < i ==> #[trigger] a@.skip(from as int)[j] == b@.skip(with as int)[j],
        decreases a@.len() - from - i,
    {
        assert(a@.skip(from as int)[i as int] == a@[from + i]);
        assert(b@.skip(with as int)[i as int] == b@[with + i]);
        if a[from + i] != b[with + i] {
            return false;
        }
        i = i + 1;
    }
    assert(a@.skip(from as int) =~= b@.skip(with as int));
    true
}

/// Where one character was left out, it may as well be the one where the texts
/// part.
proof fn lemma_left_out(text: Seq<char>, whole: Seq<char>, at: int)
    requires
        whole.len() == text.len() + 1,
        0 <= at <= text.len(),
        forall|j: int| 0 <= j < at ==> text[j] == whole[j],
        at < text.len() ==> text[at] != whole[at],
    ensures
        one_left_out(text, whole) <==> text.skip(at) == whole.skip(at + 1),
{
    if text.skip(at) == whole.skip(at + 1) {
        assert forall|j: int| 0 <= j < text.len() implies text[j] == whole.remove(at)[j] by {
            if j >= at {
                assert(text.skip(at)[j - at] == whole.skip(at + 1)[j - at]);
            }
        }
        assert(text =~= whole.remove(at));
    }
    if one_left_out(text, whole) {
        let i = choose|i: int| 0 <= i < whole.len() && text == #[trigger] whole.remove(i);
        if at < i {
            assert(whole.remove(i)[at] == whole[at]);
        }
        assert forall|j: int| 0 <= j < text.len() - at implies text.skip(at)[j] == whole.skip(
            at + 1,
        )[j] by {
            assert(text[at + j] == whole.remove(i)[at + j]);
        }
        assert(text.skip(at) =~= whole.skip(at + 1));
    }
}

/// Where one character was replaced, it is the one where the texts part.
proof fn lemma_replaced(text: Seq<char>, other: Seq<char>, at: int)
    requires
        text.len() == other.len(),
        0 <= at < text.len(),
        forall|j: int| 0 <= j < at ==> text[j] == other[j],
        text[at] != other[at],
    ensures
        one_replaced(text, other) <==> text.skip(at + 1) == other.skip(at + 1),
{
    if text.skip(at + 1) == other.skip(at + 1) {
        assert forall|j: int| 0 <= j < text.len() implies text[j] == other.update(at, text[at])[j] by {
            if j > at {
                assert(text.skip(at + 1)[j - at - 1] == other.skip(at + 1)[j - at - 1]);
            }
        }
        assert(text =~= other.update(at, text[at]));
    }
    if one_replaced(text, other) {
        let (i, c) = choose|i: int, c: char|
            0 <= i < other.len() && text == #[trigger] other.update(i, c);
        assert(text[at] == other.update(i, c)[at]);
        assert(i == at);
        assert(text.skip(at + 1) =~= other.skip(at + 1));
    }
}

/// Whether two keys are a slip apart.
fn one_slip(a: &str, b: &str) -> (r: bool)
    ensures
        r == slip_apart(a@, b@),
{
    let left = chars_of(a);
    let right = chars_of(b);
    let at: usize = parting(&left, &right);
    if left.len() == right.len() {
        proof {
            assert forall|i: int| 0 <= i < b@.len() implies a@ != #[trigger] b@.remove(i) by {
                assert(b@.remove(i).len() != a@.len());
            }
            assert forall|i: int| 0 <= i < a@.len() implies b@ != #[trigger] a@.remove(i) by {
                assert(a@.remove(i).len() != b@.len());
            }
        }
        if at == left.len() {
            assert(a@ =~= b@);
            return true;
        }
        proof {
            lemma_replaced(a@, b@, at as int);
            assert(a@ != b@);
        }
        same_from(&left, at + 1, &right, at + 1)
    } else {
        proof {
            assert forall|i: int, c: char| 0 <= i < b@.len() implies a@ != #[trigger] b@.update(
                i,
                c,
            ) by {
                assert(b@.update(i, c).len() != a@.len());
            }
        }
        if left.len() < right.len() {
            proof {
                assert forall|i: int| 0 <= i < a@.len() implies b@ != #[trigger] a@.remove(i) by {
                    assert(a@.remove(i).len() != b@.len());
                }
            }
            if right.len() - left.len() != 1 {
                assert forall|i: int| 0 <= i < b@.len() implies a@ != #[trigger] b@.remove(i) by {
                    assert(b@.remove(i).len() != a@.len());
                }
                return false;
            }
            proof {
                lemma_left_out(a@, b@, at as int);
            }
            same_from(&left, at, &right, at + 1)
        } else {
            proof {
                assert forall|i: int| 0 <= i < b@.len() implies a@ != #[trigger] b@.remove(i) by {
                    assert(b@.remove(i).len() != a@.len());
                }
            }
            if left.len() - right.len() != 1 {
                assert forall|i: int| 0 <= i < a@.len() implies b@ != #[trigger] a@.remove(i) by {
                    assert(a@.remove(i).len() != b@.len());
                }
                return false;
            }
            proof {
                lemma_left_out(b@, a@, at as int);
            }
            same_from(&right, at, &left, at + 1)
        }
    }
}

/// Whether one is how the other begins or ends.
pub open spec fn resembles(candidate: Seq<char>, key: Seq<char>) -> bool {
    starts_with(candidate, key) || ends_with(candidate, key) || starts_with(key, candidate)
        || ends_with(key, candidate)
}

/// Whether two keys are a slip apart: at most one character is another, is
/// missing or is too many.
pub open spec fn slip_apart(candidate: Seq<char>, key: Seq<char>) -> bool {
    candidate == key || one_replaced(candidate, key) || one_left_out(candidate, key)
        || one_left_out(key, candidate)
}

/// The first key that resembles one.
pub open spec fn first_resembling(known: Seq<Seq<char>>, key: Seq<char>) -> Option<Seq<char>>
    decreases known.len(),
{
    if known.len() == 0 {
        None
    } else if resembles(known[0], key) {
        Some(known[0])
    } else {
        first_resembling(known.skip(1), key)
    }
}

/// The first key that is a slip from one.
pub open spec fn first_slip_apart(known: Seq<Seq<char>>, key: Seq<char>) -> Option<Seq<char>>
    decreases known.len(),
{
    if known.len() == 0 {
        None
    } else if slip_apart(known[0], key) {
        Some(known[0])
    } else {
        first_slip_apart(known.skip(1), key)
    }
}

/// The known key worth suggesting for one: the first that it begins or ends, or
/// that begins or ends with it, and else the first that is a slip from it.
pub open spec fn nearest_to(key: Seq<char>, known: Seq<Seq<char>>) -> Option<Seq<char>> {
    match first_resembling(known, key) {
        Some(guess) => Some(guess),
        None => first_slip_apart(known, key),
    }
}

/// The known key worth suggesting for one.
pub fn nearest(key: &str, known: &Vec<&'static str>) -> (r: Option<&'static str>)
    ensures
        match r {
            Some(guess) => nearest_to(key@, key_views(known@)) == Some(guess@),
            None => nearest_to(key@, key_views(known@)) is None,
        },
{
    let ghost all = key_views(known@);
    let mut i: usize = 0;
    proof {
        assert(all.skip(0) =~= all);
    }
    while i < known.len()
        invariant
            i <= known@.len(),
            all == key_views(known@),
            first_resembling(all, key@) == first_resembling(all.skip(i as int), key@),
        decreases known@.len() - i,
    {
        let candidate: &'static str = known[i];
        proof {
            assert(all.skip(i as int)[0] == candidate@);
            assert(all.skip(i as int).skip(1) =~= all.skip(i + 1));
        }
        if strip_prefix(candidate, key).is_some() || strip_suffix(candidate, key).is_some()
            || strip_prefix(key, candidate).is_some() || strip_suffix(key, candidate).is_some() {
            return Some(candidate);
        }
        i = i + 1;
    }
    proof {
        assert(all.skip(i as int).len() == 0);
        assert(all.skip(0) =~= all);
    }
    let mut j: usize = 0;
    while j < known.len()
        invariant
            j <= known@.len(),
            all == key_views(known@),
            first_resembling(all, key@) is None,
            first_slip_apart(all, key@) == first_slip_apart(all.skip(j as int), key@),
        decreases known@.len() - j,
    {
        let candidate: &'static str = known[j];
        proof {
            assert(all.skip(j as int)[0] == candidate@);
            assert(all.skip(j as int).skip(1) =~= all.skip(j + 1));
        }
        if one_slip(candidate, key) {
            return Some(candidate);
        }
        j = j + 1;
    }
    proof {
        assert(all.skip(j as int).len() == 0);
    }
    None
}

// ---------------------------------------------------------------------------
// Stray keys

/// What there is to say of a key nobody reads.
#[derive(Debug, Clone, Copy, PartialEq, Eq)]
pub enum Note {
    /// It is a property there is nothing for yet, and why.
    Unimplemented(&'static str),
    /// It belongs to the item, not to a part of it.
    BelongsToItem,
    /// It may be another key.
    DidYouMean(&'static str),
    /// Nothing is known of it.
    DoesNothing,
}

/// [`Note`] over plain text.
pub enum NoteView {
    Unimplemented(Seq<char>),
    BelongsToItem,
    DidYouMean(Seq<char>),
    DoesNothing,
}

impl View for Note {
    type V = NoteView;

    open spec fn view(&self) -> NoteView {
        match self {
            Note::Unimplemented(why) => NoteView::Unimplemented(why@),
            Note::BelongsToItem => NoteView::BelongsToItem,
            Note::DidYouMean(guess) => NoteView::DidYouMean(guess@),
            Note::DoesNothing => NoteView::DoesNothing,
        }
    }
}

/// A key nobody reads.
#[derive(Debug, Clone, PartialEq, Eq)]
pub struct Stray {
    /// Which table it stands in.
    pub what: String,
    pub key: String,
    pub note: Note,
}

/// [`Stray`] over plain text.
pub struct StrayView {
    pub what: Seq<char>,
    pub key: Seq<char>,
    pub note: NoteView,
}

impl View for Stray {
    type V = StrayView;

    open spec fn view(&self) -> StrayView {
        StrayView { what: self.what@, key: self.key@, note: self.note@ }
    }
}

/// Stray keys over plain text.
pub open spec fn stray_views(strays: Seq<Stray>) -> Seq<StrayView> {
    strays.map_values(|s: Stray| s@)
}

/// What to say of a stray key.
pub open spec fn stray_text(stray: StrayView) -> Seq<char> {
    match stray.note {
        NoteView::Unimplemented(why) => "recognised, but not implemented: "@ + why,
        NoteView::BelongsToItem => "unknown setting here; `"@ + stray.key
            + ("` belongs to the item, not to its `"@ + stray.what + "`"@),
        NoteView::DidYouMean(guess) => "unknown setting; did you mean `"@ + guess + "`?"@,
        NoteView::DoesNothing => "unknown setting; it does nothing"@,
    }
}

impl Stray {
    /// What to say of it.
    pub fn to_string(&self) -> (r: String)
        ensures
            r@ == stray_text(self@),
    {
        match self.note {
            Note::Unimplemented(why) => crate::text::joined(
                "recognised, but not implemented: ",
                why,
            ),
            Note::BelongsToItem => joined3(
                "unknown setting here; `",
                &self.key,
                &joined3("` belongs to the item, not to its `", &self.what, "`"),
            ),
            Note::DidYouMean(guess) => joined3("unknown setting; did you mean `", guess, "`?"),
            Note::DoesNothing => "unknown setting; it does nothing".to_owned(),
        }
    }
}

/// Every key an item may carry.
pub open spec fn item_keys() -> Seq<Seq<char>> {
    seq!["icon"@, "label"@, "background"@, "padding_left"@, "padding_right"@, "y_offset"@, "position"@, "popup"@, "drawing"@, "script"@, "click_script"@, "alias"@, "members"@, "update_freq"@, "updates"@, "width"@, "display"@, "percentage"@, "highlight_color"@]
}

/// Every key an item may carry.
fn list_item_keys() -> (r: Vec<&'static str>)
    ensures
        key_views(r@) == item_keys(),
{
    let keys: Vec<&'static str> = vec!["icon", "label", "background", "padding_left", "padding_right", "y_offset", "position", "popup", "drawing", "script", "click_script", "alias", "members", "update_freq", "updates", "width", "display", "percentage", "highlight_color"];
    assert(key_views(keys@) =~= item_keys());
    keys
}

/// Every key a background may carry.
pub open spec fn background_keys() -> Seq<Seq<char>> {
    seq!["drawing"@, "color"@, "corner_radius"@, "height"@, "padding_left"@, "padding_right"@, "border_color"@, "border_width"@]
}

/// Every key a background may carry.
fn list_background_keys() -> (r: Vec<&'static str>)
    ensures
        key_views(r@) == background_keys(),
{
    let keys: Vec<&'static str> = vec!["drawing", "color", "corner_radius", "height", "padding_left", "padding_right", "border_color", "border_width"];
    assert(key_views(keys@) =~= background_keys());
    keys
}

/// Every key a popup may carry.
pub open spec fn popup_keys() -> Seq<Seq<char>> {
    seq!["drawing"@, "horizontal"@, "align"@, "topmost"@, "height"@, "y_offset"@, "background"@]
}

/// Every key a popup may carry.
fn list_popup_keys() -> (r: Vec<&'static str>)
    ensures
        key_views(r@) == popup_keys(),
{
    let keys: Vec<&'static str> = vec!["drawing", "horizontal", "align", "topmost", "height", "y_offset", "background"];
    assert(key_views(keys@) =~= popup_keys());
    keys
}

/// Every key one half of an item may carry.
pub open spec fn run_keys() -> Seq<Seq<char>> {
    seq!["string"@, "text"@, "color"@, "font"@, "drawing"@, "padding_left"@, "padding_right"@]
}

/// Every key one half of an item may carry.
fn list_run_keys() -> (r: Vec<&'static str>)
    ensures
        key_views(r@) == run_keys(),
{
    let keys: Vec<&'static str> = vec!["string", "text", "color", "font", "drawing", "padding_left", "padding_right"];
    assert(key_views(keys@) =~= run_keys());
    keys
}

/// Every key a font may carry.
pub open spec fn font_keys() -> Seq<Seq<char>> {
    seq!["family"@, "style"@, "size"@]
}

/// Every key a font may carry.
fn list_font_keys() -> (r: Vec<&'static str>)
    ensures
        key_views(r@) == font_keys(),
{
    let keys: Vec<&'static str> = vec!["family", "style", "size"];
    assert(key_views(keys@) =~= font_keys());
    keys
}

/// Every key the bar may carry.
pub open spec fn bar_keys() -> Seq<Seq<char>> {
    seq!["height"@, "edge"@, "position"@, "color"@, "margin"@, "y_offset"@, "corner_radius"@, "blur_radius"@, "hidden"@, "topmost"@, "padding_left"@, "padding_right"@, "sticky"@, "show_in_fullscreen"@, "notch_width"@, "notch_offset"@, "notch_display_height"@, "display"@]
}

/// Every key the bar may carry.
fn list_bar_keys() -> (r: Vec<&'static str>)
    ensures
        key_views(r@) == bar_keys(),
{
    let keys: Vec<&'static str> = vec!["height", "edge", "position", "color", "margin", "y_offset", "corner_radius", "blur_radius", "hidden", "topmost", "padding_left", "padding_right", "sticky", "show_in_fullscreen", "notch_width", "notch_offset", "notch_display_height", "display"];
    assert(key_views(keys@) =~= bar_keys());
    keys
}
/// A property of one half of an item there is nothing for yet.
pub open spec fn run_gap(key: Seq<char>) -> Option<Seq<char>> {
    if key == "y_offset"@ {
        Some("shifting the icon/label independently of the item; needs a `Run`/`RunPatch::y_offset` field (tracked separately)"@)
    } else {
        None
    }
}

/// A property of what an item mirrors there is nothing for yet.
pub open spec fn alias_gap(key: Seq<char>) -> Option<Seq<char>> {
    if key == "color"@ {
        Some("tinting the mirrored menu bar icon; needs an `ItemPatch::alias` colour, not just a name"@)
    } else {
        None
    }
}

/// A table a config writes.
#[derive(Debug, Clone, Copy, PartialEq, Eq, Structural)]
pub enum Place {
    Item,
    Bar,
    Background,
    Popup,
    Run,
    Font,
    Alias,
}

/// Every key a table may carry.
pub open spec fn known_in(place: Place) -> Seq<Seq<char>> {
    match place {
        Place::Item => item_keys(),
        Place::Bar => bar_keys(),
        Place::Background => background_keys(),
        Place::Popup => popup_keys(),
        Place::Run => run_keys(),
        Place::Font => font_keys(),
        Place::Alias => Seq::empty(),
    }
}

/// Why there is nothing behind a key of a table.
pub open spec fn gap_in(place: Place, key: Seq<char>) -> Option<Seq<char>> {
    match place {
        Place::Run => run_gap(key),
        Place::Alias => alias_gap(key),
        _ => None,
    }
}

/// What there is to say of a key, nothing where it is read.
pub open spec fn note_of(place: Place, key: Seq<char>) -> Option<NoteView> {
    if known_in(place).contains(key) {
        None
    } else {
        match gap_in(place, key) {
            Some(why) => Some(NoteView::Unimplemented(why)),
            None => if place != Place::Item && item_keys().contains(key) {
                Some(NoteView::BelongsToItem)
            } else {
                match nearest_to(key, known_in(place)) {
                    Some(guess) => Some(NoteView::DidYouMean(guess)),
                    None => Some(NoteView::DoesNothing),
                }
            },
        }
    }
}

/// Every key a table may carry.
fn list_known(place: Place) -> (r: Vec<&'static str>)
    ensures
        key_views(r@) == known_in(place),
{
    match place {
        Place::Item => list_item_keys(),
        Place::Bar => list_bar_keys(),
        Place::Background => list_background_keys(),
        Place::Popup => list_popup_keys(),
        Place::Run => list_run_keys(),
        Place::Font => list_font_keys(),
        Place::Alias => {
            let none: Vec<&'static str> = Vec::new();
            assert(key_views(none@) =~= Seq::<Seq<char>>::empty());
            none
        },
    }
}

/// Whether a key is in a list.
fn has_key(keys: &Vec<&'static str>, key: &str) -> (r: bool)
    ensures
        r == key_views(keys@).contains(key@),
{
    let ghost all = key_views(keys@);
    let mut i: usize = 0;
    while i < keys.len()
        invariant
            i <= keys@.len(),
            all == key_views(keys@),
            forall|j: int| 0 <= j < i ==> #[trigger] all[j] != key@,
        decreases keys@.len() - i,
    {
        if same(keys[i], key) {
            assert(all[i as int] == key@);
            return true;
        }
        i = i + 1;
    }
    false
}

/// Why there is nothing behind a key of a table.
fn gap(place: Place, key: &str) -> (r: Option<&'static str>)
    ensures
        match r {
            Some(why) => gap_in(place, key@) == Some(why@),
            None => gap_in(place, key@) is None,
        },
{
    match place {
        Place::Run => if same(key, "y_offset") {
            Some("shifting the icon/label independently of the item; needs a `Run`/`RunPatch::y_offset` field (tracked separately)")
        } else {
            None
        },
        Place::Alias => if same(key, "color") {
            Some("tinting the mirrored menu bar icon; needs an `ItemPatch::alias` colour, not just a name")
        } else {
            None
        },
        _ => None,
    }
}

/// What there is to say of a key, nothing where it is read.
pub fn note(place: Place, key: &str) -> (r: Option<Note>)
    ensures
        match r {
            Some(note) => note_of(place, key@) == Some(note@),
            None => note_of(place, key@) is None,
        },
{
    let known = list_known(place);
    if has_key(&known, key) {
        return None;
    }
    match gap(place, key) {
        Some(why) => Some(Note::Unimplemented(why)),
        None => {
            let items = list_item_keys();
            if place != Place::Item && has_key(&items, key) {
                Some(Note::BelongsToItem)
            } else {
                match nearest(key, &known) {
                    Some(guess) => Some(Note::DidYouMean(guess)),
                    None => Some(Note::DoesNothing),
                }
            }
        },
    }
}

/// The stray keys of a table, in the order they stand.
pub open spec fn strays_in(
    fields: Seq<(Seq<char>, LuaView)>,
    place: Place,
    what: Seq<char>,
) -> Seq<StrayView>
    decreases fields.len(),
{
    if fields.len() == 0 {
        Seq::empty()
    } else {
        let before = strays_in(fields.drop_last(), place, what);
        match note_of(place, fields.last().0) {
            Some(note) => before.push(StrayView { what, key: fields.last().0, note }),
            None => before,
        }
    }
}

/// Adds the stray keys of a table to a list.
fn add_strays(table: &LuaTable, place: Place, what: &str, into: &mut Vec<Stray>)
    ensures
        stray_views(final(into)@) == stray_views(old(into)@) + strays_in(table@.0, place, what@),
{
    let ghost all = lua_fields(table.fields@);
    let ghost start = stray_views(into@);
    let mut i: usize = 0;
    proof {
        lemma_lua_fields(table.fields@);
        assert(all.take(0) =~= Seq::<(Seq<char>, LuaView)>::empty());
        assert(start + strays_in(all.take(0), place, what@) =~= start);
    }
    while i < table.fields.len()
        invariant
            i <= table.fields@.len(),
            all == lua_fields(table.fields@),
            all.len() == table.fields@.len(),
            stray_views(into@) == start + strays_in(all.take(i as int), place, what@),
        decreases table.fields@.len() - i,
    {
        proof {
            lemma_lua_fields(table.fields@);
            assert(lua_fields(table.fields@)[i as int] == (
                table.fields@[i as int].0@,
                lua_view(table.fields@[i as int].1),
            ));
            assert(all.take(i + 1).drop_last() =~= all.take(i as int));
            assert(all.take(i + 1).last() == all[i as int]);
        }
        let ghost before = into@;
        if let Some(note) = note(place, &table.fields[i].0) {
            let stray = Stray { what: what.to_owned(), key: table.fields[i].0.clone(), note };
            let ghost view = stray@;
            into.push(stray);
            proof {
                assert(stray_views(into@) =~= stray_views(before).push(view));
                assert(start + strays_in(all.take(i + 1), place, what@) =~= (start + strays_in(
                    all.take(i as int),
                    place,
                    what@,
                )).push(view));
            }
        }
        i = i + 1;
    }
    proof {
        assert(all.take(all.len() as int) =~= all);
    }
}

/// The stray keys of the table a field holds, none where it holds none.
pub open spec fn strays_under(
    fields: Seq<(Seq<char>, LuaView)>,
    key: Seq<char>,
    place: Place,
) -> Seq<StrayView> {
    match lookup(fields, key) {
        LuaView::Table(inner, _, _) => strays_in(inner, place, key),
        _ => Seq::empty(),
    }
}

/// Adds the stray keys of the table a field holds to a list, and gives the
/// table.
fn add_strays_under<'a>(
    table: &'a LuaTable,
    key: &str,
    place: Place,
    into: &mut Vec<Stray>,
) -> (r: Option<&'a LuaTable>)
    ensures
        stray_views(final(into)@) == stray_views(old(into)@) + strays_under(table@.0, key@, place),
        match r {
            Some(inner) => lookup(table@.0, key@) matches LuaView::Table(fields, items, _) && fields
                == inner@.0 && items == inner@.1,
            None => !(lookup(table@.0, key@) is Table),
        },
{
    proof {
        assert(stray_views(into@) + Seq::<StrayView>::empty() =~= stray_views(into@));
    }
    match table.get(key) {
        None => None,
        Some(value) => match value {
            LuaValue::Table(inner, _) => {
                add_strays(inner, place, key, into);
                Some(inner)
            },
            _ => None,
        },
    }
}

/// The stray keys of one half of an item: its own, and then its font's.
pub open spec fn run_strays(fields: Seq<(Seq<char>, LuaView)>, key: Seq<char>) -> Seq<StrayView> {
    match lookup(fields, key) {
        LuaView::Table(inner, _, _) => strays_in(inner, Place::Run, key) + strays_under(
            inner,
            "font"@,
            Place::Font,
        ),
        _ => Seq::empty(),
    }
}

/// The stray keys of a popup: its own, and then those of what is behind it.
pub open spec fn popup_strays(fields: Seq<(Seq<char>, LuaView)>) -> Seq<StrayView> {
    match lookup(fields, "popup"@) {
        LuaView::Table(inner, _, _) => strays_in(inner, Place::Popup, "popup"@) + strays_under(
            inner,
            "background"@,
            Place::Background,
        ),
        _ => Seq::empty(),
    }
}

/// The stray keys of an item and of everything in it.
pub open spec fn all_item_strays(fields: Seq<(Seq<char>, LuaView)>) -> Seq<StrayView> {
    strays_in(fields, Place::Item, "item"@) + run_strays(fields, "icon"@) + run_strays(
        fields,
        "label"@,
    ) + popup_strays(fields) + strays_under(fields, "background"@, Place::Background)
        + strays_under(fields, "alias"@, Place::Alias)
}

/// Adds the stray keys of one half of an item to a list.
fn add_run_strays(table: &LuaTable, key: &str, into: &mut Vec<Stray>)
    ensures
        stray_views(final(into)@) == stray_views(old(into)@) + run_strays(table@.0, key@),
{
    let ghost start = stray_views(into@);
    if let Some(inner) = add_strays_under(table, key, Place::Run, into) {
        let ghost mid = stray_views(into@);
        let _font = add_strays_under(inner, "font", Place::Font, into);
        proof {
            assert(stray_views(into@) =~= start + run_strays(table@.0, key@));
        }
    }
}

/// The stray keys of an item and of everything in it.
pub fn item_strays(table: &LuaTable) -> (r: Vec<Stray>)
    ensures
        stray_views(r@) == all_item_strays(table@.0),
{
    let mut out: Vec<Stray> = Vec::new();
    proof {
        assert(stray_views(out@) =~= Seq::<StrayView>::empty());
    }
    add_strays(table, Place::Item, "item", &mut out);
    add_run_strays(table, "icon", &mut out);
    add_run_strays(table, "label", &mut out);
    let ghost before = stray_views(out@);
    if let Some(popup) = add_strays_under(table, "popup", Place::Popup, &mut out) {
        let _behind = add_strays_under(popup, "background", Place::Background, &mut out);
    }
    proof {
        assert(stray_views(out@) =~= before + popup_strays(table@.0));
    }
    let _background = add_strays_under(table, "background", Place::Background, &mut out);
    let _alias = add_strays_under(table, "alias", Place::Alias, &mut out);
    proof {
        assert(stray_views(out@) =~= all_item_strays(table@.0));
    }
    out
}

/// The stray keys of the bar.
pub fn bar_strays(table: &LuaTable) -> (r: Vec<Stray>)
    ensures
        stray_views(r@) == strays_in(table@.0, Place::Bar, "bar"@),
{
    let mut out: Vec<Stray> = Vec::new();
    proof {
        assert(stray_views(out@) =~= Seq::<StrayView>::empty());
    }
    add_strays(table, Place::Bar, "bar", &mut out);
    proof {
        assert(stray_views(out@) =~= strays_in(table@.0, Place::Bar, "bar"@));
    }
    out
}

/// What is read of a table.
pub enum Reading {
    Item(Result<ItemPatchView, LuaFault>),
    Bar(Result<BarPatchView, LuaFault>),
    Background(Result<BackgroundPatchView, LuaFault>),
    Popup(Result<PopupPatchView, LuaFault>),
    Run(Result<RunPatchView, LuaFault>),
    Font(Result<FontView, LuaFault>),
    Nothing,
}

/// What is read of a table, which of what an item mirrors is nothing.
pub open spec fn reading(place: Place, fields: Fields) -> Reading {
    match place {
        Place::Item => Reading::Item(item_patch(fields)),
        Place::Bar => Reading::Bar(bar_patch(fields)),
        Place::Background => Reading::Background(background_of_table(fields)),
        Place::Popup => Reading::Popup(popup_of_table(fields)),
        Place::Run => Reading::Run(run_of_table(fields)),
        Place::Font => Reading::Font(font_of_table(fields)),
        Place::Alias => Reading::Nothing,
    }
}

/// Whether two tables hold the same under every other key.
pub open spec fn alike_but_for(a: Fields, b: Fields, key: Seq<char>) -> bool {
    forall|other: Seq<char>| other != key ==> #[trigger] lookup(a, other) == lookup(b, other)
}

/// Whether what a table holds under a key ever makes a difference.
pub open spec fn is_read(place: Place, key: Seq<char>) -> bool {
    exists|a: Fields, b: Fields| #[trigger]
        alike_but_for(a, b, key) && reading(place, a) != reading(place, b)
}

/// What stands under a key that is not known is not read.
proof fn lemma_unknown_is_unread(place: Place, key: Seq<char>, a: Fields, b: Fields)
    requires
        !known_in(place).contains(key),
        alike_but_for(a, b, key),
    ensures
        reading(place, a) == reading(place, b),
{
    let known = known_in(place);
    assert forall|i: int| 0 <= i < known.len() implies lookup(a, #[trigger] known[i]) == lookup(
        b,
        known[i],
    ) by {
        assert(known.contains(known[i]));
    }
    match place {
        Place::Item => {
            lemma_item_reading(a, b);
        },
        Place::Bar => {
            lemma_bar_reading(a, b);
        },
        Place::Background => {
            lemma_background_reading(a, b);
        },
        Place::Popup => {
            lemma_popup_reading(a, b);
        },
        Place::Run => {
            lemma_run_reading(a, b);
        },
        Place::Font => {
            lemma_font_reading(a, b);
        },
        Place::Alias => {},
    }
}

/// Whether two tables hold the same under some keys.
spec fn agree(a: Fields, b: Fields, keys: Seq<Seq<char>>) -> bool {
    forall|i: int| 0 <= i < keys.len() ==> lookup(a, #[trigger] keys[i]) == lookup(b, keys[i])
}

/// What a table says of an item goes by the keys it may carry alone.
proof fn lemma_item_reading(a: Fields, b: Fields)
    requires
        agree(a, b, item_keys()),
    ensures
        item_patch(a) == item_patch(b),
{
    let keys = item_keys();
    assert(lookup(a, keys[0]) == lookup(b, keys[0]));
    assert(lookup(a, keys[1]) == lookup(b, keys[1]));
    assert(lookup(a, keys[2]) == lookup(b, keys[2]));
    assert(lookup(a, keys[3]) == lookup(b, keys[3]));
    assert(lookup(a, keys[4]) == lookup(b, keys[4]));
    assert(lookup(a, keys[5]) == lookup(b, keys[5]));
    assert(lookup(a, keys[6]) == lookup(b, keys[6]));
    assert(lookup(a, keys[7]) == lookup(b, keys[7]));
    assert(lookup(a, keys[8]) == lookup(b, keys[8]));
    assert(lookup(a, keys[9]) == lookup(b, keys[9]));
    assert(lookup(a, keys[10]) == lookup(b, keys[10]));
    assert(lookup(a, keys[11]) == lookup(b, keys[11]));
    assert(lookup(a, keys[12]) == lookup(b, keys[12]));
    assert(lookup(a, keys[13]) == lookup(b, keys[13]));
    assert(lookup(a, keys[14]) == lookup(b, keys[14]));
    assert(lookup(a, keys[15]) == lookup(b, keys[15]));
    assert(lookup(a, keys[16]) == lookup(b, keys[16]));
    assert(lookup(a, keys[17]) == lookup(b, keys[17]));
    assert(lookup(a, keys[18]) == lookup(b, keys[18]));
    assert(run_at(a, "icon"@) == run_at(b, "icon"@));
    assert(run_at(a, "label"@) == run_at(b, "label"@));
    assert(whole_at(a, "percentage"@, 0, 255, "u8"@) == whole_at(b, "percentage"@, 0, 255, "u8"@));
    assert(color_at(a, "highlight_color"@) == color_at(b, "highlight_color"@));
    assert(popup_at(a) == popup_at(b));
    assert(flag_at(a, "updates"@) == flag_at(b, "updates"@));
    assert(measure_at(a, "width"@) == measure_at(b, "width"@));
    assert(display_at(a, "display"@) == display_at(b, "display"@));
    assert(background_at(a) == background_at(b));
    assert(measure_at(a, "padding_left"@) == measure_at(b, "padding_left"@));
    assert(measure_at(a, "padding_right"@) == measure_at(b, "padding_right"@));
    assert(measure_at(a, "y_offset"@) == measure_at(b, "y_offset"@));
    assert(position_at(a, "position"@) == position_at(b, "position"@));
    assert(toggle_at(a, "drawing"@) == toggle_at(b, "drawing"@));
    assert(text_at(a, "script"@) == text_at(b, "script"@));
    assert(text_at(a, "click_script"@) == text_at(b, "click_script"@));
    assert(alias_at(a) == alias_at(b));
    assert(members_at(a) == members_at(b));
    assert(whole_at(a, "update_freq"@, 0, 0xffff_ffff, "u32"@) == whole_at(b, "update_freq"@, 0, 0xffff_ffff, "u32"@));
}

/// What a table says of the bar goes by the keys it may carry alone.
proof fn lemma_bar_reading(a: Fields, b: Fields)
    requires
        agree(a, b, bar_keys()),
    ensures
        bar_patch(a) == bar_patch(b),
{
    let keys = bar_keys();
    assert(lookup(a, keys[0]) == lookup(b, keys[0]));
    assert(lookup(a, keys[1]) == lookup(b, keys[1]));
    assert(lookup(a, keys[2]) == lookup(b, keys[2]));
    assert(lookup(a, keys[3]) == lookup(b, keys[3]));
    assert(lookup(a, keys[4]) == lookup(b, keys[4]));
    assert(lookup(a, keys[5]) == lookup(b, keys[5]));
    assert(lookup(a, keys[6]) == lookup(b, keys[6]));
    assert(lookup(a, keys[7]) == lookup(b, keys[7]));
    assert(lookup(a, keys[8]) == lookup(b, keys[8]));
    assert(lookup(a, keys[9]) == lookup(b, keys[9]));
    assert(lookup(a, keys[10]) == lookup(b, keys[10]));
    assert(lookup(a, keys[11]) == lookup(b, keys[11]));
    assert(lookup(a, keys[12]) == lookup(b, keys[12]));
    assert(lookup(a, keys[13]) == lookup(b, keys[13]));
    assert(lookup(a, keys[14]) == lookup(b, keys[14]));
    assert(lookup(a, keys[15]) == lookup(b, keys[15]));
    assert(lookup(a, keys[16]) == lookup(b, keys[16]));
    assert(lookup(a, keys[17]) == lookup(b, keys[17]));
    assert(edge_at(a) == edge_at(b));
    assert(flag_at(a, "sticky"@) == flag_at(b, "sticky"@));
    assert(flag_at(a, "show_in_fullscreen"@) == flag_at(b, "show_in_fullscreen"@));
    assert(measure_at(a, "notch_width"@) == measure_at(b, "notch_width"@));
    assert(measure_at(a, "notch_offset"@) == measure_at(b, "notch_offset"@));
    assert(measure_at(a, "notch_display_height"@) == measure_at(b, "notch_display_height"@));
    assert(measure_at(a, "padding_left"@) == measure_at(b, "padding_left"@));
    assert(measure_at(a, "padding_right"@) == measure_at(b, "padding_right"@));
    assert(display_at(a, "display"@) == display_at(b, "display"@));
    assert(measure_at(a, "height"@) == measure_at(b, "height"@));
    assert(color_at(a, "color"@) == color_at(b, "color"@));
    assert(measure_at(a, "margin"@) == measure_at(b, "margin"@));
    assert(measure_at(a, "y_offset"@) == measure_at(b, "y_offset"@));
    assert(measure_at(a, "corner_radius"@) == measure_at(b, "corner_radius"@));
    assert(whole_at(a, "blur_radius"@, -0x8000_0000, 0x7fff_ffff, "i32"@) == whole_at(b, "blur_radius"@, -0x8000_0000, 0x7fff_ffff, "i32"@));
    assert(flag_at(a, "hidden"@) == flag_at(b, "hidden"@));
    assert(flag_at(a, "topmost"@) == flag_at(b, "topmost"@));
}

/// What a table says of what is behind an item goes by the keys it may carry alone.
proof fn lemma_background_reading(a: Fields, b: Fields)
    requires
        agree(a, b, background_keys()),
    ensures
        background_of_table(a) == background_of_table(b),
{
    let keys = background_keys();
    assert(lookup(a, keys[0]) == lookup(b, keys[0]));
    assert(lookup(a, keys[1]) == lookup(b, keys[1]));
    assert(lookup(a, keys[2]) == lookup(b, keys[2]));
    assert(lookup(a, keys[3]) == lookup(b, keys[3]));
    assert(lookup(a, keys[4]) == lookup(b, keys[4]));
    assert(lookup(a, keys[5]) == lookup(b, keys[5]));
    assert(lookup(a, keys[6]) == lookup(b, keys[6]));
    assert(lookup(a, keys[7]) == lookup(b, keys[7]));
}

/// What a table says of a popup goes by the keys it may carry alone.
proof fn lemma_popup_reading(a: Fields, b: Fields)
    requires
        agree(a, b, popup_keys()),
    ensures
        popup_of_table(a) == popup_of_table(b),
{
    let keys = popup_keys();
    assert(lookup(a, keys[0]) == lookup(b, keys[0]));
    assert(lookup(a, keys[1]) == lookup(b, keys[1]));
    assert(lookup(a, keys[2]) == lookup(b, keys[2]));
    assert(lookup(a, keys[3]) == lookup(b, keys[3]));
    assert(lookup(a, keys[4]) == lookup(b, keys[4]));
    assert(lookup(a, keys[5]) == lookup(b, keys[5]));
    assert(lookup(a, keys[6]) == lookup(b, keys[6]));
}

/// What a table says of one half of an item goes by the keys it may carry alone.
proof fn lemma_run_reading(a: Fields, b: Fields)
    requires
        agree(a, b, run_keys()),
    ensures
        run_of_table(a) == run_of_table(b),
{
    let keys = run_keys();
    assert(lookup(a, keys[0]) == lookup(b, keys[0]));
    assert(lookup(a, keys[1]) == lookup(b, keys[1]));
    assert(lookup(a, keys[2]) == lookup(b, keys[2]));
    assert(lookup(a, keys[3]) == lookup(b, keys[3]));
    assert(lookup(a, keys[4]) == lookup(b, keys[4]));
    assert(lookup(a, keys[5]) == lookup(b, keys[5]));
    assert(lookup(a, keys[6]) == lookup(b, keys[6]));
}

/// What a table says of a font goes by the keys it may carry alone.
proof fn lemma_font_reading(a: Fields, b: Fields)
    requires
        agree(a, b, font_keys()),
    ensures
        font_of_table(a) == font_of_table(b),
{
    let keys = font_keys();
    assert(lookup(a, keys[0]) == lookup(b, keys[0]));
    assert(lookup(a, keys[1]) == lookup(b, keys[1]));
    assert(lookup(a, keys[2]) == lookup(b, keys[2]));
}

/// A truth value under a key that an item may carry makes a difference.
#[verifier::rlimit(60)]
#[verifier::spinoff_prover]
proof fn lemma_item_keys_are_read(a: Fields, b: Fields, i: int)
    requires
        0 <= i < item_keys().len(),
        lookup(a, item_keys()[i]) == LuaView::Boolean(true),
        b.len() == 0,
    ensures
        item_patch(a) != item_patch(b),
{
    let keys = item_keys();
    assert(forall|other: Seq<char>| #[trigger] lookup(b, other) == LuaView::Nil);
    assert(item_patch(b) is Ok);
    if i == 0 {
        assert(fault_of(run_at(a, "icon"@)) is Some);
    } else if i == 1 {
        assert(fault_of(run_at(a, "label"@)) is Some);
    } else if i == 2 {
        assert(fault_of(background_at(a)) is Some);
    } else if i == 3 {
        assert(fault_of(measure_at(a, "padding_left"@)) is Some);
    } else if i == 4 {
        assert(fault_of(measure_at(a, "padding_right"@)) is Some);
    } else if i == 5 {
        assert(fault_of(measure_at(a, "y_offset"@)) is Some);
    } else if i == 6 {
        assert(fault_of(position_at(a, "position"@)) is Some);
    } else if i == 7 {
        assert(fault_of(popup_at(a)) is Some);
    } else if i == 8 {
        assert(given(toggle_at(a, "drawing"@)) is Some);
        assert(given(toggle_at(b, "drawing"@)) is None);
    } else if i == 9 {
        assert(fault_of(text_at(a, "script"@)) is Some);
    } else if i == 10 {
        assert(fault_of(text_at(a, "click_script"@)) is Some);
    } else if i == 11 {
        assert(fault_of(alias_at(a)) is Some);
    } else if i == 12 {
        assert(fault_of(members_at(a)) is Some);
    } else if i == 13 {
        assert(fault_of(whole_at(a, "update_freq"@, 0, 0xffff_ffff, "u32"@)) is Some);
    } else if i == 14 {
        assert(given(flag_at(a, "updates"@)) is Some);
        assert(given(flag_at(b, "updates"@)) is None);
    } else if i == 15 {
        assert(fault_of(measure_at(a, "width"@)) is Some);
    } else if i == 16 {
        assert(fault_of(display_at(a, "display"@)) is Some);
    } else if i == 17 {
        assert(fault_of(whole_at(a, "percentage"@, 0, 255, "u8"@)) is Some);
    } else if i == 18 {
        assert(fault_of(color_at(a, "highlight_color"@)) is Some);
    }
}

/// A truth value under a key that the bar may carry makes a difference.
#[verifier::rlimit(60)]
#[verifier::spinoff_prover]
proof fn lemma_bar_keys_are_read(a: Fields, b: Fields, i: int)
    requires
        0 <= i < bar_keys().len(),
        lookup(a, bar_keys()[i]) == LuaView::Boolean(true),
        b.len() == 0,
    ensures
        bar_patch(a) != bar_patch(b),
{
    let keys = bar_keys();
    assert(forall|other: Seq<char>| #[trigger] lookup(b, other) == LuaView::Nil);
    assert(bar_patch(b) is Ok);
    if i == 0 {
        assert(fault_of(measure_at(a, "height"@)) is Some);
    } else if i == 1 {
        assert(edge_at(a) != edge_at(b));
    } else if i == 2 {
        assert(fault_of(edge_at(a)) is Some);
    } else if i == 3 {
        assert(fault_of(color_at(a, "color"@)) is Some);
    } else if i == 4 {
        assert(fault_of(measure_at(a, "margin"@)) is Some);
    } else if i == 5 {
        assert(fault_of(measure_at(a, "y_offset"@)) is Some);
    } else if i == 6 {
        assert(fault_of(measure_at(a, "corner_radius"@)) is Some);
    } else if i == 7 {
        assert(fault_of(whole_at(a, "blur_radius"@, -0x8000_0000, 0x7fff_ffff, "i32"@)) is Some);
    } else if i == 8 {
        assert(given(flag_at(a, "hidden"@)) is Some);
        assert(given(flag_at(b, "hidden"@)) is None);
    } else if i == 9 {
        assert(given(flag_at(a, "topmost"@)) is Some);
        assert(given(flag_at(b, "topmost"@)) is None);
    } else if i == 10 {
        assert(fault_of(measure_at(a, "padding_left"@)) is Some);
    } else if i == 11 {
        assert(fault_of(measure_at(a, "padding_right"@)) is Some);
    } else if i == 12 {
        assert(given(flag_at(a, "sticky"@)) is Some);
        assert(given(flag_at(b, "sticky"@)) is None);
    } else if i == 13 {
        assert(given(flag_at(a, "show_in_fullscreen"@)) is Some);
        assert(given(flag_at(b, "show_in_fullscreen"@)) is None);
    } else if i == 14 {
        assert(fault_of(measure_at(a, "notch_width"@)) is Some);
    } else if i == 15 {
        assert(fault_of(measure_at(a, "notch_offset"@)) is Some);
    } else if i == 16 {
        assert(fault_of(measure_at(a, "notch_display_height"@)) is Some);
    } else if i == 17 {
        assert(fault_of(display_at(a, "display"@)) is Some);
    }
}

/// A truth value under a key that what is behind an item may carry makes a difference.
proof fn lemma_background_keys_are_read(a: Fields, b: Fields, i: int)
    requires
        0 <= i < background_keys().len(),
        lookup(a, background_keys()[i]) == LuaView::Boolean(true),
        b.len() == 0,
    ensures
        background_of_table(a) != background_of_table(b),
{
    let keys = background_keys();
    assert(forall|other: Seq<char>| #[trigger] lookup(b, other) == LuaView::Nil);
    assert(background_of_table(b) is Ok);
    if i == 0 {
        assert(given(flag_at(a, "drawing"@)) is Some);
        assert(given(flag_at(b, "drawing"@)) is None);
    } else if i == 1 {
        assert(fault_of(color_at(a, "color"@)) is Some);
    } else if i == 2 {
        assert(fault_of(measure_at(a, "corner_radius"@)) is Some);
    } else if i == 3 {
        assert(fault_of(measure_at(a, "height"@)) is Some);
    } else if i == 4 {
        assert(fault_of(measure_at(a, "padding_left"@)) is Some);
    } else if i == 5 {
        assert(fault_of(measure_at(a, "padding_right"@)) is Some);
    } else if i == 6 {
        assert(fault_of(color_at(a, "border_color"@)) is Some);
    } else if i == 7 {
        assert(fault_of(measure_at(a, "border_width"@)) is Some);
    }
}

/// A truth value under a key that a popup may carry makes a difference.
proof fn lemma_popup_keys_are_read(a: Fields, b: Fields, i: int)
    requires
        0 <= i < popup_keys().len(),
        lookup(a, popup_keys()[i]) == LuaView::Boolean(true),
        b.len() == 0,
    ensures
        popup_of_table(a) != popup_of_table(b),
{
    let keys = popup_keys();
    assert(forall|other: Seq<char>| #[trigger] lookup(b, other) == LuaView::Nil);
    assert(popup_of_table(b) is Ok);
    if i == 0 {
        assert(given(toggle_at(a, "drawing"@)) is Some);
        assert(given(toggle_at(b, "drawing"@)) is None);
    } else if i == 1 {
        assert(given(flag_at(a, "horizontal"@)) is Some);
        assert(given(flag_at(b, "horizontal"@)) is None);
    } else if i == 2 {
        assert(fault_of(align_at(a, "align"@)) is Some);
    } else if i == 3 {
        assert(given(flag_at(a, "topmost"@)) is Some);
        assert(given(flag_at(b, "topmost"@)) is None);
    } else if i == 4 {
        assert(fault_of(measure_at(a, "height"@)) is Some);
    } else if i == 5 {
        assert(fault_of(measure_at(a, "y_offset"@)) is Some);
    } else if i == 6 {
        assert(fault_of(background_at(a)) is Some);
    }
}

/// A truth value under a key that one half of an item may
/// carry makes a difference.
proof fn lemma_run_keys_are_read(a: Fields, b: Fields, i: int)
    requires
        0 <= i < run_keys().len(),
        lookup(a, run_keys()[i]) == LuaView::Boolean(true),
        b.len() == 0,
    ensures
        run_of_table(a) != run_of_table(b),
{
    let keys = run_keys();
    assert(forall|other: Seq<char>| #[trigger] lookup(b, other) == LuaView::Nil);
    assert(run_of_table(b) is Ok);
    if i == 0 {
        assert(fault_of(text_at(a, "string"@)) is Some);
    } else if i == 1 {
        assert(fault_of(text_at(a, "text"@)) is Some);
    } else if i == 2 {
        assert(fault_of(color_at(a, "color"@)) is Some);
    } else if i == 3 {
        assert(fault_of(font_at(a)) is Some);
    } else if i == 4 {
        assert(given(flag_at(a, "drawing"@)) is Some);
        assert(given(flag_at(b, "drawing"@)) is None);
    } else if i == 5 {
        assert(fault_of(measure_at(a, "padding_left"@)) is Some);
    } else if i == 6 {
        assert(fault_of(measure_at(a, "padding_right"@)) is Some);
    }
}

/// A truth value under a key that a font may carry makes a difference.
proof fn lemma_font_keys_are_read(a: Fields, b: Fields, i: int)
    requires
        0 <= i < font_keys().len(),
        lookup(a, font_keys()[i]) == LuaView::Boolean(true),
        b.len() == 0,
    ensures
        font_of_table(a) != font_of_table(b),
{
    let keys = font_keys();
    assert(forall|other: Seq<char>| #[trigger] lookup(b, other) == LuaView::Nil);
    assert(font_of_table(b) is Ok);
    if i == 0 {
        assert(fault_of(text_at(a, "family"@)) is Some);
    } else if i == 1 {
        assert(fault_of(text_at(a, "style"@)) is Some);
    } else if i == 2 {
        assert(fault_of(size_at(a)) is Some);
    }
}

/// What stands under a known key is read: a truth value there is refused, or is
/// what the table says.
proof fn lemma_known_is_read(place: Place, key: Seq<char>)
    requires
        known_in(place).contains(key),
    ensures
        is_read(place, key),
{
    let a: Fields = seq![(key, LuaView::Boolean(true))];
    let b: Fields = Seq::empty();
    assert forall|other: Seq<char>| other != key implies #[trigger] lookup(a, other) == lookup(
        b,
        other,
    ) by {
        reveal_with_fuel(lookup, 3);
        assert(a.skip(1) =~= b);
    }
    assert(alike_but_for(a, b, key));
    assert(lookup(a, key) == LuaView::Boolean(true));
    let known = known_in(place);
    let i = choose|i: int| 0 <= i < known.len() && known[i] == key;
    match place {
        Place::Item => {
            lemma_item_keys_are_read(a, b, i);
        },
        Place::Bar => {
            lemma_bar_keys_are_read(a, b, i);
        },
        Place::Background => {
            lemma_background_keys_are_read(a, b, i);
        },
        Place::Popup => {
            lemma_popup_keys_are_read(a, b, i);
        },
        Place::Run => {
            lemma_run_keys_are_read(a, b, i);
        },
        Place::Font => {
            lemma_font_keys_are_read(a, b, i);
        },
        Place::Alias => {},
    }
    assert(reading(place, a) != reading(place, b));
}

/// A key is stray exactly where nothing reads it: what stands under it makes no
/// difference to what a table says.
pub proof fn law_exactly_unread_keys_are_stray(place: Place, key: Seq<char>)
    ensures
        note_of(place, key) is None <==> is_read(place, key),
{
    if known_in(place).contains(key) {
        lemma_known_is_read(place, key);
    } else if is_read(place, key) {
        let (a, b) = choose|a: Fields, b: Fields| #[trigger]
            alike_but_for(a, b, key) && reading(place, a) != reading(place, b);
        lemma_unknown_is_unread(place, key, a, b);
    }
}

/// A suggestion is always a key that would be read.
pub proof fn law_a_guess_is_a_known_key(key: Seq<char>, known: Seq<Seq<char>>)
    ensures
        nearest_to(key, known) matches Some(guess) ==> known.contains(guess),
{
    lemma_first_is_known(key, known);
}

/// The first key that fits is one of the keys.
proof fn lemma_first_is_known(key: Seq<char>, known: Seq<Seq<char>>)
    ensures
        first_resembling(known, key) matches Some(guess) ==> known.contains(guess),
        first_slip_apart(known, key) matches Some(guess) ==> known.contains(guess),
    decreases known.len(),
{
    if known.len() > 0 {
        let rest = known.skip(1);
        lemma_first_is_known(key, rest);
        assert(known[0] == known[0]);
        if let Some(guess) = first_resembling(rest, key) {
            let i = choose|i: int| 0 <= i < rest.len() && rest[i] == guess;
            assert(known[i + 1] == guess);
        }
        if let Some(guess) = first_slip_apart(rest, key) {
            let i = choose|i: int| 0 <= i < rest.len() && rest[i] == guess;
            assert(known[i + 1] == guess);
        }
        assert(known.contains(known[0]));
    }
}

} // verus!
