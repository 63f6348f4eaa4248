//! What a patch does, said of the very fields it names.

use crate::align::PopupAlign;
use crate::changes::{after, all_names, moved_in, name_views, Blank, Changes, Modelled};
use crate::display::DisplayTarget;
use crate::event::Kind;
use crate::flag::{BoolChange, Boolish};
use crate::kindset::kind_views;
use crate::measure::Measure;
use crate::name::{ItemName, Selector};
use crate::place::{Edge, Position};
use crate::state::{
    Background, BackgroundMoved, BackgroundPatch, BarPatch, BarState, BarStateMoved, Geometry,
    GeometryMoved, GeometryPatch, ItemPatch, ItemState, ItemStateMoved, PopupPatch, PopupState,
    PopupStateMoved, Run, RunMoved, RunPatch, Scripting, ScriptingMoved, ScriptingPatch,
};
use crate::style::{Color, FontSpec};
use vstd::prelude::*;

verus! {

// ---------------------------------------------------------------------------
// Values

/// Whether bits stand for a zero, of either sign.
pub open spec fn zero_bits(bits: u64) -> bool {
    bits == 0 || bits == 0x8000_0000_0000_0000
}

/// Whether bits stand for no number: every bit of the exponent set, and any bit
/// below it.
pub open spec fn no_number(bits: u64) -> bool {
    0x7ff0_0000_0000_0000 < bits < 0x8000_0000_0000_0000 || 0xfff0_0000_0000_0000 < bits
}

/// Whether two doubles are one number.
pub open spec fn one_number(a: u64, b: u64) -> bool {
    a == b || (zero_bits(a) && zero_bits(b))
}

/// Whether two measurements are the same to the letter.
pub open spec fn same_measure(a: Measure, b: Measure) -> bool {
    a.bits == b.bits && a.text@ == b.text@
}

/// Whether two fonts are the same to the letter.
pub open spec fn same_font(a: FontSpec, b: FontSpec) -> bool {
    a.family@ == b.family@ && a.style@ == b.style@ && same_measure(a.size, b.size)
}

/// Whether two texts that may not be there are the same.
pub open spec fn same_said(a: Option<String>, b: Option<String>) -> bool {
    match (a, b) {
        (Some(a), Some(b)) => a@ == b@,
        (None, None) => true,
        _ => false,
    }
}

/// Whether two measurements that may not be there are the same to the letter.
pub open spec fn same_width(a: Option<Measure>, b: Option<Measure>) -> bool {
    match (a, b) {
        (Some(a), Some(b)) => same_measure(a, b),
        (None, None) => true,
        _ => false,
    }
}

/// Whether two lists name the same items in the same order.
pub open spec fn same_names(a: Vec<ItemName>, b: Vec<ItemName>) -> bool {
    a@.len() == b@.len() && forall|i: int| 0 <= i < a@.len() ==> (#[trigger] a@[i])@ == b@[i]@
}

/// Whether two lists name the same events in the same order.
pub open spec fn same_kinds(a: Vec<Kind<()>>, b: Vec<Kind<()>>) -> bool {
    a@.len() == b@.len() && forall|i: int| 0 <= i < a@.len() ==> (#[trigger] a@[i])@ == b@[i]@
}

// ---------------------------------------------------------------------------
// What a field becomes

/// A value that is named replaces the one there; one that is not leaves it.
pub open spec fn told_plain<T>(said: Option<T>, was: T, now: T) -> bool {
    now == (match said {
        Some(value) => value,
        None => was,
    })
}

/// The same of a text.
pub open spec fn told_text(said: Option<String>, was: String, now: String) -> bool {
    now@ == (match said {
        Some(value) => value@,
        None => was@,
    })
}

/// The same of a position.
pub open spec fn told_position(said: Option<Position>, was: Position, now: Position) -> bool {
    now@ == (match said {
        Some(value) => value@,
        None => was@,
    })
}

/// A flag is on, off, the opposite of what it was, or what it was.
pub open spec fn told_flag(said: Option<BoolChange>, was: Boolish, now: Boolish) -> bool {
    match said {
        Some(BoolChange::True) => now.0,
        Some(BoolChange::False) => !now.0,
        Some(BoolChange::Toggle) => now.0 == !was.0,
        None => now == was,
    }
}

/// A measurement is the number it is told, to the letter unless it was that
/// number already.
pub open spec fn told_measure(said: Option<Measure>, was: Measure, now: Measure) -> bool {
    match said {
        Some(value) => one_number(now.bits, value.bits) && (same_measure(now, value)
            || same_measure(now, was)),
        None => same_measure(now, was),
    }
}

/// The same of a font.
pub open spec fn told_font(said: Option<FontSpec>, was: FontSpec, now: FontSpec) -> bool {
    match said {
        Some(value) => now.family@ == value.family@ && now.style@ == value.style@ && one_number(
            now.size.bits,
            value.size.bits,
        ) && (same_font(now, value) || same_font(now, was)),
        None => same_font(now, was),
    }
}

/// A script is the text it is told, none where that is empty.
pub open spec fn told_script(
    said: Option<String>,
    was: Option<String>,
    now: Option<String>,
) -> bool {
    match said {
        Some(value) => match now {
            Some(text) => text@ == value@ && value@.len() > 0,
            None => value@.len() == 0,
        },
        None => same_said(was, now),
    }
}

/// A width is the number it is told.
pub open spec fn told_width(
    said: Option<Measure>,
    was: Option<Measure>,
    now: Option<Measure>,
) -> bool {
    match said {
        Some(value) => now matches Some(width) && one_number(width.bits, value.bits) && (
        same_measure(width, value) || same_width(now, was)),
        None => same_width(was, now),
    }
}

/// Whether a selector is an item's name.
pub open spec fn names_it(selector: Selector, name: Seq<char>) -> bool {
    match selector {
        Selector::Name(held) => held@ == name,
        Selector::Pattern(_) => false,
    }
}

/// Members are those that are named, where every one is named outright; a
/// pattern among them leaves what was there.
pub open spec fn told_members(
    said: Option<Vec<Selector>>,
    was: Vec<ItemName>,
    now: Vec<ItemName>,
) -> bool {
    match said {
        Some(selectors) => {
            &&& (forall|i: int| 0 <= i < selectors@.len() ==> (#[trigger] selectors@[i]) is Name)
                ==> now@.len() == selectors@.len() && forall|i: int|
                0 <= i < selectors@.len() ==> names_it(#[trigger] selectors@[i], now@[i]@)
            &&& (exists|i: int| 0 <= i < selectors@.len() && (#[trigger] selectors@[i]) is Pattern)
                ==> same_names(was, now)
        },
        None => same_names(was, now),
    }
}

/// What a record says of a measurement: nothing where it is as it was, and where
/// it is told a number, something only where that is another.
pub open spec fn moved_measure(
    said: Option<Measure>,
    moved: Option<()>,
    was: Measure,
    now: Measure,
) -> bool {
    &&& moved is None ==> same_measure(was, now)
    &&& moved is Some ==> (said matches Some(value) && (no_number(value.bits) || no_number(was.bits)
        || !one_number(was.bits, now.bits)))
}

/// The same of a font.
pub open spec fn moved_font(
    said: Option<FontSpec>,
    moved: Option<()>,
    was: FontSpec,
    now: FontSpec,
) -> bool {
    &&& moved is None ==> same_font(was, now)
    &&& moved is Some ==> (said matches Some(value) && (no_number(value.size.bits) || no_number(
        was.size.bits,
    ) || was.family@ != now.family@ || was.style@ != now.style@ || !one_number(
        was.size.bits,
        now.size.bits,
    )))
}

/// The same of a width.
pub open spec fn moved_width(
    said: Option<Measure>,
    moved: Option<()>,
    was: Option<Measure>,
    now: Option<Measure>,
) -> bool {
    &&& moved is None ==> same_width(was, now)
    &&& moved is Some ==> (said matches Some(value) && (no_number(value.bits) || (was matches Some(
        before,
    ) ==> no_number(before.bits) || !one_number(before.bits, value.bits))))
}

// ---------------------------------------------------------------------------
// What a field is built as

/// Whether a font is the one there is without anybody saying so.
pub open spec fn plain_font(font: FontSpec) -> bool {
    font.family@ == "SF Pro"@ && font.style@ == "Regular"@ && font.size.bits
        == 0x402a_0000_0000_0000 && font.size.text@ == "13"@
}

/// A text that is built: what is said, and else nothing.
pub open spec fn built_text(said: Option<String>, now: String) -> bool {
    match said {
        Some(value) => now@ == value@,
        None => now@.len() == 0,
    }
}

/// A flag that is built: off unless it is said to be on, or to be flipped.
pub open spec fn built_flag(said: Option<BoolChange>, now: Boolish) -> bool {
    now.0 == (said == Some(BoolChange::True) || said == Some(BoolChange::Toggle))
}

/// A measurement that is built: what is said, and else nought.
pub open spec fn built_measure(said: Option<Measure>, now: Measure) -> bool {
    match said {
        Some(value) => one_number(now.bits, value.bits),
        None => now.bits == 0,
    }
}

/// A font that is built.
pub open spec fn built_font(said: Option<FontSpec>, now: FontSpec) -> bool {
    match said {
        Some(value) => now.family@ == value.family@ && now.style@ == value.style@ && one_number(
            now.size.bits,
            value.size.bits,
        ),
        None => plain_font(now),
    }
}

/// A script that is built.
pub open spec fn built_script(said: Option<String>, now: Option<String>) -> bool {
    match said {
        Some(value) => match now {
            Some(text) => text@ == value@ && value@.len() > 0,
            None => value@.len() == 0,
        },
        None => now is None,
    }
}

/// A width that is built.
pub open spec fn built_width(said: Option<Measure>, now: Option<Measure>) -> bool {
    match said {
        Some(value) => now matches Some(width) && same_measure(width, value),
        None => now is None,
    }
}

/// Members that are built.
pub open spec fn built_members(said: Option<Vec<Selector>>, now: Vec<ItemName>) -> bool {
    match said {
        Some(selectors) => {
            &&& (forall|i: int| 0 <= i < selectors@.len() ==> (#[trigger] selectors@[i]) is Name)
                ==> now@.len() == selectors@.len() && forall|i: int|
                0 <= i < selectors@.len() ==> names_it(#[trigger] selectors@[i], now@[i]@)
            &&& (exists|i: int| 0 <= i < selectors@.len() && (#[trigger] selectors@[i]) is Pattern)
                ==> now@.len() == 0
        },
        None => now@.len() == 0,
    }
}

/// A measurement after it is told one.
proof fn lemma_told_measure(said: Option<Measure>, was: Measure, now: Measure)
    requires
        now.model() == after::<Measure, Measure>(said, was.model()),
    ensures
        told_measure(said, was, now),
        moved_measure(said, moved_in::<Measure, Measure>(said, was.model()), was, now),
{
}

/// A measurement built from what is said.
proof fn lemma_built_measure(said: Option<Measure>, now: Measure)
    requires
        now.model() == after::<Measure, Measure>(said, <Measure as Blank>::blank()),
    ensures
        built_measure(said, now),
{
}

/// Selectors that are all names are those names, and one pattern among them makes
/// them none.
proof fn lemma_all_names(selectors: Seq<Selector>)
    ensures
        (forall|i: int| 0 <= i < selectors.len() ==> (#[trigger] selectors[i]) is Name)
            ==> (all_names(selectors) matches Some(names) && names.len() == selectors.len() && (
        forall|i: int|
            0 <= i < selectors.len() ==> names_it(#[trigger] selectors[i], names[i]))),
        (exists|i: int| 0 <= i < selectors.len() && (#[trigger] selectors[i]) is Pattern)
            ==> all_names(selectors) is None,
    decreases selectors.len(),
{
    if selectors.len() > 0 {
        let short = selectors.drop_last();
        lemma_all_names(short);
        assert forall|i: int| 0 <= i < short.len() implies #[trigger] short[i] == selectors[i] by {
        }
        if exists|i: int| 0 <= i < selectors.len() && (#[trigger] selectors[i]) is Pattern {
            let i = choose|i: int|
                0 <= i < selectors.len() && (#[trigger] selectors[i]) is Pattern;
            if i < short.len() {
                assert(short[i] is Pattern);
            }
        }
        if forall|i: int| 0 <= i < selectors.len() ==> (#[trigger] selectors[i]) is Name {
            assert forall|i: int| 0 <= i < short.len() implies (#[trigger] short[i]) is Name by {
                assert(selectors[i] is Name);
            }
            assert(selectors[selectors.len() - 1] is Name);
            let names = all_names(selectors)->0;
            assert forall|i: int| 0 <= i < selectors.len() implies names_it(
                #[trigger] selectors[i],
                names[i],
            ) by {
                if i < short.len() {
                    assert(names_it(short[i], all_names(short)->0[i]));
                }
            }
        }
    }
}

/// Lists of one model name the same items.
proof fn lemma_same_names(a: Vec<ItemName>, b: Vec<ItemName>)
    ensures
        same_names(a, b) <==> name_views(a@) == name_views(b@),
{
    if same_names(a, b) {
        assert(name_views(a@) =~= name_views(b@));
    }
    if name_views(a@) == name_views(b@) {
        assert(name_views(a@).len() == name_views(b@).len());
        assert forall|i: int| 0 <= i < a@.len() implies (#[trigger] a@[i])@ == b@[i]@ by {
            assert(name_views(a@)[i] == name_views(b@)[i]);
        }
    }
}

/// Lists of one model name the same events.
proof fn lemma_same_kinds(a: Vec<Kind<()>>, b: Vec<Kind<()>>)
    ensures
        same_kinds(a, b) <==> kind_views(a@) == kind_views(b@),
{
    if same_kinds(a, b) {
        assert(kind_views(a@) =~= kind_views(b@));
    }
    if kind_views(a@) == kind_views(b@) {
        assert(kind_views(a@).len() == kind_views(b@).len());
        assert forall|i: int| 0 <= i < a@.len() implies (#[trigger] a@[i])@ == b@[i]@ by {
            assert(kind_views(a@)[i] == kind_views(b@)[i]);
        }
    }
}

/// What members become.
proof fn lemma_members(said: Vec<Selector>, was: Seq<Seq<char>>, now: Vec<ItemName>)
    requires
        match <Vec<Selector> as Changes<Vec<ItemName>>>::outcome(&said, was) {
            Some((next, _)) => name_views(now@) == next,
            None => name_views(now@) == was,
        },
    ensures
        (forall|i: int| 0 <= i < said@.len() ==> (#[trigger] said@[i]) is Name) ==> now@.len()
            == said@.len() && forall|i: int|
            0 <= i < said@.len() ==> names_it(#[trigger] said@[i], now@[i]@),
        (exists|i: int| 0 <= i < said@.len() && (#[trigger] said@[i]) is Pattern) ==> name_views(
            now@,
        ) == was,
{
    lemma_all_names(said@);
    if forall|i: int| 0 <= i < said@.len() ==> (#[trigger] said@[i]) is Name {
        let names = all_names(said@)->0;
        assert(name_views(now@) == names);
        assert(name_views(now@).len() == now@.len());
        assert forall|i: int| 0 <= i < said@.len() implies names_it(#[trigger] said@[i], now@[i]@) by {
            assert(name_views(now@)[i] == names[i]);
        }
    }
}

// ---------------------------------------------------------------------------
// Run

/// Whether two of them are the same, field by field.
pub open spec fn same_run(a: Run, b: Run) -> bool {
    &&& a.text@ == b.text@
    &&& a.color == b.color
    &&& same_font(a.font, b.font)
    &&& a.drawing == b.drawing
    &&& same_measure(a.padding_left, b.padding_left)
    &&& same_measure(a.padding_right, b.padding_right)
    &&& same_measure(a.y_offset, b.y_offset)
    &&& a.highlight == b.highlight
    &&& a.highlight_color == b.highlight_color
}

/// What a patch makes of half of an item's text: each field it names is what it says of that
/// field, and every other is as it was.
pub open spec fn told_run(patch: RunPatch, was: Run, now: Run) -> bool {
    &&& told_text(patch.text, was.text, now.text)
    &&& told_plain(patch.color, was.color, now.color)
    &&& told_font(patch.font, was.font, now.font)
    &&& told_flag(patch.drawing, was.drawing, now.drawing)
    &&& told_measure(patch.padding_left, was.padding_left, now.padding_left)
    &&& told_measure(patch.padding_right, was.padding_right, now.padding_right)
    &&& told_measure(patch.y_offset, was.y_offset, now.y_offset)
    &&& told_flag(patch.highlight, was.highlight, now.highlight)
    &&& told_plain(patch.highlight_color, was.highlight_color, now.highlight_color)
}

/// What a patch reports of half of an item's text: each field that moved, under its own name,
/// and no other.
pub open spec fn moved_run(patch: RunPatch, moved: RunMoved, was: Run, now: Run) -> bool {
    &&& (moved.text is Some <==> now.text@ != was.text@)
    &&& (moved.color is Some <==> now.color != was.color)
    &&& moved_font(patch.font, moved.font, was.font, now.font)
    &&& (moved.drawing is Some <==> now.drawing != was.drawing)
    &&& moved_measure(patch.padding_left, moved.padding_left, was.padding_left, now.padding_left)
    &&& moved_measure(patch.padding_right, moved.padding_right, was.padding_right, now.padding_right)
    &&& moved_measure(patch.y_offset, moved.y_offset, was.y_offset, now.y_offset)
    &&& (moved.highlight is Some <==> now.highlight != was.highlight)
    &&& (moved.highlight_color is Some <==> now.highlight_color != was.highlight_color)
}

/// What there is without anybody saying so.
pub open spec fn blank_run(now: Run) -> bool {
    &&& now.text@.len() == 0
    &&& now.color == Color(0)
    &&& plain_font(now.font)
    &&& !now.drawing.0
    &&& now.padding_left.bits == 0
    &&& now.padding_right.bits == 0
    &&& now.y_offset.bits == 0
    &&& !now.highlight.0
    &&& now.highlight_color == Color(0)
}

/// What a patch builds from nothing: each field as it says, and else as there is
/// without anybody saying so.
pub open spec fn built_run(patch: RunPatch, now: Run) -> bool {
    &&& built_text(patch.text, now.text)
    &&& told_plain(patch.color, Color(0), now.color)
    &&& built_font(patch.font, now.font)
    &&& built_flag(patch.drawing, now.drawing)
    &&& built_measure(patch.padding_left, now.padding_left)
    &&& built_measure(patch.padding_right, now.padding_right)
    &&& built_measure(patch.y_offset, now.y_offset)
    &&& built_flag(patch.highlight, now.highlight)
    &&& told_plain(patch.highlight_color, Color(0), now.highlight_color)
}

/// Two of one model are the same, field by field.
pub proof fn law_one_run(a: Run, b: Run)
    ensures
        a.model() == b.model() <==> same_run(a, b),
{
}

/// Applying a patch to half of an item's text does to each field what it says of that field,
/// leaves every other, and reports each that moved under its own name.
pub proof fn law_told_run(patch: RunPatch, was: Run, now: Run)
    requires
        match <RunPatch as Changes<Run>>::outcome(&patch, was.model()) {
            Some((next, _)) => now.model() == next,
            None => now.model() == was.model(),
        },
    ensures
        told_run(patch, was, now),
        <RunPatch as Changes<Run>>::outcome(&patch, was.model()) matches Some((_, moved)) ==> moved_run(
            patch,
            moved,
            was,
            now,
        ),
        <RunPatch as Changes<Run>>::outcome(&patch, was.model()) is None ==> same_run(was, now),
{
    law_one_run(was, now);
    lemma_told_measure(patch.padding_left, was.padding_left, now.padding_left);
    lemma_told_measure(patch.padding_right, was.padding_right, now.padding_right);
    lemma_told_measure(patch.y_offset, was.y_offset, now.y_offset);
}

// ---------------------------------------------------------------------------
// Background

/// Whether two of them are the same, field by field.
pub open spec fn same_background(a: Background, b: Background) -> bool {
    &&& a.drawing == b.drawing
    &&& a.color == b.color
    &&& same_measure(a.corner_radius, b.corner_radius)
    &&& same_measure(a.height, b.height)
    &&& same_measure(a.padding_left, b.padding_left)
    &&& same_measure(a.padding_right, b.padding_right)
    &&& a.border_color == b.border_color
    &&& same_measure(a.border_width, b.border_width)
}

/// What a patch makes of what is behind an item: each field it names is what it says of that
/// field, and every other is as it was.
pub open spec fn told_background(patch: BackgroundPatch, was: Background, now: Background) -> bool {
    &&& told_flag(patch.drawing, was.drawing, now.drawing)
    &&& told_plain(patch.color, was.color, now.color)
    &&& told_measure(patch.corner_radius, was.corner_radius, now.corner_radius)
    &&& told_measure(patch.height, was.height, now.height)
    &&& told_measure(patch.padding_left, was.padding_left, now.padding_left)
    &&& told_measure(patch.padding_right, was.padding_right, now.padding_right)
    &&& told_plain(patch.border_color, was.border_color, now.border_color)
    &&& told_measure(patch.border_width, was.border_width, now.border_width)
}

/// What a patch reports of what is behind an item: each field that moved, under its own name,
/// and no other.
pub open spec fn moved_background(patch: BackgroundPatch, moved: BackgroundMoved, was: Background, now: Background) -> bool {
    &&& (moved.drawing is Some <==> now.drawing != was.drawing)
    &&& (moved.color is Some <==> now.color != was.color)
    &&& moved_measure(patch.corner_radius, moved.corner_radius, was.corner_radius, now.corner_radius)
    &&& moved_measure(patch.height, moved.height, was.height, now.height)
    &&& moved_measure(patch.padding_left, moved.padding_left, was.padding_left, now.padding_left)
    &&& moved_measure(patch.padding_right, moved.padding_right, was.padding_right, now.padding_right)
    &&& (moved.border_color is Some <==> now.border_color != was.border_color)
    &&& moved_measure(patch.border_width, moved.border_width, was.border_width, now.border_width)
}

/// What there is without anybody saying so.
pub open spec fn blank_background(now: Background) -> bool {
    &&& !now.drawing.0
    &&& now.color == Color(0)
    &&& now.corner_radius.bits == 0
    &&& now.height.bits == 0
    &&& now.padding_left.bits == 0
    &&& now.padding_right.bits == 0
    &&& now.border_color == Color(0)
    &&& now.border_width.bits == 0
}

/// What a patch builds from nothing: each field as it says, and else as there is
/// without anybody saying so.
pub open spec fn built_background(patch: BackgroundPatch, now: Background) -> bool {
    &&& built_flag(patch.drawing, now.drawing)
    &&& told_plain(patch.color, Color(0), now.color)
    &&& built_measure(patch.corner_radius, now.corner_radius)
    &&& built_measure(patch.height, now.height)
    &&& built_measure(patch.padding_left, now.padding_left)
    &&& built_measure(patch.padding_right, now.padding_right)
    &&& told_plain(patch.border_color, Color(0), now.border_color)
    &&& built_measure(patch.border_width, now.border_width)
}

/// Two of one model are the same, field by field.
pub proof fn law_one_background(a: Background, b: Background)
    ensures
        a.model() == b.model() <==> same_background(a, b),
{
}

/// Applying a patch to what is behind an item does to each field what it says of that field,
/// leaves every other, and reports each that moved under its own name.
pub proof fn law_told_background(patch: BackgroundPatch, was: Background, now: Background)
    requires
        match <BackgroundPatch as Changes<Background>>::outcome(&patch, was.model()) {
            Some((next, _)) => now.model() == next,
            None => now.model() == was.model(),
        },
    ensures
        told_background(patch, was, now),
        <BackgroundPatch as Changes<Background>>::outcome(&patch, was.model()) matches Some((_, moved)) ==> moved_background(
            patch,
            moved,
            was,
            now,
        ),
        <BackgroundPatch as Changes<Background>>::outcome(&patch, was.model()) is None ==> same_background(was, now),
{
    law_one_background(was, now);
    lemma_told_measure(patch.corner_radius, was.corner_radius, now.corner_radius);
    lemma_told_measure(patch.height, was.height, now.height);
    lemma_told_measure(patch.padding_left, was.padding_left, now.padding_left);
    lemma_told_measure(patch.padding_right, was.padding_right, now.padding_right);
    lemma_told_measure(patch.border_width, was.border_width, now.border_width);
}

// ---------------------------------------------------------------------------
// Scripting

/// Whether two of them are the same, field by field.
pub open spec fn same_scripting(a: Scripting, b: Scripting) -> bool {
    &&& same_said(a.script, b.script)
    &&& same_said(a.click_script, b.click_script)
    &&& a.update_freq == b.update_freq
    &&& a.updates == b.updates
}

/// What a patch makes of what an item runs: each field it names is what it says of that
/// field, and every other is as it was.
pub open spec fn told_scripting(patch: ScriptingPatch, was: Scripting, now: Scripting) -> bool {
    &&& told_script(patch.script, was.script, now.script)
    &&& told_script(patch.click_script, was.click_script, now.click_script)
    &&& told_plain(patch.update_freq, was.update_freq, now.update_freq)
    &&& told_flag(patch.updates, was.updates, now.updates)
}

/// What a patch reports of what an item runs: each field that moved, under its own name,
/// and no other.
pub open spec fn moved_scripting(patch: ScriptingPatch, moved: ScriptingMoved, was: Scripting, now: Scripting) -> bool {
    &&& (moved.script is Some <==> !same_said(was.script, now.script))
    &&& (moved.click_script is Some <==> !same_said(was.click_script, now.click_script))
    &&& (moved.update_freq is Some <==> now.update_freq != was.update_freq)
    &&& (moved.updates is Some <==> now.updates != was.updates)
}

/// What there is without anybody saying so.
pub open spec fn blank_scripting(now: Scripting) -> bool {
    &&& now.script is None
    &&& now.click_script is None
    &&& now.update_freq == 0u32
    &&& !now.updates.0
}

/// What a patch builds from nothing: each field as it says, and else as there is
/// without anybody saying so.
pub open spec fn built_scripting(patch: ScriptingPatch, now: Scripting) -> bool {
    &&& built_script(patch.script, now.script)
    &&& built_script(patch.click_script, now.click_script)
    &&& told_plain(patch.update_freq, 0u32, now.update_freq)
    &&& built_flag(patch.updates, now.updates)
}

/// Two of one model are the same, field by field.
pub proof fn law_one_scripting(a: Scripting, b: Scripting)
    ensures
        a.model() == b.model() <==> same_scripting(a, b),
{
}

/// Applying a patch to what an item runs does to each field what it says of that field,
/// leaves every other, and reports each that moved under its own name.
pub proof fn law_told_scripting(patch: ScriptingPatch, was: Scripting, now: Scripting)
    requires
        match <ScriptingPatch as Changes<Scripting>>::outcome(&patch, was.model()) {
            Some((next, _)) => now.model() == next,
            None => now.model() == was.model(),
        },
    ensures
        told_scripting(patch, was, now),
        <ScriptingPatch as Changes<Scripting>>::outcome(&patch, was.model()) matches Some((_, moved)) ==> moved_scripting(
            patch,
            moved,
            was,
            now,
        ),
        <ScriptingPatch as Changes<Scripting>>::outcome(&patch, was.model()) is None ==> same_scripting(was, now),
{
    law_one_scripting(was, now);
}

// ---------------------------------------------------------------------------
// Geometry

/// Whether two of them are the same, field by field.
pub open spec fn same_geometry(a: Geometry, b: Geometry) -> bool {
    &&& a.drawing == b.drawing
    &&& a.position@ == b.position@
    &&& same_measure(a.y_offset, b.y_offset)
    &&& same_measure(a.padding_left, b.padding_left)
    &&& same_measure(a.padding_right, b.padding_right)
    &&& same_width(a.width, b.width)
    &&& a.display == b.display
    &&& same_background(a.background, b.background)
}

/// What a patch makes of where an item is: each field it names is what it says of that
/// field, and every other is as it was.
pub open spec fn told_geometry(patch: GeometryPatch, was: Geometry, now: Geometry) -> bool {
    &&& told_flag(patch.drawing, was.drawing, now.drawing)
    &&& told_position(patch.position, was.position, now.position)
    &&& told_measure(patch.y_offset, was.y_offset, now.y_offset)
    &&& told_measure(patch.padding_left, was.padding_left, now.padding_left)
    &&& told_measure(patch.padding_right, was.padding_right, now.padding_right)
    &&& told_width(patch.width, was.width, now.width)
    &&& told_plain(patch.display, was.display, now.display)
    &&& (match patch.background {
        Some(patch) => told_background(patch, was.background, now.background),
        None => same_background(was.background, now.background),
    })
}

/// What a patch reports of where an item is: each field that moved, under its own name,
/// and no other.
pub open spec fn moved_geometry(patch: GeometryPatch, moved: GeometryMoved, was: Geometry, now: Geometry) -> bool {
    &&& (moved.drawing is Some <==> now.drawing != was.drawing)
    &&& (moved.position is Some <==> now.position@ != was.position@)
    &&& moved_measure(patch.y_offset, moved.y_offset, was.y_offset, now.y_offset)
    &&& moved_measure(patch.padding_left, moved.padding_left, was.padding_left, now.padding_left)
    &&& moved_measure(patch.padding_right, moved.padding_right, was.padding_right, now.padding_right)
    &&& moved_width(patch.width, moved.width, was.width, now.width)
    &&& (moved.display is Some <==> now.display != was.display)
    &&& (match moved.background {
        Some(within) => patch.background matches Some(patch) && moved_background(patch, within, was.background, now.background),
        None => same_background(was.background, now.background),
    })
}

/// What a patch builds from nothing: each field as it says, and else as there is
/// without anybody saying so.
pub open spec fn built_geometry(patch: GeometryPatch, now: Geometry) -> bool {
    &&& built_flag(patch.drawing, now.drawing)
    &&& (patch.position matches Some(said) && now.position@ == said@)
    &&& built_measure(patch.y_offset, now.y_offset)
    &&& built_measure(patch.padding_left, now.padding_left)
    &&& built_measure(patch.padding_right, now.padding_right)
    &&& built_width(patch.width, now.width)
    &&& told_plain(patch.display, DisplayTarget::All, now.display)
    &&& (match patch.background {
        Some(patch) => built_background(patch, now.background),
        None => blank_background(now.background),
    })
}

/// Two of one model are the same, field by field.
pub proof fn law_one_geometry(a: Geometry, b: Geometry)
    ensures
        a.model() == b.model() <==> same_geometry(a, b),
{
    law_one_background(a.background, b.background);
}

/// Applying a patch to where an item is does to each field what it says of that field,
/// leaves every other, and reports each that moved under its own name.
pub proof fn law_told_geometry(patch: GeometryPatch, was: Geometry, now: Geometry)
    requires
        match <GeometryPatch as Changes<Geometry>>::outcome(&patch, was.model()) {
            Some((next, _)) => now.model() == next,
            None => now.model() == was.model(),
        },
    ensures
        told_geometry(patch, was, now),
        <GeometryPatch as Changes<Geometry>>::outcome(&patch, was.model()) matches Some((_, moved)) ==> moved_geometry(
            patch,
            moved,
            was,
            now,
        ),
        <GeometryPatch as Changes<Geometry>>::outcome(&patch, was.model()) is None ==> same_geometry(was, now),
{
    law_one_geometry(was, now);
    lemma_told_measure(patch.y_offset, was.y_offset, now.y_offset);
    lemma_told_measure(patch.padding_left, was.padding_left, now.padding_left);
    lemma_told_measure(patch.padding_right, was.padding_right, now.padding_right);
    match patch.background {
        Some(within) => {
            law_told_background(within, was.background, now.background);
        },
        None => {
            law_one_background(was.background, now.background);
        },
    }
}

// ---------------------------------------------------------------------------
// PopupState

/// Whether two of them are the same, field by field.
pub open spec fn same_popup(a: PopupState, b: PopupState) -> bool {
    &&& a.drawing == b.drawing
    &&& a.horizontal == b.horizontal
    &&& a.align == b.align
    &&& a.topmost == b.topmost
    &&& same_measure(a.height, b.height)
    &&& same_measure(a.y_offset, b.y_offset)
    &&& same_background(a.background, b.background)
}

/// What a patch makes of an item's popup: each field it names is what it says of that
/// field, and every other is as it was.
pub open spec fn told_popup(patch: PopupPatch, was: PopupState, now: PopupState) -> bool {
    &&& told_flag(patch.drawing, was.drawing, now.drawing)
    &&& told_flag(patch.horizontal, was.horizontal, now.horizontal)
    &&& told_plain(patch.align, was.align, now.align)
    &&& told_flag(patch.topmost, was.topmost, now.topmost)
    &&& told_measure(patch.height, was.height, now.height)
    &&& told_measure(patch.y_offset, was.y_offset, now.y_offset)
    &&& (match patch.background {
        Some(patch) => told_background(patch, was.background, now.background),
        None => same_background(was.background, now.background),
    })
}

/// What a patch reports of an item's popup: each field that moved, under its own name,
/// and no other.
pub open spec fn moved_popup(patch: PopupPatch, moved: PopupStateMoved, was: PopupState, now: PopupState) -> bool {
    &&& (moved.drawing is Some <==> now.drawing != was.drawing)
    &&& (moved.horizontal is Some <==> now.horizontal != was.horizontal)
    &&& (moved.align is Some <==> now.align != was.align)
    &&& (moved.topmost is Some <==> now.topmost != was.topmost)
    &&& moved_measure(patch.height, moved.height, was.height, now.height)
    &&& moved_measure(patch.y_offset, moved.y_offset, was.y_offset, now.y_offset)
    &&& (match moved.background {
        Some(within) => patch.background matches Some(patch) && moved_background(patch, within, was.background, now.background),
        None => same_background(was.background, now.background),
    })
}

/// What there is without anybody saying so.
pub open spec fn blank_popup(now: PopupState) -> bool {
    &&& !now.drawing.0
    &&& !now.horizontal.0
    &&& now.align == PopupAlign::Left
    &&& !now.topmost.0
    &&& now.height.bits == 0
    &&& now.y_offset.bits == 0
    &&& blank_background(now.background)
}

/// What a patch builds from nothing: each field as it says, and else as there is
/// without anybody saying so.
pub open spec fn built_popup(patch: PopupPatch, now: PopupState) -> bool {
    &&& built_flag(patch.drawing, now.drawing)
    &&& built_flag(patch.horizontal, now.horizontal)
    &&& told_plain(patch.align, PopupAlign::Left, now.align)
    &&& built_flag(patch.topmost, now.topmost)
    &&& built_measure(patch.height, now.height)
    &&& built_measure(patch.y_offset, now.y_offset)
    &&& (match patch.background {
        Some(patch) => built_background(patch, now.background),
        None => blank_background(now.background),
    })
}

/// Two of one model are the same, field by field.
pub proof fn law_one_popup(a: PopupState, b: PopupState)
    ensures
        a.model() == b.model() <==> same_popup(a, b),
{
    law_one_background(a.background, b.background);
}

/// Applying a patch to an item's popup does to each field what it says of that field,
/// leaves every other, and reports each that moved under its own name.
pub proof fn law_told_popup(patch: PopupPatch, was: PopupState, now: PopupState)
    requires
        match <PopupPatch as Changes<PopupState>>::outcome(&patch, was.model()) {
            Some((next, _)) => now.model() == next,
            None => now.model() == was.model(),
        },
    ensures
        told_popup(patch, was, now),
        <PopupPatch as Changes<PopupState>>::outcome(&patch, was.model()) matches Some((_, moved)) ==> moved_popup(
            patch,
            moved,
            was,
            now,
        ),
        <PopupPatch as Changes<PopupState>>::outcome(&patch, was.model()) is None ==> same_popup(was, now),
{
    law_one_popup(was, now);
    lemma_told_measure(patch.height, was.height, now.height);
    lemma_told_measure(patch.y_offset, was.y_offset, now.y_offset);
    match patch.background {
        Some(within) => {
            law_told_background(within, was.background, now.background);
        },
        None => {
            law_one_background(was.background, now.background);
        },
    }
}

// ---------------------------------------------------------------------------
// BarState

/// Whether two of them are the same, field by field.
pub open spec fn same_bar(a: BarState, b: BarState) -> bool {
    &&& same_measure(a.height, b.height)
    &&& a.edge == b.edge
    &&& a.color == b.color
    &&& same_measure(a.margin, b.margin)
    &&& same_measure(a.y_offset, b.y_offset)
    &&& same_measure(a.corner_radius, b.corner_radius)
    &&& a.blur_radius == b.blur_radius
    &&& a.topmost == b.topmost
    &&& a.hidden == b.hidden
    &&& a.displays == b.displays
    &&& same_measure(a.padding_left, b.padding_left)
    &&& same_measure(a.padding_right, b.padding_right)
    &&& a.display == b.display
    &&& a.sticky == b.sticky
    &&& a.show_in_fullscreen == b.show_in_fullscreen
    &&& same_measure(a.notch_width, b.notch_width)
    &&& same_measure(a.notch_offset, b.notch_offset)
    &&& same_measure(a.notch_display_height, b.notch_display_height)
}

/// What a patch makes of the bar: each field it names is what it says of that
/// field, and every other is as it was.
pub open spec fn told_bar(patch: BarPatch, was: BarState, now: BarState) -> bool {
    &&& told_measure(patch.height, was.height, now.height)
    &&& told_plain(patch.edge, was.edge, now.edge)
    &&& told_plain(patch.color, was.color, now.color)
    &&& told_measure(patch.margin, was.margin, now.margin)
    &&& told_measure(patch.y_offset, was.y_offset, now.y_offset)
    &&& told_measure(patch.corner_radius, was.corner_radius, now.corner_radius)
    &&& told_plain(patch.blur_radius, was.blur_radius, now.blur_radius)
    &&& told_flag(patch.topmost, was.topmost, now.topmost)
    &&& told_flag(patch.hidden, was.hidden, now.hidden)
    &&& was.displays == now.displays
    &&& told_measure(patch.padding_left, was.padding_left, now.padding_left)
    &&& told_measure(patch.padding_right, was.padding_right, now.padding_right)
    &&& told_plain(patch.display, was.display, now.display)
    &&& told_flag(patch.sticky, was.sticky, now.sticky)
    &&& told_flag(patch.show_in_fullscreen, was.show_in_fullscreen, now.show_in_fullscreen)
    &&& told_measure(patch.notch_width, was.notch_width, now.notch_width)
    &&& told_measure(patch.notch_offset, was.notch_offset, now.notch_offset)
    &&& told_measure(patch.notch_display_height, was.notch_display_height, now.notch_display_height)
}

/// What a patch reports of the bar: each field that moved, under its own name,
/// and no other.
pub open spec fn moved_bar(patch: BarPatch, moved: BarStateMoved, was: BarState, now: BarState) -> bool {
    &&& moved_measure(patch.height, moved.height, was.height, now.height)
    &&& (moved.edge is Some <==> now.edge != was.edge)
    &&& (moved.color is Some <==> now.color != was.color)
    &&& moved_measure(patch.margin, moved.margin, was.margin, now.margin)
    &&& moved_measure(patch.y_offset, moved.y_offset, was.y_offset, now.y_offset)
    &&& moved_measure(patch.corner_radius, moved.corner_radius, was.corner_radius, now.corner_radius)
    &&& (moved.blur_radius is Some <==> now.blur_radius != was.blur_radius)
    &&& (moved.topmost is Some <==> now.topmost != was.topmost)
    &&& (moved.hidden is Some <==> now.hidden != was.hidden)
    &&& moved_measure(patch.padding_left, moved.padding_left, was.padding_left, now.padding_left)
    &&& moved_measure(patch.padding_right, moved.padding_right, was.padding_right, now.padding_right)
    &&& (moved.display is Some <==> now.display != was.display)
    &&& (moved.sticky is Some <==> now.sticky != was.sticky)
    &&& (moved.show_in_fullscreen is Some <==> now.show_in_fullscreen != was.show_in_fullscreen)
    &&& moved_measure(patch.notch_width, moved.notch_width, was.notch_width, now.notch_width)
    &&& moved_measure(patch.notch_offset, moved.notch_offset, was.notch_offset, now.notch_offset)
    &&& moved_measure(patch.notch_display_height, moved.notch_display_height, was.notch_display_height, now.notch_display_height)
}

/// What a patch builds from nothing: each field as it says, and else as there is
/// without anybody saying so.
pub open spec fn built_bar(patch: BarPatch, now: BarState) -> bool {
    &&& built_measure(patch.height, now.height)
    &&& told_plain(patch.edge, Edge::Top, now.edge)
    &&& told_plain(patch.color, Color(0), now.color)
    &&& built_measure(patch.margin, now.margin)
    &&& built_measure(patch.y_offset, now.y_offset)
    &&& built_measure(patch.corner_radius, now.corner_radius)
    &&& told_plain(patch.blur_radius, 0i32, now.blur_radius)
    &&& built_flag(patch.topmost, now.topmost)
    &&& built_flag(patch.hidden, now.hidden)
    &&& built_measure(patch.padding_left, now.padding_left)
    &&& built_measure(patch.padding_right, now.padding_right)
    &&& told_plain(patch.display, DisplayTarget::All, now.display)
    &&& built_flag(patch.sticky, now.sticky)
    &&& built_flag(patch.show_in_fullscreen, now.show_in_fullscreen)
    &&& built_measure(patch.notch_width, now.notch_width)
    &&& built_measure(patch.notch_offset, now.notch_offset)
    &&& built_measure(patch.notch_display_height, now.notch_display_height)
}

/// Two of one model are the same, field by field.
pub proof fn law_one_bar(a: BarState, b: BarState)
    ensures
        a.model() == b.model() <==> same_bar(a, b),
{
}

/// Applying a patch to the bar does to each field what it says of that field,
/// leaves every other, and reports each that moved under its own name.
pub proof fn law_told_bar(patch: BarPatch, was: BarState, now: BarState)
    requires
        match <BarPatch as Changes<BarState>>::outcome(&patch, was.model()) {
            Some((next, _)) => now.model() == next,
            None => now.model() == was.model(),
        },
    ensures
        told_bar(patch, was, now),
        <BarPatch as Changes<BarState>>::outcome(&patch, was.model()) matches Some((_, moved)) ==> moved_bar(
            patch,
            moved,
            was,
            now,
        ),
        <BarPatch as Changes<BarState>>::outcome(&patch, was.model()) is None ==> same_bar(was, now),
{
    law_one_bar(was, now);
    lemma_told_measure(patch.height, was.height, now.height);
    lemma_told_measure(patch.margin, was.margin, now.margin);
    lemma_told_measure(patch.y_offset, was.y_offset, now.y_offset);
    lemma_told_measure(patch.corner_radius, was.corner_radius, now.corner_radius);
    lemma_told_measure(patch.padding_left, was.padding_left, now.padding_left);
    lemma_told_measure(patch.padding_right, was.padding_right, now.padding_right);
    lemma_told_measure(patch.notch_width, was.notch_width, now.notch_width);
    lemma_told_measure(patch.notch_offset, was.notch_offset, now.notch_offset);
    lemma_told_measure(patch.notch_display_height, was.notch_display_height, now.notch_display_height);
}

// ---------------------------------------------------------------------------
// ItemState

/// Whether two of them are the same, field by field.
pub open spec fn same_item(a: ItemState, b: ItemState) -> bool {
    &&& a.name@ == b.name@
    &&& same_geometry(a.geometry, b.geometry)
    &&& same_popup(a.popup, b.popup)
    &&& same_run(a.icon, b.icon)
    &&& same_run(a.label, b.label)
    &&& same_scripting(a.scripting, b.scripting)
    &&& same_kinds(a.events, b.events)
    &&& same_said(a.alias, b.alias)
    &&& same_names(a.members, b.members)
    &&& a.associated_space == b.associated_space
    &&& a.percentage == b.percentage
    &&& same_run(a.knob, b.knob)
    &&& a.highlight_color == b.highlight_color
}

/// What a patch makes of an item: each field it names is what it says of that
/// field, and every other is as it was.
pub open spec fn told_item(patch: ItemPatch, was: ItemState, now: ItemState) -> bool {
    &&& was.name@ == now.name@
    &&& (match patch.geometry {
        Some(patch) => told_geometry(patch, was.geometry, now.geometry),
        None => same_geometry(was.geometry, now.geometry),
    })
    &&& (match patch.popup {
        Some(patch) => told_popup(patch, was.popup, now.popup),
        None => same_popup(was.popup, now.popup),
    })
    &&& (match patch.icon {
        Some(patch) => told_run(patch, was.icon, now.icon),
        None => same_run(was.icon, now.icon),
    })
    &&& (match patch.label {
        Some(patch) => told_run(patch, was.label, now.label),
        None => same_run(was.label, now.label),
    })
    &&& (match patch.scripting {
        Some(patch) => told_scripting(patch, was.scripting, now.scripting),
        None => same_scripting(was.scripting, now.scripting),
    })
    &&& same_kinds(was.events, now.events)
    &&& told_script(patch.alias, was.alias, now.alias)
    &&& told_members(patch.members, was.members, now.members)
    &&& told_plain(patch.associated_space, was.associated_space, now.associated_space)
    &&& told_plain(patch.percentage, was.percentage, now.percentage)
    &&& (match patch.knob {
        Some(patch) => told_run(patch, was.knob, now.knob),
        None => same_run(was.knob, now.knob),
    })
    &&& told_plain(patch.highlight_color, was.highlight_color, now.highlight_color)
}

/// What a patch reports of an item: each field that moved, under its own name,
/// and no other.
pub open spec fn moved_item(patch: ItemPatch, moved: ItemStateMoved, was: ItemState, now: ItemState) -> bool {
    &&& (match moved.geometry {
        Some(within) => patch.geometry matches Some(patch) && moved_geometry(patch, within, was.geometry, now.geometry),
        None => same_geometry(was.geometry, now.geometry),
    })
    &&& (match moved.popup {
        Some(within) => patch.popup matches Some(patch) && moved_popup(patch, within, was.popup, now.popup),
        None => same_popup(was.popup, now.popup),
    })
    &&& (match moved.icon {
        Some(within) => patch.icon matches Some(patch) && moved_run(patch, within, was.icon, now.icon),
        None => same_run(was.icon, now.icon),
    })
    &&& (match moved.label {
        Some(within) => patch.label matches Some(patch) && moved_run(patch, within, was.label, now.label),
        None => same_run(was.label, now.label),
    })
    &&& (match moved.scripting {
        Some(within) => patch.scripting matches Some(patch) && moved_scripting(patch, within, was.scripting, now.scripting),
        None => same_scripting(was.scripting, now.scripting),
    })
    &&& (moved.alias is Some <==> !same_said(was.alias, now.alias))
    &&& (moved.members is Some <==> !same_names(was.members, now.members))
    &&& (moved.associated_space is Some <==> now.associated_space != was.associated_space)
    &&& (moved.percentage is Some <==> now.percentage != was.percentage)
    &&& (match moved.knob {
        Some(within) => patch.knob matches Some(patch) && moved_run(patch, within, was.knob, now.knob),
        None => same_run(was.knob, now.knob),
    })
    &&& (moved.highlight_color is Some <==> now.highlight_color != was.highlight_color)
}

/// What a patch builds from nothing: each field as it says, and else as there is
/// without anybody saying so.
pub open spec fn built_item(patch: ItemPatch, now: ItemState) -> bool {
    &&& (match patch.popup {
        Some(patch) => built_popup(patch, now.popup),
        None => blank_popup(now.popup),
    })
    &&& (match patch.icon {
        Some(patch) => built_run(patch, now.icon),
        None => blank_run(now.icon),
    })
    &&& (match patch.label {
        Some(patch) => built_run(patch, now.label),
        None => blank_run(now.label),
    })
    &&& (match patch.scripting {
        Some(patch) => built_scripting(patch, now.scripting),
        None => blank_scripting(now.scripting),
    })
    &&& built_script(patch.alias, now.alias)
    &&& built_members(patch.members, now.members)
    &&& told_plain(patch.associated_space, None::<u64>, now.associated_space)
    &&& told_plain(patch.percentage, 0u8, now.percentage)
    &&& (match patch.knob {
        Some(patch) => built_run(patch, now.knob),
        None => blank_run(now.knob),
    })
    &&& told_plain(patch.highlight_color, Color(0), now.highlight_color)
    &&& (patch.geometry matches Some(patch) && built_geometry(patch, now.geometry))
}

/// Two of one model are the same, field by field.
pub proof fn law_one_item(a: ItemState, b: ItemState)
    ensures
        a.model() == b.model() <==> same_item(a, b),
{
    lemma_same_names(a.members, b.members);
    lemma_same_kinds(a.events, b.events);
    law_one_geometry(a.geometry, b.geometry);
    law_one_popup(a.popup, b.popup);
    law_one_run(a.icon, b.icon);
    law_one_run(a.label, b.label);
    law_one_scripting(a.scripting, b.scripting);
    law_one_run(a.knob, b.knob);
}

/// Applying a patch to an item does to each field what it says of that field,
/// leaves every other, and reports each that moved under its own name.
pub proof fn law_told_item(patch: ItemPatch, was: ItemState, now: ItemState)
    requires
        match <ItemPatch as Changes<ItemState>>::outcome(&patch, was.model()) {
            Some((next, _)) => now.model() == next,
            None => now.model() == was.model(),
        },
    ensures
        told_item(patch, was, now),
        <ItemPatch as Changes<ItemState>>::outcome(&patch, was.model()) matches Some((_, moved)) ==> moved_item(
            patch,
            moved,
            was,
            now,
        ),
        <ItemPatch as Changes<ItemState>>::outcome(&patch, was.model()) is None ==> same_item(was, now),
{
    law_one_item(was, now);
    lemma_same_names(was.members, now.members);
    lemma_same_kinds(was.events, now.events);
    if let Some(members) = patch.members {
        lemma_members(members, was.members.model(), now.members);
    }
    match patch.geometry {
        Some(within) => {
            law_told_geometry(within, was.geometry, now.geometry);
        },
        None => {
            law_one_geometry(was.geometry, now.geometry);
        },
    }
    match patch.popup {
        Some(within) => {
            law_told_popup(within, was.popup, now.popup);
        },
        None => {
            law_one_popup(was.popup, now.popup);
        },
    }
    match patch.icon {
        Some(within) => {
            law_told_run(within, was.icon, now.icon);
        },
        None => {
            law_one_run(was.icon, now.icon);
        },
    }
    match patch.label {
        Some(within) => {
            law_told_run(within, was.label, now.label);
        },
        None => {
            law_one_run(was.label, now.label);
        },
    }
    match patch.scripting {
        Some(within) => {
            law_told_scripting(within, was.scripting, now.scripting);
        },
        None => {
            law_one_scripting(was.scripting, now.scripting);
        },
    }
    match patch.knob {
        Some(within) => {
            law_told_run(within, was.knob, now.knob);
        },
        None => {
            law_one_run(was.knob, now.knob);
        },
    }
}

/// What there is without anybody saying so, field by field.
pub proof fn law_blank_run(now: Run)
    requires
        now.model() == <Run as Blank>::blank(),
    ensures
        blank_run(now),
{
}

/// Changing what there is without anybody saying so builds the same.
proof fn lemma_whole_run(patch: RunPatch)
    ensures
        after::<Run, RunPatch>(Some(patch), <Run as Blank>::blank()) == patch.whole(),
        RunPatch::nothing().whole() == <Run as Blank>::blank(),
{
}

/// Building half of an item's text from a patch makes each field what is said of it, and else
/// what there is without anybody saying so.
pub proof fn law_built_run(patch: RunPatch, now: Run)
    requires
        patch.absent().len() == 0,
        now.model() == patch.whole(),
    ensures
        built_run(patch, now),
{
    lemma_built_measure(patch.padding_left, now.padding_left);
    lemma_built_measure(patch.padding_right, now.padding_right);
    lemma_built_measure(patch.y_offset, now.y_offset);
}

/// Two patches to half of an item's text as one say of each field what the later says of it,
/// and else what the earlier does.
pub proof fn law_folded_run(a: RunPatch, b: RunPatch)
    ensures
        a.with(b).text == (if b.text is Some {
            b.text
        } else {
            a.text
        }),
        a.with(b).color == (if b.color is Some {
            b.color
        } else {
            a.color
        }),
        a.with(b).font == (if b.font is Some {
            b.font
        } else {
            a.font
        }),
        a.with(b).drawing == (if b.drawing is Some {
            b.drawing
        } else {
            a.drawing
        }),
        a.with(b).padding_left == (if b.padding_left is Some {
            b.padding_left
        } else {
            a.padding_left
        }),
        a.with(b).padding_right == (if b.padding_right is Some {
            b.padding_right
        } else {
            a.padding_right
        }),
        a.with(b).y_offset == (if b.y_offset is Some {
            b.y_offset
        } else {
            a.y_offset
        }),
        a.with(b).highlight == (if b.highlight is Some {
            b.highlight
        } else {
            a.highlight
        }),
        a.with(b).highlight_color == (if b.highlight_color is Some {
            b.highlight_color
        } else {
            a.highlight_color
        }),
{
}

/// What there is without anybody saying so, field by field.
pub proof fn law_blank_background(now: Background)
    requires
        now.model() == <Background as Blank>::blank(),
    ensures
        blank_background(now),
{
}

/// Changing what there is without anybody saying so builds the same.
proof fn lemma_whole_background(patch: BackgroundPatch)
    ensures
        after::<Background, BackgroundPatch>(Some(patch), <Background as Blank>::blank()) == patch.whole(),
        BackgroundPatch::nothing().whole() == <Background as Blank>::blank(),
{
}

/// Building what is behind an item from a patch makes each field what is said of it, and else
/// what there is without anybody saying so.
pub proof fn law_built_background(patch: BackgroundPatch, now: Background)
    requires
        patch.absent().len() == 0,
        now.model() == patch.whole(),
    ensures
        built_background(patch, now),
{
    lemma_built_measure(patch.corner_radius, now.corner_radius);
    lemma_built_measure(patch.height, now.height);
    lemma_built_measure(patch.padding_left, now.padding_left);
    lemma_built_measure(patch.padding_right, now.padding_right);
    lemma_built_measure(patch.border_width, now.border_width);
}

/// Two patches to what is behind an item as one say of each field what the later says of it,
/// and else what the earlier does.
pub proof fn law_folded_background(a: BackgroundPatch, b: BackgroundPatch)
    ensures
        a.with(b).drawing == (if b.drawing is Some {
            b.drawing
        } else {
            a.drawing
        }),
        a.with(b).color == (if b.color is Some {
            b.color
        } else {
            a.color
        }),
        a.with(b).corner_radius == (if b.corner_radius is Some {
            b.corner_radius
        } else {
            a.corner_radius
        }),
        a.with(b).height == (if b.height is Some {
            b.height
        } else {
            a.height
        }),
        a.with(b).padding_left == (if b.padding_left is Some {
            b.padding_left
        } else {
            a.padding_left
        }),
        a.with(b).padding_right == (if b.padding_right is Some {
            b.padding_right
        } else {
            a.padding_right
        }),
        a.with(b).border_color == (if b.border_color is Some {
            b.border_color
        } else {
            a.border_color
        }),
        a.with(b).border_width == (if b.border_width is Some {
            b.border_width
        } else {
            a.border_width
        }),
{
}

/// What there is without anybody saying so, field by field.
pub proof fn law_blank_scripting(now: Scripting)
    requires
        now.model() == <Scripting as Blank>::blank(),
    ensures
        blank_scripting(now),
{
}

/// Changing what there is without anybody saying so builds the same.
proof fn lemma_whole_scripting(patch: ScriptingPatch)
    ensures
        after::<Scripting, ScriptingPatch>(Some(patch), <Scripting as Blank>::blank()) == patch.whole(),
        ScriptingPatch::nothing().whole() == <Scripting as Blank>::blank(),
{
}

/// Building what an item runs from a patch makes each field what is said of it, and else
/// what there is without anybody saying so.
pub proof fn law_built_scripting(patch: ScriptingPatch, now: Scripting)
    requires
        patch.absent().len() == 0,
        now.model() == patch.whole(),
    ensures
        built_scripting(patch, now),
{
}

/// Two patches to what an item runs as one say of each field what the later says of it,
/// and else what the earlier does.
pub proof fn law_folded_scripting(a: ScriptingPatch, b: ScriptingPatch)
    ensures
        a.with(b).script == (if b.script is Some {
            b.script
        } else {
            a.script
        }),
        a.with(b).click_script == (if b.click_script is Some {
            b.click_script
        } else {
            a.click_script
        }),
        a.with(b).update_freq == (if b.update_freq is Some {
            b.update_freq
        } else {
            a.update_freq
        }),
        a.with(b).updates == (if b.updates is Some {
            b.updates
        } else {
            a.updates
        }),
{
}

/// Building where an item is from a patch makes each field what is said of it, and else
/// what there is without anybody saying so.
pub proof fn law_built_geometry(patch: GeometryPatch, now: Geometry)
    requires
        patch.absent().len() == 0,
        now.model() == patch.whole(),
    ensures
        built_geometry(patch, now),
{
    lemma_built_measure(patch.y_offset, now.y_offset);
    lemma_built_measure(patch.padding_left, now.padding_left);
    lemma_built_measure(patch.padding_right, now.padding_right);
    match patch.background {
        Some(within) => {
            lemma_whole_background(within);
            law_built_background(within, now.background);
        },
        None => {
            law_blank_background(now.background);
        },
    }
}

/// Two patches to where an item is as one say of each field what the later says of it,
/// and else what the earlier does.
pub proof fn law_folded_geometry(a: GeometryPatch, b: GeometryPatch)
    ensures
        a.with(b).drawing == (if b.drawing is Some {
            b.drawing
        } else {
            a.drawing
        }),
        a.with(b).position == (if b.position is Some {
            b.position
        } else {
            a.position
        }),
        a.with(b).y_offset == (if b.y_offset is Some {
            b.y_offset
        } else {
            a.y_offset
        }),
        a.with(b).padding_left == (if b.padding_left is Some {
            b.padding_left
        } else {
            a.padding_left
        }),
        a.with(b).padding_right == (if b.padding_right is Some {
            b.padding_right
        } else {
            a.padding_right
        }),
        a.with(b).width == (if b.width is Some {
            b.width
        } else {
            a.width
        }),
        a.with(b).display == (if b.display is Some {
            b.display
        } else {
            a.display
        }),
        a.with(b).background == (match (a.background, b.background) {
            (Some(first), Some(second)) => Some(first.with(second)),
            (first, None) => first,
            (None, second) => second,
        }),
{
}

/// What there is without anybody saying so, field by field.
pub proof fn law_blank_popup(now: PopupState)
    requires
        now.model() == <PopupState as Blank>::blank(),
    ensures
        blank_popup(now),
{
    law_blank_background(now.background);
}

/// Changing what there is without anybody saying so builds the same.
proof fn lemma_whole_popup(patch: PopupPatch)
    ensures
        after::<PopupState, PopupPatch>(Some(patch), <PopupState as Blank>::blank()) == patch.whole(),
        PopupPatch::nothing().whole() == <PopupState as Blank>::blank(),
{
}

/// Building an item's popup from a patch makes each field what is said of it, and else
/// what there is without anybody saying so.
pub proof fn law_built_popup(patch: PopupPatch, now: PopupState)
    requires
        patch.absent().len() == 0,
        now.model() == patch.whole(),
    ensures
        built_popup(patch, now),
{
    lemma_built_measure(patch.height, now.height);
    lemma_built_measure(patch.y_offset, now.y_offset);
    match patch.background {
        Some(within) => {
            lemma_whole_background(within);
            law_built_background(within, now.background);
        },
        None => {
            law_blank_background(now.background);
        },
    }
}

/// Two patches to an item's popup as one say of each field what the later says of it,
/// and else what the earlier does.
pub proof fn law_folded_popup(a: PopupPatch, b: PopupPatch)
    ensures
        a.with(b).drawing == (if b.drawing is Some {
            b.drawing
        } else {
            a.drawing
        }),
        a.with(b).horizontal == (if b.horizontal is Some {
            b.horizontal
        } else {
            a.horizontal
        }),
        a.with(b).align == (if b.align is Some {
            b.align
        } else {
            a.align
        }),
        a.with(b).topmost == (if b.topmost is Some {
            b.topmost
        } else {
            a.topmost
        }),
        a.with(b).height == (if b.height is Some {
            b.height
        } else {
            a.height
        }),
        a.with(b).y_offset == (if b.y_offset is Some {
            b.y_offset
        } else {
            a.y_offset
        }),
        a.with(b).background == (match (a.background, b.background) {
            (Some(first), Some(second)) => Some(first.with(second)),
            (first, None) => first,
            (None, second) => second,
        }),
{
}

/// Building the bar from a patch makes each field what is said of it, and else
/// what there is without anybody saying so.
pub proof fn law_built_bar(patch: BarPatch, now: BarState, displays: usize)
    requires
        patch.absent().len() == 0,
        now.model() == patch.whole(displays),
    ensures
        built_bar(patch, now),
        now.displays == displays,
{
    lemma_built_measure(patch.height, now.height);
    lemma_built_measure(patch.margin, now.margin);
    lemma_built_measure(patch.y_offset, now.y_offset);
    lemma_built_measure(patch.corner_radius, now.corner_radius);
    lemma_built_measure(patch.padding_left, now.padding_left);
    lemma_built_measure(patch.padding_right, now.padding_right);
    lemma_built_measure(patch.notch_width, now.notch_width);
    lemma_built_measure(patch.notch_offset, now.notch_offset);
    lemma_built_measure(patch.notch_display_height, now.notch_display_height);
}

/// Two patches to the bar as one say of each field what the later says of it,
/// and else what the earlier does.
pub proof fn law_folded_bar(a: BarPatch, b: BarPatch)
    ensures
        a.with(b).height == (if b.height is Some {
            b.height
        } else {
            a.height
        }),
        a.with(b).edge == (if b.edge is Some {
            b.edge
        } else {
            a.edge
        }),
        a.with(b).color == (if b.color is Some {
            b.color
        } else {
            a.color
        }),
        a.with(b).margin == (if b.margin is Some {
            b.margin
        } else {
            a.margin
        }),
        a.with(b).y_offset == (if b.y_offset is Some {
            b.y_offset
        } else {
            a.y_offset
        }),
        a.with(b).corner_radius == (if b.corner_radius is Some {
            b.corner_radius
        } else {
            a.corner_radius
        }),
        a.with(b).blur_radius == (if b.blur_radius is Some {
            b.blur_radius
        } else {
            a.blur_radius
        }),
        a.with(b).topmost == (if b.topmost is Some {
            b.topmost
        } else {
            a.topmost
        }),
        a.with(b).hidden == (if b.hidden is Some {
            b.hidden
        } else {
            a.hidden
        }),
        a.with(b).padding_left == (if b.padding_left is Some {
            b.padding_left
        } else {
            a.padding_left
        }),
        a.with(b).padding_right == (if b.padding_right is Some {
            b.padding_right
        } else {
            a.padding_right
        }),
        a.with(b).display == (if b.display is Some {
            b.display
        } else {
            a.display
        }),
        a.with(b).sticky == (if b.sticky is Some {
            b.sticky
        } else {
            a.sticky
        }),
        a.with(b).show_in_fullscreen == (if b.show_in_fullscreen is Some {
            b.show_in_fullscreen
        } else {
            a.show_in_fullscreen
        }),
        a.with(b).notch_width == (if b.notch_width is Some {
            b.notch_width
        } else {
            a.notch_width
        }),
        a.with(b).notch_offset == (if b.notch_offset is Some {
            b.notch_offset
        } else {
            a.notch_offset
        }),
        a.with(b).notch_display_height == (if b.notch_display_height is Some {
            b.notch_display_height
        } else {
            a.notch_display_height
        }),
{
}

/// Building an item from a patch makes each field what is said of it, and else
/// what there is without anybody saying so.
pub proof fn law_built_item(patch: ItemPatch, now: ItemState, name: ItemName, events: Vec<Kind<()>>)
    requires
        patch.absent().len() == 0,
        now.model() == patch.whole(name.model(), events.model()),
    ensures
        built_item(patch, now),
        now.name@ == name@,
        same_kinds(now.events, events),
{
    lemma_whole_scripting(ScriptingPatch::nothing());
    law_built_geometry(patch.geometry->0, now.geometry);
    match patch.popup {
        Some(within) => {
            lemma_whole_popup(within);
            law_built_popup(within, now.popup);
        },
        None => {
            law_blank_popup(now.popup);
        },
    }
    match patch.icon {
        Some(within) => {
            lemma_whole_run(within);
            law_built_run(within, now.icon);
        },
        None => {
            law_blank_run(now.icon);
        },
    }
    match patch.label {
        Some(within) => {
            lemma_whole_run(within);
            law_built_run(within, now.label);
        },
        None => {
            law_blank_run(now.label);
        },
    }
    match patch.scripting {
        Some(within) => {
            law_built_scripting(within, now.scripting);
        },
        None => {
            law_blank_scripting(now.scripting);
        },
    }
    match patch.knob {
        Some(within) => {
            lemma_whole_run(within);
            law_built_run(within, now.knob);
        },
        None => {
            law_blank_run(now.knob);
        },
    }
    lemma_same_kinds(now.events, events);
    if let Some(members) = patch.members {
        lemma_members(members, Seq::empty(), now.members);
    }
    assert(name_views(now.members@).len() == now.members@.len());
}

/// Two patches to an item as one say of each field what the later says of it,
/// and else what the earlier does.
pub proof fn law_folded_item(a: ItemPatch, b: ItemPatch)
    ensures
        a.with(b).geometry == (match (a.geometry, b.geometry) {
            (Some(first), Some(second)) => Some(first.with(second)),
            (first, None) => first,
            (None, second) => second,
        }),
        a.with(b).popup == (match (a.popup, b.popup) {
            (Some(first), Some(second)) => Some(first.with(second)),
            (first, None) => first,
            (None, second) => second,
        }),
        a.with(b).icon == (match (a.icon, b.icon) {
            (Some(first), Some(second)) => Some(first.with(second)),
            (first, None) => first,
            (None, second) => second,
        }),
        a.with(b).label == (match (a.label, b.label) {
            (Some(first), Some(second)) => Some(first.with(second)),
            (first, None) => first,
            (None, second) => second,
        }),
        a.with(b).scripting == (match (a.scripting, b.scripting) {
            (Some(first), Some(second)) => Some(first.with(second)),
            (first, None) => first,
            (None, second) => second,
        }),
        a.with(b).alias == (if b.alias is Some {
            b.alias
        } else {
            a.alias
        }),
        a.with(b).members == (if b.members is Some {
            b.members
        } else {
            a.members
        }),
        a.with(b).associated_space == (if b.associated_space is Some {
            b.associated_space
        } else {
            a.associated_space
        }),
        a.with(b).percentage == (if b.percentage is Some {
            b.percentage
        } else {
            a.percentage
        }),
        a.with(b).knob == (match (a.knob, b.knob) {
            (Some(first), Some(second)) => Some(first.with(second)),
            (first, None) => first,
            (None, second) => second,
        }),
        a.with(b).highlight_color == (if b.highlight_color is Some {
            b.highlight_color
        } else {
            a.highlight_color
        }),
{
}

} // verus!
