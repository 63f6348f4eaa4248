//! What a patch would make of a value it is applied to.
//!
//! Something changes only where applying the patch changes it: naming a
//! property is not the same as changing it.

use crate::align::PopupAlign;
use crate::display::DisplayTarget;
use crate::flag::{resolved, BoolChange, Boolish};
use crate::measure::{equal_bits, is_nan, Measure};
use crate::name::{ItemName, Selector, SelectorView};
use crate::place::{Edge, Position, PositionView};
use crate::style::{fonts_equal, default_font, Color, FontSpec, FontView};
use vstd::prelude::*;

verus! {

/// A value with a plain model.
pub trait Modelled: Sized {
    type Model;

    /// What the value is.
    spec fn model(&self) -> Self::Model;

    /// The same value again.
    fn copy(&self) -> (r: Self)
        ensures
            r.model() == self.model(),
    ;
}

/// A value that is compared whole.
pub trait Leaf: Modelled {
    /// Whether two values compare equal.
    spec fn alike(a: Self::Model, b: Self::Model) -> bool;

    /// Whether two values compare equal.
    fn same_as(&self, other: &Self) -> (r: bool)
        ensures
            r == Self::alike(self.model(), other.model()),
    ;
}

/// A value there is without anybody saying so.
pub trait Blank: Modelled {
    /// What that value is.
    spec fn blank() -> Self::Model;

    /// That value.
    fn fresh() -> (r: Self)
        ensures
            r.model() == Self::blank(),
    ;
}

/// What a patch would make of a value it is applied to.
pub trait Changes<T: Modelled>: Sized {
    /// Which parts of the value moved.
    type Moved;

    /// What the value becomes and what moved to get there, where applying this
    /// changes anything.
    spec fn outcome(&self, current: T::Model) -> Option<(T::Model, Self::Moved)>;

    /// What the value becomes and what moved to get there, where applying this
    /// changes anything.
    fn moved(&self, current: &T) -> (r: Option<(T, Self::Moved)>)
        ensures
            match r {
                Some((value, moved)) => self.outcome(current.model()) == Some(
                    (value.model(), moved),
                ),
                None => self.outcome(current.model()) is None,
            },
    ;

    /// Whether all that this says compares equal to itself, as everything does but
    /// a measurement that is not a number.
    spec fn sound(&self) -> bool;

    /// Whether this says what to be, and not to be whatever is not there now.
    spec fn steady(&self) -> bool;

    /// What is changed becomes something else.
    proof fn becomes_another(&self, current: T::Model)
        requires
            self.sound(),
        ensures
            self.outcome(current) matches Some((next, _)) ==> next != current,
    ;

    /// What is changed is not changed again.
    proof fn changes_once(&self, current: T::Model)
        requires
            self.sound(),
            self.steady(),
        ensures
            self.outcome(current) matches Some((next, _)) ==> self.outcome(next) is None,
    ;

    /// The same, for a caller that only wants the value.
    fn changes(&self, current: &T) -> (r: Option<T>)
        ensures
            match r {
                Some(value) => self.outcome(current.model()) matches Some((model, _)) && model
                    == value.model(),
                None => self.outcome(current.model()) is None,
            },
    {
        match self.moved(current) {
            Some((value, _)) => Some(value),
            None => None,
        }
    }
}

/// The ordinary leaf: a value replaces one it differs from, and nothing else.
impl<T: Leaf> Changes<T> for T {
    type Moved = ();

    open spec fn outcome(&self, current: T::Model) -> Option<(T::Model, ())> {
        if T::alike(self.model(), current) {
            None
        } else {
            Some((self.model(), ()))
        }
    }

    open spec fn sound(&self) -> bool {
        T::alike(self.model(), self.model())
    }

    open spec fn steady(&self) -> bool {
        true
    }

    proof fn becomes_another(&self, current: T::Model) {
    }

    proof fn changes_once(&self, current: T::Model) {
    }

    fn moved(&self, current: &T) -> (r: Option<(T, ())>) {
        if self.same_as(current) {
            None
        } else {
            Some((self.copy(), ()))
        }
    }
}

/// A flag is told to be on, to be off or to flip.
impl Changes<Boolish> for BoolChange {
    type Moved = ();

    open spec fn outcome(&self, current: Boolish) -> Option<(Boolish, ())> {
        if resolved(*self, current.0) == current.0 {
            None
        } else {
            Some((Boolish(resolved(*self, current.0)), ()))
        }
    }

    open spec fn sound(&self) -> bool {
        true
    }

    open spec fn steady(&self) -> bool {
        *self != BoolChange::Toggle
    }

    proof fn becomes_another(&self, current: Boolish) {
    }

    proof fn changes_once(&self, current: Boolish) {
    }

    fn moved(&self, current: &Boolish) -> (r: Option<(Boolish, ())>) {
        match self.change(*current) {
            Some(next) => Some((next, ())),
            None => None,
        }
    }
}

/// A property that is set by naming it and unset by naming nothing.
impl Changes<Option<String>> for String {
    type Moved = ();

    open spec fn outcome(&self, current: Option<Seq<char>>) -> Option<(Option<Seq<char>>, ())> {
        let next = if self@.len() == 0 {
            None
        } else {
            Some(self@)
        };
        if next == current {
            None
        } else {
            Some((next, ()))
        }
    }

    open spec fn sound(&self) -> bool {
        true
    }

    open spec fn steady(&self) -> bool {
        true
    }

    proof fn becomes_another(&self, current: Option<Seq<char>>) {
    }

    proof fn changes_once(&self, current: Option<Seq<char>>) {
    }

    fn moved(&self, current: &Option<String>) -> (r: Option<(Option<String>, ())>) {
        let empty = crate::text::same(self, "");
        proof {
            reveal_strlit("");
            if empty {
                assert(self@ == ""@);
            } else if self@.len() == 0 {
                assert(self@ =~= ""@);
            }
        }
        let next: Option<String> = if empty {
            None
        } else {
            Some(self.clone())
        };
        if next.same_as(current) {
            None
        } else {
            Some((next, ()))
        }
    }
}

/// A measurement that can only be set, never unset.
impl Changes<Option<Measure>> for Measure {
    type Moved = ();

    open spec fn outcome(&self, current: Option<MeasureView>) -> Option<
        (Option<MeasureView>, ()),
    > {
        if current matches Some(there) && equal_bits(self.bits, there.bits) {
            None
        } else {
            Some((Some(self.model()), ()))
        }
    }

    open spec fn sound(&self) -> bool {
        !is_nan(self.bits)
    }

    open spec fn steady(&self) -> bool {
        true
    }

    proof fn becomes_another(&self, current: Option<MeasureView>) {
    }

    proof fn changes_once(&self, current: Option<MeasureView>) {
    }

    fn moved(&self, current: &Option<Measure>) -> (r: Option<(Option<Measure>, ())>) {
        let same = match current {
            Some(there) => self.same(there),
            None => false,
        };
        if same {
            None
        } else {
            Some((Some(self.copy()), ()))
        }
    }
}

/// The names some selectors are, where every one of them is a name.
pub open spec fn all_names(selectors: Seq<Selector>) -> Option<Seq<Seq<char>>>
    decreases selectors.len(),
{
    if selectors.len() == 0 {
        Some(Seq::empty())
    } else {
        match (all_names(selectors.drop_last()), selectors.last()@) {
            (Some(before), SelectorView::Name(name)) => Some(before.push(name)),
            _ => None,
        }
    }
}

/// What a bracket names, against what it holds. A pattern only becomes names
/// against a live list of items, so that nothing can be told from here.
impl Changes<Vec<ItemName>> for Vec<Selector> {
    type Moved = ();

    open spec fn outcome(&self, current: Seq<Seq<char>>) -> Option<(Seq<Seq<char>>, ())> {
        match all_names(self@) {
            Some(names) => if names == current {
                None
            } else {
                Some((names, ()))
            },
            None => None,
        }
    }

    open spec fn sound(&self) -> bool {
        true
    }

    open spec fn steady(&self) -> bool {
        true
    }

    proof fn becomes_another(&self, current: Seq<Seq<char>>) {
    }

    proof fn changes_once(&self, current: Seq<Seq<char>>) {
    }

    fn moved(&self, current: &Vec<ItemName>) -> (r: Option<(Vec<ItemName>, ())>) {
        let mut names: Vec<ItemName> = Vec::new();
        let mut i: usize = 0;
        proof {
            assert(self@.take(0) =~= Seq::<Selector>::empty());
            assert(name_views(names@) =~= Seq::<Seq<char>>::empty());
        }
        while i < self.len()
            invariant
                i <= self@.len(),
                all_names(self@.take(i as int)) == Some(name_views(names@)),
            decreases self@.len() - i,
        {
            proof {
                assert(self@.take(i + 1).drop_last() =~= self@.take(i as int));
                assert(self@.take(i + 1).last() == self@[i as int]);
            }
            match &self[i] {
                Selector::Name(name) => {
                    let ghost before = names@;
                    names.push(name.clone());
                    proof {
                        assert(name_views(names@) =~= name_views(before).push(name@));
                    }
                },
                Selector::Pattern(_) => {
                    proof {
                        lemma_a_pattern_names_nothing(self@, i as int);
                    }
                    return None;
                },
            }
            i = i + 1;
        }
        proof {
            assert(self@.take(self@.len() as int) =~= self@);
        }
        if names.same_as(current) {
            None
        } else {
            Some((names, ()))
        }
    }
}

/// One pattern among selectors, and they are not all names.
proof fn lemma_a_pattern_names_nothing(selectors: Seq<Selector>, i: int)
    requires
        0 <= i < selectors.len(),
        selectors[i] is Pattern,
    ensures
        all_names(selectors) is None,
    decreases selectors.len(),
{
    if i < selectors.len() - 1 {
        lemma_a_pattern_names_nothing(selectors.drop_last(), i);
    }
}

// ---------------------------------------------------------------------------
// Fields of a patch

/// What a field becomes, given what a patch says of it.
pub open spec fn after<T: Modelled, C: Changes<T>>(change: Option<C>, current: T::Model) -> T::Model {
    match change {
        Some(change) => match change.outcome(current) {
            Some((next, _)) => next,
            None => current,
        },
        None => current,
    }
}

/// What moved in a field, where anything did.
pub open spec fn moved_in<T: Modelled, C: Changes<T>>(change: Option<C>, current: T::Model) -> Option<
    C::Moved,
> {
    match change {
        Some(change) => match change.outcome(current) {
            Some((_, moved)) => Some(moved),
            None => None,
        },
        None => None,
    }
}

/// Whether all that is said of a field compares equal to itself.
pub open spec fn sound_in<T: Modelled, C: Changes<T>>(change: Option<C>) -> bool {
    change matches Some(change) ==> change.sound()
}

/// Whether a field is told what to be, where it is told anything.
pub open spec fn steady_in<T: Modelled, C: Changes<T>>(change: Option<C>) -> bool {
    change matches Some(change) ==> change.steady()
}

/// A field after a patch, and what moved in it.
pub fn applied<T: Modelled, C: Changes<T>>(change: &Option<C>, current: &T) -> (r: (
    T,
    Option<C::Moved>,
))
    ensures
        r.0.model() == after::<T, C>(*change, current.model()),
        r.1 == moved_in::<T, C>(*change, current.model()),
{
    match change {
        Some(change) => match change.moved(current) {
            Some((value, moved)) => (value, Some(moved)),
            None => (current.copy(), None),
        },
        None => (current.copy(), None),
    }
}

/// What a field becomes, where a patch moves it.
pub fn changed<T: Modelled, C: Changes<T>>(change: &Option<C>, current: &T) -> (r: Option<T>)
    ensures
        r is Some == moved_in::<T, C>(*change, current.model()) is Some,
        r matches Some(value) ==> value.model() == after::<T, C>(*change, current.model()),
{
    match change {
        Some(change) => change.changes(current),
        None => None,
    }
}

/// Writes what a patch makes of a field into it, and says whether that moved
/// it.
pub fn apply<T: Modelled, C: Changes<T>>(change: &Option<C>, target: &mut T) -> (r: bool)
    ensures
        final(target).model() == after::<T, C>(*change, old(target).model()),
        r == moved_in::<T, C>(*change, old(target).model()) is Some,
{
    match changed(change, &*target) {
        Some(value) => {
            *target = value;
            true
        },
        None => false,
    }
}

/// A field built from nothing but what a patch says of it.
pub fn built<T: Blank, C: Changes<T>>(change: &Option<C>) -> (r: T)
    ensures
        r.model() == after::<T, C>(*change, T::blank()),
{
    let (value, _) = applied(change, &T::fresh());
    value
}

/// Two things a patch says of one field: the later, where it says anything.
pub open spec fn later<C>(first: Option<C>, second: Option<C>) -> Option<C> {
    match second {
        Some(_) => second,
        None => first,
    }
}

/// Two things a patch says of one field as one.
pub fn fold<C>(first: Option<C>, second: Option<C>) -> (r: Option<C>)
    ensures
        r == later(first, second),
{
    match second {
        Some(value) => Some(value),
        None => first,
    }
}

// ---------------------------------------------------------------------------
// Leaves

/// A measurement over plain text.
pub struct MeasureView {
    pub bits: u64,
    pub text: Seq<char>,
}

impl Modelled for Measure {
    type Model = MeasureView;

    open spec fn model(&self) -> MeasureView {
        MeasureView { bits: self.bits, text: self.text@ }
    }

    fn copy(&self) -> (r: Self) {
        self.copied()
    }
}

impl Leaf for Measure {
    open spec fn alike(a: MeasureView, b: MeasureView) -> bool {
        equal_bits(a.bits, b.bits)
    }

    fn same_as(&self, other: &Self) -> (r: bool) {
        self.same(other)
    }
}

impl Blank for Measure {
    open spec fn blank() -> MeasureView {
        MeasureView { bits: 0, text: "0"@ }
    }

    fn fresh() -> (r: Self) {
        Measure::zero()
    }
}

impl Modelled for Option<Measure> {
    type Model = Option<MeasureView>;

    open spec fn model(&self) -> Option<MeasureView> {
        match self {
            Some(measure) => Some(measure.model()),
            None => None,
        }
    }

    fn copy(&self) -> (r: Self) {
        match self {
            Some(measure) => Some(measure.copy()),
            None => None,
        }
    }
}

impl Blank for Option<Measure> {
    open spec fn blank() -> Option<MeasureView> {
        None
    }

    fn fresh() -> (r: Self) {
        None
    }
}

impl Modelled for String {
    type Model = Seq<char>;

    open spec fn model(&self) -> Seq<char> {
        self@
    }

    fn copy(&self) -> (r: Self) {
        self.clone()
    }
}

impl Leaf for String {
    open spec fn alike(a: Seq<char>, b: Seq<char>) -> bool {
        a == b
    }

    fn same_as(&self, other: &Self) -> (r: bool) {
        crate::text::same(self, other)
    }
}

impl Blank for String {
    open spec fn blank() -> Seq<char> {
        Seq::empty()
    }

    fn fresh() -> (r: Self) {
        String::new()
    }
}

impl Modelled for Option<String> {
    type Model = Option<Seq<char>>;

    open spec fn model(&self) -> Option<Seq<char>> {
        match self {
            Some(text) => Some(text@),
            None => None,
        }
    }

    fn copy(&self) -> (r: Self) {
        match self {
            Some(text) => Some(text.clone()),
            None => None,
        }
    }
}

impl Leaf for Option<String> {
    open spec fn alike(a: Option<Seq<char>>, b: Option<Seq<char>>) -> bool {
        a == b
    }

    fn same_as(&self, other: &Self) -> (r: bool) {
        match self {
            Some(a) => match other {
                Some(b) => {
                    assert(self.model() == Some(a@) && other.model() == Some(b@));
                    assert(Self::alike(self.model(), other.model()) == (a@ == b@));
                    crate::text::same(a, b)
                },
                None => false,
            },
            None => other.is_none(),
        }
    }
}

impl Blank for Option<String> {
    open spec fn blank() -> Option<Seq<char>> {
        None
    }

    fn fresh() -> (r: Self) {
        None
    }
}

impl Modelled for FontSpec {
    type Model = FontView;

    open spec fn model(&self) -> FontView {
        self@
    }

    fn copy(&self) -> (r: Self) {
        self.copied()
    }
}

impl Leaf for FontSpec {
    open spec fn alike(a: FontView, b: FontView) -> bool {
        fonts_equal(a, b)
    }

    fn same_as(&self, other: &Self) -> (r: bool) {
        self.same(other)
    }
}

impl Blank for FontSpec {
    open spec fn blank() -> FontView {
        default_font()
    }

    fn fresh() -> (r: Self) {
        FontSpec::default()
    }
}

impl Modelled for Position {
    type Model = PositionView;

    open spec fn model(&self) -> PositionView {
        self@
    }

    fn copy(&self) -> (r: Self) {
        self.copied()
    }
}

impl Leaf for Position {
    open spec fn alike(a: PositionView, b: PositionView) -> bool {
        a == b
    }

    fn same_as(&self, other: &Self) -> (r: bool) {
        self.same(other)
    }
}

/// Names over plain text.
pub open spec fn name_views(names: Seq<ItemName>) -> Seq<Seq<char>> {
    names.map_values(|n: ItemName| n@)
}

impl Modelled for Vec<ItemName> {
    type Model = Seq<Seq<char>>;

    open spec fn model(&self) -> Seq<Seq<char>> {
        name_views(self@)
    }

    fn copy(&self) -> (r: Self) {
        let mut out: Vec<ItemName> = Vec::new();
        let mut i: usize = 0;
        while i < self.len()
            invariant
                i <= self@.len(),
                name_views(out@) =~= name_views(self@).take(i as int),
            decreases self@.len() - i,
        {
            let ghost before = out@;
            out.push(self[i].clone());
            proof {
                assert(name_views(out@) =~= name_views(before).push(self@[i as int]@));
            }
            i = i + 1;
        }
        proof {
            assert(name_views(self@).take(self@.len() as int) =~= name_views(self@));
            assert(out.model() == name_views(out@));
            assert(self.model() == name_views(self@));
        }
        out
    }
}

impl Leaf for Vec<ItemName> {
    open spec fn alike(a: Seq<Seq<char>>, b: Seq<Seq<char>>) -> bool {
        a == b
    }

    fn same_as(&self, other: &Self) -> (r: bool) {
        proof {
            assert(Self::alike(self.model(), other.model()) == (name_views(self@) == name_views(
                other@,
            )));
        }
        if self.len() != other.len() {
            assert(name_views(self@).len() != name_views(other@).len());
            return false;
        }
        let mut i: usize = 0;
        while i < self.len()
            invariant
                i <= self@.len(),
                self@.len() == other@.len(),
                forall|j: int| 0 <= j < i ==> (#[trigger] self@[j])@ == other@[j]@,
            decreases self@.len() - i,
        {
            if !self[i].same(&other[i]) {
                proof {
                    assert(name_views(self@)[i as int] != name_views(other@)[i as int]);
                }
                return false;
            }
            i = i + 1;
        }
        proof {
            assert(name_views(self@) =~= name_views(other@));
        }
        true
    }
}

impl Blank for Vec<ItemName> {
    open spec fn blank() -> Seq<Seq<char>> {
        Seq::empty()
    }

    fn fresh() -> (r: Self) {
        let r: Vec<ItemName> = Vec::new();
        assert(name_views(r@) =~= Seq::<Seq<char>>::empty());
        r
    }
}

impl Modelled for Color {
    type Model = Color;

    open spec fn model(&self) -> Color {
        *self
    }

    fn copy(&self) -> (r: Self) {
        *self
    }
}

impl Leaf for Color {
    open spec fn alike(a: Color, b: Color) -> bool {
        a == b
    }

    fn same_as(&self, other: &Self) -> (r: bool) {
        *self == *other
    }
}

impl Blank for Color {
    open spec fn blank() -> Color {
        Color(0)
    }

    fn fresh() -> (r: Self) {
        Color(0)
    }
}

impl Modelled for Boolish {
    type Model = Boolish;

    open spec fn model(&self) -> Boolish {
        *self
    }

    fn copy(&self) -> (r: Self) {
        *self
    }
}

impl Leaf for Boolish {
    open spec fn alike(a: Boolish, b: Boolish) -> bool {
        a == b
    }

    fn same_as(&self, other: &Self) -> (r: bool) {
        *self == *other
    }
}

impl Blank for Boolish {
    open spec fn blank() -> Boolish {
        Boolish(false)
    }

    fn fresh() -> (r: Self) {
        Boolish(false)
    }
}

impl Modelled for Edge {
    type Model = Edge;

    open spec fn model(&self) -> Edge {
        *self
    }

    fn copy(&self) -> (r: Self) {
        *self
    }
}

impl Leaf for Edge {
    open spec fn alike(a: Edge, b: Edge) -> bool {
        a == b
    }

    fn same_as(&self, other: &Self) -> (r: bool) {
        *self == *other
    }
}

impl Blank for Edge {
    open spec fn blank() -> Edge {
        Edge::Top
    }

    fn fresh() -> (r: Self) {
        Edge::Top
    }
}

impl Modelled for PopupAlign {
    type Model = PopupAlign;

    open spec fn model(&self) -> PopupAlign {
        *self
    }

    fn copy(&self) -> (r: Self) {
        *self
    }
}

impl Leaf for PopupAlign {
    open spec fn alike(a: PopupAlign, b: PopupAlign) -> bool {
        a == b
    }

    fn same_as(&self, other: &Self) -> (r: bool) {
        *self == *other
    }
}

impl Blank for PopupAlign {
    open spec fn blank() -> PopupAlign {
        PopupAlign::Left
    }

    fn fresh() -> (r: Self) {
        PopupAlign::Left
    }
}

impl Modelled for DisplayTarget {
    type Model = DisplayTarget;

    open spec fn model(&self) -> DisplayTarget {
        *self
    }

    fn copy(&self) -> (r: Self) {
        *self
    }
}

impl Leaf for DisplayTarget {
    open spec fn alike(a: DisplayTarget, b: DisplayTarget) -> bool {
        a == b
    }

    fn same_as(&self, other: &Self) -> (r: bool) {
        *self == *other
    }
}

impl Blank for DisplayTarget {
    open spec fn blank() -> DisplayTarget {
        DisplayTarget::All
    }

    fn fresh() -> (r: Self) {
        DisplayTarget::All
    }
}

impl Modelled for i32 {
    type Model = i32;

    open spec fn model(&self) -> i32 {
        *self
    }

    fn copy(&self) -> (r: Self) {
        *self
    }
}

impl Leaf for i32 {
    open spec fn alike(a: i32, b: i32) -> bool {
        a == b
    }

    fn same_as(&self, other: &Self) -> (r: bool) {
        *self == *other
    }
}

impl Blank for i32 {
    open spec fn blank() -> i32 {
        0
    }

    fn fresh() -> (r: Self) {
        0
    }
}

impl Modelled for u32 {
    type Model = u32;

    open spec fn model(&self) -> u32 {
        *self
    }

    fn copy(&self) -> (r: Self) {
        *self
    }
}

impl Leaf for u32 {
    open spec fn alike(a: u32, b: u32) -> bool {
        a == b
    }

    fn same_as(&self, other: &Self) -> (r: bool) {
        *self == *other
    }
}

impl Blank for u32 {
    open spec fn blank() -> u32 {
        0
    }

    fn fresh() -> (r: Self) {
        0
    }
}

impl Modelled for u8 {
    type Model = u8;

    open spec fn model(&self) -> u8 {
        *self
    }

    fn copy(&self) -> (r: Self) {
        *self
    }
}

impl Leaf for u8 {
    open spec fn alike(a: u8, b: u8) -> bool {
        a == b
    }

    fn same_as(&self, other: &Self) -> (r: bool) {
        *self == *other
    }
}

impl Blank for u8 {
    open spec fn blank() -> u8 {
        0
    }

    fn fresh() -> (r: Self) {
        0
    }
}

impl Modelled for Option<u64> {
    type Model = Option<u64>;

    open spec fn model(&self) -> Option<u64> {
        *self
    }

    fn copy(&self) -> (r: Self) {
        *self
    }
}

impl Leaf for Option<u64> {
    open spec fn alike(a: Option<u64>, b: Option<u64>) -> bool {
        a == b
    }

    fn same_as(&self, other: &Self) -> (r: bool) {
        *self == *other
    }
}

impl Blank for Option<u64> {
    open spec fn blank() -> Option<u64> {
        None
    }

    fn fresh() -> (r: Self) {
        None
    }
}

// ---------------------------------------------------------------------------
// What holds of changes

/// Setting a flag to what it is, or a text or an exact value to what it is,
/// changes nothing; flipping a flag always changes it.
pub proof fn law_naming_is_not_changing(flag: Boolish, value: BoolChange)
    ensures
        <BoolChange as Changes<Boolish>>::outcome(&BoolChange::Toggle, flag) == Some(
            (Boolish(!flag.0), ()),
        ),
        value != BoolChange::Toggle ==> (<BoolChange as Changes<Boolish>>::outcome(
            &value,
            flag,
        ) is None <==> (value == BoolChange::True) == flag.0),
{
}

/// What is reported as moved really differs, and what is not reported stays.
/// What is set to a measurement that is not a number is left out: it is
/// reported as moved however often it is set.
pub proof fn law_moved_means_different<T: Modelled, C: Changes<T>>(
    change: Option<C>,
    current: T::Model,
)
    requires
        sound_in::<T, C>(change),
    ensures
        moved_in::<T, C>(change, current) is Some <==> after::<T, C>(change, current) != current,
{
    if let Some(change) = change {
        change.becomes_another(current);
    }
}

/// Whatever can be said of a value, saying it again changes nothing. A flip is
/// left out, which changes what is there every time, and so is a measurement
/// that is not a number.
pub proof fn law_saying_it_again_changes_nothing<T: Modelled, C: Changes<T>>(
    change: Option<C>,
    current: T::Model,
)
    requires
        sound_in::<T, C>(change),
        steady_in::<T, C>(change),
    ensures
        moved_in::<T, C>(change, after::<T, C>(change, current)) is None,
        after::<T, C>(change, after::<T, C>(change, current)) == after::<T, C>(change, current),
{
    if let Some(change) = change {
        change.changes_once(current);
    }
}

/// Setting a property to nothing unsets it, and setting it to something sets it
/// to that.
pub proof fn law_naming_nothing_unsets(text: String, current: Option<Seq<char>>)
    ensures
        after::<Option<String>, String>(Some(text), current) == (if text@.len() == 0 {
            None::<Seq<char>>
        } else {
            Some(text@)
        }),
{
}

/// A list that names a pattern changes nothing by itself: what it names can
/// only be told where the items are.
pub proof fn law_a_pattern_cannot_be_told(selectors: Vec<Selector>, i: int, current: Seq<Seq<char>>)
    requires
        0 <= i < selectors@.len(),
        selectors@[i] is Pattern,
    ensures
        <Vec<Selector> as Changes<Vec<ItemName>>>::outcome(&selectors, current) is None,
{
    lemma_a_pattern_names_nothing(selectors@, i);
}

} // verus!
