//! Clicks, scrolls and hovering on the bar.

use crate::event::{Event, Kind, KindView, Modifiers, MouseButton, MouseClick, Scroll, Topic};
use crate::kindset::KindSet;
use crate::measure::Measure;
use crate::source::{described, Described, SourceId};
use crate::sources::{describe, known};
use vstd::prelude::*;

verus! {

/// The four-character code of the class of mouse events.
pub const CLASS_MOUSE: u32 = 0x6d6f_7573;

/// A kind of mouse event this source can read.
#[derive(Debug, Clone, Copy, PartialEq, Eq, Structural)]
pub enum MouseKind {
    /// A button released, which is when a click is one.
    Up,
    Entered,
    Exited,
    /// The two kinds a scroll arrives as.
    WheelMoved,
    Scroll,
}

/// The code of a kind.
pub open spec fn mouse_code(kind: MouseKind) -> u32 {
    match kind {
        MouseKind::Up => 2,
        MouseKind::Entered => 8,
        MouseKind::Exited => 9,
        MouseKind::WheelMoved => 10,
        MouseKind::Scroll => 11,
    }
}

/// What an event handler is told it is for.
#[derive(Debug, Clone, Copy, PartialEq, Eq, Structural)]
pub struct EventTypeSpec {
    pub class: u32,
    pub kind: u32,
}

impl MouseKind {
    /// The code of this kind.
    pub fn code(self) -> (r: u32)
        ensures
            r == mouse_code(self),
    {
        match self {
            MouseKind::Up => 2,
            MouseKind::Entered => 8,
            MouseKind::Exited => 9,
            MouseKind::WheelMoved => 10,
            MouseKind::Scroll => 11,
        }
    }

    /// The kind a code is, where it is one this source asks for.
    pub fn from_code(code: u32) -> (r: Option<MouseKind>)
        ensures
            match r {
                Some(kind) => mouse_code(kind) == code,
                None => forall|kind: MouseKind| #[trigger] mouse_code(kind) != code,
            },
    {
        match code {
            2 => Some(MouseKind::Up),
            8 => Some(MouseKind::Entered),
            9 => Some(MouseKind::Exited),
            10 => Some(MouseKind::WheelMoved),
            11 => Some(MouseKind::Scroll),
            _ => None,
        }
    }

    /// What an event handler is told of this kind.
    pub fn spec(self) -> (r: EventTypeSpec)
        ensures
            r.class == CLASS_MOUSE,
            r.kind == mouse_code(self),
    {
        EventTypeSpec { class: CLASS_MOUSE, kind: self.code() }
    }
}

/// What the mouse produces.
pub open spec fn mouse_topics() -> Seq<Topic> {
    seq![
        Topic::MouseClicked,
        Topic::MouseScrolled,
        Topic::MouseScrolledGlobal,
        Topic::MouseEntered,
        Topic::MouseExited,
        Topic::MouseEnteredGlobal,
        Topic::MouseExitedGlobal,
    ]
}

/// Whether any of some kinds asks after hovering.
pub open spec fn hover_wanted(wanted: Set<KindView<()>>) -> bool {
    wanted.contains(KindView::Scoped(Topic::MouseEntered, ())) || wanted.contains(
        KindView::Scoped(Topic::MouseExited, ()),
    )
}

/// Whether any of some kinds asks after hovering.
pub fn wants_hover(wanted: &KindSet) -> (r: bool)
    ensures
        r == hover_wanted(wanted@),
{
    wanted.contains(&Kind::MouseEntered(())) || wanted.contains(&Kind::MouseExited(()))
}

/// The kinds to ask for: crossings only where hovering is wanted.
pub open spec fn kinds_asked(hover: bool) -> Seq<MouseKind> {
    if hover {
        seq![
            MouseKind::Up,
            MouseKind::WheelMoved,
            MouseKind::Scroll,
            MouseKind::Entered,
            MouseKind::Exited,
        ]
    } else {
        seq![MouseKind::Up, MouseKind::WheelMoved, MouseKind::Scroll]
    }
}

/// The kinds to ask for: crossings only where hovering is wanted.
pub fn asked_for(hover: bool) -> (r: Vec<MouseKind>)
    ensures
        r@ == kinds_asked(hover),
{
    let mut r = vec![MouseKind::Up, MouseKind::WheelMoved, MouseKind::Scroll];
    if hover {
        r.push(MouseKind::Entered);
        r.push(MouseKind::Exited);
    }
    assert(r@ =~= kinds_asked(hover));
    r
}

/// What a mouse event carries.
#[derive(Debug, PartialEq)]
pub struct Reading {
    pub x: Measure,
    pub y: Measure,
    pub modifiers: Modifiers,
    /// Which button, by its number.
    pub button: i64,
    /// How far a wheel went.
    pub delta: Measure,
}

/// The button of a number.
pub open spec fn button_of(number: i64) -> MouseButton {
    if number == 0 {
        MouseButton::Left
    } else if number == 1 {
        MouseButton::Right
    } else {
        MouseButton::Other
    }
}

/// What is reported of a mouse event, where it is a click or a scroll.
pub fn decode(kind: MouseKind, reading: Reading) -> (r: Option<Event>)
    ensures
        match kind {
            MouseKind::Up => r matches Some(Event::MouseClicked(click)) && click.button
                == button_of(reading.button) && click.modifiers == reading.modifiers && click.x
                == reading.x && click.y == reading.y,
            MouseKind::WheelMoved => r matches Some(Event::MouseScrolled(scroll))
                && scroll.scroll_delta == reading.delta && scroll.modifiers == reading.modifiers
                && scroll.x == reading.x && scroll.y == reading.y,
            MouseKind::Scroll => r matches Some(Event::MouseScrolled(scroll))
                && scroll.scroll_delta == reading.delta && scroll.modifiers == reading.modifiers
                && scroll.x == reading.x && scroll.y == reading.y,
            _ => r is None,
        },
{
    match kind {
        MouseKind::Up => {
            let button = match reading.button {
                0 => MouseButton::Left,
                1 => MouseButton::Right,
                _ => MouseButton::Other,
            };
            Some(
                Event::MouseClicked(
                    MouseClick { button, modifiers: reading.modifiers, x: reading.x, y: reading.y },
                ),
            )
        },
        MouseKind::WheelMoved => Some(scrolled(reading)),
        MouseKind::Scroll => Some(scrolled(reading)),
        _ => None,
    }
}

/// What is reported of a scroll.
fn scrolled(reading: Reading) -> (r: Event)
    ensures
        r matches Event::MouseScrolled(scroll) && scroll.scroll_delta == reading.delta
            && scroll.modifiers == reading.modifiers && scroll.x == reading.x && scroll.y
            == reading.y,
{
    Event::MouseScrolled(
        Scroll {
            scroll_delta: reading.delta,
            modifiers: reading.modifiers,
            x: reading.x,
            y: reading.y,
        },
    )
}

/// The source of mouse events: what it is registered for, and where the
/// boundary of an area was last crossed, which is nowhere while crossings are
/// not asked for.
#[derive(Debug)]
pub struct Mouse {
    registered: Option<bool>,
    crossed: Option<(Measure, Measure)>,
}

impl Mouse {
    #[verifier::type_invariant]
    spec fn inv(self) -> bool {
        self.registered != Some(true) ==> self.crossed is None
    }

    /// Whether crossings are asked for, where anything is.
    pub closed spec fn hovering(&self) -> Option<bool> {
        self.registered
    }

    /// Where the boundary of an area was last crossed.
    pub closed spec fn crossing(&self) -> Option<(Measure, Measure)> {
        self.crossed
    }

    /// What this source is called, and what it produces.
    pub fn describe() -> (r: Described)
        ensures
            described(r) == known("mouse"@, mouse_topics(), false),
    {
        let topics = vec![
            Topic::MouseClicked,
            Topic::MouseScrolled,
            Topic::MouseScrolledGlobal,
            Topic::MouseEntered,
            Topic::MouseExited,
            Topic::MouseEnteredGlobal,
            Topic::MouseExitedGlobal,
        ];
        assert(topics@ =~= mouse_topics());
        describe(SourceId("mouse"), topics, false)
    }

    /// One that is registered for nothing.
    pub fn new() -> (r: Mouse)
        ensures
            r.hovering() is None,
            r.crossing() is None,
    {
        Mouse { registered: None, crossed: None }
    }

    /// Starts, and says what to register for.
    pub fn run(&mut self, wanted: &KindSet) -> (r: Vec<MouseKind>)
        ensures
            r@ == kinds_asked(hover_wanted(wanted@)),
            final(self).hovering() == Some(hover_wanted(wanted@)),
            final(self).crossing() == (if hover_wanted(wanted@) {
                old(self).crossing()
            } else {
                None
            }),
    {
        proof {
            use_type_invariant(&*self);
        }
        let hover = wants_hover(wanted);
        if !hover {
            self.crossed = None;
        }
        self.registered = Some(hover);
        asked_for(hover)
    }

    /// Says what to register for in place of what is registered, where what is
    /// wanted has moved. The old registration has to go first: two of them
    /// would double every click.
    pub fn update(&mut self, wanted: &KindSet) -> (r: Option<Vec<MouseKind>>)
        ensures
            match old(self).hovering() {
                None => r is None && *final(self) == *old(self),
                Some(hover) => if hover == hover_wanted(wanted@) {
                    r is None && *final(self) == *old(self)
                } else {
                    &&& r matches Some(kinds) && kinds@ == kinds_asked(hover_wanted(wanted@))
                    &&& final(self).hovering() == Some(hover_wanted(wanted@))
                    &&& final(self).crossing() == (if hover_wanted(wanted@) {
                        old(self).crossing()
                    } else {
                        None
                    })
                },
            },
    {
        proof {
            use_type_invariant(&*self);
        }
        let hover = wants_hover(wanted);
        match self.registered {
            None => None,
            Some(now) => {
                if now == hover {
                    return None;
                }
                if !hover {
                    self.crossed = None;
                }
                self.registered = Some(hover);
                Some(asked_for(hover))
            },
        }
    }

    /// Takes an event, and says what is to be reported of it: a crossing is
    /// only remembered, where crossings are asked for.
    pub fn observe(&mut self, kind: Option<MouseKind>, reading: Option<Reading>) -> (r: Option<
        Event,
    >)
        ensures
            final(self).hovering() == old(self).hovering(),
            match (kind, reading) {
                (Some(kind), Some(at)) => if kind == MouseKind::Entered || kind
                    == MouseKind::Exited {
                    r is None && final(self).crossing() == (if old(self).hovering() == Some(
                        true,
                    ) {
                        Some((at.x, at.y))
                    } else {
                        old(self).crossing()
                    })
                } else {
                    &&& final(self).crossing() == old(self).crossing()
                    &&& r matches Some(event)
                    &&& kind == MouseKind::Up ==> (event matches Event::MouseClicked(click)
                        && click.button == button_of(at.button) && click.modifiers == at.modifiers
                        && click.x == at.x && click.y == at.y)
                    &&& kind != MouseKind::Up ==> (event matches Event::MouseScrolled(scroll)
                        && scroll.scroll_delta == at.delta && scroll.modifiers == at.modifiers
                        && scroll.x == at.x && scroll.y == at.y)
                },
                _ => r is None && *final(self) == *old(self),
            },
    {
        proof {
            use_type_invariant(&*self);
        }
        match (kind, reading) {
            (Some(kind), Some(reading)) => match kind {
                MouseKind::Entered => {
                    self.cross(reading);
                    None
                },
                MouseKind::Exited => {
                    self.cross(reading);
                    None
                },
                _ => decode(kind, reading),
            },
            _ => None,
        }
    }

    /// Remembers a crossing, where crossings are asked for.
    fn cross(&mut self, at: Reading)
        ensures
            final(self).hovering() == old(self).hovering(),
            final(self).crossing() == (if old(self).hovering() == Some(true) {
                Some((at.x, at.y))
            } else {
                old(self).crossing()
            }),
    {
        if let Some(hover) = self.registered {
            if hover {
                self.crossed = Some((at.x, at.y));
            }
        }
    }

    /// Where the boundary of an area was last crossed, to be held against the
    /// areas there are. Nowhere, whenever crossings are not asked for.
    pub fn current_position(&self) -> (r: Option<(Measure, Measure)>)
        ensures
            self.hovering() != Some(true) ==> r is None,
            match self.crossing() {
                None => r is None,
                Some(at) => r matches Some(copy) && copy.0.bits == at.0.bits && copy.1.bits
                    == at.1.bits && copy.0.text@ == at.0.text@ && copy.1.text@ == at.1.text@,
            },
    {
        proof {
            use_type_invariant(self);
        }
        match &self.crossed {
            None => None,
            Some(at) => Some((at.0.copied(), at.1.copied())),
        }
    }
}

// ---------------------------------------------------------------------------
// Laws

/// A kind is told by its code.
pub proof fn law_codes_are_apart(a: MouseKind, b: MouseKind)
    ensures
        mouse_code(a) == mouse_code(b) ==> a == b,
{
}

/// Wanting hovering asks for everything that not wanting it does, first.
pub proof fn law_hovering_only_adds()
    ensures
        kinds_asked(true).take(kinds_asked(false).len() as int) == kinds_asked(false),
        !kinds_asked(false).contains(MouseKind::Entered),
        !kinds_asked(false).contains(MouseKind::Exited),
{
    assert(kinds_asked(true).take(3) =~= kinds_asked(false));
}

} // verus!
