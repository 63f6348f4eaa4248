//! What can be added to the bar, and what each needs to be told.

use crate::changes::Modelled;
use crate::name::{ItemName, Selector, SelectorView};
use crate::place::{Position, PositionView};
use crate::state::{field_names, ItemPatch, Missing};
use crate::text::{joined3, same};
use vstd::prelude::*;

verus! {

/// Which component is added, before it is known where it goes.
#[derive(Debug, Clone, Copy, PartialEq, Eq, Structural)]
pub enum ComponentTag {
    Item,
    Alias,
    Bracket,
    Space,
    Graph,
    Slider,
}

/// The word of a component.
pub open spec fn tag_text(tag: ComponentTag) -> Seq<char> {
    match tag {
        ComponentTag::Item => "item"@,
        ComponentTag::Alias => "alias"@,
        ComponentTag::Bracket => "bracket"@,
        ComponentTag::Space => "space"@,
        ComponentTag::Graph => "graph"@,
        ComponentTag::Slider => "slider"@,
    }
}

/// The component a word names, matched exactly.
pub open spec fn tag_read(text: Seq<char>) -> Option<ComponentTag> {
    if text == "item"@ {
        Some(ComponentTag::Item)
    } else if text == "alias"@ {
        Some(ComponentTag::Alias)
    } else if text == "bracket"@ {
        Some(ComponentTag::Bracket)
    } else if text == "space"@ {
        Some(ComponentTag::Space)
    } else if text == "graph"@ {
        Some(ComponentTag::Graph)
    } else if text == "slider"@ {
        Some(ComponentTag::Slider)
    } else {
        None
    }
}

/// A word that names no component.
#[derive(Debug, Clone, PartialEq, Eq)]
pub struct InvalidComponent(String);

impl View for InvalidComponent {
    type V = Seq<char>;

    closed spec fn view(&self) -> Seq<char> {
        self.0@
    }
}

impl InvalidComponent {
    /// What to say of it.
    pub fn to_string(&self) -> (r: String)
        ensures
            r@ == "`"@ + self@
                + "` is not `item`, `bracket`, `alias`, `space`, `graph` or `slider`"@,
    {
        joined3(
            "`",
            &self.0,
            "` is not `item`, `bracket`, `alias`, `space`, `graph` or `slider`",
        )
    }
}

/// What is added, and its own shape.
#[derive(Debug, Clone, PartialEq)]
pub enum ComponentKind {
    Item { name: ItemName, position: Position },
    Alias { name: ItemName, position: Position },
    /// No position: a bracket's frame comes from what it names.
    Bracket { name: ItemName, members: Vec<Selector> },
    Space { name: ItemName, position: Position },
    Graph { name: ItemName, position: Position },
    Slider { name: ItemName, position: Position },
}

/// Selectors over plain text.
pub open spec fn selector_views(selectors: Seq<Selector>) -> Seq<SelectorView> {
    selectors.map_values(|s: Selector| s@)
}

/// [`ComponentKind`] over plain text.
pub enum ComponentView {
    /// Placed along the bar.
    Placed(ComponentTag, Seq<char>, PositionView),
    /// Drawn behind what it names.
    Bracket(Seq<char>, Seq<SelectorView>),
}

impl View for ComponentKind {
    type V = ComponentView;

    open spec fn view(&self) -> ComponentView {
        match self {
            ComponentKind::Item { name, position } => ComponentView::Placed(
                ComponentTag::Item,
                name@,
                position@,
            ),
            ComponentKind::Alias { name, position } => ComponentView::Placed(
                ComponentTag::Alias,
                name@,
                position@,
            ),
            ComponentKind::Bracket { name, members } => ComponentView::Bracket(
                name@,
                selector_views(members@),
            ),
            ComponentKind::Space { name, position } => ComponentView::Placed(
                ComponentTag::Space,
                name@,
                position@,
            ),
            ComponentKind::Graph { name, position } => ComponentView::Placed(
                ComponentTag::Graph,
                name@,
                position@,
            ),
            ComponentKind::Slider { name, position } => ComponentView::Placed(
                ComponentTag::Slider,
                name@,
                position@,
            ),
        }
    }
}

/// The name of a component.
pub open spec fn component_name(component: ComponentView) -> Seq<char> {
    match component {
        ComponentView::Placed(_, name, _) => name,
        ComponentView::Bracket(name, _) => name,
    }
}

/// Where a component goes. A bracket is filed on the left and takes no space
/// there.
pub open spec fn component_place(component: ComponentView) -> PositionView {
    match component {
        ComponentView::Placed(_, _, position) => position,
        ComponentView::Bracket(_, _) => PositionView::Left,
    }
}

impl ComponentKind {
    /// The name every kind has, and where it goes.
    pub fn placement(&self) -> (r: (&ItemName, Position))
        ensures
            r.0@ == component_name(self@),
            r.1@ == component_place(self@),
    {
        match self {
            ComponentKind::Item { name, position } => (name, position.copied()),
            ComponentKind::Alias { name, position } => (name, position.copied()),
            ComponentKind::Space { name, position } => (name, position.copied()),
            ComponentKind::Graph { name, position } => (name, position.copied()),
            ComponentKind::Slider { name, position } => (name, position.copied()),
            ComponentKind::Bracket { name, .. } => (name, Position::Left),
        }
    }
}

/// Selectors again.
pub fn copy_selectors(selectors: &Vec<Selector>) -> (r: Vec<Selector>)
    ensures
        selector_views(r@) == selector_views(selectors@),
        r@.len() == selectors@.len(),
{
    let mut out: Vec<Selector> = Vec::new();
    let mut i: usize = 0;
    while i < selectors.len()
        invariant
            i <= selectors@.len(),
            out@.len() == i,
            selector_views(out@) =~= selector_views(selectors@).take(i as int),
        decreases selectors@.len() - i,
    {
        let ghost before = out@;
        out.push(selectors[i].copied());
        proof {
            assert(selector_views(out@) =~= selector_views(before).push(selectors@[i as int]@));
        }
        i = i + 1;
    }
    proof {
        assert(selector_views(selectors@).take(selectors@.len() as int) =~= selector_views(
            selectors@,
        ));
    }
    out
}

/// What a bracket is to name, nothing where nobody said.
pub open spec fn said_members(patch: ItemPatch) -> Seq<SelectorView> {
    match patch.members {
        Some(members) => selector_views(members@),
        None => Seq::empty(),
    }
}

/// What is missing to build a component: what it names for a bracket, and else
/// whatever the patch has to say and does not.
pub open spec fn build_lacks(tag: ComponentTag, patch: ItemPatch) -> Seq<Seq<char>> {
    if tag == ComponentTag::Bracket {
        if said_members(patch).len() == 0 {
            seq!["members"@]
        } else {
            Seq::empty()
        }
    } else {
        patch.absent()
    }
}

/// The component built from what was said.
pub open spec fn build_of(tag: ComponentTag, name: Seq<char>, patch: ItemPatch) -> ComponentView {
    if tag == ComponentTag::Bracket {
        ComponentView::Bracket(name, said_members(patch))
    } else {
        ComponentView::Placed(tag, name, patch.geometry->0.position->0.model())
    }
}

impl ComponentTag {
    /// Reads a component's word, exactly.
    pub fn parse(text: &str) -> (r: Result<ComponentTag, InvalidComponent>)
        ensures
            match r {
                Ok(tag) => tag_read(text@) == Some(tag),
                Err(e) => tag_read(text@) is None && e@ == text@,
            },
    {
        if same(text, "item") {
            Ok(ComponentTag::Item)
        } else if same(text, "alias") {
            Ok(ComponentTag::Alias)
        } else if same(text, "bracket") {
            Ok(ComponentTag::Bracket)
        } else if same(text, "space") {
            Ok(ComponentTag::Space)
        } else if same(text, "graph") {
            Ok(ComponentTag::Graph)
        } else if same(text, "slider") {
            Ok(ComponentTag::Slider)
        } else {
            Err(InvalidComponent(text.to_owned()))
        }
    }

    /// The component's word.
    pub fn to_string(&self) -> (r: String)
        ensures
            r@ == tag_text(*self),
    {
        let word = match self {
            ComponentTag::Item => "item",
            ComponentTag::Alias => "alias",
            ComponentTag::Bracket => "bracket",
            ComponentTag::Space => "space",
            ComponentTag::Graph => "graph",
            ComponentTag::Slider => "slider",
        };
        word.to_owned()
    }

    /// The component this names, from what was said of it.
    ///
    /// Adding has to end up with a whole item, so that whatever has no value
    /// without anybody saying so has to have been said: a position for anything
    /// placed along the bar, and what it names for a bracket.
    pub fn build(self, name: ItemName, patch: &ItemPatch) -> (r: Result<ComponentKind, Missing>)
        ensures
            match r {
                Ok(component) => build_lacks(self, *patch).len() == 0 && component@ == build_of(
                    self,
                    name@,
                    *patch,
                ),
                Err(missing) => build_lacks(self, *patch).len() > 0 && missing.what@
                    == "an item"@ && field_names(missing.fields@) == build_lacks(self, *patch),
            },
    {
        if self == ComponentTag::Bracket {
            let members = match &patch.members {
                Some(members) => copy_selectors(members),
                None => Vec::new(),
            };
            proof {
                assert(selector_views(members@) =~= said_members(*patch));
                assert(selector_views(members@).len() == members@.len());
            }
            return if members.len() == 0 {
                let missing = Missing { what: "an item", fields: vec!["members"] };
                proof {
                    assert(field_names(missing.fields@) =~= seq!["members"@]);
                }
                Err(missing)
            } else {
                Ok(ComponentKind::Bracket { name, members })
            };
        }
        if let Some(missing) = patch.missing() {
            return Err(missing);
        }
        let position = match &patch.geometry {
            Some(geometry) => match &geometry.position {
                Some(position) => position.copied(),
                None => Position::Left,
            },
            None => Position::Left,
        };
        proof {
            assert(patch.geometry is Some && patch.geometry->0.position is Some);
        }
        Ok(
            match self {
                ComponentTag::Item => ComponentKind::Item { name, position },
                ComponentTag::Alias => ComponentKind::Alias { name, position },
                ComponentTag::Space => ComponentKind::Space { name, position },
                ComponentTag::Graph => ComponentKind::Graph { name, position },
                ComponentTag::Slider => ComponentKind::Slider { name, position },
                ComponentTag::Bracket => ComponentKind::Item { name, position },
            },
        )
    }
}

impl std::str::FromStr for ComponentTag {
    type Err = InvalidComponent;

    fn from_str(s: &str) -> (r: Result<Self, InvalidComponent>)
        ensures
            match r {
                Ok(tag) => tag_read(s@) == Some(tag),
                Err(e) => tag_read(s@) is None && e@ == s@,
            },
    {
        ComponentTag::parse(s)
    }
}

/// A component's word reads back as the component.
pub proof fn law_tag_round_trip(tag: ComponentTag)
    ensures
        tag_read(tag_text(tag)) == Some(tag),
{
    reveal_strlit("item");
    reveal_strlit("alias");
    reveal_strlit("bracket");
    reveal_strlit("space");
    reveal_strlit("graph");
    reveal_strlit("slider");
    assert("item"@.len() == 4);
    assert("alias"@.len() == 5 && "alias"@[0] == 'a');
    assert("bracket"@.len() == 7);
    assert("space"@.len() == 5 && "space"@[0] == 's');
    assert("graph"@.len() == 5 && "graph"@[0] == 'g');
    assert("slider"@.len() == 6);
}

/// What is built keeps the name it was given, and anything placed goes where it
/// was said to go.
pub proof fn law_building_keeps_what_was_said(tag: ComponentTag, name: Seq<char>, patch: ItemPatch)
    requires
        build_lacks(tag, patch).len() == 0,
    ensures
        component_name(build_of(tag, name, patch)) == name,
        tag != ComponentTag::Bracket ==> component_place(build_of(tag, name, patch))
            == patch.geometry->0.position->0.model(),
{
}

} // verus!
