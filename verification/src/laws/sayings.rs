//! What is said of what went wrong, said of what did.

use crate::api::{extra_claims, named, skips, tag_gap, unnamed, AddView, Extra};
use crate::component::ComponentTag;
use crate::error::{api_text, event_name_fault_text, lua_fault, name_fault_text, ApiFault};
use crate::event::InvalidEventNameView;
use crate::lua::{type_text, LuaFault, LuaView};
use crate::name::InvalidNameView;
use crate::sources::cause::{cause_text, CauseView};
use crate::state::{gap_note, listed};
use crate::stray::{stray_text, NoteView, StrayView};
use crate::text::decimal_text;
use vstd::prelude::*;

verus! {

/// What is wrong with a declaration is said in its own words.
pub proof fn law_a_refusal_of_a_declaration_says_why()
    ensures
        crate::declaring::refusal_text(crate::declaring::Refusal::UnknownScope) == "the only scope is `@scoped`"@,
        crate::declaring::refusal_text(crate::declaring::Refusal::Union) == "EnvFields is for a struct or an enum"@,
        crate::declaring::refusal_text(crate::declaring::Refusal::UnnamedFields) == "EnvFields needs named fields: a script reads a variable by name"@,
        crate::declaring::refusal_text(crate::declaring::Refusal::UnknownOption) == "the only option on a field is `flatten`"@,
        crate::declaring::refusal_text(crate::declaring::Refusal::NoConstantName) == "expected `name = value`"@,
{
}

/// What is wrong with a patch is said in its own words.
pub proof fn law_a_refusal_of_a_patch_says_why()
    ensures
        crate::patching::refusal_text(crate::patching::Refusal::NotAStruct) == "Changes is for a struct: a patch names fields"@,
        crate::patching::refusal_text(crate::patching::Refusal::UnnamedFields) == "Changes needs named fields"@,
        crate::patching::refusal_text(crate::patching::Refusal::UnknownArgument) == "expected `name`, `what`, `gap`, `derive`, `attr`, `scalar`, `skip`, `flatten`, `required`, `read_with` or `as`"@,
        crate::patching::refusal_text(crate::patching::Refusal::AsOnStruct) == "`as` belongs on a field"@,
        crate::patching::refusal_text(crate::patching::Refusal::FlattenOnStruct) == "`flatten` belongs on a field"@,
        crate::patching::refusal_text(crate::patching::Refusal::RequiredOnStruct) == "`required` belongs on a field"@,
        crate::patching::refusal_text(crate::patching::Refusal::ReadWithOnStruct) == "`read_with` belongs on a field"@,
        crate::patching::refusal_text(crate::patching::Refusal::SkipOnStruct) == "`skip` belongs on a field"@,
        crate::patching::refusal_text(crate::patching::Refusal::NoName) == "`#[changes(name = ...)]` names the patch struct"@,
        crate::patching::refusal_text(crate::patching::Refusal::NoWhat) == "`#[changes(what = \"an item\")]` names this table as a config would"@,
        crate::patching::refusal_text(crate::patching::Refusal::StructArgumentOnField) == "only `as`, `attr`, `flatten`, `required`, `read_with` and `skip` belong on a field"@,
        crate::patching::refusal_text(crate::patching::Refusal::RequiredAndFlattened) == "a flattened field is required through its own fields, not as a whole"@,
        crate::patching::refusal_text(crate::patching::Refusal::RequiredDiffers) == "a required field is taken from the patch as it stands, so its patch type must be the target's own"@,
{
}

/// What is wrong with a spelling is said in its own words.
pub proof fn law_a_refusal_of_a_spelling_says_why()
    ensures
        crate::spelling::refusal_text(crate::spelling::Refusal::NotAnEnum) == "a spelling table is a list of variants, so this derives on an enum"@,
        crate::spelling::refusal_text(crate::spelling::Refusal::NoSpelling) == "every variant needs a spelling: `#[spell(\"left\", \"l\")]`"@,
        crate::spelling::refusal_text(crate::spelling::Refusal::PayloadTwice) == "a spelling carries the payload once, not twice"@,
        crate::spelling::refusal_text(crate::spelling::Refusal::NoPayload) == "`{}` names the variant's one payload, and this variant has none"@,
        crate::spelling::refusal_text(crate::spelling::Refusal::SeveralPayloads) == "`{}` names the variant's one payload, and this variant has several"@,
        crate::spelling::refusal_text(crate::spelling::Refusal::PayloadAndWords) == "a payload spelling is the only one its variant has"@,
        crate::spelling::refusal_text(crate::spelling::Refusal::WordWithPayload) == "a variant spelled by a word alone carries nothing to read a payload from; give it a `{}` spelling, or drop `error = ...` and print it only"@,
        crate::spelling::refusal_text(crate::spelling::Refusal::TwoRests) == "only one variant can claim whatever is left"@,
        crate::spelling::refusal_text(crate::spelling::Refusal::SerdeWithoutError) == "reading a spelling back needs `error = ...` to say what a bad one is"@,
        crate::spelling::refusal_text(crate::spelling::Refusal::UnknownFold) == "expected `none`, `lower` or `dashes`"@,
        crate::spelling::refusal_text(crate::spelling::Refusal::UnknownSerde) == "expected `bool`"@,
        crate::spelling::refusal_text(crate::spelling::Refusal::UnknownArgument) == "expected `error`, `unknown`, `fold`, `rest`, `serde` or `expecting`"@,
        crate::spelling::refusal_text(crate::spelling::Refusal::UnknownVariantArgument) == "expected a spelling, `parse = ...` or `rest = ...`"@,
{
}

/// Why a source did not start is said in its own words.
pub proof fn law_a_source_that_does_not_start_says_why(path: Seq<char>, status: nat)
    ensures
        cause_text(CauseView::NoConfigFile) == "there is no config file"@,
        cause_text(CauseView::NoOutputDevice) == "there is no default output device"@,
        cause_text(CauseView::IoKit) == "IOKit refused a notification source"@,
        cause_text(CauseView::NotMainThread) == "this source has to be registered on the main thread"@,
        cause_text(CauseView::NoBrightnessControl) == "this display has no brightness control"@,
        cause_text(CauseView::DynamicStore) == "SCDynamicStore refused the registration"@,
        cause_text(CauseView::MediaRemoteBlocked) == "MediaRemote is entitlement-blocked on this OS"@,
        cause_text(CauseView::NoParentDirectory(path)) == path
            + " has no parent directory to watch"@,
        cause_text(CauseView::Watch(path)) == "could not watch the filesystem: "@ + path,
        cause_text(CauseView::CoreGraphics(path)) == "CoreGraphics refused the callback ("@ + path
            + ")"@,
        cause_text(CauseView::CoreAudio(status as int)) == "CoreAudio refused a listener (status "@
            + decimal_text(status) + ")"@,
{
}

/// What is said of a key that nothing reads.
pub proof fn law_a_stray_key_is_said_to_be_one(
    what: Seq<char>,
    key: Seq<char>,
    why: Seq<char>,
)
    ensures
        stray_text(StrayView { what, key, note: NoteView::Unimplemented(why) })
            == "recognised, but not implemented: "@ + why,
        stray_text(StrayView { what, key, note: NoteView::BelongsToItem })
            == "unknown setting here; `"@ + key + "` belongs to the item, not to its `"@ + what
            + "`"@,
        stray_text(StrayView { what, key, note: NoteView::DidYouMean(why) })
            == "unknown setting; did you mean `"@ + why + "`?"@,
        stray_text(StrayView { what, key, note: NoteView::DoesNothing })
            == "unknown setting; it does nothing"@,
{
    assert("unknown setting here; `"@ + key + ("` belongs to the item, not to its `"@ + what + "`"@)
        =~= "unknown setting here; `"@ + key + "` belongs to the item, not to its `"@ + what
        + "`"@);
}

/// What went wrong with a call names what it was given, and is said in the words of
/// what it was taken for.
pub proof fn law_a_call_that_fails_says_why(text: Seq<char>, why: Seq<char>, e: InvalidNameView)
    ensures
        api_text(ApiFault::InvalidName(text, e)) == "`"@ + text + "` is not a valid item name: "@
            + name_fault_text(e),
        api_text(ApiFault::InvalidColor(text)) == "`"@ + text
            + "` is not a colour: expected 0xaarrggbb, 0xrrggbb or \"#rrggbb\""@,
        api_text(ApiFault::InvalidPattern(text, why)) == "`"@ + text
            + "` is not a valid item-name pattern: "@ + why,
        api_text(ApiFault::NotRunning) == "rsbar is not running"@,
        api_text(ApiFault::Transport(why)) == "lost contact with rsbar: "@ + why,
        api_text(ApiFault::Rejected(why)) == "rsbar rejected the request: "@ + why,
        api_text(ApiFault::UnexpectedResponse(why)) == "rsbar answered with "@ + why
            + ", which does not belong to this request"@,
        name_fault_text(InvalidNameView::Empty) == "an item name cannot be empty"@,
        name_fault_text(InvalidNameView::Character(text)) == "`"@ + text
            + "` is not a valid item name: control characters are not allowed"@,
        event_name_fault_text(InvalidEventNameView::NotAName(text)) == "`"@ + text
            + "` is not an event name"@,
        lua_fault(ApiFault::Rejected(why)) == LuaFault::Message(
            "rsbar: "@ + api_text(ApiFault::Rejected(why)),
        ),
{
}

/// The kinds of item that are not drawn in full yet are those that are said not to be.
pub proof fn law_what_is_not_drawn_yet_is_said_not_to_be(tag: ComponentTag, key: Seq<char>)
    ensures
        tag_gap(tag) is Some <==> tag == ComponentTag::Space || tag == ComponentTag::Graph || tag
            == ComponentTag::Slider,
        tag_gap(ComponentTag::Space) == Some(
            "nothing draws a space's own selected highlight yet"@,
        ),
        tag_gap(ComponentTag::Graph) == Some("nothing plots a graph yet"@),
        tag_gap(ComponentTag::Slider) == Some("nothing draws a slider's track or knob yet"@),
        gap_note(key) is Some <==> key == "slider"@ || key == "graph"@,
{
}

/// An argument is passed over where it is neither options nor nothing and options
/// follow it.
pub proof fn law_what_is_passed_over(first: LuaView, second: LuaView)
    ensures
        skips(first, second) <==> second is Table && !(first is Table) && !(first is Nil),
{
}

/// An item is added without a name where what stands in the name's place is what its
/// kind takes besides.
pub proof fn law_what_is_added_without_a_name(extra: Extra, value: LuaView)
    ensures
        value is Text || value is Bytes ==> !unnamed(extra, value),
        unnamed(Extra::Nothing, value) <==> value is Nil || value is Table,
        unnamed(Extra::Members, value) <==> value is Table,
        unnamed(Extra::Width, value) <==> value is Integer || value is Number,
{
}

/// What stands where a name should, and cannot follow one, is refused: with the kind asked
/// for, what could have stood there, and what did.
pub proof fn law_what_could_have_followed_a_name(
    v: AddView,
    kind: Seq<char>,
    a2: LuaView,
    a3: LuaView,
    a4: LuaView,
)
    requires
        !(a2 is Text),
        !(a2 is Bytes),
    ensures
        !extra_claims(Extra::Nothing, a2) ==> named(v, kind, Extra::Nothing, a2, a3, a4) == Err::<
            crate::api::Named,
            LuaFault,
        >(
            LuaFault::Message(
                "add(\""@ + kind + ("\", ...)'s second argument must be a name or "@
                    + "an options table"@ + (", got "@ + type_text(a2))),
            ),
        ),
        !extra_claims(Extra::Members, a2) ==> named(v, kind, Extra::Members, a2, a3, a4) == Err::<
            crate::api::Named,
            LuaFault,
        >(
            LuaFault::Message(
                "add(\""@ + kind + ("\", ...)'s second argument must be a name or "@
                    + "a table of members"@ + (", got "@ + type_text(a2))),
            ),
        ),
        !extra_claims(Extra::Width, a2) ==> named(v, kind, Extra::Width, a2, a3, a4) == Err::<
            crate::api::Named,
            LuaFault,
        >(
            LuaFault::Message(
                "add(\""@ + kind + ("\", ...)'s second argument must be a name or "@ + "a width"@
                    + (", got "@ + type_text(a2))),
            ),
        ),
{
}

/// Names are set out one after another, each between ticks.
pub proof fn law_names_are_set_out_in_turn(names: Seq<Seq<char>>, last: Seq<char>)
    ensures
        listed(seq![last]) == last,
        names.len() > 0 ==> listed(names.push(last)) == listed(names) + "`, `"@ + last,
        listed(Seq::empty()) == Seq::<char>::empty(),
{
    assert(names.push(last).drop_last() =~= names);
}

} // verus!
