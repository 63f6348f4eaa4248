//! What the attributes on a declaration say, said attribute by attribute.

use crate::declaring::bare_name;
use crate::patching::{
    answers_to, arg_views, arg_word, british, camel_text, capital, differing, entry_views, field_of,
    fields_of, goes_by, plain_field, plan_of, run_together, told, whole_of, ArgView, ArgWord,
    Declared, DeclaredField, EntryView, FieldView, PlanView, Refusal,
};
use crate::text::{pieces, upper_char};
use vstd::prelude::*;

verus! {

/// The words of an attribute.
pub proof fn law_words_of_an_attribute(word: Seq<char>)
    ensures
        arg_word(word) == Some(ArgWord::As) <==> word == "as"@,
        arg_word(word) == Some(ArgWord::Skip) <==> word == "skip"@,
        arg_word(word) == Some(ArgWord::Flatten) <==> word == "flatten"@,
        arg_word(word) == Some(ArgWord::Required) <==> word == "required"@,
        arg_word(word) == Some(ArgWord::Name) <==> word == "name"@,
        arg_word(word) == Some(ArgWord::What) <==> word == "what"@,
        arg_word(word) == Some(ArgWord::ReadWith) <==> word == "read_with"@,
        arg_word(word) == Some(ArgWord::Scalar) <==> word == "scalar"@,
        arg_word(word) == Some(ArgWord::Gap) <==> word == "gap"@,
        arg_word(word) == Some(ArgWord::Derive) <==> word == "derive"@,
        arg_word(word) == Some(ArgWord::Attr) <==> word == "attr"@,
{
    reveal_strlit("as");
    reveal_strlit("skip");
    reveal_strlit("flatten");
    reveal_strlit("required");
    reveal_strlit("name");
    reveal_strlit("what");
    reveal_strlit("read_with");
    reveal_strlit("scalar");
    reveal_strlit("gap");
    reveal_strlit("derive");
    reveal_strlit("attr");
    assert("as"@.len() == 2 && "as"@[0] == 'a');
    assert("skip"@.len() == 4 && "skip"@[0] == 's');
    assert("flatten"@.len() == 7 && "flatten"@[0] == 'f');
    assert("required"@.len() == 8 && "required"@[0] == 'r');
    assert("name"@.len() == 4 && "name"@[0] == 'n');
    assert("what"@.len() == 4 && "what"@[0] == 'w');
    assert("read_with"@.len() == 9 && "read_with"@[0] == 'r');
    assert("scalar"@.len() == 6 && "scalar"@[0] == 's');
    assert("gap"@.len() == 3 && "gap"@[0] == 'g');
    assert("derive"@.len() == 6 && "derive"@[0] == 'd');
    assert("attr"@.len() == 4 && "attr"@[0] == 'a');
}

/// Whether some attributes hold one.
pub open spec fn holds(args: Seq<ArgView>, arg: ArgView) -> bool {
    exists|i: int| 0 <= i < args.len() && #[trigger] args[i] == arg
}

/// One attribute more is held, and so is what was.
proof fn lemma_holds(args: Seq<ArgView>, arg: ArgView)
    requires
        args.len() > 0,
    ensures
        holds(args, arg) <==> holds(args.drop_last(), arg) || args.last() == arg,
{
    let short = args.drop_last();
    if holds(args, arg) {
        let i = choose|i: int| 0 <= i < args.len() && #[trigger] args[i] == arg;
        if i < short.len() {
            assert(short[i] == arg);
        }
    }
    if holds(short, arg) {
        let i = choose|i: int| 0 <= i < short.len() && #[trigger] short[i] == arg;
        assert(args[i] == arg);
    }
    if args.last() == arg {
        assert(args[args.len() - 1] == arg);
    }
}

/// A field is flattened, required, read specially or left out where an attribute says
/// so, and not otherwise. Its name and what it is a field of stay, and its type stays
/// unless an attribute gives it another. An attribute of a whole declaration is
/// refused on a field.
pub proof fn law_a_field_is_what_its_attributes_say(field: FieldView, args: Seq<ArgView>)
    ensures
        told(field, args) matches Ok(so) ==> {
            &&& so.flatten <==> field.flatten || holds(args, ArgView::Flatten)
            &&& so.required <==> field.required || holds(args, ArgView::Required)
            &&& so.read_with <==> field.read_with || holds(args, ArgView::ReadWith)
            &&& so.skip <==> field.skip || holds(args, ArgView::Skip)
            &&& so.name == field.name
            &&& so.target == field.target
            &&& (forall|i: int| 0 <= i < args.len() ==> !(#[trigger] args[i] is As)) ==> so.ty
                == field.ty
            &&& (forall|i: int| 0 <= i < args.len() ==> !(#[trigger] args[i] is Attr))
                ==> so.entries == field.entries
        },
        told(field, args) is Ok <==> forall|i: int|
            0 <= i < args.len() ==> (#[trigger] args[i] is As || args[i] is Attr || args[i] is Flatten
                || args[i] is Required || args[i] is ReadWith || args[i] is Skip),
        told(field, args) is Err ==> told(field, args)->Err_0 == Refusal::StructArgumentOnField,
        args.len() > 0 ==> (told(field, args) matches Ok(so) ==> (args.last() matches ArgView::As(ty)
            ==> so.ty == ty)),
    decreases args.len(),
{
    if args.len() > 0 {
        let short = args.drop_last();
        law_a_field_is_what_its_attributes_say(field, short);
        lemma_holds(args, ArgView::Flatten);
        lemma_holds(args, ArgView::Required);
        lemma_holds(args, ArgView::ReadWith);
        lemma_holds(args, ArgView::Skip);
        let end = args.len() - 1;
        assert(args[end] == args.last());
        assert forall|i: int| 0 <= i < short.len() implies #[trigger] short[i] == args[i] by {}
        if told(field, args) is Ok {
            assert forall|i: int| 0 <= i < args.len() implies (#[trigger] args[i] is As
                || args[i] is Attr || args[i] is Flatten || args[i] is Required
                || args[i] is ReadWith || args[i] is Skip) by {
                if i < short.len() {
                    assert(short[i] == args[i]);
                }
            }
            if forall|i: int| 0 <= i < args.len() ==> !(#[trigger] args[i] is As) {
                assert(!(args[end] is As));
                assert forall|i: int| 0 <= i < short.len() implies !(#[trigger] short[i] is As) by {
                    assert(short[i] == args[i]);
                }
            }
            if forall|i: int| 0 <= i < args.len() ==> !(#[trigger] args[i] is Attr) {
                assert(!(args[end] is Attr));
                assert forall|i: int| 0 <= i < short.len() implies !(
                #[trigger] short[i] is Attr) by {
                    assert(short[i] == args[i]);
                }
            }
        }
        if forall|i: int|
            0 <= i < args.len() ==> (#[trigger] args[i] is As || args[i] is Attr
                || args[i] is Flatten || args[i] is Required || args[i] is ReadWith
                || args[i] is Skip) {
            assert forall|i: int| 0 <= i < short.len() implies (#[trigger] short[i] is As
                || short[i] is Attr || short[i] is Flatten || short[i] is Required
                || short[i] is ReadWith || short[i] is Skip) by {
                assert(short[i] == args[i]);
            }
            assert(args[end] is As || args[end] is Attr || args[end] is Flatten
                || args[end] is Required || args[end] is ReadWith || args[end] is Skip);
        }
    }
}

/// A declaration is named, described and read from bare text as its attributes say,
/// the last of each counting, and an attribute of a field is refused on it.
pub proof fn law_a_declaration_is_what_its_attributes_say(args: Seq<ArgView>)
    ensures
        whole_of(args) is Ok <==> forall|i: int|
            0 <= i < args.len() ==> !(#[trigger] args[i] is As || args[i] is Flatten
                || args[i] is Required || args[i] is ReadWith || args[i] is Skip),
        whole_of(args) matches Ok(whole) ==> {
            &&& whole.name is Some <==> exists|i: int|
                0 <= i < args.len() && #[trigger] args[i] is Name
            &&& whole.what is Some <==> exists|i: int|
                0 <= i < args.len() && #[trigger] args[i] is What
            &&& whole.scalar is Some <==> exists|i: int|
                0 <= i < args.len() && #[trigger] args[i] is Scalar
            &&& args.len() > 0 && (args.last() matches ArgView::Name(name)) ==> whole.name == Some(
                args.last()->Name_0,
            )
            &&& args.len() > 0 && (args.last() matches ArgView::What(what)) ==> whole.what == Some(
                args.last()->What_0,
            )
            &&& args.len() > 0 && (args.last() matches ArgView::Scalar(field)) ==> whole.scalar
                == Some(args.last()->Scalar_0)
            &&& args.len() > 0 && (args.last() matches ArgView::Gap(key, note))
                ==> whole.gaps.len() > 0 && whole.gaps.last() == (
                args.last()->Gap_0,
                args.last()->Gap_1,
            )
        },
    decreases args.len(),
{
    if args.len() > 0 {
        let short = args.drop_last();
        let end = args.len() - 1;
        law_a_declaration_is_what_its_attributes_say(short);
        assert(args[end] == args.last());
        assert forall|i: int| 0 <= i < short.len() implies #[trigger] short[i] == args[i] by {}
        assert forall|i: int| 0 <= i < short.len() implies #[trigger] args[i] == short[i] by {}
        if whole_of(args) is Ok {
            assert forall|i: int| 0 <= i < args.len() implies !(#[trigger] args[i] is As
                || args[i] is Flatten || args[i] is Required || args[i] is ReadWith
                || args[i] is Skip) by {
                if i < short.len() {
                    assert(short[i] == args[i]);
                }
            }
        }
        if forall|i: int|
            0 <= i < args.len() ==> !(#[trigger] args[i] is As || args[i] is Flatten
                || args[i] is Required || args[i] is ReadWith || args[i] is Skip) {
            assert forall|i: int| 0 <= i < short.len() implies !(#[trigger] short[i] is As
                || short[i] is Flatten || short[i] is Required || short[i] is ReadWith
                || short[i] is Skip) by {
                assert(short[i] == args[i]);
            }
            assert(!(args[end] is As || args[end] is Flatten || args[end] is Required
                || args[end] is ReadWith || args[end] is Skip));
        }
    }
}

/// The fields of a declaration are planned one by one, in order, and a declaration
/// reads exactly where each of them does.
pub proof fn law_fields_are_planned_one_by_one(declared: Seq<DeclaredField>)
    ensures
        fields_of(declared) matches Ok(fields) ==> fields.len() == declared.len() && forall|i: int|
            0 <= i < fields.len() ==> field_of(declared[i]) == Ok::<FieldView, Refusal>(
                #[trigger] fields[i],
            ),
        fields_of(declared) matches Err((i, refusal)) ==> 0 <= i < declared.len() && field_of(
            declared[i],
        ) == Err::<FieldView, Refusal>(refusal),
    decreases declared.len(),
{
    if declared.len() > 0 {
        let short = declared.drop_last();
        law_fields_are_planned_one_by_one(short);
        if let Ok(fields) = fields_of(declared) {
            let before = fields_of(short)->Ok_0;
            assert forall|i: int| 0 <= i < fields.len() implies field_of(declared[i]) == Ok::<
                FieldView,
                Refusal,
            >(#[trigger] fields[i]) by {
                if i < short.len() {
                    assert(fields[i] == before[i]);
                    assert(declared[i] == short[i]);
                }
            }
        }
        if let Err((i, refusal)) = fields_of(declared) {
            if fields_of(short) is Err {
                assert(declared[i] == short[i]);
            }
        }
    }
}

/// A field starts out as it is declared: of its own type, with what is already said
/// of it, and none of what an attribute can make of it.
pub proof fn law_a_field_starts_out_as_declared(declared: DeclaredField)
    ensures
        ({
            let plain = plain_field(declared.name@, declared.ty@, entry_views(declared.entries@));
            &&& plain.name == declared.name@
            &&& plain.target == declared.ty@
            &&& plain.ty == declared.ty@
            &&& plain.entries == entry_views(declared.entries@)
            &&& !plain.flatten && !plain.required && !plain.read_with && !plain.skip
        }),
        field_of(declared) matches Ok(field) ==> field.name == declared.name@ && field.target
            == declared.ty@ && (field.skip || !field.required || !field.flatten),
{
    law_a_field_is_what_its_attributes_say(
        plain_field(declared.name@, declared.ty@, entry_views(declared.entries@)),
        arg_views(declared.args@),
    );
}

/// The first required field whose type is not its target's own.
proof fn lemma_differing(fields: Seq<FieldView>)
    ensures
        differing(fields) is None <==> forall|i: int|
            0 <= i < fields.len() ==> (#[trigger] fields[i]).skip || !fields[i].required
                || fields[i].ty == fields[i].target,
        differing(fields) matches Some(i) ==> 0 <= i < fields.len() && !fields[i].skip
            && fields[i].required && fields[i].ty != fields[i].target,
    decreases fields.len(),
{
    if fields.len() > 0 {
        let short = fields.drop_last();
        lemma_differing(short);
        assert forall|i: int| 0 <= i < short.len() implies #[trigger] fields[i] == short[i] by {}
        if differing(short) is None {
            assert forall|i: int| 0 <= i < short.len() implies (#[trigger] fields[i]).skip
                || !fields[i].required || fields[i].ty == fields[i].target by {
                assert(short[i] == fields[i]);
            }
        } else {
            let i = differing(short)->0;
            assert(fields[i] == short[i]);
        }
        assert(fields[fields.len() - 1] == fields.last());
    }
}

/// A declaration is planned where it is a struct of named fields, names its patch and
/// itself, and takes what is required as it stands. Its plan is under the name it
/// gives, for what it says it is.
pub proof fn law_a_plan_is_of_what_is_declared(declared: Declared)
    ensures
        plan_of(declared) matches Ok(plan) ==> {
            &&& declared.form is Named
            &&& whole_of(arg_views(declared.args@)) matches Ok(whole)
            &&& whole.name == Some(plan.patch)
            &&& whole.what == Some(plan.what)
            &&& whole.scalar == plan.scalar
            &&& whole.gaps == plan.gaps
            &&& fields_of(declared.fields@) == Ok::<Seq<FieldView>, (int, Refusal)>(plan.fields)
            &&& forall|i: int|
                0 <= i < plan.fields.len() ==> (#[trigger] plan.fields[i]).skip
                    || !plan.fields[i].required || plan.fields[i].ty == plan.fields[i].target
        },
        declared.form is Other ==> plan_of(declared) == Err::<PlanView, (Option<int>, Refusal)>(
            (None, Refusal::NotAStruct),
        ),
        declared.form is Unnamed ==> plan_of(declared) == Err::<PlanView, (Option<int>, Refusal)>(
            (None, Refusal::UnnamedFields),
        ),
        (declared.form is Named && (whole_of(arg_views(declared.args@)) matches Ok(whole)
            && whole.name is Some && whole.what is Some) && (fields_of(
            declared.fields@,
        ) matches Ok(fields) && forall|i: int|
            0 <= i < fields.len() ==> (#[trigger] fields[i]).skip || !fields[i].required
                || fields[i].ty == fields[i].target)) ==> plan_of(declared) is Ok,
{
    if let Ok(fields) = fields_of(declared.fields@) {
        lemma_differing(fields);
    }
}

/// A field goes by its own name, by each name it is said to be renamed to or aliased
/// as, and by each of them as it is spelled in Britain. It goes by nothing else.
pub proof fn law_the_names_of_a_field(
    field: Seq<char>,
    entries: Seq<EntryView>,
    key: Seq<char>,
    i: int,
)
    ensures
        answers_to(field, entries, field),
        answers_to(field, entries, british(field)),
        0 <= i < entries.len() && (entries[i].path == "alias"@ || entries[i].path == "rename"@) && (
        entries[i].text matches Some(name) && key == name) ==> answers_to(field, entries, key)
            && answers_to(field, entries, british(key)),
        entries.len() == 0 ==> (answers_to(field, entries, key) <==> key == field || key == british(
            field,
        )),
{
    assert(goes_by(field, entries, field));
    if 0 <= i < entries.len() && (entries[i].path == "alias"@ || entries[i].path == "rename"@) && (
    entries[i].text matches Some(name) && key == name) {
        assert(crate::patching::is_alias(entries[i]));
        assert(goes_by(field, entries, key));
    }
}

/// What begins with `color` begins with `colour` in Britain, and the rest is spelled
/// likewise.
pub proof fn law_colour_has_a_u_in_it(rest: Seq<char>)
    ensures
        british("color"@ + rest) == "colour"@ + british(rest),
{
    reveal_strlit("color");
    let whole = "color"@ + rest;
    assert(whole.take(5) =~= "color"@);
    assert(whole.skip(5) =~= rest);
}

/// The name of a type runs the words of a field's name together, each with a capital
/// letter.
pub proof fn law_words_run_together(name: Seq<char>, word: Seq<char>)
    requires
        !word.contains('_'),
    ensures
        camel_text(name + seq!['_'] + word) == camel_text(name) + capital(word),
        camel_text(word) == capital(word),
        word.len() > 0 ==> capital(word).len() == word.len() && capital(word)[0] == upper_char(
            word[0],
        ) && capital(word).skip(1) == word.skip(1),
{
    crate::text::lemma_one_more_piece(name, word, '_');
    crate::text::lemma_one_piece(word, '_');
    let parts = pieces(name, '_').push(word);
    assert(parts.drop_last() =~= pieces(name, '_'));
    let alone = seq![word];
    assert(alone.drop_last() =~= Seq::<Seq<char>>::empty());
    assert(run_together(Seq::<Seq<char>>::empty()) =~= Seq::<char>::empty());
    assert(run_together(alone) =~= capital(word));
    if word.len() > 0 {
        assert(capital(word).skip(1) =~= word.skip(1));
    }
}

/// A name that is a word of the language is written with a mark, which is no part of
/// it.
pub proof fn law_a_mark_is_no_part_of_a_name(name: Seq<char>)
    ensures
        bare_name("r#"@ + name) == bare_name(name),
        name.len() < 2 || name[0] != 'r' || name[1] != '#' ==> bare_name(name) == name,
{
    reveal_strlit("r#");
    let marked = "r#"@ + name;
    assert(marked.take(2) =~= "r#"@);
    assert(marked.skip(2) =~= name);
    if name.len() >= 2 {
        assert(name.take(2)[0] == name[0] && name.take(2)[1] == name[1]);
    }
}

} // verus!
