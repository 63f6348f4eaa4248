use coolabah::declaring::{flattened, readable, scoped, union_of, variable_name, Fields};
use coolabah::patching::{
    already_says, apply_name, camel, changed_name, expecting, record_name, seed_name, spellings,
    to_british, Arg, ArgWord, Declared, DeclaredField, Entry, Form,
};
use coolabah::spelling::{
    literal, payload_text, reading_plan, variants, visitor_name, wanted, written, Binding, Fold,
    Refusal, Shape, Spelling, Spelt, TableWord, Tail, Turn, VariantWord,
};

fn spelt(shape: Shape, words: &[&str]) -> Spelt {
    Spelt {
        shape,
        words: words.iter().map(|word| (*word).to_owned()).collect(),
        parse: false,
        rest: false,
    }
}

#[test]
fn a_table_reads_back_every_word_it_declares() {
    let declared = vec![
        spelt(Shape::Unit, &["left", "l"]),
        spelt(Shape::Unit, &["right", "r"]),
        spelt(Shape::Unnamed(1), &["popup.{}"]),
        Spelt { rest: true, ..spelt(Shape::Unnamed(1), &["{}"]) },
    ];
    let found = variants(Some(&declared)).unwrap();
    assert_eq!(literal(&found, Fold::Lower, "LEFT"), Some(0));
    assert_eq!(literal(&found, Fold::Exact, "LEFT"), None);
    assert_eq!(literal(&found, Fold::Lower, "r"), Some(1));
    assert_eq!(found[0].print("unused"), "left");
    assert_eq!(found[2].print("volume"), "popup.volume");
    assert_eq!(payload_text("popup.", "", "popup.volume"), Some("volume"));
    assert_eq!(payload_text("/", "/", "/x/"), Some("x"));
    assert_eq!(payload_text("/", "/", "/"), None);
    assert_eq!(found[2].turn(), Turn::Affixed);
    assert_eq!(found[0].turn(), Turn::Never);
    assert_eq!(found[0].binding, Binding::Nothing);
    assert!(matches!(&found[3].spelling, Spelling::Payload { prefix, suffix }
        if prefix.is_empty() && suffix.is_empty()));

    let plan = reading_plan(&found, false).unwrap();
    assert_eq!(plan.words, vec![0, 1]);
    assert_eq!(plan.affixed, vec![2]);
    assert!(plan.bare.is_empty());
    assert_eq!(plan.tail, Tail::Variant(3));
}

#[test]
fn a_table_that_cannot_be_read_is_refused() {
    assert_eq!(variants(None), Err((None, Refusal::NotAnEnum)));
    let nothing = vec![spelt(Shape::Unit, &[])];
    assert_eq!(variants(Some(&nothing)), Err((Some(0), Refusal::NoSpelling)));
    let twice = vec![spelt(Shape::Unnamed(1), &["{}{}"])];
    assert_eq!(variants(Some(&twice)), Err((Some(0), Refusal::PayloadTwice)));
    let none = vec![spelt(Shape::Unit, &["a"]), spelt(Shape::Unit, &["{}"])];
    assert_eq!(variants(Some(&none)), Err((Some(1), Refusal::NoPayload)));
    let several = vec![spelt(Shape::Unnamed(2), &["{}"])];
    assert_eq!(variants(Some(&several)), Err((Some(0), Refusal::SeveralPayloads)));
    let mixed = vec![spelt(Shape::Unnamed(1), &["{}", "word"])];
    assert_eq!(variants(Some(&mixed)), Err((Some(0), Refusal::PayloadAndWords)));

    let carrying = variants(Some(&vec![spelt(Shape::Unnamed(1), &["word"])])).unwrap();
    assert_eq!(reading_plan(&carrying, false).unwrap_err().1, Refusal::WordWithPayload);
    let rest = Spelt { rest: true, ..spelt(Shape::Unnamed(1), &["{}"]) };
    let rests = variants(Some(&vec![rest.clone(), rest])).unwrap();
    assert_eq!(reading_plan(&rests, false).unwrap_err().1, Refusal::TwoRests);
    for refusal in [
        Refusal::NotAnEnum,
        Refusal::NoSpelling,
        Refusal::PayloadTwice,
        Refusal::NoPayload,
        Refusal::SeveralPayloads,
        Refusal::PayloadAndWords,
        Refusal::WordWithPayload,
        Refusal::TwoRests,
    ] {
        assert!(!refusal.to_string().is_empty());
    }
}

#[test]
fn the_words_of_a_table_are_its_own() {
    assert_eq!(Fold::named("lower"), Ok(Fold::Lower));
    assert_eq!(Fold::named("none"), Ok(Fold::Exact));
    assert_eq!(Fold::named("dashes"), Ok(Fold::Dashes));
    assert_eq!(Fold::named("upper"), Err(Refusal::UnknownFold));
    assert_eq!(Fold::Dashes.apply("Center_Left"), "center-left");
    assert_eq!(TableWord::named("error"), Ok(TableWord::Error));
    assert_eq!(TableWord::named("colour"), Err(Refusal::UnknownArgument));
    assert_eq!(TableWord::any_bool(None), Ok(false));
    assert_eq!(TableWord::any_bool(Some("bool")), Ok(true));
    assert_eq!(TableWord::any_bool(Some("int")), Err(Refusal::UnknownSerde));
    assert_eq!(VariantWord::named("rest"), Ok(VariantWord::Rest));
    assert!(VariantWord::named("skip").is_err());
}

#[test]
fn only_what_can_be_read_goes_over_the_wire() {
    assert!(written(true, Some(false)).unwrap().reading);
    assert_eq!(written(true, Some(true)).unwrap().wire, Some(true));
    assert!(!written(false, None).unwrap().reading);
    assert_eq!(written(false, Some(false)), Err(Refusal::SerdeWithoutError));
    assert_eq!(wanted("BoolChange", None), "a BoolChange spelling, or a boolean");
    assert_eq!(wanted("BoolChange", Some("on or off")), "on or off");
    assert_eq!(visitor_name("Edge"), "EdgeSpelling");
}

fn entry(path: &str, text: Option<&str>) -> Entry {
    Entry { path: path.to_owned(), text: text.map(str::to_owned) }
}

#[test]
fn a_field_answers_to_every_spelling_it_has() {
    assert_eq!(to_british("highlight_color"), "highlight_colour");
    assert_eq!(to_british("colorcolor"), "colourcolour");
    assert_eq!(to_british("height"), "height");
    assert_eq!(spellings("color", &vec![]), vec!["color", "colour"]);
    assert_eq!(
        spellings("text", &vec![entry("alias", Some("string"))]),
        vec!["string", "text"]
    );
    assert_eq!(spellings("height", &vec![entry("default", None)]), vec!["height"]);
}

#[test]
fn the_names_of_what_is_generated_follow_from_the_field() {
    assert_eq!(camel("padding_left"), "PaddingLeft");
    assert_eq!(camel("x"), "X");
    assert_eq!(record_name("Run"), "RunMoved");
    assert_eq!(changed_name("label"), "label_changed");
    assert_eq!(apply_name("label"), "apply_label");
    assert_eq!(seed_name("RunPatch", "font_size"), "RunPatchFontSizeSeed");
    assert_eq!(
        expecting("RunPatch", "text"),
        "RunPatch as a table of properties, or a bare string for `text`"
    );
}

fn field(name: &str, args: Vec<Arg>) -> DeclaredField {
    DeclaredField { name: name.to_owned(), ty: "Measure".to_owned(), entries: vec![], args }
}

fn declared(args: Vec<Arg>, fields: Vec<DeclaredField>) -> Declared {
    Declared { form: Form::Named, args, fields }
}

fn named() -> Vec<Arg> {
    vec![Arg::Name("RunPatch".to_owned()), Arg::What("a run".to_owned())]
}

#[test]
fn a_patch_is_worked_out_from_what_is_declared() {
    let mut args = named();
    args.push(Arg::Scalar("text".to_owned()));
    args.push(Arg::Gap("shadow".to_owned(), "not drawn".to_owned()));
    let plan = declared(
        args,
        vec![
            field("text", vec![]),
            field("drawing", vec![Arg::As("BoolChange".to_owned())]),
            field("background", vec![Arg::Flatten]),
            field("name", vec![Arg::Skip]),
        ],
    )
    .plan()
    .unwrap();
    assert_eq!(plan.patch, "RunPatch");
    assert_eq!(plan.scalar.as_deref(), Some("text"));
    assert_eq!(plan.gaps, vec![("shadow".to_owned(), "not drawn".to_owned())]);
    assert_eq!(plan.fields[1].ty, "BoolChange");
    assert_eq!(plan.fields[1].target, "Measure");
    assert!(plan.fields[2].flatten && plan.fields[2].adds_flatten());
    assert!(!plan.fields[2].adds_skip());
    assert!(plan.fields[0].adds_skip());
    assert!(plan.fields[3].skip);
    assert_eq!(plan.fields[0].keys(), vec!["text"]);
    assert!(already_says(&vec![entry("flatten", None)], "flatten"));
}

#[test]
fn a_declaration_that_makes_no_patch_is_refused() {
    let unnamed = Declared { form: Form::Unnamed, args: named(), fields: vec![] };
    assert!(unnamed.plan().is_err());
    let other = Declared { form: Form::Other, args: named(), fields: vec![] };
    assert!(other.plan().is_err());
    assert!(declared(vec![], vec![]).plan().is_err());
    assert!(declared(vec![Arg::Name("P".to_owned())], vec![]).plan().is_err());
    let misplaced = declared(named(), vec![field("a", vec![Arg::Name("P".to_owned())])]);
    let (at, why) = misplaced.plan().unwrap_err();
    assert_eq!(at, Some(0));
    assert!(!why.to_string().is_empty());
    let both = declared(named(), vec![field("a", vec![Arg::Flatten, Arg::Required])]);
    assert!(both.plan().is_err());
    assert!(ArgWord::named("sideways").is_err());
    assert_eq!(ArgWord::named("read_with"), Ok(ArgWord::ReadWith));
}

#[test]
fn an_event_is_scoped_or_it_is_not() {
    assert_eq!(scoped(None), Ok(false));
    assert_eq!(scoped(Some("scoped")), Ok(true));
    assert!(!scoped(Some("global")).unwrap_err().to_string().is_empty());
    assert_eq!(readable(Fields::Unit), Ok(false));
    assert_eq!(readable(Fields::Named), Ok(true));
    assert!(readable(Fields::Unnamed).is_err());
    assert_eq!(flattened(&vec![]), Ok(false));
    assert_eq!(flattened(&vec!["flatten".to_owned()]), Ok(true));
    assert!(flattened(&vec!["skip".to_owned()]).is_err());
    assert_eq!(variable_name("r#type"), "type");
    assert_eq!(variable_name("volume"), "volume");
}

#[test]
fn a_name_two_variants_share_is_left_blank_once() {
    let variant = |names: &[&str]| names.iter().map(|name| (*name).to_owned()).collect::<Vec<_>>();
    let names = vec![
        variant(&["RSBAR_INFO", "RSBAR_VOLUME"]),
        variant(&[]),
        variant(&["RSBAR_INFO", "RSBAR_SPACE", "RSBAR_SPACE"]),
    ];
    assert_eq!(union_of(&names), vec![(0, 0), (0, 1), (2, 1)]);
    assert!(union_of(&vec![]).is_empty());
}
