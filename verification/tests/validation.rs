use strum::annotation::{recognize, Annotation, Key, RawVariant};
use strum::compile::{compile, wants_dump, Selection};
use strum::descriptor::{find_match, is_well_declared, EnumDescriptor};
use strum::error::ValidationError;
use strum::iterate::Iteration;
use strum::model::{FieldHint, Property, Shape};
use strum::resolve::{
    append_properties, contains_text, describe, distinct_keys, longest_index, without_repeats,
};

fn pair(key: &str, value: &str) -> Annotation {
    Annotation::Pair { key: key.to_string(), value: value.to_string() }
}

fn prop(key: &str, value: &str) -> Property {
    Property { key: key.to_string(), value: value.to_string() }
}

fn props(entries: Vec<Property>) -> Annotation {
    Annotation::Block { key: "props".to_string(), entries }
}

fn unit(name: &str, annotations: Vec<Annotation>) -> RawVariant {
    RawVariant { name: name.to_string(), shape: Shape::Unit, annotations }
}

fn texts(values: &[&str]) -> Vec<String> {
    values.iter().map(|value| value.to_string()).collect()
}

fn everything() -> Selection {
    Selection { parse: true, serialize: true, iterate: true, messages: true, properties: true }
}

#[test]
fn keys_are_recognized_exactly() {
    assert_eq!(recognize("serialize"), Some(Key::Serialize));
    assert_eq!(recognize("to_string"), Some(Key::ToString));
    assert_eq!(recognize("default"), Some(Key::Default));
    assert_eq!(recognize("disabled"), Some(Key::Disabled));
    assert_eq!(recognize("message"), Some(Key::Message));
    assert_eq!(recognize("detailed_message"), Some(Key::DetailedMessage));
    assert_eq!(recognize("props"), Some(Key::Props));
    assert_eq!(recognize("Serialize"), None);
    assert_eq!(recognize("serialize "), None);
    assert_eq!(recognize(""), None);
}

#[test]
fn a_variant_without_annotations_is_known_by_its_name() {
    let variant = describe(&unit("Red", vec![])).unwrap();
    assert_eq!(variant.name, "Red");
    assert_eq!(variant.serializations, texts(&["Red"]));
    assert_eq!(variant.canonical_string, "Red");
    assert!(!variant.is_disabled);
    assert!(!variant.is_default);
    assert_eq!(variant.message, None);
    assert_eq!(variant.detailed_message, None);
    assert!(variant.properties.is_empty());
}

#[test]
fn to_string_decides_what_a_variant_is_written_as() {
    let variant = describe(&unit(
        "V",
        vec![pair("serialize", "a"), pair("to_string", "X"), pair("serialize", "bb")],
    ))
    .unwrap();
    assert_eq!(variant.canonical_string, "X");
    assert_eq!(variant.serializations, texts(&["a", "bb", "X"]));
}

#[test]
fn the_longest_serialization_is_written_where_no_to_string_is_given() {
    let variant =
        describe(&unit("V", vec![pair("serialize", "a"), pair("serialize", "bb")])).unwrap();
    assert_eq!(variant.canonical_string, "bb");
    assert_eq!(variant.serializations, texts(&["a", "bb"]));
}

#[test]
fn among_serializations_of_one_length_the_first_is_written() {
    let variant = describe(&unit(
        "V",
        vec![pair("serialize", "ab"), pair("serialize", "cd"), pair("serialize", "e")],
    ))
    .unwrap();
    assert_eq!(variant.canonical_string, "ab");
}

#[test]
fn length_is_counted_in_bytes() {
    // two characters of three bytes each against five of one byte each
    assert_eq!(longest_index(&texts(&["\u{20ac}\u{20ac}", "abcde"])), 0);
    assert_eq!(longest_index(&texts(&["abcde", "\u{e9}\u{e9}\u{e9}"])), 1);
    assert_eq!(longest_index(&texts(&["x"])), 0);
    assert_eq!(longest_index(&texts(&["", "", "a", "b"])), 2);
}

#[test]
fn with_to_string_alone_the_name_is_not_matched() {
    let variant = describe(&unit("V", vec![pair("to_string", "X")])).unwrap();
    assert_eq!(variant.canonical_string, "X");
    assert_eq!(variant.serializations, texts(&["X"]));
}

#[test]
fn repeated_serializations_are_kept_once() {
    let variant = describe(&unit(
        "V",
        vec![pair("serialize", "a"), pair("serialize", "b"), pair("serialize", "a")],
    ))
    .unwrap();
    assert_eq!(variant.serializations, texts(&["a", "b"]));
    assert_eq!(without_repeats(&texts(&["x", "y", "x", "x", "z", "y"])), texts(&["x", "y", "z"]));
    assert_eq!(without_repeats(&texts(&[])), texts(&[]));
}

#[test]
fn the_first_of_repeated_single_values_stands() {
    let variant = describe(&unit(
        "V",
        vec![
            pair("to_string", "first"),
            pair("to_string", "second"),
            pair("message", "m1"),
            pair("message", "m2"),
            pair("detailed_message", "d1"),
            pair("detailed_message", "d2"),
        ],
    ))
    .unwrap();
    assert_eq!(variant.canonical_string, "first");
    assert_eq!(variant.message, Some("m1".to_string()));
    assert_eq!(variant.detailed_message, Some("d1".to_string()));
}

#[test]
fn the_message_stands_in_for_a_missing_detailed_message() {
    let variant = describe(&unit("V", vec![pair("message", "Simply Green")])).unwrap();
    assert_eq!(variant.message, Some("Simply Green".to_string()));
    assert_eq!(variant.detailed_message, Some("Simply Green".to_string()));
    let variant = describe(&unit("V", vec![pair("detailed_message", "only detail")])).unwrap();
    assert_eq!(variant.message, None);
    assert_eq!(variant.detailed_message, Some("only detail".to_string()));
}

#[test]
fn props_blocks_merge_in_authored_order() {
    let variant = describe(&unit(
        "Mathematics",
        vec![props(vec![prop("Teacher", "Mr.Smith")]), props(vec![prop("Room", "103")])],
    ))
    .unwrap();
    assert_eq!(variant.properties, vec![prop("Teacher", "Mr.Smith"), prop("Room", "103")]);
    let mut all = vec![prop("a", "1")];
    append_properties(&mut all, &vec![prop("b", "2"), prop("c", "3")]);
    assert_eq!(all, vec![prop("a", "1"), prop("b", "2"), prop("c", "3")]);
}

#[test]
fn an_unknown_key_is_reported_with_its_name() {
    assert_eq!(
        describe(&unit("V", vec![pair("serialise", "x")])),
        Err(ValidationError::UnknownAttribute("serialise".to_string()))
    );
    assert_eq!(
        describe(&unit("V", vec![pair("serialize", "x"), pair("zeta", "1"), pair("alpha", "2")])),
        Err(ValidationError::UnknownAttribute("zeta".to_string()))
    );
}

#[test]
fn a_key_in_the_wrong_form_is_unknown() {
    assert_eq!(
        describe(&unit("V", vec![pair("props", "x")])),
        Err(ValidationError::UnknownAttribute("props".to_string()))
    );
    assert_eq!(
        describe(&unit(
            "V",
            vec![Annotation::Block { key: "serialize".to_string(), entries: vec![prop("a", "b")] }]
        )),
        Err(ValidationError::UnknownAttribute("serialize".to_string()))
    );
}

#[test]
fn a_flag_takes_only_true() {
    assert_eq!(
        describe(&unit("V", vec![pair("disabled", "yes")])),
        Err(ValidationError::InvalidFlagValue)
    );
    assert_eq!(
        describe(&unit("V", vec![pair("disabled", "false")])),
        Err(ValidationError::InvalidFlagValue)
    );
    assert_eq!(
        describe(&unit("V", vec![pair("default", "True")])),
        Err(ValidationError::InvalidFlagValue)
    );
    assert!(describe(&unit("V", vec![pair("disabled", "true")])).unwrap().is_disabled);
}

#[test]
fn a_repeated_property_key_is_refused() {
    assert_eq!(
        describe(&unit("V", vec![props(vec![prop("Red", "0"), prop("Red", "255")])])),
        Err(ValidationError::DuplicatePropertyKey)
    );
    assert_eq!(
        describe(&unit(
            "V",
            vec![props(vec![prop("Red", "0")]), props(vec![prop("Blue", "0"), prop("Red", "1")])]
        )),
        Err(ValidationError::DuplicatePropertyKey)
    );
    assert!(distinct_keys(&vec![prop("a", "1"), prop("b", "1")]));
    assert!(!distinct_keys(&vec![prop("a", "1"), prop("b", "1"), prop("a", "1")]));
    assert!(distinct_keys(&vec![]));
}

#[test]
fn the_default_flag_needs_a_single_text_field() {
    let text = FieldHint { from_text: true, borrowed: false };
    let other = FieldHint { from_text: false, borrowed: false };
    let flagged = |shape: Shape| {
        describe(&RawVariant {
            name: "D".to_string(),
            shape,
            annotations: vec![pair("default", "true")],
        })
    };
    assert!(flagged(Shape::Tuple(vec![text])).unwrap().is_default);
    assert_eq!(flagged(Shape::Unit), Err(ValidationError::InvalidDefaultVariantShape));
    assert_eq!(
        flagged(Shape::Tuple(vec![other])),
        Err(ValidationError::InvalidDefaultVariantShape)
    );
    assert_eq!(
        flagged(Shape::Tuple(vec![text, text])),
        Err(ValidationError::InvalidDefaultVariantShape)
    );
    assert_eq!(
        flagged(Shape::Struct(vec![text])),
        Err(ValidationError::InvalidDefaultVariantShape)
    );
    assert_eq!(flagged(Shape::Tuple(vec![])), Err(ValidationError::InvalidDefaultVariantShape));
}

#[test]
fn failures_of_one_variant_are_ranked() {
    // an unknown key outranks a bad flag, wherever it stands
    assert_eq!(
        describe(&unit("V", vec![pair("disabled", "no"), pair("what", "x")])),
        Err(ValidationError::UnknownAttribute("what".to_string()))
    );
    // a bad flag outranks a repeated property key
    assert_eq!(
        describe(&unit(
            "V",
            vec![props(vec![prop("k", "1"), prop("k", "2")]), pair("default", "no")]
        )),
        Err(ValidationError::InvalidFlagValue)
    );
    // a repeated property key outranks a default flag on the wrong shape
    assert_eq!(
        describe(&unit(
            "V",
            vec![pair("default", "true"), props(vec![prop("k", "1"), prop("k", "2")])]
        )),
        Err(ValidationError::DuplicatePropertyKey)
    );
}

#[test]
fn the_first_failing_variant_decides() {
    let raw = vec![
        unit("A", vec![]),
        unit("B", vec![pair("disabled", "maybe")]),
        unit("C", vec![pair("nonsense", "x")]),
    ];
    assert!(is_well_declared(&raw));
    assert_eq!(EnumDescriptor::build(&raw).err(), Some(ValidationError::InvalidFlagValue));
}

#[test]
fn more_than_one_default_is_refused() {
    let text = FieldHint { from_text: true, borrowed: false };
    let raw = vec![
        RawVariant {
            name: "A".to_string(),
            shape: Shape::Tuple(vec![text]),
            annotations: vec![pair("default", "true")],
        },
        unit("B", vec![]),
        RawVariant {
            name: "C".to_string(),
            shape: Shape::Tuple(vec![text]),
            annotations: vec![pair("default", "true")],
        },
    ];
    assert!(is_well_declared(&raw));
    assert_eq!(EnumDescriptor::build(&raw).err(), Some(ValidationError::MultipleDefaultVariants));
}

#[test]
fn several_defaults_are_reported_before_a_shared_serialization() {
    let text = FieldHint { from_text: true, borrowed: false };
    let both = |name: &str| RawVariant {
        name: name.to_string(),
        shape: Shape::Tuple(vec![text]),
        annotations: vec![pair("default", "true"), pair("serialize", "same")],
    };
    let raw = vec![both("A"), both("B")];
    assert!(is_well_declared(&raw));
    assert_eq!(EnumDescriptor::build(&raw).err(), Some(ValidationError::MultipleDefaultVariants));
}

#[test]
fn a_name_that_another_variant_serializes_as_is_a_duplicate() {
    let raw = vec![unit("A", vec![]), unit("B", vec![pair("serialize", "A")])];
    assert!(is_well_declared(&raw));
    assert_eq!(EnumDescriptor::build(&raw).err(), Some(ValidationError::DuplicateSerialization));
    let raw = vec![unit("A", vec![pair("to_string", "t")]), unit("B", vec![pair("serialize", "t")])];
    assert_eq!(EnumDescriptor::build(&raw).err(), Some(ValidationError::DuplicateSerialization));
}

#[test]
fn a_disabled_variant_may_share_a_serialization() {
    let raw = vec![
        unit("A", vec![pair("serialize", "x")]),
        unit("B", vec![pair("serialize", "x"), pair("disabled", "true")]),
    ];
    assert!(is_well_declared(&raw));
    let descriptor = EnumDescriptor::build(&raw).unwrap();
    assert_eq!(descriptor.len(), 2);
    assert_eq!(descriptor.variants()[1].canonical_string, "x");
    assert_eq!(find_match(descriptor.variants(), 2, "x"), Some(0));
    assert_eq!(find_match(descriptor.variants(), 0, "x"), None);
    assert_eq!(find_match(descriptor.variants(), 2, "y"), None);
}

#[test]
fn declarations_need_a_variant_and_distinct_names() {
    assert!(!is_well_declared(&vec![]));
    assert!(is_well_declared(&vec![unit("A", vec![])]));
    assert!(!is_well_declared(&vec![unit("A", vec![]), unit("B", vec![]), unit("A", vec![])]));
    assert!(is_well_declared(&vec![unit("A", vec![]), unit("a", vec![])]));
}

#[test]
fn iteration_is_refused_for_a_borrowed_field() {
    let borrowed = FieldHint { from_text: false, borrowed: true };
    let raw = vec![
        unit("A", vec![]),
        RawVariant { name: "B".to_string(), shape: Shape::Struct(vec![borrowed]), annotations: vec![] },
    ];
    assert!(is_well_declared(&raw));
    let descriptor = EnumDescriptor::build(&raw).unwrap();
    assert_eq!(
        Iteration::generate(&descriptor),
        Err(ValidationError::UnboundedLifetimeNotSupported)
    );
    assert_eq!(compile(&raw, &everything()), Err(ValidationError::UnboundedLifetimeNotSupported));
    let without = Selection { iterate: false, ..everything() };
    let artifacts = compile(&raw, &without).unwrap();
    assert!(artifacts.iteration.is_none());
    assert!(artifacts.parser.is_some());
    assert!(artifacts.serializer.is_some());
    assert!(artifacts.messages.is_some());
    assert!(artifacts.properties.is_some());
}

#[test]
fn only_what_is_selected_is_generated() {
    let raw = vec![unit("A", vec![]), unit("B", vec![])];
    assert!(is_well_declared(&raw));
    let none = Selection {
        parse: false,
        serialize: false,
        iterate: false,
        messages: false,
        properties: false,
    };
    let artifacts = compile(&raw, &none).unwrap();
    assert!(artifacts.parser.is_none());
    assert!(artifacts.serializer.is_none());
    assert!(artifacts.iteration.is_none());
    assert!(artifacts.messages.is_none());
    assert!(artifacts.properties.is_none());
    let artifacts = compile(&raw, &Selection { iterate: true, ..none }).unwrap();
    assert_eq!(artifacts.iteration.map(|iteration| iteration.count), Some(2));
    assert!(artifacts.parser.is_none());
}

#[test]
fn shapes_tell_what_they_can_hold() {
    let text = FieldHint { from_text: true, borrowed: false };
    let borrowed = FieldHint { from_text: true, borrowed: true };
    assert!(Shape::Tuple(vec![text]).captures_text());
    assert!(!Shape::Unit.captures_text());
    assert!(Shape::Unit.fabricable());
    assert!(Shape::Struct(vec![text, text]).fabricable());
    assert!(!Shape::Tuple(vec![text, borrowed]).fabricable());
    assert_eq!(Shape::Tuple(vec![text, borrowed]).duplicate(), Shape::Tuple(vec![text, borrowed]));
    assert_eq!(Shape::Struct(vec![]).duplicate(), Shape::Struct(vec![]));
}

#[test]
fn membership_is_exact() {
    assert!(contains_text(&texts(&["a", "b"]), "b"));
    assert!(!contains_text(&texts(&["a", "b"]), "B"));
    assert!(!contains_text(&texts(&[]), ""));
    assert!(contains_text(&texts(&[""]), ""));
}

#[test]
fn the_debug_switch_selects_all_or_one() {
    assert!(!wants_dump(None, "Color"));
    assert!(wants_dump(Some("1"), "Color"));
    assert!(wants_dump(Some("Color"), "Color"));
    assert!(!wants_dump(Some("Colour"), "Color"));
    assert!(!wants_dump(Some("color"), "Color"));
    assert!(!wants_dump(Some(""), "Color"));
    assert!(!wants_dump(Some("0"), "Color"));
    assert!(wants_dump(Some("1"), "1"));
}
