use strum::annotation::{Annotation, RawVariant};
use strum::compile::{compile, Selection};
use strum::descriptor::{is_well_declared, EnumDescriptor};
use strum::error::{ParseError, ValidationError};
use strum::convert::{Parser, Serializer};
use strum::model::{FieldHint, Instance, Shape};

fn pair(key: &str, value: &str) -> Annotation {
    Annotation::Pair { key: key.to_string(), value: value.to_string() }
}

fn variant(name: &str, shape: Shape, annotations: Vec<Annotation>) -> RawVariant {
    RawVariant { name: name.to_string(), shape, annotations }
}

fn plain() -> FieldHint {
    FieldHint { from_text: false, borrowed: false }
}

fn text_field() -> FieldHint {
    FieldHint { from_text: true, borrowed: false }
}

fn color() -> Vec<RawVariant> {
    vec![
        variant("Red", Shape::Unit, vec![]),
        variant("Green", Shape::Struct(vec![plain()]), vec![]),
        variant(
            "Blue",
            Shape::Tuple(vec![plain()]),
            vec![pair("serialize", "blue"), pair("serialize", "b")],
        ),
        variant("Yellow", Shape::Unit, vec![pair("disabled", "true")]),
    ]
}

fn tokens() -> Vec<RawVariant> {
    vec![
        variant("Function", Shape::Unit, vec![pair("serialize", "fn")]),
        variant("OpenParen", Shape::Unit, vec![pair("serialize", "(")]),
        variant("CloseParen", Shape::Unit, vec![pair("serialize", ")")]),
        variant("Ident", Shape::Tuple(vec![text_field()]), vec![pair("default", "true")]),
    ]
}

#[test]
fn color_parses_by_name_and_by_each_serialization() {
    let raw = color();
    assert!(is_well_declared(&raw));
    let descriptor = EnumDescriptor::build(&raw).unwrap();
    let parser = Parser::generate(&descriptor);
    assert_eq!(parser.parse("Red"), Ok(Instance { tag: 0, captured: None }));
    assert_eq!(parser.parse("Green"), Ok(Instance { tag: 1, captured: None }));
    assert_eq!(parser.parse("blue"), Ok(Instance { tag: 2, captured: None }));
    assert_eq!(parser.parse("b"), Ok(Instance { tag: 2, captured: None }));
    assert_eq!(parser.parse("Yellow"), Err(ParseError::VariantNotFound));
    assert_eq!(parser.parse("Blue"), Err(ParseError::VariantNotFound));
    assert_eq!(parser.parse("red"), Err(ParseError::VariantNotFound));
    assert_eq!(parser.parse(" Red"), Err(ParseError::VariantNotFound));
}

#[test]
fn color_blue_is_written_as_its_longest_serialization() {
    let raw = color();
    assert!(is_well_declared(&raw));
    let descriptor = EnumDescriptor::build(&raw).unwrap();
    let serializer = Serializer::generate(&descriptor);
    assert_eq!(serializer.len(), 4);
    assert_eq!(serializer.as_str(&Instance { tag: 2, captured: None }), "blue");
    assert_eq!(serializer.to_string(&Instance { tag: 2, captured: None }), "blue".to_string());
    assert_eq!(serializer.as_str(&Instance { tag: 0, captured: None }), "Red");
    assert_eq!(serializer.as_str(&Instance { tag: 3, captured: None }), "Yellow");
}

#[test]
fn tokens_are_parsed_with_identifiers_caught_by_the_default() {
    let raw = tokens();
    assert!(is_well_declared(&raw));
    let descriptor = EnumDescriptor::build(&raw).unwrap();
    let parser = Parser::generate(&descriptor);
    let parsed: Vec<Instance> =
        ["fn", "hello_world", "(", ")"].iter().map(|text| parser.parse(text).unwrap()).collect();
    assert_eq!(
        parsed,
        vec![
            Instance { tag: 0, captured: None },
            Instance { tag: 3, captured: Some("hello_world".to_string()) },
            Instance { tag: 1, captured: None },
            Instance { tag: 2, captured: None },
        ]
    );
}

#[test]
fn a_shared_serialization_stops_generation() {
    let raw = vec![
        variant("A", Shape::Unit, vec![pair("serialize", "x")]),
        variant("B", Shape::Unit, vec![pair("serialize", "x")]),
    ];
    assert!(is_well_declared(&raw));
    assert_eq!(EnumDescriptor::build(&raw).err(), Some(ValidationError::DuplicateSerialization));
    let all = Selection { parse: true, serialize: true, iterate: true, messages: true, properties: true };
    assert_eq!(compile(&raw, &all), Err(ValidationError::DuplicateSerialization));
}
