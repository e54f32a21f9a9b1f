use baml_engine::field_type::{
    i64_text, Constraint, ConstraintLevel, FieldType, LiteralValue, MediaType, TypeValue,
};
use baml_engine::ir::{Class, Enum, Field, FunctionArgs, FunctionNode, IntermediateRepr};
use baml_engine::json::{object_insert, JsonValue};
use baml_engine::schema::WithJsonSchema;

fn s(x: &str) -> JsonValue {
    JsonValue::Str(x.to_string())
}

fn obj(members: Vec<(&str, JsonValue)>) -> JsonValue {
    JsonValue::Object(members.into_iter().map(|(k, v)| (k.to_string(), v)).collect())
}

fn arr(items: Vec<JsonValue>) -> JsonValue {
    JsonValue::Array(items)
}

fn prim(t: TypeValue) -> FieldType {
    FieldType::Primitive(t)
}

fn boxed(t: FieldType) -> Box<FieldType> {
    Box::new(t)
}

#[test]
fn primitive_schemas() {
    assert_eq!(prim(TypeValue::String).json_schema(), obj(vec![("type", s("string"))]));
    assert_eq!(prim(TypeValue::Int).json_schema(), obj(vec![("type", s("integer"))]));
    assert_eq!(prim(TypeValue::Float).json_schema(), obj(vec![("type", s("number"))]));
    assert_eq!(prim(TypeValue::Bool).json_schema(), obj(vec![("type", s("boolean"))]));
    assert_eq!(prim(TypeValue::Null).json_schema(), obj(vec![("type", s("null"))]));
}

#[test]
fn media_schema() {
    let expected = obj(vec![
        ("type", s("object")),
        ("properties", obj(vec![("url", obj(vec![("type", s("string"))]))])),
        ("required", arr(vec![s("url")])),
    ]);
    assert_eq!(prim(TypeValue::Media(MediaType::Image)).json_schema(), expected);
}

#[test]
fn class_and_enum_refs() {
    assert_eq!(
        FieldType::Class("Resume".to_string()).json_schema(),
        obj(vec![("$ref", s("#/definitions/Resume"))])
    );
    assert_eq!(
        FieldType::Enum("Color".to_string()).json_schema(),
        obj(vec![("$ref", s("#/definitions/Color"))])
    );
}

#[test]
fn literal_schemas() {
    assert_eq!(
        FieldType::Literal(LiteralValue::Str("hi".to_string())).json_schema(),
        obj(vec![("const", s("\"hi\""))])
    );
    assert_eq!(
        FieldType::Literal(LiteralValue::Int(-42)).json_schema(),
        obj(vec![("const", s("-42"))])
    );
    assert_eq!(
        FieldType::Literal(LiteralValue::Bool(true)).json_schema(),
        obj(vec![("const", s("true"))])
    );
}

#[test]
fn integer_text_edges() {
    assert_eq!(i64_text(0), "0");
    assert_eq!(i64_text(7), "7");
    assert_eq!(i64_text(10), "10");
    assert_eq!(i64_text(-1), "-1");
    assert_eq!(i64_text(i64::MAX), i64::MAX.to_string());
    assert_eq!(i64_text(i64::MIN), i64::MIN.to_string());
}

#[test]
fn optional_primitive_schema() {
    let t = FieldType::Optional(boxed(prim(TypeValue::Int)));
    assert_eq!(
        t.json_schema(),
        obj(vec![("type", arr(vec![s("integer"), s("null")])), ("default", JsonValue::Null)])
    );
}

#[test]
fn optional_media_schema() {
    let t = FieldType::Optional(boxed(prim(TypeValue::Media(MediaType::Audio))));
    assert_eq!(
        t.json_schema(),
        obj(vec![
            ("type", arr(vec![s("object"), s("null")])),
            ("properties", obj(vec![("url", obj(vec![("type", s("string"))]))])),
            ("required", arr(vec![s("url")])),
            ("default", JsonValue::Null),
        ])
    );
}

#[test]
fn optional_class_schema() {
    let t = FieldType::Optional(boxed(FieldType::Class("Resume".to_string())));
    assert_eq!(
        t.json_schema(),
        obj(vec![
            (
                "anyOf",
                arr(vec![
                    obj(vec![("$ref", s("#/definitions/Resume")), ("title", s("Resume"))]),
                    obj(vec![("type", s("null")), ("title", s("null"))]),
                ])
            ),
            ("default", JsonValue::Null),
        ])
    );
}

#[test]
fn optional_list_schema() {
    let t = FieldType::Optional(boxed(FieldType::List(boxed(prim(TypeValue::String)))));
    assert_eq!(
        t.json_schema(),
        obj(vec![
            (
                "anyOf",
                arr(vec![
                    obj(vec![
                        ("type", s("array")),
                        ("items", obj(vec![("type", s("string"))])),
                        ("title", s("string[]")),
                    ]),
                    obj(vec![("type", s("null")), ("title", s("null"))]),
                ])
            ),
            ("default", JsonValue::Null),
        ])
    );
}

#[test]
fn list_and_map_schemas() {
    let list = FieldType::List(boxed(prim(TypeValue::Int)));
    assert_eq!(
        list.json_schema(),
        obj(vec![("type", s("array")), ("items", obj(vec![("type", s("integer"))]))])
    );
    let map = FieldType::MapOf(boxed(prim(TypeValue::String)), boxed(prim(TypeValue::Bool)));
    assert_eq!(
        map.json_schema(),
        obj(vec![
            ("type", s("object")),
            ("additionalProperties", obj(vec![("type", obj(vec![("type", s("boolean"))]))])),
        ])
    );
}

#[test]
fn union_schema_titles_each_choice() {
    let t = FieldType::Union(vec![prim(TypeValue::Int), FieldType::Class("A".to_string())]);
    assert_eq!(
        t.json_schema(),
        obj(vec![(
            "anyOf",
            arr(vec![
                obj(vec![("type", s("integer")), ("title", s("int"))]),
                obj(vec![("$ref", s("#/definitions/A")), ("title", s("A"))]),
            ])
        )])
    );
}

#[test]
fn tuple_schema() {
    let t = FieldType::Tuple(vec![prim(TypeValue::Int), prim(TypeValue::String)]);
    assert_eq!(
        t.json_schema(),
        obj(vec![
            ("type", s("array")),
            (
                "prefixItems",
                arr(vec![obj(vec![("type", s("integer"))]), obj(vec![("type", s("string"))])])
            ),
        ])
    );
}

#[test]
fn constrained_schema_is_base_schema() {
    let t = FieldType::Constrained {
        base: boxed(prim(TypeValue::Int)),
        constraints: vec![Constraint {
            level: ConstraintLevel::Check,
            expression: "this > 0".to_string(),
            label: Some("positive".to_string()),
        }],
    };
    assert_eq!(t.json_schema(), prim(TypeValue::Int).json_schema());
}

#[test]
fn display_names() {
    assert_eq!(prim(TypeValue::Media(MediaType::Image)).display_name(), "image");
    assert_eq!(
        FieldType::MapOf(boxed(prim(TypeValue::String)), boxed(prim(TypeValue::Int)))
            .display_name(),
        "map<string, int>"
    );
    assert_eq!(
        FieldType::Union(vec![prim(TypeValue::Int), prim(TypeValue::Null)]).display_name(),
        "(int | null)"
    );
    assert_eq!(
        FieldType::Tuple(vec![prim(TypeValue::Int), prim(TypeValue::Bool)]).display_name(),
        "(int, bool)"
    );
    assert_eq!(FieldType::Union(vec![]).display_name(), "()");
    assert_eq!(
        FieldType::Optional(boxed(FieldType::List(boxed(prim(TypeValue::Float))))).display_name(),
        "float[]?"
    );
    assert_eq!(FieldType::Literal(LiteralValue::Str("a".to_string())).display_name(), "\"a\"");
}

#[test]
fn optionality() {
    assert!(FieldType::Optional(boxed(prim(TypeValue::Int))).is_optional());
    assert!(prim(TypeValue::Null).is_optional());
    assert!(FieldType::Union(vec![prim(TypeValue::Int), prim(TypeValue::Null)]).is_optional());
    assert!(!FieldType::Union(vec![prim(TypeValue::Int)]).is_optional());
    assert!(!FieldType::List(boxed(prim(TypeValue::Null))).is_optional());
    assert!(FieldType::Constrained { base: boxed(prim(TypeValue::Null)), constraints: vec![] }
        .is_optional());
}

fn field(name: &str, t: FieldType) -> Field {
    Field { name: name.to_string(), field_type: t }
}

#[test]
fn class_schema_requires_non_optional_fields() {
    let c = Class {
        name: "Person".to_string(),
        static_fields: vec![
            field("name", prim(TypeValue::String)),
            field("age", FieldType::Optional(boxed(prim(TypeValue::Int)))),
        ],
    };
    assert_eq!(
        c.json_schema(),
        obj(vec![
            ("title", s("Person")),
            ("type", s("object")),
            (
                "properties",
                obj(vec![
                    ("name", obj(vec![("type", s("string"))])),
                    (
                        "age",
                        obj(vec![
                            ("type", arr(vec![s("integer"), s("null")])),
                            ("default", JsonValue::Null),
                        ])
                    ),
                ])
            ),
            ("required", arr(vec![s("name")])),
        ])
    );
}

#[test]
fn repeated_field_name_keeps_last_schema() {
    let c = Class {
        name: "C".to_string(),
        static_fields: vec![field("x", prim(TypeValue::String)), field("x", prim(TypeValue::Int))],
    };
    assert_eq!(
        c.json_schema(),
        obj(vec![
            ("title", s("C")),
            ("type", s("object")),
            ("properties", obj(vec![("x", obj(vec![("type", s("integer"))]))])),
            ("required", arr(vec![s("x"), s("x")])),
        ])
    );
}

#[test]
fn enum_schema() {
    let e = Enum { name: "Color".to_string(), values: vec!["Red".to_string(), "Blue".to_string()] };
    assert_eq!(
        e.json_schema(),
        obj(vec![
            ("title", s("Color")),
            ("enum", arr(vec![obj(vec![("const", s("Red"))]), obj(vec![("const", s("Blue"))])])),
        ])
    );
}

#[test]
fn named_args_schema() {
    let args: Vec<(String, FieldType)> = vec![
        ("q".to_string(), prim(TypeValue::String)),
        ("limit".to_string(), FieldType::Optional(boxed(prim(TypeValue::Int)))),
    ];
    let expected_properties = obj(vec![
        ("q", obj(vec![("type", s("string"))])),
        (
            "limit",
            obj(vec![("type", arr(vec![s("integer"), s("null")])), ("default", JsonValue::Null)]),
        ),
    ]);
    assert_eq!(
        args.json_schema(),
        obj(vec![
            ("type", s("object")),
            ("properties", expected_properties),
            ("required", arr(vec![s("q")])),
        ])
    );
}

#[test]
fn function_args_schema_lists_optional_args() {
    let named = FunctionArgs::NamedArgList(vec![
        ("q".to_string(), prim(TypeValue::String)),
        ("limit".to_string(), FieldType::Optional(boxed(prim(TypeValue::Int)))),
    ]);
    let schema = named.json_schema();
    match schema {
        JsonValue::Object(members) => {
            assert_eq!(members[2], ("required".to_string(), arr(vec![s("limit")])));
        }
        _ => panic!("expected an object"),
    }
    let unnamed = FunctionArgs::UnnamedArg(prim(TypeValue::Bool));
    assert_eq!(unnamed.json_schema(), obj(vec![("type", s("boolean"))]));
}

fn extract() -> FunctionNode {
    FunctionNode {
        name: "Extract".to_string(),
        inputs: vec![("text".to_string(), prim(TypeValue::String))],
        output: FieldType::Class("Resume".to_string()),
    }
}

#[test]
fn function_schemas_are_titled() {
    let f = extract();
    assert_eq!(
        (&f, true).json_schema(),
        obj(vec![
            ("type", s("object")),
            ("properties", obj(vec![("text", obj(vec![("type", s("string"))]))])),
            ("required", arr(vec![s("text")])),
            ("title", s("Extract input")),
        ])
    );
    assert_eq!(
        (&f, false).json_schema(),
        obj(vec![("$ref", s("#/definitions/Resume")), ("title", s("Extract output"))])
    );
}

#[test]
fn program_schema_definitions() {
    let ir = IntermediateRepr {
        enums: vec![Enum { name: "Color".to_string(), values: vec!["Red".to_string()] }],
        classes: vec![Class {
            name: "Resume".to_string(),
            static_fields: vec![field("name", prim(TypeValue::String))],
        }],
        functions: vec![extract()],
    };
    let schema = ir.json_schema();
    let definitions = match schema {
        JsonValue::Object(mut members) => {
            assert_eq!(members.len(), 1);
            let (key, value) = members.remove(0);
            assert_eq!(key, "definitions");
            value
        }
        _ => panic!("expected an object"),
    };
    match definitions {
        JsonValue::Object(members) => {
            let keys: Vec<&str> = members.iter().map(|(k, _)| k.as_str()).collect();
            assert_eq!(keys, vec!["Color", "Resume", "Extract_input", "Extract_output"]);
            assert_eq!(members[2].1, (&extract(), true).json_schema());
        }
        _ => panic!("expected an object"),
    }
}

#[test]
fn later_definition_replaces_earlier() {
    let ir = IntermediateRepr {
        enums: vec![Enum { name: "Thing".to_string(), values: vec![] }],
        classes: vec![Class { name: "Thing".to_string(), static_fields: vec![] }],
        functions: vec![],
    };
    let expected = obj(vec![(
        "definitions",
        obj(vec![(
            "Thing",
            obj(vec![
                ("title", s("Thing")),
                ("type", s("object")),
                ("properties", obj(vec![])),
                ("required", arr(vec![])),
            ]),
        )]),
    )]);
    assert_eq!(ir.json_schema(), expected);
}

#[test]
fn insert_replaces_in_place() {
    let mut members = vec![("a".to_string(), s("1")), ("b".to_string(), s("2"))];
    object_insert(&mut members, "a".to_string(), s("3"));
    assert_eq!(members, vec![("a".to_string(), s("3")), ("b".to_string(), s("2"))]);
    object_insert(&mut members, "c".to_string(), JsonValue::Null);
    assert_eq!(members.len(), 3);
    assert_eq!(members[2], ("c".to_string(), JsonValue::Null));
}
