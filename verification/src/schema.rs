//! JSON Schema generation for field types and for the items of an
//! intermediate representation.

use vstd::prelude::*;

use crate::field_type::{FieldType, TypeValue};
use crate::ir::{Class, Enum, Field, FunctionArgs, FunctionNode, IntermediateRepr};
use crate::json::{
    array2, entries_model, json_get, json_insert, json_insert_value, json_seq_model, json_str,
    lemma_json_seq_model, obj_insert, obj_keys, keys_unique, law_insert_keys, obj_get,
    law_insert_then_get, law_insert_keeps_other_keys, json_wf, lemma_json_insert_wf,
    lemma_obj_get_at, lemma_obj_get_absent, object1, object2, object3, object4, object_insert, Json,
    JsonValue,
};

verus! {

/// Values that have a JSON Schema.
pub trait WithJsonSchema {
    /// The model of the schema of `self`.
    spec fn schema_model(&self) -> Json;

    /// The JSON Schema of `self`.
    fn json_schema(&self) -> (r: JsonValue)
        ensures
            r@ == self.schema_model(),
    ;
}

/// `j` with the member `"title": title` when `j` is an object.
pub open spec fn with_title(j: Json, title: Seq<char>) -> Json {
    json_insert(j, "title"@, Json::Str(title))
}

/// The schema of a primitive type.
pub open spec fn primitive_schema(t: TypeValue) -> Json {
    match t {
        TypeValue::String => Json::Object(seq![("type"@, Json::Str("string"@))]),
        TypeValue::Int => Json::Object(seq![("type"@, Json::Str("integer"@))]),
        TypeValue::Float => Json::Object(seq![("type"@, Json::Str("number"@))]),
        TypeValue::Bool => Json::Object(seq![("type"@, Json::Str("boolean"@))]),
        TypeValue::Null => Json::Object(seq![("type"@, Json::Str("null"@))]),
        TypeValue::Media(_) => Json::Object(
            seq![
                ("type"@, Json::Str("object"@)),
                (
                    "properties"@,
                    Json::Object(
                        seq![("url"@, Json::Object(seq![("type"@, Json::Str("string"@))]))],
                    ),
                ),
                ("required"@, Json::Array(seq![Json::Str("url"@)])),
            ],
        ),
    }
}

/// The schema of an optional primitive type: the primitive's schema whose `"type"`
/// becomes the pair of that type and `"null"`, with `"default": null` added.
pub open spec fn optional_primitive_schema(t: TypeValue) -> Json {
    let base = primitive_schema(t);
    json_insert(
        json_insert(
            base,
            "type"@,
            Json::Array(seq![json_get(base, "type"@), Json::Str("null"@)]),
        ),
        "default"@,
        Json::Null,
    )
}

/// The schema that accepts `null` alone, as the second choice of an optional type.
pub open spec fn null_choice_schema() -> Json {
    Json::Object(seq![("type"@, Json::Str("null"@)), ("title"@, Json::Str("null"@))])
}

impl FieldType {
    /// The JSON Schema of a field type.
    pub open spec fn spec_schema(self) -> Json
        decreases self,
    {
        match self {
            FieldType::Class(n) => Json::Object(
                seq![("$ref"@, Json::Str("#/definitions/"@ + n@))],
            ),
            FieldType::Enum(n) => Json::Object(seq![("$ref"@, Json::Str("#/definitions/"@ + n@))]),
            FieldType::Literal(v) => Json::Object(seq![("const"@, Json::Str(v.spec_text()))]),
            FieldType::Primitive(t) => primitive_schema(t),
            FieldType::List(item) => Json::Object(
                seq![("type"@, Json::Str("array"@)), ("items"@, item.spec_schema())],
            ),
            FieldType::MapOf(_k, v) => Json::Object(
                seq![
                    ("type"@, Json::Str("object"@)),
                    ("additionalProperties"@, Json::Object(seq![("type"@, v.spec_schema())])),
                ],
            ),
            FieldType::Union(ts) => Json::Object(seq![("anyOf"@, Json::Array(titled_schemas(ts@)))]),
            FieldType::Tuple(ts) => Json::Object(
                seq![("type"@, Json::Str("array"@)), ("prefixItems"@, Json::Array(schemas(ts@)))],
            ),
            FieldType::Optional(inner) => match *inner {
                FieldType::Primitive(t) => optional_primitive_schema(t),
                _ => Json::Object(
                    seq![
                        (
                            "anyOf"@,
                            Json::Array(
                                seq![
                                    with_title(inner.spec_schema(), inner.spec_display_name()),
                                    null_choice_schema(),
                                ],
                            ),
                        ),
                        ("default"@, Json::Null),
                    ],
                ),
            },
            FieldType::Constrained { base, .. } => base.spec_schema(),
        }
    }
}

/// The schemas of the types, in order.
pub open spec fn schemas(ts: Seq<FieldType>) -> Seq<Json>
    decreases ts,
{
    if ts.len() == 0 {
        Seq::empty()
    } else {
        schemas(ts.drop_last()).push(ts.last().spec_schema())
    }
}

/// The schemas of the types, each titled with its type's display name.
pub open spec fn titled_schemas(ts: Seq<FieldType>) -> Seq<Json>
    decreases ts,
{
    if ts.len() == 0 {
        Seq::empty()
    } else {
        titled_schemas(ts.drop_last()).push(
            with_title(ts.last().spec_schema(), ts.last().spec_display_name()),
        )
    }
}

/// `j` with the member `"title": title` when `j` is an object.
pub fn set_title(j: JsonValue, title: String) -> (r: JsonValue)
    ensures
        r@ == with_title(j@, title@),
{
    json_insert_value(j, String::from_str("title"), JsonValue::Str(title))
}

fn primitive_json_schema(t: &TypeValue) -> (r: JsonValue)
    ensures
        r@ == primitive_schema(*t),
{
    match t {
        TypeValue::String => object1("type", json_str("string")),
        TypeValue::Int => object1("type", json_str("integer")),
        TypeValue::Float => object1("type", json_str("number")),
        TypeValue::Bool => object1("type", json_str("boolean")),
        TypeValue::Null => object1("type", json_str("null")),
        TypeValue::Media(_) => {
            let mut required: Vec<JsonValue> = Vec::new();
            required.push(json_str("url"));
            proof {
                lemma_json_seq_model(required@);
                assert(json_seq_model(required@) =~= seq![Json::Str("url"@)]);
            }
            object3(
                "type",
                json_str("object"),
                "properties",
                object1("url", object1("type", json_str("string"))),
                "required",
                JsonValue::Array(required),
            )
        },
    }
}

/// The `"type"` member of a primitive's schema.
fn primitive_type_member(t: &TypeValue) -> (r: JsonValue)
    ensures
        r@ == json_get(primitive_schema(*t), "type"@),
{
    match t {
        TypeValue::String => json_str("string"),
        TypeValue::Int => json_str("integer"),
        TypeValue::Float => json_str("number"),
        TypeValue::Bool => json_str("boolean"),
        TypeValue::Null => json_str("null"),
        TypeValue::Media(_) => json_str("object"),
    }
}

impl WithJsonSchema for FieldType {
    open spec fn schema_model(&self) -> Json {
        self.spec_schema()
    }

    fn json_schema(&self) -> (r: JsonValue)
        decreases self,
    {
        match self {
            FieldType::Class(name) | FieldType::Enum(name) => {
                let mut target = String::from_str("#/definitions/");
                target.append(name.as_str());
                object1("$ref", JsonValue::Str(target))
            },
            FieldType::Literal(v) => object1("const", JsonValue::Str(v.text())),
            FieldType::Primitive(t) => primitive_json_schema(t),
            FieldType::List(item) => {
                let schema = object2("type", json_str("array"), "items", item.json_schema());
                if self.is_optional() {
                    let schema = json_insert_value(
                        schema,
                        String::from_str("type"),
                        array2(json_str("array"), json_str("null")),
                    );
                    json_insert_value(schema, String::from_str("default"), JsonValue::Null)
                } else {
                    schema
                }
            },
            FieldType::MapOf(_k, v) => {
                let schema = object2(
                    "type",
                    json_str("object"),
                    "additionalProperties",
                    object1("type", v.json_schema()),
                );
                if self.is_optional() {
                    let schema = json_insert_value(
                        schema,
                        String::from_str("type"),
                        array2(json_str("object"), json_str("null")),
                    );
                    json_insert_value(schema, String::from_str("default"), JsonValue::Null)
                } else {
                    schema
                }
            },
            FieldType::Union(options) => {
                let mut items: Vec<JsonValue> = Vec::new();
                let mut i: usize = 0;
                while i < options.len()
                    invariant
                        0 <= i <= options@.len(),
                        self matches FieldType::Union(cs) && cs == options,
                        json_seq_model(items@) == titled_schemas(options@.take(i as int)),
                    decreases options@.len() - i,
                {
                    assert(options@.take(i + 1).drop_last() =~= options@.take(i as int));
                    let ghost before = items@;
                    let res = set_title(options[i].json_schema(), options[i].display_name());
                    items.push(res);
                    assert(items@.drop_last() =~= before);
                    i += 1;
                }
                assert(options@.take(options@.len() as int) =~= options@);
                object1("anyOf", JsonValue::Array(items))
            },
            FieldType::Tuple(options) => {
                let mut items: Vec<JsonValue> = Vec::new();
                let mut i: usize = 0;
                while i < options.len()
                    invariant
                        0 <= i <= options@.len(),
                        self matches FieldType::Tuple(cs) && cs == options,
                        json_seq_model(items@) == schemas(options@.take(i as int)),
                    decreases options@.len() - i,
                {
                    assert(options@.take(i + 1).drop_last() =~= options@.take(i as int));
                    let ghost before = items@;
                    items.push(options[i].json_schema());
                    assert(items@.drop_last() =~= before);
                    i += 1;
                }
                assert(options@.take(options@.len() as int) =~= options@);
                object2("type", json_str("array"), "prefixItems", JsonValue::Array(items))
            },
            FieldType::Optional(inner) => {
                match &**inner {
                    FieldType::Primitive(t) => {
                        let res = inner.json_schema();
                        let ty = primitive_type_member(t);
                        let res = json_insert_value(
                            res,
                            String::from_str("type"),
                            array2(ty, json_str("null")),
                        );
                        json_insert_value(res, String::from_str("default"), JsonValue::Null)
                    },
                    _ => {
                        let res = set_title(inner.json_schema(), inner.display_name());
                        object2(
                            "anyOf",
                            array2(
                                res,
                                object2("type", json_str("null"), "title", json_str("null")),
                            ),
                            "default",
                            JsonValue::Null,
                        )
                    },
                }
            },
            FieldType::Constrained { base, .. } => base.json_schema(),
        }
    }
}

/// The members of an object schema as (name, type) pairs.
pub open spec fn args_members(args: Seq<(String, FieldType)>) -> Seq<(Seq<char>, FieldType)> {
    args.map_values(|a: (String, FieldType)| (a.0@, a.1))
}

/// The fields of a class as (name, type) pairs.
pub open spec fn field_members(fields: Seq<Field>) -> Seq<(Seq<char>, FieldType)> {
    fields.map_values(|f: Field| (f.name@, f.field_type))
}

/// The `"properties"` of an object schema: each member's name bound to the schema of its
/// type, in order of first occurrence; a name that occurs again takes the schema of its
/// last occurrence.
pub open spec fn member_properties(ms: Seq<(Seq<char>, FieldType)>) -> Seq<(Seq<char>, Json)>
    decreases ms.len(),
{
    if ms.len() == 0 {
        Seq::empty()
    } else {
        obj_insert(member_properties(ms.drop_last()), ms.last().0, ms.last().1.spec_schema())
    }
}

/// The names, in order, of the members whose type is an `Optional` type
/// (when `optional` holds) or is not one (when it does not).
pub open spec fn member_names(ms: Seq<(Seq<char>, FieldType)>, optional: bool) -> Seq<Json>
    decreases ms.len(),
{
    if ms.len() == 0 {
        Seq::empty()
    } else {
        let r = member_names(ms.drop_last(), optional);
        if (ms.last().1 is Optional) == optional {
            r.push(Json::Str(ms.last().0))
        } else {
            r
        }
    }
}

/// The schema of an object with the given members, whose `"required"` list names the
/// members with (`required_optional`) or without an `Optional` type.
pub open spec fn object_schema(ms: Seq<(Seq<char>, FieldType)>, required_optional: bool) -> Json {
    Json::Object(
        seq![
            ("type"@, Json::Str("object"@)),
            ("properties"@, Json::Object(member_properties(ms))),
            ("required"@, Json::Array(member_names(ms, required_optional))),
        ],
    )
}

/// The schema of an enum: its name as title and one `{"const": value}` per value.
pub open spec fn enum_schema(e: Enum) -> Json {
    Json::Object(
        seq![
            ("title"@, Json::Str(e.name@)),
            (
                "enum"@,
                Json::Array(
                    e.values@.map_values(|v: String| Json::Object(seq![("const"@, Json::Str(v@))])),
                ),
            ),
        ],
    )
}

/// The schema of a class: its name as title, and its fields, those without an `Optional`
/// type being required.
pub open spec fn class_schema(c: Class) -> Json {
    let ms = field_members(c.static_fields@);
    Json::Object(
        seq![
            ("title"@, Json::Str(c.name@)),
            ("type"@, Json::Str("object"@)),
            ("properties"@, Json::Object(member_properties(ms))),
            ("required"@, Json::Array(member_names(ms, false))),
        ],
    )
}

/// The schema of a function's input (its named inputs) or output, titled
/// `"<name> input"` or `"<name> output"`.
pub open spec fn function_schema(f: FunctionNode, is_input: bool) -> Json {
    let base = if is_input {
        object_schema(args_members(f.inputs@), false)
    } else {
        f.output.spec_schema()
    };
    with_title(
        base,
        f.name@ + " "@ + if is_input {
            "input"@
        } else {
            "output"@
        },
    )
}

/// Inserts the members `kvs`, in order, into the object members `m`.
pub open spec fn insert_all(m: Seq<(Seq<char>, Json)>, kvs: Seq<(Seq<char>, Json)>) -> Seq<
    (Seq<char>, Json),
>
    decreases kvs.len(),
{
    if kvs.len() == 0 {
        m
    } else {
        obj_insert(insert_all(m, kvs.drop_last()), kvs.last().0, kvs.last().1)
    }
}

/// The definitions of a program, in order: each enum, each class, each function's
/// input (`<name>_input`) and then each function's output (`<name>_output`).
pub open spec fn definition_members(ir: IntermediateRepr) -> Seq<(Seq<char>, Json)> {
    ir.enums@.map_values(|e: Enum| (e.name@, enum_schema(e))) + ir.classes@.map_values(
        |c: Class| (c.name@, class_schema(c)),
    ) + ir.functions@.map_values(
        |f: FunctionNode| (f.name@ + "_input"@, function_schema(f, true)),
    ) + ir.functions@.map_values(
        |f: FunctionNode| (f.name@ + "_output"@, function_schema(f, false)),
    )
}

/// The schema of a program: `{"definitions": {...}}` with one definition per name, a
/// later definition of a name replacing an earlier one.
pub open spec fn ir_schema(ir: IntermediateRepr) -> Json {
    Json::Object(
        seq![("definitions"@, Json::Object(insert_all(Seq::empty(), definition_members(ir))))],
    )
}

proof fn lemma_insert_all_push(
    m: Seq<(Seq<char>, Json)>,
    kvs: Seq<(Seq<char>, Json)>,
    x: (Seq<char>, Json),
)
    ensures
        insert_all(m, kvs.push(x)) == obj_insert(insert_all(m, kvs), x.0, x.1),
{
    assert(kvs.push(x).drop_last() =~= kvs);
}

/// The properties and the required names of an object schema for named arguments.
fn args_properties(args: &Vec<(String, FieldType)>, required_optional: bool) -> (r: (
    Vec<(String, JsonValue)>,
    Vec<JsonValue>,
))
    ensures
        entries_model(r.0@) == member_properties(args_members(args@)),
        json_seq_model(r.1@) == member_names(args_members(args@), required_optional),
{
    let ghost ms = args_members(args@);
    let mut properties: Vec<(String, JsonValue)> = Vec::new();
    let mut required_props: Vec<JsonValue> = Vec::new();
    let mut i: usize = 0;
    while i < args.len()
        invariant
            0 <= i <= args@.len(),
            ms == args_members(args@),
            ms.len() == args@.len(),
            entries_model(properties@) == member_properties(ms.take(i as int)),
            json_seq_model(required_props@) == member_names(ms.take(i as int), required_optional),
        decreases args@.len() - i,
    {
        assert(ms.take(i + 1).drop_last() =~= ms.take(i as int));
        assert(ms.take(i + 1).last() == (args@[i as int].0@, args@[i as int].1));
        let name = &args[i].0;
        let t = &args[i].1;
        object_insert(&mut properties, name.clone(), t.json_schema());
        let is_opt = match t {
            FieldType::Optional(_) => true,
            _ => false,
        };
        proof {
            assert(is_opt == (ms.take(i + 1).last().1 is Optional));
        }
        if is_opt == required_optional {
            let ghost before = required_props@;
            required_props.push(JsonValue::Str(name.clone()));
            assert(required_props@.drop_last() =~= before);
            proof {
                lemma_json_seq_model(before);
                lemma_json_seq_model(required_props@);
                assert(json_seq_model(required_props@) =~= json_seq_model(before).push(
                    Json::Str(name@),
                ));
            }
        }
        assert(json_seq_model(required_props@) == member_names(ms.take(i + 1), required_optional));
        i += 1;
    }
    assert(ms.take(args@.len() as int) =~= ms);
    (properties, required_props)
}

impl WithJsonSchema for Vec<(String, FieldType)> {
    open spec fn schema_model(&self) -> Json {
        object_schema(args_members(self@), false)
    }

    fn json_schema(&self) -> (r: JsonValue) {
        let (properties, required_props) = args_properties(self, false);
        object3(
            "type",
            json_str("object"),
            "properties",
            JsonValue::Object(properties),
            "required",
            JsonValue::Array(required_props),
        )
    }
}

impl WithJsonSchema for FunctionArgs {
    open spec fn schema_model(&self) -> Json {
        match self {
            FunctionArgs::UnnamedArg(t) => t.spec_schema(),
            FunctionArgs::NamedArgList(args) => object_schema(args_members(args@), true),
        }
    }

    fn json_schema(&self) -> (r: JsonValue) {
        match self {
            FunctionArgs::UnnamedArg(t) => t.json_schema(),
            FunctionArgs::NamedArgList(args) => {
                let (properties, required_props) = args_properties(args, true);
                object3(
                    "type",
                    json_str("object"),
                    "properties",
                    JsonValue::Object(properties),
                    "required",
                    JsonValue::Array(required_props),
                )
            },
        }
    }
}

impl WithJsonSchema for Enum {
    open spec fn schema_model(&self) -> Json {
        enum_schema(*self)
    }

    fn json_schema(&self) -> (r: JsonValue) {
        let ghost f = |v: String| Json::Object(seq![("const"@, Json::Str(v@))]);
        let mut values: Vec<JsonValue> = Vec::new();
        let mut i: usize = 0;
        while i < self.values.len()
            invariant
                0 <= i <= self.values@.len(),
                f == (|v: String| Json::Object(seq![("const"@, Json::Str(v@))])),
                json_seq_model(values@) == self.values@.take(i as int).map_values(f),
            decreases self.values@.len() - i,
        {
            let ghost before = values@;
            values.push(object1("const", JsonValue::Str(self.values[i].clone())));
            assert(values@.drop_last() =~= before);
            assert(self.values@.take(i + 1).map_values(f) =~= self.values@.take(i as int).map_values(
                f,
            ).push(f(self.values@[i as int])));
            i += 1;
        }
        assert(self.values@.take(self.values@.len() as int) =~= self.values@);
        object2("title", JsonValue::Str(self.name.clone()), "enum", JsonValue::Array(values))
    }
}

impl WithJsonSchema for Class {
    open spec fn schema_model(&self) -> Json {
        class_schema(*self)
    }

    fn json_schema(&self) -> (r: JsonValue) {
        let ghost ms = field_members(self.static_fields@);
        let mut properties: Vec<(String, JsonValue)> = Vec::new();
        let mut required_props: Vec<JsonValue> = Vec::new();
        let mut i: usize = 0;
        while i < self.static_fields.len()
            invariant
                0 <= i <= self.static_fields@.len(),
                ms == field_members(self.static_fields@),
                ms.len() == self.static_fields@.len(),
                entries_model(properties@) == member_properties(ms.take(i as int)),
                json_seq_model(required_props@) == member_names(ms.take(i as int), false),
            decreases self.static_fields@.len() - i,
        {
            assert(ms.take(i + 1).drop_last() =~= ms.take(i as int));
            let field = &self.static_fields[i];
            assert(ms.take(i + 1).last() == (field.name@, field.field_type));
            object_insert(&mut properties, field.name.clone(), field.field_type.json_schema());
            match field.field_type {
                FieldType::Optional(_) => {},
                _ => {
                    let ghost before = required_props@;
                    required_props.push(JsonValue::Str(field.name.clone()));
                    proof {
                        lemma_json_seq_model(before);
                        lemma_json_seq_model(required_props@);
                        assert(json_seq_model(required_props@) =~= json_seq_model(before).push(
                            Json::Str(field.name@),
                        ));
                    }
                },
            }
            i += 1;
        }
        assert(ms.take(self.static_fields@.len() as int) =~= ms);
        object4(
            "title",
            JsonValue::Str(self.name.clone()),
            "type",
            json_str("object"),
            "properties",
            JsonValue::Object(properties),
            "required",
            JsonValue::Array(required_props),
        )
    }
}

impl<'a> WithJsonSchema for (&'a FunctionNode, bool) {
    open spec fn schema_model(&self) -> Json {
        function_schema(*self.0, self.1)
    }

    fn json_schema(&self) -> (r: JsonValue) {
        let (f, is_input) = *self;
        let res = if is_input {
            f.inputs.json_schema()
        } else {
            f.output.json_schema()
        };
        let mut title = f.name.clone();
        title.append(" ");
        if is_input {
            title.append("input");
        } else {
            title.append("output");
        }
        set_title(res, title)
    }
}

impl WithJsonSchema for IntermediateRepr {
    open spec fn schema_model(&self) -> Json {
        ir_schema(*self)
    }

    fn json_schema(&self) -> (r: JsonValue) {
        let ghost all = definition_members(*self);
        let ghost es = self.enums@.map_values(|e: Enum| (e.name@, enum_schema(e)));
        let ghost cs = self.classes@.map_values(|c: Class| (c.name@, class_schema(c)));
        let ghost ins = self.functions@.map_values(
            |f: FunctionNode| (f.name@ + "_input"@, function_schema(f, true)),
        );
        let ghost outs = self.functions@.map_values(
            |f: FunctionNode| (f.name@ + "_output"@, function_schema(f, false)),
        );
        let mut definitions: Vec<(String, JsonValue)> = Vec::new();
        let mut i: usize = 0;
        while i < self.enums.len()
            invariant
                0 <= i <= self.enums@.len(),
                es == self.enums@.map_values(|e: Enum| (e.name@, enum_schema(e))),
                entries_model(definitions@) == insert_all(Seq::empty(), es.take(i as int)),
            decreases self.enums@.len() - i,
        {
            let e = &self.enums[i];
            proof {
                assert(es.take(i + 1) =~= es.take(i as int).push(es[i as int]));
                lemma_insert_all_push(Seq::empty(), es.take(i as int), es[i as int]);
            }
            object_insert(&mut definitions, e.name.clone(), e.json_schema());
            i += 1;
        }
        assert(es.take(self.enums@.len() as int) =~= es);
        let mut i: usize = 0;
        while i < self.classes.len()
            invariant
                0 <= i <= self.classes@.len(),
                cs == self.classes@.map_values(|c: Class| (c.name@, class_schema(c))),
                entries_model(definitions@) == insert_all(Seq::empty(), es + cs.take(i as int)),
            decreases self.classes@.len() - i,
        {
            let c = &self.classes[i];
            proof {
                assert(es + cs.take(i + 1) =~= (es + cs.take(i as int)).push(cs[i as int]));
                lemma_insert_all_push(Seq::empty(), es + cs.take(i as int), cs[i as int]);
            }
            object_insert(&mut definitions, c.name.clone(), c.json_schema());
            i += 1;
        }
        assert(cs.take(self.classes@.len() as int) =~= cs);
        let mut i: usize = 0;
        while i < self.functions.len()
            invariant
                0 <= i <= self.functions@.len(),
                ins == self.functions@.map_values(
                    |f: FunctionNode| (f.name@ + "_input"@, function_schema(f, true)),
                ),
                entries_model(definitions@) == insert_all(
                    Seq::empty(),
                    es + cs + ins.take(i as int),
                ),
            decreases self.functions@.len() - i,
        {
            let f = &self.functions[i];
            proof {
                assert(es + cs + ins.take(i + 1) =~= (es + cs + ins.take(i as int)).push(
                    ins[i as int],
                ));
                lemma_insert_all_push(Seq::empty(), es + cs + ins.take(i as int), ins[i as int]);
            }
            let mut key = f.name.clone();
            key.append("_input");
            object_insert(&mut definitions, key, (f, true).json_schema());
            i += 1;
        }
        assert(ins.take(self.functions@.len() as int) =~= ins);
        let mut i: usize = 0;
        while i < self.functions.len()
            invariant
                0 <= i <= self.functions@.len(),
                outs == self.functions@.map_values(
                    |f: FunctionNode| (f.name@ + "_output"@, function_schema(f, false)),
                ),
                entries_model(definitions@) == insert_all(
                    Seq::empty(),
                    es + cs + ins + outs.take(i as int),
                ),
            decreases self.functions@.len() - i,
        {
            let f = &self.functions[i];
            proof {
                assert(es + cs + ins + outs.take(i + 1) =~= (es + cs + ins + outs.take(
                    i as int,
                )).push(outs[i as int]));
                lemma_insert_all_push(
                    Seq::empty(),
                    es + cs + ins + outs.take(i as int),
                    outs[i as int],
                );
            }
            let mut key = f.name.clone();
            key.append("_output");
            object_insert(&mut definitions, key, (f, false).json_schema());
            i += 1;
        }
        assert(outs.take(self.functions@.len() as int) =~= outs);
        assert(es + cs + ins + outs =~= all);
        object1("definitions", JsonValue::Object(definitions))
    }
}

/// Every field type's schema is a JSON object.
pub proof fn law_schema_is_object(t: FieldType)
    ensures
        t.spec_schema() is Object,
    decreases t,
{
    match t {
        FieldType::Constrained { base, .. } => law_schema_is_object(*base),
        _ => {},
    }
}

/// Constraints do not change a type's schema.
pub proof fn law_constraints_ignored(t: FieldType)
    requires
        t is Constrained,
    ensures
        t.spec_schema() == t->base.spec_schema(),
{
}

/// A name is listed in `"required"` exactly when some member of that name has (or,
/// for `optional == false`, has not) an `Optional` type.
pub proof fn law_required_names(ms: Seq<(Seq<char>, FieldType)>, optional: bool, n: Seq<char>)
    ensures
        member_names(ms, optional).contains(Json::Str(n)) <==> exists|i: int|
            0 <= i < ms.len() && ms[i].0 == n && (ms[i].1 is Optional) == optional,
    decreases ms.len(),
{
    if ms.len() > 0 {
        let init = ms.drop_last();
        law_required_names(init, optional, n);
        let r = member_names(init, optional);
        if exists|i: int| 0 <= i < ms.len() && ms[i].0 == n && (ms[i].1 is Optional) == optional {
            let i = choose|i: int|
                0 <= i < ms.len() && ms[i].0 == n && (ms[i].1 is Optional) == optional;
            if i < ms.len() - 1 {
                assert(init[i] == ms[i]);
                let j = choose|j: int| 0 <= j < r.len() && r[j] == Json::Str(n);
                if (ms.last().1 is Optional) == optional {
                    assert(r.push(Json::Str(ms.last().0))[j] == Json::Str(n));
                }
            } else {
                assert(r.push(Json::Str(ms.last().0))[r.len() as int] == Json::Str(n));
            }
        }
        if member_names(ms, optional).contains(Json::Str(n)) {
            let m = member_names(ms, optional);
            let j = choose|j: int| 0 <= j < m.len() && m[j] == Json::Str(n);
            if (ms.last().1 is Optional) == optional && j == r.len() {
                assert(ms[ms.len() - 1].0 == n);
            } else {
                assert(r[j] == Json::Str(n));
                assert(r.contains(Json::Str(n)));
                let i = choose|i: int|
                    0 <= i < init.len() && init[i].0 == n && (init[i].1 is Optional) == optional;
                assert(ms[i] == init[i]);
            }
        }
    }
}

/// The `"properties"` of an object schema hold exactly one member per distinct
/// member name.
pub proof fn law_properties_keys(ms: Seq<(Seq<char>, FieldType)>)
    ensures
        keys_unique(member_properties(ms)),
        obj_keys(member_properties(ms)) == Set::new(
            |k: Seq<char>| exists|i: int| 0 <= i < ms.len() && ms[i].0 == k,
        ),
    decreases ms.len(),
{
    if ms.len() == 0 {
        assert(obj_keys(member_properties(ms)) =~= Set::new(
            |k: Seq<char>| exists|i: int| 0 <= i < ms.len() && ms[i].0 == k,
        ));
    } else {
        let init = ms.drop_last();
        law_properties_keys(init);
        law_insert_keys(member_properties(init), ms.last().0, ms.last().1.spec_schema());
        let target = Set::new(|k: Seq<char>| exists|i: int| 0 <= i < ms.len() && ms[i].0 == k);
        assert forall|k: Seq<char>| target.contains(k) implies obj_keys(
            member_properties(ms),
        ).contains(k) by {
            let i = choose|i: int| 0 <= i < ms.len() && ms[i].0 == k;
            if i < ms.len() - 1 {
                assert(init[i] == ms[i]);
                assert(obj_keys(member_properties(init)).contains(k));
            }
        }
        assert forall|k: Seq<char>| obj_keys(member_properties(ms)).contains(k) implies target.contains(
            k,
        ) by {
            if k != ms.last().0 {
                assert(obj_keys(member_properties(init)).contains(k));
                let i = choose|i: int| 0 <= i < init.len() && init[i].0 == k;
                assert(ms[i] == init[i]);
            } else {
                assert(ms[ms.len() - 1].0 == k);
            }
        }
        assert(obj_keys(member_properties(ms)) =~= target);
    }
}

/// Inserting members one by one leaves one member per distinct key, with the key set
/// of the object grown by the inserted keys.
pub proof fn law_insert_all_keys(m: Seq<(Seq<char>, Json)>, kvs: Seq<(Seq<char>, Json)>)
    ensures
        keys_unique(m) ==> keys_unique(insert_all(m, kvs)),
        obj_keys(insert_all(m, kvs)) == obj_keys(m).union(
            Set::new(|k: Seq<char>| exists|i: int| 0 <= i < kvs.len() && kvs[i].0 == k),
        ),
    decreases kvs.len(),
{
    let target = obj_keys(m).union(
        Set::new(|k: Seq<char>| exists|i: int| 0 <= i < kvs.len() && kvs[i].0 == k),
    );
    if kvs.len() == 0 {
        assert(obj_keys(insert_all(m, kvs)) =~= target);
    } else {
        let init = kvs.drop_last();
        law_insert_all_keys(m, init);
        law_insert_keys(insert_all(m, init), kvs.last().0, kvs.last().1);
        let got = obj_keys(insert_all(m, kvs));
        assert forall|k: Seq<char>| target.contains(k) implies got.contains(k) by {
            if !obj_keys(m).contains(k) {
                let i = choose|i: int| 0 <= i < kvs.len() && kvs[i].0 == k;
                if i < kvs.len() - 1 {
                    assert(init[i] == kvs[i]);
                }
            }
        }
        assert forall|k: Seq<char>| got.contains(k) implies target.contains(k) by {
            if k != kvs.last().0 && !obj_keys(m).contains(k) {
                let i = choose|i: int| 0 <= i < init.len() && init[i].0 == k;
                assert(kvs[i] == init[i]);
            } else if k == kvs.last().0 {
                assert(kvs[kvs.len() - 1].0 == k);
            }
        }
        assert(got =~= target);
    }
}

/// Every enum, class and function of a program has its definition in the program's
/// schema: the enum and class names and `<function>_input`, `<function>_output` are
/// keys of `"definitions"`, and each key occurs once.
pub proof fn law_definitions_cover_program(ir: IntermediateRepr)
    ensures
        ({
            let defs = insert_all(Seq::empty(), definition_members(ir));
            &&& keys_unique(defs)
            &&& forall|i: int|
                0 <= i < ir.enums@.len() ==> obj_keys(defs).contains(#[trigger] ir.enums@[i].name@)
            &&& forall|i: int|
                0 <= i < ir.classes@.len() ==> obj_keys(defs).contains(
                    #[trigger] ir.classes@[i].name@,
                )
            &&& forall|i: int|
                0 <= i < ir.functions@.len() ==> obj_keys(defs).contains(
                    #[trigger] ir.functions@[i].name@ + "_input"@,
                ) && obj_keys(defs).contains(ir.functions@[i].name@ + "_output"@)
        }),
{
    let all = definition_members(ir);
    let es = ir.enums@.map_values(|e: Enum| (e.name@, enum_schema(e)));
    let cs = ir.classes@.map_values(|c: Class| (c.name@, class_schema(c)));
    let ins = ir.functions@.map_values(
        |f: FunctionNode| (f.name@ + "_input"@, function_schema(f, true)),
    );
    let outs = ir.functions@.map_values(
        |f: FunctionNode| (f.name@ + "_output"@, function_schema(f, false)),
    );
    assert(all == es + cs + ins + outs);
    law_insert_all_keys(Seq::empty(), all);
    assert(keys_unique(Seq::<(Seq<char>, Json)>::empty()));
    let defs = insert_all(Seq::empty(), all);
    assert forall|i: int| 0 <= i < ir.enums@.len() implies obj_keys(defs).contains(
        #[trigger] ir.enums@[i].name@,
    ) by {
        assert(all[i] == es[i]);
    }
    assert forall|i: int| 0 <= i < ir.classes@.len() implies obj_keys(defs).contains(
        #[trigger] ir.classes@[i].name@,
    ) by {
        assert(all[es.len() + i] == cs[i]);
    }
    assert forall|i: int| 0 <= i < ir.functions@.len() implies obj_keys(defs).contains(
        #[trigger] ir.functions@[i].name@ + "_input"@,
    ) && obj_keys(defs).contains(ir.functions@[i].name@ + "_output"@) by {
        assert(all[es.len() + cs.len() + i] == ins[i]);
        assert(all[es.len() + cs.len() + ins.len() + i] == outs[i]);
    }
}

/// A function's input and output schemas carry the title `"<name> input"` or
/// `"<name> output"`.
pub proof fn law_function_title(f: FunctionNode, is_input: bool)
    ensures
        json_get(function_schema(f, is_input), "title"@) == Json::Str(
            f.name@ + " "@ + if is_input {
                "input"@
            } else {
                "output"@
            },
        ),
{
    law_schema_is_object(f.output);
    let title = f.name@ + " "@ + if is_input {
        "input"@
    } else {
        "output"@
    };
    let base = if is_input {
        object_schema(args_members(f.inputs@), false)
    } else {
        f.output.spec_schema()
    };
    match base {
        Json::Object(e) => {
            law_insert_then_get(e, "title"@, Json::Str(title));
        },
        _ => {},
    }
}

/// An optional type's schema admits `null`, either as a listed type or as a choice, and
/// has `null` as its default.
pub proof fn law_optional_admits_null(inner: FieldType)
    ensures
        ({
            let s = FieldType::Optional(Box::new(inner)).spec_schema();
            &&& s matches Json::Object(e) && obj_get(e, "default"@) == Some(Json::Null)
            &&& (json_get(s, "type"@) matches Json::Array(ts) && ts.contains(Json::Str("null"@)))
                || (json_get(s, "anyOf"@) matches Json::Array(cs) && cs.contains(
                null_choice_schema(),
            ))
        }),
{
    reveal_strlit("type");
    reveal_strlit("default");
    reveal_strlit("anyOf");
    assert("type"@.len() != "default"@.len());
    assert("anyOf"@.len() != "default"@.len());
    let t = FieldType::Optional(Box::new(inner));
    match inner {
        FieldType::Primitive(p) => {
            let base = primitive_schema(p);
            let eb = base->Object_0;
            let arr = Json::Array(seq![json_get(base, "type"@), Json::Str("null"@)]);
            let e1 = obj_insert(eb, "type"@, arr);
            let e2 = obj_insert(e1, "default"@, Json::Null);
            assert(t.spec_schema() == Json::Object(e2));
            law_insert_then_get(e1, "default"@, Json::Null);
            law_insert_keeps_other_keys(e1, "default"@, Json::Null, "type"@);
            law_insert_then_get(eb, "type"@, arr);
            assert(seq![json_get(base, "type"@), Json::Str("null"@)][1] == Json::Str("null"@));
        },
        _ => {
            let choices = seq![
                with_title(inner.spec_schema(), inner.spec_display_name()),
                null_choice_schema(),
            ];
            let e = seq![("anyOf"@, Json::Array(choices)), ("default"@, Json::Null)];
            assert(t.spec_schema() == Json::Object(e));
            assert(e.drop_first().drop_first() =~= Seq::<(Seq<char>, Json)>::empty());
            assert(obj_get(e.drop_first(), "default"@) == Some(Json::Null));
            assert(obj_get(e, "default"@) == Some(Json::Null));
            assert(obj_get(e, "anyOf"@) == Some(Json::Array(choices)));
            assert(choices[1] == null_choice_schema());
        },
    }
}

proof fn lemma_key_literals()
    ensures
        "type"@.len() == 4,
        "items"@.len() == 5,
        "additionalProperties"@.len() == 20,
        "anyOf"@.len() == 5,
        "default"@.len() == 7,
        "prefixItems"@.len() == 11,
        "properties"@.len() == 10,
        "required"@.len() == 8,
        "title"@.len() == 5,
        "enum"@.len() == 4,
        "enum"@ != "type"@,
{
    reveal_strlit("type");
    reveal_strlit("items");
    reveal_strlit("additionalProperties");
    reveal_strlit("anyOf");
    reveal_strlit("default");
    reveal_strlit("prefixItems");
    reveal_strlit("properties");
    reveal_strlit("required");
    reveal_strlit("title");
    reveal_strlit("enum");
    assert("enum"@[0] != "type"@[0]);
}

proof fn lemma_primitive_schema_wf(t: TypeValue)
    ensures
        json_wf(primitive_schema(t)),
        json_get(primitive_schema(t), "type"@) is Str,
{
    lemma_key_literals();
    let s = primitive_schema(t);
    if let TypeValue::Media(_) = t {
        let url = Json::Object(seq![("type"@, Json::Str("string"@))]);
        assert(json_wf(url->Object_0[0].1));
        assert(json_wf(url));
        let props = Json::Object(seq![("url"@, url)]);
        assert(json_wf(props->Object_0[0].1));
        assert(json_wf(props));
        let req = Json::Array(seq![Json::Str("url"@)]);
        assert(json_wf(req->Array_0[0]));
        assert(json_wf(req));
        let e = s->Object_0;
        assert(json_wf(e[0].1) && json_wf(e[1].1) && json_wf(e[2].1));
    } else {
        assert(json_wf(s->Object_0[0].1));
    }
}

/// The schemas of a sequence of types are well formed.
proof fn lemma_schemas_wf(ts: Seq<FieldType>)
    ensures
        schemas(ts).len() == ts.len(),
        titled_schemas(ts).len() == ts.len(),
        forall|i: int| 0 <= i < ts.len() ==> json_wf(#[trigger] schemas(ts)[i]),
        forall|i: int| 0 <= i < ts.len() ==> json_wf(#[trigger] titled_schemas(ts)[i]),
    decreases ts,
{
    if ts.len() > 0 {
        let init = ts.drop_last();
        lemma_schemas_wf(init);
        law_schema_well_formed(ts.last());
        lemma_json_insert_wf(
            ts.last().spec_schema(),
            "title"@,
            Json::Str(ts.last().spec_display_name()),
        );
        assert forall|i: int| 0 <= i < ts.len() implies json_wf(#[trigger] schemas(ts)[i]) by {
            if i < ts.len() - 1 {
                assert(schemas(ts)[i] == schemas(init)[i]);
            }
        }
        assert forall|i: int| 0 <= i < ts.len() implies json_wf(#[trigger] titled_schemas(ts)[i]) by {
            if i < ts.len() - 1 {
                assert(titled_schemas(ts)[i] == titled_schemas(init)[i]);
            }
        }
    }
}

/// Every field type's schema is well-formed JSON: no object in it, at any depth, repeats
/// a key.
pub proof fn law_schema_well_formed(t: FieldType)
    ensures
        json_wf(t.spec_schema()),
    decreases t,
{
    lemma_key_literals();
    let s = t.spec_schema();
    match t {
        FieldType::Primitive(p) => {
            lemma_primitive_schema_wf(p);
        },
        FieldType::List(item) => {
            law_schema_well_formed(*item);
            let e = s->Object_0;
            assert(json_wf(e[0].1) && json_wf(e[1].1));
        },
        FieldType::MapOf(_k, v) => {
            law_schema_well_formed(*v);
            let inner = Json::Object(seq![("type"@, v.spec_schema())]);
            assert(json_wf(inner->Object_0[0].1));
            let e = s->Object_0;
            assert(json_wf(e[0].1) && json_wf(e[1].1));
        },
        FieldType::Union(ts) => {
            lemma_schemas_wf(ts@);
            let items = titled_schemas(ts@);
            assert(json_wf(Json::Array(items)));
            assert(json_wf(s->Object_0[0].1));
        },
        FieldType::Tuple(ts) => {
            lemma_schemas_wf(ts@);
            let items = schemas(ts@);
            assert(json_wf(Json::Array(items)));
            let e = s->Object_0;
            assert(json_wf(e[0].1) && json_wf(e[1].1));
        },
        FieldType::Optional(inner) => {
            match *inner {
                FieldType::Primitive(p) => {
                    lemma_primitive_schema_wf(p);
                    let base = primitive_schema(p);
                    let arr = Json::Array(seq![json_get(base, "type"@), Json::Str("null"@)]);
                    assert(json_wf(arr->Array_0[0]) && json_wf(arr->Array_0[1]));
                    assert(json_wf(arr));
                    lemma_json_insert_wf(base, "type"@, arr);
                    lemma_json_insert_wf(json_insert(base, "type"@, arr), "default"@, Json::Null);
                },
                _ => {
                    law_schema_well_formed(*inner);
                    lemma_json_insert_wf(
                        inner.spec_schema(),
                        "title"@,
                        Json::Str(inner.spec_display_name()),
                    );
                    let nc = null_choice_schema();
                    assert(json_wf(nc->Object_0[0].1) && json_wf(nc->Object_0[1].1));
                    let choices = Json::Array(
                        seq![with_title(inner.spec_schema(), inner.spec_display_name()), nc],
                    );
                    assert(json_wf(choices->Array_0[0]) && json_wf(choices->Array_0[1]));
                    let e = s->Object_0;
                    assert(json_wf(e[0].1) && json_wf(e[1].1));
                },
            }
        },
        FieldType::Constrained { base, .. } => {
            law_schema_well_formed(*base);
        },
        _ => {
            assert(json_wf(s->Object_0[0].1));
        },
    }
}

proof fn lemma_members_wf(ms: Seq<(Seq<char>, FieldType)>, optional: bool)
    ensures
        json_wf(Json::Object(member_properties(ms))),
        json_wf(Json::Array(member_names(ms, optional))),
    decreases ms.len(),
{
    if ms.len() == 0 {
        assert(json_wf(Json::Object(member_properties(ms))));
        assert(json_wf(Json::Array(member_names(ms, optional))));
    } else {
        let init = ms.drop_last();
        lemma_members_wf(init, optional);
        law_schema_well_formed(ms.last().1);
        lemma_json_insert_wf(
            Json::Object(member_properties(init)),
            ms.last().0,
            ms.last().1.spec_schema(),
        );
        lemma_names_are_strings(ms, optional);
        let names = member_names(ms, optional);
        assert forall|i: int| 0 <= i < names.len() implies json_wf(#[trigger] names[i]) by {
            assert(names[i] is Str);
        }
    }
}

proof fn lemma_names_are_strings(ms: Seq<(Seq<char>, FieldType)>, optional: bool)
    ensures
        forall|i: int|
            0 <= i < member_names(ms, optional).len() ==> #[trigger] member_names(
                ms,
                optional,
            )[i] is Str,
    decreases ms.len(),
{
    if ms.len() > 0 {
        lemma_names_are_strings(ms.drop_last(), optional);
    }
}

proof fn lemma_insert_all_wf(m: Seq<(Seq<char>, Json)>, kvs: Seq<(Seq<char>, Json)>)
    requires
        json_wf(Json::Object(m)),
        forall|i: int| 0 <= i < kvs.len() ==> json_wf(#[trigger] kvs[i].1),
    ensures
        json_wf(Json::Object(insert_all(m, kvs))),
    decreases kvs.len(),
{
    if kvs.len() > 0 {
        let init = kvs.drop_last();
        assert forall|i: int| 0 <= i < init.len() implies json_wf(#[trigger] init[i].1) by {
            assert(init[i] == kvs[i]);
        }
        lemma_insert_all_wf(m, init);
        assert(json_wf(kvs[kvs.len() - 1].1));
        lemma_json_insert_wf(Json::Object(insert_all(m, init)), kvs.last().0, kvs.last().1);
    }
}

/// The schemas of named arguments, of enums, of classes and of a function's input and
/// output are well-formed JSON.
pub proof fn law_item_schemas_well_formed(
    args: Seq<(String, FieldType)>,
    e: Enum,
    c: Class,
    f: FunctionNode,
    is_input: bool,
)
    ensures
        json_wf(object_schema(args_members(args), false)),
        json_wf(object_schema(args_members(args), true)),
        json_wf(enum_schema(e)),
        json_wf(class_schema(c)),
        json_wf(function_schema(f, is_input)),
{
    lemma_key_literals();
    reveal_strlit("const");
    reveal_strlit("title");
    lemma_members_wf(args_members(args), false);
    lemma_members_wf(args_members(args), true);
    lemma_members_wf(field_members(c.static_fields@), false);
    assert forall|opt: bool| #[trigger] json_wf(object_schema(args_members(args), opt)) by {
        lemma_members_wf(args_members(args), opt);
        let o = object_schema(args_members(args), opt);
        assert(json_wf(o->Object_0[0].1) && json_wf(o->Object_0[1].1) && json_wf(
            o->Object_0[2].1,
        ));
    }
    let vals = e.values@.map_values(|v: String| Json::Object(seq![("const"@, Json::Str(v@))]));
    assert forall|i: int| 0 <= i < vals.len() implies json_wf(#[trigger] vals[i]) by {
        assert(json_wf(vals[i]->Object_0[0].1));
    }
    let es = enum_schema(e);
    assert(json_wf(es->Object_0[0].1) && json_wf(es->Object_0[1].1));
    let cs = class_schema(c);
    assert(json_wf(cs->Object_0[0].1) && json_wf(cs->Object_0[1].1));
    assert(json_wf(cs->Object_0[2].1) && json_wf(cs->Object_0[3].1));
    law_schema_well_formed(f.output);
    lemma_members_wf(args_members(f.inputs@), false);
    let fo = object_schema(args_members(f.inputs@), false);
    assert(json_wf(fo->Object_0[0].1) && json_wf(fo->Object_0[1].1) && json_wf(fo->Object_0[2].1));
    let base = if is_input {
        fo
    } else {
        f.output.spec_schema()
    };
    lemma_json_insert_wf(
        base,
        "title"@,
        Json::Str(
            f.name@ + " "@ + if is_input {
                "input"@
            } else {
                "output"@
            },
        ),
    );
}

/// A program's schema is well-formed JSON.
pub proof fn law_ir_schema_well_formed(ir: IntermediateRepr)
    ensures
        json_wf(ir_schema(ir)),
{
    reveal_strlit("definitions");
    let all = definition_members(ir);
    let es = ir.enums@.map_values(|e: Enum| (e.name@, enum_schema(e)));
    let cs = ir.classes@.map_values(|c: Class| (c.name@, class_schema(c)));
    let ins = ir.functions@.map_values(
        |f: FunctionNode| (f.name@ + "_input"@, function_schema(f, true)),
    );
    let outs = ir.functions@.map_values(
        |f: FunctionNode| (f.name@ + "_output"@, function_schema(f, false)),
    );
    assert(all == es + cs + ins + outs);
    let empty_args = Seq::<(String, FieldType)>::empty();
    assert forall|i: int| 0 <= i < all.len() implies json_wf(#[trigger] all[i].1) by {
        if i < es.len() {
            assert(all[i] == es[i]);
            law_item_schemas_well_formed(empty_args, ir.enums@[i], ir.classes@[0], ir.functions@[0], true);
        } else if i < es.len() + cs.len() {
            assert(all[i] == cs[i - es.len()]);
            law_item_schemas_well_formed(
                empty_args,
                ir.enums@[0],
                ir.classes@[i - es.len()],
                ir.functions@[0],
                true,
            );
        } else if i < es.len() + cs.len() + ins.len() {
            assert(all[i] == ins[i - es.len() - cs.len()]);
            law_item_schemas_well_formed(
                empty_args,
                ir.enums@[0],
                ir.classes@[0],
                ir.functions@[i - es.len() - cs.len()],
                true,
            );
        } else {
            assert(all[i] == outs[i - es.len() - cs.len() - ins.len()]);
            law_item_schemas_well_formed(
                empty_args,
                ir.enums@[0],
                ir.classes@[0],
                ir.functions@[i - es.len() - cs.len() - ins.len()],
                false,
            );
        }
    }
    assert(json_wf(Json::Object(Seq::<(Seq<char>, Json)>::empty())));
    lemma_insert_all_wf(Seq::empty(), all);
    let s = ir_schema(ir);
    assert(json_wf(s->Object_0[0].1));
}

/// No two members share a name.
pub open spec fn names_distinct(ms: Seq<(Seq<char>, FieldType)>) -> bool {
    forall|i: int, j: int| 0 <= i < ms.len() && 0 <= j < ms.len() && i != j ==> ms[i].0 != ms[j].0
}

proof fn lemma_member_properties_get(ms: Seq<(Seq<char>, FieldType)>)
    requires
        names_distinct(ms),
    ensures
        forall|i: int|
            #![trigger ms[i]]
            0 <= i < ms.len() ==> obj_get(member_properties(ms), ms[i].0) == Some(
                ms[i].1.spec_schema(),
            ),
    decreases ms.len(),
{
    if ms.len() > 0 {
        let init = ms.drop_last();
        assert(names_distinct(init)) by {
            assert forall|i: int, j: int|
                0 <= i < init.len() && 0 <= j < init.len() && i != j implies init[i].0
                != init[j].0 by {
                assert(init[i] == ms[i] && init[j] == ms[j]);
            }
        }
        lemma_member_properties_get(init);
        let last = ms.last();
        law_insert_then_get(member_properties(init), last.0, last.1.spec_schema());
        assert forall|i: int| #![trigger ms[i]] 0 <= i < ms.len() implies obj_get(
            member_properties(ms),
            ms[i].0,
        ) == Some(ms[i].1.spec_schema()) by {
            if i < ms.len() - 1 {
                assert(init[i] == ms[i]);
                assert(ms[i].0 != ms[ms.len() - 1].0);
                law_insert_keeps_other_keys(
                    member_properties(init),
                    last.0,
                    last.1.spec_schema(),
                    ms[i].0,
                );
            }
        }
    }
}

/// The three parts of an object schema, read back.
proof fn lemma_object_schema_parts(ms: Seq<(Seq<char>, FieldType)>, opt: bool)
    ensures
        object_schema(ms, opt) matches Json::Object(e) && {
            &&& obj_get(e, "type"@) == Some(Json::Str("object"@))
            &&& obj_get(e, "properties"@) == Some(Json::Object(member_properties(ms)))
            &&& obj_get(e, "required"@) == Some(Json::Array(member_names(ms, opt)))
            &&& obj_get(e, "title"@) is None
        },
{
    lemma_key_literals();
    let e = object_schema(ms, opt)->Object_0;
    lemma_obj_get_at(e, 0);
    lemma_obj_get_at(e, 1);
    lemma_obj_get_at(e, 2);
    lemma_obj_get_absent(e, "title"@);
}

/// How a named member list's object schema is made: its `"type"` is `"object"`, its
/// `"properties"` have one key per member name, each bound (when names are distinct) to
/// the schema of that member's type, and its `"required"` list names exactly the members
/// with (`opt`) or without an `Optional` type.
proof fn lemma_object_schema_facts(ms: Seq<(Seq<char>, FieldType)>, opt: bool, n: Seq<char>)
    ensures
        json_get(object_schema(ms, opt), "type"@) == Json::Str("object"@),
        json_get(object_schema(ms, opt), "properties"@) == Json::Object(member_properties(ms)),
        json_get(object_schema(ms, opt), "required"@) == Json::Array(member_names(ms, opt)),
        obj_keys(member_properties(ms)) == Set::new(
            |k: Seq<char>| exists|i: int| 0 <= i < ms.len() && ms[i].0 == k,
        ),
        member_names(ms, opt).contains(Json::Str(n)) <==> exists|i: int|
            0 <= i < ms.len() && ms[i].0 == n && (ms[i].1 is Optional) == opt,
        names_distinct(ms) ==> forall|i: int|
            #![trigger ms[i]]
            0 <= i < ms.len() ==> obj_get(member_properties(ms), ms[i].0) == Some(
                ms[i].1.spec_schema(),
            ),
{
    lemma_object_schema_parts(ms, opt);
    law_properties_keys(ms);
    law_required_names(ms, opt, n);
    if names_distinct(ms) {
        lemma_member_properties_get(ms);
    }
}

/// The schema of a named argument list (`FunctionArgs::NamedArgList`): an object whose
/// `"properties"` have one key per argument name, each bound (when names are distinct) to
/// the schema of that argument's type, and whose `"required"` list names exactly the
/// arguments that have an `Optional` type.
pub proof fn law_named_arg_list_schema(a: FunctionArgs, n: Seq<char>)
    requires
        a is NamedArgList,
    ensures
        ({
            let args = a->NamedArgList_0@;
            let s = a.schema_model();
            &&& json_get(s, "type"@) == Json::Str("object"@)
            &&& json_get(s, "properties"@) matches Json::Object(p) && {
                &&& obj_keys(p) == Set::new(
                    |k: Seq<char>| exists|i: int| 0 <= i < args.len() && args[i].0@ == k,
                )
                &&& (forall|i: int, j: int|
                    0 <= i < args.len() && 0 <= j < args.len() && i != j ==> args[i].0@
                        != args[j].0@) ==> forall|i: int|
                    #![trigger args[i]]
                    0 <= i < args.len() ==> obj_get(p, args[i].0@) == Some(
                        args[i].1.spec_schema(),
                    )
            }
            &&& json_get(s, "required"@) matches Json::Array(r) && (r.contains(Json::Str(n))
                <==> exists|i: int|
                0 <= i < args.len() && args[i].0@ == n && args[i].1 is Optional)
        }),
{
    let args = a->NamedArgList_0@;
    lemma_args_facts(args, true, n);
}

/// The schema of a list of named arguments (a function's inputs): an object whose
/// `"properties"` have one key per argument name, each bound (when names are distinct) to
/// the schema of that argument's type, and whose `"required"` list names exactly the
/// arguments whose type is not `Optional`.
pub proof fn law_arg_vec_schema(args: Vec<(String, FieldType)>, n: Seq<char>)
    ensures
        ({
            let a = args@;
            let s = WithJsonSchema::schema_model(&args);
            &&& json_get(s, "type"@) == Json::Str("object"@)
            &&& json_get(s, "properties"@) matches Json::Object(p) && {
                &&& obj_keys(p) == Set::new(
                    |k: Seq<char>| exists|i: int| 0 <= i < a.len() && a[i].0@ == k,
                )
                &&& (forall|i: int, j: int|
                    0 <= i < a.len() && 0 <= j < a.len() && i != j ==> a[i].0@ != a[j].0@)
                    ==> forall|i: int|
                    #![trigger a[i]]
                    0 <= i < a.len() ==> obj_get(p, a[i].0@) == Some(a[i].1.spec_schema())
            }
            &&& json_get(s, "required"@) matches Json::Array(r) && (r.contains(Json::Str(n))
                <==> exists|i: int| 0 <= i < a.len() && a[i].0@ == n && !(a[i].1 is Optional))
        }),
{
    lemma_args_facts(args@, false, n);
}

proof fn lemma_args_facts(args: Seq<(String, FieldType)>, opt: bool, n: Seq<char>)
    ensures
        ({
            let s = object_schema(args_members(args), opt);
            &&& json_get(s, "type"@) == Json::Str("object"@)
            &&& json_get(s, "properties"@) matches Json::Object(p) && {
                &&& obj_keys(p) == Set::new(
                    |k: Seq<char>| exists|i: int| 0 <= i < args.len() && args[i].0@ == k,
                )
                &&& (forall|i: int, j: int|
                    0 <= i < args.len() && 0 <= j < args.len() && i != j ==> args[i].0@
                        != args[j].0@) ==> forall|i: int|
                    #![trigger args[i]]
                    0 <= i < args.len() ==> obj_get(p, args[i].0@) == Some(
                        args[i].1.spec_schema(),
                    )
            }
            &&& json_get(s, "required"@) matches Json::Array(r) && (r.contains(Json::Str(n))
                <==> exists|i: int|
                0 <= i < args.len() && args[i].0@ == n && (args[i].1 is Optional) == opt)
        }),
{
    let ms = args_members(args);
    assert forall|i: int| 0 <= i < args.len() implies #[trigger] ms[i] == (
        args[i].0@,
        args[i].1,
    ) by {}
    lemma_object_schema_facts(ms, opt, n);
    let names = Set::new(|k: Seq<char>| exists|i: int| 0 <= i < args.len() && args[i].0@ == k);
    let mnames = Set::new(|k: Seq<char>| exists|i: int| 0 <= i < ms.len() && ms[i].0 == k);
    assert forall|k: Seq<char>| names.contains(k) <==> mnames.contains(k) by {
        if names.contains(k) {
            let i = choose|i: int| 0 <= i < args.len() && args[i].0@ == k;
            assert(ms[i].0 == k);
        }
        if mnames.contains(k) {
            let i = choose|i: int| 0 <= i < ms.len() && ms[i].0 == k;
            assert(args[i].0@ == k);
        }
    }
    assert(names =~= mnames);
    if exists|i: int| 0 <= i < args.len() && args[i].0@ == n && (args[i].1 is Optional) == opt {
        let i = choose|i: int|
            0 <= i < args.len() && args[i].0@ == n && (args[i].1 is Optional) == opt;
        assert(ms[i].0 == n && (ms[i].1 is Optional) == opt);
    }
    if exists|i: int| 0 <= i < ms.len() && ms[i].0 == n && (ms[i].1 is Optional) == opt {
        let i = choose|i: int| 0 <= i < ms.len() && ms[i].0 == n && (ms[i].1 is Optional) == opt;
        assert(args[i].0@ == n && (args[i].1 is Optional) == opt);
    }
    if forall|i: int, j: int|
        0 <= i < args.len() && 0 <= j < args.len() && i != j ==> args[i].0@ != args[j].0@ {
        assert(names_distinct(ms)) by {
            assert forall|i: int, j: int|
                0 <= i < ms.len() && 0 <= j < ms.len() && i != j implies ms[i].0 != ms[j].0 by {
                assert(ms[i].0 == args[i].0@ && ms[j].0 == args[j].0@);
            }
        }
        assert forall|i: int| #![trigger args[i]] 0 <= i < args.len() implies obj_get(
            member_properties(ms),
            args[i].0@,
        ) == Some(args[i].1.spec_schema()) by {
            assert(ms[i] == (args[i].0@, args[i].1));
        }
    }
}

/// A function's input schema is the schema of its named inputs, titled
/// `"<name> input"`: an object whose `"properties"` have one key per input name, each
/// bound (when names are distinct) to the schema of that input's type, and whose
/// `"required"` list names exactly the inputs whose type is not `Optional`.
pub proof fn law_function_input_schema(f: FunctionNode, n: Seq<char>)
    ensures
        ({
            let a = f.inputs@;
            let s = function_schema(f, true);
            &&& json_get(s, "title"@) == Json::Str(f.name@ + " "@ + "input"@)
            &&& json_get(s, "type"@) == Json::Str("object"@)
            &&& json_get(s, "properties"@) matches Json::Object(p) && {
                &&& obj_keys(p) == Set::new(
                    |k: Seq<char>| exists|i: int| 0 <= i < a.len() && a[i].0@ == k,
                )
                &&& (forall|i: int, j: int|
                    0 <= i < a.len() && 0 <= j < a.len() && i != j ==> a[i].0@ != a[j].0@)
                    ==> forall|i: int|
                    #![trigger a[i]]
                    0 <= i < a.len() ==> obj_get(p, a[i].0@) == Some(a[i].1.spec_schema())
            }
            &&& json_get(s, "required"@) matches Json::Array(r) && (r.contains(Json::Str(n))
                <==> exists|i: int| 0 <= i < a.len() && a[i].0@ == n && !(a[i].1 is Optional))
        }),
{
    lemma_key_literals();
    lemma_args_facts(f.inputs@, false, n);
    let ms = args_members(f.inputs@);
    lemma_object_schema_parts(ms, false);
    let e = object_schema(ms, false)->Object_0;
    let t = Json::Str(f.name@ + " "@ + "input"@);
    law_insert_then_get(e, "title"@, t);
    law_insert_keeps_other_keys(e, "title"@, t, "type"@);
    law_insert_keeps_other_keys(e, "title"@, t, "properties"@);
    law_insert_keeps_other_keys(e, "title"@, t, "required"@);
}

/// A function's output schema is the schema of its output type, titled
/// `"<name> output"`.
pub proof fn law_function_output_schema(f: FunctionNode)
    ensures
        function_schema(f, false) == with_title(f.output.spec_schema(), f.name@ + " "@ + "output"@),
{
}

/// The schema of a class: an object titled with the class name whose `"properties"` have
/// one key per field name, each bound (when names are distinct) to the schema of that
/// field's type, and whose `"required"` list names exactly the fields whose type is not
/// `Optional` (a list field, for one, is required).
pub proof fn law_class_schema(c: Class, n: Seq<char>)
    ensures
        ({
            let fs = c.static_fields@;
            let s = class_schema(c);
            &&& json_get(s, "title"@) == Json::Str(c.name@)
            &&& json_get(s, "type"@) == Json::Str("object"@)
            &&& json_get(s, "properties"@) matches Json::Object(p) && {
                &&& obj_keys(p) == Set::new(
                    |k: Seq<char>| exists|i: int| 0 <= i < fs.len() && fs[i].name@ == k,
                )
                &&& (forall|i: int, j: int|
                    0 <= i < fs.len() && 0 <= j < fs.len() && i != j ==> fs[i].name@
                        != fs[j].name@) ==> forall|i: int|
                    #![trigger fs[i]]
                    0 <= i < fs.len() ==> obj_get(p, fs[i].name@) == Some(
                        fs[i].field_type.spec_schema(),
                    )
            }
            &&& json_get(s, "required"@) matches Json::Array(r) && (r.contains(Json::Str(n))
                <==> exists|i: int|
                0 <= i < fs.len() && fs[i].name@ == n && !(fs[i].field_type is Optional))
        }),
{
    lemma_key_literals();
    let fs = c.static_fields@;
    let ms = field_members(fs);
    let e = class_schema(c)->Object_0;
    lemma_obj_get_at(e, 0);
    lemma_obj_get_at(e, 1);
    lemma_obj_get_at(e, 2);
    lemma_obj_get_at(e, 3);
    assert forall|i: int| 0 <= i < fs.len() implies #[trigger] ms[i] == (
        fs[i].name@,
        fs[i].field_type,
    ) by {}
    lemma_object_schema_facts(ms, false, n);
    let names = Set::new(|k: Seq<char>| exists|i: int| 0 <= i < fs.len() && fs[i].name@ == k);
    let mnames = Set::new(|k: Seq<char>| exists|i: int| 0 <= i < ms.len() && ms[i].0 == k);
    assert forall|k: Seq<char>| names.contains(k) <==> mnames.contains(k) by {
        if names.contains(k) {
            let i = choose|i: int| 0 <= i < fs.len() && fs[i].name@ == k;
            assert(ms[i].0 == k);
        }
        if mnames.contains(k) {
            let i = choose|i: int| 0 <= i < ms.len() && ms[i].0 == k;
            assert(fs[i].name@ == k);
        }
    }
    assert(names =~= mnames);
    if exists|i: int| 0 <= i < fs.len() && fs[i].name@ == n && !(fs[i].field_type is Optional) {
        let i = choose|i: int|
            0 <= i < fs.len() && fs[i].name@ == n && !(fs[i].field_type is Optional);
        assert(ms[i].0 == n && (ms[i].1 is Optional) == false);
    }
    if exists|i: int| 0 <= i < ms.len() && ms[i].0 == n && (ms[i].1 is Optional) == false {
        let i = choose|i: int| 0 <= i < ms.len() && ms[i].0 == n && (ms[i].1 is Optional) == false;
        assert(fs[i].name@ == n && !(fs[i].field_type is Optional));
    }
    if forall|i: int, j: int|
        0 <= i < fs.len() && 0 <= j < fs.len() && i != j ==> fs[i].name@ != fs[j].name@ {
        assert(names_distinct(ms)) by {
            assert forall|i: int, j: int|
                0 <= i < ms.len() && 0 <= j < ms.len() && i != j implies ms[i].0 != ms[j].0 by {
                assert(ms[i].0 == fs[i].name@ && ms[j].0 == fs[j].name@);
            }
        }
        assert forall|i: int| #![trigger fs[i]] 0 <= i < fs.len() implies obj_get(
            member_properties(ms),
            fs[i].name@,
        ) == Some(fs[i].field_type.spec_schema()) by {
            assert(ms[i] == (fs[i].name@, fs[i].field_type));
        }
    }
}

/// A map or a list type is not optional by itself, whatever its element types: its
/// schema's `"type"` is `"object"` (for a map) or `"array"` (for a list), and it has no
/// `"default"`.
pub proof fn law_map_and_list_not_nullable(k: FieldType, v: FieldType, item: FieldType)
    ensures
        ({
            let m = FieldType::MapOf(Box::new(k), Box::new(v));
            &&& !m.spec_is_optional()
            &&& m.spec_schema() matches Json::Object(e) && obj_get(e, "type"@) == Some(
                Json::Str("object"@),
            ) && obj_get(e, "default"@) is None
        }),
        ({
            let l = FieldType::List(Box::new(item));
            &&& !l.spec_is_optional()
            &&& l.spec_schema() matches Json::Object(e) && obj_get(e, "type"@) == Some(
                Json::Str("array"@),
            ) && obj_get(e, "default"@) is None
        }),
{
    lemma_key_literals();
    let m = FieldType::MapOf(Box::new(k), Box::new(v));
    let em = m.spec_schema()->Object_0;
    lemma_obj_get_at(em, 0);
    lemma_obj_get_absent(em, "default"@);
    let l = FieldType::List(Box::new(item));
    let el = l.spec_schema()->Object_0;
    lemma_obj_get_at(el, 0);
    lemma_obj_get_absent(el, "default"@);
}

/// The definition names of a program, in order: its enums, its classes, then
/// `<function>_input` for each function and `<function>_output` for each function.
pub open spec fn definition_names(ir: IntermediateRepr) -> Seq<Seq<char>> {
    ir.enums@.map_values(|e: Enum| e.name@) + ir.classes@.map_values(|c: Class| c.name@)
        + ir.functions@.map_values(|f: FunctionNode| f.name@ + "_input"@)
        + ir.functions@.map_values(|f: FunctionNode| f.name@ + "_output"@)
}

proof fn lemma_insert_all_get(kvs: Seq<(Seq<char>, Json)>)
    requires
        forall|i: int, j: int|
            0 <= i < kvs.len() && 0 <= j < kvs.len() && i != j ==> kvs[i].0 != kvs[j].0,
    ensures
        forall|i: int|
            #![trigger kvs[i]]
            0 <= i < kvs.len() ==> obj_get(insert_all(Seq::empty(), kvs), kvs[i].0) == Some(
                kvs[i].1,
            ),
    decreases kvs.len(),
{
    if kvs.len() > 0 {
        let init = kvs.drop_last();
        assert forall|i: int, j: int|
            0 <= i < init.len() && 0 <= j < init.len() && i != j implies init[i].0
            != init[j].0 by {
            assert(init[i] == kvs[i] && init[j] == kvs[j]);
        }
        lemma_insert_all_get(init);
        let last = kvs.last();
        let m = insert_all(Seq::empty(), init);
        law_insert_then_get(m, last.0, last.1);
        assert forall|i: int| #![trigger kvs[i]] 0 <= i < kvs.len() implies obj_get(
            insert_all(Seq::empty(), kvs),
            kvs[i].0,
        ) == Some(kvs[i].1) by {
            if i < kvs.len() - 1 {
                assert(init[i] == kvs[i]);
                assert(kvs[i].0 != kvs[kvs.len() - 1].0);
                law_insert_keeps_other_keys(m, last.0, last.1, kvs[i].0);
            }
        }
    }
}

/// In a program whose definition names are distinct, `"definitions"` maps each enum and
/// class name to its schema, `<function>_input` to the function's input schema and
/// `<function>_output` to the schema of the function's output type titled
/// `"<function> output"`.
pub proof fn law_program_definitions(ir: IntermediateRepr)
    requires
        forall|i: int, j: int|
            0 <= i < definition_names(ir).len() && 0 <= j < definition_names(ir).len() && i != j
                ==> definition_names(ir)[i] != definition_names(ir)[j],
    ensures
        json_get(ir_schema(ir), "definitions"@) matches Json::Object(d) && {
            &&& forall|i: int|
                #![trigger ir.functions@[i]]
                0 <= i < ir.functions@.len() ==> obj_get(d, ir.functions@[i].name@ + "_output"@)
                    == Some(
                    with_title(
                        ir.functions@[i].output.spec_schema(),
                        ir.functions@[i].name@ + " "@ + "output"@,
                    ),
                ) && obj_get(d, ir.functions@[i].name@ + "_input"@) == Some(
                    function_schema(ir.functions@[i], true),
                )
            &&& forall|i: int|
                #![trigger ir.enums@[i]]
                0 <= i < ir.enums@.len() ==> obj_get(d, ir.enums@[i].name@) == Some(
                    enum_schema(ir.enums@[i]),
                )
            &&& forall|i: int|
                #![trigger ir.classes@[i]]
                0 <= i < ir.classes@.len() ==> obj_get(d, ir.classes@[i].name@) == Some(
                    class_schema(ir.classes@[i]),
                )
        },
{
    reveal_strlit("definitions");
    let all = definition_members(ir);
    let names = definition_names(ir);
    let ne = ir.enums@.len();
    let nc = ir.classes@.len();
    let nf = ir.functions@.len();
    assert(all.len() == names.len());
    assert forall|j: int| 0 <= j < all.len() implies #[trigger] all[j].0 == names[j] by {
        if j < ne {
        } else if j < ne + nc {
        } else if j < ne + nc + nf {
        } else {
        }
    }
    assert forall|i: int, j: int|
        0 <= i < all.len() && 0 <= j < all.len() && i != j implies all[i].0 != all[j].0 by {
        assert(all[i].0 == names[i] && all[j].0 == names[j]);
    }
    lemma_insert_all_get(all);
    let d = insert_all(Seq::empty(), all);
    let top = seq![("definitions"@, Json::Object(d))];
    lemma_obj_get_at(top, 0);
    assert forall|i: int| #![trigger ir.functions@[i]] 0 <= i < nf implies obj_get(
        d,
        ir.functions@[i].name@ + "_output"@,
    ) == Some(
        with_title(
            ir.functions@[i].output.spec_schema(),
            ir.functions@[i].name@ + " "@ + "output"@,
        ),
    ) && obj_get(d, ir.functions@[i].name@ + "_input"@) == Some(
        function_schema(ir.functions@[i], true),
    ) by {
        let jo = ne + nc + nf + i;
        let ji = ne + nc + i;
        assert(all[jo] == (
            ir.functions@[i].name@ + "_output"@,
            function_schema(ir.functions@[i], false),
        ));
        assert(all[ji] == (
            ir.functions@[i].name@ + "_input"@,
            function_schema(ir.functions@[i], true),
        ));
        assert(all[jo] == all[jo]);
        assert(all[ji] == all[ji]);
    }
    assert forall|i: int| #![trigger ir.enums@[i]] 0 <= i < ne implies obj_get(
        d,
        ir.enums@[i].name@,
    ) == Some(enum_schema(ir.enums@[i])) by {
        assert(all[i] == (ir.enums@[i].name@, enum_schema(ir.enums@[i])));
    }
    assert forall|i: int| #![trigger ir.classes@[i]] 0 <= i < nc implies obj_get(
        d,
        ir.classes@[i].name@,
    ) == Some(class_schema(ir.classes@[i])) by {
        assert(all[ne + i] == (ir.classes@[i].name@, class_schema(ir.classes@[i])));
    }
}

} // verus!
