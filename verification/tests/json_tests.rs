use hobbes::json::{JsonValue, json_text, parse_json, rename_input_schema, sanitize_tool_schema,
    strip_keys, jv_clone, get_field};

fn obj(entries: Vec<(&str, JsonValue)>) -> JsonValue {
    JsonValue::Obj(entries.into_iter().map(|(k, v)| (k.to_string(), v)).collect())
}

fn s(text: &str) -> JsonValue {
    JsonValue::Str(text.to_string())
}

fn n(text: &str) -> JsonValue {
    JsonValue::Num(text.to_string())
}

#[test]
fn test_recursively_remove_keys() {
    let mut_value = obj(vec![
        (
            "level1",
            obj(vec![
                ("exclusiveMaximum", n("100")),
                ("level2", obj(vec![("exclusiveMinimum", n("0")), ("keep", s("this"))])),
                ("another_key", s("value")),
            ]),
        ),
        (
            "level1_array",
            JsonValue::Arr(vec![
                obj(vec![("exclusiveMaximum", n("50")), ("data", s("A"))]),
                obj(vec![("exclusiveMinimum", n("5")), ("data", s("B"))]),
            ]),
        ),
    ]);

    let keys_to_remove = vec!["exclusiveMaximum".to_string(), "exclusiveMinimum".to_string()];
    let value = strip_keys(&mut_value, &keys_to_remove);

    let expected = obj(vec![
        (
            "level1",
            obj(vec![
                ("level2", obj(vec![("keep", s("this"))])),
                ("another_key", s("value")),
            ]),
        ),
        (
            "level1_array",
            JsonValue::Arr(vec![obj(vec![("data", s("A"))]), obj(vec![("data", s("B"))])]),
        ),
    ]);

    assert_eq!(value, expected);
}

#[test]
fn sanitizer_renames_and_strips() {
    let tool = obj(vec![
        ("name", s("get_weather")),
        (
            "inputSchema",
            obj(vec![
                ("$schema", s("http://json-schema.org/draft-07/schema#")),
                ("type", s("object")),
                ("additionalProperties", JsonValue::Bool(false)),
                (
                    "properties",
                    obj(vec![(
                        "location",
                        obj(vec![("type", s("string")), ("exclusiveMaximum", n("100"))]),
                    )]),
                ),
            ]),
        ),
    ]);
    let sanitized = sanitize_tool_schema(tool);
    let expected = obj(vec![
        ("name", s("get_weather")),
        (
            "parameters",
            obj(vec![
                ("type", s("object")),
                ("properties", obj(vec![("location", obj(vec![("type", s("string"))]))])),
            ]),
        ),
    ]);
    assert_eq!(sanitized, expected);
}

#[test]
fn sanitizer_is_idempotent_on_a_sample() {
    let tool = obj(vec![
        ("inputSchema", obj(vec![("outputSchema", s("x")), ("keep", n("1"))])),
        ("description", s("d")),
    ]);
    let once = sanitize_tool_schema(jv_clone(&tool));
    let twice = sanitize_tool_schema(jv_clone(&once));
    assert_eq!(once, twice);
    // And once is not the input: the schema entry moved and was stripped.
    assert_ne!(once, tool);
}

#[test]
fn rename_moves_the_schema_entry_to_the_end() {
    let v = obj(vec![("inputSchema", n("1")), ("z", n("2"))]);
    let renamed = rename_input_schema(v);
    let expected = obj(vec![("z", n("2")), ("parameters", n("1"))]);
    assert_eq!(renamed, expected);
}

#[test]
fn serializer_writes_compact_json_with_escapes() {
    let v = obj(vec![
        ("a", JsonValue::Arr(vec![JsonValue::Null, JsonValue::Bool(true), n("42")])),
        ("b", s("line\nwith \"quotes\" and \\slash")),
    ]);
    assert_eq!(
        json_text(&v),
        "{\"a\":[null,true,42],\"b\":\"line\\nwith \\\"quotes\\\" and \\\\slash\"}"
    );
}

#[test]
fn parser_reads_json_into_the_library_tree() {
    let v = parse_json("{\"a\": 1, \"b\": [true, null, \"x\"]}").expect("should parse");
    let expected = obj(vec![
        ("a", n("1")),
        ("b", JsonValue::Arr(vec![JsonValue::Bool(true), JsonValue::Null, s("x")])),
    ]);
    assert_eq!(v, expected);
    assert!(parse_json("{nope").is_none());
}

#[test]
fn field_lookup_finds_the_first_entry() {
    let v = obj(vec![("k", n("1")), ("k", n("2")), ("other", n("3"))]);
    let got = get_field(&v, &"k".to_string()).expect("present");
    assert_eq!(*got, n("1"));
    assert!(get_field(&v, &"missing".to_string()).is_none());
}
