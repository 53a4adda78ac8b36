use wiki_storage::ingredient::{VanillaIngredient, VanillaIngredientList};
use wiki_storage::json::{JsonNumber, JsonValue};

#[allow(dead_code)]
fn float_text(f: f64) -> String {
    let s = format!("{}", f);
    if f.is_finite() && !s.contains('.') {
        format!("{}.0", s)
    } else {
        s
    }
}

#[allow(dead_code)]
fn to_json(v: &serde_json::Value) -> JsonValue {
    match v {
        serde_json::Value::Null => JsonValue::Null,
        serde_json::Value::Bool(b) => JsonValue::Bool(*b),
        serde_json::Value::Number(n) => {
            if let Some(u) = n.as_u64() {
                JsonValue::Number(JsonNumber::PosInt(u))
            } else if let Some(i) = n.as_i64() {
                JsonValue::Number(JsonNumber::NegInt(i))
            } else {
                JsonValue::Number(JsonNumber::Float(float_text(n.as_f64().unwrap_or(0.0))))
            }
        }
        serde_json::Value::String(s) => JsonValue::String(s.clone()),
        serde_json::Value::Array(a) => JsonValue::Array(a.iter().map(to_json).collect()),
        serde_json::Value::Object(m) => {
            JsonValue::Object(m.iter().map(|(k, v)| (k.clone(), to_json(v))).collect())
        }
    }
}

#[allow(dead_code)]
fn parse_json(text: &str) -> JsonValue {
    let value: serde_json::Value = serde_json::from_str(text).expect("test input must be valid JSON");
    to_json(&value)
}

#[allow(dead_code)]
fn item(id: &str) -> VanillaIngredient {
    VanillaIngredient::Item(id.to_owned())
}

#[allow(dead_code)]
fn tag(id: &str) -> VanillaIngredient {
    VanillaIngredient::Tag(id.to_owned())
}

#[allow(dead_code)]
fn ingredients(json: &str) -> Vec<VanillaIngredient> {
    match VanillaIngredientList::from_json(&parse_json(json)) {
        Ok(list) => list.0,
        Err(e) => panic!("expected ingredient to parse, got error: {}\ninput: {json}", e.message()),
    }
}

#[allow(dead_code)]
fn ingredient_error(json: &str) -> String {
    match VanillaIngredientList::from_json(&parse_json(json)) {
        Ok(list) => panic!("expected ingredient to fail, got: {:?}\ninput: {json}", list.0),
        Err(e) => e.message(),
    }
}

#[test]
fn string_item() {
    // language=json
    let json = r#""minecraft:stone""#;
    assert_eq!(ingredients(json), vec![item("minecraft:stone")]);
}

#[test]
fn string_tag() {
    // language=json
    let json = r##""#minecraft:logs""##;
    assert_eq!(ingredients(json), vec![tag("minecraft:logs")]);
}

#[test]
fn string_without_namespace_is_kept_verbatim() {
    // language=json
    let json = r#""stone""#;
    assert_eq!(ingredients(json), vec![item("stone")]);
    // language=json
    let json = r##""#logs""##;
    assert_eq!(ingredients(json), vec![tag("logs")]);
}

#[test]
fn hash_inside_string_does_not_make_a_tag() {
    // language=json
    let json = r#""minecraft:a#b""#;
    assert_eq!(ingredients(json), vec![item("minecraft:a#b")]);
}

#[test]
fn only_leading_hash_is_stripped() {
    // language=json
    let json = r###""##minecraft:logs""###;
    assert_eq!(ingredients(json), vec![tag("#minecraft:logs")]);
}

#[test]
fn object_item() {
    // language=json
    let json = r#"{
        "item": "minecraft:stone"
    }"#;
    assert_eq!(ingredients(json), vec![item("minecraft:stone")]);
}

#[test]
fn object_tag() {
    // language=json
    let json = r#"{
        "tag": "minecraft:logs"
    }"#;
    assert_eq!(ingredients(json), vec![tag("minecraft:logs")]);
}

#[test]
fn object_tag_value_is_not_hash_stripped() {
    // language=json
    let json = r##"{
        "tag": "#minecraft:logs"
    }"##;
    assert_eq!(ingredients(json), vec![tag("#minecraft:logs")]);
}

#[test]
fn object_with_item_and_tag_prefers_item() {
    // language=json
    let json = r#"{
        "item": "minecraft:stone",
        "tag": "minecraft:logs"
    }"#;
    assert_eq!(ingredients(json), vec![item("minecraft:stone")]);
}

#[test]
fn object_extra_fields_are_ignored() {
    // language=json
    let json = r#"{
        "item": "minecraft:stone",
        "count": 4,
        "nbt": {
            "a": 1
        }
    }"#;
    assert_eq!(ingredients(json), vec![item("minecraft:stone")]);
}

#[test]
fn object_item_must_be_string() {
    // language=json
    let json = r#"{
        "item": 5
    }"#;
    let err = ingredient_error(json);
    assert!(err.contains("string"), "{err}");
}

#[test]
fn object_tag_must_be_string() {
    // language=json
    let json = r#"{
        "tag": ["minecraft:logs"]
    }"#;
    let err = ingredient_error(json);
    assert!(err.contains("string"), "{err}");
}

#[test]
fn object_item_null_is_rejected() {
    // language=json
    let json = r#"{
        "item": null
    }"#;
    let err = ingredient_error(json);
    assert!(err.contains("string"), "{err}");
}

#[test]
fn empty_object_is_rejected() {
    let err = ingredient_error("{}");
    assert!(err.contains("'item'"), "{err}");
    assert!(err.contains("'tag'"), "{err}");
}

#[test]
fn object_without_known_fields_is_rejected() {
    // language=json
    let json = r#"{
        "id": "minecraft:stone"
    }"#;
    let err = ingredient_error(json);
    assert!(err.contains("'item'"), "{err}");
}

#[test]
fn empty_array_yields_no_ingredients() {
    assert_eq!(ingredients("[]"), vec![]);
}

#[test]
fn array_of_strings() {
    // language=json
    let json = r##"["minecraft:stone", "#minecraft:logs"]"##;
    assert_eq!(
        ingredients(json),
        vec![item("minecraft:stone"), tag("minecraft:logs")]
    );
}

#[test]
fn array_of_objects() {
    // language=json
    let json = r#"[
        {
            "item": "minecraft:stone"
        },
        {
            "tag": "minecraft:logs"
        }
    ]"#;
    assert_eq!(
        ingredients(json),
        vec![item("minecraft:stone"), tag("minecraft:logs")]
    );
}

#[test]
fn array_of_mixed_forms() {
    // language=json
    let json = r##"[
        "minecraft:a",
        {
            "item": "minecraft:b"
        },
        "#minecraft:c",
        {
            "tag": "minecraft:d"
        }
    ]"##;
    assert_eq!(
        ingredients(json),
        vec![
            item("minecraft:a"),
            item("minecraft:b"),
            tag("minecraft:c"),
            tag("minecraft:d")
        ]
    );
}

#[test]
fn nested_arrays_are_flattened_in_order() {
    // language=json
    let json = r#"[
        "minecraft:a",
        [
            "minecraft:b",
            ["minecraft:c"]
        ],
        "minecraft:d"
    ]"#;
    assert_eq!(
        ingredients(json),
        vec![
            item("minecraft:a"),
            item("minecraft:b"),
            item("minecraft:c"),
            item("minecraft:d")
        ]
    );
}

#[test]
fn nested_empty_arrays_contribute_nothing() {
    // language=json
    let json = r#"[
        [],
        "minecraft:a",
        []
    ]"#;
    assert_eq!(ingredients(json), vec![item("minecraft:a")]);
}

#[test]
fn duplicates_are_preserved() {
    // language=json
    let json = r#"["minecraft:a", "minecraft:a"]"#;
    assert_eq!(
        ingredients(json),
        vec![item("minecraft:a"), item("minecraft:a")]
    );
}

#[test]
fn array_with_invalid_element_is_rejected() {
    // language=json
    let json = r#"["minecraft:a", 5]"#;
    ingredient_error(json);
    // language=json
    let json = r#"[
        "minecraft:a",
        {}
    ]"#;
    ingredient_error(json);
    // language=json
    let json = r#"["minecraft:a", null]"#;
    ingredient_error(json);
}

#[test]
fn scalar_non_strings_are_rejected() {
    ingredient_error("5");
    ingredient_error("true");
    ingredient_error("null");
    ingredient_error("1.5");
}

#[test]
fn non_string_type_key_is_ignored() {
    // language=json
    let json = r#"{
        "type": 5,
        "item": "minecraft:stone"
    }"#;
    assert_eq!(ingredients(json), vec![item("minecraft:stone")]);
    // language=json
    let json = r#"{
        "type": null,
        "tag": "minecraft:logs"
    }"#;
    assert_eq!(ingredients(json), vec![tag("minecraft:logs")]);
}

#[test]
fn unknown_type_key_value_is_rejected_even_with_item() {
    // language=json
    let json = r#"{
        "type": "somemod:special",
        "item": "minecraft:stone"
    }"#;
    let err = ingredient_error(json);
    assert!(err.contains("somemod:special"), "{err}");
}

#[test]
fn unknown_ingredient_type_error_names_the_type() {
    // language=json
    let json = r#"{
        "type": "somemod:special"
    }"#;
    let err = ingredient_error(json);
    assert!(err.contains("unknown custom ingredient type"), "{err}");
    assert!(err.contains("somemod:special"), "{err}");
}

#[test]
fn builtin_type_under_wrong_loader_key_still_resolves() {
    // language=json
    let json = r#"{
        "fabric:type": "neoforge:difference",
        "base": "minecraft:a",
        "subtracted": "minecraft:b"
    }"#;
    assert_eq!(ingredients(json), vec![item("minecraft:a")]);
    // language=json
    let json = r#"{
        "neoforge:ingredient_type": "fabric:any",
        "ingredients": ["minecraft:a"]
    }"#;
    assert_eq!(ingredients(json), vec![item("minecraft:a")]);
}
