use wiki_storage::ingredient::{VanillaIngredient, VanillaIngredientList};
use wiki_storage::json::{JsonNumber, JsonValue};

#[allow(dead_code)]
fn float_text(f: f64) -> String {
    let s = format!("{}", f);
    if f.is_finite() && !s.contains('.') {
        format!("{}.0", s)
    } else {
        s
    }
}

#[allow(dead_code)]
fn to_json(v: &serde_json::Value) -> JsonValue {
    match v {
        serde_json::Value::Null => JsonValue::Null,
        serde_json::Value::Bool(b) => JsonValue::Bool(*b),
        serde_json::Value::Number(n) => {
            if let Some(u) = n.as_u64() {
                JsonValue::Number(JsonNumber::PosInt(u))
            } else if let Some(i) = n.as_i64() {
                JsonValue::Number(JsonNumber::NegInt(i))
            } else {
                JsonValue::Number(JsonNumber::Float(float_text(n.as_f64().unwrap_or(0.0))))
            }
        }
        serde_json::Value::String(s) => JsonValue::String(s.clone()),
        serde_json::Value::Array(a) => JsonValue::Array(a.iter().map(to_json).collect()),
        serde_json::Value::Object(m) => {
            JsonValue::Object(m.iter().map(|(k, v)| (k.clone(), to_json(v))).collect())
        }
    }
}

#[allow(dead_code)]
fn parse_json(text: &str) -> JsonValue {
    let value: serde_json::Value = serde_json::from_str(text).expect("test input must be valid JSON");
    to_json(&value)
}

#[allow(dead_code)]
fn item(id: &str) -> VanillaIngredient {
    VanillaIngredient::Item(id.to_owned())
}

#[allow(dead_code)]
fn tag(id: &str) -> VanillaIngredient {
    VanillaIngredient::Tag(id.to_owned())
}

#[allow(dead_code)]
fn ingredients(json: &str) -> Vec<VanillaIngredient> {
    match VanillaIngredientList::from_json(&parse_json(json)) {
        Ok(list) => list.0,
        Err(e) => panic!("expected ingredient to parse, got error: {}\ninput: {json}", e.message()),
    }
}

#[allow(dead_code)]
fn ingredient_error(json: &str) -> String {
    match VanillaIngredientList::from_json(&parse_json(json)) {
        Ok(list) => panic!("expected ingredient to fail, got: {:?}\ninput: {json}", list.0),
        Err(e) => e.message(),
    }
}

#[test]
fn flattens_all_ingredients() {
    // language=json
    let json = r##"{
        "fabric:type": "fabric:any",
        "ingredients": ["minecraft:a", "#minecraft:b"]
    }"##;
    assert_eq!(
        ingredients(json),
        vec![item("minecraft:a"), tag("minecraft:b")]
    );
}

#[test]
fn single_ingredient() {
    // language=json
    let json = r#"{
        "fabric:type": "fabric:any",
        "ingredients": ["minecraft:a"]
    }"#;
    assert_eq!(ingredients(json), vec![item("minecraft:a")]);
}

#[test]
fn nested_arrays_and_custom_ingredients() {
    // language=json
    let json = r#"{
        "fabric:type": "fabric:any",
        "ingredients": [
            "minecraft:a",
            ["minecraft:b", "minecraft:c"],
            {
                "fabric:type": "fabric:components",
                "base": "minecraft:d",
                "components": {
                    "minecraft:damage": 1
                }
            },
            {
                "fabric:type": "fabric:any",
                "ingredients": ["minecraft:e"]
            }
        ]
    }"#;
    assert_eq!(
        ingredients(json),
        vec![
            item("minecraft:a"),
            item("minecraft:b"),
            item("minecraft:c"),
            item("minecraft:d"),
            item("minecraft:e")
        ]
    );
}

#[test]
fn empty_ingredients_is_rejected() {
    // language=json
    let json = r#"{
        "fabric:type": "fabric:any",
        "ingredients": []
    }"#;
    let err = ingredient_error(json);
    assert!(err.contains("at least one child"), "{err}");
}

#[test]
fn missing_ingredients_is_rejected() {
    // language=json
    let json = r#"{
        "fabric:type": "fabric:any"
    }"#;
    let err = ingredient_error(json);
    assert!(err.contains("ingredients"), "{err}");
}

#[test]
fn children_alias_is_not_accepted() {
    // language=json
    let json = r#"{
        "fabric:type": "fabric:any",
        "children": ["minecraft:a"]
    }"#;
    let err = ingredient_error(json);
    assert!(err.contains("ingredients"), "{err}");
}

#[test]
fn ingredients_must_be_array() {
    // language=json
    let json = r#"{
        "fabric:type": "fabric:any",
        "ingredients": "minecraft:a"
    }"#;
    ingredient_error(json);
}

#[test]
fn invalid_entry_is_rejected() {
    // language=json
    let json = r#"{
        "fabric:type": "fabric:any",
        "ingredients": [
            "minecraft:a",
            {
                "nope": 1
            }
        ]
    }"#;
    ingredient_error(json);
}

#[test]
fn legacy_format_with_objects() {
    // language=json
    let json = r#"{
        "fabric:type": "fabric:any",
        "ingredients": [
            {
                "item": "minecraft:a"
            },
            {
                "tag": "minecraft:b"
            }
        ]
    }"#;
    assert_eq!(
        ingredients(json),
        vec![item("minecraft:a"), tag("minecraft:b")]
    );
}

#[test]
fn uses_first_ingredient_only() {
    // language=json
    let json = r##"{
        "fabric:type": "fabric:all",
        "ingredients": ["#minecraft:a", "#minecraft:b"]
    }"##;
    assert_eq!(ingredients(json), vec![tag("minecraft:a")]);
}

#[test]
fn fabric_single_ingredient() {
    // language=json
    let json = r#"{
        "fabric:type": "fabric:all",
        "ingredients": ["minecraft:a"]
    }"#;
    assert_eq!(ingredients(json), vec![item("minecraft:a")]);
}

#[test]
fn first_ingredient_array_is_kept_whole() {
    // language=json
    let json = r#"{
        "fabric:type": "fabric:all",
        "ingredients": [
            ["minecraft:a", "minecraft:b"],
            "minecraft:c"
        ]
    }"#;
    assert_eq!(
        ingredients(json),
        vec![item("minecraft:a"), item("minecraft:b")]
    );
}

#[test]
fn first_ingredient_any_is_kept_whole() {
    // language=json
    let json = r#"{
        "fabric:type": "fabric:all",
        "ingredients": [
            {
                "fabric:type": "fabric:any",
                "ingredients": ["minecraft:a", "minecraft:b"]
            },
            "minecraft:c"
        ]
    }"#;
    assert_eq!(
        ingredients(json),
        vec![item("minecraft:a"), item("minecraft:b")]
    );
}

#[test]
fn fabric_empty_ingredients_is_rejected() {
    // language=json
    let json = r#"{
        "fabric:type": "fabric:all",
        "ingredients": []
    }"#;
    let err = ingredient_error(json);
    assert!(err.contains("at least one child"), "{err}");
}

#[test]
fn empty_first_ingredient_is_rejected() {
    // language=json
    let json = r#"{
        "fabric:type": "fabric:all",
        "ingredients": [
            [],
            "minecraft:a"
        ]
    }"#;
    let err = ingredient_error(json);
    assert!(err.contains("at least one child"), "{err}");
}

#[test]
fn fabric_missing_ingredients_is_rejected() {
    // language=json
    let json = r#"{
        "fabric:type": "fabric:all"
    }"#;
    let err = ingredient_error(json);
    assert!(err.contains("ingredients"), "{err}");
}

#[test]
fn later_invalid_ingredients_are_still_validated() {
    // language=json
    let json = r#"{
        "fabric:type": "fabric:all",
        "ingredients": ["minecraft:a", 5]
    }"#;
    ingredient_error(json);
}

#[test]
fn fabric_legacy_format_with_objects() {
    // language=json
    let json = r#"{
        "fabric:type": "fabric:all",
        "ingredients": [
            {
                "tag": "minecraft:a"
            },
            {
                "tag": "minecraft:b"
            }
        ]
    }"#;
    assert_eq!(ingredients(json), vec![tag("minecraft:a")]);
}

#[test]
fn uses_base() {
    // language=json
    let json = r#"{
        "fabric:type": "fabric:components",
        "base": "minecraft:a",
        "components": {
            "minecraft:damage": 1
        }
    }"#;
    assert_eq!(ingredients(json), vec![item("minecraft:a")]);
}

#[test]
fn base_list_and_tag() {
    // language=json
    let json = r##"{
        "fabric:type": "fabric:components",
        "base": ["minecraft:a", "#minecraft:b"],
        "components": {}
    }"##;
    assert_eq!(
        ingredients(json),
        vec![item("minecraft:a"), tag("minecraft:b")]
    );
}

#[test]
fn components_are_not_validated() {
    // language=json
    let json = r#"{
        "fabric:type": "fabric:components",
        "base": "minecraft:a"
    }"#;
    assert_eq!(ingredients(json), vec![item("minecraft:a")]);
    // language=json
    let json = r#"{
        "fabric:type": "fabric:components",
        "base": "minecraft:a",
        "components": 5
    }"#;
    assert_eq!(ingredients(json), vec![item("minecraft:a")]);
}

#[test]
fn fabric_missing_base_is_rejected() {
    // language=json
    let json = r#"{
        "fabric:type": "fabric:components",
        "components": {}
    }"#;
    let err = ingredient_error(json);
    assert!(err.contains("base"), "{err}");
}

#[test]
fn legacy_format_with_object_base() {
    // language=json
    let json = r#"{
        "fabric:type": "fabric:components",
        "base": {
            "item": "minecraft:a"
        },
        "components": {
            "minecraft:damage": 1
        }
    }"#;
    assert_eq!(ingredients(json), vec![item("minecraft:a")]);
}

#[test]
fn uses_base_and_ignores_nbt_string() {
    // language=json
    let json = r#"{
        "fabric:type": "fabric:custom_data",
        "base": "minecraft:a",
        "nbt": "{foo:1b}"
    }"#;
    assert_eq!(ingredients(json), vec![item("minecraft:a")]);
}

#[test]
fn ignores_nbt_object() {
    // language=json
    let json = r#"{
        "fabric:type": "fabric:custom_data",
        "base": "minecraft:a",
        "nbt": {
            "foo": 1
        }
    }"#;
    assert_eq!(ingredients(json), vec![item("minecraft:a")]);
}

#[test]
fn fabric_custom_data_missing_base_is_rejected() {
    // language=json
    let json = r#"{
        "fabric:type": "fabric:custom_data",
        "nbt": "{}"
    }"#;
    let err = ingredient_error(json);
    assert!(err.contains("base"), "{err}");
}

#[test]
fn fabric_legacy_format_with_object_base() {
    // language=json
    let json = r#"{
        "fabric:type": "fabric:custom_data",
        "base": {
            "tag": "minecraft:a"
        },
        "nbt": "{foo:1b}"
    }"#;
    assert_eq!(ingredients(json), vec![tag("minecraft:a")]);
}

#[test]
fn fabric_uses_base_only() {
    // language=json
    let json = r##"{
        "fabric:type": "fabric:difference",
        "base": "#minecraft:a",
        "subtracted": "#minecraft:b"
    }"##;
    assert_eq!(ingredients(json), vec![tag("minecraft:a")]);
}

#[test]
fn fabric_base_custom_ingredient() {
    // language=json
    let json = r#"{
        "fabric:type": "fabric:difference",
        "base": {
            "fabric:type": "fabric:any",
            "ingredients": ["minecraft:a", "minecraft:b"]
        },
        "subtracted": "minecraft:b"
    }"#;
    assert_eq!(
        ingredients(json),
        vec![item("minecraft:a"), item("minecraft:b")]
    );
}

#[test]
fn fabric_difference_missing_base_is_rejected() {
    // language=json
    let json = r#"{
        "fabric:type": "fabric:difference",
        "subtracted": "minecraft:a"
    }"#;
    let err = ingredient_error(json);
    assert!(err.contains("base"), "{err}");
}

#[test]
fn fabric_difference_legacy_format_with_objects() {
    // language=json
    let json = r#"{
        "fabric:type": "fabric:difference",
        "base": {
            "tag": "minecraft:a"
        },
        "subtracted": {
            "tag": "minecraft:b"
        }
    }"#;
    assert_eq!(ingredients(json), vec![tag("minecraft:a")]);
}

#[test]
fn fabric_type_key_wins_over_type() {
    // language=json
    let json = r#"{
        "fabric:type": "fabric:difference",
        "type": "fabric:any",
        "base": "minecraft:a",
        "ingredients": ["minecraft:b"]
    }"#;
    assert_eq!(ingredients(json), vec![item("minecraft:a")]);
}

#[test]
fn fabric_types_also_resolve_under_plain_type_key() {
    // language=json
    let json = r#"{
        "type": "fabric:any",
        "ingredients": ["minecraft:a"]
    }"#;
    assert_eq!(ingredients(json), vec![item("minecraft:a")]);
}

#[test]
fn unknown_fabric_type_is_rejected() {
    // language=json
    let json = r#"{
        "fabric:type": "fabric:nbt",
        "base": "minecraft:a"
    }"#;
    let err = ingredient_error(json);
    assert!(err.contains("fabric:nbt"), "{err}");
}
