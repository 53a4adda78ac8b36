use wiki_storage::ingredient::StubRecipeIngredient;
use wiki_storage::issues::{FileIssues, ProjectError, ProjectIssue};
use wiki_storage::json::{JsonNumber, JsonValue};
use wiki_storage::recipe::{RecipeParseError, StubRecipe, default_registry};

#[allow(dead_code)]
fn float_text(f: f64) -> String {
    let s = format!("{}", f);
    if f.is_finite() && !s.contains('.') {
        format!("{}.0", s)
    } else {
        s
    }
}

#[allow(dead_code)]
fn to_json(v: &serde_json::Value) -> JsonValue {
    match v {
        serde_json::Value::Null => JsonValue::Null,
        serde_json::Value::Bool(b) => JsonValue::Bool(*b),
        serde_json::Value::Number(n) => {
            if let Some(u) = n.as_u64() {
                JsonValue::Number(JsonNumber::PosInt(u))
            } else if let Some(i) = n.as_i64() {
                JsonValue::Number(JsonNumber::NegInt(i))
            } else {
                JsonValue::Number(JsonNumber::Float(float_text(n.as_f64().unwrap_or(0.0))))
            }
        }
        serde_json::Value::String(s) => JsonValue::String(s.clone()),
        serde_json::Value::Array(a) => JsonValue::Array(a.iter().map(to_json).collect()),
        serde_json::Value::Object(m) => {
            JsonValue::Object(m.iter().map(|(k, v)| (k.clone(), to_json(v))).collect())
        }
    }
}

#[allow(dead_code)]
fn parse_json(text: &str) -> JsonValue {
    let value: serde_json::Value = serde_json::from_str(text).expect("test input must be valid JSON");
    to_json(&value)
}

#[allow(dead_code)]
fn stub(item_id: &str, slot: &str, count: i32, input: bool, is_tag: bool) -> StubRecipeIngredient {
    StubRecipeIngredient {
        item_id: item_id.to_owned(),
        slot: slot.to_owned(),
        count,
        input,
        is_tag,
    }
}

#[allow(dead_code)]
fn input(item_id: &str, slot: &str) -> StubRecipeIngredient {
    stub(item_id, slot, 1, true, false)
}

#[allow(dead_code)]
fn input_tag(tag_id: &str, slot: &str) -> StubRecipeIngredient {
    stub(tag_id, slot, 1, true, true)
}

#[allow(dead_code)]
fn output(item_id: &str, slot: &str, count: i32) -> StubRecipeIngredient {
    stub(item_id, slot, count, false, false)
}

#[allow(dead_code)]
struct ParsedRecipe {
    result: Result<Option<StubRecipe>, RecipeParseError>,
    issues: Vec<ProjectIssue>,
}

#[allow(dead_code)]
impl ParsedRecipe {
    fn recipe(self) -> StubRecipe {
        match self.result {
            Ok(Some(r)) => r,
            Ok(None) => panic!("recipe was skipped, issues: {:?}", self.issues),
            Err(e) => panic!("recipe failed to parse: {}\nissues: {:?}", e.to_string(), self.issues),
        }
    }

    fn error(self) -> RecipeParseError {
        match self.result {
            Ok(r) => panic!("expected recipe to fail, got: {r:?}"),
            Err(e) => e,
        }
    }

    fn skipped(self) -> Vec<ProjectIssue> {
        match self.result {
            Ok(None) => self.issues,
            other => panic!("expected recipe to be skipped, got: {other:?}"),
        }
    }

    fn subjects(&self) -> Vec<ProjectError> {
        self.issues.iter().map(|i| i.subject).collect()
    }
}

#[allow(dead_code)]
fn parse_recipe(id: &str, json: &str) -> ParsedRecipe {
    let value = parse_json(json);
    let mut issues = FileIssues::new(format!("{id}.json"));
    let result = default_registry().parse_recipe(id, &value, &mut issues);
    ParsedRecipe {
        result,
        issues: issues.issues,
    }
}

#[test]
fn string_ids_and_slot_names() {
    // language=json
    let json = r##"{
        "type": "somemod:machine",
        "input": {
            "left": "minecraft:a",
            "right": "#minecraft:b"
        },
        "output": {
            "out": "minecraft:c"
        }
    }"##;
    let recipe = parse_recipe("test:custom", json).recipe();

    assert_eq!(recipe.recipe_type, "somemod:machine");
    assert_eq!(
        recipe.ingredients,
        vec![
            stub("minecraft:a", "left", 1, true, false),
            stub("minecraft:b", "right", 1, true, true),
            stub("minecraft:c", "out", 1, false, false),
        ]
    );
}

#[test]
fn list_of_ids_expands_into_one_slot() {
    // language=json
    let json = r##"{
        "type": "somemod:machine",
        "input": {
            "1": ["minecraft:a", "#minecraft:b"]
        },
        "output": {}
    }"##;
    let recipe = parse_recipe("test:custom", json).recipe();

    assert_eq!(
        recipe.ingredients,
        vec![
            stub("minecraft:a", "1", 1, true, false),
            stub("minecraft:b", "1", 1, true, true),
        ]
    );
}

#[test]
fn object_with_id_and_count() {
    // language=json
    let json = r##"{
        "type": "somemod:machine",
        "input": {
            "1": {
                "id": "minecraft:a",
                "count": 3
            }
        },
        "output": {
            "1": {
                "id": "#minecraft:b",
                "count": 7
            },
            "2": {
                "id": "minecraft:c"
            }
        }
    }"##;
    let recipe = parse_recipe("test:custom", json).recipe();

    assert_eq!(
        recipe.ingredients,
        vec![
            stub("minecraft:a", "1", 3, true, false),
            stub("minecraft:b", "1", 7, false, true),
            stub("minecraft:c", "2", 1, false, false),
        ]
    );
}

#[test]
fn object_with_id_list_shares_count() {
    // language=json
    let json = r##"{
        "type": "somemod:machine",
        "input": {
            "1": {
                "id": ["minecraft:a", "#minecraft:b"],
                "count": 2
            }
        },
        "output": {}
    }"##;
    let recipe = parse_recipe("test:custom", json).recipe();

    assert_eq!(
        recipe.ingredients,
        vec![
            stub("minecraft:a", "1", 2, true, false),
            stub("minecraft:b", "1", 2, true, true),
        ]
    );
}

#[test]
fn slots_are_emitted_in_sorted_order() {
    // language=json
    let json = r#"{
        "type": "somemod:machine",
        "input": {
            "b": "minecraft:b",
            "a": "minecraft:a",
            "10": "minecraft:ten",
            "2": "minecraft:two"
        },
        "output": {}
    }"#;
    let recipe = parse_recipe("test:custom", json).recipe();

    let slots: Vec<&str> = recipe.ingredients.iter().map(|i| i.slot.as_str()).collect();
    assert_eq!(slots, vec!["10", "2", "a", "b"]);
}

#[test]
fn missing_input_and_output_default_to_empty() {
    // language=json
    let json = r#"{
        "type": "somemod:machine"
    }"#;
    let recipe = parse_recipe("test:custom", json).recipe();
    assert_eq!(recipe.ingredients, vec![]);

    // language=json
    let json = r#"{
        "type": "somemod:machine",
        "input": {},
        "output": {}
    }"#;
    let recipe = parse_recipe("test:custom", json).recipe();
    assert_eq!(recipe.ingredients, vec![]);
}

#[test]
fn extra_fields_are_ignored() {
    // language=json
    let json = r#"{
        "type": "somemod:machine",
        "energy": 4000,
        "input": {
            "1": "minecraft:a"
        },
        "output": {
            "1": {
                "id": "minecraft:b",
                "chance": 0.5
            }
        }
    }"#;
    let recipe = parse_recipe("test:custom", json).recipe();
    assert_eq!(recipe.ingredients.len(), 2);
}

#[test]
fn any_non_minecraft_namespace_is_handled() {
    // language=json
    let template = r#"{
        "type": "$TYPE",
        "input": {
            "1": "minecraft:a"
        }
    }"#;
    for ty in [
        "somemod:x",
        "a-b_c.d:thing/sub",
        "fabric:foo",
        "neoforge:foo",
    ] {
        let json = template.replace("$TYPE", ty);
        let recipe = parse_recipe("test:custom", &json).recipe();
        assert_eq!(recipe.recipe_type, ty);
    }
}

#[test]
fn loader_ingredient_objects_are_not_accepted_in_custom_recipes() {
    // language=json
    let json = r#"{
        "type": "somemod:machine",
        "input": {
            "1": {
                "neoforge:ingredient_type": "neoforge:compound",
                "children": ["minecraft:a"]
            }
        }
    }"#;
    let err = parse_recipe("test:custom", json).error();
    assert!(matches!(err, RecipeParseError::InvalidJsonPath(_)), "{err:?}");
    assert!(err.to_string().contains("id"), "{err:?}");
}

#[test]
fn vanilla_item_tag_objects_are_not_accepted_in_custom_recipes() {
    // language=json
    let json = r#"{
        "type": "somemod:machine",
        "input": {
            "1": {
                "item": "minecraft:a"
            }
        }
    }"#;
    let err = parse_recipe("test:custom", json).error();
    assert!(err.to_string().contains("id"), "{err:?}");
}

#[test]
fn invalid_count_type_is_rejected() {
    // language=json
    let json = r#"{
        "type": "somemod:machine",
        "input": {
            "1": {
                "id": "minecraft:a",
                "count": "3"
            }
        }
    }"#;
    let err = parse_recipe("test:custom", json).error();
    assert!(err.to_string().contains("count"), "{err:?}");
}

#[test]
fn invalid_id_list_entry_is_rejected() {
    // language=json
    let json = r#"{
        "type": "somemod:machine",
        "input": {
            "1": ["minecraft:a", 5]
        }
    }"#;
    parse_recipe("test:custom", json).error();
    // language=json
    let json = r#"{
        "type": "somemod:machine",
        "input": {
            "1": {
                "id": [
                    {
                        "id": "minecraft:a"
                    }
                ]
            }
        }
    }"#;
    parse_recipe("test:custom", json).error();
}

#[test]
fn input_must_be_an_object() {
    // language=json
    let json = r#"{
        "type": "somemod:machine",
        "input": ["minecraft:a"]
    }"#;
    let err = parse_recipe("test:custom", json).error();
    assert!(err.to_string().contains("input"), "{err:?}");
}

#[test]
fn scalar_ingredient_values_are_rejected() {
    // language=json
    let json = r#"{
        "type": "somemod:machine",
        "input": {
            "1": 5
        }
    }"#;
    parse_recipe("test:custom", json).error();
    // language=json
    let json = r#"{
        "type": "somemod:machine",
        "input": {
            "1": null
        }
    }"#;
    parse_recipe("test:custom", json).error();
}
