use wiki_storage::ingredient::StubRecipeIngredient;
use wiki_storage::issues::{FileIssues, ProjectError, ProjectIssue};
use wiki_storage::json::{JsonNumber, JsonValue};
use wiki_storage::recipe::{RecipeParseError, StubRecipe, default_registry};

#[allow(dead_code)]
fn float_text(f: f64) -> String {
    let s = format!("{}", f);
    if f.is_finite() && !s.contains('.') {
        format!("{}.0", s)
    } else {
        s
    }
}

#[allow(dead_code)]
fn to_json(v: &serde_json::Value) -> JsonValue {
    match v {
        serde_json::Value::Null => JsonValue::Null,
        serde_json::Value::Bool(b) => JsonValue::Bool(*b),
        serde_json::Value::Number(n) => {
            if let Some(u) = n.as_u64() {
                JsonValue::Number(JsonNumber::PosInt(u))
            } else if let Some(i) = n.as_i64() {
                JsonValue::Number(JsonNumber::NegInt(i))
            } else {
                JsonValue::Number(JsonNumber::Float(float_text(n.as_f64().unwrap_or(0.0))))
            }
        }
        serde_json::Value::String(s) => JsonValue::String(s.clone()),
        serde_json::Value::Array(a) => JsonValue::Array(a.iter().map(to_json).collect()),
        serde_json::Value::Object(m) => {
            JsonValue::Object(m.iter().map(|(k, v)| (k.clone(), to_json(v))).collect())
        }
    }
}

#[allow(dead_code)]
fn parse_json(text: &str) -> JsonValue {
    let value: serde_json::Value = serde_json::from_str(text).expect("test input must be valid JSON");
    to_json(&value)
}

#[allow(dead_code)]
fn stub(item_id: &str, slot: &str, count: i32, input: bool, is_tag: bool) -> StubRecipeIngredient {
    StubRecipeIngredient {
        item_id: item_id.to_owned(),
        slot: slot.to_owned(),
        count,
        input,
        is_tag,
    }
}

#[allow(dead_code)]
fn input(item_id: &str, slot: &str) -> StubRecipeIngredient {
    stub(item_id, slot, 1, true, false)
}

#[allow(dead_code)]
fn input_tag(tag_id: &str, slot: &str) -> StubRecipeIngredient {
    stub(tag_id, slot, 1, true, true)
}

#[allow(dead_code)]
fn output(item_id: &str, slot: &str, count: i32) -> StubRecipeIngredient {
    stub(item_id, slot, count, false, false)
}

#[allow(dead_code)]
struct ParsedRecipe {
    result: Result<Option<StubRecipe>, RecipeParseError>,
    issues: Vec<ProjectIssue>,
}

#[allow(dead_code)]
impl ParsedRecipe {
    fn recipe(self) -> StubRecipe {
        match self.result {
            Ok(Some(r)) => r,
            Ok(None) => panic!("recipe was skipped, issues: {:?}", self.issues),
            Err(e) => panic!("recipe failed to parse: {}\nissues: {:?}", e.to_string(), self.issues),
        }
    }

    fn error(self) -> RecipeParseError {
        match self.result {
            Ok(r) => panic!("expected recipe to fail, got: {r:?}"),
            Err(e) => e,
        }
    }

    fn skipped(self) -> Vec<ProjectIssue> {
        match self.result {
            Ok(None) => self.issues,
            other => panic!("expected recipe to be skipped, got: {other:?}"),
        }
    }

    fn subjects(&self) -> Vec<ProjectError> {
        self.issues.iter().map(|i| i.subject).collect()
    }
}

#[allow(dead_code)]
fn parse_recipe(id: &str, json: &str) -> ParsedRecipe {
    let value = parse_json(json);
    let mut issues = FileIssues::new(format!("{id}.json"));
    let result = default_registry().parse_recipe(id, &value, &mut issues);
    ParsedRecipe {
        result,
        issues: issues.issues,
    }
}

/// NeoForge's own test recipes, in the format of each game version the loader was released for.
fn fixture(rel: &str) -> &'static str {
    match rel {
        "recipes/neoforge/1.21.1/compound_ingredient_only_vanilla.json" => r#"{
            "type": "minecraft:crafting_shaped",
            "category": "misc",
            "key": {
                "X": {
                    "type": "neoforge:compound",
                    "children": [
                        { "tag": "minecraft:planks" },
                        { "tag": "minecraft:logs" },
                        { "item": "minecraft:bedrock" }
                    ]
                }
            },
            "pattern": ["XXX", " X "],
            "result": { "count": 1, "id": "minecraft:dirt" }
        }"#,
        "recipes/neoforge/1.21.x/compound_ingredient_only_vanilla.json" => r##"{
            "type": "minecraft:crafting_shaped",
            "category": "misc",
            "key": {
                "X": {
                    "neoforge:ingredient_type": "neoforge:compound",
                    "children": ["#minecraft:planks", "#minecraft:logs", "minecraft:bedrock"]
                }
            },
            "pattern": ["XXX", " X "],
            "result": { "count": 1, "id": "minecraft:dirt" }
        }"##,
        "recipes/neoforge/1.21.1/compound_ingredient_custom_types.json" => r#"{
            "type": "minecraft:crafting_shaped",
            "category": "misc",
            "key": {
                "X": {
                    "type": "neoforge:compound",
                    "children": [
                        {
                            "type": "neoforge:difference",
                            "base": { "tag": "minecraft:planks" },
                            "subtracted": { "item": "minecraft:oak_planks" }
                        },
                        {
                            "type": "neoforge:intersection",
                            "children": [
                                { "tag": "minecraft:logs" },
                                { "tag": "minecraft:logs_that_burn" }
                            ]
                        },
                        {
                            "type": "neoforge:components",
                            "items": "minecraft:stone_pickaxe",
                            "components": { "minecraft:damage": 3 },
                            "strict": false
                        }
                    ]
                }
            },
            "pattern": ["X", "X"],
            "result": { "count": 1, "id": "minecraft:gold_block" }
        }"#,
        "recipes/neoforge/1.21.x/compound_ingredient_custom_types.json" => r##"{
            "type": "minecraft:crafting_shaped",
            "category": "misc",
            "key": {
                "X": {
                    "neoforge:ingredient_type": "neoforge:compound",
                    "children": [
                        {
                            "neoforge:ingredient_type": "neoforge:difference",
                            "base": "#minecraft:planks",
                            "subtracted": "minecraft:oak_planks"
                        },
                        {
                            "neoforge:ingredient_type": "neoforge:intersection",
                            "children": ["#minecraft:logs", "#minecraft:logs_that_burn"]
                        },
                        {
                            "neoforge:ingredient_type": "neoforge:components",
                            "items": "minecraft:stone_pickaxe",
                            "components": { "minecraft:damage": 3 },
                            "strict": false
                        }
                    ]
                }
            },
            "pattern": ["X", "X"],
            "result": { "count": 1, "id": "minecraft:gold_block" }
        }"##,
        "recipes/neoforge/1.21.1/difference_ingredient.json" => r#"{
            "type": "minecraft:crafting_shaped",
            "category": "misc",
            "key": {
                "X": {
                    "type": "neoforge:difference",
                    "base": { "tag": "minecraft:fences" },
                    "subtracted": { "tag": "minecraft:wooden_fences" }
                }
            },
            "pattern": [" X ", "XXX", " X "],
            "result": { "count": 1, "id": "minecraft:flint_and_steel" }
        }"#,
        "recipes/neoforge/1.21.x/difference_ingredient.json" => r##"{
            "type": "minecraft:crafting_shaped",
            "category": "misc",
            "key": {
                "X": {
                    "neoforge:ingredient_type": "neoforge:difference",
                    "base": "#minecraft:fences",
                    "subtracted": "#minecraft:wooden_fences"
                }
            },
            "pattern": [" X ", "XXX", " X "],
            "result": { "count": 1, "id": "minecraft:flint_and_steel" }
        }"##,
        "recipes/neoforge/1.21.1/intersection_ingredient.json" => r#"{
            "type": "minecraft:crafting_shaped",
            "category": "misc",
            "key": {
                "X": {
                    "type": "neoforge:intersection",
                    "children": [
                        { "tag": "minecraft:planks" },
                        { "tag": "minecraft:non_flammable_wood" }
                    ]
                }
            },
            "pattern": ["XXX", "XXX", " X "],
            "result": { "count": 1, "id": "minecraft:netherrack" }
        }"#,
        "recipes/neoforge/1.21.x/intersection_ingredient.json" => r##"{
            "type": "minecraft:crafting_shaped",
            "category": "misc",
            "key": {
                "X": {
                    "neoforge:ingredient_type": "neoforge:intersection",
                    "children": ["#minecraft:planks", "#minecraft:non_flammable_wood"]
                }
            },
            "pattern": ["XXX", "XXX", " X "],
            "result": { "count": 1, "id": "minecraft:netherrack" }
        }"##,
        other => panic!("no fixture {other}"),
    }
}

fn parse_fixture_recipe(rel: &str) -> ParsedRecipe {
    let stem = rel
        .rsplit('/')
        .next()
        .and_then(|f| f.strip_suffix(".json"))
        .expect("fixture path must name a JSON file");
    parse_recipe(&format!("test:{stem}"), fixture(rel))
}

fn both_versions(name: &str) -> [(&'static str, ParsedRecipe); 2] {
    [
        (
            "1.21.1",
            parse_fixture_recipe(&format!("recipes/neoforge/1.21.1/{name}.json")),
        ),
        (
            "1.21.x",
            parse_fixture_recipe(&format!("recipes/neoforge/1.21.x/{name}.json")),
        ),
    ]
}

const TYPES: [&str; 5] = [
    "minecraft:smelting",
    "minecraft:blasting",
    "minecraft:smoking",
    "minecraft:campfire_cooking",
    "minecraft:stonecutting",
];

#[test]
fn full_grid_slot_indices() {
    // language=json
    let json = r#"{
        "type": "minecraft:crafting_shaped",
        "key": {
            "A": "minecraft:a",
            "B": "minecraft:b",
            "C": "minecraft:c"
        },
        "pattern": ["ABC", "CAB", "BCA"],
        "result": {
            "id": "minecraft:out",
            "count": 3
        }
    }"#;
    let recipe = parse_recipe("test:full", json).recipe();

    assert_eq!(recipe.id, "test:full");
    assert_eq!(recipe.recipe_type, "minecraft:crafting_shaped");
    assert_eq!(
        recipe.ingredients,
        vec![
            input("minecraft:a", "1"),
            input("minecraft:b", "2"),
            input("minecraft:c", "3"),
            input("minecraft:c", "4"),
            input("minecraft:a", "5"),
            input("minecraft:b", "6"),
            input("minecraft:b", "7"),
            input("minecraft:c", "8"),
            input("minecraft:a", "9"),
            output("minecraft:out", "1", 3),
        ]
    );
}

#[test]
fn short_rows_still_use_three_wide_slot_math() {
    // language=json
    let json = r##"{
        "type": "minecraft:crafting_shaped",
        "key": {
            "#": "minecraft:a"
        },
        "pattern": ["#", "#"],
        "result": {
            "id": "minecraft:out"
        }
    }"##;
    let recipe = parse_recipe("test:short", json).recipe();

    assert_eq!(
        recipe.ingredients,
        vec![
            input("minecraft:a", "1"),
            input("minecraft:a", "4"),
            output("minecraft:out", "1", 1),
        ]
    );
}

#[test]
fn spaces_are_empty_slots() {
    // language=json
    let json = r####"{
        "type": "minecraft:crafting_shaped",
        "key": {
            "#": "minecraft:a"
        },
        "pattern": [" # ", "###", " # "],
        "result": "minecraft:out"
    }"####;
    let recipe = parse_recipe("test:spaces", json).recipe();

    assert_eq!(
        recipe.ingredients,
        vec![
            input("minecraft:a", "2"),
            input("minecraft:a", "4"),
            input("minecraft:a", "5"),
            input("minecraft:a", "6"),
            input("minecraft:a", "8"),
            output("minecraft:out", "1", 1),
        ]
    );
}

#[test]
fn pattern_char_missing_from_key_is_skipped() {
    // language=json
    let json = r#"{
        "type": "minecraft:crafting_shaped",
        "key": {
            "A": "minecraft:a"
        },
        "pattern": ["AX"],
        "result": "minecraft:out"
    }"#;
    let recipe = parse_recipe("test:missing_key", json).recipe();

    assert_eq!(
        recipe.ingredients,
        vec![input("minecraft:a", "1"), output("minecraft:out", "1", 1),]
    );
}

#[test]
fn unused_key_entries_are_ignored() {
    // language=json
    let json = r#"{
        "type": "minecraft:crafting_shaped",
        "key": {
            "A": "minecraft:a",
            "Z": "minecraft:z"
        },
        "pattern": ["A"],
        "result": "minecraft:out"
    }"#;
    let recipe = parse_recipe("test:unused_key", json).recipe();

    assert_eq!(
        recipe.ingredients,
        vec![input("minecraft:a", "1"), output("minecraft:out", "1", 1),]
    );
}

#[test]
fn key_array_expands_into_same_slot() {
    // language=json
    let json = r##"{
        "type": "minecraft:crafting_shaped",
        "key": {
            "A": ["minecraft:a", "#minecraft:b"]
        },
        "pattern": ["A", "A"],
        "result": "minecraft:out"
    }"##;
    let recipe = parse_recipe("test:key_array", json).recipe();

    assert_eq!(
        recipe.ingredients,
        vec![
            input("minecraft:a", "1"),
            input_tag("minecraft:b", "1"),
            input("minecraft:a", "4"),
            input_tag("minecraft:b", "4"),
            output("minecraft:out", "1", 1),
        ]
    );
}

#[test]
fn key_legacy_objects() {
    // language=json
    let json = r#"{
        "type": "minecraft:crafting_shaped",
        "key": {
            "A": {
                "item": "minecraft:a"
            },
            "B": {
                "tag": "minecraft:b"
            }
        },
        "pattern": ["AB"],
        "result": {
            "id": "minecraft:out",
            "count": 2
        }
    }"#;
    let recipe = parse_recipe("test:legacy", json).recipe();

    assert_eq!(
        recipe.ingredients,
        vec![
            input("minecraft:a", "1"),
            input_tag("minecraft:b", "2"),
            output("minecraft:out", "1", 2),
        ]
    );
}

#[test]
fn key_with_neoforge_and_fabric_ingredients() {
    // language=json
    let json = r##"{
        "type": "minecraft:crafting_shaped",
        "key": {
            "N": {
                "neoforge:ingredient_type": "neoforge:compound",
                "children": ["#minecraft:planks", "minecraft:bedrock"]
            },
            "F": {
                "fabric:type": "fabric:difference",
                "base": "minecraft:a",
                "subtracted": "minecraft:b"
            }
        },
        "pattern": ["NF"],
        "result": "minecraft:out"
    }"##;
    let recipe = parse_recipe("test:loaders", json).recipe();

    assert_eq!(
        recipe.ingredients,
        vec![
            input_tag("minecraft:planks", "1"),
            input("minecraft:bedrock", "1"),
            input("minecraft:a", "2"),
            output("minecraft:out", "1", 1),
        ]
    );
}

#[test]
fn result_forms() {
    // language=json
    let json = r#"{
        "type": "minecraft:crafting_shaped",
        "key": {},
        "pattern": [],
        "result": "minecraft:out"
    }"#;
    let string_form = parse_recipe("test:r1", json).recipe();
    assert_eq!(
        string_form.ingredients,
        vec![output("minecraft:out", "1", 1)]
    );

    // language=json
    let json = r#"{
        "type": "minecraft:crafting_shaped",
        "key": {},
        "pattern": [],
        "result": {
            "id": "minecraft:out"
        }
    }"#;
    let object_no_count = parse_recipe("test:r2", json).recipe();
    assert_eq!(
        object_no_count.ingredients,
        vec![output("minecraft:out", "1", 1)]
    );

    // language=json
    let json = r#"{
        "type": "minecraft:crafting_shaped",
        "key": {},
        "pattern": [],
        "result": {
            "id": "minecraft:out",
            "count": 64
        }
    }"#;
    let object_count = parse_recipe("test:r3", json).recipe();
    assert_eq!(
        object_count.ingredients,
        vec![output("minecraft:out", "1", 64)]
    );
}

#[test]
fn result_with_components_is_accepted() {
    // language=json
    let json = r#"{
        "type": "minecraft:crafting_shaped",
        "key": {},
        "pattern": [],
        "result": {
            "id": "minecraft:out",
            "count": 1,
            "components": {
                "minecraft:damage": 5
            }
        }
    }"#;
    let recipe = parse_recipe("test:components", json).recipe();
    assert_eq!(recipe.ingredients, vec![output("minecraft:out", "1", 1)]);
}

#[test]
fn extra_top_level_fields_are_ignored() {
    // language=json
    let json = r#"{
        "type": "minecraft:crafting_shaped",
        "category": "building",
        "group": "stuff",
        "show_notification": false,
        "key": {
            "A": "minecraft:a"
        },
        "pattern": ["A"],
        "result": "minecraft:out"
    }"#;
    let recipe = parse_recipe("test:extra", json).recipe();
    assert_eq!(recipe.ingredients.len(), 2);
}

#[test]
fn missing_pattern_is_an_error_naming_the_field() {
    // language=json
    let json = r#"{
        "type": "minecraft:crafting_shaped",
        "key": {},
        "result": "minecraft:out"
    }"#;
    let err = parse_recipe("test:bad", json).error();
    assert!(matches!(err, RecipeParseError::InvalidJsonPath(_)), "{err:?}");
    assert!(err.to_string().contains("pattern"), "{err:?}");
}

#[test]
fn missing_result_is_an_error() {
    // language=json
    let json = r#"{
        "type": "minecraft:crafting_shaped",
        "key": {},
        "pattern": []
    }"#;
    let err = parse_recipe("test:bad", json).error();
    assert!(err.to_string().contains("result"), "{err:?}");
}

#[test]
fn invalid_key_ingredient_error_names_the_key() {
    // language=json
    let json = r#"{
        "type": "minecraft:crafting_shaped",
        "key": {
            "A": "minecraft:a",
            "B": {
                "nope": 1
            }
        },
        "pattern": ["AB"],
        "result": "minecraft:out"
    }"#;
    let err = parse_recipe("test:bad", json).error();
    let msg = err.to_string();
    assert!(msg.contains("key"), "{msg}");
    assert!(msg.contains("'item'"), "{msg}");
}

#[test]
fn unknown_custom_ingredient_type_fails_the_recipe() {
    // language=json
    let json = r#"{
        "type": "minecraft:crafting_shaped",
        "key": {
            "A": {
                "neoforge:ingredient_type": "somemod:thing"
            }
        },
        "pattern": ["A"],
        "result": "minecraft:out"
    }"#;
    let err = parse_recipe("test:bad", json).error();
    assert!(err.to_string().contains("somemod:thing"), "{err:?}");
}

#[test]
fn slot_per_ingredient_index() {
    // language=json
    let json = r##"{
        "type": "minecraft:crafting_shapeless",
        "ingredients": [
            "minecraft:a",
            "#minecraft:b",
            {
                "item": "minecraft:c"
            }
        ],
        "result": {
            "id": "minecraft:out",
            "count": 4
        }
    }"##;
    let recipe = parse_recipe("test:shapeless", json).recipe();

    assert_eq!(
        recipe.ingredients,
        vec![
            input("minecraft:a", "1"),
            input_tag("minecraft:b", "2"),
            input("minecraft:c", "3"),
            output("minecraft:out", "1", 4),
        ]
    );
}

#[test]
fn nested_array_expands_into_one_slot() {
    // language=json
    let json = r#"{
        "type": "minecraft:crafting_shapeless",
        "ingredients": [
            ["minecraft:a", "minecraft:b"],
            "minecraft:c"
        ],
        "result": "minecraft:out"
    }"#;
    let recipe = parse_recipe("test:shapeless", json).recipe();

    assert_eq!(
        recipe.ingredients,
        vec![
            input("minecraft:a", "1"),
            input("minecraft:b", "1"),
            input("minecraft:c", "2"),
            output("minecraft:out", "1", 1),
        ]
    );
}

#[test]
fn custom_ingredient_expands_into_one_slot() {
    // language=json
    let json = r#"{
        "type": "minecraft:crafting_shapeless",
        "ingredients": [
            {
                "fabric:type": "fabric:any",
                "ingredients": ["minecraft:a", "minecraft:b"]
            },
            {
                "neoforge:ingredient_type": "neoforge:intersection",
                "children": ["minecraft:c", "minecraft:d"]
            }
        ],
        "result": "minecraft:out"
    }"#;
    let recipe = parse_recipe("test:shapeless", json).recipe();

    assert_eq!(
        recipe.ingredients,
        vec![
            input("minecraft:a", "1"),
            input("minecraft:b", "1"),
            input("minecraft:c", "2"),
            output("minecraft:out", "1", 1),
        ]
    );
}

#[test]
fn empty_ingredient_list() {
    // language=json
    let json = r#"{
        "type": "minecraft:crafting_shapeless",
        "ingredients": [],
        "result": "minecraft:out"
    }"#;
    let recipe = parse_recipe("test:shapeless", json).recipe();
    assert_eq!(recipe.ingredients, vec![output("minecraft:out", "1", 1)]);
}

#[test]
fn ingredients_must_be_an_array() {
    // language=json
    let json = r#"{
        "type": "minecraft:crafting_shapeless",
        "ingredients": "minecraft:a",
        "result": "minecraft:out"
    }"#;
    let err = parse_recipe("test:bad", json).error();
    assert!(err.to_string().contains("ingredients"), "{err:?}");
}

#[test]
fn all_types_use_slot_one() {
    // language=json
    let template = r#"{
        "type": "$TYPE",
        "ingredient": "minecraft:a",
        "result": {
            "id": "minecraft:out",
            "count": 2
        },
        "experience": 0.7,
        "cookingtime": 200
    }"#;
    for ty in TYPES {
        let json = template.replace("$TYPE", ty);
        let recipe = parse_recipe("test:single", &json).recipe();

        assert_eq!(recipe.recipe_type, ty);
        assert_eq!(
            recipe.ingredients,
            vec![input("minecraft:a", "1"), output("minecraft:out", "1", 2)],
            "type {ty}"
        );
    }
}

#[test]
fn ingredient_array_and_custom_types() {
    // language=json
    let json = r##"{
        "type": "minecraft:smelting",
        "ingredient": [
            "#minecraft:a",
            {
                "neoforge:ingredient_type": "neoforge:block_tag",
                "tag": "minecraft:b"
            }
        ],
        "result": "minecraft:out"
    }"##;
    let recipe = parse_recipe("test:single", json).recipe();

    assert_eq!(
        recipe.ingredients,
        vec![
            input_tag("minecraft:a", "1"),
            input_tag("minecraft:b", "1"),
            output("minecraft:out", "1", 1),
        ]
    );
}

#[test]
fn missing_ingredient_is_an_error() {
    // language=json
    let json = r#"{
        "type": "minecraft:blasting",
        "result": "minecraft:out"
    }"#;
    let err = parse_recipe("test:bad", json).error();
    assert!(err.to_string().contains("ingredient"), "{err:?}");
}

#[test]
fn template_base_addition_slots() {
    // language=json
    let json = r##"{
        "type": "minecraft:smithing_transform",
        "template": "minecraft:template",
        "base": ["minecraft:base_a", "minecraft:base_b"],
        "addition": "#minecraft:addition",
        "result": {
            "id": "minecraft:out"
        }
    }"##;
    let recipe = parse_recipe("test:smith", json).recipe();

    assert_eq!(
        recipe.ingredients,
        vec![
            input("minecraft:template", "0"),
            input("minecraft:base_a", "1"),
            input("minecraft:base_b", "1"),
            input_tag("minecraft:addition", "2"),
            output("minecraft:out", "1", 1),
        ]
    );
}

#[test]
fn missing_addition_is_an_error() {
    // language=json
    let json = r#"{
        "type": "minecraft:smithing_transform",
        "template": "minecraft:t",
        "base": "minecraft:b",
        "result": "minecraft:out"
    }"#;
    let err = parse_recipe("test:bad", json).error();
    assert!(err.to_string().contains("addition"), "{err:?}");
}

#[test]
fn missing_type() {
    // language=json
    let json = r#"{
        "ingredients": [],
        "result": "minecraft:out"
    }"#;
    let err = parse_recipe("test:bad", json).error();
    assert!(matches!(err, RecipeParseError::MissingType), "{err:?}");
}

#[test]
fn null_type_counts_as_missing() {
    // language=json
    let json = r#"{
        "type": null,
        "result": "minecraft:out"
    }"#;
    let err = parse_recipe("test:bad", json).error();
    assert!(matches!(err, RecipeParseError::MissingType), "{err:?}");
}

#[test]
fn non_string_type_is_invalid_json() {
    // language=json
    let json = r#"{
        "type": 5,
        "result": "minecraft:out"
    }"#;
    let err = parse_recipe("test:bad", json).error();
    assert!(matches!(err, RecipeParseError::InvalidJson(_)), "{err:?}");
}

#[test]
fn unknown_vanilla_type() {
    // language=json
    let json = r#"{
        "type": "minecraft:smithing_trim",
        "template": "minecraft:t",
        "base": "minecraft:b",
        "addition": "minecraft:a"
    }"#;
    let err = parse_recipe("test:bad", json).error();
    match err {
        RecipeParseError::UnknownRecipeType(t) => assert_eq!(t, "minecraft:smithing_trim"),
        other => panic!("unexpected error: {other:?}"),
    }
}

#[test]
fn unknown_vanilla_type_is_not_treated_as_custom() {
    // language=json
    let json = r#"{
        "type": "minecraft:whatever",
        "input": {
            "1": "minecraft:a"
        },
        "output": {
            "1": "minecraft:b"
        }
    }"#;
    let err = parse_recipe("test:bad", json).error();
    assert!(
        matches!(err, RecipeParseError::UnknownRecipeType(_)),
        "{err:?}"
    );
}

#[test]
fn type_without_namespace_defaults_to_minecraft() {
    // language=json
    let json = r#"{
        "type": "crafting_shapeless",
        "ingredients": ["minecraft:a"],
        "result": "minecraft:out"
    }"#;
    let recipe = parse_recipe("test:ns", json).result;
    assert!(
        matches!(recipe, Err(RecipeParseError::UnknownRecipeType(ref t)) if t == "crafting_shapeless"),
        "{recipe:?}"
    );
}

#[test]
fn invalid_type_resloc_is_skipped_with_issue() {
    // language=json
    let json = r#"{
        "type": "Minecraft:Crafting_Shaped",
        "key": {},
        "pattern": [],
        "result": "minecraft:out"
    }"#;
    let parsed = parse_recipe("test:bad", json);
    assert_eq!(parsed.subjects(), vec![ProjectError::InvalidResloc]);
    let issues = parsed.skipped();
    assert_eq!(
        issues[0].details.as_deref(),
        Some("Minecraft:Crafting_Shaped")
    );
}

#[test]
fn empty_type_is_skipped_with_issue() {
    // language=json
    let json = r#"{
        "type": "",
        "result": "minecraft:out"
    }"#;
    let parsed = parse_recipe("test:bad", json);
    assert_eq!(parsed.subjects(), vec![ProjectError::InvalidResloc]);
    parsed.skipped();
}

#[test]
fn successful_parse_emits_no_issues() {
    // language=json
    let json = r#"{
        "type": "minecraft:crafting_shapeless",
        "ingredients": ["minecraft:a"],
        "result": "minecraft:out"
    }"#;
    let parsed = parse_recipe("test:ok", json);
    assert!(parsed.issues.is_empty(), "{:?}", parsed.issues);
    parsed.recipe();
}

#[test]
fn compound_ingredient_only_vanilla() {
    for (version, parsed) in both_versions("compound_ingredient_only_vanilla") {
        let recipe = parsed.recipe();
        assert_eq!(
            recipe.ingredients,
            vec![
                input_tag("minecraft:planks", "1"),
                input_tag("minecraft:logs", "1"),
                input("minecraft:bedrock", "1"),
                input_tag("minecraft:planks", "2"),
                input_tag("minecraft:logs", "2"),
                input("minecraft:bedrock", "2"),
                input_tag("minecraft:planks", "3"),
                input_tag("minecraft:logs", "3"),
                input("minecraft:bedrock", "3"),
                input_tag("minecraft:planks", "5"),
                input_tag("minecraft:logs", "5"),
                input("minecraft:bedrock", "5"),
                output("minecraft:dirt", "1", 1),
            ],
            "version {version}"
        );
    }
}

#[test]
fn compound_ingredient_custom_types() {
    for (version, parsed) in both_versions("compound_ingredient_custom_types") {
        let recipe = parsed.recipe();
        assert_eq!(
            recipe.ingredients,
            vec![
                input_tag("minecraft:planks", "1"),
                input_tag("minecraft:logs", "1"),
                input("minecraft:stone_pickaxe", "1"),
                input_tag("minecraft:planks", "4"),
                input_tag("minecraft:logs", "4"),
                input("minecraft:stone_pickaxe", "4"),
                output("minecraft:gold_block", "1", 1),
            ],
            "version {version}"
        );
    }
}

#[test]
fn difference_ingredient() {
    for (version, parsed) in both_versions("difference_ingredient") {
        let recipe = parsed.recipe();
        assert_eq!(
            recipe.ingredients,
            vec![
                input_tag("minecraft:fences", "2"),
                input_tag("minecraft:fences", "4"),
                input_tag("minecraft:fences", "5"),
                input_tag("minecraft:fences", "6"),
                input_tag("minecraft:fences", "8"),
                output("minecraft:flint_and_steel", "1", 1),
            ],
            "version {version}"
        );
    }
}

#[test]
fn intersection_ingredient() {
    for (version, parsed) in both_versions("intersection_ingredient") {
        let recipe = parsed.recipe();
        assert_eq!(
            recipe.ingredients,
            vec![
                input_tag("minecraft:planks", "1"),
                input_tag("minecraft:planks", "2"),
                input_tag("minecraft:planks", "3"),
                input_tag("minecraft:planks", "4"),
                input_tag("minecraft:planks", "5"),
                input_tag("minecraft:planks", "6"),
                input_tag("minecraft:planks", "8"),
                output("minecraft:netherrack", "1", 1),
            ],
            "version {version}"
        );
    }
}
