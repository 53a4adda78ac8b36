use wiki_storage::deploy_flow::{DeployAction, DeployEvent, DeployRun};
use wiki_storage::format::{decode_meta_value, FolderMetadata, FolderMetadataEntry};
use wiki_storage::frontmatter::{infobox_of, valid_infobox, InfoboxTab, RawInfobox};
use wiki_storage::game_data::{extraction_plan, ArchiveEntry, ExtractAction};
use wiki_storage::ingest::{decode_tag_file, PreparationResult, TagValue};
use wiki_storage::ingredient::{StubRecipeIngredient, VanillaIngredientList};
use wiki_storage::issues::{LoggingIssueSink, ProjectError, ProjectIssue, ProjectIssueLevel, ProjectIssueType};
use wiki_storage::json::{JsonNumber, JsonValue};
use wiki_storage::markdown::{page_title, parse_mdast};
use wiki_storage::recipe::StubRecipe;
use wiki_storage::sub_ingest::{
    decode_recipe_type, RecipeStore, RecipesSubIngestor, StoreAction, StoreEvent, StoreStage, TagFile, TagsSubIngestor,
};
use wiki_storage::tree::{build_tree_entries, FileType, ListedEntry};
use wiki_storage::util::{clean_removals, DirNode};

fn s(v: &str) -> JsonValue {
    JsonValue::String(v.to_owned())
}

fn obj(entries: Vec<(&str, JsonValue)>) -> JsonValue {
    JsonValue::Object(entries.into_iter().map(|(k, v)| (k.to_owned(), v)).collect())
}

fn strings(v: &[&str]) -> Vec<String> {
    v.iter().map(|x| x.to_string()).collect()
}

fn listed(name: &str, is_dir: bool) -> ListedEntry {
    ListedEntry {
        name: name.to_owned(),
        is_dir,
        is_file: !is_dir,
        rel_path: format!("docs/{name}"),
        slug: name.trim_end_matches(".mdx").to_owned(),
        title: None,
        page_icon: None,
        children: Vec::new(),
    }
}

#[test]
fn tree_shows_pages_and_folders_by_name() {
    let meta = FolderMetadata::default();
    let listing = vec![
        listed("zeta.mdx", false),
        listed(".hidden", true),
        listed("_meta.json", false),
        listed("notes.txt", false),
        listed("alpha", true),
        listed("beta.mdx", false),
    ];
    let tree = build_tree_entries(&meta, listing);
    let paths: Vec<&str> = tree.iter().map(|e| e.path.as_str()).collect();
    assert_eq!(paths, vec!["docs/alpha", "beta", "zeta"]);
    assert_eq!(tree[0].file_type, FileType::Dir);
    assert_eq!(tree[1].file_type, FileType::File);
}

#[test]
fn tree_puts_keyed_entries_first_in_key_order() {
    let mut meta = FolderMetadata::default();
    meta.add("zeta.mdx".to_owned(), FolderMetadataEntry { name: "Last".to_owned(), icon: "x:y".to_owned() });
    meta.add("alpha".to_owned(), FolderMetadataEntry { name: "First".to_owned(), icon: String::new() });
    let mut sub = listed("alpha", true);
    sub.children = build_tree_entries(&FolderMetadata::default(), vec![listed("inner.mdx", false)]);
    let listing = vec![listed("beta.mdx", false), sub, listed("zeta.mdx", false)];
    let tree = build_tree_entries(&meta, listing);
    let names: Vec<&str> = tree.iter().map(|e| e.name.as_str()).collect();
    assert_eq!(names[0], "Last");
    assert_eq!(names[1], "First");
    assert_eq!(tree[0].icon.as_deref(), Some("x:y"));
    assert_eq!(tree[1].children.len(), 1);
    assert_eq!(tree[1].children[0].path, "inner");
    assert_eq!(tree[2].path, "beta");
}

fn tag_file(ns: &str, kind: &str, path: &str, values: &[&str]) -> TagFile {
    TagFile {
        namespace: ns.to_owned(),
        kind: kind.to_owned(),
        path: path.to_owned(),
        file: format!("{ns}/tags/{kind}/{path}.json"),
        content: Ok(values.iter().map(|v| TagValue(v.to_string())).collect()),
    }
}

#[test]
fn only_item_tags_of_allowed_namespaces_count() {
    let mut ingestor = TagsSubIngestor::new();
    let mut result = PreparationResult::new();
    let files = vec![
        tag_file("mymod", "item", "gears", &["mymod:gear", "minecraft:stick"]),
        tag_file("othermod", "item", "things", &["othermod:thing"]),
        tag_file("mymod", "block", "ores", &["mymod:ore"]),
        tag_file("c", "item", "ingots", &["mymod:ingot", "#c:ores"]),
        TagFile {
            namespace: "mymod".to_owned(),
            kind: "item".to_owned(),
            path: "broken".to_owned(),
            file: "mymod/tags/item/broken.json".to_owned(),
            content: Err((ProjectError::InvalidFormat, "bad".to_owned())),
        },
        tag_file("mymod", "item", "Bad Name", &["mymod:x"]),
    ];
    let issues = ingestor.add_tag_files(&files, "mymod", &mut result);
    assert_eq!(result.items(), &strings(&["mymod:gear", "mymod:ingot"]));
    let tags: Vec<String> = ingestor.tag_ids.iter().map(|l| l.to_string()).collect();
    assert!(tags.contains(&"mymod:gears".to_owned()));
    assert!(tags.contains(&"c:ingots".to_owned()));
    assert!(tags.contains(&"c:ores".to_owned()));
    assert!(!tags.iter().any(|t| t.starts_with("othermod")));
    assert!(!tags.contains(&"mymod:ores".to_owned()));
    assert_eq!(issues.len(), 2);
    assert_eq!(issues[0].subject, ProjectError::InvalidFormat);
    assert_eq!(issues[1].subject, ProjectError::InvalidResloc);
    assert_eq!(issues[1].details.as_deref(), Some("mymod:Bad Name"));
}

#[test]
fn tag_file_values_default_to_none() {
    assert!(decode_tag_file(&obj(vec![])).unwrap().is_empty());
    let values = decode_tag_file(&obj(vec![(
        "values",
        JsonValue::Array(vec![s("a:b"), obj(vec![("id", s("#c:d")), ("required", JsonValue::Bool(false))])]),
    )]))
    .unwrap();
    let texts: Vec<&str> = values.iter().map(|v| v.0.as_str()).collect();
    assert_eq!(texts, vec!["a:b", "#c:d"]);
    let err = decode_tag_file(&obj(vec![("values", JsonValue::Array(vec![s("a:b"), JsonValue::Number(JsonNumber::PosInt(5))]))]))
        .unwrap_err();
    assert!(err.message().starts_with("values[1]: "), "{}", err.message());
    assert!(decode_tag_file(&s("x")).is_err());
}

fn ingredient(id: &str, is_tag: bool) -> StubRecipeIngredient {
    StubRecipeIngredient { item_id: id.to_owned(), slot: "0".to_owned(), count: 1, input: true, is_tag }
}

fn describe(a: &StoreAction) -> String {
    match a {
        StoreAction::AddRecipeType(t) => format!("type {t}"),
        StoreAction::FindRecipeType(t) => format!("find {t}"),
        StoreAction::AddRecipe { id, recipe_type } => format!("recipe {id} {recipe_type}"),
        StoreAction::AddIngredient(i) => format!("ingredient {}", i.item_id),
        StoreAction::RecordIssue(i) => format!("issue {:?} {}", i.subject, i.details.clone().unwrap_or_default()),
        StoreAction::DeleteRecipe => "delete".to_owned(),
        StoreAction::Finish => "finish".to_owned(),
    }
}

#[test]
fn storing_recipes_reports_and_skips() {
    let mut ingestor = RecipesSubIngestor::new();
    ingestor.recipe_types.push(("mymod:press".to_owned(), "types/press.json".to_owned()));
    let recipe = |id: &str, t: &str, ings: Vec<StubRecipeIngredient>| StubRecipe {
        id: id.to_owned(),
        recipe_type: t.to_owned(),
        ingredients: ings,
    };
    ingestor.recipes.push((recipe("mymod:a", "mymod:unknown", vec![]), "a.json".to_owned()));
    ingestor.recipes.push((
        recipe("mymod:b", "mymod:press", vec![ingredient("mymod:x", false), ingredient("c:y", true), ingredient("mymod:z", false)]),
        "b.json".to_owned(),
    ));
    ingestor.recipes.push((recipe("mymod:c", "mymod:press", vec![ingredient("mymod:x", false)]), "c.json".to_owned()));
    let mut state = RecipesSubIngestor::recipe_store_start();
    let mut log = Vec::new();
    let events = [
        StoreEvent::Done,
        StoreEvent::Done,
        StoreEvent::TypeFound(false),
        StoreEvent::Done,
        StoreEvent::TypeFound(true),
        StoreEvent::Done,
        StoreEvent::IngredientStored(true),
        StoreEvent::IngredientStored(false),
        StoreEvent::Done,
        StoreEvent::Done,
        StoreEvent::TypeFound(true),
        StoreEvent::Done,
        StoreEvent::IngredientStored(true),
    ];
    for e in events {
        let (next, action) = ingestor.recipe_store_step(state, e);
        state = next;
        log.push(describe(&action));
    }
    assert_eq!(
        log,
        vec![
            "type mymod:press",
            "find mymod:unknown",
            "issue UnknownRecipeType mymod:unknown",
            "find mymod:press",
            "recipe mymod:b mymod:press",
            "ingredient mymod:x",
            "ingredient c:y",
            "issue InvalidIngredient Invalid ingredient: '#c:y'",
            "delete",
            "find mymod:press",
            "recipe mymod:c mymod:press",
            "ingredient mymod:x",
            "finish",
        ]
    );
    assert_eq!(state, RecipeStore { stage: StoreStage::Finished, index: 0, ing: 0 });
}

#[test]
fn missing_source_and_invalid_files_fail_the_version() {
    let (mut run, _) = DeployRun::start("main".to_owned());
    for _ in 0..5 {
        run.step(DeployEvent::Done);
    }
    match run.step(DeployEvent::SourceMissing("/docs".to_owned())) {
        DeployAction::RemoveClone => {}
        other => panic!("unexpected {other:?}"),
    }
    run.step(DeployEvent::Done);
    match run.step(DeployEvent::HasErrors(false)) {
        DeployAction::RecordIssue { issue, .. } => {
            assert_eq!(issue.subject, ProjectError::NoPath);
            assert_eq!(issue.details.as_deref(), Some("Source path 'docs' not found in repository"));
        }
        other => panic!("unexpected {other:?}"),
    }

    let (mut run, _) = DeployRun::start("main".to_owned());
    for _ in 0..5 {
        run.step(DeployEvent::Done);
    }
    run.step(DeployEvent::Versions(vec![("1.20".to_owned(), "mc120".to_owned())]));
    match run.step(DeployEvent::FilesInvalid) {
        DeployAction::RecordIssue { version, issue } => {
            assert_eq!(version.as_deref(), Some("1.20"));
            assert_eq!(issue.kind, ProjectIssueType::VersionSetup);
            assert_eq!(issue.subject, ProjectError::InvalidFile);
            assert_eq!(issue.details.as_deref(), Some("Project contains invalid or malformed files"));
        }
        other => panic!("unexpected {other:?}"),
    }
}

#[test]
fn infobox_rules() {
    let ib = |display: Option<Vec<String>>, tabs: Option<Vec<InfoboxTab>>, inventory: Vec<String>| RawInfobox {
        title: None,
        display,
        tabs,
        inventory,
    };
    assert!(valid_infobox(&ib(Some(strings(&["minecraft:stone"])), None, strings(&["a:b"]))));
    assert!(!valid_infobox(&ib(
        Some(strings(&["minecraft:stone"])),
        Some(vec![InfoboxTab { name: "x".to_owned(), display: vec![] }]),
        vec![],
    )));
    assert!(!valid_infobox(&ib(Some(strings(&["Not Valid"])), None, vec![])));
    assert!(!valid_infobox(&ib(None, None, strings(&["Bad Id"]))));
    let kept = infobox_of(ib(Some(strings(&["a:b"])), None, strings(&["c:d"])));
    let tabs = kept.tabs.unwrap();
    assert_eq!(tabs.len(), 1);
    assert_eq!(tabs[0].name, "");
    assert_eq!(tabs[0].display, strings(&["a:b"]));
    assert_eq!(kept.inventory, strings(&["c:d"]));
}

#[test]
fn nested_custom_ingredient_errors_carry_no_inner_path() {
    let v = obj(vec![
        ("type", s("neoforge:compound")),
        ("children", JsonValue::Array(vec![s("a:b"), JsonValue::Number(JsonNumber::PosInt(5))])),
    ]);
    let err = VanillaIngredientList::from_json(&v).err().expect("must fail");
    let m = err.message();
    assert!(!m.starts_with("children") && !m.starts_with('['), "{m}");
}

#[test]
fn folder_metadata_values() {
    assert_eq!(decode_meta_value(&s("Intro")), Some(("Intro".to_owned(), String::new())));
    assert_eq!(
        decode_meta_value(&obj(vec![("name", s("A")), ("icon", s("x:y")), ("other", JsonValue::Bool(true))])),
        Some(("A".to_owned(), "x:y".to_owned()))
    );
    assert_eq!(
        decode_meta_value(&obj(vec![("name", JsonValue::Null), ("icon", JsonValue::Null)])),
        Some((String::new(), String::new()))
    );
    assert_eq!(decode_meta_value(&obj(vec![("name", JsonValue::Bool(true))])), None);
    assert_eq!(decode_meta_value(&JsonValue::Bool(true)), None);
    assert_eq!(
        decode_meta_value(&JsonValue::Array(vec![s("B"), s("i:j")])),
        None
    );
}

#[test]
fn title_from_front_matter_else_heading() {
    let tree = parse_mdast("---\ntitle: A\n---\n# B").ok().unwrap();
    assert_eq!(page_title(Some("A".to_owned()), Some(&tree)), Some("A".to_owned()));
    let tree = parse_mdast("# B\n# C").ok().unwrap();
    assert_eq!(page_title(None, Some(&tree)), Some("B".to_owned()));
    let tree = parse_mdast("text only").ok().unwrap();
    assert_eq!(page_title(None, Some(&tree)), None);
    assert_eq!(page_title(None, None), None);
}

#[test]
fn extraction_plan_per_entry() {
    let entry = |name: Option<&str>, is_dir: bool, existing: bool| ArchiveEntry {
        name: name.map(|n| n.to_owned()),
        is_dir,
        existing,
    };
    let entries = vec![
        entry(None, false, false),
        entry(Some("assets/minecraft/lang/en_us.json"), false, true),
        entry(Some("assets/minecraft/lang/de_de.json"), false, false),
        entry(Some("assets/minecraft/textures/x.png"), false, true),
        entry(Some("data/minecraft/recipe"), true, false),
        entry(Some("data/minecraft/recipe/"), true, false),
        entry(Some("META-INF/MANIFEST.MF"), false, false),
    ];
    let filter = strings(&["assets/", "data/"]);
    let merge = strings(&["assets/minecraft/lang/"]);
    assert_eq!(
        extraction_plan(&entries, &filter, &merge),
        vec![
            ExtractAction::Skip,
            ExtractAction::Merge,
            ExtractAction::Write,
            ExtractAction::Write,
            ExtractAction::CreateDir,
            ExtractAction::Skip,
            ExtractAction::Skip,
        ]
    );
}

fn node(name: &str, children: Option<Vec<DirNode>>) -> DirNode {
    DirNode { name: name.to_owned(), is_dir: children.is_some(), children: children.unwrap_or_default() }
}

#[test]
fn cleaning_removes_all_but_kept_paths() {
    let entries = vec![
        node("a.txt", None),
        node("keep", Some(vec![node("x", None)])),
        node("mixed", Some(vec![node("kept.json", None), node("gone.json", None), node("sub", Some(vec![]))])),
        node("other", Some(vec![node("y", None)])),
    ];
    let keep = strings(&["keep", "mixed/kept.json"]);
    let removed: Vec<(String, bool)> = clean_removals(&entries, &keep).into_iter().map(|r| (r.path, r.is_dir)).collect();
    assert_eq!(
        removed,
        vec![
            ("a.txt".to_owned(), false),
            ("mixed/gone.json".to_owned(), false),
            ("mixed/sub".to_owned(), true),
            ("other".to_owned(), true),
        ]
    );
}

fn issue(level: ProjectIssueLevel) -> ProjectIssue {
    ProjectIssue { level, kind: ProjectIssueType::Ingestor, subject: ProjectError::Unknown, details: None, file: None }
}

#[test]
fn sink_remembers_any_error() {
    let mut sink = LoggingIssueSink::new();
    assert!(!sink.has_errors());
    sink.add(&issue(ProjectIssueLevel::Warning));
    assert!(!sink.has_errors());
    sink.add(&issue(ProjectIssueLevel::Error));
    assert!(sink.has_errors());
    sink.add(&issue(ProjectIssueLevel::Warning));
    assert!(sink.has_errors());
}

#[test]
fn recipe_type_files() {
    let slots = obj(vec![("in", obj(vec![("x", JsonValue::Number(JsonNumber::PosInt(1)))]))]);
    let t = decode_recipe_type(obj(vec![
        ("background", s("bg.png")),
        ("inputSlots", slots),
        ("output_slots", obj(vec![])),
        ("other", JsonValue::Bool(true)),
    ]))
    .ok()
    .unwrap();
    assert_eq!(t.background, "bg.png");
    assert_eq!(t.input_slots.len(), 1);
    assert_eq!(t.input_slots[0].0, "in");
    assert!(t.output_slots.is_empty());

    let msg = |v: JsonValue| decode_recipe_type(v).err().unwrap().message();
    assert_eq!(msg(obj(vec![("input_slots", obj(vec![])), ("output_slots", obj(vec![]))])), "missing field `background`");
    assert_eq!(msg(obj(vec![("background", s("b")), ("output_slots", obj(vec![]))])), "missing field `input_slots`");
    assert_eq!(
        msg(obj(vec![("background", s("b")), ("input_slots", obj(vec![])), ("inputSlots", obj(vec![]))])),
        "duplicate field `input_slots`"
    );
    assert_eq!(
        msg(obj(vec![("background", JsonValue::Bool(true))])),
        "background: invalid type: boolean `true`, expected a string"
    );
    assert_eq!(
        msg(obj(vec![("background", s("b")), ("outputSlots", JsonValue::Array(vec![]))])),
        "outputSlots: invalid type: sequence, expected a map"
    );
    assert_eq!(msg(s("x")), "invalid type: string \"x\", expected struct StubRecipeType");
    let listed = decode_recipe_type(JsonValue::Array(vec![s("b"), obj(vec![]), obj(vec![])])).ok().unwrap();
    assert_eq!(listed.background, "b");
    assert_eq!(
        msg(JsonValue::Array(vec![s("b")])),
        "invalid length 1, expected struct StubRecipeType with 3 elements"
    );
    assert_eq!(
        msg(JsonValue::Array(vec![s("b"), obj(vec![]), obj(vec![]), obj(vec![])])),
        "invalid length 4, expected fewer elements in array"
    );
}
