use wiki_storage::ingest::{
    get_page_ref, parse_ids, ContentPathsSubIngestor, MetadataSubIngestor, PreparationResult, TagValue,
};
use wiki_storage::ingredient::StubRecipeIngredient;
use wiki_storage::issues::{FileIssues, ProjectError, ProjectIssueLevel, ProjectIssueType};
use wiki_storage::json::JsonValue;
use wiki_storage::recipe::{default_registry, StubRecipe};
use wiki_storage::resloc::ResourceLocation;
use wiki_storage::run::{
    active_modules, candidate_items, IngestAction, IngestEvent, IngestPhase, IngestRun,
    IngestorBuilder,
};
use wiki_storage::sub_ingest::{
    ingredient_name, invalid_ingredient_message, is_content_page_file, is_tag_namespace_allowed,
    is_tag_type_allowed, read_recipe, tag_link, workbench_count_message, PageFrontmatter,
    RecipesSubIngestor, TagLink, TagsSubIngestor,
};

fn strings(v: &[&str]) -> Vec<String> {
    v.iter().map(|s| s.to_string()).collect()
}

fn loc(ns: &str, path: &str) -> ResourceLocation {
    ResourceLocation {
        namespace: ns.to_owned(),
        path: path.to_owned(),
    }
}

fn prep(items: &[&str]) -> PreparationResult {
    let mut p = PreparationResult::new();
    for i in items {
        p.insert(i.to_string());
    }
    p
}

#[test]
fn preparation_items_are_sorted_and_unique() {
    let mut p = prep(&["b:x", "a:y", "b:x"]);
    assert_eq!(p.items(), &strings(&["a:y", "b:x"]));
    p.merge(prep(&["c:z", "a:y"]));
    assert_eq!(p.items(), &strings(&["a:y", "b:x", "c:z"]));
}

#[test]
fn tag_rules() {
    assert!(is_tag_type_allowed("item"));
    assert!(!is_tag_type_allowed("block"));
    assert!(is_tag_namespace_allowed("minecraft", "somemod"));
    assert!(is_tag_namespace_allowed("c", "somemod"));
    assert!(is_tag_namespace_allowed("somemod", "somemod"));
    assert!(!is_tag_namespace_allowed("othermod", "somemod"));
}

#[test]
fn tag_file_registers_tags_entries_and_items() {
    let mut tags = TagsSubIngestor::new();
    let mut issues = FileIssues::new("data/somemod/tags/item/gears.json".to_owned());
    let mut result = PreparationResult::new();
    let values = vec![
        TagValue("somemod:iron_gear".to_owned()),
        TagValue("#c:gears".to_owned()),
        TagValue("minecraft:stick".to_owned()),
        TagValue("Bad Id".to_owned()),
    ];
    tags.add_tag_file(&loc("somemod", "gears"), &values, "somemod", &mut issues, &mut result);
    assert_eq!(tags.tag_ids, vec![loc("somemod", "gears"), loc("c", "gears")]);
    assert_eq!(tags.tag_entries.len(), 4);
    assert!(tags
        .tag_entries
        .contains(&("somemod:gears".to_owned(), "#c:gears".to_owned())));
    assert_eq!(result.items(), &strings(&["somemod:iron_gear"]));
    assert_eq!(issues.issues.len(), 1);
    assert_eq!(issues.issues[0].subject, ProjectError::InvalidResloc);
    assert_eq!(issues.issues[0].details.as_deref(), Some("Bad Id"));
}

#[test]
fn tag_value_forms() {
    let v = JsonValue::String("minecraft:stone".to_owned());
    assert_eq!(TagValue::from_json(&v).unwrap().0, "minecraft:stone");
    let obj = JsonValue::Object(vec![(
        "id".to_owned(),
        JsonValue::String("#c:stones".to_owned()),
    )]);
    assert_eq!(TagValue::from_json(&obj).unwrap().0, "#c:stones");
    let missing = JsonValue::Object(vec![]);
    assert_eq!(
        TagValue::from_json(&missing).unwrap_err().message(),
        "missing field `id`"
    );
}

#[test]
fn tag_entry_links() {
    assert_eq!(tag_link("#c:gears"), TagLink::Tag("c:gears".to_owned()));
    assert_eq!(tag_link("minecraft:stick"), TagLink::Item("minecraft:stick".to_owned()));
}

fn recipe_json() -> JsonValue {
    JsonValue::Object(vec![
        ("type".to_owned(), JsonValue::String("minecraft:crafting_shapeless".to_owned())),
        (
            "ingredients".to_owned(),
            JsonValue::Array(vec![
                JsonValue::String("somemod:gear".to_owned()),
                JsonValue::String("#c:ingots".to_owned()),
            ]),
        ),
        ("result".to_owned(), JsonValue::String("somemod:machine".to_owned())),
    ])
}

#[test]
fn recipe_file_is_read_and_its_items_found() {
    let registry = default_registry();
    let mut issues = FileIssues::new("machine.json".to_owned());
    let recipe = read_recipe(&registry, &loc("somemod", "machine"), &recipe_json(), &mut issues)
        .expect("recipe");
    assert_eq!(recipe.id, "somemod:machine");
    assert!(issues.issues.is_empty());
    let mut recipes = RecipesSubIngestor::new();
    let mut result = PreparationResult::new();
    recipes.add_recipe(recipe, "machine.json".to_owned(), &mut result);
    assert_eq!(recipes.recipes.len(), 1);
    assert_eq!(result.items(), &strings(&["somemod:gear", "somemod:machine"]));
    recipes.add_recipe_type(&loc("somemod", "grinding"), "grinding.json".to_owned());
    assert_eq!(recipes.recipe_types[0].0, "somemod:grinding");
}

#[test]
fn recipe_that_fails_records_an_invalid_format_issue() {
    let registry = default_registry();
    let mut issues = FileIssues::new("bad.json".to_owned());
    let data = JsonValue::Object(vec![(
        "result".to_owned(),
        JsonValue::String("x".to_owned()),
    )]);
    assert!(read_recipe(&registry, &loc("somemod", "bad"), &data, &mut issues).is_none());
    assert_eq!(issues.issues.len(), 1);
    assert_eq!(issues.issues[0].subject, ProjectError::InvalidFormat);
    assert_eq!(
        issues.issues[0].details.as_deref(),
        Some("recipe JSON missing required `type` field")
    );
}

#[test]
fn ingredient_names_in_issues() {
    let tag = StubRecipeIngredient {
        item_id: "c:ingots".to_owned(),
        slot: "1".to_owned(),
        count: 1,
        input: true,
        is_tag: true,
    };
    assert_eq!(ingredient_name(&tag), "#c:ingots");
    assert_eq!(invalid_ingredient_message(&tag), "Invalid ingredient: '#c:ingots'");
}

#[test]
fn page_refs() {
    let none: Vec<String> = Vec::new();
    let ids = strings(&["somemod:gears/iron_gear"]);
    assert_eq!(get_page_ref(Some("custom"), &ids, "items/gear.mdx", &none), Some("custom".to_owned()));
    assert_eq!(get_page_ref(None, &ids, "items/gear.mdx", &none), Some("gears_iron_gear".to_owned()));
    let two = strings(&["somemod:a", "somemod:b"]);
    assert_eq!(get_page_ref(None, &two, "items/gear.mdx", &none), Some("gear".to_owned()));
    let taken = strings(&["gear"]);
    assert_eq!(get_page_ref(None, &two, "items/gear.mdx", &taken), Some("items_gear".to_owned()));
}

#[test]
fn page_ids_must_belong_to_the_project() {
    let mut issues = FileIssues::new("page.mdx".to_owned());
    assert_eq!(
        parse_ids(&strings(&["gear", "somemod:box"]), "minecraft", &mut issues),
        None
    );
    assert_eq!(
        issues.issues[0].details.as_deref(),
        Some("id 'somemod:box' namespace mismatch: expected 'minecraft'")
    );
    let mut issues = FileIssues::new("page.mdx".to_owned());
    assert_eq!(
        parse_ids(&strings(&["gear"]), "minecraft", &mut issues),
        Some(strings(&["minecraft:gear"]))
    );
}

#[test]
fn content_page_files() {
    assert!(is_content_page_file("gear.mdx"));
    assert!(!is_content_page_file(".hidden.mdx"));
    assert!(!is_content_page_file("gear.md"));
}

#[test]
fn content_pages_are_kept_under_their_reference() {
    let mut pages = ContentPathsSubIngestor::default();
    let mut issues = FileIssues::new("content/gear.mdx".to_owned());
    let mut result = PreparationResult::new();
    pages.add_page(
        "content/gear.mdx".to_owned(),
        "gear.mdx",
        PageFrontmatter::Found {
            ids: strings(&["somemod:gear"]),
            page_ref: None,
        },
        true,
        "somemod",
        &mut issues,
        &mut result,
    );
    assert!(issues.issues.is_empty());
    assert_eq!(pages.pages.len(), 1);
    assert_eq!(pages.pages[0].0, "gear");
    assert_eq!(pages.pages[0].1.path, "content/gear.mdx");
    assert_eq!(result.items(), &strings(&["somemod:gear"]));

    pages.add_page(
        "content/other.mdx".to_owned(),
        "other.mdx",
        PageFrontmatter::Found {
            ids: strings(&["somemod:box"]),
            page_ref: Some("gear".to_owned()),
        },
        true,
        "somemod",
        &mut issues,
        &mut result,
    );
    assert_eq!(pages.pages.len(), 1);
    assert_eq!(pages.pages[0].1.path, "content/other.mdx");
}

#[test]
fn content_page_problems_are_issues() {
    let mut pages = ContentPathsSubIngestor::default();
    let mut result = PreparationResult::new();
    let mut issues = FileIssues::new("a.mdx".to_owned());
    pages.add_page(
        "content/a.mdx".to_owned(),
        "a.mdx",
        PageFrontmatter::Invalid("bad yaml".to_owned()),
        true,
        "somemod",
        &mut issues,
        &mut result,
    );
    assert_eq!(issues.issues[0].subject, ProjectError::InvalidFrontmatter);
    pages.add_page(
        "content/a.mdx".to_owned(),
        "a.mdx",
        PageFrontmatter::Found {
            ids: strings(&["somemod:a"]),
            page_ref: None,
        },
        false,
        "somemod",
        &mut issues,
        &mut result,
    );
    assert_eq!(issues.issues[1].subject, ProjectError::NoPageTitle);
    assert_eq!(
        issues.issues[1].details.as_deref(),
        Some("Page is missing a title. Please add a H1 heading.")
    );
    pages.add_page(
        "content/a.mdx".to_owned(),
        "a.mdx",
        PageFrontmatter::Found {
            ids: strings(&["Not Valid"]),
            page_ref: None,
        },
        true,
        "somemod",
        &mut issues,
        &mut result,
    );
    assert_eq!(issues.issues[2].subject, ProjectError::InvalidResloc);
    pages.add_page(
        "content/a.mdx".to_owned(),
        "a.mdx",
        PageFrontmatter::Missing,
        true,
        "somemod",
        &mut issues,
        &mut result,
    );
    assert_eq!(issues.issues.len(), 3);
    assert!(pages.pages.is_empty());
    assert!(result.items().is_empty());
    assert!(issues.issues.iter().all(|i| i.level == ProjectIssueLevel::Error
        && i.kind == ProjectIssueType::Ingestor));
}

#[test]
fn workbenches_are_kept_in_order() {
    let mut meta = MetadataSubIngestor::default();
    meta.add_workbenches(
        vec![
            ("somemod:grinding".to_owned(), strings(&["somemod:grinder"])),
            ("somemod:pressing".to_owned(), strings(&["somemod:press", "somemod:big_press"])),
        ],
        "data/somemod/workbenches.json",
    );
    assert_eq!(meta.workbenches.len(), 2);
    assert_eq!(meta.workbenches[1].0.recipe_type, "somemod:pressing");
    assert_eq!(meta.workbenches[1].0.items.len(), 2);
    assert_eq!(meta.workbenches[0].1, "data/somemod/workbenches.json");
    assert_eq!(
        workbench_count_message(3, 2),
        "Expected to insert 3 workbenches, was 2"
    );
}

#[test]
fn enabled_modules_and_candidates() {
    let names = strings(&["Content paths", "Tags", "Recipes", "Metadata"]);
    assert_eq!(active_modules(&names, &None), vec![0, 1, 2, 3]);
    assert_eq!(
        active_modules(&names, &Some(strings(&["Metadata", "Tags"]))),
        vec![1, 3]
    );
    let p = prep(&["minecraft:stick", "somemod:gear", "bad id", "somemod:box"]);
    assert_eq!(candidate_items(&p, "somemod"), strings(&["somemod:box", "somemod:gear"]));
}

fn action_name(a: &IngestAction) -> String {
    match a {
        IngestAction::DeleteExisting => "delete".to_owned(),
        IngestAction::Prepare(i) => format!("prepare {i}"),
        IngestAction::RegisterItem(s) => format!("register {s}"),
        IngestAction::Execute(i) => format!("execute {i}"),
        IngestAction::Finish(i) => format!("finish {i}"),
        IngestAction::Complete => "complete".to_owned(),
        IngestAction::Fail { error, .. } => format!("fail {error}"),
    }
}

#[test]
fn ingest_run_goes_through_its_phases_in_order() {
    let names = strings(&["Content paths", "Tags"]);
    let (mut run, first) = IngestRun::start(names, &None, "somemod".to_owned(), true);
    let mut seen = vec![action_name(&first)];
    let mut action = first;
    loop {
        let event = match &action {
            IngestAction::Prepare(0) => IngestEvent::Prepared(prep(&["somemod:gear", "minecraft:stick"])),
            IngestAction::Prepare(_) => IngestEvent::Prepared(prep(&["somemod:box"])),
            IngestAction::Complete | IngestAction::Fail { .. } => break,
            _ => IngestEvent::Done,
        };
        action = run.step(event);
        seen.push(action_name(&action));
    }
    assert_eq!(
        seen,
        strings(&[
            "delete",
            "prepare 0",
            "prepare 1",
            "register somemod:box",
            "register somemod:gear",
            "execute 0",
            "execute 1",
            "finish 0",
            "finish 1",
            "complete",
        ])
    );
    assert_eq!(run.phase, IngestPhase::Done);
}

#[test]
fn ingest_run_stops_at_a_failing_part() {
    let names = strings(&["Content paths", "Tags"]);
    let (mut run, first) = IngestRun::start(names, &None, "somemod".to_owned(), false);
    assert_eq!(action_name(&first), "prepare 0");
    let next = run.step(IngestEvent::Prepared(PreparationResult::new()));
    assert_eq!(action_name(&next), "prepare 1");
    match run.step(IngestEvent::Failed("disk full".to_owned())) {
        IngestAction::Fail { issue, error } => {
            let issue = issue.expect("issue");
            assert_eq!(issue.details.as_deref(), Some("Sub-ingestor [Tags] failed PREPARE phase"));
            assert_eq!(issue.file, None);
            assert_eq!(error, "failed to prepare sub-ingestor Tags: disk full");
        }
        other => panic!("unexpected {other:?}"),
    }
    assert_eq!(run.phase, IngestPhase::Failed);
}

#[test]
fn ingest_run_with_no_parts_completes() {
    let (mut run, first) = IngestRun::start(Vec::new(), &None, "somemod".to_owned(), true);
    assert_eq!(action_name(&first), "delete");
    assert_eq!(action_name(&run.step(IngestEvent::Done)), "complete");
}

#[test]
fn builder_names_what_is_missing() {
    let b: IngestorBuilder<String, u8> = IngestorBuilder::new();
    assert_eq!(b.build().err().as_deref(), Some("missing project_id"));
    let b: IngestorBuilder<String, u8> = IngestorBuilder::new()
        .project_id("p".to_owned())
        .modid("somemod".to_owned())
        .version_id(3);
    assert_eq!(b.build().err().as_deref(), Some("missing format"));
    let built = IngestorBuilder::new()
        .project_id("p".to_owned())
        .modid("somemod".to_owned())
        .version_id(3)
        .format("root".to_owned())
        .issues(7u8)
        .delete_existing(true)
        .with("Extra".to_owned())
        .build()
        .ok()
        .expect("complete");
    assert_eq!(built.modules, strings(&["Content paths", "Tags", "Recipes", "Metadata", "Extra"]));
    assert!(built.delete_existing);
    assert_eq!(built.version_id, 3);
}

#[test]
fn stub_recipe_equality() {
    let a = StubRecipe {
        id: "x".to_owned(),
        recipe_type: "t".to_owned(),
        ingredients: vec![],
    };
    assert_eq!(a.clone(), a);
}
