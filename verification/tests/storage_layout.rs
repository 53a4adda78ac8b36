use wiki_storage::format::{
    append_doc_ext, asset_path, compare_entries, docs_entry_name, is_doc_file, strip_doc_ext,
    EntryOrder, LegacyProjectFormat, V1ProjectFormat,
};
use wiki_storage::paths::{is_subpath, join};
use wiki_storage::resloc::ResourceLocation;
use wiki_storage::store::{ProjectCacheProvider, ProjectStore};

fn loc(ns: &str, path: &str) -> ResourceLocation {
    ResourceLocation {
        namespace: ns.to_owned(),
        path: path.to_owned(),
    }
}

#[test]
fn location_parses_namespace_and_path() {
    assert_eq!(
        ResourceLocation::parse("somemod:items/gear"),
        Some(loc("somemod", "items/gear"))
    );
    assert_eq!(ResourceLocation::parse("stone"), Some(loc("minecraft", "stone")));
    assert_eq!(ResourceLocation::parse(":stone"), Some(loc("minecraft", "stone")));
}

#[test]
fn location_rejects_invalid_characters() {
    assert_eq!(ResourceLocation::parse("Minecraft:Stone"), None);
    assert_eq!(ResourceLocation::parse("minecraft:"), None);
    assert_eq!(ResourceLocation::parse("mod:a b"), None);
}

#[test]
fn location_text_parses_back() {
    let l = loc("somemod", "block/gear_box");
    let text = l.to_string();
    assert_eq!(text, "somemod:block/gear_box");
    assert_eq!(ResourceLocation::parse(&text), Some(l));
}

#[test]
fn location_path_prefix() {
    assert_eq!(
        loc("somemod", "gear").with_path_prefix("item/"),
        loc("somemod", "item/gear")
    );
}

#[test]
fn join_follows_path_rules() {
    assert_eq!(join("a", "b"), "a/b");
    assert_eq!(join("a/", "b"), "a/b");
    assert_eq!(join("", "b"), "b");
    assert_eq!(join("a", "/b"), "/b");
}

#[test]
fn subpath_is_by_component() {
    assert!(is_subpath("docs/guide/intro.mdx", "docs"));
    assert!(is_subpath("docs/guide", "docs/guide/"));
    assert!(!is_subpath("docs2/guide", "docs"));
    assert!(is_subpath("./docs/a", "./docs"));
}

#[test]
fn deployment_paths() {
    let store = ProjectStore::new("/srv/wiki".to_owned());
    assert_eq!(store.deployment_root("proj", "dep1"), "/srv/wiki/proj/dep1");
    assert_eq!(
        store.deployment_versioned_path("proj", "dep1", None),
        "/srv/wiki/proj/dep1/latest"
    );
    assert_eq!(
        store.deployment_versioned_path("proj", "dep1", Some("1.20")),
        "/srv/wiki/proj/dep1/1.20"
    );
    assert_eq!(
        store.temp_clone_path("proj", "0123456789abcdef"),
        "/srv/wiki/.temp/proj-012345678"
    );
    assert_eq!(store.temp_clone_path("proj", "abc"), "/srv/wiki/.temp/proj-abc");
}

#[test]
fn cache_keys_share_the_project_prefix() {
    let cache = ProjectCacheProvider::new("proj".to_owned());
    let prefix = ProjectCacheProvider::project_prefix("proj");
    assert_eq!(prefix, "pcache:proj");
    assert_eq!(cache.cache_key("tree"), "pcache:proj:tree");
    assert_eq!(cache.cache_key_with("page", "en_us"), "pcache:proj:page:en_us");
    assert!(cache.cache_key("tree").starts_with(&prefix));
}

#[test]
fn doc_extension_helpers() {
    assert_eq!(append_doc_ext("guide/intro"), "guide/intro.mdx");
    assert_eq!(strip_doc_ext("guide/intro.mdx"), "guide/intro");
    assert_eq!(strip_doc_ext("guide/intro.md"), "guide/intro.md");
    assert!(is_doc_file("intro.mdx"));
    assert!(!is_doc_file("intro.json"));
}

#[test]
fn entry_name_is_camel_case_of_stem() {
    assert_eq!(docs_entry_name("getting_started.mdx"), "gettingStarted");
    assert_eq!(docs_entry_name("advanced-topics"), "advancedTopics");
}

#[test]
fn asset_path_adds_png_without_extension() {
    assert_eq!(
        asset_path("/p/assets", &loc("somemod", "item/gear")),
        "/p/assets/somemod/item/gear.png"
    );
    assert_eq!(
        asset_path("/p/assets", &loc("somemod", "gui/bg.jpg")),
        "/p/assets/somemod/gui/bg.jpg"
    );
}

#[test]
fn folder_entries_order() {
    let none: Vec<String> = Vec::new();
    assert_eq!(compare_entries(&none, "a", "b"), EntryOrder::Less);
    assert_eq!(compare_entries(&none, "b", "a"), EntryOrder::Greater);
    let keys = vec!["z".to_owned(), "a".to_owned()];
    assert_eq!(compare_entries(&keys, "z", "a"), EntryOrder::Less);
    assert_eq!(compare_entries(&keys, "a", "q"), EntryOrder::Less);
    assert_eq!(compare_entries(&keys, "q", "r"), EntryOrder::Equal);
}

#[test]
fn legacy_layout_paths() {
    let f = LegacyProjectFormat::new("/p".to_owned());
    assert_eq!(f.docs_page_file("guide/intro"), "guide/intro.mdx");
    assert_eq!(f.content_page_file("gear"), ".content/gear.mdx");
    assert_eq!(f.unlocalized_path("/guide/intro.mdx"), "/p/guide/intro.mdx");
    assert_eq!(f.item_properties_file(), ".data/properties.json");
    let f = f.with_locale(Some(String::new()));
    assert_eq!(f.localized_candidate("guide/intro.mdx"), None);
}

#[test]
fn v1_layout_paths() {
    let f = V1ProjectFormat::new("/p".to_owned());
    assert_eq!(f.docs_page_file("guide"), "docs/guide.mdx");
    assert_eq!(f.docs_index_page_file(), "docs/_index.mdx");
    assert_eq!(f.content_page_file("gear"), "content/gear.mdx");
    assert_eq!(f.item_properties_file("somemod"), "data/somemod/properties/item.json");
    assert_eq!(
        f.item_asset_from(&loc("somemod", "gear")),
        loc("somemod", "item/gear")
    );
    let f = f.with_locale(Some("de_de".to_owned()));
    assert_eq!(
        f.localized_candidate("/docs/guide.mdx"),
        Some("/p/translated/de_de/docs/guide.mdx".to_owned())
    );
}
