use wiki_storage::frontmatter::{frontmatter_block, FrontmatterError};
use wiki_storage::git::{
    classify_clone_message, exceeds_size_limit, format_commit_url, format_edit_url, format_iso_time,
    get_git_provider, head_ref_for, is_local_url, remote_branch_name, short_hash,
};
use wiki_storage::issues::ProjectError;
use wiki_storage::loader::{loader_for, lex_less, Forge, GameVersion, LoaderKind, NeoForge};
use wiki_storage::markdown::{collect_links, first_h1, MdKind, MdNode};
use wiki_storage::maven::{collect_versions, parse_maven_versions, XmlEvent};

fn strings(v: &[&str]) -> Vec<String> {
    v.iter().map(|s| s.to_string()).collect()
}

#[test]
fn game_version_components() {
    let v = GameVersion::parse("1.20.4");
    assert_eq!(v.components(), &[1, 20, 4]);
    assert!(v.is_numbered());
    assert!(v.at_least(&[1, 20, 2]));
    let pre = GameVersion::parse("1.21-pre1");
    assert_eq!(pre.components(), &[1, 21]);
    let snapshot = GameVersion::parse("24w14a");
    assert_eq!(snapshot.components(), &[24]);
    assert!(!snapshot.is_numbered());
    assert_eq!(snapshot.as_str(), "24w14a");
}

#[test]
fn version_order_is_lexicographic() {
    assert!(lex_less(&[1, 20], &[1, 20, 2]));
    assert!(lex_less(&[1, 19, 4], &[1, 20]));
    assert!(!lex_less(&[1, 20, 2], &[1, 20, 2]));
}

#[test]
fn loader_by_game_version() {
    assert_eq!(loader_for(&GameVersion::parse("1.21.1")), Some(LoaderKind::NeoForge));
    assert_eq!(loader_for(&GameVersion::parse("1.20.2")), Some(LoaderKind::NeoForge));
    assert_eq!(loader_for(&GameVersion::parse("1.20.1")), Some(LoaderKind::Forge));
    assert_eq!(loader_for(&GameVersion::parse("24w14a")), None);
}

#[test]
fn neoforge_prefixes() {
    assert_eq!(NeoForge::get_version_prefixes("1.21"), strings(&["1.21.0", "21.0"]));
    assert_eq!(NeoForge::get_version_prefixes("1.21.1"), strings(&["1.21.1", "21.1"]));
    assert_eq!(NeoForge::get_version_prefixes("2.0"), strings(&["2.0.0"]));
}

#[test]
fn neoforge_build_parse() {
    assert_eq!(NeoForge::parse_version("77"), Some((77, true)));
    assert_eq!(NeoForge::parse_version("12-beta"), Some((12, false)));
    assert_eq!(NeoForge::parse_version("12x"), None);
    assert_eq!(NeoForge::parse_version("-beta"), None);
}

#[test]
fn neoforge_prefers_stable_then_newest() {
    let versions = strings(&["21.1.5", "21.1.77", "21.1.80-beta", "21.0.3", "20.4.200"]);
    assert_eq!(
        NeoForge::select_neoforge_version(&versions, "1.21.1"),
        Some("21.1.77".to_owned())
    );
    let betas = strings(&["21.1.1-beta", "21.1.2-beta"]);
    assert_eq!(
        NeoForge::select_neoforge_version(&betas, "1.21.1"),
        Some("21.1.2-beta".to_owned())
    );
    assert_eq!(NeoForge::select_neoforge_version(&versions, "1.19.2"), None);
}

#[test]
fn forge_selection() {
    assert_eq!(
        Forge::parse_version("1.20.1-47.2.0", "1.20.1"),
        Some((vec![47, 2, 0], true))
    );
    assert_eq!(
        Forge::parse_version("1.20.1-47.1.3-beta", "1.20.1"),
        Some((vec![47, 1, 3], false))
    );
    assert_eq!(Forge::parse_version("1.20.1-x", "1.20.1"), None);
    let versions = strings(&["1.20.1-47.1.0", "1.20.1-47.2.0", "1.20.1-47.10.0-beta", "1.19.2-43.0.0"]);
    assert_eq!(
        Forge::select_version(&versions, "1.20.1"),
        Some("1.20.1-47.10.0-beta".to_owned())
    );
}

#[test]
fn loader_urls() {
    assert_eq!(
        LoaderKind::NeoForge.metadata_url(),
        "https://maven.neoforged.net/releases/net/neoforged/neoforge/maven-metadata.xml"
    );
    assert_eq!(
        LoaderKind::Forge.jar_url("1.20.1-47.2.0"),
        "https://maven.minecraftforge.net/releases/net/minecraftforge/forge/1.20.1-47.2.0/forge-1.20.1-47.2.0-universal.jar"
    );
    assert_eq!(LoaderKind::NeoForge.items_listing_dir(), "assets/minecraft/items");
    assert_eq!(LoaderKind::Forge.items_listing_dir(), "assets/minecraft/models/item");
}

#[test]
fn maven_metadata_versions() {
    let xml = "<metadata><versioning><versions><version>1.0</version><version>1.1</version></versions></versioning></metadata>";
    assert_eq!(parse_maven_versions(xml).unwrap(), strings(&["1.0", "1.1"]));
    let outside = "<metadata><version>9</version><versioning><versions></versions></versioning></metadata>";
    assert!(parse_maven_versions(outside).is_err());
}

#[test]
fn maven_event_scan() {
    let events = vec![
        XmlEvent::Start("versioning".to_owned()),
        XmlEvent::Start("versions".to_owned()),
        XmlEvent::Start("version".to_owned()),
        XmlEvent::Text("2.0".to_owned()),
        XmlEvent::End("version".to_owned()),
        XmlEvent::End("versions".to_owned()),
        XmlEvent::End("versioning".to_owned()),
    ];
    assert_eq!(collect_versions(&events).unwrap(), strings(&["2.0"]));
    let none: Vec<XmlEvent> = Vec::new();
    assert_eq!(
        collect_versions(&none).unwrap_err().to_string(),
        "could not find any versions in maven metadata"
    );
}

#[test]
fn git_links() {
    assert!(get_git_provider("https://github.com/a/b").is_some());
    assert!(get_git_provider("https://gitlab.com/a/b").is_none());
    assert_eq!(
        format_commit_url("https://github.com/a/b/", "abc123"),
        Some("https://github.com/a/b/commit/abc123".to_owned())
    );
    assert_eq!(
        format_edit_url("https://github.com/a/b", "main", "/docs", "guide/intro.mdx/"),
        Some("https://github.com/a/b/blob/main/docs/guide/intro.mdx".to_owned())
    );
    assert_eq!(format_edit_url("https://example.com/a", "main", "docs", "x"), None);
}

#[test]
fn clone_error_classification() {
    assert_eq!(
        classify_clone_message("Repository NOT FOUND"),
        Some((ProjectError::NoRepository, "Repository not found.".to_owned()))
    );
    assert_eq!(
        classify_clone_message("remote authentication required"),
        Some((ProjectError::RequiresAuth, "Authentication required.".to_owned()))
    );
    assert_eq!(
        classify_clone_message("Remote branch dev missing"),
        Some((ProjectError::NoBranch, "Requested branch not found.".to_owned()))
    );
    assert_eq!(
        classify_clone_message("early EOF"),
        Some((ProjectError::RepoTooLarge, "Repository clone failed (network/size).".to_owned()))
    );
    assert_eq!(classify_clone_message("something else"), None);
}

#[test]
fn clone_settings() {
    assert!(is_local_url("file:///tmp/repo"));
    assert!(is_local_url("/tmp/repo"));
    assert!(!is_local_url("https://github.com/a/b"));
    assert!(!exceeds_size_limit(500 * 1024 * 1024));
    assert!(exceeds_size_limit(500 * 1024 * 1024 + 1));
}

#[test]
fn revision_helpers() {
    assert_eq!(short_hash("0123456789abcdef"), "0123456");
    assert_eq!(short_hash("abc"), "abc");
    assert_eq!(remote_branch_name("origin/main"), Some("main".to_owned()));
    assert_eq!(remote_branch_name("origin/HEAD"), None);
    assert_eq!(remote_branch_name("upstream/main"), None);
    assert_eq!(head_ref_for("refs/remotes/origin/dev"), "refs/heads/dev");
    assert_eq!(head_ref_for("refs/tags/v1"), "refs/tags/v1");
    assert_eq!(format_iso_time(0), "1970-01-01T00:00:00Z");
    assert_eq!(format_iso_time(86_400 + 3_661), "1970-01-02T01:01:01Z");
}

#[test]
fn frontmatter_blocks() {
    let page = "---\nid: somemod:gear\ntitle: Gear\n---\n# Gear\n";
    assert_eq!(
        frontmatter_block(page).unwrap(),
        Some("id: somemod:gear\ntitle: Gear\n".to_owned())
    );
    assert_eq!(frontmatter_block("# Gear\n").unwrap(), None);
    assert!(matches!(
        frontmatter_block("---\nid: x\n"),
        Err(FrontmatterError::NoClosingDelimiter)
    ));
}

fn node(kind: MdKind, children: Vec<MdNode>) -> MdNode {
    MdNode { kind, children }
}

#[test]
fn markdown_title_and_links() {
    let tree = node(
        MdKind::Other,
        vec![
            node(MdKind::Yaml("id: x".to_owned()), vec![]),
            node(
                MdKind::Heading(2),
                vec![node(MdKind::Text("Intro".to_owned()), vec![])],
            ),
            node(
                MdKind::Heading(1),
                vec![
                    node(MdKind::Text("  Gear ".to_owned()), vec![]),
                    node(
                        MdKind::Link("https://example.com".to_owned()),
                        vec![node(MdKind::Text("Box".to_owned()), vec![])],
                    ),
                ],
            ),
            node(MdKind::Link("/other".to_owned()), vec![]),
        ],
    );
    assert_eq!(first_h1(&tree), Some("Gear Box".to_owned()));
    assert_eq!(
        collect_links(&tree),
        strings(&["https://example.com", "/other"])
    );
}

#[test]
fn maven_versions_only_inside_versioning() {
    let xml = "<metadata><version>0.9</version><versioning><latest>2.0</latest><versions><version>1.0</version><version>2.0</version></versions></versioning></metadata>";
    assert_eq!(parse_maven_versions(xml).unwrap(), strings(&["1.0", "2.0"]));
    let empty = "<metadata><versioning><versions></versions></versioning></metadata>";
    let err = parse_maven_versions(empty).unwrap_err();
    assert_eq!(err.to_string(), "could not find any versions in maven metadata");
    let broken = "<metadata><versioning></metadata>";
    assert!(parse_maven_versions(broken).unwrap_err().to_string().starts_with("XML parse error: "));
}
