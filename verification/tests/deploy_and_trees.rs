use wiki_storage::deploy_flow::{
    invalid_files_message, missing_source_path_message, source_path_in_repo, version_issue, DeployAction,
    DeployEvent, DeployRun,
};
use wiki_storage::deployment::{
    deployment_failure_issue, file_check, file_check_issue, task_key, FileCheck,
};
use wiki_storage::format::{FolderMetadata, FolderMetadataEntry};
use wiki_storage::issues::{ProjectError, ProjectIssueLevel, ProjectIssueType};
use wiki_storage::realtime::{broadcast_step, keeps_subscription, BroadcastStep, SendOutcome, SubscriberScope};
use wiki_storage::search::{
    collection_schema,
    content_documents, documentation_documents, project_document, project_filter, purge_filter,
    EntryType, SearchProject,
};
use wiki_storage::tasks::TaskRegistry;
use wiki_storage::tree::{
    collect_file_paths, construct_content_tree, entry_order, is_tree_entry, meta_name, tree_entry,
    ContentPageInfo, FileTreeEntry, FileType,
};
use wiki_storage::util::{clean_entry_action, CleanAction};

fn strings(v: &[&str]) -> Vec<String> {
    v.iter().map(|s| s.to_string()).collect()
}

fn describe(a: &DeployAction) -> String {
    match a {
        DeployAction::CreateRecord => "create".to_owned(),
        DeployAction::PrepareDirectories => "prepare".to_owned(),
        DeployAction::MarkLoading => "loading".to_owned(),
        DeployAction::CloneRepository => "clone".to_owned(),
        DeployAction::StoreRevision => "revision".to_owned(),
        DeployAction::SetUpVersion { name, branch, ingest } => {
            format!("setup {} {branch} {ingest}", name.as_deref().unwrap_or("-"))
        }
        DeployAction::RecordIssue { version, issue } => format!(
            "issue {} {:?}",
            version.as_deref().unwrap_or("-"),
            issue.kind
        ),
        DeployAction::Activate => "activate".to_owned(),
        DeployAction::MarkSuccess { keep_versions } => format!("success {}", keep_versions.join(",")),
        DeployAction::RemoveClone => "remove clone".to_owned(),
        DeployAction::CheckIssues => "check".to_owned(),
        DeployAction::FinishSuccess => "finish".to_owned(),
        DeployAction::MarkFailed => "failed".to_owned(),
        DeployAction::Stop { success } => format!("stop {success}"),
    }
}

#[test]
fn deployment_with_versions_succeeds_past_a_failed_version() {
    let (mut run, first) = DeployRun::start("main".to_owned());
    let mut seen = vec![describe(&first)];
    let mut action = first;
    loop {
        let event = match &action {
            DeployAction::Stop { .. } => break,
            DeployAction::SetUpVersion { name: None, .. } => DeployEvent::Versions(vec![
                ("1.20".to_owned(), "mc1.20".to_owned()),
                ("latest".to_owned(), "main".to_owned()),
                ("1.19".to_owned(), "mc1.19".to_owned()),
            ]),
            DeployAction::SetUpVersion { name: Some(n), .. } if n == "1.20" => {
                DeployEvent::Failed(Some((ProjectError::NoPath, "no docs".to_owned())))
            }
            _ => DeployEvent::Done,
        };
        action = run.step(event);
        seen.push(describe(&action));
    }
    assert_eq!(
        seen,
        strings(&[
            "create",
            "prepare",
            "loading",
            "clone",
            "revision",
            "setup - main true",
            "setup 1.20 mc1.20 false",
            "issue 1.20 VersionSetup",
            "setup 1.19 mc1.19 false",
            "activate",
            "success 1.20,latest,1.19",
            "remove clone",
            "finish",
            "stop true",
        ])
    );
}

#[test]
fn failed_clone_is_cleaned_up_and_reported() {
    let (mut run, _) = DeployRun::start("main".to_owned());
    run.step(DeployEvent::Done);
    run.step(DeployEvent::Done);
    let after_loading = run.step(DeployEvent::Done);
    assert_eq!(describe(&after_loading), "clone");
    let a = run.step(DeployEvent::Failed(Some((ProjectError::NoRepository, "Repository not found.".to_owned()))));
    assert_eq!(describe(&a), "remove clone");
    assert_eq!(describe(&run.step(DeployEvent::Done)), "check");
    match run.step(DeployEvent::HasErrors(false)) {
        DeployAction::RecordIssue { version: None, issue } => {
            assert_eq!(issue.kind, ProjectIssueType::GitClone);
            assert_eq!(issue.subject, ProjectError::NoRepository);
            assert_eq!(issue.details.as_deref(), Some("Repository not found."));
        }
        other => panic!("unexpected {other:?}"),
    }
    assert_eq!(describe(&run.step(DeployEvent::Done)), "failed");
    assert_eq!(describe(&run.step(DeployEvent::Done)), "stop false");
}

#[test]
fn failure_before_the_pipeline_stops_at_once() {
    let (mut run, _) = DeployRun::start("main".to_owned());
    assert_eq!(describe(&run.step(DeployEvent::Failed(None))), "stop false");
}

#[test]
fn failure_issues() {
    let issue = deployment_failure_issue(None);
    assert_eq!(issue.kind, ProjectIssueType::Internal);
    assert_eq!(issue.subject, ProjectError::Unknown);
    assert_eq!(issue.details.as_deref(), Some("Unexpected error during deployment"));
    let issue = version_issue("1.19", None);
    assert_eq!(issue.kind, ProjectIssueType::VersionSetup);
    assert_eq!(issue.details.as_deref(), Some("Unknown error setting up version 1.19"));
    assert_eq!(issue.level, ProjectIssueLevel::Error);
    assert_eq!(task_key("proj"), "deploy:proj");
}

#[test]
fn version_files() {
    assert_eq!(source_path_in_repo("//docs/wiki"), "docs/wiki");
    assert_eq!(
        missing_source_path_message("/docs"),
        "Source path 'docs' not found in repository"
    );
    assert_eq!(invalid_files_message(), "Project contains invalid or malformed files");
    assert_eq!(file_check(".mdx"), FileCheck::Frontmatter);
    assert_eq!(file_check(".json"), FileCheck::Json);
    assert_eq!(file_check(".png"), FileCheck::Unchecked);
    let issue = file_check_issue(None, "docs/a.mdx".to_owned());
    assert_eq!(issue.kind, ProjectIssueType::File);
    assert_eq!(issue.subject, ProjectError::InvalidFile);
    assert_eq!(issue.file.as_deref(), Some("docs/a.mdx"));
}

#[test]
fn tasks_run_once_per_key() {
    let mut tasks = TaskRegistry::new();
    assert!(tasks.begin("deploy:a"));
    assert!(!tasks.begin("deploy:a"));
    assert!(tasks.begin("deploy:b"));
    assert!(tasks.has_pending("deploy:a"));
    tasks.finish("deploy:a");
    assert!(!tasks.has_pending("deploy:a"));
    assert!(tasks.begin("deploy:a"));
}

#[test]
fn broadcast_steps() {
    let scoped = SubscriberScope::Projects(strings(&["a"]));
    assert_eq!(broadcast_step(false, &SubscriberScope::Global, "a"), BroadcastStep::Drop);
    assert_eq!(broadcast_step(true, &scoped, "b"), BroadcastStep::Skip);
    assert_eq!(broadcast_step(true, &scoped, "a"), BroadcastStep::Send);
    assert!(keeps_subscription(SendOutcome::Full));
    assert!(!keeps_subscription(SendOutcome::Closed));
}

#[test]
fn cleaning_keeps_listed_paths() {
    let keep = strings(&["assets/minecraft/lang"]);
    assert_eq!(clean_entry_action("assets", true, &keep), CleanAction::Descend);
    assert_eq!(clean_entry_action("assets/minecraft/lang", true, &keep), CleanAction::Keep);
    assert_eq!(clean_entry_action("data", true, &keep), CleanAction::RemoveDir);
    assert_eq!(clean_entry_action("client.jar", false, &keep), CleanAction::RemoveFile);
}

#[test]
fn folder_entries_sort_stably() {
    let names = strings(&["b.mdx", "a.mdx", "c", "d.mdx"]);
    let none: Vec<String> = Vec::new();
    assert_eq!(entry_order(&none, &names), vec![1, 0, 2, 3]);
    let keys = strings(&["d.mdx", "b.mdx"]);
    assert_eq!(entry_order(&keys, &names), vec![3, 0, 1, 2]);
}

#[test]
fn tree_entries() {
    assert!(is_tree_entry("intro.mdx", false, true));
    assert!(is_tree_entry("guide", true, false));
    assert!(!is_tree_entry("_meta.json", false, true));
    assert!(!is_tree_entry(".git", true, false));
    assert!(!is_tree_entry("logo.png", false, true));

    let mut meta = FolderMetadata::default();
    meta.add(
        "guide".to_owned(),
        FolderMetadataEntry {
            name: "The Guide".to_owned(),
            icon: "book".to_owned(),
        },
    );
    let dir = tree_entry(&meta, "guide", true, "docs/guide".to_owned(), "guide".to_owned(), None, None, Vec::new());
    assert_eq!(dir.name, "The Guide");
    assert_eq!(dir.icon.as_deref(), Some("book"));
    assert_eq!(dir.path, "docs/guide");
    assert_eq!(dir.file_type, FileType::Dir);
    let file = tree_entry(
        &meta,
        "getting_started.mdx",
        false,
        "docs/getting_started.mdx".to_owned(),
        "getting_started".to_owned(),
        None,
        Some("minecraft:book".to_owned()),
        Vec::new(),
    );
    assert_eq!(file.name, "gettingStarted");
    assert_eq!(file.icon, None);
    assert_eq!(file.content_icon.as_deref(), Some("minecraft:book"));
    assert_eq!(file.path, "getting_started");
    assert_eq!(meta_name("intro.mdx", String::new(), Some("Intro".to_owned())), "Intro");
    assert_eq!(meta_name("intro.mdx", String::new(), None), "intro");
    assert_eq!(meta_name("intro.mdx", "Start".to_owned(), Some("Intro".to_owned())), "Start");
}

fn file(name: &str, path: &str) -> FileTreeEntry {
    FileTreeEntry {
        name: name.to_owned(),
        icon: None,
        content_icon: None,
        path: path.to_owned(),
        file_type: FileType::File,
        children: Vec::new(),
    }
}

fn sample_tree() -> Vec<FileTreeEntry> {
    vec![
        file("Intro", "intro"),
        FileTreeEntry {
            name: "Items".to_owned(),
            icon: None,
            content_icon: None,
            path: "items".to_owned(),
            file_type: FileType::Dir,
            children: vec![file("Gear", "items/gear"), file("Box", "items/box")],
        },
    ]
}

#[test]
fn file_paths_depth_first() {
    assert_eq!(collect_file_paths(&sample_tree()), strings(&["intro", "items/gear", "items/box"]));
}

#[test]
fn content_tree_keeps_pages_with_references() {
    let refs = vec![
        ("items/gear".to_owned(), "gear".to_owned()),
        ("intro".to_owned(), "intro".to_owned()),
    ];
    let pages = vec![
        ContentPageInfo {
            path: "items/gear".to_owned(),
            item_ids: strings(&["somemod:gear"]),
            icon: None,
        },
        ContentPageInfo {
            path: "items/box".to_owned(),
            item_ids: strings(&["somemod:box"]),
            icon: None,
        },
    ];
    let tree = construct_content_tree(&sample_tree(), &refs, &pages);
    assert_eq!(tree.len(), 1);
    assert_eq!(tree[0].file_type, FileType::Dir);
    assert_eq!(tree[0].children.len(), 1);
    let gear = &tree[0].children[0];
    assert_eq!(gear.page_ref.as_deref(), Some("gear"));
    assert_eq!(gear.icon.as_deref(), Some("somemod:gear"));
    assert_eq!(gear.item_ids, strings(&["somemod:gear"]));

    let project = SearchProject {
        id: "proj".to_owned(),
        name: "Project".to_owned(),
        project_type: "mod".to_owned(),
    };
    let docs = content_documents(&tree, &project, "dep1");
    assert_eq!(docs.len(), 1);
    assert_eq!(docs[0].id, "proj::content::gear");
    assert_eq!(docs[0].entry_type, EntryType::Content);
    assert_eq!(docs[0].item_ids, strings(&["somemod:gear"]));
}

#[test]
fn search_documents_of_a_project() {
    let project = SearchProject {
        id: "proj".to_owned(),
        name: "Project".to_owned(),
        project_type: "mod".to_owned(),
    };
    let p = project_document(&project, "dep1", Some("https://img/icon.png".to_owned()));
    assert_eq!(p.id, "proj::project");
    assert_eq!(p.title, "Project");
    assert_eq!(p.project_icon_url.as_deref(), Some("https://img/icon.png"));
    let docs = documentation_documents(&sample_tree(), &project, "dep1");
    let ids: Vec<&str> = docs.iter().map(|d| d.id.as_str()).collect();
    assert_eq!(
        ids,
        vec![
            "proj::documentation::intro",
            "proj::documentation::items/gear",
            "proj::documentation::items/box"
        ]
    );
    assert!(docs.iter().all(|d| d.deployment_id == "dep1" && d.project_id == "proj"));
    assert_eq!(docs[1].page_ref.as_deref(), Some("items/gear"));
    assert_eq!(
        purge_filter("proj", "dep1", true),
        "project_id:=`proj` && deployment_id:!=`dep1`"
    );
    assert_eq!(
        purge_filter("proj", "dep1", false),
        "project_id:=`proj` && deployment_id:=`dep1`"
    );
    assert_eq!(project_filter("proj"), "project_id:=`proj`");
}

#[test]
fn search_collection_schema() {
    let schema = collection_schema("wiki");
    assert_eq!(schema.name, "wiki");
    let names: Vec<&str> = schema.fields.iter().map(|f| f.name.as_str()).collect();
    assert_eq!(
        names,
        vec![
            "entry_type", "title", "page_ref", "project_id", "project_name", "project_type",
            "project_icon_url", "icon", "item_ids", "deployment_id"
        ]
    );
    let facets: Vec<&str> = schema.fields.iter().filter(|f| f.facet == Some(true)).map(|f| f.name.as_str()).collect();
    assert_eq!(facets, vec!["entry_type", "project_id"]);
    let icon = &schema.fields[7];
    assert_eq!((icon.optional, icon.index, icon.store), (Some(true), Some(false), None));
    let deployment = &schema.fields[9];
    assert_eq!((deployment.optional, deployment.index, deployment.store), (Some(true), None, Some(false)));
    assert_eq!(schema.fields[8].field_type, "string[]");
}
