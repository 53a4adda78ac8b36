//! Where projects and their deployments live on disk, and the keys of their cache entries.
use vstd::prelude::*;
use crate::paths::{byte_prefix, bytes_end_on_char, chars_within, join, path_join};
use crate::text::{concat2, concat3, owned, push_str};

verus! {

/// The folder of a deployment when no version is named.
pub const LATEST_VERSION: &'static str = "latest";

/// The folder of temporary clones, under the base path.
pub const TEMP_DIR: &'static str = ".temp";

/// The tree of project folders under one base path.
pub struct ProjectStore {
    base_path: String,
}

impl ProjectStore {
    /// A store rooted at `base_path` (the application creates the folder).
    pub fn new(base_path: String) -> (r: ProjectStore)
        ensures
            r.base()@ == base_path@,
    {
        ProjectStore { base_path }
    }

    pub closed spec fn base(&self) -> String {
        self.base_path
    }

    pub fn base_path(&self) -> (r: &str)
        ensures
            r@ == self.base()@,
    {
        self.base_path.as_str()
    }

    /// `base/project_id/deployment_id`.
    pub fn deployment_root(&self, project_id: &str, deployment_id: &str) -> (r: String)
        ensures
            r@ == path_join(path_join(self.base()@, project_id@), deployment_id@),
    {
        let p = join(self.base_path.as_str(), project_id);
        join(p.as_str(), deployment_id)
    }

    /// The deployment root joined with the version, `latest` when none is named.
    pub fn deployment_versioned_path(
        &self,
        project_id: &str,
        deployment_id: &str,
        version: Option<&str>,
    ) -> (r: String)
        ensures
            r@ == path_join(
                path_join(path_join(self.base()@, project_id@), deployment_id@),
                match version {
                    Some(v) => v@,
                    None => LATEST_VERSION@,
                },
            ),
    {
        let root = self.deployment_root(project_id, deployment_id);
        let v = match version {
            Some(v) => v,
            None => LATEST_VERSION,
        };
        join(root.as_str(), v)
    }

    /// `base/.temp/PROJECT-SHORT`, SHORT the first 9 bytes of the deployment id.
    pub fn temp_clone_path(&self, project_id: &str, deployment_id: &str) -> (r: String)
        requires
            bytes_end_on_char(deployment_id@, 9),
        ensures
            r@ == path_join(
                path_join(self.base()@, TEMP_DIR@),
                project_id@ + "-"@ + deployment_id@.subrange(
                    0,
                    chars_within(deployment_id@, 9) as int,
                ),
            ),
    {
        let short_id = byte_prefix(deployment_id, 9);
        let name = concat3(project_id, "-", short_id.as_str());
        let t = join(self.base_path.as_str(), TEMP_DIR);
        join(t.as_str(), name.as_str())
    }

    /// `base/project_id`.
    pub fn project_dir(&self, project_id: &str) -> (r: String)
        ensures
            r@ == path_join(self.base()@, project_id@),
    {
        join(self.base_path.as_str(), project_id)
    }
}

/// The prefix of every cache key.
pub const KEY_PREFIX: &'static str = "pcache";

/// Cache keys of one project: `pcache:PROJECT:BASE[:SPECIFIER]`.
#[derive(Debug, Clone)]
pub struct ProjectCacheProvider {
    project_id: String,
}

impl ProjectCacheProvider {
    pub fn new(project_id: String) -> (r: ProjectCacheProvider)
        ensures
            r.project()@ == project_id@,
    {
        ProjectCacheProvider { project_id }
    }

    pub closed spec fn project(&self) -> String {
        self.project_id
    }

    /// The prefix shared by all keys of the project (what clearing its cache erases).
    pub fn project_prefix(project_id: &str) -> (r: String)
        ensures
            r@ == KEY_PREFIX@ + ":"@ + project_id@,
    {
        concat3(KEY_PREFIX, ":", project_id)
    }

    pub fn cache_key(&self, base: &str) -> (r: String)
        ensures
            r@ == KEY_PREFIX@ + ":"@ + self.project()@ + ":"@ + base@,
    {
        let mut r = concat3(KEY_PREFIX, ":", self.project_id.as_str());
        push_str(&mut r, ":");
        push_str(&mut r, base);
        r
    }

    pub fn cache_key_with(&self, base: &str, specifier: &str) -> (r: String)
        ensures
            r@ == KEY_PREFIX@ + ":"@ + self.project()@ + ":"@ + base@ + ":"@ + specifier@,
    {
        let mut r = self.cache_key(base);
        push_str(&mut r, ":");
        push_str(&mut r, specifier);
        r
    }
}

/// Law: every key of a project starts with the project's prefix, so clearing the
/// prefix clears them all.
pub proof fn lemma_keys_under_prefix(project: Seq<char>, base: Seq<char>, specifier: Seq<char>)
    ensures
        crate::text::has_prefix(
            KEY_PREFIX@ + ":"@ + project + ":"@ + base,
            KEY_PREFIX@ + ":"@ + project,
        ),
        crate::text::has_prefix(
            KEY_PREFIX@ + ":"@ + project + ":"@ + base + ":"@ + specifier,
            KEY_PREFIX@ + ":"@ + project,
        ),
{
    let p = KEY_PREFIX@ + ":"@ + project;
    assert((p + ":"@ + base).subrange(0, p.len() as int) =~= p);
    assert((p + ":"@ + base + ":"@ + specifier).subrange(0, p.len() as int) =~= p);
}

} // verus!
