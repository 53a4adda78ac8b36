//! The course of a deployment: cloning, setting up each version of the project,
//! activating the result, and cleaning up after success or failure, told one step
//! at a time to whoever performs them.
use vstd::prelude::*;
use crate::deployment::{deployment_failure_issue, spec_failure_kind};
use crate::issues::{IssueView, ProjectError, ProjectIssue, ProjectIssueLevel, ProjectIssueType};
use crate::text::{concat2, concat3, str_eq, trim_start_char, trim_start_char_str};

verus! {

/// A failure as a deployment sees it: a project error with its message, or another one.
pub open spec fn failure_view(f: Option<(ProjectError, String)>) -> Option<(ProjectError, Seq<char>)> {
    match f {
        Some((e, m)) => Some((e, m@)),
        None => None,
    }
}

/// The issue recorded for a failed deployment.
pub open spec fn spec_failure_issue(f: Option<(ProjectError, Seq<char>)>) -> IssueView {
    match f {
        Some((e, m)) => IssueView {
            level: ProjectIssueLevel::Error,
            kind: spec_failure_kind(e),
            subject: e,
            details: Some(m),
            file: None,
        },
        None => IssueView {
            level: ProjectIssueLevel::Error,
            kind: ProjectIssueType::Internal,
            subject: ProjectError::Unknown,
            details: Some("Unexpected error during deployment"@),
            file: None,
        },
    }
}

/// The issue recorded for a version `name` that could not be set up.
pub open spec fn spec_version_issue(name: Seq<char>, f: Option<(ProjectError, Seq<char>)>) -> IssueView {
    match f {
        Some((e, m)) => IssueView {
            level: ProjectIssueLevel::Error,
            kind: ProjectIssueType::VersionSetup,
            subject: e,
            details: Some(m),
            file: None,
        },
        None => IssueView {
            level: ProjectIssueLevel::Error,
            kind: ProjectIssueType::VersionSetup,
            subject: ProjectError::Unknown,
            details: Some("Unknown error setting up version "@ + name),
            file: None,
        },
    }
}

pub fn version_issue(name: &str, f: Option<(ProjectError, String)>) -> (r: ProjectIssue)
    ensures
        r@ == spec_version_issue(name@, failure_view(f)),
{
    match f {
        Some((e, m)) => ProjectIssue {
            level: ProjectIssueLevel::Error,
            kind: ProjectIssueType::VersionSetup,
            subject: e,
            details: Some(m),
            file: None,
        },
        None => ProjectIssue {
            level: ProjectIssueLevel::Error,
            kind: ProjectIssueType::VersionSetup,
            subject: ProjectError::Unknown,
            details: Some(concat2("Unknown error setting up version ", name)),
            file: None,
        },
    }
}

// ----- a version's files -----

/// Where a version's documents lie in the clone: the project's source path without
/// leading `/`.
pub fn source_path_in_repo(source_path: &str) -> (r: String)
    ensures
        r@ == trim_start_char(source_path@, '/'),
{
    trim_start_char_str(source_path, '/')
}

/// The message when a version's source path is not in the repository.
pub fn missing_source_path_message(source_path: &str) -> (r: String)
    ensures
        r@ == "Source path '"@ + trim_start_char(source_path@, '/') + "' not found in repository"@,
{
    let p = source_path_in_repo(source_path);
    concat3("Source path '", p.as_str(), "' not found in repository")
}

/// The message when the source path of a project being checked is missing.
pub fn missing_checked_path_message(source_path: &str) -> (r: String)
    ensures
        r@ == "Source path '"@ + source_path@ + "' not found"@,
{
    concat3("Source path '", source_path, "' not found")
}

/// The message of a version whose files did not pass the checks.
pub fn invalid_files_message() -> (r: String)
    ensures
        r@ == "Project contains invalid or malformed files"@,
{
    crate::text::owned("Project contains invalid or malformed files")
}

// ----- the steps of a deployment -----

/// The versions to set up besides the one on the project's own branch.
pub open spec fn other_versions(vs: Seq<(Seq<char>, Seq<char>)>, source_branch: Seq<char>) -> Seq<(Seq<char>, Seq<char>)>
    decreases vs.len(),
{
    if vs.len() == 0 {
        Seq::empty()
    } else {
        let rest = other_versions(vs.drop_last(), source_branch);
        if vs.last().1 == source_branch {
            rest
        } else {
            rest.push(vs.last())
        }
    }
}

pub open spec fn version_pairs(v: Seq<(String, String)>) -> Seq<(Seq<char>, Seq<char>)> {
    v.map_values(|p: (String, String)| (p.0@, p.1@))
}

pub open spec fn names_of(v: Seq<(String, String)>) -> Seq<Seq<char>> {
    v.map_values(|p: (String, String)| p.0@)
}

/// Where a deployment is.
#[derive(Debug, Clone, Copy, PartialEq, Eq, Structural)]
pub enum DeployStage {
    Create,
    Prepare,
    Loading,
    Clone,
    Revision,
    SetupDefault,
    SetupVersion,
    VersionIssue,
    Activate,
    MarkSuccess,
    CleanupAfterSuccess,
    FinishSuccess,
    CleanupAfterFailure,
    CheckIssues,
    RecordFailure,
    MarkFailed,
    Succeeded,
    Failed,
}

/// What to do next.
#[derive(Debug)]
pub enum DeployAction {
    /// Create the deployment's record.
    CreateRecord,
    /// Announce the deployment, and empty its folder and its clone's.
    PrepareDirectories,
    /// Mark the deployment as loading, and announce it.
    MarkLoading,
    /// Clone the project's repository.
    CloneRepository,
    /// Read the revision of the clone, store it, and announce it.
    StoreRevision,
    /// Set up the version `name` (the project's own when none) from `branch`,
    /// ingesting its data when `ingest` is set.
    SetUpVersion { name: Option<String>, branch: String, ingest: bool },
    /// Record an issue (about the version named, when one is).
    RecordIssue { version: Option<String>, issue: ProjectIssue },
    /// Make the deployment the project's active one.
    Activate,
    /// Mark the deployment as successful, and drop the stored versions not named.
    MarkSuccess { keep_versions: Vec<String> },
    /// Remove the clone.
    RemoveClone,
    /// Ask whether the deployment has recorded errors.
    CheckIssues,
    /// Remove the previous deployment's folder, refresh what depends on the project,
    /// and announce the success.
    FinishSuccess,
    /// Mark the deployment as failed, remove its folder, and announce the failure.
    MarkFailed,
    /// The deployment is over; it succeeded or not.
    Stop { success: bool },
}

/// How the last action went.
pub enum DeployEvent {
    Done,
    /// The default version was set up; it names these versions (name and branch).
    Versions(Vec<(String, String)>),
    /// The deployment has recorded errors, or not.
    HasErrors(bool),
    Failed(Option<(ProjectError, String)>),
    /// The version's source path (the project's, as configured) is not in the clone.
    SourceMissing(String),
    /// Some of the version's files did not pass their checks.
    FilesInvalid,
}

pub enum DeployEventView {
    Done,
    Versions(Seq<(Seq<char>, Seq<char>)>),
    HasErrors(bool),
    Failed(Option<(ProjectError, Seq<char>)>),
    SourceMissing(Seq<char>),
    FilesInvalid,
}

impl View for DeployEvent {
    type V = DeployEventView;

    open spec fn view(&self) -> DeployEventView {
        match self {
            DeployEvent::Done => DeployEventView::Done,
            DeployEvent::Versions(v) => DeployEventView::Versions(version_pairs(v@)),
            DeployEvent::HasErrors(b) => DeployEventView::HasErrors(*b),
            DeployEvent::Failed(f) => DeployEventView::Failed(failure_view(*f)),
            DeployEvent::SourceMissing(p) => DeployEventView::SourceMissing(p@),
            DeployEvent::FilesInvalid => DeployEventView::FilesInvalid,
        }
    }
}

pub enum DeployActionView {
    CreateRecord,
    PrepareDirectories,
    MarkLoading,
    CloneRepository,
    StoreRevision,
    SetUpVersion(Option<Seq<char>>, Seq<char>, bool),
    RecordIssue(Option<Seq<char>>, IssueView),
    Activate,
    MarkSuccess(Seq<Seq<char>>),
    RemoveClone,
    CheckIssues,
    FinishSuccess,
    MarkFailed,
    Stop(bool),
}

impl View for DeployAction {
    type V = DeployActionView;

    open spec fn view(&self) -> DeployActionView {
        match self {
            DeployAction::CreateRecord => DeployActionView::CreateRecord,
            DeployAction::PrepareDirectories => DeployActionView::PrepareDirectories,
            DeployAction::MarkLoading => DeployActionView::MarkLoading,
            DeployAction::CloneRepository => DeployActionView::CloneRepository,
            DeployAction::StoreRevision => DeployActionView::StoreRevision,
            DeployAction::SetUpVersion { name, branch, ingest } => DeployActionView::SetUpVersion(
                crate::issues::opt_view(*name),
                branch@,
                *ingest,
            ),
            DeployAction::RecordIssue { version, issue } => DeployActionView::RecordIssue(
                crate::issues::opt_view(*version),
                issue@,
            ),
            DeployAction::Activate => DeployActionView::Activate,
            DeployAction::MarkSuccess { keep_versions } => DeployActionView::MarkSuccess(
                keep_versions@.map_values(|s: String| s@),
            ),
            DeployAction::RemoveClone => DeployActionView::RemoveClone,
            DeployAction::CheckIssues => DeployActionView::CheckIssues,
            DeployAction::FinishSuccess => DeployActionView::FinishSuccess,
            DeployAction::MarkFailed => DeployActionView::MarkFailed,
            DeployAction::Stop { success } => DeployActionView::Stop(*success),
        }
    }
}

/// A deployment of a project whose own branch is `source_branch`.
pub struct DeployRun {
    pub stage: DeployStage,
    pub source_branch: String,
    pub others: Vec<(String, String)>,
    pub version_names: Vec<String>,
    pub pos: usize,
    pub failure: Option<(ProjectError, String)>,
}

pub struct DeployState {
    pub stage: DeployStage,
    pub source_branch: Seq<char>,
    pub others: Seq<(Seq<char>, Seq<char>)>,
    pub version_names: Seq<Seq<char>>,
    pub pos: int,
    pub failure: Option<(ProjectError, Seq<char>)>,
}

impl View for DeployRun {
    type V = DeployState;

    open spec fn view(&self) -> DeployState {
        DeployState {
            stage: self.stage,
            source_branch: self.source_branch@,
            others: version_pairs(self.others@),
            version_names: self.version_names@.map_values(|s: String| s@),
            pos: self.pos as int,
            failure: failure_view(self.failure),
        }
    }
}

/// The stages of the pipeline proper, whose failure is cleaned up after.
pub open spec fn in_pipeline(stage: DeployStage) -> bool {
    stage == DeployStage::Loading || stage == DeployStage::Clone || stage == DeployStage::Revision
        || stage == DeployStage::SetupDefault || stage == DeployStage::Activate
}

/// Whether `e` can answer the action of `s`.
pub open spec fn deploy_expects(s: DeployState, e: DeployEventView) -> bool {
    &&& s.stage != DeployStage::Succeeded && s.stage != DeployStage::Failed
    &&& (s.stage == DeployStage::SetupVersion || s.stage == DeployStage::VersionIssue) ==> 0 <= s.pos
        < s.others.len()
    &&& match e {
        DeployEventView::Versions(_) => s.stage == DeployStage::SetupDefault,
        DeployEventView::HasErrors(_) => s.stage == DeployStage::CheckIssues,
        DeployEventView::Failed(_) => s.stage == DeployStage::Create || s.stage == DeployStage::Prepare
            || in_pipeline(s.stage) || s.stage == DeployStage::SetupVersion,
        DeployEventView::Done => s.stage != DeployStage::SetupDefault && s.stage != DeployStage::CheckIssues,
        DeployEventView::SourceMissing(_) | DeployEventView::FilesInvalid => s.stage == DeployStage::SetupDefault
            || s.stage == DeployStage::SetupVersion,
    }
}

/// The place and action for setting up the other version `k`, or activating after the last.
pub open spec fn enter_versions(s: DeployState, k: int) -> (DeployState, DeployActionView) {
    if k < s.others.len() {
        (
            DeployState { stage: DeployStage::SetupVersion, pos: k, ..s },
            DeployActionView::SetUpVersion(Some(s.others[k].0), s.others[k].1, false),
        )
    } else {
        (DeployState { stage: DeployStage::Activate, pos: k, ..s }, DeployActionView::Activate)
    }
}

/// What a failure of the pipeline leads to: the failure is kept, and the clone removed.
pub open spec fn pipeline_failed(s: DeployState, f: Option<(ProjectError, Seq<char>)>) -> (DeployState, DeployActionView) {
    (
        DeployState { stage: DeployStage::CleanupAfterFailure, failure: f, ..s },
        DeployActionView::RemoveClone,
    )
}

/// The message of a version whose source path `p` is not in the clone.
pub open spec fn source_missing_message(p: Seq<char>) -> Seq<char> {
    "Source path '"@ + trim_start_char(p, '/') + "' not found in repository"@
}

/// What a failure `f` of the last action leads to: before the pipeline, the deployment
/// stops; a version besides the project's own gets an issue; else the pipeline failed.
pub open spec fn deploy_failed(s: DeployState, f: Option<(ProjectError, Seq<char>)>) -> (DeployState, DeployActionView) {
    match s.stage {
        DeployStage::Create | DeployStage::Prepare => (
            DeployState { stage: DeployStage::Failed, ..s },
            DeployActionView::Stop(false),
        ),
        DeployStage::SetupVersion => (
            DeployState { stage: DeployStage::VersionIssue, ..s },
            DeployActionView::RecordIssue(Some(s.others[s.pos].0), spec_version_issue(s.others[s.pos].0, f)),
        ),
        _ => pipeline_failed(s, f),
    }
}

/// The next place of a deployment at `s` when its last action went as `e`, and the
/// action to take there.
pub open spec fn deploy_step(s: DeployState, e: DeployEventView) -> (DeployState, DeployActionView) {
    let at = |st: DeployStage| DeployState { stage: st, ..s };
    match e {
        DeployEventView::Failed(f) => deploy_failed(s, f),
        DeployEventView::SourceMissing(p) => deploy_failed(s, Some((ProjectError::NoPath, source_missing_message(p)))),
        DeployEventView::FilesInvalid => deploy_failed(
            s,
            Some((ProjectError::InvalidFile, "Project contains invalid or malformed files"@)),
        ),
        DeployEventView::Versions(vs) => {
            let t = DeployState {
                others: other_versions(vs, s.source_branch),
                version_names: vs.map_values(|p: (Seq<char>, Seq<char>)| p.0),
                ..s
            };
            enter_versions(t, 0)
        },
        DeployEventView::HasErrors(b) => if b {
            (at(DeployStage::MarkFailed), DeployActionView::MarkFailed)
        } else {
            (
                at(DeployStage::RecordFailure),
                DeployActionView::RecordIssue(None, spec_failure_issue(s.failure)),
            )
        },
        DeployEventView::Done => match s.stage {
            DeployStage::Create => (at(DeployStage::Prepare), DeployActionView::PrepareDirectories),
            DeployStage::Prepare => (at(DeployStage::Loading), DeployActionView::MarkLoading),
            DeployStage::Loading => (at(DeployStage::Clone), DeployActionView::CloneRepository),
            DeployStage::Clone => (at(DeployStage::Revision), DeployActionView::StoreRevision),
            DeployStage::Revision => (
                at(DeployStage::SetupDefault),
                DeployActionView::SetUpVersion(None, s.source_branch, true),
            ),
            DeployStage::SetupVersion | DeployStage::VersionIssue => enter_versions(s, s.pos + 1),
            DeployStage::Activate => (
                at(DeployStage::MarkSuccess),
                DeployActionView::MarkSuccess(s.version_names),
            ),
            DeployStage::MarkSuccess => (at(DeployStage::CleanupAfterSuccess), DeployActionView::RemoveClone),
            DeployStage::CleanupAfterSuccess => (at(DeployStage::FinishSuccess), DeployActionView::FinishSuccess),
            DeployStage::FinishSuccess => (at(DeployStage::Succeeded), DeployActionView::Stop(true)),
            DeployStage::CleanupAfterFailure => (at(DeployStage::CheckIssues), DeployActionView::CheckIssues),
            DeployStage::RecordFailure => (at(DeployStage::MarkFailed), DeployActionView::MarkFailed),
            _ => (at(DeployStage::Failed), DeployActionView::Stop(false)),
        },
    }
}

fn clone_pair(p: &(String, String)) -> (r: (String, String))
    ensures
        r.0@ == p.0@ && r.1@ == p.1@,
{
    (p.0.clone(), p.1.clone())
}

impl DeployRun {
    /// A deployment of a project whose own branch is `source_branch`, with its first action.
    pub fn start(source_branch: String) -> (r: (DeployRun, DeployAction))
        ensures
            r.0@.stage == DeployStage::Create,
            r.0@.source_branch == source_branch@,
            r.0@.failure is None,
            r.1@ == DeployActionView::CreateRecord,
    {
        (
            DeployRun {
                stage: DeployStage::Create,
                source_branch,
                others: Vec::new(),
                version_names: Vec::new(),
                pos: 0,
                failure: None,
            },
            DeployAction::CreateRecord,
        )
    }

    fn enter_versions(&mut self, k: usize) -> (r: DeployAction)
        ensures
            (final(self)@, r@) == enter_versions(old(self)@, k as int),
    {
        if k < self.others.len() {
            self.stage = DeployStage::SetupVersion;
            self.pos = k;
            let (name, branch) = clone_pair(&self.others[k]);
            DeployAction::SetUpVersion { name: Some(name), branch, ingest: false }
        } else {
            self.stage = DeployStage::Activate;
            self.pos = k;
            DeployAction::Activate
        }
    }

    fn fail(&mut self, f: Option<(ProjectError, String)>) -> (r: DeployAction)
        requires
            old(self).stage == DeployStage::SetupVersion ==> 0 <= old(self).pos < old(self).others@.len(),
        ensures
            (final(self)@, r@) == deploy_failed(old(self)@, failure_view(f)),
    {
        if self.stage == DeployStage::Create || self.stage == DeployStage::Prepare {
            self.stage = DeployStage::Failed;
            DeployAction::Stop { success: false }
        } else if self.stage == DeployStage::SetupVersion {
            let name = self.others[self.pos].0.clone();
            let issue = version_issue(name.as_str(), f);
            self.stage = DeployStage::VersionIssue;
            DeployAction::RecordIssue { version: Some(name), issue }
        } else {
            self.stage = DeployStage::CleanupAfterFailure;
            self.failure = f;
            DeployAction::RemoveClone
        }
    }

    /// Takes the outcome of the last action and gives the next one.
    pub fn step(&mut self, e: DeployEvent) -> (r: DeployAction)
        requires
            deploy_expects(old(self)@, e@),
        ensures
            (final(self)@, r@) == deploy_step(old(self)@, e@),
    {
        match e {
            DeployEvent::Failed(f) => self.fail(f),
            DeployEvent::SourceMissing(p) => {
                let m = missing_source_path_message(p.as_str());
                self.fail(Some((ProjectError::NoPath, m)))
            },
            DeployEvent::FilesInvalid => self.fail(Some((ProjectError::InvalidFile, invalid_files_message()))),
            DeployEvent::Versions(vs) => {
                let ghost vv = version_pairs(vs@);
                let mut others: Vec<(String, String)> = Vec::new();
                let mut names: Vec<String> = Vec::new();
                let mut i: usize = 0;
                while i < vs.len()
                    invariant
                        i <= vs@.len(),
                        vv == version_pairs(vs@),
                        version_pairs(others@) == other_versions(vv.subrange(0, i as int), self.source_branch@),
                        names@.map_values(|s: String| s@) == vv.subrange(0, i as int).map_values(
                            |p: (Seq<char>, Seq<char>)| p.0,
                        ),
                    decreases vs@.len() - i,
                {
                    let ghost nxt = vv.subrange(0, i + 1);
                    assert(nxt.drop_last() =~= vv.subrange(0, i as int));
                    assert(nxt.last() == vv[i as int]);
                    let ghost prev_others = version_pairs(others@);
                    let ghost prev_names = names@.map_values(|s: String| s@);
                    if !str_eq(vs[i].1.as_str(), self.source_branch.as_str()) {
                        others.push(clone_pair(&vs[i]));
                        assert(version_pairs(others@) =~= prev_others.push(vv[i as int]));
                    }
                    names.push(vs[i].0.clone());
                    assert(names@.map_values(|s: String| s@) =~= prev_names.push(vv[i as int].0));
                    i = i + 1;
                }
                assert(vv.subrange(0, vv.len() as int) =~= vv);
                self.others = others;
                self.version_names = names;
                self.enter_versions(0)
            },
            DeployEvent::HasErrors(b) => {
                if b {
                    self.stage = DeployStage::MarkFailed;
                    DeployAction::MarkFailed
                } else {
                    self.stage = DeployStage::RecordFailure;
                    let f = match &self.failure {
                        Some((e, m)) => Some((*e, m.clone())),
                        None => None,
                    };
                    DeployAction::RecordIssue { version: None, issue: deployment_failure_issue(f) }
                }
            },
            DeployEvent::Done => {
                if self.stage == DeployStage::Create {
                    self.stage = DeployStage::Prepare;
                    DeployAction::PrepareDirectories
                } else if self.stage == DeployStage::Prepare {
                    self.stage = DeployStage::Loading;
                    DeployAction::MarkLoading
                } else if self.stage == DeployStage::Loading {
                    self.stage = DeployStage::Clone;
                    DeployAction::CloneRepository
                } else if self.stage == DeployStage::Clone {
                    self.stage = DeployStage::Revision;
                    DeployAction::StoreRevision
                } else if self.stage == DeployStage::Revision {
                    self.stage = DeployStage::SetupDefault;
                    DeployAction::SetUpVersion { name: None, branch: self.source_branch.clone(), ingest: true }
                } else if self.stage == DeployStage::SetupVersion || self.stage == DeployStage::VersionIssue {
                    let _n = self.others.len();
                    let next = self.pos + 1;
                    self.enter_versions(next)
                } else if self.stage == DeployStage::Activate {
                    self.stage = DeployStage::MarkSuccess;
                    let mut keep: Vec<String> = Vec::new();
                    let ghost nv = self.version_names@.map_values(|s: String| s@);
                    let mut i: usize = 0;
                    while i < self.version_names.len()
                        invariant
                            i <= self.version_names@.len(),
                            nv == self.version_names@.map_values(|s: String| s@),
                            keep@.map_values(|s: String| s@) =~= nv.subrange(0, i as int),
                        decreases self.version_names@.len() - i,
                    {
                        let ghost prev = keep@.map_values(|s: String| s@);
                        keep.push(self.version_names[i].clone());
                        assert(keep@.map_values(|s: String| s@) =~= prev.push(nv[i as int]));
                        assert(nv.subrange(0, i + 1) =~= nv.subrange(0, i as int).push(nv[i as int]));
                        i = i + 1;
                    }
                    assert(nv.subrange(0, nv.len() as int) =~= nv);
                    DeployAction::MarkSuccess { keep_versions: keep }
                } else if self.stage == DeployStage::MarkSuccess {
                    self.stage = DeployStage::CleanupAfterSuccess;
                    DeployAction::RemoveClone
                } else if self.stage == DeployStage::CleanupAfterSuccess {
                    self.stage = DeployStage::FinishSuccess;
                    DeployAction::FinishSuccess
                } else if self.stage == DeployStage::FinishSuccess {
                    self.stage = DeployStage::Succeeded;
                    DeployAction::Stop { success: true }
                } else if self.stage == DeployStage::CleanupAfterFailure {
                    self.stage = DeployStage::CheckIssues;
                    DeployAction::CheckIssues
                } else if self.stage == DeployStage::RecordFailure {
                    self.stage = DeployStage::MarkFailed;
                    DeployAction::MarkFailed
                } else {
                    self.stage = DeployStage::Failed;
                    DeployAction::Stop { success: false }
                }
            },
        }
    }
}

// ----- laws -----

/// A failure of the pipeline is cleaned up after: the clone is removed, the issues are
/// checked, the failure is recorded when nothing else was, the deployment is marked
/// failed (its folder removed), and the deployment stops without success.
pub proof fn lemma_pipeline_failure_cleanup(s: DeployState, f: Option<(ProjectError, Seq<char>)>, had_errors: bool)
    requires
        in_pipeline(s.stage),
    ensures
        ({
            let (s1, a1) = deploy_step(s, DeployEventView::Failed(f));
            let (s2, a2) = deploy_step(s1, DeployEventView::Done);
            let (s3, a3) = deploy_step(s2, DeployEventView::HasErrors(had_errors));
            &&& a1 == DeployActionView::RemoveClone
            &&& a2 == DeployActionView::CheckIssues
            &&& if had_errors {
                &&& a3 == DeployActionView::MarkFailed
                &&& deploy_step(s3, DeployEventView::Done).1 == DeployActionView::Stop(false)
            } else {
                let (s4, a4) = deploy_step(s3, DeployEventView::Done);
                &&& a3 == DeployActionView::RecordIssue(None, spec_failure_issue(f))
                &&& a4 == DeployActionView::MarkFailed
                &&& deploy_step(s4, DeployEventView::Done).1 == DeployActionView::Stop(false)
            }
        }),
{
}

/// A version besides the project's own that cannot be set up is recorded as an issue
/// of that version, and the deployment goes on with the next version (or activates).
pub proof fn lemma_version_failure_continues(s: DeployState, f: Option<(ProjectError, Seq<char>)>)
    requires
        s.stage == DeployStage::SetupVersion,
        0 <= s.pos < s.others.len(),
    ensures
        ({
            let (s1, a1) = deploy_step(s, DeployEventView::Failed(f));
            let (s2, a2) = deploy_step(s1, DeployEventView::Done);
            &&& a1 == DeployActionView::RecordIssue(
                Some(s.others[s.pos].0),
                spec_version_issue(s.others[s.pos].0, f),
            )
            &&& (s2.stage == DeployStage::SetupVersion || s2.stage == DeployStage::Activate)
        }),
{
}

/// The versions set up besides the project's own never use the project's own branch.
pub proof fn lemma_other_versions_skip_source(vs: Seq<(Seq<char>, Seq<char>)>, source_branch: Seq<char>)
    ensures
        forall|i: int|
            0 <= i < other_versions(vs, source_branch).len() ==> (#[trigger] other_versions(
                vs,
                source_branch,
            )[i]).1 != source_branch,
    decreases vs.len(),
{
    if vs.len() > 0 {
        lemma_other_versions_skip_source(vs.drop_last(), source_branch);
        let rest = other_versions(vs.drop_last(), source_branch);
        assert forall|i: int| 0 <= i < other_versions(vs, source_branch).len() implies (#[trigger] other_versions(
            vs,
            source_branch,
        )[i]).1 != source_branch by {
            if i < rest.len() {
                assert(other_versions(vs, source_branch)[i] == rest[i]);
            }
        }
    }
}

/// Once activated, a deployment marks its success keeping the versions it set up,
/// removes its clone, finishes and stops with success.
pub proof fn lemma_activation_succeeds(s: DeployState)
    requires
        s.stage == DeployStage::Activate,
    ensures
        ({
            let (s1, a1) = deploy_step(s, DeployEventView::Done);
            let (s2, a2) = deploy_step(s1, DeployEventView::Done);
            let (s3, a3) = deploy_step(s2, DeployEventView::Done);
            let (s4, a4) = deploy_step(s3, DeployEventView::Done);
            &&& a1 == DeployActionView::MarkSuccess(s.version_names)
            &&& a2 == DeployActionView::RemoveClone
            &&& a3 == DeployActionView::FinishSuccess
            &&& a4 == DeployActionView::Stop(true)
        }),
{
}

} // verus!
