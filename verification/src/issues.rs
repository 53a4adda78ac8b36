//! Problems found in a project's files, as they are reported back to its authors.
use vstd::prelude::*;
use crate::resloc::{ResourceLocation, spec_parse_location};
use crate::text::owned;

verus! {

/// What went wrong.
#[derive(Clone, Copy, Debug, PartialEq, Eq, Structural)]
pub enum ProjectError {
    Unknown,
    InvalidFile,
    InvalidFormat,
    InvalidFrontmatter,
    InvalidIngredient,
    InvalidMeta,
    InvalidResloc,
    NoPageTitle,
    NoPath,
    UnknownRecipeType,
    NoBranch,
    NoRepository,
    RepoTooLarge,
    RequiresAuth,
}

#[derive(Clone, Copy, Debug, PartialEq, Eq, Structural)]
pub enum ProjectIssueLevel {
    Error,
    Warning,
}

/// The stage of a deployment that found the issue.
#[derive(Clone, Copy, Debug, PartialEq, Eq, Structural)]
pub enum ProjectIssueType {
    Ingestor,
    File,
    GitClone,
    Internal,
    VersionSetup,
}

#[derive(Debug)]
pub struct ProjectIssue {
    pub level: ProjectIssueLevel,
    pub kind: ProjectIssueType,
    pub subject: ProjectError,
    pub details: Option<String>,
    pub file: Option<String>,
}

pub struct IssueView {
    pub level: ProjectIssueLevel,
    pub kind: ProjectIssueType,
    pub subject: ProjectError,
    pub details: Option<Seq<char>>,
    pub file: Option<Seq<char>>,
}

pub open spec fn opt_view(o: Option<String>) -> Option<Seq<char>> {
    match o {
        Some(s) => Some(s@),
        None => None,
    }
}

impl View for ProjectIssue {
    type V = IssueView;

    open spec fn view(&self) -> IssueView {
        IssueView {
            level: self.level,
            kind: self.kind,
            subject: self.subject,
            details: opt_view(self.details),
            file: opt_view(self.file),
        }
    }
}

pub open spec fn issue_views(s: Seq<ProjectIssue>) -> Seq<IssueView> {
    s.map_values(|i: ProjectIssue| i@)
}

/// The issues found in one file, in the order they were found.
pub struct FileIssues {
    pub file: String,
    pub issues: Vec<ProjectIssue>,
}

/// An ingestor error about `file`.
pub open spec fn ingestor_issue(file: Seq<char>, subject: ProjectError, details: Seq<char>) -> IssueView {
    IssueView {
        level: ProjectIssueLevel::Error,
        kind: ProjectIssueType::Ingestor,
        subject,
        details: Some(details),
        file: Some(file),
    }
}

impl FileIssues {
    pub fn new(file: String) -> (r: FileIssues)
        ensures
            r.file@ == file@,
            r.issues@.len() == 0,
    {
        FileIssues { file, issues: Vec::new() }
    }

    pub fn file(&self) -> (r: &str)
        ensures
            r@ == self.file@,
    {
        self.file.as_str()
    }

    /// Records an issue about this file.
    pub fn add(
        &mut self,
        level: ProjectIssueLevel,
        kind: ProjectIssueType,
        subject: ProjectError,
        details: Option<String>,
    )
        ensures
            final(self).file@ == old(self).file@,
            issue_views(final(self).issues@) == issue_views(old(self).issues@).push(
                IssueView {
                    level,
                    kind,
                    subject,
                    details: opt_view(details),
                    file: Some(old(self).file@),
                },
            ),
    {
        let ghost before = issue_views(self.issues@);
        let issue = ProjectIssue { level, kind, subject, details, file: Some(self.file.clone()) };
        self.issues.push(issue);
        assert(issue_views(self.issues@) =~= before.push(self.issues@.last()@));
    }

    /// Records an ingestor error.
    pub fn error(&mut self, subject: ProjectError, details: String)
        ensures
            final(self).file@ == old(self).file@,
            issue_views(final(self).issues@) == issue_views(old(self).issues@).push(
                ingestor_issue(old(self).file@, subject, details@),
            ),
    {
        self.add(ProjectIssueLevel::Error, ProjectIssueType::Ingestor, subject, Some(details));
    }

    /// Records an ingestor warning.
    pub fn warn(&mut self, subject: ProjectError, details: String)
        ensures
            final(self).file@ == old(self).file@,
            issue_views(final(self).issues@) == issue_views(old(self).issues@).push(
                IssueView {
                    level: ProjectIssueLevel::Warning,
                    kind: ProjectIssueType::Ingestor,
                    subject,
                    details: Some(details@),
                    file: Some(old(self).file@),
                },
            ),
    {
        self.add(ProjectIssueLevel::Warning, ProjectIssueType::Ingestor, subject, Some(details));
    }

    /// Records an ingestor error (same as `error`).
    pub fn ingestor_error(&mut self, subject: ProjectError, details: String)
        ensures
            final(self).file@ == old(self).file@,
            issue_views(final(self).issues@) == issue_views(old(self).issues@).push(
                ingestor_issue(old(self).file@, subject, details@),
            ),
    {
        self.error(subject, details);
    }

    /// Parses a resource location; one that does not parse is recorded as an
    /// `InvalidResloc` error whose details are the text.
    pub fn parse_resloc(&mut self, s: &str) -> (r: Option<ResourceLocation>)
        ensures
            final(self).file@ == old(self).file@,
            match spec_parse_location(s@) {
                Some(loc) => r matches Some(l) && l@ == loc && final(self).issues@ == old(
                    self,
                ).issues@,
                None => r is None && issue_views(final(self).issues@) == issue_views(
                    old(self).issues@,
                ).push(ingestor_issue(old(self).file@, ProjectError::InvalidResloc, s@)),
            },
    {
        match ResourceLocation::parse(s) {
            Some(l) => Some(l),
            None => {
                self.ingestor_error(ProjectError::InvalidResloc, owned(s));
                None
            },
        }
    }

    /// Whether an error was recorded.
    pub fn has_errors(&self) -> (r: bool)
        ensures
            r == exists|i: int|
                0 <= i < self.issues@.len() && #[trigger] self.issues@[i].level
                    == ProjectIssueLevel::Error,
    {
        let mut i: usize = 0;
        while i < self.issues.len()
            invariant
                i <= self.issues@.len(),
                forall|j: int| 0 <= j < i ==> #[trigger] self.issues@[j].level != ProjectIssueLevel::Error,
            decreases self.issues@.len() - i,
        {
            if self.issues[i].level == ProjectIssueLevel::Error {
                return true;
            }
            i = i + 1;
        }
        false
    }
}

/// A sink that only remembers whether an error went through it (the messages
/// themselves go to the application's log).
pub struct LoggingIssueSink {
    has_errors: bool,
    /// The levels of the issues added so far, in order.
    levels: Ghost<Seq<ProjectIssueLevel>>,
}

/// Whether one of `levels` is an error.
pub open spec fn any_error(levels: Seq<ProjectIssueLevel>) -> bool {
    exists|k: int| 0 <= k < levels.len() && levels[k] == ProjectIssueLevel::Error
}

impl LoggingIssueSink {
    /// The levels of the issues added so far, in order.
    pub closed spec fn seen(&self) -> Seq<ProjectIssueLevel> {
        self.levels@
    }

    /// The sink remembers an error exactly when one of the issues added was one.
    #[verifier::type_invariant]
    closed spec fn wf(&self) -> bool {
        self.has_errors == any_error(self.levels@)
    }

    pub fn new() -> (r: LoggingIssueSink)
        ensures
            r.seen() == Seq::<ProjectIssueLevel>::empty(),
    {
        LoggingIssueSink { has_errors: false, levels: Ghost(Seq::empty()) }
    }

    pub fn add(&mut self, issue: &ProjectIssue)
        ensures
            final(self).seen() == old(self).seen().push(issue.level),
    {
        proof {
            use_type_invariant(&*self);
        }
        let ghost before = self.levels@;
        let now_errors = self.has_errors || issue.level == ProjectIssueLevel::Error;
        proof {
            lemma_sink_errors(before, issue.level);
        }
        *self = LoggingIssueSink { has_errors: now_errors, levels: Ghost(before.push(issue.level)) };
    }

    /// Whether one of the issues added so far was an error.
    pub fn has_errors(&self) -> (r: bool)
        ensures
            r == any_error(self.seen()),
    {
        proof {
            use_type_invariant(self);
        }
        self.has_errors
    }
}

/// Law: a fresh sink has no error, a warning never gives it one, and once it has one
/// it keeps it: after any run of additions it has an error exactly when one of the
/// issues added was one.
pub proof fn lemma_sink_errors(before: Seq<ProjectIssueLevel>, added: ProjectIssueLevel)
    ensures
        !any_error(Seq::<ProjectIssueLevel>::empty()),
        any_error(before.push(added)) == (any_error(before) || added == ProjectIssueLevel::Error),
{
    let now = before.push(added);
    if any_error(before) {
        let k = choose|k: int| 0 <= k < before.len() && before[k] == ProjectIssueLevel::Error;
        assert(now[k] == ProjectIssueLevel::Error);
    }
    if added == ProjectIssueLevel::Error {
        assert(now[before.len() as int] == ProjectIssueLevel::Error);
    }
    if any_error(now) {
        let k = choose|k: int| 0 <= k < now.len() && now[k] == ProjectIssueLevel::Error;
        if k < before.len() {
            assert(before[k] == now[k]);
        }
    }
}

} // verus!
