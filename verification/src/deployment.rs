//! Decisions of a deployment: which files a project may ship, how a failure is
//! reported, and the names of its tasks, logs and archive entries.
use vstd::prelude::*;
use crate::issues::{ProjectError, ProjectIssue, ProjectIssueLevel, ProjectIssueType, IssueView, opt_view};
use crate::text::{
    concat2, owned, push_str, replace_all, replace_all_str, str_eq, trim_end_char, trim_end_char_str,
    trim_start_char, trim_start_char_str,
};

verus! {

/// The state of a deployment.
#[derive(Debug, Clone, Copy, PartialEq, Eq, Structural)]
pub enum DeploymentStatus {
    Created,
    Loading,
    Success,
    Error,
}

impl DeploymentStatus {
    /// The name stored for the state.
    pub fn as_str(&self) -> (r: &'static str)
        ensures
            r@ == match self {
                DeploymentStatus::Created => "CREATED"@,
                DeploymentStatus::Loading => "LOADING"@,
                DeploymentStatus::Success => "SUCCESS"@,
                DeploymentStatus::Error => "ERROR"@,
            },
    {
        match self {
            DeploymentStatus::Created => "CREATED",
            DeploymentStatus::Loading => "LOADING",
            DeploymentStatus::Success => "SUCCESS",
            DeploymentStatus::Error => "ERROR",
        }
    }
}

/// Something that forgets what it has cached for a project once a deployment of
/// the project succeeds.
pub trait ProjectCacheInvalidator {
    fn invalidate(&self, project_id: &str);
}

/// The key of the deployment task of a project: `deploy:PROJECT`.
pub fn task_key(project_id: &str) -> (r: String)
    ensures
        r@ == "deploy:"@ + project_id@,
{
    concat2("deploy:", project_id)
}

/// The kind of issue a failed deployment reports: clone failures are the clone's,
/// everything else internal.
pub open spec fn spec_failure_kind(error: ProjectError) -> ProjectIssueType {
    match error {
        ProjectError::NoRepository | ProjectError::NoBranch | ProjectError::RequiresAuth
        | ProjectError::RepoTooLarge => ProjectIssueType::GitClone,
        _ => ProjectIssueType::Internal,
    }
}

pub fn failure_kind(error: ProjectError) -> (r: ProjectIssueType)
    ensures
        r == spec_failure_kind(error),
{
    match error {
        ProjectError::NoRepository | ProjectError::NoBranch | ProjectError::RequiresAuth
        | ProjectError::RepoTooLarge => ProjectIssueType::GitClone,
        _ => ProjectIssueType::Internal,
    }
}

/// The issue recorded for a failed deployment: a project error with its message, or,
/// for any other failure, an unknown error.
pub fn deployment_failure_issue(project_error: Option<(ProjectError, String)>) -> (r: ProjectIssue)
    ensures
        r@ == match project_error {
            Some((e, m)) => IssueView {
                level: ProjectIssueLevel::Error,
                kind: spec_failure_kind(e),
                subject: e,
                details: Some(m@),
                file: None,
            },
            None => IssueView {
                level: ProjectIssueLevel::Error,
                kind: ProjectIssueType::Internal,
                subject: ProjectError::Unknown,
                details: Some("Unexpected error during deployment"@),
                file: None,
            },
        },
{
    let (error, message) = match project_error {
        Some((e, m)) => (e, m),
        None => (ProjectError::Unknown, owned("Unexpected error during deployment")),
    };
    let kind = failure_kind(error);
    ProjectIssue { level: ProjectIssueLevel::Error, kind, subject: error, details: Some(message), file: None }
}

// ----- files a project may ship -----

pub const MIME_TYPE_TEXT: &'static str = "text/plain";

/// The extensions of the files copied from a project.
pub open spec fn allowed_extension(ext: Seq<char>) -> bool {
    ext == ".mdx"@ || ext == ".json"@ || ext == ".png"@ || ext == ".jpg"@ || ext == ".jpeg"@ || ext
        == ".webp"@ || ext == ".gif"@
}

pub fn is_allowed_extension(ext: &str) -> (r: bool)
    ensures
        r == allowed_extension(ext@),
{
    str_eq(ext, ".mdx") || str_eq(ext, ".json") || str_eq(ext, ".png") || str_eq(ext, ".jpg")
        || str_eq(ext, ".jpeg") || str_eq(ext, ".webp") || str_eq(ext, ".gif")
}

/// Whether content of type `mime` may carry extension `ext`.
pub open spec fn spec_valid_mime(ext: Seq<char>, mime: Seq<char>) -> bool {
    if ext == ".mdx"@ || ext == ".json"@ {
        mime == MIME_TYPE_TEXT@
    } else if ext == ".png"@ {
        mime == "image/png"@
    } else if ext == ".jpeg"@ || ext == ".jpg"@ {
        mime == "image/jpeg"@
    } else if ext == ".webp"@ {
        mime == "image/webp"@
    } else if ext == ".gif"@ {
        mime == "image/gif"@
    } else {
        false
    }
}

/// The image extensions whose content type is named after them.
pub open spec fn named_image_extension(ext: Seq<char>) -> bool {
    ext == ".png"@ || ext == ".webp"@ || ext == ".gif"@
}

/// Law: each image extension but the JPEG ones takes exactly the content type
/// `image/` followed by its own name; both JPEG extensions take exactly `image/jpeg`;
/// documents and data files take exactly plain text; and an extension that is not
/// shipped takes no content type at all.
pub proof fn lemma_mime_types_follow_extensions(ext: Seq<char>, mime: Seq<char>)
    ensures
        named_image_extension(ext) ==> (spec_valid_mime(ext, mime) <==> mime == "image/"@ + ext.subrange(
            1,
            ext.len() as int,
        )),
        (ext == ".jpg"@ || ext == ".jpeg"@) ==> (spec_valid_mime(ext, mime) <==> mime == "image/jpeg"@),
        (ext == ".mdx"@ || ext == ".json"@) ==> (spec_valid_mime(ext, mime) <==> mime == "text/plain"@),
        spec_valid_mime(ext, mime) ==> allowed_extension(ext),
{
    reveal_strlit(".mdx");
    reveal_strlit(".json");
    reveal_strlit(".jpg");
    reveal_strlit(".jpeg");
    reveal_strlit(".png");
    reveal_strlit(".webp");
    reveal_strlit(".gif");
    reveal_strlit("image/");
    reveal_strlit("image/png");
    reveal_strlit("image/webp");
    reveal_strlit("image/gif");
    if named_image_extension(ext) || ext == ".jpg"@ || ext == ".jpeg"@ {
        assert(ext[1] != ".mdx"@[1]);
        assert(ext != ".json"@) by {
            if ext.len() == 5 {
                assert(ext[2] != ".json"@[2]);
            }
        }
    }
    if ext == ".png"@ {
        assert("image/"@ + ext.subrange(1, ext.len() as int) =~= "image/png"@);
    }
    if ext == ".webp"@ {
        assert(ext != ".png"@) by {
            assert(ext[1] != ".png"@[1]);
        }
        assert("image/"@ + ext.subrange(1, ext.len() as int) =~= "image/webp"@);
    }
    if ext == ".gif"@ {
        assert(ext != ".png"@) by {
            assert(ext[1] != ".png"@[1]);
        }
        assert(ext != ".jpg"@ && ext != ".jpeg"@ && ext != ".webp"@) by {
            assert(ext[1] != ".jpg"@[1]);
            assert(ext[1] != ".webp"@[1]);
        }
        assert("image/"@ + ext.subrange(1, ext.len() as int) =~= "image/gif"@);
    }
    if ext == ".webp"@ {
        assert(ext != ".jpg"@ && ext != ".jpeg"@) by {
            assert(ext[1] != ".jpg"@[1]);
        }
    }
    if ext == ".jpg"@ || ext == ".jpeg"@ {
        assert(ext != ".png"@) by {
            assert(ext[1] != ".png"@[1]);
        }
    }
}

pub fn is_valid_mime_type_for(ext: &str, mime_type: &str) -> (r: bool)
    ensures
        r == spec_valid_mime(ext@, mime_type@),
        named_image_extension(ext@) ==> (r <==> mime_type@ == "image/"@ + ext@.subrange(1, ext@.len() as int)),
        (ext@ == ".jpg"@ || ext@ == ".jpeg"@) ==> (r <==> mime_type@ == "image/jpeg"@),
        r ==> allowed_extension(ext@),
{
    proof {
        lemma_mime_types_follow_extensions(ext@, mime_type@);
    }
    if str_eq(ext, ".mdx") || str_eq(ext, ".json") {
        str_eq(mime_type, MIME_TYPE_TEXT)
    } else if str_eq(ext, ".png") {
        str_eq(mime_type, "image/png")
    } else if str_eq(ext, ".jpeg") || str_eq(ext, ".jpg") {
        str_eq(mime_type, "image/jpeg")
    } else if str_eq(ext, ".webp") {
        str_eq(mime_type, "image/webp")
    } else if str_eq(ext, ".gif") {
        str_eq(mime_type, "image/gif")
    } else {
        false
    }
}

/// The MIME type `infer` recognises from the first bytes of a file.
pub uninterp spec fn inferred_mime(bytes: Seq<u8>) -> Option<Seq<char>>;

/// Whether bytes are valid UTF-8.
pub uninterp spec fn valid_utf8(bytes: Seq<u8>) -> bool;

/// `infer::get`, giving the matcher's MIME type.
#[verifier::external_body]
fn infer_mime(bytes: &[u8]) -> (r: Option<String>)
    ensures
        opt_view(r) == inferred_mime(bytes@),
{
    infer::get(bytes).map(|kind| kind.mime_type().to_owned())
}

/// `std::str::from_utf8(bytes).is_ok()`.
#[verifier::external_body]
fn is_utf8(bytes: &[u8]) -> (r: bool)
    ensures
        r == valid_utf8(bytes@),
{
    std::str::from_utf8(bytes).is_ok()
}

/// The type of a file from its first bytes: what `infer` recognises, else text when
/// they are UTF-8.
pub open spec fn spec_sniff_mime(bytes: Seq<u8>) -> Option<Seq<char>> {
    match inferred_mime(bytes) {
        Some(m) => Some(m),
        None => if valid_utf8(bytes) {
            Some(MIME_TYPE_TEXT@)
        } else {
            None
        },
    }
}

pub fn sniff_mime(bytes: &[u8]) -> (r: Option<String>)
    ensures
        opt_view(r) == spec_sniff_mime(bytes@),
{
    match infer_mime(bytes) {
        Some(m) => Some(m),
        None => if is_utf8(bytes) {
            Some(owned(MIME_TYPE_TEXT))
        } else {
            None
        },
    }
}

/// Whether a file with extension `ext` that starts with `head` may be shipped: the
/// extension must be allowed and the content must be of a type that fits it.
pub fn is_allowed_file(ext: &str, head: &[u8]) -> (r: bool)
    ensures
        r == (allowed_extension(ext@) && match spec_sniff_mime(head@) {
            Some(m) => spec_valid_mime(ext@, m),
            None => false,
        }),
{
    if !is_allowed_extension(ext) {
        return false;
    }
    match sniff_mime(head) {
        Some(m) => is_valid_mime_type_for(ext, m.as_str()),
        None => false,
    }
}

// ----- archives and logs -----

/// A finished archive, by its file.
pub struct TempArchive {
    pub path: String,
}

impl TempArchive {
    pub fn path(&self) -> (r: &str)
        ensures
            r@ == self.path@,
    {
        self.path.as_str()
    }
}

/// The name of an archive entry: its relative path with `\` made `/`, and a
/// trailing `/` for a folder.
pub fn archive_entry_name(relative: &str, is_dir: bool) -> (r: String)
    ensures
        r@ == replace_all(relative@, "\\"@, "/"@) + if is_dir {
            "/"@
        } else {
            Seq::<char>::empty()
        },
{
    proof {
        reveal_strlit("\\");
    }
    let name = replace_all_str(relative, "\\", "/");
    if is_dir {
        concat2(name.as_str(), "/")
    } else {
        let r = name;
        assert(r@ =~= r@ + Seq::<char>::empty());
        r
    }
}

/// The deployment a log span belongs to, as its fields name it.
#[derive(Debug, Default)]
pub struct DeploymentVisitor {
    pub project_id: Option<String>,
    pub deployment_id: Option<String>,
}

impl DeploymentVisitor {
    /// Records field `name`: only the project and deployment ids are kept.
    pub fn set(&mut self, name: &str, value: String)
        ensures
            name@ == "project_id"@ ==> final(self).project_id == Some(value) && final(self).deployment_id
                == old(self).deployment_id,
            name@ == "deployment_id"@ ==> final(self).deployment_id == Some(value)
                && final(self).project_id == old(self).project_id,
            name@ != "project_id"@ && name@ != "deployment_id"@ ==> *final(self) == *old(self),
    {
        proof {
            reveal_strlit("project_id");
            reveal_strlit("deployment_id");
            assert("project_id"@.len() != "deployment_id"@.len());
        }
        if str_eq(name, "project_id") {
            self.project_id = Some(value);
        } else if str_eq(name, "deployment_id") {
            self.deployment_id = Some(value);
        }
    }

    /// The value of a field recorded through its debug form: quotes around it dropped.
    pub fn debug_value(rendered: &str) -> (r: String)
        ensures
            r@ == trim_end_char(trim_start_char(rendered@, '"'), '"'),
    {
        let a = trim_start_char_str(rendered, '"');
        trim_end_char_str(a.as_str(), '"')
    }
}


// ----- checking the files of a version -----

/// The check a file of a project passes before it is copied.
#[derive(Debug, Clone, Copy, PartialEq, Eq, Structural)]
pub enum FileCheck {
    /// A document: its front matter must be readable.
    Frontmatter,
    /// A JSON file: it must be JSON.
    Json,
    /// Nothing to check.
    Unchecked,
}

/// The check for a file with the extension `ext` (with its dot).
pub fn file_check(ext: &str) -> (r: FileCheck)
    ensures
        r == if ext@ == ".mdx"@ {
            FileCheck::Frontmatter
        } else if ext@ == ".json"@ {
            FileCheck::Json
        } else {
            FileCheck::Unchecked
        },
{
    if str_eq(ext, ".mdx") {
        FileCheck::Frontmatter
    } else if str_eq(ext, ".json") {
        FileCheck::Json
    } else {
        FileCheck::Unchecked
    }
}

/// The issue recorded for the file `file` that failed its check: the project error
/// the check gave with its message, or, for any other failure, an invalid file.
pub open spec fn spec_file_check_issue(failure: Option<(ProjectError, Seq<char>)>, file: Seq<char>) -> IssueView {
    IssueView {
        level: ProjectIssueLevel::Error,
        kind: ProjectIssueType::File,
        subject: match failure {
            Some((e, _)) => e,
            None => ProjectError::InvalidFile,
        },
        details: Some(
            match failure {
                Some((_, m)) => m,
                None => "Unexpected error validating file"@,
            },
        ),
        file: Some(file),
    }
}

pub fn file_check_issue(failure: Option<(ProjectError, String)>, file: String) -> (r: ProjectIssue)
    ensures
        r@ == spec_file_check_issue(
            match failure {
                Some((e, m)) => Some((e, m@)),
                None => None,
            },
            file@,
        ),
{
    let (subject, message) = match failure {
        Some((e, m)) => (e, m),
        None => (ProjectError::InvalidFile, owned("Unexpected error validating file")),
    };
    ProjectIssue {
        level: ProjectIssueLevel::Error,
        kind: ProjectIssueType::File,
        subject,
        details: Some(message),
        file: Some(file),
    }
}

} // verus!
