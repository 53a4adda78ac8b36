//! Links into a project's hosted repository, and the reading of what git reports.
use vstd::prelude::*;
use crate::issues::ProjectError;
use crate::paths::{byte_prefix, bytes_end_on_char, chars_within};
use crate::text::{
    concat2, concat3, contains_str, has_infix, has_prefix, owned, replace_all, replace_all_str,
    starts_with, str_eq, strip_prefix, trim_end_char, trim_end_char_str, trim_start_char,
    trim_start_char_str,
};

verus! {

/// Largest repository a clone may receive: 500 MiB.
pub const MAX_REPO_SIZE_BYTES: u64 = 524288000;

/// How a hosting service lays out links to a file and to a commit.
pub struct GitProvider {
    pub file_path: &'static str,
    pub commit_path: &'static str,
}

pub open spec fn github_file_path() -> Seq<char> {
    "blob/{branch}/{base}/{path}"@
}

pub open spec fn github_commit_path() -> Seq<char> {
    "commit/{hash}"@
}

/// The provider of a repository URL: GitHub for URLs that mention `github.com`.
pub fn get_git_provider(url: &str) -> (r: Option<GitProvider>)
    ensures
        r is Some <==> has_infix(url@, "github.com"@),
        r matches Some(p) ==> p.file_path@ == github_file_path() && p.commit_path@
            == github_commit_path(),
{
    if contains_str(url, "github.com") {
        Some(GitProvider { file_path: "blob/{branch}/{base}/{path}", commit_path: "commit/{hash}" })
    } else {
        None
    }
}

/// The link to commit `hash`: the repository URL without trailing slashes, then the
/// provider's commit path with the hash filled in.
pub open spec fn spec_commit_url(repo_url: Seq<char>, hash: Seq<char>) -> Option<Seq<char>> {
    if has_infix(repo_url, "github.com"@) {
        Some(
            trim_end_char(repo_url, '/') + "/"@ + replace_all(
                github_commit_path(),
                "{hash}"@,
                hash,
            ),
        )
    } else {
        None
    }
}

pub fn format_commit_url(repo_url: &str, hash: &str) -> (r: Option<String>)
    ensures
        crate::issues::opt_view(r) == spec_commit_url(repo_url@, hash@),
{
    let provider = match get_git_provider(repo_url) {
        Some(p) => p,
        None => {
            return None;
        },
    };
    proof {
        reveal_strlit("{hash}");
    }
    let base = trim_end_char_str(repo_url, '/');
    let path = replace_all_str(provider.commit_path, "{hash}", hash);
    Some(concat3(base.as_str(), "/", path.as_str()))
}

/// The link to edit `file_path` on `branch` under `base_path`: the provider's file
/// path with the branch, the base path (without leading slashes) and the file
/// (without trailing slashes) filled in, one after the other.
pub open spec fn spec_edit_url(
    repo_url: Seq<char>,
    branch: Seq<char>,
    base_path: Seq<char>,
    file_path: Seq<char>,
) -> Option<Seq<char>> {
    if has_infix(repo_url, "github.com"@) {
        Some(
            trim_end_char(repo_url, '/') + "/"@ + replace_all(
                replace_all(
                    replace_all(github_file_path(), "{branch}"@, branch),
                    "{base}"@,
                    trim_start_char(base_path, '/'),
                ),
                "{path}"@,
                trim_end_char(file_path, '/'),
            ),
        )
    } else {
        None
    }
}

pub fn format_edit_url(repo_url: &str, branch: &str, base_path: &str, file_path: &str) -> (r: Option<
    String,
>)
    ensures
        crate::issues::opt_view(r) == spec_edit_url(repo_url@, branch@, base_path@, file_path@),
{
    let provider = match get_git_provider(repo_url) {
        Some(p) => p,
        None => {
            return None;
        },
    };
    proof {
        reveal_strlit("{branch}");
        reveal_strlit("{base}");
        reveal_strlit("{path}");
    }
    let base = trim_end_char_str(repo_url, '/');
    let cleaned_base = trim_start_char_str(base_path, '/');
    let cleaned_file = trim_end_char_str(file_path, '/');
    let p1 = replace_all_str(provider.file_path, "{branch}", branch);
    let p2 = replace_all_str(p1.as_str(), "{base}", cleaned_base.as_str());
    let p3 = replace_all_str(p2.as_str(), "{path}", cleaned_file.as_str());
    Some(concat3(base.as_str(), "/", p3.as_str()))
}

/// Whether a clone URL names a local repository (which is cloned in full).
pub fn is_local_url(url: &str) -> (r: bool)
    ensures
        r == (has_prefix(url@, "file://"@) || has_prefix(url@, "/"@)),
{
    starts_with(url, "file://") || starts_with(url, "/")
}

/// Whether a clone that has received `received` bytes must stop.
pub fn exceeds_size_limit(received: u64) -> (r: bool)
    ensures
        r == (received > MAX_REPO_SIZE_BYTES),
{
    received > MAX_REPO_SIZE_BYTES
}

/// What `str::to_lowercase` makes of `s`.
pub uninterp spec fn lowercase(s: Seq<char>) -> Seq<char>;

/// `str::to_lowercase`.
#[verifier::external_body]
fn to_lowercase(s: &str) -> (r: String)
    ensures
        r@ == lowercase(s@),
{
    s.to_lowercase()
}

/// The project error that a failed clone's message stands for, with the text shown
/// to the project's authors; `None` when the message says nothing known.
pub open spec fn spec_classify_clone(message: Seq<char>) -> Option<(ProjectError, Seq<char>)> {
    let m = lowercase(message);
    if has_infix(m, "not found"@) || has_infix(m, "does not exist"@) {
        Some((ProjectError::NoRepository, "Repository not found."@))
    } else if has_infix(m, "authentication"@) || has_infix(m, "401"@) || has_infix(m, "403"@)
        || has_infix(m, "credentials"@) {
        Some((ProjectError::RequiresAuth, "Authentication required."@))
    } else if has_infix(m, "remote branch"@) || has_infix(m, "not found in upstream"@) || has_infix(
        m,
        "reference"@,
    ) {
        Some((ProjectError::NoBranch, "Requested branch not found."@))
    } else if has_infix(m, "pack exceeds"@) || has_infix(m, "early eof"@) || has_infix(
        m,
        "out of memory"@,
    ) {
        Some((ProjectError::RepoTooLarge, "Repository clone failed (network/size)."@))
    } else {
        None
    }
}

pub fn classify_clone_message(message: &str) -> (r: Option<(ProjectError, String)>)
    ensures
        match spec_classify_clone(message@) {
            Some((e, t)) => r matches Some(x) && x.0 == e && x.1@ == t,
            None => r is None,
        },
{
    let m = to_lowercase(message);
    let m = m.as_str();
    if contains_str(m, "not found") || contains_str(m, "does not exist") {
        Some((ProjectError::NoRepository, owned("Repository not found.")))
    } else if contains_str(m, "authentication") || contains_str(m, "401") || contains_str(m, "403")
        || contains_str(m, "credentials") {
        Some((ProjectError::RequiresAuth, owned("Authentication required.")))
    } else if contains_str(m, "remote branch") || contains_str(m, "not found in upstream")
        || contains_str(m, "reference") {
        Some((ProjectError::NoBranch, owned("Requested branch not found.")))
    } else if contains_str(m, "pack exceeds") || contains_str(m, "early eof") || contains_str(
        m,
        "out of memory",
    ) {
        Some((ProjectError::RepoTooLarge, owned("Repository clone failed (network/size).")))
    } else {
        None
    }
}

/// The short form of a commit hash: its first 7 bytes.
pub fn short_hash(full_hash: &str) -> (r: String)
    requires
        bytes_end_on_char(full_hash@, 7),
    ensures
        r@ == full_hash@.subrange(0, chars_within(full_hash@, 7) as int),
{
    byte_prefix(full_hash, 7)
}

/// The branch a remote branch name stands for: `origin/NAME` gives `NAME`, except
/// the remote's `HEAD`.
pub open spec fn spec_remote_branch(name: Seq<char>) -> Option<Seq<char>> {
    if has_prefix(name, "origin/"@) {
        let short = name.subrange(7, name.len() as int);
        if short == "HEAD"@ {
            None
        } else {
            Some(short)
        }
    } else {
        None
    }
}

pub fn remote_branch_name(name: &str) -> (r: Option<String>)
    ensures
        crate::issues::opt_view(r) == spec_remote_branch(name@),
{
    proof {
        reveal_strlit("origin/");
    }
    match strip_prefix(name, "origin/") {
        Some(short) => if str_eq(short.as_str(), "HEAD") {
            None
        } else {
            Some(short)
        },
        None => None,
    }
}

/// The reference HEAD is set to after checking out `refname`: a remote-tracking
/// branch of `origin` becomes the local branch of that name.
pub open spec fn spec_head_ref(refname: Seq<char>) -> Seq<char> {
    if has_prefix(refname, "refs/remotes/origin/"@) {
        "refs/heads/"@ + refname.subrange(20, refname.len() as int)
    } else {
        refname
    }
}

pub fn head_ref_for(refname: &str) -> (r: String)
    ensures
        r@ == spec_head_ref(refname@),
{
    proof {
        reveal_strlit("refs/remotes/origin/");
    }
    match strip_prefix(refname, "refs/remotes/origin/") {
        Some(name) => concat2("refs/heads/", name.as_str()),
        None => owned(refname),
    }
}

/// What chrono writes for the UTC time `seconds` after the epoch, as
/// `%Y-%m-%dT%H:%M:%SZ` (the epoch itself when out of range).
pub uninterp spec fn iso_time(seconds: i64) -> Seq<char>;

/// `DateTime::<Utc>::from_timestamp(seconds, 0)` (the default time when out of
/// range), formatted `%Y-%m-%dT%H:%M:%SZ`.
#[verifier::external_body]
fn chrono_iso_time(seconds: i64) -> (r: String)
    ensures
        r@ == iso_time(seconds),
{
    chrono::DateTime::<chrono::Utc>::from_timestamp(seconds, 0).unwrap_or_default().format(
        "%Y-%m-%dT%H:%M:%SZ",
    ).to_string()
}

/// The date of a commit made `seconds` after the epoch.
pub fn format_iso_time(seconds: i64) -> (r: String)
    ensures
        r@ == iso_time(seconds),
{
    chrono_iso_time(seconds)
}

} // verus!
