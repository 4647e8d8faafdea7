//! Domain types of the forge: identifiers, repositories, products, issues,
//! reviews, releases and users. Identifiers are held as 128-bit integers and
//! instants as microseconds since the Unix epoch.
use vstd::prelude::*;
use std::collections::HashMap;
use crate::error::Error;

verus! {

/// Whether `c` may stand in a slug: a lowercase ASCII letter, a digit, `.`,
/// `_` or `-`.
pub open spec fn is_slug_char(c: char) -> bool {
    ('a' <= c && c <= 'z') || ('0' <= c && c <= '9') || c == '.' || c == '_' || c == '-'
}

/// Whether every character of `s` may stand in a slug.
pub open spec fn is_slug(s: Seq<char>) -> bool {
    forall|i: int| 0 <= i < s.len() ==> is_slug_char(#[trigger] s[i])
}

/// Whether `c` may stand in a slug.
pub fn slug_char_ok(c: char) -> (r: bool)
    ensures
        r == is_slug_char(c),
{
    ('a' <= c && c <= 'z') || ('0' <= c && c <= '9') || c == '.' || c == '_' || c == '-'
}

/// Whether every character of `s` may stand in a slug.
pub fn slug_chars_ok(s: &str) -> (r: bool)
    ensures
        r == is_slug(s@),
{
    let n = s.unicode_len();
    let mut i: usize = 0;
    while i < n
        invariant
            n == s@.len(),
            i <= n,
            forall|j: int| 0 <= j < i ==> is_slug_char(#[trigger] s@[j]),
        decreases n - i,
    {
        if !slug_char_ok(s.get_char(i)) {
            return false;
        }
        i = i + 1;
    }
    true
}

/// A slug: lowercase ASCII letters, digits, `.`, `_` and `-`.
#[derive(Clone, Debug, PartialEq, Eq, Hash)]
pub struct Slug(String);

impl View for Slug {
    type V = Seq<char>;

    closed spec fn view(&self) -> Seq<char> {
        self.0@
    }
}

impl Slug {
    /// A slug holds only slug characters.
    pub closed spec fn wf(&self) -> bool {
        is_slug(self.0@)
    }

    /// The slug `s`, or a validation error where `s` holds another character.
    pub fn new(s: &str) -> (r: Result<Slug, Error>)
        ensures
            r is Ok <==> is_slug(s@),
            r matches Ok(slug) ==> slug@ == s@ && slug.wf(),
            r matches Err(e) ==> e is Validation,
    {
        if slug_chars_ok(s) {
            Ok(Slug(s.to_owned()))
        } else {
            Err(Error::Validation(String::from_str("Invalid slug format")))
        }
    }

    /// The slug's text.
    pub fn as_str(&self) -> (r: &str)
        ensures
            r@ == self@,
    {
        self.0.as_str()
    }
}

/// A distributed identifier.
#[derive(Clone, Debug, PartialEq, Eq, Hash)]
pub struct Did(String);

impl View for Did {
    type V = Seq<char>;

    closed spec fn view(&self) -> Seq<char> {
        self.0@
    }
}

impl Did {
    /// The identifier `s`.
    pub fn new(s: String) -> (r: Did)
        ensures
            r@ == s@,
    {
        Did(s)
    }

    /// The identifier's text.
    pub fn as_str(&self) -> (r: &str)
        ensures
            r@ == self@,
    {
        self.0.as_str()
    }
}

/// Who may see a repository.
#[derive(Clone, Copy, Debug, PartialEq, Eq, Structural)]
pub enum Visibility {
    Private,
    Public,
}

/// A registered repository.
pub struct Repository {
    pub id: u128,
    pub slug: Slug,
    pub name: String,
    pub description: Option<String>,
    pub default_branch: String,
    pub visibility: Visibility,
    pub created_at: i64,
    pub updated_at: i64,
}

/// A product: a group of repositories with shared settings.
pub struct Product {
    pub id: u128,
    pub name: String,
    pub description: Option<String>,
    pub repositories: Vec<u128>,
    pub config: ProductConfig,
    pub created_at: i64,
    pub updated_at: i64,
}

/// A product's settings.
pub struct ProductConfig {
    pub docs: DocsConfig,
    pub issues: IssuesConfig,
    pub releases: ReleasesConfig,
}

/// Where a product's documentation lives.
pub struct DocsConfig {
    pub roots: Vec<String>,
    pub allow_list: Vec<String>,
}

/// A product's issue settings.
pub struct IssuesConfig {
    pub types: Vec<IssueType>,
    pub labels: Vec<Label>,
    pub workflows: HashMap<String, IssueWorkflow>,
}

/// A product's release settings.
pub struct ReleasesConfig {
    pub dirs: Vec<String>,
    pub validation: ReleaseValidation,
    pub retention: RetentionPolicy,
}

/// A kind of issue, with the schema of its fields as JSON text.
pub struct IssueType {
    pub name: String,
    pub schema: String,
    pub default_labels: Vec<String>,
}

/// The states of an issue and the moves between them.
pub struct IssueWorkflow {
    pub states: Vec<String>,
    pub transitions: HashMap<String, Vec<String>>,
}

/// A label.
pub struct Label {
    pub name: String,
    pub color: String,
    pub description: Option<String>,
}

/// What a release must contain.
pub struct ReleaseValidation {
    pub required_files: Vec<String>,
    pub max_artifact_size: u64,
}

/// How long release artifacts are kept.
#[derive(Clone, Copy, Debug, PartialEq, Eq, Structural)]
pub struct RetentionPolicy {
    pub keep_latest: u32,
    pub keep_days: u32,
}

/// An issue; `number` comes from one sequence shared by all repositories.
pub struct Issue {
    pub id: u128,
    pub number: u64,
    pub title: String,
    pub body: String,
    pub issue_type: String,
    pub state: String,
    pub labels: Vec<String>,
    pub assignees: Vec<u128>,
    pub author: u128,
    pub repository_id: u128,
    pub created_at: i64,
    pub updated_at: i64,
}

/// A review of changes between two refs.
pub struct Review {
    pub id: u128,
    pub title: String,
    pub description: String,
    pub state: ReviewState,
    pub source_ref: String,
    pub target_ref: String,
    pub repository_id: u128,
    pub author: u128,
    pub created_at: i64,
    pub updated_at: i64,
}

/// Where a review stands.
#[derive(Clone, Copy, Debug, PartialEq, Eq, Structural)]
pub enum ReviewState {
    Open,
    Approved,
    ChangesRequested,
    Merged,
    Closed,
}

/// A release of a repository at one commit.
pub struct Release {
    pub id: u128,
    pub name: String,
    pub version: String,
    pub commit_id: String,
    pub status: ReleaseStatus,
    pub artifacts: Vec<ReleaseArtifact>,
    pub repository_id: u128,
    pub created_at: i64,
    pub published_at: Option<i64>,
}

/// Where a release stands.
#[derive(Clone, Copy, Debug, PartialEq, Eq, Structural)]
pub enum ReleaseStatus {
    Draft,
    Published,
    Archived,
}

/// A file attached to a release.
pub struct ReleaseArtifact {
    pub name: String,
    pub content_type: String,
    pub size: u64,
    pub sha256: String,
    pub s3_key: String,
}

/// A user.
pub struct User {
    pub id: u128,
    pub email: String,
    pub name: String,
    pub avatar_url: Option<String>,
    pub created_at: i64,
    pub updated_at: i64,
}

} // verus!
