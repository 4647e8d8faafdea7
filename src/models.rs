//! Rows of the forge's database as text, and their conversion into domain
//! values.
use vstd::prelude::*;
use crate::error::Error;
use crate::types::{is_slug, Repository, Slug, User, Visibility};

verus! {

/// The 128-bit value of a textual UUID, if the text is one.
pub uninterp spec fn uuid_value(s: Seq<char>) -> Option<u128>;

/// The instant an RFC 3339 date-time names, in microseconds since the Unix
/// epoch, if the text is one.
pub uninterp spec fn rfc3339_micros(s: Seq<char>) -> Option<i64>;

/// Relies on `uuid::Uuid::parse_str` and `Uuid::as_u128`: the value of the
/// UUID that `s` spells, if it spells one.
#[verifier::external_body]
fn parse_uuid(s: &str) -> (r: Option<u128>)
    ensures
        r == uuid_value(s@),
{
    match uuid::Uuid::parse_str(s) {
        Ok(u) => Some(u.as_u128()),
        Err(_) => None,
    }
}

/// Relies on `chrono::DateTime::parse_from_rfc3339` and
/// `DateTime::timestamp_micros`: the instant that `s` names, if it is an
/// RFC 3339 date-time.
#[verifier::external_body]
fn parse_rfc3339(s: &str) -> (r: Option<i64>)
    ensures
        r == rfc3339_micros(s@),
{
    match chrono::DateTime::parse_from_rfc3339(s) {
        Ok(t) => Some(t.timestamp_micros()),
        Err(_) => None,
    }
}

/// A user row.
pub struct UserModel {
    pub id: String,
    pub email: String,
    pub name: String,
    pub avatar_url: Option<String>,
    pub created_at: String,
    pub updated_at: String,
}

/// A repository row.
pub struct RepositoryModel {
    pub id: String,
    pub slug: String,
    pub name: String,
    pub description: Option<String>,
    pub default_branch: String,
    pub visibility: String,
    pub created_at: String,
    pub updated_at: String,
}

/// The visibility a stored word names: `private` or `public`.
pub open spec fn visibility_named(s: Seq<char>) -> Option<Visibility> {
    if s == seq!['p', 'r', 'i', 'v', 'a', 't', 'e'] {
        Some(Visibility::Private)
    } else if s == seq!['p', 'u', 'b', 'l', 'i', 'c'] {
        Some(Visibility::Public)
    } else {
        None
    }
}

/// The visibility a stored word names.
pub fn parse_visibility(s: &str) -> (r: Option<Visibility>)
    ensures
        r == visibility_named(s@),
{
    let n = s.unicode_len();
    if n == 7 {
        let w = ['p', 'r', 'i', 'v', 'a', 't', 'e'];
        let mut i: usize = 0;
        while i < 7
            invariant
                n == s@.len(),
                n == 7,
                i <= 7,
                w@ == seq!['p', 'r', 'i', 'v', 'a', 't', 'e'],
                forall|j: int| 0 <= j < i ==> s@[j] == w@[j],
            decreases 7 - i,
        {
            if s.get_char(i) != w[i] {
                return None;
            }
            i = i + 1;
        }
        assert(s@ =~= seq!['p', 'r', 'i', 'v', 'a', 't', 'e']);
        Some(Visibility::Private)
    } else if n == 6 {
        let w = ['p', 'u', 'b', 'l', 'i', 'c'];
        let mut i: usize = 0;
        while i < 6
            invariant
                n == s@.len(),
                n == 6,
                i <= 6,
                w@ == seq!['p', 'u', 'b', 'l', 'i', 'c'],
                forall|j: int| 0 <= j < i ==> s@[j] == w@[j],
            decreases 6 - i,
        {
            if s.get_char(i) != w[i] {
                return None;
            }
            i = i + 1;
        }
        assert(s@ =~= seq!['p', 'u', 'b', 'l', 'i', 'c']);
        Some(Visibility::Public)
    } else {
        None
    }
}

/// Whether a repository row converts: a known visibility, a UUID, a slug and
/// two RFC 3339 instants.
pub open spec fn repository_row_ok(m: RepositoryModel) -> bool {
    &&& visibility_named(m.visibility@) is Some
    &&& uuid_value(m.id@) is Some
    &&& is_slug(m.slug@)
    &&& rfc3339_micros(m.created_at@) is Some
    &&& rfc3339_micros(m.updated_at@) is Some
}

/// Whether a user row converts: a UUID and two RFC 3339 instants.
pub open spec fn user_row_ok(m: UserModel) -> bool {
    &&& uuid_value(m.id@) is Some
    &&& rfc3339_micros(m.created_at@) is Some
    &&& rfc3339_micros(m.updated_at@) is Some
}

impl Repository {
    /// The repository a row describes, or a validation error naming the
    /// first field that does not convert.
    pub fn from_model(model: RepositoryModel) -> (r: Result<Repository, Error>)
        ensures
            r is Ok <==> repository_row_ok(model),
            r matches Err(e) ==> e is Validation,
            r matches Ok(repo) ==> {
                &&& Some(repo.id) == uuid_value(model.id@)
                &&& repo.slug@ == model.slug@
                &&& repo.name == model.name
                &&& repo.description == model.description
                &&& repo.default_branch == model.default_branch
                &&& Some(repo.visibility) == visibility_named(model.visibility@)
                &&& Some(repo.created_at) == rfc3339_micros(model.created_at@)
                &&& Some(repo.updated_at) == rfc3339_micros(model.updated_at@)
            },
    {
        let visibility = match parse_visibility(model.visibility.as_str()) {
            Some(v) => v,
            None => {
                return Err(Error::Validation(String::from_str("Invalid visibility")));
            },
        };
        let id = match parse_uuid(model.id.as_str()) {
            Some(id) => id,
            None => {
                return Err(Error::Validation(String::from_str("Invalid UUID")));
            },
        };
        let slug = match Slug::new(model.slug.as_str()) {
            Ok(s) => s,
            Err(e) => {
                return Err(e);
            },
        };
        let created_at = match parse_rfc3339(model.created_at.as_str()) {
            Some(t) => t,
            None => {
                return Err(Error::Validation(String::from_str("Invalid timestamp")));
            },
        };
        let updated_at = match parse_rfc3339(model.updated_at.as_str()) {
            Some(t) => t,
            None => {
                return Err(Error::Validation(String::from_str("Invalid timestamp")));
            },
        };
        Ok(Repository {
            id,
            slug,
            name: model.name,
            description: model.description,
            default_branch: model.default_branch,
            visibility,
            created_at,
            updated_at,
        })
    }
}

impl User {
    /// The user a row describes, or a validation error naming the first field
    /// that does not convert.
    pub fn from_model(model: UserModel) -> (r: Result<User, Error>)
        ensures
            r is Ok <==> user_row_ok(model),
            r matches Err(e) ==> e is Validation,
            r matches Ok(u) ==> {
                &&& Some(u.id) == uuid_value(model.id@)
                &&& u.email == model.email
                &&& u.name == model.name
                &&& u.avatar_url == model.avatar_url
                &&& Some(u.created_at) == rfc3339_micros(model.created_at@)
                &&& Some(u.updated_at) == rfc3339_micros(model.updated_at@)
            },
    {
        let id = match parse_uuid(model.id.as_str()) {
            Some(id) => id,
            None => {
                return Err(Error::Validation(String::from_str("Invalid UUID")));
            },
        };
        let created_at = match parse_rfc3339(model.created_at.as_str()) {
            Some(t) => t,
            None => {
                return Err(Error::Validation(String::from_str("Invalid timestamp")));
            },
        };
        let updated_at = match parse_rfc3339(model.updated_at.as_str()) {
            Some(t) => t,
            None => {
                return Err(Error::Validation(String::from_str("Invalid timestamp")));
            },
        };
        Ok(User {
            id,
            email: model.email,
            name: model.name,
            avatar_url: model.avatar_url,
            created_at,
            updated_at,
        })
    }
}

/// The repositories that rows describe, in order, or the error of the first
/// row that does not convert.
pub fn repositories_from_models(models: Vec<RepositoryModel>) -> (r: Result<Vec<Repository>, Error>)
    ensures
        r is Ok <==> forall|i: int| 0 <= i < models@.len() ==> repository_row_ok(#[trigger] models@[i]),
        r matches Err(e) ==> e is Validation,
        r matches Ok(repos) ==> repos@.len() == models@.len() && forall|i: int|
            0 <= i < repos@.len() ==> #[trigger] repos@[i].slug@ == models@[i].slug@ && Some(repos@[i].id)
                == uuid_value(models@[i].id@),
{
    let ghost all = models@;
    let mut rest = models;
    let mut repos: Vec<Repository> = Vec::new();
    while rest.len() > 0
        invariant
            all == models@,
            repos@.len() + rest@.len() == all.len(),
            rest@ == all.subrange(repos@.len() as int, all.len() as int),
            forall|i: int| 0 <= i < repos@.len() ==> repository_row_ok(#[trigger] all[i]),
            forall|i: int|
                0 <= i < repos@.len() ==> #[trigger] repos@[i].slug@ == all[i].slug@ && Some(repos@[i].id)
                    == uuid_value(all[i].id@),
        decreases rest@.len(),
    {
        let ghost k = repos@.len() as int;
        let model = rest.remove(0);
        assert(model == all[k]);
        match Repository::from_model(model) {
            Ok(repo) => {
                repos.push(repo);
                proof {
                    assert(rest@ =~= all.subrange(k + 1, all.len() as int));
                }
            },
            Err(e) => {
                assert(!repository_row_ok(models@[k]));
                return Err(e);
            },
        }
    }
    Ok(repos)
}

} // verus!
