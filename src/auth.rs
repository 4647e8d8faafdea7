//! Identity settings, token claims and the parts of request authentication
//! that read plain text.
use vstd::prelude::*;
use crate::error::Error;

verus! {

/// What a session token states about its holder. `exp` and `iat` are
/// seconds since the Unix epoch.
pub struct Claims {
    pub sub: String,
    pub email: String,
    pub name: String,
    pub user_id: u128,
    pub exp: i64,
    pub iat: i64,
}

/// Identity provider and token settings.
pub struct AuthConfig {
    pub oidc_issuer: String,
    pub oidc_client_id: String,
    pub oidc_client_secret: String,
    pub jwt_secret: String,
    pub jwt_expiry_hours: i64,
}

/// The characters `Bearer ` that open a bearer authorization header.
pub open spec fn bearer_prefix() -> Seq<char> {
    seq!['B', 'e', 'a', 'r', 'e', 'r', ' ']
}

/// The token of a bearer authorization header: the text after `Bearer `, or
/// `None` where the header does not start with it.
pub fn bearer_token(header: &str) -> (r: Option<String>)
    ensures
        r is Some <==> header@.len() >= 7 && header@.subrange(0, 7) == bearer_prefix(),
        r matches Some(t) ==> t@ == header@.subrange(7, header@.len() as int),
{
    let n = header.unicode_len();
    if n < 7 {
        return None;
    }
    let expected = ['B', 'e', 'a', 'r', 'e', 'r', ' '];
    let mut i: usize = 0;
    while i < 7
        invariant
            n == header@.len(),
            n >= 7,
            i <= 7,
            expected@ == bearer_prefix(),
            forall|j: int| 0 <= j < i ==> header@[j] == bearer_prefix()[j],
        decreases 7 - i,
    {
        if header.get_char(i) != expected[i] {
            assert(header@.subrange(0, 7)[i as int] != bearer_prefix()[i as int]);
            return None;
        }
        i = i + 1;
    }
    assert(header@.subrange(0, 7) =~= bearer_prefix());
    Some(header.substring_char(7, n).to_owned())
}

/// An OpenID Connect identity provider.
pub struct OidcProvider {
    config: AuthConfig,
}

impl OidcProvider {
    /// The provider's issuer URL.
    pub closed spec fn issuer(&self) -> Seq<char> {
        self.config.oidc_issuer@
    }

    /// A provider with the given settings.
    pub fn new(config: AuthConfig) -> (r: OidcProvider)
        ensures
            r.issuer() == config.oidc_issuer@,
    {
        OidcProvider { config }
    }

    /// The provider's authorization endpoint: the issuer followed by `/auth`.
    pub fn get_auth_url(&self) -> (r: Result<String, Error>)
        ensures
            r matches Ok(u) && u@ == self.issuer() + seq!['/', 'a', 'u', 't', 'h'],
    {
        let mut u = self.config.oidc_issuer.clone();
        u.append("/auth");
        proof {
            reveal_strlit("/auth");
            assert("/auth"@ =~= seq!['/', 'a', 'u', 't', 'h']);
        }
        Ok(u)
    }
}

} // verus!
