use forge::auth::{bearer_token, AuthConfig, OidcProvider};
use forge::config::Limits;
use forge::error::{Error, TransferError};
use forge::loader::{cue_file_names, has_cue_extension, FileLoader};
use forge::models::{parse_visibility, repositories_from_models, RepositoryModel, UserModel};
use forge::policy::{
    AuthContext, AuthorizationRequest, CedarEngine, Decision, PolicyEvaluator, Principal,
    PrincipalType, Resource,
};
use forge::search::{SearchConfig, SearchIndex};
use forge::server_config::ServerConfig;
use forge::types::{Did, Repository, Slug, User, Visibility};
use std::collections::HashMap;

#[test]
fn slug_accepts_its_character_set_only() {
    assert_eq!(Slug::new("acme-widgets_1.0").unwrap().as_str(), "acme-widgets_1.0");
    assert!(matches!(Slug::new("Acme"), Err(Error::Validation(_))));
    assert!(matches!(Slug::new("acme/widgets"), Err(Error::Validation(_))));
    assert!(Slug::new("").is_ok());
}

#[test]
fn did_keeps_its_text() {
    assert_eq!(Did::new("did:web:forge".to_string()).as_str(), "did:web:forge");
}

#[test]
fn client_and_server_errors_are_told_apart() {
    assert!(TransferError::RefConflict.is_client_error());
    assert!(!TransferError::RefConflict.is_retryable());
    assert!(TransferError::StorageIo.is_retryable());
    assert!(TransferError::Busy.is_retryable());
    assert!(TransferError::Timeout.is_retryable());
    assert!(TransferError::InvalidSlug.is_client_error());
}

#[test]
fn bearer_header_yields_its_token() {
    assert_eq!(bearer_token("Bearer abc.def"), Some("abc.def".to_string()));
    assert_eq!(bearer_token("Bearer "), Some(String::new()));
    assert_eq!(bearer_token("Basic abc"), None);
    assert_eq!(bearer_token("bearer abc"), None);
}

#[test]
fn oidc_auth_url_appends_auth() {
    let p = OidcProvider::new(AuthConfig {
        oidc_issuer: "https://id.example".to_string(),
        oidc_client_id: String::new(),
        oidc_client_secret: String::new(),
        jwt_secret: String::new(),
        jwt_expiry_hours: 1,
    });
    assert_eq!(p.get_auth_url().ok(), Some("https://id.example/auth".to_string()));
}

#[test]
fn cue_files_are_picked_by_extension() {
    assert!(has_cue_extension("forge.cue"));
    assert!(!has_cue_extension(".cue"));
    assert!(!has_cue_extension("forge.cue.bak"));
    let names = vec!["a.cue".to_string(), "b.toml".to_string(), "c.cue".to_string()];
    assert_eq!(cue_file_names(&names), vec!["a.cue".to_string(), "c.cue".to_string()]);
    assert_eq!(FileLoader::new("/etc/forge".to_string()).root_path(), "/etc/forge");
}

#[test]
fn default_limits_and_server_settings() {
    let l = Limits::default();
    assert_eq!((l.push_body_limit_mb, l.file_size_ceiling_mb, l.max_repositories_per_product), (200, 100, 50));
    let s = l.size_limits();
    assert_eq!(s.push_body_limit, 200 * 1048576);
    let c = ServerConfig::default();
    assert_eq!(c.auth.oidc_issuer, "https://accounts.google.com");
    assert_eq!(c.vcs.max_push_size_mb, 200);
    assert_eq!(c.server.cors_origins, vec!["http://localhost:3000".to_string()]);
    assert!(c.tls.is_none());
}

#[test]
fn repository_row_converts() {
    let row = RepositoryModel {
        id: "550e8400-e29b-41d4-a716-446655440000".to_string(),
        slug: "widgets".to_string(),
        name: "Widgets".to_string(),
        description: None,
        default_branch: "main".to_string(),
        visibility: "public".to_string(),
        created_at: "1970-01-01T00:00:01Z".to_string(),
        updated_at: "1970-01-01T00:00:02.5Z".to_string(),
    };
    let repo = Repository::from_model(row).unwrap_or_else(|_| panic!("row should convert"));
    assert_eq!(repo.id, 0x550e8400_e29b_41d4_a716_446655440000u128);
    assert_eq!(repo.slug.as_str(), "widgets");
    assert_eq!(repo.visibility, Visibility::Public);
    assert_eq!(repo.created_at, 1_000_000);
    assert_eq!(repo.updated_at, 2_500_000);
}

#[test]
fn repository_row_with_bad_fields_is_refused() {
    let row = |vis: &str, id: &str, slug: &str, at: &str| RepositoryModel {
        id: id.to_string(),
        slug: slug.to_string(),
        name: "n".to_string(),
        description: None,
        default_branch: "main".to_string(),
        visibility: vis.to_string(),
        created_at: at.to_string(),
        updated_at: at.to_string(),
    };
    let id = "550e8400-e29b-41d4-a716-446655440000";
    let at = "2024-05-01T12:00:00+02:00";
    assert!(Repository::from_model(row("private", id, "w", at)).is_ok());
    assert!(matches!(Repository::from_model(row("secret", id, "w", at)), Err(Error::Validation(_))));
    assert!(matches!(Repository::from_model(row("private", "nope", "w", at)), Err(Error::Validation(_))));
    assert!(matches!(Repository::from_model(row("private", id, "W", at)), Err(Error::Validation(_))));
    assert!(matches!(Repository::from_model(row("private", id, "w", "yesterday")), Err(Error::Validation(_))));
    assert_eq!(parse_visibility("private"), Some(Visibility::Private));
    assert_eq!(parse_visibility("Public"), None);
}

#[test]
fn user_row_converts() {
    let row = UserModel {
        id: "00000000-0000-0000-0000-000000000001".to_string(),
        email: "a@b.c".to_string(),
        name: "A".to_string(),
        avatar_url: None,
        created_at: "1970-01-01T00:00:00Z".to_string(),
        updated_at: "1970-01-01T00:01:00Z".to_string(),
    };
    let u = User::from_model(row).unwrap_or_else(|_| panic!("row should convert"));
    assert_eq!(u.id, 1);
    assert_eq!(u.updated_at, 60_000_000);
}

#[test]
fn policy_engine_allows_and_keeps_policies() {
    let mut e = CedarEngine::new();
    assert!(e.load_policies(vec!["permit(principal, action, resource);".to_string()]).is_ok());
    assert_eq!(e.policy_count(), 1);
    let req = AuthorizationRequest {
        principal: Principal { id: 1, principal_type: PrincipalType::User, groups: vec![] },
        action: "push".to_string(),
        resource: Resource { id: 2, resource_type: "repository".to_string(), attributes: HashMap::new() },
        context: AuthContext { timestamp: 0, ip_address: None, user_agent: None },
    };
    assert_eq!(e.evaluate(&req).ok().map(|r| r.decision), Some(Decision::Allow));
    assert_eq!(PolicyEvaluator::new().evaluate_request(&req).ok().map(|r| r.decision), Some(Decision::Allow));
}

#[test]
fn search_index_keeps_its_settings() {
    let i = SearchIndex::new(SearchConfig { index_path: "./idx".to_string(), max_results: 25, refresh_interval_seconds: 60 });
    assert_eq!(i.ok().map(|i| i.max_results()), Some(25));
}

#[test]
fn repository_rows_convert_in_order_or_not_at_all() {
    let row = |slug: &str, vis: &str| RepositoryModel {
        id: "550e8400-e29b-41d4-a716-446655440000".to_string(),
        slug: slug.to_string(),
        name: slug.to_string(),
        description: Some("d".to_string()),
        default_branch: "main".to_string(),
        visibility: vis.to_string(),
        created_at: "2024-01-01T00:00:00Z".to_string(),
        updated_at: "2024-01-01T00:00:00Z".to_string(),
    };
    let repos = repositories_from_models(vec![row("b", "public"), row("a", "private")])
        .unwrap_or_else(|_| panic!("rows should convert"));
    let slugs: Vec<&str> = repos.iter().map(|r| r.slug.as_str()).collect();
    assert_eq!(slugs, vec!["b", "a"]);
    assert!(matches!(
        repositories_from_models(vec![row("b", "public"), row("a", "hidden")]),
        Err(Error::Validation(_))
    ));
    assert!(repositories_from_models(vec![]).map(|v| v.is_empty()).unwrap_or(false));
}
