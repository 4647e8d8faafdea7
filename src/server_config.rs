//! Settings of the forge server as a whole.
use vstd::prelude::*;
use crate::auth::AuthConfig;
use crate::policy::PolicyConfig;
use crate::search::SearchConfig;
use crate::vcs::VcsConfig;

verus! {

/// The database the forge keeps its records in.
pub struct StorageConfig {
    pub database_url: String,
    pub max_connections: u32,
    pub backup_interval_hours: u64,
}

/// All settings of the server.
pub struct ServerConfig {
    pub auth: AuthConfig,
    pub storage: StorageConfig,
    pub vcs: VcsConfig,
    pub search: SearchConfig,
    pub policy: PolicyConfig,
    pub server: HttpConfig,
    pub tls: Option<TlsConfig>,
}

/// HTTP settings.
pub struct HttpConfig {
    pub request_timeout_seconds: u64,
    pub max_request_size_mb: u64,
    pub cors_origins: Vec<String>,
}

/// Certificate settings, with ACME.
pub struct TlsConfig {
    pub acme_directory: String,
    pub acme_email: String,
    pub domains: Vec<String>,
    pub cache_dir: String,
}

impl Default for ServerConfig {
    /// Settings for a local development server.
    fn default() -> (r: ServerConfig)
        ensures
            r.auth.oidc_issuer@ == "https://accounts.google.com"@,
            r.auth.oidc_client_id@ == ""@,
            r.auth.oidc_client_secret@ == ""@,
            r.auth.jwt_secret@ == "change-me-in-production"@,
            r.auth.jwt_expiry_hours == 24,
            r.storage.database_url@ == "sqlite:forge.db"@,
            r.storage.max_connections == 10,
            r.storage.backup_interval_hours == 6,
            r.vcs.repositories_root@ == "./repositories"@,
            r.vcs.jj_binary_path@ == "jj"@,
            r.vcs.max_push_size_mb == 200,
            r.vcs.max_file_size_mb == 100,
            r.search.index_path@ == "./search_index"@,
            r.search.max_results == 100,
            r.search.refresh_interval_seconds == 300,
            r.policy.policy_store_path@ == "./policies"@,
            r.policy.evaluation_timeout_ms == 100,
            r.server.request_timeout_seconds == 30,
            r.server.max_request_size_mb == 100,
            r.server.cors_origins@.len() == 1,
            r.server.cors_origins@[0]@ == "http://localhost:3000"@,
            r.tls is None,
    {
        let mut cors_origins: Vec<String> = Vec::new();
        cors_origins.push(String::from_str("http://localhost:3000"));
        ServerConfig {
            auth: AuthConfig {
                oidc_issuer: String::from_str("https://accounts.google.com"),
                oidc_client_id: String::from_str(""),
                oidc_client_secret: String::from_str(""),
                jwt_secret: String::from_str("change-me-in-production"),
                jwt_expiry_hours: 24,
            },
            storage: StorageConfig {
                database_url: String::from_str("sqlite:forge.db"),
                max_connections: 10,
                backup_interval_hours: 6,
            },
            vcs: VcsConfig {
                repositories_root: String::from_str("./repositories"),
                jj_binary_path: String::from_str("jj"),
                max_push_size_mb: 200,
                max_file_size_mb: 100,
            },
            search: SearchConfig {
                index_path: String::from_str("./search_index"),
                max_results: 100,
                refresh_interval_seconds: 300,
            },
            policy: PolicyConfig {
                policy_store_path: String::from_str("./policies"),
                evaluation_timeout_ms: 100,
            },
            server: HttpConfig {
                request_timeout_seconds: 30,
                max_request_size_mb: 100,
                cors_origins,
            },
            tls: None,
        }
    }
}

} // verus!
