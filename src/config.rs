//! Forge-wide and per-repository settings.
use vstd::prelude::*;
use std::collections::HashMap;
use crate::transfer::{mb_to_bytes, SizeLimits};
use crate::types::{Label, RetentionPolicy, Slug, Visibility};

verus! {

/// Settings of the whole forge.
pub struct ForgeConfig {
    pub default_visibility: Visibility,
    pub allowed_domains: Vec<String>,
    pub artifact_retention: RetentionPolicy,
    pub limits: Limits,
}

/// System limits, in megabytes and counts.
#[derive(Clone, Copy, Debug, PartialEq, Eq, Structural)]
pub struct Limits {
    pub push_body_limit_mb: u64,
    pub file_size_ceiling_mb: u64,
    pub max_repositories_per_product: u32,
}

impl Default for Limits {
    /// 200 MB pushes, 100 MB files and 50 repositories per product.
    fn default() -> (r: Limits)
        ensures
            r.push_body_limit_mb == 200,
            r.file_size_ceiling_mb == 100,
            r.max_repositories_per_product == 50,
    {
        Limits { push_body_limit_mb: 200, file_size_ceiling_mb: 100, max_repositories_per_product: 50 }
    }
}

impl Limits {
    /// The push limits in bytes.
    pub fn size_limits(&self) -> (r: SizeLimits)
        ensures
            r.push_body_limit == mb_to_bytes(self.push_body_limit_mb),
            r.file_size_ceiling == mb_to_bytes(self.file_size_ceiling_mb),
    {
        SizeLimits::from_megabytes(self.push_body_limit_mb, self.file_size_ceiling_mb)
    }
}

/// Settings of one repository.
pub struct RepoConfig {
    pub slug: Slug,
    pub default_branch: String,
    pub branch_protections: HashMap<String, BranchProtection>,
    pub labels: Vec<Label>,
    pub code_owners: Vec<CodeOwnerRule>,
}

/// Rules for changing a protected branch.
pub struct BranchProtection {
    pub required_approvals: u32,
    pub require_up_to_date: bool,
    pub require_code_owner_approval: bool,
    pub require_signed_commits: bool,
    pub allowed_merge_types: Vec<MergeType>,
}

/// Owners of the paths that match a glob pattern.
pub struct CodeOwnerRule {
    pub pattern: String,
    pub owners: Vec<String>,
}

/// How a review may be merged.
#[derive(Clone, Copy, Debug, PartialEq, Eq, Structural)]
pub enum MergeType {
    FastForward,
    Merge,
    Squash,
    Rebase,
}

/// A role granted to subjects on a resource.
pub struct PolicyGrant {
    pub resource: String,
    pub target: String,
    pub role: String,
    pub subjects: Vec<String>,
}

} // verus!
