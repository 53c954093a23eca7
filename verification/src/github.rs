//! The part of a GitHub release that the library reads.

use vstd::prelude::*;

verus! {

/// A release as the GitHub API describes it (only the fields read here).
pub struct GithubRelease {
    pub tag_name: String,
    pub html_url: String,
    pub published_at: String,
    pub assets: Vec<GithubAsset>,
}

/// A file attached to a release.
pub struct GithubAsset {
    pub name: String,
    pub browser_download_url: String,
    pub size: u64,
}

} // verus!
