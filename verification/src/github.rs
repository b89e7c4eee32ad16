//! Release and repository records as the code-hosting API reports them, and
//! the rules read off them: which releases are official, which repositories
//! are maintained, which releases are too old to announce.

use crate::timeutil::parse_rfc3339_epoch;
use crate::timeutil::rfc3339_epoch;
use vstd::prelude::*;

verus! {

/// A release identity reduced to one machine word.
pub type ReleaseHash = u64;

/// A repository as the listing endpoint reports it.
pub struct Repo {
    pub name: String,
    pub full_name: String,
    pub archived: bool,
    pub fork: bool,
}

/// A release as the releases endpoint reports it.
pub struct Release {
    pub html_url: String,
    pub tag_name: String,
    pub name: String,
    pub prerelease: bool,
    pub draft: bool,
    pub body: String,
    pub published_at: Option<String>,
}

/// A release is too old to announce when it was published at least ten days
/// before `now_s` (both in epoch seconds); one with no or an unreadable
/// publication date is announced.
pub open spec fn spec_is_too_old(published: Option<String>, now_s: int) -> bool {
    match published {
        None => false,
        Some(p) => match rfc3339_epoch(p@) {
            None => false,
            Some(ts) => now_s - ts >= 864000,
        },
    }
}

impl Release {
    /// The announcement for a fresh release of a repository.
    pub fn get_notification_message(&self, repo: &Repo) -> (r: String)
        ensures
            r@ == "👋 Release de ["@ + repo.name@ + " "@ + self.tag_name@ + "]("@ + self.html_url@
                + ")"@,
    {
        let mut s = String::from_str("👋 Release de [");
        s.append(repo.name.as_str());
        s.append(" ");
        s.append(self.tag_name.as_str());
        s.append("](");
        s.append(self.html_url.as_str());
        s.append(")");
        s
    }

    /// Drafts and prereleases are not announced.
    pub fn is_not_official(&self) -> (r: bool)
        ensures
            r == (self.draft || self.prerelease),
    {
        self.draft || self.prerelease
    }

    /// Whether the release is too old to announce, against the given clock
    /// reading.
    pub fn is_too_old(&self, now_s: i64) -> (r: bool)
        ensures
            r == spec_is_too_old(self.published_at, now_s as int),
    {
        match &self.published_at {
            None => false,
            Some(p) => match parse_rfc3339_epoch(p.as_str()) {
                None => false,
                Some(ts) => (now_s as i128) - (ts as i128) >= 864000,
            },
        }
    }
}

impl Repo {
    /// Forks and archived repositories are not watched.
    pub fn is_not_maintained(&self) -> (r: bool)
        ensures
            r == (self.fork || self.archived),
    {
        self.fork || self.archived
    }
}

/// Relies on std's `DefaultHasher`: a hash of the text, stable only within
/// one process run, so nothing is promised of the value.
#[verifier::external_body]
pub fn calculate_hash(t: &String) -> u64 {
    let mut s = std::collections::hash_map::DefaultHasher::new();
    std::hash::Hash::hash(t, &mut s);
    std::hash::Hasher::finish(&s)
}

} // verus!
