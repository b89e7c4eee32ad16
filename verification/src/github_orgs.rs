//! Watching whole organisations for new releases: keeps one repository
//! watcher per listed repository and refreshes the listing on its own, slower
//! cadence; the API fetches are the host's.

use crate::bot::Message;
use crate::bot::Module;
use crate::bot::ModuleCapabilities;
use crate::bot::ModuleInfo;
use crate::bot::ModuleParam;
use crate::bot::TriggerOutcome;
use crate::github_repos;
use crate::github_repos::GithubRepo;
use crate::github_repos::has_repo;
use crate::strutil::str_eq;
use vstd::prelude::*;

verus! {

/// The one repository fact the listing endpoint reports.
pub struct GithubRepoLight {
    pub full_name: String,
}

/// Some listing entry carries this full name.
pub open spec fn listed(ls: Seq<GithubRepoLight>, full_name: Seq<char>) -> bool {
    exists|k: int| 0 <= k < ls.len() && (#[trigger] ls[k]).full_name@ == full_name
}

/// Keep `r` under its full name: a watcher with the same name is replaced,
/// any other is kept, and the name is present afterwards.
fn upsert_watcher(repos: &mut Vec<GithubRepo>, r: GithubRepo)
    ensures
        forall|n: Seq<char>|
            #[trigger] has_repo(final(repos)@, n) <==> has_repo(old(repos)@, n) || n
                == r.full_name@,
{
    let n = repos.len();
    let mut k: usize = 0;
    while k < n
        invariant
            n == repos@.len(),
            k <= n,
            repos@ == old(repos)@,
            forall|j: int| 0 <= j < k ==> (#[trigger] repos@[j]).full_name@ != r.full_name@,
        decreases n - k,
    {
        if str_eq(repos[k].full_name.as_str(), r.full_name.as_str()) {
            let ghost nm = r.full_name@;
            let slot = &mut repos[k];
            *slot = r;
            proof {
                assert forall|x: Seq<char>| #[trigger]
                    has_repo(final(repos)@, x) <==> has_repo(old(repos)@, x) || x == nm by {
                    if has_repo(repos@, x) {
                        let j = choose|j: int|
                            0 <= j < repos@.len() && (#[trigger] repos@[j]).full_name@ == x;
                        if j != k {
                            assert(old(repos)@[j].full_name@ == x);
                        }
                    }
                    if has_repo(old(repos)@, x) {
                        let j = choose|j: int|
                            0 <= j < old(repos)@.len() && (#[trigger] old(
                                repos,
                            )@[j]).full_name@ == x;
                        if j != k {
                            assert(repos@[j].full_name@ == x);
                        } else {
                            assert(repos@[k as int].full_name@ == nm);
                        }
                    }
                    if x == nm {
                        assert(repos@[k as int].full_name@ == x);
                    }
                }
            }
            return ;
        }
        k = k + 1;
    }
    let ghost nm = r.full_name@;
    let ghost before = repos@;
    repos.push(r);
    proof {
        assert forall|x: Seq<char>| #[trigger]
            has_repo(repos@, x) <==> has_repo(before, x) || x == nm by {
            if has_repo(repos@, x) {
                let j = choose|j: int|
                    0 <= j < repos@.len() && (#[trigger] repos@[j]).full_name@ == x;
                if j < before.len() {
                    assert(before[j].full_name@ == x);
                }
            }
            if has_repo(before, x) {
                let j = choose|j: int|
                    0 <= j < before.len() && (#[trigger] before[j]).full_name@ == x;
                assert(repos@[j].full_name@ == x);
            }
            if x == nm {
                assert(repos@[repos@.len() - 1].full_name@ == x);
            }
        }
    }
}

/// One watched organisation: its repository watchers, keyed by full name.
pub struct GithubOrg {
    pub name: String,
    pub repos: Vec<GithubRepo>,
    pub github_token: String,
}

impl GithubOrg {
    pub fn new(org_name: &str, github_token: &str) -> (g: GithubOrg)
        ensures
            g.name@ == org_name@,
            g.github_token@ == github_token@,
            g.repos@.len() == 0,
    {
        GithubOrg {
            name: org_name.to_owned(),
            repos: Vec::new(),
            github_token: github_token.to_owned(),
        }
    }

    /// Absorb a freshly fetched repository listing: every listed name gets a
    /// fresh watcher (an existing one under that name is reset), and nothing
    /// else leaves.
    pub fn update_repo_listing(&mut self, listing: Vec<GithubRepoLight>)
        ensures
            final(self).name == old(self).name,
            final(self).github_token == old(self).github_token,
            forall|n: Seq<char>|
                #[trigger] has_repo(final(self).repos@, n) <==> has_repo(old(self).repos@, n)
                    || listed(listing@, n),
    {
        let ghost listing_view = listing@;
        let mut listing = listing;
        let n = listing.len();
        let mut i: usize = 0;
        while i < n
            invariant
                n == listing_view.len(),
                i <= n,
                listing@ == listing_view.skip(i as int),
                self.name == old(self).name,
                self.github_token == old(self).github_token,
                forall|x: Seq<char>|
                    #[trigger] has_repo(self.repos@, x) <==> has_repo(old(self).repos@, x)
                        || listed(listing_view.take(i as int), x),
            decreases n - i,
        {
            proof {
                assert(listing@[0] == listing_view[i as int]);
            }
            let entry = listing.remove(0);
            let fresh = GithubRepo::new(entry.full_name.as_str(), self.github_token.as_str());
            upsert_watcher(&mut self.repos, fresh);
            proof {
                assert(listing@ =~= listing_view.skip(i + 1));
                assert forall|x: Seq<char>| #[trigger]
                    listed(listing_view.take(i + 1), x) <==> listed(listing_view.take(i as int), x)
                        || x == listing_view[i as int].full_name@ by {
                    if listed(listing_view.take(i + 1), x) {
                        let j = choose|j: int|
                            0 <= j < listing_view.take(i + 1).len() && (#[trigger] listing_view.take(
                                i + 1,
                            )[j]).full_name@ == x;
                        if j < i {
                            assert(listing_view.take(i as int)[j].full_name@ == x);
                        }
                    }
                    if listed(listing_view.take(i as int), x) {
                        let j = choose|j: int|
                            0 <= j < i && (#[trigger] listing_view.take(
                                i as int,
                            )[j]).full_name@ == x;
                        assert(listing_view.take(i + 1)[j].full_name@ == x);
                    }
                    if x == listing_view[i as int].full_name@ {
                        assert(listing_view.take(i + 1)[i as int].full_name@ == x);
                    }
                }
            }
            i = i + 1;
        }
        proof {
            assert(listing_view.take(n as int) =~= listing_view);
        }
    }
}

/// The module: one watcher per configured organisation.
pub struct GithubOrgs {
    pub orgs: Vec<GithubOrg>,
}

impl GithubOrgs {
    /// An empty set; the host adds one watcher per configured organisation
    /// name.
    pub fn new() -> (g: GithubOrgs)
        ensures
            g.orgs@.len() == 0,
    {
        GithubOrgs { orgs: Vec::new() }
    }

    pub fn add_org(&mut self, org: GithubOrg)
        ensures
            final(self).orgs@ == old(self).orgs@.push(org),
    {
        self.orgs.push(org);
    }
}

impl Module for GithubOrgs {
    fn name(&self) -> (r: &'static str)
        ensures
            r@ == "github_orgs"@,
    {
        "github_orgs"
    }

    fn params(&self) -> (r: Vec<ModuleParam>)
        ensures
            r@.len() == 4,
    {
        let mut r = github_repos::params();
        r.push(ModuleParam::new("GITHUB_TOKEN", "Github token to make api calls", true));
        r.push(
            ModuleParam::new(
                "GITHUB_ORG_0_NAME",
                "Github organisation name, can be multiple (0..)",
                false,
            ),
        );
        r
    }

    fn capabilities(&self) -> (c: ModuleCapabilities)
        ensures
            c.triggers is None,
            !c.catch_non_triggered,
            !c.catch_all,
            !c.send_message,
            !c.read_message,
            !c.resp_message,
    {
        ModuleCapabilities::default()
    }

    /// Two variations: check releases hourly, refresh the listings daily.
    fn variation_durations(&self) -> (r: Vec<u64>)
        ensures
            r@ == seq![3600u64, 86400u64],
    {
        let mut r: Vec<u64> = Vec::new();
        r.push(3600);
        r.push(24 * 60 * 60);
        proof {
            assert(r@ =~= seq![3600u64, 86400u64]);
        }
        r
    }

    fn module_offering(&mut self, modules: &Vec<ModuleInfo>)
        ensures
            *final(self) == *old(self),
    {
    }

    /// The fetch rounds need the host's transport; the host drives each
    /// watcher through `update_repo_listing` and the repositories' `absorb`.
    fn run(&mut self, variation: usize) -> (r: Option<Vec<Message>>)
        ensures
            r is None,
    {
        None
    }

    fn trigger(&mut self, message: &str) -> (r: TriggerOutcome)
        ensures
            r is Ignored,
    {
        TriggerOutcome::Ignored
    }
}

} // verus!
