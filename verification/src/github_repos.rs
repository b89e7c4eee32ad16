//! Watching single repositories for new releases: remembers the releases seen
//! so far, keyed by tag, and announces fresh ones that are not too old; the
//! API fetches are the host's.

use crate::bot::Message;
use crate::bot::Module;
use crate::bot::ModuleCapabilities;
use crate::bot::ModuleInfo;
use crate::bot::ModuleParam;
use crate::bot::TriggerOutcome;
use crate::github::spec_is_too_old;
use crate::strutil::str_eq;
use crate::timeutil::parse_rfc3339_epoch;
use vstd::prelude::*;

verus! {

/// The configuration this watcher needs.
pub fn params() -> (r: Vec<ModuleParam>)
    ensures
        r@.len() == 2,
        r@[0].name@ == "GITHUB_TOKEN"@,
        r@[0].mandatory,
        r@[1].name@ == "GITHUB_REPOS_0_FULLNAME"@,
        !r@[1].mandatory,
{
    let mut r: Vec<ModuleParam> = Vec::new();
    r.push(ModuleParam::new("GITHUB_TOKEN", "Github token to make api calls", true));
    r.push(
        ModuleParam::new(
            "GITHUB_REPOS_0_FULLNAME",
            "Specific github repo to watch. e.g. kubernetes/kubernetes. Can be multiple (0..)",
            false,
        ),
    );
    r
}

/// The two repository facts the watcher reads.
pub struct GithubRepoLight {
    pub archived: bool,
    pub fork: bool,
}

/// A release as the releases endpoint reports it.
pub struct Release {
    pub html_url: String,
    pub tag_name: String,
    pub name: String,
    pub prerelease: bool,
    pub draft: bool,
    pub body: String,
    pub published_at: Option<String>,
}

/// Duplicate a release record, field for field.
pub fn dup_release(r: &Release) -> (d: Release)
    ensures
        d == *r,
{
    Release {
        html_url: r.html_url.clone(),
        tag_name: r.tag_name.clone(),
        name: r.name.clone(),
        prerelease: r.prerelease,
        draft: r.draft,
        body: r.body.clone(),
        published_at: match &r.published_at {
            Some(p) => Some(p.clone()),
            None => None,
        },
    }
}

impl Release {
    /// The announcement for a fresh release of a watched project.
    pub fn notification_message(&self, project_name: &String) -> (r: String)
        ensures
            r@ == release_notice(project_name@, *self),
    {
        let mut s = String::from_str("👋 Release de [");
        s.append(project_name.as_str());
        s.append(" ");
        s.append(self.name.as_str());
        s.append("](");
        s.append(self.html_url.as_str());
        s.append(")");
        s
    }

    /// A release is identified by its tag.
    pub fn id(&self) -> (r: String)
        ensures
            r@ == self.tag_name@,
    {
        self.tag_name.clone()
    }

    /// Whether the release is too old to announce, against the given clock
    /// reading.
    pub fn is_too_old(&self, now_s: i64) -> (r: bool)
        ensures
            r == spec_is_too_old(self.published_at, now_s as int),
    {
        match &self.published_at {
            None => false,
            Some(p) => match parse_rfc3339_epoch(p.as_str()) {
                None => false,
                Some(ts) => (now_s as i128) - (ts as i128) >= 864000,
            },
        }
    }
}

/// Some remembered release carries this tag.
pub open spec fn has_id(rs: Seq<Release>, id: Seq<char>) -> bool {
    exists|k: int| 0 <= k < rs.len() && (#[trigger] rs[k]).tag_name@ == id
}

/// The rendering of a release announcement.
pub open spec fn release_notice(project: Seq<char>, r: Release) -> Seq<char> {
    "👋 Release de ["@ + project + " "@ + r.name@ + "]("@ + r.html_url@ + ")"@
}

/// The announcements one fetched batch yields against a remembered set: one
/// notice per release whose tag is new — neither remembered nor fetched
/// earlier in the same batch — and recent enough, in fetch order.
pub open spec fn new_release_messages(
    past: Seq<Release>,
    fetched: Seq<Release>,
    project: Seq<char>,
    now_s: int,
) -> Seq<Seq<char>>
    decreases fetched.len(),
{
    if fetched.len() == 0 {
        Seq::empty()
    } else {
        let pre = fetched.drop_last();
        let r = fetched.last();
        new_release_messages(past, pre, project, now_s) + (if !has_id(past, r.tag_name@) && !has_id(
            pre,
            r.tag_name@,
        ) && !spec_is_too_old(r.published_at, now_s) {
            seq![release_notice(project, r)]
        } else {
            Seq::empty()
        })
    }
}

/// Remember `r` under its tag: a remembered release with the same tag is
/// replaced, any other is kept, and the tag is present afterwards.
fn upsert_release(store: &mut Vec<Release>, r: Release) -> (was_new: bool)
    ensures
        was_new == !has_id(old(store)@, r.tag_name@),
        forall|id: Seq<char>|
            #[trigger] has_id(final(store)@, id) <==> has_id(old(store)@, id) || id == r.tag_name@,
{
    let n = store.len();
    let mut k: usize = 0;
    while k < n
        invariant
            n == store@.len(),
            k <= n,
            store@ == old(store)@,
            forall|j: int| 0 <= j < k ==> (#[trigger] store@[j]).tag_name@ != r.tag_name@,
        decreases n - k,
    {
        if str_eq(store[k].tag_name.as_str(), r.tag_name.as_str()) {
            let ghost tag = r.tag_name@;
            let slot = &mut store[k];
            *slot = r;
            proof {
                assert forall|id: Seq<char>| #[trigger]
                    has_id(final(store)@, id) <==> has_id(old(store)@, id) || id == tag by {
                    if has_id(store@, id) {
                        let j = choose|j: int|
                            0 <= j < store@.len() && (#[trigger] store@[j]).tag_name@ == id;
                        if j != k {
                            assert(old(store)@[j].tag_name@ == id);
                        }
                    }
                    if has_id(old(store)@, id) {
                        let j = choose|j: int|
                            0 <= j < old(store)@.len() && (#[trigger] old(
                                store,
                            )@[j]).tag_name@ == id;
                        if j != k {
                            assert(store@[j].tag_name@ == id);
                        } else {
                            assert(store@[k as int].tag_name@ == tag);
                        }
                    }
                    if id == tag {
                        assert(store@[k as int].tag_name@ == id);
                    }
                }
            }
            return false;
        }
        k = k + 1;
    }
    let ghost tag = r.tag_name@;
    let ghost before = store@;
    store.push(r);
    proof {
        assert forall|id: Seq<char>| #[trigger]
            has_id(store@, id) <==> has_id(before, id) || id == tag by {
            if has_id(store@, id) {
                let j = choose|j: int|
                    0 <= j < store@.len() && (#[trigger] store@[j]).tag_name@ == id;
                if j < before.len() {
                    assert(before[j].tag_name@ == id);
                }
            }
            if has_id(before, id) {
                let j = choose|j: int|
                    0 <= j < before.len() && (#[trigger] before[j]).tag_name@ == id;
                assert(store@[j].tag_name@ == id);
            }
            if id == tag {
                assert(store@[store@.len() - 1].tag_name@ == id);
            }
        }
    }
    true
}

/// One watched repository: its identity, the facts fetched about it, and the
/// releases seen so far.
pub struct GithubRepo {
    pub full_name: String,
    pub details: Option<GithubRepoLight>,
    pub releases: Option<Vec<Release>>,
    pub github_token: String,
}

impl GithubRepo {
    pub fn new(full_name: &str, github_token: &str) -> (g: GithubRepo)
        ensures
            g.full_name@ == full_name@,
            g.github_token@ == github_token@,
            g.details is None,
            g.releases is None,
    {
        GithubRepo {
            full_name: full_name.to_owned(),
            details: None,
            releases: None,
            github_token: github_token.to_owned(),
        }
    }

    /// Whether the repository is worth watching; unknown until its facts were
    /// fetched.
    pub fn is_maintained(&self) -> (r: Option<bool>)
        ensures
            match self.details {
                None => r is None,
                Some(d) => r == Some(!d.fork && !d.archived),
            },
    {
        match &self.details {
            None => None,
            Some(d) => Some(!d.fork && !d.archived),
        }
    }

    /// Absorb freshly fetched repository facts.
    pub fn set_details(&mut self, d: GithubRepoLight)
        ensures
            final(self).details == Some(d),
            final(self).full_name == old(self).full_name,
            final(self).releases == old(self).releases,
            final(self).github_token == old(self).github_token,
    {
        self.details = Some(d);
    }

    /// Absorb one fetched batch of releases. The very first batch only primes
    /// the remembered set; afterwards, exactly the new and recent releases
    /// are announced, in fetch order, and every fetched tag is remembered. A
    /// failed fetch changes nothing.
    pub fn absorb(&mut self, fetched: Option<Vec<Release>>, now_s: i64) -> (r: Option<Vec<Message>>)
        ensures
            final(self).full_name == old(self).full_name,
            final(self).details == old(self).details,
            final(self).github_token == old(self).github_token,
            fetched is None ==> r is None && final(self).releases == old(self).releases,
            fetched matches Some(cur) ==> (old(self).releases is None ==> r is None && (
            final(self).releases matches Some(st) && forall|id: Seq<char>|
                #[trigger] has_id(st@, id) <==> has_id(cur@, id))),
            fetched matches Some(cur) ==> old(self).releases matches Some(past) ==> ({
                let msgs = new_release_messages(past@, cur@, old(self).full_name@, now_s as int);
                &&& (r is Some <==> msgs.len() > 0)
                &&& (r matches Some(v) ==> v@.map_values(|m: Message| m@) == msgs)
                &&& (final(self).releases matches Some(st) && forall|id: Seq<char>|
                    #[trigger] has_id(st@, id) <==> has_id(past@, id) || has_id(cur@, id))
            }),
    {
        let mut cur = match fetched {
            None => {
                return None;
            },
            Some(cur) => cur,
        };
        let ghost cur_view = cur@;
        let n = cur.len();
        match self.releases.take() {
            None => {
                let mut store: Vec<Release> = Vec::new();
                let mut i: usize = 0;
                while i < n
                    invariant
                        n == cur_view.len(),
                        i <= n,
                        cur@ == cur_view.skip(i as int),
                        forall|id: Seq<char>|
                            #[trigger] has_id(store@, id) <==> has_id(cur_view.take(i as int), id),
                    decreases n - i,
                {
                    proof {
                        assert(cur@[0] == cur_view[i as int]);
                        assert(cur_view.take(i + 1).drop_last() =~= cur_view.take(i as int));
                        assert(cur_view.take(i + 1).last() == cur_view[i as int]);
                    }
                    let ghost pre = cur_view.take(i as int);
                    let r = cur.remove(0);
                    upsert_release(&mut store, r);
                    proof {
                        assert(cur@ =~= cur_view.skip(i + 1));
                        assert forall|id: Seq<char>| #[trigger]
                            has_id(store@, id) <==> has_id(cur_view.take(i + 1), id) by {
                            if has_id(cur_view.take(i + 1), id) {
                                let j = choose|j: int|
                                    0 <= j < cur_view.take(i + 1).len() && (#[trigger] cur_view.take(
                                        i + 1,
                                    )[j]).tag_name@ == id;
                                if j < i {
                                    assert(cur_view.take(i as int)[j].tag_name@ == id);
                                }
                            }
                            if has_id(pre, id) {
                                let j = choose|j: int|
                                    0 <= j < pre.len() && (#[trigger] pre[j]).tag_name@ == id;
                                assert(cur_view.take(i + 1)[j].tag_name@ == id);
                            }
                        }
                    }
                    i = i + 1;
                }
                proof {
                    assert(cur_view.take(n as int) =~= cur_view);
                }
                self.releases = Some(store);
                None
            },
            Some(mut past) => {
                let ghost past_view = past@;
                let mut messages: Vec<Message> = Vec::new();
                let mut i: usize = 0;
                while i < n
                    invariant
                        n == cur_view.len(),
                        i <= n,
                        cur@ == cur_view.skip(i as int),
                        self.full_name == old(self).full_name,
                        forall|id: Seq<char>|
                            #[trigger] has_id(past@, id) <==> has_id(past_view, id) || has_id(
                                cur_view.take(i as int),
                                id,
                            ),
                        messages@.map_values(|m: Message| m@) == new_release_messages(
                            past_view,
                            cur_view.take(i as int),
                            old(self).full_name@,
                            now_s as int,
                        ),
                    decreases n - i,
                {
                    let ghost pre = cur_view.take(i as int);
                    proof {
                        assert(cur@[0] == cur_view[i as int]);
                        assert(cur_view.take(i + 1).drop_last() =~= pre);
                        assert(cur_view.take(i + 1).last() == cur_view[i as int]);
                    }
                    let r = cur.remove(0);
                    let copy = dup_release(&r);
                    let was_new = upsert_release(&mut past, r);
                    proof {
                        assert(has_id(past_view, copy.tag_name@) || has_id(pre, copy.tag_name@)
                            <==> !was_new);
                        assert forall|id: Seq<char>| #[trigger]
                            has_id(past@, id) <==> has_id(past_view, id) || has_id(
                                cur_view.take(i + 1),
                                id,
                            ) by {
                            if has_id(cur_view.take(i + 1), id) {
                                let j = choose|j: int|
                                    0 <= j < cur_view.take(i + 1).len() && (#[trigger] cur_view.take(
                                        i + 1,
                                    )[j]).tag_name@ == id;
                                if j < i {
                                    assert(pre[j].tag_name@ == id);
                                }
                            }
                            if has_id(pre, id) {
                                let j = choose|j: int|
                                    0 <= j < pre.len() && (#[trigger] pre[j]).tag_name@ == id;
                                assert(cur_view.take(i + 1)[j].tag_name@ == id);
                            }
                            if id == copy.tag_name@ {
                                assert(cur_view.take(i + 1)[i as int].tag_name@ == id);
                            }
                        }
                    }
                    if was_new && !copy.is_too_old(now_s) {
                        let msg = copy.notification_message(&self.full_name);
                        messages.push(msg);
                    }
                    proof {
                        assert(cur@ =~= cur_view.skip(i + 1));
                        assert(messages@.map_values(|m: Message| m@) =~= new_release_messages(
                            past_view,
                            cur_view.take(i + 1),
                            old(self).full_name@,
                            now_s as int,
                        ));
                    }
                    i = i + 1;
                }
                proof {
                    assert(cur_view.take(n as int) =~= cur_view);
                }
                self.releases = Some(past);
                if messages.len() == 0 {
                    None
                } else {
                    Some(messages)
                }
            },
        }
    }
}

/// Some watched repository carries this full name.
pub open spec fn has_repo(rs: Seq<GithubRepo>, full_name: Seq<char>) -> bool {
    exists|k: int| 0 <= k < rs.len() && (#[trigger] rs[k]).full_name@ == full_name
}

/// The module: one watcher per configured repository.
pub struct GithubRepos {
    pub repos: Vec<GithubRepo>,
}

impl GithubRepos {
    /// An empty set; the host adds one watcher per configured full name.
    pub fn new() -> (g: GithubRepos)
        ensures
            g.repos@.len() == 0,
    {
        GithubRepos { repos: Vec::new() }
    }

    pub fn add_repo(&mut self, repo: GithubRepo)
        ensures
            final(self).repos@ == old(self).repos@.push(repo),
    {
        self.repos.push(repo);
    }
}

/// The payload of a version-dispatch call to the repository host's action
/// API.
pub struct QueryVersions {
    pub event_type: String,
    pub client_payload: QueryVersionsClientPayload,
}

pub struct QueryVersionsClientPayload {
    pub versions: Vec<String>,
}

impl Module for GithubRepos {
    fn name(&self) -> (r: &'static str)
        ensures
            r@ == "github_repos"@,
    {
        "github_repos"
    }

    fn params(&self) -> (r: Vec<ModuleParam>)
        ensures
            r@.len() == 2,
    {
        params()
    }

    fn capabilities(&self) -> (c: ModuleCapabilities)
        ensures
            c.triggers is None,
            !c.catch_non_triggered,
            !c.catch_all,
            !c.send_message,
            !c.read_message,
            !c.resp_message,
    {
        ModuleCapabilities::default()
    }

    fn variation_durations(&self) -> (r: Vec<u64>)
        ensures
            r@ == seq![3600u64],
    {
        let mut r: Vec<u64> = Vec::new();
        r.push(3600);
        proof {
            assert(r@ =~= seq![3600u64]);
        }
        r
    }

    fn module_offering(&mut self, modules: &Vec<ModuleInfo>)
        ensures
            *final(self) == *old(self),
    {
    }

    /// The fetch rounds need the host's transport; the host drives each
    /// watcher through `set_details` and `absorb`.
    fn run(&mut self, variation: usize) -> (r: Option<Vec<Message>>)
        ensures
            r is None,
    {
        None
    }

    fn trigger(&mut self, message: &str) -> (r: TriggerOutcome)
        ensures
            r is Ignored,
    {
        TriggerOutcome::Ignored
    }
}

} // verus!
