//! Watching API version changes: remembers the version each region last
//! reported and announces changes; the fetches are the host's.

use crate::bot::Message;
use crate::bot::Module;
use crate::bot::ModuleCapabilities;
use crate::bot::ModuleInfo;
use crate::bot::ModuleParam;
use crate::bot::TriggerOutcome;
use crate::bot::trigger_texts;
use crate::strutil::str_eq;
use vstd::prelude::*;

verus! {

/// One region's endpoint and the version it last reported.
pub struct VersionEndpoint {
    pub name: String,
    pub endpoint: String,
    pub version: Option<String>,
}

/// What one fetched version makes a region announce: a change notice, except
/// on the very first sighting; a failed fetch announces nothing.
pub open spec fn version_announcement(e: VersionEndpoint, f: Option<String>) -> Option<Seq<char>> {
    match f {
        None => None,
        Some(v) => {
            if e.version matches Some(p) && p@ != v@ {
                Some("New API version on "@ + e.name@ + ": "@ + v@)
            } else {
                None
            }
        },
    }
}

/// The announcements of one fetch round, in region order.
pub open spec fn version_announcements(
    list: Seq<VersionEndpoint>,
    fetched: Seq<Option<String>>,
) -> Seq<Seq<char>>
    decreases list.len(),
{
    if list.len() == 0 {
        Seq::empty()
    } else {
        version_announcements(list.drop_last(), fetched.drop_last()) + (match version_announcement(
            list.last(),
            fetched.last(),
        ) {
            Some(t) => seq![t],
            None => Seq::empty(),
        })
    }
}

/// One status line: the region and the version it last reported.
pub open spec fn version_line(e: VersionEndpoint) -> Seq<char> {
    e.name@ + ": version="@ + (match e.version {
        Some(v) => v@,
        None => "unkown"@,
    }) + "\n"@
}

/// The whole status report, one line per region.
pub open spec fn versions_text(list: Seq<VersionEndpoint>) -> Seq<char>
    decreases list.len(),
{
    if list.len() == 0 {
        Seq::empty()
    } else {
        versions_text(list.drop_last()) + version_line(list.last())
    }
}

impl VersionEndpoint {
    pub fn new(name: String, endpoint: String) -> (e: VersionEndpoint)
        ensures
            e.name == name,
            e.endpoint == endpoint,
            e.version is None,
    {
        VersionEndpoint { name, endpoint, version: None }
    }

    /// Absorb a freshly fetched version: the new version is remembered, and a
    /// change is reported — except the very first sighting; a failed fetch
    /// changes nothing.
    pub fn update_version(&mut self, fetched: Option<String>) -> (r: Option<String>)
        ensures
            fetched is None ==> r is None && *final(self) == *old(self),
            fetched matches Some(v) ==> {
                &&& final(self).version == Some(v)
                &&& (r is Some <==> (old(self).version matches Some(p) && p@ != v@))
                &&& (r matches Some(rv) ==> rv@ == v@)
                &&& final(self).name == old(self).name
                &&& final(self).endpoint == old(self).endpoint
            },
            r is Some <==> version_announcement(*old(self), fetched) is Some,
    {
        match fetched {
            None => None,
            Some(v) => {
                let changed = match &self.version {
                    Some(prev) => !str_eq(prev.as_str(), v.as_str()),
                    None => false,
                };
                let r = if changed {
                    Some(v.clone())
                } else {
                    None
                };
                self.version = Some(v);
                r
            },
        }
    }
}

/// The module: a list of watched regions.
pub struct OutscaleApiVersions {
    pub endpoints: Vec<VersionEndpoint>,
}

impl OutscaleApiVersions {
    /// An empty list; the host adds one region per configured pair of name
    /// and endpoint.
    pub fn new() -> (m: OutscaleApiVersions)
        ensures
            m.endpoints@.len() == 0,
    {
        OutscaleApiVersions { endpoints: Vec::new() }
    }

    pub fn add_endpoint(&mut self, e: VersionEndpoint)
        ensures
            final(self).endpoints@ == old(self).endpoints@.push(e),
    {
        self.endpoints.push(e);
    }

    /// Absorb one fetch round, one fetched version per region: every region's
    /// remembered version advances, and exactly the change notices come back,
    /// in region order; no notice at all yields nothing.
    pub fn run_version(&mut self, fetched: Vec<Option<String>>) -> (r: Option<Vec<Message>>)
        requires
            fetched@.len() == old(self).endpoints@.len(),
        ensures
            final(self).endpoints@.len() == old(self).endpoints@.len(),
            ({
                let anns = version_announcements(old(self).endpoints@, fetched@);
                &&& (r is Some <==> anns.len() > 0)
                &&& (r matches Some(msgs) ==> msgs@.map_values(|m: Message| m@) == anns)
            }),
    {
        let mut messages: Vec<Message> = Vec::new();
        let ghost fetched_view = fetched@;
        let n = self.endpoints.len();
        let mut fetched = fetched;
        let mut i: usize = 0;
        while i < n
            invariant
                n == self.endpoints@.len(),
                n == old(self).endpoints@.len(),
                n == fetched_view.len(),
                i <= n,
                fetched@ == fetched_view.skip(i as int),
                forall|k: int| i <= k < n ==> self.endpoints@[k] == old(self).endpoints@[k],
                messages@.map_values(|m: Message| m@) == version_announcements(
                    old(self).endpoints@.take(i as int),
                    fetched_view.take(i as int),
                ),
            decreases n - i,
        {
            let ghost pre_l = old(self).endpoints@.take(i as int);
            let ghost pre_f = fetched_view.take(i as int);
            let ghost cur_l = old(self).endpoints@.take(i + 1);
            let ghost cur_f = fetched_view.take(i + 1);
            proof {
                assert(cur_l.drop_last() =~= pre_l);
                assert(cur_f.drop_last() =~= pre_f);
                assert(cur_l.last() == old(self).endpoints@[i as int]);
                assert(cur_f.last() == fetched_view[i as int]);
                assert(fetched@[0] == fetched_view[i as int]);
            }
            let f = fetched.remove(0);
            let e = &mut self.endpoints[i];
            let ann = e.update_version(f);
            match ann {
                Some(v) => {
                    let mut msg = String::from_str("New API version on ");
                    msg.append(e.name.as_str());
                    msg.append(": ");
                    msg.append(v.as_str());
                    messages.push(msg);
                },
                None => {},
            }
            proof {
                assert(fetched@ =~= fetched_view.skip(i + 1));
                assert(messages@.map_values(|m: Message| m@) =~= version_announcements(
                    cur_l,
                    cur_f,
                ));
            }
            i = i + 1;
        }
        proof {
            assert(old(self).endpoints@.take(n as int) =~= old(self).endpoints@);
            assert(fetched_view.take(n as int) =~= fetched_view);
        }
        if messages.len() == 0 {
            None
        } else {
            Some(messages)
        }
    }

    /// The "/oapi-versions" report over the remembered versions.
    pub fn versions_report(&self) -> (r: String)
        ensures
            r@ == versions_text(self.endpoints@),
    {
        let mut out = String::new();
        let n = self.endpoints.len();
        let mut i: usize = 0;
        while i < n
            invariant
                n == self.endpoints@.len(),
                i <= n,
                out@ == versions_text(self.endpoints@.take(i as int)),
            decreases n - i,
        {
            let ghost pre = self.endpoints@.take(i as int);
            let ghost cur = self.endpoints@.take(i + 1);
            proof {
                assert(cur.drop_last() =~= pre);
                assert(cur.last() == self.endpoints@[i as int]);
            }
            let e = &self.endpoints[i];
            out.append(e.name.as_str());
            out.append(": version=");
            match &e.version {
                Some(v) => out.append(v.as_str()),
                None => out.append("unkown"),
            }
            out.append("\n");
            proof {
                assert(out@ =~= versions_text(cur));
            }
            i = i + 1;
        }
        proof {
            assert(self.endpoints@.take(n as int) =~= self.endpoints@);
        }
        out
    }
}

impl Module for OutscaleApiVersions {
    fn name(&self) -> (r: &'static str)
        ensures
            r@ == "outscale_api_versions"@,
    {
        "outscale_api_versions"
    }

    fn params(&self) -> (r: Vec<ModuleParam>)
        ensures
            r@.len() == 2,
    {
        let mut r: Vec<ModuleParam> = Vec::new();
        r.push(
            ModuleParam::new(
                "OUTSCALE_API_VERSIONS_0_NAME",
                "Outscale region name of the endpoint, can be multiple (0..)",
                false,
            ),
        );
        r.push(
            ModuleParam::new(
                "OUTSCALE_API_VERSIONS_0_ENDPOINT",
                "Outscale region endpoint, can be multiple (0..)",
                false,
            ),
        );
        r
    }

    /// One declared trigger: "/oapi-versions".
    fn capabilities(&self) -> (c: ModuleCapabilities)
        ensures
            trigger_texts(c) == seq!["/oapi-versions"@],
            !c.catch_non_triggered,
            !c.catch_all,
            !c.send_message,
            !c.read_message,
            !c.resp_message,
    {
        let mut triggers: Vec<String> = Vec::new();
        triggers.push(String::from_str("/oapi-versions"));
        proof {
            assert(triggers@.map_values(|s: String| s@) =~= seq!["/oapi-versions"@]);
        }
        ModuleCapabilities {
            triggers: Some(triggers),
            catch_non_triggered: false,
            catch_all: false,
            send_message: false,
            read_message: false,
            resp_message: false,
        }
    }

    fn variation_durations(&self) -> (r: Vec<u64>)
        ensures
            r@ == seq![600u64],
    {
        let mut r: Vec<u64> = Vec::new();
        r.push(600);
        proof {
            assert(r@ =~= seq![600u64]);
        }
        r
    }

    fn module_offering(&mut self, modules: &Vec<ModuleInfo>)
        ensures
            *final(self) == *old(self),
    {
    }

    /// The fetch round needs the host's transport; the host drives it through
    /// `run_version`.
    fn run(&mut self, variation: usize) -> (r: Option<Vec<Message>>)
        ensures
            r is None,
    {
        None
    }

    /// "/oapi-versions": one reply with one line per region.
    fn trigger(&mut self, message: &str) -> (r: TriggerOutcome)
        ensures
            *final(self) == *old(self),
            r matches TriggerOutcome::Replies(v) && v@.len() == 1 && v@[0]@ == versions_text(
                old(self).endpoints@,
            ),
    {
        let report = self.versions_report();
        let mut v: Vec<String> = Vec::new();
        v.push(report);
        TriggerOutcome::Replies(v)
    }
}

} // verus!
