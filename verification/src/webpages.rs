//! Watching raw web pages for change: remembers each page's last body and
//! announces when a freshly fetched one differs; the fetches are the host's.

use crate::bot::Message;
use crate::bot::Module;
use crate::bot::ModuleCapabilities;
use crate::bot::ModuleInfo;
use crate::bot::ModuleParam;
use crate::bot::TriggerOutcome;
use crate::strutil::str_eq;
use vstd::prelude::*;

verus! {

/// One watched page and the body it last had.
pub struct Webpage {
    pub name: String,
    pub url: String,
    pub content: Option<String>,
}

/// What one fetched body makes a page announce: a change notice when a
/// remembered body differs from the fresh one; the very first body, or a
/// failed fetch, announces nothing.
pub open spec fn page_announcement(p: Webpage, body: Option<String>) -> Option<Seq<char>> {
    match body {
        None => None,
        Some(b) => {
            if p.content matches Some(c) && c@ != b@ {
                Some("["@ + p.name@ + "]("@ + p.url@ + ") has changed"@)
            } else {
                None
            }
        },
    }
}

/// The announcements of one fetch round, in page order.
pub open spec fn page_announcements(list: Seq<Webpage>, bodies: Seq<Option<String>>) -> Seq<
    Seq<char>,
>
    decreases list.len(),
{
    if list.len() == 0 {
        Seq::empty()
    } else {
        page_announcements(list.drop_last(), bodies.drop_last()) + (match page_announcement(
            list.last(),
            bodies.last(),
        ) {
            Some(t) => seq![t],
            None => Seq::empty(),
        })
    }
}

impl Webpage {
    pub fn new(name: &str, url: &str) -> (p: Webpage)
        ensures
            p.name@ == name@,
            p.url@ == url@,
            p.content is None,
    {
        Webpage { name: name.to_owned(), url: url.to_owned(), content: None }
    }

    /// Absorb a freshly fetched body: it is remembered, and a change against
    /// the remembered one is reported; a failed fetch changes nothing, and
    /// the very first body only primes the comparison.
    pub fn changed(&mut self, body: Option<String>) -> (r: bool)
        ensures
            body is None ==> !r && *final(self) == *old(self),
            body matches Some(b) ==> {
                &&& final(self).content == Some(b)
                &&& r == (old(self).content matches Some(c) && c@ != b@)
                &&& final(self).name == old(self).name
                &&& final(self).url == old(self).url
            },
    {
        match body {
            None => false,
            Some(b) => {
                let r = match &self.content {
                    Some(c) => !str_eq(c.as_str(), b.as_str()),
                    None => false,
                };
                self.content = Some(b);
                r
            },
        }
    }
}

/// The webpages module: a list of watched pages.
pub struct Webpages {
    pub pages: Vec<Webpage>,
}

impl Webpages {
    /// An empty list; the host adds one page per configured pair of name and
    /// URL.
    pub fn new() -> (m: Webpages)
        ensures
            m.pages@.len() == 0,
    {
        Webpages { pages: Vec::new() }
    }

    pub fn add_page(&mut self, p: Webpage)
        ensures
            final(self).pages@ == old(self).pages@.push(p),
    {
        self.pages.push(p);
    }

    /// Absorb one fetch round, one body per page: every page's remembered
    /// body advances, and exactly the change notices come back, in page
    /// order; no notice at all yields nothing.
    pub fn run_with(&mut self, bodies: Vec<Option<String>>) -> (r: Option<Vec<Message>>)
        requires
            bodies@.len() == old(self).pages@.len(),
        ensures
            final(self).pages@.len() == old(self).pages@.len(),
            ({
                let anns = page_announcements(old(self).pages@, bodies@);
                &&& (r is Some <==> anns.len() > 0)
                &&& (r matches Some(msgs) ==> msgs@.map_values(|m: Message| m@) == anns)
            }),
    {
        let mut messages: Vec<Message> = Vec::new();
        let ghost bodies_view = bodies@;
        let n = self.pages.len();
        let mut bodies = bodies;
        let mut i: usize = 0;
        while i < n
            invariant
                n == self.pages@.len(),
                n == old(self).pages@.len(),
                n == bodies_view.len(),
                i <= n,
                bodies@ == bodies_view.skip(i as int),
                forall|k: int| i <= k < n ==> self.pages@[k] == old(self).pages@[k],
                messages@.map_values(|m: Message| m@) == page_announcements(
                    old(self).pages@.take(i as int),
                    bodies_view.take(i as int),
                ),
            decreases n - i,
        {
            let ghost pre_l = old(self).pages@.take(i as int);
            let ghost pre_b = bodies_view.take(i as int);
            let ghost cur_l = old(self).pages@.take(i + 1);
            let ghost cur_b = bodies_view.take(i + 1);
            proof {
                assert(cur_l.drop_last() =~= pre_l);
                assert(cur_b.drop_last() =~= pre_b);
                assert(cur_l.last() == old(self).pages@[i as int]);
                assert(cur_b.last() == bodies_view[i as int]);
                assert(bodies@[0] == bodies_view[i as int]);
            }
            let body = bodies.remove(0);
            let p = &mut self.pages[i];
            if p.changed(body) {
                let mut msg = String::from_str("[");
                msg.append(p.name.as_str());
                msg.append("](");
                msg.append(p.url.as_str());
                msg.append(") has changed");
                messages.push(msg);
            }
            proof {
                assert(bodies@ =~= bodies_view.skip(i + 1));
                assert(messages@.map_values(|m: Message| m@) =~= page_announcements(cur_l, cur_b));
            }
            i = i + 1;
        }
        proof {
            assert(old(self).pages@.take(n as int) =~= old(self).pages@);
            assert(bodies_view.take(n as int) =~= bodies_view);
        }
        if messages.len() == 0 {
            None
        } else {
            Some(messages)
        }
    }
}

impl Module for Webpages {
    fn name(&self) -> (r: &'static str)
        ensures
            r@ == "webpages"@,
    {
        "webpages"
    }

    fn params(&self) -> (r: Vec<ModuleParam>)
        ensures
            r@.len() == 2,
    {
        let mut r: Vec<ModuleParam> = Vec::new();
        r.push(ModuleParam::new("WEBPAGES_0_NAME", "Webpage name, can be multiple (0..)", false));
        r.push(ModuleParam::new("WEBPAGES_0_URL", "Webpage URL, can be multiple (0..)", false));
        r
    }

    fn capabilities(&self) -> (c: ModuleCapabilities)
        ensures
            c.triggers is None,
            !c.catch_non_triggered,
            !c.catch_all,
            !c.send_message,
            !c.read_message,
            !c.resp_message,
    {
        ModuleCapabilities::default()
    }

    fn variation_durations(&self) -> (r: Vec<u64>)
        ensures
            r@ == seq![60u64],
    {
        let mut r: Vec<u64> = Vec::new();
        r.push(60);
        proof {
            assert(r@ =~= seq![60u64]);
        }
        r
    }

    fn module_offering(&mut self, modules: &Vec<ModuleInfo>)
        ensures
            *final(self) == *old(self),
    {
    }

    /// The fetch round needs the host's transport; the host drives it through
    /// `run_with`.
    fn run(&mut self, variation: usize) -> (r: Option<Vec<Message>>)
        ensures
            r is None,
    {
        None
    }

    fn trigger(&mut self, message: &str) -> (r: TriggerOutcome)
        ensures
            r is Ignored,
    {
        TriggerOutcome::Ignored
    }
}

} // verus!
