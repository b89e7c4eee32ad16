//! Watching syndication feeds: remembers each feed's newest entry and
//! announces when a fresh fetch brings a different one. Downloading and
//! parsing the feed is the host's; the library gets plain entries.

use crate::bot::Message;
use crate::bot::Module;
use crate::bot::ModuleCapabilities;
use crate::bot::ModuleInfo;
use crate::bot::ModuleParam;
use crate::bot::TriggerOutcome;
use crate::strutil::str_eq;
use vstd::prelude::*;

verus! {

/// One feed entry, reduced to what the watcher reads.
pub struct FeedEntry {
    /// The entry's own identity.
    pub id: String,
    pub title: Option<String>,
    pub link: Option<String>,
    /// Publication time in epoch seconds, when the feed carries one.
    pub published: Option<i64>,
}

/// Duplicate an entry, field for field.
pub fn dup_entry(e: &FeedEntry) -> (r: FeedEntry)
    ensures
        r == *e,
{
    FeedEntry {
        id: e.id.clone(),
        title: match &e.title {
            Some(t) => Some(t.clone()),
            None => None,
        },
        link: match &e.link {
            Some(l) => Some(l.clone()),
            None => None,
        },
        published: e.published,
    }
}

/// `a` is strictly fresher than `b`: dated entries order by date, and any
/// dated entry beats an undated one.
pub open spec fn fresher(a: FeedEntry, b: FeedEntry) -> bool {
    match (a.published, b.published) {
        (Some(x), Some(y)) => x > y,
        (Some(x), None) => true,
        _ => false,
    }
}

/// Pick the entry a fetched feed stands for: the first of the freshest
/// entries (the first entry at all when none carries a date).
pub fn select_latest(entries: &Vec<FeedEntry>) -> (r: Option<FeedEntry>)
    ensures
        r is Some <==> entries@.len() > 0,
        r matches Some(e) ==> exists|k: int|
            {
                &&& 0 <= k < entries@.len()
                &&& e == entries@[k]
                &&& (forall|j: int| 0 <= j < entries@.len() ==> !fresher(#[trigger] entries@[j], e))
                &&& (forall|j: int| 0 <= j < k ==> fresher(e, #[trigger] entries@[j]))
            },
{
    if entries.len() == 0 {
        return None;
    }
    let n = entries.len();
    let mut best: usize = 0;
    let mut k: usize = 1;
    while k < n
        invariant
            n == entries@.len(),
            best < k <= n,
            forall|j: int| 0 <= j < k ==> !fresher(#[trigger] entries@[j], entries@[best as int]),
            forall|j: int| 0 <= j < best ==> fresher(entries@[best as int], #[trigger] entries@[j]),
        decreases n - k,
    {
        let contender_fresher = match (entries[k].published, entries[best].published) {
            (Some(x), Some(y)) => x > y,
            (Some(_), None) => true,
            _ => false,
        };
        if contender_fresher {
            best = k;
        }
        k = k + 1;
    }
    Some(dup_entry(&entries[best]))
}

/// One watched feed and the entry it last stood at.
pub struct Feed {
    pub name: String,
    pub url: String,
    pub latest: Option<FeedEntry>,
}

/// What one fetched entry makes a feed announce, given its current state: a
/// change of entry identity, rendered from the fresh entry.
pub open spec fn feed_announcement(f: Feed, new_entry: Option<FeedEntry>) -> Option<Seq<char>> {
    match (f.latest, new_entry) {
        (Some(o), Some(ne)) => {
            if o.id@ != ne.id@ {
                Some(announce_text(f.name@, ne))
            } else {
                None
            }
        },
        _ => None,
    }
}

/// The rendering of a feed announcement, by what the entry carries.
pub open spec fn announce_text(name: Seq<char>, e: FeedEntry) -> Seq<char> {
    match (e.title, e.link) {
        (None, None) => "New post on "@ + name,
        (None, Some(u)) => "New post on ["@ + name + "]("@ + u@ + ")"@,
        (Some(t), None) => "New post on "@ + name + ": "@ + t@,
        (Some(t), Some(u)) => name + ": ["@ + t@ + "]("@ + u@ + ")"@,
    }
}

/// The announcements of one fetch round, in feed order.
pub open spec fn feed_announcements(list: Seq<Feed>, news: Seq<Option<FeedEntry>>) -> Seq<Seq<char>>
    decreases list.len(),
{
    if list.len() == 0 {
        Seq::empty()
    } else {
        feed_announcements(list.drop_last(), news.drop_last()) + (match feed_announcement(
            list.last(),
            news.last(),
        ) {
            Some(t) => seq![t],
            None => Seq::empty(),
        })
    }
}

impl Feed {
    pub fn new(name: String, url: String) -> (f: Feed)
        ensures
            f.name == name,
            f.url == url,
            f.latest is None,
    {
        Feed { name, url, latest: None }
    }

    /// Absorb a freshly selected entry: it becomes the remembered one, and a
    /// change of identity against the remembered entry is reported; a fetch
    /// that brought nothing changes nothing, and the very first entry only
    /// primes the comparison.
    pub fn update(&mut self, new_entry: Option<FeedEntry>) -> (changed: bool)
        ensures
            final(self).name == old(self).name,
            final(self).url == old(self).url,
            changed == (old(self).latest matches Some(o) && new_entry matches Some(ne) && o.id@
                != ne.id@),
            new_entry is Some ==> final(self).latest == new_entry,
            new_entry is None ==> final(self).latest == old(self).latest,
    {
        match new_entry {
            None => false,
            Some(ne) => {
                let changed = match &self.latest {
                    Some(o) => !str_eq(o.id.as_str(), ne.id.as_str()),
                    None => false,
                };
                self.latest = Some(ne);
                changed
            },
        }
    }

    /// Render the remembered entry as an announcement.
    pub fn announce(&self) -> (r: Option<String>)
        ensures
            match self.latest {
                None => r is None,
                Some(e) => r matches Some(msg) && msg@ == announce_text(self.name@, e),
            },
    {
        match &self.latest {
            None => None,
            Some(e) => {
                let msg = match (&e.title, &e.link) {
                    (None, None) => {
                        let mut s = String::from_str("New post on ");
                        s.append(self.name.as_str());
                        s
                    },
                    (None, Some(u)) => {
                        let mut s = String::from_str("New post on [");
                        s.append(self.name.as_str());
                        s.append("](");
                        s.append(u.as_str());
                        s.append(")");
                        s
                    },
                    (Some(t), None) => {
                        let mut s = String::from_str("New post on ");
                        s.append(self.name.as_str());
                        s.append(": ");
                        s.append(t.as_str());
                        s
                    },
                    (Some(t), Some(u)) => {
                        let mut s = self.name.clone();
                        s.append(": [");
                        s.append(t.as_str());
                        s.append("](");
                        s.append(u.as_str());
                        s.append(")");
                        s
                    },
                };
                Some(msg)
            },
        }
    }
}

/// The feeds module: a list of watched feeds.
pub struct Feeds {
    pub feeds: Vec<Feed>,
}

impl Feeds {
    /// An empty list; the host adds one feed per configured pair of name and
    /// URL.
    pub fn new() -> (m: Feeds)
        ensures
            m.feeds@.len() == 0,
    {
        Feeds { feeds: Vec::new() }
    }

    pub fn add_feed(&mut self, f: Feed)
        ensures
            final(self).feeds@ == old(self).feeds@.push(f),
    {
        self.feeds.push(f);
    }

    /// Absorb one fetch round, one selected entry per feed: every feed's
    /// remembered entry advances, and exactly the change announcements come
    /// back, in feed order; no announcement at all yields nothing.
    pub fn run_with(&mut self, news: Vec<Option<FeedEntry>>) -> (r: Option<Vec<Message>>)
        requires
            news@.len() == old(self).feeds@.len(),
        ensures
            final(self).feeds@.len() == old(self).feeds@.len(),
            ({
                let anns = feed_announcements(old(self).feeds@, news@);
                &&& (r is Some <==> anns.len() > 0)
                &&& (r matches Some(msgs) ==> msgs@.map_values(|m: Message| m@) == anns)
            }),
    {
        let mut messages: Vec<Message> = Vec::new();
        let ghost news_view = news@;
        let n = self.feeds.len();
        let mut news = news;
        let mut i: usize = 0;
        while i < n
            invariant
                n == self.feeds@.len(),
                n == old(self).feeds@.len(),
                n == news_view.len(),
                i <= n,
                news@ == news_view.skip(i as int),
                forall|k: int| i <= k < n ==> self.feeds@[k] == old(self).feeds@[k],
                messages@.map_values(|m: Message| m@) == feed_announcements(
                    old(self).feeds@.take(i as int),
                    news_view.take(i as int),
                ),
            decreases n - i,
        {
            let ghost pre_l = old(self).feeds@.take(i as int);
            let ghost pre_n = news_view.take(i as int);
            let ghost cur_l = old(self).feeds@.take(i + 1);
            let ghost cur_n = news_view.take(i + 1);
            proof {
                assert(cur_l.drop_last() =~= pre_l);
                assert(cur_n.drop_last() =~= pre_n);
                assert(cur_l.last() == old(self).feeds@[i as int]);
                assert(cur_n.last() == news_view[i as int]);
                assert(news@[0] == news_view[i as int]);
            }
            let ne = news.remove(0);
            let f = &mut self.feeds[i];
            if f.update(ne) {
                match f.announce() {
                    Some(msg) => messages.push(msg),
                    None => {},
                }
            }
            proof {
                assert(news@ =~= news_view.skip(i + 1));
                assert(messages@.map_values(|m: Message| m@) =~= feed_announcements(cur_l, cur_n));
            }
            i = i + 1;
        }
        proof {
            assert(old(self).feeds@.take(n as int) =~= old(self).feeds@);
            assert(news_view.take(n as int) =~= news_view);
        }
        if messages.len() == 0 {
            None
        } else {
            Some(messages)
        }
    }
}

impl Module for Feeds {
    fn name(&self) -> (r: &'static str)
        ensures
            r@ == "feeds"@,
    {
        "feeds"
    }

    fn params(&self) -> (r: Vec<ModuleParam>)
        ensures
            r@.len() == 2,
    {
        let mut r: Vec<ModuleParam> = Vec::new();
        r.push(ModuleParam::new("FEED_0_NAME", "Feed name, can be multiple (0..)", false));
        r.push(ModuleParam::new("FEED_0_URL", "Feed URL, can be multiple (0..)", false));
        r
    }

    fn capabilities(&self) -> (c: ModuleCapabilities)
        ensures
            c.triggers is None,
            !c.catch_non_triggered,
            !c.catch_all,
            !c.send_message,
            !c.read_message,
            !c.resp_message,
    {
        ModuleCapabilities::default()
    }

    fn variation_durations(&self) -> (r: Vec<u64>)
        ensures
            r@ == seq![3600u64],
    {
        let mut r: Vec<u64> = Vec::new();
        r.push(3600);
        proof {
            assert(r@ =~= seq![3600u64]);
        }
        r
    }

    fn module_offering(&mut self, modules: &Vec<ModuleInfo>)
        ensures
            *final(self) == *old(self),
    {
    }

    /// The fetch round needs the host's transport; the host drives it through
    /// `run_with`.
    fn run(&mut self, variation: usize) -> (r: Option<Vec<Message>>)
        ensures
            r is None,
    {
        None
    }

    fn trigger(&mut self, message: &str) -> (r: TriggerOutcome)
        ensures
            r is Ignored,
    {
        TriggerOutcome::Ignored
    }
}

} // verus!
