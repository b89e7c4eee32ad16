//! The chat transport module's state and its message bookkeeping: messages
//! fetched from the transport are ordered by timestamp and de-duplicated
//! against a "last seen" watermark, so each one reaches the router at most
//! once per process run. The HTTP calls themselves are the host's.

use crate::bot::Message;
use crate::bot::Module;
use crate::bot::ModuleCapabilities;
use crate::bot::ModuleInfo;
use crate::bot::ModuleParam;
use crate::bot::TriggerOutcome;
use crate::strutil::lex_le;
use crate::strutil::lex_lt;
use crate::strutil::lex_lt_str;
use crate::strutil::lemma_lex_asym;
use vstd::prelude::*;

verus! {

/// The configuration the chat transport needs.
pub fn params() -> (r: Vec<ModuleParam>)
    ensures
        r@.len() == 2,
        r@[0].name@ == "WEBEX_TOKEN"@,
        r@[0].mandatory,
        r@[1].name@ == "WEBEX_ROOM_ID"@,
        r@[1].mandatory,
{
    let mut r: Vec<ModuleParam> = Vec::new();
    r.push(
        ModuleParam::new(
            "WEBEX_TOKEN",
            "token provided by webex. See how to create a [controller bot](https://developer.webex.com/docs/bots).",
            true,
        ),
    );
    r.push(ModuleParam::new("WEBEX_ROOM_ID", "webex room id where to speak", true));
    r
}

/// One raw message as the transport reports it.
pub struct WebexMessage {
    /// The id a reply correlates to.
    pub id: String,
    /// The plain text.
    pub text: String,
    /// The creation timestamp, compared as text.
    pub created: String,
}

/// Duplicate a raw message, field for field.
pub fn dup_message(m: &WebexMessage) -> (r: WebexMessage)
    ensures
        r == *m,
{
    WebexMessage { id: m.id.clone(), text: m.text.clone(), created: m.created.clone() }
}

/// Each adjacent pair is in timestamp order.
pub open spec fn sorted_by_created(s: Seq<WebexMessage>) -> bool {
    forall|k: int| 0 <= k < s.len() - 1 ==> lex_le(#[trigger] s[k].created@, s[k + 1].created@)
}

/// Sort messages by their creation timestamp (text order), keeping exactly
/// the given messages.
pub fn sort_by_created(msgs: &Vec<WebexMessage>) -> (out: Vec<WebexMessage>)
    ensures
        sorted_by_created(out@),
        out@.to_multiset() == msgs@.to_multiset(),
{
    broadcast use vstd::seq_lib::group_to_multiset_ensures;

    let mut out: Vec<WebexMessage> = Vec::new();
    let n = msgs.len();
    let mut i: usize = 0;
    while i < n
        invariant
            n == msgs@.len(),
            i <= n,
            sorted_by_created(out@),
            out@.to_multiset() == msgs@.take(i as int).to_multiset(),
        decreases n - i,
    {
        let x = dup_message(&msgs[i]);
        let mut pos: usize = 0;
        while pos < out.len() && !lex_lt_str(x.created.as_str(), out[pos].created.as_str())
            invariant
                pos <= out@.len(),
                sorted_by_created(out@),
                forall|j: int| 0 <= j < pos ==> !lex_lt(x.created@, (#[trigger] out@[j]).created@),
            decreases out@.len() - pos,
        {
            pos = pos + 1;
        }
        let ghost before = out@;
        proof {
            if (pos as int) < before.len() {
                lemma_lex_asym(x.created@, before[pos as int].created@);
            }
        }
        out.insert(pos, x);
        proof {
            assert forall|k: int| 0 <= k < out@.len() - 1 implies lex_le(
                (#[trigger] out@[k]).created@,
                out@[k + 1].created@,
            ) by {
                if k + 1 < pos as int {
                    assert(out@[k] == before[k]);
                    assert(out@[k + 1] == before[k + 1]);
                } else if k + 1 == pos as int {
                    assert(out@[k] == before[k]);
                } else if k == pos as int {
                    if k < out@.len() - 1 {
                        assert(out@[k + 1] == before[k]);
                    }
                } else {
                    assert(out@[k] == before[k - 1]);
                    assert(out@[k + 1] == before[k]);
                }
            }
            assert(msgs@.take(i + 1) =~= msgs@.take(i as int).push(msgs@[i as int]));
            assert(out@ == before.insert(pos as int, x));
            vstd::seq_lib::to_multiset_insert(before, pos as int, x);
            vstd::seq_lib::to_multiset_build(msgs@.take(i as int), msgs@[i as int]);
            assert(out@.to_multiset() == before.to_multiset().insert(x));
            assert(msgs@.take(i + 1).to_multiset() == msgs@.take(i as int).to_multiset().insert(
                msgs@[i as int],
            ));
        }
        i = i + 1;
    }
    proof {
        assert(msgs@.take(n as int) =~= msgs@);
    }
    out
}

/// The transport agent's remembered state: credentials and the de-dup
/// watermark.
pub struct WebexAgent {
    /// The authorization header sent with every call.
    pub auth_header: String,
    /// The room spoken in.
    pub room_id: String,
    /// Timestamp of the newest message already handed over, if any.
    pub last_unread_message_date: Option<String>,
}

impl WebexAgent {
    pub fn new(token: &str, room_id: &str) -> (a: WebexAgent)
        ensures
            a.auth_header@ == "Bearer "@ + token@,
            a.room_id@ == room_id@,
            a.last_unread_message_date is None,
    {
        let mut auth_header = String::from_str("Bearer ");
        auth_header.append(token);
        WebexAgent { auth_header, room_id: room_id.to_owned(), last_unread_message_date: None }
    }

    /// De-duplicate one fetched batch, already sorted by timestamp: with a
    /// watermark, exactly the strictly newer messages pass and the watermark
    /// advances to the newest passed; on the very first fetch nothing passes
    /// (the backlog is not replayed) and the watermark is seeded with the
    /// newest seen, or with "0" when nothing was fetched at all.
    pub fn sift_unread(&mut self, sorted: Vec<WebexMessage>) -> (out: Vec<WebexMessage>)
        requires
            sorted_by_created(sorted@),
        ensures
            final(self).auth_header == old(self).auth_header,
            final(self).room_id == old(self).room_id,
            old(self).last_unread_message_date is None ==> {
                &&& out@.len() == 0
                &&& (sorted@.len() > 0 ==> (final(self).last_unread_message_date matches Some(d)
                    && d@ == sorted@.last().created@))
                &&& (sorted@.len() == 0 ==> (final(self).last_unread_message_date matches Some(d)
                    && d@ == "0"@))
            },
            old(self).last_unread_message_date matches Some(w) ==> {
                &&& out@ == sorted@.filter(|m: WebexMessage| lex_lt(w@, m.created@))
                &&& (out@.len() > 0 ==> (final(self).last_unread_message_date matches Some(d) && d@
                    == out@.last().created@))
                &&& (out@.len() == 0 ==> final(self).last_unread_message_date == old(
                    self,
                ).last_unread_message_date)
            },
    {
        match &self.last_unread_message_date {
            None => {
                if sorted.len() > 0 {
                    self.last_unread_message_date = Some(sorted[sorted.len() - 1].created.clone());
                } else {
                    self.last_unread_message_date = Some(String::from_str("0"));
                }
                Vec::new()
            },
            Some(w) => {
                let wm = w.clone();
                let ghost pred = |m: WebexMessage| lex_lt(wm@, m.created@);
                let mut out: Vec<WebexMessage> = Vec::new();
                let n = sorted.len();
                let mut i: usize = 0;
                while i < n
                    invariant
                        n == sorted@.len(),
                        i <= n,
                        wm@ == old(self).last_unread_message_date->0@,
                        pred == (|m: WebexMessage| lex_lt(wm@, m.created@)),
                        out@ == sorted@.take(i as int).filter(pred),
                    decreases n - i,
                {
                    let ghost pre = sorted@.take(i as int);
                    let ghost cur = sorted@.take(i + 1);
                    proof {
                        reveal(Seq::filter);
                        assert(cur.drop_last() =~= pre);
                        assert(cur.last() == sorted@[i as int]);
                    }
                    if lex_lt_str(wm.as_str(), sorted[i].created.as_str()) {
                        out.push(dup_message(&sorted[i]));
                    }
                    i = i + 1;
                }
                proof {
                    assert(sorted@.take(n as int) =~= sorted@);
                }
                if out.len() > 0 {
                    self.last_unread_message_date = Some(out[out.len() - 1].created.clone());
                }
                out
            },
        }
    }
}

/// The chat transport as a module: a broadcast sink and an unread-message
/// source; the network calls live with the host.
pub struct Webex {
    pub agent: WebexAgent,
}

impl Webex {
    pub fn new(token: &str, room_id: &str) -> (w: Webex)
        ensures
            w.agent.auth_header@ == "Bearer "@ + token@,
            w.agent.room_id@ == room_id@,
            w.agent.last_unread_message_date is None,
    {
        Webex { agent: WebexAgent::new(token, room_id) }
    }
}

impl Module for Webex {
    fn name(&self) -> (r: &'static str)
        ensures
            r@ == "webex"@,
    {
        "webex"
    }

    fn params(&self) -> (r: Vec<ModuleParam>)
        ensures
            r@.len() == 2,
    {
        params()
    }

    /// A broadcast sink and an unread-message source.
    fn capabilities(&self) -> (c: ModuleCapabilities)
        ensures
            c.triggers is None,
            !c.catch_non_triggered,
            !c.catch_all,
            c.send_message,
            c.read_message,
            !c.resp_message,
    {
        ModuleCapabilities {
            triggers: None,
            catch_non_triggered: false,
            catch_all: false,
            send_message: true,
            read_message: true,
            resp_message: false,
        }
    }

    fn variation_durations(&self) -> (r: Vec<u64>)
        ensures
            r@ == seq![10u64],
    {
        let mut r: Vec<u64> = Vec::new();
        r.push(10);
        proof {
            assert(r@ =~= seq![10u64]);
        }
        r
    }

    fn module_offering(&mut self, modules: &Vec<ModuleInfo>)
        ensures
            *final(self) == *old(self),
    {
    }

    fn run(&mut self, variation: usize) -> (r: Option<Vec<Message>>)
        ensures
            r is None,
    {
        None
    }

    fn trigger(&mut self, message: &str) -> (r: TriggerOutcome)
        ensures
            r is Ignored,
    {
        TriggerOutcome::Ignored
    }
}

} // verus!
