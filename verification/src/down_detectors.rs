//! Watching arbitrary URLs for downtime: one liveness state machine and one
//! error-rate window per watched target, driven by probe outcomes the host's
//! transport hands in; "/status" answers with the current state of every
//! target.

use crate::bot::Message;
use crate::bot::Module;
use crate::bot::ModuleCapabilities;
use crate::bot::ModuleInfo;
use crate::bot::ModuleParam;
use crate::bot::TriggerOutcome;
use crate::bot::trigger_texts;
use crate::monitor::ErrorRateMonitor;
use crate::monitor::LivenessMonitor;
use crate::monitor::acc_step;
use crate::monitor::alive_step;
use crate::monitor::counter_step;
use crate::osc::EndpointError;
use crate::osc::endpoint_error_text;
use crate::strutil::bool_text;
use crate::strutil::spec_dec;
use crate::strutil::u64_to_string;
use crate::webex;
use vstd::prelude::*;

verus! {

/// A windowed error rate above this (in parts per million, so one tenth) is
/// worth a warning.
pub const HIGH_ERROR_RATE_PPM: u64 = 100000;

/// One watched target.
pub struct DownDetector {
    pub name: String,
    pub url: String,
    /// The Schmitt-trigger liveness state.
    pub liveness: LivenessMonitor,
    /// The failure behind the most recent failed probe.
    pub last_error: Option<EndpointError>,
    /// The windowed error rate.
    pub error_rate: ErrorRateMonitor,
}

/// Duplicate a probe failure, field for field.
pub fn dup_endpoint_error(e: &EndpointError) -> (r: EndpointError)
    ensures
        r == *e,
{
    match e {
        EndpointError::AgentInit(s) => EndpointError::AgentInit(s.clone()),
        EndpointError::Code(c) => EndpointError::Code(*c),
        EndpointError::Transport(s) => EndpointError::Transport(s.clone()),
    }
}

/// The message reported when a target goes down: the failure rendered, unless
/// it was the bot's own agent failing, or no reason is at hand.
pub open spec fn down_line(name: Seq<char>, e: Option<EndpointError>) -> Option<Seq<char>> {
    match e {
        Some(EndpointError::AgentInit(_)) => None,
        Some(err) => Some(name + ": "@ + endpoint_error_text(err)),
        None => Some(name + " seems down (no reason found)"@),
    }
}

/// What one liveness probe makes a target announce: a message exactly on a
/// transition.
pub open spec fn alive_out(
    was: bool,
    now: bool,
    name: Seq<char>,
    e: Option<EndpointError>,
) -> Option<Seq<char>> {
    if was && !now {
        down_line(name, e)
    } else if !was && now {
        Some(name + " is up"@)
    } else {
        None
    }
}

/// What a target, in a given state, announces for a given probe outcome.
pub open spec fn det_response(d: DownDetector, probe: Option<EndpointError>) -> Option<Seq<char>> {
    let c2 = counter_step(d.liveness.failure_count as nat, probe is Some);
    let now = alive_step(d.liveness.alive, c2);
    let e = if probe is Some {
        probe
    } else {
        d.last_error
    };
    alive_out(d.liveness.alive, now, d.name@, e)
}

/// The announcements a probe round yields, in target order.
pub open spec fn det_responses(list: Seq<DownDetector>, probes: Seq<Option<EndpointError>>) -> Seq<
    Seq<char>,
>
    decreases list.len(),
{
    if list.len() == 0 {
        Seq::empty()
    } else {
        det_responses(list.drop_last(), probes.drop_last()) + (match det_response(
            list.last(),
            probes.last(),
        ) {
            Some(t) => seq![t],
            None => Seq::empty(),
        })
    }
}

impl DownDetector {
    /// Both monitors replay their histories.
    pub open spec fn wf(self) -> bool {
        &&& self.liveness.wf()
        &&& self.error_rate.wf()
    }

    /// A fresh target: assumed alive, nothing measured.
    pub fn new(name: String, url: String) -> (d: DownDetector)
        ensures
            d.wf(),
            d.name == name,
            d.url == url,
            d.liveness.alive,
            d.liveness.failure_count == 0,
            d.last_error is None,
            d.error_rate.count == 0,
            d.error_rate.rate == 0,
    {
        DownDetector {
            name,
            url,
            liveness: LivenessMonitor::new(),
            last_error: None,
            error_rate: ErrorRateMonitor::new(),
        }
    }

    /// Feed one liveness probe outcome (`Some` is the failure that occurred);
    /// remembers the failure and returns the state before and after.
    pub fn update_alive(&mut self, probe: &Option<EndpointError>) -> (transition: (bool, bool))
        requires
            old(self).wf(),
        ensures
            final(self).wf(),
            final(self).liveness.history@ == old(self).liveness.history@.push(probe is Some),
            final(self).liveness.failure_count as nat == counter_step(
                old(self).liveness.failure_count as nat,
                probe is Some,
            ),
            final(self).liveness.alive == alive_step(
                old(self).liveness.alive,
                final(self).liveness.failure_count as nat,
            ),
            transition == (old(self).liveness.alive, final(self).liveness.alive),
            final(self).last_error == if probe is Some {
                *probe
            } else {
                old(self).last_error
            },
            final(self).name == old(self).name,
            final(self).url == old(self).url,
            final(self).error_rate == old(self).error_rate,
    {
        match probe {
            None => self.liveness.update(false),
            Some(e) => {
                self.last_error = Some(dup_endpoint_error(e));
                self.liveness.update(true)
            },
        }
    }

    /// Feed one error-rate probe outcome; reports the rate once the window is
    /// full.
    pub fn update_error_rate(&mut self, failed: bool) -> (r: Option<u64>)
        requires
            old(self).wf(),
        ensures
            final(self).wf(),
            final(self).error_rate.acc as nat == acc_step(old(self).error_rate.acc as nat, failed),
            final(self).error_rate.count == if old(self).error_rate.count < u32::MAX {
                (old(self).error_rate.count + 1) as u32
            } else {
                u32::MAX
            },
            r == if final(self).error_rate.count >= 100 {
                Some(final(self).error_rate.rate)
            } else {
                None::<u64>
            },
            final(self).name == old(self).name,
            final(self).url == old(self).url,
            final(self).liveness == old(self).liveness,
            final(self).last_error == old(self).last_error,
    {
        self.error_rate.update(failed)
    }

    /// Feed one liveness probe and say what, if anything, to announce.
    pub fn alive(&mut self, probe: &Option<EndpointError>) -> (r: Option<String>)
        requires
            old(self).wf(),
        ensures
            final(self).wf(),
            final(self).liveness.history@ == old(self).liveness.history@.push(probe is Some),
            final(self).name == old(self).name,
            final(self).url == old(self).url,
            final(self).error_rate == old(self).error_rate,
            match det_response(*old(self), *probe) {
                Some(t) => r matches Some(msg) && msg@ == t,
                None => r is None,
            },
    {
        let (was, now) = self.update_alive(probe);
        if was && !now {
            match &self.last_error {
                Some(err) => match err {
                    EndpointError::AgentInit(_) => None,
                    _ => {
                        let mut s = self.name.clone();
                        s.append(": ");
                        let text = err.to_text();
                        s.append(text.as_str());
                        Some(s)
                    },
                },
                None => {
                    let mut s = self.name.clone();
                    s.append(" seems down (no reason found)");
                    Some(s)
                },
            }
        } else if !was && now {
            let mut s = self.name.clone();
            s.append(" is up");
            Some(s)
        } else {
            None
        }
    }
}

/// One status line: name, liveness, and the windowed error rate in parts per
/// million.
pub open spec fn status_line(d: DownDetector) -> Seq<char> {
    d.name@ + ": alive="@ + bool_text(d.liveness.alive) + ", error_rate="@ + spec_dec(
        d.error_rate.rate as nat,
    ) + "\n"@
}

/// The whole status report, one line per watched target.
pub open spec fn status_text(list: Seq<DownDetector>) -> Seq<char>
    decreases list.len(),
{
    if list.len() == 0 {
        Seq::empty()
    } else {
        status_text(list.drop_last()) + status_line(list.last())
    }
}

/// The down-detectors module: a list of watched targets.
pub struct DownDetectors {
    pub watch_list: Vec<DownDetector>,
}

impl DownDetectors {
    /// Every target's monitors replay their histories.
    pub open spec fn wf(self) -> bool {
        forall|k: int| 0 <= k < self.watch_list@.len() ==> (#[trigger] self.watch_list@[k]).wf()
    }

    /// An empty watch list; the host adds one target per configured pair of
    /// name and URL.
    pub fn new() -> (d: DownDetectors)
        ensures
            d.wf(),
            d.watch_list@.len() == 0,
    {
        DownDetectors { watch_list: Vec::new() }
    }

    /// Watch one more target.
    pub fn add_watch(&mut self, d: DownDetector)
        requires
            old(self).wf(),
            d.wf(),
        ensures
            final(self).wf(),
            final(self).watch_list@ == old(self).watch_list@.push(d),
    {
        self.watch_list.push(d);
    }

    /// Feed one error-rate probe round, one outcome per target (`true` is a
    /// failure): every target's window advances, and the indices of the
    /// targets whose reportable rate exceeds `HIGH_ERROR_RATE_PPM` come back,
    /// in order, for the host to warn about.
    pub fn run_error_rate(&mut self, outcomes: &Vec<bool>) -> (warns: Vec<usize>)
        requires
            old(self).wf(),
            outcomes@.len() == old(self).watch_list@.len(),
        ensures
            final(self).wf(),
            final(self).watch_list@.len() == old(self).watch_list@.len(),
            forall|k: int|
                0 <= k < old(self).watch_list@.len() ==> {
                    let o = old(self).watch_list@[k];
                    let nw = #[trigger] final(self).watch_list@[k];
                    &&& nw.name == o.name
                    &&& nw.url == o.url
                    &&& nw.liveness == o.liveness
                    &&& nw.last_error == o.last_error
                    &&& nw.error_rate.acc as nat == acc_step(o.error_rate.acc as nat, outcomes@[k])
                    &&& nw.error_rate.count == if o.error_rate.count < u32::MAX {
                        (o.error_rate.count + 1) as u32
                    } else {
                        u32::MAX
                    }
                },
            forall|j: int|
                0 <= j < warns@.len() ==> {
                    let k = #[trigger] warns@[j];
                    &&& k < final(self).watch_list@.len()
                    &&& final(self).watch_list@[k as int].error_rate.count >= 100
                    &&& final(self).watch_list@[k as int].error_rate.rate > HIGH_ERROR_RATE_PPM
                },
            forall|k: int|
                0 <= k < final(self).watch_list@.len()
                    && (#[trigger] final(self).watch_list@[k]).error_rate.count >= 100
                    && final(self).watch_list@[k].error_rate.rate > HIGH_ERROR_RATE_PPM
                    ==> warns@.contains(k as usize),
    {
        let mut warns: Vec<usize> = Vec::new();
        let n = self.watch_list.len();
        let mut i: usize = 0;
        while i < n
            invariant
                n == self.watch_list@.len(),
                n == old(self).watch_list@.len(),
                n == outcomes@.len(),
                i <= n,
                forall|k: int| i <= k < n ==> self.watch_list@[k] == old(self).watch_list@[k],
                old(self).wf(),
                forall|k: int| 0 <= k < i ==> (#[trigger] self.watch_list@[k]).wf(),
                forall|k: int|
                    0 <= k < i ==> {
                        let o = old(self).watch_list@[k];
                        let nw = #[trigger] self.watch_list@[k];
                        &&& nw.name == o.name
                        &&& nw.url == o.url
                        &&& nw.liveness == o.liveness
                        &&& nw.last_error == o.last_error
                        &&& nw.error_rate.acc as nat == acc_step(
                            o.error_rate.acc as nat,
                            outcomes@[k],
                        )
                        &&& nw.error_rate.count == if o.error_rate.count < u32::MAX {
                            (o.error_rate.count + 1) as u32
                        } else {
                            u32::MAX
                        }
                    },
                forall|j: int|
                    0 <= j < warns@.len() ==> {
                        let k = #[trigger] warns@[j];
                        &&& k < i
                        &&& self.watch_list@[k as int].error_rate.count >= 100
                        &&& self.watch_list@[k as int].error_rate.rate > HIGH_ERROR_RATE_PPM
                    },
                forall|k: int|
                    0 <= k < i && (#[trigger] self.watch_list@[k]).error_rate.count >= 100
                        && self.watch_list@[k].error_rate.rate > HIGH_ERROR_RATE_PPM
                        ==> warns@.contains(k as usize),
            decreases n - i,
        {
            let failed = outcomes[i];
            let d = &mut self.watch_list[i];
            let reported = d.update_error_rate(failed);
            let warn = match reported {
                Some(rate) => rate > HIGH_ERROR_RATE_PPM,
                None => false,
            };
            if warn {
                let ghost old_w = warns@;
                warns.push(i);
                proof {
                    assert forall|x: usize| old_w.contains(x) implies warns@.contains(x) by {
                        let j = choose|j: int| 0 <= j < old_w.len() && old_w[j] == x;
                        assert(warns@[j] == x);
                    }
                    assert(warns@[warns@.len() - 1] == i);
                }
            }
            i = i + 1;
        }
        warns
    }

    /// Feed one liveness probe round, one outcome per target: every target's
    /// state machine advances, and exactly the transition announcements come
    /// back, in target order, for the host to broadcast.
    pub fn run_alive(&mut self, probes: &Vec<Option<EndpointError>>) -> (messages: Vec<Message>)
        requires
            old(self).wf(),
            probes@.len() == old(self).watch_list@.len(),
        ensures
            final(self).wf(),
            final(self).watch_list@.len() == old(self).watch_list@.len(),
            messages@.map_values(|m: Message| m@) == det_responses(old(self).watch_list@, probes@),
    {
        let mut messages: Vec<Message> = Vec::new();
        let n = self.watch_list.len();
        let mut i: usize = 0;
        while i < n
            invariant
                n == self.watch_list@.len(),
                n == old(self).watch_list@.len(),
                n == probes@.len(),
                i <= n,
                forall|k: int| i <= k < n ==> self.watch_list@[k] == old(self).watch_list@[k],
                old(self).wf(),
                forall|k: int| 0 <= k < i ==> (#[trigger] self.watch_list@[k]).wf(),
                messages@.map_values(|m: Message| m@) == det_responses(
                    old(self).watch_list@.take(i as int),
                    probes@.take(i as int),
                ),
            decreases n - i,
        {
            let ghost pre_l = old(self).watch_list@.take(i as int);
            let ghost pre_p = probes@.take(i as int);
            let ghost cur_l = old(self).watch_list@.take(i + 1);
            let ghost cur_p = probes@.take(i + 1);
            proof {
                assert(cur_l.drop_last() =~= pre_l);
                assert(cur_p.drop_last() =~= pre_p);
                assert(cur_l.last() == old(self).watch_list@[i as int]);
                assert(cur_p.last() == probes@[i as int]);
            }
            let d = &mut self.watch_list[i];
            let r = d.alive(&probes[i]);
            match r {
                Some(msg) => messages.push(msg),
                None => {},
            }
            proof {
                assert(messages@.map_values(|m: Message| m@) =~= det_responses(cur_l, cur_p));
            }
            i = i + 1;
        }
        proof {
            assert(old(self).watch_list@.take(n as int) =~= old(self).watch_list@);
            assert(probes@.take(n as int) =~= probes@);
        }
        messages
    }

    /// The "/status" report over the current state.
    pub fn status_report(&self) -> (r: String)
        ensures
            r@ == status_text(self.watch_list@),
    {
        let mut out = String::new();
        let n = self.watch_list.len();
        let mut i: usize = 0;
        while i < n
            invariant
                n == self.watch_list@.len(),
                i <= n,
                out@ == status_text(self.watch_list@.take(i as int)),
            decreases n - i,
        {
            let ghost pre = self.watch_list@.take(i as int);
            let ghost cur = self.watch_list@.take(i + 1);
            proof {
                assert(cur.drop_last() =~= pre);
                assert(cur.last() == self.watch_list@[i as int]);
            }
            let d = &self.watch_list[i];
            out.append(d.name.as_str());
            out.append(": alive=");
            if d.liveness.alive {
                out.append("true");
            } else {
                out.append("false");
            }
            out.append(", error_rate=");
            let digits = u64_to_string(d.error_rate.rate);
            out.append(digits.as_str());
            out.append("\n");
            proof {
                assert(out@ =~= status_text(cur));
            }
            i = i + 1;
        }
        proof {
            assert(self.watch_list@.take(n as int) =~= self.watch_list@);
        }
        out
    }
}

impl Module for DownDetectors {
    fn name(&self) -> (r: &'static str)
        ensures
            r@ == "down_detectors"@,
    {
        "down_detectors"
    }

    fn params(&self) -> (r: Vec<ModuleParam>)
        ensures
            r@.len() == 4,
    {
        let mut r = webex::params();
        r.push(
            ModuleParam::new(
                "DOWN_DETECTORS_0_NAME",
                "Friendly name of what is watched, can be multiple (0..)",
                false,
            ),
        );
        r.push(
            ModuleParam::new(
                "DOWN_DETECTORS_0_URL",
                "URL of what is watched, can be multiple (0..)",
                false,
            ),
        );
        r
    }

    /// One declared trigger: "/status".
    fn capabilities(&self) -> (c: ModuleCapabilities)
        ensures
            trigger_texts(c) == seq!["/status"@],
            !c.catch_non_triggered,
            !c.catch_all,
            !c.send_message,
            !c.read_message,
            !c.resp_message,
    {
        let mut triggers: Vec<String> = Vec::new();
        triggers.push(String::from_str("/status"));
        proof {
            assert(triggers@.map_values(|s: String| s@) =~= seq!["/status"@]);
        }
        ModuleCapabilities {
            triggers: Some(triggers),
            catch_non_triggered: false,
            catch_all: false,
            send_message: false,
            read_message: false,
            resp_message: false,
        }
    }

    /// Two variations: the error-rate round and the liveness round.
    fn variation_durations(&self) -> (r: Vec<u64>)
        ensures
            r@ == seq![2u64, 2u64],
    {
        let mut r: Vec<u64> = Vec::new();
        r.push(2);
        r.push(2);
        proof {
            assert(r@ =~= seq![2u64, 2u64]);
        }
        r
    }

    fn module_offering(&mut self, modules: &Vec<ModuleInfo>)
        ensures
            *final(self) == *old(self),
    {
    }

    /// The probe rounds need the host's transport; the host drives them
    /// through `run_error_rate` and `run_alive`.
    fn run(&mut self, variation: usize) -> (r: Option<Vec<Message>>)
        ensures
            r is None,
    {
        None
    }

    /// "/status": one reply with one line per watched target.
    fn trigger(&mut self, message: &str) -> (r: TriggerOutcome)
        ensures
            *final(self) == *old(self),
            r matches TriggerOutcome::Replies(v) && v@.len() == 1 && v@[0]@ == status_text(
                old(self).watch_list@,
            ),
    {
        let report = self.status_report();
        let mut v: Vec<String> = Vec::new();
        v.push(report);
        TriggerOutcome::Replies(v)
    }
}

} // verus!
