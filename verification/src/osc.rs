//! One watched API endpoint: version tracking, liveness and error rate, all
//! decisions from probe outcomes that the host's transport hands in.

use crate::monitor::ErrorRateMonitor;
use crate::monitor::LivenessMonitor;
use crate::monitor::acc_step;
use crate::monitor::alive_step;
use crate::monitor::counter_step;
use crate::strutil::spec_dec;
use crate::strutil::str_eq;
use crate::strutil::u64_to_string;
use vstd::prelude::*;

verus! {

/// Why a probe of an endpoint failed.
pub enum EndpointError {
    /// The HTTP agent could not even be built.
    AgentInit(String),
    /// The endpoint answered with a status other than OK.
    Code(u16),
    /// The request itself failed underway.
    Transport(String),
}

/// The user-facing rendering of a probe failure.
pub open spec fn endpoint_error_text(e: EndpointError) -> Seq<char> {
    match e {
        EndpointError::AgentInit(err) => "Internal error: "@ + err@,
        EndpointError::Code(c) => {
            if c == 503 {
                "API has been very properly put in maintenance mode by the wonderful ops team, thanks for your understanding"@
            } else {
                "API is down (error code: "@ + spec_dec(c as nat) + ")"@
            }
        },
        EndpointError::Transport(t) => "API seems down (transport error: "@ + t@ + ")"@,
    }
}

impl EndpointError {
    /// Render the failure for a chat message.
    pub fn to_text(&self) -> (r: String)
        ensures
            r@ == endpoint_error_text(*self),
    {
        match self {
            EndpointError::AgentInit(err) => {
                let mut s = String::from_str("Internal error: ");
                s.append(err.as_str());
                s
            },
            EndpointError::Code(c) => {
                if *c == 503 {
                    String::from_str(
                        "API has been very properly put in maintenance mode by the wonderful ops team, thanks for your understanding",
                    )
                } else {
                    let mut s = String::from_str("API is down (error code: ");
                    let digits = u64_to_string(*c as u64);
                    s.append(digits.as_str());
                    s.append(")");
                    s
                }
            },
            EndpointError::Transport(t) => {
                let mut s = String::from_str("API seems down (transport error: ");
                s.append(t.as_str());
                s.append(")");
                s
            },
        }
    }
}

/// One watched endpoint and everything remembered about it.
pub struct Endpoint {
    pub name: String,
    pub endpoint: String,
    /// The version the endpoint last reported.
    pub version: Option<String>,
    /// The Schmitt-trigger liveness state.
    pub liveness: LivenessMonitor,
    /// The failure behind the most recent failed probe.
    pub last_error: Option<EndpointError>,
    /// The windowed error rate.
    pub error_rate: ErrorRateMonitor,
}

/// The message reported when an endpoint goes down, from the failure that
/// felled it: an agent-initialization failure is the bot's own and yields no
/// message, any other failure is rendered, and a missing one is said so.
pub open spec fn down_response(name: Seq<char>, e: Option<EndpointError>) -> Option<Seq<char>> {
    match e {
        Some(EndpointError::AgentInit(_)) => None,
        Some(err) => Some(name + " region: "@ + endpoint_error_text(err)),
        None => Some("API on "@ + name + " region seems down (no reason found)"@),
    }
}

/// The message reported when an endpoint comes back up.
pub open spec fn up_response(name: Seq<char>) -> Seq<char> {
    "API on "@ + name + " region is up"@
}

impl Endpoint {
    /// Both monitors replay their histories.
    pub open spec fn wf(self) -> bool {
        &&& self.liveness.wf()
        &&& self.error_rate.wf()
    }

    /// A fresh endpoint: assumed alive, no version, nothing measured.
    pub fn new(name: String, endpoint: String) -> (e: Endpoint)
        ensures
            e.wf(),
            e.name == name,
            e.endpoint == endpoint,
            e.version is None,
            e.liveness.alive,
            e.liveness.failure_count == 0,
            e.last_error is None,
            e.error_rate.count == 0,
            e.error_rate.rate == 0,
    {
        Endpoint {
            name,
            endpoint,
            version: None,
            liveness: LivenessMonitor::new(),
            last_error: None,
            error_rate: ErrorRateMonitor::new(),
        }
    }

    /// Absorb a freshly fetched version: the new version is remembered, and
    /// a change is reported — except the very first sighting, and a failed
    /// fetch changes nothing.
    pub fn update_version(&mut self, fetched: Option<String>) -> (r: Option<String>)
        ensures
            fetched is None ==> r is None && *final(self) == *old(self),
            fetched matches Some(v) ==> {
                &&& final(self).version == Some(v)
                &&& (r is Some <==> (old(self).version matches Some(p) && p@ != v@))
                &&& (r matches Some(rv) ==> rv@ == v@)
                &&& final(self).name == old(self).name
                &&& final(self).endpoint == old(self).endpoint
                &&& final(self).liveness == old(self).liveness
                &&& final(self).last_error == old(self).last_error
                &&& final(self).error_rate == old(self).error_rate
            },
    {
        match fetched {
            None => None,
            Some(v) => {
                let changed = match &self.version {
                    Some(prev) => !str_eq(prev.as_str(), v.as_str()),
                    None => false,
                };
                let r = if changed {
                    Some(v.clone())
                } else {
                    None
                };
                self.version = Some(v);
                r
            },
        }
    }

    /// Feed one liveness probe outcome; remembers the failure, if any, and
    /// returns the liveness state before and after.
    pub fn update_alive(&mut self, probe: Result<(), EndpointError>) -> (transition: (bool, bool))
        requires
            old(self).wf(),
        ensures
            final(self).wf(),
            final(self).liveness.history@ == old(self).liveness.history@.push(probe is Err),
            final(self).liveness.failure_count as nat == counter_step(
                old(self).liveness.failure_count as nat,
                probe is Err,
            ),
            final(self).liveness.alive == alive_step(
                old(self).liveness.alive,
                final(self).liveness.failure_count as nat,
            ),
            transition == (old(self).liveness.alive, final(self).liveness.alive),
            probe matches Err(e) ==> final(self).last_error == Some(e),
            probe is Ok ==> final(self).last_error == old(self).last_error,
            final(self).name == old(self).name,
            final(self).endpoint == old(self).endpoint,
            final(self).version == old(self).version,
            final(self).error_rate == old(self).error_rate,
    {
        match probe {
            Ok(_) => self.liveness.update(false),
            Err(e) => {
                self.last_error = Some(e);
                self.liveness.update(true)
            },
        }
    }

    /// Feed one error-rate probe outcome; reports the rate once the window is
    /// full.
    pub fn update_error_rate(&mut self, failed: bool) -> (r: Option<u64>)
        requires
            old(self).wf(),
        ensures
            final(self).wf(),
            final(self).error_rate.acc as nat == acc_step(old(self).error_rate.acc as nat, failed),
            final(self).error_rate.count == if old(self).error_rate.count < u32::MAX {
                (old(self).error_rate.count + 1) as u32
            } else {
                u32::MAX
            },
            r == if final(self).error_rate.count >= 100 {
                Some(final(self).error_rate.rate)
            } else {
                None::<u64>
            },
            final(self).name == old(self).name,
            final(self).endpoint == old(self).endpoint,
            final(self).version == old(self).version,
            final(self).liveness == old(self).liveness,
            final(self).last_error == old(self).last_error,
    {
        self.error_rate.update(failed)
    }

    /// Feed one liveness probe and say what, if anything, to announce: a
    /// message exactly on a transition — what felled the endpoint on
    /// `Alive → Dead` (unless the failure was the bot's own), a recovery
    /// notice on `Dead → Alive`, and silence otherwise.
    pub fn alive(&mut self, probe: Result<(), EndpointError>) -> (r: Option<String>)
        requires
            old(self).wf(),
        ensures
            final(self).wf(),
            final(self).liveness.history@ == old(self).liveness.history@.push(probe is Err),
            ({
                let was = old(self).liveness.alive;
                let now = final(self).liveness.alive;
                &&& (was && !now) ==> match down_response(final(self).name@, final(self).last_error) {
                    Some(t) => r matches Some(msg) && msg@ == t,
                    None => r is None,
                }
                &&& (!was && now) ==> (r matches Some(msg) && msg@ == up_response(
                    final(self).name@,
                ))
                &&& (was == now) ==> r is None
            }),
    {
        let (was, now) = self.update_alive(probe);
        if was && !now {
            match &self.last_error {
                Some(err) => match err {
                    EndpointError::AgentInit(_) => None,
                    _ => {
                        let mut s = self.name.clone();
                        s.append(" region: ");
                        let text = err.to_text();
                        s.append(text.as_str());
                        Some(s)
                    },
                },
                None => {
                    let mut s = String::from_str("API on ");
                    s.append(self.name.as_str());
                    s.append(" region seems down (no reason found)");
                    Some(s)
                },
            }
        } else if !was && now {
            let mut s = String::from_str("API on ");
            s.append(self.name.as_str());
            s.append(" region is up");
            Some(s)
        } else {
            None
        }
    }
}

} // verus!
