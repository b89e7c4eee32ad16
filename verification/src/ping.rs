//! The smallest module: answers "pong" to any message containing "/ping".

use crate::bot::Message;
use crate::bot::Module;
use crate::bot::ModuleCapabilities;
use crate::bot::ModuleInfo;
use crate::bot::ModuleParam;
use crate::bot::TriggerOutcome;
use crate::bot::trigger_texts;
use vstd::prelude::*;

verus! {

pub struct Ping {}

impl Ping {
    pub fn new() -> (p: Ping) {
        Ping {  }
    }
}

impl Module for Ping {
    fn name(&self) -> (r: &'static str)
        ensures
            r@ == "ping"@,
    {
        "ping"
    }

    fn params(&self) -> (r: Vec<ModuleParam>)
        ensures
            r@.len() == 0,
    {
        Vec::new()
    }

    /// One declared trigger and nothing else: "/ping".
    fn capabilities(&self) -> (c: ModuleCapabilities)
        ensures
            trigger_texts(c) == seq!["/ping"@],
            !c.catch_non_triggered,
            !c.catch_all,
            !c.send_message,
            !c.read_message,
            !c.resp_message,
    {
        let mut triggers: Vec<String> = Vec::new();
        triggers.push(String::from_str("/ping"));
        proof {
            assert(triggers@.map_values(|s: String| s@) =~= seq!["/ping"@]);
        }
        ModuleCapabilities {
            triggers: Some(triggers),
            catch_non_triggered: false,
            catch_all: false,
            send_message: false,
            read_message: false,
            resp_message: false,
        }
    }

    fn variation_durations(&self) -> (r: Vec<u64>)
        ensures
            r@ == seq![100u64],
    {
        let mut r: Vec<u64> = Vec::new();
        r.push(100);
        proof {
            assert(r@ =~= seq![100u64]);
        }
        r
    }

    fn module_offering(&mut self, modules: &Vec<ModuleInfo>)
        ensures
            *final(self) == *old(self),
    {
    }

    fn run(&mut self, variation: usize) -> (r: Option<Vec<Message>>)
        ensures
            r is None,
    {
        None
    }

    /// Always answers exactly "pong".
    fn trigger(&mut self, message: &str) -> (r: TriggerOutcome)
        ensures
            r matches TriggerOutcome::Replies(v) && v@.len() == 1 && v@[0]@ == "pong"@,
    {
        let mut v: Vec<String> = Vec::new();
        v.push(String::from_str("pong"));
        TriggerOutcome::Replies(v)
    }
}

} // verus!
