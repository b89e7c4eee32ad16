//! The generative-text responder: catches messages no trigger matched and
//! answers with whatever the language-model endpoint generates. The network
//! call is the host's; the library keeps the conversation context and decides
//! the reply text for every outcome of the call.

use crate::bot::Message;
use crate::bot::Module;
use crate::bot::ModuleCapabilities;
use crate::bot::ModuleInfo;
use crate::bot::ModuleParam;
use crate::bot::TriggerOutcome;
use crate::webex;
use vstd::prelude::*;

verus! {

/// The generative responder's remembered state.
pub struct Ollama {
    /// Which model to query.
    pub model: String,
    /// Where to query it.
    pub endpoint: String,
    /// The conversation context the endpoint handed back last.
    pub context: Vec<usize>,
}

impl Ollama {
    pub fn new(model: &str, endpoint: &str) -> (o: Ollama)
        ensures
            o.model@ == model@,
            o.endpoint@ == endpoint@,
            o.context@.len() == 0,
    {
        Ollama { model: model.to_owned(), endpoint: endpoint.to_owned(), context: Vec::new() }
    }

    /// The URL the generation call goes to.
    pub fn prompt_url(&self) -> (r: String)
        ensures
            r@ == self.endpoint@ + "/api/generate"@,
    {
        let mut s = self.endpoint.clone();
        s.append("/api/generate");
        s
    }

    /// Absorb the context the endpoint handed back with an answer; an answer
    /// without one keeps the remembered context.
    pub fn set_context(&mut self, context: Option<Vec<usize>>)
        ensures
            final(self).model == old(self).model,
            final(self).endpoint == old(self).endpoint,
            context matches Some(c) ==> final(self).context == c,
            context is None ==> final(self).context == old(self).context,
    {
        match context {
            Some(c) => self.context = c,
            None => {},
        }
    }

    /// The reply posted for an outcome of the generation call: the generated
    /// text when the call succeeded, a fixed apology when it failed — never
    /// the failure's own wording.
    pub fn reply_or_apology(answer: Option<String>) -> (r: String)
        ensures
            answer matches Some(a) ==> r == a,
            answer is None ==> r@ == "Sorry, I can't respond to that right now."@,
    {
        match answer {
            Some(a) => a,
            None => String::from_str("Sorry, I can't respond to that right now."),
        }
    }
}

impl Module for Ollama {
    fn name(&self) -> (r: &'static str)
        ensures
            r@ == "ollama"@,
    {
        "ollama"
    }

    fn params(&self) -> (r: Vec<ModuleParam>)
        ensures
            r@.len() == 4,
    {
        let mut r = webex::params();
        r.push(ModuleParam::new("OLLAMA_MODEL_NAME", "Ollama model name to use", true));
        r.push(ModuleParam::new("OLLAMA_URL", "ollama URL to query", true));
        r
    }

    /// Catches exactly the messages no trigger matched.
    fn capabilities(&self) -> (c: ModuleCapabilities)
        ensures
            c.triggers is None,
            c.catch_non_triggered,
            !c.catch_all,
            !c.send_message,
            !c.read_message,
            !c.resp_message,
    {
        ModuleCapabilities {
            triggers: None,
            catch_non_triggered: true,
            catch_all: false,
            send_message: false,
            read_message: false,
            resp_message: false,
        }
    }

    fn variation_durations(&self) -> (r: Vec<u64>)
        ensures
            r@ == seq![100u64],
    {
        let mut r: Vec<u64> = Vec::new();
        r.push(100);
        proof {
            assert(r@ =~= seq![100u64]);
        }
        r
    }

    fn module_offering(&mut self, modules: &Vec<ModuleInfo>)
        ensures
            *final(self) == *old(self),
    {
    }

    fn run(&mut self, variation: usize) -> (r: Option<Vec<Message>>)
        ensures
            r is None,
    {
        None
    }

    /// The generated reply needs the host's network call: the host queries
    /// the endpoint and posts `reply_or_apology` of the outcome.
    fn trigger(&mut self, message: &str) -> (r: TriggerOutcome)
        ensures
            r is Deferred,
    {
        TriggerOutcome::Deferred
    }
}

} // verus!
