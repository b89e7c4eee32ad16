//! Module and capability data model, the registry, and the scheduling
//! decisions: which workers to spawn, which modules receive a broadcast, and
//! the startup registration policy.

use crate::strutil::bool_text;
use crate::strutil::contains_seq;
use crate::strutil::str_eq;
use crate::strutil::upper_string;
use crate::strutil::upper_text;
use vstd::prelude::*;

verus! {

/// A message carried between modules: plain text.
pub type Message = String;

/// A module's reply to a routed message: plain text.
pub type MessageResponse = String;

/// One named configuration key a module declares, for startup validation and
/// self-documentation.
pub struct ModuleParam {
    pub name: String,
    pub description: String,
    pub mandatory: bool,
}

impl ModuleParam {
    pub fn new(name: &str, description: &str, mandatory: bool) -> (p: ModuleParam)
        ensures
            p.name@ == name@,
            p.description@ == description@,
            p.mandatory == mandatory,
    {
        ModuleParam { name: name.to_owned(), description: description.to_owned(), mandatory }
    }
}

/// An incoming message together with the opaque id that a reply must be
/// correlated to. The id is round-tripped, never interpreted.
pub struct MessageCtx {
    pub content: Message,
    pub id: String,
}

impl MessageCtx {
    pub fn new(content: &str, id: &str) -> (m: MessageCtx)
        ensures
            m.content@ == content@,
            m.id@ == id@,
    {
        MessageCtx { content: content.to_owned(), id: id.to_owned() }
    }
}

/// How a module takes part in dispatch, fixed after construction.
pub struct ModuleCapabilities {
    /// Substrings that activate the module when contained in a message.
    pub triggers: Option<Vec<String>>,
    /// Activated only when no module matched by trigger substring.
    pub catch_non_triggered: bool,
    /// Activated on every message, independently of the trigger tier.
    pub catch_all: bool,
    /// Sink for broadcast messages.
    pub send_message: bool,
    /// Source of unread incoming messages.
    pub read_message: bool,
    /// Sink for correlated replies.
    pub resp_message: bool,
}

impl Default for ModuleCapabilities {
    /// No capability at all: such a module only runs its own variations.
    fn default() -> (c: ModuleCapabilities)
        ensures
            c.triggers is None,
            !c.catch_non_triggered,
            !c.catch_all,
            !c.send_message,
            !c.read_message,
            !c.resp_message,
    {
        ModuleCapabilities {
            triggers: None,
            catch_non_triggered: false,
            catch_all: false,
            send_message: false,
            read_message: false,
            resp_message: false,
        }
    }
}

/// The declared trigger substrings, as character sequences.
pub open spec fn trigger_texts(c: ModuleCapabilities) -> Seq<Seq<char>> {
    match c.triggers {
        Some(v) => v@.map_values(|s: String| s@),
        None => Seq::empty(),
    }
}

/// The message text contains at least one of the module's declared triggers.
pub open spec fn caps_match(c: ModuleCapabilities, text: Seq<char>) -> bool {
    exists|t: int| 0 <= t < trigger_texts(c).len() && contains_seq(text, trigger_texts(c)[t])
}

/// The module takes part in trigger dispatch: it declares triggers, or
/// catches everything, or catches what nothing else matched.
pub open spec fn is_trigger_capable(c: ModuleCapabilities) -> bool {
    ||| (c.triggers matches Some(v) && v.len() > 0)
    ||| c.catch_non_triggered
    ||| c.catch_all
}

/// The module speaks for a chat transport: it yields unread messages or takes
/// replies.
pub open spec fn is_chat_capable(c: ModuleCapabilities) -> bool {
    c.read_message || c.resp_message
}

/// One registry snapshot entry: what every module learns about each peer
/// before scheduling starts.
pub struct ModuleInfo {
    pub name: String,
    pub capabilities: ModuleCapabilities,
    pub variation_durations: Vec<u64>,
}

/// Two capability records say the same thing.
pub open spec fn caps_equiv(a: ModuleCapabilities, b: ModuleCapabilities) -> bool {
    &&& (a.triggers is Some <==> b.triggers is Some)
    &&& trigger_texts(a) == trigger_texts(b)
    &&& a.catch_non_triggered == b.catch_non_triggered
    &&& a.catch_all == b.catch_all
    &&& a.send_message == b.send_message
    &&& a.read_message == b.read_message
    &&& a.resp_message == b.resp_message
}

/// What a module's `trigger` yields for a routed message.
pub enum TriggerOutcome {
    /// The module has nothing to say to this message.
    Ignored,
    /// Immediate replies, to be posted back to the originating transport.
    Replies(Vec<MessageResponse>),
    /// The reply needs outside work (a network call); the host performs it
    /// and posts the reply itself.
    Deferred,
}

/// A unit of capability: periodic work on its own cadences, and reaction to
/// routed messages. Chat-transport I/O stays with the host; a module whose
/// reply needs it answers `Deferred`.
pub trait Module: Sized {
    /// Process-unique module name.
    fn name(&self) -> &'static str;

    /// Declared configuration keys.
    fn params(&self) -> Vec<ModuleParam>;

    /// Dispatch capabilities, queried once at registration.
    fn capabilities(&self) -> ModuleCapabilities;

    /// One cooldown, in seconds, per independent schedule of the module.
    fn variation_durations(&self) -> Vec<u64>;

    /// Receives the registry snapshot once, before scheduling starts.
    fn module_offering(&mut self, modules: &Vec<ModuleInfo>);

    /// The module's own periodic work; returns messages to broadcast.
    fn run(&mut self, variation: usize) -> Option<Vec<Message>>;

    /// Reaction to a routed message.
    fn trigger(&mut self, message: &str) -> TriggerOutcome;
}

/// A registered module with the descriptors captured at registration; the
/// scheduler and the router go by these captured descriptors.
pub struct ModuleData<M: Module> {
    pub module: M,
    pub name: String,
    pub variation_durations: Vec<u64>,
    pub params: Vec<ModuleParam>,
    pub capabilities: ModuleCapabilities,
}

impl<M: Module> ModuleData<M> {
    /// Capture a module's descriptors and wrap it for the registry.
    pub fn new(module: M) -> (d: ModuleData<M>)
        ensures
            d.module == module,
    {
        let name = module.name().to_owned();
        let variation_durations = module.variation_durations();
        let params = module.params();
        let capabilities = module.capabilities();
        ModuleData { module, name, variation_durations, params, capabilities }
    }
}

/// The registry: every enabled, well-configured module, in registration
/// order.
pub struct Bot<M: Module> {
    pub modules: Vec<ModuleData<M>>,
}

impl<M: Module> Bot<M> {
    /// An empty registry.
    pub fn new() -> (b: Bot<M>)
        ensures
            b.modules@.len() == 0,
    {
        Bot { modules: Vec::new() }
    }

    /// Registration policy: a disabled module is skipped silently; one whose
    /// construction failed (missing required configuration) is skipped as
    /// well, and the bot goes on with the rest. A module is registered
    /// exactly when it is enabled and constructed.
    pub fn register(&mut self, enabled: bool, module: Option<M>)
        ensures
            enabled && module is Some ==> {
                &&& final(self).modules@.len() == old(self).modules@.len() + 1
                &&& final(self).modules@.last().module == module->0
                &&& final(self).modules@.drop_last() == old(self).modules@
            },
            !(enabled && module is Some) ==> *final(self) == *old(self),
    {
        if !enabled {
            return ;
        }
        match module {
            Some(m) => {
                self.modules.push(ModuleData::new(m));
                proof {
                    assert(final(self).modules@.drop_last() =~= old(self).modules@);
                }
            },
            None => {},
        }
    }

    /// The immutable registry snapshot handed to every module once.
    pub fn snapshot(&self) -> (snap: Vec<ModuleInfo>)
        ensures
            snap@.len() == self.modules@.len(),
            forall|i: int|
                0 <= i < snap@.len() ==> (#[trigger] snap@[i]).name@ == self.modules@[i].name@
                    && caps_equiv(snap@[i].capabilities, self.modules@[i].capabilities)
                    && snap@[i].variation_durations@ == self.modules@[i].variation_durations@,
    {
        let mut snap: Vec<ModuleInfo> = Vec::new();
        let mut i: usize = 0;
        while i < self.modules.len()
            invariant
                i <= self.modules@.len(),
                snap@.len() == i,
                forall|j: int|
                    0 <= j < i ==> (#[trigger] snap@[j]).name@ == self.modules@[j].name@
                        && caps_equiv(snap@[j].capabilities, self.modules@[j].capabilities)
                        && snap@[j].variation_durations@ == self.modules@[j].variation_durations@,
            decreases self.modules@.len() - i,
        {
            let m = &self.modules[i];
            snap.push(
                ModuleInfo {
                    name: m.name.clone(),
                    capabilities: dup_capabilities(&m.capabilities),
                    variation_durations: dup_u64s(&m.variation_durations),
                },
            );
            i = i + 1;
        }
        snap
    }

    /// Distribute the snapshot: call `module_offering` on every module, once,
    /// before scheduling starts. Only the modules themselves may change; the
    /// captured descriptors stay as registered.
    pub fn distribute(&mut self)
        ensures
            final(self).modules@.len() == old(self).modules@.len(),
            forall|i: int|
                0 <= i < old(self).modules@.len() ==> {
                    &&& (#[trigger] final(self).modules@[i]).name == old(self).modules@[i].name
                    &&& final(self).modules@[i].capabilities == old(self).modules@[i].capabilities
                    &&& final(self).modules@[i].variation_durations == old(self).modules@[i].variation_durations
                    &&& final(self).modules@[i].params == old(self).modules@[i].params
                },
    {
        let snap = self.snapshot();
        let n = self.modules.len();
        let mut i: usize = 0;
        while i < n
            invariant
                n == self.modules@.len(),
                i <= n,
                forall|k: int|
                    0 <= k < n ==> {
                        &&& (#[trigger] self.modules@[k]).name == old(self).modules@[k].name
                        &&& self.modules@[k].capabilities == old(self).modules@[k].capabilities
                        &&& self.modules@[k].variation_durations == old(self).modules@[k].variation_durations
                        &&& self.modules@[k].params == old(self).modules@[k].params
                    },
            decreases n - i,
        {
            let d = &mut self.modules[i];
            d.module.module_offering(&snap);
            i = i + 1;
        }
    }

    /// Indices of the modules that take broadcast messages: exactly those
    /// with the `send_message` capability, in registry order. A message
    /// emitted by any module's periodic work is delivered to these and to no
    /// others.
    pub fn send_targets(&self) -> (r: Vec<usize>)
        ensures
            forall|k: int|
                0 <= k < r@.len() ==> (#[trigger] r@[k]) < self.modules@.len()
                    && self.modules@[r@[k] as int].capabilities.send_message,
            forall|i: int|
                0 <= i < self.modules@.len()
                    && (#[trigger] self.modules@[i]).capabilities.send_message ==> r@.contains(
                    i as usize,
                ),
            forall|k1: int, k2: int| 0 <= k1 < k2 < r@.len() ==> r@[k1] < r@[k2],
    {
        let mut r: Vec<usize> = Vec::new();
        let mut i: usize = 0;
        while i < self.modules.len()
            invariant
                i <= self.modules@.len(),
                forall|k: int|
                    0 <= k < r@.len() ==> (#[trigger] r@[k]) < i
                        && self.modules@[r@[k] as int].capabilities.send_message,
                forall|j: int|
                    0 <= j < i && (#[trigger] self.modules@[j]).capabilities.send_message
                        ==> r@.contains(j as usize),
                forall|k1: int, k2: int| 0 <= k1 < k2 < r@.len() ==> r@[k1] < r@[k2],
            decreases self.modules@.len() - i,
        {
            if self.modules[i].capabilities.send_message {
                let ghost old_r = r@;
                r.push(i);
                proof {
                    assert forall|x: usize| old_r.contains(x) implies r@.contains(x) by {
                        let k = choose|k: int| 0 <= k < old_r.len() && old_r[k] == x;
                        assert(r@[k] == x);
                    }
                    assert(r@[r@.len() - 1] == i);
                }
            }
            i = i + 1;
        }
        r
    }

    /// One worker per (module, variation) pair, in registry order then
    /// variation order, each with the variation's cooldown: the whole set of
    /// loops the scheduler runs concurrently.
    pub fn worker_plan(&self) -> (plan: Vec<WorkerSpec>)
        ensures
            forall|m: int, v: int|
                0 <= m < self.modules@.len() && 0 <= v
                    < self.modules@[m].variation_durations@.len() ==> plan@.contains(
                    WorkerSpec {
                        module: m as usize,
                        variation: v as usize,
                        cooldown_s: self.modules@[m].variation_durations@[v],
                    },
                ),
            forall|k: int|
                0 <= k < plan@.len() ==> (#[trigger] plan@[k]).module < self.modules@.len()
                    && plan@[k].variation < self.modules@[
                    plan@[k].module as int
                ].variation_durations@.len() && plan@[k].cooldown_s == self.modules@[
                    plan@[k].module as int
                ].variation_durations@[plan@[k].variation as int],
    {
        let mut plan: Vec<WorkerSpec> = Vec::new();
        let mut m: usize = 0;
        while m < self.modules.len()
            invariant
                m <= self.modules@.len(),
                forall|m2: int, v: int|
                    0 <= m2 < m && 0 <= v < self.modules@[m2].variation_durations@.len()
                        ==> plan@.contains(
                        WorkerSpec {
                            module: m2 as usize,
                            variation: v as usize,
                            cooldown_s: self.modules@[m2].variation_durations@[v],
                        },
                    ),
                forall|k: int|
                    0 <= k < plan@.len() ==> (#[trigger] plan@[k]).module < self.modules@.len()
                        && plan@[k].variation < self.modules@[
                        plan@[k].module as int
                    ].variation_durations@.len() && plan@[k].cooldown_s == self.modules@[
                        plan@[k].module as int
                    ].variation_durations@[plan@[k].variation as int],
            decreases self.modules@.len() - m,
        {
            let durs = &self.modules[m].variation_durations;
            let mut v: usize = 0;
            while v < durs.len()
                invariant
                    m < self.modules@.len(),
                    durs == self.modules@[m as int].variation_durations,
                    v <= durs@.len(),
                    forall|m2: int, v2: int|
                        0 <= m2 < m && 0 <= v2 < self.modules@[m2].variation_durations@.len()
                            ==> plan@.contains(
                            WorkerSpec {
                                module: m2 as usize,
                                variation: v2 as usize,
                                cooldown_s: self.modules@[m2].variation_durations@[v2],
                            },
                        ),
                    forall|v2: int|
                        0 <= v2 < v ==> plan@.contains(
                            WorkerSpec {
                                module: m as usize,
                                variation: v2 as usize,
                                cooldown_s: self.modules@[m as int].variation_durations@[v2],
                            },
                        ),
                    forall|k: int|
                        0 <= k < plan@.len() ==> (#[trigger] plan@[k]).module < self.modules@.len()
                            && plan@[k].variation < self.modules@[
                            plan@[k].module as int
                        ].variation_durations@.len() && plan@[k].cooldown_s == self.modules@[
                            plan@[k].module as int
                        ].variation_durations@[plan@[k].variation as int],
                decreases durs@.len() - v,
            {
                let ghost old_plan = plan@;
                plan.push(WorkerSpec { module: m, variation: v, cooldown_s: durs[v] });
                proof {
                    assert forall|w: WorkerSpec| old_plan.contains(w) implies plan@.contains(
                        w,
                    ) by {
                        let k = choose|k: int| 0 <= k < old_plan.len() && old_plan[k] == w;
                        assert(plan@[k] == w);
                    }
                    assert(plan@[plan@.len() - 1] == WorkerSpec {
                        module: m,
                        variation: v,
                        cooldown_s: self.modules@[m as int].variation_durations@[v as int],
                    });
                }
                v = v + 1;
            }
            m = m + 1;
        }
        plan
    }
}

/// One line of the configuration documentation: a declared key, what it is
/// for, and whether it is required.
pub open spec fn param_line(p: ModuleParam) -> Seq<char> {
    "- "@ + p.name@ + ": "@ + p.description@ + " (mandatory: "@ + bool_text(p.mandatory) + ")\n"@
}

/// The documentation of a module's declared keys, first declaration of each
/// name only.
pub open spec fn param_lines(ps: Seq<ModuleParam>) -> Seq<char>
    decreases ps.len(),
{
    if ps.len() == 0 {
        Seq::empty()
    } else {
        param_lines(ps.drop_last()) + (if exists|j: int|
            0 <= j < ps.len() - 1 && (#[trigger] ps[j]).name@ == ps.last().name@ {
            Seq::empty()
        } else {
            param_line(ps.last())
        })
    }
}

/// One module's documentation block: a heading, the enable switch every
/// module has, and its declared keys.
pub open spec fn module_block(name: Seq<char>, params: Seq<ModuleParam>) -> Seq<char> {
    "# '"@ + name + "' module parameters\n"@ + "- BOT_MODULE_"@ + upper_text(name)
        + "_ENABLED: enable module "@ + name + " (optional: false)\n"@ + param_lines(params)
        + "\n"@
}

/// The whole configuration documentation, one block per registered module, in
/// registration order.
pub open spec fn help_text<M: Module>(mods: Seq<ModuleData<M>>) -> Seq<char>
    decreases mods.len(),
{
    if mods.len() == 0 {
        Seq::empty()
    } else {
        help_text(mods.drop_last()) + module_block(mods.last().name@, mods.last().params@)
    }
}

/// A key of the same name is declared earlier in the list.
fn seen_earlier(params: &Vec<ModuleParam>, k: usize) -> (r: bool)
    requires
        k < params@.len(),
    ensures
        r == exists|j: int| 0 <= j < k && (#[trigger] params@[j]).name@ == params@[k as int].name@,
{
    let mut j: usize = 0;
    while j < k
        invariant
            k < params@.len(),
            j <= k,
            forall|j2: int| 0 <= j2 < j ==> (#[trigger] params@[j2]).name@ != params@[k as int].name@,
        decreases k - j,
    {
        if str_eq(params[j].name.as_str(), params[k].name.as_str()) {
            return true;
        }
        j = j + 1;
    }
    false
}

impl<M: Module> Bot<M> {
    /// Enumerate, for every registered module, its enable switch and its
    /// declared configuration keys — the self-documentation the command-line
    /// host prints on demand.
    pub fn help(&self) -> (r: String)
        ensures
            r@ == help_text(self.modules@),
    {
        let mut out = String::new();
        let n = self.modules.len();
        let mut i: usize = 0;
        while i < n
            invariant
                n == self.modules@.len(),
                i <= n,
                out@ == help_text(self.modules@.take(i as int)),
            decreases n - i,
        {
            let ghost pre = self.modules@.take(i as int);
            let ghost cur = self.modules@.take(i + 1);
            proof {
                assert(cur.drop_last() =~= pre);
                assert(cur.last() == self.modules@[i as int]);
            }
            let m = &self.modules[i];
            out.append("# '");
            out.append(m.name.as_str());
            out.append("' module parameters\n");
            out.append("- BOT_MODULE_");
            let upper = upper_string(m.name.as_str());
            out.append(upper.as_str());
            out.append("_ENABLED: enable module ");
            out.append(m.name.as_str());
            out.append(" (optional: false)\n");
            let ghost head = help_text(pre) + "# '"@ + m.name@ + "' module parameters\n"@
                + "- BOT_MODULE_"@ + upper_text(m.name@) + "_ENABLED: enable module "@ + m.name@
                + " (optional: false)\n"@;
            proof {
                assert(out@ =~= head + param_lines(m.params@.take(0)));
            }
            let pn = m.params.len();
            let mut k: usize = 0;
            while k < pn
                invariant
                    pn == m.params@.len(),
                    k <= pn,
                    m == self.modules@[i as int],
                    i < n == self.modules@.len(),
                    out@ == head + param_lines(m.params@.take(k as int)),
                decreases pn - k,
            {
                let ghost ppre = m.params@.take(k as int);
                let ghost pcur = m.params@.take(k + 1);
                proof {
                    assert(pcur.drop_last() =~= ppre);
                    assert(pcur.last() == m.params@[k as int]);
                }
                if !seen_earlier(&m.params, k) {
                    let p = &m.params[k];
                    out.append("- ");
                    out.append(p.name.as_str());
                    out.append(": ");
                    out.append(p.description.as_str());
                    out.append(" (mandatory: ");
                    if p.mandatory {
                        out.append("true");
                    } else {
                        out.append("false");
                    }
                    out.append(")\n");
                    proof {
                        assert(!(exists|j: int|
                            0 <= j < pcur.len() - 1 && (#[trigger] pcur[j]).name@
                                == pcur.last().name@)) by {
                            if exists|j: int|
                                0 <= j < pcur.len() - 1 && (#[trigger] pcur[j]).name@
                                    == pcur.last().name@ {
                                let j = choose|j: int|
                                    0 <= j < pcur.len() - 1 && (#[trigger] pcur[j]).name@
                                        == pcur.last().name@;
                                assert(m.params@[j].name@ == m.params@[k as int].name@);
                            }
                        }
                        assert(out@ =~= head + param_lines(pcur));
                    }
                } else {
                    proof {
                        let j = choose|j: int|
                            0 <= j < k && (#[trigger] m.params@[j]).name@
                                == m.params@[k as int].name@;
                        assert(pcur[j].name@ == pcur.last().name@);
                        assert(out@ =~= head + param_lines(pcur));
                    }
                }
                k = k + 1;
            }
            proof {
                assert(m.params@.take(pn as int) =~= m.params@);
            }
            out.append("\n");
            proof {
                assert(out@ =~= help_text(cur));
            }
            i = i + 1;
        }
        proof {
            assert(self.modules@.take(n as int) =~= self.modules@);
        }
        out
    }
}

/// One concurrent worker the scheduler spawns: which module, which of its
/// variations, and how long to sleep between iterations.
#[derive(PartialEq, Eq, Structural, Clone, Copy)]
pub struct WorkerSpec {
    pub module: usize,
    pub variation: usize,
    pub cooldown_s: u64,
}

/// Duplicate a capability record, field for field.
pub fn dup_capabilities(c: &ModuleCapabilities) -> (r: ModuleCapabilities)
    ensures
        caps_equiv(r, *c),
{
    let triggers = match &c.triggers {
        Some(v) => Some(dup_strings(v)),
        None => None,
    };
    proof {
        if c.triggers is Some {
            assert(triggers->0@.map_values(|s: String| s@) =~= c.triggers->0@.map_values(
                |s: String| s@,
            ));
        }
    }
    ModuleCapabilities {
        triggers,
        catch_non_triggered: c.catch_non_triggered,
        catch_all: c.catch_all,
        send_message: c.send_message,
        read_message: c.read_message,
        resp_message: c.resp_message,
    }
}

/// Duplicate a vector of strings, value for value.
pub fn dup_strings(v: &Vec<String>) -> (r: Vec<String>)
    ensures
        r@.len() == v@.len(),
        forall|i: int| 0 <= i < v@.len() ==> (#[trigger] r@[i])@ == v@[i]@,
{
    let mut r: Vec<String> = Vec::new();
    let mut i: usize = 0;
    while i < v.len()
        invariant
            i <= v@.len(),
            r@.len() == i,
            forall|j: int| 0 <= j < i ==> (#[trigger] r@[j])@ == v@[j]@,
        decreases v@.len() - i,
    {
        r.push(v[i].clone());
        i = i + 1;
    }
    r
}

/// Duplicate a vector of plain integers.
pub fn dup_u64s(v: &Vec<u64>) -> (r: Vec<u64>)
    ensures
        r@ == v@,
{
    let mut r: Vec<u64> = Vec::new();
    let mut i: usize = 0;
    while i < v.len()
        invariant
            i <= v@.len(),
            r@ =~= v@.take(i as int),
        decreases v@.len() - i,
    {
        r.push(v[i]);
        i = i + 1;
    }
    proof {
        assert(r@ =~= v@);
    }
    r
}

} // verus!
