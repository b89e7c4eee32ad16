//! The trigger router: a module that, on its own cadence, takes the unread
//! messages of every chat-capable module and dispatches them in three tiers —
//! catch-all modules always, trigger-declaring modules on substring match,
//! and catch-non-triggered modules only when no trigger matched anywhere.

use crate::bot::Bot;
use crate::bot::Message;
use crate::bot::MessageCtx;
use crate::bot::Module;
use crate::bot::ModuleCapabilities;
use crate::bot::ModuleData;
use crate::bot::ModuleInfo;
use crate::bot::ModuleParam;
use crate::bot::TriggerOutcome;
use crate::bot::caps_equiv;
use crate::bot::caps_match;
use crate::bot::is_chat_capable;
use crate::bot::is_trigger_capable;
use crate::bot::trigger_texts;
use crate::strutil::contains_seq;
use crate::strutil::contains_str;
use crate::strutil::str_eq;
use vstd::prelude::*;

verus! {

/// What the first dispatch tier owes one candidate module: one invocation if
/// it catches everything, and one if the message contains one of its declared
/// triggers.
pub open spec fn entry_pass(caps: Seq<ModuleCapabilities>, c: usize, text: Seq<char>) -> Seq<
    usize,
> {
    (if caps[c as int].catch_all {
        seq![c]
    } else {
        Seq::empty()
    }) + (if caps_match(caps[c as int], text) {
        seq![c]
    } else {
        Seq::empty()
    })
}

/// First tier over the candidate list in order: catch-all and trigger-matched
/// invocations, per candidate.
pub open spec fn tier_pass(caps: Seq<ModuleCapabilities>, cands: Seq<usize>, text: Seq<char>) -> Seq<
    usize,
>
    decreases cands.len(),
{
    if cands.len() == 0 {
        Seq::empty()
    } else {
        tier_pass(caps, cands.drop_last(), text) + entry_pass(caps, cands.last(), text)
    }
}

/// Some candidate's declared trigger is contained in the message.
pub open spec fn any_match(caps: Seq<ModuleCapabilities>, cands: Seq<usize>, text: Seq<char>) -> bool {
    exists|k: int| 0 <= k < cands.len() && caps_match(caps[cands[k] as int], text)
}

/// Fallback tier: every catch-non-triggered candidate, in order.
pub open spec fn fallback_pass(
    caps: Seq<ModuleCapabilities>,
    cands: Seq<usize>,
    text: Seq<char>,
) -> Seq<usize>
    decreases cands.len(),
{
    if cands.len() == 0 {
        Seq::empty()
    } else {
        fallback_pass(caps, cands.drop_last(), text) + (if caps[
            cands.last() as int
        ].catch_non_triggered {
            seq![cands.last()]
        } else {
            Seq::empty()
        })
    }
}

/// The whole dispatch plan for one message: the first tier always, the
/// fallback tier exactly when no candidate matched by trigger — "matched
/// trigger" and "fallback" exclude each other, while catch-all fires
/// independently of that decision.
pub open spec fn spec_dispatch_plan(
    caps: Seq<ModuleCapabilities>,
    cands: Seq<usize>,
    text: Seq<char>,
) -> Seq<usize> {
    tier_pass(caps, cands, text) + if any_match(caps, cands, text) {
        Seq::empty()
    } else {
        fallback_pass(caps, cands, text)
    }
}

/// The capability projection of a registry.
pub open spec fn caps_of<M: Module>(mods: Seq<ModuleData<M>>) -> Seq<ModuleCapabilities> {
    mods.map_values(|d: ModuleData<M>| d.capabilities)
}

/// The capability projection of a snapshot.
pub open spec fn caps_of_infos(infos: Seq<ModuleInfo>) -> Seq<ModuleCapabilities> {
    infos.map_values(|inf: ModuleInfo| inf.capabilities)
}

/// The message text contains one of the module's declared triggers.
pub fn caps_match_exec(c: &ModuleCapabilities, text: &str) -> (r: bool)
    ensures
        r == caps_match(*c, text@),
{
    match &c.triggers {
        None => {
            proof {
                assert(trigger_texts(*c).len() == 0);
            }
            false
        },
        Some(v) => {
            let mut t: usize = 0;
            while t < v.len()
                invariant
                    t <= v@.len(),
                    trigger_texts(*c) == v@.map_values(|s: String| s@),
                    forall|j: int| 0 <= j < t ==> !contains_seq(text@, trigger_texts(*c)[j]),
                decreases v@.len() - t,
            {
                if contains_str(text, v[t].as_str()) {
                    proof {
                        assert(trigger_texts(*c)[t as int] == v@[t as int]@);
                    }
                    return true;
                }
                t = t + 1;
            }
            false
        },
    }
}

/// Membership in the plan, per tier: a candidate is invoked exactly when it
/// catches everything, or one of its triggers is contained in the message,
/// or nothing matched anywhere and it catches non-triggered messages.
pub proof fn lemma_dispatch_tiering(
    caps: Seq<ModuleCapabilities>,
    cands: Seq<usize>,
    text: Seq<char>,
    c: usize,
)
    requires
        cands.contains(c),
    ensures
        spec_dispatch_plan(caps, cands, text).contains(c) <==> (caps[c as int].catch_all
            || caps_match(caps[c as int], text) || (!any_match(caps, cands, text) && caps[
            c as int
        ].catch_non_triggered)),
{
    lemma_tier_pass_membership(caps, cands, text, c);
    lemma_fallback_membership(caps, cands, text, c);
    let plan = spec_dispatch_plan(caps, cands, text);
    let first = tier_pass(caps, cands, text);
    let fb = fallback_pass(caps, cands, text);
    assert forall|x: usize| #[trigger] plan.contains(x) implies first.contains(x) || (!any_match(
        caps,
        cands,
        text,
    ) && fb.contains(x)) by {
        let k = choose|k: int| 0 <= k < plan.len() && plan[k] == x;
        if k < first.len() {
            assert(first[k] == x);
        } else {
            assert(fb[k - first.len()] == x);
        }
    }
    if first.contains(c) {
        let k = choose|k: int| 0 <= k < first.len() && first[k] == c;
        assert(plan[k] == c);
    }
    if !any_match(caps, cands, text) && fb.contains(c) {
        let k = choose|k: int| 0 <= k < fb.len() && fb[k] == c;
        assert(plan[first.len() + k] == c);
    }
}

/// Routing is a function of what the capability records say: two tables that
/// say the same thing, entry for entry, yield the same plan for every message
/// — so the router may work off the distributed registry snapshot, and the
/// live registry agrees.
pub proof fn lemma_dispatch_plan_respects_equiv(
    a: Seq<ModuleCapabilities>,
    b: Seq<ModuleCapabilities>,
    cands: Seq<usize>,
    text: Seq<char>,
)
    requires
        a.len() == b.len(),
        forall|i: int| 0 <= i < a.len() ==> caps_equiv(#[trigger] a[i], b[i]),
        forall|k: int| 0 <= k < cands.len() ==> (#[trigger] cands[k]) < a.len(),
    ensures
        spec_dispatch_plan(a, cands, text) == spec_dispatch_plan(b, cands, text),
{
    lemma_passes_respect_equiv(a, b, cands, text);
}

proof fn lemma_passes_respect_equiv(
    a: Seq<ModuleCapabilities>,
    b: Seq<ModuleCapabilities>,
    cands: Seq<usize>,
    text: Seq<char>,
)
    requires
        a.len() == b.len(),
        forall|i: int| 0 <= i < a.len() ==> caps_equiv(#[trigger] a[i], b[i]),
        forall|k: int| 0 <= k < cands.len() ==> (#[trigger] cands[k]) < a.len(),
    ensures
        tier_pass(a, cands, text) == tier_pass(b, cands, text),
        fallback_pass(a, cands, text) == fallback_pass(b, cands, text),
        any_match(a, cands, text) == any_match(b, cands, text),
    decreases cands.len(),
{
    if cands.len() == 0 {
        assert(!any_match(a, cands, text));
        assert(!any_match(b, cands, text));
    } else {
        let pre = cands.drop_last();
        let c = cands.last();
        assert(forall|k: int| 0 <= k < pre.len() ==> (#[trigger] pre[k]) < a.len());
        lemma_passes_respect_equiv(a, b, pre, text);
        assert(caps_equiv(a[c as int], b[c as int]));
        assert(caps_match(a[c as int], text) == caps_match(b[c as int], text));
        assert(entry_pass(a, c, text) == entry_pass(b, c, text));
        if any_match(a, cands, text) {
            let k = choose|k: int| 0 <= k < cands.len() && caps_match(a[cands[k] as int], text);
            assert(caps_equiv(a[cands[k] as int], b[cands[k] as int]));
            assert(caps_match(b[cands[k] as int], text));
            assert(any_match(b, cands, text));
        }
        if any_match(b, cands, text) {
            let k = choose|k: int| 0 <= k < cands.len() && caps_match(b[cands[k] as int], text);
            assert(caps_equiv(a[cands[k] as int], b[cands[k] as int]));
            assert(caps_match(a[cands[k] as int], text));
            assert(any_match(a, cands, text));
        }
    }
}

/// A candidate stands in the first tier exactly when it catches everything or
/// one of its triggers matches; nothing else stands there.
proof fn lemma_tier_pass_membership(
    caps: Seq<ModuleCapabilities>,
    cands: Seq<usize>,
    text: Seq<char>,
    c: usize,
)
    ensures
        cands.contains(c) && (caps[c as int].catch_all || caps_match(caps[c as int], text))
            ==> tier_pass(caps, cands, text).contains(c),
        tier_pass(caps, cands, text).contains(c) ==> cands.contains(c) && (caps[
            c as int
        ].catch_all || caps_match(caps[c as int], text)),
    decreases cands.len(),
{
    if cands.len() > 0 {
        let pre = cands.drop_last();
        let last = cands.last();
        lemma_tier_pass_membership(caps, pre, text, c);
        let t0 = tier_pass(caps, pre, text);
        let e = entry_pass(caps, last, text);
        let t = tier_pass(caps, cands, text);
        assert(t == t0 + e);
        // membership in a concatenation, both ways
        assert forall|x: usize| #[trigger] t.contains(x) implies t0.contains(x) || e.contains(
            x,
        ) by {
            let k = choose|k: int| 0 <= k < t.len() && t[k] == x;
            if k < t0.len() {
                assert(t0[k] == x);
            } else {
                assert(e[k - t0.len()] == x);
            }
        }
        assert forall|x: usize| t0.contains(x) || e.contains(x) implies #[trigger] t.contains(
            x,
        ) by {
            if t0.contains(x) {
                let k = choose|k: int| 0 <= k < t0.len() && t0[k] == x;
                assert(t[k] == x);
            } else {
                let k = choose|k: int| 0 <= k < e.len() && e[k] == x;
                assert(t[t0.len() + k] == x);
            }
        }
        if e.contains(c) {
            assert(c == last);
        }
        if cands.contains(c) {
            let k = choose|k: int| 0 <= k < cands.len() && cands[k] == c;
            if k < cands.len() - 1 {
                assert(pre[k] == c);
                assert(pre.contains(c));
            }
        }
        if pre.contains(c) {
            let k = choose|k: int| 0 <= k < pre.len() && pre[k] == c;
            assert(cands[k] == c);
        }
        if c == last && (caps[c as int].catch_all || caps_match(caps[c as int], text)) {
            assert(e.contains(c)) by {
                if caps[c as int].catch_all {
                    assert(e[0] == c);
                } else {
                    assert(e.last() == c);
                }
            }
        }
    }
}

/// A candidate stands in the fallback tier exactly when it catches
/// non-triggered messages.
proof fn lemma_fallback_membership(
    caps: Seq<ModuleCapabilities>,
    cands: Seq<usize>,
    text: Seq<char>,
    c: usize,
)
    ensures
        cands.contains(c) && caps[c as int].catch_non_triggered ==> fallback_pass(
            caps,
            cands,
            text,
        ).contains(c),
        fallback_pass(caps, cands, text).contains(c) ==> cands.contains(c) && caps[
            c as int
        ].catch_non_triggered,
    decreases cands.len(),
{
    if cands.len() > 0 {
        let pre = cands.drop_last();
        let last = cands.last();
        lemma_fallback_membership(caps, pre, text, c);
        let t0 = fallback_pass(caps, pre, text);
        let e: Seq<usize> = if caps[last as int].catch_non_triggered {
            seq![last]
        } else {
            Seq::empty()
        };
        let t = fallback_pass(caps, cands, text);
        assert(t == t0 + e);
        assert forall|x: usize| #[trigger] t.contains(x) implies t0.contains(x) || e.contains(
            x,
        ) by {
            let k = choose|k: int| 0 <= k < t.len() && t[k] == x;
            if k < t0.len() {
                assert(t0[k] == x);
            } else {
                assert(e[k - t0.len()] == x);
            }
        }
        assert forall|x: usize| t0.contains(x) || e.contains(x) implies #[trigger] t.contains(
            x,
        ) by {
            if t0.contains(x) {
                let k = choose|k: int| 0 <= k < t0.len() && t0[k] == x;
                assert(t[k] == x);
            } else {
                let k = choose|k: int| 0 <= k < e.len() && e[k] == x;
                assert(t[t0.len() + k] == x);
            }
        }
        if cands.contains(c) {
            let k = choose|k: int| 0 <= k < cands.len() && cands[k] == c;
            if k < cands.len() - 1 {
                assert(pre[k] == c);
                assert(pre.contains(c));
            }
        }
        if pre.contains(c) {
            let k = choose|k: int| 0 <= k < pre.len() && pre[k] == c;
            assert(cands[k] == c);
        }
        if c == last && caps[c as int].catch_non_triggered {
            assert(e[0] == c);
            assert(e.contains(c));
        }
    }
}

/// Compute the dispatch plan for one message against a registry snapshot:
/// which candidate modules to invoke, in evaluation order, with the tier
/// policy of `spec_dispatch_plan`. The host invokes exactly these.
pub fn dispatch_plan(infos: &Vec<ModuleInfo>, cands: &Vec<usize>, text: &str) -> (plan: Vec<usize>)
    requires
        forall|k: int| 0 <= k < cands@.len() ==> (#[trigger] cands@[k]) < infos@.len(),
    ensures
        plan@ == spec_dispatch_plan(caps_of_infos(infos@), cands@, text@),
{
    let ghost caps = caps_of_infos(infos@);
    let mut plan: Vec<usize> = Vec::new();
    let mut matched = false;
    let n = cands.len();
    let mut i: usize = 0;
    while i < n
        invariant
            n == cands@.len(),
            i <= n,
            caps == caps_of_infos(infos@),
            forall|k: int| 0 <= k < n ==> (#[trigger] cands@[k]) < infos@.len(),
            plan@ == tier_pass(caps, cands@.take(i as int), text@),
            matched == any_match(caps, cands@.take(i as int), text@),
        decreases n - i,
    {
        let c = cands[i];
        let ghost pre = cands@.take(i as int);
        let ghost cur = cands@.take(i + 1);
        proof {
            assert(cur.drop_last() =~= pre);
            assert(cur.last() == cands@[i as int]);
        }
        if infos[c].capabilities.catch_all {
            plan.push(c);
        }
        if caps_match_exec(&infos[c].capabilities, text) {
            plan.push(c);
            matched = true;
            proof {
                assert(cur[i as int] == c);
            }
        } else {
            proof {
                assert forall|k: int|
                    0 <= k < cur.len() && caps_match(caps[cur[k] as int], text@) implies k
                    < pre.len() && caps_match(caps[pre[k] as int], text@) by {
                    assert(cur[k] == pre[k]);
                }
            }
        }
        proof {
            assert(plan@ =~= tier_pass(caps, cur, text@));
        }
        i = i + 1;
    }
    proof {
        assert(cands@.take(n as int) =~= cands@);
    }
    if matched {
        return plan;
    }
    let mut i: usize = 0;
    while i < n
        invariant
            n == cands@.len(),
            i <= n,
            caps == caps_of_infos(infos@),
            forall|k: int| 0 <= k < n ==> (#[trigger] cands@[k]) < infos@.len(),
            !any_match(caps, cands@, text@),
            plan@ == tier_pass(caps, cands@, text@) + fallback_pass(
                caps,
                cands@.take(i as int),
                text@,
            ),
        decreases n - i,
    {
        let c = cands[i];
        let ghost pre = cands@.take(i as int);
        let ghost cur = cands@.take(i + 1);
        proof {
            assert(cur.drop_last() =~= pre);
            assert(cur.last() == cands@[i as int]);
        }
        if infos[c].capabilities.catch_non_triggered {
            plan.push(c);
        }
        proof {
            assert(plan@ =~= tier_pass(caps, cands@, text@) + fallback_pass(caps, cur, text@));
        }
        i = i + 1;
    }
    proof {
        assert(cands@.take(n as int) =~= cands@);
    }
    plan
}

/// A peer the router dispatches to: any module but the router itself that
/// declares triggers, catches everything, or catches non-triggered messages.
pub open spec fn trigger_candidate(inf: ModuleInfo) -> bool {
    inf.name@ != "triggers"@ && is_trigger_capable(inf.capabilities)
}

/// A peer the router reads messages from and replies through.
pub open spec fn chat_candidate(inf: ModuleInfo) -> bool {
    inf.name@ != "triggers"@ && is_chat_capable(inf.capabilities)
}

/// The router's two filtered views list exactly the trigger candidates and
/// the chat candidates of the snapshot, each in registry order.
pub open spec fn router_views_ok(t: Triggers, infos: Seq<ModuleInfo>) -> bool {
    &&& forall|k: int|
        0 <= k < t.trigger_modules@.len() ==> (#[trigger] t.trigger_modules@[k]) < infos.len()
            && trigger_candidate(infos[t.trigger_modules@[k] as int])
    &&& forall|i: int|
        0 <= i < infos.len() && trigger_candidate(#[trigger] infos[i])
            ==> t.trigger_modules@.contains(i as usize)
    &&& forall|k1: int, k2: int|
        0 <= k1 < k2 < t.trigger_modules@.len() ==> t.trigger_modules@[k1]
            < t.trigger_modules@[k2]
    &&& forall|k: int|
        0 <= k < t.chat_modules@.len() ==> (#[trigger] t.chat_modules@[k]) < infos.len()
            && chat_candidate(infos[t.chat_modules@[k] as int])
    &&& forall|i: int|
        0 <= i < infos.len() && chat_candidate(#[trigger] infos[i]) ==> t.chat_modules@.contains(
            i as usize,
        )
    &&& forall|k1: int, k2: int|
        0 <= k1 < k2 < t.chat_modules@.len() ==> t.chat_modules@[k1] < t.chat_modules@[k2]
}

/// The trigger router. Its two views of the registry are computed once, when
/// the snapshot is distributed.
pub struct Triggers {
    /// Indices of the trigger candidates, in registry order.
    pub trigger_modules: Vec<usize>,
    /// Indices of the chat candidates, in registry order.
    pub chat_modules: Vec<usize>,
}

impl Triggers {
    /// A router with empty views; they fill when the snapshot arrives.
    pub fn new() -> (t: Triggers)
        ensures
            t.trigger_modules@.len() == 0,
            t.chat_modules@.len() == 0,
    {
        Triggers { trigger_modules: Vec::new(), chat_modules: Vec::new() }
    }
}

fn is_trigger_capable_exec(c: &ModuleCapabilities) -> (r: bool)
    ensures
        r == is_trigger_capable(*c),
{
    let declared = match &c.triggers {
        Some(v) => v.len() > 0,
        None => false,
    };
    declared || c.catch_non_triggered || c.catch_all
}

/// Indices of the snapshot entries satisfying a candidate test, in order.
/// (One instantiation per view; the test is baked in by the caller.)
fn filter_candidates(modules: &Vec<ModuleInfo>, chat: bool) -> (r: Vec<usize>)
    ensures
        forall|k: int|
            0 <= k < r@.len() ==> (#[trigger] r@[k]) < modules@.len() && (if chat {
                chat_candidate(modules@[r@[k] as int])
            } else {
                trigger_candidate(modules@[r@[k] as int])
            }),
        forall|i: int|
            0 <= i < modules@.len() && (if chat {
                chat_candidate(#[trigger] modules@[i])
            } else {
                trigger_candidate(#[trigger] modules@[i])
            }) ==> r@.contains(i as usize),
        forall|k1: int, k2: int| 0 <= k1 < k2 < r@.len() ==> r@[k1] < r@[k2],
{
    let mut r: Vec<usize> = Vec::new();
    let mut i: usize = 0;
    while i < modules.len()
        invariant
            i <= modules@.len(),
            forall|k: int|
                0 <= k < r@.len() ==> (#[trigger] r@[k]) < i && (if chat {
                    chat_candidate(modules@[r@[k] as int])
                } else {
                    trigger_candidate(modules@[r@[k] as int])
                }),
            forall|j: int|
                0 <= j < i && (if chat {
                    chat_candidate(#[trigger] modules@[j])
                } else {
                    trigger_candidate(#[trigger] modules@[j])
                }) ==> r@.contains(j as usize),
            forall|k1: int, k2: int| 0 <= k1 < k2 < r@.len() ==> r@[k1] < r@[k2],
        decreases modules@.len() - i,
    {
        let m = &modules[i];
        let not_self = !str_eq(m.name.as_str(), "triggers");
        let capable = if chat {
            m.capabilities.read_message || m.capabilities.resp_message
        } else {
            is_trigger_capable_exec(&m.capabilities)
        };
        if not_self && capable {
            let ghost old_r = r@;
            r.push(i);
            proof {
                assert forall|x: usize| old_r.contains(x) implies r@.contains(x) by {
                    let k = choose|k: int| 0 <= k < old_r.len() && old_r[k] == x;
                    assert(r@[k] == x);
                }
                assert(r@[r@.len() - 1] == i);
            }
        }
        i = i + 1;
    }
    r
}

impl Module for Triggers {
    fn name(&self) -> (r: &'static str)
        ensures
            r@ == "triggers"@,
    {
        "triggers"
    }

    fn params(&self) -> (r: Vec<ModuleParam>)
        ensures
            r@.len() == 0,
    {
        Vec::new()
    }

    fn capabilities(&self) -> (c: ModuleCapabilities)
        ensures
            !is_trigger_capable(c),
            !is_chat_capable(c),
    {
        ModuleCapabilities::default()
    }

    fn variation_durations(&self) -> (r: Vec<u64>)
        ensures
            r@ == seq![10u64],
    {
        let mut r: Vec<u64> = Vec::new();
        r.push(10);
        proof {
            assert(r@ =~= seq![10u64]);
        }
        r
    }

    /// Compute the two filtered views of the registry, once.
    fn module_offering(&mut self, modules: &Vec<ModuleInfo>)
        ensures
            router_views_ok(*final(self), modules@),
    {
        self.trigger_modules = filter_candidates(modules, false);
        self.chat_modules = filter_candidates(modules, true);
    }

    /// The router's own cadence work is driven by the host, which owns the
    /// chat transports: it pulls their unread messages and hands each one to
    /// `process_message`.
    fn run(&mut self, variation: usize) -> (r: Option<Vec<Message>>)
        ensures
            r is None,
    {
        None
    }

    fn trigger(&mut self, message: &str) -> (r: TriggerOutcome)
        ensures
            r is Ignored,
    {
        TriggerOutcome::Ignored
    }
}

/// One performed invocation: which module was dispatched and what its
/// `trigger` yielded.
pub struct Dispatch {
    pub module: usize,
    pub outcome: TriggerOutcome,
}

/// The modules a dispatch record list names, in order.
pub open spec fn dispatched_modules(out: Seq<Dispatch>) -> Seq<usize> {
    out.map_values(|d: Dispatch| d.module)
}

impl Triggers {
    /// Dispatch one incoming message: invoke exactly the modules of the
    /// dispatch plan, in plan order, and hand back what each invocation
    /// yielded. Only the invoked modules themselves may change; every
    /// captured descriptor stays as registered.
    pub fn process_message<M: Module>(&self, bot: &mut Bot<M>, message: &MessageCtx) -> (out: Vec<
        Dispatch,
    >)
        requires
            forall|k: int|
                0 <= k < self.trigger_modules@.len() ==> (#[trigger] self.trigger_modules@[k])
                    < old(bot).modules@.len(),
        ensures
            final(bot).modules@.len() == old(bot).modules@.len(),
            forall|i: int|
                0 <= i < old(bot).modules@.len() ==> {
                    &&& (#[trigger] final(bot).modules@[i]).name == old(bot).modules@[i].name
                    &&& final(bot).modules@[i].capabilities == old(bot).modules@[i].capabilities
                    &&& final(bot).modules@[i].variation_durations == old(
                        bot,
                    ).modules@[i].variation_durations
                    &&& final(bot).modules@[i].params == old(bot).modules@[i].params
                },
            dispatched_modules(out@) == spec_dispatch_plan(
                caps_of(old(bot).modules@),
                self.trigger_modules@,
                message.content@,
            ),
    {
        let ghost caps = caps_of(old(bot).modules@);
        let cands = &self.trigger_modules;
        let n = cands.len();
        let mut out: Vec<Dispatch> = Vec::new();
        let mut matched = false;
        let mut i: usize = 0;
        while i < n
            invariant
                n == cands@.len(),
                i <= n,
                caps == caps_of(old(bot).modules@),
                forall|k: int| 0 <= k < n ==> (#[trigger] cands@[k]) < old(bot).modules@.len(),
                bot.modules@.len() == old(bot).modules@.len(),
                forall|j: int|
                    0 <= j < old(bot).modules@.len() ==> {
                        &&& (#[trigger] bot.modules@[j]).name == old(bot).modules@[j].name
                        &&& bot.modules@[j].capabilities == old(bot).modules@[j].capabilities
                        &&& bot.modules@[j].variation_durations == old(
                            bot,
                        ).modules@[j].variation_durations
                        &&& bot.modules@[j].params == old(bot).modules@[j].params
                    },
                dispatched_modules(out@) == tier_pass(caps, cands@.take(i as int), message.content@),
                matched == any_match(caps, cands@.take(i as int), message.content@),
            decreases n - i,
        {
            let c = cands[i];
            let ghost pre = cands@.take(i as int);
            let ghost cur = cands@.take(i + 1);
            proof {
                assert(cur.drop_last() =~= pre);
                assert(cur.last() == cands@[i as int]);
                assert(bot.modules@[c as int].capabilities == caps[c as int]);
            }
            if bot.modules[c].capabilities.catch_all {
                let d = &mut bot.modules[c];
                let outcome = d.module.trigger(message.content.as_str());
                out.push(Dispatch { module: c, outcome });
            }
            let is_match = caps_match_exec(&bot.modules[c].capabilities, message.content.as_str());
            if is_match {
                let d = &mut bot.modules[c];
                let outcome = d.module.trigger(message.content.as_str());
                out.push(Dispatch { module: c, outcome });
                matched = true;
                proof {
                    assert(cur[i as int] == c);
                }
            } else {
                proof {
                    assert forall|k: int|
                        0 <= k < cur.len() && caps_match(caps[cur[k] as int], message.content@) implies k
                        < pre.len() && caps_match(caps[pre[k] as int], message.content@) by {
                        assert(cur[k] == pre[k]);
                    }
                }
            }
            proof {
                assert(dispatched_modules(out@) =~= tier_pass(caps, cur, message.content@));
            }
            i = i + 1;
        }
        proof {
            assert(cands@.take(n as int) =~= cands@);
        }
        if matched {
            return out;
        }
        let mut i: usize = 0;
        while i < n
            invariant
                n == cands@.len(),
                i <= n,
                caps == caps_of(old(bot).modules@),
                forall|k: int| 0 <= k < n ==> (#[trigger] cands@[k]) < old(bot).modules@.len(),
                bot.modules@.len() == old(bot).modules@.len(),
                forall|j: int|
                    0 <= j < old(bot).modules@.len() ==> {
                        &&& (#[trigger] bot.modules@[j]).name == old(bot).modules@[j].name
                        &&& bot.modules@[j].capabilities == old(bot).modules@[j].capabilities
                        &&& bot.modules@[j].variation_durations == old(
                            bot,
                        ).modules@[j].variation_durations
                        &&& bot.modules@[j].params == old(bot).modules@[j].params
                    },
                !any_match(caps, cands@, message.content@),
                dispatched_modules(out@) == tier_pass(caps, cands@, message.content@)
                    + fallback_pass(caps, cands@.take(i as int), message.content@),
            decreases n - i,
        {
            let c = cands[i];
            let ghost pre = cands@.take(i as int);
            let ghost cur = cands@.take(i + 1);
            proof {
                assert(cur.drop_last() =~= pre);
                assert(cur.last() == cands@[i as int]);
                assert(bot.modules@[c as int].capabilities == caps[c as int]);
            }
            let ghost old_out = out@;
            if bot.modules[c].capabilities.catch_non_triggered {
                let d = &mut bot.modules[c];
                let outcome = d.module.trigger(message.content.as_str());
                out.push(Dispatch { module: c, outcome });
                proof {
                    assert(dispatched_modules(out@) =~= dispatched_modules(old_out).push(c));
                }
            }
            proof {
                let ghost e: Seq<usize> = if caps[c as int].catch_non_triggered {
                    seq![c]
                } else {
                    Seq::empty()
                };
                assert(fallback_pass(caps, cur, message.content@) == fallback_pass(
                    caps,
                    pre,
                    message.content@,
                ) + e);
                assert(dispatched_modules(out@) =~= tier_pass(caps, cands@, message.content@)
                    + fallback_pass(caps, cur, message.content@));
            }
            i = i + 1;
        }
        proof {
            assert(cands@.take(n as int) =~= cands@);
        }
        out
    }
}

} // verus!
