//! Self-documentation on demand: harvests every peer's declared triggers from
//! the registry snapshot and answers "/help" with the list of commands.

use crate::bot::Message;
use crate::bot::Module;
use crate::bot::ModuleCapabilities;
use crate::bot::ModuleInfo;
use crate::bot::ModuleParam;
use crate::bot::TriggerOutcome;
use crate::bot::trigger_texts;
use crate::strutil::str_eq;
use vstd::prelude::*;

verus! {

/// `txt` is a trigger that some module of the snapshot declares.
pub open spec fn is_declared_trigger(infos: Seq<ModuleInfo>, txt: Seq<char>) -> bool {
    exists|i: int, t: int|
        0 <= i < infos.len() && 0 <= t < trigger_texts(infos[i].capabilities).len() && #[trigger] trigger_texts(
            infos[i].capabilities,
        )[t] == txt
}

/// Some entry of `cmds` reads `txt`.
pub open spec fn has_text(cmds: Seq<String>, txt: Seq<char>) -> bool {
    exists|k: int| 0 <= k < cmds.len() && (#[trigger] cmds[k])@ == txt
}

/// No two entries read the same.
pub open spec fn unique_texts(cmds: Seq<String>) -> bool {
    forall|k1: int, k2: int| 0 <= k1 < k2 < cmds.len() ==> cmds[k1]@ != cmds[k2]@
}

/// The body of the help reply: one "- command" line per harvested command.
pub open spec fn help_lines(cmds: Seq<String>) -> Seq<char>
    decreases cmds.len(),
{
    if cmds.len() == 0 {
        Seq::empty()
    } else {
        help_lines(cmds.drop_last()) + "- "@ + cmds.last()@ + "\n"@
    }
}

/// Append `s` unless an entry with the same text is already there.
fn insert_unique(cmds: &mut Vec<String>, s: &String)
    ensures
        has_text(old(cmds)@, s@) ==> final(cmds)@ == old(cmds)@,
        !has_text(old(cmds)@, s@) ==> final(cmds)@ == old(cmds)@.push(*s),
{
    let n = cmds.len();
    let mut k: usize = 0;
    while k < n
        invariant
            n == cmds@.len(),
            k <= n,
            cmds@ == old(cmds)@,
            forall|j: int| 0 <= j < k ==> (#[trigger] cmds@[j])@ != s@,
        decreases n - k,
    {
        if str_eq(cmds[k].as_str(), s.as_str()) {
            return ;
        }
        k = k + 1;
    }
    cmds.push(s.clone());
}

/// The help module: commands harvested once, listed on "/help".
pub struct Help {
    /// Every declared trigger of every module, first occurrence first, no
    /// text twice.
    pub commands: Vec<String>,
}

impl Help {
    pub fn new() -> (h: Help)
        ensures
            h.commands@.len() == 0,
    {
        Help { commands: Vec::new() }
    }
}

impl Module for Help {
    fn name(&self) -> (r: &'static str)
        ensures
            r@ == "help"@,
    {
        "help"
    }

    fn params(&self) -> (r: Vec<ModuleParam>)
        ensures
            r@.len() == 0,
    {
        Vec::new()
    }

    /// One declared trigger: "/help".
    fn capabilities(&self) -> (c: ModuleCapabilities)
        ensures
            trigger_texts(c) == seq!["/help"@],
            !c.catch_non_triggered,
            !c.catch_all,
            !c.send_message,
            !c.read_message,
            !c.resp_message,
    {
        let mut triggers: Vec<String> = Vec::new();
        triggers.push(String::from_str("/help"));
        proof {
            assert(triggers@.map_values(|s: String| s@) =~= seq!["/help"@]);
        }
        ModuleCapabilities {
            triggers: Some(triggers),
            catch_non_triggered: false,
            catch_all: false,
            send_message: false,
            read_message: false,
            resp_message: false,
        }
    }

    fn variation_durations(&self) -> (r: Vec<u64>)
        ensures
            r@ == seq![100u64],
    {
        let mut r: Vec<u64> = Vec::new();
        r.push(100);
        proof {
            assert(r@ =~= seq![100u64]);
        }
        r
    }

    /// Harvest the declared triggers of every module of the snapshot: what
    /// was known stays, every declared trigger is present afterwards, each
    /// text once, and nothing else gets in.
    fn module_offering(&mut self, modules: &Vec<ModuleInfo>)
        ensures
            unique_texts(old(self).commands@) ==> unique_texts(final(self).commands@),
            forall|k: int|
                0 <= k < final(self).commands@.len() ==> has_text(
                    old(self).commands@,
                    (#[trigger] final(self).commands@[k])@,
                ) || is_declared_trigger(modules@, final(self).commands@[k]@),
            forall|i: int, t: int|
                0 <= i < modules@.len() && 0 <= t < trigger_texts(modules@[i].capabilities).len()
                    ==> has_text(
                    final(self).commands@,
                    #[trigger] trigger_texts(modules@[i].capabilities)[t],
                ),
            forall|txt: Seq<char>|
                has_text(old(self).commands@, txt) ==> has_text(final(self).commands@, txt),
    {
        let n = modules.len();
        let mut i: usize = 0;
        while i < n
            invariant
                n == modules@.len(),
                i <= n,
                unique_texts(old(self).commands@) ==> unique_texts(self.commands@),
                forall|k: int|
                    0 <= k < self.commands@.len() ==> has_text(
                        old(self).commands@,
                        (#[trigger] self.commands@[k])@,
                    ) || is_declared_trigger(modules@, self.commands@[k]@),
                forall|i2: int, t: int|
                    0 <= i2 < i && 0 <= t < trigger_texts(modules@[i2].capabilities).len()
                        ==> has_text(
                        self.commands@,
                        #[trigger] trigger_texts(modules@[i2].capabilities)[t],
                    ),
                forall|txt: Seq<char>|
                    has_text(old(self).commands@, txt) ==> has_text(self.commands@, txt),
            decreases n - i,
        {
            match &modules[i].capabilities.triggers {
                None => {
                    proof {
                        assert(trigger_texts(modules@[i as int].capabilities).len() == 0);
                    }
                },
                Some(v) => {
                    let m = v.len();
                    let mut t: usize = 0;
                    while t < m
                        invariant
                            n == modules@.len(),
                            i < n,
                            m == v@.len(),
                            t <= m,
                            modules@[i as int].capabilities.triggers matches Some(vv) && vv@ == v@,
                            trigger_texts(modules@[i as int].capabilities) == v@.map_values(
                                |s: String| s@,
                            ),
                            unique_texts(old(self).commands@) ==> unique_texts(self.commands@),
                            forall|k: int|
                                0 <= k < self.commands@.len() ==> has_text(
                                    old(self).commands@,
                                    (#[trigger] self.commands@[k])@,
                                ) || is_declared_trigger(modules@, self.commands@[k]@),
                            forall|i2: int, t2: int|
                                0 <= i2 < i && 0 <= t2 < trigger_texts(
                                    modules@[i2].capabilities,
                                ).len() ==> has_text(
                                    self.commands@,
                                    #[trigger] trigger_texts(modules@[i2].capabilities)[t2],
                                ),
                            forall|t2: int|
                                0 <= t2 < t ==> has_text(
                                    self.commands@,
                                    trigger_texts(modules@[i as int].capabilities)[t2],
                                ),
                            forall|txt: Seq<char>|
                                has_text(old(self).commands@, txt) ==> has_text(
                                    self.commands@,
                                    txt,
                                ),
                        decreases m - t,
                    {
                        let ghost before = self.commands@;
                        insert_unique(&mut self.commands, &v[t]);
                        proof {
                            assert(trigger_texts(modules@[i as int].capabilities)[t as int]
                                == v@[t as int]@);
                            if !has_text(before, v@[t as int]@) {
                                assert(self.commands@.last() == v@[t as int]);
                                assert forall|txt: Seq<char>| has_text(before, txt) implies has_text(
                                    self.commands@,
                                    txt,
                                ) by {
                                    let k = choose|k: int|
                                        0 <= k < before.len() && (#[trigger] before[k])@ == txt;
                                    assert((self.commands@[k])@ == txt);
                                }
                            }
                            assert(has_text(
                                self.commands@,
                                trigger_texts(modules@[i as int].capabilities)[t as int],
                            ));
                        }
                        t = t + 1;
                    }
                },
            }
            i = i + 1;
        }
    }

    fn run(&mut self, variation: usize) -> (r: Option<Vec<Message>>)
        ensures
            r is None,
    {
        None
    }

    /// The command list, as one reply: a header line, then one line per
    /// harvested command, in harvest order.
    fn trigger(&mut self, message: &str) -> (r: TriggerOutcome)
        ensures
            *final(self) == *old(self),
            r matches TriggerOutcome::Replies(v) && v@.len() == 1 && v@[0]@
                == "Available commands are:\n"@ + help_lines(old(self).commands@),
    {
        let mut out = String::from_str("Available commands are:\n");
        let n = self.commands.len();
        let mut k: usize = 0;
        while k < n
            invariant
                n == self.commands@.len(),
                k <= n,
                out@ == "Available commands are:\n"@ + help_lines(self.commands@.take(k as int)),
            decreases n - k,
        {
            let ghost pre = self.commands@.take(k as int);
            let ghost cur = self.commands@.take(k + 1);
            proof {
                assert(cur.drop_last() =~= pre);
                assert(cur.last() == self.commands@[k as int]);
            }
            out.append("- ");
            out.append(self.commands[k].as_str());
            out.append("\n");
            proof {
                assert(out@ =~= "Available commands are:\n"@ + help_lines(cur));
            }
            k = k + 1;
        }
        proof {
            assert(self.commands@.take(n as int) =~= self.commands@);
        }
        let mut v: Vec<String> = Vec::new();
        v.push(out);
        TriggerOutcome::Replies(v)
    }
}

} // verus!
