//! Dice rolling on demand: a message containing "/roll" is parsed as
//! "/roll NdM" (N dice of M faces, both within 1..=1000), the dice are drawn
//! at random, and the outcome is rendered back.

use crate::bot::Message;
use crate::bot::Module;
use crate::bot::ModuleCapabilities;
use crate::bot::ModuleInfo;
use crate::bot::ModuleParam;
use crate::bot::TriggerOutcome;
use crate::bot::trigger_texts;
use crate::rng::rand_range;
use crate::strutil::contains_seq;
use crate::strutil::find_str;
use crate::strutil::match_at;
use crate::strutil::parse_u64;
use crate::strutil::parse_u64_spec;
use crate::strutil::spec_dec;
use crate::strutil::u64_to_string;
use vstd::prelude::*;

verus! {

/// `k` is the first position at which `pat` occurs in `text`.
pub open spec fn is_first_match(text: Seq<char>, pat: Seq<char>, k: int) -> bool {
    match_at(text, pat, k) && forall|k2: int| 0 <= k2 < k ==> !match_at(text, pat, k2)
}

proof fn lemma_first_match_unique(text: Seq<char>, pat: Seq<char>, k1: int, k2: int)
    requires
        is_first_match(text, pat, k1),
        is_first_match(text, pat, k2),
    ensures
        k1 == k2,
{
}

/// Everything after the first occurrence of `pat` in `text`, if any.
pub open spec fn after_first(text: Seq<char>, pat: Seq<char>) -> Option<Seq<char>> {
    if contains_seq(text, pat) {
        let k = choose|k: int| is_first_match(text, pat, k);
        Some(text.subrange(k + pat.len(), text.len() as int))
    } else {
        None
    }
}

/// Everything before the first occurrence of `pat`, or the whole of `text`
/// when `pat` does not occur.
pub open spec fn up_to_first(text: Seq<char>, pat: Seq<char>) -> Seq<char> {
    if contains_seq(text, pat) {
        let k = choose|k: int| is_first_match(text, pat, k);
        text.subrange(0, k)
    } else {
        text
    }
}

proof fn lemma_exists_first_match(text: Seq<char>, pat: Seq<char>, k0: int)
    requires
        match_at(text, pat, k0),
    ensures
        exists|k: int| is_first_match(text, pat, k),
    decreases k0,
{
    if forall|k2: int| 0 <= k2 < k0 ==> !match_at(text, pat, k2) {
        assert(is_first_match(text, pat, k0));
    } else {
        let k2 = choose|k2: int| 0 <= k2 < k0 && match_at(text, pat, k2);
        lemma_exists_first_match(text, pat, k2);
    }
}

proof fn lemma_after_first_is(text: Seq<char>, pat: Seq<char>, k: int)
    requires
        is_first_match(text, pat, k),
    ensures
        after_first(text, pat) == Some(text.subrange(k + pat.len(), text.len() as int)),
        up_to_first(text, pat) == text.subrange(0, k),
{
    assert(contains_seq(text, pat));
    let kc = choose|kc: int| is_first_match(text, pat, kc);
    lemma_exists_first_match(text, pat, k);
    lemma_first_match_unique(text, pat, k, kc);
}

/// What a "/roll" request asks for: the token after "/roll" and the next
/// space, split at its first "d", both parts read as decimal numbers, each
/// within 1..=1000 — and nothing else.
pub open spec fn spec_roll_request(req: Seq<char>) -> Option<(u64, u64)> {
    match after_first(req, "/roll"@) {
        None => None,
        Some(a) => {
            if !contains_seq(a, " "@) {
                None
            } else {
                let tok = up_to_first(after_first(a, " "@)->0, " "@);
                if !contains_seq(tok, "d"@) {
                    None
                } else {
                    let cnt_txt = up_to_first(tok, "d"@);
                    let faces_txt = up_to_first(after_first(tok, "d"@)->0, "d"@);
                    match (parse_u64_spec(cnt_txt), parse_u64_spec(faces_txt)) {
                        (Some(c), Some(f)) => {
                            if 1 <= c <= 1000 && 1 <= f <= 1000 {
                                Some((c, f))
                            } else {
                                None
                            }
                        },
                        _ => None,
                    }
                }
            }
        },
    }
}

/// A valid draw: one die per count, each within 1..=faces.
pub open spec fn rolls_ok(rolls: Seq<u64>, count: u64, faces: u64) -> bool {
    rolls.len() == count && forall|j: int| 0 <= j < rolls.len() ==> 1 <= #[trigger] rolls[j] <= faces
}

/// Total of a draw.
pub open spec fn sum_rolls(rolls: Seq<u64>) -> nat
    decreases rolls.len(),
{
    if rolls.len() == 0 {
        0
    } else {
        sum_rolls(rolls.drop_last()) + rolls.last() as nat
    }
}

/// The individual dice joined by '+'.
pub open spec fn joined(rolls: Seq<u64>) -> Seq<char>
    decreases rolls.len(),
{
    if rolls.len() == 0 {
        Seq::empty()
    } else if rolls.len() == 1 {
        spec_dec(rolls[0] as nat)
    } else {
        joined(rolls.drop_last()) + "+"@ + spec_dec(rolls.last() as nat)
    }
}

/// The reply for a parsed request and a draw: the dice are listed only for a
/// count strictly between 1 and 100.
pub open spec fn spec_roll_message(count: u64, faces: u64, rolls: Seq<u64>) -> Seq<char> {
    "roll "@ + spec_dec(count as nat) + "d"@ + spec_dec(faces as nat) + ": "@ + (if 1 < count
        < 100 {
        "("@ + joined(rolls) + ") = "@ + spec_dec(sum_rolls(rolls))
    } else {
        spec_dec(sum_rolls(rolls))
    })
}

/// Parse a "/roll" request, exactly as `spec_roll_request` reads it.
fn parse_request(req: &str) -> (r: Option<(u64, u64)>)
    ensures
        r == spec_roll_request(req@),
{
    let n = req.unicode_len();
    let k = match find_str(req, "/roll") {
        None => {
            return None;
        },
        Some(k) => k,
    };
    proof {
        reveal_strlit("/roll");
        lemma_after_first_is(req@, "/roll"@, k as int);
    }
    let a = req.substring_char(k + 5, n);
    let s1 = match find_str(a, " ") {
        None => {
            return None;
        },
        Some(s1) => s1,
    };
    proof {
        reveal_strlit(" ");
        lemma_after_first_is(a@, " "@, s1 as int);
    }
    let a_len = a.unicode_len();
    let rest = a.substring_char(s1 + 1, a_len);
    let tok = match find_str(rest, " ") {
        None => rest,
        Some(s2) => {
            proof {
                lemma_after_first_is(rest@, " "@, s2 as int);
            }
            rest.substring_char(0, s2)
        },
    };
    let d1 = match find_str(tok, "d") {
        None => {
            return None;
        },
        Some(d1) => d1,
    };
    proof {
        reveal_strlit("d");
        lemma_after_first_is(tok@, "d"@, d1 as int);
    }
    let cnt_txt = tok.substring_char(0, d1);
    let tok_len = tok.unicode_len();
    let rest2 = tok.substring_char(d1 + 1, tok_len);
    let faces_txt = match find_str(rest2, "d") {
        None => rest2,
        Some(d2) => {
            proof {
                lemma_after_first_is(rest2@, "d"@, d2 as int);
            }
            rest2.substring_char(0, d2)
        },
    };
    let count = match parse_u64(cnt_txt) {
        None => {
            return None;
        },
        Some(c) => c,
    };
    let faces = match parse_u64(faces_txt) {
        None => {
            return None;
        },
        Some(f) => f,
    };
    if count == 0 || count > 1000 || faces == 0 || faces > 1000 {
        return None;
    }
    Some((count, faces))
}

pub struct Roll {}

impl Roll {
    pub fn new() -> (r: Roll) {
        Roll {  }
    }

    /// The usage text sent back when a request does not parse.
    pub fn help() -> (r: &'static str)
        ensures
            r@ == "roll <dices> : roll one or more dices where '<dice>' is formated like 1d20."@,
    {
        "roll <dices> : roll one or more dices where '<dice>' is formated like 1d20."
    }

    /// Roll the dice a request asks for. Yields a reply exactly when the
    /// request parses; the reply renders some valid draw of that many dice.
    pub fn gen(request: &String) -> (r: Option<String>)
        ensures
            r is Some <==> spec_roll_request(request@) is Some,
            r matches Some(msg) ==> exists|rolls: Seq<u64>|
                rolls_ok(
                    rolls,
                    (spec_roll_request(request@)->0).0,
                    (spec_roll_request(request@)->0).1,
                ) && msg@ == spec_roll_message(
                    (spec_roll_request(request@)->0).0,
                    (spec_roll_request(request@)->0).1,
                    rolls,
                ),
    {
        let parsed = parse_request(request.as_str());
        let (count, faces) = match parsed {
            None => {
                return None;
            },
            Some(p) => p,
        };
        let mut total: u64 = 0;
        let ghost mut rolls: Seq<u64> = Seq::empty();
        let mut listing = String::new();
        let mut i: u64 = 0;
        while i < count
            invariant
                1 <= count <= 1000,
                1 <= faces <= 1000,
                i <= count,
                rolls.len() == i,
                forall|j: int| 0 <= j < rolls.len() ==> 1 <= #[trigger] rolls[j] <= faces,
                total as nat == sum_rolls(rolls),
                total <= 1000 * i,
                listing@ == joined(rolls),
            decreases count - i,
        {
            let roll = rand_range(1, faces + 1);
            if i > 0 {
                listing.append("+");
            }
            let digits = u64_to_string(roll);
            listing.append(digits.as_str());
            total = total + roll;
            proof {
                let prev = rolls;
                rolls = rolls.push(roll);
                assert(rolls.drop_last() =~= prev);
                assert(rolls.last() == roll);
                assert(listing@ =~= joined(rolls));
            }
            i = i + 1;
        }
        let mut out = String::from_str("roll ");
        let count_digits = u64_to_string(count);
        out.append(count_digits.as_str());
        out.append("d");
        let faces_digits = u64_to_string(faces);
        out.append(faces_digits.as_str());
        out.append(": ");
        if count > 1 && count < 100 {
            out.append("(");
            out.append(listing.as_str());
            out.append(") = ");
        }
        let total_digits = u64_to_string(total);
        out.append(total_digits.as_str());
        proof {
            assert(rolls_ok(rolls, count, faces));
            assert(out@ =~= spec_roll_message(count, faces, rolls));
        }
        Some(out)
    }
}

impl Module for Roll {
    fn name(&self) -> (r: &'static str)
        ensures
            r@ == "roll"@,
    {
        "roll"
    }

    fn params(&self) -> (r: Vec<ModuleParam>)
        ensures
            r@.len() == 0,
    {
        Vec::new()
    }

    /// One declared trigger: "/roll".
    fn capabilities(&self) -> (c: ModuleCapabilities)
        ensures
            trigger_texts(c) == seq!["/roll"@],
            !c.catch_non_triggered,
            !c.catch_all,
            !c.send_message,
            !c.read_message,
            !c.resp_message,
    {
        let mut triggers: Vec<String> = Vec::new();
        triggers.push(String::from_str("/roll"));
        proof {
            assert(triggers@.map_values(|s: String| s@) =~= seq!["/roll"@]);
        }
        ModuleCapabilities {
            triggers: Some(triggers),
            catch_non_triggered: false,
            catch_all: false,
            send_message: false,
            read_message: false,
            resp_message: false,
        }
    }

    fn variation_durations(&self) -> (r: Vec<u64>)
        ensures
            r@ == seq![9999u64],
    {
        let mut r: Vec<u64> = Vec::new();
        r.push(9999);
        proof {
            assert(r@ =~= seq![9999u64]);
        }
        r
    }

    fn module_offering(&mut self, modules: &Vec<ModuleInfo>)
        ensures
            *final(self) == *old(self),
    {
    }

    fn run(&mut self, variation: usize) -> (r: Option<Vec<Message>>)
        ensures
            r is None,
    {
        None
    }

    /// One reply, always: the rendered draw when the request parses, the
    /// usage text when it does not.
    fn trigger(&mut self, message: &str) -> (r: TriggerOutcome)
        ensures
            r matches TriggerOutcome::Replies(v) && v@.len() == 1,
            spec_roll_request(message@) is None ==> (r matches TriggerOutcome::Replies(v)
                && v@[0]@
                    == "roll <dices> : roll one or more dices where '<dice>' is formated like 1d20."@),
            spec_roll_request(message@) matches Some(cf) ==> (r matches TriggerOutcome::Replies(v)
                && exists|rolls: Seq<u64>|
                rolls_ok(rolls, cf.0, cf.1) && v@[0]@ == spec_roll_message(cf.0, cf.1, rolls)),
    {
        let owned = message.to_owned();
        let mut v: Vec<String> = Vec::new();
        match Roll::gen(&owned) {
            Some(m) => v.push(m),
            None => v.push(Roll::help().to_owned()),
        }
        TriggerOutcome::Replies(v)
    }
}

} // verus!
