//! Verified string helpers: equality, substring search, decimal formatting and
//! parsing. Messages and triggers are plain text, so the routing and the
//! reply-building logic rest on these.

use vstd::prelude::*;

verus! {

/// `pat` occurs in `text` starting at position `k`.
pub open spec fn match_at(text: Seq<char>, pat: Seq<char>, k: int) -> bool {
    0 <= k && k + pat.len() <= text.len() && text.subrange(k, k + pat.len()) == pat
}

/// `pat` occurs somewhere in `text` (plain, case-sensitive containment).
pub open spec fn contains_seq(text: Seq<char>, pat: Seq<char>) -> bool {
    exists|k: int| match_at(text, pat, k)
}

/// Character-wise string equality.
pub fn str_eq(a: &str, b: &str) -> (r: bool)
    ensures
        r == (a@ == b@),
{
    let n = a.unicode_len();
    if n != b.unicode_len() {
        return false;
    }
    let mut i: usize = 0;
    while i < n
        invariant
            n == a@.len(),
            n == b@.len(),
            i <= n,
            forall|j: int| 0 <= j < i ==> a@[j] == b@[j],
        decreases n - i,
    {
        if a.get_char(i) != b.get_char(i) {
            return false;
        }
        i = i + 1;
    }
    proof {
        assert(a@ =~= b@);
    }
    true
}

/// `pat` stands in `text` at position `k`.
fn match_piece_at(text: &str, pat: &str, k: usize) -> (r: bool)
    requires
        k + pat@.len() <= text@.len(),
    ensures
        r == match_at(text@, pat@, k as int),
{
    let n = text.unicode_len();
    let m = pat.unicode_len();
    let mut j: usize = 0;
    while j < m
        invariant
            n == text@.len(),
            m == pat@.len(),
            k + m <= n,
            j <= m,
            forall|j2: int| 0 <= j2 < j ==> text@[k + j2] == pat@[j2],
        decreases m - j,
    {
        if text.get_char(k + j) != pat.get_char(j) {
            proof {
                assert(text@.subrange(k as int, k + m)[j as int] == text@[k + j]);
            }
            return false;
        }
        j = j + 1;
    }
    proof {
        assert(text@.subrange(k as int, k + m) =~= pat@);
    }
    true
}

/// Position of the first occurrence of `pat` in `text`, if any.
pub fn find_str(text: &str, pat: &str) -> (r: Option<usize>)
    ensures
        match r {
            Some(k) => match_at(text@, pat@, k as int) && forall|k2: int|
                0 <= k2 < k ==> !match_at(text@, pat@, k2),
            None => !contains_seq(text@, pat@),
        },
{
    let n = text.unicode_len();
    let m = pat.unicode_len();
    if m > n {
        return None;
    }
    if m == 0 {
        proof {
            assert(text@.subrange(0, 0) =~= pat@);
        }
        return Some(0);
    }
    let mut k: usize = 0;
    while k <= n - m
        invariant
            n == text@.len(),
            m == pat@.len(),
            1 <= m <= n,
            k <= n - m + 1,
            forall|k2: int| 0 <= k2 < k ==> !match_at(text@, pat@, k2),
        decreases n - k,
    {
        if match_piece_at(text, pat, k) {
            return Some(k);
        }
        k = k + 1;
    }
    None
}

/// Plain substring containment, as the trigger router uses it.
pub fn contains_str(text: &str, pat: &str) -> (r: bool)
    ensures
        r == contains_seq(text@, pat@),
{
    match find_str(text, pat) {
        Some(_) => true,
        None => false,
    }
}

/// Relies on std's `String::push`: appends exactly the one character.
pub assume_specification[ String::push ](s: &mut String, c: char)
    ensures
        final(s)@ == old(s)@.push(c),
;

/// The rendering of a boolean.
pub open spec fn bool_text(b: bool) -> Seq<char> {
    if b {
        "true"@
    } else {
        "false"@
    }
}

/// Render a boolean.
pub fn bool_str(b: bool) -> (r: &'static str)
    ensures
        r@ == bool_text(b),
{
    if b {
        "true"
    } else {
        "false"
    }
}

/// ASCII uppercasing of one character; anything but a lowercase ASCII letter
/// stays as it is.
pub open spec fn upper_char(c: char) -> char {
    if c == 'a' {
        'A'
    } else if c == 'b' {
        'B'
    } else if c == 'c' {
        'C'
    } else if c == 'd' {
        'D'
    } else if c == 'e' {
        'E'
    } else if c == 'f' {
        'F'
    } else if c == 'g' {
        'G'
    } else if c == 'h' {
        'H'
    } else if c == 'i' {
        'I'
    } else if c == 'j' {
        'J'
    } else if c == 'k' {
        'K'
    } else if c == 'l' {
        'L'
    } else if c == 'm' {
        'M'
    } else if c == 'n' {
        'N'
    } else if c == 'o' {
        'O'
    } else if c == 'p' {
        'P'
    } else if c == 'q' {
        'Q'
    } else if c == 'r' {
        'R'
    } else if c == 's' {
        'S'
    } else if c == 't' {
        'T'
    } else if c == 'u' {
        'U'
    } else if c == 'v' {
        'V'
    } else if c == 'w' {
        'W'
    } else if c == 'x' {
        'X'
    } else if c == 'y' {
        'Y'
    } else if c == 'z' {
        'Z'
    } else {
        c
    }
}

/// ASCII uppercasing of a text, character for character.
pub open spec fn upper_text(s: Seq<char>) -> Seq<char> {
    s.map_values(|c: char| upper_char(c))
}

fn upper_char_exec(c: char) -> (r: char)
    ensures
        r == upper_char(c),
{
    match c {
        'a' => 'A',
        'b' => 'B',
        'c' => 'C',
        'd' => 'D',
        'e' => 'E',
        'f' => 'F',
        'g' => 'G',
        'h' => 'H',
        'i' => 'I',
        'j' => 'J',
        'k' => 'K',
        'l' => 'L',
        'm' => 'M',
        'n' => 'N',
        'o' => 'O',
        'p' => 'P',
        'q' => 'Q',
        'r' => 'R',
        's' => 'S',
        't' => 'T',
        'u' => 'U',
        'v' => 'V',
        'w' => 'W',
        'x' => 'X',
        'y' => 'Y',
        'z' => 'Z',
        _ => c,
    }
}

/// Uppercase a string, ASCII letter by letter.
pub fn upper_string(s: &str) -> (r: String)
    ensures
        r@ == upper_text(s@),
{
    let n = s.unicode_len();
    let mut out = String::new();
    let mut i: usize = 0;
    while i < n
        invariant
            n == s@.len(),
            i <= n,
            out@ == upper_text(s@.take(i as int)),
        decreases n - i,
    {
        let c = s.get_char(i);
        out.push(upper_char_exec(c));
        proof {
            assert(out@ =~= upper_text(s@.take(i + 1)));
        }
        i = i + 1;
    }
    proof {
        assert(s@.take(n as int) =~= s@);
    }
    out
}

/// `i` witnesses that `a` comes strictly before `b` in lexicographic order:
/// the two agree up to `i`, where either `a` ends first or `a`'s character is
/// the smaller one.
pub open spec fn lex_witness(a: Seq<char>, b: Seq<char>, i: int) -> bool {
    &&& 0 <= i <= a.len()
    &&& i <= b.len()
    &&& forall|j: int| 0 <= j < i ==> a[j] == b[j]
    &&& ((i == a.len() && i < b.len()) || (i < a.len() && i < b.len() && a[i] < b[i]))
}

/// `a` comes strictly before `b` in lexicographic character order.
pub open spec fn lex_lt(a: Seq<char>, b: Seq<char>) -> bool {
    exists|i: int| lex_witness(a, b, i)
}

/// `a` comes no later than `b` in lexicographic character order.
pub open spec fn lex_le(a: Seq<char>, b: Seq<char>) -> bool {
    !lex_lt(b, a)
}

/// Strict lexicographic order is asymmetric.
pub proof fn lemma_lex_asym(a: Seq<char>, b: Seq<char>)
    ensures
        lex_lt(a, b) ==> !lex_lt(b, a),
{
    if lex_lt(a, b) && lex_lt(b, a) {
        let i1 = choose|i: int| lex_witness(a, b, i);
        let i2 = choose|i: int| lex_witness(b, a, i);
        if i1 == i2 {
        } else if i1 < i2 {
            assert(b[i1] == a[i1]);
        } else {
            assert(a[i2] == b[i2]);
        }
    }
}

/// Decide strict lexicographic order of two strings.
pub fn lex_lt_str(a: &str, b: &str) -> (r: bool)
    ensures
        r == lex_lt(a@, b@),
{
    let an = a.unicode_len();
    let bn = b.unicode_len();
    let mut i: usize = 0;
    while i < an && i < bn
        invariant
            an == a@.len(),
            bn == b@.len(),
            i <= an,
            i <= bn,
            forall|j: int| 0 <= j < i ==> a@[j] == b@[j],
        decreases an - i,
    {
        let ca = a.get_char(i);
        let cb = b.get_char(i);
        if ca != cb {
            if ca < cb {
                proof {
                    assert(lex_witness(a@, b@, i as int));
                }
                return true;
            } else {
                proof {
                    assert forall|k: int| !lex_witness(a@, b@, k) by {
                        if 0 <= k <= i {
                        } else {
                            assert(!(a@[i as int] == b@[i as int]));
                        }
                    }
                }
                return false;
            }
        }
        i = i + 1;
    }
    if an < bn {
        proof {
            assert(lex_witness(a@, b@, an as int));
        }
        true
    } else {
        proof {
            assert forall|k: int| !lex_witness(a@, b@, k) by {
                if k == a@.len() {
                    assert(!(k < b@.len()));
                }
            }
        }
        false
    }
}

/// The decimal digit character for `d`.
pub open spec fn digit_char(d: nat) -> char {
    if d == 0 {
        '0'
    } else if d == 1 {
        '1'
    } else if d == 2 {
        '2'
    } else if d == 3 {
        '3'
    } else if d == 4 {
        '4'
    } else if d == 5 {
        '5'
    } else if d == 6 {
        '6'
    } else if d == 7 {
        '7'
    } else if d == 8 {
        '8'
    } else {
        '9'
    }
}

/// Decimal notation of `n`, most significant digit first, no leading zeroes
/// (a single zero for `n == 0`).
pub open spec fn spec_dec(n: nat) -> Seq<char>
    decreases n,
{
    if n < 10 {
        seq![digit_char(n)]
    } else {
        spec_dec(n / 10).push(digit_char(n % 10))
    }
}

fn digit_str(d: u64) -> (r: &'static str)
    requires
        d < 10,
    ensures
        r@ == seq![digit_char(d as nat)],
{
    proof {
        reveal_strlit("0");
        reveal_strlit("1");
        reveal_strlit("2");
        reveal_strlit("3");
        reveal_strlit("4");
        reveal_strlit("5");
        reveal_strlit("6");
        reveal_strlit("7");
        reveal_strlit("8");
        reveal_strlit("9");
    }
    let r = match d {
        0 => "0",
        1 => "1",
        2 => "2",
        3 => "3",
        4 => "4",
        5 => "5",
        6 => "6",
        7 => "7",
        8 => "8",
        _ => "9",
    };
    proof {
        assert(r@ =~= seq![digit_char(d as nat)]);
    }
    r
}

/// Decimal rendering of an integer.
pub fn u64_to_string(n: u64) -> (s: String)
    ensures
        s@ == spec_dec(n as nat),
    decreases n,
{
    let ds = digit_str(n % 10);
    if n < 10 {
        String::from_str(ds)
    } else {
        let mut front = u64_to_string(n / 10);
        front.append(ds);
        proof {
            assert(spec_dec((n / 10) as nat) + seq![digit_char((n % 10) as nat)] =~= spec_dec(
                n as nat,
            ));
        }
        front
    }
}

/// `c` is a decimal digit.
pub open spec fn is_digit(c: char) -> bool {
    '0' <= c && c <= '9'
}

/// Numeric value of a digit character.
pub open spec fn digit_val(c: char) -> nat {
    (c as int - '0' as int) as nat
}

/// Every character of `s` is a decimal digit.
pub open spec fn all_digits(s: Seq<char>) -> bool {
    forall|i: int| 0 <= i < s.len() ==> is_digit(#[trigger] s[i])
}

/// The number that the digit string `s` denotes.
pub open spec fn digits_value(s: Seq<char>) -> nat
    decreases s.len(),
{
    if s.len() == 0 {
        0
    } else {
        digits_value(s.drop_last()) * 10 + digit_val(s.last())
    }
}

/// What parsing an unsigned decimal number accepts: a nonempty string of
/// digits whose value fits, and nothing else.
pub open spec fn parse_u64_spec(s: Seq<char>) -> Option<u64> {
    if s.len() > 0 && all_digits(s) && digits_value(s) <= u64::MAX {
        Some(digits_value(s) as u64)
    } else {
        None
    }
}

/// A digit string never denotes less than any of its prefixes.
proof fn lemma_digits_value_prefix_le(s: Seq<char>, i: int)
    requires
        0 <= i <= s.len(),
    ensures
        digits_value(s.take(i)) <= digits_value(s),
    decreases s.len(),
{
    if i < s.len() {
        lemma_digits_value_prefix_le(s.drop_last(), i);
        assert(s.drop_last().take(i) =~= s.take(i));
    } else {
        assert(s.take(i) =~= s);
    }
}

/// Parse an unsigned decimal number; rejects anything but a nonempty digit
/// string whose value fits in a `u64`.
pub fn parse_u64(s: &str) -> (r: Option<u64>)
    ensures
        r == parse_u64_spec(s@),
{
    let n = s.unicode_len();
    if n == 0 {
        return None;
    }
    let mut acc: u64 = 0;
    let mut i: usize = 0;
    while i < n
        invariant
            n == s@.len(),
            i <= n,
            forall|j: int| 0 <= j < i ==> is_digit(#[trigger] s@[j]),
            acc as nat == digits_value(s@.take(i as int)),
        decreases n - i,
    {
        let c = s.get_char(i);
        if c < '0' || c > '9' {
            return None;
        }
        let d = (c as u32 as u64) - 48;
        proof {
            assert(s@.take(i + 1).drop_last() =~= s@.take(i as int));
            assert(s@.take(i + 1).last() == s@[i as int]);
        }
        if acc > (u64::MAX - d) / 10 {
            proof {
                lemma_digits_value_prefix_le(s@, i + 1);
            }
            return None;
        }
        acc = acc * 10 + d;
        i = i + 1;
    }
    proof {
        assert(s@.take(n as int) =~= s@);
    }
    Some(acc)
}

} // verus!
