//! Text helpers the session store builds on: rendering a counter as a
//! decimal string (injectively, so generated message ids are provably
//! fresh) and trimming whitespace from composed input.

use vstd::prelude::*;
use vstd::string::*;

verus! {

/// The decimal digit character for a value below ten.
pub open spec fn dec_digit(d: int) -> char
    recommends
        0 <= d < 10,
{
    if d == 0 {
        '0'
    } else if d == 1 {
        '1'
    } else if d == 2 {
        '2'
    } else if d == 3 {
        '3'
    } else if d == 4 {
        '4'
    } else if d == 5 {
        '5'
    } else if d == 6 {
        '6'
    } else if d == 7 {
        '7'
    } else if d == 8 {
        '8'
    } else {
        '9'
    }
}

/// The usual decimal rendering of a natural number, most significant
/// digit first, without leading zeroes.
pub open spec fn spec_dec(n: nat) -> Seq<char>
    decreases n,
{
    if n < 10 {
        seq![dec_digit(n as int)]
    } else {
        spec_dec(n / 10).push(dec_digit((n % 10) as int))
    }
}

/// A decimal rendering is never empty, and is a single character
/// exactly for values below ten.
pub proof fn lemma_dec_len(n: nat)
    ensures
        spec_dec(n).len() >= 1,
        n >= 10 ==> spec_dec(n).len() >= 2,
    decreases n,
{
    if n >= 10 {
        lemma_dec_len(n / 10);
    }
}

proof fn lemma_digit_injective(d1: int, d2: int)
    requires
        0 <= d1 < 10,
        0 <= d2 < 10,
        dec_digit(d1) == dec_digit(d2),
    ensures
        d1 == d2,
{
}

/// Distinct numbers have distinct decimal renderings.
pub proof fn lemma_dec_injective(a: nat, b: nat)
    requires
        spec_dec(a) == spec_dec(b),
    ensures
        a == b,
    decreases a + b,
{
    if a < 10 && b < 10 {
        assert(spec_dec(a)[0] == dec_digit(a as int));
        assert(spec_dec(b)[0] == dec_digit(b as int));
        lemma_digit_injective(a as int, b as int);
    } else if a < 10 {
        lemma_dec_len(b);
        assert(spec_dec(a).len() == 1);
    } else if b < 10 {
        lemma_dec_len(a);
        assert(spec_dec(b).len() == 1);
    } else {
        let s = spec_dec(a);
        assert(s.last() == dec_digit((a % 10) as int));
        assert(s.last() == dec_digit((b % 10) as int));
        lemma_digit_injective((a % 10) as int, (b % 10) as int);
        assert(spec_dec(a / 10) =~= s.drop_last());
        assert(spec_dec(b / 10) =~= s.drop_last());
        lemma_dec_injective(a / 10, b / 10);
    }
}

fn digit_str(d: u64) -> (r: &'static str)
    requires
        d < 10,
    ensures
        r@ == seq![dec_digit(d as int)],
{
    proof {
        reveal_strlit("0");
        reveal_strlit("1");
        reveal_strlit("2");
        reveal_strlit("3");
        reveal_strlit("4");
        reveal_strlit("5");
        reveal_strlit("6");
        reveal_strlit("7");
        reveal_strlit("8");
        reveal_strlit("9");
    }
    let r: &'static str = if d == 0 {
        "0"
    } else if d == 1 {
        "1"
    } else if d == 2 {
        "2"
    } else if d == 3 {
        "3"
    } else if d == 4 {
        "4"
    } else if d == 5 {
        "5"
    } else if d == 6 {
        "6"
    } else if d == 7 {
        "7"
    } else if d == 8 {
        "8"
    } else {
        "9"
    };
    proof {
        assert(r@ =~= seq![dec_digit(d as int)]);
    }
    r
}

/// Render a counter value as its decimal string.
pub fn u64_to_dec_string(n: u64) -> (r: String)
    ensures
        r@ == spec_dec(n as nat),
    decreases n,
{
    if n < 10 {
        digit_str(n).to_owned()
    } else {
        let mut s = u64_to_dec_string(n / 10);
        s.append(digit_str(n % 10));
        proof {
            assert(s@ =~= spec_dec(n as nat));
        }
        s
    }
}

/// The id of the `n`-th locally composed message.
pub open spec fn msg_id_seq(n: nat) -> Seq<char> {
    seq!['m', 's', 'g', '_'] + spec_dec(n)
}

/// Build the id string of the `n`-th locally composed message.
pub fn msg_id_string(n: u64) -> (r: String)
    ensures
        r@ == msg_id_seq(n as nat),
{
    let mut s = String::new();
    s.append("msg_");
    let digits = u64_to_dec_string(n);
    s.append(digits.as_str());
    proof {
        reveal_strlit("msg_");
        assert("msg_"@ =~= seq!['m', 's', 'g', '_']);
        assert(s@ =~= msg_id_seq(n as nat));
    }
    s
}

/// Distinct counters give distinct message ids.
pub proof fn lemma_msg_id_injective(a: nat, b: nat)
    requires
        msg_id_seq(a) == msg_id_seq(b),
    ensures
        a == b,
{
    let p = seq!['m', 's', 'g', '_'];
    lemma_dec_len(a);
    lemma_dec_len(b);
    assert(spec_dec(a) =~= (p + spec_dec(a)).subrange(4, (p + spec_dec(a)).len() as int));
    assert(spec_dec(b) =~= (p + spec_dec(b)).subrange(4, (p + spec_dec(b)).len() as int));
    lemma_dec_injective(a, b);
}

/// Every generated message id starts with the letter `m`.
pub proof fn lemma_msg_id_starts_m(n: nat)
    ensures
        msg_id_seq(n).len() >= 5,
        msg_id_seq(n)[0] == 'm',
    decreases n,
{
    lemma_dec_len(n);
}

/// The prefix of `s` before the first occurrence of `c`; all of `s`
/// when `c` does not occur.
pub open spec fn spec_head_until(s: Seq<char>, c: char) -> Seq<char>
    decreases s.len(),
{
    if s.len() == 0 {
        s
    } else if s[0] == c {
        Seq::empty()
    } else {
        seq![s[0]] + spec_head_until(s.drop_first(), c)
    }
}

proof fn lemma_head_until_take(s: Seq<char>, c: char, i: int)
    requires
        0 <= i <= s.len(),
        forall|k: int| 0 <= k < i ==> s[k] != c,
        i < s.len() ==> s[i] == c,
    ensures
        spec_head_until(s, c) == s.take(i),
    decreases i,
{
    if i == 0 {
        assert(s.take(0) =~= Seq::<char>::empty());
        if s.len() == 0 {
            assert(s.take(0) =~= s);
        }
    } else {
        lemma_head_until_take(s.drop_first(), c, i - 1);
        assert(seq![s[0]] + s.drop_first().take(i - 1) =~= s.take(i));
    }
}

/// The prefix of `s` before its last occurrence of `c`, when one
/// exists.
pub open spec fn spec_before_last(s: Seq<char>, c: char) -> Option<Seq<char>>
    decreases s.len(),
{
    if s.len() == 0 {
        Option::None
    } else if s.last() == c {
        Option::Some(s.drop_last())
    } else {
        spec_before_last(s.drop_last(), c)
    }
}

proof fn lemma_before_last_found(s: Seq<char>, c: char, j: int)
    requires
        0 <= j < s.len(),
        s[j] == c,
        forall|k: int| j < k < s.len() ==> s[k] != c,
    ensures
        spec_before_last(s, c) == Option::Some(s.take(j)),
    decreases s.len(),
{
    if j == s.len() - 1 {
        assert(s.drop_last() =~= s.take(j));
    } else {
        lemma_before_last_found(s.drop_last(), c, j);
        assert(s.drop_last().take(j) =~= s.take(j));
    }
}

proof fn lemma_before_last_missing(s: Seq<char>, c: char)
    requires
        forall|k: int| 0 <= k < s.len() ==> s[k] != c,
    ensures
        spec_before_last(s, c) is None,
    decreases s.len(),
{
    if s.len() > 0 {
        lemma_before_last_missing(s.drop_last(), c);
    }
}

/// The date column of a timestamp: the text before the first space, or
/// the whole text when it has no space.
pub open spec fn spec_date_part(ts: Seq<char>) -> Seq<char> {
    spec_head_until(ts, ' ')
}

/// The time column of a timestamp: the text between the first space
/// and the next one, empty when the timestamp has no space.
pub open spec fn spec_time_part(ts: Seq<char>) -> Seq<char> {
    let d = spec_head_until(ts, ' ');
    if d.len() == ts.len() {
        Seq::empty()
    } else {
        spec_head_until(ts.skip(d.len() + 1int), ' ')
    }
}

/// The hour-and-minute prefix of a timestamp's time column: the time
/// up to its last colon, or the whole time column when it has none.
pub open spec fn spec_minute_part(ts: Seq<char>) -> Seq<char> {
    let t = spec_time_part(ts);
    match spec_before_last(t, ':') {
        Option::Some(p) => p,
        Option::None => t,
    }
}

fn find_char_from(ts: &str, c: char, from: usize) -> (r: usize)
    requires
        from <= ts@.len(),
    ensures
        from <= r <= ts@.len(),
        forall|k: int| from <= k < r ==> ts@[k] != c,
        r < ts@.len() ==> ts@[r as int] == c,
{
    let n = ts.unicode_len();
    let mut i: usize = from;
    while i < n && ts.get_char(i) != c
        invariant
            from <= i <= n,
            n == ts@.len(),
            forall|k: int| from <= k < i ==> ts@[k] != c,
        decreases n - i,
    {
        i = i + 1;
    }
    i
}

/// The date column of a timestamp, as an owned string.
pub fn timestamp_date(ts: &str) -> (r: String)
    ensures
        r@ == spec_date_part(ts@),
{
    let i = find_char_from(ts, ' ', 0);
    proof {
        lemma_head_until_take(ts@, ' ', i as int);
        assert(ts@.subrange(0, i as int) =~= ts@.take(i as int));
    }
    ts.substring_char(0, i).to_owned()
}

/// The hour-and-minute prefix of a timestamp's time column, as an
/// owned string.
pub fn timestamp_minute(ts: &str) -> (r: String)
    ensures
        r@ == spec_minute_part(ts@),
{
    let n = ts.unicode_len();
    let i = find_char_from(ts, ' ', 0);
    proof {
        lemma_head_until_take(ts@, ' ', i as int);
    }
    if i == n {
        proof {
            lemma_before_last_missing(Seq::<char>::empty(), ':');
        }
        return String::new();
    }
    let j = find_char_from(ts, ' ', i + 1);
    let ghost t = spec_time_part(ts@);
    proof {
        let tail = ts@.skip(i + 1);
        assert forall|k: int| 0 <= k < j - i - 1 implies tail[k] != ' ' by {
            assert(tail[k] == ts@[i + 1 + k]);
        }
        if j < ts@.len() {
            assert(tail[j - i - 1] == ts@[j as int]);
        }
        lemma_head_until_take(tail, ' ', j - i - 1);
        assert(t =~= ts@.subrange(i + 1, j as int));
    }
    // Scan the time column backward for its last colon.
    let mut k: usize = j;
    while k > i + 1 && ts.get_char(k - 1) != ':'
        invariant
            i + 1 <= k <= j,
            j <= n,
            n == ts@.len(),
            forall|m: int| k <= m < j ==> ts@[m] != ':',
        decreases k,
    {
        k = k - 1;
    }
    if k == i + 1 {
        proof {
            assert forall|m: int| 0 <= m < t.len() implies t[m] != ':' by {
                assert(t[m] == ts@[i + 1 + m]);
            }
            lemma_before_last_missing(t, ':');
            assert(ts@.subrange(i + 1, j as int) =~= t);
        }
        ts.substring_char(i + 1, j).to_owned()
    } else {
        proof {
            assert(ts@[k - 1] == ':');
            assert forall|m: int| k - 1 - (i + 1) < m < t.len() implies t[m] != ':' by {
                assert(t[m] == ts@[i + 1 + m]);
            }
            assert(t[k - 1 - (i + 1)] == ':');
            lemma_before_last_found(t, ':', k - 1 - (i + 1));
            assert(t.take(k - 1 - (i + 1)) =~= ts@.subrange(i + 1, k - 1));
        }
        ts.substring_char(i + 1, k - 1).to_owned()
    }
}

/// A whitespace character, by the Unicode `White_Space` property (the
/// set `str::trim` strips).
pub open spec fn is_ws_char(c: char) -> bool {
    let u = c as u32;
    (0x09 <= u <= 0x0D) || u == 0x20 || u == 0x85 || u == 0xA0 || u == 0x1680 || (0x2000 <= u
        <= 0x200A) || u == 0x2028 || u == 0x2029 || u == 0x202F || u == 0x205F || u == 0x3000
}

fn is_ws(c: char) -> (r: bool)
    ensures
        r == is_ws_char(c),
{
    let u = c as u32;
    (0x09 <= u && u <= 0x0D) || u == 0x20 || u == 0x85 || u == 0xA0 || u == 0x1680 || (0x2000 <= u
        && u <= 0x200A) || u == 0x2028 || u == 0x2029 || u == 0x202F || u == 0x205F || u == 0x3000
}

/// The text with its leading whitespace removed.
pub open spec fn spec_trim_start(s: Seq<char>) -> Seq<char>
    decreases s.len(),
{
    if s.len() > 0 && is_ws_char(s[0]) {
        spec_trim_start(s.drop_first())
    } else {
        s
    }
}

/// The text with its trailing whitespace removed.
pub open spec fn spec_trim_end(s: Seq<char>) -> Seq<char>
    decreases s.len(),
{
    if s.len() > 0 && is_ws_char(s.last()) {
        spec_trim_end(s.drop_last())
    } else {
        s
    }
}

/// The text with leading and trailing whitespace removed.
pub open spec fn spec_trim(s: Seq<char>) -> Seq<char> {
    spec_trim_end(spec_trim_start(s))
}

proof fn lemma_trim_start_skip(s: Seq<char>, i: int)
    requires
        0 <= i <= s.len(),
        forall|k: int| 0 <= k < i ==> is_ws_char(s[k]),
        i < s.len() ==> !is_ws_char(s[i]),
    ensures
        spec_trim_start(s) == s.skip(i),
    decreases i,
{
    if i == 0 {
        assert(s.skip(0) =~= s);
    } else {
        lemma_trim_start_skip(s.drop_first(), i - 1);
        assert(s.drop_first().skip(i - 1) =~= s.skip(i));
    }
}

proof fn lemma_trim_end_take(s: Seq<char>, j: int)
    requires
        0 <= j <= s.len(),
        forall|k: int| j <= k < s.len() ==> is_ws_char(s[k]),
        j > 0 ==> !is_ws_char(s[j - 1]),
    ensures
        spec_trim_end(s) == s.take(j),
    decreases s.len(),
{
    if j == s.len() {
        if s.len() > 0 {
            assert(s.take(j) =~= s);
        } else {
            assert(s.take(0) =~= s);
        }
    } else {
        lemma_trim_end_take(s.drop_last(), j);
        assert(s.drop_last().take(j) =~= s.take(j));
    }
}

/// Remove leading and trailing whitespace from `s`, as an owned string.
pub fn trimmed(s: &str) -> (r: String)
    ensures
        r@ == spec_trim(s@),
{
    let n = s.unicode_len();
    let mut i: usize = 0;
    while i < n && is_ws(s.get_char(i))
        invariant
            0 <= i <= n,
            n == s@.len(),
            forall|k: int| 0 <= k < i ==> is_ws_char(s@[k]),
        decreases n - i,
    {
        i = i + 1;
    }
    let mut j: usize = n;
    while j > i && is_ws(s.get_char(j - 1))
        invariant
            i <= j <= n,
            n == s@.len(),
            forall|k: int| j <= k < n ==> is_ws_char(s@[k]),
        decreases j,
    {
        j = j - 1;
    }
    proof {
        lemma_trim_start_skip(s@, i as int);
        let u = s@.skip(i as int);
        if j == i {
            lemma_trim_end_take(u, 0);
        } else {
            lemma_trim_end_take(u, j - i);
        }
        assert(u.take(j - i) =~= s@.subrange(i as int, j as int));
    }
    s.substring_char(i, j).to_owned()
}

} // verus!
