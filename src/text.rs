//! Character-level helpers: reading strings as characters, substring search,
//! reading decimal numbers and writing them back.
use vstd::prelude::*;
use vstd::string::*;

verus! {

/// The characters of `s`, in order.
pub fn chars_of(s: &str) -> (v: Vec<char>)
    ensures
        v@ == s@,
{
    let n = s.unicode_len();
    let mut v: Vec<char> = Vec::new();
    let mut i: usize = 0;
    while i < n
        invariant
            n == s@.len(),
            i <= n,
            v@ == s@.subrange(0, i as int),
        decreases n - i,
    {
        v.push(s.get_char(i));
        i = i + 1;
    }
    assert(v@ =~= s@);
    v
}

/// Relies on `String::push`: the character is appended at the end.
#[verifier::external_body]
pub(crate) fn push_char(s: &mut String, c: char)
    ensures
        final(s)@ == old(s)@.push(c),
{
    s.push(c);
}

/// `p` occurs in `s` starting at position `i`.
pub open spec fn occurs_at(s: Seq<char>, p: Seq<char>, i: int) -> bool {
    0 <= i && i + p.len() <= s.len() && s.subrange(i, i + p.len()) == p
}

/// `p` occurs somewhere in `s`.
pub open spec fn contains_seq(s: Seq<char>, p: Seq<char>) -> bool {
    exists|i: int| occurs_at(s, p, i)
}

/// Whether the characters `p` occur as a contiguous run in `s`.
pub fn contains_chars(s: &Vec<char>, p: &Vec<char>) -> (r: bool)
    ensures
        r == contains_seq(s@, p@),
{
    if p.len() > s.len() {
        assert forall|i: int| !occurs_at(s@, p@, i) by {}
        return false;
    }
    if p.len() == 0 {
        assert(s@.subrange(0, 0) =~= p@);
        assert(occurs_at(s@, p@, 0));
        return true;
    }
    let n = s.len();
    let last = n - p.len();
    let mut i: usize = 0;
    while i <= last
        invariant
            n == s@.len(),
            p@.len() <= s@.len(),
            0 < p@.len(),
            last == s@.len() - p@.len(),
            i <= last + 1,
            forall|j: int| 0 <= j < i ==> !occurs_at(s@, p@, j),
        decreases last + 1 - i,
    {
        let mut k: usize = 0;
        let mut same = true;
        while k < p.len()
            invariant
                n == s@.len(),
                p@.len() <= s@.len(),
                last == s@.len() - p@.len(),
                i <= last,
                k <= p@.len(),
                same ==> forall|m: int| 0 <= m < k ==> s@[i + m] == p@[m],
                !same ==> !occurs_at(s@, p@, i as int),
            decreases p@.len() - k,
        {
            if same && s[i + k] != p[k] {
                same = false;
                assert(s@.subrange(i as int, i + p@.len())[k as int] != p@[k as int]);
            }
            k = k + 1;
        }
        if same {
            assert(s@.subrange(i as int, i + p@.len()) =~= p@);
            assert(occurs_at(s@, p@, i as int));
            return true;
        }
        i = i + 1;
    }
    assert forall|j: int| !occurs_at(s@, p@, j) by {
        if 0 <= j && j + p@.len() <= s@.len() {
            assert(j < i);
        }
    }
    false
}

/// Whether the text of `s` contains the text of `p`.
pub fn contains_str(s: &str, p: &str) -> (r: bool)
    ensures
        r == contains_seq(s@, p@),
{
    let sc = chars_of(s);
    let pc = chars_of(p);
    contains_chars(&sc, &pc)
}

pub open spec fn is_digit(c: char) -> bool {
    '0' <= c && c <= '9'
}

pub open spec fn digit_value(c: char) -> int {
    c as int - '0' as int
}

/// The value of a run of decimal digits, most significant first.
pub open spec fn digits_value(s: Seq<char>) -> int
    decreases s.len(),
{
    if s.len() == 0 {
        0
    } else {
        digits_value(s.drop_last()) * 10 + digit_value(s.last())
    }
}

/// The end of the run of digits that starts at `i`.
pub open spec fn digit_run_end(s: Seq<char>, i: int) -> int
    decreases s.len() - i,
{
    if 0 <= i < s.len() && is_digit(s[i]) {
        digit_run_end(s, i + 1)
    } else {
        i
    }
}

/// Length of the optional leading sign.
pub open spec fn sign_len(s: Seq<char>) -> int {
    if s.len() > 0 && (s[0] == '-' || s[0] == '+') {
        1
    } else {
        0
    }
}

/// The whole part of a decimal number: an optional sign, at least one digit,
/// then optionally a point followed by digits, which are dropped (so the value
/// is truncated toward zero). Anything else, or a value outside `i32`, reads
/// as 0.
pub open spec fn parse_whole_spec(s: Seq<char>) -> int {
    let start = sign_len(s);
    let end = digit_run_end(s, start);
    let magnitude = digits_value(s.subrange(start, end));
    let value = if start == 1 && s[0] == '-' {
        -magnitude
    } else {
        magnitude
    };
    let shaped = end > start && (end == s.len() || (s[end] == '.' && digit_run_end(s, end + 1)
        == s.len()));
    if shaped && i32::MIN <= value && value <= i32::MAX {
        value
    } else {
        0
    }
}

proof fn lemma_digit_run_end_bounds(s: Seq<char>, i: int)
    requires
        0 <= i <= s.len(),
    ensures
        i <= digit_run_end(s, i) <= s.len(),
        forall|j: int| i <= j < digit_run_end(s, i) ==> is_digit(s[j]),
    decreases s.len() - i,
{
    if i < s.len() && is_digit(s[i]) {
        lemma_digit_run_end_bounds(s, i + 1);
    }
}

proof fn lemma_digits_value_nonneg(s: Seq<char>)
    requires
        forall|j: int| 0 <= j < s.len() ==> is_digit(s[j]),
    ensures
        digits_value(s) >= 0,
    decreases s.len(),
{
    if s.len() > 0 {
        lemma_digits_value_nonneg(s.drop_last());
    }
}

/// A longer run of digits is worth at least as much as its prefix.
proof fn lemma_digits_value_prefix(s: Seq<char>, k: int)
    requires
        0 <= k <= s.len(),
        forall|j: int| 0 <= j < s.len() ==> is_digit(s[j]),
    ensures
        digits_value(s.subrange(0, k)) <= digits_value(s),
    decreases s.len(),
{
    if k < s.len() {
        let t = s.drop_last();
        lemma_digits_value_prefix(t, k);
        assert(t.subrange(0, k) =~= s.subrange(0, k));
        lemma_digits_value_nonneg(t);
    } else {
        assert(s.subrange(0, k) =~= s);
    }
}

/// Reads the whole part of a decimal number; 0 when `s` is not one, or when
/// it does not fit in `i32`.
pub fn parse_whole(s: &str) -> (r: i32)
    ensures
        r == parse_whole_spec(s@),
{
    let cs = chars_of(s);
    let n = cs.len();
    let ghost t = s@;
    let mut start: usize = 0;
    if n > 0 && (cs[0] == '-' || cs[0] == '+') {
        start = 1;
    }
    let negative = start == 1 && cs[0] == '-';
    assert(start == sign_len(t));
    let mut i: usize = start;
    let mut magnitude: u64 = 0;
    proof {
        assert(t.subrange(start as int, start as int) =~= Seq::<char>::empty());
        lemma_digit_run_end_bounds(t, start as int);
    }
    while i < n && '0' <= cs[i] && cs[i] <= '9'
        invariant
            t == s@,
            cs@ == t,
            n == t.len(),
            start == sign_len(t),
            start <= i <= n,
            digit_run_end(t, start as int) == digit_run_end(t, i as int),
            i <= digit_run_end(t, i as int) <= n,
            magnitude == digits_value(t.subrange(start as int, i as int)),
            magnitude <= 2147483648,
        decreases n - i,
    {
        let d = (cs[i] as u32 - '0' as u32) as u64;
        proof {
            lemma_digit_run_end_bounds(t, i + 1);
        }
        let ghost prefix = t.subrange(start as int, i + 1);
        assert(prefix.drop_last() =~= t.subrange(start as int, i as int));
        assert(prefix.last() == t[i as int]);
        if magnitude * 10 + d > 2147483648 {
            proof {
                let end = digit_run_end(t, start as int);
                lemma_digit_run_end_bounds(t, start as int);
                let whole = t.subrange(start as int, end);
                assert(whole.subrange(0, i + 1 - start) =~= prefix);
                lemma_digits_value_prefix(whole, i + 1 - start);
                assert(d == digit_value(t[i as int]));
                assert(digits_value(prefix) == magnitude * 10 + d);
                assert(digits_value(whole) > 2147483648);
                assert(parse_whole_spec(t) == 0);
            }
            return 0;
        }
        magnitude = magnitude * 10 + d;
        i = i + 1;
    }
    let end = i;
    assert(end == digit_run_end(t, start as int));
    if end == start {
        return 0;
    }
    if end < n {
        if cs[end] != '.' {
            return 0;
        }
        let mut j: usize = end + 1;
        proof {
            lemma_digit_run_end_bounds(t, j as int);
        }
        while j < n && '0' <= cs[j] && cs[j] <= '9'
            invariant
                cs@ == t,
                n == t.len(),
                end < j <= n,
                digit_run_end(t, end + 1) == digit_run_end(t, j as int),
            decreases n - j,
        {
            j = j + 1;
        }
        if j != n {
            return 0;
        }
    }
    if negative {
        (0 - magnitude as i64) as i32
    } else if magnitude <= 2147483647 {
        magnitude as i32
    } else {
        0
    }
}

/// An integer as `str::parse::<i32>` reads it: an optional sign followed by
/// digits only. Anything else (a point, a blank, nothing), or a value outside
/// `i32`, reads as 0.
pub open spec fn parse_int_spec(s: Seq<char>) -> int {
    let start = sign_len(s);
    let end = digit_run_end(s, start);
    let magnitude = digits_value(s.subrange(start, end));
    let value = if start == 1 && s[0] == '-' {
        -magnitude
    } else {
        magnitude
    };
    if end > start && end == s.len() && i32::MIN <= value && value <= i32::MAX {
        value
    } else {
        0
    }
}

/// Reads an integer: an optional sign, then digits only; 0 when `s` is
/// anything else, or when it does not fit in `i32`.
pub fn parse_int(s: &str) -> (r: i32)
    ensures
        r == parse_int_spec(s@),
{
    let cs = chars_of(s);
    let n = cs.len();
    let ghost t = s@;
    let mut i: usize = 0;
    if n > 0 && (cs[0] == '-' || cs[0] == '+') {
        i = 1;
    }
    let ghost start = i as int;
    assert(start == sign_len(t));
    proof {
        lemma_digit_run_end_bounds(t, start);
    }
    while i < n && '0' <= cs[i] && cs[i] <= '9'
        invariant
            cs@ == t,
            n == t.len(),
            start <= i <= n,
            digit_run_end(t, start) == digit_run_end(t, i as int),
        decreases n - i,
    {
        i = i + 1;
    }
    assert(i == digit_run_end(t, start));
    if i != n {
        return 0;
    }
    parse_whole(s)
}

/// The decimal digit for `d`.
pub open spec fn digit_char(d: int) -> char {
    seq!['0', '1', '2', '3', '4', '5', '6', '7', '8', '9'][d]
}

/// The decimal writing of `n`, without leading zeros.
pub open spec fn decimal(n: nat) -> Seq<char>
    decreases n,
{
    if n < 10 {
        seq![digit_char(n as int)]
    } else {
        decimal(n / 10).push(digit_char((n % 10) as int))
    }
}

/// Writes `n` in decimal at the end of `s`.
pub fn push_decimal(s: &mut String, n: u64)
    ensures
        final(s)@ == old(s)@ + decimal(n as nat),
    decreases n,
{
    if n >= 10 {
        push_decimal(s, n / 10);
    }
    let digits: [char; 10] = ['0', '1', '2', '3', '4', '5', '6', '7', '8', '9'];
    assert(digits@ == seq!['0', '1', '2', '3', '4', '5', '6', '7', '8', '9']);
    let c = digits[(n % 10) as usize];
    push_char(s, c);
    proof {
        if n >= 10 {
            assert(old(s)@ + decimal(n as nat) =~= old(s)@ + decimal((n / 10) as nat) + seq![c]);
        } else {
            assert(old(s)@ + decimal(n as nat) =~= old(s)@.push(c));
        }
    }
}

/// `n` written as a decimal at least two characters wide, padded with a zero
/// on the left; a negative number is its sign followed by its digits.
pub open spec fn two_wide(n: int) -> Seq<char> {
    if n < 0 {
        seq!['-'] + decimal((-n) as nat)
    } else if n < 10 {
        seq!['0'] + decimal(n as nat)
    } else {
        decimal(n as nat)
    }
}

/// Writes `n` at least two characters wide at the end of `s`.
pub fn push_two_wide(s: &mut String, n: i32)
    ensures
        final(s)@ == old(s)@ + two_wide(n as int),
{
    if n < 0 {
        push_char(s, '-');
        let m: i64 = 0 - (n as i64);
        push_decimal(s, m as u64);
        assert(final(s)@ =~= old(s)@ + two_wide(n as int));
    } else {
        if n < 10 {
            push_char(s, '0');
        }
        push_decimal(s, n as u64);
        assert(final(s)@ =~= old(s)@ + two_wide(n as int));
    }
}

/// Appends the text of `t` at the end of `s`.
pub fn push_text(s: &mut String, t: &str)
    ensures
        final(s)@ == old(s)@ + t@,
{
    s.append(t);
}

} // verus!
