//! Searching, trimming and splitting of character sequences.
//!
//! Texts are handled as sequences of characters; positions are counted in
//! characters.

use vstd::prelude::*;

verus! {

/// Whether a character has the Unicode property `White_Space`, as
/// `char::is_whitespace` of the standard library decides it.
pub uninterp spec fn is_white_space(c: char) -> bool;

/// `char::is_whitespace` of the standard library: the result depends on the
/// character alone.
pub assume_specification[ char::is_whitespace ](c: char) -> (b: bool)
    ensures
        b == is_white_space(c),
;

/// An ASCII decimal digit.
pub open spec fn is_digit(c: char) -> bool {
    '0' <= c && c <= '9'
}

/// `pattern` stands in `text` at position `at`.
pub open spec fn occurs_at(text: Seq<char>, pattern: Seq<char>, at: int) -> bool {
    &&& 0 <= at
    &&& at + pattern.len() <= text.len()
    &&& text.subrange(at, at + pattern.len()) == pattern
}

/// The first position at or after `from` where `pattern` stands in `text`.
pub open spec fn first_occurrence_from(text: Seq<char>, pattern: Seq<char>, from: int) -> Option<int>
    decreases text.len() + 1 - from,
{
    if from < 0 || from + pattern.len() > text.len() {
        None
    } else if occurs_at(text, pattern, from) {
        Some(from)
    } else {
        first_occurrence_from(text, pattern, from + 1)
    }
}

/// The first position where `pattern` stands in `text`.
pub open spec fn first_occurrence(text: Seq<char>, pattern: Seq<char>) -> Option<int> {
    first_occurrence_from(text, pattern, 0)
}

/// The last position before `below` where `pattern` stands in `text`.
pub open spec fn last_occurrence_below(text: Seq<char>, pattern: Seq<char>, below: int) -> Option<int>
    decreases below,
{
    if below <= 0 {
        None
    } else if occurs_at(text, pattern, below - 1) {
        Some(below - 1)
    } else {
        last_occurrence_below(text, pattern, below - 1)
    }
}

/// The last position where `pattern` stands in `text`.
pub open spec fn last_occurrence(text: Seq<char>, pattern: Seq<char>) -> Option<int> {
    last_occurrence_below(text, pattern, text.len() as int + 1)
}

/// The first occurrence is an occurrence, and no earlier position is one; where
/// there is none, the pattern stands nowhere at or after `from`.
pub proof fn lemma_first_occurrence(text: Seq<char>, pattern: Seq<char>, from: int)
    requires
        0 <= from,
    ensures
        match first_occurrence_from(text, pattern, from) {
            Some(at) => from <= at && occurs_at(text, pattern, at) && forall|j: int|
                from <= j < at ==> !occurs_at(text, pattern, j),
            None => forall|j: int| from <= j ==> !occurs_at(text, pattern, j),
        },
    decreases text.len() + 1 - from,
{
    if from + pattern.len() > text.len() {
    } else if occurs_at(text, pattern, from) {
    } else {
        lemma_first_occurrence(text, pattern, from + 1);
    }
}

/// The last occurrence is an occurrence, and no later position below `below`
/// is one; where there is none, the pattern stands nowhere below `below`.
pub proof fn lemma_last_occurrence(text: Seq<char>, pattern: Seq<char>, below: int)
    ensures
        match last_occurrence_below(text, pattern, below) {
            Some(at) => at < below && occurs_at(text, pattern, at) && forall|j: int|
                at < j < below ==> !occurs_at(text, pattern, j),
            None => forall|j: int| j < below ==> !occurs_at(text, pattern, j),
        },
    decreases below,
{
    if below <= 0 {
    } else if occurs_at(text, pattern, below - 1) {
    } else {
        lemma_last_occurrence(text, pattern, below - 1);
    }
}

/// The characters of a string, in order.
pub fn chars_of(s: &str) -> (v: Vec<char>)
    ensures
        v@ == s@,
{
    let mut v: Vec<char> = Vec::new();
    for c in it: s.chars()
        invariant
            v@ == it.seq().take(it.index()),
            it.seq() == s@,
    {
        v.push(c);
    }
    v
}

/// Whether `pattern` stands in `text` at position `at`.
pub fn matches_at(text: &Vec<char>, pattern: &Vec<char>, at: usize) -> (b: bool)
    ensures
        b == occurs_at(text@, pattern@, at as int),
{
    if pattern.len() > text.len() || at > text.len() - pattern.len() {
        return false;
    }
    let mut k: usize = 0;
    while k < pattern.len()
        invariant
            k <= pattern.len(),
            at + pattern.len() <= text.len(),
            forall|j: int| 0 <= j < k ==> text@[at + j] == pattern@[j],
        decreases pattern.len() - k,
    {
        if text[at + k] != pattern[k] {
            proof {
                assert(text@.subrange(at as int, at + pattern@.len())[k as int] == text@[at + k]);
            }
            return false;
        }
        k = k + 1;
    }
    proof {
        assert(text@.subrange(at as int, at + pattern@.len()) =~= pattern@);
    }
    true
}

/// Position of the first occurrence of `pattern` in `text`.
pub fn find(text: &Vec<char>, pattern: &Vec<char>) -> (r: Option<usize>)
    ensures
        match r {
            Some(at) => first_occurrence(text@, pattern@) == Some(at as int),
            None => first_occurrence(text@, pattern@) is None,
        },
{
    if pattern.len() > text.len() {
        return None;
    }
    let last: usize = text.len() - pattern.len();
    let mut i: usize = 0;
    loop
        invariant
            i <= last,
            last + pattern.len() == text.len(),
            first_occurrence(text@, pattern@) == first_occurrence_from(text@, pattern@, i as int),
        decreases last - i,
    {
        if matches_at(text, pattern, i) {
            return Some(i);
        }
        if i == last {
            assert(first_occurrence_from(text@, pattern@, i as int + 1) is None);
            return None;
        }
        i = i + 1;
    }
}

/// Position of the last occurrence of `pattern` in `text`.
pub fn rfind(text: &Vec<char>, pattern: &Vec<char>) -> (r: Option<usize>)
    ensures
        match r {
            Some(at) => last_occurrence(text@, pattern@) == Some(at as int),
            None => last_occurrence(text@, pattern@) is None,
        },
{
    if pattern.len() > text.len() {
        proof {
            lemma_last_occurrence(text@, pattern@, text@.len() as int + 1);
        }
        return None;
    }
    let mut at: usize = text.len() - pattern.len();
    proof {
        lemma_no_occurrence_past_end(text@, pattern@, text@.len() as int + 1, at as int + 1);
    }
    loop
        invariant
            at + pattern.len() <= text.len(),
            last_occurrence(text@, pattern@) == last_occurrence_below(text@, pattern@, at as int + 1),
        decreases at,
    {
        if matches_at(text, pattern, at) {
            return Some(at);
        }
        if at == 0 {
            assert(last_occurrence_below(text@, pattern@, 0) is None);
            return None;
        }
        at = at - 1;
    }
}

/// Positions too close to the end of the text hold no occurrence, so a search
/// from the end may start where the pattern still fits.
pub proof fn lemma_no_occurrence_past_end(text: Seq<char>, pattern: Seq<char>, below: int, fit: int)
    requires
        fit + pattern.len() == text.len() + 1,
        fit <= below,
    ensures
        last_occurrence_below(text, pattern, below) == last_occurrence_below(text, pattern, fit),
    decreases below - fit,
{
    if below > fit {
        lemma_no_occurrence_past_end(text, pattern, below - 1, fit);
    }
}

/// `s` without its leading white space.
pub open spec fn trim_start(s: Seq<char>) -> Seq<char>
    decreases s.len(),
{
    if s.len() > 0 && is_white_space(s[0]) {
        trim_start(s.drop_first())
    } else {
        s
    }
}

/// `s` without its trailing white space.
pub open spec fn trim_end(s: Seq<char>) -> Seq<char>
    decreases s.len(),
{
    if s.len() > 0 && is_white_space(s.last()) {
        trim_end(s.drop_last())
    } else {
        s
    }
}

/// `s` without its leading and trailing white space.
pub open spec fn trimmed(s: Seq<char>) -> Seq<char> {
    trim_end(trim_start(s))
}

/// Bounds of the part of `text[start..end]` that is left when leading and
/// trailing white space is taken away.
pub fn trim_range(text: &Vec<char>, start: usize, end: usize) -> (r: (usize, usize))
    requires
        start <= end <= text.len(),
    ensures
        start <= r.0 <= r.1 <= end,
        text@.subrange(r.0 as int, r.1 as int) == trimmed(text@.subrange(start as int, end as int)),
{
    let mut a: usize = start;
    while a < end && text[a].is_whitespace()
        invariant
            start <= a <= end <= text.len(),
            trim_start(text@.subrange(start as int, end as int)) == trim_start(
                text@.subrange(a as int, end as int),
            ),
        decreases end - a,
    {
        proof {
            let cur = text@.subrange(a as int, end as int);
            assert(cur.drop_first() =~= text@.subrange(a as int + 1, end as int));
        }
        a = a + 1;
    }
    let mut b: usize = end;
    while a < b && text[b - 1].is_whitespace()
        invariant
            a <= b <= end <= text.len(),
            trimmed(text@.subrange(start as int, end as int)) == trim_end(
                text@.subrange(a as int, b as int),
            ),
        decreases b - a,
    {
        proof {
            let cur = text@.subrange(a as int, b as int);
            assert(cur.drop_last() =~= text@.subrange(a as int, b as int - 1));
        }
        b = b - 1;
    }
    (a, b)
}

/// Length of the first line of `s`: the position of its first line feed, or
/// its length where it has none.
pub open spec fn line_end(s: Seq<char>) -> int
    decreases s.len(),
{
    if s.len() == 0 || s[0] == '\n' {
        0
    } else {
        1 + line_end(s.drop_first())
    }
}

/// `line_end` is the first position that holds a line feed or ends the text.
pub proof fn lemma_line_end(s: Seq<char>, n: int)
    requires
        0 <= n <= s.len(),
        forall|k: int| 0 <= k < n ==> s[k] != '\n',
        n == s.len() || s[n] == '\n',
    ensures
        line_end(s) == n,
    decreases n,
{
    if n > 0 {
        lemma_line_end(s.drop_first(), n - 1);
    }
}

/// Every character of `s` is an ASCII decimal digit.
pub open spec fn all_digits(s: Seq<char>) -> bool {
    forall|k: int| 0 <= k < s.len() ==> is_digit(#[trigger] s[k])
}

/// The number that the digits of `s` write in base ten.
pub open spec fn decimal_value(s: Seq<char>) -> nat
    decreases s.len(),
{
    if s.len() == 0 {
        0
    } else {
        10 * decimal_value(s.drop_last()) + ((s.last() as u32 - '0' as u32) as nat)
    }
}

/// Reading more digits never makes the number smaller.
pub proof fn lemma_decimal_prefix(s: Seq<char>, k: int)
    requires
        all_digits(s),
        0 <= k <= s.len(),
    ensures
        decimal_value(s.take(k)) <= decimal_value(s),
    decreases s.len() - k,
{
    if k == s.len() {
        assert(s.take(k) =~= s);
    } else {
        lemma_decimal_prefix(s, k + 1);
        let longer = s.take(k + 1);
        assert(longer.drop_last() =~= s.take(k));
    }
}

/// Whether every character of `text[start..end]` is an ASCII decimal digit.
pub fn digits_only(text: &Vec<char>, start: usize, end: usize) -> (b: bool)
    requires
        start <= end <= text.len(),
    ensures
        b == all_digits(text@.subrange(start as int, end as int)),
{
    let mut i: usize = start;
    while i < end
        invariant
            start <= i <= end <= text.len(),
            forall|k: int| start <= k < i ==> is_digit(#[trigger] text@[k]),
        decreases end - i,
    {
        let c = text[i];
        if !('0' <= c && c <= '9') {
            proof {
                assert(text@.subrange(start as int, end as int)[i - start] == text@[i as int]);
            }
            return false;
        }
        i = i + 1;
    }
    proof {
        let part = text@.subrange(start as int, end as int);
        assert forall|k: int| 0 <= k < part.len() implies is_digit(#[trigger] part[k]) by {
            assert(part[k] == text@[start + k]);
        }
    }
    true
}

/// The number written by the digits `text[start..end]`, where it fits in 32
/// bits.
pub fn parse_decimal(text: &Vec<char>, start: usize, end: usize) -> (r: Option<u32>)
    requires
        start <= end <= text.len(),
        all_digits(text@.subrange(start as int, end as int)),
    ensures
        match r {
            Some(v) => v == decimal_value(text@.subrange(start as int, end as int)),
            None => decimal_value(text@.subrange(start as int, end as int)) > u32::MAX,
        },
{
    let ghost digits = text@.subrange(start as int, end as int);
    let mut value: u64 = 0;
    let mut i: usize = start;
    proof {
        assert(digits.take(0) =~= Seq::<char>::empty());
    }
    while i < end
        invariant
            start <= i <= end <= text.len(),
            digits == text@.subrange(start as int, end as int),
            all_digits(digits),
            value == decimal_value(digits.take(i - start)),
            value <= u32::MAX,
        decreases end - i,
    {
        let c = text[i];
        proof {
            assert(digits[i - start] == c);
            assert(is_digit(digits[i - start]));
            let longer = digits.take(i - start + 1);
            assert(longer.drop_last() =~= digits.take(i - start));
            assert(longer.last() == c);
        }
        let d: u64 = (c as u32 - '0' as u32) as u64;
        let next: u64 = value * 10 + d;
        if next > 0xffff_ffff {
            proof {
                lemma_decimal_prefix(digits, i - start + 1);
            }
            return None;
        }
        value = next;
        i = i + 1;
    }
    proof {
        assert(digits.take(end - start) =~= digits);
    }
    Some(value as u32)
}

} // verus!
