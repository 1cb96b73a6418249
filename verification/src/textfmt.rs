//! Small verified text helpers: decimal rendering of integers, zero-padding,
//! and substring predicates over strings, used by the path and document
//! builders.

use vstd::prelude::*;
use vstd::string::*;

verus! {

/// Character for one decimal digit.
pub open spec fn spec_digit_char(d: nat) -> char {
    if d == 0 {
        '0'
    } else if d == 1 {
        '1'
    } else if d == 2 {
        '2'
    } else if d == 3 {
        '3'
    } else if d == 4 {
        '4'
    } else if d == 5 {
        '5'
    } else if d == 6 {
        '6'
    } else if d == 7 {
        '7'
    } else if d == 8 {
        '8'
    } else {
        '9'
    }
}

/// Decimal rendering of a natural number, most significant digit first,
/// without leading zeros (except for zero itself).
pub open spec fn spec_dec(n: nat) -> Seq<char>
    decreases n,
{
    if n < 10 {
        seq![spec_digit_char(n)]
    } else {
        spec_dec(n / 10) + seq![spec_digit_char(n % 10)]
    }
}

/// Decimal rendering padded with leading zeros to at least three characters.
pub open spec fn spec_pad3(n: nat) -> Seq<char> {
    if n < 10 {
        seq!['0', '0'] + spec_dec(n)
    } else if n < 100 {
        seq!['0'] + spec_dec(n)
    } else {
        spec_dec(n)
    }
}

/// Relies on std's `String::push`: appends exactly one character.
#[verifier::external_body]
pub fn push_char(s: &mut String, c: char)
    ensures
        final(s)@ == old(s)@.push(c),
{
    s.push(c);
}

fn digit_char(d: u32) -> (c: char)
    requires
        d < 10,
    ensures
        c == spec_digit_char(d as nat),
{
    match d {
        0 => '0',
        1 => '1',
        2 => '2',
        3 => '3',
        4 => '4',
        5 => '5',
        6 => '6',
        7 => '7',
        8 => '8',
        _ => '9',
    }
}

/// Decimal rendering of a `u32`, e.g. `205` renders as `"205"`.
pub fn u32_string(n: u32) -> (r: String)
    ensures
        r@ == spec_dec(n as nat),
    decreases n,
{
    if n < 10 {
        let mut s = String::new();
        push_char(&mut s, digit_char(n));
        assert(s@ =~= spec_dec(n as nat));
        s
    } else {
        let mut s = u32_string(n / 10);
        push_char(&mut s, digit_char(n % 10));
        assert(s@ =~= spec_dec(n as nat));
        s
    }
}

/// Decimal rendering of a `usize`.
pub fn usize_string(n: usize) -> (r: String)
    ensures
        r@ == spec_dec(n as nat),
    decreases n,
{
    if n < 10 {
        let mut s = String::new();
        push_char(&mut s, digit_char((n % 10) as u32));
        assert(s@ =~= spec_dec(n as nat));
        s
    } else {
        let mut s = usize_string(n / 10);
        push_char(&mut s, digit_char((n % 10) as u32));
        assert(s@ =~= spec_dec(n as nat));
        s
    }
}

/// Decimal rendering of a `usize` padded to at least three characters,
/// e.g. `5` renders as `"005"`.
pub fn pad3_string(n: usize) -> (r: String)
    ensures
        r@ == spec_pad3(n as nat),
{
    let mut s = String::new();
    if n < 10 {
        push_char(&mut s, '0');
        push_char(&mut s, '0');
    } else if n < 100 {
        push_char(&mut s, '0');
    }
    let d = usize_string(n);
    s.append(d.as_str());
    assert(s@ =~= spec_pad3(n as nat));
    s
}

/// The needle `n` occurs in the haystack `h` starting at position `i`.
pub open spec fn spec_match_at(h: Seq<char>, n: Seq<char>, i: int) -> bool {
    0 <= i && i + n.len() <= h.len() && h.subrange(i, i + n.len() as int) == n
}

/// The needle `n` occurs somewhere in the haystack `h`.
pub open spec fn spec_contains(h: Seq<char>, n: Seq<char>) -> bool {
    exists|i: int| spec_match_at(h, n, i)
}

/// `h` ends with the suffix `n`.
pub open spec fn spec_ends_with(h: Seq<char>, n: Seq<char>) -> bool {
    n.len() <= h.len() && h.subrange(h.len() - n.len(), h.len() as int) == n
}

/// `h` starts with the prefix `n`.
pub open spec fn spec_starts_with(h: Seq<char>, n: Seq<char>) -> bool {
    n.len() <= h.len() && h.subrange(0, n.len() as int) == n
}

fn match_at(h: &str, n: &str, i: usize) -> (r: bool)
    requires
        i + n@.len() <= h@.len(),
    ensures
        r == spec_match_at(h@, n@, i as int),
{
    let hl = h.unicode_len();
    let nl = n.unicode_len();
    let mut j: usize = 0;
    while j < nl
        invariant
            i + nl <= hl,
            hl == h@.len(),
            nl == n@.len(),
            j <= nl,
            forall|k: int| 0 <= k < j ==> h@[i + k] == n@[k],
        decreases nl - j,
    {
        if h.get_char(i + j) != n.get_char(j) {
            proof {
                assert(h@.subrange(i as int, i + n@.len())[j as int] == h@[i + j]);
            }
            return false;
        }
        j += 1;
    }
    proof {
        assert(h@.subrange(i as int, i + n@.len()) =~= n@);
    }
    true
}

/// Whether the string `h` contains `n` as a substring.
pub fn str_contains(h: &str, n: &str) -> (r: bool)
    ensures
        r == spec_contains(h@, n@),
{
    let hl = h.unicode_len();
    let nl = n.unicode_len();
    if nl > hl {
        return false;
    }
    let mut i: usize = 0;
    while i < hl - nl
        invariant
            nl <= hl,
            hl == h@.len(),
            nl == n@.len(),
            i <= hl - nl,
            forall|k: int| 0 <= k < i ==> !spec_match_at(h@, n@, k),
        decreases hl - nl - i,
    {
        if match_at(h, n, i) {
            return true;
        }
        i += 1;
    }
    if match_at(h, n, hl - nl) {
        return true;
    }
    false
}

/// Whether the string `h` ends with `n`.
pub fn str_ends_with(h: &str, n: &str) -> (r: bool)
    ensures
        r == spec_ends_with(h@, n@),
{
    let hl = h.unicode_len();
    let nl = n.unicode_len();
    if nl > hl {
        return false;
    }
    match_at(h, n, hl - nl)
}

/// Whether the string `h` starts with `n`.
pub fn str_starts_with(h: &str, n: &str) -> (r: bool)
    ensures
        r == spec_starts_with(h@, n@),
{
    let hl = h.unicode_len();
    let nl = n.unicode_len();
    if nl > hl {
        return false;
    }
    match_at(h, n, 0)
}

/// Index of the last occurrence of `c` in `s`, or `-1` when `c` does not
/// occur.
pub open spec fn spec_last_index_of(s: Seq<char>, c: char) -> int
    decreases s.len(),
{
    if s.len() == 0 {
        -1
    } else if s[s.len() - 1] == c {
        s.len() - 1
    } else {
        spec_last_index_of(s.subrange(0, s.len() - 1), c)
    }
}

pub proof fn lemma_last_index_of(s: Seq<char>, c: char)
    ensures
        -1 <= spec_last_index_of(s, c) < s.len(),
        spec_last_index_of(s, c) >= 0 ==> s[spec_last_index_of(s, c)] == c,
        forall|k: int| spec_last_index_of(s, c) < k < s.len() ==> s[k] != c,
    decreases s.len(),
{
    if s.len() > 0 && s[s.len() - 1] != c {
        let sub = s.subrange(0, s.len() - 1);
        lemma_last_index_of(sub, c);
        assert forall|k: int| spec_last_index_of(s, c) < k < s.len() implies s[k] != c by {
            if k < s.len() - 1 {
                assert(sub[k] == s[k]);
            }
        }
    }
}

proof fn lemma_last_index_of_unique(s: Seq<char>, c: char, i: int)
    requires
        0 <= i < s.len(),
        s[i] == c,
        forall|k: int| i < k < s.len() ==> s[k] != c,
    ensures
        spec_last_index_of(s, c) == i,
    decreases s.len(),
{
    if i < s.len() - 1 {
        lemma_last_index_of_unique(s.subrange(0, s.len() - 1), c, i);
    }
}

/// Position of the last occurrence of `c` in `s`, if any.
pub fn last_index_of(s: &str, c: char) -> (r: Option<usize>)
    ensures
        match r {
            Some(i) => spec_last_index_of(s@, c) == i as int,
            None => spec_last_index_of(s@, c) == -1,
        },
{
    let mut i = s.unicode_len();
    while i > 0
        invariant
            i <= s@.len(),
            forall|k: int| i <= k < s@.len() ==> s@[k] != c,
        decreases i,
    {
        i -= 1;
        if s.get_char(i) == c {
            proof {
                lemma_last_index_of_unique(s@, c, i as int);
            }
            return Some(i);
        }
    }
    proof {
        lemma_last_index_of(s@, c);
    }
    None
}

/// Copy of the characters of `s` from `from` (inclusive) to `to` (exclusive).
pub fn substring_copy(s: &str, from: usize, to: usize) -> (r: String)
    requires
        from <= to <= s@.len(),
    ensures
        r@ == s@.subrange(from as int, to as int),
{
    let sub = s.substring_char(from, to);
    let mut r = String::new();
    r.append(sub);
    assert(r@ =~= s@.subrange(from as int, to as int));
    r
}

/// A decimal digit character.
pub open spec fn spec_is_digit(c: char) -> bool {
    c == '0' || c == '1' || c == '2' || c == '3' || c == '4' || c == '5' || c == '6' || c == '7'
        || c == '8' || c == '9'
}

/// A decimal rendering is at least one character long and holds digit
/// characters only.
pub proof fn lemma_dec_digits(n: nat)
    ensures
        spec_dec(n).len() >= 1,
        forall|k: int| 0 <= k < spec_dec(n).len() ==> spec_is_digit(#[trigger] spec_dec(n)[k]),
    decreases n,
{
    if n >= 10 {
        lemma_dec_digits(n / 10);
        assert forall|k: int| 0 <= k < spec_dec(n).len() implies spec_is_digit(
            #[trigger] spec_dec(n)[k],
        ) by {
            if k < spec_dec(n / 10).len() {
                assert(spec_dec(n)[k] == spec_dec(n / 10)[k]);
            } else {
                assert(spec_dec(n)[k] == spec_digit_char(n % 10));
            }
        }
    }
}

/// Two numbers with the same decimal rendering are equal.
pub proof fn lemma_dec_injective(a: nat, b: nat)
    requires
        spec_dec(a) == spec_dec(b),
    ensures
        a == b,
    decreases a,
{
    if a < 10 && b < 10 {
        assert(spec_dec(a) =~= seq![spec_digit_char(a)]);
        assert(spec_dec(b) =~= seq![spec_digit_char(b)]);
        assert(seq![spec_digit_char(a)][0] == spec_digit_char(a));
        assert(seq![spec_digit_char(b)][0] == spec_digit_char(b));
        assert(spec_digit_char(a) == spec_digit_char(b));
    } else if a >= 10 && b >= 10 {
        assert(spec_dec(a).last() == spec_digit_char(a % 10));
        assert(spec_dec(b).last() == spec_digit_char(b % 10));
        assert(a % 10 == b % 10);
        assert(spec_dec(a).drop_last() =~= spec_dec(a / 10));
        assert(spec_dec(b).drop_last() =~= spec_dec(b / 10));
        lemma_dec_injective(a / 10, b / 10);
    } else if a < 10 {
        lemma_dec_digits(b / 10);
        assert(spec_dec(b).len() >= 2);
        assert(spec_dec(a).len() == 1);
        assert(false);
    } else {
        lemma_dec_digits(a / 10);
        assert(spec_dec(a).len() >= 2);
        assert(spec_dec(b).len() == 1);
        assert(false);
    }
}

} // verus!
