//! Verified helpers over `&str` and `String`: equality, substring search,
//! first/last occurrence, line truncation, and decimal rendering of integers.

use vstd::prelude::*;

verus! {

/// `needle` occurs in `s` starting at position `i`.
pub open spec fn match_at(s: Seq<char>, needle: Seq<char>, i: int) -> bool {
    0 <= i && i + needle.len() <= s.len() && s.subrange(i, i + needle.len()) == needle
}

/// `needle` occurs somewhere in `s`.
pub open spec fn contains_seq(s: Seq<char>, needle: Seq<char>) -> bool {
    exists|i: int| match_at(s, needle, i)
}

/// `s` begins with `needle`.
pub open spec fn starts_with_seq(s: Seq<char>, needle: Seq<char>) -> bool {
    needle.len() <= s.len() && s.subrange(0, needle.len() as int) == needle
}

/// `s` ends with `needle`.
pub open spec fn ends_with_seq(s: Seq<char>, needle: Seq<char>) -> bool {
    needle.len() <= s.len() && s.subrange(s.len() - needle.len(), s.len() as int) == needle
}

/// Compare two string slices by their character sequences.
pub fn str_eq(a: &str, b: &str) -> (r: bool)
    ensures
        r == (a@ == b@),
{
    let na = a.unicode_len();
    let nb = b.unicode_len();
    if na != nb {
        return false;
    }
    let mut i: usize = 0;
    while i < na
        invariant
            i <= na,
            na == a@.len(),
            na == b@.len(),
            forall|j: int| 0 <= j < i ==> a@[j] == b@[j],
        decreases na - i,
    {
        if a.get_char(i) != b.get_char(i) {
            return false;
        }
        i = i + 1;
    }
    proof {
        assert(a@ =~= b@);
    }
    true
}

/// Does `needle` occur at position `i` of `s`?
pub fn occurs_at(s: &str, needle: &str, i: usize) -> (r: bool)
    ensures
        r == match_at(s@, needle@, i as int),
{
    let sl = s.unicode_len();
    let n = needle.unicode_len();
    if i > sl || n > sl - i {
        return false;
    }
    let mut j: usize = 0;
    while j < n
        invariant
            j <= n,
            i + n <= sl,
            sl == s@.len(),
            n == needle@.len(),
            forall|k: int| 0 <= k < j ==> s@[i + k] == needle@[k],
        decreases n - j,
    {
        if s.get_char(i + j) != needle.get_char(j) {
            proof {
                assert(s@.subrange(i as int, i + n) != needle@) by {
                    if s@.subrange(i as int, i + n) == needle@ {
                        assert(s@.subrange(i as int, i + n)[j as int] == s@[i + j]);
                    }
                }
            }
            return false;
        }
        j = j + 1;
    }
    proof {
        assert(s@.subrange(i as int, i + n) =~= needle@);
    }
    true
}

/// Last position at which `needle` occurs in `s`, scanning from `from` downward.
pub open spec fn last_match_from(s: Seq<char>, needle: Seq<char>, from: int) -> Option<int>
    decreases from + 1,
{
    if from < 0 {
        None
    } else if match_at(s, needle, from) {
        Some(from)
    } else {
        last_match_from(s, needle, from - 1)
    }
}

/// Last position at which `needle` occurs anywhere in `s`.
pub open spec fn last_match(s: Seq<char>, needle: Seq<char>) -> Option<int> {
    last_match_from(s, needle, s.len() - needle.len())
}

/// A found last match is a match.
pub proof fn lemma_last_match_is_match(s: Seq<char>, needle: Seq<char>, from: int)
    ensures
        match last_match_from(s, needle, from) {
            Some(i) => match_at(s, needle, i),
            None => true,
        },
    decreases from + 1,
{
    if from >= 0 && !match_at(s, needle, from) {
        lemma_last_match_is_match(s, needle, from - 1);
    }
}

/// Does `needle` occur anywhere in `s`?
pub fn str_contains(s: &str, needle: &str) -> (r: bool)
    ensures
        r == contains_seq(s@, needle@),
{
    let sl = s.unicode_len();
    let n = needle.unicode_len();
    if n > sl {
        proof {
            assert(forall|i: int| !match_at(s@, needle@, i));
        }
        return false;
    }
    if n == 0 {
        proof {
            assert(s@.subrange(0, 0) =~= needle@);
            assert(match_at(s@, needle@, 0));
        }
        return true;
    }
    let mut i: usize = 0;
    while i <= sl - n
        invariant
            1 <= n <= sl,
            sl == s@.len(),
            n == needle@.len(),
            i <= sl - n + 1,
            forall|k: int| 0 <= k < i ==> !match_at(s@, needle@, k),
        decreases sl - n - i + 1,
    {
        if occurs_at(s, needle, i) {
            return true;
        }
        i = i + 1;
    }
    proof {
        assert(forall|k: int| match_at(s@, needle@, k) ==> 0 <= k <= sl - n);
    }
    false
}

/// Position of the last occurrence of `needle` in `s`, if there is one.
pub fn find_last(s: &str, needle: &str) -> (r: Option<usize>)
    ensures
        match r {
            Some(i) => last_match(s@, needle@) == Some(i as int),
            None => last_match(s@, needle@) is None,
        },
{
    let sl = s.unicode_len();
    let n = needle.unicode_len();
    if n > sl {
        proof {
            assert(last_match_from(s@, needle@, s@.len() - needle@.len()) is None) by {
                assert(s@.len() - needle@.len() < 0);
            }
        }
        return None;
    }
    let mut i: usize = sl - n;
    loop
        invariant
            n <= sl,
            sl == s@.len(),
            n == needle@.len(),
            i <= sl - n,
            last_match(s@, needle@) == last_match_from(s@, needle@, i as int),
        decreases i,
    {
        if occurs_at(s, needle, i) {
            return Some(i);
        }
        if i == 0 {
            proof {
                assert(last_match_from(s@, needle@, -1) is None);
            }
            return None;
        }
        i = i - 1;
    }
}

/// Does `s` begin with `needle`?
pub fn str_starts_with(s: &str, needle: &str) -> (r: bool)
    ensures
        r == starts_with_seq(s@, needle@),
{
    occurs_at(s, needle, 0)
}

/// Does `s` end with `needle`?
pub fn str_ends_with(s: &str, needle: &str) -> (r: bool)
    ensures
        r == ends_with_seq(s@, needle@),
{
    let sl = s.unicode_len();
    let n = needle.unicode_len();
    if n > sl {
        return false;
    }
    occurs_at(s, needle, sl - n)
}

/// Position of the first occurrence of character `c` in `s`, if any,
/// at or after position `from`.
pub open spec fn first_char_from(s: Seq<char>, c: char, from: int) -> Option<int>
    decreases s.len() - from,
{
    if from < 0 || from >= s.len() {
        None
    } else if s[from] == c {
        Some(from)
    } else {
        first_char_from(s, c, from + 1)
    }
}

/// The prefix of `s` up to (excluding) the first occurrence of `c`,
/// or all of `s` when `c` does not occur.
pub open spec fn prefix_until_char(s: Seq<char>, c: char) -> Seq<char> {
    match first_char_from(s, c, 0) {
        Some(i) => s.subrange(0, i),
        None => s,
    }
}

/// The substring of `s` up to (excluding) the first occurrence of `c`.
pub fn take_until_char(s: &str, c: char) -> (r: String)
    ensures
        r@ == prefix_until_char(s@, c),
{
    let sl = s.unicode_len();
    let mut i: usize = 0;
    while i < sl
        invariant
            i <= sl,
            sl == s@.len(),
            first_char_from(s@, c, 0) == first_char_from(s@, c, i as int),
            forall|j: int| 0 <= j < i ==> s@[j] != c,
        decreases sl - i,
    {
        if s.get_char(i) == c {
            let pre = s.substring_char(0, i);
            proof {
                assert(first_char_from(s@, c, i as int) == Some(i as int));
            }
            return String::from_str(pre);
        }
        i = i + 1;
    }
    proof {
        assert(first_char_from(s@, c, i as int) is None);
    }
    String::from_str(s)
}

/// The decimal digit character for `d`.
pub open spec fn digit_char(d: int) -> char {
    if d == 0 {
        '0'
    } else if d == 1 {
        '1'
    } else if d == 2 {
        '2'
    } else if d == 3 {
        '3'
    } else if d == 4 {
        '4'
    } else if d == 5 {
        '5'
    } else if d == 6 {
        '6'
    } else if d == 7 {
        '7'
    } else if d == 8 {
        '8'
    } else {
        '9'
    }
}

/// The usual decimal rendering of a natural number, most significant digit first.
pub open spec fn dec_str(n: nat) -> Seq<char>
    decreases n,
{
    if n < 10 {
        seq![digit_char(n as int)]
    } else {
        dec_str(n / 10) + seq![digit_char((n % 10) as int)]
    }
}

/// One decimal digit as a string slice.
fn digit_str(d: u64) -> (r: &'static str)
    requires
        d < 10,
    ensures
        r@ =~= seq![digit_char(d as int)],
{
    proof {
        reveal_strlit("0");
        reveal_strlit("1");
        reveal_strlit("2");
        reveal_strlit("3");
        reveal_strlit("4");
        reveal_strlit("5");
        reveal_strlit("6");
        reveal_strlit("7");
        reveal_strlit("8");
        reveal_strlit("9");
    }
    if d == 0 {
        "0"
    } else if d == 1 {
        "1"
    } else if d == 2 {
        "2"
    } else if d == 3 {
        "3"
    } else if d == 4 {
        "4"
    } else if d == 5 {
        "5"
    } else if d == 6 {
        "6"
    } else if d == 7 {
        "7"
    } else if d == 8 {
        "8"
    } else {
        "9"
    }
}

/// Render `n` in decimal.
pub fn u64_to_dec(n: u64) -> (r: String)
    ensures
        r@ == dec_str(n as nat),
    decreases n,
{
    if n < 10 {
        String::from_str(digit_str(n))
    } else {
        let high = u64_to_dec(n / 10);
        high.concat(digit_str(n % 10))
    }
}

} // verus!
