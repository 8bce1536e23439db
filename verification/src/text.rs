//! Text helpers shared by the protocol modules: searching for a character,
//! cutting a string at a position, and writing numbers in decimal.

use vstd::prelude::*;
use vstd::string::*;
use crate::search::{first_index_of, last_index_of, lemma_last_index_of};

verus! {

/// What follows the last `c` in `s`; all of `s` where it holds no `c`.
pub open spec fn after_last(s: Seq<char>, c: char) -> Seq<char> {
    s.subrange(last_index_of(s, c) + 1, s.len() as int)
}

/// Whether `s` ends with `suffix`.
pub open spec fn ends_with(s: Seq<char>, suffix: Seq<char>) -> bool {
    s.len() >= suffix.len() && s.subrange(s.len() - suffix.len(), s.len() as int) == suffix
}

/// Whether `s` begins with `prefix`.
pub open spec fn starts_with(s: Seq<char>, prefix: Seq<char>) -> bool {
    s.len() >= prefix.len() && s.subrange(0, prefix.len() as int) == prefix
}

/// `s` without `suffix` at its end; `s` itself where it does not end with it.
pub open spec fn without_suffix(s: Seq<char>, suffix: Seq<char>) -> Seq<char> {
    if ends_with(s, suffix) {
        s.subrange(0, s.len() - suffix.len())
    } else {
        s
    }
}

/// The decimal digit for `d`.
pub open spec fn digit_char(d: nat) -> char {
    if d == 0 {
        '0'
    } else if d == 1 {
        '1'
    } else if d == 2 {
        '2'
    } else if d == 3 {
        '3'
    } else if d == 4 {
        '4'
    } else if d == 5 {
        '5'
    } else if d == 6 {
        '6'
    } else if d == 7 {
        '7'
    } else if d == 8 {
        '8'
    } else {
        '9'
    }
}

/// `n` written in decimal, without leading zeros.
pub open spec fn decimal(n: nat) -> Seq<char>
    decreases n,
{
    if n < 10 {
        seq![digit_char(n)]
    } else {
        decimal(n / 10).push(digit_char(n % 10))
    }
}

/// Finds the last `c` in `s`.
pub fn find_last(s: &str, c: char) -> (r: Option<usize>)
    ensures
        match r {
            Some(i) => i as int == last_index_of(s@, c),
            None => last_index_of(s@, c) == -1,
        },
{
    broadcast use vstd::string::group_string_axioms;

    let total: usize = s.unicode_len();
    let mut found: Option<usize> = None;
    let mut n: usize = 0;
    let chars = s.chars();
    for ch in it: chars
        invariant
            it.seq() == s@,
            total == s@.len(),
            n == it.index(),
            match found {
                Some(i) => i as int == last_index_of(s@.take(n as int), c),
                None => last_index_of(s@.take(n as int), c) == -1,
            },
    {
        assert(s@.take(n + 1).drop_last() == s@.take(n as int));
        if ch == c {
            found = Some(n);
        }
        n = n + 1;
    }
    assert(s@.take(n as int) == s@);
    found
}

/// Finds the first `c` in `s`.
pub fn find_first(s: &str, c: char) -> (r: Option<usize>)
    ensures
        match r {
            Some(i) => i as int == first_index_of(s@, c),
            None => first_index_of(s@, c) == -1,
        },
{
    broadcast use vstd::string::group_string_axioms;

    let total: usize = s.unicode_len();
    let mut found: Option<usize> = None;
    let mut n: usize = 0;
    let chars = s.chars();
    for ch in it: chars
        invariant
            it.seq() == s@,
            total == s@.len(),
            n == it.index(),
            match found {
                Some(i) => i as int == first_index_of(s@.take(n as int), c),
                None => first_index_of(s@.take(n as int), c) == -1,
            },
    {
        assert(s@.take(n + 1).drop_last() == s@.take(n as int));
        if found.is_none() && ch == c {
            found = Some(n);
        }
        n = n + 1;
    }
    assert(s@.take(n as int) == s@);
    found
}

/// The characters of `s` from position `from` up to, not including, `to`.
pub fn substring(s: &str, from: usize, to: usize) -> (r: String)
    requires
        from <= to <= s@.len(),
    ensures
        r@ == s@.subrange(from as int, to as int),
{
    String::from_str(s.substring_char(from, to))
}

/// What follows the last `c` in `s`.
pub fn text_after_last(s: &str, c: char) -> (r: String)
    ensures
        r@ == after_last(s@, c),
{
    let total: usize = s.unicode_len();
    proof {
        lemma_last_index_of(s@, c);
    }
    match find_last(s, c) {
        Some(i) => substring(s, i + 1, total),
        None => substring(s, 0, total),
    }
}

/// Whether `s` ends with `suffix`.
pub fn has_suffix(s: &str, suffix: &str) -> (r: bool)
    ensures
        r == ends_with(s@, suffix@),
{
    let total: usize = s.unicode_len();
    let k: usize = suffix.unicode_len();
    if total < k {
        false
    } else {
        let tail: String = substring(s, total - k, total);
        let wanted: String = String::from_str(suffix);
        tail == wanted
    }
}

/// Whether `s` begins with `prefix`.
pub fn has_prefix(s: &str, prefix: &str) -> (r: bool)
    ensures
        r == starts_with(s@, prefix@),
{
    let total: usize = s.unicode_len();
    let k: usize = prefix.unicode_len();
    if total < k {
        false
    } else {
        let head: String = substring(s, 0, k);
        let wanted: String = String::from_str(prefix);
        head == wanted
    }
}

/// `s` without `suffix` at its end.
pub fn strip_suffix(s: &str, suffix: &str) -> (r: String)
    ensures
        r@ == without_suffix(s@, suffix@),
{
    let total: usize = s.unicode_len();
    let k: usize = suffix.unicode_len();
    if has_suffix(s, suffix) {
        substring(s, 0, total - k)
    } else {
        assert(s@.subrange(0, total as int) == s@);
        substring(s, 0, total)
    }
}

/// The literal for one decimal digit.
fn digit_text(d: u64) -> (r: &'static str)
    requires
        d < 10,
    ensures
        r@ == seq![digit_char(d as nat)],
{
    proof {
        reveal_strlit("0");
        reveal_strlit("1");
        reveal_strlit("2");
        reveal_strlit("3");
        reveal_strlit("4");
        reveal_strlit("5");
        reveal_strlit("6");
        reveal_strlit("7");
        reveal_strlit("8");
        reveal_strlit("9");
    }
    let r: &'static str = if d == 0 {
        "0"
    } else if d == 1 {
        "1"
    } else if d == 2 {
        "2"
    } else if d == 3 {
        "3"
    } else if d == 4 {
        "4"
    } else if d == 5 {
        "5"
    } else if d == 6 {
        "6"
    } else if d == 7 {
        "7"
    } else if d == 8 {
        "8"
    } else {
        "9"
    };
    assert(r@ =~= seq![digit_char(d as nat)]);
    r
}

/// Writes `n` in decimal.
pub fn decimal_string(n: u64) -> (r: String)
    ensures
        r@ == decimal(n as nat),
    decreases n,
{
    if n < 10 {
        String::from_str(digit_text(n))
    } else {
        let mut s: String = decimal_string(n / 10);
        s.append(digit_text(n % 10));
        s
    }
}

} // verus!
