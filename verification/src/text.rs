//! Character-level string utilities.
//!
//! All parsing in this crate works over `Seq<char>` views of strings.
//! The executable helpers here materialise a `&str` as a `Vec<char>`,
//! search and slice it, and rebuild owned `String`s.

use vstd::prelude::*;

verus! {

/// `sub` occurs in `s` starting at position `i`.
pub open spec fn matches_at(s: Seq<char>, sub: Seq<char>, i: int) -> bool {
    0 <= i && i + sub.len() <= s.len() && s.subrange(i, i + sub.len() as int) == sub
}

/// `sub` occurs somewhere in `s`.
pub open spec fn contains_seq(s: Seq<char>, sub: Seq<char>) -> bool {
    exists|i: int| matches_at(s, sub, i)
}

/// Index of the first occurrence of `c` in `s`, if any.
pub open spec fn find_char_spec(s: Seq<char>, c: char) -> Option<int>
    decreases s.len(),
{
    if s.len() == 0 {
        None
    } else if s[0] == c {
        Some(0int)
    } else {
        match find_char_spec(s.subrange(1, s.len() as int), c) {
            Some(i) => Some(i + 1),
            None => None,
        }
    }
}

/// `find_char_spec` returns the first occurrence: nothing equal to `c`
/// stands before it, and a `None` means `c` does not occur at all.
pub proof fn lemma_find_char_spec(s: Seq<char>, c: char)
    ensures
        match find_char_spec(s, c) {
            Some(i) => 0 <= i < s.len() && s[i] == c && (forall|j: int|
                0 <= j < i ==> s[j] != c),
            None => forall|j: int| 0 <= j < s.len() ==> s[j] != c,
        },
    decreases s.len(),
{
    if s.len() > 0 && s[0] != c {
        let rest = s.subrange(1, s.len() as int);
        lemma_find_char_spec(rest, c);
        assert(forall|j: int| 1 <= j < s.len() ==> s[j] == rest[j - 1]);
    }
}

/// The characterisation determines the value of `find_char_spec`.
pub proof fn lemma_find_char_spec_of_first(s: Seq<char>, c: char, i: int)
    requires
        0 <= i < s.len(),
        s[i] == c,
        forall|j: int| 0 <= j < i ==> s[j] != c,
    ensures
        find_char_spec(s, c) == Some(i),
{
    lemma_find_char_spec(s, c);
    match find_char_spec(s, c) {
        Some(k) => {
            if k < i {
                assert(s[k] == c);
            } else if k > i {
                assert(s[i] != c);
            }
        },
        None => {
            assert(s[i] != c);
        },
    }
}

/// A run with no occurrence of `c` determines a `None`.
pub proof fn lemma_find_char_spec_none(s: Seq<char>, c: char)
    requires
        forall|j: int| 0 <= j < s.len() ==> s[j] != c,
    ensures
        find_char_spec(s, c) == None::<int>,
{
    lemma_find_char_spec(s, c);
    match find_char_spec(s, c) {
        Some(k) => {
            assert(s[k] != c);
        },
        None => {},
    }
}

/// The characters of `s`, in order.
pub fn chars_of(s: &str) -> (r: Vec<char>)
    ensures
        r@ == s@,
{
    let n = s.unicode_len();
    let mut v: Vec<char> = Vec::new();
    let mut i: usize = 0;
    while i < n
        invariant
            n == s@.len(),
            i <= n,
            v@ == s@.subrange(0, i as int),
        decreases n - i,
    {
        v.push(s.get_char(i));
        assert(v@ =~= s@.subrange(0, i + 1 as int));
        i += 1;
    }
    proof {
        assert(v@ =~= s@);
    }
    v
}

/// Relies on `String::push`: appends one character to the string.
#[verifier::external_body]
fn push_char(s: &mut String, c: char)
    ensures
        final(s)@ == old(s)@.push(c),
{
    s.push(c)
}

/// An owned string holding exactly the given characters.
pub fn string_of(chars: &Vec<char>) -> (r: String)
    ensures
        r@ == chars@,
{
    let mut s = String::new();
    let mut i: usize = 0;
    while i < chars.len()
        invariant
            i <= chars@.len(),
            s@ == chars@.subrange(0, i as int),
        decreases chars@.len() - i,
    {
        push_char(&mut s, chars[i]);
        assert(s@ =~= chars@.subrange(0, i + 1 as int));
        i += 1;
    }
    proof {
        assert(s@ =~= chars@);
    }
    s
}

/// A copy of `s[from..to]`.
pub fn subvec(s: &Vec<char>, from: usize, to: usize) -> (r: Vec<char>)
    requires
        from <= to <= s@.len(),
    ensures
        r@ == s@.subrange(from as int, to as int),
{
    let mut v: Vec<char> = Vec::new();
    let mut i: usize = from;
    while i < to
        invariant
            from <= i <= to <= s@.len(),
            v@ == s@.subrange(from as int, i as int),
        decreases to - i,
    {
        v.push(s[i]);
        assert(v@ =~= s@.subrange(from as int, i + 1 as int));
        i += 1;
    }
    v
}

/// First index of `c` in `s`, scanning left to right.
pub fn find_char(s: &Vec<char>, c: char) -> (r: Option<usize>)
    ensures
        match r {
            Some(i) => find_char_spec(s@, c) == Some(i as int),
            None => find_char_spec(s@, c) == None::<int>,
        },
{
    let mut i: usize = 0;
    while i < s.len()
        invariant
            i <= s@.len(),
            forall|j: int| 0 <= j < i ==> s@[j] != c,
        decreases s@.len() - i,
    {
        if s[i] == c {
            proof {
                lemma_find_char_spec_of_first(s@, c, i as int);
            }
            return Some(i);
        }
        i += 1;
    }
    proof {
        lemma_find_char_spec_none(s@, c);
    }
    None
}

/// Whether `sub` occurs in `s` as a contiguous run.
pub fn contains_chars(s: &Vec<char>, sub: &Vec<char>) -> (r: bool)
    ensures
        r == contains_seq(s@, sub@),
{
    let n = s.len();
    let m = sub.len();
    if m > n {
        proof {
            assert forall|i: int| !matches_at(s@, sub@, i) by {
                if 0 <= i && i + sub@.len() <= s@.len() {
                    assert(sub@.len() <= s@.len());
                }
            }
        }
        return false;
    }
    let mut i: usize = 0;
    while i <= n - m
        invariant
            m == sub@.len(),
            n == s@.len(),
            m <= n,
            i <= n - m + 1,
            forall|k: int| 0 <= k < i ==> !matches_at(s@, sub@, k),
        decreases n - m + 1 - i,
    {
        let mut j: usize = 0;
        while j < m && s[i + j] == sub[j]
            invariant
                m == sub@.len(),
                n == s@.len(),
                i <= n - m,
                j <= m,
                forall|l: int| 0 <= l < j ==> s@[i + l] == sub@[l],
            decreases m - j,
        {
            j += 1;
        }
        if j == m {
            proof {
                assert(s@.subrange(i as int, i + sub@.len() as int) =~= sub@);
                assert(matches_at(s@, sub@, i as int));
            }
            return true;
        }
        proof {
            if matches_at(s@, sub@, i as int) {
                assert(s@.subrange(i as int, i + sub@.len() as int)[j as int] == sub@[j as int]);
            }
        }
        i += 1;
    }
    proof {
        assert forall|k: int| !matches_at(s@, sub@, k) by {
            if 0 <= k && k + sub@.len() <= s@.len() {
                assert(k < i);
            }
        }
    }
    false
}

/// `c` is a decimal digit.
pub open spec fn is_dec_digit(c: char) -> bool {
    48 <= c as u32 <= 57
}

/// The numeric value of a digit character.
pub open spec fn digit_value(c: char) -> nat {
    (c as u32 - 48) as nat
}

/// Every character of `s` is a decimal digit.
pub open spec fn all_dec_digits(s: Seq<char>) -> bool {
    forall|i: int| 0 <= i < s.len() ==> is_dec_digit(s[i])
}

/// The value of a digit string read in base ten.
pub open spec fn dec_value(s: Seq<char>) -> nat
    decreases s.len(),
{
    if s.len() == 0 {
        0
    } else {
        dec_value(s.drop_last()) * 10 + digit_value(s.last())
    }
}

/// Longer digit prefixes never describe smaller numbers.
proof fn lemma_dec_value_prefix_le(s: Seq<char>, i: int)
    requires
        0 <= i <= s.len(),
    ensures
        dec_value(s.subrange(0, i)) <= dec_value(s),
    decreases s.len() - i,
{
    if i < s.len() {
        lemma_dec_value_prefix_le(s, i + 1);
        let p = s.subrange(0, i + 1);
        assert(p.drop_last() =~= s.subrange(0, i));
        assert(dec_value(s.subrange(0, i)) <= dec_value(p));
    } else {
        assert(s.subrange(0, i) =~= s);
    }
}

/// The digits of a decimal literal: everything after an optional
/// leading `+`.
pub open spec fn dec_body(s: Seq<char>) -> Seq<char> {
    if s.len() >= 1 && s[0] == '+' {
        s.subrange(1, s.len() as int)
    } else {
        s
    }
}

/// The value a string denotes as a `u64` under Rust's decimal grammar:
/// an optional leading `+`, then one or more digits, no larger than
/// `u64::MAX`.
pub open spec fn u64_dec_parse(s: Seq<char>) -> Option<u64> {
    if dec_body(s).len() > 0 && all_dec_digits(dec_body(s)) && dec_value(dec_body(s)) <= u64::MAX {
        Some(dec_value(dec_body(s)) as u64)
    } else {
        None
    }
}

/// Parse a `u64` from decimal text, as `str::parse::<u64>` reads it.
pub fn parse_u64(s: &Vec<char>) -> (r: Option<u64>)
    ensures
        r == u64_dec_parse(s@),
{
    let ghost body = dec_body(s@);
    let start: usize = if s.len() >= 1 && s[0] == '+' {
        1
    } else {
        0
    };
    proof {
        assert(body =~= s@.subrange(start as int, s@.len() as int));
    }
    if s.len() == start {
        return None;
    }
    let mut acc: u64 = 0;
    let mut i: usize = start;
    while i < s.len()
        invariant
            start <= i <= s@.len(),
            start < s@.len(),
            body == dec_body(s@),
            body == s@.subrange(start as int, s@.len() as int),
            all_dec_digits(body.subrange(0, i - start)),
            acc == dec_value(body.subrange(0, i - start)),
        decreases s@.len() - i,
    {
        let c = s[i];
        let cv = c as u32;
        if !(48 <= cv && cv <= 57) {
            proof {
                assert(body[i - start] == s@[i as int]);
                assert(!is_dec_digit(body[i - start]));
                assert(!all_dec_digits(body));
            }
            return None;
        }
        let d: u64 = (cv - 48) as u64;
        let shifted = match acc.checked_mul(10) {
            Some(v) => v,
            None => {
                proof {
                    let p = body.subrange(0, i - start + 1);
                    assert(p.drop_last() =~= body.subrange(0, i - start));
                    assert(p.last() == body[i - start]);
                    assert(body[i - start] == s@[i as int]);
                    assert(digit_value(p.last()) == d);
                    assert(dec_value(p) == acc * 10 + d);
                    assert(dec_value(p) > u64::MAX);
                    lemma_dec_value_prefix_le(body, i - start + 1);
                    assert(dec_value(body) > u64::MAX);
                }
                return None;
            },
        };
        let next = match shifted.checked_add(d) {
            Some(v) => v,
            None => {
                proof {
                    let p = body.subrange(0, i - start + 1);
                    assert(p.drop_last() =~= body.subrange(0, i - start));
                    assert(p.last() == body[i - start]);
                    assert(body[i - start] == s@[i as int]);
                    assert(digit_value(p.last()) == d);
                    assert(dec_value(p) == acc * 10 + d);
                    assert(dec_value(p) > u64::MAX);
                    lemma_dec_value_prefix_le(body, i - start + 1);
                    assert(dec_value(body) > u64::MAX);
                }
                return None;
            },
        };
        acc = next;
        proof {
            let p = body.subrange(0, i - start + 1);
            assert(p.drop_last() =~= body.subrange(0, i - start));
            assert(p.last() == body[i - start]);
        }
        i += 1;
    }
    proof {
        assert(body.subrange(0, body.len() as int) =~= body);
    }
    Some(acc)
}

/// The character for a digit value below ten.
pub open spec fn digit_char(d: nat) -> char {
    ((d + 48) as u8) as char
}

/// The decimal text of `n`, most significant digit first.
pub open spec fn dec_string_of(n: nat) -> Seq<char>
    decreases n,
{
    if n < 10 {
        seq![digit_char(n)]
    } else {
        dec_string_of(n / 10).push(digit_char(n % 10))
    }
}

/// Render `n` in decimal.
pub fn u64_to_dec_string(n: u64) -> (r: String)
    ensures
        r@ == dec_string_of(n as nat),
{
    let mut rev: Vec<char> = Vec::new();
    let mut rest: u64 = n;
    proof {
        assert(dec_string_of(n as nat) =~= dec_string_of(n as nat) + rev@.reverse());
    }
    loop
        invariant_except_break
            dec_string_of(n as nat) == dec_string_of(rest as nat) + rev@.reverse(),
        ensures
            dec_string_of(n as nat) == rev@.reverse(),
        decreases rest,
    {
        let d: u8 = (rest % 10) as u8;
        let c: char = (d + 48) as char;
        let next = rest / 10;
        proof {
            assert(c == digit_char((rest % 10) as nat));
            if rest >= 10 {
                assert(dec_string_of(rest as nat) == dec_string_of((rest / 10) as nat).push(
                    digit_char((rest % 10) as nat),
                ));
                assert(dec_string_of((rest / 10) as nat).push(c) + rev@.reverse()
                    =~= dec_string_of((rest / 10) as nat) + rev@.push(c).reverse());
            } else {
                assert(dec_string_of(rest as nat) == seq![c]);
                assert(seq![c] + rev@.reverse() =~= rev@.push(c).reverse());
            }
        }
        rev.push(c);
        if rest < 10 {
            proof {
                assert(dec_string_of(n as nat) =~= rev@.reverse());
            }
            break;
        }
        rest = next;
    }
    let mut s = String::new();
    let mut i: usize = rev.len();
    while i > 0
        invariant
            i <= rev@.len(),
            dec_string_of(n as nat) == rev@.reverse(),
            s@ == rev@.reverse().subrange(0, rev@.len() - i),
        decreases i,
    {
        i -= 1;
        push_char(&mut s, rev[i]);
        assert(s@ =~= rev@.reverse().subrange(0, rev@.len() - i));
    }
    proof {
        assert(s@ =~= rev@.reverse());
    }
    s
}

/// Concatenate two strings.
pub fn concat_str(a: &str, b: &str) -> (r: String)
    ensures
        r@ == a@ + b@,
{
    let mut s = String::from_str(a);
    s.append(b);
    s
}

} // verus!
