//! Unsigned decimal numbers as text: which texts denote a number, which
//! number they denote, and how a number is written.

use vstd::prelude::*;
use vstd::string::StringExecFns;

verus! {

/// `c` is one of the ten ASCII digits.
pub open spec fn is_digit(c: char) -> bool {
    '0' <= c && c <= '9'
}

/// The number that an ASCII digit stands for.
pub open spec fn digit_value(c: char) -> nat {
    (c as u32 - 48) as nat
}

/// The ASCII digit that stands for `d`, for `d` below ten.
pub open spec fn digit_char(d: nat) -> char {
    (d + 48) as char
}

/// Every character of `s` is an ASCII digit.
pub open spec fn all_digits(s: Seq<char>) -> bool {
    forall|i: int| 0 <= i < s.len() ==> is_digit(#[trigger] s[i])
}

/// The number that a run of digits denotes, most significant digit first.
/// The empty run denotes zero.
pub open spec fn value(s: Seq<char>) -> nat
    decreases s.len(),
{
    if s.len() == 0 {
        0
    } else {
        value(s.drop_last()) * 10 + digit_value(s.last())
    }
}

/// The digits of a text that may begin with one plus sign.
pub open spec fn unsigned_digits(s: Seq<char>) -> Seq<char> {
    if s.len() > 0 && s[0] == '+' {
        s.drop_first()
    } else {
        s
    }
}

/// The number that `s` denotes as a run of digits no larger than `max`: at
/// least one digit and nothing else. Leading zeros are accepted. Everything
/// else, the empty text and a text with a sign included, denotes nothing.
pub open spec fn parse_digits(s: Seq<char>, max: nat) -> Option<nat> {
    if s.len() > 0 && all_digits(s) && value(s) <= max {
        Some(value(s))
    } else {
        None
    }
}

/// The number that `s` denotes as an unsigned decimal no larger than `max`:
/// an optional plus sign followed by a run of digits. A lone sign denotes
/// nothing.
pub open spec fn parse(s: Seq<char>, max: nat) -> Option<nat> {
    parse_digits(unsigned_digits(s), max)
}

/// The shortest run of digits that denotes `n`.
pub open spec fn repr(n: nat) -> Seq<char>
    decreases n,
{
    if n < 10 {
        seq![digit_char(n)]
    } else {
        repr(n / 10).push(digit_char(n % 10))
    }
}

/// A longer run of digits never denotes less than one of its prefixes.
pub proof fn lemma_value_prefix(s: Seq<char>, k: int)
    requires
        0 <= k <= s.len(),
    ensures
        value(s.take(k)) <= value(s),
    decreases s.len() - k,
{
    if k < s.len() {
        lemma_value_prefix(s, k + 1);
        assert(s.take(k + 1).drop_last() =~= s.take(k));
    } else {
        assert(s.take(k) =~= s);
    }
}

/// What `repr` writes is a non-empty run of digits.
pub proof fn lemma_repr_digits(n: nat)
    ensures
        repr(n).len() > 0,
        all_digits(repr(n)),
    decreases n,
{
    if n >= 10 {
        lemma_repr_digits(n / 10);
    }
}

/// What `repr` writes denotes the number it was written for.
pub proof fn lemma_value_repr(n: nat)
    ensures
        value(repr(n)) == n,
    decreases n,
{
    if n < 10 {
        assert(repr(n).drop_last() =~= Seq::<char>::empty());
        assert(value(repr(n).drop_last()) == 0);
    } else {
        lemma_value_repr(n / 10);
        assert(repr(n).drop_last() =~= repr(n / 10));
    }
}

/// Writing a number and reading it back gives the number, as long as it is
/// within the bound.
pub proof fn lemma_parse_repr(n: nat, max: nat)
    requires
        n <= max,
    ensures
        parse_digits(repr(n), max) == Some(n),
        parse(repr(n), max) == Some(n),
{
    lemma_repr_digits(n);
    lemma_value_repr(n);
    assert(is_digit(repr(n)[0]));
}

/// Reads the characters from `start` on as a run of digits no larger than
/// `max`. A start past the end leaves nothing to read.
pub fn read_digits(chars: &Vec<char>, start: usize, max: u64) -> (r: Option<u64>)
    ensures
        start > chars.len() ==> r is None,
        start <= chars.len() ==> match r {
            Some(n) => parse_digits(chars@.skip(start as int), max as nat) == Some(n as nat),
            None => parse_digits(chars@.skip(start as int), max as nat) is None,
        },
{
    if start >= chars.len() {
        return None;
    }
    let ghost digits = chars@.skip(start as int);
    let mut i: usize = start;
    let mut acc: u64 = 0;
    while i < chars.len()
        invariant
            start <= i <= chars.len(),
            digits == chars@.skip(start as int),
            all_digits(digits.take(i - start)),
            acc as nat == value(digits.take(i - start)),
            acc <= max,
        decreases chars.len() - i,
    {
        let c = chars[i];
        if !('0' <= c && c <= '9') {
            assert(!is_digit(digits[i - start]));
            return None;
        }
        let d: u64 = (c as u8 - 48) as u64;
        let ghost next = digits.take(i - start + 1);
        assert(next.drop_last() =~= digits.take(i - start));
        assert(next.last() == c);
        assert(value(next) == acc * 10 + d);
        if d > max || acc > (max - d) / 10 {
            proof {
                lemma_value_prefix(digits, i - start + 1);
            }
            return None;
        }
        acc = acc * 10 + d;
        i += 1;
    }
    assert(digits.take(i - start) =~= digits);
    Some(acc)
}

/// Reads the characters from `start` on as an unsigned decimal no larger
/// than `max`: an optional plus sign, then a run of digits. A start past
/// the end leaves nothing to read.
pub fn parse_decimal(chars: &Vec<char>, start: usize, max: u64) -> (r: Option<u64>)
    ensures
        start > chars.len() ==> r is None,
        start <= chars.len() ==> match r {
            Some(n) => parse(chars@.skip(start as int), max as nat) == Some(n as nat),
            None => parse(chars@.skip(start as int), max as nat) is None,
        },
{
    if start > chars.len() {
        return None;
    }
    let signed = start < chars.len() && chars[start] == '+';
    let first: usize = if signed {
        start + 1
    } else {
        start
    };
    assert(chars@.skip(first as int) =~= unsigned_digits(chars@.skip(start as int)));
    read_digits(chars, first, max)
}

/// The one-character text of a digit.
fn digit_str(d: u64) -> (r: &'static str)
    requires
        d < 10,
    ensures
        r@ == seq![digit_char(d as nat)],
{
    proof {
        reveal_strlit("0");
        reveal_strlit("1");
        reveal_strlit("2");
        reveal_strlit("3");
        reveal_strlit("4");
        reveal_strlit("5");
        reveal_strlit("6");
        reveal_strlit("7");
        reveal_strlit("8");
        reveal_strlit("9");
    }
    let r = if d == 0 {
        "0"
    } else if d == 1 {
        "1"
    } else if d == 2 {
        "2"
    } else if d == 3 {
        "3"
    } else if d == 4 {
        "4"
    } else if d == 5 {
        "5"
    } else if d == 6 {
        "6"
    } else if d == 7 {
        "7"
    } else if d == 8 {
        "8"
    } else {
        "9"
    };
    assert(r@ =~= seq![digit_char(d as nat)]);
    r
}

/// Appends the decimal form of `n` to `out`.
pub fn push_decimal(out: &mut String, n: u64)
    ensures
        final(out)@ == old(out)@ + repr(n as nat),
    decreases n,
{
    if n >= 10 {
        push_decimal(out, n / 10);
    }
    out.append(digit_str(n % 10));
    assert(out@ =~= old(out)@ + repr(n as nat));
}

/// The decimal form of `n`.
pub fn format_decimal(n: u64) -> (r: String)
    ensures
        r@ == repr(n as nat),
{
    let mut out = String::new();
    push_decimal(&mut out, n);
    assert(out@ =~= repr(n as nat));
    out
}

} // verus!
