//! Whole numbers in decimal notation.

use crate::text;
use vstd::prelude::*;

verus! {

pub open spec fn is_digit(c: char) -> bool {
    '0' <= c <= '9'
}

/// The value of a decimal digit.
pub open spec fn digit_value(c: char) -> nat {
    (c as u32 - '0' as u32) as nat
}

/// The number that a run of digits denotes.
pub open spec fn value_of(digits: Seq<char>) -> nat
    decreases digits.len(),
{
    if digits.len() == 0 {
        0
    } else {
        value_of(digits.drop_last()) * 10 + digit_value(digits.last())
    }
}

/// The number that a text denotes: one digit or more, and nothing else.
pub open spec fn digits_number(s: Seq<char>) -> Option<nat> {
    if s.len() > 0 && forall|i: int| 0 <= i < s.len() ==> is_digit(#[trigger] s[i]) {
        Some(value_of(s))
    } else {
        None
    }
}

/// The number that a text denotes: digits, with a plus sign before them or
/// not.
pub open spec fn unsigned_number(s: Seq<char>) -> Option<nat> {
    if s.len() > 0 && s[0] == '+' {
        digits_number(s.skip(1))
    } else {
        digits_number(s)
    }
}

/// The number that a text denotes: digits, with a plus or minus sign before
/// them or not.
pub open spec fn signed_number(s: Seq<char>) -> Option<int> {
    if s.len() > 0 && s[0] == '-' {
        match digits_number(s.skip(1)) {
            Some(n) => Some(-(n as int)),
            None => None,
        }
    } else {
        match unsigned_number(s) {
            Some(n) => Some(n as int),
            None => None,
        }
    }
}

/// Digits do not lower the value.
proof fn lemma_value_grows(s: Seq<char>, i: int)
    requires
        0 <= i <= s.len(),
    ensures
        value_of(s.take(i)) <= value_of(s),
    decreases s.len() - i,
{
    if i < s.len() {
        lemma_value_grows(s, i + 1);
        assert(s.take(i + 1).drop_last() =~= s.take(i));
    } else {
        assert(s.take(i) =~= s);
    }
}

/// Reads digits, where the number is no larger than `max`.
fn parse_digits(s: &str, max: u64) -> (r: Option<u64>)
    requires
        max >= 9,
    ensures
        (match r {
            Some(n) => n <= max && digits_number(s@) == Some(n as nat),
            None => digits_number(s@) is None || digits_number(s@)->0 > max,
        }),
{
    if s.is_empty() {
        return None;
    }
    let mut value: u64 = 0;
    for c in iter: s.chars()
        invariant
            iter.seq() == s@,
            value == value_of(s@.take(iter.index())),
            9 <= max,
            value <= max,
            forall|i: int| 0 <= i < iter.index() ==> is_digit(#[trigger] s@[i]),
    {
        if c < '0' || c > '9' {
            assert(!is_digit(s@[iter.index()]));
            return None;
        }
        let digit: u64 = (c as u32 - '0' as u32) as u64;
        proof {
            assert(s@.take(iter.index() + 1).drop_last() =~= s@.take(iter.index()));
            lemma_value_grows(s@, iter.index() + 1);
        }
        if value > max / 10 || value * 10 > max - digit {
            return None;
        }
        value = value * 10 + digit;
    }
    assert(s@.take(s@.len() as int) =~= s@);
    Some(value)
}

/// Reads a number that fits a `usize`.
pub fn parse_usize(s: &str) -> (r: Option<usize>)
    ensures
        (match r {
            Some(n) => unsigned_number(s@) == Some(n as nat),
            None => unsigned_number(s@) is None || unsigned_number(s@)->0 > usize::MAX,
        }),
{
    let digits: &str = match text::strip_prefix(s, "+") {
        Some(rest) => rest,
        None => s,
    };
    proof {
        reveal_strlit("+");
        assert("+"@ =~= seq!['+']);
        assert(s@.len() > 0 && s@[0] == '+' ==> seq!['+'].is_prefix_of(s@));
        if digits@ != s@ {
            assert(s@.skip(1) =~= digits@);
        }
    }
    match parse_digits(digits, usize::MAX as u64) {
        Some(n) => Some(n as usize),
        None => None,
    }
}

/// Reads a number that fits an `i64`.
pub fn parse_i64(s: &str) -> (r: Option<i64>)
    ensures
        (match r {
            Some(n) => signed_number(s@) == Some(n as int),
            None => signed_number(s@) is None || signed_number(s@)->0 < i64::MIN || signed_number(
                s@,
            )->0 > i64::MAX,
        }),
{
    proof {
        reveal_strlit("+");
        reveal_strlit("-");
        assert("+"@ =~= seq!['+']);
        assert("-"@ =~= seq!['-']);
    }
    match text::strip_prefix(s, "-") {
        Some(rest) => {
            assert(s@.skip(1) =~= rest@);
            match parse_digits(rest, 0x8000_0000_0000_0000) {
                Some(n) => Some((-(n as i128)) as i64),
                None => None,
            }
        },
        None => {
            assert(s@.len() > 0 && s@[0] == '-' ==> seq!['-'].is_prefix_of(s@));
            let digits: &str = match text::strip_prefix(s, "+") {
                Some(rest) => rest,
                None => s,
            };
            proof {
                assert(s@.len() > 0 && s@[0] == '+' ==> seq!['+'].is_prefix_of(s@));
                if digits@ != s@ {
                    assert(s@.skip(1) =~= digits@);
                }
            }
            match parse_digits(digits, i64::MAX as u64) {
                Some(n) => Some(n as i64),
                None => None,
            }
        },
    }
}

/// The digit of a value below ten.
pub open spec fn digit_of(n: nat) -> char {
    ('0' as u32 + n) as char
}

/// The digits of a number, without leading zeros.
pub open spec fn digits_of(n: nat) -> Seq<char>
    decreases n,
{
    if n < 10 {
        seq![digit_of(n)]
    } else {
        digits_of(n / 10).push(digit_of(n % 10))
    }
}

/// The text of a number, with a minus sign before it where it is negative.
pub open spec fn text_of(n: int) -> Seq<char> {
    if n < 0 {
        seq!['-'] + digits_of((-n) as nat)
    } else {
        digits_of(n as nat)
    }
}

fn push_digits(out: &mut String, n: u64)
    ensures
        final(out)@ == old(out)@ + digits_of(n as nat),
    decreases n,
{
    let digit: char = (48u8 + (n % 10) as u8) as char;
    if n >= 10 {
        push_digits(out, n / 10);
    }
    out.push(digit);
    assert(digit == digit_of((n % 10) as nat));
    assert(out@ =~= old(out)@ + digits_of(n as nat));
}

/// The text of a number.
pub fn print_i64(n: i64) -> (r: String)
    ensures
        r@ == text_of(n as int),
{
    let mut out = String::new();
    if n < 0 {
        out.push('-');
        assert(out@ =~= seq!['-']);
        push_digits(&mut out, (-(n as i128)) as u64);
    } else {
        push_digits(&mut out, n as u64);
    }
    assert(out@ =~= text_of(n as int));
    out
}

/// Every number has a text of digits that denotes it.
proof fn lemma_digits_denote(n: nat)
    ensures
        digits_number(digits_of(n)) == Some(n),
        is_digit(digits_of(n)[0]),
    decreases n,
{
    if n < 10 {
        let s = digits_of(n);
        assert(s.drop_last() =~= seq![]);
        assert(value_of(s.drop_last()) == 0);
        assert(digit_value(digit_of(n)) == n);
        assert(is_digit(s[0]));
    } else {
        lemma_digits_denote(n / 10);
        let init = digits_of(n / 10);
        let s = digits_of(n);
        assert(s.drop_last() =~= init);
        assert(digit_value(digit_of(n % 10)) == n % 10);
        assert forall|i: int| 0 <= i < s.len() implies is_digit(#[trigger] s[i]) by {
            if i < init.len() {
                assert(s[i] == init[i]);
            }
        }
        assert(s[0] == init[0]);
    }
}

/// A number that is printed and read again is the same number.
pub proof fn law_printed_number_reads_back(n: int)
    ensures
        signed_number(text_of(n)) == Some(n),
        n >= 0 ==> unsigned_number(text_of(n)) == Some(n as nat),
{
    if n < 0 {
        lemma_digits_denote((-n) as nat);
        assert(text_of(n).skip(1) =~= digits_of((-n) as nat));
    } else {
        lemma_digits_denote(n as nat);
    }
}

/// A digit behind a number makes it ten times as large, and adds itself. One
/// digit is its own value, and what is no digit makes it no number.
pub proof fn law_digit_behind_a_number(s: Seq<char>, c: char)
    ensures
        '0' <= c <= '9' && digits_number(s) is Some ==> digits_number(s.push(c)) == Some(
            (digits_number(s)->0 * 10 + (c as u32 - '0' as u32)) as nat,
        ),
        '0' <= c <= '9' ==> digits_number(seq![c]) == Some((c as u32 - '0' as u32) as nat),
        !('0' <= c <= '9') ==> digits_number(s.push(c)) is None,
        digits_number(seq![]) is None,
{
    let more = s.push(c);
    assert(more.drop_last() =~= s);
    assert(more[s.len() as int] == c);
    if '0' <= c <= '9' {
        if digits_number(s) is Some {
            assert forall|i: int| 0 <= i < more.len() implies is_digit(#[trigger] more[i]) by {
                if i < s.len() {
                    assert(more[i] == s[i]);
                }
            }
        }
        assert(seq![c].drop_last() =~= seq![]);
        assert(value_of(seq![c].drop_last()) == 0);
        assert(seq![c].last() == c);
        assert(forall|i: int| 0 <= i < seq![c].len() ==> is_digit(#[trigger] seq![c][i]));
    } else {
        assert(!is_digit(more[s.len() as int]));
    }
}

/// A plus sign before digits changes nothing, and a minus sign the sign; a text
/// that starts with neither denotes what its digits do.
pub proof fn law_sign_before_a_number(s: Seq<char>)
    ensures
        unsigned_number(seq!['+'] + s) == digits_number(s),
        digits_number(s) is Some ==> signed_number(seq!['+'] + s) == Some(
            digits_number(s)->0 as int,
        ),
        digits_number(s) is Some ==> signed_number(seq!['-'] + s) == Some(
            -(digits_number(s)->0 as int),
        ),
        digits_number(s) is None ==> signed_number(seq!['+'] + s) is None && signed_number(
            seq!['-'] + s,
        ) is None,
        s.len() == 0 || (s[0] != '+' && s[0] != '-') ==> unsigned_number(s) == digits_number(s)
            && (signed_number(s) is Some <==> digits_number(s) is Some) && (signed_number(
            s,
        ) is Some ==> signed_number(s)->0 == digits_number(s)->0),
{
    assert((seq!['+'] + s).skip(1) =~= s);
    assert((seq!['-'] + s).skip(1) =~= s);
}

/// The text of a number has a minus sign exactly where the number is negative,
/// and no zero before other digits.
pub proof fn law_text_of_a_number_is_plain(n: int)
    ensures
        text_of(n).len() > 0,
        n < 0 <==> text_of(n)[0] == '-',
        n >= 10 ==> text_of(n)[0] != '0',
    decreases n,
{
    if n < 0 {
    } else if n < 10 {
        lemma_digits_denote(n as nat);
    } else {
        law_text_of_a_number_is_plain(n / 10);
        lemma_digits_denote(n as nat);
        assert(text_of(n)[0] == text_of(n / 10)[0]);
        if n / 10 < 10 {
            assert(digits_of((n / 10) as nat) =~= seq![digit_of((n / 10) as nat)]);
        }
    }
}

} // verus!
