//! Decimal numerals: reading and writing unsigned integers.
use vstd::prelude::*;

use crate::text::chars_of;

verus! {

/// Whether `c` is one of the digits `0` to `9`.
pub open spec fn is_digit(c: char) -> bool {
    '0' <= c <= '9'
}

/// Whether `s` consists of digits only.
pub open spec fn all_digits(s: Seq<char>) -> bool {
    forall|i: int| 0 <= i < s.len() ==> is_digit(#[trigger] s[i])
}

/// The number that a row of digits stands for.
pub open spec fn digits_value(s: Seq<char>) -> nat
    decreases s.len(),
{
    if s.len() == 0 {
        0
    } else {
        10 * digits_value(s.drop_last()) + (s.last() as u32 - '0' as u32) as nat
    }
}

/// `s` without one leading plus sign.
pub open spec fn without_plus(s: Seq<char>) -> Seq<char> {
    if s.len() > 0 && s[0] == '+' {
        s.skip(1)
    } else {
        s
    }
}

/// The number that `s` spells: an optional plus sign and at least one digit,
/// with a value of at most `max`.
pub open spec fn parsed(s: Seq<char>, max: nat) -> Option<nat> {
    let body = without_plus(s);
    if body.len() > 0 && all_digits(body) && digits_value(body) <= max {
        Some(digits_value(body))
    } else {
        None
    }
}

/// The digit for a value below ten.
pub open spec fn digit_char(d: nat) -> char {
    ('0' as u32 + d) as u8 as char
}

/// The decimal numeral of `n`, without leading zeros.
pub open spec fn numeral(n: nat) -> Seq<char>
    decreases n,
{
    if n < 10 {
        seq![digit_char(n)]
    } else {
        numeral(n / 10).push(digit_char(n % 10))
    }
}

proof fn lemma_value_of_prefix(s: Seq<char>, k: int)
    requires
        0 <= k <= s.len(),
        all_digits(s),
    ensures
        digits_value(s.take(k)) <= digits_value(s),
    decreases s.len() - k,
{
    if k < s.len() {
        lemma_value_of_prefix(s, k + 1);
        assert(s.take(k + 1).drop_last() == s.take(k));
        assert(is_digit(s.take(k + 1).last()));
    } else {
        assert(s.take(k) == s);
    }
}

pub proof fn lemma_numeral_is_digits(n: nat)
    ensures
        numeral(n).len() > 0,
        all_digits(numeral(n)),
        digits_value(numeral(n)) == n,
    decreases n,
{
    if n < 10 {
        assert(numeral(n).drop_last() =~= Seq::<char>::empty());
        assert(digits_value(numeral(n).drop_last()) == 0);
    } else {
        lemma_numeral_is_digits(n / 10);
        assert(numeral(n).drop_last() == numeral(n / 10));
    }
}

/// Reading back the numeral of a number gives that number, wherever it fits.
pub proof fn law_numeral_reads_back(n: nat, max: nat)
    requires
        n <= max,
    ensures
        parsed(numeral(n), max) == Some(n),
{
    lemma_numeral_is_digits(n);
    assert(is_digit(numeral(n)[0]));
}

/// Different numbers have different numerals.
pub proof fn law_numerals_differ(a: nat, b: nat)
    requires
        numeral(a) == numeral(b),
    ensures
        a == b,
{
    lemma_numeral_is_digits(a);
    lemma_numeral_is_digits(b);
}

/// Reads an unsigned number of 64 bits.
pub fn parse_u64(s: &str) -> (r: Option<u64>)
    ensures
        match r {
            Some(n) => parsed(s@, u64::MAX as nat) == Some(n as nat),
            None => parsed(s@, u64::MAX as nat) is None,
        },
{
    let text = chars_of(s);
    let start: usize = if text.len() > 0 && text[0] == '+' {
        1
    } else {
        0
    };
    let ghost body = without_plus(s@);
    assert(body == s@.skip(start as int));
    if start == text.len() {
        return None;
    }
    let mut value: u64 = 0;
    let mut i: usize = start;
    assert(body.take(0) =~= Seq::<char>::empty());
    while i < text.len()
        invariant
            start <= i <= text@.len(),
            text@ == s@,
            body == s@.skip(start as int),
            body == without_plus(s@),
            forall|j: int| 0 <= j < i - start ==> is_digit(#[trigger] body[j]),
            value == digits_value(body.take(i - start)),
        decreases text@.len() - i,
    {
        let c = text[i];
        assert(body[i - start] == c);
        if !('0' <= c && c <= '9') {
            return None;
        }
        let d: u64 = c as u64 - 48;
        proof {
            assert(body.take(i - start + 1).drop_last() == body.take(i - start));
            assert(digits_value(body.take(i - start + 1)) == 10 * value + d);
            if all_digits(body) {
                lemma_value_of_prefix(body, i - start + 1);
            }
        }
        if value > (u64::MAX - d) / 10 {
            assert(10 * value + d > u64::MAX);
            return None;
        }
        value = 10 * value + d;
        i = i + 1;
    }
    assert(body.take(body.len() as int) == body);
    Some(value)
}

/// Reads an unsigned number of 32 bits.
pub fn parse_u32(s: &str) -> (r: Option<u32>)
    ensures
        match r {
            Some(n) => parsed(s@, u32::MAX as nat) == Some(n as nat),
            None => parsed(s@, u32::MAX as nat) is None,
        },
{
    match parse_u64(s) {
        Some(n) => {
            if n <= 0xffff_ffff {
                Some(n as u32)
            } else {
                None
            }
        },
        None => None,
    }
}

/// Writes an unsigned number as its decimal numeral.
pub fn print_u64(n: u64) -> (r: String)
    ensures
        r@ == numeral(n as nat),
    decreases n,
{
    if n < 10 {
        let mut out = String::new();
        out.push((48u8 + n as u8) as char);
        assert(out@ =~= numeral(n as nat));
        out
    } else {
        let mut out = print_u64(n / 10);
        out.push((48u8 + (n % 10) as u8) as char);
        out
    }
}

/// Numbers are read in base ten: a digit stands for itself, and each further digit
/// counts for ten times what stands before it. Nothing but digits is read, except
/// for one plus sign in front.
pub proof fn law_numbers_are_read_in_base_ten(s: Seq<char>, c: char, max: nat)
    ensures
        parsed(seq![c], max) is Some ==> '0' <= c <= '9' && parsed(seq![c], max)->0 == c as int
            - '0' as int,
        '0' <= c <= '9' && c as int - '0' as int <= max ==> parsed(seq![c], max) is Some,
        s.len() > 0 && s != seq!['+'] ==> {
            &&& parsed(s.push(c), max) is Some ==> {
                &&& '0' <= c <= '9'
                &&& parsed(s, max) is Some
                &&& parsed(s.push(c), max)->0 == 10 * parsed(s, max)->0 + (c as int - '0' as int)
            }
            &&& '0' <= c <= '9' && parsed(s, max) is Some && 10 * parsed(s, max)->0 + (c as int
                - '0' as int) <= max ==> parsed(s.push(c), max) is Some
        },
        parsed(s, max) is Some ==> parsed(s, max)->0 <= max,
        s.len() > 0 && '0' <= s[0] <= '9' ==> parsed(seq!['+'] + s, max) == parsed(s, max),
        parsed(seq![], max) is None,
        parsed(seq!['+'], max) is None,
{
    let one = seq![c];
    assert(one.drop_last() =~= seq![]);
    assert(digits_value(one.drop_last()) == 0);
    if c == '+' {
        assert(without_plus(one) =~= seq![]);
    } else {
        assert(without_plus(one) == one);
        assert(one[0] == c);
        if is_digit(c) {
            assert(all_digits(one));
            assert(digits_value(one) == (c as u32 - '0' as u32) as nat);
        }
    }
    assert(without_plus(seq!['+']) =~= seq![]);
    if s.len() > 0 && s != seq!['+'] {
        let more = s.push(c);
        let body = without_plus(s);
        assert(body.len() > 0) by {
            if s[0] == '+' && s.len() == 1 {
                assert(s =~= seq!['+']);
            }
        }
        assert(without_plus(more) =~= body.push(c));
        let all = body.push(c);
        assert(all.drop_last() =~= body);
        assert(all.last() == c);
        assert(all[body.len() as int] == c);
        if all_digits(all) {
            assert forall|i: int| 0 <= i < body.len() implies is_digit(#[trigger] body[i]) by {
                assert(all[i] == body[i]);
            }
        }
        if all_digits(body) && is_digit(c) {
            assert forall|i: int| 0 <= i < all.len() implies is_digit(#[trigger] all[i]) by {
                if i < body.len() {
                    assert(all[i] == body[i]);
                }
            }
        }
    }
    if s.len() > 0 && '0' <= s[0] <= '9' {
        assert(without_plus(seq!['+'] + s) =~= s);
        assert(without_plus(s) == s);
    }
}

/// A number is written in base ten, without zeros in front.
pub proof fn law_numbers_are_written_in_base_ten(n: nat)
    ensures
        numeral(n).len() > 0,
        n > 0 ==> numeral(n)[0] != '0',
        numeral(n).last() as int == '0' as int + n % 10,
        n >= 10 ==> numeral(n).drop_last() == numeral(n / 10),
        n < 10 ==> numeral(n).len() == 1,
    decreases n,
{
    if n >= 10 {
        law_numbers_are_written_in_base_ten(n / 10);
        assert(numeral(n).drop_last() =~= numeral(n / 10));
        assert(numeral(n)[0] == numeral(n / 10)[0]);
    }
}

} // verus!
