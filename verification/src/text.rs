//! Decimal text: how unsigned numbers are written into messages and read
//! back from headers and addresses.

use vstd::prelude::*;
use vstd::std_specs::iter::IteratorSpec;

verus! {

/// The character that stands for the digit `d`.
pub open spec fn digit_char(d: nat) -> char {
    if d == 0 {
        '0'
    } else if d == 1 {
        '1'
    } else if d == 2 {
        '2'
    } else if d == 3 {
        '3'
    } else if d == 4 {
        '4'
    } else if d == 5 {
        '5'
    } else if d == 6 {
        '6'
    } else if d == 7 {
        '7'
    } else if d == 8 {
        '8'
    } else {
        '9'
    }
}

/// The decimal numeral of `n`, without leading zeros.
pub open spec fn decimal(n: nat) -> Seq<char>
    decreases n,
{
    if n < 10 {
        seq![digit_char(n)]
    } else {
        decimal(n / 10).push(digit_char(n % 10))
    }
}

/// The one-character text of a digit.
fn digit_str(d: u64) -> (s: &'static str)
    requires
        d < 10,
    ensures
        s@ == seq![digit_char(d as nat)],
{
    proof {
        reveal_strlit("0");
        reveal_strlit("1");
        reveal_strlit("2");
        reveal_strlit("3");
        reveal_strlit("4");
        reveal_strlit("5");
        reveal_strlit("6");
        reveal_strlit("7");
        reveal_strlit("8");
        reveal_strlit("9");
    }
    let s = if d == 0 {
        "0"
    } else if d == 1 {
        "1"
    } else if d == 2 {
        "2"
    } else if d == 3 {
        "3"
    } else if d == 4 {
        "4"
    } else if d == 5 {
        "5"
    } else if d == 6 {
        "6"
    } else if d == 7 {
        "7"
    } else if d == 8 {
        "8"
    } else {
        "9"
    };
    assert(s@ =~= seq![digit_char(d as nat)]);
    s
}

/// Appends the decimal numeral of `n` to `out`.
pub fn push_decimal(out: &mut String, n: u64)
    ensures
        final(out)@ == old(out)@ + decimal(n as nat),
    decreases n,
{
    if n >= 10 {
        push_decimal(out, n / 10);
    }
    out.append(digit_str(n % 10));
    assert(out@ =~= old(out)@ + decimal(n as nat));
}

/// The decimal numeral of `n` as a string of its own.
pub fn decimal_string(n: u64) -> (s: String)
    ensures
        s@ == decimal(n as nat),
{
    let mut s = String::new();
    push_decimal(&mut s, n);
    assert(s@ =~= decimal(n as nat));
    s
}

/// The characters of `s`, one by one.
pub fn chars_of(s: &str) -> (chars: Vec<char>)
    ensures
        chars@ == s@,
{
    broadcast use vstd::string::group_string_axioms;

    let mut chars: Vec<char> = Vec::new();
    let mut it = s.chars();
    assert(it.remaining() == s@);
    loop
        invariant
            it.obeys_prophetic_iter_laws(),
            it.decrease() is Some,
            chars@ + it.remaining() == s@,
        decreases it.decrease()->0,
    {
        let ghost before = it.remaining();
        match it.next() {
            Some(c) => {
                chars.push(c);
                assert(chars@ + it.remaining() =~= chars@.drop_last() + before);
            },
            None => {
                assert(chars@ + it.remaining() =~= chars@);
                return chars;
            },
        }
    }
}

/// Whether `c` is one of the ten digits.
pub open spec fn is_digit(c: char) -> bool {
    '0' <= c && c <= '9'
}

/// The number that the digit `c` stands for.
pub open spec fn digit_value(c: char) -> nat {
    (c as u32 - '0' as u32) as nat
}

/// The number that a run of digits stands for; 0 for the empty run.
pub open spec fn digits_value(digits: Seq<char>) -> nat
    decreases digits.len(),
{
    if digits.len() == 0 {
        0
    } else {
        digits_value(digits.drop_last()) * 10 + digit_value(digits.last())
    }
}

/// Whether `digits` holds nothing but digits.
pub open spec fn all_digits(digits: Seq<char>) -> bool {
    forall|i: int| 0 <= i < digits.len() ==> is_digit(#[trigger] digits[i])
}

/// The text without the plus sign that may stand in front of a number.
pub open spec fn unsigned_part(text: Seq<char>) -> Seq<char> {
    if text.len() > 0 && text[0] == '+' {
        text.drop_first()
    } else {
        text
    }
}

/// The number that `text` is the decimal numeral of: an optional plus sign,
/// then one digit or more, standing for a value that fits 64 bits.
pub open spec fn parsed_decimal(text: Seq<char>) -> Option<u64> {
    let digits = unsigned_part(text);
    if digits.len() > 0 && all_digits(digits) && digits_value(digits) <= u64::MAX {
        Some(digits_value(digits) as u64)
    } else {
        None
    }
}

/// A run of digits stands for at least as much as any run it starts with.
pub proof fn lemma_digits_value_grows(digits: Seq<char>, upto: int)
    requires
        0 <= upto <= digits.len(),
    ensures
        digits_value(digits.take(upto)) <= digits_value(digits),
    decreases digits.len() - upto,
{
    if upto < digits.len() {
        lemma_digits_value_grows(digits, upto + 1);
        assert(digits.take(upto + 1).drop_last() =~= digits.take(upto));
    } else {
        assert(digits.take(upto) =~= digits);
    }
}

/// Reads the decimal numeral `text`.
pub fn parse_decimal(text: &str) -> (r: Option<u64>)
    ensures
        r == parsed_decimal(text@),
{
    let chars = chars_of(text);
    assert(chars@.subrange(0, chars@.len() as int) =~= text@);
    parse_decimal_chars(&chars, 0, chars.len())
}

/// Reads the decimal numeral that stands in `chars` from `from` up to `to`.
#[verifier::loop_isolation(false)]
pub fn parse_decimal_chars(chars: &Vec<char>, from: usize, to: usize) -> (r: Option<u64>)
    requires
        from <= to <= chars.len(),
    ensures
        r == parsed_decimal(chars@.subrange(from as int, to as int)),
{
    let ghost text = chars@.subrange(from as int, to as int);
    let mut i: usize = from;
    if i < to && chars[i] == '+' {
        assert(text[0] == '+');
        i += 1;
    } else {
        assert(text.len() > 0 ==> text[0] == chars@[from as int]);
    }
    let start = i;
    let ghost digits = unsigned_part(text);
    assert(digits =~= chars@.subrange(start as int, to as int));
    if i == to {
        return None;
    }
    let mut value: u64 = 0;
    assert(digits.take(0) =~= Seq::<char>::empty());
    while i < to
        invariant
            start <= i <= to <= chars.len(),
            digits == chars@.subrange(start as int, to as int),
            all_digits(digits.take(i - start)),
            value == digits_value(digits.take(i - start)),
        decreases to - i,
    {
        let c = chars[i];
        let ghost seen = digits.take(i - start);
        let ghost next = digits.take(i - start + 1);
        assert(digits[i - start] == c);
        assert(next.drop_last() =~= seen);
        assert(next.last() == c);
        if !('0' <= c && c <= '9') {
            assert(!is_digit(digits[i - start]));
            return None;
        }
        let d: u64 = (c as u32 - '0' as u32) as u64;
        if value > (u64::MAX - d) / 10 {
            proof {
                assert(digits_value(next) > u64::MAX);
                lemma_digits_value_grows(digits, i - start + 1);
            }
            return None;
        }
        value = value * 10 + d;
        assert(all_digits(next)) by {
            assert forall|j: int| 0 <= j < next.len() implies is_digit(#[trigger] next[j]) by {
                if j < seen.len() {
                    assert(next[j] == seen[j]);
                }
            }
        }
        i += 1;
    }
    assert(digits.take(i - start) =~= digits);
    Some(value)
}

/// The decimal numeral of `n`, with a minus sign in front where it is
/// negative.
pub open spec fn signed_decimal(n: int) -> Seq<char> {
    if n < 0 {
        seq!['-'] + decimal((-n) as nat)
    } else {
        decimal(n as nat)
    }
}

/// Appends the numeral of `minuend - subtrahend` to `out`, with a minus
/// sign in front where the difference is negative.
pub fn push_difference(out: &mut String, minuend: u64, subtrahend: u64)
    ensures
        final(out)@ == old(out)@ + signed_decimal(minuend - subtrahend),
{
    if minuend >= subtrahend {
        push_decimal(out, minuend - subtrahend);
    } else {
        proof {
            reveal_strlit("-");
        }
        out.append("-");
        push_decimal(out, subtrahend - minuend);
        assert(out@ =~= old(out)@ + signed_decimal(minuend - subtrahend));
    }
}

/// A numeral is made of digits and stands for its number.
pub proof fn lemma_decimal_digits(n: nat)
    ensures
        decimal(n).len() > 0,
        all_digits(decimal(n)),
        digits_value(decimal(n)) == n,
    decreases n,
{
    if n < 10 {
        assert(decimal(n).drop_last() =~= Seq::<char>::empty());
        assert(digits_value(decimal(n).drop_last()) == 0);
    } else {
        lemma_decimal_digits(n / 10);
        let front = decimal(n / 10);
        let last = digit_char(n % 10);
        assert(decimal(n).drop_last() =~= front);
        assert(decimal(n).last() == last);
        assert(digit_value(last) == n % 10);
        assert forall|i: int| 0 <= i < decimal(n).len() implies is_digit(
            #[trigger] decimal(n)[i],
        ) by {
            if i < front.len() {
                assert(decimal(n)[i] == front[i]);
            }
        }
    }
}

/// What is written as a numeral is read back as the same number.
pub proof fn lemma_decimal_round_trip(n: u64)
    ensures
        parsed_decimal(decimal(n as nat)) == Some(n),
{
    lemma_decimal_digits(n as nat);
    let text = decimal(n as nat);
    assert(is_digit(text[0]));
    assert(unsigned_part(text) == text);
}

} // verus!
