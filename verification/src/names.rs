//! Decimal numerals and the stable identifiers of buffers.
//!
//! A channel's buffer is named by its stable identifier, the server's id and
//! the channel's id in decimal with a dot between them, where the server's id
//! is zero for a channel without a server. A server's buffer is named by the
//! server's id in decimal.

use vstd::prelude::*;

verus! {

/// The character of a decimal digit.
pub open spec fn digit_char(digit: int) -> char {
    if digit == 0 {
        '0'
    } else if digit == 1 {
        '1'
    } else if digit == 2 {
        '2'
    } else if digit == 3 {
        '3'
    } else if digit == 4 {
        '4'
    } else if digit == 5 {
        '5'
    } else if digit == 6 {
        '6'
    } else if digit == 7 {
        '7'
    } else if digit == 8 {
        '8'
    } else {
        '9'
    }
}

/// The decimal numeral of `n`, without leading zeros.
pub open spec fn decimal(n: nat) -> Seq<char>
    decreases n,
{
    if n < 10 {
        seq![digit_char(n as int)]
    } else {
        decimal(n / 10).push(digit_char((n % 10) as int))
    }
}

/// The stable identifier of the channel `channel_id` of the server
/// `server_id`.
pub open spec fn stable_id(server_id: u64, channel_id: u64) -> Seq<char> {
    decimal(server_id as nat) + seq!['.'] + decimal(channel_id as nat)
}

/// A numeral is not empty and holds no dot.
pub proof fn lemma_decimal_digits(n: nat)
    ensures
        decimal(n).len() >= 1,
        forall|i: int| 0 <= i < decimal(n).len() ==> decimal(n)[i] != '.',
    decreases n,
{
    if n >= 10 {
        lemma_decimal_digits(n / 10);
    }
}

/// Distinct numbers have distinct numerals.
pub proof fn lemma_decimal_injective(a: nat, b: nat)
    requires
        decimal(a) == decimal(b),
    ensures
        a == b,
    decreases a,
{
    lemma_decimal_digits(a / 10);
    lemma_decimal_digits(b / 10);
    if a < 10 && b < 10 {
        assert(decimal(a)[0] == digit_char(a as int));
        assert(decimal(b)[0] == digit_char(b as int));
    } else if a >= 10 && b >= 10 {
        let left = decimal(a / 10);
        let right = decimal(b / 10);
        assert(left.push(digit_char((a % 10) as int)).drop_last() == left);
        assert(right.push(digit_char((b % 10) as int)).drop_last() == right);
        assert(left.push(digit_char((a % 10) as int)).last() == digit_char((a % 10) as int));
        assert(right.push(digit_char((b % 10) as int)).last() == digit_char((b % 10) as int));
        lemma_decimal_injective(a / 10, b / 10);
    } else if a < 10 {
        assert(decimal(a).len() == 1);
        assert(decimal(b).len() == decimal(b / 10).len() + 1);
    } else {
        assert(decimal(b).len() == 1);
        assert(decimal(a).len() == decimal(a / 10).len() + 1);
    }
}

/// Stable identifiers are unique: two of them are equal only if both the
/// server ids and the channel ids are. That one identity always gives the
/// same identifier holds of any function.
pub proof fn lemma_stable_id_unique(server_a: u64, channel_a: u64, server_b: u64, channel_b: u64)
    ensures
        stable_id(server_a, channel_a) == stable_id(server_b, channel_b) <==> server_a
            == server_b && channel_a == channel_b,
{
    let a = stable_id(server_a, channel_a);
    let b = stable_id(server_b, channel_b);
    if a == b {
        let left = decimal(server_a as nat);
        let right = decimal(server_b as nat);
        lemma_decimal_digits(server_a as nat);
        lemma_decimal_digits(server_b as nat);
        lemma_decimal_digits(channel_a as nat);
        lemma_decimal_digits(channel_b as nat);
        assert(a[left.len() as int] == '.');
        assert(b[right.len() as int] == '.');
        if left.len() < right.len() {
            assert(b[left.len() as int] == right[left.len() as int]);
        } else if right.len() < left.len() {
            assert(a[right.len() as int] == left[right.len() as int]);
        }
        assert(left.len() == right.len());
        assert(a.take(left.len() as int) =~= left);
        assert(b.take(left.len() as int) =~= right);
        assert(a.skip(left.len() as int + 1) =~= decimal(channel_a as nat));
        assert(b.skip(left.len() as int + 1) =~= decimal(channel_b as nat));
        lemma_decimal_injective(server_a as nat, server_b as nat);
        lemma_decimal_injective(channel_a as nat, channel_b as nat);
    }
}

/// A numeral is never a stable identifier: the names of server buffers and of
/// channel buffers do not meet.
pub proof fn lemma_decimal_is_no_stable_id(n: nat, server_id: u64, channel_id: u64)
    ensures
        decimal(n) != stable_id(server_id, channel_id),
{
    lemma_decimal_digits(n);
    let left = decimal(server_id as nat);
    let id = stable_id(server_id, channel_id);
    assert(id[left.len() as int] == '.');
}

/// The text of one decimal digit.
fn digit_text(digit: u64) -> (text: &'static str)
    requires
        digit < 10,
    ensures
        text@ == seq![digit_char(digit as int)],
{
    proof {
        reveal_strlit("0");
        reveal_strlit("1");
        reveal_strlit("2");
        reveal_strlit("3");
        reveal_strlit("4");
        reveal_strlit("5");
        reveal_strlit("6");
        reveal_strlit("7");
        reveal_strlit("8");
        reveal_strlit("9");
    }
    let text = if digit == 0 {
        "0"
    } else if digit == 1 {
        "1"
    } else if digit == 2 {
        "2"
    } else if digit == 3 {
        "3"
    } else if digit == 4 {
        "4"
    } else if digit == 5 {
        "5"
    } else if digit == 6 {
        "6"
    } else if digit == 7 {
        "7"
    } else if digit == 8 {
        "8"
    } else {
        "9"
    };
    assert(text@ =~= seq![digit_char(digit as int)]);
    text
}

/// Appends the decimal numeral of `n` to `out`.
pub fn push_decimal(out: &mut String, n: u64)
    ensures
        final(out)@ == old(out)@ + decimal(n as nat),
    decreases n,
{
    if n >= 10 {
        push_decimal(out, n / 10);
    }
    out.append(digit_text(n % 10));
    proof {
        assert(final(out)@ =~= old(out)@ + decimal(n as nat));
    }
}

/// The decimal numeral of `n`.
pub fn decimal_text(n: u64) -> (text: String)
    ensures
        text@ == decimal(n as nat),
{
    let mut text = String::new();
    push_decimal(&mut text, n);
    proof {
        assert(text@ =~= decimal(n as nat));
    }
    text
}

/// The stable identifier of a channel, which names its buffer.
pub fn stable_id_text(server_id: u64, channel_id: u64) -> (text: String)
    ensures
        text@ == stable_id(server_id, channel_id),
{
    let mut text = String::new();
    push_decimal(&mut text, server_id);
    proof {
        reveal_strlit(".");
    }
    text.append(".");
    push_decimal(&mut text, channel_id);
    proof {
        assert(text@ =~= stable_id(server_id, channel_id));
    }
    text
}

/// The value of a decimal digit, or `None` for any other character.
pub open spec fn digit_value(c: char) -> Option<nat> {
    if c == '0' {
        Some(0)
    } else if c == '1' {
        Some(1)
    } else if c == '2' {
        Some(2)
    } else if c == '3' {
        Some(3)
    } else if c == '4' {
        Some(4)
    } else if c == '5' {
        Some(5)
    } else if c == '6' {
        Some(6)
    } else if c == '7' {
        Some(7)
    } else if c == '8' {
        Some(8)
    } else if c == '9' {
        Some(9)
    } else {
        None
    }
}

/// The number that a run of decimal digits names, or `None` if one of the
/// characters is no digit. The empty run names zero.
pub open spec fn digits_value(digits: Seq<char>) -> Option<nat>
    decreases digits.len(),
{
    if digits.len() == 0 {
        Some(0)
    } else {
        match (digits_value(digits.drop_last()), digit_value(digits.last())) {
            (Some(value), Some(digit)) => Some(value * 10 + digit),
            _ => None,
        }
    }
}

/// The number that `text` names: an optional plus sign, then one or more
/// decimal digits whose value fits 64 bits. Any other text names none.
pub open spec fn parse_decimal(text: Seq<char>) -> Option<u64> {
    let digits = if text.len() > 0 && text[0] == '+' {
        text.skip(1)
    } else {
        text
    };
    match digits_value(digits) {
        Some(value) => if digits.len() > 0 && value <= u64::MAX {
            Some(value as u64)
        } else {
            None
        },
        None => None,
    }
}

/// A prefix of a run of digits is a run of digits, and names no more.
proof fn lemma_digits_prefix(digits: Seq<char>, upto: int)
    requires
        0 <= upto <= digits.len(),
        digits_value(digits) is Some,
    ensures
        digits_value(digits.take(upto)) is Some,
        digits_value(digits.take(upto))->0 <= digits_value(digits)->0,
    decreases digits.len() - upto,
{
    if upto == digits.len() {
        assert(digits.take(upto) == digits);
    } else {
        lemma_digits_prefix(digits, upto + 1);
        assert(digits.take(upto + 1).drop_last() == digits.take(upto));
    }
}

/// The numeral of a number below ten names it.
proof fn lemma_digits_of_digit(n: nat)
    requires
        n < 10,
    ensures
        digits_value(decimal(n)) == Some(n),
        decimal(n)[0] != '+',
{
    let numeral = Seq::<char>::empty().push(digit_char(n as int));
    assert(decimal(n) =~= numeral);
    assert(numeral.drop_last() =~= Seq::<char>::empty());
    assert(numeral.last() == digit_char(n as int));
    assert(digits_value(Seq::<char>::empty()) == Some(0nat));
    assert(digit_value(digit_char(n as int)) == Some(n));
}

/// The numeral of a number names it, and begins with a digit.
proof fn lemma_digits_of_decimal(n: nat)
    ensures
        digits_value(decimal(n)) == Some(n),
        decimal(n)[0] != '+',
    decreases n,
{
    if n < 10 {
        lemma_digits_of_digit(n);
    } else {
        lemma_digits_of_decimal(n / 10);
        assert(digit_value(digit_char((n % 10) as int)) == Some(n % 10));
        lemma_decimal_digits(n / 10);
        let shorter = decimal(n / 10);
        assert(shorter.push(digit_char((n % 10) as int)).drop_last() == shorter);
        assert(shorter.push(digit_char((n % 10) as int)).last() == digit_char((n % 10) as int));
        assert(decimal(n)[0] == shorter[0]);
    }
}

/// Reading a number's numeral gives the number back.
pub proof fn lemma_parse_decimal_of_decimal(n: u64)
    ensures
        parse_decimal(decimal(n as nat)) == Some(n),
{
    lemma_digits_of_decimal(n as nat);
    lemma_decimal_digits(n as nat);
}

/// The value of the character as a decimal digit.
fn digit_of(c: char) -> (digit: Option<u64>)
    ensures
        match digit {
            Some(value) => digit_value(c) == Some(value as nat) && value < 10,
            None => digit_value(c).is_none(),
        },
{
    if c == '0' {
        Some(0)
    } else if c == '1' {
        Some(1)
    } else if c == '2' {
        Some(2)
    } else if c == '3' {
        Some(3)
    } else if c == '4' {
        Some(4)
    } else if c == '5' {
        Some(5)
    } else if c == '6' {
        Some(6)
    } else if c == '7' {
        Some(7)
    } else if c == '8' {
        Some(8)
    } else if c == '9' {
        Some(9)
    } else {
        None
    }
}

/// Reads a number: an optional plus sign, then decimal digits.
pub fn parse_decimal_text(text: &str) -> (number: Option<u64>)
    ensures
        number == parse_decimal(text@),
{
    let length = text.unicode_len();
    if length == 0 {
        return None;
    }
    let start: usize = if text.get_char(0) == '+' {
        1
    } else {
        0
    };
    if start == length {
        assert(text@.skip(1).len() == 0);
        return None;
    }
    let ghost digits = text@.skip(start as int);
    proof {
        assert(text@.skip(0) =~= text@);
        assert(digits.take(0) =~= Seq::<char>::empty());
    }
    let mut value: u64 = 0;
    let mut i: usize = start;
    while i < length
        invariant
            start <= i <= length,
            length == text@.len(),
            digits == text@.skip(start as int),
            digits.len() > 0,
            digits == if text@.len() > 0 && text@[0] == '+' {
                text@.skip(1)
            } else {
                text@
            },
            digits_value(digits.take(i - start)) == Some(value as nat),
        decreases length - i,
    {
        let c = text.get_char(i);
        proof {
            assert(digits.take(i + 1 - start).drop_last() == digits.take(i - start));
            assert(digits.take(i + 1 - start).last() == c);
            if digits_value(digits) is Some {
                lemma_digits_prefix(digits, i + 1 - start);
            }
        }
        match digit_of(c) {
            Some(digit) => {
                if value > (u64::MAX - digit) / 10 {
                    return None;
                }
                value = value * 10 + digit;
            },
            None => {
                return None;
            },
        }
        i = i + 1;
    }
    proof {
        assert(digits.take(i - start) == digits);
    }
    Some(value)
}

} // verus!
