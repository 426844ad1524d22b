//! Text: the one place where characters become a `String`.

use vstd::prelude::*;

verus! {

/// The string of the characters `chars`, in order.
///
/// Calls `Iterator::collect` on the characters, which for a `String` appends
/// each character in turn. The contract says that the string holds exactly
/// those characters.
#[verifier::external_body]
pub(crate) fn string_of(chars: &Vec<char>) -> (text: String)
    ensures
        text@ == chars@,
{
    chars.iter().collect()
}

/// The character of the digit `digit`.
pub open spec fn digit_char(digit: int) -> char {
    if digit == 0 {
        '0'
    } else if digit == 1 {
        '1'
    } else if digit == 2 {
        '2'
    } else if digit == 3 {
        '3'
    } else if digit == 4 {
        '4'
    } else if digit == 5 {
        '5'
    } else if digit == 6 {
        '6'
    } else if digit == 7 {
        '7'
    } else if digit == 8 {
        '8'
    } else {
        '9'
    }
}

/// The number `n` written in decimal digits, without leading zeros.
pub open spec fn decimal(n: nat) -> Seq<char>
    decreases n,
{
    if n < 10 {
        seq![digit_char(n as int)]
    } else {
        decimal(n / 10).push(digit_char((n % 10) as int))
    }
}

/// The number `n` written in decimal digits, with a minus sign in front if
/// it is negative.
pub open spec fn signed_decimal(n: int) -> Seq<char> {
    if n < 0 {
        seq!['-'] + decimal((-n) as nat)
    } else {
        decimal(n as nat)
    }
}

/// The character of the digit `digit`.
pub fn digit(value: u8) -> (c: char)
    requires
        value < 10,
    ensures
        c == digit_char(value as int),
{
    if value == 0 {
        '0'
    } else if value == 1 {
        '1'
    } else if value == 2 {
        '2'
    } else if value == 3 {
        '3'
    } else if value == 4 {
        '4'
    } else if value == 5 {
        '5'
    } else if value == 6 {
        '6'
    } else if value == 7 {
        '7'
    } else if value == 8 {
        '8'
    } else {
        '9'
    }
}

/// Appends to `text` the number `n` in decimal digits.
pub fn push_decimal(text: &mut Vec<char>, n: u64)
    ensures
        final(text)@ == old(text)@ + decimal(n as nat),
{
    // The digits come out last first: collect them, then append them in
    // reverse.
    let mut rest: u64 = n;
    let mut digits: Vec<char> = Vec::new();
    digits.push(digit((rest % 10) as u8));
    rest = rest / 10;
    while rest > 0
        invariant
            digits@.len() >= 1,
            decimal(n as nat) == if rest == 0 {
                digits@.reverse()
            } else {
                decimal(rest as nat) + digits@.reverse()
            },
            text@ == old(text)@,
        decreases rest,
    {
        let ghost before = digits@;
        digits.push(digit((rest % 10) as u8));
        proof {
            assert(digits@.reverse() =~= seq![digit_char((rest % 10) as int)] + before.reverse());
            if rest >= 10 {
                assert(decimal(rest as nat) + before.reverse() =~= decimal((rest / 10) as nat)
                    + digits@.reverse());
            } else {
                assert(decimal(rest as nat) + before.reverse() =~= digits@.reverse());
            }
        }
        rest = rest / 10;
    }
    let mut i: usize = digits.len();
    while i > 0
        invariant
            i <= digits@.len(),
            text@ == old(text)@ + digits@.reverse().take(digits@.len() - i),
        decreases i,
    {
        i = i - 1;
        text.push(digits[i]);
        proof {
            let r = digits@.reverse();
            let k = digits@.len() - i - 1;
            assert(r.take(k).push(r[k]) =~= r.take(k + 1));
        }
    }
    proof {
        assert(digits@.reverse().take(digits@.len() as int) =~= digits@.reverse());
    }
}

/// Appends to `text` the number `n` in decimal digits, with a minus sign in
/// front if it is negative.
pub fn push_signed_decimal(text: &mut Vec<char>, n: i32)
    ensures
        final(text)@ == old(text)@ + signed_decimal(n as int),
{
    if n < 0 {
        text.push('-');
        push_decimal(text, (-(n as i64)) as u64);
        proof {
            assert(text@ =~= old(text)@ + (seq!['-'] + decimal((-n) as nat)));
        }
    } else {
        push_decimal(text, n as u64);
    }
}

/// Appends the characters of `more` to `text`.
pub fn push_str(text: &mut Vec<char>, more: &str)
    ensures
        final(text)@ == old(text)@ + more@,
{
    let length: usize = more.unicode_len();
    let mut i: usize = 0;
    while i < length
        invariant
            i <= length,
            length == more@.len(),
            text@ == old(text)@ + more@.take(i as int),
        decreases length - i,
    {
        text.push(more.get_char(i));
        proof {
            assert(more@.take(i as int).push(more@[i as int]) =~= more@.take(i + 1));
        }
        i = i + 1;
    }
    proof {
        assert(more@.take(length as int) =~= more@);
    }
}

/// Appends the characters `more` to `text`.
pub fn push_all(text: &mut Vec<char>, more: &Vec<char>)
    ensures
        final(text)@ == old(text)@ + more@,
{
    let mut i: usize = 0;
    while i < more.len()
        invariant
            i <= more.len(),
            text@ == old(text)@ + more@.take(i as int),
        decreases more.len() - i,
    {
        text.push(more[i]);
        proof {
            assert(more@.take(i as int).push(more@[i as int]) =~= more@.take(i + 1));
        }
        i = i + 1;
    }
    proof {
        assert(more@.take(more.len() as int) =~= more@);
    }
}

} // verus!
