//! How the operator picks a model from the ones on offer.

use crate::text::{chars_of, trim, trimmed};
use vstd::prelude::*;

verus! {

/// A model on offer: the identifier that requests carry, and the label that
/// the operator sees.
#[derive(Debug, PartialEq, Eq)]
pub struct ModelOption {
    pub id: String,
    pub label: String,
}

/// `c` is a decimal digit.
pub open spec fn is_digit(c: char) -> bool {
    '0' <= c <= '9'
}

/// The value of a decimal digit.
pub open spec fn digit_value(c: char) -> nat {
    (c as int - '0' as int) as nat
}

/// Every character is a decimal digit.
pub open spec fn all_digits(s: Seq<char>) -> bool {
    forall|i: int| 0 <= i < s.len() ==> is_digit(#[trigger] s[i])
}

/// The number that a run of decimal digits writes.
pub open spec fn number(digits: Seq<char>) -> nat
    decreases digits.len(),
{
    if digits.len() == 0 {
        0
    } else {
        number(digits.drop_last()) * 10 + digit_value(digits.last())
    }
}

/// The number that `s` writes, where it writes one: an optional plus sign,
/// then one or more decimal digits and nothing else.
pub open spec fn unsigned(s: Seq<char>) -> Option<nat> {
    let digits = if s.len() > 0 && s[0] == '+' {
        s.drop_first()
    } else {
        s
    };
    if digits.len() > 0 && all_digits(digits) {
        Some(number(digits))
    } else {
        None
    }
}

/// The place, counted from zero, of the option that `typed` picks among
/// `count`: a number from one up picks the option at that place, anything
/// else picks the first.
pub open spec fn picked(count: nat, typed: Seq<char>) -> int {
    match unsigned(typed) {
        Some(number) => if 1 <= number <= count {
            number - 1
        } else {
            0
        },
        None => 0,
    }
}

/// The place, counted from zero, of the option that a line of input picks
/// among `count`: white space around what is typed does not count.
pub open spec fn chosen(count: nat, input: Seq<char>) -> int {
    picked(count, trimmed(input))
}

/// A run of digits writes at least what any of its beginnings writes.
proof fn lemma_number_grows(digits: Seq<char>, n: int)
    requires
        0 <= n <= digits.len(),
    ensures
        number(digits.take(n)) <= number(digits),
    decreases digits.len() - n,
{
    if n == digits.len() {
        assert(digits.take(n) == digits);
    } else {
        lemma_number_grows(digits.drop_last(), n);
        assert(digits.drop_last().take(n) == digits.take(n));
    }
}

/// The place, counted from zero, of the option that `text` picks among
/// `count`.
pub fn pick(count: usize, text: &str) -> (place: usize)
    requires
        count > 0,
    ensures
        place == picked(count as nat, text@),
        place < count,
{
    let typed = chars_of(text);
    let n = typed.len();
    let start: usize = if n > 0 && typed[0] == '+' {
        1
    } else {
        0
    };
    let ghost digits = typed@.subrange(start as int, n as int);
    proof {
        if start == 1 {
            assert(digits == typed@.drop_first());
        } else {
            assert(digits == typed@);
        }
    }
    if start == n {
        return 0;
    }
    assert(unsigned(text@) == if all_digits(digits) {
        Some(number(digits))
    } else {
        None
    });
    let mut value: usize = 0;
    let mut i: usize = start;
    while i < n
        invariant
            start <= i <= n,
            n == typed@.len(),
            digits == typed@.subrange(start as int, n as int),
            all_digits(digits.take(i - start)),
            value == number(digits.take(i - start)),
            value <= count,
            count > 0,
            unsigned(text@) == if all_digits(digits) {
                Some(number(digits))
            } else {
                None
            },
        decreases n - i,
    {
        let c = typed[i];
        assert(digits[i - start] == c);
        if c < '0' || c > '9' {
            assert(!all_digits(digits));
            return 0;
        }
        let ghost seen = digits.take(i - start + 1);
        proof {
            assert(seen.drop_last() == digits.take(i - start));
            assert(seen.last() == c);
            assert forall|j: int| 0 <= j < seen.len() implies is_digit(#[trigger] seen[j]) by {
                if j < i - start {
                    assert(digits.take(i - start)[j] == seen[j]);
                }
            }
        }
        let wide: u128 = (value as u128) * 10 + ((c as u32 - '0' as u32) as u128);
        assert(wide == number(seen));
        if wide > count as u128 {
            proof {
                lemma_number_grows(digits, i - start + 1);
            }
            assert(all_digits(digits) ==> number(digits) > count);
            return 0;
        }
        value = wide as usize;
        i += 1;
    }
    assert(digits.take(n - start) == digits);
    if value >= 1 {
        value - 1
    } else {
        0
    }
}

/// The place, counted from zero, of the option that a line of input picks
/// among `count`.
pub fn choice(count: usize, input: &str) -> (place: usize)
    requires
        count > 0,
    ensures
        place == chosen(count as nat, input@),
        place < count,
{
    pick(count, trim(input))
}

/// The identifier of the model that `input` picks among `options`.
pub fn select_model(options: &Vec<ModelOption>, input: &str) -> (id: String)
    requires
        options@.len() > 0,
    ensures
        id@ == options@[chosen(options@.len(), input@)].id@,
{
    options[choice(options.len(), input)].id.clone()
}

} // verus!
