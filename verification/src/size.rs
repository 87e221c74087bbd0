//! The grammar of sizes: a decimal number of bytes, or a number and a unit,
//! as in `10`, `10b`, `10kb`, `10 MiB`.

use vstd::prelude::*;
use crate::error::{ErrorView, NumberError};
use crate::text::{lower, lowered, run_end, to_lower, trimmed_from, CharClass, is_digit};

verus! {

pub const KB: u64 = 1024;

pub const MB: u64 = 1024 * KB;

pub const GB: u64 = 1024 * MB;

pub const TB: u64 = 1024 * GB;

/// What a decimal digit stands for.
pub open spec fn digit_value(c: char) -> nat {
    if is_digit(c) {
        (c as int - '0' as int) as nat
    } else {
        0
    }
}

/// The number that a run of decimal digits writes.
pub open spec fn decimal(digits: Seq<char>) -> nat
    decreases digits.len(),
{
    if digits.len() == 0 {
        0
    } else {
        decimal(digits.drop_last()) * 10 + digit_value(digits.last())
    }
}

/// The number of bytes that one of a unit is, whatever the case of its
/// letters; `None` for what is no unit.
pub open spec fn unit_factor(unit: Seq<char>) -> Option<nat> {
    let u = lowered(unit);
    if u == seq!['b'] {
        Some(1)
    } else if u == seq!['k', 'b'] || u == seq!['k', 'i', 'b'] {
        Some(KB as nat)
    } else if u == seq!['m', 'b'] || u == seq!['m', 'i', 'b'] {
        Some(MB as nat)
    } else if u == seq!['g', 'b'] || u == seq!['g', 'i', 'b'] {
        Some(GB as nat)
    } else if u == seq!['t', 'b'] || u == seq!['t', 'i', 'b'] {
        Some(TB as nat)
    } else {
        None
    }
}

/// The number of bytes that a size stands for. The size is split into the
/// digits that it begins with and the rest, its unit, taken without the white
/// space around it. Without a unit the number counts bytes.
pub open spec fn parse_size(size: Seq<char>) -> Result<u64, ErrorView> {
    let n = run_end(size, 0, CharClass::Digit);
    let number = decimal(size.take(n));
    let unit = trimmed_from(size, n);
    if n == 0 {
        Err(ErrorView::Number(NumberError::Empty))
    } else if number > u64::MAX {
        Err(ErrorView::Number(NumberError::TooLarge))
    } else if unit.len() == 0 {
        Ok(number as u64)
    } else {
        match unit_factor(unit) {
            None => Err(ErrorView::UnexpectedUnit(unit)),
            Some(factor) => if number * factor > u64::MAX {
                Err(ErrorView::Overflow { number: number as u64, unit })
            } else {
                Ok((number * factor) as u64)
            },
        }
    }
}

/// More digits write no smaller number.
pub proof fn lemma_decimal_grows(digits: Seq<char>, i: int, n: int)
    requires
        0 <= i <= n <= digits.len(),
    ensures
        decimal(digits.take(i)) <= decimal(digits.take(n)),
    decreases n - i,
{
    if i < n {
        lemma_decimal_grows(digits, i, n - 1);
        assert(digits.take(n).drop_last() == digits.take(n - 1));
    }
}

/// The number that the first `n` characters write, which are digits.
pub(crate) fn number_of(chars: &Vec<char>, n: usize) -> (r: Result<u64, NumberError>)
    requires
        n <= chars.len(),
        forall|i: int| 0 <= i < n ==> is_digit(#[trigger] chars@[i]),
    ensures
        r == (if n == 0 {
            Err(NumberError::Empty)
        } else if decimal(chars@.take(n as int)) > u64::MAX {
            Err(NumberError::TooLarge)
        } else {
            Ok(decimal(chars@.take(n as int)) as u64)
        }),
{
    if n == 0 {
        return Err(NumberError::Empty);
    }
    let mut number: u64 = 0;
    let mut i: usize = 0;
    while i < n
        invariant
            i <= n <= chars.len(),
            forall|i: int| 0 <= i < n ==> is_digit(#[trigger] chars@[i]),
            number == decimal(chars@.take(i as int)),
        decreases n - i,
    {
        let digit: u64 = (chars[i] as u8 - '0' as u8) as u64;
        proof {
            assert(chars@.take(i + 1).drop_last() == chars@.take(i as int));
            assert(is_digit(chars@[i as int]));
            assert(decimal(chars@.take(i + 1)) == number * 10 + digit);
            lemma_decimal_grows(chars@, i + 1, n as int);
        }
        let next: Option<u64> = match number.checked_mul(10) {
            Some(tens) => tens.checked_add(digit),
            None => None,
        };
        match next {
            Some(v) => {
                number = v;
            },
            None => {
                return Err(NumberError::TooLarge);
            },
        }
        i = i + 1;
    }
    Ok(number)
}

/// Whether the characters from `a` to `b` are `letter` and `b`, or `letter`,
/// `i` and `b`, in any case.
fn is_multiple(chars: &Vec<char>, a: usize, b: usize, letter: char) -> (r: bool)
    requires
        a <= b <= chars.len(),
        lower(letter) == letter,
    ensures
        r == (lowered(chars@.subrange(a as int, b as int)) == seq![letter, 'b'] || lowered(
            chars@.subrange(a as int, b as int),
        ) == seq![letter, 'i', 'b']),
{
    let ghost u = lowered(chars@.subrange(a as int, b as int));
    proof {
        assert(u.len() == b - a);
        assert(seq![letter, 'b'].len() == 2);
        assert(seq![letter, 'i', 'b'].len() == 3);
    }
    if b - a == 2 {
        let r = to_lower(chars[a]) == letter && to_lower(chars[a + 1]) == 'b';
        proof {
            assert(u[0] == lower(chars@[a as int]));
            assert(u[1] == lower(chars@[a + 1]));
            assert(seq![letter, 'b'][0] == letter);
            assert(seq![letter, 'b'][1] == 'b');
            if r {
                assert(u =~= seq![letter, 'b']);
            }
        }
        r
    } else if b - a == 3 {
        let r = to_lower(chars[a]) == letter && to_lower(chars[a + 1]) == 'i' && to_lower(
            chars[a + 2],
        ) == 'b';
        proof {
            assert(u[0] == lower(chars@[a as int]));
            assert(u[1] == lower(chars@[a + 1]));
            assert(u[2] == lower(chars@[a + 2]));
            assert(seq![letter, 'i', 'b'][0] == letter);
            assert(seq![letter, 'i', 'b'][1] == 'i');
            assert(seq![letter, 'i', 'b'][2] == 'b');
            if r {
                assert(u =~= seq![letter, 'i', 'b']);
            }
        }
        r
    } else {
        false
    }
}

/// The number of bytes that one of the unit from `a` to `b` is.
pub(crate) fn factor_of(chars: &Vec<char>, a: usize, b: usize) -> (r: Option<u64>)
    requires
        a <= b <= chars.len(),
    ensures
        match r {
            Some(f) => unit_factor(chars@.subrange(a as int, b as int)) == Some(f as nat),
            None => unit_factor(chars@.subrange(a as int, b as int)) is None,
        },
{
    let ghost u = lowered(chars@.subrange(a as int, b as int));
    if b - a == 1 && to_lower(chars[a]) == 'b' {
        proof {
            assert(u[0] == lower(chars@[a as int]));
            assert(u =~= seq!['b']);
        }
        Some(1)
    } else {
        proof {
            assert(u.len() == b - a);
            assert(seq!['b'].len() == 1);
            if u == seq!['b'] {
                assert(u[0] == lower(chars@[a as int]));
                assert(seq!['b'][0] == 'b');
            }
        }
        if is_multiple(chars, a, b, 'k') {
            Some(KB)
        } else if is_multiple(chars, a, b, 'm') {
            Some(MB)
        } else if is_multiple(chars, a, b, 'g') {
            Some(GB)
        } else if is_multiple(chars, a, b, 't') {
            Some(TB)
        } else {
            None
        }
    }
}

} // verus!
