//! Small helpers on text.

use vstd::prelude::*;
use vstd::string::StringExecFns;

verus! {

/// Whether a character is white space: one of the twenty-five characters
/// that Unicode gives the property `White_Space`.
pub open spec fn is_space(c: char) -> bool {
    let code = c as u32;
    ||| 0x09 <= code <= 0x0d
    ||| code == 0x20
    ||| code == 0x85
    ||| code == 0xa0
    ||| code == 0x1680
    ||| 0x2000 <= code <= 0x200a
    ||| code == 0x2028
    ||| code == 0x2029
    ||| code == 0x202f
    ||| code == 0x205f
    ||| code == 0x3000
}

/// Whether a character is white space.
pub fn is_whitespace(c: char) -> (space: bool)
    ensures
        space == is_space(c),
{
    let code = c as u32;
    (0x09 <= code && code <= 0x0d) || code == 0x20 || code == 0x85 || code == 0xa0 || code
        == 0x1680 || (0x2000 <= code && code <= 0x200a) || code == 0x2028 || code == 0x2029
        || code == 0x202f || code == 0x205f || code == 0x3000
}

/// Whether a text holds nothing but white space; the empty text does.
pub open spec fn blank(text: Seq<char>) -> bool {
    forall|i: int| 0 <= i < text.len() ==> is_space(#[trigger] text[i])
}

/// Whether a text holds nothing but white space; the empty text does.
pub fn is_blank(text: &str) -> (all_space: bool)
    ensures
        all_space == blank(text@),
{
    let ghost given = text@;
    for c in it: text.chars()
        invariant
            it.seq() == given,
            given == text@,
            forall|j: int| 0 <= j < it.index() ==> is_space(#[trigger] given[j]),
    {
        proof {
            assert(given[it.index() as int] == c);
        }
        if !is_whitespace(c) {
            return false;
        }
    }
    true
}

/// The character of a decimal digit.
pub open spec fn digit_char(digit: int) -> char {
    if digit == 0 {
        '0'
    } else if digit == 1 {
        '1'
    } else if digit == 2 {
        '2'
    } else if digit == 3 {
        '3'
    } else if digit == 4 {
        '4'
    } else if digit == 5 {
        '5'
    } else if digit == 6 {
        '6'
    } else if digit == 7 {
        '7'
    } else if digit == 8 {
        '8'
    } else {
        '9'
    }
}

/// The decimal digits of a natural number, without leading zeros.
pub open spec fn digits(n: nat) -> Seq<char>
    decreases n,
{
    if n < 10 {
        seq![digit_char(n as int)]
    } else {
        digits(n / 10).push(digit_char((n % 10) as int))
    }
}

/// A whole number as it is written in decimal, with a minus sign before a
/// negative one.
pub open spec fn decimal(n: int) -> Seq<char> {
    if n < 0 {
        seq!['-'] + digits((-n) as nat)
    } else {
        digits(n as nat)
    }
}

fn digit_text(digit: u32) -> (text: &'static str)
    requires
        digit < 10,
    ensures
        text@ == seq![digit_char(digit as int)],
{
    proof {
        reveal_strlit("0");
        reveal_strlit("1");
        reveal_strlit("2");
        reveal_strlit("3");
        reveal_strlit("4");
        reveal_strlit("5");
        reveal_strlit("6");
        reveal_strlit("7");
        reveal_strlit("8");
        reveal_strlit("9");
    }
    let text = match digit {
        0 => "0",
        1 => "1",
        2 => "2",
        3 => "3",
        4 => "4",
        5 => "5",
        6 => "6",
        7 => "7",
        8 => "8",
        _ => "9",
    };
    proof {
        assert(text@ =~= seq![digit_char(digit as int)]);
    }
    text
}

/// Writes a natural number in decimal.
pub fn natural_text(n: u32) -> (text: String)
    ensures
        text@ == digits(n as nat),
    decreases n,
{
    if n < 10 {
        String::from_str(digit_text(n))
    } else {
        let front = natural_text(n / 10);
        let text = front.concat(digit_text(n % 10));
        proof {
            assert(text@ =~= digits((n / 10) as nat).push(digit_char((n % 10) as int)));
        }
        text
    }
}

/// Writes a whole number in decimal.
pub fn number_text(n: i32) -> (text: String)
    ensures
        text@ == decimal(n as int),
{
    if n < 0 {
        let size: u32 = if n == i32::MIN {
            2147483648
        } else {
            (-n) as u32
        };
        proof {
            reveal_strlit("-");
        }
        let digits = natural_text(size);
        let text = String::from_str("-").concat(digits.as_str());
        proof {
            assert(text@ =~= seq!['-'] + digits@);
        }
        text
    } else {
        natural_text(n as u32)
    }
}

/// Whether a character is one of the ten decimal digits.
pub open spec fn is_digit(c: char) -> bool {
    0x30 <= c as u32 <= 0x39
}

/// The number that a run of decimal digits stands for.
pub open spec fn digits_value(digits: Seq<char>) -> nat
    decreases digits.len(),
{
    if digits.len() == 0 {
        0
    } else {
        digits_value(digits.drop_last()) * 10 + (digits.last() as u32 - 0x30) as nat
    }
}

/// The digits of a text that is written as an unsigned number: the text
/// itself, or what follows a leading plus sign.
pub open spec fn unsigned_digits(text: Seq<char>) -> Seq<char> {
    if text.len() > 0 && text[0] == '+' {
        text.drop_first()
    } else {
        text
    }
}

/// The 64-bit number that a text stands for: it is written as an optional
/// plus sign and then only digits, at least one, and it fits. Any other
/// text stands for none.
pub open spec fn parsed_u64(text: Seq<char>) -> Option<u64> {
    let digits = unsigned_digits(text);
    if digits.len() > 0 && (forall|i: int| 0 <= i < digits.len() ==> is_digit(#[trigger] digits[i]))
        && digits_value(digits) <= u64::MAX {
        Some(digits_value(digits) as u64)
    } else {
        None
    }
}

/// A run of digits stands for no less than any of its beginnings.
pub proof fn lemma_digits_value_grows(digits: Seq<char>, upto: int)
    requires
        0 <= upto <= digits.len(),
    ensures
        digits_value(digits.take(upto)) <= digits_value(digits),
    decreases digits.len() - upto,
{
    if upto < digits.len() {
        lemma_digits_value_grows(digits, upto + 1);
        assert(digits.take(upto + 1).drop_last() =~= digits.take(upto));
    } else {
        assert(digits.take(upto) =~= digits);
    }
}

/// The digit that a character is, or 10 for a character that is none.
fn digit_of(c: char) -> (digit: u64)
    ensures
        is_digit(c) ==> digit == (c as u32 - 0x30) as nat,
        !is_digit(c) ==> digit == 10,
        digit <= 10,
{
    let code = c as u32;
    if code < 0x30 || code > 0x39 {
        10
    } else {
        (code - 0x30) as u64
    }
}

fn is_plus(c: char) -> (plus: bool)
    ensures
        plus == (c == '+'),
{
    c == '+'
}

/// Reads a text as an unsigned 64-bit number in decimal.
pub fn parse_u64(text: &str) -> (number: Option<u64>)
    ensures
        number == parsed_u64(text@),
{
    let mut value: u64 = 0;
    let mut any = false;
    let mut signed = false;
    let ghost mut seen: int = 0;
    let ghost given = text@;
    let ghost digits = unsigned_digits(given);
    proof {
        assert(digits.take(0) =~= Seq::empty());
    }
    for c in it: text.chars()
        invariant
            it.seq() == given,
            given == text@,
            digits == unsigned_digits(given),
            signed == (given.len() > 0 && given[0] == '+' && it.index() > 0),
            seen == it.index() - (if signed {
                1int
            } else {
                0int
            }),
            any == (seen > 0),
            0 <= seen <= digits.len(),
            forall|i: int| 0 <= i < seen ==> is_digit(#[trigger] digits[i]),
            value == digits_value(digits.take(seen)),
    {
        let ghost at = it.index() as int;
        proof {
            assert(given[at] == c);
        }
        if !any && !signed && is_plus(c) {
            signed = true;
        } else {
            proof {
                assert(digits[seen] == c);
                assert(digits.take(seen + 1).drop_last() =~= digits.take(seen));
            }
            let digit = digit_of(c);
            if digit == 10 {
                proof {
                    assert(!is_digit(digits[seen]));
                }
                return None;
            }
            let grown = match value.checked_mul(10) {
                Some(tenfold) => tenfold.checked_add(digit),
                None => None,
            };
            match grown {
                Some(next) => {
                    value = next;
                },
                None => {
                    proof {
                        lemma_digits_value_grows(digits, seen + 1);
                    }
                    return None;
                },
            }
            any = true;
            proof {
                seen = seen + 1;
            }
        }
    }
    proof {
        assert(digits.take(digits.len() as int) =~= digits);
    }
    if any {
        Some(value)
    } else {
        None
    }
}

} // verus!
