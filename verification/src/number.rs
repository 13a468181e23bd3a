//! Whole numbers as a human types them and reads them: decimal digits.
use vstd::prelude::*;
use vstd::std_specs::iter::IteratorSpec;
use vstd::string::*;

verus! {

/// Whether `c` is one of the ten decimal digits `0` to `9`.
pub open spec fn is_digit(c: char) -> bool {
    0x30 <= c as u32 <= 0x39
}

/// The number that the digit `c` stands for.
pub open spec fn digit_value(c: char) -> nat
    recommends
        is_digit(c),
{
    (c as u32 - 0x30) as nat
}

/// The digit that stands for `d`.
pub open spec fn digit_char(d: nat) -> char
    recommends
        d < 10,
{
    (0x30 + d) as char
}

/// Whether `s` holds decimal digits and nothing else.
pub open spec fn all_digits(s: Seq<char>) -> bool {
    forall|i: int| 0 <= i < s.len() ==> is_digit(#[trigger] s[i])
}

/// The number that a run of digits denotes, the first digit counting most.
pub open spec fn digits_value(s: Seq<char>) -> nat
    decreases s.len(),
{
    if s.len() == 0 {
        0
    } else {
        10 * digits_value(s.drop_last()) + digit_value(s.last())
    }
}

/// `s` without the plus sign that may stand before a number.
pub open spec fn unsigned_part(s: Seq<char>) -> Seq<char> {
    if s.len() > 0 && s[0] == '+' {
        s.skip(1)
    } else {
        s
    }
}

/// The number that `s` denotes, if it denotes one: an optional `+`, then one
/// or more decimal digits, and nothing before, between or after.
pub open spec fn number_of(s: Seq<char>) -> Option<nat> {
    let digits = unsigned_part(s);
    if digits.len() > 0 && all_digits(digits) {
        Some(digits_value(digits))
    } else {
        None
    }
}

/// `n` written in decimal digits, without sign or leading zeros.
pub open spec fn decimal_text(n: nat) -> Seq<char>
    decreases n,
{
    if n < 10 {
        seq![digit_char(n)]
    } else {
        decimal_text(n / 10).push(digit_char(n % 10))
    }
}

/// More digits never denote less: a run of digits denotes at least what any
/// of its beginnings denotes.
pub proof fn lemma_digits_value_grows(s: Seq<char>, k: int)
    requires
        0 <= k <= s.len(),
    ensures
        digits_value(s.take(k)) <= digits_value(s),
    decreases s.len(),
{
    if k == s.len() {
        assert(s.take(k) =~= s);
    } else {
        lemma_digits_value_grows(s.drop_last(), k);
        assert(s.drop_last().take(k) =~= s.take(k));
    }
}

/// The number that `s` denotes, where it denotes one that fits a `usize`.
pub fn parse_number(s: &str) -> (r: Option<usize>)
    ensures
        r == match number_of(s@) {
            Some(n) if n <= usize::MAX => Some(n as usize),
            _ => None,
        },
{
    let len = s.unicode_len();
    let mut chars = s.chars();
    let mut i: usize = 0;
    let mut first: usize = 0;
    let mut value: usize = 0;
    let ghost digits = unsigned_part(s@);
    loop
        invariant
            len == s@.len(),
            first <= i <= len,
            chars.remaining() == s@.skip(i as int),
            digits == unsigned_part(s@),
            i == 0 ==> first == 0 && value == 0,
            i > 0 ==> first as int == s@.len() - digits.len(),
            i > 0 ==> all_digits(digits.take(i - first)),
            i > 0 ==> value == digits_value(digits.take(i - first)),
        ensures
            i == len,
        decreases len - i,
    {
        match chars.next() {
            Some(c) => {
                if i == 0 && c == '+' {
                    first = 1;
                } else {
                    let code: u32 = c as u32;
                    let ghost k = i - first;
                    proof {
                        // `c` is the next of the digits, if it is a digit.
                        assert(digits[k] == c);
                        assert(digits.take(k + 1).drop_last() =~= digits.take(k));
                        assert(value == digits_value(digits.take(k)));
                    }
                    if code < 0x30 || code > 0x39 {
                        return None;
                    }
                    let d: usize = (code - 0x30) as usize;
                    let next = match value.checked_mul(10) {
                        Some(tens) => tens.checked_add(d),
                        None => None,
                    };
                    match next {
                        Some(v) => {
                            value = v;
                        },
                        None => {
                            proof {
                                // Too big already, whatever follows.
                                lemma_digits_value_grows(digits, k + 1);
                            }
                            return None;
                        },
                    }
                }
                i = i + 1;
            },
            None => {
                break ;
            },
        }
    }
    proof {
        if i > 0 {
            assert(digits.take(i - first) =~= digits);
        }
    }
    if i == first {
        None
    } else {
        Some(value)
    }
}

/// The digit for `d`, as text.
fn digit_str(d: usize) -> (r: &'static str)
    requires
        d < 10,
    ensures
        r@ == seq![digit_char(d as nat)],
{
    proof {
        reveal_strlit("0");
        reveal_strlit("1");
        reveal_strlit("2");
        reveal_strlit("3");
        reveal_strlit("4");
        reveal_strlit("5");
        reveal_strlit("6");
        reveal_strlit("7");
        reveal_strlit("8");
        reveal_strlit("9");
    }
    let r = match d {
        0 => "0",
        1 => "1",
        2 => "2",
        3 => "3",
        4 => "4",
        5 => "5",
        6 => "6",
        7 => "7",
        8 => "8",
        _ => "9",
    };
    assert(r@ =~= seq![digit_char(d as nat)]);
    r
}

/// `n` written in decimal digits.
pub fn decimal(n: usize) -> (r: String)
    ensures
        r@ == decimal_text(n as nat),
    decreases n,
{
    if n < 10 {
        digit_str(n).to_owned()
    } else {
        let mut r = decimal(n / 10);
        let last = digit_str(n % 10);
        r.append(last);
        assert(r@ =~= decimal_text((n / 10) as nat).push(digit_char((n % 10) as nat)));
        r
    }
}

/// What is written for a number is digits only, and denotes that number.
pub proof fn lemma_decimal_text_denotes(n: nat)
    ensures
        decimal_text(n).len() > 0,
        all_digits(decimal_text(n)),
        digits_value(decimal_text(n)) == n,
        number_of(decimal_text(n)) == Some(n),
    decreases n,
{
    let text = decimal_text(n);
    if n < 10 {
        assert(text.drop_last() =~= Seq::<char>::empty());
        assert(digits_value(text.drop_last()) == 0);
    } else {
        lemma_decimal_text_denotes(n / 10);
        assert(text.drop_last() =~= decimal_text(n / 10));
    }
    // The text starts with a digit, so no sign is taken off it.
    assert(is_digit(text[0]));
}

} // verus!
