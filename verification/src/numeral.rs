//! Decimal numerals: the text of a number and the number of a text.

use vstd::prelude::*;
use vstd::string::StrSliceExecFns;
use vstd::string::StringExecFns;

verus! {

/// Whether `c` is one of `0` to `9`.
pub open spec fn is_digit(c: char) -> bool {
    '0' <= c <= '9'
}

/// The value of the digit `c`.
pub open spec fn digit_value(c: char) -> int {
    c as u32 as int - 48
}

/// The digit of the value `d`, for `d` below ten.
pub open spec fn digit_char(d: int) -> char {
    if d == 0 {
        '0'
    } else if d == 1 {
        '1'
    } else if d == 2 {
        '2'
    } else if d == 3 {
        '3'
    } else if d == 4 {
        '4'
    } else if d == 5 {
        '5'
    } else if d == 6 {
        '6'
    } else if d == 7 {
        '7'
    } else if d == 8 {
        '8'
    } else {
        '9'
    }
}

/// Whether every character of `s` is a digit.
pub open spec fn all_digits(s: Seq<char>) -> bool {
    forall|i: int| 0 <= i < s.len() ==> is_digit(#[trigger] s[i])
}

/// The number that the digits `s` write in base ten.
pub open spec fn digits_value(s: Seq<char>) -> int
    decreases s.len(),
{
    if s.len() == 0 {
        0
    } else {
        digits_value(s.drop_last()) * 10 + digit_value(s.last())
    }
}

/// The integer that `s` writes: an optional sign and at least one digit.
/// `None` where `s` has another shape.
pub open spec fn numeral_value(s: Seq<char>) -> Option<int> {
    if s.len() > 0 && (s[0] == '-' || s[0] == '+') {
        let digits = s.subrange(1, s.len() as int);
        if digits.len() > 0 && all_digits(digits) {
            Some(if s[0] == '-' { -digits_value(digits) } else { digits_value(digits) })
        } else {
            None
        }
    } else if s.len() > 0 && all_digits(s) {
        Some(digits_value(s))
    } else {
        None
    }
}

/// The machine integer that `s` writes; `None` where `s` is no numeral or its
/// value does not fit.
pub open spec fn parse_number(s: Seq<char>) -> Option<isize> {
    match numeral_value(s) {
        Some(v) => if isize::MIN <= v <= isize::MAX {
            Some(v as isize)
        } else {
            None
        },
        None => None,
    }
}

/// The digits of `n` in base ten, without leading zeros.
pub open spec fn digits_of(n: nat) -> Seq<char>
    decreases n,
{
    if n < 10 {
        seq![digit_char(n as int)]
    } else {
        digits_of(n / 10).push(digit_char((n % 10) as int))
    }
}

/// The text of the integer `n`: a `-` for a negative one, then its digits.
pub open spec fn number_text(n: int) -> Seq<char> {
    if n < 0 {
        seq!['-'] + digits_of((-n) as nat)
    } else {
        digits_of(n as nat)
    }
}

/// A longer run of digits is worth at least as much as its beginning.
pub proof fn lemma_digits_value_grows(s: Seq<char>, k: int)
    requires
        all_digits(s),
        0 <= k <= s.len(),
    ensures
        0 <= digits_value(s.take(k)) <= digits_value(s),
    decreases s.len() - k,
{
    if k == s.len() {
        assert(s.take(k) =~= s);
        lemma_digits_value_nonnegative(s);
    } else {
        lemma_digits_value_grows(s, k + 1);
        let next = s.take(k + 1);
        assert(next.drop_last() =~= s.take(k));
        assert(is_digit(next.last()));
        lemma_digits_value_nonnegative(s.take(k));
    }
}

/// A run of digits is worth zero or more.
pub proof fn lemma_digits_value_nonnegative(s: Seq<char>)
    requires
        all_digits(s),
    ensures
        0 <= digits_value(s),
    decreases s.len(),
{
    if s.len() > 0 {
        lemma_digits_value_nonnegative(s.drop_last());
        assert(is_digit(s.last()));
    }
}

/// The value of the digits of `s` from `from` on, or `None` where one of them
/// is no digit, there is none, or the value (negated, if `negative`) does not
/// fit.
#[verifier::loop_isolation(false)]
fn digits_to_number(s: &str, from: usize, negative: bool) -> (r: Option<isize>)
    requires
        from <= s@.len(),
    ensures
        r == (if from < s@.len() && all_digits(s@.subrange(from as int, s@.len() as int)) {
            let v = if negative {
                -digits_value(s@.subrange(from as int, s@.len() as int))
            } else {
                digits_value(s@.subrange(from as int, s@.len() as int))
            };
            if isize::MIN <= v <= isize::MAX {
                Some(v as isize)
            } else {
                None
            }
        } else {
            None
        }),
{
    let n = s.unicode_len();
    if from >= n {
        return None;
    }
    let ghost digits = s@.subrange(from as int, n as int);
    let mut acc: isize = 0;
    let mut i: usize = from;
    while i < n
        invariant
            from <= i <= n,
            n == s@.len(),
            digits == s@.subrange(from as int, n as int),
            all_digits(digits.take(i - from)),
            acc == if negative {
                -digits_value(digits.take(i - from))
            } else {
                digits_value(digits.take(i - from))
            },
        decreases n - i,
    {
        let c = s.get_char(i);
        if !('0' <= c && c <= '9') {
            assert(!is_digit(digits[i - from]));
            return None;
        }
        let d: isize = (c as u32 - 48) as isize;
        let ghost shorter = digits.take(i - from);
        let ghost longer = digits.take(i - from + 1);
        assert(longer.drop_last() =~= shorter);
        assert(longer.last() == c);
        assert(all_digits(longer)) by {
            assert forall|j: int| 0 <= j < longer.len() implies is_digit(#[trigger] longer[j]) by {
                if j < shorter.len() {
                    assert(longer[j] == shorter[j]);
                }
            }
        }
        proof {
            lemma_digits_value_nonnegative(shorter);
        }
        let next = match acc.checked_mul(10) {
            None => None,
            Some(tens) => if negative {
                tens.checked_sub(d)
            } else {
                tens.checked_add(d)
            },
        };
        match next {
            None => {
                proof {
                    if all_digits(digits) {
                        lemma_digits_value_grows(digits, i - from + 1);
                    }
                }
                assert(!all_digits(digits) || digits_value(digits) >= digits_value(longer));
                return None;
            },
            Some(v) => {
                acc = v;
            },
        }
        i += 1;
    }
    assert(digits.take(n - from) =~= digits);
    Some(acc)
}

/// Reads a decimal integer: an optional `+` or `-` and at least one digit.
pub fn parse_decimal(s: &str) -> (r: Option<isize>)
    ensures
        r == parse_number(s@),
{
    let n = s.unicode_len();
    if n == 0 {
        return None;
    }
    let first = s.get_char(0);
    if first == '-' {
        digits_to_number(s, 1, true)
    } else if first == '+' {
        digits_to_number(s, 1, false)
    } else {
        assert(s@.subrange(0, s@.len() as int) =~= s@);
        digits_to_number(s, 0, false)
    }
}

/// The one-character text of the digit `d`.
fn digit_text(d: usize) -> (r: &'static str)
    requires
        d < 10,
    ensures
        r@ == seq![digit_char(d as int)],
{
    proof {
        reveal_strlit("0");
        reveal_strlit("1");
        reveal_strlit("2");
        reveal_strlit("3");
        reveal_strlit("4");
        reveal_strlit("5");
        reveal_strlit("6");
        reveal_strlit("7");
        reveal_strlit("8");
        reveal_strlit("9");
    }
    let r = match d {
        0 => "0",
        1 => "1",
        2 => "2",
        3 => "3",
        4 => "4",
        5 => "5",
        6 => "6",
        7 => "7",
        8 => "8",
        _ => "9",
    };
    assert(r@ =~= seq![digit_char(d as int)]);
    r
}

/// Appends the digits of `n` to `out`.
fn push_digits(n: usize, out: &mut String)
    ensures
        final(out)@ == old(out)@ + digits_of(n as nat),
    decreases n,
{
    if n >= 10 {
        push_digits(n / 10, out);
    }
    out.append(digit_text(n % 10));
    assert(out@ =~= old(out)@ + digits_of(n as nat));
}

/// The decimal text of `n`.
pub fn format_decimal(n: isize) -> (r: String)
    ensures
        r@ == number_text(n as int),
{
    let mut out = String::new();
    if n < 0 {
        proof {
            reveal_strlit("-");
        }
        out.append("-");
        let magnitude: usize = (-(n as i128)) as usize;
        push_digits(magnitude, &mut out);
        assert(out@ =~= number_text(n as int));
    } else {
        push_digits(n as usize, &mut out);
        assert(out@ =~= number_text(n as int));
    }
    out
}

/// The digits of a number are digits, and they write the number.
pub proof fn lemma_digits_of(n: nat)
    ensures
        digits_of(n).len() >= 1,
        all_digits(digits_of(n)),
        digits_value(digits_of(n)) == n,
    decreases n,
{
    if n < 10 {
        let s = digits_of(n);
        assert(s.drop_last() =~= Seq::<char>::empty());
        assert(digits_value(s.drop_last()) == 0);
    } else {
        lemma_digits_of(n / 10);
        let front = digits_of(n / 10);
        let s = digits_of(n);
        assert(s.drop_last() =~= front);
        assert forall|i: int| 0 <= i < s.len() implies is_digit(#[trigger] s[i]) by {
            if i < front.len() {
                assert(s[i] == front[i]);
            }
        }
    }
}

/// What is written is read back: the text of a number is a numeral, and its
/// value is the number.
pub proof fn law_number_text_reads_back(n: isize)
    ensures
        parse_number(number_text(n as int)) == Some(n),
{
    let s = number_text(n as int);
    if n < 0 {
        let digits = digits_of((-n) as nat);
        lemma_digits_of((-n) as nat);
        assert(s[0] == '-');
        assert(s.subrange(1, s.len() as int) =~= digits);
    } else {
        lemma_digits_of(n as nat);
        assert(is_digit(s[0]));
    }
}

} // verus!
