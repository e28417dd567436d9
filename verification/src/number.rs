//! Numbers as text: writing them in decimal and reading them in decimal or hexadecimal.

use vstd::prelude::*;
use vstd::string::*;

use crate::text::chars_of;

verus! {

/// The decimal digit for `d`.
pub open spec fn digit(d: nat) -> char {
    ('0' as u32 + d) as char
}

/// `n` written in decimal, without leading zeros.
pub open spec fn decimal(n: nat) -> Seq<char>
    decreases n,
{
    if n < 10 {
        seq![digit(n)]
    } else {
        decimal(n / 10).push(digit(n % 10))
    }
}

/// `n` written in decimal, with a zero in front where one digit would do.
pub open spec fn two_digits(n: nat) -> Seq<char> {
    if n < 10 {
        seq!['0', digit(n)]
    } else {
        decimal(n)
    }
}

/// The decimal digit for `d`.
fn digit_char(d: u64) -> (r: char)
    requires
        d < 10,
    ensures
        r == digit(d as nat),
{
    (48 + d as u8) as char
}

/// `n` written in decimal.
pub fn decimal_text(n: u64) -> (r: String)
    ensures
        r@ == decimal(n as nat),
    decreases n,
{
    if n < 10 {
        let mut out = String::new();
        out.push(digit_char(n));
        assert(out@ == seq![digit(n as nat)]);
        out
    } else {
        let mut out = decimal_text(n / 10);
        out.push(digit_char(n % 10));
        out
    }
}

/// `n` written in decimal, in at least two digits.
pub fn two_digit_text(n: u64) -> (r: String)
    ensures
        r@ == two_digits(n as nat),
{
    if n < 10 {
        let mut out = String::new();
        out.push('0');
        out.push(digit_char(n));
        assert(out@ == seq!['0', digit(n as nat)]);
        out
    } else {
        decimal_text(n)
    }
}

/// Why a text is not a number.
#[derive(Clone, Copy, Debug, PartialEq, Eq, Structural)]
pub enum NumberError {
    /// There is nothing to read.
    Empty,
    /// A character is not a digit.
    InvalidDigit,
    /// The number does not fit.
    TooLarge,
}

impl NumberError {
    /// The message for this error.
    pub open spec fn text(self) -> Seq<char> {
        match self {
            NumberError::Empty => "cannot parse integer from empty string"@,
            NumberError::InvalidDigit => "invalid digit found in string"@,
            NumberError::TooLarge => "number too large to fit in target type"@,
        }
    }

    /// The message for this error.
    pub fn message(self) -> (r: String)
        ensures
            r@ == self.text(),
    {
        match self {
            NumberError::Empty => "cannot parse integer from empty string".to_owned(),
            NumberError::InvalidDigit => "invalid digit found in string".to_owned(),
            NumberError::TooLarge => "number too large to fit in target type".to_owned(),
        }
    }
}

/// The value of `c` as a digit of base `radix`, at most sixteen.
pub open spec fn digit_value(c: char, radix: nat) -> Option<nat> {
    let u = c as nat;
    let v = if 48 <= u <= 57 {
        (u - 48) as nat
    } else if 97 <= u <= 102 {
        (u - 87) as nat
    } else if 65 <= u <= 70 {
        (u - 55) as nat
    } else {
        16
    };
    if v < radix {
        Some(v)
    } else {
        None
    }
}

/// The number that the digits `s` of base `radix` stand for, where it is at most `max`.
/// Where it is not a number, the error is that of the shortest prefix which is not.
pub open spec fn digits_value(s: Seq<char>, radix: nat, max: nat) -> Result<nat, NumberError>
    decreases s.len(),
{
    if s.len() == 0 {
        Ok(0)
    } else {
        match digits_value(s.drop_last(), radix, max) {
            Err(e) => Err(e),
            Ok(v) => match digit_value(s.last(), radix) {
                None => Err(NumberError::InvalidDigit),
                Some(d) => if v * radix + d > max {
                    Err(NumberError::TooLarge)
                } else {
                    Ok(v * radix + d)
                },
            },
        }
    }
}

/// The number that `s` stands for in base `radix`: digits, with an optional plus sign in front.
pub open spec fn number_value(s: Seq<char>, radix: nat, max: nat) -> Result<nat, NumberError> {
    if s.len() == 0 {
        Err(NumberError::Empty)
    } else if s[0] == '+' && s.len() > 1 {
        digits_value(s.skip(1), radix, max)
    } else {
        digits_value(s, radix, max)
    }
}

/// A parsed `usize`, as a mathematical number.
pub open spec fn as_nat(r: Result<usize, NumberError>) -> Result<nat, NumberError> {
    match r {
        Ok(v) => Ok(v as nat),
        Err(e) => Err(e),
    }
}

/// The value of `c` as a digit of base `radix`.
fn digit_number(c: char, radix: usize) -> (r: Option<usize>)
    requires
        radix <= 16,
    ensures
        r is Some <==> digit_value(c, radix as nat) is Some,
        r is Some ==> r->0 == digit_value(c, radix as nat)->0,
{
    let u: u32 = c as u32;
    let v: u32 = if 48 <= u && u <= 57 {
        u - 48
    } else if 97 <= u && u <= 102 {
        u - 87
    } else if 65 <= u && u <= 70 {
        u - 55
    } else {
        16
    };
    if (v as usize) < radix {
        Some(v as usize)
    } else {
        None
    }
}

proof fn lemma_error_stays(s: Seq<char>, k: int, radix: nat, max: nat)
    requires
        0 <= k <= s.len(),
        digits_value(s.take(k), radix, max) is Err,
    ensures
        digits_value(s, radix, max) == digits_value(s.take(k), radix, max),
    decreases s.len() - k,
{
    if k == s.len() {
        assert(s.take(k) == s);
    } else {
        assert(s.take(k + 1).drop_last() == s.take(k));
        lemma_error_stays(s, k + 1, radix, max);
    }
}

/// Reads `s` as a number of base `radix`, ten or sixteen.
pub fn parse_number(s: &str, radix: usize) -> (r: Result<usize, NumberError>)
    requires
        radix == 10 || radix == 16,
    ensures
        as_nat(r) == number_value(s@, radix as nat, usize::MAX as nat),
{
    let chars = chars_of(s);
    let ghost max = usize::MAX as nat;
    let ghost rad = radix as nat;
    if chars.len() == 0 {
        return Err(NumberError::Empty);
    }
    let from: usize = if chars[0] == '+' && chars.len() > 1 {
        1
    } else {
        0
    };
    let ghost digits = s@.skip(from as int);
    assert(s@.skip(0) == s@);
    let mut value: usize = 0;
    let mut i: usize = from;
    assert(digits.take(0) == Seq::<char>::empty());
    while i < chars.len()
        invariant
            chars@ == s@,
            radix == 10 || radix == 16,
            rad == radix,
            max == usize::MAX,
            from <= i <= chars@.len(),
            digits == s@.skip(from as int),
            number_value(s@, rad, max) == digits_value(digits, rad, max),
            digits_value(digits.take(i - from), rad, max) == Ok::<nat, NumberError>(value as nat),
        decreases chars@.len() - i,
    {
        let ghost upto = digits.take(i + 1 - from);
        assert(upto.drop_last() == digits.take(i - from));
        assert(upto.last() == chars@[i as int]);
        let d = match digit_number(chars[i], radix) {
            Some(d) => d,
            None => {
                proof {
                    lemma_error_stays(digits, i + 1 - from, rad, max);
                }
                return Err(NumberError::InvalidDigit);
            },
        };
        let wide: u128 = (value as u128) * (radix as u128) + (d as u128);
        if wide > usize::MAX as u128 {
            proof {
                lemma_error_stays(digits, i + 1 - from, rad, max);
            }
            return Err(NumberError::TooLarge);
        }
        value = wide as usize;
        i = i + 1;
    }
    assert(digits.take(i - from) == digits);
    Ok(value)
}

/// A number written in decimal reads back as itself, wherever it fits.
pub proof fn law_decimal_reads_back(n: nat, max: nat)
    requires
        n <= max,
    ensures
        number_value(decimal(n), 10, max) == Ok::<nat, NumberError>(n),
{
    lemma_decimal(n, max);
}

/// The digits of a number, and what they stand for.
pub proof fn lemma_decimal(n: nat, max: nat)
    requires
        n <= max,
    ensures
        decimal(n).len() > 0,
        forall|i: int|
            0 <= i < decimal(n).len() ==> '0' <= (#[trigger] decimal(n)[i]) <= '9',
        digits_value(decimal(n), 10, max) == Ok::<nat, NumberError>(n),
    decreases n,
{
    reveal_with_fuel(digits_value, 2);
    let s = decimal(n);
    if n < 10 {
        assert(s.drop_last() == Seq::<char>::empty());
        assert(digit_value(digit(n), 10) == Some(n));
    } else {
        lemma_decimal(n / 10, max);
        assert(s.drop_last() == decimal(n / 10));
        assert(digit_value(digit(n % 10), 10) == Some(n % 10));
    }
}

/// Decimal writing is that of ten digits: a number below ten is its digit, and each further digit
/// comes behind those of the number before it.
pub proof fn law_decimal_digits(n: nat, d: nat)
    requires
        d < 10,
    ensures
        decimal(d).len() == 1,
        decimal(d)[0] as u32 == 48 + d,
        n > 0 ==> decimal(10 * n + d) == decimal(n) + decimal(d),
{
    if n > 0 {
        assert((10 * n + d) / 10 == n);
        assert((10 * n + d) % 10 == d);
        assert(decimal(n) + decimal(d) == decimal(n).push(digit(d)));
    }
}

/// A number is written in two digits at least, with a zero in front of a single one, and is else
/// written as in decimal; so it reads back as itself.
pub proof fn law_two_digits(n: nat)
    ensures
        two_digits(n).len() >= 2,
        n < 100 ==> two_digits(n).len() == 2,
        n < 10 ==> two_digits(n) == seq!['0'] + decimal(n),
        n >= 10 ==> two_digits(n) == decimal(n),
        number_value(two_digits(n), 10, n) == Ok::<nat, NumberError>(n),
{
    reveal_with_fuel(decimal, 2);
    if n < 10 {
        assert(two_digits(n) == seq!['0'] + decimal(n));
        let s = two_digits(n);
        reveal_with_fuel(digits_value, 3);
        assert(s.drop_last().drop_last() == Seq::<char>::empty());
        assert(s.drop_last().last() == '0');
        assert(s.last() == digit(n));
        assert(digit_value('0', 10) == Some(0nat));
        assert(digit_value(digit(n), 10) == Some(n));
    } else {
        lemma_decimal(n / 10, n / 10);
        lemma_decimal(n, n);
    }
}

/// A digit more: behind digits that stand for `v`, a further digit of value `d` makes the number
/// `v * radix + d`, or one that is too large; a character that is no digit makes it no number. The
/// digits are the ten decimal ones and, in base sixteen, the letters to `f` of either case.
pub proof fn law_one_more_digit(s: Seq<char>, c: char, v: nat, d: nat, radix: nat, max: nat)
    requires
        s.len() > 0,
        s != seq!['+'],
        radix == 10 || radix == 16,
        number_value(s, radix, max) == Ok::<nat, NumberError>(v),
    ensures
        ({
            let next = number_value(s.push(c), radix, max);
            let is_digit = (d < 10 && c as u32 == 48 + d) || (radix == 16 && 10 <= d < 16 && (
            c as u32 == 87 + d || c as u32 == 55 + d));
            let is_none = !('0' <= c <= '9') && (radix == 10 || !('a' <= c <= 'f' || 'A' <= c
                <= 'F'));
            &&& is_digit && v * radix + d <= max ==> next == Ok::<nat, NumberError>(v * radix + d)
            &&& is_digit && v * radix + d > max ==> next == Err::<nat, NumberError>(
                NumberError::TooLarge,
            )
            &&& is_none ==> next == Err::<nat, NumberError>(NumberError::InvalidDigit)
        }),
{
    let t = s.push(c);
    assert(t[0] == s[0]);
    if s[0] == '+' && s.len() > 1 {
        assert(t.skip(1).drop_last() == s.skip(1));
        assert(t.skip(1).last() == c);
    } else {
        if s[0] == '+' {
            assert(s == seq!['+']);
        }
        assert(t.drop_last() == s);
    }
}

/// What is no number does not become one by more characters, but for a lone sign; and a plus sign
/// in front of digits changes nothing.
pub proof fn law_no_number_stays_none(s: Seq<char>, c: char, radix: nat, max: nat)
    requires
        s.len() > 0,
        s != seq!['+'],
    ensures
        number_value(s, radix, max) is Err ==> number_value(s.push(c), radix, max) == number_value(
            s,
            radix,
            max,
        ),
        s[0] != '+' ==> number_value(seq!['+'] + s, radix, max) == number_value(s, radix, max),
        number_value(Seq::empty(), radix, max) == Err::<nat, NumberError>(NumberError::Empty),
{
    let t = s.push(c);
    assert(t[0] == s[0]);
    if s[0] == '+' && s.len() > 1 {
        assert(t.skip(1).drop_last() == s.skip(1));
    } else {
        if s[0] == '+' {
            assert(s == seq!['+']);
        }
        assert(t.drop_last() == s);
    }
    assert((seq!['+'] + s).skip(1) == s);
}

/// A single character is a number exactly if it is a digit, and that digit's value.
pub proof fn law_single_digit(c: char, d: nat, radix: nat, max: nat)
    requires
        radix == 10 || radix == 16,
        max >= 15,
    ensures
        d < 10 && c as u32 == 48 + d ==> number_value(seq![c], radix, max) == Ok::<
            nat,
            NumberError,
        >(d),
        radix == 16 && 10 <= d < 16 && (c as u32 == 87 + d || c as u32 == 55 + d) ==> number_value(
            seq![c],
            radix,
            max,
        ) == Ok::<nat, NumberError>(d),
        !('0' <= c <= '9') && (radix == 10 || !('a' <= c <= 'f' || 'A' <= c <= 'F'))
            ==> number_value(seq![c], radix, max) == Err::<nat, NumberError>(
            NumberError::InvalidDigit,
        ),
{
    reveal_with_fuel(digits_value, 2);
    assert(seq![c].drop_last() == Seq::<char>::empty());
    assert(seq![c].last() == c);
}

/// A number beyond the limit is refused as too large.
pub proof fn law_large_number_is_refused(n: nat, max: nat)
    requires
        n > max,
    ensures
        number_value(decimal(n), 10, max) == Err::<nat, NumberError>(NumberError::TooLarge),
{
    lemma_decimal(n, n);
    lemma_too_large(n, max);
}

proof fn lemma_too_large(n: nat, max: nat)
    requires
        n > max,
    ensures
        digits_value(decimal(n), 10, max) == Err::<nat, NumberError>(NumberError::TooLarge),
    decreases n,
{
    reveal_with_fuel(digits_value, 2);
    let s = decimal(n);
    if n < 10 {
        assert(s.drop_last() == Seq::<char>::empty());
        assert(digit_value(digit(n), 10) == Some(n));
    } else {
        assert(s.drop_last() == decimal(n / 10));
        assert(digit_value(digit(n % 10), 10) == Some(n % 10));
        if n / 10 > max {
            lemma_too_large(n / 10, max);
        } else {
            lemma_decimal(n / 10, max);
        }
    }
}

} // verus!
