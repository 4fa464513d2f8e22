//! Whole numbers and their decimal notation.
use crate::text::chars_of;
use vstd::arithmetic::power::{lemma_pow0, pow};
use vstd::prelude::*;

verus! {

/// Why a text is not the decimal notation of a number of some type.
#[derive(Clone, Copy, Debug, PartialEq, Eq, Structural)]
pub enum IntegerError {
    /// The text is empty.
    Empty,
    /// A character stands where only a digit may.
    InvalidDigit,
    /// The number is above the largest of its type.
    TooLarge,
    /// The number is below the smallest of its type.
    TooSmall,
}

/// The character of a digit.
pub open spec fn digit(d: int) -> char {
    (48 + d) as char
}

pub open spec fn is_digit(c: char) -> bool {
    '0' <= c <= '9'
}

/// What a digit counts.
pub open spec fn digit_value(c: char) -> int {
    c as int - 48
}

/// The decimal notation of a number, without leading zeros.
pub open spec fn decimal(n: nat) -> Seq<char>
    decreases n,
{
    if n < 10 {
        seq![digit(n as int)]
    } else {
        decimal(n / 10).push(digit((n % 10) as int))
    }
}

/// The decimal notation of a number that may be negative.
pub open spec fn signed_decimal(n: int) -> Seq<char> {
    if n < 0 {
        seq!['-'] + decimal((-n) as nat)
    } else {
        decimal(n as nat)
    }
}

/// The last `width` digits of the decimal notation of a number, with zeros put in front.
pub open spec fn padded(n: nat, width: nat) -> Seq<char>
    decreases width,
{
    if width == 0 {
        Seq::empty()
    } else {
        padded(n / 10, (width - 1) as nat).push(digit((n % 10) as int))
    }
}

/// The number whose digits are given, counted with a sign. The first character that is no digit, or
/// that takes the number out of its bounds, decides the error.
pub open spec fn read_digits(digits: Seq<char>, sign: int, low: int, high: int) -> Result<int, IntegerError>
    decreases digits.len(),
{
    if digits.len() == 0 {
        Ok(0)
    } else {
        match read_digits(digits.drop_last(), sign, low, high) {
            Err(error) => Err(error),
            Ok(front) => {
                let n = front * 10 + sign * digit_value(digits.last());
                if !is_digit(digits.last()) {
                    Err(IntegerError::InvalidDigit)
                } else if n < low {
                    Err(IntegerError::TooSmall)
                } else if n > high {
                    Err(IntegerError::TooLarge)
                } else {
                    Ok(n)
                }
            },
        }
    }
}

/// The number that a text denotes: digits, after a `+` or, for a type with negative numbers, a `-`.
pub open spec fn read_integer(text: Seq<char>, low: int, high: int) -> Result<int, IntegerError> {
    if text.len() == 0 {
        Err(IntegerError::Empty)
    } else if text.len() == 1 && (text[0] == '+' || text[0] == '-') {
        Err(IntegerError::InvalidDigit)
    } else if text[0] == '+' {
        read_digits(text.skip(1), 1, low, high)
    } else if text[0] == '-' && low < 0 {
        read_digits(text.skip(1), -1, low, high)
    } else {
        read_digits(text, 1, low, high)
    }
}

/// The text of one digit.
fn digit_text(d: u64) -> (text: &'static str)
    requires
        d < 10,
    ensures
        text@ == seq![digit(d as int)],
{
    proof {
        reveal_strlit("0");
        reveal_strlit("1");
        reveal_strlit("2");
        reveal_strlit("3");
        reveal_strlit("4");
        reveal_strlit("5");
        reveal_strlit("6");
        reveal_strlit("7");
        reveal_strlit("8");
        reveal_strlit("9");
    }
    match d {
        0 => "0",
        1 => "1",
        2 => "2",
        3 => "3",
        4 => "4",
        5 => "5",
        6 => "6",
        7 => "7",
        8 => "8",
        _ => "9",
    }
}

/// Writes a number without leading zeros.
pub fn decimal_text(n: u64) -> (text: String)
    ensures
        text@ == decimal(n as nat),
    decreases n,
{
    let mut text = if n < 10 {
        String::new()
    } else {
        decimal_text(n / 10)
    };
    text.append(digit_text(n % 10));
    text
}

/// Writes a number that may be negative.
pub fn signed_decimal_text(n: i64) -> (text: String)
    ensures
        text@ == signed_decimal(n as int),
{
    if n < 0 {
        proof {
            reveal_strlit("-");
        }
        let magnitude: u64 = (-(n + 1)) as u64 + 1;
        let mut text = "-".to_owned();
        text.append(decimal_text(magnitude).as_str());
        text
    } else {
        decimal_text(n as u64)
    }
}

/// Writes the last `width` digits of a number, with zeros put in front.
pub fn padded_text(n: u64, width: usize) -> (text: String)
    ensures
        text@ == padded(n as nat, width as nat),
    decreases width,
{
    if width == 0 {
        String::new()
    } else {
        let mut text = padded_text(n / 10, width - 1);
        text.append(digit_text(n % 10));
        text
    }
}

/// Once a digit cannot be read, no further one changes the outcome.
proof fn error_stays(digits: Seq<char>, read: int, sign: int, low: int, high: int)
    requires
        0 <= read <= digits.len(),
        read_digits(digits.take(read), sign, low, high) is Err,
    ensures
        read_digits(digits, sign, low, high) == read_digits(digits.take(read), sign, low, high),
    decreases digits.len(),
{
    if read < digits.len() {
        assert(digits.drop_last().take(read) =~= digits.take(read));
        error_stays(digits.drop_last(), read, sign, low, high);
    } else {
        assert(digits.take(read) =~= digits);
    }
}

/// Reads digits from a place on, for the bounds of a type.
fn read_digits_from(chars: &Vec<char>, from: usize, negative: bool, low: i128, high: i128) -> (n: Result<
    i128,
    IntegerError,
>)
    requires
        from <= chars@.len(),
        -0x1_0000_0000_0000_0000 <= low <= 0 <= high <= 0x1_0000_0000_0000_0000,
    ensures
        n matches Ok(found) ==> read_digits(
            chars@.skip(from as int),
            if negative { -1 } else { 1 },
            low as int,
            high as int,
        ) == Ok::<int, IntegerError>(found as int),
        n matches Err(error) ==> read_digits(
            chars@.skip(from as int),
            if negative { -1 } else { 1 },
            low as int,
            high as int,
        ) == Err::<int, IntegerError>(error),
{
    let ghost digits = chars@.skip(from as int);
    let ghost sign: int = if negative { -1 } else { 1 };
    let mut n: i128 = 0;
    let mut at: usize = from;
    assert(digits.take(0) =~= Seq::empty());
    while at < chars.len()
        invariant
            from <= at <= chars@.len(),
            digits == chars@.skip(from as int),
            sign == if negative { -1int } else { 1int },
            -0x1_0000_0000_0000_0000 <= low <= n <= high <= 0x1_0000_0000_0000_0000,
            read_digits(digits.take(at - from), sign, low as int, high as int) == Ok::<int, IntegerError>(n as int),
        decreases chars@.len() - at,
    {
        let c = chars[at];
        let ghost read = digits.take(at - from + 1);
        proof {
            assert(read.drop_last() =~= digits.take(at - from));
            assert(read.last() == c);
            if read_digits(read, sign, low as int, high as int) is Err {
                error_stays(digits, at - from + 1, sign, low as int, high as int);
            }
        }
        if c < '0' || c > '9' {
            return Err(IntegerError::InvalidDigit);
        }
        let d: i128 = (c as u32 - 48) as i128;
        let next: i128 = if negative { n * 10 - d } else { n * 10 + d };
        if next < low {
            return Err(IntegerError::TooSmall);
        }
        if next > high {
            return Err(IntegerError::TooLarge);
        }
        n = next;
        at += 1;
    }
    assert(digits.take(digits.len() as int) =~= digits);
    Ok(n)
}

fn read_within(text: &str, low: i128, high: i128) -> (n: Result<i128, IntegerError>)
    requires
        -0x1_0000_0000_0000_0000 <= low <= 0 <= high <= 0x1_0000_0000_0000_0000,
    ensures
        n matches Ok(found) ==> read_integer(text@, low as int, high as int) == Ok::<int, IntegerError>(found as int)
            && low <= found <= high,
        n matches Err(error) ==> read_integer(text@, low as int, high as int) == Err::<int, IntegerError>(error),
{
    let chars = chars_of(text);
    if chars.len() == 0 {
        return Err(IntegerError::Empty);
    }
    if chars.len() == 1 && (chars[0] == '+' || chars[0] == '-') {
        return Err(IntegerError::InvalidDigit);
    }
    assert(chars@.skip(0) =~= chars@);
    if chars[0] == '+' {
        read_digits_from(&chars, 1, false, low, high)
    } else if chars[0] == '-' && low < 0 {
        read_digits_from(&chars, 1, true, low, high)
    } else {
        read_digits_from(&chars, 0, false, low, high)
    }
}

/// Reads a number that may be negative from its decimal notation.
pub fn parse_i64(text: &str) -> (n: Result<i64, IntegerError>)
    ensures
        n matches Ok(found) ==> read_integer(text@, i64::MIN as int, i64::MAX as int) == Ok::<int, IntegerError>(
            found as int,
        ),
        n matches Err(error) ==> read_integer(text@, i64::MIN as int, i64::MAX as int) == Err::<int, IntegerError>(
            error,
        ),
{
    match read_within(text, i64::MIN as i128, i64::MAX as i128) {
        Ok(n) => Ok(n as i64),
        Err(error) => Err(error),
    }
}

/// Reads a number that is not negative from its decimal notation.
pub fn parse_u64(text: &str) -> (n: Result<u64, IntegerError>)
    ensures
        n matches Ok(found) ==> read_integer(text@, 0, u64::MAX as int) == Ok::<int, IntegerError>(found as int),
        n matches Err(error) ==> read_integer(text@, 0, u64::MAX as int) == Err::<int, IntegerError>(error),
{
    match read_within(text, 0, u64::MAX as i128) {
        Ok(n) => Ok(n as u64),
        Err(error) => Err(error),
    }
}

/// A number written with as many digits as it has been given room for reads back as itself.
proof fn padded_digits_read_back(n: nat, width: nat, high: int)
    requires
        n < pow(10, width),
        n <= high,
    ensures
        padded(n, width).len() == width,
        forall|i: int| 0 <= i < width ==> is_digit(#[trigger] padded(n, width)[i]),
        read_digits(padded(n, width), 1, 0, high) == Ok::<int, IntegerError>(n as int),
    decreases width,
{
    lemma_pow0(10);
    if width > 0 {
        lemma_pow_step(n, width);
        padded_digits_read_back(n / 10, (width - 1) as nat, high);
        let front = padded(n / 10, (width - 1) as nat);
        assert(padded(n, width).drop_last() =~= front);
    }
}

/// One digit fewer leaves a tenth of the room.
proof fn lemma_pow_step(n: nat, width: nat)
    requires
        width > 0,
        n < pow(10, width),
    ensures
        n / 10 < pow(10, (width - 1) as nat),
{
    let room = pow(10, (width - 1) as nat);
    assert(pow(10, width) == 10 * room) by {
        reveal(pow);
    }
}

proof fn decimal_digits_read_back(n: nat, sign: int, low: int, high: int)
    requires
        sign == 1 || sign == -1,
        low <= sign * n <= high,
        low <= 0 <= high,
    ensures
        decimal(n).len() > 0,
        is_digit(decimal(n)[0]),
        read_digits(decimal(n), sign, low, high) == Ok::<int, IntegerError>(sign * n),
    decreases n,
{
    reveal_with_fuel(read_digits, 2);
    if n < 10 {
        assert(decimal(n).drop_last() =~= Seq::empty());
    } else {
        let front = n / 10;
        assert(low <= sign * front <= high) by (nonlinear_arith)
            requires
                sign == 1 || sign == -1,
                low <= sign * n <= high,
                low <= 0 <= high,
                front == n / 10,
        ;
        decimal_digits_read_back(front, sign, low, high);
        assert(decimal(n).drop_last() =~= decimal(front));
        assert((sign * front) * 10 + sign * ((n % 10) as int) == sign * n) by (nonlinear_arith)
            requires
                front == n / 10,
        ;
    }
}

/// Every number of sixty-four bits, written with twenty digits, reads back as itself.
pub proof fn padded_reads_back(n: u64)
    ensures
        padded(n as nat, 20).len() == 20,
        forall|i: int| 0 <= i < 20 ==> is_digit(#[trigger] padded(n as nat, 20)[i]),
        read_integer(padded(n as nat, 20), 0, u64::MAX as int) == Ok::<int, IntegerError>(n as int),
{
    twenty_digits_suffice(n);
    padded_digits_read_back(n as nat, 20, u64::MAX as int);
}

/// Every number of sixty-four bits reads back from its decimal notation.
pub proof fn decimal_reads_back(n: u64)
    ensures
        read_integer(decimal(n as nat), 0, u64::MAX as int) == Ok::<int, IntegerError>(n as int),
{
    decimal_digits_read_back(n as nat, 1, 0, u64::MAX as int);
}

/// Every signed number of sixty-four bits reads back from its decimal notation.
pub proof fn signed_decimal_reads_back(n: i64)
    ensures
        read_integer(signed_decimal(n as int), i64::MIN as int, i64::MAX as int) == Ok::<int, IntegerError>(n as int),
{
    if n < 0 {
        decimal_digits_read_back((-n) as nat, -1, i64::MIN as int, i64::MAX as int);
        assert(signed_decimal(n as int).skip(1) =~= decimal((-n) as nat));
    } else {
        decimal_digits_read_back(n as nat, 1, i64::MIN as int, i64::MAX as int);
    }
}

/// The first digit in which two numbers of the same width differ is the smaller one in the smaller
/// number.
pub(crate) proof fn padded_digits_differ(n: nat, m: nat, width: nat) -> (at: int)
    requires
        n < m,
        m < pow(10, width),
    ensures
        0 <= at < width,
        padded(n, width).len() == width,
        padded(m, width).len() == width,
        padded(n, width).take(at) == padded(m, width).take(at),
        padded(n, width)[at] < padded(m, width)[at],
    decreases width,
{
    lemma_pow0(10);
    lemma_pow_step(m, width);
    lemma_pow_step(n, width);
    let rest = (width - 1) as nat;
    padded_digits_read_back(n / 10, rest, (n / 10) as int);
    padded_digits_read_back(m / 10, rest, (m / 10) as int);
    let (front_n, front_m) = (padded(n / 10, rest), padded(m / 10, rest));
    assert(padded(n, width) == front_n.push(digit((n % 10) as int)));
    assert(padded(m, width) == front_m.push(digit((m % 10) as int)));
    if n / 10 < m / 10 {
        let at = padded_digits_differ(n / 10, m / 10, rest);
        assert(padded(n, width).take(at) =~= front_n.take(at));
        assert(padded(m, width).take(at) =~= front_m.take(at));
        at
    } else {
        assert(n / 10 == m / 10);
        assert(padded(n, width).take(rest as int) =~= front_n);
        assert(padded(m, width).take(rest as int) =~= front_m);
        rest as int
    }
}

/// Twenty digits are enough for sixty-four bits.
pub(crate) proof fn twenty_digits_suffice(n: u64)
    ensures
        n < pow(10, 20),
{
    assert(pow(10, 20) == 100_000_000_000_000_000_000) by {
        reveal_with_fuel(pow, 21);
    }
}

/// A text of one character is a number exactly if the character is a digit, and no text at all is none.
pub proof fn one_character_is_read(c: char, low: int, high: int)
    requires
        low <= 0 <= high,
    ensures
        read_integer(Seq::<char>::empty(), low, high) == Err::<int, IntegerError>(IntegerError::Empty),
        read_integer(seq![c], low, high) == if !('0' <= c <= '9') {
            Err::<int, IntegerError>(IntegerError::InvalidDigit)
        } else if c as int - '0' as int > high {
            Err::<int, IntegerError>(IntegerError::TooLarge)
        } else {
            Ok::<int, IntegerError>(c as int - '0' as int)
        },
{
    reveal_with_fuel(read_digits, 2);
    assert(seq![c].drop_last() =~= Seq::empty());
}

/// A sign may stand before the first digit, a minus only where there are negative numbers.
pub proof fn sign_is_read(c: char, low: int, high: int)
    requires
        low <= 0 <= high,
    ensures
        read_integer(seq!['+', c], low, high) == if !('0' <= c <= '9') {
            Err::<int, IntegerError>(IntegerError::InvalidDigit)
        } else if c as int - '0' as int > high {
            Err::<int, IntegerError>(IntegerError::TooLarge)
        } else {
            Ok::<int, IntegerError>(c as int - '0' as int)
        },
        read_integer(seq!['-', c], low, high) == if low == 0 || !('0' <= c <= '9') {
            Err::<int, IntegerError>(IntegerError::InvalidDigit)
        } else if low > '0' as int - c as int {
            Err::<int, IntegerError>(IntegerError::TooSmall)
        } else {
            Ok::<int, IntegerError>('0' as int - c as int)
        },
{
    reveal_with_fuel(read_digits, 3);
    assert(seq!['+', c].skip(1) =~= seq![c]);
    assert(seq!['-', c].skip(1) =~= seq![c]);
    assert(seq![c].drop_last() =~= Seq::empty());
    assert(seq!['-', c].drop_last() =~= seq!['-']);
    assert(seq!['-'].drop_last() =~= Seq::empty());
}

/// One character more makes a number ten times as large and adds the digit, away from zero. A text
/// that is no number becomes none by it.
pub proof fn one_more_character_is_read(text: Seq<char>, c: char, low: int, high: int)
    requires
        low <= 0 <= high,
        text.len() > 1 || text.len() == 1 && text[0] != '+' && text[0] != '-',
    ensures
        match read_integer(text, low, high) {
            Err(error) => read_integer(text.push(c), low, high) == Err::<int, IntegerError>(error),
            Ok(n) => {
                let d = c as int - '0' as int;
                let more = if text[0] == '-' {
                    n * 10 - d
                } else {
                    n * 10 + d
                };
                read_integer(text.push(c), low, high) == if !('0' <= c <= '9') {
                    Err::<int, IntegerError>(IntegerError::InvalidDigit)
                } else if more < low {
                    Err::<int, IntegerError>(IntegerError::TooSmall)
                } else if more > high {
                    Err::<int, IntegerError>(IntegerError::TooLarge)
                } else {
                    Ok::<int, IntegerError>(more)
                }
            },
        },
{
    let longer = text.push(c);
    assert(longer.drop_last() =~= text);
    assert(longer.skip(1) =~= text.skip(1).push(c));
    assert(longer.skip(1).drop_last() =~= text.skip(1));
    if text[0] == '-' && low == 0 {
        minus_is_no_digit(text, 0, high);
    }
}

proof fn minus_is_no_digit(text: Seq<char>, low: int, high: int)
    requires
        text.len() > 0,
        text[0] == '-',
    ensures
        read_digits(text, 1, low, high) is Err,
    decreases text.len(),
{
    reveal_with_fuel(read_digits, 2);
    if text.len() > 1 {
        minus_is_no_digit(text.drop_last(), low, high);
    } else {
        assert(text.drop_last() =~= Seq::empty());
    }
}

/// The decimal notation of a number consists of digits, of which the first is no zero but for zero
/// itself.
pub proof fn decimal_has_no_leading_zero(n: nat)
    ensures
        decimal(n).len() > 0,
        forall|i: int| 0 <= i < decimal(n).len() ==> '0' <= #[trigger] decimal(n)[i] <= '9',
        decimal(n)[0] == '0' ==> n == 0,
        n == 0 ==> decimal(n) == seq!['0'],
    decreases n,
{
    if n >= 10 {
        decimal_has_no_leading_zero(n / 10);
    }
}

/// A negative number is written as its opposite with a minus before it.
pub proof fn minus_marks_negative_numbers(n: nat)
    ensures
        signed_decimal(n as int) == decimal(n),
        n > 0 ==> signed_decimal(-(n as int)) == seq!['-'] + decimal(n),
{
}

/// With a fixed number of digits, each place holds the digit of the number at that place.
pub proof fn places_hold_digits(n: nat, width: nat, at: int)
    requires
        0 <= at < width,
    ensures
        padded(n, width).len() == width,
        padded(n, width)[at] as int == '0' as int + (n as int / pow(10, (width - 1 - at) as nat)) % 10,
    decreases width,
{
    lemma_pow0(10);
    padded_len(n, width);
    padded_len(n / 10, (width - 1) as nat);
    if at < width - 1 {
        let rest = (width - 2 - at) as nat;
        places_hold_digits(n / 10, (width - 1) as nat, at);
        vstd::arithmetic::power::lemma_pow_positive(10, rest);
        assert(pow(10, (rest + 1) as nat) == 10 * pow(10, rest)) by {
            reveal(pow);
        }
        vstd::arithmetic::div_mod::lemma_div_denominator(n as int, 10, pow(10, rest));
    }
}

proof fn padded_len(n: nat, width: nat)
    ensures
        padded(n, width).len() == width,
    decreases width,
{
    if width > 0 {
        padded_len(n / 10, (width - 1) as nat);
    }
}

} // verus!
