//! Decimal numbers as text, and saturating arithmetic.

use vstd::prelude::*;

use crate::text::chars_of;

verus! {

/// The decimal digit of a number below ten.
pub open spec fn digit_char(d: nat) -> char {
    (48 + d) as char
}

/// The decimal text of `n`, without leading zeros.
pub open spec fn decimal_of(n: nat) -> Seq<char>
    decreases n,
{
    if n < 10 {
        seq![digit_char(n)]
    } else {
        decimal_of(n / 10).push(digit_char(n % 10))
    }
}

/// The decimal text of `n`.
pub fn decimal(n: u128) -> (r: String)
    ensures
        r@ == decimal_of(n as nat),
    decreases n,
{
    let digit: u8 = 48 + (n % 10) as u8;
    let mut out = if n < 10 {
        String::new()
    } else {
        decimal(n / 10)
    };
    out.push(digit as char);
    proof {
        assert(n % 10 < 10);
        if n < 10 {
            assert(out@ == seq![digit_char(n as nat)]);
        }
    }
    out
}

/// The decimal text of `n`, with zeros in front of it up to `width` characters.
pub open spec fn padded_of(n: nat, width: nat) -> Seq<char> {
    let digits = decimal_of(n);
    if digits.len() >= width {
        digits
    } else {
        Seq::new((width - digits.len()) as nat, |i: int| '0') + digits
    }
}

/// The decimal text of `n`, with zeros in front of it up to `width` characters.
pub fn padded(n: u128, width: usize) -> (r: String)
    ensures
        r@ == padded_of(n as nat, width as nat),
{
    let digits = decimal(n);
    let len: usize = chars_of(digits.as_str()).len();
    if len >= width {
        return digits;
    }
    let mut out = String::new();
    let mut i: usize = 0;
    while i < width - len
        invariant
            len < width,
            i <= width - len,
            out@ == Seq::new(i as nat, |j: int| '0'),
        decreases width - len - i,
    {
        out.push('0');
        i += 1;
        proof {
            assert(out@ == Seq::new(i as nat, |j: int| '0'));
        }
    }
    out.append(digits.as_str());
    out
}

/// Why a text is no number of the wanted type.
#[derive(Clone, Copy, Debug, PartialEq, Eq, Structural)]
pub enum IntErrorKind {
    Empty,
    InvalidDigit,
    PosOverflow,
}

impl IntErrorKind {
    /// The words for the error.
    pub open spec fn words(self) -> Seq<char> {
        match self {
            IntErrorKind::Empty => "cannot parse integer from empty string"@,
            IntErrorKind::InvalidDigit => "invalid digit found in string"@,
            IntErrorKind::PosOverflow => "number too large to fit in target type"@,
        }
    }

    /// The words for the error.
    pub fn describe(self) -> (r: String)
        ensures
            r@ == self.words(),
    {
        match self {
            IntErrorKind::Empty => "cannot parse integer from empty string".to_owned(),
            IntErrorKind::InvalidDigit => "invalid digit found in string".to_owned(),
            IntErrorKind::PosOverflow => "number too large to fit in target type".to_owned(),
        }
    }
}

/// Whether `c` is a decimal ASCII digit.
pub open spec fn is_digit(c: char) -> bool {
    '0' <= c <= '9'
}

/// The value of a decimal digit.
pub open spec fn digit_value(c: char) -> nat {
    (c as u32 - 48) as nat
}

/// Reads `digits` behind the value `acc`, from the left. The first character that is no digit,
/// or that takes the value above `max`, decides the error.
pub open spec fn scan_of(digits: Seq<char>, acc: nat, max: nat) -> Result<nat, IntErrorKind>
    decreases digits.len(),
{
    if digits.len() == 0 {
        Ok(acc)
    } else if !is_digit(digits[0]) {
        Err(IntErrorKind::InvalidDigit)
    } else {
        let next = acc * 10 + digit_value(digits[0]);
        if next > max {
            Err(IntErrorKind::PosOverflow)
        } else {
            scan_of(digits.drop_first(), next, max)
        }
    }
}

/// The number up to `max` that a text holds: an optional `+`, then only decimal digits.
pub open spec fn unsigned_of(s: Seq<char>, max: nat) -> Result<nat, IntErrorKind> {
    if s.len() == 0 {
        Err(IntErrorKind::Empty)
    } else if s[0] == '+' {
        if s.len() == 1 {
            Err(IntErrorKind::InvalidDigit)
        } else {
            scan_of(s.drop_first(), 0, max)
        }
    } else {
        scan_of(s, 0, max)
    }
}

/// The number up to `max` that `s` holds.
pub fn parse_unsigned(s: &str, max: u64) -> (r: Result<u64, IntErrorKind>)
    ensures
        match unsigned_of(s@, max as nat) {
            Ok(n) => r matches Ok(v) && v == n && v <= max,
            Err(kind) => r == Err::<u64, IntErrorKind>(kind),
        },
{
    let chars = chars_of(s);
    if chars.len() == 0 {
        return Err(IntErrorKind::Empty);
    }
    let mut i: usize = 0;
    if chars[0] == '+' {
        if chars.len() == 1 {
            return Err(IntErrorKind::InvalidDigit);
        }
        i = 1;
    }
    proof {
        assert(s@.skip(0) == s@);
        assert(s@.skip(1) == s@.drop_first());
    }
    let mut acc: u64 = 0;
    while i < chars.len()
        invariant
            chars@ == s@,
            i <= chars@.len(),
            acc <= max,
            scan_of(s@.skip(i as int), acc as nat, max as nat) == unsigned_of(s@, max as nat),
        decreases chars@.len() - i,
    {
        let c = chars[i];
        proof {
            assert(s@.skip(i as int).drop_first() == s@.skip(i + 1));
        }
        if c < '0' || c > '9' {
            return Err(IntErrorKind::InvalidDigit);
        }
        let digit: u64 = (c as u8 - 48) as u64;
        let next: u128 = acc as u128 * 10 + digit as u128;
        if next > max as u128 {
            return Err(IntErrorKind::PosOverflow);
        }
        acc = next as u64;
        i += 1;
    }
    proof {
        assert(s@.skip(i as int) == Seq::<char>::empty());
    }
    Ok(acc)
}

/// `n` where it is at most `max`, else `max`.
pub open spec fn at_most(n: int, max: int) -> int {
    if n <= max {
        n
    } else {
        max
    }
}

/// `n` where it is at least `min`, else `min`.
pub open spec fn at_least(n: int, min: int) -> int {
    if n >= min {
        n
    } else {
        min
    }
}

/// `a * b`, or the greatest value where that does not fit.
pub fn saturating_mul_u64(a: u64, b: u64) -> (r: u64)
    ensures
        r == at_most(a * b, u64::MAX as int),
{
    match a.checked_mul(b) {
        Some(v) => v,
        None => u64::MAX,
    }
}

/// `a * b`, or the greatest value where that does not fit.
pub fn saturating_mul_usize(a: usize, b: usize) -> (r: usize)
    ensures
        r == at_most(a * b, usize::MAX as int),
{
    match a.checked_mul(b) {
        Some(v) => v,
        None => usize::MAX,
    }
}

/// The smaller of two numbers.
pub fn min_u64(a: u64, b: u64) -> (r: u64)
    ensures
        r == at_most(a as int, b as int),
{
    if a <= b {
        a
    } else {
        b
    }
}

/// The greater of two numbers.
pub fn max_u64(a: u64, b: u64) -> (r: u64)
    ensures
        r == at_least(a as int, b as int),
{
    if a >= b {
        a
    } else {
        b
    }
}

/// The smaller of two numbers.
pub fn min_usize(a: usize, b: usize) -> (r: usize)
    ensures
        r == at_most(a as int, b as int),
{
    if a <= b {
        a
    } else {
        b
    }
}

/// The greater of two numbers.
pub fn max_usize(a: usize, b: usize) -> (r: usize)
    ensures
        r == at_least(a as int, b as int),
{
    if a >= b {
        a
    } else {
        b
    }
}

/// `value`, or the greatest `i32` where it does not fit.
pub fn usize_to_i32(value: usize) -> (r: i32)
    ensures
        r == at_most(value as int, i32::MAX as int),
{
    if value > 0x7fff_ffff {
        i32::MAX
    } else {
        value as i32
    }
}

/// `value`, or the greatest `i64` where it does not fit.
pub fn usize_to_i64(value: usize) -> (r: i64)
    ensures
        r == at_most(value as int, i64::MAX as int),
{
    u64_to_i64(value as u64)
}

/// `value`, or the greatest `i64` where it does not fit.
pub fn u64_to_i64(value: u64) -> (r: i64)
    ensures
        r == at_most(value as int, i64::MAX as int),
{
    if value > 0x7fff_ffff_ffff_ffff {
        i64::MAX
    } else {
        value as i64
    }
}

/// `value`, or the greatest `i64` where it does not fit.
pub fn u128_to_i64(value: u128) -> (r: i64)
    ensures
        r == at_most(value as int, i64::MAX as int),
{
    if value > 0x7fff_ffff_ffff_ffff {
        i64::MAX
    } else {
        value as i64
    }
}

// ---------------------------------------------------------------------------
// Laws

proof fn lemma_scan_append(front: Seq<char>, back: Seq<char>, acc: nat, max: nat)
    ensures
        scan_of(front + back, acc, max) == (match scan_of(front, acc, max) {
            Ok(value) => scan_of(back, value, max),
            Err(kind) => Err(kind),
        }),
    decreases front.len(),
{
    let whole = front + back;
    if front.len() == 0 {
        assert(whole == back);
    } else {
        assert(whole.drop_first() == front.drop_first() + back);
        assert(whole[0] == front[0]);
        if is_digit(front[0]) {
            lemma_scan_append(
                front.drop_first(),
                back,
                acc * 10 + digit_value(front[0]),
                max,
            );
        }
    }
}

proof fn lemma_scan_decimal(n: nat, max: nat)
    requires
        n <= max,
    ensures
        scan_of(decimal_of(n), 0, max) == Ok::<nat, IntErrorKind>(n),
        decimal_of(n).len() > 0,
        is_digit(decimal_of(n)[0]),
    decreases n,
{
    reveal_with_fuel(scan_of, 2);
    let digits = decimal_of(n);
    if n < 10 {
        let c = digit_char(n);
        assert(digit_value(c) == n);
        assert(digits.drop_first() == Seq::<char>::empty());
    } else {
        lemma_scan_decimal(n / 10, max);
        let c = digit_char(n % 10);
        assert(digit_value(c) == n % 10);
        let front = decimal_of(n / 10);
        assert(digits == front + seq![c]);
        lemma_scan_append(front, seq![c], 0, max);
        assert(seq![c].drop_first() == Seq::<char>::empty());
        assert(digits[0] == front[0]);
    }
}

proof fn lemma_scan_zeros(count: nat, max: nat)
    ensures
        scan_of(Seq::new(count, |i: int| '0'), 0, max) == Ok::<nat, IntErrorKind>(0),
    decreases count,
{
    let zeros = Seq::new(count, |i: int| '0');
    if count > 0 {
        lemma_scan_zeros((count - 1) as nat, max);
        assert(zeros.drop_first() == Seq::new((count - 1) as nat, |i: int| '0'));
        assert(digit_value('0') == 0);
    }
}

/// The decimal text of a number is read back as that number, with zeros in front of it or without,
/// as long as it is not above the limit. So two numbers never have the same text.
pub proof fn law_decimal_reads_back(n: nat, other: nat, width: nat, max: nat)
    ensures
        n <= max ==> unsigned_of(decimal_of(n), max) == Ok::<nat, IntErrorKind>(n),
        n <= max ==> unsigned_of(padded_of(n, width), max) == Ok::<nat, IntErrorKind>(n),
        padded_of(n, width).len() >= width,
        decimal_of(n) == decimal_of(other) ==> n == other,
        padded_of(n, width) == padded_of(other, width) ==> n == other,
{
    lemma_padded_reads_back(n, width, max);
    let most = n + other;
    lemma_padded_reads_back(n, width, most);
    lemma_padded_reads_back(other, width, most);
}

proof fn lemma_padded_reads_back(n: nat, width: nat, max: nat)
    ensures
        n <= max ==> unsigned_of(decimal_of(n), max) == Ok::<nat, IntErrorKind>(n),
        n <= max ==> unsigned_of(padded_of(n, width), max) == Ok::<nat, IntErrorKind>(n),
{
    if n <= max {
        lemma_scan_decimal(n, max);
        let digits = decimal_of(n);
        if digits.len() < width {
            let zeros = Seq::new((width - digits.len()) as nat, |i: int| '0');
            lemma_scan_zeros((width - digits.len()) as nat, max);
            lemma_scan_append(zeros, digits, 0, max);
            assert(padded_of(n, width)[0] == zeros[0]);
        }
    }
}

/// A text is a number only where it has digits, and nothing else but one `+` in front of them, and
/// the number is not above the limit.
pub proof fn law_numbers_are_digits(s: Seq<char>, max: nat)
    requires
        unsigned_of(s, max) is Ok,
    ensures
        unsigned_of(s, max)->Ok_0 <= max,
        s.len() > 0,
        s[0] == '+' ==> s.len() > 1,
        forall|i: int| 0 <= i < s.len() ==> '0' <= #[trigger] s[i] <= '9' || i == 0 && s[0] == '+',
{
    let digits = if s[0] == '+' {
        s.drop_first()
    } else {
        s
    };
    lemma_scanned_digits(digits, 0, max);
    assert forall|i: int| 0 <= i < s.len() implies '0' <= #[trigger] s[i] <= '9' || i == 0 && s[0]
        == '+' by {
        if s[0] == '+' {
            if i > 0 {
                assert(digits[i - 1] == s[i]);
            }
        } else {
            assert(digits[i] == s[i]);
        }
    }
}

proof fn lemma_scanned_digits(digits: Seq<char>, acc: nat, max: nat)
    requires
        scan_of(digits, acc, max) is Ok,
        acc <= max,
    ensures
        scan_of(digits, acc, max)->Ok_0 <= max,
        forall|i: int| 0 <= i < digits.len() ==> is_digit(#[trigger] digits[i]),
    decreases digits.len(),
{
    if digits.len() > 0 {
        let rest = digits.drop_first();
        lemma_scanned_digits(rest, acc * 10 + digit_value(digits[0]), max);
        assert forall|i: int| 0 <= i < digits.len() implies is_digit(#[trigger] digits[i]) by {
            if i > 0 {
                assert(rest[i - 1] == digits[i]);
            }
        }
    }
}

}
